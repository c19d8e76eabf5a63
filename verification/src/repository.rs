//! The match-ups of one store, and whether they have been saved.

use crate::data::MatchUp;
use vstd::prelude::*;

verus! {

/// The match-ups of one store, in the order in which they were added.
///
/// The repository does not touch the backing file. It keeps the collection,
/// and it keeps count of whether the collection may differ from what the file
/// holds: whoever drives the repository writes the file when it says so.
pub struct MatchUpRepository<A> {
    match_ups: Vec<MatchUp<A>>,
    unsaved: bool,
}

impl<A> View for MatchUpRepository<A> {
    type V = Seq<MatchUp<A>>;

    closed spec fn view(&self) -> Seq<MatchUp<A>> {
        self.match_ups@
    }
}

impl<A> MatchUpRepository<A> {
    /// The collection may differ from what the backing file holds.
    pub closed spec fn unsaved(&self) -> bool {
        self.unsaved
    }

    /// Opens a store on what its backing file held: `stored` is the
    /// collection read from the file, or `None` where there was no file.
    ///
    /// Without a file the store starts empty and unsaved, so that the file
    /// comes to exist as soon as the caller saves.
    pub fn new(stored: Option<Vec<MatchUp<A>>>) -> (store: Self)
        ensures
            stored matches Some(match_ups) ==> store@ == match_ups@ && !store.unsaved(),
            stored is None ==> store@ == Seq::<MatchUp<A>>::empty() && store.unsaved(),
    {
        match stored {
            Some(match_ups) => MatchUpRepository { match_ups, unsaved: false },
            None => MatchUpRepository { match_ups: Vec::new(), unsaved: true },
        }
    }

    /// Whether the collection may differ from what the backing file holds.
    pub fn is_unsaved(&self) -> (unsaved: bool)
        ensures
            unsaved == self.unsaved(),
    {
        self.unsaved
    }

    /// Appends `match_up` behind the match-ups added before.
    pub fn add_match_up(&mut self, match_up: MatchUp<A>)
        ensures
            final(self)@ == old(self)@.push(match_up),
            final(self).unsaved(),
    {
        self.match_ups.push(match_up);
        self.unsaved = true;
    }

    /// Hands out the collection for changes in place.
    ///
    /// Whatever the caller does to it is the store's new content. Nothing is
    /// saved on that account: the store only counts as unsaved from here on.
    pub fn get_match_ups(&mut self) -> (match_ups: &mut Vec<MatchUp<A>>)
        ensures
            match_ups@ == old(self)@,
            final(self)@ == final(match_ups)@,
            final(self).unsaved(),
    {
        self.unsaved = true;
        &mut self.match_ups
    }

    /// What is to be written to the backing file: the whole collection, in
    /// order. The store counts as saved from here on.
    pub fn save(&mut self) -> (image: &Vec<MatchUp<A>>)
        ensures
            image@ == old(self)@,
            final(self)@ == old(self)@,
            !final(self).unsaved(),
    {
        self.unsaved = false;
        &self.match_ups
    }

    /// Removes the match-up at `index`, counted from zero. Those before it
    /// stay where they are, those behind it move up by one.
    pub fn delete(&mut self, index: usize)
        requires
            index < old(self)@.len(),
        ensures
            final(self)@ == old(self)@.remove(index as int),
            final(self)@.len() == old(self)@.len() - 1,
            forall|i: int| 0 <= i < index ==> final(self)@[i] == old(self)@[i],
            forall|i: int| index <= i < final(self)@.len() ==> final(self)@[i] == old(self)@[i + 1],
            final(self).unsaved(),
    {
        self.match_ups.remove(index);
        self.unsaved = true;
    }
}

} // verus!
