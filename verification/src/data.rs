//! Match-ups and the bets placed on them.

use vstd::prelude::*;

verus! {

/// A stake of `amount` that `user` has placed on `athlete`.
#[derive(Debug)]
pub struct Bet<A> {
    pub user: String,
    pub amount: A,
    pub athlete: String,
}

/// What a bet is, with its strings as character sequences.
pub struct BetView<A> {
    pub user: Seq<char>,
    pub amount: A,
    pub athlete: Seq<char>,
}

impl<A> View for Bet<A> {
    type V = BetView<A>;

    open spec fn view(&self) -> BetView<A> {
        BetView { user: self.user@, amount: self.amount, athlete: self.athlete@ }
    }
}

/// Why a bet or a settlement was refused.
#[derive(PartialEq, Eq, Structural, Debug)]
pub enum BetError {
    /// The named athlete is neither of the two competitors of the match-up.
    WrongAthlete,
}

/// Two competitors, the bets placed on them in the order in which they came,
/// and the winner once one has been declared.
#[derive(Debug)]
pub struct MatchUp<A> {
    pub athlete_one: String,
    pub athlete_two: String,
    pub bets: Vec<Bet<A>>,
    pub winner: Option<String>,
}

/// What a match-up is, with its strings as character sequences.
pub struct MatchUpView<A> {
    pub athlete_one: Seq<char>,
    pub athlete_two: Seq<char>,
    pub bets: Seq<BetView<A>>,
    pub winner: Option<Seq<char>>,
}

/// The views of `bets`, in the same order.
pub open spec fn bet_views<A>(bets: Seq<Bet<A>>) -> Seq<BetView<A>> {
    bets.map_values(|bet: Bet<A>| bet@)
}

impl<A> View for MatchUp<A> {
    type V = MatchUpView<A>;

    open spec fn view(&self) -> MatchUpView<A> {
        MatchUpView {
            athlete_one: self.athlete_one@,
            athlete_two: self.athlete_two@,
            bets: bet_views(self.bets@),
            winner: match self.winner {
                Some(name) => Some(name@),
                None => None,
            },
        }
    }
}

impl<A> MatchUpView<A> {
    /// `name` is one of the two competitors.
    pub open spec fn has_athlete(self, name: Seq<char>) -> bool {
        self.athlete_one == name || self.athlete_two == name
    }

    /// Every bet backs one of the two competitors.
    pub open spec fn bets_back_competitors(self) -> bool {
        forall|i: int| 0 <= i < self.bets.len() ==> self.has_athlete(#[trigger] self.bets[i].athlete)
    }
}

impl<A> MatchUp<A> {
    /// A match-up between `athlete_one` and `athlete_two`, with no bet placed
    /// and no winner declared. The two names are taken as they are: nothing
    /// asks that they differ.
    pub fn new(athlete_one: String, athlete_two: String) -> (match_up: Self)
        ensures
            match_up.athlete_one == athlete_one,
            match_up.athlete_two == athlete_two,
            match_up.bets@ == Seq::<Bet<A>>::empty(),
            match_up.winner is None,
            match_up@.bets_back_competitors(),
    {
        MatchUp { athlete_one, athlete_two, bets: Vec::new(), winner: None }
    }

    /// Whether `name` is one of the two competitors.
    pub fn athlete_exists(&self, name: &str) -> (known: bool)
        ensures
            known == self@.has_athlete(name@),
    {
        let name = name.to_owned();
        self.athlete_one == name || self.athlete_two == name
    }

    /// Places a stake of `amount` by `user` on `athlete`.
    ///
    /// The bet is refused, and the match-up left as it was, where `athlete` is
    /// neither competitor. Otherwise it is appended behind the bets placed
    /// before. Neither `user` nor `amount` is examined.
    pub fn add_bet(&mut self, athlete: String, user: String, amount: A) -> (placed: Result<(), BetError>)
        ensures
            !old(self)@.has_athlete(athlete@) ==> ({
                &&& placed == Err::<(), BetError>(BetError::WrongAthlete)
                &&& *final(self) == *old(self)
            }),
            old(self)@.has_athlete(athlete@) ==> ({
                &&& placed == Ok::<(), BetError>(())
                &&& final(self).bets@ == old(self).bets@.push((Bet { user, amount, athlete }))
                &&& final(self).bets@.len() == old(self).bets@.len() + 1
                &&& final(self).athlete_one == old(self).athlete_one
                &&& final(self).athlete_two == old(self).athlete_two
                &&& final(self).winner == old(self).winner
            }),
            old(self)@.bets_back_competitors() ==> final(self)@.bets_back_competitors(),
    {
        if !self.athlete_exists(athlete.as_str()) {
            return Err(BetError::WrongAthlete);
        }
        self.bets.push(Bet { user, amount, athlete });
        proof {
            let before = old(self)@;
            let after = self@;
            assert(before.bets_back_competitors() ==> after.bets_back_competitors()) by {
                if before.bets_back_competitors() {
                    assert forall|i: int| 0 <= i < after.bets.len() implies after.has_athlete(
                        #[trigger] after.bets[i].athlete,
                    ) by {
                        if i < before.bets.len() {
                            assert(before.has_athlete(before.bets[i].athlete));
                        }
                    }
                }
            }
        }
        Ok(())
    }

    /// The competitor that a user picks by number: the first for 1, the
    /// second for 2, none for any other number.
    pub fn athlete_numbered(&self, number: usize) -> (athlete: Option<&String>)
        ensures
            number == 1 ==> athlete == Some(&self.athlete_one),
            number == 2 ==> athlete == Some(&self.athlete_two),
            number != 1 && number != 2 ==> athlete is None,
    {
        if number == 1 {
            Some(&self.athlete_one)
        } else if number == 2 {
            Some(&self.athlete_two)
        } else {
            None
        }
    }

    /// Withdraws the bet at `index`, counted from zero, and hands it back.
    /// The bets behind it move up by one. Where there is no bet at `index`,
    /// nothing is withdrawn and the match-up is left as it was.
    pub fn delete_bet(&mut self, index: usize) -> (withdrawn: Option<Bet<A>>)
        ensures
            index >= old(self).bets@.len() ==> ({
                &&& withdrawn is None
                &&& *final(self) == *old(self)
            }),
            index < old(self).bets@.len() ==> ({
                &&& withdrawn == Some(old(self).bets@[index as int])
                &&& final(self).bets@ == old(self).bets@.remove(index as int)
                &&& final(self).athlete_one == old(self).athlete_one
                &&& final(self).athlete_two == old(self).athlete_two
                &&& final(self).winner == old(self).winner
            }),
            old(self)@.bets_back_competitors() ==> final(self)@.bets_back_competitors(),
    {
        if index >= self.bets.len() {
            return None;
        }
        let bet = self.bets.remove(index);
        proof {
            let before = old(self)@;
            let after = self@;
            if before.bets_back_competitors() {
                assert forall|i: int| 0 <= i < after.bets.len() implies after.has_athlete(
                    #[trigger] after.bets[i].athlete,
                ) by {
                    if i < index {
                        assert(before.has_athlete(before.bets[i].athlete));
                    } else {
                        assert(before.has_athlete(before.bets[i + 1].athlete));
                    }
                }
            }
        }
        Some(bet)
    }
}

} // verus!
