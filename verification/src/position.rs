//! Positions as users count them.

use vstd::prelude::*;

verus! {

/// Where the entry that a user calls `position` stands in a list of `len`
/// entries.
///
/// Users count from one, lists from zero. A position that names no entry, zero
/// among them, has no index.
pub fn index_of_position(position: usize, len: usize) -> (index: Option<usize>)
    ensures
        1 <= position <= len ==> index == Some((position - 1) as usize),
        !(1 <= position <= len) ==> index is None,
{
    if position >= 1 && position <= len {
        Some(position - 1)
    } else {
        None
    }
}

} // verus!
