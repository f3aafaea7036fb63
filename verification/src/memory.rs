//! Memory that may not be there.
use vstd::prelude::*;

verus! {

/// Reserves room for `requested` more items, where there is memory for them, through
/// `Vec::try_reserve_exact`: what the vector holds stays the same, and room for nothing is always
/// there.
///
/// Whether there is memory for more is left unsaid.
#[verifier::external_body]
pub(crate) fn reserve<T>(target: &mut Vec<T>, requested: usize) -> (reserved: bool)
    ensures
        final(target)@ == old(target)@,
        requested == 0 ==> reserved,
{
    target.try_reserve_exact(requested).is_ok()
}

/// An empty vector with room for as many items, where there is memory for them.
pub(crate) fn room_for<T>(count: usize) -> (room: Option<Vec<T>>)
    ensures
        room matches Some(list) ==> list@.len() == 0,
        count == 0 ==> room is Some,
{
    let mut list: Vec<T> = Vec::new();
    if reserve(&mut list, count) {
        Some(list)
    } else {
        None
    }
}

} // verus!
