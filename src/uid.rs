//! Identity of shapes.
//!
//! Two shapes with the same geometry are still distinct objects; what tells them
//! apart is an identifier drawn from a counter when the shape is built.
use vstd::prelude::*;

verus! {

/// Draws the next identifier from `counter`: hands out its current value and
/// advances it by one, wrapping to zero after `usize::MAX`.
pub fn fetch_uid(counter: &mut usize) -> (uid: usize)
    ensures
        uid == *old(counter),
        *old(counter) < usize::MAX ==> *final(counter) == *old(counter) + 1,
        *old(counter) == usize::MAX ==> *final(counter) == 0,
{
    let uid = *counter;
    *counter = counter.wrapping_add(1);
    uid
}

} // verus!
