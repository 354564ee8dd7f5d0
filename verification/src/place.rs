//! Moving values in and out of places.

use vstd::prelude::*;

verus! {

/// Puts `value` into `place` and hands out what stood there.
pub(crate) fn replace<T>(place: &mut T, value: T) -> (r: T)
    ensures
        r == *old(place),
        *final(place) == value,
{
    let mut other = value;
    std::mem::swap(place, &mut other);
    other
}

} // verus!
