use vstd::prelude::*;

verus! {

/// Whether line `i` lies within the inclusive bounds `from` and `to`; an
/// absent bound leaves that side open.
pub open spec fn within_bounds(i: int, from: Option<usize>, to: Option<usize>) -> bool {
    &&& (from matches Some(f) ==> f <= i)
    &&& (to matches Some(t) ==> i <= t)
}

/// Tells whether line `i` passes the range filter.
pub fn in_range(i: usize, from: Option<usize>, to: Option<usize>) -> (r: bool)
    ensures
        r == within_bounds(i as int, from, to),
{
    let above = match from {
        Some(f) => f <= i,
        None => true,
    };
    let below = match to {
        Some(t) => i <= t,
        None => true,
    };
    above && below
}

} // verus!
