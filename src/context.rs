use vstd::prelude::*;

verus! {

/// Lowest line of the context window around line `i`.
pub open spec fn window_low(i: int, before: int) -> int {
    if before < i {
        i - before
    } else {
        0
    }
}

/// Highest line of the context window around line `i`, in a document of `n`
/// lines.
pub open spec fn window_high(i: int, after: int, n: int) -> int {
    if i + after < n {
        i + after
    } else {
        n - 1
    }
}

/// The inclusive window `[low, high]` of lines shown around a match at line
/// `i` of a document of `n` lines: `before` lines above it and `after` lines
/// below it, clipped to the document.
pub fn context_window(i: usize, before: usize, after: usize, n: usize) -> (r: (usize, usize))
    requires
        i < n,
    ensures
        r.0 as int == window_low(i as int, before as int),
        r.1 as int == window_high(i as int, after as int, n as int),
        r.0 <= i <= r.1 < n,
{
    let low: usize = if before < i {
        i - before
    } else {
        0
    };
    let high: usize = if after < n - i {
        i + after
    } else {
        n - 1
    };
    (low, high)
}

} // verus!
