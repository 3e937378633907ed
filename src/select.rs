use vstd::prelude::*;
use crate::range::{within_bounds, in_range};
use crate::context::{window_low, window_high, context_window};

verus! {

/// Whether line `i` opens a context window: it exists, matches the query,
/// and passes the range filter.
pub open spec fn opens_window(matched: Seq<bool>, from: Option<usize>, to: Option<usize>, i: int) -> bool {
    &&& 0 <= i < matched.len()
    &&& matched[i]
    &&& within_bounds(i, from, to)
}

/// Whether line `j` lies in the context window around line `i`.
pub open spec fn in_window(i: int, j: int, before: usize, after: usize) -> bool {
    i - before <= j <= i + after
}

/// Whether line `j` lies in the window of some line below `limit` that
/// opens one.
pub open spec fn covered_below(
    matched: Seq<bool>,
    from: Option<usize>,
    to: Option<usize>,
    before: usize,
    after: usize,
    limit: int,
    j: int,
) -> bool {
    exists|i: int|
        0 <= i < limit && #[trigger] opens_window(matched, from, to, i) && in_window(i, j, before, after)
}

/// Whether search mode shows line `j`: it is a line of the document and lies
/// in the context window of a matching, in-range line.
pub open spec fn selected(
    matched: Seq<bool>,
    from: Option<usize>,
    to: Option<usize>,
    before: usize,
    after: usize,
    j: int,
) -> bool {
    &&& 0 <= j < matched.len()
    &&& covered_below(matched, from, to, before, after, matched.len() as int, j)
}

/// Strictly increasing, so free of repeats.
pub open spec fn ascending(r: Seq<usize>) -> bool {
    forall|a: int, b: int| 0 <= a < b < r.len() ==> r[a] < r[b]
}

/// `r` lists, in increasing order, exactly the lines that search mode shows.
pub open spec fn is_selection(
    r: Seq<usize>,
    matched: Seq<bool>,
    from: Option<usize>,
    to: Option<usize>,
    before: usize,
    after: usize,
) -> bool {
    &&& ascending(r)
    &&& forall|k: int| 0 <= k < r.len() ==> selected(matched, from, to, before, after, #[trigger] r[k] as int)
    &&& forall|j: int| selected(matched, from, to, before, after, j) ==> exists|k: int| 0 <= k < r.len() && #[trigger] r[k] == j
}

/// The lines that search mode shows, given for each line of the document
/// whether it matches the query: every line within `before` lines above or
/// `after` lines below a matching line that passes the range filter, each
/// once, in increasing order.
pub fn select_lines(
    matched: &Vec<bool>,
    from: Option<usize>,
    to: Option<usize>,
    before: usize,
    after: usize,
) -> (r: Vec<usize>)
    ensures
        is_selection(r@, matched@, from, to, before, after),
{
    let ghost m = matched@;
    let n: usize = matched.len();
    let mut emitted: Vec<bool> = Vec::new();
    while emitted.len() < n
        invariant
            emitted.len() <= n,
            forall|x: int| 0 <= x < emitted.len() ==> !emitted@[x],
        decreases n - emitted.len(),
    {
        emitted.push(false);
    }
    let mut out: Vec<usize> = Vec::new();
    let mut i: usize = 0;
    while i < n
        invariant
            n == m.len(),
            m == matched@,
            i <= n,
            emitted.len() == n,
            forall|x: int| 0 <= x < n ==> (#[trigger] emitted@[x] <==> covered_below(m, from, to, before, after, i as int, x)),
            forall|x: int, y: int|
                window_low(i as int, before as int) <= x <= y < n && #[trigger] emitted@[y] ==> #[trigger] emitted@[x],
            ascending(out@),
            forall|k: int| 0 <= k < out.len() ==> #[trigger] out@[k] < n,
            forall|k: int| 0 <= k < out.len() ==> emitted@[#[trigger] out@[k] as int],
            forall|x: int| 0 <= x < n && #[trigger] emitted@[x] ==> exists|k: int| 0 <= k < out.len() && #[trigger] out@[k] == x,
        decreases n - i,
    {
        if in_range(i, from, to) && matched[i] {
            let (lo, hi) = context_window(i, before, after, n);
            let mut j: usize = lo;
            while j <= hi
                invariant
                    n == m.len(),
                    m == matched@,
                    i < n,
                    hi < n,
                    lo as int == window_low(i as int, before as int),
                    hi as int == window_high(i as int, after as int, n as int),
                    lo <= j <= hi + 1,
                    emitted.len() == n,
                    opens_window(m, from, to, i as int),
                    forall|x: int| 0 <= x < n ==> (#[trigger] emitted@[x] <==> (covered_below(m, from, to, before, after, i as int, x) || (lo <= x < j))),
                    forall|x: int, y: int| lo <= x <= y < n && #[trigger] emitted@[y] ==> #[trigger] emitted@[x],
                    ascending(out@),
                    forall|k: int| 0 <= k < out.len() ==> #[trigger] out@[k] < n,
                    forall|k: int| 0 <= k < out.len() ==> emitted@[#[trigger] out@[k] as int],
                    forall|x: int| 0 <= x < n && #[trigger] emitted@[x] ==> exists|k: int| 0 <= k < out.len() && #[trigger] out@[k] == x,
                decreases hi + 1 - j,
            {
                if !emitted[j] {
                    assert forall|k: int| 0 <= k < out.len() implies out@[k] < j by {
                        if out@[k] >= j {
                            assert(emitted@[out@[k] as int]);
                        }
                    }
                    let ghost old_out = out@;
                    emitted.set(j, true);
                    out.push(j);
                    assert(out@[out.len() - 1] == j);
                    assert forall|x: int| 0 <= x < n && #[trigger] emitted@[x] implies exists|k: int| 0 <= k < out.len() && #[trigger] out@[k] == x by {
                        if x == j {
                            assert(out@[out.len() - 1] == x);
                        } else {
                            let k = choose|k: int| 0 <= k < old_out.len() && #[trigger] old_out[k] == x;
                            assert(out@[k] == x);
                        }
                    }
                }
                j = j + 1;
            }
            assert forall|x: int| 0 <= x < n implies (#[trigger] emitted@[x] <==> covered_below(m, from, to, before, after, i + 1, x)) by {
                if lo <= x <= hi {
                    assert(in_window(i as int, x, before, after));
                }
                if covered_below(m, from, to, before, after, i + 1, x) {
                    let w = choose|w: int| 0 <= w < i + 1 && #[trigger] opens_window(m, from, to, w) && in_window(w, x, before, after);
                    if w < i {
                        assert(covered_below(m, from, to, before, after, i as int, x));
                    }
                }
                if covered_below(m, from, to, before, after, i as int, x) {
                    let w = choose|w: int| 0 <= w < i && #[trigger] opens_window(m, from, to, w) && in_window(w, x, before, after);
                    assert(opens_window(m, from, to, w) && in_window(w, x, before, after));
                    assert(covered_below(m, from, to, before, after, i + 1, x));
                }
            }
        } else {
            assert forall|x: int| 0 <= x < n implies (#[trigger] emitted@[x] <==> covered_below(m, from, to, before, after, i + 1, x)) by {
                if covered_below(m, from, to, before, after, i + 1, x) {
                    let w = choose|w: int| 0 <= w < i + 1 && #[trigger] opens_window(m, from, to, w) && in_window(w, x, before, after);
                    assert(w != i);
                    assert(covered_below(m, from, to, before, after, i as int, x));
                }
                if covered_below(m, from, to, before, after, i as int, x) {
                    let w = choose|w: int| 0 <= w < i && #[trigger] opens_window(m, from, to, w) && in_window(w, x, before, after);
                    assert(covered_below(m, from, to, before, after, i + 1, x));
                }
            }
        }
        i = i + 1;
    }
    assert forall|k: int| 0 <= k < out.len() implies selected(m, from, to, before, after, #[trigger] out@[k] as int) by {
        assert(emitted@[out@[k] as int]);
    }
    assert forall|x: int| selected(m, from, to, before, after, x) implies exists|k: int| 0 <= k < out.len() && #[trigger] out@[k] == x by {
        assert(emitted@[x]);
    }
    out
}

} // verus!
