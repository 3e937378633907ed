use vstd::prelude::*;
use crate::range::within_bounds;
use crate::context::{window_low, window_high};
use crate::matcher::{has_substring, lower_of, query_matches, regex_accepts, regex_source};
use crate::select::{ascending, is_selection, opens_window, selected};
use crate::search::first_in_range;

verus! {

/// Without context lines, every line that search mode shows lies within the
/// range bounds. (Context lines around a match near a bound may lie outside
/// it.)
pub proof fn search_without_context_stays_in_range(
    matched: Seq<bool>,
    from: Option<usize>,
    to: Option<usize>,
    r: Seq<usize>,
)
    requires
        is_selection(r, matched, from, to, 0, 0),
    ensures
        forall|k: int| 0 <= k < r.len() ==> within_bounds(#[trigger] r[k] as int, from, to),
{
    assert forall|k: int| 0 <= k < r.len() implies within_bounds(#[trigger] r[k] as int, from, to) by {
        assert(selected(matched, from, to, 0, 0, r[k] as int));
        let i = choose|i: int|
            0 <= i < matched.len() && #[trigger] opens_window(matched, from, to, i) && i - 0 <= r[k] as int
                <= i + 0;
        assert(i == r[k]);
    }
}

/// Every line that show mode shows lies within the range bounds.
pub proof fn show_mode_stays_in_range(
    lines: Seq<Seq<char>>,
    from: Option<usize>,
    to: Option<usize>,
    r: Seq<usize>,
)
    requires
        forall|k: int| 0 <= k < r.len() ==> first_in_range(lines, from, to, #[trigger] r[k] as int),
    ensures
        forall|k: int| 0 <= k < r.len() ==> within_bounds(#[trigger] r[k] as int, from, to),
{
}

/// Search mode shows no line twice, and shows lines in increasing order,
/// however the context windows overlap.
pub proof fn search_mode_no_repeats(
    matched: Seq<bool>,
    from: Option<usize>,
    to: Option<usize>,
    before: usize,
    after: usize,
    r: Seq<usize>,
)
    requires
        is_selection(r, matched, from, to, before, after),
    ensures
        forall|a: int, b: int| 0 <= a < r.len() && 0 <= b < r.len() && a != b ==> r[a] != r[b],
        ascending(r),
{
    assert forall|a: int, b: int| 0 <= a < r.len() && 0 <= b < r.len() && a != b implies r[a] != r[b] by {
        if a < b {
            assert(r[a] < r[b]);
        } else {
            assert(r[b] < r[a]);
        }
    }
}

/// Show mode shows each distinct text once: no two shown lines have the same
/// text, and a line is left out only where an earlier line within the range
/// had its text.
pub proof fn show_mode_texts_distinct(
    lines: Seq<Seq<char>>,
    from: Option<usize>,
    to: Option<usize>,
    r: Seq<usize>,
)
    requires
        ascending(r),
        forall|k: int| 0 <= k < r.len() ==> first_in_range(lines, from, to, #[trigger] r[k] as int),
    ensures
        forall|a: int, b: int|
            0 <= a < r.len() && 0 <= b < r.len() && a != b ==> lines[r[a] as int] != lines[r[b] as int],
{
    assert forall|a: int, b: int|
        0 <= a < r.len() && 0 <= b < r.len() && a != b implies lines[r[a] as int] != lines[r[b] as int] by {
        assert(first_in_range(lines, from, to, r[a] as int));
        assert(first_in_range(lines, from, to, r[b] as int));
        if a < b {
            assert(r[a] < r[b]);
        } else {
            assert(r[b] < r[a]);
        }
    }
}

/// The context window is clipped to the document: around the first line it
/// starts at line 0 whatever `before` is, and around the last line it ends at
/// the last line whatever `after` is.
pub proof fn context_window_clipped(before: usize, after: usize, n: usize)
    requires
        n > 0,
    ensures
        window_low(0, before as int) == 0,
        window_high(n - 1, after as int, n as int) == n - 1,
        forall|i: int| 0 <= i < n ==> 0 <= #[trigger] window_low(i, before as int) <= i,
        forall|i: int| 0 <= i < n ==> i <= #[trigger] window_high(i, after as int, n as int) < n,
{
}

/// A query that the regex syntax rejects is still matched, as a plain
/// substring (of the lower-cased texts when case is ignored), never refused.
pub proof fn invalid_regex_matches_as_substring(query: Seq<char>, insensitive: bool, line: Seq<char>)
    requires
        !regex_accepts(regex_source(query, insensitive)),
    ensures
        query_matches(query, insensitive, line) == if insensitive {
            has_substring(lower_of(line), lower_of(query))
        } else {
            has_substring(line, query)
        },
{
}

} // verus!
