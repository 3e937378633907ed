use vstd::prelude::*;
use ansi_term::Colour::Cyan;
use crate::range::{within_bounds, in_range};
use crate::lines::{text_lines, split_lines};
use crate::matcher::{query_matches, Matcher};
use crate::select::{ascending, is_selection, select_lines, selected};

verus! {

/// A matching line as it is shown: between the terminal codes that turn the
/// text cyan and reset the style.
pub open spec fn highlighted(s: Seq<char>) -> Seq<char> {
    seq!['\x1b', '[', '3', '6', 'm'] + s + seq!['\x1b', '[', '0', 'm']
}

/// The text shown for a line: highlighted where it matches the query.
pub open spec fn shown_text(line: Seq<char>, is_match: bool) -> Seq<char> {
    if is_match {
        highlighted(line)
    } else {
        line
    }
}

/// For each line, whether it matches the query.
pub open spec fn line_matches(query: Seq<char>, insensitive: bool, lines: Seq<Seq<char>>) -> Seq<bool> {
    Seq::new(lines.len(), |i: int| query_matches(query, insensitive, lines[i]))
}

/// A bound given by reference, read as a value.
pub open spec fn bound_value(b: Option<&usize>) -> Option<usize> {
    match b {
        Some(v) => Some(*v),
        None => None,
    }
}

/// Whether show mode shows line `j`: it passes the range filter and no
/// earlier line within the range has the same text.
pub open spec fn first_in_range(lines: Seq<Seq<char>>, from: Option<usize>, to: Option<usize>, j: int) -> bool {
    &&& 0 <= j < lines.len()
    &&& within_bounds(j, from, to)
    &&& forall|i: int| 0 <= i < j && within_bounds(i, from, to) ==> lines[i] != lines[j]
}

/// Relies on ansi_term's Colour::paint and the Display of the painted string:
/// for a plain colour it writes `ESC[36m` for cyan, the text, then `ESC[0m`.
#[verifier::external_body]
fn paint_cyan(s: &str) -> (r: String)
    ensures
        r@ == highlighted(s@),
{
    format!("{}", Cyan.paint(s))
}

/// Search mode. Returns the lines shown for `query` in `contents` and their
/// line numbers: each line that matches the query and passes the range
/// filter, with `before` lines above and `after` lines below it, every line
/// once and in increasing order. A shown line that matches the query is
/// highlighted, whether or not it opened a window. `insensitive` asks that
/// case be ignored.
pub fn search(
    query: &str,
    contents: &str,
    from: Option<&usize>,
    to: Option<&usize>,
    before: usize,
    after: usize,
    insensitive: bool,
) -> (r: (Vec<String>, Vec<usize>))
    ensures
        r.0.len() == r.1.len(),
        is_selection(
            r.1@,
            line_matches(query@, insensitive, text_lines(contents@)),
            bound_value(from),
            bound_value(to),
            before,
            after,
        ),
        forall|k: int|
            0 <= k < r.0.len() ==> (#[trigger] r.0@[k])@ == shown_text(
                text_lines(contents@)[r.1@[k] as int],
                line_matches(query@, insensitive, text_lines(contents@))[r.1@[k] as int],
            ),
{
    let ghost lines_v = text_lines(contents@);
    let ghost m = line_matches(query@, insensitive, lines_v);
    let lines = split_lines(contents);
    assert(forall|x: int| 0 <= x < lines.len() ==> (#[trigger] lines@[x])@ == lines_v[x]) by {
        assert(forall|x: int| 0 <= x < lines.len() ==> #[trigger] lines.deep_view()[x] == lines@[x]@);
    }
    let matcher = Matcher::new(query, insensitive);
    let mut flags: Vec<bool> = Vec::new();
    let mut i: usize = 0;
    while i < lines.len()
        invariant
            matcher.wf(),
            matcher@ == (query@, insensitive),
            m == line_matches(query@, insensitive, lines_v),
            lines@.len() == lines_v.len(),
            m.len() == lines_v.len(),
            forall|x: int| 0 <= x < lines.len() ==> (#[trigger] lines@[x])@ == lines_v[x],
            i <= lines.len(),
            flags@ == m.take(i as int),
        decreases lines.len() - i,
    {
        let hit = matcher.matches(lines[i].as_str());
        assert(m[i as int] == query_matches(query@, insensitive, lines_v[i as int]));
        flags.push(hit);
        assert(flags@ =~= m.take(i + 1));
        i = i + 1;
    }
    assert(flags@ =~= m);
    let low = match from {
        Some(f) => Some(*f),
        None => None,
    };
    let high = match to {
        Some(t) => Some(*t),
        None => None,
    };
    let picks = select_lines(&flags, low, high, before, after);
    let mut results: Vec<String> = Vec::new();
    let mut k: usize = 0;
    while k < picks.len()
        invariant
            flags@ == m,
            lines@.len() == lines_v.len(),
            m.len() == lines_v.len(),
            forall|x: int| 0 <= x < lines.len() ==> (#[trigger] lines@[x])@ == lines_v[x],
            is_selection(picks@, m, low, high, before, after),
            k <= picks.len(),
            results.len() == k,
            forall|q: int| 0 <= q < k ==> (#[trigger] results@[q])@ == shown_text(lines_v[picks@[q] as int], m[picks@[q] as int]),
        decreases picks.len() - k,
    {
        let j = picks[k];
        assert(selected(m, low, high, before, after, picks@[k as int] as int));
        let text = if flags[j] {
            paint_cyan(lines[j].as_str())
        } else {
            lines[j].clone()
        };
        results.push(text);
        k = k + 1;
    }
    (results, picks)
}

/// Show mode. Returns the lines of `contents` that pass the range filter and
/// their line numbers, in increasing order, leaving out every line whose text
/// an earlier line within the range already had.
pub fn run_shows(contents: &str, from: Option<usize>, to: Option<usize>) -> (r: (Vec<String>, Vec<usize>))
    ensures
        r.0.len() == r.1.len(),
        ascending(r.1@),
        forall|k: int|
            0 <= k < r.1.len() ==> first_in_range(text_lines(contents@), from, to, #[trigger] r.1@[k] as int),
        forall|k: int|
            0 <= k < r.0.len() ==> (#[trigger] r.0@[k])@ == text_lines(contents@)[r.1@[k] as int],
        forall|j: int|
            first_in_range(text_lines(contents@), from, to, j) ==> exists|k: int|
                0 <= k < r.1.len() && #[trigger] r.1@[k] == j,
{
    let ghost lines_v = text_lines(contents@);
    let lines = split_lines(contents);
    assert(forall|x: int| 0 <= x < lines.len() ==> (#[trigger] lines@[x])@ == lines_v[x]) by {
        assert(forall|x: int| 0 <= x < lines.len() ==> #[trigger] lines.deep_view()[x] == lines@[x]@);
    }
    let mut results: Vec<String> = Vec::new();
    let mut nums: Vec<usize> = Vec::new();
    let mut i: usize = 0;
    while i < lines.len()
        invariant
            lines@.len() == lines_v.len(),
            forall|x: int| 0 <= x < lines.len() ==> (#[trigger] lines@[x])@ == lines_v[x],
            i <= lines.len(),
            results.len() == nums.len(),
            ascending(nums@),
            forall|k: int| 0 <= k < nums.len() ==> #[trigger] nums@[k] < i,
            forall|k: int| 0 <= k < nums.len() ==> first_in_range(lines_v, from, to, #[trigger] nums@[k] as int),
            forall|k: int| 0 <= k < results.len() ==> (#[trigger] results@[k])@ == lines_v[nums@[k] as int],
            forall|j: int|
                0 <= j < i && first_in_range(lines_v, from, to, j) ==> exists|k: int|
                    0 <= k < nums.len() && #[trigger] nums@[k] == j,
            forall|j: int|
                0 <= j < i && within_bounds(j, from, to) ==> exists|k: int|
                    0 <= k < results.len() && (#[trigger] results@[k])@ == lines_v[j],
        decreases lines.len() - i,
    {
        if in_range(i, from, to) {
            let mut seen = false;
            let mut k: usize = 0;
            while k < results.len()
                invariant
                    k <= results.len(),
                    i < lines.len(),
                    seen == exists|q: int| 0 <= q < k && (#[trigger] results@[q])@ == lines@[i as int]@,
                decreases results.len() - k,
            {
                if results[k] == lines[i] {
                    seen = true;
                }
                k = k + 1;
            }
            if !seen {
                assert(first_in_range(lines_v, from, to, i as int)) by {
                    assert forall|p: int| 0 <= p < i && within_bounds(p, from, to) implies lines_v[p] != lines_v[i as int] by {
                        let q = choose|q: int| 0 <= q < results.len() && (#[trigger] results@[q])@ == lines_v[p];
                    }
                }
                let ghost old_nums = nums@;
                let ghost old_results = results@;
                results.push(lines[i].clone());
                nums.push(i);
                assert(nums@[nums.len() - 1] == i);
                assert forall|j: int|
                    0 <= j < i + 1 && first_in_range(lines_v, from, to, j) implies exists|k: int|
                        0 <= k < nums.len() && #[trigger] nums@[k] == j by {
                    if j < i {
                        let k = choose|k: int| 0 <= k < old_nums.len() && #[trigger] old_nums[k] == j;
                        assert(nums@[k] == j);
                    }
                }
                assert forall|j: int|
                    0 <= j < i + 1 && within_bounds(j, from, to) implies exists|k: int|
                        0 <= k < results.len() && (#[trigger] results@[k])@ == lines_v[j] by {
                    if j < i {
                        let k = choose|k: int| 0 <= k < old_results.len() && (#[trigger] old_results[k])@ == lines_v[j];
                        assert(results@[k]@ == lines_v[j]);
                    } else {
                        assert(results@[results.len() - 1]@ == lines_v[j]);
                    }
                }
            } else {
                assert(!first_in_range(lines_v, from, to, i as int)) by {
                    let q = choose|q: int| 0 <= q < results.len() && (#[trigger] results@[q])@ == lines@[i as int]@;
                    assert(nums@[q] < i);
                }
            }
        }
        i = i + 1;
    }
    (results, nums)
}

} // verus!
