use minigrep::context::context_window;
use minigrep::lines::{chars_of, split_lines};
use minigrep::matcher::{contains_chars, Matcher};
use minigrep::present::output_lines;
use minigrep::range::in_range;
use minigrep::select::select_lines;
use minigrep::{run_shows, search};

fn cyan(s: &str) -> String {
    format!("\u{1b}[36m{}\u{1b}[0m", s)
}

#[test]
fn scenario_single_match() {
    let (texts, nums) = search("beta", "alpha\nbeta\ngamma", None, None, 0, 0, false);
    assert_eq!(nums, vec![1]);
    assert_eq!(texts, vec![cyan("beta")]);
}

#[test]
fn scenario_match_with_context() {
    let (texts, nums) = search("beta", "alpha\nbeta\ngamma", None, None, 1, 1, false);
    assert_eq!(nums, vec![0, 1, 2]);
    assert_eq!(texts, vec!["alpha".to_string(), cyan("beta"), "gamma".to_string()]);
}

#[test]
fn scenario_show_mode_dedup() {
    let (texts, nums) = run_shows("a\nb\na\nc", None, None);
    assert_eq!(nums, vec![0, 1, 3]);
    assert_eq!(texts, vec!["a".to_string(), "b".to_string(), "c".to_string()]);
}

#[test]
fn scenario_no_results() {
    let (texts, nums) = search("zeta", "alpha\nbeta\ngamma", None, None, 2, 2, false);
    assert!(texts.is_empty());
    assert!(nums.is_empty());
}

#[test]
fn case_insensitive_query_matches() {
    let (texts, nums) = search("Foo", "foo bar", None, None, 0, 0, true);
    assert_eq!(nums, vec![0]);
    assert_eq!(texts, vec![cyan("foo bar")]);
    let (texts, nums) = search("Foo", "foo bar", None, None, 0, 0, false);
    assert!(nums.is_empty());
    assert!(texts.is_empty());
}

#[test]
fn invalid_regex_falls_back_to_substring() {
    let m = Matcher::new("f(o", false);
    assert!(m.matches("a f(o b"));
    assert!(!m.matches("fo"));
    let (_, nums) = search("(", "a\n(b\nc(", None, None, 0, 0, false);
    assert_eq!(nums, vec![1, 2]);
}

#[test]
fn invalid_regex_insensitive_lowercases_both_sides() {
    let m = Matcher::new("AB(", true);
    assert!(m.matches("xab(y"));
    assert!(m.matches("XAB(Y"));
    assert!(!m.matches("ab"));
}

#[test]
fn regex_query_matches_as_regex() {
    let m = Matcher::new("b.t", false);
    assert!(m.matches("a bit"));
    assert!(!m.matches("b.x"));
    let anchored = Matcher::new("^x", true);
    assert!(anchored.matches("Xy"));
    assert!(!anchored.matches("yx"));
}

#[test]
fn empty_query_matches_every_line() {
    let (_, nums) = search("", "a\n\nb", None, None, 0, 0, false);
    assert_eq!(nums, vec![0, 1, 2]);
}

#[test]
fn context_clipped_at_start() {
    assert_eq!(context_window(0, 5, 0, 3), (0, 0));
    let (_, nums) = search("alpha", "alpha\nbeta\ngamma", None, None, 5, 0, false);
    assert_eq!(nums, vec![0]);
}

#[test]
fn context_clipped_at_end() {
    assert_eq!(context_window(2, 0, 5, 3), (2, 2));
    let (_, nums) = search("gamma", "alpha\nbeta\ngamma", None, None, 0, 5, false);
    assert_eq!(nums, vec![2]);
}

#[test]
fn context_window_interior() {
    assert_eq!(context_window(5, 2, 3, 10), (3, 8));
    assert_eq!(context_window(1, usize::MAX, usize::MAX, 4), (0, 3));
}

#[test]
fn overlapping_windows_not_repeated() {
    let (texts, nums) = search("x", "x\na\nx\nb\nc\nd\nx", None, None, 1, 1, false);
    assert_eq!(nums, vec![0, 1, 2, 3, 5, 6]);
    assert_eq!(texts[0], cyan("x"));
    assert_eq!(texts[1], "a");
    assert_eq!(texts[2], cyan("x"));
    assert_eq!(texts[4], "d");
}

#[test]
fn context_line_that_matches_is_highlighted() {
    let (texts, nums) = search("x", "x\nx\ny", Some(&1), None, 1, 1, false);
    assert_eq!(nums, vec![0, 1, 2]);
    assert_eq!(texts, vec![cyan("x"), cyan("x"), "y".to_string()]);
}

#[test]
fn range_limits_matches() {
    let doc = "x\nx\nx\nx\nx";
    let (_, nums) = search("x", doc, Some(&1), Some(&3), 0, 0, false);
    assert_eq!(nums, vec![1, 2, 3]);
    let (_, nums) = search("x", doc, Some(&3), Some(&1), 0, 0, false);
    assert!(nums.is_empty());
}

#[test]
fn range_context_may_leave_range() {
    let (_, nums) = search("b", "a\nb", Some(&1), None, 1, 0, false);
    assert_eq!(nums, vec![0, 1]);
}

#[test]
fn show_mode_range() {
    let (texts, nums) = run_shows("a\nb\nc\nd", Some(1), Some(2));
    assert_eq!(nums, vec![1, 2]);
    assert_eq!(texts, vec!["b".to_string(), "c".to_string()]);
}

#[test]
fn show_mode_dedup_within_range_only() {
    let (_, nums) = run_shows("a\nb\na\na", Some(1), None);
    assert_eq!(nums, vec![1, 2]);
    let (_, nums) = run_shows("a\na\na", None, Some(2));
    assert_eq!(nums, vec![0]);
}

#[test]
fn show_mode_empty_document() {
    let (texts, nums) = run_shows("", None, None);
    assert!(texts.is_empty());
    assert!(nums.is_empty());
}

#[test]
fn in_range_bounds() {
    assert!(in_range(3, None, None));
    assert!(in_range(3, Some(3), Some(3)));
    assert!(!in_range(2, Some(3), None));
    assert!(!in_range(4, None, Some(3)));
    assert!(!in_range(3, Some(4), Some(2)));
}

#[test]
fn select_lines_direct() {
    let matched = vec![false, true, false, false, true, false];
    assert_eq!(select_lines(&matched, None, None, 1, 0), vec![0, 1, 3, 4]);
    assert_eq!(select_lines(&matched, Some(2), None, 0, 1), vec![4, 5]);
    assert!(select_lines(&vec![false, false], None, None, 3, 3).is_empty());
}

#[test]
fn split_lines_terminators() {
    assert_eq!(split_lines("a\r\nb\n\nc\n"), vec!["a", "b", "", "c"]);
    assert!(split_lines("").is_empty());
    assert_eq!(split_lines("x\r"), vec!["x\r"]);
}

#[test]
fn chars_and_substrings() {
    assert_eq!(chars_of("hé"), vec!['h', 'é']);
    let hay = chars_of("hello");
    assert!(contains_chars(&hay, &chars_of("ell")));
    assert!(contains_chars(&hay, &chars_of("")));
    assert!(!contains_chars(&hay, &chars_of("hello!")));
    assert!(!contains_chars(&hay, &chars_of("lo!")));
}

#[test]
fn format_line_output() {
    assert_eq!(minigrep::present::format_line(0, "alpha"), "0: alpha");
    assert_eq!(minigrep::present::format_line(1203, " x "), "1203:  x ");
}

#[test]
fn output_lines_search_and_show() {
    let none: Vec<String> = Vec::new();
    assert_eq!(output_lines(&none, &vec![], true), vec!["No results found".to_string()]);
    assert!(output_lines(&none, &vec![], false).is_empty());
    let texts = vec!["a".to_string(), "c".to_string()];
    assert_eq!(output_lines(&texts, &vec![0, 3], false), vec!["0: a".to_string(), "3: c".to_string()]);
}
