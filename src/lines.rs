use vstd::prelude::*;
use vstd::std_specs::iter::IteratorSpec;

verus! {

broadcast use {vstd::string::axiom_spec_iter, vstd::string::next_postcondition};

/// The pieces of `s` between its `'\n'` characters, as `split('\n')` cuts
/// them: one more piece than there are newlines.
pub open spec fn newline_pieces(s: Seq<char>) -> Seq<Seq<char>>
    decreases s.len(),
{
    if s.len() == 0 {
        seq![Seq::<char>::empty()]
    } else {
        let rest = newline_pieces(s.drop_first());
        if s[0] == '\n' {
            seq![Seq::<char>::empty()] + rest
        } else {
            rest.update(0, seq![s[0]] + rest[0])
        }
    }
}

/// A line without the `'\r'` of a `"\r\n"` terminator.
pub open spec fn strip_cr(l: Seq<char>) -> Seq<char> {
    if l.len() > 0 && l.last() == '\r' {
        l.drop_last()
    } else {
        l
    }
}

/// The lines of a text: split at each `'\n'`, with a `'\r'` right before a
/// `'\n'` dropped too; a final line terminator does not start another line,
/// so an empty text has no lines.
pub open spec fn text_lines(s: Seq<char>) -> Seq<Seq<char>> {
    let p = newline_pieces(s);
    let m = (p.len() - 1) as int;
    Seq::new(
        if p[m].len() == 0 {
            m as nat
        } else {
            (m + 1) as nat
        },
        |i: int|
            if i < m {
                strip_cr(p[i])
            } else {
                p[i]
            },
    )
}

/// Relies on str::lines, which ends a line at `"\n"` or `"\r\n"`, leaves the
/// terminator out, and treats a final terminator as optional.
#[verifier::external_body]
fn str_lines(s: &str) -> (r: Vec<String>)
    ensures
        r.deep_view() == text_lines(s@),
{
    s.lines().map(|l| l.to_string()).collect()
}

/// Splits a text into its lines; line `i` of the result has index `i`.
pub fn split_lines(contents: &str) -> (r: Vec<String>)
    ensures
        r.deep_view() == text_lines(contents@),
{
    str_lines(contents)
}

/// The characters of a string, in order.
pub fn chars_of(s: &str) -> (r: Vec<char>)
    ensures
        r@ == s@,
{
    let mut out: Vec<char> = Vec::new();
    let mut it = s.chars();
    loop
        invariant
            out@ + it.remaining() == s@,
            it.decrease() is Some,
        ensures
            out@ == s@,
        decreases it.decrease()->0,
    {
        match it.next() {
            Some(c) => {
                proof {
                    assert(out@.push(c) + it.remaining() =~= s@);
                }
                out.push(c);
            },
            None => {
                proof {
                    assert(out@ =~= s@);
                }
                break;
            },
        }
    }
    out
}

} // verus!
