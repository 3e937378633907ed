use vstd::prelude::*;
use vstd::string::*;

verus! {

/// The character of a decimal digit.
pub open spec fn digit_char(d: nat) -> char {
    if d == 0 { '0' }
    else if d == 1 { '1' }
    else if d == 2 { '2' }
    else if d == 3 { '3' }
    else if d == 4 { '4' }
    else if d == 5 { '5' }
    else if d == 6 { '6' }
    else if d == 7 { '7' }
    else if d == 8 { '8' }
    else { '9' }
}

/// A number written in decimal, without sign or leading zeros.
pub open spec fn decimal(n: nat) -> Seq<char>
    decreases n,
{
    if n < 10 {
        seq![digit_char(n)]
    } else {
        decimal(n / 10).push(digit_char(n % 10))
    }
}

/// Relies on the `Display` of `usize` (through `ToString`), which writes the
/// number in decimal without sign or leading zeros.
#[verifier::external_body]
fn usize_to_string(n: usize) -> (r: String)
    ensures
        r@ == decimal(n as nat),
{
    n.to_string()
}

/// One line of output: the line number, a colon and a space, then the text
/// as it is.
pub fn format_line(index: usize, text: &str) -> (r: String)
    ensures
        r@ == decimal(index as nat) + seq![':', ' '] + text@,
{
    let mut out = usize_to_string(index);
    out.append(": ");
    proof {
        reveal_strlit(": ");
        assert(": "@ =~= seq![':', ' ']);
    }
    out.append(text);
    out
}

/// The message printed when search mode shows nothing.
pub open spec fn no_results() -> Seq<char> {
    seq!['N', 'o', ' ', 'r', 'e', 's', 'u', 'l', 't', 's', ' ', 'f', 'o', 'u', 'n', 'd']
}

/// The lines printed for the shown lines `texts` with line numbers `nums`:
/// one `format_line` each, or the single message "No results found" where
/// search mode shows nothing.
pub fn output_lines(texts: &Vec<String>, nums: &Vec<usize>, search_mode: bool) -> (r: Vec<String>)
    requires
        texts.len() == nums.len(),
    ensures
        search_mode && texts.len() == 0 ==> r.len() == 1 && r@[0]@ == no_results(),
        !(search_mode && texts.len() == 0) ==> r.len() == texts.len() && forall|k: int|
            0 <= k < r.len() ==> (#[trigger] r@[k])@ == decimal(nums@[k] as nat) + seq![':', ' ']
                + texts@[k]@,
{
    let mut out: Vec<String> = Vec::new();
    if search_mode && texts.len() == 0 {
        let msg = "No results found".to_string();
        proof {
            reveal_strlit("No results found");
            assert(msg@ =~= no_results());
        }
        out.push(msg);
        return out;
    }
    let mut k: usize = 0;
    while k < texts.len()
        invariant
            texts.len() == nums.len(),
            k <= texts.len(),
            out.len() == k,
            forall|q: int|
                0 <= q < k ==> (#[trigger] out@[q])@ == decimal(nums@[q] as nat) + seq![':', ' ']
                    + texts@[q]@,
        decreases texts.len() - k,
    {
        let line = format_line(nums[k], texts[k].as_str());
        out.push(line);
        k = k + 1;
    }
    out
}

} // verus!
