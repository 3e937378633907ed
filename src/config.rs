use vstd::prelude::*;
use crate::lines::chars_of;

verus! {

/// Value of a run of decimal digits.
pub open spec fn digits_value(d: Seq<char>) -> int
    decreases d.len(),
{
    if d.len() == 0 {
        0
    } else {
        digits_value(d.drop_last()) * 10 + (d.last() as int - '0' as int)
    }
}

pub open spec fn all_digits(d: Seq<char>) -> bool {
    forall|i: int| 0 <= i < d.len() ==> '0' <= #[trigger] d[i] <= '9'
}

/// The digits of a count, after an optional leading `'+'`.
pub open spec fn count_digits(s: Seq<char>) -> Seq<char> {
    if s.len() > 0 && s[0] == '+' {
        s.drop_first()
    } else {
        s
    }
}

/// The count that `s` writes in decimal, with an optional leading `'+'`, if
/// it writes one that fits in a `usize`.
pub open spec fn count_value(s: Seq<char>) -> Option<usize> {
    let d = count_digits(s);
    if d.len() > 0 && all_digits(d) && digits_value(d) <= usize::MAX {
        Some(digits_value(d) as usize)
    } else {
        None
    }
}

proof fn lemma_value_nonneg(d: Seq<char>)
    requires
        all_digits(d),
    ensures
        0 <= digits_value(d),
    decreases d.len(),
{
    if d.len() > 0 {
        assert(all_digits(d.drop_last()));
        lemma_value_nonneg(d.drop_last());
    }
}

proof fn lemma_prefix_value_le(d: Seq<char>, k: int)
    requires
        0 <= k <= d.len(),
        all_digits(d),
    ensures
        digits_value(d.take(k)) <= digits_value(d),
    decreases d.len(),
{
    if k < d.len() {
        assert(d.drop_last().take(k) =~= d.take(k));
        assert(all_digits(d.drop_last()));
        lemma_prefix_value_le(d.drop_last(), k);
        lemma_value_nonneg(d.drop_last());
    } else {
        assert(d.take(k) =~= d);
    }
}

/// Reads a line count or line number written in decimal, with an optional
/// leading `'+'`; `None` where `s` is anything else or too large.
pub fn parse_count(s: &str) -> (r: Option<usize>)
    ensures
        r == count_value(s@),
{
    let cs = chars_of(s);
    let start: usize = if cs.len() > 0 && cs[0] == '+' {
        1
    } else {
        0
    };
    let ghost d = count_digits(s@);
    assert(d =~= cs@.subrange(start as int, cs@.len() as int));
    if start >= cs.len() {
        return None;
    }
    let mut value: usize = 0;
    let mut k: usize = start;
    while k < cs.len()
        invariant
            start <= k <= cs.len(),
            cs@ == s@,
            d == count_digits(s@),
            d == cs@.subrange(start as int, cs@.len() as int),
            all_digits(d.take(k - start)),
            value as int == digits_value(d.take(k - start)),
        decreases cs.len() - k,
    {
        let c = cs[k];
        assert(d.take(k + 1 - start).drop_last() =~= d.take(k - start));
        if c < '0' || c > '9' {
            assert(d[k - start] == c);
            assert(!all_digits(d));
            return None;
        }
        let digit = (c as u32 - '0' as u32) as usize;
        if value > (usize::MAX - digit) / 10 {
            proof {
                assert(all_digits(d.take(k + 1 - start)));
                assert(digits_value(d.take(k + 1 - start)) > usize::MAX) by (nonlinear_arith)
                    requires
                        digits_value(d.take(k + 1 - start)) == value * 10 + digit,
                        value > (usize::MAX - digit) / 10,
                        0 <= digit <= 9,
                ;
                if all_digits(d) {
                    lemma_prefix_value_le(d, k + 1 - start);
                }
            }
            return None;
        }
        assert(value * 10 + digit <= usize::MAX) by (nonlinear_arith)
            requires
                value <= (usize::MAX - digit) / 10,
                0 <= digit <= 9,
        ;
        value = value * 10 + digit;
        k = k + 1;
    }
    assert(d.take(k - start) =~= d);
    Some(value)
}

/// What a run is asked to do.
pub struct Config {
    /// The file to read.
    pub filename: String,
    /// The query; `None` selects show mode.
    pub query: Option<String>,
    /// Whether matching ignores case.
    pub insensitive: bool,
    /// Lowest line number to consider, inclusive.
    pub from: Option<usize>,
    /// Highest line number to consider, inclusive.
    pub to: Option<usize>,
    /// Lines of context shown above a match.
    pub before: usize,
    /// Lines of context shown below a match.
    pub after: usize,
}

/// The settings of a `Config`, over plain values.
pub struct Settings {
    pub filename: Seq<char>,
    pub query: Option<Seq<char>>,
    pub insensitive: bool,
    pub from: Option<usize>,
    pub to: Option<usize>,
    pub before: usize,
    pub after: usize,
}

impl View for Config {
    type V = Settings;

    open spec fn view(&self) -> Settings {
        Settings {
            filename: self.filename@,
            query: match self.query {
                Some(q) => Some(q@),
                None => None,
            },
            insensitive: self.insensitive,
            from: self.from,
            to: self.to,
            before: self.before,
            after: self.after,
        }
    }
}

/// The command-line arguments as texts.
pub open spec fn arg_texts(args: Seq<String>) -> Seq<Seq<char>> {
    args.map_values(|a: String| a@)
}

/// Why the arguments were refused.
pub enum ArgFault {
    /// No file named.
    TooFew,
    /// An option that takes a value came last.
    MissingValue,
    /// An argument that is no known option.
    UnknownOption,
    /// A value that is not a count.
    BadCount,
}

/// The message given for each refusal.
pub open spec fn fault_message(f: ArgFault) -> &'static str {
    match f {
        ArgFault::TooFew => "Not enough arguments \n -h for help",
        ArgFault::MissingValue => "not enough arguments \n -h for help",
        ArgFault::UnknownOption => "invalid argument format \n -h for help",
        ArgFault::BadCount => "invalid number \n -h for help",
    }
}

/// Reads the options from argument `i` on into `c`: `-i` or `-insensitive`
/// alone; `-s` or `-search` with a query; `-from`, `-to`, `-b` and `-a` with a
/// count. Stops at the first unknown option, missing value or value that is
/// not a count.
pub open spec fn read_options(args: Seq<Seq<char>>, i: int, c: Settings) -> Result<Settings, ArgFault>
    decreases args.len() - i,
{
    if i < 0 || i >= args.len() {
        Ok(c)
    } else {
        let a = args[i];
        if a == seq!['-', 'i'] || a == seq!['-', 'i', 'n', 's', 'e', 'n', 's', 'i', 't', 'i', 'v', 'e'] {
            read_options(args, i + 1, Settings { insensitive: true, ..c })
        } else if i + 1 >= args.len() {
            Err(ArgFault::MissingValue)
        } else {
            let v = args[i + 1];
            if a == seq!['-', 's'] || a == seq!['-', 's', 'e', 'a', 'r', 'c', 'h'] {
                read_options(args, i + 2, Settings { query: Some(v), ..c })
            } else if a == seq!['-', 'f', 'r', 'o', 'm'] || a == seq!['-', 't', 'o'] || a == seq!['-', 'b']
                || a == seq!['-', 'a'] {
                match count_value(v) {
                    Some(n) => read_options(
                        args,
                        i + 2,
                        if a == seq!['-', 'f', 'r', 'o', 'm'] {
                            Settings { from: Some(n), ..c }
                        } else if a == seq!['-', 't', 'o'] {
                            Settings { to: Some(n), ..c }
                        } else if a == seq!['-', 'b'] {
                            Settings { before: n, ..c }
                        } else {
                            Settings { after: n, ..c }
                        },
                    ),
                    None => Err(ArgFault::BadCount),
                }
            } else {
                Err(ArgFault::UnknownOption)
            }
        }
    }
}

/// The settings that the arguments ask for: the program name, the file, then
/// any number of options; with no option, show mode over the whole file.
pub open spec fn parse_settings(args: Seq<Seq<char>>) -> Result<Settings, ArgFault> {
    if args.len() < 2 {
        Err(ArgFault::TooFew)
    } else {
        read_options(
            args,
            2,
            Settings {
                filename: args[1],
                query: None,
                insensitive: false,
                from: None,
                to: None,
                before: 0,
                after: 0,
            },
        )
    }
}

/// Whether an argument is the given option name.
fn is_option(arg: &String, name: &str) -> (r: bool)
    ensures
        r == (arg@ == name@),
{
    let owned = name.to_string();
    *arg == owned
}

/// Fails when no argument follows argument `i`.
pub fn len_args(args: &[String], i: usize) -> (r: Result<(), &'static str>)
    ensures
        r == if i + 1 >= args@.len() {
            Err::<(), &'static str>("not enough arguments \n -h for help")
        } else {
            Ok::<(), &'static str>(())
        },
{
    if i >= args.len() || args.len() - i < 2 {
        return Err("not enough arguments \n -h for help");
    }
    Ok(())
}

impl Config {
    /// Reads the settings from the command-line arguments: the program name,
    /// the file, then options (see `read_options`). Fails when no file is
    /// named, on an unknown option, a missing value or a bad count.
    pub fn new(args: &[String]) -> (r: Result<Config, &'static str>)
        ensures
            r is Ok <==> parse_settings(arg_texts(args@)) is Ok,
            r matches Ok(c) ==> parse_settings(arg_texts(args@)) == Ok::<Settings, ArgFault>(c@),
            r matches Err(e) ==> parse_settings(arg_texts(args@)) matches Err(f) && e == fault_message(f),
    {
        let ghost texts = arg_texts(args@);
        if args.len() < 2 {
            return Err("Not enough arguments \n -h for help");
        }
        let filename = args[1].clone();
        let mut query: Option<String> = None;
        let mut insensitive = false;
        let mut from: Option<usize> = None;
        let mut to: Option<usize> = None;
        let mut before: usize = 0;
        let mut after: usize = 0;
        let mut i: usize = 2;
        while i < args.len()
            invariant
                texts == arg_texts(args@),
                texts.len() == args@.len(),
                2 <= i <= args.len(),
                read_options(
                    texts,
                    i as int,
                    Config { filename: filename, query: query, insensitive, from, to, before, after }@,
                ) == parse_settings(texts),
            decreases args.len() - i,
        {
            let ghost cur = (Config { filename: filename, query: query, insensitive, from, to, before, after })@;
            proof {
                reveal_strlit("-i");
                assert("-i"@ =~= seq!['-', 'i']);
                reveal_strlit("-insensitive");
                assert("-insensitive"@ =~= seq!['-', 'i', 'n', 's', 'e', 'n', 's', 'i', 't', 'i', 'v', 'e']);
                reveal_strlit("-s");
                assert("-s"@ =~= seq!['-', 's']);
                reveal_strlit("-search");
                assert("-search"@ =~= seq!['-', 's', 'e', 'a', 'r', 'c', 'h']);
                reveal_strlit("-from");
                assert("-from"@ =~= seq!['-', 'f', 'r', 'o', 'm']);
                reveal_strlit("-to");
                assert("-to"@ =~= seq!['-', 't', 'o']);
                reveal_strlit("-b");
                assert("-b"@ =~= seq!['-', 'b']);
                reveal_strlit("-a");
                assert("-a"@ =~= seq!['-', 'a']);
            }
            let a = &args[i];
            assert(texts[i as int] == a@);
            if is_option(a, "-i") || is_option(a, "-insensitive") {
                insensitive = true;
                i = i + 1;
            } else {
                if len_args(args, i).is_err() {
                    return Err("not enough arguments \n -h for help");
                }
                let v = &args[i + 1];
                assert(texts[i + 1] == v@);
                if is_option(a, "-s") || is_option(a, "-search") {
                    query = Some(v.clone());
                } else if is_option(a, "-from") || is_option(a, "-to") || is_option(a, "-b")
                    || is_option(a, "-a") {
                    let n = match parse_count(v.as_str()) {
                        Some(n) => n,
                        None => {
                            return Err("invalid number \n -h for help");
                        },
                    };
                    if is_option(a, "-from") {
                        from = Some(n);
                    } else if is_option(a, "-to") {
                        to = Some(n);
                    } else if is_option(a, "-b") {
                        before = n;
                    } else {
                        after = n;
                    }
                } else {
                    return Err("invalid argument format \n -h for help");
                }
                i = i + 2;
            }
        }
        let c = Config { filename, query, insensitive, from, to, before, after };
        Ok(c)
    }
}

} // verus!
