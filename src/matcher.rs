use vstd::prelude::*;
use vstd::string::*;
use regex::Regex;
use crate::lines::chars_of;

verus! {

#[verifier::external_type_specification]
#[verifier::external_body]
pub struct ExRegex(Regex);

/// Whether the regex syntax accepts `pattern`.
pub uninterp spec fn regex_accepts(pattern: Seq<char>) -> bool;

/// Whether the regex built from `pattern` matches somewhere in `text`.
pub uninterp spec fn regex_finds(pattern: Seq<char>, text: Seq<char>) -> bool;

/// The lower-case form of a text.
pub uninterp spec fn lower_of(s: Seq<char>) -> Seq<char>;

/// Relies on regex::Regex::new: it builds a regex exactly when the pattern is
/// valid regex syntax (within the default size limits), which depends on the
/// pattern alone.
#[verifier::external_body]
fn regex_new(pattern: &str) -> (r: Option<Regex>)
    ensures
        r is Some <==> regex_accepts(pattern@),
{
    Regex::new(pattern).ok()
}

/// Relies on regex::Regex::is_match, which tells whether the regex matches
/// anywhere in the text. The regex of a `CompiledRegex` is always the one that
/// `Regex::new` built from its `source` (see `CompiledRegex::compile`, the
/// only place that makes one).
#[verifier::external_body]
fn regex_is_match(c: &CompiledRegex, text: &str) -> (r: bool)
    ensures
        r == regex_finds(c.source@, text@),
{
    c.re.is_match(text)
}

/// Relies on str::to_lowercase, whose result depends on the characters alone.
#[verifier::external_body]
fn to_lowercase(s: &str) -> (r: String)
    ensures
        r@ == lower_of(s@),
{
    s.to_lowercase()
}

/// A regex together with the pattern it was built from.
pub struct CompiledRegex {
    re: Regex,
    source: String,
}

impl CompiledRegex {
    /// The pattern this regex was built from.
    pub closed spec fn pattern(&self) -> Seq<char> {
        self.source@
    }

    /// Builds the regex of `pattern`, or `None` where the regex syntax
    /// rejects it.
    pub fn compile(pattern: &str) -> (r: Option<CompiledRegex>)
        ensures
            r is Some <==> regex_accepts(pattern@),
            r matches Some(c) ==> c.pattern() == pattern@,
    {
        match regex_new(pattern) {
            Some(re) => Some(CompiledRegex { re, source: pattern.to_owned() }),
            None => None,
        }
    }

    /// Whether the regex matches somewhere in `text`.
    pub fn is_match(&self, text: &str) -> (r: bool)
        ensures
            r == regex_finds(self.pattern(), text@),
    {
        regex_is_match(self, text)
    }
}

/// Whether `needle` occurs in `hay` as a contiguous run.
pub open spec fn has_substring(hay: Seq<char>, needle: Seq<char>) -> bool {
    exists|k: int| 0 <= k <= hay.len() - needle.len() && #[trigger] hay.subrange(k, k + needle.len()) == needle
}

/// Plain substring search: whether `needle` occurs in `hay`. An empty needle
/// occurs in every text.
pub fn contains_chars(hay: &Vec<char>, needle: &Vec<char>) -> (r: bool)
    ensures
        r == has_substring(hay@, needle@),
{
    let n: usize = needle.len();
    if n == 0 {
        assert(hay@.subrange(0, 0 + needle@.len() as int) =~= needle@);
        return true;
    }
    if n > hay.len() {
        return false;
    }
    let last: usize = hay.len() - n;
    let mut k: usize = 0;
    while k <= last
        invariant
            n == needle@.len(),
            0 < n <= hay@.len() <= usize::MAX,
            last == hay@.len() - n,
            k <= last + 1,
            forall|q: int| 0 <= q < k ==> #[trigger] hay@.subrange(q, q + n) != needle@,
        decreases last + 1 - k,
    {
        let mut m: usize = 0;
        let mut same = true;
        while m < n
            invariant
                n == needle@.len(),
                0 < n <= hay@.len() <= usize::MAX,
                k <= last,
                last == hay@.len() - n,
                m <= n,
                same == (forall|x: int| 0 <= x < m ==> hay@[k + x] == needle@[x]),
            decreases n - m,
        {
            if hay[k + m] != needle[m] {
                same = false;
            }
            m = m + 1;
        }
        if same {
            assert(hay@.subrange(k as int, k + n) =~= needle@);
            return true;
        }
        assert(hay@.subrange(k as int, k + n) != needle@) by {
            if hay@.subrange(k as int, k + n) == needle@ {
                assert forall|x: int| 0 <= x < n implies hay@[k + x] == needle@[x] by {
                    assert(hay@.subrange(k as int, k + n)[x] == hay@[k + x]);
                }
            }
        }
        k = k + 1;
    }
    false
}

/// The pattern handed to the regex engine: with an inline case-insensitive
/// flag in front when case is ignored.
pub open spec fn regex_source(query: Seq<char>, insensitive: bool) -> Seq<char> {
    if insensitive {
        seq!['(', '?', 'i', ')'] + query
    } else {
        query
    }
}

/// Whether a line matches a query. A query that the regex syntax accepts is
/// matched as a regex; any other is matched as a plain substring, after
/// lower-casing both sides when case is ignored.
pub open spec fn query_matches(query: Seq<char>, insensitive: bool, line: Seq<char>) -> bool {
    let source = regex_source(query, insensitive);
    if regex_accepts(source) {
        regex_finds(source, line)
    } else if insensitive {
        has_substring(lower_of(line), lower_of(query))
    } else {
        has_substring(line, query)
    }
}

/// A query made ready for matching line after line: the choice between regex
/// and plain substring is taken once, when it is built.
pub struct Matcher {
    query: String,
    insensitive: bool,
    regex: Option<CompiledRegex>,
    needle: Vec<char>,
}

impl View for Matcher {
    /// The query and whether case is ignored.
    type V = (Seq<char>, bool);

    closed spec fn view(&self) -> (Seq<char>, bool) {
        (self.query@, self.insensitive)
    }
}

impl Matcher {
    /// The regex is present exactly when the regex syntax accepts the query
    /// (with its case flag), and the substring needle is the query, lower-cased
    /// when case is ignored.
    pub closed spec fn wf(&self) -> bool {
        let source = regex_source(self.query@, self.insensitive);
        &&& (self.regex is Some <==> regex_accepts(source))
        &&& (self.regex matches Some(c) ==> c.pattern() == source)
        &&& self.needle@ == if self.insensitive {
            lower_of(self.query@)
        } else {
            self.query@
        }
    }

    /// Prepares `query` for matching; `insensitive` asks that case be ignored.
    pub fn new(query: &str, insensitive: bool) -> (m: Matcher)
        ensures
            m.wf(),
            m@ == (query@, insensitive),
    {
        let regex = if insensitive {
            let mut source = "(?i)".to_string();
            source.append(query);
            proof {
                reveal_strlit("(?i)");
                assert(source@ =~= regex_source(query@, insensitive));
            }
            CompiledRegex::compile(source.as_str())
        } else {
            CompiledRegex::compile(query)
        };
        let needle = if insensitive {
            let lowered = to_lowercase(query);
            chars_of(lowered.as_str())
        } else {
            chars_of(query)
        };
        Matcher { query: query.to_owned(), insensitive, regex, needle }
    }

    /// Whether `line` matches the query.
    pub fn matches(&self, line: &str) -> (r: bool)
        requires
            self.wf(),
        ensures
            r == query_matches(self@.0, self@.1, line@),
    {
        match &self.regex {
            Some(c) => c.is_match(line),
            None => {
                if self.insensitive {
                    let lowered = to_lowercase(line);
                    let hay = chars_of(lowered.as_str());
                    contains_chars(&hay, &self.needle)
                } else {
                    let hay = chars_of(line);
                    contains_chars(&hay, &self.needle)
                }
            },
        }
    }
}

} // verus!
