//! Regular expressions: the outside `regex` crate behind a small verified interface.
use vstd::prelude::*;

use crate::module::error::AfdError;

verus! {

#[verifier::external_type_specification]
#[verifier::external_body]
pub struct ExRegex(::regex::Regex);

#[verifier::external_type_specification]
#[verifier::external_body]
pub struct ExRegexError(::regex::Error);

/// Whether `Regex::new` accepts `pattern` (with the crate's default size limit).
pub uninterp spec fn regex_compiles(pattern: Seq<char>) -> bool;

/// The leftmost-first match of `pattern` in `haystack`, as `Regex::captures`
/// reports it: the text before the match, the text of each capture group
/// (group 0 is the whole match; `None` for a group that took no part), and the
/// text after the match.
pub uninterp spec fn regex_captures(pattern: Seq<char>, haystack: Seq<char>) -> Option<
    (Seq<char>, Seq<Option<Seq<char>>>, Seq<char>),
>;

/// The capture groups of each successive non-overlapping match of `pattern`
/// in `haystack`, as `Regex::captures_iter` reports them (group 0 is the whole
/// match; `None` for a group that took no part).
pub uninterp spec fn regex_all_captures(pattern: Seq<char>, haystack: Seq<char>) -> Seq<
    Seq<Option<Seq<char>>>,
>;

/// The characters that `regex::escape` escapes.
pub open spec fn is_meta_character(c: char) -> bool {
    c == '\\' || c == '.' || c == '+' || c == '*' || c == '?' || c == '(' || c == ')' || c == '|'
        || c == '[' || c == ']' || c == '{' || c == '}' || c == '^' || c == '$' || c == '#' || c
        == '&' || c == '-' || c == '~'
}

/// `text` with a backslash put before each meta character.
pub open spec fn escaped(text: Seq<char>) -> Seq<char>
    decreases text.len(),
{
    if text.len() == 0 {
        seq![]
    } else {
        let rest = escaped(text.drop_last());
        if is_meta_character(text.last()) {
            rest.push('\\').push(text.last())
        } else {
            rest.push(text.last())
        }
    }
}

/// Compiles `pattern` with `Regex::new`.
/// Trusted: the call succeeds exactly where `regex_compiles` holds of the pattern,
/// which depends on the pattern alone.
#[verifier::external_body]
fn compile(pattern: &str) -> (r: Result<::regex::Regex, ::regex::Error>)
    ensures
        r is Ok <==> regex_compiles(pattern@),
{
    ::regex::Regex::new(pattern)
}

fn is_meta_character_exec(c: char) -> (r: bool)
    ensures
        r == is_meta_character(c),
{
    c == '\\' || c == '.' || c == '+' || c == '*' || c == '?' || c == '(' || c == ')' || c == '|'
        || c == '[' || c == ']' || c == '{' || c == '}' || c == '^' || c == '$' || c == '#' || c
        == '&' || c == '-' || c == '~'
}

/// `text` with a backslash put before each meta character, as
/// `regex::escape` writes it.
pub(crate) fn escape(text: &str) -> (r: String)
    ensures
        r@ == escaped(text@),
{
    let v = crate::text::chars_of(text);
    let mut r = String::new();
    let mut k: usize = 0;
    while k < v.len()
        invariant
            v@ == text@,
            k <= v@.len(),
            r@ == escaped(v@.take(k as int)),
        decreases v@.len() - k,
    {
        let c = v[k];
        assert(v@.take(k + 1).drop_last() =~= v@.take(k as int));
        if is_meta_character_exec(c) {
            crate::text::push_char(&mut r, '\\');
        }
        crate::text::push_char(&mut r, c);
        k = k + 1;
    }
    assert(v@.take(v@.len() as int) =~= v@);
    r
}

/// A compiled regular expression together with the pattern it was compiled from.
pub struct Pattern {
    source: String,
    compiled: ::regex::Regex,
}

impl View for Pattern {
    type V = Seq<char>;

    closed spec fn view(&self) -> Seq<char> {
        self.source@
    }
}

/// One match of a regular expression in a text.
pub struct RegexMatch {
    /// The text before the match.
    pub before: String,
    /// The text of each capture group; group 0 is the whole match.
    pub groups: Vec<Option<String>>,
    /// The text after the match.
    pub after: String,
}

impl View for RegexMatch {
    type V = (Seq<char>, Seq<Option<Seq<char>>>, Seq<char>);

    open spec fn view(&self) -> (Seq<char>, Seq<Option<Seq<char>>>, Seq<char>) {
        (self.before@, self.groups.deep_view(), self.after@)
    }
}

/// The text of capture group `k` in the first match of `pattern` in `text`.
pub open spec fn capture_group(pattern: Seq<char>, text: Seq<char>, k: int) -> Option<Seq<char>> {
    match regex_captures(pattern, text) {
        Some(m) => if 0 <= k < m.1.len() {
            m.1[k]
        } else {
            None
        },
        None => None,
    }
}

/// `Regex::captures` on the compiled form of `p`.
/// Trusted: the result is `regex_captures` of the pattern and the haystack (the
/// matcher is deterministic), group 0 is always there, and the haystack is the
/// text before the match, the match, and the text after it, as the crate's
/// documentation of `Captures::get` and `Match::start`/`end` says.
#[verifier::external_body]
fn captures_of(p: &Pattern, haystack: &str) -> (r: Option<RegexMatch>)
    ensures
        r matches Some(m) ==> regex_captures(p@, haystack@) == Some(m@),
        r is None ==> regex_captures(p@, haystack@) is None,
        r matches Some(m) ==> m.groups@.len() >= 1 && m.groups@[0] is Some && haystack@
            == m.before@ + m.groups@[0].unwrap()@ + m.after@,
{
    let c = p.compiled.captures(haystack)?;
    let whole = c.get_match();
    Some(
        RegexMatch {
            before: haystack[..whole.start()].to_string(),
            groups: c.iter().map(|g| g.map(|x| x.as_str().to_string())).collect(),
            after: haystack[whole.end()..].to_string(),
        },
    )
}

/// `Regex::captures_iter` on the compiled form of `p`, each match taken by its
/// capture groups.
/// Trusted: the result is `regex_all_captures` of the pattern and the haystack
/// (the matcher is deterministic), and group 0 of each match is there, as the
/// crate's documentation of `Captures::iter` says.
#[verifier::external_body]
fn all_captures_of(p: &Pattern, haystack: &str) -> (r: Vec<Vec<Option<String>>>)
    ensures
        r.deep_view() == regex_all_captures(p@, haystack@),
        forall|k: int| 0 <= k < r@.len() ==> (#[trigger] r@[k])@.len() >= 1 && r@[k]@[0] is Some,
{
    p.compiled.captures_iter(haystack).map(|c| c.iter().map(|g| g.map(|x| x.as_str().to_string())).collect()).collect()
}

impl Pattern {
    /// Compiles `source`.
    pub fn new(source: &str) -> (r: Result<Pattern, AfdError>)
        ensures
            r is Ok <==> regex_compiles(source@),
            r matches Ok(p) ==> p@ == source@,
            r matches Err(e) ==> (e matches AfdError::InvalidPattern(s) && s@ == source@),
    {
        match compile(source) {
            Ok(compiled) => Ok(Pattern { source: String::from_str(source), compiled }),
            Err(_) => Err(AfdError::InvalidPattern(String::from_str(source))),
        }
    }

    /// The pattern this expression was compiled from.
    pub fn as_str(&self) -> (r: &str)
        ensures
            r@ == self@,
    {
        self.source.as_str()
    }

    /// The first match in `haystack`, with its capture groups.
    pub fn captures(&self, haystack: &str) -> (r: Option<RegexMatch>)
        ensures
            r matches Some(m) ==> regex_captures(self@, haystack@) == Some(m@),
            r is None ==> regex_captures(self@, haystack@) is None,
            r matches Some(m) ==> m.groups@.len() >= 1 && m.groups@[0] is Some,
    {
        captures_of(self, haystack)
    }

    /// The capture groups of each successive non-overlapping match in `haystack`.
    pub fn all_captures(&self, haystack: &str) -> (r: Vec<Vec<Option<String>>>)
        ensures
            r.deep_view() == regex_all_captures(self@, haystack@),
            forall|k: int| 0 <= k < r@.len() ==> (#[trigger] r@[k])@.len() >= 1 && r@[k]@[0] is Some,
    {
        all_captures_of(self, haystack)
    }

    /// Whether the expression matches somewhere in `haystack`.
    pub fn is_match(&self, haystack: &str) -> (r: bool)
        ensures
            r == (regex_captures(self@, haystack@) is Some),
    {
        captures_of(self, haystack).is_some()
    }

    /// The text of capture group `k` of the first match in `haystack`.
    pub fn group(&self, haystack: &str, k: usize) -> (r: Option<String>)
        ensures
            r matches Some(g) ==> capture_group(self@, haystack@, k as int) == Some(g@),
            r is None ==> capture_group(self@, haystack@, k as int) is None,
    {
        match captures_of(self, haystack) {
            None => None,
            Some(m) => {
                if k < m.groups.len() {
                    match &m.groups[k] {
                        Some(g) => Some(g.clone()),
                        None => None,
                    }
                } else {
                    None
                }
            },
        }
    }
}

} // verus!
