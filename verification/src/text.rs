//! Character-level text utilities used by the parsers of this crate.
use vstd::prelude::*;

verus! {

/// The characters with the Unicode `White_Space` property.
pub open spec fn is_white(c: char) -> bool {
    ||| ('\u{9}' <= c && c <= '\u{d}')
    ||| c == ' '
    ||| c == '\u{85}'
    ||| c == '\u{a0}'
    ||| c == '\u{1680}'
    ||| ('\u{2000}' <= c && c <= '\u{200a}')
    ||| c == '\u{2028}'
    ||| c == '\u{2029}'
    ||| c == '\u{202f}'
    ||| c == '\u{205f}'
    ||| c == '\u{3000}'
}

pub fn is_whitespace(c: char) -> (r: bool)
    ensures
        r == is_white(c),
{
    ('\u{9}' <= c && c <= '\u{d}') || c == ' ' || c == '\u{85}' || c == '\u{a0}' || c == '\u{1680}'
        || ('\u{2000}' <= c && c <= '\u{200a}') || c == '\u{2028}' || c == '\u{2029}' || c
        == '\u{202f}' || c == '\u{205f}' || c == '\u{3000}'
}

/// Appends one character to a string.
#[verifier::external_body]
pub(crate) fn push_char(s: &mut String, c: char)
    ensures
        final(s)@ == old(s)@.push(c),
{
    s.push(c);
}

/// The characters of a string slice, in order.
pub fn chars_of(s: &str) -> (v: Vec<char>)
    ensures
        v@ == s@,
{
    let mut v: Vec<char> = Vec::new();
    for c in it: s.chars()
        invariant
            v@ == it.seq().take(it.index() as int),
    {
        v.push(c);
    }
    v
}


/// The characters `v[from..to]` as a string.
pub fn string_of(v: &[char], from: usize, to: usize) -> (s: String)
    requires
        from <= to <= v@.len(),
    ensures
        s@ == v@.subrange(from as int, to as int),
{
    let mut s = String::new();
    let mut i = from;
    while i < to
        invariant
            from <= i <= to <= v@.len(),
            s@ == v@.subrange(from as int, i as int),
        decreases to - i,
    {
        push_char(&mut s, v[i]);
        i = i + 1;
    }
    s
}

/// Whether two string slices hold the same characters.
pub fn str_eq(a: &str, b: &str) -> (r: bool)
    ensures
        r == (a@ == b@),
{
    let av = chars_of(a);
    let bv = chars_of(b);
    if av.len() != bv.len() {
        return false;
    }
    let mut i: usize = 0;
    while i < av.len()
        invariant
            av@ == a@,
            bv@ == b@,
            av@.len() == bv@.len(),
            i <= av@.len(),
            forall|k: int| 0 <= k < i ==> av@[k] == bv@[k],
        decreases av@.len() - i,
    {
        if av[i] != bv[i] {
            return false;
        }
        i = i + 1;
    }
    assert(a@ =~= b@);
    true
}

/// `pat` occurs in `s` at position `i`.
pub open spec fn occurs_at(s: Seq<char>, pat: Seq<char>, i: int) -> bool {
    0 <= i && i + pat.len() <= s.len() && s.subrange(i, i + pat.len()) == pat
}

/// The first position at or after `from` where `pat` occurs in `s`.
pub open spec fn find_from(s: Seq<char>, pat: Seq<char>, from: int) -> Option<int>
    decreases s.len() + 1 - from,
{
    if from < 0 || from + pat.len() > s.len() {
        None
    } else if occurs_at(s, pat, from) {
        Some(from)
    } else {
        find_from(s, pat, from + 1)
    }
}

/// The first position where `pat` occurs in `s`.
pub open spec fn find(s: Seq<char>, pat: Seq<char>) -> Option<int> {
    find_from(s, pat, 0)
}

pub proof fn lemma_find_from(s: Seq<char>, pat: Seq<char>, from: int)
    requires
        0 <= from,
    ensures
        find_from(s, pat, from) matches Some(k) ==> from <= k && occurs_at(s, pat, k) && forall|
            m: int,
        | from <= m < k ==> !occurs_at(s, pat, m),
        find_from(s, pat, from) is None ==> forall|m: int| from <= m ==> !occurs_at(s, pat, m),
    decreases s.len() + 1 - from,
{
    if from + pat.len() > s.len() {
    } else if occurs_at(s, pat, from) {
    } else {
        lemma_find_from(s, pat, from + 1);
    }
}

/// Whether `pat` occurs at position `i` of `v`.
fn occurs_at_exec(v: &[char], pat: &[char], i: usize) -> (r: bool)
    requires
        i + pat@.len() <= v@.len(),
    ensures
        r == occurs_at(v@, pat@, i as int),
{
    let n = v.len();
    let mut k: usize = 0;
    while k < pat.len()
        invariant
            n == v@.len(),
            i + pat@.len() <= v@.len(),
            k <= pat@.len(),
            forall|m: int| 0 <= m < k ==> v@[i + m] == pat@[m],
        decreases pat@.len() - k,
    {
        assert(i + k < v@.len());
        if v[i + k] != pat[k] {
            assert(v@.subrange(i as int, i + pat@.len())[k as int] != pat@[k as int]);
            return false;
        }
        k = k + 1;
    }
    assert(v@.subrange(i as int, i + pat@.len()) =~= pat@);
    true
}

/// The first position where `pat` occurs in `v`.
pub fn find_exec(v: &[char], pat: &[char]) -> (r: Option<usize>)
    ensures
        r matches Some(k) ==> find(v@, pat@) == Some(k as int),
        r is None ==> find(v@, pat@) is None,
{
    if pat.len() > v.len() {
        return None;
    }
    let mut i: usize = 0;
    let last = v.len() - pat.len();
    while i <= last
        invariant
            pat@.len() <= v@.len(),
            last == v@.len() - pat@.len(),
            i <= last + 1,
            find(v@, pat@) == find_from(v@, pat@, i as int),
        decreases v@.len() - i,
    {
        if occurs_at_exec(v, pat, i) {
            return Some(i);
        }
        if i == last {
            return None;
        }
        i = i + 1;
    }
    None
}


/// The index of the first non-whitespace character at or after `i` (or the length).
pub open spec fn skip_white(s: Seq<char>, i: int) -> int
    decreases s.len() - i,
{
    if 0 <= i < s.len() && is_white(s[i]) {
        skip_white(s, i + 1)
    } else {
        i
    }
}

/// The index of the first whitespace character at or after `i` (or the length).
pub open spec fn next_white(s: Seq<char>, i: int) -> int
    decreases s.len() - i,
{
    if 0 <= i < s.len() && !is_white(s[i]) {
        next_white(s, i + 1)
    } else {
        i
    }
}

/// The index one past the last non-whitespace character before `j` (or `lo`).
pub open spec fn skip_white_back(s: Seq<char>, lo: int, j: int) -> int
    decreases j - lo,
{
    if lo < j <= s.len() && is_white(s[j - 1]) {
        skip_white_back(s, lo, j - 1)
    } else {
        j
    }
}

pub proof fn lemma_skip_white(s: Seq<char>, i: int)
    requires
        0 <= i <= s.len(),
    ensures
        i <= skip_white(s, i) <= s.len(),
        forall|k: int| i <= k < skip_white(s, i) ==> is_white(#[trigger] s[k]),
        skip_white(s, i) < s.len() ==> !is_white(s[skip_white(s, i)]),
    decreases s.len() - i,
{
    if i < s.len() && is_white(s[i]) {
        lemma_skip_white(s, i + 1);
    }
}

pub proof fn lemma_next_white(s: Seq<char>, i: int)
    requires
        0 <= i <= s.len(),
    ensures
        i <= next_white(s, i) <= s.len(),
        forall|k: int| i <= k < next_white(s, i) ==> !is_white(#[trigger] s[k]),
        next_white(s, i) < s.len() ==> is_white(s[next_white(s, i)]),
    decreases s.len() - i,
{
    if i < s.len() && !is_white(s[i]) {
        lemma_next_white(s, i + 1);
    }
}

pub proof fn lemma_skip_white_back(s: Seq<char>, lo: int, j: int)
    requires
        0 <= lo <= j <= s.len(),
    ensures
        lo <= skip_white_back(s, lo, j) <= j,
        forall|k: int| skip_white_back(s, lo, j) <= k < j ==> is_white(#[trigger] s[k]),
        lo < skip_white_back(s, lo, j) ==> !is_white(s[skip_white_back(s, lo, j) - 1]),
    decreases j - lo,
{
    if lo < j && is_white(s[j - 1]) {
        lemma_skip_white_back(s, lo, j - 1);
    }
}

/// `s` without its leading and trailing whitespace (as `str::trim` gives it).
pub open spec fn trim(s: Seq<char>) -> Seq<char> {
    let a = skip_white(s, 0);
    s.subrange(a, skip_white_back(s, a, s.len() as int))
}

/// The bounds of `trim(v)` within `v`.
pub fn trim_bounds(v: &[char]) -> (r: (usize, usize))
    ensures
        r.0 <= r.1 <= v@.len(),
        r.0 == skip_white(v@, 0),
        r.1 == skip_white_back(v@, r.0 as int, v@.len() as int),
        v@.subrange(r.0 as int, r.1 as int) == trim(v@),
{
    let n = v.len();
    let mut a: usize = 0;
    while a < n && is_whitespace(v[a])
        invariant
            n == v@.len(),
            a <= n,
            skip_white(v@, 0) == skip_white(v@, a as int),
        decreases n - a,
    {
        a = a + 1;
    }
    let mut b: usize = n;
    while a < b && is_whitespace(v[b - 1])
        invariant
            n == v@.len(),
            a <= b <= n,
            skip_white_back(v@, a as int, n as int) == skip_white_back(v@, a as int, b as int),
        decreases b - a,
    {
        b = b - 1;
    }
    (a, b)
}

/// `str::trim`: the string without leading and trailing whitespace.
pub fn trim_str(s: &str) -> (r: String)
    ensures
        r@ == trim(s@),
{
    let v = chars_of(s);
    let (a, b) = trim_bounds(v.as_slice());
    string_of(v.as_slice(), a, b)
}

/// What comes before the first occurrence of `pat` in `s`: the first piece of
/// `s.split(pat)` (all of `s` where `pat` does not occur).
pub open spec fn before_first(s: Seq<char>, pat: Seq<char>) -> Seq<char> {
    match find(s, pat) {
        Some(k) => s.subrange(0, k),
        None => s,
    }
}

/// The first piece of `s.split(pat)`.
pub fn before_first_str(s: &str, pat: &str) -> (r: String)
    ensures
        r@ == before_first(s@, pat@),
{
    let v = chars_of(s);
    let p = chars_of(pat);
    match find_exec(v.as_slice(), p.as_slice()) {
        Some(k) => {
            proof {
                lemma_find_from(v@, p@, 0);
            }
            string_of(v.as_slice(), 0, k)
        },
        None => string_of(v.as_slice(), 0, v.len()),
    }
}

/// Whether `pat` occurs in `s`.
pub fn contains_str(s: &str, pat: &str) -> (r: bool)
    ensures
        r == (find(s@, pat@) is Some),
{
    let v = chars_of(s);
    let p = chars_of(pat);
    find_exec(v.as_slice(), p.as_slice()).is_some()
}


/// The whitespace-separated tokens of `s` from position `i` on.
pub open spec fn tokens_from(s: Seq<char>, i: int) -> Seq<Seq<char>>
    decreases s.len() - i,
{
    if i < 0 || i >= s.len() {
        seq![]
    } else {
        let a = skip_white(s, i);
        if a >= s.len() {
            seq![]
        } else {
            let b = next_white(s, a);
            proof {
                lemma_skip_white(s, i);
                lemma_next_white(s, a);
                lemma_next_white(s, a + 1);
            }
            seq![s.subrange(a, b)] + tokens_from(s, b)
        }
    }
}

/// The tokens that `str::split_whitespace` yields.
pub open spec fn tokens(s: Seq<char>) -> Seq<Seq<char>> {
    tokens_from(s, 0)
}

/// The `n`-th whitespace-separated token of `s`, if there is one
/// (`s.split_whitespace().nth(n)`).
pub fn nth_token(s: &str, n: usize) -> (r: Option<String>)
    ensures
        n < tokens(s@).len() ==> (r matches Some(t) && t@ == tokens(s@)[n as int]),
        n >= tokens(s@).len() ==> r is None,
{
    let v = chars_of(s);
    let len = v.len();
    let mut pos: usize = 0;
    let mut count: usize = 0;
    loop
        invariant
            v@ == s@,
            len == v@.len(),
            pos <= len,
            count <= n,
            tokens(s@).len() == count + tokens_from(s@, pos as int).len(),
            forall|m: int|
                0 <= m < tokens_from(s@, pos as int).len() ==> tokens(s@)[count + m]
                    == #[trigger] tokens_from(s@, pos as int)[m],
        decreases len - pos,
    {
        proof {
            lemma_skip_white(s@, pos as int);
        }
        let mut a = pos;
        while a < len && is_whitespace(v[a])
            invariant
                v@ == s@,
                len == v@.len(),
                pos <= a <= len,
                skip_white(s@, pos as int) == skip_white(s@, a as int),
            decreases len - a,
        {
            a = a + 1;
        }
        if a >= len {
            return None;
        }
        proof {
            lemma_next_white(s@, a as int);
        }
        let mut b = a;
        while b < len && !is_whitespace(v[b])
            invariant
                v@ == s@,
                len == v@.len(),
                a <= b <= len,
                next_white(s@, a as int) == next_white(s@, b as int),
            decreases len - b,
        {
            b = b + 1;
        }
        assert(tokens_from(s@, pos as int) == seq![s@.subrange(a as int, b as int)] + tokens_from(
            s@,
            b as int,
        ));
        if count == n {
            assert(tokens_from(s@, pos as int)[0] == s@.subrange(a as int, b as int));
            return Some(string_of(v.as_slice(), a, b));
        }
        assert forall|m: int| 0 <= m < tokens_from(s@, b as int).len() implies tokens(s@)[count
            + 1 + m] == #[trigger] tokens_from(s@, b as int)[m] by {
            assert(tokens_from(s@, pos as int)[m + 1] == tokens_from(s@, b as int)[m]);
        }
        count = count + 1;
        pos = b;
    }
}

/// The index of the first `c` at or after `i` (or the length).
pub open spec fn next_char(s: Seq<char>, c: char, i: int) -> int
    decreases s.len() - i,
{
    if 0 <= i < s.len() && s[i] != c {
        next_char(s, c, i + 1)
    } else {
        i
    }
}

pub proof fn lemma_next_char(s: Seq<char>, c: char, i: int)
    requires
        0 <= i <= s.len(),
    ensures
        i <= next_char(s, c, i) <= s.len(),
        forall|k: int| i <= k < next_char(s, c, i) ==> #[trigger] s[k] != c,
        next_char(s, c, i) < s.len() ==> s[next_char(s, c, i)] == c,
    decreases s.len() - i,
{
    if i < s.len() && s[i] != c {
        lemma_next_char(s, c, i + 1);
    }
}

/// `x` without one trailing carriage return.
pub open spec fn strip_cr(x: Seq<char>) -> Seq<char> {
    if x.len() > 0 && x.last() == '\r' {
        x.drop_last()
    } else {
        x
    }
}

/// The lines of `s` from position `i` on, as `str::lines` yields them: split at
/// `\n`, a `\r` right before a `\n` dropped, no empty line after a final `\n`.
pub open spec fn lines_from(s: Seq<char>, i: int) -> Seq<Seq<char>>
    decreases s.len() - i,
{
    if i < 0 || i >= s.len() {
        seq![]
    } else {
        let k = next_char(s, '\n', i);
        proof {
            lemma_next_char(s, '\n', i);
        }
        if k >= s.len() {
            seq![s.subrange(i, s.len() as int)]
        } else {
            seq![strip_cr(s.subrange(i, k))] + lines_from(s, k + 1)
        }
    }
}

pub open spec fn lines(s: Seq<char>) -> Seq<Seq<char>> {
    lines_from(s, 0)
}

/// A text has no more lines than characters.
pub proof fn lemma_lines_len(s: Seq<char>, i: int)
    requires
        0 <= i <= s.len(),
    ensures
        lines_from(s, i).len() <= s.len() - i,
    decreases s.len() - i,
{
    if i < s.len() {
        lemma_next_char(s, '\n', i);
        let k = next_char(s, '\n', i);
        if k < s.len() {
            lemma_lines_len(s, k + 1);
        }
    }
}

/// Joins `parts` with `sep` between each two of them.
pub open spec fn join(parts: Seq<Seq<char>>, sep: Seq<char>) -> Seq<char>
    decreases parts.len(),
{
    if parts.len() == 0 {
        seq![]
    } else if parts.len() == 1 {
        parts[0]
    } else {
        join(parts.drop_last(), sep) + sep + parts.last()
    }
}

/// `parts.join(sep)`.
pub fn join_strings(parts: &Vec<String>, sep: &str) -> (r: String)
    ensures
        r@ == join(parts.deep_view(), sep@),
{
    let mut r = String::new();
    let mut k: usize = 0;
    while k < parts.len()
        invariant
            k <= parts@.len(),
            r@ == join(parts.deep_view().take(k as int), sep@),
        decreases parts@.len() - k,
    {
        assert(parts.deep_view().take(k + 1).drop_last() =~= parts.deep_view().take(k as int));
        if k > 0 {
            r.append(sep);
        }
        r.append(parts[k].as_str());
        k = k + 1;
    }
    assert(parts.deep_view().take(parts@.len() as int) =~= parts.deep_view());
    r
}

/// `str::lines`: the lines of a text.
pub fn lines_of(s: &str) -> (r: Vec<String>)
    ensures
        r.deep_view() == lines(s@),
{
    let v = chars_of(s);
    let len = v.len();
    let mut out: Vec<String> = Vec::new();
    let mut start: usize = 0;
    let mut pos: usize = 0;
    while pos < len
        invariant
            v@ == s@,
            len == v@.len(),
            start <= pos <= len,
            forall|k: int| start <= k < pos ==> #[trigger] v@[k] != '\n',
            lines(s@) == out.deep_view() + lines_from(s@, start as int),
        decreases len - pos,
    {
        if v[pos] == '\n' {
            proof {
                lemma_next_char(s@, '\n', start as int);
                if next_char(s@, '\n', start as int) < pos {
                    let q = next_char(s@, '\n', start as int);
                    assert(v@[q] != '\n');
                }
            }
            let end = if pos > start && v[pos - 1] == '\r' {
                pos - 1
            } else {
                pos
            };
            assert(strip_cr(s@.subrange(start as int, pos as int)) =~= s@.subrange(
                start as int,
                end as int,
            ));
            let line = string_of(v.as_slice(), start, end);
            let ghost old_out = out.deep_view();
            out.push(line);
            assert(out.deep_view() =~= old_out.push(line@));
            assert(lines_from(s@, start as int) == seq![line@] + lines_from(s@, pos + 1));
            assert(lines(s@) =~= out.deep_view() + lines_from(s@, pos + 1));
            start = pos + 1;
        }
        pos = pos + 1;
    }
    if start < len {
        proof {
            lemma_next_char(s@, '\n', start as int);
            if next_char(s@, '\n', start as int) < len {
                let q = next_char(s@, '\n', start as int);
                assert(v@[q] != '\n');
            }
        }
        let line = string_of(v.as_slice(), start, len);
        let ghost old_out = out.deep_view();
        out.push(line);
        assert(out.deep_view() =~= old_out.push(line@));
        assert(lines(s@) =~= out.deep_view() + lines_from(s@, len as int));
    }
    assert(lines(s@) =~= out.deep_view());
    out
}


/// `s.split_once(pat)`: the parts before and after the first occurrence of `pat`.
pub open spec fn split_once(s: Seq<char>, pat: Seq<char>) -> Option<(Seq<char>, Seq<char>)> {
    match find(s, pat) {
        Some(k) => Some((s.subrange(0, k), s.subrange(k + pat.len(), s.len() as int))),
        None => None,
    }
}

/// `str::split_once`.
pub fn split_once_str(s: &str, pat: &str) -> (r: Option<(String, String)>)
    ensures
        r matches Some(p) ==> split_once(s@, pat@) == Some((p.0@, p.1@)),
        r is None ==> split_once(s@, pat@) is None,
{
    let v = chars_of(s);
    let p = chars_of(pat);
    match find_exec(v.as_slice(), p.as_slice()) {
        Some(k) => {
            proof {
                lemma_find_from(v@, p@, 0);
                assert(occurs_at(v@, p@, k as int));
            }
            let n = v.len();
            let pl = p.len();
            assert(k + pl <= n);
            Some((string_of(v.as_slice(), 0, k), string_of(v.as_slice(), k + pl, n)))
        },
        None => None,
    }
}

/// `s.starts_with(pat)`.
pub fn starts_with_str(s: &str, pat: &str) -> (r: bool)
    ensures
        r == occurs_at(s@, pat@, 0),
{
    let v = chars_of(s);
    let p = chars_of(pat);
    if p.len() > v.len() {
        false
    } else {
        occurs_at_exec(v.as_slice(), p.as_slice(), 0)
    }
}

/// The index of the last `c` before `j`, or -1.
pub open spec fn last_char_before(s: Seq<char>, c: char, j: int) -> int
    decreases j,
{
    if j <= 0 {
        -1
    } else if s[j - 1] == c {
        j - 1
    } else {
        last_char_before(s, c, j - 1)
    }
}

/// The last piece of `s.split(c)`: what follows the last `c` (all of `s` without one).
pub open spec fn after_last(s: Seq<char>, c: char) -> Seq<char> {
    s.subrange(last_char_before(s, c, s.len() as int) + 1, s.len() as int)
}

pub proof fn lemma_last_char_before(s: Seq<char>, c: char, j: int)
    requires
        0 <= j <= s.len(),
    ensures
        -1 <= last_char_before(s, c, j) < j,
    decreases j,
{
    if j > 0 && s[j - 1] != c {
        lemma_last_char_before(s, c, j - 1);
    }
}

/// `s.split(c).last()`.
pub fn after_last_str(s: &str, c: char) -> (r: String)
    ensures
        r@ == after_last(s@, c),
{
    let v = chars_of(s);
    let len = v.len();
    let mut j = len;
    while j > 0 && v[j - 1] != c
        invariant
            v@ == s@,
            len == v@.len(),
            j <= len,
            last_char_before(s@, c, len as int) == last_char_before(s@, c, j as int),
        decreases j,
    {
        j = j - 1;
    }
    proof {
        lemma_last_char_before(s@, c, j as int);
    }
    string_of(v.as_slice(), j, len)
}

/// What precedes the last `c` in `s` (the first piece of `s.rsplit_once(c)`),
/// or `None` where `s` holds no `c`.
pub open spec fn before_last(s: Seq<char>, c: char) -> Option<Seq<char>> {
    let k = last_char_before(s, c, s.len() as int);
    if k >= 0 {
        Some(s.subrange(0, k))
    } else {
        None
    }
}

/// The first piece of `s.rsplit_once(c)`.
pub fn before_last_str(s: &str, c: char) -> (r: Option<String>)
    ensures
        r matches Some(x) ==> before_last(s@, c) == Some(x@),
        r is None ==> before_last(s@, c) is None,
{
    let v = chars_of(s);
    let len = v.len();
    let mut j = len;
    while j > 0 && v[j - 1] != c
        invariant
            v@ == s@,
            len == v@.len(),
            j <= len,
            last_char_before(s@, c, len as int) == last_char_before(s@, c, j as int),
        decreases j,
    {
        j = j - 1;
    }
    if j == 0 {
        None
    } else {
        Some(string_of(v.as_slice(), 0, j - 1))
    }
}

/// The text that `{:?}` writes for the string `s`: `s` between double quotes,
/// with the characters that `char::escape_debug` escapes written as escapes.
pub uninterp spec fn debug_str(s: Seq<char>) -> Seq<char>;

/// `format!("{:?}", s)`, the `Debug` form of a string.
/// Trusted: the result is `debug_str` of `s`; it depends on `s` alone.
#[verifier::external_body]
pub(crate) fn debug_string(s: &str) -> (r: String)
    ensures
        r@ == debug_str(s@),
{
    format!("{:?}", s)
}

/// The value of digit `c` in base `radix` (as `char::to_digit` gives it).
pub open spec fn digit_value(c: char, radix: nat) -> Option<nat> {
    if '0' <= c && c <= '9' && (c as int) - ('0' as int) < radix {
        Some(((c as int) - ('0' as int)) as nat)
    } else if 'a' <= c && c <= 'z' && (c as int) - ('a' as int) + 10 < radix {
        Some(((c as int) - ('a' as int) + 10) as nat)
    } else if 'A' <= c && c <= 'Z' && (c as int) - ('A' as int) + 10 < radix {
        Some(((c as int) - ('A' as int) + 10) as nat)
    } else {
        None
    }
}

/// The number that the digits `s` denote in base `radix`, if all are digits.
pub open spec fn digits_value(s: Seq<char>, radix: nat) -> Option<nat>
    decreases s.len(),
{
    if s.len() == 0 {
        Some(0)
    } else {
        match (digits_value(s.drop_last(), radix), digit_value(s.last(), radix)) {
            (Some(v), Some(d)) => Some(v * radix + d),
            _ => None,
        }
    }
}

/// The unsigned number that `s` denotes in base `radix`, with no bound on its
/// size: an optional `+` followed by at least one digit.
pub open spec fn parse_unsigned(s: Seq<char>, radix: nat) -> Option<nat> {
    let d = if s.len() > 0 && s[0] == '+' {
        s.drop_first()
    } else {
        s
    };
    if d.len() == 0 {
        None
    } else {
        digits_value(d, radix)
    }
}

/// `usize::from_str_radix` (and `str::parse` for radix 10): the value where it
/// is in range.
pub open spec fn parse_bounded(s: Seq<char>, radix: nat, max: nat) -> Option<nat> {
    match parse_unsigned(s, radix) {
        Some(v) => if v <= max {
            Some(v)
        } else {
            None
        },
        None => None,
    }
}

proof fn lemma_digits_value_prefix(s: Seq<char>, radix: nat, k: int)
    requires
        0 <= k <= s.len(),
        radix >= 1,
        digits_value(s, radix) is Some,
    ensures
        digits_value(s.take(k), radix) is Some,
        digits_value(s.take(k), radix).unwrap() <= digits_value(s, radix).unwrap(),
    decreases s.len(),
{
    if k == s.len() {
        assert(s.take(k) =~= s);
    } else {
        lemma_digits_value_prefix(s.drop_last(), radix, k);
        assert(s.drop_last().take(k) =~= s.take(k));
        let v = digits_value(s.drop_last(), radix).unwrap();
        assert(v <= v * radix) by (nonlinear_arith)
            requires
                radix >= 1,
        ;
    }
}

fn digit_value_exec(c: char, radix: u32) -> (r: Option<u32>)
    requires
        radix <= 36,
    ensures
        r matches Some(d) ==> digit_value(c, radix as nat) == Some(d as nat),
        r is None ==> digit_value(c, radix as nat) is None,
{
    if '0' <= c && c <= '9' && (c as u32) - ('0' as u32) < radix {
        Some((c as u32) - ('0' as u32))
    } else if 'a' <= c && c <= 'z' && (c as u32) - ('a' as u32) + 10 < radix {
        Some((c as u32) - ('a' as u32) + 10)
    } else if 'A' <= c && c <= 'Z' && (c as u32) - ('A' as u32) + 10 < radix {
        Some((c as u32) - ('A' as u32) + 10)
    } else {
        None
    }
}

/// Parses an unsigned number in base `radix` that must not exceed `max`
/// (`usize::from_str_radix`, `u32::from_str_radix`, `str::parse`).
pub fn parse_radix(s: &str, radix: u32, max: usize) -> (r: Option<usize>)
    requires
        2 <= radix <= 36,
    ensures
        r matches Some(v) ==> parse_bounded(s@, radix as nat, max as nat) == Some(v as nat),
        r is None ==> parse_bounded(s@, radix as nat, max as nat) is None,
{
    let v = chars_of(s);
    let len = v.len();
    let start: usize = if len > 0 && v[0] == '+' {
        1
    } else {
        0
    };
    let ghost d = if s@.len() > 0 && s@[0] == '+' {
        s@.drop_first()
    } else {
        s@
    };
    assert(d =~= v@.subrange(start as int, len as int));
    if start >= len {
        return None;
    }
    assert(parse_unsigned(s@, radix as nat) == digits_value(d, radix as nat));
    let mut acc: usize = 0;
    let mut i = start;
    while i < len
        invariant
            v@ == s@,
            len == v@.len(),
            start <= i <= len,
            2 <= radix <= 36,
            acc <= max,
            d =~= v@.subrange(start as int, len as int),
            parse_unsigned(s@, radix as nat) == digits_value(d, radix as nat),
            digits_value(d.take(i - start), radix as nat) == Some(acc as nat),
        decreases len - i,
    {
        let ghost pre = d.take(i - start);
        assert(d.take(i + 1 - start).drop_last() =~= pre);
        assert(d.take(i + 1 - start).last() == v@[i as int]);
        match digit_value_exec(v[i], radix) {
            None => {
                proof {
                    assert(digits_value(d.take(i + 1 - start), radix as nat) is None);
                    if digits_value(d, radix as nat) is Some {
                        lemma_digits_value_prefix(d, radix as nat, i + 1 - start);
                    }
                }
                return None;
            },
            Some(dv) => {
                if dv as usize > max || acc > (max - dv as usize) / (radix as usize) {
                    proof {
                        if dv <= max {
                            assert(acc * radix + dv > max) by (nonlinear_arith)
                                requires
                                    acc > (max - dv) / (radix as int),
                                    radix >= 2,
                                    dv < radix,
                                    dv <= max,
                            ;
                        }
                        assert(digits_value(d.take(i + 1 - start), radix as nat) == Some(
                            (acc * radix + dv) as nat,
                        ));
                        if digits_value(d, radix as nat) is Some {
                            lemma_digits_value_prefix(d, radix as nat, i + 1 - start);
                        }
                    }
                    return None;
                }
                assert(acc * radix + dv <= max) by (nonlinear_arith)
                    requires
                        acc <= (max - dv) / (radix as int),
                        radix >= 2,
                        dv <= max,
                ;
                acc = acc * (radix as usize) + dv as usize;
            },
        }
        i = i + 1;
    }
    assert(d.take(len - start) =~= d);
    Some(acc)
}


/// The character of digit `d` (lowercase letters above nine).
pub open spec fn digit_char(d: nat) -> char {
    if d < 10 {
        ((d as int) + ('0' as int)) as char
    } else {
        ((d as int) - 10 + ('a' as int)) as char
    }
}

/// The digits of `n` in base `radix`, most significant first, without leading zeros
/// (as `{}` and `{:x}` print an unsigned number).
pub open spec fn digits_str(n: nat, radix: nat) -> Seq<char>
    decreases n,
{
    if radix < 2 || n < radix {
        seq![digit_char(n)]
    } else {
        proof {
            assert(n / radix < n) by (nonlinear_arith)
                requires
                    radix >= 2,
                    n >= radix,
            ;
        }
        digits_str(n / radix, radix).push(digit_char(n % radix))
    }
}

fn digit_char_exec(d: u32) -> (c: char)
    requires
        d < 36,
    ensures
        c == digit_char(d as nat),
{
    if d < 10 {
        ((d as u8) + 48) as char
    } else {
        ((d as u8) - 10 + 97) as char
    }
}

/// Formats `n` in base `radix` (`format!("{}", n)` for ten, `format!("{:x}", n)`
/// for sixteen).
pub fn format_radix(n: usize, radix: u32) -> (r: String)
    requires
        2 <= radix <= 36,
    ensures
        r@ == digits_str(n as nat, radix as nat),
{
    // digits from the least significant one on
    let mut rev: Vec<char> = Vec::new();
    let mut m: usize = n;
    let ghost mut suffix: Seq<char> = seq![];
    while m >= radix as usize
        invariant
            2 <= radix <= 36,
            digits_str(n as nat, radix as nat) == digits_str(m as nat, radix as nat) + suffix,
            rev@.len() == suffix.len(),
            forall|k: int| 0 <= k < suffix.len() ==> #[trigger] rev@[k] == suffix[suffix.len() - 1 - k],
        decreases m,
    {
        let d = (m % (radix as usize)) as u32;
        let c = digit_char_exec(d);
        proof {
            assert(digits_str(m as nat, radix as nat) == digits_str((m / (radix as usize)) as nat, radix as nat).push(c));
            assert(digits_str(m as nat, radix as nat) + suffix =~= digits_str((m / (radix as usize)) as nat, radix as nat) + (seq![c] + suffix));
            suffix = seq![c] + suffix;
        }
        rev.push(c);
        m = m / (radix as usize);
    }
    let c = digit_char_exec(m as u32);
    proof {
        suffix = seq![c] + suffix;
        assert(digits_str(n as nat, radix as nat) =~= suffix);
    }
    rev.push(c);
    let mut out = String::new();
    let mut k = rev.len();
    while k > 0
        invariant
            k <= rev@.len(),
            rev@.len() == suffix.len(),
            forall|i: int| 0 <= i < suffix.len() ==> #[trigger] rev@[i] == suffix[suffix.len() - 1 - i],
            out@ == suffix.subrange(0, rev@.len() - k),
        decreases k,
    {
        k = k - 1;
        push_char(&mut out, rev[k]);
        assert(out@ =~= suffix.subrange(0, rev@.len() - k));
    }
    assert(out@ =~= suffix);
    out
}

proof fn lemma_digit_roundtrip(d: nat, radix: nat)
    requires
        d < radix <= 36,
    ensures
        digit_value(digit_char(d), radix) == Some(d),
{
}

/// Printing a number and parsing it back gives the number.
pub proof fn lemma_digits_roundtrip(n: nat, radix: nat)
    requires
        2 <= radix <= 36,
    ensures
        digits_value(digits_str(n, radix), radix) == Some(n),
        digits_str(n, radix).len() > 0,
        digits_str(n, radix)[0] != '+',
        parse_unsigned(digits_str(n, radix), radix) == Some(n),
    decreases n,
{
    if n < radix {
        lemma_digit_roundtrip(n, radix);
        let s = digits_str(n, radix);
        assert(s == seq![digit_char(n)]);
        assert(s.drop_last() =~= Seq::<char>::empty());
        assert(digits_value(s.drop_last(), radix) == Some(0nat));
        assert(s.last() == digit_char(n));
        assert(digits_value(s, radix) == Some(0 * radix + n));
    } else {
        let q = n / radix;
        let r = n % radix;
        assert(q < n) by (nonlinear_arith)
            requires
                radix >= 2,
                n >= radix,
                q == n / radix,
        ;
        lemma_digits_roundtrip(q, radix);
        lemma_digit_roundtrip(r, radix);
        let s = digits_str(n, radix);
        assert(s.drop_last() =~= digits_str(q, radix));
        assert(q * radix + r == n) by (nonlinear_arith)
            requires
                radix >= 2,
                q == n / radix,
                r == n % radix,
        ;
    }
}

/// `str::parse::<bool>`.
pub open spec fn parse_bool(s: Seq<char>) -> Option<bool> {
    if s == "true"@ {
        Some(true)
    } else if s == "false"@ {
        Some(false)
    } else {
        None
    }
}

pub fn parse_bool_str(s: &str) -> (r: Option<bool>)
    ensures
        r == parse_bool(s@),
{
    if str_eq(s, "true") {
        Some(true)
    } else if str_eq(s, "false") {
        Some(false)
    } else {
        None
    }
}

} // verus!
