//! Character-level utilities shared by the text transforms: character
//! classes, substring search, and conversions between `String` and
//! `Vec<char>`.

use vstd::prelude::*;
use vstd::string::StrSliceExecFns;

verus! {

/// Horizontal whitespace: the characters collapsed to a single space by the
/// whitespace-collapsing transform (space, tab, no-break space).
pub open spec fn is_hws(c: char) -> bool {
    c == ' ' || c == '\t' || c == '\u{00A0}'
}

/// Unicode whitespace, the set recognized by the `White_Space` property.
pub open spec fn is_wsc(c: char) -> bool {
    c == ' ' || ('\u{0009}' <= c && c <= '\u{000D}') || c == '\u{0085}' || c == '\u{00A0}'
        || c == '\u{1680}' || ('\u{2000}' <= c && c <= '\u{200A}') || c == '\u{2028}'
        || c == '\u{2029}' || c == '\u{202F}' || c == '\u{205F}' || c == '\u{3000}'
}

/// Digits accepted inside numeric citation markers. Only the ASCII digits
/// count: a bracketed marker written with another script's digit characters
/// is treated as an ordinary bracketed block, not as a citation.
pub open spec fn is_digit(c: char) -> bool {
    '0' <= c && c <= '9'
}

/// Sentence punctuation before which whitespace is removed.
pub open spec fn is_punct(c: char) -> bool {
    c == ',' || c == '.' || c == ';' || c == ':' || c == '!' || c == '?'
}

pub fn hws(c: char) -> (r: bool)
    ensures
        r == is_hws(c),
{
    c == ' ' || c == '\t' || c == '\u{00A0}'
}

pub fn wsc(c: char) -> (r: bool)
    ensures
        r == is_wsc(c),
{
    c == ' ' || ('\u{0009}' <= c && c <= '\u{000D}') || c == '\u{0085}' || c == '\u{00A0}'
        || c == '\u{1680}' || ('\u{2000}' <= c && c <= '\u{200A}') || c == '\u{2028}'
        || c == '\u{2029}' || c == '\u{202F}' || c == '\u{205F}' || c == '\u{3000}'
}

pub fn digit(c: char) -> (r: bool)
    ensures
        r == is_digit(c),
{
    '0' <= c && c <= '9'
}

pub fn punct(c: char) -> (r: bool)
    ensures
        r == is_punct(c),
{
    c == ',' || c == '.' || c == ';' || c == ':' || c == '!' || c == '?'
}

/// Index of the first occurrence of `c` at or after `from`, or `s.len()` if
/// there is none.
pub open spec fn find_char(s: Seq<char>, from: int, c: char) -> int
    decreases s.len() - from,
    when 0 <= from <= s.len()
{
    if from >= s.len() {
        s.len() as int
    } else if s[from] == c {
        from
    } else {
        find_char(s, from + 1, c)
    }
}

pub proof fn lemma_find_char(s: Seq<char>, from: int, c: char)
    requires
        0 <= from <= s.len(),
    ensures
        from <= find_char(s, from, c) <= s.len(),
        find_char(s, from, c) < s.len() ==> s[find_char(s, from, c)] == c,
        forall|k: int| from <= k < find_char(s, from, c) ==> s[k] != c,
    decreases s.len() - from,
{
    if from < s.len() && s[from] != c {
        lemma_find_char(s, from + 1, c);
    }
}

pub fn find_char_in(v: &Vec<char>, from: usize, c: char) -> (r: usize)
    requires
        from <= v@.len(),
    ensures
        r == find_char(v@, from as int, c),
        from <= r <= v@.len(),
        r < v@.len() ==> v@[r as int] == c,
{
    proof {
        lemma_find_char(v@, from as int, c);
    }
    let mut i: usize = from;
    while i < v.len()
        invariant
            from <= i <= v@.len(),
            find_char(v@, from as int, c) == find_char(v@, i as int, c),
        decreases v@.len() - i,
    {
        if v[i] == c {
            return i;
        }
        i = i + 1;
    }
    i
}

/// Index of the first character at or after `from` that is not horizontal
/// whitespace, or `s.len()`.
pub open spec fn skip_hws(s: Seq<char>, from: int) -> int
    decreases s.len() - from,
    when 0 <= from <= s.len()
{
    if from >= s.len() {
        s.len() as int
    } else if is_hws(s[from]) {
        skip_hws(s, from + 1)
    } else {
        from
    }
}

pub proof fn lemma_skip_hws(s: Seq<char>, from: int)
    requires
        0 <= from <= s.len(),
    ensures
        from <= skip_hws(s, from) <= s.len(),
        skip_hws(s, from) < s.len() ==> !is_hws(s[skip_hws(s, from)]),
        forall|k: int| from <= k < skip_hws(s, from) ==> is_hws(s[k]),
    decreases s.len() - from,
{
    if from < s.len() && is_hws(s[from]) {
        lemma_skip_hws(s, from + 1);
    }
}

pub fn skip_hws_in(v: &Vec<char>, from: usize) -> (r: usize)
    requires
        from <= v@.len(),
    ensures
        r == skip_hws(v@, from as int),
        from <= r <= v@.len(),
{
    proof {
        lemma_skip_hws(v@, from as int);
    }
    let mut i: usize = from;
    while i < v.len()
        invariant
            from <= i <= v@.len(),
            skip_hws(v@, from as int) == skip_hws(v@, i as int),
        decreases v@.len() - i,
    {
        if !hws(v[i]) {
            return i;
        }
        i = i + 1;
    }
    i
}

/// Index of the first character at or after `from` that is not Unicode
/// whitespace, or `s.len()`.
pub open spec fn skip_ws(s: Seq<char>, from: int) -> int
    decreases s.len() - from,
    when 0 <= from <= s.len()
{
    if from >= s.len() {
        s.len() as int
    } else if is_wsc(s[from]) {
        skip_ws(s, from + 1)
    } else {
        from
    }
}

pub proof fn lemma_skip_ws(s: Seq<char>, from: int)
    requires
        0 <= from <= s.len(),
    ensures
        from <= skip_ws(s, from) <= s.len(),
        skip_ws(s, from) < s.len() ==> !is_wsc(s[skip_ws(s, from)]),
        forall|k: int| from <= k < skip_ws(s, from) ==> is_wsc(s[k]),
    decreases s.len() - from,
{
    if from < s.len() && is_wsc(s[from]) {
        lemma_skip_ws(s, from + 1);
    }
}

pub fn skip_ws_in(v: &Vec<char>, from: usize) -> (r: usize)
    requires
        from <= v@.len(),
    ensures
        r == skip_ws(v@, from as int),
        from <= r <= v@.len(),
{
    proof {
        lemma_skip_ws(v@, from as int);
    }
    let mut i: usize = from;
    while i < v.len()
        invariant
            from <= i <= v@.len(),
            skip_ws(v@, from as int) == skip_ws(v@, i as int),
        decreases v@.len() - i,
    {
        if !wsc(v[i]) {
            return i;
        }
        i = i + 1;
    }
    i
}

/// Whether `pat` occurs in `s` starting at `i`.
pub open spec fn matches_at(s: Seq<char>, pat: Seq<char>, i: int) -> bool {
    0 <= i && i + pat.len() <= s.len() && s.subrange(i, i + pat.len()) == pat
}

pub fn matches_at_in(v: &Vec<char>, pat: &Vec<char>, i: usize) -> (r: bool)
    requires
        i <= v@.len(),
    ensures
        r == matches_at(v@, pat@, i as int),
{
    if v.len() - i < pat.len() {
        assert(!matches_at(v@, pat@, i as int));
        return false;
    }
    let mut k: usize = 0;
    while k < pat.len()
        invariant
            0 <= k <= pat@.len(),
            i + pat@.len() <= v@.len(),
            forall|m: int| 0 <= m < k ==> v@[i + m] == pat@[m],
        decreases pat@.len() - k,
    {
        assert(i + k < v.len());
        let idx: usize = i + k;
        if v[idx] != pat[k] {
            assert(v@.subrange(i as int, i + pat@.len())[k as int] == v@[i + k]);
            return false;
        }
        k = k + 1;
    }
    assert(v@.subrange(i as int, i + pat@.len()) =~= pat@);
    true
}

/// Index of the first occurrence of `pat` in `s` at or after `from`, or
/// `s.len()` if there is none.
pub open spec fn find_sub(s: Seq<char>, pat: Seq<char>, from: int) -> int
    decreases s.len() - from,
    when 0 <= from && 1 <= pat.len()
{
    if from + pat.len() > s.len() {
        s.len() as int
    } else if matches_at(s, pat, from) {
        from
    } else {
        find_sub(s, pat, from + 1)
    }
}

pub proof fn lemma_find_sub(s: Seq<char>, pat: Seq<char>, from: int)
    requires
        0 <= from <= s.len(),
        1 <= pat.len(),
    ensures
        from <= find_sub(s, pat, from),
        find_sub(s, pat, from) <= s.len(),
        find_sub(s, pat, from) < s.len() ==> matches_at(s, pat, find_sub(s, pat, from)),
        forall|k: int| from <= k < find_sub(s, pat, from) ==> !matches_at(s, pat, k),
    decreases s.len() - from,
{
    if from + pat.len() <= s.len() && !matches_at(s, pat, from) {
        lemma_find_sub(s, pat, from + 1);
    }
}

pub fn find_sub_in(v: &Vec<char>, pat: &Vec<char>, from: usize) -> (r: usize)
    requires
        from <= v@.len(),
        1 <= pat@.len(),
    ensures
        r == find_sub(v@, pat@, from as int),
        from <= r <= v@.len(),
        r < v@.len() ==> matches_at(v@, pat@, r as int),
{
    proof {
        lemma_find_sub(v@, pat@, from as int);
    }
    let mut i: usize = from;
    while i < v.len()
        invariant
            from <= i <= v@.len(),
            1 <= pat@.len(),
            find_sub(v@, pat@, from as int) == find_sub(v@, pat@, i as int),
        decreases v@.len() - i,
    {
        if matches_at_in(v, pat, i) {
            return i;
        }
        proof {
            reveal_with_fuel(find_sub, 2);
            assert(find_sub(v@, pat@, i as int) == find_sub(v@, pat@, i as int + 1));
        }
        i = i + 1;
    }
    v.len()
}

/// The characters of a string, as a vector.
pub fn chars_of(s: &str) -> (r: Vec<char>)
    ensures
        r@ == s@,
{
    let n = s.unicode_len();
    let mut r: Vec<char> = Vec::new();
    let mut i: usize = 0;
    while i < n
        invariant
            0 <= i <= n,
            n == s@.len(),
            r@ == s@.subrange(0, i as int),
        decreases n - i,
    {
        r.push(s.get_char(i));
        assert(r@ =~= s@.subrange(0, i + 1));
        i = i + 1;
    }
    assert(s@.subrange(0, n as int) =~= s@);
    r
}

/// Relies on `String::push`: appends the character to the end of the string.
pub assume_specification[ String::push ](s: &mut String, c: char)
    ensures
        final(s)@ == old(s)@.push(c),
;

/// The string holding exactly the given characters.
pub fn string_of(v: &Vec<char>) -> (r: String)
    ensures
        r@ == v@,
{
    let mut r = String::new();
    let mut i: usize = 0;
    while i < v.len()
        invariant
            0 <= i <= v@.len(),
            r@ == v@.subrange(0, i as int),
        decreases v@.len() - i,
    {
        r.push(v[i]);
        assert(r@ =~= v@.subrange(0, i + 1));
        i = i + 1;
    }
    assert(v@.subrange(0, v@.len() as int) =~= v@);
    r
}

/// Names the set of characters accepted by `char::is_alphanumeric`: the
/// Unicode letters, marks and numbers. The set is far too large to state
/// here, so contracts refer to it only through this name.
pub uninterp spec fn is_alphanum(c: char) -> bool;

/// Relies on `char::is_alphanumeric`: a pure classification of the
/// character, the same on every call.
#[verifier::external_body]
pub fn alphanum(c: char) -> (r: bool)
    ensures
        r == is_alphanum(c),
{
    c.is_alphanumeric()
}

} // verus!
