//! Character-level text operations with exact functional contracts.
//!
//! Text is handled as a slice of characters, so that every contract can be
//! stated over `Seq<char>`, the view that `str` and `String` have as well.

use vstd::prelude::*;
use vstd::slice::slice_subrange;

verus! {

/// `String::push`: appends one character at the end.
pub assume_specification[ String::push ](s: &mut String, c: char)
    ensures
        final(s)@ == old(s)@.push(c),
;

/// The characters of a string, in order.
pub fn chars_of(s: &str) -> (out: Vec<char>)
    ensures
        out@ == s@,
{
    let mut out: Vec<char> = Vec::new();
    for c in it: s.chars()
        invariant
            it.seq() == s@,
            out@ == s@.take(it.index()),
    {
        out.push(c);
        assert(s@.take(it.index() + 1) == s@.take(it.index()).push(s@[it.index()]));
    }
    assert(s@.take(s@.len() as int) == s@);
    out
}

/// The string made of the given characters.
pub fn string_of(s: &[char]) -> (out: String)
    ensures
        out@ == s@,
{
    let mut out = String::new();
    let mut i: usize = 0;
    while i < s.len()
        invariant
            i <= s.len(),
            out@ == s@.take(i as int),
        decreases s.len() - i,
    {
        out.push(s[i]);
        assert(s@.take(i + 1) == s@.take(i as int).push(s@[i as int]));
        i = i + 1;
    }
    assert(s@.take(i as int) == s@);
    out
}

/// A copy of a slice of characters.
pub fn to_vec(s: &[char]) -> (out: Vec<char>)
    ensures
        out@ == s@,
{
    let mut out: Vec<char> = Vec::new();
    push_all(&mut out, s);
    assert(Seq::<char>::empty() + s@ == s@);
    out
}

/// Appends the characters of `s`.
pub fn push_all(out: &mut Vec<char>, s: &[char])
    ensures
        final(out)@ == old(out)@ + s@,
{
    let mut i: usize = 0;
    assert(s@.take(0) == Seq::<char>::empty());
    while i < s.len()
        invariant
            i <= s.len(),
            out@ == old(out)@ + s@.take(i as int),
        decreases s.len() - i,
    {
        out.push(s[i]);
        assert(s@.take(i + 1) == s@.take(i as int).push(s@[i as int]));
        assert(out@ == old(out)@ + s@.take(i + 1));
        i = i + 1;
    }
    assert(s@.take(i as int) == s@);
}

/// Appends the characters of a string.
pub fn push_str(out: &mut Vec<char>, s: &str)
    ensures
        final(out)@ == old(out)@ + s@,
{
    let v = chars_of(s);
    push_all(out, v.as_slice());
}

/// The concatenation of two strings.
pub fn concat(a: &str, b: &str) -> (out: String)
    ensures
        out@ == a@ + b@,
{
    let mut v = chars_of(a);
    push_str(&mut v, b);
    string_of(v.as_slice())
}

/// A copy of a string slice.
pub fn owned(s: &str) -> (out: String)
    ensures
        out@ == s@,
{
    s.to_owned()
}

/// The views of a list of values.
pub open spec fn views<T: View>(v: Seq<T>) -> Seq<T::V> {
    v.map_values(|x: T| x@)
}

/// The views of a list of strings.
pub open spec fn texts(v: Seq<String>) -> Seq<Seq<char>> {
    v.map_values(|s: String| s@)
}

/// The views of a list of character vectors.
pub open spec fn rows(v: Seq<Vec<char>>) -> Seq<Seq<char>> {
    v.map_values(|s: Vec<char>| s@)
}

/// The view of an optional string.
pub open spec fn opt_text(s: Option<String>) -> Option<Seq<char>> {
    match s {
        Some(s) => Some(s@),
        None => None,
    }
}

/// The view of an optional string slice.
pub open spec fn opt_str(s: Option<&str>) -> Option<Seq<char>> {
    match s {
        Some(s) => Some(s@),
        None => None,
    }
}

/// A list of strings from a list of character vectors.
pub fn strings_of(v: &Vec<Vec<char>>) -> (out: Vec<String>)
    ensures
        texts(out@) == rows(v@),
{
    let mut out: Vec<String> = Vec::new();
    let mut i: usize = 0;
    while i < v.len()
        invariant
            i <= v.len(),
            out@.len() == i,
            forall|j: int| 0 <= j < i ==> (#[trigger] out@[j])@ == v@[j]@,
        decreases v.len() - i,
    {
        out.push(string_of(v[i].as_slice()));
        i = i + 1;
    }
    assert(texts(out@) =~= rows(v@));
    out
}

// ---------------------------------------------------------------------------
// Equality, prefixes, suffixes, search
// ---------------------------------------------------------------------------
/// Whether two slices hold the same characters.
pub fn same(a: &[char], b: &[char]) -> (r: bool)
    ensures
        r == (a@ == b@),
{
    if a.len() != b.len() {
        return false;
    }
    let mut i: usize = 0;
    while i < a.len()
        invariant
            i <= a.len(),
            a.len() == b.len(),
            forall|j: int| 0 <= j < i ==> a@[j] == b@[j],
        decreases a.len() - i,
    {
        if a[i] != b[i] {
            return false;
        }
        i = i + 1;
    }
    assert(a@ =~= b@);
    true
}

/// Whether the characters are those of a string.
pub fn is_str(s: &[char], t: &str) -> (r: bool)
    ensures
        r == (s@ == t@),
{
    let v = chars_of(t);
    same(s, v.as_slice())
}

/// Whether two strings hold the same characters.
pub fn str_eq(a: &str, b: &str) -> (r: bool)
    ensures
        r == (a@ == b@),
{
    let va = chars_of(a);
    is_str(va.as_slice(), b)
}

/// `p` stands in `s` at position `i`.
pub open spec fn occurs_at(s: Seq<char>, p: Seq<char>, i: int) -> bool {
    0 <= i && i + p.len() <= s.len() && s.subrange(i, i + p.len()) == p
}

/// `s` begins with `p`.
pub open spec fn starts(s: Seq<char>, p: Seq<char>) -> bool {
    occurs_at(s, p, 0)
}

/// `s` ends with `p`.
pub open spec fn ends(s: Seq<char>, p: Seq<char>) -> bool {
    occurs_at(s, p, s.len() - p.len())
}

/// `p` stands somewhere in `s`.
pub open spec fn contains(s: Seq<char>, p: Seq<char>) -> bool {
    exists|i: int| #[trigger] occurs_at(s, p, i)
}

/// The first position at or after `from` at which `p` stands in `s`.
pub open spec fn find_from(s: Seq<char>, p: Seq<char>, from: int) -> Option<int>
    decreases s.len() + 1 - from,
{
    if from < 0 || from + p.len() > s.len() {
        None
    } else if occurs_at(s, p, from) {
        Some(from)
    } else {
        find_from(s, p, from + 1)
    }
}

/// The first position at which `p` stands in `s`.
pub open spec fn find(s: Seq<char>, p: Seq<char>) -> Option<int> {
    find_from(s, p, 0)
}

/// What `find_from` promises: the least matching position, or none at all.
pub proof fn lemma_find_from(s: Seq<char>, p: Seq<char>, from: int)
    requires
        0 <= from,
    ensures
        match find_from(s, p, from) {
            Some(i) => from <= i && occurs_at(s, p, i) && forall|j: int|
                from <= j < i ==> !#[trigger] occurs_at(s, p, j),
            None => forall|j: int| from <= j ==> !#[trigger] occurs_at(s, p, j),
        },
    decreases s.len() + 1 - from,
{
    if from + p.len() <= s.len() && !occurs_at(s, p, from) {
        lemma_find_from(s, p, from + 1);
    }
}

/// A text contains a pattern exactly when a search finds it.
pub proof fn lemma_contains_find(s: Seq<char>, p: Seq<char>)
    ensures
        contains(s, p) == find(s, p).is_some(),
{
    lemma_find_from(s, p, 0);
}

/// Whether `p` stands in `s` at `i`.
pub fn matches_at(s: &[char], p: &[char], i: usize) -> (r: bool)
    ensures
        r == occurs_at(s@, p@, i as int),
{
    if i > s.len() || p.len() > s.len() - i {
        return false;
    }
    let mut k: usize = 0;
    while k < p.len()
        invariant
            k <= p.len(),
            i + p.len() <= s.len(),
            forall|j: int| 0 <= j < k ==> s@[i + j] == p@[j],
        decreases p.len() - k,
    {
        if s[i + k] != p[k] {
            assert(s@.subrange(i as int, i + p@.len())[k as int] != p@[k as int]);
            return false;
        }
        k = k + 1;
    }
    assert(s@.subrange(i as int, i + p@.len()) =~= p@);
    true
}

/// The first position at or after `from` at which `p` stands in `s`.
pub fn find_at(s: &[char], p: &[char], from: usize) -> (r: Option<usize>)
    ensures
        match r {
            Some(i) => find_from(s@, p@, from as int) == Some(i as int) && from <= i && i + p@.len()
                <= s.len(),
            None => find_from(s@, p@, from as int) is None,
        },
{
    let mut i: usize = from;
    while i <= s.len() && p.len() <= s.len() - i
        invariant
            from <= i,
            find_from(s@, p@, from as int) == find_from(s@, p@, i as int),
            i <= s.len() || i == from,
        decreases s.len() - i,
    {
        if matches_at(s, p, i) {
            return Some(i);
        }
        if i == s.len() {
            assert(find_from(s@, p@, i + 1) is None);
            return None;
        }
        i = i + 1;
    }
    None
}

/// The first position at which the string `p` stands in `s`.
pub fn find_str(s: &[char], p: &str) -> (r: Option<usize>)
    ensures
        match r {
            Some(i) => find(s@, p@) == Some(i as int) && i + p@.len() <= s.len(),
            None => find(s@, p@) is None,
        },
{
    let v = chars_of(p);
    find_at(s, v.as_slice(), 0)
}

/// Whether `p` stands somewhere in `s`.
pub fn has(s: &[char], p: &[char]) -> (r: bool)
    ensures
        r == contains(s@, p@),
{
    proof {
        lemma_contains_find(s@, p@);
    }
    match find_at(s, p, 0) {
        Some(_) => true,
        None => false,
    }
}

/// Whether the string `p` stands somewhere in `s`.
pub fn has_str(s: &[char], p: &str) -> (r: bool)
    ensures
        r == contains(s@, p@),
{
    let v = chars_of(p);
    has(s, v.as_slice())
}

/// Whether `s` begins with `p`.
pub fn starts_with(s: &[char], p: &[char]) -> (r: bool)
    ensures
        r == starts(s@, p@),
{
    matches_at(s, p, 0)
}

/// Whether `s` begins with the string `p`.
pub fn starts_with_str(s: &[char], p: &str) -> (r: bool)
    ensures
        r == starts(s@, p@),
{
    let v = chars_of(p);
    matches_at(s, v.as_slice(), 0)
}

/// Whether `s` ends with the string `p`.
pub fn ends_with_str(s: &[char], p: &str) -> (r: bool)
    ensures
        r == ends(s@, p@),
{
    let v = chars_of(p);
    if v.len() > s.len() {
        false
    } else {
        matches_at(s, v.as_slice(), s.len() - v.len())
    }
}

/// The first position at or after `from` that holds `c`.
pub open spec fn index_of_from(s: Seq<char>, c: char, from: int) -> Option<int>
    decreases s.len() - from,
{
    if from < 0 || from >= s.len() {
        None
    } else if s[from] == c {
        Some(from)
    } else {
        index_of_from(s, c, from + 1)
    }
}

/// The first position that holds `c`.
pub open spec fn index_of(s: Seq<char>, c: char) -> Option<int> {
    index_of_from(s, c, 0)
}

/// What `index_of_from` promises: the least position, or none at all.
pub proof fn lemma_index_of_from(s: Seq<char>, c: char, from: int)
    requires
        0 <= from,
    ensures
        match index_of_from(s, c, from) {
            Some(i) => from <= i < s.len() && s[i] == c && forall|j: int|
                from <= j < i ==> s[j] != c,
            None => forall|j: int| from <= j < s.len() ==> s[j] != c,
        },
    decreases s.len() - from,
{
    if from < s.len() && s[from] != c {
        lemma_index_of_from(s, c, from + 1);
    }
}

/// The first position at or after `from` that holds `c`.
pub fn find_char_at(s: &[char], c: char, from: usize) -> (r: Option<usize>)
    ensures
        match r {
            Some(i) => index_of_from(s@, c, from as int) == Some(i as int) && from <= i < s.len()
                && s@[i as int] == c,
            None => index_of_from(s@, c, from as int) is None,
        },
{
    let mut i: usize = from;
    while i < s.len()
        invariant
            from <= i,
            index_of_from(s@, c, from as int) == index_of_from(s@, c, i as int),
        decreases s.len() - i,
    {
        if s[i] == c {
            return Some(i);
        }
        i = i + 1;
    }
    None
}

/// The last position before `end` that holds `c`.
pub open spec fn last_index_before(s: Seq<char>, c: char, end: int) -> Option<int>
    decreases end,
{
    if end <= 0 {
        None
    } else if s[end - 1] == c {
        Some(end - 1)
    } else {
        last_index_before(s, c, end - 1)
    }
}

/// The last position that holds `c`.
pub open spec fn last_index_of(s: Seq<char>, c: char) -> Option<int> {
    last_index_before(s, c, s.len() as int)
}

/// What `last_index_before` promises: the greatest position, or none at all.
pub proof fn lemma_last_index_before(s: Seq<char>, c: char, end: int)
    requires
        0 <= end <= s.len(),
    ensures
        match last_index_before(s, c, end) {
            Some(i) => 0 <= i < end && s[i] == c && forall|j: int| i < j < end ==> s[j] != c,
            None => forall|j: int| 0 <= j < end ==> s[j] != c,
        },
    decreases end,
{
    if end > 0 && s[end - 1] != c {
        lemma_last_index_before(s, c, end - 1);
    }
}

/// The last position that holds `c`.
pub fn rfind_char(s: &[char], c: char) -> (r: Option<usize>)
    ensures
        match r {
            Some(i) => last_index_of(s@, c) == Some(i as int) && i < s.len() && s@[i as int] == c,
            None => last_index_of(s@, c) is None,
        },
{
    let mut i: usize = s.len();
    while i > 0
        invariant
            i <= s.len(),
            last_index_of(s@, c) == last_index_before(s@, c, i as int),
        decreases i,
    {
        if s[i - 1] == c {
            return Some(i - 1);
        }
        i = i - 1;
    }
    None
}

/// The last position at or before `from` at which `p` stands in `s`.
pub open spec fn rfind_from(s: Seq<char>, p: Seq<char>, from: int) -> Option<int>
    decreases from + 1,
{
    if from < 0 {
        None
    } else if occurs_at(s, p, from) {
        Some(from)
    } else {
        rfind_from(s, p, from - 1)
    }
}

/// The last position at which `p` stands in `s`.
pub open spec fn rfind(s: Seq<char>, p: Seq<char>) -> Option<int> {
    rfind_from(s, p, s.len() - p.len())
}

/// The last position at which `p` stands in `s`.
pub fn rfind_str(s: &[char], p: &str) -> (r: Option<usize>)
    ensures
        match r {
            Some(i) => rfind(s@, p@) == Some(i as int) && i + p@.len() <= s.len() && occurs_at(
                s@,
                p@,
                i as int,
            ),
            None => rfind(s@, p@) is None,
        },
{
    let v = chars_of(p);
    if v.len() > s.len() {
        return None;
    }
    let mut i: usize = s.len() - v.len();
    loop
        invariant
            v@ == p@,
            i + v@.len() <= s@.len(),
            rfind(s@, p@) == rfind_from(s@, p@, i as int),
        decreases i,
    {
        if matches_at(s, v.as_slice(), i) {
            return Some(i);
        }
        if i == 0 {
            assert(rfind_from(s@, p@, i - 1) is None);
            return None;
        }
        i = i - 1;
    }
}

// ---------------------------------------------------------------------------
// Character classes
// ---------------------------------------------------------------------------
/// The characters with the Unicode property White_Space.
pub open spec fn ws(c: char) -> bool {
    ||| '\u{9}' <= c <= '\u{d}'
    ||| c == ' '
    ||| c == '\u{85}'
    ||| c == '\u{a0}'
    ||| c == '\u{1680}'
    ||| '\u{2000}' <= c <= '\u{200a}'
    ||| c == '\u{2028}'
    ||| c == '\u{2029}'
    ||| c == '\u{202f}'
    ||| c == '\u{205f}'
    ||| c == '\u{3000}'
}

/// Whether the character has the Unicode property White_Space.
pub fn is_whitespace(c: char) -> (r: bool)
    ensures
        r == ws(c),
{
    ('\u{9}' <= c && c <= '\u{d}') || c == ' ' || c == '\u{85}' || c == '\u{a0}' || c == '\u{1680}'
        || ('\u{2000}' <= c && c <= '\u{200a}') || c == '\u{2028}' || c == '\u{2029}' || c
        == '\u{202f}' || c == '\u{205f}' || c == '\u{3000}'
}

/// The ASCII digits.
pub open spec fn digit(c: char) -> bool {
    '0' <= c <= '9'
}

/// The ASCII letters and digits.
pub open spec fn alnum(c: char) -> bool {
    ('a' <= c <= 'z') || ('A' <= c <= 'Z') || digit(c)
}

/// The characters of an ASCII identifier.
pub open spec fn word_char(c: char) -> bool {
    alnum(c) || c == '_'
}

/// Whether the character is an ASCII letter or digit.
pub fn is_alnum(c: char) -> (r: bool)
    ensures
        r == alnum(c),
{
    ('a' <= c && c <= 'z') || ('A' <= c && c <= 'Z') || ('0' <= c && c <= '9')
}

/// Whether the character belongs to an ASCII identifier.
pub fn is_word_char(c: char) -> (r: bool)
    ensures
        r == word_char(c),
{
    is_alnum(c) || c == '_'
}

/// The ASCII lower case of a character.
pub open spec fn lower_char(c: char) -> char {
    if 'A' <= c <= 'Z' {
        ((c as u32) + 32) as char
    } else {
        c
    }
}

/// The ASCII lower case of a text.
pub open spec fn lower(s: Seq<char>) -> Seq<char> {
    s.map_values(|c: char| lower_char(c))
}

/// The ASCII lower case of a text.
pub fn to_lower(s: &[char]) -> (out: Vec<char>)
    ensures
        out@ == lower(s@),
{
    let mut out: Vec<char> = Vec::new();
    let mut i: usize = 0;
    while i < s.len()
        invariant
            i <= s.len(),
            out@.len() == i,
            forall|j: int| 0 <= j < i ==> out@[j] == lower_char(s@[j]),
        decreases s.len() - i,
    {
        let c = s[i];
        if 'A' <= c && c <= 'Z' {
            let n: u8 = c as u8;
            out.push((n + 32) as char);
        } else {
            out.push(c);
        }
        i = i + 1;
    }
    assert(out@ =~= lower(s@));
    out
}

/// The text with every `a` replaced by `b`.
pub open spec fn swap_char(s: Seq<char>, a: char, b: char) -> Seq<char> {
    s.map_values(|c: char| if c == a { b } else { c })
}

/// The text with every `a` replaced by `b`.
pub fn replace_char(s: &[char], a: char, b: char) -> (out: Vec<char>)
    ensures
        out@ == swap_char(s@, a, b),
{
    let mut out: Vec<char> = Vec::new();
    let mut i: usize = 0;
    while i < s.len()
        invariant
            i <= s.len(),
            out@.len() == i,
            forall|j: int| 0 <= j < i ==> out@[j] == (if s@[j] == a { b } else { s@[j] }),
        decreases s.len() - i,
    {
        if s[i] == a {
            out.push(b);
        } else {
            out.push(s[i]);
        }
        i = i + 1;
    }
    assert(out@ =~= swap_char(s@, a, b));
    out
}

/// The text with every occurrence of `p` replaced by `r`, taken from the left
/// and without overlap.
pub open spec fn replace_all(s: Seq<char>, p: Seq<char>, r: Seq<char>) -> Seq<char>
    decreases s.len(),
{
    if s.len() == 0 {
        s
    } else if p.len() > 0 && occurs_at(s, p, 0) {
        r + replace_all(s.skip(p.len() as int), p, r)
    } else {
        seq![s[0]] + replace_all(s.skip(1), p, r)
    }
}

/// The text with every occurrence of `p` replaced by `r`.
pub fn replace(s: &[char], p: &[char], r: &[char]) -> (out: Vec<char>)
    requires
        p@.len() > 0,
    ensures
        out@ == replace_all(s@, p@, r@),
{
    let mut out: Vec<char> = Vec::new();
    let mut i: usize = 0;
    assert(s@.skip(0) == s@);
    assert(out@ + replace_all(s@, p@, r@) == replace_all(s@, p@, r@));
    while i < s.len()
        invariant
            i <= s.len(),
            p@.len() > 0,
            out@ + replace_all(s@.skip(i as int), p@, r@) == replace_all(s@, p@, r@),
        decreases s.len() - i,
    {
        let ghost rest = s@.skip(i as int);
        let ghost before = out@;
        assert(occurs_at(s@, p@, i as int) == occurs_at(rest, p@, 0)) by {
            if i + p@.len() <= s@.len() {
                assert(s@.subrange(i as int, i + p@.len()) =~= rest.subrange(0, p@.len() as int));
            }
        }
        if matches_at(s, p, i) {
            push_all(&mut out, r);
            assert(rest.skip(p@.len() as int) =~= s@.skip(i + p@.len()));
            assert(before + (r@ + replace_all(s@.skip(i + p@.len()), p@, r@)) =~= out@ + replace_all(
                s@.skip(i + p@.len()),
                p@,
                r@,
            ));
            i = i + p.len();
        } else {
            out.push(s[i]);
            assert(rest.skip(1) =~= s@.skip(i + 1));
            assert(before + (seq![s@[i as int]] + replace_all(s@.skip(i + 1), p@, r@)) =~= out@
                + replace_all(s@.skip(i + 1), p@, r@));
            i = i + 1;
        }
    }
    assert(s@.skip(i as int).len() == 0);
    assert(out@ + replace_all(s@.skip(i as int), p@, r@) =~= out@);
    out
}

/// The text with every occurrence of the string `p` replaced by `r`.
pub fn replace_str(s: &[char], p: &str, r: &str) -> (out: Vec<char>)
    requires
        p@.len() > 0,
    ensures
        out@ == replace_all(s@, p@, r@),
{
    let vp = chars_of(p);
    let vr = chars_of(r);
    replace(s, vp.as_slice(), vr.as_slice())
}

// ---------------------------------------------------------------------------
// Trimming and splitting
// ---------------------------------------------------------------------------
/// The number of white space characters at the start of `s`.
pub open spec fn ws_prefix(s: Seq<char>) -> nat
    decreases s.len(),
{
    if s.len() > 0 && ws(s[0]) {
        1 + ws_prefix(s.skip(1))
    } else {
        0
    }
}

/// The length of `s` without the white space at its end.
pub open spec fn trimmed_len(s: Seq<char>) -> nat
    decreases s.len(),
{
    if s.len() > 0 && ws(s.last()) {
        trimmed_len(s.drop_last())
    } else {
        s.len()
    }
}

/// `s` without the white space at its start.
pub open spec fn trim_start(s: Seq<char>) -> Seq<char> {
    s.skip(ws_prefix(s) as int)
}

/// `s` without the white space at its end.
pub open spec fn trim_end(s: Seq<char>) -> Seq<char> {
    s.take(trimmed_len(s) as int)
}

/// `s` without the white space at both ends.
pub open spec fn trim(s: Seq<char>) -> Seq<char> {
    trim_end(trim_start(s))
}

/// The white space prefix is the longest one: it is all white space, and what
/// follows it, if anything, is not.
pub proof fn lemma_ws_prefix(s: Seq<char>)
    ensures
        ws_prefix(s) <= s.len(),
        forall|j: int| 0 <= j < ws_prefix(s) ==> ws(#[trigger] s[j]),
        ws_prefix(s) < s.len() ==> !ws(s[ws_prefix(s) as int]),
    decreases s.len(),
{
    if s.len() > 0 && ws(s[0]) {
        let t = s.skip(1);
        lemma_ws_prefix(t);
        assert forall|j: int| 0 <= j < ws_prefix(s) implies ws(#[trigger] s[j]) by {
            if j > 0 {
                assert(s[j] == t[j - 1]);
            }
        }
        if ws_prefix(s) < s.len() {
            assert(t[ws_prefix(t) as int] == s[ws_prefix(s) as int]);
        }
    }
}

/// What is cut off at the end is all white space, and what stays does not end
/// in white space.
pub proof fn lemma_trimmed_len(s: Seq<char>)
    ensures
        trimmed_len(s) <= s.len(),
        forall|j: int| trimmed_len(s) <= j < s.len() ==> ws(#[trigger] s[j]),
        trimmed_len(s) > 0 ==> !ws(s[trimmed_len(s) - 1]),
    decreases s.len(),
{
    if s.len() > 0 && ws(s.last()) {
        let t = s.drop_last();
        lemma_trimmed_len(t);
        assert forall|j: int| trimmed_len(s) <= j < s.len() implies ws(#[trigger] s[j]) by {
            if j < s.len() - 1 {
                assert(s[j] == t[j]);
            }
        }
        if trimmed_len(s) > 0 {
            assert(t[trimmed_len(t) - 1] == s[trimmed_len(s) - 1]);
        }
    }
}

/// The number of white space characters at the start of `s`.
pub fn leading_ws(s: &[char]) -> (n: usize)
    ensures
        n == ws_prefix(s@),
        n <= s@.len(),
{
    let mut i: usize = 0;
    assert(s@.skip(0) == s@);
    while i < s.len() && is_whitespace(s[i])
        invariant
            i <= s.len(),
            ws_prefix(s@) == i + ws_prefix(s@.skip(i as int)),
        decreases s.len() - i,
    {
        assert(s@.skip(i as int).skip(1) =~= s@.skip(i + 1));
        i = i + 1;
    }
    i
}

/// `s` without the white space at its start.
pub fn trimmed_start(s: &[char]) -> (r: &[char])
    ensures
        r@ == trim_start(s@),
{
    let n: usize = leading_ws(s);
    assert(s@.subrange(n as int, s@.len() as int) =~= trim_start(s@));
    slice_subrange(s, n, s.len())
}

/// `s` without the white space at its end.
pub fn trimmed_end(s: &[char]) -> (r: &[char])
    ensures
        r@ == trim_end(s@),
{
    let mut n: usize = s.len();
    assert(s@.take(n as int) == s@);
    while n > 0 && is_whitespace(s[n - 1])
        invariant
            n <= s.len(),
            trimmed_len(s@) == trimmed_len(s@.take(n as int)),
        decreases n,
    {
        assert(s@.take(n as int).drop_last() =~= s@.take(n - 1));
        n = n - 1;
    }
    assert(s@.subrange(0, n as int) =~= trim_end(s@));
    slice_subrange(s, 0, n)
}

/// `s` without the white space at both ends.
pub fn trimmed(s: &[char]) -> (r: &[char])
    ensures
        r@ == trim(s@),
{
    trimmed_end(trimmed_start(s))
}

/// The string without the white space at both ends.
pub fn trim_string(s: &str) -> (r: String)
    ensures
        r@ == trim(s@),
{
    let v = chars_of(s);
    string_of(trimmed(v.as_slice()))
}

/// The number of characters at the start of `s` that are not white space.
pub open spec fn word_len(s: Seq<char>) -> nat
    decreases s.len(),
{
    if s.len() > 0 && !ws(s[0]) {
        1 + word_len(s.skip(1))
    } else {
        0
    }
}

pub proof fn lemma_word_len(s: Seq<char>)
    ensures
        word_len(s) <= s.len(),
        s.len() > 0 && !ws(s[0]) ==> word_len(s) > 0,
    decreases s.len(),
{
    if s.len() > 0 && !ws(s[0]) {
        lemma_word_len(s.skip(1));
    }
}

/// The words of `s`: its longest pieces without white space, in order.
pub open spec fn words(s: Seq<char>) -> Seq<Seq<char>>
    decreases s.len(),
    via words_decreases
{
    if s.len() == 0 {
        seq![]
    } else if ws(s[0]) {
        words(s.skip(1))
    } else {
        seq![s.take(word_len(s) as int)] + words(s.skip(word_len(s) as int))
    }
}

#[via_fn]
proof fn words_decreases(s: Seq<char>) {
    lemma_word_len(s);
}

/// The words of `s`, in order.
pub fn split_words(s: &[char]) -> (out: Vec<Vec<char>>)
    ensures
        rows(out@) == words(s@),
{
    let mut out: Vec<Vec<char>> = Vec::new();
    let mut i: usize = 0;
    assert(s@.skip(0) == s@);
    assert(rows(out@) + words(s@) =~= words(s@));
    while i < s.len()
        invariant
            i <= s.len(),
            rows(out@) + words(s@.skip(i as int)) == words(s@),
        decreases s.len() - i,
    {
        let ghost rest = s@.skip(i as int);
        if is_whitespace(s[i]) {
            assert(rest.skip(1) =~= s@.skip(i + 1));
            i = i + 1;
        } else {
            let start: usize = i;
            proof {
                lemma_word_len(rest);
            }
            assert(rest.skip(0) =~= rest);
            while i < s.len() && !is_whitespace(s[i])
                invariant
                    start <= i <= s.len(),
                    rest == s@.skip(start as int),
                    word_len(rest) == (i - start) + word_len(s@.skip(i as int)),
                decreases s.len() - i,
            {
                assert(s@.skip(i as int).skip(1) =~= s@.skip(i + 1));
                i = i + 1;
            }
            let ghost before = rows(out@);
            assert(word_len(rest) == i - start);
            let word = to_vec(slice_subrange(s, start, i));
            assert(word@ =~= rest.take(i - start));
            out.push(word);
            assert(rows(out@) =~= before.push(word@));
            assert(rest.skip(i - start) =~= s@.skip(i as int));
            assert(before + (seq![word@] + words(s@.skip(i as int))) =~= rows(out@) + words(
                s@.skip(i as int),
            ));
        }
    }
    assert(s@.skip(i as int).len() == 0);
    assert(rows(out@) + words(s@.skip(i as int)) =~= rows(out@));
    out
}

/// The pieces with the separator between each two.
pub open spec fn join(parts: Seq<Seq<char>>, sep: Seq<char>) -> Seq<char>
    decreases parts.len(),
{
    if parts.len() == 0 {
        seq![]
    } else if parts.len() == 1 {
        parts[0]
    } else {
        join(parts.drop_last(), sep) + sep + parts.last()
    }
}

/// The pieces with the separator between each two.
pub fn join_rows(parts: &Vec<Vec<char>>, sep: &str) -> (out: Vec<char>)
    ensures
        out@ == join(rows(parts@), sep@),
{
    let mut out: Vec<char> = Vec::new();
    let mut i: usize = 0;
    let ghost all = rows(parts@);
    while i < parts.len()
        invariant
            i <= parts.len(),
            all == rows(parts@),
            out@ == join(all.take(i as int), sep@),
        decreases parts.len() - i,
    {
        assert(all.take(i + 1).drop_last() =~= all.take(i as int));
        if i > 0 {
            push_str(&mut out, sep);
        }
        push_all(&mut out, parts[i].as_slice());
        assert(out@ =~= join(all.take(i + 1), sep@));
        i = i + 1;
    }
    assert(all.take(i as int) =~= all);
    out
}

/// The strings with the separator between each two.
pub fn join_strings(parts: &Vec<String>, sep: &str) -> (out: String)
    ensures
        out@ == join(texts(parts@), sep@),
{
    let mut out: Vec<char> = Vec::new();
    let mut i: usize = 0;
    let ghost all = texts(parts@);
    while i < parts.len()
        invariant
            i <= parts.len(),
            all == texts(parts@),
            out@ == join(all.take(i as int), sep@),
        decreases parts.len() - i,
    {
        assert(all.take(i + 1).drop_last() =~= all.take(i as int));
        if i > 0 {
            push_str(&mut out, sep);
        }
        push_str(&mut out, parts[i].as_str());
        assert(out@ =~= join(all.take(i + 1), sep@));
        i = i + 1;
    }
    assert(all.take(i as int) =~= all);
    string_of(out.as_slice())
}

/// A line without its line end: what stands before `\n`, without one `\r` at
/// its end.
pub open spec fn without_cr(s: Seq<char>) -> Seq<char> {
    if s.len() > 0 && s.last() == '\r' {
        s.drop_last()
    } else {
        s
    }
}

/// The lines of `s[start..]`, of which `s[start..from]` is known to hold no
/// line feed. The last line may lack its line end and then keeps a `\r`.
pub open spec fn lines_from(s: Seq<char>, start: int, from: int) -> Seq<Seq<char>>
    decreases s.len() - from,
{
    if from >= s.len() {
        if start >= s.len() {
            seq![]
        } else {
            seq![s.subrange(start, s.len() as int)]
        }
    } else if s[from] == '\n' {
        seq![without_cr(s.subrange(start, from))] + lines_from(s, from + 1, from + 1)
    } else {
        lines_from(s, start, from + 1)
    }
}

/// The lines of a text.
pub open spec fn lines(s: Seq<char>) -> Seq<Seq<char>> {
    lines_from(s, 0, 0)
}

/// The lines of a text.
pub fn split_lines(s: &[char]) -> (out: Vec<Vec<char>>)
    ensures
        rows(out@) == lines(s@),
{
    let mut out: Vec<Vec<char>> = Vec::new();
    let mut i: usize = 0;
    let mut start: usize = 0;
    assert(rows(out@) + lines(s@) =~= lines(s@));
    while i < s.len()
        invariant
            start <= i <= s.len(),
            rows(out@) + lines_from(s@, start as int, i as int) == lines(s@),
        decreases s.len() - i,
    {
        if s[i] == '\n' {
            let ghost before = rows(out@);
            let ghost line = s@.subrange(start as int, i as int);
            let mut end: usize = i;
            if start < i && s[i - 1] == '\r' {
                end = i - 1;
            }
            let piece = to_vec(slice_subrange(s, start, end));
            assert(piece@ =~= without_cr(line));
            out.push(piece);
            assert(rows(out@) =~= before.push(piece@));
            assert(before + (seq![piece@] + lines_from(s@, i + 1, i + 1)) =~= rows(out@)
                + lines_from(s@, i + 1, i + 1));
            start = i + 1;
        }
        i = i + 1;
    }
    let ghost before = rows(out@);
    if start < s.len() {
        let piece = to_vec(slice_subrange(s, start, s.len()));
        out.push(piece);
        assert(rows(out@) =~= before + seq![piece@]);
    } else {
        assert(before + Seq::<Seq<char>>::empty() =~= before);
    }
    out
}

// ---------------------------------------------------------------------------
// Numbers and encoded length
// ---------------------------------------------------------------------------
/// The decimal digit with the given value.
pub open spec fn digit_char(d: int) -> char {
    (('0' as u32) + d) as char
}

/// The decimal notation of a number.
pub open spec fn decimal(n: nat) -> Seq<char>
    decreases n,
{
    if n < 10 {
        seq![digit_char(n as int)]
    } else {
        decimal(n / 10).push(digit_char((n % 10) as int))
    }
}

/// The decimal notation of a number.
pub fn decimal_of(n: u64) -> (out: Vec<char>)
    ensures
        out@ == decimal(n as nat),
    decreases n,
{
    let d: u8 = (n % 10) as u8;
    let c = (48 + d) as char;
    if n < 10 {
        let mut out: Vec<char> = Vec::new();
        out.push(c);
        assert(out@ =~= seq![digit_char(n as int)]);
        out
    } else {
        let mut out = decimal_of(n / 10);
        out.push(c);
        out
    }
}

/// The value of a digit string, read from the left onto `acc`; `None` when a
/// character is no digit or the value exceeds `max`.
pub open spec fn digits_value(s: Seq<char>, from: int, acc: nat, max: nat) -> Option<nat>
    decreases s.len() - from,
{
    if from >= s.len() {
        Some(acc)
    } else if !digit(s[from]) {
        None
    } else {
        let next = acc * 10 + ((s[from] as u32) - ('0' as u32)) as nat;
        if next > max {
            None
        } else {
            digits_value(s, from + 1, next, max)
        }
    }
}

/// The number that a text writes in decimal, with an optional plus sign, if it
/// is at most `max`.
pub open spec fn parse_decimal(s: Seq<char>, max: nat) -> Option<nat> {
    if s.len() == 0 {
        None
    } else if s[0] == '+' {
        if s.len() == 1 {
            None
        } else {
            digits_value(s, 1, 0, max)
        }
    } else {
        digits_value(s, 0, 0, max)
    }
}

proof fn lemma_digits_push(s: Seq<char>, c: char, from: int, acc: nat, max: nat)
    requires
        0 <= from <= s.len(),
        digits_value(s, from, acc, max) is Some,
        digit(c),
    ensures
        ({
            let v = digits_value(s, from, acc, max).unwrap();
            let next = v * 10 + ((c as u32) - ('0' as u32)) as nat;
            digits_value(s.push(c), from, acc, max) == (if next > max {
                None
            } else {
                Some(next)
            })
        }),
    decreases s.len() - from,
{
    let t = s.push(c);
    if from < s.len() {
        assert(t[from] == s[from]);
        let next = acc * 10 + ((s[from] as u32) - ('0' as u32)) as nat;
        lemma_digits_push(s, c, from + 1, next, max);
    } else {
        assert(t[from] == c);
        let next = acc * 10 + ((c as u32) - ('0' as u32)) as nat;
        assert(next <= max ==> digits_value(t, from + 1, next, max) == Some(next));
    }
}

proof fn lemma_decimal(n: nat, max: nat)
    requires
        n <= max,
    ensures
        decimal(n).len() > 0,
        digit(decimal(n)[0]),
        digits_value(decimal(n), 0, 0, max) == Some(n),
    decreases n,
{
    let d = (n % 10) as int;
    let c = digit_char(d);
    assert(digit(c) && (c as u32) - ('0' as u32) == d);
    if n < 10 {
        let s = Seq::<char>::empty();
        assert(decimal(n) =~= s.push(c));
        lemma_digits_push(s, c, 0, 0, max);
    } else {
        lemma_decimal(n / 10, max);
        lemma_digits_push(decimal(n / 10), c, 0, 0, max);
        assert(n == (n / 10) * 10 + d);
    }
}

/// A number comes back from its decimal notation.
pub proof fn law_decimal_comes_back(n: nat, max: nat)
    requires
        n <= max,
    ensures
        parse_decimal(decimal(n), max) == Some(n),
{
    lemma_decimal(n, max);
}

/// The 32-bit number that a text writes in decimal.
pub fn parse_u32(s: &[char]) -> (r: Option<u32>)
    ensures
        match r {
            Some(n) => parse_decimal(s@, u32::MAX as nat) == Some(n as nat),
            None => parse_decimal(s@, u32::MAX as nat) is None,
        },
{
    if s.len() == 0 {
        return None;
    }
    let mut i: usize = 0;
    if s[0] == '+' {
        if s.len() == 1 {
            return None;
        }
        i = 1;
    }
    let mut acc: u64 = 0;
    while i < s.len()
        invariant
            i <= s.len(),
            acc <= u32::MAX,
            parse_decimal(s@, u32::MAX as nat) == digits_value(
                s@,
                i as int,
                acc as nat,
                u32::MAX as nat,
            ),
        decreases s.len() - i,
    {
        let c = s[i];
        if !('0' <= c && c <= '9') {
            return None;
        }
        let d: u64 = (c as u32 - 48) as u64;
        let next: u64 = acc * 10 + d;
        if next > u32::MAX as u64 {
            return None;
        }
        acc = next;
        i = i + 1;
    }
    Some(acc as u32)
}

/// The number of bytes of a character in UTF-8.
pub open spec fn char_bytes(c: char) -> nat {
    if (c as u32) < 0x80 {
        1
    } else if (c as u32) < 0x800 {
        2
    } else if (c as u32) < 0x10000 {
        3
    } else {
        4
    }
}

/// The number of bytes of a text in UTF-8.
pub open spec fn byte_len(s: Seq<char>) -> nat
    decreases s.len(),
{
    if s.len() == 0 {
        0
    } else {
        byte_len(s.drop_last()) + char_bytes(s.last())
    }
}

/// The number of bytes of a character in UTF-8.
pub fn char_byte_count(c: char) -> (n: usize)
    ensures
        n == char_bytes(c),
{
    let v: u32 = c as u32;
    if v < 0x80 {
        1
    } else if v < 0x800 {
        2
    } else if v < 0x10000 {
        3
    } else {
        4
    }
}

/// The number of bytes of a text in UTF-8.
pub fn byte_count(s: &[char]) -> (n: u128)
    ensures
        n == byte_len(s@),
{
    let mut n: u128 = 0;
    let mut i: usize = 0;
    while i < s.len()
        invariant
            i <= s.len(),
            n == byte_len(s@.take(i as int)),
            n <= 4 * i,
        decreases s.len() - i,
    {
        assert(s@.take(i + 1).drop_last() =~= s@.take(i as int));
        n = n + char_byte_count(s[i]) as u128;
        i = i + 1;
    }
    assert(s@.take(i as int) =~= s@);
    n
}

/// The position of the character before which `n` bytes of `s[from..]` stand.
pub open spec fn at_byte_from(s: Seq<char>, from: int, n: int) -> Option<int>
    decreases s.len() - from,
{
    if n == 0 && 0 <= from <= s.len() {
        Some(from)
    } else if n < 0 || from < 0 || from >= s.len() {
        None
    } else {
        at_byte_from(s, from + 1, n - char_bytes(s[from]))
    }
}

/// The position of the character that begins at byte `n` of `s`, or the end of
/// `s`; `None` inside a character or past the end.
pub open spec fn at_byte(s: Seq<char>, n: int) -> Option<int> {
    at_byte_from(s, 0, n)
}

/// The position of the character that begins at byte `n`.
pub fn char_at_byte(s: &[char], n: usize) -> (r: Option<usize>)
    ensures
        match r {
            Some(i) => at_byte(s@, n as int) == Some(i as int) && i <= s@.len(),
            None => at_byte(s@, n as int) is None,
        },
{
    let mut i: usize = 0;
    let mut left: usize = n;
    while left > 0 && i < s.len()
        invariant
            i <= s.len(),
            at_byte(s@, n as int) == at_byte_from(s@, i as int, left as int),
        decreases s.len() - i,
    {
        let b: usize = char_byte_count(s[i]);
        if b > left {
            assert(at_byte_from(s@, i + 1, left - b) is None);
            return None;
        }
        left = left - b;
        i = i + 1;
    }
    if left == 0 {
        Some(i)
    } else {
        None
    }
}

/// What `at_byte` promises: the bytes before the position are `n`.
pub proof fn lemma_at_byte(s: Seq<char>, from: int, n: int)
    requires
        0 <= from <= s.len(),
    ensures
        match at_byte_from(s, from, n) {
            Some(i) => from <= i <= s.len() && byte_len(s.subrange(from, i)) == n,
            None => true,
        },
    decreases s.len() - from,
{
    if n == 0 {
        assert(s.subrange(from, from).len() == 0);
    } else if n > 0 && from < s.len() {
        lemma_at_byte(s, from + 1, n - char_bytes(s[from]));
        match at_byte_from(s, from + 1, n - char_bytes(s[from])) {
            Some(i) => {
                lemma_byte_len_cons(s.subrange(from, i));
                assert(s.subrange(from, i).skip(1) =~= s.subrange(from + 1, i));
            },
            None => {},
        }
    }
}

/// The bytes of a text are those of its first character and of the rest.
pub proof fn lemma_byte_len_cons(s: Seq<char>)
    requires
        s.len() > 0,
    ensures
        byte_len(s) == char_bytes(s[0]) + byte_len(s.skip(1)),
    decreases s.len(),
{
    if s.len() == 1 {
        assert(s.drop_last().len() == 0);
        assert(s.skip(1).len() == 0);
    } else {
        lemma_byte_len_cons(s.drop_last());
        assert(s.drop_last().skip(1) =~= s.skip(1).drop_last());
        assert(s.skip(1).last() == s.last());
    }
    assert(s.drop_last().len() > 0 ==> s.drop_last()[0] == s[0]);
    reveal_with_fuel(byte_len, 2);
}

/// A copy of an optional string.
pub fn copy_opt(s: &Option<String>) -> (r: Option<String>)
    ensures
        opt_text(r) == opt_text(*s),
{
    match s {
        Some(s) => Some(s.clone()),
        None => None,
    }
}

/// Whether the text stands in the list.
pub fn has_text(list: &Vec<String>, s: &str) -> (r: bool)
    ensures
        r == texts(list@).contains(s@),
{
    let ghost all = texts(list@);
    let mut i: usize = 0;
    while i < list.len()
        invariant
            i <= list@.len(),
            all == texts(list@),
            forall|j: int| 0 <= j < i ==> #[trigger] all[j] != s@,
        decreases list.len() - i,
    {
        assert(all[i as int] == list@[i as int]@);
        if str_eq(list[i].as_str(), s) {
            return true;
        }
        i = i + 1;
    }
    false
}

/// Whether the character stands in the text.
pub fn has_char(s: &[char], c: char) -> (r: bool)
    ensures
        r == s@.contains(c),
{
    let mut i: usize = 0;
    while i < s.len()
        invariant
            i <= s.len(),
            forall|j: int| 0 <= j < i ==> s@[j] != c,
        decreases s.len() - i,
    {
        if s[i] == c {
            return true;
        }
        i = i + 1;
    }
    false
}

} // verus!
