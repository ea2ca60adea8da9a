//! What holds of texts.

#[allow(unused_imports)]
use crate::hash::{fingerprint, hex_digit, hex_text, sha256_digest};
#[allow(unused_imports)]
use crate::order::before;
#[allow(unused_imports)]
use crate::query::locate::slashed;
#[allow(unused_imports)]
use crate::text::{at_byte, at_byte_from, byte_len, char_bytes, contains, decimal, digits_value, ends, find, find_from,
    join, lemma_find_from, lemma_trimmed_len, lemma_word_len, lemma_ws_prefix, lines, lines_from, lower, lower_char,
    occurs_at, parse_decimal, replace_all, rfind, rfind_from, starts, swap_char, trim, trim_end, trim_start,
    trimmed_len, without_cr, word_char, word_len, words, ws, ws_prefix};
use vstd::prelude::*;

verus! {

/// A text that neither begins nor ends with white space is trimmed already.
pub proof fn lemma_trim_stays(s: Seq<char>)
    requires
        s.len() > 0 ==> !ws(s[0]) && !ws(s.last()),
    ensures
        trim(s) == s,
{
    assert(ws_prefix(s) == 0);
    assert(s.skip(0) =~= s);
    assert(s.take(s.len() as int) =~= s);
}

/// Trimming takes white space away at both ends, all of it and nothing else.
pub proof fn law_trim(s: Seq<char>)
    ensures
        ({
            let t = trim(s);
            &&& t.len() > 0 ==> !ws(t[0]) && !ws(t.last())
            &&& exists|a: int|
                0 <= a && a + t.len() <= s.len() && t == #[trigger] s.subrange(a, a + t.len()) && (forall|i: int|
                    0 <= i < a || a + t.len() <= i < s.len() ==> ws(#[trigger] s[i]))
        }),
{
    lemma_ws_prefix(s);
    let a = ws_prefix(s) as int;
    let u = trim_start(s);
    lemma_trimmed_len(u);
    let t = trim(s);
    assert(t =~= s.subrange(a, a + t.len()));
    assert forall|i: int| 0 <= i < a || a + t.len() <= i < s.len() implies ws(#[trigger] s[i]) by {
        if i >= a {
            assert(u[i - a] == s[i]);
        }
    }
    if t.len() > 0 {
        assert(t[0] == s[a]);
        assert(t.last() == u[trimmed_len(u) - 1]);
    }
}

/// The characters of an identifier: letters, digits and the underscore.
pub proof fn law_word_char(c: char)
    ensures
        word_char(c) <==> ('a' <= c && c <= 'z') || ('A' <= c && c <= 'Z') || ('0' <= c && c <= '9')
            || c == '_',
        word_char(c) ==> !ws(c),
{
}

/// Lower case keeps everything but the letters from A to Z, and stays lower case.
pub proof fn law_lower(s: Seq<char>, i: int)
    requires
        0 <= i < s.len(),
    ensures
        lower(s).len() == s.len(),
        'A' <= s[i] && s[i] <= 'Z' ==> lower(s)[i] as u32 == s[i] as u32 + 32,
        s[i] < 'A' || s[i] > 'Z' ==> lower(s)[i] == s[i],
        lower(lower(s)) == lower(s),
{
    assert(lower(lower(s)) =~= lower(s));
}

/// One character is put in the place of another one, wherever it stands.
pub proof fn law_swap_char(s: Seq<char>, a: char, b: char, i: int)
    requires
        0 <= i < s.len(),
    ensures
        swap_char(s, a, b).len() == s.len(),
        s[i] == a ==> swap_char(s, a, b)[i] == b,
        s[i] != a ==> swap_char(s, a, b)[i] == s[i],
{
}

/// Every occurrence is replaced, from the left on; what does not begin one stays.
pub proof fn law_replace_all(s: Seq<char>, p: Seq<char>, r: Seq<char>)
    requires
        p.len() > 0,
    ensures
        replace_all(p + s, p, r) == r + replace_all(s, p, r),
        s.len() > 0 && !starts(s, p) ==> replace_all(s, p, r) == seq![s[0]] + replace_all(
            s.skip(1),
            p,
            r,
        ),
        replace_all(Seq::<char>::empty(), p, r).len() == 0,
{
    let t = p + s;
    assert(t.subrange(0, p.len() as int) =~= p);
    assert(t.skip(p.len() as int) =~= s);
}

/// A text without the pattern stays as it is.
pub proof fn law_nothing_to_replace(s: Seq<char>, p: Seq<char>, r: Seq<char>)
    requires
        p.len() > 0,
        forall|i: int| 0 <= i < s.len() ==> !#[trigger] occurs_at(s, p, i),
    ensures
        replace_all(s, p, r) == s,
    decreases s.len(),
{
    if s.len() > 0 {
        let t = s.skip(1);
        assert(!occurs_at(s, p, 0));
        assert forall|i: int| 0 <= i < t.len() implies !#[trigger] occurs_at(t, p, i) by {
            if occurs_at(t, p, i) {
                assert(s.subrange(i + 1, i + 1 + p.len()) =~= t.subrange(i, i + p.len()));
                assert(occurs_at(s, p, i + 1));
            }
        }
        law_nothing_to_replace(t, p, r);
        assert(seq![s[0]] + t =~= s);
    }
}

/// A text is found at its first place, or nowhere.
pub proof fn law_find(s: Seq<char>, p: Seq<char>, i: int)
    ensures
        find(s, p) == Some(i) ==> occurs_at(s, p, i) && forall|j: int|
            0 <= j < i ==> !#[trigger] occurs_at(s, p, j),
        find(s, p) is None ==> forall|j: int| 0 <= j ==> !#[trigger] occurs_at(s, p, j),
{
    lemma_find_from(s, p, 0);
}

/// From the end a text is found at its last place, or nowhere.
pub proof fn law_rfind(s: Seq<char>, p: Seq<char>, from: int)
    ensures
        match rfind_from(s, p, from) {
            Some(i) => 0 <= i <= from && occurs_at(s, p, i) && forall|j: int|
                i < j <= from ==> !#[trigger] occurs_at(s, p, j),
            None => forall|j: int| 0 <= j <= from ==> !#[trigger] occurs_at(s, p, j),
        },
    decreases from + 1,
{
    if from >= 0 {
        law_rfind(s, p, from - 1);
    }
}

/// A text begins and ends with the parts that it is made of.
pub proof fn law_begins_and_ends(a: Seq<char>, b: Seq<char>)
    ensures
        starts(a + b, a),
        ends(a + b, b),
        starts(a, b) ==> a == b + a.skip(b.len() as int),
        ends(a, b) ==> a == a.take(a.len() - b.len()) + b,
{
    let s = a + b;
    assert(s.subrange(0, a.len() as int) =~= a);
    assert(s.subrange(a.len() as int, s.len() as int) =~= b);
    if starts(a, b) {
        assert(a =~= b + a.skip(b.len() as int));
    }
    if ends(a, b) {
        assert(a =~= a.take(a.len() - b.len()) + b);
    }
}

/// A line ends at its line feed, and loses one carriage return before it.
pub proof fn law_lines(line: Seq<char>, rest: Seq<char>)
    requires
        !line.contains('\n'),
    ensures
        lines(Seq::<char>::empty()).len() == 0,
        lines(line + seq!['\n'] + rest) == seq![without_cr(line)] + lines(rest),
        line.len() > 0 ==> lines(line) == seq![line],
        without_cr(line.push('\r')) == line,
        line.len() == 0 || line.last() != '\r' ==> without_cr(line) == line,
{
    let s = line + seq!['\n'] + rest;
    assert(s.take(line.len() as int) =~= line);
    lemma_skip_line(s, line.len() as int, 0);
    assert(s.subrange(0, line.len() as int) =~= line);
    assert(s.skip(line.len() as int + 1) =~= rest);
    lemma_shift_lines(s, rest, line.len() as int + 1, 0, 0);
    if line.len() > 0 {
        lemma_last_line(line, 0);
        assert(line.subrange(0, line.len() as int) =~= line);
    }
    assert(line.push('\r').drop_last() =~= line);
}

proof fn lemma_skip_line(s: Seq<char>, at: int, from: int)
    requires
        0 <= from <= at < s.len(),
        s[at] == '\n',
        !s.take(at).contains('\n'),
    ensures
        lines_from(s, 0, from) == seq![without_cr(s.subrange(0, at))] + lines_from(
            s,
            at + 1,
            at + 1,
        ),
    decreases at - from,
{
    if from < at {
        assert(s.take(at).contains(s.take(at)[from]));
        lemma_skip_line(s, at, from + 1);
    }
}

proof fn lemma_last_line(s: Seq<char>, from: int)
    requires
        0 <= from <= s.len(),
        s.len() > 0,
        !s.contains('\n'),
    ensures
        lines_from(s, 0, from) == seq![s.subrange(0, s.len() as int)],
    decreases s.len() - from,
{
    if from < s.len() {
        assert(s.contains(s[from]));
        lemma_last_line(s, from + 1);
    }
}

proof fn lemma_shift_lines(s: Seq<char>, t: Seq<char>, k: int, start: int, from: int)
    requires
        0 <= k <= s.len(),
        t == s.skip(k),
        0 <= start <= from,
    ensures
        lines_from(s, k + start, k + from) == lines_from(t, start, from),
    decreases t.len() - from,
{
    if from < t.len() {
        assert(s[k + from] == t[from]);
        assert(s.subrange(k + start, k + from) =~= t.subrange(start, from));
        if s[k + from] == '\n' {
            lemma_shift_lines(s, t, k, from + 1, from + 1);
        } else {
            lemma_shift_lines(s, t, k, start, from + 1);
        }
    } else if start < t.len() {
        assert(s.subrange(k + start, s.len() as int) =~= t.subrange(start, t.len() as int));
    }
}

/// The words of a text are its pieces between white space, in order.
pub proof fn law_words(w: Seq<char>, c: char, rest: Seq<char>)
    requires
        w.len() > 0,
        forall|i: int| 0 <= i < w.len() ==> !ws(#[trigger] w[i]),
        ws(c),
    ensures
        words(Seq::<char>::empty()).len() == 0,
        words(seq![c] + rest) == words(rest),
        words(w) == seq![w],
        words(w + seq![c] + rest) == seq![w] + words(rest),
{
    let a = seq![c] + rest;
    assert(a.skip(1) =~= rest);
    lemma_word_of(w, Seq::<char>::empty());
    assert(w + Seq::<char>::empty() =~= w);
    assert(w.take(w.len() as int) =~= w);
    assert(w.skip(w.len() as int) =~= Seq::<char>::empty());
    assert(seq![w] + words(Seq::<char>::empty()) =~= seq![w]);
    let s = w + seq![c] + rest;
    lemma_word_of(w, a);
    assert(w + a =~= s);
    assert(s.take(w.len() as int) =~= w);
    assert(s.skip(w.len() as int) =~= a);
}

proof fn lemma_word_of(w: Seq<char>, rest: Seq<char>)
    requires
        forall|i: int| 0 <= i < w.len() ==> !ws(#[trigger] w[i]),
        rest.len() > 0 ==> ws(rest[0]),
    ensures
        word_len(w + rest) == w.len(),
    decreases w.len(),
{
    let s = w + rest;
    if w.len() > 0 {
        let v = w.skip(1);
        assert(!ws(w[0]));
        assert forall|i: int| 0 <= i < v.len() implies !ws(#[trigger] v[i]) by {
            assert(v[i] == w[i + 1]);
        }
        lemma_word_of(v, rest);
        assert(s.skip(1) =~= v + rest);
    } else {
        assert(s =~= rest);
    }
}

/// Pieces are joined with the separator between each two.
pub proof fn law_join(parts: Seq<Seq<char>>, last: Seq<char>, sep: Seq<char>)
    ensures
        join(Seq::<Seq<char>>::empty(), sep).len() == 0,
        join(seq![last], sep) == last,
        parts.len() > 0 ==> join(parts.push(last), sep) == join(parts, sep) + sep + last,
{
    assert(parts.push(last).drop_last() =~= parts);
}

/// A number is read digit by digit, the first one first; other characters and numbers
/// past the limit are refused.
pub proof fn law_parse_decimal(s: Seq<char>, max: nat, d: char)
    ensures
        parse_decimal(Seq::<char>::empty(), max) is None,
        '0' <= d && d <= '9' && (d as u32 - '0' as u32) <= max ==> parse_decimal(seq![d], max) == Some(
            (d as u32 - '0' as u32) as nat,
        ),
        d < '0' || d > '9' ==> parse_decimal(seq![d], max) is None,
{
    reveal_with_fuel(digits_value, 2);
}

/// The bytes of a text are those of its characters.
pub proof fn law_byte_len(a: Seq<char>, b: Seq<char>)
    ensures
        byte_len(Seq::<char>::empty()) == 0,
        byte_len(a + b) == byte_len(a) + byte_len(b),
        byte_len(a) >= a.len(),
        byte_len(a) <= 4 * a.len(),
    decreases a.len() + b.len(),
{
    if b.len() == 0 {
        assert(a + b =~= a);
        if a.len() > 0 {
            law_byte_len(a.drop_last(), b);
        }
    } else {
        law_byte_len(a, b.drop_last());
        assert((a + b).drop_last() =~= a + b.drop_last());
        assert((a + b).last() == b.last());
    }
}

/// The bytes of a character by its range.
pub proof fn law_char_bytes(c: char)
    ensures
        (c as u32) < 0x80 ==> char_bytes(c) == 1,
        0x80 <= c as u32 && (c as u32) < 0x800 ==> char_bytes(c) == 2,
        0x800 <= c as u32 && (c as u32) < 0x1_0000 ==> char_bytes(c) == 3,
        0x1_0000 <= c as u32 ==> char_bytes(c) == 4,
{
}

/// A fingerprint writes each byte of the digest with two digits, the high one first.
pub proof fn law_fingerprint(b: Seq<u8>, i: int)
    requires
        0 <= i < sha256_digest(b).len(),
    ensures
        fingerprint(b).len() == 2 * sha256_digest(b).len(),
        fingerprint(b)[2 * i] == hex_digit(sha256_digest(b)[i] as int / 16),
        fingerprint(b)[2 * i + 1] == hex_digit(sha256_digest(b)[i] as int % 16),
{
}

/// Texts stand in the order of their first difference; a beginning stands first.
pub proof fn law_before(p: Seq<char>, a: char, b: char, s: Seq<char>, t: Seq<char>)
    ensures
        t.len() > 0 ==> before(p, p + t),
        !before(p + t, p),
        a != b ==> (before(p + seq![a] + s, p + seq![b] + t) <==> a < b),
    decreases p.len(),
{
    if p.len() == 0 {
        assert(p + t =~= t);
        assert(p + seq![a] + s =~= seq![a] + s);
        assert(p + seq![b] + t =~= seq![b] + t);
    } else {
        let q = p.skip(1);
        law_before(q, a, b, s, t);
        assert((p + t).skip(1) =~= q + t);
        assert((p + seq![a] + s).skip(1) =~= q + seq![a] + s);
        assert((p + seq![b] + t).skip(1) =~= q + seq![b] + t);
    }
}

} // verus!
