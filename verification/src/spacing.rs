//! What becomes of the white space when a text is spaced evenly, and when blanks
//! are taken away before a character.

#[allow(unused_imports)]
use crate::text::{join, occurs_at, replace_all, words, word_len, ws};
use vstd::prelude::*;

verus! {

// ---------------------------------------------------------------------------
// Words
// ---------------------------------------------------------------------------
proof fn lemma_word_len_push(s: Seq<char>, c: char)
    ensures
        word_len(s) <= s.len(),
        word_len(s.push(c)) == (if word_len(s) < s.len() || ws(c) {
            word_len(s)
        } else {
            word_len(s) + 1
        }),
        word_len(s) < s.len() ==> ws(s[word_len(s) as int]),
        word_len(s) == s.len() && s.len() > 0 ==> !ws(s.last()),
    decreases s.len(),
{
    let t = s.push(c);
    if s.len() == 0 {
        assert(t[0] == c);
        assert(t.skip(1) =~= s);
        assert(word_len(t.skip(1)) == 0);
    } else if ws(s[0]) {
        assert(t[0] == s[0]);
    } else {
        lemma_word_len_push(s.skip(1), c);
        assert(t.skip(1) =~= s.skip(1).push(c));
        if word_len(s) < s.len() {
            assert(s.skip(1)[word_len(s.skip(1)) as int] == s[word_len(s) as int]);
        }
        if s.len() > 1 {
            assert(s.skip(1).last() == s.last());
        }
    }
}

proof fn lemma_words_push(s: Seq<char>, c: char)
    ensures
        s.len() > 0 && !ws(s.last()) ==> words(s).len() > 0,
        words(s.push(c)) == (if ws(c) {
            words(s)
        } else if s.len() > 0 && !ws(s.last()) {
            words(s).drop_last().push(words(s).last().push(c))
        } else {
            words(s).push(seq![c])
        }),
    decreases s.len(),
{
    let t = s.push(c);
    if s.len() == 0 {
        assert(t[0] == c);
        lemma_word_len_push(s, c);
        if ws(c) {
            assert(t.skip(1) =~= s);
        } else {
            assert(word_len(t) == 1);
            assert(t.take(1) =~= seq![c]);
            assert(t.skip(1) =~= s);
            assert(words(t) =~= words(s).push(seq![c]));
        }
    } else if ws(s[0]) {
        lemma_words_push(s.skip(1), c);
        assert(t.skip(1) =~= s.skip(1).push(c));
        if s.len() > 1 {
            assert(s.skip(1).last() == s.last());
        }
    } else {
        let w = word_len(s) as int;
        lemma_word_len_push(s, c);
        lemma_word_len_push(s.skip(1), c);
        assert(w >= 1);
        let rest = s.skip(w);
        if w < s.len() {
            lemma_words_push(rest, c);
            assert(t.take(w) =~= s.take(w));
            assert(t.skip(w) =~= rest.push(c));
            assert(rest.last() == s.last());
            let head = seq![s.take(w)];
            if !ws(c) && !ws(s.last()) {
                let ws1 = words(rest);
                assert((head + ws1).drop_last() =~= head + ws1.drop_last());
                assert((head + ws1).last() == ws1.last());
                assert(words(t) =~= words(s).drop_last().push(words(s).last().push(c)));
            } else if !ws(c) {
                assert(words(t) =~= words(s).push(seq![c]));
            }
        } else {
            assert(rest =~= Seq::<char>::empty());
            assert(s.take(w) =~= s);
            assert(words(s) =~= seq![s]);
            if ws(c) {
                assert(t.take(w) =~= s);
                assert(t.skip(w) =~= seq![c]);
                assert(seq![c].skip(1) =~= Seq::<char>::empty());
                assert(words(seq![c]) =~= Seq::<Seq<char>>::empty());
                assert(words(t) =~= words(s));
            } else {
                assert(t.take(w + 1) =~= t);
                assert(t.skip(w + 1) =~= Seq::<char>::empty());
                assert(words(t) =~= seq![t]);
                assert(words(t) =~= words(s).drop_last().push(words(s).last().push(c)));
            }
        }
    }
}

/// The text with one blank in place of each run of white space, and none at its
/// ends.
pub open spec fn even(s: Seq<char>) -> Seq<char>
    decreases s.len(),
{
    if s.len() == 0 {
        s
    } else {
        let e = even(s.drop_last());
        if ws(s.last()) {
            e
        } else if s.len() > 1 && ws(s[s.len() - 2]) && e.len() > 0 {
            e.push(' ').push(s.last())
        } else {
            e.push(s.last())
        }
    }
}

/// Words with a blank between each two are an evenly spaced text.
pub proof fn lemma_even(s: Seq<char>)
    ensures
        join(words(s), " "@) == even(s),
        (words(s).len() == 0) == (even(s).len() == 0),
        s.len() > 0 && !ws(s.last()) ==> even(s).len() > 0 && even(s).last() == s.last(),
    decreases s.len(),
{
    reveal_strlit(" ");
    if s.len() > 0 {
        let d = s.drop_last();
        let c = s.last();
        assert(d.push(c) =~= s);
        lemma_even(d);
        lemma_words_push(d, c);
        let before = words(d);
        if !ws(c) {
            let after = words(s);
            if d.len() > 0 && !ws(d.last()) {
                assert(after.drop_last() =~= before.drop_last());
                assert(after.last() == before.last().push(c));
                if before.len() == 1 {
                    assert(join(after, " "@) =~= join(before, " "@).push(c));
                } else {
                    assert(join(after, " "@) =~= join(before, " "@).push(c));
                }
            } else {
                assert(after.drop_last() =~= before);
                assert(after.last() == seq![c]);
                if before.len() == 0 {
                    assert(join(after, " "@) =~= seq![c]);
                    assert(even(d) =~= Seq::<char>::empty());
                } else {
                    assert(join(after, " "@) =~= even(d).push(' ').push(c));
                }
            }
        }
    }
}

// ---------------------------------------------------------------------------
// Even texts
// ---------------------------------------------------------------------------
/// The text begins with no white space, has no other than blanks, and none of them
/// twice in a row.
pub open spec fn is_even_start(s: Seq<char>) -> bool {
    &&& s.len() > 0 ==> !ws(s[0])
    &&& forall|i: int| 0 <= i < s.len() && ws(#[trigger] s[i]) ==> s[i] == ' '
    &&& forall|i: int, j: int|
        0 <= i && j == i + 1 && j < s.len() ==> !(#[trigger] s[i] == ' ' && #[trigger] s[j] == ' ')
}

/// The text has no white space at its ends, and no other than single blanks.
pub open spec fn is_even(s: Seq<char>) -> bool {
    is_even_start(s) && (s.len() > 0 ==> !ws(s.last()))
}

/// No blank stands before the character.
pub open spec fn is_tight(s: Seq<char>, c: char) -> bool {
    forall|i: int, j: int|
        0 <= i && j == i + 1 && j < s.len() ==> !(#[trigger] s[i] == ' ' && #[trigger] s[j] == c)
}

proof fn lemma_start_push(s: Seq<char>, c: char)
    requires
        is_even_start(s),
        ws(c) ==> c == ' ' && s.len() > 0 && s.last() != ' ',
    ensures
        is_even_start(s.push(c)),
{
    let t = s.push(c);
    assert forall|i: int, j: int| 0 <= i && j == i + 1 && j < t.len() implies !(#[trigger] t[i]
        == ' ' && #[trigger] t[j] == ' ') by {
        assert(t[i] == s[i]);
        if j < s.len() {
            assert(t[j] == s[j]);
        }
    }
}

/// What is spaced evenly is even.
pub proof fn lemma_even_is_even(s: Seq<char>)
    ensures
        is_even(even(s)),
    decreases s.len(),
{
    if s.len() > 0 {
        lemma_even_is_even(s.drop_last());
        let e = even(s.drop_last());
        let c = s.last();
        if !ws(c) {
            if s.len() > 1 && ws(s[s.len() - 2]) && e.len() > 0 {
                lemma_start_push(e, ' ');
                lemma_start_push(e.push(' '), c);
            } else {
                lemma_start_push(e, c);
            }
        }
    }
}

proof fn lemma_start_drop(s: Seq<char>)
    requires
        is_even_start(s),
        s.len() > 0,
    ensures
        is_even_start(s.drop_last()),
        s.len() > 1 && s.last() == ' ' ==> s.drop_last().last() != ' ',
        s.last() == ' ' ==> s.len() > 1,
{
    let d = s.drop_last();
    assert forall|i: int, j: int| 0 <= i && j == i + 1 && j < d.len() implies !(#[trigger] d[i]
        == ' ' && #[trigger] d[j] == ' ') by {
        assert(d[i] == s[i] && d[j] == s[j]);
    }
    if s.len() > 1 {
        assert(d.last() == s[s.len() - 2]);
        assert(s.last() == s[s.len() - 1]);
    }
}

/// What is even stays as it is.
pub proof fn lemma_even_stays(s: Seq<char>)
    requires
        is_even_start(s),
    ensures
        even(s) == (if s.len() > 0 && s.last() == ' ' {
            s.drop_last()
        } else {
            s
        }),
    decreases s.len(),
{
    if s.len() > 0 {
        let d = s.drop_last();
        lemma_start_drop(s);
        lemma_even_stays(d);
        if s.last() == ' ' {
            assert(d.last() != ' ');
        } else {
            assert(!ws(s.last())) by {
                assert(ws(s[s.len() - 1]) ==> s[s.len() - 1] == ' ');
            }
            if d.len() > 0 && d.last() == ' ' {
                lemma_start_drop(d);
                assert(s[s.len() - 2] == d.last());
                assert(d.drop_last().push(' ').push(s.last()) =~= s);
            } else {
                if d.len() > 0 {
                    assert(s[s.len() - 2] == d.last());
                    assert(!ws(d.last())) by {
                        assert(ws(s[s.len() - 2]) ==> s[s.len() - 2] == ' ');
                    }
                }
                assert(d.push(s.last()) =~= s);
            }
        }
    }
}

/// Behind a text that does not end in white space, a text is spaced as it is
/// behind the last character alone.
pub proof fn lemma_even_add(u: Seq<char>, v: Seq<char>)
    requires
        u.len() > 0,
        !ws(u.last()),
    ensures
        even(seq![u.last()] + v).len() > 0,
        even(u + v) == even(u) + even(seq![u.last()] + v).skip(1),
    decreases v.len(),
{
    let one = seq![u.last()];
    lemma_even(u);
    if v.len() == 0 {
        assert(u + v =~= u);
        assert(one + v =~= one);
        assert(one.drop_last() =~= v);
        assert(even(v) == v);
        assert(even(one) =~= one);
        assert(even(u) + one.skip(1) =~= even(u));
    } else {
        let d = v.drop_last();
        let x = v.last();
        assert((u + v).drop_last() =~= u + d);
        assert((one + v).drop_last() =~= one + d);
        assert((u + v).last() == x);
        assert((one + v).last() == x);
        lemma_even_add(u, d);
        let a = even(u);
        let b = even(one + d);
        assert((u + v)[(u + v).len() - 2] == (one + v)[(one + v).len() - 2]);
        assert((a + b.skip(1)).push(' ').push(x) =~= a + b.push(' ').push(x).skip(1));
        assert((a + b.skip(1)).push(x) =~= a + b.push(x).skip(1));
    }
}

// ---------------------------------------------------------------------------
// Blanks before a character
// ---------------------------------------------------------------------------
/// The text without the blanks that stand directly before the character.
pub open spec fn tightened(s: Seq<char>, c: char) -> Seq<char> {
    replace_all(s, seq![' ', c], seq![c])
}

/// One more character behind a text that is tightened.
pub proof fn lemma_tightened_push(s: Seq<char>, x: char, c: char)
    requires
        c != ' ',
    ensures
        s.len() > 0 ==> tightened(s, c).len() > 0 && tightened(s, c).last() == s.last(),
        tightened(s.push(x), c) == (if x == c && s.len() > 0 && s.last() == ' ' {
            tightened(s, c).drop_last().push(c)
        } else {
            tightened(s, c).push(x)
        }),
    decreases s.len(),
{
    let p = seq![' ', c];
    let r = seq![c];
    let t = s.push(x);
    if s.len() == 0 {
        assert(t.skip(1) =~= s);
        assert(tightened(s, c) =~= s);
        assert(tightened(t, c) =~= seq![x]);
        assert(s.push(x) =~= seq![x]);
    } else if occurs_at(s, p, 0) {
        assert(s.subrange(0, 2) =~= p);
        assert(t.subrange(0, 2) =~= p);
        let rest = s.skip(2);
        lemma_tightened_push(rest, x, c);
        assert(t.skip(2) =~= rest.push(x));
        if rest.len() > 0 {
            assert(rest.last() == s.last());
            assert(r + tightened(rest, c).drop_last().push(c) =~= (r + tightened(
                rest,
                c,
            )).drop_last().push(c));
        } else {
            assert(s.last() == p[1]);
            assert(tightened(rest, c) =~= Seq::<char>::empty());
        }
        assert(r + tightened(rest, c).push(x) =~= (r + tightened(rest, c)).push(x));
    } else {
        let rest = s.skip(1);
        let first = seq![s[0]];
        lemma_tightened_push(rest, x, c);
        assert(t.skip(1) =~= rest.push(x));
        if rest.len() == 0 {
            assert(tightened(rest, c) =~= rest);
            assert(tightened(s, c) =~= first);
            if x == c && s[0] == ' ' {
                assert(t.subrange(0, 2) =~= p);
                assert(t.skip(2) =~= rest);
                assert(tightened(t, c) =~= r);
                assert(first.drop_last().push(c) =~= r);
            } else {
                assert(!occurs_at(t, p, 0)) by {
                    if occurs_at(t, p, 0) {
                        assert(t.subrange(0, 2)[0] == ' ');
                        assert(t.subrange(0, 2)[1] == c);
                    }
                }
                assert(tightened(t, c) =~= first.push(x));
            }
        } else {
            assert(!occurs_at(t, p, 0)) by {
                if occurs_at(t, p, 0) {
                    assert(s.subrange(0, 2) =~= t.subrange(0, 2));
                }
            }
            assert(rest.last() == s.last());
            assert(first + tightened(rest, c).drop_last().push(c) =~= (first + tightened(
                rest,
                c,
            )).drop_last().push(c));
            assert(first + tightened(rest, c).push(x) =~= (first + tightened(rest, c)).push(x));
        }
    }
}

/// An even text that is tightened is even, and tight; where it was tight before
/// another character, it still is.
pub proof fn lemma_tightened(s: Seq<char>, c: char, b: char)
    requires
        is_even_start(s),
        !ws(c),
        !ws(b),
    ensures
        ({
            let r = tightened(s, c);
            &&& is_even_start(r)
            &&& is_tight(r, c)
            &&& is_tight(s, b) ==> is_tight(r, b)
            &&& s.len() > 0 ==> r.len() > 0 && r.last() == s.last() && r[0] == s[0]
        }),
    decreases s.len(),
{
    if s.len() == 0 {
        assert(tightened(s, c) =~= s);
    } else {
        let d = s.drop_last();
        let x = s.last();
        assert(d.push(x) =~= s);
        lemma_start_drop(s);
        lemma_tightened(d, c, b);
        lemma_tightened_push(d, x, c);
        let before = tightened(d, c);
        let r = tightened(s, c);
        assert(is_tight(s, b) ==> is_tight(d, b)) by {
            if is_tight(s, b) {
                assert forall|i: int, j: int| 0 <= i && j == i + 1 && j < d.len() implies !(
                #[trigger] d[i] == ' ' && #[trigger] d[j] == b) by {
                    assert(d[i] == s[i] && d[j] == s[j]);
                }
            }
        }
        if x == c && d.len() > 0 && d.last() == ' ' {
            assert(before.last() == ' ');
            lemma_start_drop(before);
            let cutoff = before.drop_last();
            assert(cutoff.last() != ' ');
            lemma_start_push(cutoff, c);
            assert forall|i: int, j: int| 0 <= i && j == i + 1 && j < r.len() implies !(#[trigger] r[i]
                == ' ' && #[trigger] r[j] == c) by {
                if j < cutoff.len() {
                    assert(r[i] == before[i] && r[j] == before[j]);
                } else {
                    assert(r[i] == cutoff.last());
                }
            }
            if is_tight(s, b) {
                assert forall|i: int, j: int| 0 <= i && j == i + 1 && j < r.len() implies !(
                #[trigger] r[i] == ' ' && #[trigger] r[j] == b) by {
                    if j < cutoff.len() {
                        assert(r[i] == before[i] && r[j] == before[j]);
                    } else {
                        assert(r[i] == cutoff.last());
                    }
                }
            }
        } else {
            if ws(x) {
                assert(s[s.len() - 1] == ' ');
            }
            if d.len() > 0 {
                assert(d.last() == s[s.len() - 2]);
            }
            lemma_start_push(before, x);
            assert forall|i: int, j: int| 0 <= i && j == i + 1 && j < r.len() implies !(#[trigger] r[i]
                == ' ' && #[trigger] r[j] == c) by {
                if j < before.len() {
                    assert(r[i] == before[i] && r[j] == before[j]);
                } else {
                    assert(r[i] == before.last());
                }
            }
            if is_tight(s, b) {
                assert forall|i: int, j: int| 0 <= i && j == i + 1 && j < r.len() implies !(
                #[trigger] r[i] == ' ' && #[trigger] r[j] == b) by {
                    if j < before.len() {
                        assert(r[i] == before[i] && r[j] == before[j]);
                    } else {
                        assert(r[i] == before.last());
                        assert(s[s.len() - 2] == d.last());
                        assert(s[s.len() - 1] == x);
                    }
                }
            }
        }
    }
}

/// A text is tightened piece by piece where it is not cut between a blank and the
/// character.
pub proof fn lemma_tightened_add(u: Seq<char>, v: Seq<char>, c: char)
    requires
        c != ' ',
        u.len() > 0 ==> u.last() != ' ',
    ensures
        tightened(u + v, c) == tightened(u, c) + tightened(v, c),
    decreases v.len(),
{
    if v.len() == 0 {
        assert(tightened(v, c) =~= v);
        assert(u + v =~= u);
        assert(tightened(u, c) + v =~= tightened(u, c));
    } else {
        let d = v.drop_last();
        let x = v.last();
        assert(d.push(x) =~= v);
        assert((u + d).push(x) =~= u + v);
        lemma_tightened_add(u, d, c);
        lemma_tightened_push(u + d, x, c);
        lemma_tightened_push(d, x, c);
        let a = tightened(u, c);
        let b = tightened(d, c);
        if d.len() > 0 {
            assert((u + d).last() == d.last());
            assert((a + b).drop_last().push(c) =~= a + b.drop_last().push(c));
        } else {
            assert(u + d =~= u);
        }
        assert((a + b).push(x) =~= a + b.push(x));
    }
}

/// A blank more before the character changes nothing behind a text that ends in
/// no blank.
pub proof fn lemma_tightened_blank(u: Seq<char>, c: char)
    requires
        c != ' ',
        u.len() > 0 ==> u.last() != ' ',
    ensures
        tightened(u.push(' ').push(c), c) == tightened(u.push(c), c),
{
    lemma_tightened_push(u, ' ', c);
    lemma_tightened_push(u.push(' '), c, c);
    lemma_tightened_push(u, c, c);
    assert(tightened(u, c).push(' ').drop_last() =~= tightened(u, c));
}

/// What is tight stays as it is.
pub proof fn lemma_tightened_stays(s: Seq<char>, c: char)
    requires
        c != ' ',
        is_tight(s, c),
    ensures
        tightened(s, c) == s,
    decreases s.len(),
{
    if s.len() == 0 {
        assert(tightened(s, c) =~= s);
    } else {
        let d = s.drop_last();
        assert(d.push(s.last()) =~= s);
        assert forall|i: int, j: int| 0 <= i && j == i + 1 && j < d.len() implies !(#[trigger] d[i]
            == ' ' && #[trigger] d[j] == c) by {
            assert(d[i] == s[i] && d[j] == s[j]);
        }
        lemma_tightened_stays(d, c);
        lemma_tightened_push(d, s.last(), c);
        if d.len() > 0 {
            assert(s[s.len() - 2] == d.last());
            assert(s[s.len() - 1] == s.last());
        }
    }
}

// ---------------------------------------------------------------------------
// What is not white space
// ---------------------------------------------------------------------------
/// The text without its white space.
pub open spec fn solid(s: Seq<char>) -> Seq<char>
    decreases s.len(),
{
    if s.len() == 0 {
        s
    } else if ws(s.last()) {
        solid(s.drop_last())
    } else {
        solid(s.drop_last()).push(s.last())
    }
}

proof fn lemma_solid_push(s: Seq<char>, c: char)
    ensures
        solid(s.push(c)) == (if ws(c) {
            solid(s)
        } else {
            solid(s).push(c)
        }),
{
    assert(s.push(c).drop_last() =~= s);
}

/// Spacing evenly changes white space only.
pub proof fn lemma_even_solid(s: Seq<char>)
    ensures
        solid(even(s)) == solid(s),
    decreases s.len(),
{
    if s.len() > 0 {
        lemma_even_solid(s.drop_last());
        let e = even(s.drop_last());
        lemma_solid_push(e, ' ');
        lemma_solid_push(e.push(' '), s.last());
        lemma_solid_push(e, s.last());
    }
}

/// Tightening changes white space only.
pub proof fn lemma_tightened_solid(s: Seq<char>, c: char)
    requires
        !ws(c),
    ensures
        solid(tightened(s, c)) == solid(s),
    decreases s.len(),
{
    if s.len() == 0 {
        assert(tightened(s, c) =~= s);
    } else {
        let d = s.drop_last();
        let x = s.last();
        assert(d.push(x) =~= s);
        lemma_tightened_solid(d, c);
        lemma_tightened_push(d, x, c);
        let before = tightened(d, c);
        lemma_solid_push(before, x);
        if x == c && d.len() > 0 && d.last() == ' ' {
            lemma_tightened_push(d, x, c);
            assert(before.last() == ' ');
            lemma_solid_push(before.drop_last(), c);
        }
    }
}

} // verus!
