//! The order of texts, and lists in that order.

use vstd::prelude::*;

use crate::text::chars_of;
#[allow(unused_imports)]
use crate::text::texts;

verus! {

/// `a` comes before `b`: at the first difference its character is the lesser,
/// or it is a proper beginning of `b`.
pub open spec fn before(a: Seq<char>, b: Seq<char>) -> bool
    decreases a.len(),
{
    if b.len() == 0 {
        false
    } else if a.len() == 0 {
        true
    } else if a[0] == b[0] {
        before(a.skip(1), b.skip(1))
    } else {
        a[0] < b[0]
    }
}

/// No text comes before itself.
pub proof fn lemma_before_irreflexive(a: Seq<char>)
    ensures
        !before(a, a),
    decreases a.len(),
{
    if a.len() > 0 {
        lemma_before_irreflexive(a.skip(1));
    }
}

/// The order is transitive.
pub proof fn lemma_before_transitive(a: Seq<char>, b: Seq<char>, c: Seq<char>)
    requires
        before(a, b),
        before(b, c),
    ensures
        before(a, c),
    decreases a.len(),
{
    if a.len() > 0 && b.len() > 0 && c.len() > 0 && a[0] == b[0] && b[0] == c[0] {
        lemma_before_transitive(a.skip(1), b.skip(1), c.skip(1));
    }
}

/// Of two different texts one comes before the other.
pub proof fn lemma_before_total(a: Seq<char>, b: Seq<char>)
    ensures
        a == b || before(a, b) || before(b, a),
    decreases a.len(),
{
    if a.len() == 0 || b.len() == 0 {
        if a.len() == b.len() {
            assert(a =~= b);
        }
    } else if a[0] == b[0] {
        lemma_before_total(a.skip(1), b.skip(1));
        if a.skip(1) == b.skip(1) {
            assert(a =~= seq![a[0]] + a.skip(1));
            assert(b =~= seq![b[0]] + b.skip(1));
        }
    }
}

/// Whether `a` comes before `b`.
pub fn is_before(a: &[char], b: &[char]) -> (r: bool)
    ensures
        r == before(a@, b@),
{
    let mut i: usize = 0;
    assert(a@.skip(0) =~= a@);
    assert(b@.skip(0) =~= b@);
    while i < a.len() && i < b.len()
        invariant
            i <= a@.len(),
            i <= b@.len(),
            before(a@, b@) == before(a@.skip(i as int), b@.skip(i as int)),
        decreases a.len() - i,
    {
        if a[i] != b[i] {
            return a[i] < b[i];
        }
        assert(a@.skip(i as int).skip(1) =~= a@.skip(i + 1));
        assert(b@.skip(i as int).skip(1) =~= b@.skip(i + 1));
        i = i + 1;
    }
    i < b.len()
}

/// Whether the string `a` comes before `b`.
pub fn str_before(a: &str, b: &str) -> (r: bool)
    ensures
        r == before(a@, b@),
{
    let va = chars_of(a);
    let vb = chars_of(b);
    is_before(va.as_slice(), vb.as_slice())
}

/// The texts stand in order, none of them twice.
pub open spec fn ascending(s: Seq<Seq<char>>) -> bool {
    forall|i: int, j: int| 0 <= i < j < s.len() ==> before(#[trigger] s[i], #[trigger] s[j])
}

/// Two ascending lists of the same texts are the same list.
pub proof fn law_ascending_unique(a: Seq<Seq<char>>, b: Seq<Seq<char>>)
    requires
        ascending(a),
        ascending(b),
        a.to_set() == b.to_set(),
    ensures
        a == b,
    decreases a.len(),
{
    if a.len() == 0 {
        if b.len() > 0 {
            assert(b.to_set().contains(b[0]));
        }
        assert(a =~= b);
    } else {
        assert(a.to_set().contains(a[0]));
        assert(b.contains(a[0]));
        assert(b.to_set().contains(b[0]));
        assert(a.contains(b[0]));
        let i = choose|i: int| 0 <= i < b.len() && b[i] == a[0];
        let j = choose|j: int| 0 <= j < a.len() && a[j] == b[0];
        if i > 0 && j > 0 {
            assert(before(b[0], b[i]));
            assert(before(a[0], a[j]));
            lemma_before_transitive(a[0], b[0], a[0]);
            lemma_before_irreflexive(a[0]);
        }
        assert(a[0] == b[0]);
        let ta = a.skip(1);
        let tb = b.skip(1);
        assert(ascending(ta)) by {
            assert forall|i: int, j: int| 0 <= i < j < ta.len() implies before(
                #[trigger] ta[i],
                #[trigger] ta[j],
            ) by {
                assert(ta[i] == a[i + 1] && ta[j] == a[j + 1]);
            }
        }
        assert(ascending(tb)) by {
            assert forall|i: int, j: int| 0 <= i < j < tb.len() implies before(
                #[trigger] tb[i],
                #[trigger] tb[j],
            ) by {
                assert(tb[i] == b[i + 1] && tb[j] == b[j + 1]);
            }
        }
        assert forall|x: Seq<char>| ta.to_set().contains(x) == tb.to_set().contains(x) by {
            lemma_tail_contains(a, x);
            lemma_tail_contains(b, x);
            lemma_same_members(a, b, x);
            assert(ta.to_set().contains(x) == ta.contains(x));
            assert(tb.to_set().contains(x) == tb.contains(x));
        }
        assert(ta.to_set() =~= tb.to_set());
        law_ascending_unique(ta, tb);
        assert(a =~= seq![a[0]] + ta);
        assert(b =~= seq![b[0]] + tb);
    }
}

proof fn lemma_same_members(a: Seq<Seq<char>>, b: Seq<Seq<char>>, x: Seq<char>)
    requires
        a.to_set() == b.to_set(),
    ensures
        a.contains(x) == b.contains(x),
{
    assert(a.to_set().contains(x) == a.contains(x));
    assert(b.to_set().contains(x) == b.contains(x));
}

proof fn lemma_tail_contains(a: Seq<Seq<char>>, x: Seq<char>)
    requires
        ascending(a),
        a.len() > 0,
    ensures
        a.skip(1).contains(x) == (a.contains(x) && x != a[0]),
{
    let t = a.skip(1);
    if t.contains(x) {
        let k = choose|k: int| 0 <= k < t.len() && t[k] == x;
        assert(a[k + 1] == x);
        assert(before(a[0], a[k + 1]));
        lemma_before_irreflexive(x);
    }
    if a.contains(x) && x != a[0] {
        let k = choose|k: int| 0 <= k < a.len() && a[k] == x;
        assert(t[k - 1] == x);
    }
}

/// Puts a text at its place in an ascending list, unless it is there already.
pub fn insert_ascending(list: &mut Vec<String>, s: String)
    requires
        ascending(texts(old(list)@)),
    ensures
        ascending(texts(final(list)@)),
        texts(final(list)@).to_set() == texts(old(list)@).to_set().insert(s@),
{
    let ghost all = texts(list@);
    let ghost sv = s@;
    let mut k: usize = 0;
    while k < list.len() && str_before(list[k].as_str(), s.as_str())
        invariant
            k <= list@.len(),
            *list == *old(list),
            all == texts(list@),
            forall|j: int| 0 <= j < k ==> before(#[trigger] all[j], s@),
        decreases list.len() - k,
    {
        assert(all[k as int] == list@[k as int]@);
        k = k + 1;
    }
    if k < list.len() && crate::text::str_eq(list[k].as_str(), s.as_str()) {
        assert(all[k as int] == sv);
        assert(all.contains(sv));
        assert(all.to_set() =~= all.to_set().insert(sv));
        return;
    }
    proof {
        if k < all.len() {
            assert(all[k as int] == list@[k as int]@);
            lemma_before_total(all[k as int], sv);
            assert forall|j: int| k <= j < all.len() implies before(sv, #[trigger] all[j]) by {
                if j > k {
                    lemma_before_transitive(sv, all[k as int], all[j]);
                }
            }
        }
    }
    list.insert(k, s);
    let ghost out = texts(list@);
    proof {
        assert(out =~= all.insert(k as int, sv));
        assert forall|i: int, j: int| 0 <= i < j < out.len() implies before(
            #[trigger] out[i],
            #[trigger] out[j],
        ) by {
            if j < k {
                assert(out[i] == all[i] && out[j] == all[j]);
            } else if j == k {
                assert(out[i] == all[i]);
            } else if i < k {
                assert(out[i] == all[i] && out[j] == all[j - 1]);
            } else if i == k {
                assert(out[j] == all[j - 1]);
            } else {
                assert(out[i] == all[i - 1] && out[j] == all[j - 1]);
            }
        }
        assert forall|x: Seq<char>| out.contains(x) == (all.contains(x) || x == sv) by {
            if all.contains(x) {
                let j = choose|j: int| 0 <= j < all.len() && all[j] == x;
                if j < k {
                    assert(out[j] == x);
                } else {
                    assert(out[j + 1] == x);
                }
            }
            if x == sv {
                assert(out[k as int] == x);
            }
            if out.contains(x) && x != sv {
                let j = choose|j: int| 0 <= j < out.len() && out[j] == x;
                if j < k {
                    assert(all[j] == x);
                } else {
                    assert(all[j - 1] == x);
                }
            }
        }
        assert(out.to_set() =~= all.to_set().insert(sv));
    }
}

/// The texts of a list in order, each once.
pub fn sorted_set(list: &Vec<String>) -> (r: Vec<String>)
    ensures
        ascending(texts(r@)),
        texts(r@).to_set() == texts(list@).to_set(),
{
    let mut r: Vec<String> = Vec::new();
    let mut i: usize = 0;
    assert(texts(r@) =~= Seq::<Seq<char>>::empty());
    assert(texts(list@).take(0).to_set() =~= texts(r@).to_set());
    while i < list.len()
        invariant
            i <= list@.len(),
            ascending(texts(r@)),
            texts(r@).to_set() == texts(list@).take(i as int).to_set(),
        decreases list.len() - i,
    {
        insert_ascending(&mut r, list[i].clone());
        proof {
            let a = texts(list@).take(i as int);
            let b = texts(list@).take(i + 1);
            assert(b =~= a.push(list@[i as int]@));
            assert forall|x: Seq<char>| b.contains(x) == (a.contains(x) || x == list@[i as int]@) by {
                if a.contains(x) {
                    let j = choose|j: int| 0 <= j < a.len() && a[j] == x;
                    assert(b[j] == x);
                }
                if x == list@[i as int]@ {
                    assert(b[i as int] == x);
                }
            }
            assert(b.to_set() =~= a.to_set().insert(list@[i as int]@));
        }
        i = i + 1;
    }
    assert(texts(list@).take(i as int) =~= texts(list@));
    r
}

/// Puts all texts of a list at their places in an ascending list.
pub fn insert_all_ascending(list: &mut Vec<String>, more: &Vec<String>)
    requires
        ascending(texts(old(list)@)),
    ensures
        ascending(texts(final(list)@)),
        texts(final(list)@).to_set() == texts(old(list)@).to_set().union(texts(more@).to_set()),
{
    let ghost start = texts(list@).to_set();
    let ghost all = texts(more@);
    let mut i: usize = 0;
    assert(start.union(all.take(0).to_set()) =~= start);
    while i < more.len()
        invariant
            i <= more@.len(),
            all == texts(more@),
            ascending(texts(list@)),
            texts(list@).to_set() == start.union(all.take(i as int).to_set()),
        decreases more.len() - i,
    {
        insert_ascending(list, more[i].clone());
        proof {
            let a = all.take(i as int);
            let b = all.take(i + 1);
            let x = more@[i as int]@;
            assert(b =~= a.push(x));
            assert forall|y: Seq<char>| b.contains(y) == (a.contains(y) || y == x) by {
                if a.contains(y) {
                    let j = choose|j: int| 0 <= j < a.len() && a[j] == y;
                    assert(b[j] == y);
                }
                if y == x {
                    assert(b[i as int] == y);
                }
            }
            assert(texts(list@).to_set() =~= start.union(b.to_set()));
        }
        i = i + 1;
    }
    assert(all.take(all.len() as int) =~= all);
}

} // verus!
