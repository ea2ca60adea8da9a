//! Lists of row numbers in order.

use vstd::prelude::*;

verus! {

/// The numbers stand in order, none of them twice.
pub open spec fn rising(s: Seq<i64>) -> bool {
    forall|i: int, j: int| 0 <= i < j < s.len() ==> #[trigger] s[i] < #[trigger] s[j]
}

/// Puts a number at its place in a rising list, unless it is there already.
pub fn insert_rising(list: &mut Vec<i64>, x: i64)
    requires
        rising(old(list)@),
    ensures
        rising(final(list)@),
        forall|y: i64| #[trigger] final(list)@.contains(y) == (old(list)@.contains(y) || y == x),
{
    let ghost all = list@;
    let mut k: usize = list.len();
    while k > 0 && list[k - 1] > x
        invariant
            k <= list@.len(),
            list@ == all,
            rising(all),
            forall|j: int| k <= j < all.len() ==> #[trigger] all[j] > x,
        decreases k,
    {
        k = k - 1;
    }
    if k > 0 && list[k - 1] == x {
        assert(all[k - 1] == x);
        return;
    }
    list.insert(k, x);
    let ghost out = list@;
    proof {
        assert forall|j: int| 0 <= j < k implies #[trigger] all[j] < x by {
            if j < k - 1 {
                assert(all[j] < all[k - 1]);
            }
        }
        assert forall|i: int, j: int| 0 <= i < j < out.len() implies #[trigger] out[i]
            < #[trigger] out[j] by {
            if j < k {
                assert(all[i] < all[j]);
            } else if j == k {
                assert(all[i] < x);
            } else if i < k {
                assert(all[i] < all[j - 1]);
            } else if i == k {
                assert(all[j - 1] > x);
            } else {
                assert(all[i - 1] < all[j - 1]);
            }
        }
        assert forall|y: i64| out.contains(y) == (all.contains(y) || y == x) by {
            if all.contains(y) {
                let j = choose|j: int| 0 <= j < all.len() && all[j] == y;
                if j < k {
                    assert(out[j] == y);
                } else {
                    assert(out[j + 1] == y);
                }
            }
            if y == x {
                assert(out[k as int] == y);
            }
            if out.contains(y) && y != x {
                let j = choose|j: int| 0 <= j < out.len() && out[j] == y;
                if j < k {
                    assert(all[j] == y);
                } else {
                    assert(all[j - 1] == y);
                }
            }
        }
    }
}

/// Puts all numbers of a list at their places in a rising list.
pub fn insert_all_rising(out: &mut Vec<i64>, list: &Vec<i64>)
    requires
        rising(old(out)@),
    ensures
        rising(final(out)@),
        forall|y: i64| #[trigger] final(out)@.contains(y) == (old(out)@.contains(y) || list@.contains(y)),
{
    let ghost start = out@;
    let mut i: usize = 0;
    while i < list.len()
        invariant
            i <= list@.len(),
            rising(out@),
            forall|y: i64|
                out@.contains(y) == (start.contains(y) || list@.take(i as int).contains(y)),
        decreases list.len() - i,
    {
        let ghost a = list@.take(i as int);
        let ghost b = list@.take(i + 1);
        let ghost x = list@[i as int];
        let ghost before = out@;
        insert_rising(out, list[i]);
        proof {
            assert(b =~= a.push(x));
            assert forall|y: i64| b.contains(y) == (a.contains(y) || y == x) by {
                if a.contains(y) {
                    let j = choose|j: int| 0 <= j < a.len() && a[j] == y;
                    assert(b[j] == y);
                }
                if y == x {
                    assert(b[i as int] == y);
                }
            }
            assert forall|y: i64| out@.contains(y) == (start.contains(y) || b.contains(y)) by {
                assert(before.contains(y) == (start.contains(y) || a.contains(y)));
            }
        }
        i = i + 1;
    }
    assert(list@.take(list@.len() as int) =~= list@);
}

/// A rising list is determined by what occurs in it.
pub proof fn law_rising_unique(a: Seq<i64>, b: Seq<i64>)
    requires
        rising(a),
        rising(b),
        forall|y: i64| a.contains(y) == b.contains(y),
    ensures
        a == b,
    decreases a.len() + b.len(),
{
    if a.len() == 0 {
        if b.len() > 0 {
            assert(b.contains(b[0]));
            assert(a.contains(b[0]));
        }
    } else if b.len() == 0 {
        assert(a.contains(a[0]));
        assert(b.contains(a[0]));
    } else {
        assert(a.contains(a[0]) && b.contains(b[0]));
        let i = choose|i: int| 0 <= i < b.len() && b[i] == a[0];
        let j = choose|j: int| 0 <= j < a.len() && a[j] == b[0];
        assert(b.contains(a[0]) && a.contains(b[0]));
        assert(a[0] == b[0]);
        let ta = a.skip(1);
        let tb = b.skip(1);
        assert forall|y: i64| ta.contains(y) == tb.contains(y) by {
            lemma_tail_contains(a, y);
            lemma_tail_contains(b, y);
        }
        assert(rising(ta)) by {
            assert forall|i: int, j: int| 0 <= i < j < ta.len() implies #[trigger] ta[i]
                < #[trigger] ta[j] by {
                assert(a[i + 1] < a[j + 1]);
            }
        }
        assert(rising(tb)) by {
            assert forall|i: int, j: int| 0 <= i < j < tb.len() implies #[trigger] tb[i]
                < #[trigger] tb[j] by {
                assert(b[i + 1] < b[j + 1]);
            }
        }
        law_rising_unique(ta, tb);
        assert(a =~= seq![a[0]] + ta);
        assert(b =~= seq![b[0]] + tb);
    }
}

/// What occurs behind the first of a rising list.
proof fn lemma_tail_contains(a: Seq<i64>, y: i64)
    requires
        rising(a),
        a.len() > 0,
    ensures
        a.skip(1).contains(y) == (a.contains(y) && y != a[0]),
{
    let t = a.skip(1);
    if t.contains(y) {
        let k = choose|k: int| 0 <= k < t.len() && t[k] == y;
        assert(a[k + 1] == y);
        assert(a[0] < a[k + 1]);
    }
    if a.contains(y) && y != a[0] {
        let k = choose|k: int| 0 <= k < a.len() && a[k] == y;
        assert(t[k - 1] == y);
    }
}

} // verus!
