//! Median selection used by the KD-tree builds.
//!
//! `floydrivest` rearranges a window `[left, right]` of the item
//! vector so that the item at `nth_el` is the one a full sort by the
//! chosen axis would put there: everything before it in the window
//! compares no greater, everything after it no smaller. Items outside
//! the window are not touched and the window keeps its items (as a
//! multiset). The trees select their medians with it.

use vstd::prelude::*;
use vstd::seq_lib::lemma_multiset_commutative;
use crate::elem::{Elem, key};

verus! {

broadcast use vstd::seq_lib::group_to_multiset_ensures;

/// `s2` is `s1` with only the window `[l, r]` rearranged: the same
/// length, the same items outside the window, and the same multiset
/// of items inside it.
pub open spec fn window_preserved(s1: Seq<Elem>, s2: Seq<Elem>, l: int, r: int) -> bool {
    &&& s2.len() == s1.len()
    &&& forall|k: int| 0 <= k < s1.len() && !(l <= k <= r) ==> s2[k] == s1[k]
    &&& s2.subrange(l, r + 1).to_multiset() == s1.subrange(l, r + 1).to_multiset()
}

/// Every value the rearranged window holds was already in the window.
pub open spec fn value_from_window(s1: Seq<Elem>, s2: Seq<Elem>, l: int, r: int, x: int) -> bool {
    exists|x0: int| l <= x0 <= r && s2[x] == s1[x0]
}

/// Exchanges the items at positions `i` and `j`.
fn swap_items(a: &mut Vec<Elem>, i: usize, j: usize)
    requires
        i < old(a).len(),
        j < old(a).len(),
    ensures
        final(a)@ == old(a)@.update(i as int, old(a)@[j as int]).update(j as int, old(a)@[i as int]),
{
    let vi = a[i];
    let vj = a[j];
    a[i] = vj;
    a[j] = vi;
}

/// A swap of two positions inside the window rearranges the window only.
proof fn lemma_swap_keeps_window(s1: Seq<Elem>, s2: Seq<Elem>, l: int, r: int, i: int, j: int)
    requires
        0 <= l <= i <= r < s1.len(),
        l <= j <= r,
        s2 == s1.update(i, s1[j]).update(j, s1[i]),
    ensures
        window_preserved(s1, s2, l, r),
{
    let w1 = s1.subrange(l, r + 1);
    let w2 = s2.subrange(l, r + 1);
    assert(w2 =~= w1.update(i - l, w1[j - l]).update(j - l, w1[i - l]));
    broadcast use vstd::multiset::group_multiset_axioms;

    if i == j {
        assert(w2 =~= w1);
    } else {
        let u = w1.update(i - l, w1[j - l]);
        vstd::seq_lib::to_multiset_update(w1, i - l, w1[j - l]);
        vstd::seq_lib::to_multiset_update(u, j - l, w1[i - l]);
        assert(w2 =~= u.update(j - l, w1[i - l]));
        assert(u[j - l] == w1[j - l]);
        assert(w1.contains(w1[i - l]) && w1.contains(w1[j - l]));
        assert(w2.to_multiset() =~= w1.to_multiset());
    }
}

/// Rearranging a window rearranges every enclosing window.
pub proof fn lemma_widen_window(s1: Seq<Elem>, s2: Seq<Elem>, wl: int, wr: int, l: int, r: int)
    requires
        0 <= wl <= l <= r <= wr < s1.len(),
        window_preserved(s1, s2, l, r),
    ensures
        window_preserved(s1, s2, wl, wr),
{
    let a1 = s1.subrange(wl, l);
    let b1 = s1.subrange(l, r + 1);
    let c1 = s1.subrange(r + 1, wr + 1);
    let a2 = s2.subrange(wl, l);
    let b2 = s2.subrange(l, r + 1);
    let c2 = s2.subrange(r + 1, wr + 1);
    assert(s1.subrange(wl, wr + 1) =~= a1 + b1 + c1);
    assert(s2.subrange(wl, wr + 1) =~= a2 + b2 + c2);
    assert(a2 =~= a1);
    assert(c2 =~= c1);
    lemma_multiset_commutative(a1 + b1, c1);
    lemma_multiset_commutative(a1, b1);
    lemma_multiset_commutative(a2 + b2, c2);
    lemma_multiset_commutative(a2, b2);
}

/// After a window is rearranged, each of its positions holds a value
/// that some position of the old window held.
pub proof fn lemma_window_values(s1: Seq<Elem>, s2: Seq<Elem>, l: int, r: int)
    requires
        0 <= l <= r < s1.len(),
        window_preserved(s1, s2, l, r),
    ensures
        forall|x: int| l <= x <= r ==> #[trigger] value_from_window(s1, s2, l, r, x),
{
    let w1 = s1.subrange(l, r + 1);
    let w2 = s2.subrange(l, r + 1);
    assert forall|x: int| l <= x <= r implies #[trigger] value_from_window(
        s1,
        s2,
        l,
        r,
        x,
    ) by {
        assert(w2[x - l] == s2[x]);
        assert(w2.contains(s2[x]));
        assert(w2.to_multiset().contains(s2[x]));
        assert(w1.to_multiset().contains(s2[x]));
        assert(w1.contains(s2[x]));
        let k = choose|k: int| 0 <= k < w1.len() && w1[k] == s2[x];
        assert(s1[k + l] == s2[x]);
    }
}

/// One partitioning pass of the selection: rearranges the window
/// `[left, right]` around a pivot drawn from position `nth_el` and
/// returns the pivot's final position.
#[verifier::loop_isolation(false)]
fn partition(a: &mut Vec<Elem>, nth_el: usize, left: usize, right: usize, axis: usize) -> (p:
    usize)
    requires
        axis < 3,
        left <= nth_el <= right < old(a).len(),
        left < right,
    ensures
        left <= p <= right,
        window_preserved(old(a)@, final(a)@, left as int, right as int),
        forall|x: int|
            left <= x < p ==> key(final(a)@[x], axis as int) <= key(
                final(a)@[p as int],
                axis as int,
            ),
        forall|y: int|
            p < y <= right ==> key(final(a)@[p as int], axis as int) <= key(
                final(a)@[y],
                axis as int,
            ),
{
    let ghost s0 = old(a)@;
    let ghost ax = axis as int;
    let t = a[nth_el];
    let ghost kt = key(t, ax);
    let mut i = left;
    let mut j = right;

    let ghost pre = a@;
    swap_items(a, left, nth_el);
    proof {
        lemma_swap_keeps_window(pre, a@, left as int, right as int, left as int, nth_el as int);
    }
    if a[right].min_pos[axis] > t.min_pos[axis] {
        let ghost pre = a@;
        swap_items(a, right, left);
        proof {
            lemma_swap_keeps_window(
                pre,
                a@,
                left as int,
                right as int,
                right as int,
                left as int,
            );
        }
    }
    assert(key(a@[left as int], ax) >= kt);
    assert(key(a@[right as int], ax) <= kt);
    assert(key(a@[left as int], ax) == kt || key(a@[right as int], ax) == kt);

    while i < j
        invariant
            left <= i <= right,
            left <= j <= right,
            i <= j + 1,
            (i == left) <==> (j == right),
            window_preserved(s0, a@, left as int, right as int),
            forall|x: int| left <= x < i ==> key(a@[x], ax) <= kt,
            forall|y: int| j < y <= right ==> kt <= key(a@[y], ax),
            key(a@[i as int], ax) >= kt,
            key(a@[j as int], ax) <= kt,
            key(a@[left as int], ax) == kt || key(a@[right as int], ax) == kt,
        decreases (if i < j { j - i } else { 0int }),
    {
        let ghost pre = a@;
        swap_items(a, i, j);
        proof {
            lemma_swap_keeps_window(pre, a@, left as int, right as int, i as int, j as int);
        }
        i = i + 1;
        j = j - 1;
        let ghost i1 = i;
        let ghost j1 = j;
        while a[i].min_pos[axis] < t.min_pos[axis]
            invariant
                i1 <= i,
                left < i <= j + 1,
                j < right,
                forall|x: int| left <= x < i ==> key(a@[x], ax) <= kt,
                kt <= key(a@[j as int + 1], ax),
            decreases j + 1 - i,
        {
            i = i + 1;
        }
        while a[j].min_pos[axis] > t.min_pos[axis]
            invariant
                j <= j1,
                i - 1 <= j,
                j < right,
                forall|y: int| j < y <= right ==> kt <= key(a@[y], ax),
                key(a@[i as int - 1], ax) <= kt,
            decreases j + 1 - i,
        {
            j = j - 1;
        }
    }

    let mut p = j;
    if a[left].min_pos[axis] == t.min_pos[axis] {
        let ghost pre = a@;
        swap_items(a, left, p);
        proof {
            lemma_swap_keeps_window(pre, a@, left as int, right as int, left as int, p as int);
        }
        assert(key(a@[p as int], ax) == kt);
    } else {
        assert(key(a@[right as int], ax) == kt);
        p = p + 1;
        let ghost pre = a@;
        swap_items(a, p, right);
        proof {
            lemma_swap_keeps_window(pre, a@, left as int, right as int, p as int, right as int);
        }
        assert(key(a@[p as int], ax) == kt);
    }
    p
}

/// Moves the item that a full sort of the window `[left, right]` by
/// axis `axis` would put at `nth_el` to that position: afterwards the
/// window's items before `nth_el` compare no greater and those after
/// it no smaller, the window holds the same items as before, and
/// nothing outside the window moved.
#[verifier::loop_isolation(false)]
pub fn floydrivest(a: &mut Vec<Elem>, nth_el: usize, left: usize, right: usize, axis: usize)
    requires
        axis < 3,
        left <= nth_el <= right < old(a).len(),
    ensures
        window_preserved(old(a)@, final(a)@, left as int, right as int),
        forall|x: int|
            left <= x <= nth_el ==> key(final(a)@[x], axis as int) <= key(
                final(a)@[nth_el as int],
                axis as int,
            ),
        forall|y: int|
            nth_el <= y <= right ==> key(final(a)@[nth_el as int], axis as int) <= key(
                final(a)@[y],
                axis as int,
            ),
{
    let ghost s0 = old(a)@;
    let ghost ax = axis as int;
    let mut l = left;
    let mut r = right;
    while r > l
        invariant
            left <= l,
            r <= right,
            l <= nth_el + 1,
            nth_el <= r + 1,
            l > nth_el ==> l == nth_el + 1 && ((nth_el == 0 && r == 0) || r + 1 == nth_el),
            r < nth_el ==> r + 1 == nth_el && l == nth_el + 1,
            window_preserved(s0, a@, left as int, right as int),
            forall|x: int, y: int|
                left <= x < l && l <= y <= right ==> key(a@[x], ax) <= key(a@[y], ax),
            forall|x: int, y: int|
                left <= x <= r && r < y <= right ==> key(a@[x], ax) <= key(a@[y], ax),
        decreases (if l < r { r - l } else { 0int }),
    {
        let ghost pre = a@;
        let p = partition(a, nth_el, l, r, axis);
        proof {
            lemma_widen_window(pre, a@, left as int, right as int, l as int, r as int);
            lemma_window_values(pre, a@, l as int, r as int);
            assert forall|x: int, y: int|
                left <= x < l && l <= y <= right implies key(a@[x], ax) <= key(a@[y], ax) by {
                if l <= y <= r {
                    assert(value_from_window(pre, a@, l as int, r as int, y));
                    let y0 = choose|y0: int| l <= y0 <= r && a@[y] == pre[y0];
                    assert(key(pre[x], ax) <= key(pre[y0], ax));
                } else {
                    assert(key(pre[x], ax) <= key(pre[y], ax));
                }
            }
            assert forall|x: int, y: int|
                left <= x <= r && r < y <= right implies key(a@[x], ax) <= key(a@[y], ax) by {
                if l <= x <= r {
                    assert(value_from_window(pre, a@, l as int, r as int, x));
                    let x0 = choose|x0: int| l <= x0 <= r && a@[x] == pre[x0];
                    assert(key(pre[x0], ax) <= key(pre[y], ax));
                } else {
                    assert(key(pre[x], ax) <= key(pre[y], ax));
                }
            }
        }
        if p <= nth_el {
            l = p + 1;
        }
        if nth_el <= p {
            r = if p == 0 {
                0
            } else {
                p - 1
            };
        }
    }
}

} // verus!
