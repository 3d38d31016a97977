//! The axis-cycled KD tree shared by the photon map and the triangle
//! mesh.
//!
//! The tree is built over a vector of items by median selection: at
//! each node the splitting axis cycles with depth, the median item by
//! that axis' minimum coordinate is selected into the middle of the
//! node's range, and the node stores that item's index together with
//! a bounding box that contains the boxes of the item and of both
//! children — the invariant `wf_node` states, and `new` establishes.
//!
//! `search` reports exactly the items whose boxes meet a query box,
//! each once; `scan_box` is the brute-force equivalent over the bare
//! item vector.

use vstd::prelude::*;
use crate::elem::{Elem, key, min3, max3, photon_elem, triangle_elem, tri_box_ok};
use crate::select::{floydrivest, window_preserved, value_from_window, lemma_widen_window,
    lemma_window_values};

verus! {

/// The axis the next tree level splits on.
pub open spec fn next_axis(axis: int) -> int {
    if axis >= 2 {
        0
    } else {
        axis + 1
    }
}

/// The node's box contains the item's box.
pub open spec fn node_contains_elem(n: Node, e: Elem) -> bool {
    forall|d: int|
        #![trigger e.min_pos[d]]
        #![trigger e.max_pos[d]]
        0 <= d < 3 ==> n.min_pos[d] <= e.min_pos[d] && e.max_pos[d] <= n.max_pos[d]
}

/// The outer node's box contains the inner node's box.
pub open spec fn node_contains_node(outer: Node, inner: Node) -> bool {
    forall|d: int|
        #![trigger inner.min_pos[d]]
        #![trigger inner.max_pos[d]]
        0 <= d < 3 ==> outer.min_pos[d] <= inner.min_pos[d] && inner.max_pos[d]
            <= outer.max_pos[d]
}

/// The item's box meets the query box `[lo, hi]` (a photon's
/// degenerate box meets it exactly when the photon lies inside it).
pub open spec fn elem_in_box(e: Elem, lo: [u64; 3], hi: [u64; 3]) -> bool {
    boxes_meet(e.min_pos, e.max_pos, lo, hi)
}

/// The boxes `[bmin, bmax]` and `[lo, hi]` meet on every axis.
pub open spec fn boxes_meet(bmin: [u64; 3], bmax: [u64; 3], lo: [u64; 3], hi: [u64; 3]) -> bool {
    forall|d: int|
        #![trigger bmin[d]]
        #![trigger bmax[d]]
        0 <= d < 3 ==> lo[d] <= bmax[d] && bmin[d] <= hi[d]
}

/// A node of the KD tree: the bounding box of its subtree and the
/// index of its median item.
pub struct Node {
    pub min_pos: [u64; 3],
    pub max_pos: [u64; 3],
    pub lchild: Option<Box<Node>>,
    pub rchild: Option<Box<Node>>,
    pub item_index: usize,
}

/// Well-formedness of the subtree `n` over `items[l..r]`, split on
/// `axis`: the median index sits in the middle of the range, the
/// range is partitioned around it by the axis key, the node's box
/// contains the box of every item of the range and the boxes of both
/// children, and the children cover the two half ranges.
pub open spec fn wf_node(n: Node, items: Seq<Elem>, l: int, r: int, axis: int) -> bool
    decreases n,
{
    let mid = (l + r) / 2;
    &&& l <= mid < r <= items.len()
    &&& n.item_index == mid
    &&& forall|i: int| l <= i < mid ==> key(#[trigger] items[i], axis) <= key(items[mid], axis)
    &&& forall|i: int| mid < i < r ==> key(items[mid], axis) <= key(#[trigger] items[i], axis)
    &&& forall|i: int| l <= i < r ==> node_contains_elem(n, #[trigger] items[i])
    &&& match n.lchild {
        Some(c) => l < mid && node_contains_node(n, *c) && wf_node(
            *c,
            items,
            l,
            mid,
            next_axis(axis),
        ),
        None => l == mid,
    }
    &&& match n.rchild {
        Some(c) => mid + 1 < r && node_contains_node(n, *c) && wf_node(
            *c,
            items,
            mid + 1,
            r,
            next_axis(axis),
        ),
        None => mid + 1 == r,
    }
}

/// Well-formedness only reads the items of the node's own range.
proof fn lemma_wf_frame(n: Node, s1: Seq<Elem>, s2: Seq<Elem>, l: int, r: int, axis: int)
    requires
        wf_node(n, s1, l, r, axis),
        s2.len() == s1.len(),
        forall|k: int| l <= k < r ==> s2[k] == s1[k],
    ensures
        wf_node(n, s2, l, r, axis),
    decreases n,
{
    let mid = (l + r) / 2;
    if let Some(c) = n.lchild {
        lemma_wf_frame(*c, s1, s2, l, mid, next_axis(axis));
    }
    if let Some(c) = n.rchild {
        lemma_wf_frame(*c, s1, s2, mid + 1, r, next_axis(axis));
    }
}

/// Builds the subtree over `items[left..right]`, splitting on `axis`:
/// selects the median to the middle of the range, recurses on the two
/// halves, and grows the node's box over the children's boxes.
#[verifier::rlimit(60)]
fn build_node(items: &mut Vec<Elem>, left: usize, right: usize, axis: usize) -> (n: Box<Node>)
    requires
        axis < 3,
        left < right <= old(items).len(),
    ensures
        window_preserved(old(items)@, final(items)@, left as int, right as int - 1),
        wf_node(*n, final(items)@, left as int, right as int, axis as int),
    decreases right - left,
{
    let ghost l = left as int;
    let ghost r = right as int;
    let ghost ax = axis as int;
    let mid = left + (right - left) / 2;
    assert(mid == (left + right) / 2);
    let ghost m = mid as int;
    floydrivest(items, mid, left, right - 1, axis);
    let ghost s1 = items@;
    let e = items[mid];
    let mut node = Box::new(
        Node {
            min_pos: e.min_pos,
            max_pos: e.max_pos,
            lchild: None,
            rchild: None,
            item_index: mid,
        },
    );
    let ax2 = if axis == 2 {
        0
    } else {
        axis + 1
    };
    if left < mid {
        let c = build_node(items, left, mid, ax2);
        proof {
            lemma_widen_window(s1, items@, l, r - 1, l, m - 1);
            lemma_window_values(s1, items@, l, m - 1);
            assert forall|i: int| l <= i < m implies key(#[trigger] items@[i], ax) <= key(
                items@[m],
                ax,
            ) by {
                assert(value_from_window(s1, items@, l, m - 1, i));
                let i0 = choose|i0: int| l <= i0 <= m - 1 && items@[i] == s1[i0];
                assert(key(s1[i0], ax) <= key(s1[m], ax));
            }
        }
        node.min_pos = min3(&node.min_pos, &c.min_pos);
        node.max_pos = max3(&node.max_pos, &c.max_pos);
        node.lchild = Some(c);
    }
    let ghost s2 = items@;
    let ghost node2 = *node;
    assert(node_contains_elem(*node, s2[m]));
    assert(match node2.lchild {
        Some(c) => l < m && node_contains_node(node2, *c) && wf_node(*c, s2, l, m, ax2 as int),
        None => l == m,
    });
    assert(forall|i: int| l <= i < m ==> key(#[trigger] s2[i], ax) <= key(s2[m], ax));
    assert(forall|i: int| m < i < r ==> key(s2[m], ax) <= key(#[trigger] s2[i], ax));
    if mid + 1 < right {
        let c = build_node(items, mid + 1, right, ax2);
        proof {
            lemma_widen_window(s2, items@, l, r - 1, m + 1, r - 1);
            lemma_window_values(s2, items@, m + 1, r - 1);
            assert forall|i: int| m < i < r implies key(items@[m], ax) <= key(
                #[trigger] items@[i],
                ax,
            ) by {
                assert(value_from_window(s2, items@, m + 1, r - 1, i));
                let i0 = choose|i0: int| m + 1 <= i0 <= r - 1 && items@[i] == s2[i0];
                assert(key(s2[m], ax) <= key(s2[i0], ax));
            }
            if let Some(c) = node2.lchild {
                lemma_wf_frame(*c, s2, items@, l, m, ax2 as int);
            }
        }
        node.min_pos = min3(&node.min_pos, &c.min_pos);
        node.max_pos = max3(&node.max_pos, &c.max_pos);
        node.rchild = Some(c);
    }
    let ghost s3 = items@;
    proof {
        assert(forall|k: int| l <= k <= m ==> s3[k] == s2[k]);
        assert(node.item_index == m && node.lchild == node2.lchild);
        if let Some(c) = node2.lchild {
            lemma_wf_frame(*c, s2, s3, l, m, ax2 as int);
        }
        assert forall|d: int| 0 <= d < 3 implies #[trigger] node.min_pos[d] <= node2.min_pos[d]
            && node2.max_pos[d] <= node.max_pos[d] by {}
        assert forall|i: int| l <= i < r implies node_contains_elem(
            *node,
            #[trigger] s3[i],
        ) by {
            if i < m {
                let c = node2.lchild.unwrap();
                assert(node_contains_elem(*c, s3[i]));
                assert forall|d: int|
                    0 <= d < 3 implies node.min_pos[d] <= s3[i].min_pos[d]
                    && #[trigger] s3[i].max_pos[d] <= node.max_pos[d] by {
                    assert(c.min_pos[d] <= s3[i].min_pos[d] && s3[i].max_pos[d] <= c.max_pos[d]);
                    assert(node2.min_pos[d] <= c.min_pos[d] && c.max_pos[d] <= node2.max_pos[d]);
                }
            } else if i > m {
                let c = node.rchild.unwrap();
                assert(node_contains_elem(*c, s3[i]));
                assert forall|d: int|
                    0 <= d < 3 implies node.min_pos[d] <= s3[i].min_pos[d]
                    && #[trigger] s3[i].max_pos[d] <= node.max_pos[d] by {
                    assert(c.min_pos[d] <= s3[i].min_pos[d] && s3[i].max_pos[d] <= c.max_pos[d]);
                }
            } else {
                assert(s3[m] == s2[m]);
            }
        }
        assert(wf_node(*node, s3, l, r, ax));
    }
    node
}

/// The photon map's lookup tree (the mesh uses the same shape over
/// triangle boxes): a permutation of the items it was given and a
/// tree of median nodes over it.
pub struct KDTree {
    pub root: Option<Box<Node>>,
    pub items: Vec<Elem>,
}

impl KDTree {
    /// The tree's invariant: the root covers the whole item range.
    pub open spec fn wf(&self) -> bool {
        match self.root {
            Some(n) => wf_node(*n, self.items@, 0, self.items@.len() as int, 0),
            None => self.items@.len() == 0,
        }
    }

    /// Builds the tree over the given items: the stored item vector
    /// is a rearrangement of `map` and the tree is well formed.
    pub fn new(map: Vec<Elem>) -> (t: KDTree)
        ensures
            t.wf(),
            t.items@.len() == map@.len(),
            t.items@.to_multiset() == map@.to_multiset(),
    {
        let mut map = map;
        if map.len() == 0 {
            KDTree { root: None, items: map }
        } else {
            let len = map.len();
            let ghost s0 = map@;
            let root = build_node(&mut map, 0, len, 0);
            proof {
                assert(s0.subrange(0, len as int) =~= s0);
                assert(map@.subrange(0, len as int) =~= map@);
            }
            KDTree { root: Some(root), items: map }
        }
    }

    /// Reports the index of every stored item whose box meets the
    /// query box `[lo, hi]`, each exactly once, skipping subtrees
    /// whose bounding box misses the query box.
    pub fn search(&self, lo: &[u64; 3], hi: &[u64; 3]) -> (res: Vec<usize>)
        requires
            self.wf(),
        ensures
            forall|k: int|
                0 <= k < res@.len() ==> #[trigger] res@[k] < self.items@.len() && elem_in_box(
                    self.items@[res@[k] as int],
                    *lo,
                    *hi,
                ),
            forall|idx: int|
                0 <= idx < self.items@.len() && elem_in_box(#[trigger] self.items@[idx], *lo, *hi)
                    ==> res@.contains(idx as usize),
            res@.no_duplicates(),
    {
        let mut out: Vec<usize> = Vec::new();
        if let Some(n) = &self.root {
            search_node(
                &*n,
                &self.items,
                lo,
                hi,
                &mut out,
                Ghost(0),
                Ghost(self.items@.len() as int),
                Ghost(0),
            );
        }
        proof {
            assert forall|idx: int|
                0 <= idx < self.items@.len() && elem_in_box(
                    #[trigger] self.items@[idx],
                    *lo,
                    *hi,
                ) implies out@.contains(idx as usize) by {
                if self.items@.len() > 0 {
                    let k = choose|k: int| 0 <= k < out@.len() && out@[k] == idx;
                    assert(out@[k] == idx as usize);
                }
            }
            assert forall|k1: int, k2: int|
                0 <= k1 < out@.len() && 0 <= k2 < out@.len() && k1 != k2 implies out@[k1]
                != out@[k2] by {}
        }
        out
    }
}

/// Some stored item's id is `id`: the tree holds the photon or
/// triangle of that index.
pub open spec fn has_id(items: Seq<Elem>, id: int) -> bool {
    exists|k: int| 0 <= k < items.len() && #[trigger] items[k].id == id
}

/// The photon map of one round: one degenerate-box item per photon
/// position, with the photon's index as its id, gathered into a
/// tree. Every photon is in the tree exactly once: each stored item
/// carries the position of the photon its id names, and every index
/// is some item's id.
#[verifier::loop_isolation(false)]
pub fn photon_tree(positions: &Vec<[u64; 3]>) -> (t: KDTree)
    ensures
        t.wf(),
        t.items@.len() == positions@.len(),
        forall|k: int|
            0 <= k < t.items@.len() ==> #[trigger] t.items@[k].id < positions@.len()
                && t.items@[k].min_pos == positions@[t.items@[k].id as int]
                && t.items@[k].max_pos == positions@[t.items@[k].id as int],
        forall|id: int| 0 <= id < positions@.len() ==> #[trigger] has_id(t.items@, id),
{
    let mut items: Vec<Elem> = Vec::new();
    let mut i: usize = 0;
    while i < positions.len()
        invariant
            i <= positions.len(),
            items@.len() == i,
            forall|k: int|
                #![trigger items@[k]]
                0 <= k < i ==> items@[k] == (Elem {
                    min_pos: positions@[k],
                    max_pos: positions@[k],
                    id: k as usize,
                }),
        decreases positions.len() - i,
    {
        let p = positions[i];
        items.push(photon_elem(p, i));
        i = i + 1;
    }
    let ghost s0 = items@;
    let t = KDTree::new(items);
    proof {
        lemma_tree_items_exchanged(s0, t.items@);
        assert forall|k: int| 0 <= k < t.items@.len() implies #[trigger] t.items@[k].id
            < positions@.len() && t.items@[k].min_pos == positions@[t.items@[k].id as int]
            && t.items@[k].max_pos == positions@[t.items@[k].id as int] by {
            assert(value_from_window(s0, t.items@, 0, s0.len() - 1, k));
            let k0 = choose|k0: int| 0 <= k0 <= s0.len() - 1 && t.items@[k] == s0[k0];
            assert(s0[k0].id == k0);
        }
        assert forall|id: int| 0 <= id < positions@.len() implies #[trigger] has_id(
            t.items@,
            id,
        ) by {
            assert(value_from_window(t.items@, s0, 0, s0.len() - 1, id));
            let k0 = choose|k0: int| 0 <= k0 <= s0.len() - 1 && s0[id] == t.items@[k0];
            assert(t.items@[k0].id == id);
        }
    }
    t
}

/// The mesh's lookup tree: one item per triangle of the list, whose
/// box is the smallest box around the triangle's three vertex
/// positions and whose id is the triangle's index in the list. Every
/// triangle is in the tree exactly once: each stored item carries
/// the box of the triangle its id names, and every index is some
/// item's id.
#[verifier::loop_isolation(false)]
pub fn mesh_tree(triangles: &Vec<[usize; 3]>, points: &Vec<[u64; 3]>) -> (t: KDTree)
    requires
        forall|i: int|
            0 <= i < triangles@.len() ==> #[trigger] triangles@[i][0] < points@.len()
                && triangles@[i][1] < points@.len() && triangles@[i][2] < points@.len(),
    ensures
        t.wf(),
        t.items@.len() == triangles@.len(),
        forall|k: int|
            0 <= k < t.items@.len() ==> #[trigger] t.items@[k].id < triangles@.len()
                && tri_box_ok(t.items@[k], triangles@[t.items@[k].id as int], points@),
        forall|id: int| 0 <= id < triangles@.len() ==> #[trigger] has_id(t.items@, id),
{
    let mut items: Vec<Elem> = Vec::new();
    let mut i: usize = 0;
    while i < triangles.len()
        invariant
            i <= triangles.len(),
            items@.len() == i,
            forall|k: int|
                #![trigger items@[k]]
                0 <= k < i ==> items@[k].id == k && tri_box_ok(
                    items@[k],
                    triangles@[k],
                    points@,
                ),
        decreases triangles.len() - i,
    {
        let tri = triangles[i];
        proof {
            assert(triangles@[i as int][0] < points@.len());
        }
        let ghost pre = items@;
        items.push(triangle_elem(tri, points, i));
        proof {
            assert(forall|k: int| 0 <= k < i ==> #[trigger] items@[k] == pre[k]);
            assert(items@[i as int].id == i);
            assert(tri_box_ok(items@[i as int], triangles@[i as int], points@));
        }
        i = i + 1;
    }
    let ghost s0 = items@;
    let t = KDTree::new(items);
    proof {
        lemma_tree_items_exchanged(s0, t.items@);
        assert forall|k: int| 0 <= k < t.items@.len() implies #[trigger] t.items@[k].id
            < triangles@.len() && tri_box_ok(
            t.items@[k],
            triangles@[t.items@[k].id as int],
            points@,
        ) by {
            assert(value_from_window(s0, t.items@, 0, s0.len() - 1, k));
            let k0 = choose|k0: int| 0 <= k0 <= s0.len() - 1 && t.items@[k] == s0[k0];
            assert(s0[k0].id == k0);
        }
        assert forall|id: int| 0 <= id < triangles@.len() implies #[trigger] has_id(
            t.items@,
            id,
        ) by {
            assert(value_from_window(t.items@, s0, 0, s0.len() - 1, id));
            let k0 = choose|k0: int| 0 <= k0 <= s0.len() - 1 && s0[id] == t.items@[k0];
            assert(t.items@[k0].id == id);
        }
    }
    t
}

/// A built tree holds the very items it was given, only rearranged:
/// each side's items all appear on the other side.
proof fn lemma_tree_items_exchanged(s0: Seq<Elem>, s1: Seq<Elem>)
    requires
        s1.len() == s0.len(),
        s1.to_multiset() == s0.to_multiset(),
    ensures
        forall|x: int| 0 <= x <= s0.len() - 1 ==> #[trigger] value_from_window(
            s0,
            s1,
            0,
            s0.len() - 1,
            x,
        ),
        forall|x: int| 0 <= x <= s0.len() - 1 ==> #[trigger] value_from_window(
            s1,
            s0,
            0,
            s0.len() - 1,
            x,
        ),
{
    if s0.len() > 0 {
        let r = s0.len() - 1;
        assert(s0.subrange(0, r + 1) =~= s0);
        assert(s1.subrange(0, r + 1) =~= s1);
        assert(window_preserved(s0, s1, 0, r));
        assert(window_preserved(s1, s0, 0, r));
        lemma_window_values(s0, s1, 0, r);
        lemma_window_values(s1, s0, 0, r);
    }
}

/// Walks the subtree over `items[l..r]` and appends to `out` the
/// index of every item of that range whose box meets `[lo, hi]`,
/// each exactly once; a subtree whose bounding box misses the query
/// box is skipped whole.
#[verifier::rlimit(60)]
fn search_node(
    n: &Node,
    items: &Vec<Elem>,
    lo: &[u64; 3],
    hi: &[u64; 3],
    out: &mut Vec<usize>,
    Ghost(l): Ghost<int>,
    Ghost(r): Ghost<int>,
    Ghost(axis): Ghost<int>,
)
    requires
        wf_node(*n, items@, l, r, axis),
        0 <= l,
        r <= items@.len(),
    ensures
        final(out)@.len() >= old(out)@.len(),
        forall|k: int| 0 <= k < old(out)@.len() ==> #[trigger] final(out)@[k] == old(out)@[k],
        forall|k: int|
            old(out)@.len() <= k < final(out)@.len() ==> l <= #[trigger] final(out)@[k] < r
                && elem_in_box(items@[final(out)@[k] as int], *lo, *hi),
        forall|idx: int|
            l <= idx < r && elem_in_box(#[trigger] items@[idx], *lo, *hi) ==> exists|k: int|
                old(out)@.len() <= k < final(out)@.len() && final(out)@[k] == idx,
        forall|k1: int, k2: int|
            old(out)@.len() <= k1 < k2 < final(out)@.len() ==> final(out)@[k1] != final(out)@[k2],
    decreases *n,
{
    if !boxes_meet_exec(&n.min_pos, &n.max_pos, lo, hi) {
        proof {
            assert forall|idx: int|
                l <= idx < r && elem_in_box(#[trigger] items@[idx], *lo, *hi) implies false by {
                assert(node_contains_elem(*n, items@[idx]));
                let d = choose|d: int|
                    0 <= d < 3 && !(lo[d] <= n.max_pos[d] && n.min_pos[d] <= hi[d]);
                assert(n.min_pos[d] <= items@[idx].min_pos[d]);
                assert(items@[idx].max_pos[d] <= n.max_pos[d]);
                assert(lo[d] <= items@[idx].max_pos[d] && items@[idx].min_pos[d] <= hi[d]);
            }
        }
        return;
    }
    let ghost m = (l + r) / 2;
    let ghost o0 = out@;
    let mid = n.item_index;
    let e = items[mid];
    if boxes_meet_exec(&e.min_pos, &e.max_pos, lo, hi) {
        out.push(mid);
    }
    let ghost o1 = out@;
    if let Some(c) = &n.lchild {
        search_node(&*c, items, lo, hi, out, Ghost(l), Ghost(m), Ghost(next_axis(axis)));
    }
    let ghost o2 = out@;
    if let Some(c) = &n.rchild {
        search_node(&*c, items, lo, hi, out, Ghost(m + 1), Ghost(r), Ghost(next_axis(axis)));
    }
    let ghost o3 = out@;
    proof {
        assert(forall|k: int| 0 <= k < o1.len() ==> #[trigger] o3[k] == o1[k]);
        assert forall|idx: int|
            l <= idx < r && elem_in_box(#[trigger] items@[idx], *lo, *hi) implies exists|k: int|
            o0.len() <= k < o3.len() && o3[k] == idx by {
            if idx == m {
                assert(o1[o0.len() as int] == mid);
                assert(o3[o0.len() as int] == mid);
            } else if idx < m {
                let k = choose|k: int| o1.len() <= k < o2.len() && o2[k] == idx;
                assert(o3[k] == idx);
            } else {
                let k = choose|k: int| o2.len() <= k < o3.len() && o3[k] == idx;
                assert(o3[k] == idx);
            }
        }
        assert forall|k: int|
            o0.len() <= k < o3.len() implies l <= #[trigger] o3[k] < r && elem_in_box(
            items@[o3[k] as int],
            *lo,
            *hi,
        ) by {
            if k < o1.len() {
                assert(o3[k] == o1[k]);
            } else if k < o2.len() {
                assert(o3[k] == o2[k]);
            }
        }
        assert forall|k1: int, k2: int|
            o0.len() <= k1 < k2 < o3.len() implies o3[k1] != o3[k2] by {
            if k1 < o1.len() && k2 < o1.len() {
            } else if k1 < o1.len() && o1.len() <= k2 < o2.len() {
                assert(o3[k1] == o1[k1] && o3[k2] == o2[k2]);
                assert(o3[k1] == m && o3[k2] < m);
            } else if k1 < o1.len() {
                assert(o3[k1] == m && o3[k2] > m);
            } else if k1 < o2.len() && k2 < o2.len() {
                assert(o3[k1] == o2[k1] && o3[k2] == o2[k2]);
            } else if k1 < o2.len() {
                assert(o3[k1] == o2[k1]);
                assert(o3[k1] < m + 1 && o3[k2] > m);
            } else {
            }
        }
    }
}

/// Whether the boxes `[bmin, bmax]` and `[lo, hi]` meet on every axis.
fn boxes_meet_exec(bmin: &[u64; 3], bmax: &[u64; 3], lo: &[u64; 3], hi: &[u64; 3]) -> (r: bool)
    ensures
        r == boxes_meet(*bmin, *bmax, *lo, *hi),
{
    let m0 = lo[0] <= bmax[0] && bmin[0] <= hi[0];
    let m1 = lo[1] <= bmax[1] && bmin[1] <= hi[1];
    let m2 = lo[2] <= bmax[2] && bmin[2] <= hi[2];
    let res = m0 && m1 && m2;
    proof {
        if res {
            assert forall|d: int| 0 <= d < 3 implies lo[d] <= bmax[d] && #[trigger] bmin[d]
                <= hi[d] by {
                if d == 0 {
                } else if d == 1 {
                } else {
                }
            }
        }
    }
    res
}

/// The brute-force counterpart of `KDTree::search`: reports, in
/// increasing order, the index of every item whose box meets the
/// query box `[lo, hi]`.
pub fn scan_box(items: &Vec<Elem>, lo: &[u64; 3], hi: &[u64; 3]) -> (res: Vec<usize>)
    ensures
        forall|k: int|
            0 <= k < res@.len() ==> #[trigger] res@[k] < items@.len() && elem_in_box(
                items@[res@[k] as int],
                *lo,
                *hi,
            ),
        forall|idx: int|
            0 <= idx < items@.len() && elem_in_box(#[trigger] items@[idx], *lo, *hi)
                ==> res@.contains(idx as usize),
        forall|k1: int, k2: int| 0 <= k1 < k2 < res@.len() ==> res@[k1] < res@[k2],
        res@.no_duplicates(),
{
    let mut res: Vec<usize> = Vec::new();
    let mut i: usize = 0;
    while i < items.len()
        invariant
            i <= items.len(),
            forall|k: int|
                0 <= k < res@.len() ==> #[trigger] res@[k] < i && elem_in_box(
                    items@[res@[k] as int],
                    *lo,
                    *hi,
                ),
            forall|idx: int|
                0 <= idx < i && elem_in_box(#[trigger] items@[idx], *lo, *hi) ==> res@.contains(
                    idx as usize,
                ),
            forall|k1: int, k2: int| 0 <= k1 < k2 < res@.len() ==> res@[k1] < res@[k2],
        decreases items.len() - i,
    {
        let e = items[i];
        let ghost pre = res@;
        if boxes_meet_exec(&e.min_pos, &e.max_pos, lo, hi) {
            res.push(i);
        }
        proof {
            assert forall|idx: int|
                0 <= idx < i + 1 && elem_in_box(#[trigger] items@[idx], *lo, *hi)
                implies res@.contains(idx as usize) by {
                if idx < i {
                    let k = choose|k: int| 0 <= k < pre.len() && pre[k] == idx as usize;
                    assert(res@[k] == idx as usize);
                } else {
                    assert(res@[res@.len() - 1] == idx as usize);
                }
            }
        }
        i = i + 1;
    }
    proof {
        assert forall|k1: int, k2: int|
            0 <= k1 < res@.len() && 0 <= k2 < res@.len() && k1 != k2 implies res@[k1]
            != res@[k2] by {}
    }
    res
}

/// Two duplicate-free index lists with the same members have the same
/// length. With the contracts of `KDTree::search` and `scan_box`,
/// this says the tree search reports exactly as many items as the
/// brute-force scan of the same item vector.
pub proof fn lemma_same_members_same_len(s: Seq<usize>, t: Seq<usize>)
    requires
        s.no_duplicates(),
        t.no_duplicates(),
        forall|v: usize| s.contains(v) <==> t.contains(v),
    ensures
        s.len() == t.len(),
{
    broadcast use vstd::set::group_set_axioms;

    s.unique_seq_to_set();
    t.unique_seq_to_set();
    assert(s.to_set() =~= t.to_set());
}

} // verus!
