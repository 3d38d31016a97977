use sppm::elem::{photon_elem, triangle_elem, Elem, PhotonCompare, TriangleCompare};
use sppm::tree::{mesh_tree, photon_tree, scan_box, KDTree, Node};
use std::cmp::Ordering;

fn next_lcg(state: &mut u64) -> u64 {
    *state = state.wrapping_mul(6364136223846793005).wrapping_add(1442695040888963407);
    *state >> 16
}

fn lcg_photons(n: usize, seed: u64) -> Vec<Elem> {
    let mut state = seed;
    let mut v = Vec::new();
    for id in 0..n {
        let x = next_lcg(&mut state) % 256;
        let y = next_lcg(&mut state) % 256;
        let z = next_lcg(&mut state) % 256;
        v.push(photon_elem([x, y, z], id));
    }
    v
}

/// Checks the box invariant at every node: the node's box contains
/// the box of its own item and the boxes of both children. Returns
/// the number of nodes seen.
fn check_boxes(node: &Node, items: &[Elem]) -> usize {
    let e = &items[node.item_index];
    for d in 0..3 {
        assert!(node.min_pos[d] <= e.min_pos[d]);
        assert!(e.max_pos[d] <= node.max_pos[d]);
    }
    let mut count = 1;
    if let Some(c) = &node.lchild {
        for d in 0..3 {
            assert!(node.min_pos[d] <= c.min_pos[d]);
            assert!(c.max_pos[d] <= node.max_pos[d]);
        }
        count += check_boxes(c, items);
    }
    if let Some(c) = &node.rchild {
        for d in 0..3 {
            assert!(node.min_pos[d] <= c.min_pos[d]);
            assert!(c.max_pos[d] <= node.max_pos[d]);
        }
        count += check_boxes(c, items);
    }
    count
}

/// Checks the median ordering at every node: over the node's range
/// the items before the median compare no greater on the node's axis
/// and the items after it no smaller.
fn check_medians(node: &Node, items: &[Elem], l: usize, r: usize, axis: usize) {
    let mid = (l + r) / 2;
    assert_eq!(node.item_index, mid);
    for i in l..mid {
        assert!(items[i].min_pos[axis] <= items[mid].min_pos[axis]);
    }
    for i in mid + 1..r {
        assert!(items[mid].min_pos[axis] <= items[i].min_pos[axis]);
    }
    let next = (axis + 1) % 3;
    if let Some(c) = &node.lchild {
        check_medians(c, items, l, mid, next);
    } else {
        assert_eq!(l, mid);
    }
    if let Some(c) = &node.rchild {
        check_medians(c, items, mid + 1, r, next);
    } else {
        assert_eq!(mid + 1, r);
    }
}

#[test]
fn kdtree_build_box_invariant() {
    let tree = KDTree::new(lcg_photons(257, 21));
    let root = tree.root.as_ref().unwrap();
    let n = check_boxes(root, &tree.items);
    assert_eq!(n, 257);
}

#[test]
fn kdtree_build_median_invariant() {
    let tree = KDTree::new(lcg_photons(100, 8));
    let root = tree.root.as_ref().unwrap();
    check_medians(root, &tree.items, 0, 100, 0);
}

#[test]
fn kdtree_build_keeps_items() {
    let items = lcg_photons(64, 5);
    let tree = KDTree::new(items.clone());
    assert_eq!(tree.items.len(), 64);
    let mut ids: Vec<usize> = tree.items.iter().map(|e| e.id).collect();
    ids.sort();
    assert_eq!(ids, (0..64).collect::<Vec<usize>>());
}

#[test]
fn kdtree_empty() {
    let tree = KDTree::new(Vec::new());
    assert!(tree.root.is_none());
    let found = tree.search(&[0, 0, 0], &[u64::MAX, u64::MAX, u64::MAX]);
    assert!(found.is_empty());
}

#[test]
fn kdtree_search_matches_scan() {
    let tree = KDTree::new(lcg_photons(300, 77));
    let queries = [
        ([0u64, 0, 0], [255u64, 255, 255]),
        ([10, 20, 30], [90, 120, 200]),
        ([100, 100, 100], [140, 140, 140]),
        ([200, 0, 0], [255, 50, 255]),
        ([5, 5, 5], [5, 5, 5]),
    ];
    for (lo, hi) in queries {
        let mut fast = tree.search(&lo, &hi);
        let slow = scan_box(&tree.items, &lo, &hi);
        fast.sort();
        assert_eq!(fast, slow);
    }
}

#[test]
fn kdtree_search_reports_in_box_only() {
    let tree = KDTree::new(lcg_photons(200, 13));
    let lo = [50u64, 60, 70];
    let hi = [150u64, 160, 170];
    let found = tree.search(&lo, &hi);
    for idx in &found {
        let e = &tree.items[*idx];
        for d in 0..3 {
            assert!(lo[d] <= e.min_pos[d] && e.min_pos[d] <= hi[d]);
        }
    }
}

#[test]
fn kdtree_search_count_matches_brute_force() {
    let tree = KDTree::new(lcg_photons(211, 31));
    let lo = [0u64, 0, 0];
    let hi = [127u64, 255, 255];
    let found = tree.search(&lo, &hi);
    let mut by_hand = 0;
    for e in &tree.items {
        if (0..3).all(|d| lo[d] <= e.min_pos[d] && e.min_pos[d] <= hi[d]) {
            by_hand += 1;
        }
    }
    assert_eq!(found.len(), by_hand);
}

#[test]
fn kdtree_single_item() {
    let tree = KDTree::new(vec![photon_elem([7, 8, 9], 0)]);
    assert_eq!(tree.search(&[7, 8, 9], &[7, 8, 9]), vec![0]);
    assert_eq!(tree.search(&[0, 0, 0], &[6, 20, 20]), Vec::<usize>::new());
}

#[test]
fn kdtree_extreme_keys() {
    let items = vec![
        photon_elem([0, 0, 0], 0),
        photon_elem([u64::MAX, u64::MAX, u64::MAX], 1),
        photon_elem([u64::MAX / 2, 0, u64::MAX], 2),
    ];
    let tree = KDTree::new(items);
    let all = tree.search(&[0, 0, 0], &[u64::MAX, u64::MAX, u64::MAX]);
    assert_eq!(all.len(), 3);
    let top = tree.search(
        &[u64::MAX, u64::MAX, u64::MAX],
        &[u64::MAX, u64::MAX, u64::MAX],
    );
    assert_eq!(top.len(), 1);
    assert_eq!(tree.items[top[0]].id, 1);
}

#[test]
fn triangle_elem_takes_corner_extremes() {
    let points = vec![[10u64, 5, 30], [2, 50, 31], [7, 9, 29]];
    let e = triangle_elem([0, 1, 2], &points, 4);
    assert_eq!(e.id, 4);
    assert_eq!(e.min_pos, [2, 5, 29]);
    assert_eq!(e.max_pos, [10, 50, 31]);
}

#[test]
fn mesh_tree_over_triangles_matches_scan() {
    let mut state = 17u64;
    let mut points: Vec<[u64; 3]> = Vec::new();
    for _ in 0..60 {
        points.push([
            next_lcg(&mut state) % 1000,
            next_lcg(&mut state) % 1000,
            next_lcg(&mut state) % 1000,
        ]);
    }
    let mut tris: Vec<Elem> = Vec::new();
    for id in 0..50 {
        let a = (next_lcg(&mut state) % 60) as usize;
        let b = (next_lcg(&mut state) % 60) as usize;
        let c = (next_lcg(&mut state) % 60) as usize;
        tris.push(triangle_elem([a, b, c], &points, id));
    }
    let tree = KDTree::new(tris);
    let lo = [100u64, 100, 100];
    let hi = [700u64, 700, 700];
    let mut fast = tree.search(&lo, &hi);
    let slow = scan_box(&tree.items, &lo, &hi);
    fast.sort();
    assert_eq!(fast, slow);
}

#[test]
fn photon_tree_keeps_every_photon() {
    let mut state = 42u64;
    let mut positions: Vec<[u64; 3]> = Vec::new();
    for _ in 0..97 {
        positions.push([
            next_lcg(&mut state) % 512,
            next_lcg(&mut state) % 512,
            next_lcg(&mut state) % 512,
        ]);
    }
    let tree = photon_tree(&positions);
    assert_eq!(tree.items.len(), 97);
    let mut seen = vec![false; 97];
    for e in &tree.items {
        assert_eq!(e.min_pos, positions[e.id]);
        assert_eq!(e.max_pos, positions[e.id]);
        assert!(!seen[e.id]);
        seen[e.id] = true;
    }
    assert!(seen.iter().all(|&s| s));
}

#[test]
fn mesh_tree_keeps_every_triangle() {
    let points = vec![[0u64, 0, 0], [10, 0, 0], [0, 10, 0], [0, 0, 10], [10, 10, 10]];
    let triangles = vec![[0usize, 1, 2], [1, 2, 3], [2, 3, 4], [0, 3, 4]];
    let tree = mesh_tree(&triangles, &points);
    assert_eq!(tree.items.len(), 4);
    let mut seen = vec![false; 4];
    for e in &tree.items {
        let tri = triangles[e.id];
        for d in 0..3 {
            for &vi in &tri {
                assert!(e.min_pos[d] <= points[vi][d] && points[vi][d] <= e.max_pos[d]);
            }
        }
        assert!(!seen[e.id]);
        seen[e.id] = true;
    }
    assert!(seen.iter().all(|&s| s));
}

#[test]
fn photon_compare_orders_by_axis() {
    let a = photon_elem([1, 9, 4], 0);
    let b = photon_elem([2, 3, 4], 1);
    let c0 = PhotonCompare::new(0);
    let c1 = PhotonCompare::new(1);
    let c2 = PhotonCompare::new(2);
    assert_eq!(c0.compare(&a, &b), Ordering::Less);
    assert_eq!(c1.compare(&a, &b), Ordering::Greater);
    assert_eq!(c2.compare(&a, &b), Ordering::Equal);
    assert_eq!(c0.dimension, 0);
}

#[test]
fn triangle_compare_orders_by_box_minimum() {
    let points = vec![[0u64, 0, 0], [4, 4, 4], [2, 6, 1]];
    let s = triangle_elem([0, 1, 2], &points, 0);
    let t = triangle_elem([1, 2, 2], &points, 1);
    let c0 = TriangleCompare::new(0);
    let c1 = TriangleCompare::new(1);
    assert_eq!(c0.compare(&s, &t), Ordering::Less);
    assert_eq!(c1.compare(&s, &t), Ordering::Less);
    assert_eq!(c1.compare(&t, &t), Ordering::Equal);
}
