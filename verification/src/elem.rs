//! Items stored in the KD trees.
//!
//! A tree item is an axis-aligned box in key space together with the
//! index of the photon or triangle it stands for. Coordinates are
//! `u64` order keys: any strictly monotone injection of the scene's
//! coordinates will do, because the trees only ever compare keys.

use vstd::prelude::*;
use core::cmp::Ordering;

verus! {

/// An item of a KD tree: a bounding box in key space and the index of
/// the photon or triangle it refers to. A photon is a degenerate box
/// with `min_pos == max_pos`.
#[derive(Clone, Copy)]
pub struct Elem {
    pub min_pos: [u64; 3],
    pub max_pos: [u64; 3],
    pub id: usize,
}

/// The coordinate a tree level at `axis` orders its items by: the
/// box's minimum on that axis (a photon's position).
pub open spec fn key(e: Elem, axis: int) -> u64 {
    e.min_pos[axis]
}

/// An item for a photon at position `pos`: the degenerate box.
pub fn photon_elem(pos: [u64; 3], id: usize) -> (e: Elem)
    ensures
        e.min_pos == pos,
        e.max_pos == pos,
        e.id == id,
{
    Elem { min_pos: pos, max_pos: pos, id }
}

/// The componentwise smaller of two corners.
pub fn min3(a: &[u64; 3], b: &[u64; 3]) -> (r: [u64; 3])
    ensures
        forall|d: int| #![trigger r[d]] 0 <= d < 3 ==> r[d] <= a[d] && r[d] <= b[d],
        forall|d: int| #![trigger r[d]] 0 <= d < 3 ==> r[d] == a[d] || r[d] == b[d],
{
    [
        if a[0] <= b[0] {
            a[0]
        } else {
            b[0]
        },
        if a[1] <= b[1] {
            a[1]
        } else {
            b[1]
        },
        if a[2] <= b[2] {
            a[2]
        } else {
            b[2]
        },
    ]
}

/// The componentwise larger of two corners.
pub fn max3(a: &[u64; 3], b: &[u64; 3]) -> (r: [u64; 3])
    ensures
        forall|d: int| #![trigger r[d]] 0 <= d < 3 ==> r[d] >= a[d] && r[d] >= b[d],
        forall|d: int| #![trigger r[d]] 0 <= d < 3 ==> r[d] == a[d] || r[d] == b[d],
{
    [
        if a[0] >= b[0] {
            a[0]
        } else {
            b[0]
        },
        if a[1] >= b[1] {
            a[1]
        } else {
            b[1]
        },
        if a[2] >= b[2] {
            a[2]
        } else {
            b[2]
        },
    ]
}

/// The box `[e.min_pos, e.max_pos]` contains the point `p`.
pub open spec fn elem_covers_point(e: Elem, p: [u64; 3]) -> bool {
    forall|d: int| #![trigger p[d]] 0 <= d < 3 ==> e.min_pos[d] <= p[d] && p[d] <= e.max_pos[d]
}

/// The item `e` stands for the triangle `tri` of a mesh whose vertex
/// positions are `points`: its box is the componentwise smallest box
/// around the triangle's three corners.
pub open spec fn tri_box_ok(e: Elem, tri: [usize; 3], points: Seq<[u64; 3]>) -> bool {
    &&& elem_covers_point(e, points[tri[0] as int])
    &&& elem_covers_point(e, points[tri[1] as int])
    &&& elem_covers_point(e, points[tri[2] as int])
    &&& forall|d: int|
        #![trigger e.min_pos[d]]
        0 <= d < 3 ==> (e.min_pos[d] == points[tri[0] as int][d] || e.min_pos[d]
            == points[tri[1] as int][d] || e.min_pos[d] == points[tri[2] as int][d])
    &&& forall|d: int|
        #![trigger e.max_pos[d]]
        0 <= d < 3 ==> (e.max_pos[d] == points[tri[0] as int][d] || e.max_pos[d]
            == points[tri[1] as int][d] || e.max_pos[d] == points[tri[2] as int][d])
}

/// The tree item for the triangle whose corners are the points
/// `points[vertices[0]]`, `points[vertices[1]]`, `points[vertices[2]]`:
/// its box is the componentwise smallest box around the three corners,
/// and `id` says which triangle of the mesh it stands for.
pub fn triangle_elem(vertices: [usize; 3], points: &Vec<[u64; 3]>, id: usize) -> (e: Elem)
    requires
        vertices[0] < points@.len(),
        vertices[1] < points@.len(),
        vertices[2] < points@.len(),
    ensures
        e.id == id,
        tri_box_ok(e, vertices, points@),
{
    let p0 = points[vertices[0]];
    let p1 = points[vertices[1]];
    let p2 = points[vertices[2]];
    let min_pos = min3(&min3(&p0, &p1), &p2);
    let max_pos = max3(&max3(&p0, &p1), &p2);
    Elem { min_pos, max_pos, id }
}

/// Orders photon items along one of the three axes.
pub struct PhotonCompare {
    pub dimension: usize,
}

impl PhotonCompare {
    /// A comparator for the given axis.
    pub fn new(dimension: usize) -> (c: PhotonCompare)
        ensures
            c.dimension == dimension,
    {
        PhotonCompare { dimension }
    }

    /// Compares two photon items by their position on the
    /// comparator's axis.
    pub fn compare(&self, a: &Elem, b: &Elem) -> (o: Ordering)
        requires
            self.dimension < 3,
        ensures
            o == Ordering::Less <==> key(*a, self.dimension as int) < key(
                *b,
                self.dimension as int,
            ),
            o == Ordering::Equal <==> key(*a, self.dimension as int) == key(
                *b,
                self.dimension as int,
            ),
            o == Ordering::Greater <==> key(*a, self.dimension as int) > key(
                *b,
                self.dimension as int,
            ),
    {
        cmp_coord(a.min_pos[self.dimension], b.min_pos[self.dimension])
    }
}

/// Orders triangle items along one of the three axes.
pub struct TriangleCompare {
    pub dimension: u8,
}

impl TriangleCompare {
    /// A comparator for the given axis.
    pub fn new(dimension: u8) -> (c: TriangleCompare)
        ensures
            c.dimension == dimension,
    {
        TriangleCompare { dimension }
    }

    /// Compares two triangle items by their box's minimum corner on
    /// the comparator's axis.
    pub fn compare(&self, a: &Elem, b: &Elem) -> (o: Ordering)
        requires
            self.dimension < 3,
        ensures
            o == Ordering::Less <==> key(*a, self.dimension as int) < key(
                *b,
                self.dimension as int,
            ),
            o == Ordering::Equal <==> key(*a, self.dimension as int) == key(
                *b,
                self.dimension as int,
            ),
            o == Ordering::Greater <==> key(*a, self.dimension as int) > key(
                *b,
                self.dimension as int,
            ),
    {
        cmp_coord(a.min_pos[self.dimension as usize], b.min_pos[self.dimension as usize])
    }
}

/// The order of two coordinates.
fn cmp_coord(x: u64, y: u64) -> (o: Ordering)
    ensures
        o == Ordering::Less <==> x < y,
        o == Ordering::Equal <==> x == y,
        o == Ordering::Greater <==> x > y,
{
    if x < y {
        Ordering::Less
    } else if x > y {
        Ordering::Greater
    } else {
        Ordering::Equal
    }
}

} // verus!
