//! The order decisions of the geometric primitives.
//!
//! Which of two hits a composite keeps and which root of its
//! quadratic a sphere reports depend only on how the parametric
//! distances compare, so they are decided here over order keys:
//! `u64` values whose ordering matches the ordering of the
//! distances. The primitives compute the distances, map them, and do
//! what the decision says.

use vstd::prelude::*;

verus! {

/// The nearest-hit choice that composites fold over their children:
/// given the parametric distances of two optional hits as order
/// keys, whether the first hit is the one to keep. The second is
/// kept when there is no first hit, or when its distance is no
/// larger — so a fold of this choice returns the last of the
/// nearest hits.
pub fn keep_first_hit(a: Option<u64>, b: Option<u64>) -> (keep: bool)
    ensures
        keep <==> (b is None || (a is Some && a.unwrap() < b.unwrap())),
{
    match b {
        None => true,
        Some(tb) => match a {
            None => false,
            Some(ta) => ta < tb,
        },
    }
}

/// The root of its quadratic that a sphere reports, among the two
/// parametric distances `t1 <= t2`: the smaller root when it is at
/// or past `tmin`, else the larger when that one is, else none.
pub fn select_sphere_root(t1: u64, t2: u64, tmin: u64) -> (r: Option<bool>)
    ensures
        r == Some(true) <==> t1 >= tmin,
        r == Some(false) <==> t1 < tmin && t2 >= tmin,
        r is None <==> t1 < tmin && t2 < tmin,
{
    if t1 >= tmin {
        Some(true)
    } else if t2 >= tmin {
        Some(false)
    } else {
        None
    }
}

} // verus!
