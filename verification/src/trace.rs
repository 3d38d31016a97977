//! The decisions of the two trace loops.
//!
//! The loops themselves touch geometry: they intersect rays, store
//! photons and sample materials. What they decide at each step —
//! record or not, sample or not, with or without russian roulette —
//! depends only on the depth counter and on what kind of material
//! the ray struck, and is fixed here. The driver performs the
//! intersection, asks, and does exactly what the decision says.

use vstd::prelude::*;
use crate::scene::MaterialType;

verus! {

/// A path ends after this many bounces.
pub const DEPTH_CAP: u32 = 100;

/// The bounce at which a photon path starts playing russian roulette.
pub const RR_DEPTH_PHOTON: u32 = 10;

/// The bounce at which an eye path starts playing russian roulette.
pub const RR_DEPTH_EYE: u32 = 20;

/// What one step of the photon trace loop does with a ray at depth
/// `depth` that struck a surface of the given material (`None`: no
/// surface was struck).
pub struct PhotonDecision {
    /// Store a photon at the hit.
    pub record: bool,
    /// Call the material's sampler to scatter the ray.
    pub sample: bool,
    /// The sampler plays russian roulette.
    pub roulette: bool,
}

/// One step of the photon trace loop: while the depth cap is not
/// passed and a surface was struck, a photon is recorded exactly at
/// diffuse hits and the material is sampled, with russian roulette
/// from the bounce `RR_DEPTH_PHOTON` on; otherwise the path ends.
pub fn photon_step(depth: u32, hit: Option<MaterialType>) -> (d: PhotonDecision)
    ensures
        d.record <==> depth <= DEPTH_CAP && hit == Some(MaterialType::DIFFUSE),
        d.sample <==> depth <= DEPTH_CAP && hit is Some,
        d.roulette <==> depth <= DEPTH_CAP && hit is Some && depth + 1 >= RR_DEPTH_PHOTON,
{
    if depth > DEPTH_CAP {
        PhotonDecision { record: false, sample: false, roulette: false }
    } else {
        match hit {
            None => PhotonDecision { record: false, sample: false, roulette: false },
            Some(m) => {
                let record = match m {
                    MaterialType::DIFFUSE => true,
                    MaterialType::SPECULAR => false,
                    MaterialType::REFRACTION => false,
                };
                PhotonDecision { record, sample: true, roulette: depth + 1 >= RR_DEPTH_PHOTON }
            },
        }
    }
}

/// What one step of the eye trace loop does with a ray at depth
/// `depth` that struck a surface of the given material (`None`: no
/// surface was struck).
pub struct EyeDecision {
    /// The hit is the pixel's measurement point: query the photon
    /// map there and end the path.
    pub gather: bool,
    /// Call the material's sampler to scatter the ray.
    pub sample: bool,
    /// The sampler plays russian roulette.
    pub roulette: bool,
}

/// One step of the eye trace loop: while the depth cap is not passed
/// and a surface was struck, a diffuse hit becomes the measurement
/// point and ends the path, and a specular or refractive hit is
/// sampled onward, with russian roulette from the bounce
/// `RR_DEPTH_EYE` on; otherwise the path ends.
pub fn eye_step(depth: u32, hit: Option<MaterialType>) -> (d: EyeDecision)
    ensures
        d.gather <==> depth <= DEPTH_CAP && hit == Some(MaterialType::DIFFUSE),
        d.sample <==> depth <= DEPTH_CAP && (hit == Some(MaterialType::SPECULAR) || hit == Some(
            MaterialType::REFRACTION,
        )),
        d.roulette <==> depth <= DEPTH_CAP && (hit == Some(MaterialType::SPECULAR) || hit == Some(
            MaterialType::REFRACTION,
        )) && depth + 1 >= RR_DEPTH_EYE,
{
    if depth > DEPTH_CAP {
        EyeDecision { gather: false, sample: false, roulette: false }
    } else {
        match hit {
            None => EyeDecision { gather: false, sample: false, roulette: false },
            Some(m) => match m {
                MaterialType::DIFFUSE => EyeDecision {
                    gather: true,
                    sample: false,
                    roulette: false,
                },
                MaterialType::SPECULAR | MaterialType::REFRACTION => EyeDecision {
                    gather: false,
                    sample: true,
                    roulette: depth + 1 >= RR_DEPTH_EYE,
                },
            },
        }
    }
}

} // verus!
