//! Verified core of a stochastic progressive photon mapping renderer.
//!
//! The floating-point shell (vector arithmetic, BSDF sampling, image
//! encoding) lives outside the library; what is verified here is the
//! discrete heart of the renderer: median selection, the axis-cycled
//! KD trees with their bounding-box invariants, box range search,
//! the decision logic of the photon and eye trace loops, the
//! nearest-hit and sphere-root choices of the primitives, the scene
//! grammar's dispatch, and the column decomposition of the image.
//!
//! Geometry enters the library as order keys: each coordinate is a
//! `u64` whose ordering matches the ordering of the underlying
//! coordinate (callers map coordinates through any strictly monotone
//! injection). Everything the trees decide — medians, bounding boxes,
//! box overlap — depends on the order of coordinates alone, so the
//! verified statements carry over to the geometry unchanged.

pub mod band;
pub mod elem;
pub mod geom;
pub mod scene;
pub mod select;
pub mod trace;
pub mod tree;
