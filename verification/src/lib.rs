//! The discrete core of a recursive path tracer.
//!
//! Every real number the renderer handles is an IEEE-754 binary64 value, and
//! this crate carries each one as its 64-bit pattern ([`scalar::Scalar`]).
//! What can be decided exactly on bit patterns is decided and proved here:
//! comparisons, sign changes, truncation to integers, the selection of the
//! nearest intersection, the scattering rules' branches, the bounded shading
//! recursion and the byte format of the image. Rounding arithmetic and random
//! draws are the caller's business; their results enter as arguments.
use vstd::prelude::*;

pub mod camera;
pub mod color;
pub mod hittable;
pub mod hittable_list;
pub mod interval;
pub mod material;
pub mod ray;
pub mod scalar;
pub mod sphere;
pub mod vec3;

verus! {

} // verus!
