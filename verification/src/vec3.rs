//! Triples of numbers: points, directions and colours alike.
use crate::scalar::Scalar;
use vstd::prelude::*;

verus! {

/// The pattern of `1e-8`: a component below it in magnitude counts as zero.
pub const NEAR_ZERO_BITS: u64 = 0x3E45_798E_E230_8C3A;

/// The pattern of `1e-160`: a sample whose squared length is not above it is
/// too short to be normalised safely.
pub const MIN_LENGTH_SQUARED_BITS: u64 = 0x1EB6_7E9C_127B_6E74;

/// Three components, `(x, y, z)`.
#[derive(Clone, Copy, Debug)]
pub struct Vec3(pub Scalar, pub Scalar, pub Scalar);

pub type Point3 = Vec3;

impl Vec3 {
    /// The vector with every component's sign flipped.
    pub open spec fn negated(self) -> Vec3 {
        Vec3(self.0.negated(), self.1.negated(), self.2.negated())
    }

    /// Whether every component's magnitude is below `1e-8`.
    pub open spec fn spec_near_zero(self) -> bool {
        let s = Scalar { bits: NEAR_ZERO_BITS };
        self.0.absolute().below(s) && self.1.absolute().below(s) && self.2.absolute().below(s)
    }

    /// Whether a squared length lies in `(1e-160, 1]`.
    pub open spec fn spec_unit_sample_accepted(length_squared: Scalar) -> bool {
        Scalar { bits: MIN_LENGTH_SQUARED_BITS }.below(length_squared) && length_squared.at_most(
            Scalar { bits: crate::scalar::ONE_BITS },
        )
    }

    pub fn new(e0: Scalar, e1: Scalar, e2: Scalar) -> (r: Vec3)
        ensures
            r == Vec3(e0, e1, e2),
    {
        Vec3(e0, e1, e2)
    }

    pub fn x(&self) -> (r: Scalar)
        ensures
            r == self.0,
    {
        self.0
    }

    pub fn y(&self) -> (r: Scalar)
        ensures
            r == self.1,
    {
        self.1
    }

    pub fn z(&self) -> (r: Scalar)
        ensures
            r == self.2,
    {
        self.2
    }

    /// The opposite vector.
    pub fn neg(&self) -> (r: Vec3)
        ensures
            r == self.negated(),
    {
        Vec3(self.0.neg(), self.1.neg(), self.2.neg())
    }

    /// Whether the vector is too short to serve as a direction.
    pub fn near_zero(&self) -> (r: bool)
        ensures
            r == self.spec_near_zero(),
    {
        let s = Scalar::from_bits(NEAR_ZERO_BITS);
        self.0.abs().lt(&s) && self.1.abs().lt(&s) && self.2.abs().lt(&s)
    }

    /// Whether a point drawn from the cube `[-1, 1]^3` may be normalised into
    /// a random unit vector: its squared length must lie in `(1e-160, 1]`.
    /// Points outside the unit ball would crowd the cube's corners, and a
    /// shorter one may have lost its length to underflow.
    pub fn unit_sample_accepted(length_squared: Scalar) -> (r: bool)
        ensures
            r == Vec3::spec_unit_sample_accepted(length_squared),
    {
        Scalar::from_bits(MIN_LENGTH_SQUARED_BITS).lt(&length_squared) && length_squared.le(
            &Scalar::one(),
        )
    }

    /// Whether a point drawn from the square `[-1, 1]^2` lies in the open unit
    /// disk.
    pub fn disk_sample_accepted(length_squared: Scalar) -> (r: bool)
        ensures
            r == length_squared.below(Scalar { bits: crate::scalar::ONE_BITS }),
    {
        length_squared.lt(&Scalar::one())
    }

    /// The unit vector `on_unit_sphere` turned to the side of a normal, given
    /// `facing`, the dot product of the two: kept where that is positive,
    /// reversed otherwise.
    pub fn random_on_hemisphere(on_unit_sphere: Vec3, facing: Scalar) -> (r: Vec3)
        ensures
            r == if (Scalar { bits: 0 }).below(facing) {
                on_unit_sphere
            } else {
                on_unit_sphere.negated()
            },
    {
        if facing.gt(&Scalar::zero()) {
            on_unit_sphere
        } else {
            on_unit_sphere.neg()
        }
    }
}

impl Default for Vec3 {
    fn default() -> (r: Vec3)
        ensures
            r == Vec3(Scalar { bits: 0 }, Scalar { bits: 0 }, Scalar { bits: 0 }),
    {
        Vec3(Scalar::zero(), Scalar::zero(), Scalar::zero())
    }
}

} // verus!
