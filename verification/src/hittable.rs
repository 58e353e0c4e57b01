//! What an intersection query reports, and what can be queried.
use crate::interval::Interval;
use crate::material::MaterialType;
use crate::ray::Ray;
use crate::scalar::Scalar;
use crate::vec3::{Point3, Vec3};
use vstd::prelude::*;

verus! {

/// The answer to an intersection query. While `is_hit` is false the other
/// fields mean nothing.
#[derive(Clone, Copy, Debug)]
pub struct HitRecord {
    /// Where the ray meets the surface.
    pub p: Point3,
    /// The unit normal at that point, turned against the ray.
    pub normal: Vec3,
    /// The ray parameter of the point.
    pub t: Scalar,
    /// Whether the ray comes from outside the surface.
    pub front_face: bool,
    pub is_hit: bool,
    /// The material of the surface; none in a record that reports a miss.
    pub mat: Option<MaterialType>,
}

impl HitRecord {
    /// The record of a miss.
    pub open spec fn spec_miss() -> HitRecord {
        let zero = Vec3(Scalar { bits: 0 }, Scalar { bits: 0 }, Scalar { bits: 0 });
        HitRecord {
            p: zero,
            normal: zero,
            t: Scalar { bits: 0 },
            front_face: false,
            is_hit: false,
            mat: None,
        }
    }

    /// Orients the normal. `facing` is the dot product of the ray's direction
    /// and `outward_normal`: where it is negative the ray comes from outside
    /// and the normal stays; otherwise the ray comes from inside (or grazes)
    /// and the normal is reversed, so that the stored normal always opposes
    /// the ray.
    pub fn self_face_normal(&mut self, facing: Scalar, outward_normal: Vec3)
        ensures
            final(self).front_face == facing.below(Scalar { bits: 0 }),
            final(self).normal == if facing.below(Scalar { bits: 0 }) {
                outward_normal
            } else {
                outward_normal.negated()
            },
            final(self).p == old(self).p,
            final(self).t == old(self).t,
            final(self).is_hit == old(self).is_hit,
            final(self).mat == old(self).mat,
    {
        let front_face = facing.lt(&Scalar::zero());
        self.normal = if front_face {
            outward_normal
        } else {
            outward_normal.neg()
        };
        self.front_face = front_face;
    }

    /// What to keep after one more query: the candidate if it is a hit, else
    /// what was held before.
    pub fn closer(self, candidate: HitRecord) -> (r: HitRecord)
        ensures
            r == if candidate.is_hit {
                candidate
            } else {
                self
            },
    {
        if candidate.is_hit {
            candidate
        } else {
            self
        }
    }
}

impl Default for HitRecord {
    fn default() -> (r: HitRecord)
        ensures
            r == HitRecord::spec_miss(),
    {
        let p = Point3::new(Scalar::zero(), Scalar::zero(), Scalar::zero());
        let normal = Vec3::new(Scalar::zero(), Scalar::zero(), Scalar::zero());
        HitRecord { p, normal, t: Scalar::zero(), front_face: false, is_hit: false, mat: None }
    }
}

/// Something a ray can meet.
pub trait Hittable {
    /// The nearest point at which `r` meets the object with a parameter
    /// strictly inside `ray_t`, or a record with `is_hit` false. An
    /// implementation owes that a reported parameter lies inside the range.
    fn hit(&self, r: &Ray, ray_t: &Interval) -> (rec: HitRecord)
        ensures
            rec.is_hit ==> ray_t.spec_surrounds(rec.t),
    ;
}

} // verus!
