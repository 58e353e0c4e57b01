//! Spheres, and which root of the intersection equation counts.
use crate::hittable::HitRecord;
use crate::interval::Interval;
use crate::material::MaterialType;
use crate::scalar::Scalar;
use crate::vec3::{Point3, Vec3};
use vstd::prelude::*;

verus! {

/// A sphere. One made by `new` has a radius that is a number and not
/// negative (`wf`).
#[derive(Clone, Copy, Debug)]
pub struct Sphere {
    pub center: Point3,
    pub radius: Scalar,
    pub mat: MaterialType,
}

impl Sphere {
    /// The radius that a sphere gets for a requested one: the request where
    /// it is positive, else zero.
    pub open spec fn spec_radius(radius: Scalar) -> Scalar {
        if (Scalar { bits: 0 }).below(radius) {
            radius
        } else {
            Scalar { bits: 0 }
        }
    }

    /// The ray parameter at which a ray meets a sphere, given the reduced
    /// discriminant `h^2 - a*c` of the intersection equation and its roots
    /// `near = (h - sqrt(d)) / a` and `far = (h + sqrt(d)) / a`: none where
    /// the discriminant is negative; else the near root where it lies
    /// strictly inside `ray_t`; else the far root where that one does; else
    /// none.
    pub open spec fn spec_select_root(
        discriminant: Scalar,
        near: Scalar,
        far: Scalar,
        ray_t: Interval,
    ) -> Option<Scalar> {
        if discriminant.below(Scalar { bits: 0 }) {
            None
        } else if ray_t.spec_surrounds(near) {
            Some(near)
        } else if ray_t.spec_surrounds(far) {
            Some(far)
        } else {
            None
        }
    }

    /// The record of a ray meeting the sphere at parameter `t`, in the point
    /// `p`, where the outward normal is `outward_normal` and `facing` the dot
    /// product of the ray's direction with it.
    pub open spec fn spec_hit(
        self,
        t: Scalar,
        p: Point3,
        outward_normal: Vec3,
        facing: Scalar,
    ) -> HitRecord {
        HitRecord {
            p,
            normal: if facing.below(Scalar { bits: 0 }) {
                outward_normal
            } else {
                outward_normal.negated()
            },
            t,
            front_face: facing.below(Scalar { bits: 0 }),
            is_hit: true,
            mat: Some(self.mat),
        }
    }

    /// Whether the invariant of the type holds: the radius is a number and
    /// not negative.
    pub open spec fn wf(self) -> bool {
        (Scalar { bits: 0 }).at_most(self.radius)
    }

    pub fn new(center: Point3, radius: Scalar, mat: MaterialType) -> (r: Sphere)
        ensures
            r.center == center,
            r.radius == Sphere::spec_radius(radius),
            r.mat == mat,
            r.wf(),
    {
        let radius = if radius.gt(&Scalar::zero()) {
            radius
        } else {
            Scalar::zero()
        };
        Sphere { center, mat, radius }
    }

    /// Chooses between the two roots of the intersection equation.
    pub fn select_root(discriminant: Scalar, near: Scalar, far: Scalar, ray_t: &Interval) -> (r:
        Option<Scalar>)
        ensures
            r == Sphere::spec_select_root(discriminant, near, far, *ray_t),
    {
        if discriminant.lt(&Scalar::zero()) {
            return None;
        }
        let mut root = near;
        if !ray_t.surrounds(root) {
            root = far;
            if !ray_t.surrounds(root) {
                return None;
            }
        }
        Some(root)
    }

    /// The record of the ray meeting this sphere at parameter `t`, in the
    /// point `p`. `outward_normal` is `(p - center) / radius`, and `facing`
    /// the dot product of the ray's direction with it. The stored normal
    /// opposes the ray, and the sphere's material goes with the record.
    pub fn hit(&self, t: Scalar, p: Point3, outward_normal: Vec3, facing: Scalar) -> (rec:
        HitRecord)
        ensures
            rec == self.spec_hit(t, p, outward_normal, facing),
    {
        let mut rec = HitRecord::default();
        rec.t = t;
        rec.p = p;
        rec.self_face_normal(facing, outward_normal);
        rec.is_hit = true;
        rec.mat = Some(self.mat);
        rec
    }
}

/// A reported root lies strictly inside the range, and no root is nearer to
/// the range's lower bound: where both roots lie inside and are in order, the
/// near one is reported.
pub proof fn lemma_selected_root_is_nearest(
    discriminant: Scalar,
    near: Scalar,
    far: Scalar,
    ray_t: Interval,
)
    requires
        near.at_most(far),
    ensures
        match Sphere::spec_select_root(discriminant, near, far, ray_t) {
            Some(t) => ray_t.spec_surrounds(t) && (t == near || t == far) && (ray_t.spec_surrounds(
                near,
            ) ==> t == near),
            None => discriminant.below(Scalar { bits: 0 }) || (!ray_t.spec_surrounds(near)
                && !ray_t.spec_surrounds(far)),
        },
{
}

/// A ray that comes from outside has both roots before it and runs against
/// the outward normal where it enters (`facing` is negative). The near root
/// is reported, the record says that the front face was met, and the normal
/// is the outward one.
pub proof fn lemma_ray_from_outside_sees_front_face(
    sphere: Sphere,
    discriminant: Scalar,
    near: Scalar,
    far: Scalar,
    ray_t: Interval,
    p: Point3,
    outward_normal: Vec3,
    facing: Scalar,
)
    requires
        !discriminant.below(Scalar { bits: 0 }),
        ray_t.spec_surrounds(near),
        facing.below(Scalar { bits: 0 }),
    ensures
        Sphere::spec_select_root(discriminant, near, far, ray_t) == Some(near),
        sphere.spec_hit(near, p, outward_normal, facing).front_face,
        sphere.spec_hit(near, p, outward_normal, facing).normal == outward_normal,
{
}

/// A ray that starts inside a sphere has its near root behind it and runs
/// along the outward normal where it leaves (`facing` is not negative). The
/// far root is reported, the record says that the back face was met, and the
/// normal is the outward one reversed, so that it points to the side of the
/// ray's origin.
pub proof fn lemma_ray_from_inside_sees_back_face(
    sphere: Sphere,
    discriminant: Scalar,
    near: Scalar,
    far: Scalar,
    ray_t: Interval,
    p: Point3,
    outward_normal: Vec3,
    facing: Scalar,
)
    requires
        !discriminant.below(Scalar { bits: 0 }),
        near.at_most(ray_t.min),
        ray_t.spec_surrounds(far),
        !facing.below(Scalar { bits: 0 }),
    ensures
        Sphere::spec_select_root(discriminant, near, far, ray_t) == Some(far),
        !sphere.spec_hit(far, p, outward_normal, facing).front_face,
        sphere.spec_hit(far, p, outward_normal, facing).normal == outward_normal.negated(),
{
}

} // verus!
