//! Half-lines: an origin and a direction.
use crate::vec3::{Point3, Vec3};
use vstd::prelude::*;

verus! {

/// The points `origin + t * dir`.
#[derive(Clone, Copy, Debug)]
pub struct Ray {
    pub origin: Point3,
    pub dir: Vec3,
}

impl Ray {
    pub fn new(origin: Point3, dir: Vec3) -> (r: Ray)
        ensures
            r.origin == origin,
            r.dir == dir,
    {
        Ray { origin, dir }
    }

    pub fn origin(&self) -> (r: &Point3)
        ensures
            *r == self.origin,
    {
        &self.origin
    }

    pub fn dir(&self) -> (r: &Vec3)
        ensures
            *r == self.dir,
    {
        &self.dir
    }
}

} // verus!
