use crate::fixed::Fixed;
use crate::math::{Point3, Vec3};
use vstd::prelude::*;

verus! {

/// A half-line: the points `origin + t * direction`.
#[derive(Clone, Copy, Debug, PartialEq, Eq, Structural)]
pub struct Ray {
    pub origin: Point3,
    pub direction: Vec3,
}

impl Ray {
    pub open spec fn wf(self) -> bool {
        self.origin.wf() && self.direction.wf()
    }

    /// The point at parameter `t`: the origin and `t` times the direction,
    /// each product rounded toward zero.
    pub open spec fn at_spec(self, t: Fixed) -> Point3 {
        Vec3 {
            x: self.direction.x.mul_add_spec(t, self.origin.x),
            y: self.direction.y.mul_add_spec(t, self.origin.y),
            z: self.direction.z.mul_add_spec(t, self.origin.z),
        }
    }

    pub fn new(origin: Point3, direction: Vec3) -> (r: Ray)
        ensures
            r == (Ray { origin, direction }),
    {
        Ray { origin, direction }
    }

    /// The point at parameter `t`.
    pub fn at(&self, t: Fixed) -> (p: Point3)
        ensures
            p == self.at_spec(t),
            p.wf(),
    {
        Vec3::new(
            self.direction.x.mul_add(t, self.origin.x),
            self.direction.y.mul_add(t, self.origin.y),
            self.direction.z.mul_add(t, self.origin.z),
        )
    }
}

} // verus!
