use crate::fixed::{Fixed, SCALE};
use crate::hittable::{inside, nearer_than, HitRecord};
use crate::math::{Color, Point3, Vec3};
use crate::quadratic::{dot3, dot3_spec, signed_ratio, signed_ratio_spec};
use crate::ray::Ray;
use vstd::prelude::*;

verus! {

/// Raw value of the threshold under which a ray counts as parallel to a
/// plane: a millionth.
pub const PARALLEL_RAW: i64 = 1_000_000;

/// An endless flat surface.
pub struct Plane {
    /// A point on the plane.
    pub point: Point3,
    /// The normal, of unit length once the plane is built by `new`.
    pub normal: Vec3,
    pub albedo: Color,
    pub reflectivity: Fixed,
}

impl Plane {
    pub open spec fn wf(self) -> bool {
        self.point.wf() && self.normal.wf()
    }

    /// The dot product of the direction of the ray with the normal, as a
    /// whole number of squared raw units. Nothing is rounded.
    pub open spec fn slope_spec(self, r: Ray) -> int {
        dot3_spec(
            r.direction.x@,
            r.direction.y@,
            r.direction.z@,
            self.normal.x@,
            self.normal.y@,
            self.normal.z@,
        )
    }

    /// The dot product of the way from the origin of the ray to the point
    /// of the plane with the normal, as a whole number of squared raw
    /// units. Nothing is rounded.
    pub open spec fn height_spec(self, r: Ray) -> int {
        dot3_spec(
            self.point.x@ - r.origin.x@,
            self.point.y@ - r.origin.y@,
            self.point.z@ - r.origin.z@,
            self.normal.x@,
            self.normal.y@,
            self.normal.z@,
        )
    }

    /// The ray runs along the plane, or nearly so: the slope lies under the
    /// threshold.
    pub open spec fn parallel_spec(self, r: Ray) -> bool {
        -PARALLEL_RAW * SCALE < self.slope_spec(r) < PARALLEL_RAW * SCALE
    }

    /// The parameter at which the line of the ray crosses the plane.
    pub open spec fn crossing_spec(self, r: Ray) -> Fixed {
        signed_ratio_spec(self.height_spec(r), self.slope_spec(r))
    }

    /// The hit where the ray crosses the plane inside the bounds, unless it
    /// runs along the plane.
    pub open spec fn hit_spec(self, r: Ray, t_min: Fixed, t_max: Fixed) -> Option<HitRecord> {
        let t = self.crossing_spec(r);
        if self.parallel_spec(r) || !inside(t, t_min, t_max) {
            None
        } else {
            Some(
                HitRecord::face_spec(
                    r,
                    r.at_spec(t),
                    self.normal,
                    t,
                    self.albedo,
                    self.reflectivity,
                ),
            )
        }
    }

    /// A ray whose direction is at right angles to the normal, or nearly
    /// so, hits nothing, wherever it starts.
    pub proof fn lemma_parallel_ray_misses(self, r: Ray, t_min: Fixed, t_max: Fixed)
        ensures
            self.slope_spec(r) == 0 ==> self.hit_spec(r, t_min, t_max) is None,
            self.parallel_spec(r) ==> self.hit_spec(r, t_min, t_max) is None,
    {
    }

    /// With a nearer upper bound the plane reports the same hit, or none
    /// where that hit lies at or beyond the new bound.
    pub proof fn lemma_narrowing(self, r: Ray, t_min: Fixed, t_max: Fixed, bound: Fixed)
        requires
            bound@ <= t_max@,
        ensures
            self.hit_spec(r, t_min, bound) == nearer_than(self.hit_spec(r, t_min, t_max), bound),
    {
    }

    /// The plane through `point` with the given normal, which is brought to
    /// unit length.
    pub fn new(point: Point3, normal: Vec3, albedo: Color, reflectivity: Fixed) -> (s: Plane)
        ensures
            s == (Plane { point, normal: normal.unit_spec(), albedo, reflectivity }),
    {
        Plane { point, normal: normal.unit(), albedo, reflectivity }
    }

    /// Where the ray crosses the plane inside the bounds, unless it runs
    /// along the plane.
    pub fn hit(&self, r: &Ray, t_min: Fixed, t_max: Fixed) -> (res: Option<HitRecord>)
        ensures
            res == self.hit_spec(*r, t_min, t_max),
            res matches Some(h) ==> inside(h.t, t_min, t_max) && Vec3::dot_spec(
                r.direction,
                h.normal,
            )@ <= 0,
    {
        let nx = self.normal.x.raw() as i128;
        let ny = self.normal.y.raw() as i128;
        let nz = self.normal.z.raw() as i128;
        let slope = dot3(
            r.direction.x.raw() as i128,
            r.direction.y.raw() as i128,
            r.direction.z.raw() as i128,
            nx,
            ny,
            nz,
        );
        let threshold = (PARALLEL_RAW as i128) * (SCALE as i128);
        if -threshold < slope && slope < threshold {
            return None;
        }
        let height = dot3(
            self.point.x.raw() as i128 - r.origin.x.raw() as i128,
            self.point.y.raw() as i128 - r.origin.y.raw() as i128,
            self.point.z.raw() as i128 - r.origin.z.raw() as i128,
            nx,
            ny,
            nz,
        );
        let t = signed_ratio(height, slope);
        if t.le(t_min) || t.ge(t_max) {
            return None;
        }
        let p = r.at(t);
        Some(HitRecord::with_face_normal(r, p, self.normal, t, self.albedo, self.reflectivity))
    }
}

} // verus!
