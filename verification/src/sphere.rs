use crate::fixed::{floor_sqrt, Fixed, RAW_MAX};
use crate::hittable::{inside, nearer_than, HitRecord};
use crate::math::{Color, Point3, Vec3};
use crate::quadratic::{
    discriminant_spec, dot3, dot3_spec, lemma_root_residual, lemma_roots_ordered, ratio_spec,
    residual_bound_spec, residual_spec, roots, roots_spec,
};
use crate::ray::Ray;
use vstd::prelude::*;

verus! {

/// A ball, given by centre and radius.
pub struct Sphere {
    pub center: Point3,
    pub radius: Fixed,
    pub albedo: Color,
    pub reflectivity: Fixed,
}

impl Sphere {
    pub open spec fn wf(self) -> bool {
        self.center.wf() && self.radius.wf()
    }

    /// The coefficients of the equation `a t^2 + 2 hb t + c = 0` for the
    /// places at which the line of the ray meets the sphere, as whole
    /// numbers of squared raw units: `a` is the squared length of the
    /// direction, `hb` the dot product of the direction with the way from
    /// the centre to the origin, and `c` the squared length of that way
    /// less the squared radius. Nothing is rounded.
    pub open spec fn coefficients_spec(self, r: Ray) -> (int, int, int) {
        let ox = r.origin.x@ - self.center.x@;
        let oy = r.origin.y@ - self.center.y@;
        let oz = r.origin.z@ - self.center.z@;
        let dx = r.direction.x@;
        let dy = r.direction.y@;
        let dz = r.direction.z@;
        (
            dot3_spec(dx, dy, dz, dx, dy, dz),
            dot3_spec(ox, oy, oz, dx, dy, dz),
            dot3_spec(ox, oy, oz, ox, oy, oz) - self.radius@ * self.radius@,
        )
    }

    /// The line of the ray meets the sphere: the ray moves, and the
    /// discriminant of the equation is not negative.
    pub open spec fn line_meets_spec(self, r: Ray) -> bool {
        let k = self.coefficients_spec(r);
        k.0 > 0 && discriminant_spec(k.0, k.1, k.2) >= 0
    }

    /// The two parameters at which the line of the ray meets the sphere,
    /// the smaller first; `None` where it passes the sphere by.
    pub open spec fn roots_spec(self, r: Ray) -> Option<(Fixed, Fixed)> {
        let k = self.coefficients_spec(r);
        roots_spec(k.0, k.1, k.2)
    }

    /// The parameter of the hit: the smaller root where it lies inside the
    /// bounds, else the larger where that one does.
    pub open spec fn root_spec(self, r: Ray, t_min: Fixed, t_max: Fixed) -> Option<Fixed> {
        match self.roots_spec(r) {
            None => None,
            Some((near, far)) => if inside(near, t_min, t_max) {
                Some(near)
            } else if inside(far, t_min, t_max) {
                Some(far)
            } else {
                None
            },
        }
    }

    /// The record of a hit at parameter `t`; the outward normal points from
    /// the centre to the point struck.
    pub open spec fn record_spec(self, r: Ray, t: Fixed) -> HitRecord {
        let p = r.at_spec(t);
        HitRecord::face_spec(
            r,
            p,
            p.sub_spec(self.center).div_spec(self.radius),
            t,
            self.albedo,
            self.reflectivity,
        )
    }

    /// The hit at the nearer root inside the bounds, if there is one.
    pub open spec fn hit_spec(self, r: Ray, t_min: Fixed, t_max: Fixed) -> Option<HitRecord> {
        match self.root_spec(r, t_min, t_max) {
            None => None,
            Some(t) => Some(self.record_spec(r, t)),
        }
    }

    /// The smaller root is not greater than the larger.
    pub proof fn lemma_roots_ordered(self, r: Ray)
        ensures
            self.roots_spec(r) matches Some((near, far)) ==> near@ <= far@,
    {
        let k = self.coefficients_spec(r);
        lemma_roots_ordered(k.0, k.1, k.2);
    }

    /// A sphere is hit only where the line of the ray meets it, and then
    /// at one of the two roots of the equation, strictly inside the
    /// bounds; a ray whose line passes the sphere by hits nothing.
    pub proof fn lemma_hit_meets(self, r: Ray, t_min: Fixed, t_max: Fixed)
        ensures
            !self.line_meets_spec(r) ==> self.hit_spec(r, t_min, t_max) is None,
            self.hit_spec(r, t_min, t_max) matches Some(h) ==> {
                let k = self.coefficients_spec(r);
                let s = floor_sqrt(discriminant_spec(k.0, k.1, k.2));
                &&& self.line_meets_spec(r)
                &&& h.t == ratio_spec(-k.1 - s, k.0) || h.t == ratio_spec(-k.1 + s, k.0)
                &&& inside(h.t, t_min, t_max)
                &&& h.p == r.at_spec(h.t)
            },
    {
    }

    /// The place of a hit lies on the sphere up to rounding. With `t` the
    /// parameter reported, in raw units, the place on the line of the ray
    /// is the origin and `t` times the direction; the squared distance of
    /// that place from the centre, less the squared radius and times the
    /// square of the scale, is the residual of the equation. Times `a` it
    /// lies within the stated bound, which for a direction of unit length
    /// holds the place within a few raw units of the sphere.
    pub proof fn lemma_hit_near_surface(self, r: Ray, t_min: Fixed, t_max: Fixed)
        requires
            t_min.wf(),
            t_max.wf(),
        ensures
            self.hit_spec(r, t_min, t_max) matches Some(h) ==> {
                let k = self.coefficients_spec(r);
                let s = floor_sqrt(discriminant_spec(k.0, k.1, k.2));
                let f = residual_spec(k.0, k.1, k.2, h.t@);
                -residual_bound_spec(k.0, s) <= k.0 * f <= residual_bound_spec(k.0, s)
            },
    {
        broadcast use Fixed::lemma_of_view;

        let k = self.coefficients_spec(r);
        if self.hit_spec(r, t_min, t_max) is Some {
            lemma_root_residual(k.0, k.1, k.2, false);
            lemma_root_residual(k.0, k.1, k.2, true);
        }
    }

    /// With a nearer upper bound the sphere reports the same hit, or none
    /// where that hit lies at or beyond the new bound.
    pub proof fn lemma_narrowing(self, r: Ray, t_min: Fixed, t_max: Fixed, bound: Fixed)
        requires
            bound@ <= t_max@,
        ensures
            self.hit_spec(r, t_min, bound) == nearer_than(self.hit_spec(r, t_min, t_max), bound),
    {
        self.lemma_roots_ordered(r);
    }

    /// The sphere of the given radius round `center`.
    pub fn new(center: Point3, radius: Fixed, albedo: Color, reflectivity: Fixed) -> (s: Sphere)
        ensures
            s == (Sphere { center, radius, albedo, reflectivity }),
    {
        Sphere { center, radius, albedo, reflectivity }
    }

    /// Where the ray strikes the sphere inside the bounds: at the nearer of
    /// the two places where that one lies inside them, else at the farther.
    pub fn hit(&self, r: &Ray, t_min: Fixed, t_max: Fixed) -> (res: Option<HitRecord>)
        ensures
            res == self.hit_spec(*r, t_min, t_max),
            res matches Some(h) ==> inside(h.t, t_min, t_max) && Vec3::dot_spec(
                r.direction,
                h.normal,
            )@ <= 0,
    {
        let ox = r.origin.x.raw() as i128 - self.center.x.raw() as i128;
        let oy = r.origin.y.raw() as i128 - self.center.y.raw() as i128;
        let oz = r.origin.z.raw() as i128 - self.center.z.raw() as i128;
        let dx = r.direction.x.raw() as i128;
        let dy = r.direction.y.raw() as i128;
        let dz = r.direction.z.raw() as i128;
        let radius = self.radius.raw() as i128;
        assert(0 <= radius * radius <= RAW_MAX * RAW_MAX) by (nonlinear_arith)
            requires
                -RAW_MAX <= radius <= RAW_MAX,
        ;
        let a = dot3(dx, dy, dz, dx, dy, dz);
        let half_b = dot3(ox, oy, oz, dx, dy, dz);
        let oc_squared = dot3(ox, oy, oz, ox, oy, oz);
        assert(oc_squared >= 0) by (nonlinear_arith)
            requires
                oc_squared == ox * ox + oy * oy + oz * oz,
        ;
        let c = oc_squared - radius * radius;
        let (near, far) = match roots(a, half_b, c) {
            Some(pair) => pair,
            None => { return None; },
        };
        let mut root = near;
        if root.le(t_min) || root.ge(t_max) {
            root = far;
            if root.le(t_min) || root.ge(t_max) {
                return None;
            }
        }
        let p = r.at(root);
        let outward_normal = p.sub(self.center).div(self.radius);
        Some(
            HitRecord::with_face_normal(
                r,
                p,
                outward_normal,
                root,
                self.albedo,
                self.reflectivity,
            ),
        )
    }
}

} // verus!
