use crate::fixed::{floor_sqrt, Fixed, RAW_MAX, SCALE};
use crate::hittable::{bounded, closer, faces_ray, inside, keep_closer, nearer_than, HitRecord};
use crate::math::{Color, Point3, Vec3};
use crate::quadratic::{
    discriminant_spec, dot3, dot3_spec, lemma_root_residual, residual_bound_spec, residual_spec,
    roots, roots_spec,
};
use crate::ray::Ray;
use vstd::prelude::*;

verus! {

/// Raw value of the threshold that the squared length of the ray across
/// the axis must exceed for the side to be tried: one raw unit.
pub const SIDE_RAW: i64 = 1;

/// Raw value of the threshold under which a ray counts as parallel to the
/// caps: one raw unit, so only a component of exactly zero does.
pub const CAP_PARALLEL_RAW: i64 = 1;

/// Raw value of the tolerance on the height of a hit on the side and on
/// the squared radius of a hit on a cap: a thousand-millionth.
pub const TOLERANCE_RAW: i64 = 1_000;

/// A capped cylinder whose axis runs along y.
pub struct Cylinder {
    /// The centre, at half the height.
    pub center: Point3,
    pub radius: Fixed,
    pub half_height: Fixed,
    pub albedo: Color,
    pub reflectivity: Fixed,
}

impl Cylinder {
    pub open spec fn wf(self) -> bool {
        self.center.wf() && self.radius.wf() && self.half_height.wf()
    }

    /// The coefficients of the equation `a t^2 + 2 hb t + c = 0` for the
    /// places at which the line of the ray meets the endless cylinder, as
    /// whole numbers of squared raw units, taken across the axis: `a` is
    /// the squared length of the direction, `hb` the dot product of the
    /// direction with the way from the axis to the origin, and `c` the
    /// squared length of that way less the squared radius. Nothing is
    /// rounded.
    pub open spec fn coefficients_spec(self, r: Ray) -> (int, int, int) {
        let ox = r.origin.x@ - self.center.x@;
        let oz = r.origin.z@ - self.center.z@;
        let dx = r.direction.x@;
        let dz = r.direction.z@;
        (
            dot3_spec(dx, 0, dz, dx, 0, dz),
            dot3_spec(ox, 0, oz, dx, 0, dz),
            dot3_spec(ox, 0, oz, ox, 0, oz) - self.radius@ * self.radius@,
        )
    }

    /// The ray moves across the axis by more than the threshold, so that
    /// the side is tried.
    pub open spec fn crosses_axis_spec(self, r: Ray) -> bool {
        self.coefficients_spec(r).0 / (SCALE as int) > SIDE_RAW
    }

    /// The two parameters at which the line of the ray meets the endless
    /// cylinder, the smaller first; `None` where the ray runs along the
    /// axis or passes the cylinder by.
    pub open spec fn side_roots_spec(self, r: Ray) -> Option<(Fixed, Fixed)> {
        let k = self.coefficients_spec(r);
        if self.crosses_axis_spec(r) {
            roots_spec(k.0, k.1, k.2)
        } else {
            None
        }
    }

    /// The hit on the side at parameter `t`, where its height lies within
    /// the cylinder; the outward normal points away from the axis.
    pub open spec fn side_spec(self, r: Ray, t: Fixed) -> Option<HitRecord> {
        let ro = r.origin.sub_spec(self.center);
        let rd = r.direction;
        let y = ro.y.add_spec(t.mul_spec(rd.y));
        if y@ >= self.half_height.neg_spec().sub_spec(Fixed::of(TOLERANCE_RAW as int))@ && y@
            <= self.half_height.add_spec(Fixed::of(TOLERANCE_RAW as int))@ {
            let outward = (Vec3 {
                x: ro.x.add_spec(t.mul_spec(rd.x)).div_spec(self.radius),
                y: Fixed::zero_spec(),
                z: ro.z.add_spec(t.mul_spec(rd.z)).div_spec(self.radius),
            }).unit_spec();
            Some(
                HitRecord::face_spec(r, r.at_spec(t), outward, t, self.albedo, self.reflectivity),
            )
        } else {
            None
        }
    }

    /// The hit on the cap at height `y_cap` above the centre, where the
    /// ray crosses that plane within the radius.
    pub open spec fn cap_spec(self, r: Ray, y_cap: Fixed) -> Option<HitRecord> {
        let ro = r.origin.sub_spec(self.center);
        let rd = r.direction;
        if rd.y.abs_spec()@ < CAP_PARALLEL_RAW {
            None
        } else {
            let t = y_cap.sub_spec(ro.y).div_spec(rd.y);
            let x = ro.x.add_spec(t.mul_spec(rd.x));
            let z = ro.z.add_spec(t.mul_spec(rd.z));
            if x@ * x@ + z@ * z@ <= self.radius@ * self.radius@ + TOLERANCE_RAW * SCALE {
                let outward = if y_cap@ > 0 {
                    Vec3 { x: Fixed::zero_spec(), y: Fixed::from_int_spec(1), z: Fixed::zero_spec() }
                } else {
                    Vec3 {
                        x: Fixed::zero_spec(),
                        y: Fixed::from_int_spec(-1),
                        z: Fixed::zero_spec(),
                    }
                };
                Some(
                    HitRecord::face_spec(
                        r,
                        r.at_spec(t),
                        outward,
                        t,
                        self.albedo,
                        self.reflectivity,
                    ),
                )
            } else {
                None
            }
        }
    }

    /// The hits on the side, the nearer root first.
    pub open spec fn side_pair_spec(self, r: Ray) -> (Option<HitRecord>, Option<HitRecord>) {
        match self.side_roots_spec(r) {
            None => (None, None),
            Some((near, far)) => (self.side_spec(r, near), self.side_spec(r, far)),
        }
    }

    /// The nearest hit inside the bounds among the two on the side, the
    /// one on the upper cap and the one on the lower cap; of two equally
    /// near, the one that comes first in this order.
    pub open spec fn hit_spec(self, r: Ray, t_min: Fixed, t_max: Fixed) -> Option<HitRecord> {
        let sides = self.side_pair_spec(r);
        let upper = self.cap_spec(r, self.half_height);
        let lower = self.cap_spec(r, self.half_height.neg_spec());
        closer(
            closer(
                closer(bounded(sides.0, t_min, t_max), bounded(sides.1, t_min, t_max)),
                bounded(upper, t_min, t_max),
            ),
            bounded(lower, t_min, t_max),
        )
    }

    /// The side is hit only where the ray moves across the axis and its
    /// line meets the endless cylinder: the discriminant of the equation,
    /// taken without rounding, is not negative. Each hit on the side lies
    /// at one of the two roots.
    pub proof fn lemma_side_meets(self, r: Ray)
        ensures
            ({
                let k = self.coefficients_spec(r);
                let sides = self.side_pair_spec(r);
                &&& (sides.0 is Some || sides.1 is Some) ==> self.crosses_axis_spec(r) && k.0 > 0
                    && discriminant_spec(k.0, k.1, k.2) >= 0
                &&& discriminant_spec(k.0, k.1, k.2) < 0 ==> sides.0 is None && sides.1 is None
                &&& self.side_roots_spec(r) matches Some((near, far)) ==> (sides.0 matches Some(
                    h,
                ) ==> h.t == near) && (sides.1 matches Some(h) ==> h.t == far)
            }),
    {
    }

    /// The place of a hit on the side lies on the endless cylinder up to
    /// rounding: `a` times the residual of the equation at the parameter
    /// reported lies within the stated bound, which for a direction of unit
    /// length across the axis holds the place within a few raw units of
    /// the side.
    pub proof fn lemma_side_near_surface(self, r: Ray, t_min: Fixed, t_max: Fixed)
        requires
            t_min.wf(),
            t_max.wf(),
        ensures
            ({
                let k = self.coefficients_spec(r);
                let s = floor_sqrt(discriminant_spec(k.0, k.1, k.2));
                let near = bounded(self.side_pair_spec(r).0, t_min, t_max);
                let far = bounded(self.side_pair_spec(r).1, t_min, t_max);
                &&& near matches Some(h) ==> -residual_bound_spec(k.0, s) <= k.0 * residual_spec(
                    k.0,
                    k.1,
                    k.2,
                    h.t@,
                ) <= residual_bound_spec(k.0, s)
                &&& far matches Some(h) ==> -residual_bound_spec(k.0, s) <= k.0 * residual_spec(
                    k.0,
                    k.1,
                    k.2,
                    h.t@,
                ) <= residual_bound_spec(k.0, s)
            }),
    {
        broadcast use Fixed::lemma_of_view;

        let k = self.coefficients_spec(r);
        if self.side_roots_spec(r) is Some {
            lemma_root_residual(k.0, k.1, k.2, false);
            lemma_root_residual(k.0, k.1, k.2, true);
        }
    }

    /// The hit reported is one of the four that lie inside the bounds, and
    /// none of the four that lie inside the bounds is nearer.
    pub proof fn lemma_hit_is_nearest(self, r: Ray, t_min: Fixed, t_max: Fixed)
        ensures
            ({
                let res = self.hit_spec(r, t_min, t_max);
                let near = bounded(self.side_pair_spec(r).0, t_min, t_max);
                let far = bounded(self.side_pair_spec(r).1, t_min, t_max);
                let upper = bounded(self.cap_spec(r, self.half_height), t_min, t_max);
                let lower = bounded(self.cap_spec(r, self.half_height.neg_spec()), t_min, t_max);
                &&& res == near || res == far || res == upper || res == lower
                &&& near matches Some(h) ==> res is Some && res->0.t@ <= h.t@
                &&& far matches Some(h) ==> res is Some && res->0.t@ <= h.t@
                &&& upper matches Some(h) ==> res is Some && res->0.t@ <= h.t@
                &&& lower matches Some(h) ==> res is Some && res->0.t@ <= h.t@
            }),
    {
    }

    /// The normal of a hit never points along the ray.
    pub proof fn lemma_front_face(self, r: Ray, t_min: Fixed, t_max: Fixed)
        requires
            self.wf(),
            r.wf(),
        ensures
            faces_ray(self.hit_spec(r, t_min, t_max), r),
    {
        self.lemma_candidates_face(r);
    }

    /// The normal of each hit on the side or on a cap does not point along
    /// the ray.
    pub proof fn lemma_candidates_face(self, r: Ray)
        requires
            self.wf(),
            r.wf(),
        ensures
            faces_ray(self.side_pair_spec(r).0, r),
            faces_ray(self.side_pair_spec(r).1, r),
            faces_ray(self.cap_spec(r, self.half_height), r),
            faces_ray(self.cap_spec(r, self.half_height.neg_spec()), r),
    {
        broadcast use Fixed::lemma_of_view;

        match self.side_roots_spec(r) {
            None => {},
            Some((near, far)) => {
                self.lemma_side_faces(r, near);
                self.lemma_side_faces(r, far);
            },
        }
        self.lemma_cap_faces(r, self.half_height);
        self.lemma_cap_faces(r, self.half_height.neg_spec());
    }

    proof fn lemma_side_faces(self, r: Ray, t: Fixed)
        requires
            r.wf(),
        ensures
            faces_ray(self.side_spec(r, t), r),
    {
        broadcast use Fixed::lemma_of_view;

        let ro = r.origin.sub_spec(self.center);
        let rd = r.direction;
        let outward = (Vec3 {
            x: ro.x.add_spec(t.mul_spec(rd.x)).div_spec(self.radius),
            y: Fixed::zero_spec(),
            z: ro.z.add_spec(t.mul_spec(rd.z)).div_spec(self.radius),
        }).unit_spec();
        assert(outward.wf());
        HitRecord::lemma_front_face(r, r.at_spec(t), outward, t, self.albedo, self.reflectivity);
    }

    proof fn lemma_cap_faces(self, r: Ray, y_cap: Fixed)
        requires
            r.wf(),
        ensures
            faces_ray(self.cap_spec(r, y_cap), r),
    {
        broadcast use Fixed::lemma_of_view;

        match self.cap_spec(r, y_cap) {
            None => {},
            Some(h) => {
                let outward = if y_cap@ > 0 {
                    Vec3 { x: Fixed::zero_spec(), y: Fixed::from_int_spec(1), z: Fixed::zero_spec() }
                } else {
                    Vec3 {
                        x: Fixed::zero_spec(),
                        y: Fixed::from_int_spec(-1),
                        z: Fixed::zero_spec(),
                    }
                };
                HitRecord::lemma_front_face(r, h.p, outward, h.t, self.albedo, self.reflectivity);
            },
        }
    }

    /// With a nearer upper bound the cylinder reports the same hit, or
    /// none where that hit lies at or beyond the new bound.
    pub proof fn lemma_narrowing(self, r: Ray, t_min: Fixed, t_max: Fixed, bound: Fixed)
        requires
            bound@ <= t_max@,
        ensures
            self.hit_spec(r, t_min, bound) == nearer_than(self.hit_spec(r, t_min, t_max), bound),
    {
    }

    /// The cylinder of the given radius that reaches `half_height` above and
    /// below `center`.
    pub fn new(
        center: Point3,
        radius: Fixed,
        half_height: Fixed,
        albedo: Color,
        reflectivity: Fixed,
    ) -> (c: Cylinder)
        ensures
            c == (Cylinder { center, radius, half_height, albedo, reflectivity }),
    {
        Cylinder { center, radius, half_height, albedo, reflectivity }
    }

    fn side_roots(&self, r: &Ray) -> (res: Option<(Fixed, Fixed)>)
        ensures
            res == self.side_roots_spec(*r),
    {
        let ox = r.origin.x.raw() as i128 - self.center.x.raw() as i128;
        let oz = r.origin.z.raw() as i128 - self.center.z.raw() as i128;
        let dx = r.direction.x.raw() as i128;
        let dz = r.direction.z.raw() as i128;
        let radius = self.radius.raw() as i128;
        assert(0 <= radius * radius <= RAW_MAX * RAW_MAX) by (nonlinear_arith)
            requires
                -RAW_MAX <= radius <= RAW_MAX,
        ;
        let a = dot3(dx, 0, dz, dx, 0, dz);
        assert(a >= 0) by (nonlinear_arith)
            requires
                a == dx * dx + 0 * 0 + dz * dz,
        ;
        if a / (SCALE as i128) > SIDE_RAW as i128 {
            let half_b = dot3(ox, 0, oz, dx, 0, dz);
            let oc_squared = dot3(ox, 0, oz, ox, 0, oz);
            assert(oc_squared >= 0) by (nonlinear_arith)
                requires
                    oc_squared == ox * ox + 0 * 0 + oz * oz,
            ;
            roots(a, half_b, oc_squared - radius * radius)
        } else {
            None
        }
    }

    fn side(&self, r: &Ray, t: Fixed) -> (res: Option<HitRecord>)
        ensures
            res == self.side_spec(*r, t),
            faces_ray(res, *r),
    {
        let ro = r.origin.sub(self.center);
        let rd = r.direction;
        let tolerance = Fixed::from_raw(TOLERANCE_RAW);
        let y = ro.y.add(t.mul(rd.y));
        if y.ge(self.half_height.neg().sub(tolerance)) && y.le(self.half_height.add(tolerance)) {
            let p = r.at(t);
            let outward = Vec3::new(
                ro.x.add(t.mul(rd.x)).div(self.radius),
                Fixed::zero(),
                ro.z.add(t.mul(rd.z)).div(self.radius),
            ).unit();
            Some(HitRecord::with_face_normal(r, p, outward, t, self.albedo, self.reflectivity))
        } else {
            None
        }
    }

    /// Whether the point at `x` and `z` across the axis lies within the
    /// radius, with the tolerance; the squares are taken in full.
    fn within_disk(x: Fixed, z: Fixed, radius: Fixed) -> (b: bool)
        ensures
            b == (x@ * x@ + z@ * z@ <= radius@ * radius@ + TOLERANCE_RAW * SCALE),
    {
        let x = x.raw() as i128;
        let z = z.raw() as i128;
        let radius = radius.raw() as i128;
        assert(0 <= x * x <= RAW_MAX * RAW_MAX && 0 <= z * z <= RAW_MAX * RAW_MAX && 0 <= radius
            * radius <= RAW_MAX * RAW_MAX) by (nonlinear_arith)
            requires
                -RAW_MAX <= x <= RAW_MAX,
                -RAW_MAX <= z <= RAW_MAX,
                -RAW_MAX <= radius <= RAW_MAX,
        ;
        x * x + z * z <= radius * radius + (TOLERANCE_RAW as i128) * (SCALE as i128)
    }

    fn cap(&self, r: &Ray, y_cap: Fixed) -> (res: Option<HitRecord>)
        ensures
            res == self.cap_spec(*r, y_cap),
            faces_ray(res, *r),
    {
        let ro = r.origin.sub(self.center);
        let rd = r.direction;
        if rd.y.abs().lt(Fixed::from_raw(CAP_PARALLEL_RAW)) {
            return None;
        }
        let t = y_cap.sub(ro.y).div(rd.y);
        let x = ro.x.add(t.mul(rd.x));
        let z = ro.z.add(t.mul(rd.z));
        if Cylinder::within_disk(x, z, self.radius) {
            let p = r.at(t);
            let outward = if y_cap.gt(Fixed::zero()) {
                Vec3::new(Fixed::zero(), Fixed::from_int(1), Fixed::zero())
            } else {
                Vec3::new(Fixed::zero(), Fixed::from_int(-1), Fixed::zero())
            };
            Some(HitRecord::with_face_normal(r, p, outward, t, self.albedo, self.reflectivity))
        } else {
            None
        }
    }

    /// The nearest point inside the bounds at which the ray strikes the side
    /// or a cap.
    pub fn hit(&self, r: &Ray, t_min: Fixed, t_max: Fixed) -> (res: Option<HitRecord>)
        ensures
            res == self.hit_spec(*r, t_min, t_max),
            res matches Some(h) ==> inside(h.t, t_min, t_max) && Vec3::dot_spec(
                r.direction,
                h.normal,
            )@ <= 0,
    {
        let mut best: Option<HitRecord> = None;
        match self.side_roots(r) {
            Some((near, far)) => {
                best = keep_closer(best, self.side(r, near), t_min, t_max);
                best = keep_closer(best, self.side(r, far), t_min, t_max);
            },
            None => {},
        }
        best = keep_closer(best, self.cap(r, self.half_height), t_min, t_max);
        best = keep_closer(best, self.cap(r, self.half_height.neg()), t_min, t_max);
        best
    }
}

} // verus!
