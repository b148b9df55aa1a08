use crate::fixed::Fixed;
use crate::hittable::{inside, nearer_than, HitRecord};
use crate::math::{Color, Point3, Vec3};
use crate::quadratic::{signed_ratio, signed_ratio_spec};
use crate::ray::Ray;
use vstd::prelude::*;

verus! {

/// Raw value of the threshold under which a ray counts as parallel to a
/// pair of faces: one raw unit, so only a component of exactly zero does.
pub const AXIS_PARALLEL_RAW: i64 = 1;

/// An axis-aligned box, given by two opposite corners.
pub struct Aabb {
    pub min: Point3,
    pub max: Point3,
}

/// A place at which a ray crosses a face of a box: the parameter, and the
/// outward normal of the face.
pub struct Crossing {
    pub t: Fixed,
    pub normal: Vec3,
}

/// The state of the slab test: where the ray comes to lie inside every
/// slab looked at so far, and where it ceases to. Both are `None` as long
/// as no slab bounds the ray.
pub struct Slab {
    pub enter: Option<Crossing>,
    pub leave: Option<Crossing>,
}

/// The unit vector along one axis, or against it.
pub open spec fn axis_spec(x: int, y: int, z: int) -> Vec3 {
    Vec3 {
        x: Fixed::from_int_spec(x),
        y: Fixed::from_int_spec(y),
        z: Fixed::from_int_spec(z),
    }
}

/// `n` is a unit vector along an axis or against one.
pub open spec fn is_axis(n: Vec3) -> bool {
    ||| n == axis_spec(-1, 0, 0)
    ||| n == axis_spec(1, 0, 0)
    ||| n == axis_spec(0, -1, 0)
    ||| n == axis_spec(0, 1, 0)
    ||| n == axis_spec(0, 0, -1)
    ||| n == axis_spec(0, 0, 1)
}

fn axis(x: i64, y: i64, z: i64) -> (v: Vec3)
    ensures
        v == axis_spec(x as int, y as int, z as int),
        v.wf(),
{
    Vec3::new(Fixed::from_int(x), Fixed::from_int(y), Fixed::from_int(z))
}

/// The parameter at which a ray that starts at `origin` and moves by `dir`
/// along one axis reaches `bound` on that axis.
pub open spec fn reach_spec(origin: Fixed, dir: Fixed, bound: Fixed) -> Fixed {
    signed_ratio_spec(bound@ - origin@, dir@)
}

/// The parameter at which a ray that starts at `origin` and moves by `dir`
/// along one axis reaches `bound` on that axis.
pub fn reach(origin: Fixed, dir: Fixed, bound: Fixed) -> (t: Fixed)
    requires
        dir@ != 0,
    ensures
        t == reach_spec(origin, dir, bound),
{
    signed_ratio(bound.raw() as i128 - origin.raw() as i128, dir.raw() as i128)
}

impl Slab {
    pub open spec fn axis_parallel_spec(dir: Fixed) -> bool {
        dir.abs_spec()@ < AXIS_PARALLEL_RAW
    }

    /// The later of two entries; the earlier one found stays unless `next`
    /// is strictly later.
    pub open spec fn later_spec(found: Option<Crossing>, next: Crossing) -> Option<Crossing> {
        match found {
            Some(c) => if next.t@ > c.t@ {
                Some(next)
            } else {
                found
            },
            None => Some(next),
        }
    }

    /// The earlier of two exits; the earlier one found stays unless `next`
    /// is strictly earlier.
    pub open spec fn earlier_spec(found: Option<Crossing>, next: Crossing) -> Option<Crossing> {
        match found {
            Some(c) => if next.t@ < c.t@ {
                Some(next)
            } else {
                found
            },
            None => Some(next),
        }
    }

    /// The state after one more axis, on which the ray starts at `origin`
    /// and moves by `dir`, and the box reaches from `minb` to `maxb`;
    /// `toward_min` is the outward normal of the face at `minb`. `None`
    /// where the ray runs along the slab and outside it.
    pub open spec fn narrow_spec(
        self,
        origin: Fixed,
        dir: Fixed,
        minb: Fixed,
        maxb: Fixed,
        toward_min: Vec3,
    ) -> Option<Slab> {
        if Slab::axis_parallel_spec(dir) {
            if origin@ < minb@ || origin@ > maxb@ {
                None
            } else {
                Some(self)
            }
        } else {
            let at_min = Crossing { t: reach_spec(origin, dir, minb), normal: toward_min };
            let at_max = Crossing {
                t: reach_spec(origin, dir, maxb),
                normal: toward_min.neg_spec(),
            };
            let swapped = at_min.t@ > at_max.t@;
            Some(
                Slab {
                    enter: Slab::later_spec(
                        self.enter,
                        if swapped {
                            at_max
                        } else {
                            at_min
                        },
                    ),
                    leave: Slab::earlier_spec(
                        self.leave,
                        if swapped {
                            at_min
                        } else {
                            at_max
                        },
                    ),
                },
            )
        }
    }

    /// The state after one more axis.
    pub fn narrow(
        self,
        origin: Fixed,
        dir: Fixed,
        minb: Fixed,
        maxb: Fixed,
        toward_min: Vec3,
    ) -> (res: Option<Slab>)
        ensures
            res == self.narrow_spec(origin, dir, minb, maxb, toward_min),
    {
        if dir.abs().lt(Fixed::from_raw(AXIS_PARALLEL_RAW)) {
            if origin.lt(minb) || origin.gt(maxb) {
                return None;
            }
            return Some(self);
        }
        let at_min = Crossing { t: reach(origin, dir, minb), normal: toward_min };
        let at_max = Crossing { t: reach(origin, dir, maxb), normal: toward_min.neg() };
        let swapped = at_min.t.gt(at_max.t);
        let (first, last) = if swapped {
            (at_max, at_min)
        } else {
            (at_min, at_max)
        };
        let enter = match self.enter {
            Some(c) => if first.t.gt(c.t) {
                Some(first)
            } else {
                Some(c)
            },
            None => Some(first),
        };
        let leave = match self.leave {
            Some(c) => if last.t.lt(c.t) {
                Some(last)
            } else {
                Some(c)
            },
            None => Some(last),
        };
        Some(Slab { enter, leave })
    }
}

impl Aabb {
    pub open spec fn wf(self) -> bool {
        self.min.wf() && self.max.wf()
    }

    /// The state of the slab test after all three axes, taken in the order
    /// x, y, z.
    pub open spec fn slabs_spec(self, r: Ray) -> Option<Slab> {
        let start = Slab { enter: None, leave: None };
        match start.narrow_spec(
            r.origin.x,
            r.direction.x,
            self.min.x,
            self.max.x,
            axis_spec(-1, 0, 0),
        ) {
            None => None,
            Some(after_x) => match after_x.narrow_spec(
                r.origin.y,
                r.direction.y,
                self.min.y,
                self.max.y,
                axis_spec(0, -1, 0),
            ) {
                None => None,
                Some(after_y) => after_y.narrow_spec(
                    r.origin.z,
                    r.direction.z,
                    self.min.z,
                    self.max.z,
                    axis_spec(0, 0, -1),
                ),
            },
        }
    }

    /// Where the ray enters the box and where it leaves it: `None` where
    /// the ray passes the box by, touches it in one place only, or does not
    /// move at all.
    pub open spec fn span_spec(self, r: Ray) -> Option<(Crossing, Crossing)> {
        match self.slabs_spec(r) {
            Some(Slab { enter: Some(enter), leave: Some(leave) }) => if leave.t@ <= enter.t@ {
                None
            } else {
                Some((enter, leave))
            },
            _ => None,
        }
    }

    /// The first place inside the bounds at which the ray crosses the
    /// surface of the box: where it enters, or, for a ray that is in the
    /// box already at `t_min`, where it leaves.
    pub open spec fn hit_spec(self, r: Ray, t_min: Fixed, t_max: Fixed) -> Option<(Fixed, Vec3)> {
        match self.span_spec(r) {
            None => None,
            Some((enter, leave)) => if inside(enter.t, t_min, t_max) {
                Some((enter.t, enter.normal))
            } else if enter.t@ <= t_min@ && inside(leave.t, t_min, t_max) {
                Some((leave.t, leave.normal))
            } else {
                None
            },
        }
    }

    /// `t` is where the ray reaches the face of the box whose outward
    /// normal is `n`.
    pub open spec fn is_face_root(self, r: Ray, t: Fixed, n: Vec3) -> bool {
        ||| !Slab::axis_parallel_spec(r.direction.x) && n == axis_spec(-1, 0, 0) && t
            == reach_spec(r.origin.x, r.direction.x, self.min.x)
        ||| !Slab::axis_parallel_spec(r.direction.x) && n == axis_spec(1, 0, 0) && t
            == reach_spec(r.origin.x, r.direction.x, self.max.x)
        ||| !Slab::axis_parallel_spec(r.direction.y) && n == axis_spec(0, -1, 0) && t
            == reach_spec(r.origin.y, r.direction.y, self.min.y)
        ||| !Slab::axis_parallel_spec(r.direction.y) && n == axis_spec(0, 1, 0) && t
            == reach_spec(r.origin.y, r.direction.y, self.max.y)
        ||| !Slab::axis_parallel_spec(r.direction.z) && n == axis_spec(0, 0, -1) && t
            == reach_spec(r.origin.z, r.direction.z, self.min.z)
        ||| !Slab::axis_parallel_spec(r.direction.z) && n == axis_spec(0, 0, 1) && t
            == reach_spec(r.origin.z, r.direction.z, self.max.z)
    }

    /// The ray runs along a pair of faces and starts outside them.
    pub open spec fn passes_outside(self, r: Ray) -> bool {
        ||| r.direction.x@ == 0 && (r.origin.x@ < self.min.x@ || r.origin.x@ > self.max.x@)
        ||| r.direction.y@ == 0 && (r.origin.y@ < self.min.y@ || r.origin.y@ > self.max.y@)
        ||| r.direction.z@ == 0 && (r.origin.z@ < self.min.z@ || r.origin.z@ > self.max.z@)
    }

    /// A ray that starts outside the box along one axis, and does not move
    /// along that axis, never hits the box.
    pub proof fn lemma_outside_slab_misses(self, r: Ray, t_min: Fixed, t_max: Fixed)
        requires
            self.passes_outside(r),
        ensures
            self.hit_spec(r, t_min, t_max) is None,
    {
    }

    /// Both crossings of a ray that meets the box lie on faces of the box,
    /// each with the outward normal of its face.
    pub proof fn lemma_span_on_faces(self, r: Ray)
        ensures
            self.span_spec(r) matches Some((enter, leave)) ==> self.is_face_root(
                r,
                enter.t,
                enter.normal,
            ) && self.is_face_root(r, leave.t, leave.normal),
    {
        broadcast use Fixed::lemma_of_view;

        lemma_axis_turned();
    }

    /// A hit lies strictly inside the bounds, on a face of the box, and
    /// carries the outward normal of that face.
    pub proof fn lemma_hit_on_face(self, r: Ray, t_min: Fixed, t_max: Fixed)
        ensures
            self.hit_spec(r, t_min, t_max) matches Some((t, n)) ==> inside(t, t_min, t_max)
                && is_axis(n) && self.is_face_root(r, t, n),
    {
        self.lemma_span_on_faces(r);
    }

    /// With a nearer upper bound the box reports the same hit, or none
    /// where that hit lies at or beyond the new bound.
    pub proof fn lemma_narrowing(self, r: Ray, t_min: Fixed, t_max: Fixed, bound: Fixed)
        requires
            bound@ <= t_max@,
        ensures
            self.hit_spec(r, t_min, bound) == (match self.hit_spec(r, t_min, t_max) {
                Some((t, n)) => if t@ < bound@ {
                    Some((t, n))
                } else {
                    None
                },
                None => None,
            }),
    {
    }

    /// The box between two opposite corners.
    pub fn new(min: Point3, max: Point3) -> (b: Aabb)
        ensures
            b == (Aabb { min, max }),
    {
        Aabb { min, max }
    }

    /// The slab test: the first place inside the bounds at which the ray
    /// crosses the surface of the box, and the outward normal there.
    pub fn hit(&self, r: &Ray, t_min: Fixed, t_max: Fixed) -> (res: Option<(Fixed, Vec3)>)
        ensures
            res == self.hit_spec(*r, t_min, t_max),
            res matches Some((t, n)) ==> inside(t, t_min, t_max) && is_axis(n)
                && self.is_face_root(*r, t, n),
    {
        proof {
            self.lemma_hit_on_face(*r, t_min, t_max);
        }
        let start = Slab { enter: None, leave: None };
        let after_x = match start.narrow(
            r.origin.x,
            r.direction.x,
            self.min.x,
            self.max.x,
            axis(-1, 0, 0),
        ) {
            None => { return None; },
            Some(s) => s,
        };
        let after_y = match after_x.narrow(
            r.origin.y,
            r.direction.y,
            self.min.y,
            self.max.y,
            axis(0, -1, 0),
        ) {
            None => { return None; },
            Some(s) => s,
        };
        let after_z = match after_y.narrow(
            r.origin.z,
            r.direction.z,
            self.min.z,
            self.max.z,
            axis(0, 0, -1),
        ) {
            None => { return None; },
            Some(s) => s,
        };
        match (after_z.enter, after_z.leave) {
            (Some(enter), Some(leave)) => {
                if leave.t.le(enter.t) {
                    None
                } else if enter.t.gt(t_min) && enter.t.lt(t_max) {
                    Some((enter.t, enter.normal))
                } else if enter.t.le(t_min) && leave.t.gt(t_min) && leave.t.lt(t_max) {
                    Some((leave.t, leave.normal))
                } else {
                    None
                }
            },
            _ => None,
        }
    }
}

/// Turning a unit vector along an axis round gives the unit vector against
/// that axis.
pub proof fn lemma_axis_turned()
    ensures
        axis_spec(-1, 0, 0).neg_spec() == axis_spec(1, 0, 0),
        axis_spec(0, -1, 0).neg_spec() == axis_spec(0, 1, 0),
        axis_spec(0, 0, -1).neg_spec() == axis_spec(0, 0, 1),
        axis_spec(1, 0, 0).neg_spec() == axis_spec(-1, 0, 0),
        axis_spec(0, 1, 0).neg_spec() == axis_spec(0, -1, 0),
        axis_spec(0, 0, 1).neg_spec() == axis_spec(0, 0, -1),
{
    broadcast use Fixed::lemma_of_view;

}

/// A box with a surface.
pub struct Cube {
    pub bounds: Aabb,
    pub albedo: Color,
    pub reflectivity: Fixed,
}

impl Cube {
    pub open spec fn wf(self) -> bool {
        self.bounds.wf()
    }

    /// The cube with the given centre and edge length.
    pub open spec fn from_center_size_spec(
        center: Point3,
        size: Fixed,
        albedo: Color,
        reflectivity: Fixed,
    ) -> Cube {
        let h = size.mul_spec(Fixed::of(crate::fixed::SCALE / 2));
        let half = Vec3 { x: h, y: h, z: h };
        Cube {
            bounds: Aabb { min: center.sub_spec(half), max: center.add_spec(half) },
            albedo,
            reflectivity,
        }
    }

    /// The record of the first place inside the bounds at which the ray
    /// crosses the surface of the cube.
    pub open spec fn hit_spec(self, r: Ray, t_min: Fixed, t_max: Fixed) -> Option<HitRecord> {
        match self.bounds.hit_spec(r, t_min, t_max) {
            None => None,
            Some((t, outward_normal)) => Some(
                HitRecord::face_spec(
                    r,
                    r.at_spec(t),
                    outward_normal,
                    t,
                    self.albedo,
                    self.reflectivity,
                ),
            ),
        }
    }

    /// A ray that starts outside the cube along one axis, and does not move
    /// along that axis, never hits the cube.
    pub proof fn lemma_outside_slab_misses(self, r: Ray, t_min: Fixed, t_max: Fixed)
        requires
            self.bounds.passes_outside(r),
        ensures
            self.hit_spec(r, t_min, t_max) is None,
    {
        self.bounds.lemma_outside_slab_misses(r, t_min, t_max);
    }

    /// With a nearer upper bound the cube reports the same hit, or none
    /// where that hit lies at or beyond the new bound.
    pub proof fn lemma_narrowing(self, r: Ray, t_min: Fixed, t_max: Fixed, bound: Fixed)
        requires
            bound@ <= t_max@,
        ensures
            self.hit_spec(r, t_min, bound) == nearer_than(self.hit_spec(r, t_min, t_max), bound),
    {
        self.bounds.lemma_narrowing(r, t_min, t_max, bound);
    }

    /// The cube with the given centre and edge length.
    pub fn from_center_size(center: Point3, size: Fixed, albedo: Color, reflectivity: Fixed) -> (c:
        Cube)
        ensures
            c == Cube::from_center_size_spec(center, size, albedo, reflectivity),
    {
        let h = size.mul(Fixed::from_raw(crate::fixed::SCALE / 2));
        let half = Vec3::new(h, h, h);
        Cube { bounds: Aabb::new(center.sub(half), center.add(half)), albedo, reflectivity }
    }

    /// The first place inside the bounds at which the ray crosses the
    /// surface of the cube: where it enters, or, for a ray that is in the
    /// cube already at `t_min`, where it leaves.
    pub fn hit(&self, r: &Ray, t_min: Fixed, t_max: Fixed) -> (res: Option<HitRecord>)
        ensures
            res == self.hit_spec(*r, t_min, t_max),
            res matches Some(h) ==> inside(h.t, t_min, t_max) && Vec3::dot_spec(
                r.direction,
                h.normal,
            )@ <= 0,
            res matches Some(h) ==> h.p == r.at_spec(h.t) && is_axis(h.normal) && (
            self.bounds.is_face_root(*r, h.t, h.normal) || self.bounds.is_face_root(
                *r,
                h.t,
                h.normal.neg_spec(),
            )),
    {
        proof {
            lemma_axis_turned();
        }
        match self.bounds.hit(r, t_min, t_max) {
            Some((t, outward_normal)) => {
                let p = r.at(t);
                Some(
                    HitRecord::with_face_normal(
                        r,
                        p,
                        outward_normal,
                        t,
                        self.albedo,
                        self.reflectivity,
                    ),
                )
            },
            None => None,
        }
    }
}

} // verus!
