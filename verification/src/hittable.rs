use crate::cube::Cube;
use crate::cylinder::Cylinder;
use crate::fixed::Fixed;
use crate::math::{Color, Point3, Vec3};
use crate::plane::Plane;
use crate::ray::Ray;
use crate::sphere::Sphere;
use vstd::prelude::*;

verus! {

/// `t` lies strictly between the two bounds.
pub open spec fn inside(t: Fixed, t_min: Fixed, t_max: Fixed) -> bool {
    t_min@ < t@ < t_max@
}

/// The hit `h`, kept only when it is nearer than `bound`.
pub open spec fn nearer_than(h: Option<HitRecord>, bound: Fixed) -> Option<HitRecord> {
    match h {
        Some(rec) => if rec.t@ < bound@ {
            h
        } else {
            None
        },
        None => None,
    }
}

/// The hit `h`, kept only when its parameter lies inside the bounds.
pub open spec fn bounded(h: Option<HitRecord>, t_min: Fixed, t_max: Fixed) -> Option<HitRecord> {
    match h {
        Some(rec) => if inside(rec.t, t_min, t_max) {
            h
        } else {
            None
        },
        None => None,
    }
}

/// The nearer of two hits; `best`, which was found first, stays unless
/// `cand` is strictly nearer.
pub open spec fn closer(best: Option<HitRecord>, cand: Option<HitRecord>) -> Option<HitRecord> {
    match (best, cand) {
        (_, None) => best,
        (None, Some(_)) => cand,
        (Some(b), Some(c)) => if c.t@ < b.t@ {
            cand
        } else {
            best
        },
    }
}

/// The normal of the hit, if there is one, does not point along the ray.
pub open spec fn faces_ray(h: Option<HitRecord>, r: Ray) -> bool {
    h matches Some(rec) ==> Vec3::dot_spec(r.direction, rec.normal)@ <= 0
}

/// Keeps `best` unless `cand` lies inside the bounds and is strictly nearer.
pub fn keep_closer(
    best: Option<HitRecord>,
    cand: Option<HitRecord>,
    t_min: Fixed,
    t_max: Fixed,
) -> (res: Option<HitRecord>)
    ensures
        res == closer(best, bounded(cand, t_min, t_max)),
{
    match cand {
        None => best,
        Some(c) => {
            if c.t.le(t_min) || c.t.ge(t_max) {
                best
            } else {
                match best {
                    None => cand,
                    Some(b) => if c.t.lt(b.t) {
                        cand
                    } else {
                        best
                    },
                }
            }
        },
    }
}

/// Where and how a ray struck a surface.
#[derive(Clone, Copy, Debug, PartialEq, Eq, Structural)]
pub struct HitRecord {
    pub p: Point3,
    /// The surface normal, turned against the incoming ray.
    pub normal: Vec3,
    pub t: Fixed,
    pub albedo: Color,
    pub reflectivity: Fixed,
}

impl HitRecord {
    /// The record of a hit at `p` whose normal is `outward_normal`, turned
    /// round unless it already opposes the ray.
    pub open spec fn face_spec(
        r: Ray,
        p: Point3,
        outward_normal: Vec3,
        t: Fixed,
        albedo: Color,
        reflectivity: Fixed,
    ) -> HitRecord {
        HitRecord {
            p,
            normal: if Vec3::dot_spec(r.direction, outward_normal)@ < 0 {
                outward_normal
            } else {
                outward_normal.neg_spec()
            },
            t,
            albedo,
            reflectivity,
        }
    }

    /// The normal of a record never points along the ray that made it.
    pub proof fn lemma_front_face(
        r: Ray,
        p: Point3,
        outward_normal: Vec3,
        t: Fixed,
        albedo: Color,
        reflectivity: Fixed,
    )
        requires
            r.wf(),
            outward_normal.wf(),
        ensures
            Vec3::dot_spec(
                r.direction,
                HitRecord::face_spec(r, p, outward_normal, t, albedo, reflectivity).normal,
            )@ <= 0,
    {
        Vec3::lemma_dot_neg(r.direction, outward_normal);
    }

    /// The record of a hit at `p` whose normal is `outward_normal`, turned
    /// round unless it already opposes the ray.
    pub fn with_face_normal(
        r: &Ray,
        p: Point3,
        outward_normal: Vec3,
        t: Fixed,
        albedo: Color,
        reflectivity: Fixed,
    ) -> (rec: HitRecord)
        ensures
            rec == HitRecord::face_spec(*r, p, outward_normal, t, albedo, reflectivity),
            Vec3::dot_spec(r.direction, rec.normal)@ <= 0,
    {
        proof {
            use_type_invariant(&r.direction.x);
            use_type_invariant(&r.direction.y);
            use_type_invariant(&r.direction.z);
            use_type_invariant(&r.origin.x);
            use_type_invariant(&r.origin.y);
            use_type_invariant(&r.origin.z);
            use_type_invariant(&outward_normal.x);
            use_type_invariant(&outward_normal.y);
            use_type_invariant(&outward_normal.z);
            HitRecord::lemma_front_face(*r, p, outward_normal, t, albedo, reflectivity);
        }
        let front = Vec3::dot(r.direction, outward_normal).lt(Fixed::zero());
        let normal = if front {
            outward_normal
        } else {
            outward_normal.neg()
        };
        HitRecord { p, normal, t, albedo, reflectivity }
    }
}

/// The nearest of a row of hits; of two equally near, the earlier one.
pub open spec fn nearest(cands: Seq<Option<HitRecord>>) -> Option<HitRecord>
    decreases cands.len(),
{
    if cands.len() == 0 {
        None
    } else {
        closer(nearest(cands.drop_last()), cands.last())
    }
}

/// No hit in the row is nearer than the nearest, which is one of the row;
/// every hit before it is strictly farther.
pub proof fn lemma_nearest(cands: Seq<Option<HitRecord>>)
    ensures
        forall|i: int|
            0 <= i < cands.len() && (#[trigger] cands[i]) is Some ==> nearest(cands) is Some
                && nearest(cands)->0.t@ <= cands[i]->0.t@,
        nearest(cands) is Some ==> exists|i: int|
            0 <= i < cands.len() && #[trigger] cands[i] == nearest(cands) && forall|j: int|
                0 <= j < i && (#[trigger] cands[j]) is Some ==> cands[j]->0.t@ > nearest(
                    cands,
                )->0.t@,
    decreases cands.len(),
{
    if cands.len() > 0 {
        let front = cands.drop_last();
        lemma_nearest(front);
        assert forall|i: int| 0 <= i < cands.len() && (#[trigger] cands[i]) is Some implies nearest(
            cands,
        ) is Some && nearest(cands)->0.t@ <= cands[i]->0.t@ by {
            if i < front.len() {
                assert(front[i] == cands[i]);
            }
        }
        if nearest(cands) is Some {
            if nearest(cands) == nearest(front) {
                let i = choose|i: int|
                    0 <= i < front.len() && #[trigger] front[i] == nearest(front) && forall|j: int|
                        0 <= j < i && (#[trigger] front[j]) is Some ==> front[j]->0.t@ > nearest(
                            front,
                        )->0.t@;
                assert(cands[i] == nearest(cands));
                assert forall|j: int| 0 <= j < i && (#[trigger] cands[j]) is Some implies cands[j]->0.t@
                    > nearest(cands)->0.t@ by {
                    assert(front[j] == cands[j]);
                }
            } else {
                let i = cands.len() - 1;
                assert(cands[i] == nearest(cands));
                assert forall|j: int| 0 <= j < i && (#[trigger] cands[j]) is Some implies cands[j]->0.t@
                    > nearest(cands)->0.t@ by {
                    assert(front[j] == cands[j]);
                }
            }
        }
    }
}

/// A surface that a ray can strike.
pub enum Hittable {
    Sphere(Sphere),
    Plane(Plane),
    Cube(Cube),
    Cylinder(Cylinder),
}

impl Hittable {
    pub open spec fn wf(self) -> bool {
        match self {
            Hittable::Sphere(s) => s.wf(),
            Hittable::Plane(s) => s.wf(),
            Hittable::Cube(s) => s.wf(),
            Hittable::Cylinder(s) => s.wf(),
        }
    }

    /// What the surface reports for a ray between two bounds.
    pub open spec fn hit_spec(self, r: Ray, t_min: Fixed, t_max: Fixed) -> Option<HitRecord> {
        match self {
            Hittable::Sphere(s) => s.hit_spec(r, t_min, t_max),
            Hittable::Plane(s) => s.hit_spec(r, t_min, t_max),
            Hittable::Cube(s) => s.hit_spec(r, t_min, t_max),
            Hittable::Cylinder(s) => s.hit_spec(r, t_min, t_max),
        }
    }

    /// With a nearer upper bound a surface reports the same hit, or none
    /// where that hit lies at or beyond the new bound.
    pub proof fn lemma_narrowing(self, r: Ray, t_min: Fixed, t_max: Fixed, bound: Fixed)
        requires
            bound@ <= t_max@,
        ensures
            self.hit_spec(r, t_min, bound) == nearer_than(self.hit_spec(r, t_min, t_max), bound),
    {
        match self {
            Hittable::Sphere(s) => s.lemma_narrowing(r, t_min, t_max, bound),
            Hittable::Plane(s) => s.lemma_narrowing(r, t_min, t_max, bound),
            Hittable::Cube(s) => s.lemma_narrowing(r, t_min, t_max, bound),
            Hittable::Cylinder(s) => s.lemma_narrowing(r, t_min, t_max, bound),
        }
    }

    /// A hit lies strictly inside the bounds.
    pub proof fn lemma_hit_in_bounds(self, r: Ray, t_min: Fixed, t_max: Fixed)
        ensures
            self.hit_spec(r, t_min, t_max) matches Some(h) ==> inside(h.t, t_min, t_max),
    {
    }

    /// The normal of a hit never points along the ray.
    pub proof fn lemma_front_face(self, r: Ray, t_min: Fixed, t_max: Fixed)
        requires
            self.wf(),
            r.wf(),
        ensures
            faces_ray(self.hit_spec(r, t_min, t_max), r),
    {
        broadcast use Fixed::lemma_of_view;

        match self.hit_spec(r, t_min, t_max) {
            None => {},
            Some(h) => {
                match self {
                    Hittable::Sphere(s) => {
                        let p = r.at_spec(h.t);
                        HitRecord::lemma_front_face(
                            r,
                            p,
                            p.sub_spec(s.center).div_spec(s.radius),
                            h.t,
                            h.albedo,
                            h.reflectivity,
                        );
                    },
                    Hittable::Plane(s) => {
                        HitRecord::lemma_front_face(
                            r,
                            h.p,
                            s.normal,
                            h.t,
                            h.albedo,
                            h.reflectivity,
                        );
                    },
                    Hittable::Cube(s) => {
                        match s.bounds.hit_spec(r, t_min, t_max) {
                            Some((t, n)) => {
                                HitRecord::lemma_front_face(
                                    r,
                                    h.p,
                                    n,
                                    h.t,
                                    h.albedo,
                                    h.reflectivity,
                                );
                            },
                            None => {},
                        }
                    },
                    Hittable::Cylinder(s) => {
                        s.lemma_front_face(r, t_min, t_max);
                    },
                }
            },
        }
    }

    /// Where the ray strikes the surface between the two bounds, if it does.
    pub fn hit(&self, r: &Ray, t_min: Fixed, t_max: Fixed) -> (res: Option<HitRecord>)
        ensures
            res == self.hit_spec(*r, t_min, t_max),
            res matches Some(h) ==> inside(h.t, t_min, t_max),
            faces_ray(res, *r),
    {
        match self {
            Hittable::Sphere(s) => s.hit(r, t_min, t_max),
            Hittable::Plane(s) => s.hit(r, t_min, t_max),
            Hittable::Cube(s) => s.hit(r, t_min, t_max),
            Hittable::Cylinder(s) => s.hit(r, t_min, t_max),
        }
    }
}

/// A scene: the surfaces in the order in which they were added.
pub struct HittableList {
    pub objects: Vec<Hittable>,
}

impl HittableList {
    pub open spec fn wf(self) -> bool {
        forall|i: int| 0 <= i < self.objects@.len() ==> (#[trigger] self.objects@[i]).wf()
    }

    /// What each surface reports by itself, in the order of the scene.
    pub open spec fn candidates_spec(self, r: Ray, t_min: Fixed, t_max: Fixed) -> Seq<
        Option<HitRecord>,
    > {
        Seq::new(self.objects@.len(), |i: int| self.objects@[i].hit_spec(r, t_min, t_max))
    }

    /// The nearest hit over all surfaces; of two equally near, the one on
    /// the surface that was added first.
    pub open spec fn hit_spec(self, r: Ray, t_min: Fixed, t_max: Fixed) -> Option<HitRecord> {
        nearest(self.candidates_spec(r, t_min, t_max))
    }

    /// Every surface added before surface `i` is missed, or hit strictly
    /// farther off than the scene is.
    pub open spec fn first_at(self, r: Ray, t_min: Fixed, t_max: Fixed, i: int) -> bool {
        forall|j: int|
            0 <= j < i && (#[trigger] self.objects@[j].hit_spec(r, t_min, t_max)) is Some
                ==> self.objects@[j].hit_spec(r, t_min, t_max)->0.t@ > self.hit_spec(
                r,
                t_min,
                t_max,
            )->0.t@
    }

    /// No surface of the scene has a hit nearer than the one the scene
    /// reports, and that one is the hit of one of its surfaces: of the first
    /// added among those that are hit equally near.
    pub proof fn lemma_hit_is_nearest(self, r: Ray, t_min: Fixed, t_max: Fixed)
        ensures
            forall|i: int|
                0 <= i < self.objects@.len() && (#[trigger] self.objects@[i].hit_spec(
                    r,
                    t_min,
                    t_max,
                )) is Some ==> self.hit_spec(r, t_min, t_max) is Some && self.hit_spec(
                    r,
                    t_min,
                    t_max,
                )->0.t@ <= self.objects@[i].hit_spec(r, t_min, t_max)->0.t@,
            self.hit_spec(r, t_min, t_max) is Some ==> exists|i: int|
                0 <= i < self.objects@.len() && #[trigger] self.objects@[i].hit_spec(
                    r,
                    t_min,
                    t_max,
                ) == self.hit_spec(r, t_min, t_max) && self.first_at(r, t_min, t_max, i),
            self.hit_spec(r, t_min, t_max) matches Some(h) ==> inside(h.t, t_min, t_max),
    {
        let cands = self.candidates_spec(r, t_min, t_max);
        lemma_nearest(cands);
        assert forall|i: int|
            0 <= i < self.objects@.len() && (#[trigger] self.objects@[i].hit_spec(
                r,
                t_min,
                t_max,
            )) is Some implies self.hit_spec(r, t_min, t_max) is Some && self.hit_spec(
            r,
            t_min,
            t_max,
        )->0.t@ <= self.objects@[i].hit_spec(r, t_min, t_max)->0.t@ by {
            assert(cands[i] == self.objects@[i].hit_spec(r, t_min, t_max));
        }
        if self.hit_spec(r, t_min, t_max) is Some {
            let i = choose|i: int|
                0 <= i < cands.len() && #[trigger] cands[i] == nearest(cands) && forall|j: int|
                    0 <= j < i && (#[trigger] cands[j]) is Some ==> cands[j]->0.t@ > nearest(
                        cands,
                    )->0.t@;
            assert(self.objects@[i].hit_spec(r, t_min, t_max) == self.hit_spec(r, t_min, t_max));
            self.objects@[i].lemma_hit_in_bounds(r, t_min, t_max);
            assert(self.first_at(r, t_min, t_max, i)) by {
                assert forall|j: int| 0 <= j < i implies cands[j] == #[trigger] self.objects@[j].hit_spec(
                    r,
                    t_min,
                    t_max,
                ) by {}
            }
        }
    }

    /// The normal of a hit never points along the ray.
    pub proof fn lemma_front_face(self, r: Ray, t_min: Fixed, t_max: Fixed)
        requires
            self.wf(),
            r.wf(),
        ensures
            faces_ray(self.hit_spec(r, t_min, t_max), r),
    {
        self.lemma_hit_is_nearest(r, t_min, t_max);
        if self.hit_spec(r, t_min, t_max) is Some {
            let i = choose|i: int|
                0 <= i < self.objects@.len() && #[trigger] self.objects@[i].hit_spec(
                    r,
                    t_min,
                    t_max,
                ) == self.hit_spec(r, t_min, t_max);
            self.objects@[i].lemma_front_face(r, t_min, t_max);
        }
    }

    /// The scene with no surface.
    pub fn new() -> (list: HittableList)
        ensures
            list.objects@.len() == 0,
    {
        HittableList { objects: Vec::new() }
    }

    /// Adds a surface after those already there.
    pub fn add(&mut self, obj: Hittable)
        ensures
            final(self).objects@ == old(self).objects@.push(obj),
    {
        self.objects.push(obj);
    }

    /// Asks every surface in turn, each time only for a hit nearer than
    /// the best so far.
    pub fn hit(&self, r: &Ray, t_min: Fixed, t_max: Fixed) -> (res: Option<HitRecord>)
        ensures
            res == self.hit_spec(*r, t_min, t_max),
            res matches Some(h) ==> inside(h.t, t_min, t_max),
            faces_ray(res, *r),
            forall|i: int|
                0 <= i < self.objects@.len() && (#[trigger] self.objects@[i].hit_spec(
                    *r,
                    t_min,
                    t_max,
                )) is Some ==> res is Some && res->0.t@ <= self.objects@[i].hit_spec(
                    *r,
                    t_min,
                    t_max,
                )->0.t@,
    {
        let ghost cands = self.candidates_spec(*r, t_min, t_max);
        let mut closest_so_far = t_max;
        let mut hit_any: Option<HitRecord> = None;
        let mut i: usize = 0;
        proof {
            assert(cands.take(0) =~= Seq::empty());
        }
        while i < self.objects.len()
            invariant
                i <= self.objects@.len(),
                cands == self.candidates_spec(*r, t_min, t_max),
                hit_any == nearest(cands.take(i as int)),
                closest_so_far == (match hit_any {
                    Some(h) => h.t,
                    None => t_max,
                }),
                closest_so_far@ <= t_max@,
                hit_any matches Some(h) ==> inside(h.t, t_min, t_max),
                faces_ray(hit_any, *r),
            decreases self.objects@.len() - i,
        {
            let found = self.objects[i].hit(r, t_min, closest_so_far);
            proof {
                let obj = self.objects@[i as int];
                obj.lemma_narrowing(*r, t_min, t_max, closest_so_far);
                obj.lemma_narrowing(*r, t_min, t_max, t_max);
                assert(cands[i as int] == obj.hit_spec(*r, t_min, t_max));
                assert(cands.take(i + 1).drop_last() =~= cands.take(i as int));
                assert(cands.take(i + 1).last() == cands[i as int]);
            }
            match found {
                Some(rec) => {
                    closest_so_far = rec.t;
                    hit_any = Some(rec);
                },
                None => {},
            }
            i += 1;
        }
        proof {
            assert(cands.take(i as int) =~= cands);
            self.lemma_hit_is_nearest(*r, t_min, t_max);
        }
        hit_any
    }
}

} // verus!
