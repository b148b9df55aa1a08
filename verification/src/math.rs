use crate::fixed::{Fixed, SCALE};
use rand::Rng;
use vstd::prelude::*;

verus! {

/// A whole number drawn at random from zero up to `bound`, which is left
/// out.
///
/// Calls `Rng::gen_range` of `rand` on the thread's own generator with the
/// half-open range from zero to `bound`. Trusted: the number drawn lies in
/// that range. The generator is seeded by the system, so two calls need
/// not agree, and nothing more is claimed. Where the system gives the
/// generator no seed, `rand` panics: at the first draw of a thread, and
/// when the generator seeds itself anew after 64 KiB of output.
#[verifier::external_body]
fn random_below(bound: i64) -> (r: i64)
    requires
        bound > 0,
    ensures
        0 <= r < bound,
{
    rand::thread_rng().gen_range(0..bound)
}

/// A scalar drawn at random from zero up to one, which is left out.
pub fn random_f64() -> (r: Fixed)
    ensures
        0 <= r@ < SCALE,
{
    Fixed::from_raw(random_below(SCALE))
}

/// Three scalars, read as a point, a direction or a colour.
#[derive(Clone, Copy, Debug, PartialEq, Eq, Structural)]
pub struct Vec3 {
    pub x: Fixed,
    pub y: Fixed,
    pub z: Fixed,
}

impl Default for Vec3 {
    fn default() -> (v: Vec3)
        ensures
            v == Vec3::zero_spec(),
    {
        Vec3::zero()
    }
}

pub type Point3 = Vec3;

pub type Color = Vec3;

impl Vec3 {
    /// Every component lies in the range of a scalar.
    pub open spec fn wf(self) -> bool {
        self.x.wf() && self.y.wf() && self.z.wf()
    }

    pub open spec fn zero_spec() -> Vec3 {
        Vec3 { x: Fixed::zero_spec(), y: Fixed::zero_spec(), z: Fixed::zero_spec() }
    }

    pub open spec fn add_spec(self, rhs: Vec3) -> Vec3 {
        Vec3 {
            x: self.x.add_spec(rhs.x),
            y: self.y.add_spec(rhs.y),
            z: self.z.add_spec(rhs.z),
        }
    }

    pub open spec fn sub_spec(self, rhs: Vec3) -> Vec3 {
        Vec3 {
            x: self.x.sub_spec(rhs.x),
            y: self.y.sub_spec(rhs.y),
            z: self.z.sub_spec(rhs.z),
        }
    }

    pub open spec fn neg_spec(self) -> Vec3 {
        Vec3 { x: self.x.neg_spec(), y: self.y.neg_spec(), z: self.z.neg_spec() }
    }

    pub open spec fn scale_spec(self, t: Fixed) -> Vec3 {
        Vec3 { x: self.x.mul_spec(t), y: self.y.mul_spec(t), z: self.z.mul_spec(t) }
    }

    pub open spec fn mul_spec(self, rhs: Vec3) -> Vec3 {
        Vec3 {
            x: self.x.mul_spec(rhs.x),
            y: self.y.mul_spec(rhs.y),
            z: self.z.mul_spec(rhs.z),
        }
    }

    pub open spec fn div_spec(self, t: Fixed) -> Vec3 {
        Vec3 { x: self.x.div_spec(t), y: self.y.div_spec(t), z: self.z.div_spec(t) }
    }

    pub open spec fn dot_spec(a: Vec3, b: Vec3) -> Fixed {
        a.x.mul_spec(b.x).add_spec(a.y.mul_spec(b.y)).add_spec(a.z.mul_spec(b.z))
    }

    pub open spec fn cross_spec(a: Vec3, b: Vec3) -> Vec3 {
        Vec3 {
            x: a.y.mul_spec(b.z).sub_spec(a.z.mul_spec(b.y)),
            y: a.z.mul_spec(b.x).sub_spec(a.x.mul_spec(b.z)),
            z: a.x.mul_spec(b.y).sub_spec(a.y.mul_spec(b.x)),
        }
    }

    pub open spec fn length_squared_spec(self) -> Fixed {
        Vec3::dot_spec(self, self)
    }

    /// The Euclidean norm, rounded down to a raw unit.
    pub open spec fn length_spec(self) -> Fixed {
        Fixed::norm3_spec(self.x, self.y, self.z)
    }

    /// The vector divided by its length; a vector of length zero is left
    /// as it is.
    pub open spec fn unit_spec(self) -> Vec3 {
        if self.length_spec()@ == 0 {
            self
        } else {
            self.div_spec(self.length_spec())
        }
    }

    /// Turning one vector round negates the dot product.
    pub proof fn lemma_dot_neg(a: Vec3, b: Vec3)
        requires
            a.wf(),
            b.wf(),
        ensures
            Vec3::dot_spec(a, b.neg_spec()) == Vec3::dot_spec(a, b).neg_spec(),
            Vec3::dot_spec(a, b.neg_spec())@ == -Vec3::dot_spec(a, b)@,
    {
        broadcast use Fixed::lemma_of_view;

        Fixed::lemma_mul_neg(a.x, b.x);
        Fixed::lemma_mul_neg(a.y, b.y);
        Fixed::lemma_mul_neg(a.z, b.z);
        let mx = a.x.mul_spec(b.x);
        let my = a.y.mul_spec(b.y);
        let mz = a.z.mul_spec(b.z);
        Fixed::lemma_add_neg(mx, my);
        Fixed::lemma_add_neg(mx.add_spec(my), mz);
        Fixed::lemma_neg_view(Vec3::dot_spec(a, b));
    }

    /// A vector's dot product with itself is never negative.
    pub proof fn lemma_dot_self_nonneg(a: Vec3)
        ensures
            Vec3::dot_spec(a, a)@ >= 0,
            Vec3::dot_spec(a, a).wf(),
    {
        broadcast use Fixed::lemma_of_view;

        Fixed::lemma_square_nonneg(a.x);
        Fixed::lemma_square_nonneg(a.y);
        Fixed::lemma_square_nonneg(a.z);
    }

    pub fn new(x: Fixed, y: Fixed, z: Fixed) -> (r: Vec3)
        ensures
            r == (Vec3 { x, y, z }),
    {
        Vec3 { x, y, z }
    }

    pub fn zero() -> (r: Vec3)
        ensures
            r == Vec3::zero_spec(),
    {
        Vec3 { x: Fixed::zero(), y: Fixed::zero(), z: Fixed::zero() }
    }

    /// The Euclidean norm, rounded down to a raw unit.
    pub fn length(&self) -> (r: Fixed)
        ensures
            r == self.length_spec(),
            r.wf(),
    {
        Fixed::norm3(self.x, self.y, self.z)
    }

    /// The dot product of the vector with itself.
    pub fn length_squared(&self) -> (r: Fixed)
        ensures
            r == self.length_squared_spec(),
            r.wf(),
    {
        Vec3::dot(*self, *self)
    }

    pub fn dot(a: Vec3, b: Vec3) -> (r: Fixed)
        ensures
            r == Vec3::dot_spec(a, b),
            r.wf(),
    {
        a.x.mul(b.x).add(a.y.mul(b.y)).add(a.z.mul(b.z))
    }

    pub fn cross(a: Vec3, b: Vec3) -> (r: Vec3)
        ensures
            r == Vec3::cross_spec(a, b),
            r.wf(),
    {
        Vec3 {
            x: a.y.mul(b.z).sub(a.z.mul(b.y)),
            y: a.z.mul(b.x).sub(a.x.mul(b.z)),
            z: a.x.mul(b.y).sub(a.y.mul(b.x)),
        }
    }

    /// The vector divided by its length; a vector of length zero is left as
    /// it is.
    pub fn unit(self) -> (r: Vec3)
        ensures
            r == self.unit_spec(),
    {
        let len = self.length();
        if len.is_zero() {
            self
        } else {
            self.div(len)
        }
    }

    pub fn add(self, rhs: Vec3) -> (r: Vec3)
        ensures
            r == self.add_spec(rhs),
            r.wf(),
    {
        Vec3 { x: self.x.add(rhs.x), y: self.y.add(rhs.y), z: self.z.add(rhs.z) }
    }

    pub fn sub(self, rhs: Vec3) -> (r: Vec3)
        ensures
            r == self.sub_spec(rhs),
            r.wf(),
    {
        Vec3 { x: self.x.sub(rhs.x), y: self.y.sub(rhs.y), z: self.z.sub(rhs.z) }
    }

    pub fn neg(self) -> (r: Vec3)
        ensures
            r == self.neg_spec(),
            r.wf(),
    {
        Vec3 { x: self.x.neg(), y: self.y.neg(), z: self.z.neg() }
    }

    /// Every component multiplied by `t`.
    pub fn scale(self, t: Fixed) -> (r: Vec3)
        ensures
            r == self.scale_spec(t),
            r.wf(),
    {
        Vec3 { x: self.x.mul(t), y: self.y.mul(t), z: self.z.mul(t) }
    }

    /// The component-wise product, as used to tint a colour.
    pub fn mul(self, rhs: Vec3) -> (r: Vec3)
        ensures
            r == self.mul_spec(rhs),
            r.wf(),
    {
        Vec3 { x: self.x.mul(rhs.x), y: self.y.mul(rhs.y), z: self.z.mul(rhs.z) }
    }

    /// Every component divided by `t`.
    pub fn div(self, t: Fixed) -> (r: Vec3)
        ensures
            r == self.div_spec(t),
            r.wf(),
    {
        Vec3 { x: self.x.div(t), y: self.y.div(t), z: self.z.div(t) }
    }
}

/// The mirror image of `v` about a surface with normal `n`.
pub open spec fn reflect_spec(v: Vec3, n: Vec3) -> Vec3 {
    v.sub_spec(n.scale_spec(Fixed::from_int_spec(2).mul_spec(Vec3::dot_spec(v, n))))
}

/// The mirror image of `v` about a surface with normal `n`.
pub fn reflect(v: Vec3, n: Vec3) -> (r: Vec3)
    ensures
        r == reflect_spec(v, n),
        r.wf(),
{
    v.sub(n.scale(Fixed::from_int(2).mul(Vec3::dot(v, n))))
}

} // verus!
