use vstd::prelude::*;

verus! {

/// Raw units in one whole: a scalar carries twelve decimal places.
pub const SCALE: i64 = 1_000_000_000_000;

/// Largest raw magnitude: two million wholes. Results beyond it saturate.
pub const RAW_MAX: i64 = 2_000_000_000_000_000_000;

/// Clamps a raw value into the symmetric range of a scalar.
pub open spec fn saturate(x: int) -> int {
    if x > RAW_MAX {
        RAW_MAX as int
    } else if x < -RAW_MAX {
        -(RAW_MAX as int)
    } else {
        x
    }
}

/// The quotient of `n` by `d`, rounded toward zero.
pub open spec fn quot_toward_zero(n: int, d: int) -> int
    recommends
        d != 0,
{
    if n >= 0 && d > 0 {
        n / d
    } else if n < 0 && d > 0 {
        -((-n) / d)
    } else if n >= 0 {
        -(n / (-d))
    } else {
        (-n) / (-d)
    }
}

/// `r` is the greatest natural number whose square does not exceed `n`.
pub open spec fn is_floor_sqrt(n: int, r: int) -> bool {
    r >= 0 && r * r <= n < (r + 1) * (r + 1)
}

/// The greatest natural number whose square does not exceed `n`; zero for
/// a negative `n`.
pub open spec fn floor_sqrt(n: int) -> int
    decreases n,
{
    if n <= 0 {
        0
    } else {
        let r = 2 * floor_sqrt(n / 4);
        if (r + 1) * (r + 1) <= n {
            r + 1
        } else {
            r
        }
    }
}

/// `floor_sqrt` meets its description on every natural number.
pub proof fn lemma_floor_sqrt(n: int)
    requires
        n >= 0,
    ensures
        is_floor_sqrt(n, floor_sqrt(n)),
    decreases n,
{
    if n > 0 {
        let m = n / 4;
        lemma_floor_sqrt(m);
        let s = floor_sqrt(m);
        let r = 2 * s;
        assert(r * r <= n && n < (r + 2) * (r + 2)) by (nonlinear_arith)
            requires
                s >= 0,
                s * s <= m,
                m < (s + 1) * (s + 1),
                r == 2 * s,
                4 * m <= n,
                n <= 4 * m + 3,
        ;
        if (r + 1) * (r + 1) <= n {
            assert((r + 1 + 1) * (r + 1 + 1) == (r + 2) * (r + 2));
        }
    }
}

/// Only one number is the floor of a square root.
pub proof fn lemma_floor_sqrt_unique(n: int, r: int)
    requires
        is_floor_sqrt(n, r),
    ensures
        r == floor_sqrt(n),
{
    lemma_floor_sqrt(n);
    let s = floor_sqrt(n);
    assert(r == s) by (nonlinear_arith)
        requires
            r >= 0,
            s >= 0,
            r * r <= n,
            n < (r + 1) * (r + 1),
            s * s <= n,
            n < (s + 1) * (s + 1),
    ;
}

/// A quotient by a positive divisor grows with its dividend.
pub proof fn lemma_quot_monotone(x: int, y: int, d: int)
    requires
        x <= y,
        d > 0,
    ensures
        quot_toward_zero(x, d) <= quot_toward_zero(y, d),
{
    if x >= 0 {
        vstd::arithmetic::div_mod::lemma_div_is_ordered(x, y, d);
    } else if y < 0 {
        vstd::arithmetic::div_mod::lemma_div_is_ordered(-y, -x, d);
    } else {
        vstd::arithmetic::div_mod::lemma_div_pos_is_pos(-x, d);
        vstd::arithmetic::div_mod::lemma_div_pos_is_pos(y, d);
    }
}

proof fn lemma_product_bound(a: int, b: int)
    requires
        -RAW_MAX <= a <= RAW_MAX,
        -RAW_MAX <= b <= RAW_MAX,
    ensures
        -(RAW_MAX * RAW_MAX) <= a * b <= RAW_MAX * RAW_MAX,
        RAW_MAX * RAW_MAX == 4_000_000_000_000_000_000_000_000_000_000_000_000,
{
    assert(-(RAW_MAX * RAW_MAX) <= a * b <= RAW_MAX * RAW_MAX) by (nonlinear_arith)
        requires
            -RAW_MAX <= a <= RAW_MAX,
            -RAW_MAX <= b <= RAW_MAX,
    ;
    assert(RAW_MAX * RAW_MAX == 4_000_000_000_000_000_000_000_000_000_000_000_000);
}

/// The floor of the square root of `n`.
pub fn isqrt(n: u128) -> (r: u128)
    ensures
        r == floor_sqrt(n as int),
        is_floor_sqrt(n as int, r as int),
        r <= 0xFFFF_FFFF_FFFF_FFFF,
{
    let mut lo: u128 = 0;
    let mut hi: u128 = 0x1_0000_0000_0000_0000;
    assert(hi * hi > n) by {
        assert(0x1_0000_0000_0000_0000int * 0x1_0000_0000_0000_0000int
            == 0x1_0000_0000_0000_0000_0000_0000_0000_0000int);
    }
    while hi - lo > 1
        invariant
            lo < hi <= 0x1_0000_0000_0000_0000,
            lo * lo <= n,
            n < hi * hi,
        decreases hi - lo,
    {
        let mid: u128 = lo + (hi - lo) / 2;
        assert(mid * mid <= 0xFFFF_FFFF_FFFF_FFFFint * 0xFFFF_FFFF_FFFF_FFFFint)
            by (nonlinear_arith)
            requires
                0 <= mid <= 0xFFFF_FFFF_FFFF_FFFF,
        ;
        assert(0xFFFF_FFFF_FFFF_FFFFint * 0xFFFF_FFFF_FFFF_FFFFint
            == 0xFFFF_FFFF_FFFF_FFFE_0000_0000_0000_0001int);
        if mid * mid <= n {
            lo = mid;
        } else {
            hi = mid;
        }
    }
    proof {
        assert(hi == lo + 1);
        lemma_floor_sqrt_unique(n as int, lo as int);
    }
    lo
}

/// A decimal fixed-point scalar: an integer count of units of `1 / SCALE`,
/// held in the symmetric range from `-RAW_MAX` to `RAW_MAX`. Every operation
/// is total; a result out of range saturates at the nearer end.
#[derive(Clone, Copy, Debug, PartialEq, Eq, Structural)]
pub struct Fixed {
    raw: i64,
}

impl View for Fixed {
    type V = int;

    closed spec fn view(&self) -> int {
        self.raw as int
    }
}

impl Fixed {
    /// The raw value lies in the symmetric range.
    #[verifier::type_invariant]
    pub open spec fn wf(self) -> bool {
        -RAW_MAX <= self@ <= RAW_MAX
    }

    /// The scalar whose raw value is `x`.
    pub closed spec fn of(x: int) -> Fixed {
        Fixed { raw: x as i64 }
    }

    /// Reading back the raw value of `of(x)` gives `x`.
    pub broadcast proof fn lemma_of_view(x: int)
        requires
            -RAW_MAX <= x <= RAW_MAX,
        ensures
            (#[trigger] Fixed::of(x))@ == x,
    {
    }

    pub open spec fn zero_spec() -> Fixed {
        Fixed::of(0)
    }

    pub open spec fn one_spec() -> Fixed {
        Fixed::of(SCALE as int)
    }

    pub open spec fn max_value_spec() -> Fixed {
        Fixed::of(RAW_MAX as int)
    }

    pub open spec fn max_spec(self, rhs: Fixed) -> Fixed {
        if self@ < rhs@ {
            rhs
        } else {
            self
        }
    }

    pub open spec fn min_spec(self, rhs: Fixed) -> Fixed {
        if rhs@ < self@ {
            rhs
        } else {
            self
        }
    }

    /// `lo` where the scalar lies under it, `hi` where it lies over it,
    /// else the scalar itself.
    pub open spec fn clamp_spec(self, lo: Fixed, hi: Fixed) -> Fixed {
        if self@ < lo@ {
            lo
        } else if self@ > hi@ {
            hi
        } else {
            self
        }
    }

    /// The scalar of `n` thousandths.
    pub open spec fn from_milli_spec(n: int) -> Fixed {
        Fixed::of(saturate(n * 1_000_000_000))
    }

    /// The scalar of `n` wholes.
    pub open spec fn from_int_spec(n: int) -> Fixed {
        Fixed::of(saturate(n * SCALE))
    }

    pub open spec fn add_spec(self, rhs: Fixed) -> Fixed {
        Fixed::of(saturate(self@ + rhs@))
    }

    pub open spec fn sub_spec(self, rhs: Fixed) -> Fixed {
        Fixed::of(saturate(self@ - rhs@))
    }

    pub open spec fn neg_spec(self) -> Fixed {
        Fixed::of(saturate(-self@))
    }

    pub open spec fn abs_spec(self) -> Fixed {
        if self@ < 0 {
            self.neg_spec()
        } else {
            self
        }
    }

    /// The product with `t`, rounded toward zero, added to `start`; only
    /// the sum saturates.
    pub open spec fn mul_add_spec(self, t: Fixed, start: Fixed) -> Fixed {
        Fixed::of(saturate(start@ + quot_toward_zero(self@ * t@, SCALE as int)))
    }

    /// The product, rounded toward zero.
    pub open spec fn mul_spec(self, rhs: Fixed) -> Fixed {
        Fixed::of(saturate(quot_toward_zero(self@ * rhs@, SCALE as int)))
    }

    /// The quotient, rounded toward zero. A division by zero saturates in
    /// the direction of the dividend, and gives zero for a zero dividend.
    pub open spec fn div_spec(self, rhs: Fixed) -> Fixed {
        if rhs@ == 0 {
            if self@ > 0 {
                Fixed::of(RAW_MAX as int)
            } else if self@ < 0 {
                Fixed::of(-(RAW_MAX as int))
            } else {
                Fixed::of(0)
            }
        } else {
            Fixed::of(saturate(quot_toward_zero(self@ * SCALE, rhs@)))
        }
    }

    /// The square root, rounded down; zero for a negative scalar.
    pub open spec fn sqrt_spec(self) -> Fixed {
        if self@ <= 0 {
            Fixed::of(0)
        } else {
            Fixed::of(floor_sqrt(self@ * SCALE))
        }
    }

    /// The whole part, rounded toward zero.
    pub open spec fn trunc_spec(self) -> int {
        quot_toward_zero(self@, SCALE as int)
    }

    /// The Euclidean norm of three scalars, rounded down.
    pub open spec fn norm3_spec(a: Fixed, b: Fixed, c: Fixed) -> Fixed {
        Fixed::of(saturate(floor_sqrt(a@ * a@ + b@ * b@ + c@ * c@)))
    }

    /// Negating a scalar in range negates its raw value.
    pub proof fn lemma_neg_view(a: Fixed)
        requires
            a.wf(),
        ensures
            a.neg_spec()@ == -a@,
            a.neg_spec().wf(),
    {
    }

    /// Negating one factor negates the product.
    pub proof fn lemma_mul_neg(a: Fixed, b: Fixed)
        requires
            a.wf(),
            b.wf(),
        ensures
            a.mul_spec(b.neg_spec()) == a.mul_spec(b).neg_spec(),
    {
        let p = a@ * b@;
        assert(a@ * (-b@) == -p) by (nonlinear_arith)
            requires
                p == a@ * b@,
        ;
    }

    /// Negating both terms negates the sum.
    pub proof fn lemma_add_neg(a: Fixed, b: Fixed)
        requires
            a.wf(),
            b.wf(),
        ensures
            a.neg_spec().add_spec(b.neg_spec()) == a.add_spec(b).neg_spec(),
    {
    }

    /// A quotient by a divisor that is not negative grows with its dividend.
    pub proof fn lemma_div_monotone(a: Fixed, b: Fixed, c: Fixed)
        requires
            a@ <= b@,
            c@ >= 0,
        ensures
            a.div_spec(c)@ <= b.div_spec(c)@,
    {
        if c@ > 0 {
            let x = a@ * SCALE;
            let y = b@ * SCALE;
            assert(x <= y) by (nonlinear_arith)
                requires
                    a@ <= b@,
                    x == a@ * SCALE,
                    y == b@ * SCALE,
            ;
            lemma_quot_monotone(x, y, c@);
        }
    }

    /// A square root is never negative.
    pub proof fn lemma_sqrt_nonneg(a: Fixed)
        requires
            a.wf(),
        ensures
            a.sqrt_spec()@ >= 0,
            a.sqrt_spec().wf(),
    {
        if a@ > 0 {
            let n = a@ * SCALE;
            assert(0 <= n <= RAW_MAX * SCALE) by (nonlinear_arith)
                requires
                    0 <= a@ <= RAW_MAX,
                    n == a@ * SCALE,
            ;
            lemma_floor_sqrt(n);
            let s = floor_sqrt(n);
            assert(s <= RAW_MAX) by (nonlinear_arith)
                requires
                    s * s <= n,
                    n <= RAW_MAX * SCALE,
                    s >= 0,
            ;
        }
    }

    /// A scalar times itself is never negative.
    pub proof fn lemma_square_nonneg(a: Fixed)
        ensures
            a.mul_spec(a)@ >= 0,
            a.mul_spec(a).wf(),
    {
        assert(a@ * a@ >= 0) by (nonlinear_arith);
    }

    /// The scalar of `raw` units, or the nearer end of the range where
    /// `raw` lies outside it.
    pub fn from_raw(raw: i64) -> (r: Fixed)
        ensures
            r == Fixed::of(saturate(raw as int)),
            r@ == saturate(raw as int),
    {
        if raw < -RAW_MAX {
            Fixed { raw: -RAW_MAX }
        } else if raw > RAW_MAX {
            Fixed { raw: RAW_MAX }
        } else {
            Fixed { raw }
        }
    }

    /// The number of units.
    pub fn raw(self) -> (r: i64)
        ensures
            r == self@,
            self.wf(),
    {
        proof {
            use_type_invariant(&self);
        }
        self.raw
    }

    pub fn zero() -> (r: Fixed)
        ensures
            r == Fixed::zero_spec(),
            r@ == 0,
    {
        Fixed { raw: 0 }
    }

    pub fn one() -> (r: Fixed)
        ensures
            r == Fixed::one_spec(),
            r@ == SCALE,
    {
        Fixed { raw: SCALE }
    }

    /// The greatest scalar; it stands for an unbounded distance.
    pub fn max_value() -> (r: Fixed)
        ensures
            r == Fixed::max_value_spec(),
            r@ == RAW_MAX,
    {
        Fixed { raw: RAW_MAX }
    }

    fn from_wide(q: i128) -> (r: Fixed)
        ensures
            r == Fixed::of(saturate(q as int)),
            r@ == saturate(q as int),
            r.wf(),
    {
        if q > RAW_MAX as i128 {
            Fixed { raw: RAW_MAX }
        } else if q < -(RAW_MAX as i128) {
            Fixed { raw: -RAW_MAX }
        } else {
            Fixed { raw: q as i64 }
        }
    }

    /// The scalar of `n` thousandths.
    pub fn from_milli(n: i32) -> (r: Fixed)
        ensures
            r == Fixed::from_milli_spec(n as int),
            r.wf(),
    {
        assert(-0x8000_0000 * 1_000_000_000 <= n * 1_000_000_000 <= 0x8000_0000 * 1_000_000_000)
            by (nonlinear_arith)
            requires
                -0x8000_0000 <= n <= 0x8000_0000,
        ;
        Fixed::from_wide((n as i128) * 1_000_000_000)
    }

    /// The scalar of `n` wholes.
    pub fn from_int(n: i64) -> (r: Fixed)
        ensures
            r == Fixed::from_int_spec(n as int),
            r.wf(),
    {
        assert(-0x8000_0000_0000_0000 * SCALE <= n * SCALE <= 0x8000_0000_0000_0000 * SCALE)
            by (nonlinear_arith)
            requires
                -0x8000_0000_0000_0000 <= n <= 0x8000_0000_0000_0000,
        ;
        Fixed::from_wide((n as i128) * (SCALE as i128))
    }

    pub fn add(self, rhs: Fixed) -> (r: Fixed)
        ensures
            r == self.add_spec(rhs),
            r.wf(),
    {
        Fixed::from_wide(self.raw as i128 + rhs.raw as i128)
    }

    pub fn sub(self, rhs: Fixed) -> (r: Fixed)
        ensures
            r == self.sub_spec(rhs),
            r.wf(),
    {
        Fixed::from_wide(self.raw as i128 - rhs.raw as i128)
    }

    pub fn neg(self) -> (r: Fixed)
        ensures
            r == self.neg_spec(),
            r.wf(),
    {
        Fixed::from_wide(-(self.raw as i128))
    }

    pub fn abs(self) -> (r: Fixed)
        ensures
            r == self.abs_spec(),
            r.wf(),
    {
        proof {
            use_type_invariant(&self);
        }
        if self.raw < 0 {
            self.neg()
        } else {
            self
        }
    }

    /// The product with `t`, rounded toward zero, added to `start`; only
    /// the sum saturates.
    pub fn mul_add(self, t: Fixed, start: Fixed) -> (r: Fixed)
        ensures
            r == self.mul_add_spec(t, start),
            r.wf(),
    {
        proof {
            use_type_invariant(&self);
            use_type_invariant(&t);
            use_type_invariant(&start);
            lemma_product_bound(self.raw as int, t.raw as int);
        }
        let p: i128 = (self.raw as i128) * (t.raw as i128);
        Fixed::from_wide(start.raw as i128 + p / (SCALE as i128))
    }

    /// The product, rounded toward zero.
    pub fn mul(self, rhs: Fixed) -> (r: Fixed)
        ensures
            r == self.mul_spec(rhs),
            r.wf(),
    {
        proof {
            use_type_invariant(&self);
            use_type_invariant(&rhs);
            lemma_product_bound(self.raw as int, rhs.raw as int);
        }
        let p: i128 = (self.raw as i128) * (rhs.raw as i128);
        Fixed::from_wide(p / (SCALE as i128))
    }

    /// The quotient, rounded toward zero. A division by zero saturates in
    /// the direction of the dividend, and gives zero for a zero dividend.
    pub fn div(self, rhs: Fixed) -> (r: Fixed)
        ensures
            r == self.div_spec(rhs),
            r.wf(),
    {
        proof {
            use_type_invariant(&self);
            use_type_invariant(&rhs);
        }
        if rhs.raw == 0 {
            if self.raw > 0 {
                Fixed { raw: RAW_MAX }
            } else if self.raw < 0 {
                Fixed { raw: -RAW_MAX }
            } else {
                Fixed { raw: 0 }
            }
        } else {
            assert(-(RAW_MAX * SCALE) <= self.raw * SCALE <= RAW_MAX * SCALE) by (nonlinear_arith)
                requires
                    -RAW_MAX <= self.raw <= RAW_MAX,
            ;
            let p: i128 = (self.raw as i128) * (SCALE as i128);
            let q: i128 = if rhs.raw > 0 {
                p / (rhs.raw as i128)
            } else {
                (-p) / (-(rhs.raw as i128))
            };
            Fixed::from_wide(q)
        }
    }

    /// The square root, rounded down; zero for a negative scalar.
    pub fn sqrt(self) -> (r: Fixed)
        ensures
            r == self.sqrt_spec(),
            r.wf(),
    {
        proof {
            use_type_invariant(&self);
        }
        if self.raw <= 0 {
            Fixed { raw: 0 }
        } else {
            assert(0 <= self.raw * SCALE <= RAW_MAX * SCALE) by (nonlinear_arith)
                requires
                    0 <= self.raw <= RAW_MAX,
            ;
            let n: u128 = (self.raw as u128) * (SCALE as u128);
            let s: u128 = isqrt(n);
            assert(s <= RAW_MAX) by (nonlinear_arith)
                requires
                    s * s <= n,
                    n <= RAW_MAX * SCALE,
                    s >= 0,
            ;
            Fixed { raw: s as i64 }
        }
    }

    /// The whole part, rounded toward zero.
    pub fn trunc(self) -> (r: i64)
        ensures
            r == self.trunc_spec(),
    {
        self.raw / SCALE
    }

    /// The Euclidean norm of three scalars, rounded down.
    pub fn norm3(a: Fixed, b: Fixed, c: Fixed) -> (r: Fixed)
        ensures
            r == Fixed::norm3_spec(a, b, c),
            r.wf(),
    {
        proof {
            use_type_invariant(&a);
            use_type_invariant(&b);
            use_type_invariant(&c);
            lemma_product_bound(a.raw as int, a.raw as int);
            lemma_product_bound(b.raw as int, b.raw as int);
            lemma_product_bound(c.raw as int, c.raw as int);
            assert(a.raw * a.raw >= 0 && b.raw * b.raw >= 0 && c.raw * c.raw >= 0)
                by (nonlinear_arith);
        }
        let aa: i128 = (a.raw as i128) * (a.raw as i128);
        let bb: i128 = (b.raw as i128) * (b.raw as i128);
        let cc: i128 = (c.raw as i128) * (c.raw as i128);
        let n: u128 = aa as u128 + bb as u128 + cc as u128;
        let s: u128 = isqrt(n);
        if s > RAW_MAX as u128 {
            Fixed { raw: RAW_MAX }
        } else {
            Fixed { raw: s as i64 }
        }
    }

    pub fn max(self, rhs: Fixed) -> (r: Fixed)
        ensures
            r == self.max_spec(rhs),
    {
        if self.raw < rhs.raw {
            rhs
        } else {
            self
        }
    }

    pub fn min(self, rhs: Fixed) -> (r: Fixed)
        ensures
            r == self.min_spec(rhs),
    {
        if rhs.raw < self.raw {
            rhs
        } else {
            self
        }
    }

    /// `lo` where the scalar lies under it, `hi` where it lies over it,
    /// else the scalar itself.
    pub fn clamp(self, lo: Fixed, hi: Fixed) -> (r: Fixed)
        ensures
            r == self.clamp_spec(lo, hi),
    {
        if self.raw < lo.raw {
            lo
        } else if self.raw > hi.raw {
            hi
        } else {
            self
        }
    }

    pub fn lt(self, rhs: Fixed) -> (b: bool)
        ensures
            b == (self@ < rhs@),
    {
        self.raw < rhs.raw
    }

    pub fn le(self, rhs: Fixed) -> (b: bool)
        ensures
            b == (self@ <= rhs@),
    {
        self.raw <= rhs.raw
    }

    pub fn gt(self, rhs: Fixed) -> (b: bool)
        ensures
            b == (self@ > rhs@),
    {
        self.raw > rhs.raw
    }

    pub fn ge(self, rhs: Fixed) -> (b: bool)
        ensures
            b == (self@ >= rhs@),
    {
        self.raw >= rhs.raw
    }

    pub fn is_zero(self) -> (b: bool)
        ensures
            b == (self@ == 0),
    {
        self.raw == 0
    }
}

} // verus!
