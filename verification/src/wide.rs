use crate::fixed::{floor_sqrt, is_floor_sqrt, lemma_floor_sqrt_unique};
use vstd::prelude::*;

verus! {

/// Two to the power of 64.
pub const HALF: u128 = 0x1_0000_0000_0000_0000;

/// Two to the power of 128.
pub open spec fn whole() -> int {
    0x1_0000_0000_0000_0000_0000_0000_0000_0000int
}

/// A natural number of up to 256 binary digits, in two halves.
#[derive(Clone, Copy, Debug)]
pub struct Wide {
    pub hi: u128,
    pub lo: u128,
}

impl View for Wide {
    type V = int;

    open spec fn view(&self) -> int {
        self.hi * whole() + self.lo
    }
}

impl Wide {
    /// The product of two numbers, in full.
    pub fn mul(x: u128, y: u128) -> (w: Wide)
        ensures
            w@ == x * y,
    {
        let x1 = x / HALF;
        let x0 = x % HALF;
        let y1 = y / HALF;
        let y0 = y % HALF;
        assert(x0 * y0 <= 0xFFFF_FFFF_FFFF_FFFF * 0xFFFF_FFFF_FFFF_FFFF && x0 * y1
            <= 0xFFFF_FFFF_FFFF_FFFF * 0xFFFF_FFFF_FFFF_FFFF && x1 * y0 <= 0xFFFF_FFFF_FFFF_FFFF
            * 0xFFFF_FFFF_FFFF_FFFF && x1 * y1 <= 0xFFFF_FFFF_FFFF_FFFF * 0xFFFF_FFFF_FFFF_FFFF)
            by (nonlinear_arith)
            requires
                0 <= x0 <= 0xFFFF_FFFF_FFFF_FFFF,
                0 <= x1 <= 0xFFFF_FFFF_FFFF_FFFF,
                0 <= y0 <= 0xFFFF_FFFF_FFFF_FFFF,
                0 <= y1 <= 0xFFFF_FFFF_FFFF_FFFF,
        ;
        assert(0xFFFF_FFFF_FFFF_FFFFint * 0xFFFF_FFFF_FFFF_FFFFint
            == 0xFFFF_FFFF_FFFF_FFFE_0000_0000_0000_0001int);
        let p00 = x0 * y0;
        let p01 = x0 * y1;
        let p10 = x1 * y0;
        let p11 = x1 * y1;
        let p00_hi = p00 / HALF;
        let p00_lo = p00 % HALF;
        let p01_hi = p01 / HALF;
        let p01_lo = p01 % HALF;
        let p10_hi = p10 / HALF;
        let p10_lo = p10 % HALF;
        let mid = p00_hi + p01_lo + p10_lo;
        let mid_hi = mid / HALF;
        let mid_lo = mid % HALF;
        let lo = p00_lo + mid_lo * HALF;
        let ghost top: int = p11 + p01_hi + p10_hi + mid_hi;
        assert(top * whole() + lo == x * y) by (nonlinear_arith)
            requires
                x == x1 * 0x1_0000_0000_0000_0000 + x0,
                y == y1 * 0x1_0000_0000_0000_0000 + y0,
                p00 == x0 * y0,
                p01 == x0 * y1,
                p10 == x1 * y0,
                p11 == x1 * y1,
                p00 == p00_hi * 0x1_0000_0000_0000_0000 + p00_lo,
                p01 == p01_hi * 0x1_0000_0000_0000_0000 + p01_lo,
                p10 == p10_hi * 0x1_0000_0000_0000_0000 + p10_lo,
                p00_hi + p01_lo + p10_lo == mid_hi * 0x1_0000_0000_0000_0000 + mid_lo,
                lo == p00_lo + mid_lo * 0x1_0000_0000_0000_0000,
                top == p11 + p01_hi + p10_hi + mid_hi,
                whole() == 0x1_0000_0000_0000_0000_0000_0000_0000_0000int,
        ;
        assert(top < whole()) by (nonlinear_arith)
            requires
                top * whole() + lo == x * y,
                0 <= lo,
                0 <= top,
                x < whole(),
                y < whole(),
                0 <= x,
                0 <= y,
                whole() > 0,
        ;
        let hi = p11 + p01_hi + p10_hi + mid_hi;
        Wide { hi, lo }
    }

    pub fn le(self, rhs: Wide) -> (b: bool)
        ensures
            b == (self@ <= rhs@),
    {
        self.hi < rhs.hi || (self.hi == rhs.hi && self.lo <= rhs.lo)
    }

    /// The sum of two numbers whose upper halves leave room for it.
    pub fn add(self, rhs: Wide) -> (w: Wide)
        requires
            self.hi + rhs.hi < 0xFFFF_FFFF_FFFF_FFFF_FFFF_FFFF_FFFF_FFFF,
        ensures
            w@ == self@ + rhs@,
    {
        if self.lo > u128::MAX - rhs.lo {
            Wide { hi: self.hi + rhs.hi + 1, lo: self.lo - (u128::MAX - rhs.lo) - 1 }
        } else {
            Wide { hi: self.hi + rhs.hi, lo: self.lo + rhs.lo }
        }
    }

    /// The difference of two numbers of which the second is not the
    /// greater.
    pub fn sub(self, rhs: Wide) -> (w: Wide)
        requires
            rhs@ <= self@,
        ensures
            w@ == self@ - rhs@,
    {
        if self.lo >= rhs.lo {
            Wide { hi: self.hi - rhs.hi, lo: self.lo - rhs.lo }
        } else {
            Wide { hi: self.hi - rhs.hi - 1, lo: u128::MAX - rhs.lo + 1 + self.lo }
        }
    }

    /// The floor of the square root of a number under two to the power
    /// of 252.
    pub fn isqrt(self) -> (r: u128)
        requires
            self.hi < 0x1000_0000_0000_0000_0000_0000_0000_0000,
        ensures
            r == floor_sqrt(self@),
            is_floor_sqrt(self@, r as int),
            r < 0x4000_0000_0000_0000_0000_0000_0000_0000,
    {
        let mut lo: u128 = 0;
        let mut hi: u128 = 0x4000_0000_0000_0000_0000_0000_0000_0000;
        assert(hi * hi > self@) by {
            assert(0x4000_0000_0000_0000_0000_0000_0000_0000int
                * 0x4000_0000_0000_0000_0000_0000_0000_0000int
                == 0x1000_0000_0000_0000_0000_0000_0000_0000int * whole());
            assert(self.hi * whole() + self.lo < (self.hi + 1) * whole()) by (nonlinear_arith)
                requires
                    self.lo < whole(),
            ;
            assert((self.hi + 1) * whole() <= 0x1000_0000_0000_0000_0000_0000_0000_0000int
                * whole()) by (nonlinear_arith)
                requires
                    self.hi + 1 <= 0x1000_0000_0000_0000_0000_0000_0000_0000int,
                    whole() > 0,
            ;
        }
        while hi - lo > 1
            invariant
                lo < hi <= 0x4000_0000_0000_0000_0000_0000_0000_0000,
                lo * lo <= self@,
                self@ < hi * hi,
            decreases hi - lo,
        {
            let mid: u128 = lo + (hi - lo) / 2;
            if Wide::mul(mid, mid).le(self) {
                lo = mid;
            } else {
                hi = mid;
            }
        }
        proof {
            assert(hi == lo + 1);
            lemma_floor_sqrt_unique(self@, lo as int);
        }
        lo
    }

    /// The quotient by `d`, rounded down, or `cap` where the quotient is
    /// greater.
    pub fn div_capped(self, d: u128, cap: u128) -> (q: u128)
        requires
            d > 0,
        ensures
            q == (if self@ / (d as int) > cap {
                cap as int
            } else {
                self@ / (d as int)
            }),
    {
        if Wide::mul(cap, d).le(self) {
            proof {
                let full = cap * d;
                assert(full == d * cap) by (nonlinear_arith)
                    requires
                        full == cap * d,
                ;
                vstd::arithmetic::div_mod::lemma_div_is_ordered(full, self@, d as int);
                vstd::arithmetic::div_mod::lemma_div_multiples_vanish(cap as int, d as int);
                assert(full / (d as int) == cap);
                assert(self@ / (d as int) >= cap);
            }
            return cap;
        }
        let mut lo: u128 = 0;
        let mut hi: u128 = cap;
        assert(0 * d == 0) by (nonlinear_arith);
        while hi - lo > 1
            invariant
                lo < hi <= cap,
                lo * d <= self@,
                self@ < hi * d,
                d > 0,
            decreases hi - lo,
        {
            let mid: u128 = lo + (hi - lo) / 2;
            if Wide::mul(mid, d).le(self) {
                lo = mid;
            } else {
                hi = mid;
            }
        }
        proof {
            assert(hi == lo + 1);
            let rem = self@ - lo * d;
            assert(rem < d) by (nonlinear_arith)
                requires
                    self@ < (lo + 1) * d,
                    rem == self@ - lo * d,
            ;
            vstd::arithmetic::div_mod::lemma_fundamental_div_mod_converse(
                self@,
                d as int,
                lo as int,
                rem,
            );
        }
        lo
    }
}

} // verus!
