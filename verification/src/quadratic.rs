use crate::fixed::{
    floor_sqrt, lemma_floor_sqrt, lemma_quot_monotone, quot_toward_zero, saturate, Fixed, RAW_MAX,
    SCALE,
};
use crate::wide::Wide;
use vstd::prelude::*;

verus! {

/// Greatest magnitude of a coefficient: twelve times the square of the
/// greatest raw value, which the dot product of two differences of
/// scalars cannot exceed.
pub const COEFFICIENT_MAX: i128 = 48_000_000_000_000_000_000_000_000_000_000_000_000;

/// The dot product of two vectors of whole numbers.
pub open spec fn dot3_spec(ax: int, ay: int, az: int, bx: int, by: int, bz: int) -> int {
    ax * bx + ay * by + az * bz
}

/// The scalar of `n / a`, rounded toward zero, for two numbers in the same
/// unit.
pub open spec fn ratio_spec(n: int, a: int) -> Fixed {
    Fixed::of(saturate(quot_toward_zero(n * SCALE, a)))
}

/// The scalar of `n / d`, rounded toward zero, for a divisor of either
/// sign that is not zero.
pub open spec fn signed_ratio_spec(n: int, d: int) -> Fixed {
    if d > 0 {
        ratio_spec(n, d)
    } else {
        ratio_spec(-n, -d)
    }
}

/// The discriminant of `a t^2 + 2 hb t + c`, divided by four.
pub open spec fn discriminant_spec(a: int, hb: int, c: int) -> int {
    hb * hb - a * c
}

/// The two roots of `a t^2 + 2 hb t + c`, the smaller first, for whole
/// coefficients in one unit: `None` where the leading coefficient is not
/// positive or the discriminant is negative. Nothing is rounded but the
/// square root, down to a whole number, and the two quotients, toward
/// zero to a scalar.
pub open spec fn roots_spec(a: int, hb: int, c: int) -> Option<(Fixed, Fixed)> {
    let disc = discriminant_spec(a, hb, c);
    if a <= 0 || disc < 0 {
        None
    } else {
        let s = floor_sqrt(disc);
        Some((ratio_spec(-hb - s, a), ratio_spec(-hb + s, a)))
    }
}

/// A ratio that does not saturate lies less than one raw unit from the
/// exact quotient, on the side of zero.
pub proof fn lemma_ratio_rounding(n: int, a: int)
    requires
        a > 0,
    ensures
        ({
            let q = quot_toward_zero(n * SCALE, a);
            &&& -RAW_MAX <= q <= RAW_MAX ==> ratio_spec(n, a)@ == q
            &&& n >= 0 ==> a * q <= n * SCALE < a * q + a
            &&& n < 0 ==> a * q - a < n * SCALE <= a * q
        }),
{
    broadcast use Fixed::lemma_of_view;

    let m = n * SCALE;
    if n >= 0 {
        assert(m >= 0) by (nonlinear_arith)
            requires
                n >= 0,
                m == n * SCALE,
        ;
        vstd::arithmetic::div_mod::lemma_fundamental_div_mod(m, a);
        vstd::arithmetic::div_mod::lemma_mod_bound(m, a);
    } else {
        assert(m < 0) by (nonlinear_arith)
            requires
                n < 0,
                m == n * SCALE,
        ;
        vstd::arithmetic::div_mod::lemma_fundamental_div_mod(-m, a);
        vstd::arithmetic::div_mod::lemma_mod_bound(-m, a);
        let q = -((-m) / a);
        assert(a * q == -(a * ((-m) / a))) by (nonlinear_arith)
            requires
                q == -((-m) / a),
        ;
    }
}

/// A ratio grows with its numerator.
pub proof fn lemma_ratio_monotone(n1: int, n2: int, a: int)
    requires
        n1 <= n2,
        a > 0,
    ensures
        ratio_spec(n1, a)@ <= ratio_spec(n2, a)@,
{
    broadcast use Fixed::lemma_of_view;

    assert(n1 * SCALE <= n2 * SCALE) by (nonlinear_arith)
        requires
            n1 <= n2,
    ;
    lemma_quot_monotone(n1 * SCALE, n2 * SCALE, a);
}

/// The smaller root is not greater than the larger.
pub proof fn lemma_roots_ordered(a: int, hb: int, c: int)
    ensures
        roots_spec(a, hb, c) matches Some((near, far)) ==> near@ <= far@,
{
    let disc = discriminant_spec(a, hb, c);
    if a > 0 && disc >= 0 {
        lemma_floor_sqrt(disc);
        let s = floor_sqrt(disc);
        lemma_ratio_monotone(-hb - s, -hb + s, a);
    }
}

/// The value of `a t^2 + 2 hb t + c` at the parameter of `t` raw units,
/// times the square of the scale.
pub open spec fn residual_spec(a: int, hb: int, c: int, t: int) -> int {
    a * t * t + 2 * hb * SCALE * t + c * SCALE * SCALE
}

/// How far from zero `a` times the residual can lie at a root that is
/// rounded: the square root of the discriminant is off by less than one,
/// and the quotient by less than one raw unit.
pub open spec fn residual_bound_spec(a: int, s: int) -> int {
    2 * s * SCALE * SCALE + 2 * SCALE * a * s + a * a
}

/// At a reported root the equation is met up to rounding: `a` times the
/// residual lies within the stated bound. For a direction of unit length
/// this holds the place on the line within a few raw units of the surface.
pub proof fn lemma_root_residual(a: int, hb: int, c: int, upper: bool)
    requires
        a > 0,
        discriminant_spec(a, hb, c) >= 0,
    ensures
        ({
            let s = floor_sqrt(discriminant_spec(a, hb, c));
            let n = if upper {
                -hb + s
            } else {
                -hb - s
            };
            let t = quot_toward_zero(n * SCALE, a);
            let f = residual_spec(a, hb, c, t);
            -residual_bound_spec(a, s) <= a * f <= residual_bound_spec(a, s)
        }),
{
    let disc = discriminant_spec(a, hb, c);
    lemma_floor_sqrt(disc);
    let s = floor_sqrt(disc);
    let n = if upper {
        -hb + s
    } else {
        -hb - s
    };
    let t = quot_toward_zero(n * SCALE, a);
    lemma_ratio_rounding(n, a);
    let e = n * SCALE - a * t;
    assert(-a < e < a);
    let g = disc - s * s;
    assert(0 <= g <= 2 * s) by (nonlinear_arith)
        requires
            s >= 0,
            s * s <= disc,
            disc < (s + 1) * (s + 1),
            g == disc - s * s,
    ;
    let m = n + hb;
    assert(m == s || m == -s);
    let f = residual_spec(a, hb, c, t);
    let at = a * t;
    assert(at == n * SCALE - e);
    assert(a * f == at * at + 2 * hb * SCALE * at + a * c * SCALE * SCALE) by (nonlinear_arith)
        requires
            f == a * t * t + 2 * hb * SCALE * t + c * SCALE * SCALE,
            at == a * t,
    ;
    let k = SCALE as int;
    let u = n * k;
    let v = hb * k;
    let w = k * k;
    let ac = a * c;
    assert(2 * hb * SCALE * at == 2 * (v * at) && a * c * SCALE * SCALE == ac * w)
        by (nonlinear_arith)
        requires
            v == hb * k,
            w == k * k,
            ac == a * c,
            k == SCALE,
    ;
    assert(at * at == u * u - 2 * (u * e) + e * e) by (nonlinear_arith)
        requires
            at == u - e,
    ;
    assert(v * at == v * u - v * e) by (nonlinear_arith)
        requires
            at == u - e,
    ;
    assert(u * u == w * (n * n)) by (nonlinear_arith)
        requires
            u == n * k,
            w == k * k,
    ;
    assert(v * u == w * (hb * n)) by (nonlinear_arith)
        requires
            u == n * k,
            v == hb * k,
            w == k * k,
    ;
    let inner = n * n + 2 * (hb * n) + ac;
    assert(w * (n * n) + 2 * (w * (hb * n)) + ac * w == w * inner) by (nonlinear_arith)
        requires
            inner == n * n + 2 * (hb * n) + ac,
    ;
    assert(inner == m * m - disc) by (nonlinear_arith)
        requires
            inner == n * n + 2 * (hb * n) + ac,
            m == n + hb,
            disc == hb * hb - ac,
    ;
    assert(u * e + v * e == k * e * m) by (nonlinear_arith)
        requires
            u == n * k,
            v == hb * k,
            m == n + hb,
    ;
    assert(a * f == w * (m * m - disc) - 2 * (k * e * m) + e * e);
    assert(w * (m * m - disc) == k * k * (m * m - disc) && 2 * (k * e * m) == 2 * k * e * m)
        by (nonlinear_arith)
        requires
            w == k * k,
    ;
    assert(m * m == s * s) by (nonlinear_arith)
        requires
            m == s || m == -s,
    ;
    assert(-(k * k * (2 * s)) <= k * k * (m * m - disc) <= 0) by (nonlinear_arith)
        requires
            m * m - disc == -g,
            0 <= g <= 2 * s,
            k > 0,
    ;
    assert(-(2 * k * a * s) <= 2 * k * e * m <= 2 * k * a * s) by (nonlinear_arith)
        requires
            -a < e < a,
            m == s || m == -s,
            s >= 0,
            k > 0,
            a > 0,
    ;
    assert(0 <= e * e <= a * a) by (nonlinear_arith)
        requires
            -a < e < a,
    ;
    assert(k * k * (2 * s) == 2 * s * k * k) by (nonlinear_arith);
}

/// The dot product of two vectors whose components are differences of
/// scalars at most.
pub fn dot3(ax: i128, ay: i128, az: i128, bx: i128, by: i128, bz: i128) -> (d: i128)
    requires
        -2 * RAW_MAX <= ax <= 2 * RAW_MAX,
        -2 * RAW_MAX <= ay <= 2 * RAW_MAX,
        -2 * RAW_MAX <= az <= 2 * RAW_MAX,
        -2 * RAW_MAX <= bx <= 2 * RAW_MAX,
        -2 * RAW_MAX <= by <= 2 * RAW_MAX,
        -2 * RAW_MAX <= bz <= 2 * RAW_MAX,
    ensures
        d == dot3_spec(ax as int, ay as int, az as int, bx as int, by as int, bz as int),
        -COEFFICIENT_MAX <= d <= COEFFICIENT_MAX,
{
    proof {
        lemma_product_range(ax as int, bx as int);
        lemma_product_range(ay as int, by as int);
        lemma_product_range(az as int, bz as int);
    }
    ax * bx + ay * by + az * bz
}

proof fn lemma_product_range(a: int, b: int)
    requires
        -2 * RAW_MAX <= a <= 2 * RAW_MAX,
        -2 * RAW_MAX <= b <= 2 * RAW_MAX,
    ensures
        -16_000_000_000_000_000_000_000_000_000_000_000_000 <= a * b
            <= 16_000_000_000_000_000_000_000_000_000_000_000_000,
{
    assert(-(4_000_000_000_000_000_000int * 4_000_000_000_000_000_000int) <= a * b
        <= 4_000_000_000_000_000_000int * 4_000_000_000_000_000_000int) by (nonlinear_arith)
        requires
            -4_000_000_000_000_000_000 <= a <= 4_000_000_000_000_000_000,
            -4_000_000_000_000_000_000 <= b <= 4_000_000_000_000_000_000,
    ;
}

fn magnitude(n: i128) -> (m: u128)
    requires
        n > -0x7FFF_FFFF_FFFF_FFFF_FFFF_FFFF_FFFF_FFFF,
    ensures
        m == (if n < 0 {
            -n
        } else {
            n as int
        }),
{
    if n < 0 {
        (-n) as u128
    } else {
        n as u128
    }
}

/// The scalar of `n / a`, rounded toward zero.
pub fn ratio(n: i128, a: i128) -> (t: Fixed)
    requires
        a > 0,
        n > -0x7FFF_FFFF_FFFF_FFFF_FFFF_FFFF_FFFF_FFFF,
    ensures
        t == ratio_spec(n as int, a as int),
{
    let m = magnitude(n);
    let q = Wide::mul(m, SCALE as u128).div_capped(a as u128, RAW_MAX as u128);
    proof {
        if n < 0 {
            assert((-n) * SCALE == -(n * SCALE)) by (nonlinear_arith);
            assert(n * SCALE < 0) by (nonlinear_arith)
                requires
                    n < 0,
            ;
            vstd::arithmetic::div_mod::lemma_div_pos_is_pos(-(n * SCALE), a as int);
        } else {
            assert(n * SCALE >= 0) by (nonlinear_arith)
                requires
                    n >= 0,
            ;
            vstd::arithmetic::div_mod::lemma_div_pos_is_pos(n * SCALE, a as int);
        }
    }
    let whole = Fixed::from_raw(q as i64);
    if n < 0 {
        whole.neg()
    } else {
        whole
    }
}

/// The scalar of `n / d`, rounded toward zero, for a divisor of either
/// sign.
pub fn signed_ratio(n: i128, d: i128) -> (t: Fixed)
    requires
        d != 0,
        -COEFFICIENT_MAX <= n <= COEFFICIENT_MAX,
        -COEFFICIENT_MAX <= d <= COEFFICIENT_MAX,
    ensures
        t == signed_ratio_spec(n as int, d as int),
{
    if d > 0 {
        ratio(n, d)
    } else {
        ratio(-n, -d)
    }
}

/// The two roots of `a t^2 + 2 hb t + c`, the smaller first.
pub fn roots(a: i128, hb: i128, c: i128) -> (res: Option<(Fixed, Fixed)>)
    requires
        -COEFFICIENT_MAX <= a <= COEFFICIENT_MAX,
        -COEFFICIENT_MAX <= hb <= COEFFICIENT_MAX,
        -COEFFICIENT_MAX <= c <= COEFFICIENT_MAX,
    ensures
        res == roots_spec(a as int, hb as int, c as int),
{
    if a <= 0 {
        return None;
    }
    let hb_abs = magnitude(hb);
    let c_abs = magnitude(c);
    let square = Wide::mul(hb_abs, hb_abs);
    let product = Wide::mul(a as u128, c_abs);
    proof {
        assert(hb_abs * hb_abs == hb * hb) by (nonlinear_arith)
            requires
                hb_abs == hb || hb_abs == -hb,
        ;
        assert(a * c_abs == a * c || a * c_abs == -(a * c)) by (nonlinear_arith)
            requires
                c_abs == c || c_abs == -c,
        ;
        lemma_wide_bound(hb_abs as int, hb_abs as int, square);
        lemma_wide_bound(a as int, c_abs as int, product);
    }
    let disc = if c <= 0 {
        proof {
            assert(a * c <= 0) by (nonlinear_arith)
                requires
                    a > 0,
                    c <= 0,
            ;
        }
        square.add(product)
    } else {
        proof {
            assert(a * c >= 0) by (nonlinear_arith)
                requires
                    a > 0,
                    c > 0,
            ;
        }
        if !product.le(square) {
            return None;
        }
        square.sub(product)
    };
    assert(disc@ == discriminant_spec(a as int, hb as int, c as int));
    proof {
        lemma_top_small(disc);
    }
    let s = disc.isqrt();
    proof {
        assert(s <= 2 * COEFFICIENT_MAX) by (nonlinear_arith)
            requires
                s * s <= disc@,
                disc@ <= 2 * (COEFFICIENT_MAX * COEFFICIENT_MAX),
                s >= 0,
        ;
    }
    let s = s as i128;
    Some((ratio(-hb - s, a), ratio(-hb + s, a)))
}

/// A product of two numbers within the limit of a coefficient is at most
/// the square of that limit.
proof fn lemma_wide_bound(x: int, y: int, w: Wide)
    requires
        0 <= x <= COEFFICIENT_MAX,
        0 <= y <= COEFFICIENT_MAX,
        w@ == x * y,
    ensures
        0 <= w@ <= COEFFICIENT_MAX * COEFFICIENT_MAX,
        w.hi < 0x0800_0000_0000_0000_0000_0000_0000_0000,
{
    assert(0 <= x * y <= COEFFICIENT_MAX * COEFFICIENT_MAX) by (nonlinear_arith)
        requires
            0 <= x <= COEFFICIENT_MAX,
            0 <= y <= COEFFICIENT_MAX,
    ;
    lemma_top_small(w);
}

/// The upper half of a number that is at most twice the square of the
/// limit of a coefficient is small.
proof fn lemma_top_small(w: Wide)
    requires
        w@ <= 2 * (COEFFICIENT_MAX * COEFFICIENT_MAX),
    ensures
        w@ <= COEFFICIENT_MAX * COEFFICIENT_MAX ==> w.hi
            < 0x0800_0000_0000_0000_0000_0000_0000_0000,
        w.hi < 0x1000_0000_0000_0000_0000_0000_0000_0000,
{
    assert(COEFFICIENT_MAX * COEFFICIENT_MAX
        == 2_304_000_000_000_000_000_000_000_000_000_000_000_000_000_000_000_000_000_000_000_000_000_000_000_000int);
    assert(0x0800_0000_0000_0000_0000_0000_0000_0000int * crate::wide::whole()
        > 2_304_000_000_000_000_000_000_000_000_000_000_000_000_000_000_000_000_000_000_000_000_000_000_000_000int);
    assert(0x1000_0000_0000_0000_0000_0000_0000_0000int * crate::wide::whole()
        > 4_608_000_000_000_000_000_000_000_000_000_000_000_000_000_000_000_000_000_000_000_000_000_000_000_000int);
    let h = w.hi as int;
    let k = crate::wide::whole();
    assert(h * k <= w@);
    if w@ <= COEFFICIENT_MAX * COEFFICIENT_MAX {
        assert(h < 0x0800_0000_0000_0000_0000_0000_0000_0000int) by (nonlinear_arith)
            requires
                h * k
                    <= 2_304_000_000_000_000_000_000_000_000_000_000_000_000_000_000_000_000_000_000_000_000_000_000_000_000int,
                0x0800_0000_0000_0000_0000_0000_0000_0000int * k
                    > 2_304_000_000_000_000_000_000_000_000_000_000_000_000_000_000_000_000_000_000_000_000_000_000_000_000int,
                k > 0,
        ;
    }
    assert(h < 0x1000_0000_0000_0000_0000_0000_0000_0000int) by (nonlinear_arith)
        requires
            h * k
                <= 4_608_000_000_000_000_000_000_000_000_000_000_000_000_000_000_000_000_000_000_000_000_000_000_000_000int,
            0x1000_0000_0000_0000_0000_0000_0000_0000int * k
                > 4_608_000_000_000_000_000_000_000_000_000_000_000_000_000_000_000_000_000_000_000_000_000_000_000_000int,
            k > 0,
    ;
}

} // verus!
