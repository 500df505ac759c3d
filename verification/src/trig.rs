//! Fixed-point trigonometry: sine and cosine by a rational approximation
//! on a reduced range, arctangent by a polynomial, and the spherical
//! helpers built from them. Each function is pinned exactly to its spec
//! mirror; the mirrors are this library's trigonometric model.

use vstd::prelude::*;
use vstd::arithmetic::div_mod::lemma_div_is_ordered;
use vstd::arithmetic::div_mod::lemma_div_multiples_vanish;
use vstd::arithmetic::div_mod::lemma_div_pos_is_pos;
use crate::fx::FX_ONE;
use crate::fx::WIDE_CAP;
use crate::fx::mul_fx_spec;
use crate::fx::div_fx_spec;
use crate::fx::clamp_spec;
use crate::fx::sqrt_floor;
use crate::fx::sabs;
use crate::fx::mul_fx;
use crate::fx::div_fx;
use crate::fx::clamp_fx;
use crate::fx::sqrt_fx;
use crate::fx::mod_euclid;
use crate::fx::lemma_mul_fx_bound;
use crate::fx::lemma_div_fx_bound;
use crate::fx::lemma_div_trunc_bound;

verus! {

/// Pi, two pi, half pi and quarter pi in 64.16 fixed point.
pub const PI_FX: i128 = 205887;

pub const TWO_PI_FX: i128 = 411774;

pub const HALF_PI_FX: i128 = 102943;

pub const QUARTER_PI_FX: i128 = 51472;

/// `mul_fx_spec(PI_FX, PI_FX)`: pi squared in fixed point.
pub const PISQ_FX: i128 = 646812;

/// The polynomial coefficient of the arctangent approximation
/// (0.273 in fixed point).
pub const ATAN_K: i128 = 17891;

/// The sine approximation on `[0, pi]`: `16 y (pi - y)` over
/// `5 pi^2 - 4 y (pi - y)`, computed in fixed point.
pub open spec fn half_sin_spec(y: int) -> int {
    let p = mul_fx_spec(y, PI_FX as int - y);
    div_fx_spec(16 * p, 5 * PISQ_FX as int - 4 * p)
}

/// The full sine: reduce into `[0, 2 pi)`, then apply the half-period
/// approximation with the sign of the half.
pub open spec fn sin_spec(x: int) -> int {
    let r = x % (TWO_PI_FX as int);
    if r < PI_FX as int {
        half_sin_spec(r)
    } else {
        -half_sin_spec(r - PI_FX as int)
    }
}

pub open spec fn cos_spec(x: int) -> int {
    sin_spec(x + HALF_PI_FX as int)
}

/// The arctangent approximation on `[-1, 1]`:
/// `z * (pi/4 + 0.273 * (1 - |z|))` in fixed point.
pub open spec fn atan_core_spec(z: int) -> int {
    mul_fx_spec(z, QUARTER_PI_FX as int + mul_fx_spec(ATAN_K as int, FX_ONE as int - sabs(z)))
}

/// Quadrant-aware arctangent of `y / x`, zero at the origin.
pub open spec fn atan2_spec(y: int, x: int) -> int {
    if y == 0 && x == 0 {
        0
    } else if sabs(y) <= sabs(x) {
        let b = atan_core_spec(div_fx_spec(y, x));
        if x > 0 {
            b
        } else if y >= 0 {
            b + PI_FX as int
        } else {
            b - PI_FX as int
        }
    } else {
        let b = atan_core_spec(div_fx_spec(x, y));
        if y > 0 {
            HALF_PI_FX as int - b
        } else {
            -HALF_PI_FX as int - b
        }
    }
}

/// Arcsine of a clamped operand, through the arctangent of
/// `t / sqrt(1 - t^2)`.
pub open spec fn asin_spec(t: int) -> int {
    let c = clamp_spec(t, -FX_ONE as int, FX_ONE as int);
    let s = sqrt_floor(((FX_ONE as int - mul_fx_spec(c, c)) * 65536) as nat) as int;
    atan2_spec(c, s)
}

/// The half-period sine core; its result stays within one.
fn half_sin(y: i128) -> (r: i128)
    requires
        0 <= y <= PI_FX,
    ensures
        r == half_sin_spec(y as int),
        0 <= r <= FX_ONE,
{
    let p: i128 = mul_fx(y, PI_FX - y);
    proof {
        let yi = y as int;
        assert(yi * (205887 - yi) >= 0) by (nonlinear_arith)
            requires
                0 <= yi <= 205887,
        ;
        assert(4 * (yi * (205887 - yi)) <= 205887 * 205887) by (nonlinear_arith);
        lemma_div_is_ordered(yi * (205887 - yi), 10597364192, 65536);
        lemma_div_pos_is_pos(yi * (205887 - yi), 65536);
        assert(p <= 161702);
        assert(p >= 0);
    }
    let num: i128 = 16 * p;
    let den: i128 = 5 * PISQ_FX - 4 * p;
    proof {
        assert(den >= 2587252);
        assert(num <= den);
        assert(num * 65536 <= den * 65536);
        lemma_div_is_ordered(num * 65536, den as int * 65536, den as int);
        lemma_div_multiples_vanish(65536, den as int);
        lemma_div_pos_is_pos(num * 65536, den as int);
        assert(sabs(num * 65536) == num * 65536);
    }
    div_fx(num, den)
}

/// Sine of any fixed-point angle.
pub fn sin_fx(x: i128) -> (r: i128)
    requires
        -WIDE_CAP <= x <= WIDE_CAP,
    ensures
        r == sin_spec(x as int),
        -FX_ONE <= r <= FX_ONE,
{
    let m: i128 = mod_euclid(x, TWO_PI_FX);
    if m < PI_FX {
        half_sin(m)
    } else {
        -half_sin(m - PI_FX)
    }
}

/// Cosine, as the sine shifted by a quarter period.
pub fn cos_fx(x: i128) -> (r: i128)
    requires
        -WIDE_CAP + HALF_PI_FX <= x <= WIDE_CAP - HALF_PI_FX,
    ensures
        r == cos_spec(x as int),
        -FX_ONE <= r <= FX_ONE,
{
    sin_fx(x + HALF_PI_FX)
}

/// The arctangent core stays within a quarter period and carries the
/// sign of its operand.
pub proof fn lemma_atan_core_props(z: int)
    requires
        -65536 <= z <= 65536,
    ensures
        -QUARTER_PI_FX <= atan_core_spec(z) <= QUARTER_PI_FX,
        z >= 0 ==> atan_core_spec(z) >= 0,
        z <= 0 ==> atan_core_spec(z) <= 0,
{
    let a = sabs(z);
    let m = mul_fx_spec(17891, 65536 - a);
    assert(17891 * (65536 - a) >= 0) by (nonlinear_arith)
        requires
            0 <= a <= 65536,
    ;
    lemma_div_pos_is_pos(17891 * (65536 - a), 65536);
    vstd::arithmetic::div_mod::lemma_remainder_lower(17891 * (65536 - a), 65536);
    let inner = 51472 + m;
    assert(inner >= 51472);
    assert(inner * 65536 <= 51472 * 65536 + 17891 * (65536 - a));
    // The polynomial peaks at the end of the range: the product of the
    // operand with the coefficient stays under a quarter period.
    assert(a * (51472 * 65536 + 17891 * (65536 - a)) <= 51472 * 65536 * 65536)
        by (nonlinear_arith)
        requires
            0 <= a <= 65536,
    ;
    assert(a * (inner * 65536) <= a * (51472 * 65536 + 17891 * (65536 - a)))
        by (nonlinear_arith)
        requires
            0 <= a,
            inner * 65536 <= 51472 * 65536 + 17891 * (65536 - a),
    ;
    assert(a * inner <= 51472 * 65536) by (nonlinear_arith)
        requires
            a * (inner * 65536) <= 51472 * 65536 * 65536,
            0 <= a,
    ;
    assert(-(a * inner) <= z * inner <= a * inner) by (nonlinear_arith)
        requires
            -a <= z <= a,
            inner >= 0,
    ;
    lemma_div_trunc_bound(z * inner, 65536, 51472int * 65536);
    crate::fx::lemma_div_trunc_sign(z * inner, 65536);
    if z > 0 {
        assert(z * inner >= 0) by (nonlinear_arith)
            requires
                z >= 0,
                inner >= 0,
        ;
    } else if z < 0 {
        assert(z * inner <= 0) by (nonlinear_arith)
            requires
                z <= 0,
                inner >= 0,
        ;
    } else {
        assert(z * inner == 0) by (nonlinear_arith)
            requires
                z == 0,
        ;
    }
}

/// The quadrant-aware arctangent stays within half a period, and within
/// a quarter period of the axis when `x` is nonnegative.
pub proof fn lemma_atan2_props(y: int, x: int)
    ensures
        -PI_FX <= atan2_spec(y, x) <= PI_FX,
        x >= 0 ==> -HALF_PI_FX <= atan2_spec(y, x) <= HALF_PI_FX,
{
    if y == 0 && x == 0 {
    } else if sabs(y) <= sabs(x) {
        assert(x != 0);
        lemma_div_fx_bound(y, x, sabs(x), sabs(x));
        lemma_div_multiples_vanish(65536, sabs(x));
        let z = div_fx_spec(y, x);
        lemma_atan_core_props(z);
        crate::fx::lemma_div_trunc_sign(y * 65536, x);
        assert(y >= 0 ==> y * 65536 >= 0) by (nonlinear_arith);
        assert(y <= 0 ==> y * 65536 <= 0) by (nonlinear_arith);
    } else {
        assert(y != 0);
        lemma_div_fx_bound(x, y, sabs(y), sabs(y));
        lemma_div_multiples_vanish(65536, sabs(y));
        let z = div_fx_spec(x, y);
        lemma_atan_core_props(z);
        crate::fx::lemma_div_trunc_sign(x * 65536, y);
        assert(x >= 0 ==> x * 65536 >= 0) by (nonlinear_arith);
        assert(x <= 0 ==> x * 65536 <= 0) by (nonlinear_arith);
    }
}

/// The arcsine stays within a quarter period either side of zero.
pub proof fn lemma_asin_range(t: int)
    ensures
        -HALF_PI_FX <= asin_spec(t) <= HALF_PI_FX,
{
    let c = clamp_spec(t, -65536, 65536);
    let s = sqrt_floor(((65536 - mul_fx_spec(c, c)) * 65536) as nat) as int;
    assert(s >= 0);
    lemma_atan2_props(c, s);
}

/// The arctangent core on `[-1, 1]`.
fn atan_core(z: i128) -> (r: i128)
    requires
        -FX_ONE <= z <= FX_ONE,
    ensures
        r == atan_core_spec(z as int),
        -QUARTER_PI_FX <= r <= QUARTER_PI_FX,
{
    proof {
        lemma_atan_core_props(z as int);
    }
    let a: i128 = if z >= 0 {
        z
    } else {
        -z
    };
    proof {
        lemma_mul_fx_bound(ATAN_K as int, FX_ONE as int - a as int, 17891, 65536);
    }
    let inner: i128 = QUARTER_PI_FX + mul_fx(ATAN_K, FX_ONE - a);
    proof {
        lemma_mul_fx_bound(z as int, inner as int, 65536, 69363);
    }
    mul_fx(z, inner)
}

/// Quadrant-aware arctangent.
pub fn atan2_fx(y: i128, x: i128) -> (r: i128)
    requires
        -crate::fx::DIV_CAP <= y <= crate::fx::DIV_CAP,
        -crate::fx::DIV_CAP <= x <= crate::fx::DIV_CAP,
    ensures
        r == atan2_spec(y as int, x as int),
        -PI_FX <= r <= PI_FX,
        x >= 0 ==> -HALF_PI_FX <= r <= HALF_PI_FX,
{
    proof {
        lemma_atan2_props(y as int, x as int);
    }
    let ay: i128 = if y >= 0 {
        y
    } else {
        -y
    };
    let ax: i128 = if x >= 0 {
        x
    } else {
        -x
    };
    if y == 0 && x == 0 {
        0
    } else if ay <= ax {
        proof {
            lemma_div_fx_bound(y as int, x as int, sabs(x as int), sabs(x as int));
            lemma_div_multiples_vanish(65536, sabs(x as int));
        }
        let z: i128 = div_fx(y, x);
        let b: i128 = atan_core(z);
        if x > 0 {
            b
        } else if y >= 0 {
            b + PI_FX
        } else {
            b - PI_FX
        }
    } else {
        proof {
            lemma_div_fx_bound(x as int, y as int, sabs(y as int), sabs(y as int));
            lemma_div_multiples_vanish(65536, sabs(y as int));
        }
        let z: i128 = div_fx(x, y);
        let b: i128 = atan_core(z);
        if y > 0 {
            HALF_PI_FX - b
        } else {
            -HALF_PI_FX - b
        }
    }
}

/// Arcsine with clamping of the operand into `[-1, 1]`.
pub fn asin_fx(t: i128) -> (r: i128)
    requires
        -WIDE_CAP <= t <= WIDE_CAP,
    ensures
        r == asin_spec(t as int),
        -HALF_PI_FX <= r <= HALF_PI_FX,
{
    proof {
        lemma_asin_range(t as int);
    }
    let c: i128 = clamp_fx(t, -FX_ONE, FX_ONE);
    proof {
        lemma_mul_fx_bound(c as int, c as int, 65536, 65536);
        assert((c as int) * (c as int) >= 0) by (nonlinear_arith);
        lemma_div_pos_is_pos((c as int) * (c as int), 65536);
    }
    let m: i128 = mul_fx(c, c);
    let d: i128 = FX_ONE - m;
    let s: i128 = sqrt_fx(d);
    atan2_fx(c, s)
}

} // verus!
