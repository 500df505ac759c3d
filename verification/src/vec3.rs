//! Three- and two-component fixed-point vectors and their exact algebra.

use vstd::prelude::*;
use crate::fx::MUL_CAP;
use crate::fx::DIV_CAP;
use crate::fx::WIDE_CAP;
use crate::fx::mul_fx_spec;
use crate::fx::div_fx_spec;
use crate::fx::clamp_spec;
use crate::fx::sqrt_floor;
use crate::fx::mul_fx;
use crate::fx::div_fx;
use crate::fx::clamp_fx;
use crate::fx::isqrt;
use crate::fx::lemma_mul_fx_bound;
use crate::fx::lemma_div_fx_bound;

verus! {

/// A point or direction, each component a 64.16 fixed-point value.
#[derive(Clone, Copy, PartialEq, Eq, Structural)]
pub struct Vec3 {
    pub x: i128,
    pub y: i128,
    pub z: i128,
}

/// A surface parametrization coordinate pair.
#[derive(Clone, Copy, PartialEq, Eq, Structural)]
pub struct Vec2 {
    pub x: i128,
    pub y: i128,
}

/// Every component has magnitude at most `m`.
pub open spec fn v3_in(v: Vec3, m: int) -> bool {
    -m <= v.x <= m && -m <= v.y <= m && -m <= v.z <= m
}

pub open spec fn v3_add_spec(a: Vec3, b: Vec3) -> Vec3 {
    Vec3 { x: (a.x + b.x) as i128, y: (a.y + b.y) as i128, z: (a.z + b.z) as i128 }
}

pub open spec fn v3_sub_spec(a: Vec3, b: Vec3) -> Vec3 {
    Vec3 { x: (a.x - b.x) as i128, y: (a.y - b.y) as i128, z: (a.z - b.z) as i128 }
}

pub open spec fn v3_neg_spec(a: Vec3) -> Vec3 {
    Vec3 { x: (-a.x) as i128, y: (-a.y) as i128, z: (-a.z) as i128 }
}

/// Componentwise scaling by a fixed-point factor.
pub open spec fn v3_scale_spec(k: int, v: Vec3) -> Vec3 {
    Vec3 {
        x: mul_fx_spec(k, v.x as int) as i128,
        y: mul_fx_spec(k, v.y as int) as i128,
        z: mul_fx_spec(k, v.z as int) as i128,
    }
}

/// Componentwise product, used for color attenuation.
pub open spec fn v3_hadamard_spec(a: Vec3, b: Vec3) -> Vec3 {
    Vec3 {
        x: mul_fx_spec(a.x as int, b.x as int) as i128,
        y: mul_fx_spec(a.y as int, b.y as int) as i128,
        z: mul_fx_spec(a.z as int, b.z as int) as i128,
    }
}

/// Componentwise division by a fixed-point scalar.
pub open spec fn v3_divs_spec(v: Vec3, k: int) -> Vec3 {
    Vec3 {
        x: div_fx_spec(v.x as int, k) as i128,
        y: div_fx_spec(v.y as int, k) as i128,
        z: div_fx_spec(v.z as int, k) as i128,
    }
}

pub open spec fn dot_spec(a: Vec3, b: Vec3) -> int {
    mul_fx_spec(a.x as int, b.x as int) + mul_fx_spec(a.y as int, b.y as int) + mul_fx_spec(
        a.z as int,
        b.z as int,
    )
}

pub open spec fn cross_spec(a: Vec3, b: Vec3) -> Vec3 {
    Vec3 {
        x: (mul_fx_spec(a.y as int, b.z as int) - mul_fx_spec(a.z as int, b.y as int)) as i128,
        y: (mul_fx_spec(a.z as int, b.x as int) - mul_fx_spec(a.x as int, b.z as int)) as i128,
        z: (mul_fx_spec(a.x as int, b.y as int) - mul_fx_spec(a.y as int, b.x as int)) as i128,
    }
}

/// The scaled magnitude: the integer square root of `|v|^2 * 65536`,
/// so that the result is again a 64.16 fixed-point value.
pub open spec fn mag_spec(v: Vec3) -> int {
    sqrt_floor((dot_spec(v, v) * 65536) as nat) as int
}

/// Bound on every unit-vector component: slightly above one, covering
/// the rounding slack of the division by the magnitude.
pub const UNIT_CAP: i128 = 196608;

/// The normalized direction: each component divided by the magnitude,
/// then clamped into the unit range `[-UNIT_CAP, UNIT_CAP]`.
pub open spec fn unit_spec(v: Vec3) -> Vec3 {
    let m = mag_spec(v);
    Vec3 {
        x: clamp_spec(div_fx_spec(v.x as int, m), -196608, 196608) as i128,
        y: clamp_spec(div_fx_spec(v.y as int, m), -196608, 196608) as i128,
        z: clamp_spec(div_fx_spec(v.z as int, m), -196608, 196608) as i128,
    }
}

impl Vec3 {
    pub fn new(x: i128, y: i128, z: i128) -> (v: Vec3)
        ensures
            v == (Vec3 { x, y, z }),
    {
        Vec3 { x, y, z }
    }
}

impl Vec2 {
    pub fn new(x: i128, y: i128) -> (v: Vec2)
        ensures
            v == (Vec2 { x, y }),
    {
        Vec2 { x, y }
    }
}

/// 2^125, the largest componentwise magnitude `v3_add` and `v3_sub`
/// accept, so the componentwise sums stay inside `i128`.
pub const ADD_CAP: i128 = 42535295865117307932921825928971026432;

pub fn v3_add(a: Vec3, b: Vec3) -> (r: Vec3)
    requires
        v3_in(a, ADD_CAP as int),
        v3_in(b, ADD_CAP as int),
    ensures
        r == v3_add_spec(a, b),
        v3_in(r, WIDE_CAP as int),
{
    Vec3 { x: a.x + b.x, y: a.y + b.y, z: a.z + b.z }
}

pub fn v3_sub(a: Vec3, b: Vec3) -> (r: Vec3)
    requires
        v3_in(a, ADD_CAP as int),
        v3_in(b, ADD_CAP as int),
    ensures
        r == v3_sub_spec(a, b),
        v3_in(r, WIDE_CAP as int),
{
    Vec3 { x: a.x - b.x, y: a.y - b.y, z: a.z - b.z }
}

pub fn v3_neg(a: Vec3) -> (r: Vec3)
    requires
        v3_in(a, WIDE_CAP as int),
    ensures
        r == v3_neg_spec(a),
        v3_in(r, WIDE_CAP as int),
{
    Vec3 { x: -a.x, y: -a.y, z: -a.z }
}

pub fn v3_scale(k: i128, v: Vec3) -> (r: Vec3)
    requires
        -MUL_CAP <= k <= MUL_CAP,
        v3_in(v, MUL_CAP as int),
    ensures
        r == v3_scale_spec(k as int, v),
{
    Vec3 { x: mul_fx(k, v.x), y: mul_fx(k, v.y), z: mul_fx(k, v.z) }
}

pub fn v3_hadamard(a: Vec3, b: Vec3) -> (r: Vec3)
    requires
        v3_in(a, MUL_CAP as int),
        v3_in(b, MUL_CAP as int),
    ensures
        r == v3_hadamard_spec(a, b),
{
    Vec3 { x: mul_fx(a.x, b.x), y: mul_fx(a.y, b.y), z: mul_fx(a.z, b.z) }
}

pub fn v3_divs(v: Vec3, k: i128) -> (r: Vec3)
    requires
        k != 0,
        v3_in(v, DIV_CAP as int),
        -WIDE_CAP <= k <= WIDE_CAP,
    ensures
        r == v3_divs_spec(v, k as int),
{
    Vec3 { x: div_fx(v.x, k), y: div_fx(v.y, k), z: div_fx(v.z, k) }
}

pub fn v3_dot(a: Vec3, b: Vec3) -> (r: i128)
    requires
        v3_in(a, MUL_CAP as int),
        v3_in(b, MUL_CAP as int),
    ensures
        r == dot_spec(a, b),
{
    proof {
        lemma_mul_fx_bound(a.x as int, b.x as int, MUL_CAP as int, MUL_CAP as int);
        lemma_mul_fx_bound(a.y as int, b.y as int, MUL_CAP as int, MUL_CAP as int);
        lemma_mul_fx_bound(a.z as int, b.z as int, MUL_CAP as int, MUL_CAP as int);
    }
    mul_fx(a.x, b.x) + mul_fx(a.y, b.y) + mul_fx(a.z, b.z)
}

pub fn v3_cross(a: Vec3, b: Vec3) -> (r: Vec3)
    requires
        v3_in(a, MUL_CAP as int),
        v3_in(b, MUL_CAP as int),
    ensures
        r == cross_spec(a, b),
{
    proof {
        lemma_mul_fx_bound(a.y as int, b.z as int, MUL_CAP as int, MUL_CAP as int);
        lemma_mul_fx_bound(a.z as int, b.y as int, MUL_CAP as int, MUL_CAP as int);
        lemma_mul_fx_bound(a.z as int, b.x as int, MUL_CAP as int, MUL_CAP as int);
        lemma_mul_fx_bound(a.x as int, b.z as int, MUL_CAP as int, MUL_CAP as int);
        lemma_mul_fx_bound(a.x as int, b.y as int, MUL_CAP as int, MUL_CAP as int);
        lemma_mul_fx_bound(a.y as int, b.x as int, MUL_CAP as int, MUL_CAP as int);
    }
    Vec3 {
        x: mul_fx(a.y, b.z) - mul_fx(a.z, b.y),
        y: mul_fx(a.z, b.x) - mul_fx(a.x, b.z),
        z: mul_fx(a.x, b.y) - mul_fx(a.y, b.x),
    }
}

/// Componentwise bound on a scaled vector.
pub proof fn lemma_scale_bound(k: int, v: Vec3, km: int, vm: int)
    requires
        -km <= k <= km,
        v3_in(v, vm),
        0 <= km,
        0 <= vm,
    ensures
        v3_in(v3_scale_spec(k, v), km * vm / 65536),
{
    lemma_mul_fx_bound(k, v.x as int, km, vm);
    lemma_mul_fx_bound(k, v.y as int, km, vm);
    lemma_mul_fx_bound(k, v.z as int, km, vm);
}

/// Componentwise bound on a cross product.
pub proof fn lemma_cross_bound(a: Vec3, b: Vec3, am: int, bm: int)
    requires
        v3_in(a, am),
        v3_in(b, bm),
        0 <= am,
        0 <= bm,
    ensures
        v3_in(cross_spec(a, b), 2 * (am * bm / 65536)),
{
    lemma_mul_fx_bound(a.y as int, b.z as int, am, bm);
    lemma_mul_fx_bound(a.z as int, b.y as int, am, bm);
    lemma_mul_fx_bound(a.z as int, b.x as int, am, bm);
    lemma_mul_fx_bound(a.x as int, b.z as int, am, bm);
    lemma_mul_fx_bound(a.x as int, b.y as int, am, bm);
    lemma_mul_fx_bound(a.y as int, b.x as int, am, bm);
}

/// Componentwise bound on a componentwise product.
pub proof fn lemma_hadamard_bound(a: Vec3, b: Vec3, am: int, bm: int)
    requires
        v3_in(a, am),
        v3_in(b, bm),
        0 <= am,
        0 <= bm,
    ensures
        v3_in(v3_hadamard_spec(a, b), am * bm / 65536),
{
    lemma_mul_fx_bound(a.x as int, b.x as int, am, bm);
    lemma_mul_fx_bound(a.y as int, b.y as int, am, bm);
    lemma_mul_fx_bound(a.z as int, b.z as int, am, bm);
}

/// Componentwise bound on a division by a scalar of magnitude at least
/// `kl`.
pub proof fn lemma_divs_bound(v: Vec3, k: int, vm: int, kl: int)
    requires
        v3_in(v, vm),
        0 <= vm,
        1 <= kl,
        k <= -kl || kl <= k,
    ensures
        v3_in(v3_divs_spec(v, k), vm * 65536 / kl),
{
    lemma_div_fx_bound(v.x as int, k, vm, kl);
    lemma_div_fx_bound(v.y as int, k, vm, kl);
    lemma_div_fx_bound(v.z as int, k, vm, kl);
}

/// Every componentwise square is nonnegative, so a self-dot is too.
pub proof fn lemma_dot_self_nonneg(v: Vec3)
    ensures
        dot_spec(v, v) >= 0,
{
    assert(v.x as int * v.x as int >= 0) by (nonlinear_arith);
    assert(v.y as int * v.y as int >= 0) by (nonlinear_arith);
    assert(v.z as int * v.z as int >= 0) by (nonlinear_arith);
}

/// Magnitude bound on a self-dot from a componentwise bound.
pub proof fn lemma_dot_bound(a: Vec3, b: Vec3, am: int, bm: int)
    requires
        v3_in(a, am),
        v3_in(b, bm),
        0 <= am,
        0 <= bm,
    ensures
        -3 * (am * bm / 65536) <= dot_spec(a, b) <= 3 * (am * bm / 65536),
{
    lemma_mul_fx_bound(a.x as int, b.x as int, am, bm);
    lemma_mul_fx_bound(a.y as int, b.y as int, am, bm);
    lemma_mul_fx_bound(a.z as int, b.z as int, am, bm);
}

/// The scaled magnitude of a vector whose self-dot is at least one is
/// at least 256 (the square root of the scale).
pub proof fn lemma_mag_lower(v: Vec3)
    requires
        dot_spec(v, v) >= 1,
    ensures
        mag_spec(v) >= 256,
{
    let p = (dot_spec(v, v) * 65536) as nat;
    crate::fx::lemma_sqrt_floor(p);
    let m = sqrt_floor(p) as int;
    assert(p >= 65536);
    assert((m + 1) * (m + 1) > 65536);
    assert(m >= 256) by (nonlinear_arith)
        requires
            (m + 1) * (m + 1) > 65536,
            m >= 0,
    ;
}

/// Normalize: divide by the scaled magnitude, clamping each component
/// into the unit range.
pub fn v3_unit(v: Vec3) -> (r: Vec3)
    requires
        v3_in(v, 1125899906842624),  // 2^50
        dot_spec(v, v) >= 1,
    ensures
        r == unit_spec(v),
        v3_in(r, UNIT_CAP as int),
{
    proof {
        lemma_dot_bound(v, v, 1125899906842624, 1125899906842624);
        lemma_mag_lower(v);
    }
    let d: i128 = v3_dot(v, v);
    let w: u128 = (d as u128) * 65536;
    let s: u128 = isqrt(w);
    proof {
        assert(s * s <= w);
        // w <= 2^102, so s <= 2^51.
        assert(s <= 2251799813685248u128) by (nonlinear_arith)
            requires
                (s as int) * (s as int) <= 5070602400912917605986812821504int,
                s >= 0,
        ;
    }
    let m: i128 = s as i128;
    Vec3 {
        x: clamp_fx(div_fx(v.x, m), -UNIT_CAP, UNIT_CAP),
        y: clamp_fx(div_fx(v.y, m), -UNIT_CAP, UNIT_CAP),
        z: clamp_fx(div_fx(v.z, m), -UNIT_CAP, UNIT_CAP),
    }
}

/// The scaled magnitude, as an executable value.
pub fn v3_mag(v: Vec3) -> (r: i128)
    requires
        v3_in(v, 1125899906842624),  // 2^50
    ensures
        r == mag_spec(v),
        0 <= r <= 2251799813685248,  // 2^51
        dot_spec(v, v) >= 1 ==> r >= 256,
{
    proof {
        lemma_dot_bound(v, v, 1125899906842624, 1125899906842624);
        lemma_dot_self_nonneg(v);
        if dot_spec(v, v) >= 1 {
            lemma_mag_lower(v);
        }
    }
    let d: i128 = v3_dot(v, v);
    let w: u128 = (d as u128) * 65536;
    let s: u128 = isqrt(w);
    proof {
        assert(s * s <= w);
        // w <= 2^102, so s <= 2^51.
        assert(s <= 2251799813685248u128) by (nonlinear_arith)
            requires
                (s as int) * (s as int) <= 5070602400912917605986812821504int,
                s >= 0,
        ;
    }
    s as i128
}

} // verus!
