//! Signed 64.16 fixed-point arithmetic: an `i128` stores `value * 65536`.
//!
//! Multiplication and division truncate toward zero, exactly as stated by
//! `mul_fx_spec` and `div_fx_spec`; `sqrt_fx` returns the integer square
//! root of the scaled radicand, pinned by `sqrt_floor`.

use vstd::prelude::*;
use vstd::arithmetic::div_mod::lemma_div_is_ordered;
use vstd::arithmetic::div_mod::lemma_div_is_ordered_by_denominator;
use vstd::arithmetic::div_mod::lemma_div_pos_is_pos;
use vstd::arithmetic::div_mod::lemma_fundamental_div_mod;
use vstd::arithmetic::div_mod::lemma_fundamental_div_mod_converse;

verus! {

/// One in fixed point: all values represent `v / 65536`.
pub const FX_ONE: i128 = 65536;

/// Largest magnitude accepted by each factor of `mul_fx` (2^62), so the
/// wide product always fits an `i128`.
pub const MUL_CAP: i128 = 4611686018427387904;

/// Largest magnitude accepted by the numerator of `div_fx` (2^100), so
/// the scaled numerator always fits an `i128`.
pub const DIV_CAP: i128 = 1267650600228229401496703205376;

/// 2^126, a magnitude every intermediate value stays under.
pub const WIDE_CAP: i128 = 85070591730234615865843651857942052864;

/// 2^108, the largest radicand `sqrt_fx` accepts.
pub const SQRT_CAP: i128 = 324518553658426726783156020576256;

pub open spec fn sabs(a: int) -> int {
    if a >= 0 {
        a
    } else {
        -a
    }
}

/// Division truncating toward zero (the machine behavior), written over
/// the Euclidean division of nonnegative magnitudes.
pub open spec fn div_trunc(a: int, b: int) -> int {
    if (a >= 0) == (b >= 0) {
        sabs(a) / sabs(b)
    } else {
        -(sabs(a) / sabs(b))
    }
}

/// The fixed-point product: the wide product scaled back down.
pub open spec fn mul_fx_spec(a: int, b: int) -> int {
    div_trunc(a * b, 65536)
}

/// The fixed-point quotient: the numerator scaled up before dividing.
pub open spec fn div_fx_spec(a: int, b: int) -> int {
    div_trunc(a * 65536, b)
}

pub open spec fn clamp_spec(x: int, lo: int, hi: int) -> int {
    if x < lo {
        lo
    } else if x > hi {
        hi
    } else {
        x
    }
}

/// The integer square root, defined by counting up; `lemma_sqrt_floor`
/// gives its defining inequalities.
pub open spec fn sqrt_floor(n: nat) -> nat
    decreases n,
{
    if n == 0 {
        0
    } else {
        let r = sqrt_floor((n - 1) as nat);
        if (r + 1) * (r + 1) <= n {
            r + 1
        } else {
            r
        }
    }
}

pub proof fn lemma_sqrt_floor(n: nat)
    ensures
        (sqrt_floor(n) as int) * (sqrt_floor(n) as int) <= n as int,
        (n as int) < ((sqrt_floor(n) as int) + 1) * ((sqrt_floor(n) as int) + 1),
    decreases n,
{
    if n == 0 {
        assert(sqrt_floor(0) == 0);
    } else {
        lemma_sqrt_floor((n - 1) as nat);
        let r = sqrt_floor((n - 1) as nat) as int;
        assert(r * r <= n - 1);
        assert(n - 1 < (r + 1) * (r + 1));
        let s = sqrt_floor(n) as int;
        if (r + 1) * (r + 1) <= n as int {
            assert(s == r + 1);
            assert((r + 1) * (r + 1) + 1 <= (r + 2) * (r + 2)) by (nonlinear_arith)
                requires
                    0 <= r,
            ;
            assert(n < (r + 2) * (r + 2));
        } else {
            assert(s == r);
            assert(n < (s + 1) * (s + 1));
        }
    }
}

pub proof fn lemma_sqrt_floor_unique(n: nat, r: nat)
    requires
        (r as int) * (r as int) <= n as int,
        (n as int) < ((r as int) + 1) * ((r as int) + 1),
    ensures
        r == sqrt_floor(n),
{
    lemma_sqrt_floor(n);
    let s = sqrt_floor(n) as int;
    let ri = r as int;
    assert(ri * ri < (s + 1) * (s + 1));
    assert(ri < s + 1) by (nonlinear_arith)
        requires
            ri * ri < (s + 1) * (s + 1),
            0 <= ri,
            0 <= s,
    ;
    assert(s * s < (ri + 1) * (ri + 1));
    assert(s < ri + 1) by (nonlinear_arith)
        requires
            s * s < (ri + 1) * (ri + 1),
            0 <= ri,
            0 <= s,
    ;
}

/// Magnitude bound on a product from magnitude bounds on the factors.
pub proof fn lemma_mul_bound(a: int, b: int, am: int, bm: int)
    requires
        -am <= a <= am,
        -bm <= b <= bm,
        0 <= am,
        0 <= bm,
    ensures
        -(am * bm) <= a * b <= am * bm,
{
    assert(-(am * bm) <= a * b <= am * bm) by (nonlinear_arith)
        requires
            -am <= a <= am,
            -bm <= b <= bm,
            0 <= am,
            0 <= bm,
    ;
}

/// Magnitude bound on a truncating quotient with a positive divisor.
pub proof fn lemma_div_trunc_bound(a: int, b: int, m: int)
    requires
        -m <= a <= m,
        0 <= m,
        1 <= b,
    ensures
        -(m / b) <= div_trunc(a, b) <= m / b,
{
    lemma_div_is_ordered(sabs(a), m, b);
    lemma_div_pos_is_pos(sabs(a), b);
}

/// Magnitude bound on a fixed-point product.
pub proof fn lemma_mul_fx_bound(a: int, b: int, am: int, bm: int)
    requires
        -am <= a <= am,
        -bm <= b <= bm,
        0 <= am,
        0 <= bm,
    ensures
        -(am * bm / 65536) <= mul_fx_spec(a, b) <= am * bm / 65536,
{
    lemma_mul_bound(a, b, am, bm);
    lemma_div_trunc_bound(a * b, 65536, am * bm);
}

/// Magnitude bound on a fixed-point quotient whose divisor has magnitude
/// at least `bl`.
pub proof fn lemma_div_fx_bound(a: int, b: int, am: int, bl: int)
    requires
        -am <= a <= am,
        0 <= am,
        1 <= bl,
        b <= -bl || bl <= b,
    ensures
        -(am * 65536 / bl) <= div_fx_spec(a, b) <= am * 65536 / bl,
{
    assert(sabs(a * 65536) == sabs(a) * 65536) by (nonlinear_arith);
    assert(sabs(a) * 65536 <= am * 65536) by (nonlinear_arith)
        requires
            sabs(a) <= am,
    ;
    lemma_div_is_ordered(sabs(a * 65536), am * 65536, sabs(b));
    lemma_div_is_ordered_by_denominator(am * 65536, bl, sabs(b));
    lemma_div_pos_is_pos(sabs(a * 65536), sabs(b));
}

/// A truncating quotient carries the sign of its operands.
pub proof fn lemma_div_trunc_sign(a: int, b: int)
    requires
        b != 0,
    ensures
        a >= 0 && b > 0 ==> div_trunc(a, b) >= 0,
        a >= 0 && b < 0 ==> div_trunc(a, b) <= 0,
        a <= 0 && b > 0 ==> div_trunc(a, b) <= 0,
        a <= 0 && b < 0 ==> div_trunc(a, b) >= 0,
{
    lemma_div_pos_is_pos(sabs(a), sabs(b));
}

/// Truncating division is monotone in the numerator for a positive
/// divisor.
pub proof fn lemma_div_trunc_ordered(n1: int, n2: int, d: int)
    requires
        n1 <= n2,
        1 <= d,
    ensures
        div_trunc(n1, d) <= div_trunc(n2, d),
{
    if 0 <= n1 {
        lemma_div_is_ordered(n1, n2, d);
        lemma_div_pos_is_pos(n1, d);
        lemma_div_pos_is_pos(n2, d);
    } else if n2 < 0 {
        lemma_div_is_ordered(-n2, -n1, d);
        lemma_div_pos_is_pos(-n2, d);
        lemma_div_pos_is_pos(-n1, d);
    } else {
        lemma_div_pos_is_pos(-n1, d);
        lemma_div_pos_is_pos(n2, d);
    }
}

/// Scale a wide product back down, truncating toward zero.
fn scale_down(p: i128) -> (r: i128)
    requires
        -WIDE_CAP <= p <= WIDE_CAP,
    ensures
        r == div_trunc(p as int, 65536),
{
    if p >= 0 {
        let q: u128 = (p as u128) / 65536u128;
        proof {
            lemma_div_is_ordered(p as int, WIDE_CAP as int, 65536);
            lemma_div_pos_is_pos(p as int, 65536);
        }
        q as i128
    } else {
        let n: u128 = (-p) as u128;
        let q: u128 = n / 65536u128;
        proof {
            lemma_div_is_ordered(n as int, WIDE_CAP as int, 65536);
            lemma_div_pos_is_pos(n as int, 65536);
        }
        -(q as i128)
    }
}

/// Fixed-point multiplication: exact per `mul_fx_spec`.
pub fn mul_fx(a: i128, b: i128) -> (r: i128)
    requires
        -MUL_CAP <= a <= MUL_CAP,
        -MUL_CAP <= b <= MUL_CAP,
    ensures
        r == mul_fx_spec(a as int, b as int),
{
    proof {
        lemma_mul_bound(a as int, b as int, MUL_CAP as int, MUL_CAP as int);
    }
    let p: i128 = a * b;
    scale_down(p)
}

/// Fixed-point division: exact per `div_fx_spec`.
pub fn div_fx(a: i128, b: i128) -> (r: i128)
    requires
        b != 0,
        -DIV_CAP <= a <= DIV_CAP,
        -WIDE_CAP <= b <= WIDE_CAP,
    ensures
        r == div_fx_spec(a as int, b as int),
{
    let na: u128 = if a >= 0 {
        (a as u128) * 65536
    } else {
        ((-a) as u128) * 65536
    };
    let nb: u128 = if b >= 0 {
        b as u128
    } else {
        (-b) as u128
    };
    let q: u128 = na / nb;
    proof {
        assert(na == sabs(a as int) * 65536);
        assert(sabs(a as int * 65536) == sabs(a as int) * 65536) by (nonlinear_arith);
        lemma_div_is_ordered_by_denominator(na as int, 1, nb as int);
        lemma_div_pos_is_pos(na as int, nb as int);
    }
    if (a >= 0) == (b >= 0) {
        q as i128
    } else {
        -(q as i128)
    }
}

/// Clamp into `[lo, hi]`.
pub fn clamp_fx(x: i128, lo: i128, hi: i128) -> (r: i128)
    requires
        lo <= hi,
    ensures
        r == clamp_spec(x as int, lo as int, hi as int),
{
    if x < lo {
        lo
    } else if x > hi {
        hi
    } else {
        x
    }
}

/// Integer square root by binary search, pinned to `sqrt_floor`.
pub fn isqrt(n: u128) -> (r: u128)
    requires
        n < 85070591730234615865843651857942052864,  // 2^126
    ensures
        r == sqrt_floor(n as nat),
        r * r <= n,
        n < (r + 1) * (r + 1),
{
    let mut lo: u128 = 0;
    let mut hi: u128 = 9223372036854775808u128;  // 2^63
    assert((9223372036854775808u128 + 1) * (9223372036854775808u128 + 1)
        > 85070591730234615865843651857942052864);
    while lo < hi
        invariant
            lo <= hi,
            hi <= 9223372036854775808u128,
            lo * lo <= n,
            n < (hi + 1) * (hi + 1),
        decreases hi - lo,
    {
        let mid: u128 = lo + (hi - lo + 1) / 2;
        assert(lo < mid <= hi);
        assert(mid * mid <= 9223372036854775808u128 * 9223372036854775808u128) by (nonlinear_arith)
            requires
                0 <= mid <= 9223372036854775808u128,
        ;
        if mid * mid <= n {
            lo = mid;
        } else {
            hi = mid - 1;
        }
    }
    proof {
        lemma_sqrt_floor_unique(n as nat, lo as nat);
    }
    lo
}

/// Fixed-point square root of a nonnegative value: the integer square
/// root of the scaled radicand.
pub fn sqrt_fx(x: i128) -> (r: i128)
    requires
        0 <= x <= SQRT_CAP,
    ensures
        r == sqrt_floor((x * 65536) as nat),
        r * r <= x * 65536,
        x * 65536 < (r + 1) * (r + 1),
        0 <= r <= MUL_CAP,
{
    let w: u128 = (x as u128) * 65536;
    let s: u128 = isqrt(w);
    proof {
        assert(s <= 4611686018427387904u128) by (nonlinear_arith)
            requires
                s * s <= 21267647932558653966460912964485513216u128,  // 2^124
                0 <= s,
        ;
    }
    s as i128
}

/// Euclidean remainder with a positive modulus, as spec `%` computes it.
pub fn mod_euclid(a: i128, m: i128) -> (r: i128)
    requires
        0 < m <= MUL_CAP,
        -WIDE_CAP <= a <= WIDE_CAP,
    ensures
        r == a as int % m as int,
        0 <= r < m,
{
    if a >= 0 {
        let r: u128 = (a as u128) % (m as u128);
        r as i128
    } else {
        let t: u128 = ((-a) as u128) % (m as u128);
        proof {
            lemma_fundamental_div_mod((-a) as int, m as int);
        }
        let ghost qq: int = ((-a) as int) / (m as int);
        if t == 0 {
            proof {
                assert(a as int == (-qq) * (m as int) + 0) by (nonlinear_arith)
                    requires
                        (-a) as int == (m as int) * qq + t,
                        t == 0,
                ;
                lemma_fundamental_div_mod_converse(a as int, m as int, -qq, 0);
            }
            0
        } else {
            proof {
                assert(a as int == (-qq - 1) * (m as int) + ((m as int) - (t as int)))
                    by (nonlinear_arith)
                    requires
                        (-a) as int == (m as int) * qq + t,
                ;
                lemma_fundamental_div_mod_converse(
                    a as int,
                    m as int,
                    -qq - 1,
                    m as int - t as int,
                );
            }
            m - (t as i128)
        }
    }
}

} // verus!
