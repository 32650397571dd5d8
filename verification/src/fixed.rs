//! Fixed-point scalar arithmetic: truncating division, integer square root,
//! and a sine/cosine approximation, all over `i64` values scaled by `SCALE`.

use vstd::prelude::*;
use vstd::arithmetic::div_mod::{
    lemma_div_is_ordered, lemma_div_is_ordered_by_denominator, lemma_div_multiples_vanish,
    lemma_div_pos_is_pos, lemma_fundamental_div_mod, lemma_mod_bound,
};
use vstd::arithmetic::mul::lemma_mul_is_commutative;

verus! {

/// Number of fixed-point steps per real unit: a scalar `x` is stored as
/// the integer `x * SCALE`, rounded.
pub const SCALE: i64 = 65536;

/// A quarter turn (pi / 2) in fixed-point radians.
pub const HALF_PI_FX: i64 = 102944;

/// A half turn (pi) in fixed-point radians; exactly twice `HALF_PI_FX`.
pub const PI_FX: i64 = 205888;

/// A full turn (2 * pi) in fixed-point radians; exactly four times `HALF_PI_FX`.
pub const TAU_FX: i64 = 411776;

/// Truncating division (round toward zero), the rounding used by every
/// fixed-point operation in this crate. The divisor must be positive.
pub open spec fn tdiv(n: int, d: int) -> int
    recommends
        d > 0,
{
    if n >= 0 {
        n / d
    } else {
        -((-n) / d)
    }
}

/// Truncating division of `n` by a positive divisor `d`.
pub fn tdiv64(n: i64, d: i64) -> (r: i64)
    requires
        d > 0,
        n > i64::MIN,
    ensures
        r == tdiv(n as int, d as int),
{
    let du: u64 = d as u64;
    if n >= 0 {
        let nu: u64 = n as u64;
        let q: u64 = nu / du;
        proof {
            lemma_div_is_ordered_by_denominator(nu as int, 1, du as int);
        }
        q as i64
    } else {
        let nu: u64 = (-n) as u64;
        let q: u64 = nu / du;
        proof {
            lemma_div_is_ordered_by_denominator(nu as int, 1, du as int);
        }
        -(q as i64)
    }
}

/// Truncating division of `n` by a positive divisor `d`, on `i128`.
pub fn tdiv128(n: i128, d: i128) -> (r: i128)
    requires
        d > 0,
        n > i128::MIN,
    ensures
        r == tdiv(n as int, d as int),
{
    let du: u128 = d as u128;
    if n >= 0 {
        let nu: u128 = n as u128;
        let q: u128 = nu / du;
        proof {
            lemma_div_is_ordered_by_denominator(nu as int, 1, du as int);
        }
        q as i128
    } else {
        let nu: u128 = (-n) as u128;
        let q: u128 = nu / du;
        proof {
            lemma_div_is_ordered_by_denominator(nu as int, 1, du as int);
        }
        -(q as i128)
    }
}

/// The magnitude of a truncating quotient shrinks with the divisor:
/// if `|n| <= b * d` then `|tdiv(n, d)| <= b`.
pub proof fn lemma_tdiv_abs_le(n: int, d: int, b: int)
    requires
        d > 0,
        0 <= b,
        -(b * d) <= n <= b * d,
    ensures
        -b <= tdiv(n, d) <= b,
{
    lemma_mul_is_commutative(b, d);
    lemma_div_multiples_vanish(b, d);
    if n >= 0 {
        lemma_div_is_ordered(n, b * d, d);
        lemma_div_pos_is_pos(n, d);
    } else {
        lemma_div_is_ordered(-n, b * d, d);
        lemma_div_pos_is_pos(-n, d);
    }
}

/// A square is never negative.
pub proof fn lemma_sq_nonneg(a: int)
    by (nonlinear_arith)
    ensures
        a * a >= 0,
{
}

/// Bound of a product from bounds of its factors.
pub proof fn lemma_abs_mul_le(a: int, b: int, aa: int, bb: int)
    by (nonlinear_arith)
    requires
        -aa <= a <= aa,
        -bb <= b <= bb,
    ensures
        -(aa * bb) <= a * b <= aa * bb,
{
}

/// The remainder of a truncating division: `n - tdiv(n, d) * d` has the
/// sign of `n` and magnitude below `d`.
pub proof fn lemma_tdiv_remainder(n: int, d: int)
    requires
        d > 0,
    ensures
        n >= 0 ==> 0 <= n - tdiv(n, d) * d < d,
        n < 0 ==> -d < n - tdiv(n, d) * d <= 0,
{
    if n >= 0 {
        lemma_fundamental_div_mod(n, d);
        lemma_mod_bound(n, d);
        assert(n - (n / d) * d == n % d) by (nonlinear_arith)
            requires
                n == d * (n / d) + n % d,
        ;
    } else {
        lemma_fundamental_div_mod(-n, d);
        lemma_mod_bound(-n, d);
        assert(n - (-((-n) / d)) * d == -((-n) % d)) by (nonlinear_arith)
            requires
                -n == d * ((-n) / d) + (-n) % d,
        ;
    }
}

/// The integer square root, as a spec-level function: the largest `r`
/// with `r * r <= n` (and 0 for negative `n`).
pub open spec fn sqrt_floor(n: int) -> int
    decreases n,
{
    if n <= 0 {
        0
    } else {
        let r: int = sqrt_floor(n - 1);
        if (r + 1) * (r + 1) <= n {
            r + 1
        } else {
            r
        }
    }
}

/// `sqrt_floor` is what its name says.
pub proof fn lemma_sqrt_floor_sound(n: int)
    requires
        n >= 0,
    ensures
        sqrt_floor(n) >= 0,
        sqrt_floor(n) * sqrt_floor(n) <= n,
        (sqrt_floor(n) + 1) * (sqrt_floor(n) + 1) > n,
    decreases n,
{
    if n > 0 {
        lemma_sqrt_floor_sound(n - 1);
        let r: int = sqrt_floor(n - 1);
        if (r + 1) * (r + 1) <= n {
            assert((r + 2) * (r + 2) > n) by (nonlinear_arith)
                requires
                    r >= 0,
                    n - 1 < (r + 1) * (r + 1),
                    (r + 1) * (r + 1) <= n,
            ;
        }
    }
}

/// Any value that behaves as the integer square root of `n` is
/// `sqrt_floor(n)`.
pub proof fn lemma_sqrt_floor_unique(n: int, r: int)
    requires
        r >= 0,
        r * r <= n,
        (r + 1) * (r + 1) > n,
    ensures
        r == sqrt_floor(n),
{
    lemma_sqrt_floor_sound(n);
    let s: int = sqrt_floor(n);
    assert(r == s) by (nonlinear_arith)
        requires
            r >= 0,
            s >= 0,
            r * r <= n,
            (r + 1) * (r + 1) > n,
            s * s <= n,
            (s + 1) * (s + 1) > n,
    ;
}

/// Multiplying by a positive `d` and truncating-dividing by it again is
/// the identity.
pub proof fn lemma_tdiv_cancel(x: int, d: int)
    requires
        d > 0,
    ensures
        tdiv(d * x, d) == x,
{
    if x >= 0 {
        lemma_mul_nonneg(d, x);
        lemma_div_multiples_vanish(x, d);
    } else {
        assert(d * x < 0) by (nonlinear_arith)
            requires
                d > 0,
                x < 0,
        ;
        assert(-(d * x) == d * (-x)) by (nonlinear_arith);
        lemma_div_multiples_vanish(-x, d);
    }
}

/// The squared value of one normalized component: `tdiv(c * SCALE, l)`,
/// squared.
pub open spec fn scaled_comp_sq(c: int, l: int) -> int {
    let q: int = tdiv(c * (SCALE as int), l);
    q * q
}

/// Normalizing a seven-component value of magnitude at least one half
/// yields a value whose squared magnitude is within `19 * SCALE` of
/// `SCALE * SCALE`: the fixed-point form of "normalizing a nonzero value
/// yields norm one", with the tolerance made explicit.
pub proof fn lemma_normalized_sq_bound(
    c0: int,
    c1: int,
    c2: int,
    c3: int,
    c4: int,
    c5: int,
    c6: int,
    n: int,
    l: int,
)
    requires
        n == c0 * c0 + c1 * c1 + c2 * c2 + c3 * c3 + c4 * c4 + c5 * c5 + c6 * c6,
        4 * n >= SCALE * SCALE,
        l == sqrt_floor(n),
    ensures
        SCALE * SCALE - 19 * SCALE <= scaled_comp_sq(c0, l) + scaled_comp_sq(c1, l)
            + scaled_comp_sq(c2, l) + scaled_comp_sq(c3, l) + scaled_comp_sq(c4, l)
            + scaled_comp_sq(c5, l) + scaled_comp_sq(c6, l) <= SCALE * SCALE + 19 * SCALE,
{
    let one: int = SCALE as int;
    lemma_sqrt_floor_sound(n);
    assert((l + 1) * (l + 1) == l * l + 2 * l + 1) by (nonlinear_arith);
    assert(2 * l >= one) by (nonlinear_arith)
        requires
            4 * n >= one * one,
            (l + 1) * (l + 1) > n,
            l >= 0,
            one == 65536,
    ;
    lemma_sq_nonneg(c0);
    lemma_sq_nonneg(c1);
    lemma_sq_nonneg(c2);
    lemma_sq_nonneg(c3);
    lemma_sq_nonneg(c4);
    lemma_sq_nonneg(c5);
    lemma_sq_nonneg(c6);
    lemma_norm_comp(c0, n, l);
    lemma_norm_comp(c1, n, l);
    lemma_norm_comp(c2, n, l);
    lemma_norm_comp(c3, n, l);
    lemma_norm_comp(c4, n, l);
    lemma_norm_comp(c5, n, l);
    lemma_norm_comp(c6, n, l);
    let e0: int = c0 * one - tdiv(c0 * one, l) * l;
    let e1: int = c1 * one - tdiv(c1 * one, l) * l;
    let e2: int = c2 * one - tdiv(c2 * one, l) * l;
    let e3: int = c3 * one - tdiv(c3 * one, l) * l;
    let e4: int = c4 * one - tdiv(c4 * one, l) * l;
    let e5: int = c5 * one - tdiv(c5 * one, l) * l;
    let e6: int = c6 * one - tdiv(c6 * one, l) * l;
    let ee: int = c0 * e0 + c1 * e1 + c2 * e2 + c3 * e3 + c4 * e4 + c5 * e5 + c6 * e6;
    let ff: int = e0 * e0 + e1 * e1 + e2 * e2 + e3 * e3 + e4 * e4 + e5 * e5 + e6 * e6;
    let m: int = scaled_comp_sq(c0, l) + scaled_comp_sq(c1, l) + scaled_comp_sq(c2, l)
        + scaled_comp_sq(c3, l) + scaled_comp_sq(c4, l) + scaled_comp_sq(c5, l)
        + scaled_comp_sq(c6, l);
    lemma_norm_sq_step(c0, l, tdiv(c0 * one, l), e0);
    lemma_norm_sq_step(c1, l, tdiv(c1 * one, l), e1);
    lemma_norm_sq_step(c2, l, tdiv(c2 * one, l), e2);
    lemma_norm_sq_step(c3, l, tdiv(c3 * one, l), e3);
    lemma_norm_sq_step(c4, l, tdiv(c4 * one, l), e4);
    lemma_norm_sq_step(c5, l, tdiv(c5 * one, l), e5);
    lemma_norm_sq_step(c6, l, tdiv(c6 * one, l), e6);
    lemma_mul_distribute7(
        scaled_comp_sq(c0, l),
        scaled_comp_sq(c1, l),
        scaled_comp_sq(c2, l),
        scaled_comp_sq(c3, l),
        scaled_comp_sq(c4, l),
        scaled_comp_sq(c5, l),
        scaled_comp_sq(c6, l),
        l * l,
    );
    let s0: int = scaled_comp_sq(c0, l);
    let s1: int = scaled_comp_sq(c1, l);
    let s2: int = scaled_comp_sq(c2, l);
    let s3: int = scaled_comp_sq(c3, l);
    let s4: int = scaled_comp_sq(c4, l);
    let s5: int = scaled_comp_sq(c5, l);
    let s6: int = scaled_comp_sq(c6, l);
    assert(m * (l * l) == one * one * n - 2 * one * ee + ff) by (nonlinear_arith)
        requires
            m * (l * l) == s0 * (l * l) + s1 * (l * l) + s2 * (l * l) + s3 * (l * l) + s4 * (l
                * l) + s5 * (l * l) + s6 * (l * l),
            s0 * (l * l) == one * one * (c0 * c0) - 2 * one * (c0 * e0) + e0 * e0,
            s1 * (l * l) == one * one * (c1 * c1) - 2 * one * (c1 * e1) + e1 * e1,
            s2 * (l * l) == one * one * (c2 * c2) - 2 * one * (c2 * e2) + e2 * e2,
            s3 * (l * l) == one * one * (c3 * c3) - 2 * one * (c3 * e3) + e3 * e3,
            s4 * (l * l) == one * one * (c4 * c4) - 2 * one * (c4 * e4) + e4 * e4,
            s5 * (l * l) == one * one * (c5 * c5) - 2 * one * (c5 * e5) + e5 * e5,
            s6 * (l * l) == one * one * (c6 * c6) - 2 * one * (c6 * e6) + e6 * e6,
            n == c0 * c0 + c1 * c1 + c2 * c2 + c3 * c3 + c4 * c4 + c5 * c5 + c6 * c6,
            ee == c0 * e0 + c1 * e1 + c2 * e2 + c3 * e3 + c4 * e4 + c5 * e5 + c6 * e6,
            ff == e0 * e0 + e1 * e1 + e2 * e2 + e3 * e3 + e4 * e4 + e5 * e5 + e6 * e6,
            m == s0 + s1 + s2 + s3 + s4 + s5 + s6,
            one == 65536,
    ;
    lemma_abs_mul_le(c0, e0, l, l);
    lemma_abs_mul_le(c1, e1, l, l);
    lemma_abs_mul_le(c2, e2, l, l);
    lemma_abs_mul_le(c3, e3, l, l);
    lemma_abs_mul_le(c4, e4, l, l);
    lemma_abs_mul_le(c5, e5, l, l);
    lemma_abs_mul_le(c6, e6, l, l);
    lemma_abs_mul_le(e0, e0, l, l);
    lemma_abs_mul_le(e1, e1, l, l);
    lemma_abs_mul_le(e2, e2, l, l);
    lemma_abs_mul_le(e3, e3, l, l);
    lemma_abs_mul_le(e4, e4, l, l);
    lemma_abs_mul_le(e5, e5, l, l);
    lemma_abs_mul_le(e6, e6, l, l);
    lemma_sq_nonneg(e0);
    lemma_sq_nonneg(e1);
    lemma_sq_nonneg(e2);
    lemma_sq_nonneg(e3);
    lemma_sq_nonneg(e4);
    lemma_sq_nonneg(e5);
    lemma_sq_nonneg(e6);
    assert(one * one - 19 * one <= m <= one * one + 19 * one) by (nonlinear_arith)
        requires
            m * (l * l) == one * one * n - 2 * one * ee + ff,
            -(7 * (l * l)) <= ee <= 7 * (l * l),
            0 <= ff <= 7 * (l * l),
            l * l <= n,
            n <= l * l + 2 * l,
            one <= 2 * l,
            one == 65536,
            l >= 1,
    ;
}

/// Multiplication distributes over a seven-term sum.
proof fn lemma_mul_distribute7(
    s0: int,
    s1: int,
    s2: int,
    s3: int,
    s4: int,
    s5: int,
    s6: int,
    t: int,
)
    by (nonlinear_arith)
    ensures
        (s0 + s1 + s2 + s3 + s4 + s5 + s6) * t == s0 * t + s1 * t + s2 * t + s3 * t + s4 * t
            + s5 * t + s6 * t,
{
}

/// One component's share of the squared norm after normalization: the
/// square of the quotient, times the square of the divisor, expanded
/// through the division's remainder.
proof fn lemma_norm_sq_step(c: int, l: int, q: int, e: int)
    requires
        e == c * (SCALE as int) - q * l,
        q == tdiv(c * (SCALE as int), l),
    ensures
        scaled_comp_sq(c, l) * (l * l) == (SCALE as int) * (SCALE as int) * (c * c) - 2 * (
        SCALE as int) * (c * e) + e * e,
{
    assert((q * q) * (l * l) == (SCALE as int) * (SCALE as int) * (c * c) - 2 * (SCALE as int)
        * (c * e) + e * e) by (nonlinear_arith)
        requires
            e == c * (SCALE as int) - q * l,
    ;
}

/// A component's normalized quotient and remainder: `|c| <= l`, the
/// remainder of `tdiv(c * SCALE, l)` is below `l` in magnitude, and the
/// quotient times `l` recovers `c * SCALE` minus that remainder.
proof fn lemma_norm_comp(c: int, n: int, l: int)
    requires
        c * c <= n,
        n >= 1,
        l == sqrt_floor(n),
    ensures
        -l <= c <= l,
        l >= 1,
        -l < c * (SCALE as int) - tdiv(c * (SCALE as int), l) * l < l,
        scaled_comp_sq(c, l) == tdiv(c * (SCALE as int), l) * tdiv(c * (SCALE as int), l),
{
    let one: int = SCALE as int;
    lemma_sqrt_floor_sound(n);
    assert(l >= 1) by (nonlinear_arith)
        requires
            n >= 1,
            l >= 0,
            (l + 1) * (l + 1) > n,
            l * l <= n,
    ;
    assert(-l <= c <= l) by (nonlinear_arith)
        requires
            c * c <= n,
            l >= 0,
            (l + 1) * (l + 1) > n,
    ;
    lemma_tdiv_remainder(c * one, l);
}

/// Wrapping of an angle into `[0, TAU_FX)`, spec form.
pub open spec fn wrap_angle_spec(a: int) -> int {
    let m: int = a - tdiv(a, TAU_FX as int) * (TAU_FX as int);
    if m < 0 {
        m + TAU_FX as int
    } else {
        m
    }
}

/// Wrap an angle into `[0, TAU_FX)`, keeping its value modulo a full
/// turn.
pub fn wrap_angle(a: i64) -> (r: i64)
    requires
        a > i64::MIN,
    ensures
        r == wrap_angle_spec(a as int),
        0 <= r < TAU_FX,
{
    let q: i64 = tdiv64(a, TAU_FX);
    proof {
        lemma_tdiv_remainder(a as int, TAU_FX as int);
    }
    let m: i64 = a - q * TAU_FX;
    if m < 0 {
        m + TAU_FX
    } else {
        m
    }
}

/// The quarter-turn sine approximation, spec form: the odd Taylor
/// polynomial of degree seven, evaluated in fixed point and clamped to
/// `[0, SCALE]`.
pub open spec fn quarter_sin_spec(x: int) -> int {
    let one: int = SCALE as int;
    let t2: int = tdiv(x * x, one);
    let t3: int = tdiv(t2 * x, one);
    let t5: int = tdiv(t3 * t2, one);
    let t7: int = tdiv(t5 * t2, one);
    let pos: int = x + tdiv(t5, 120);
    let neg: int = tdiv(t3, 6) + tdiv(t7, 5040);
    let raw: int = if pos >= neg {
        pos - neg
    } else {
        0
    };
    if raw > one {
        one
    } else {
        raw
    }
}

/// The quarter-turn cosine approximation, spec form: the even Taylor
/// polynomial of degree six, evaluated in fixed point and clamped to
/// `[0, SCALE]`.
pub open spec fn quarter_cos_spec(x: int) -> int {
    let one: int = SCALE as int;
    let t2: int = tdiv(x * x, one);
    let t4: int = tdiv(t2 * t2, one);
    let t6: int = tdiv(t4 * t2, one);
    let pos: int = one + tdiv(t4, 24);
    let neg: int = tdiv(t2, 2) + tdiv(t6, 720);
    let raw: int = if pos >= neg {
        pos - neg
    } else {
        0
    };
    if raw > one {
        one
    } else {
        raw
    }
}

/// Sine on `[0, HALF_PI_FX]`, by a clamped Taylor polynomial.
pub fn quarter_sin(x: i64) -> (r: i64)
    requires
        0 <= x <= HALF_PI_FX,
    ensures
        r == quarter_sin_spec(x as int),
        0 <= r <= SCALE,
{
    proof {
        quarter_bounds(x as int);
    }
    let t2: i64 = tdiv64(x * x, SCALE);
    let t3: i64 = tdiv64(t2 * x, SCALE);
    let t5: i64 = tdiv64(t3 * t2, SCALE);
    let t7: i64 = tdiv64(t5 * t2, SCALE);
    let pos: i64 = x + tdiv64(t5, 120);
    let neg: i64 = tdiv64(t3, 6) + tdiv64(t7, 5040);
    let raw: i64 = if pos >= neg {
        pos - neg
    } else {
        0
    };
    if raw > SCALE {
        SCALE
    } else {
        raw
    }
}

/// Cosine on `[0, HALF_PI_FX]`, by a clamped Taylor polynomial.
pub fn quarter_cos(x: i64) -> (r: i64)
    requires
        0 <= x <= HALF_PI_FX,
    ensures
        r == quarter_cos_spec(x as int),
        0 <= r <= SCALE,
{
    proof {
        quarter_bounds(x as int);
    }
    let t2: i64 = tdiv64(x * x, SCALE);
    let t4: i64 = tdiv64(t2 * t2, SCALE);
    let t6: i64 = tdiv64(t4 * t2, SCALE);
    let pos: i64 = SCALE + tdiv64(t4, 24);
    let neg: i64 = tdiv64(t2, 2) + tdiv64(t6, 720);
    let raw: i64 = if pos >= neg {
        pos - neg
    } else {
        0
    };
    if raw > SCALE {
        SCALE
    } else {
        raw
    }
}

/// Bounds of the intermediate powers in the quarter-turn polynomials.
proof fn quarter_bounds(x: int)
    requires
        0 <= x <= HALF_PI_FX,
    ensures
        0 <= x * x <= 4 * SCALE * SCALE,
        0 <= tdiv(x * x, SCALE as int) * x <= 8 * SCALE * SCALE,
        0 <= tdiv(x * x, SCALE as int) * tdiv(x * x, SCALE as int) <= 16 * SCALE * SCALE,
        0 <= tdiv(tdiv(x * x, SCALE as int) * x, SCALE as int) * tdiv(x * x, SCALE as int) <= 32
            * SCALE * SCALE,
        0 <= tdiv(tdiv(tdiv(x * x, SCALE as int) * x, SCALE as int) * tdiv(x * x, SCALE as int),
            SCALE as int,
        ) * tdiv(x * x, SCALE as int) <= 128 * SCALE * SCALE,
        0 <= tdiv(tdiv(x * x, SCALE as int) * tdiv(x * x, SCALE as int), SCALE as int) * tdiv(
            x * x,
            SCALE as int,
        ) <= 64 * SCALE * SCALE,
        0 <= tdiv(x * x, SCALE as int) <= 4 * SCALE,
        0 <= tdiv(tdiv(x * x, SCALE as int) * x, SCALE as int) <= 8 * SCALE,
        0 <= tdiv(tdiv(x * x, SCALE as int) * tdiv(x * x, SCALE as int), SCALE as int) <= 16
            * SCALE,
        0 <= tdiv(tdiv(tdiv(x * x, SCALE as int) * x, SCALE as int) * tdiv(x * x, SCALE as int),
            SCALE as int,
        ) <= 32 * SCALE,
        0 <= tdiv(tdiv(tdiv(tdiv(x * x, SCALE as int) * x, SCALE as int) * tdiv(
            x * x,
            SCALE as int,
        ), SCALE as int) * tdiv(x * x, SCALE as int), SCALE as int) <= 128 * SCALE,
{
    let one: int = SCALE as int;
    lemma_abs_mul_le(x, x, 2 * one, 2 * one);
    lemma_mul_nonneg(x, x);
    assert((2 * one) * (2 * one) == (4 * one) * one) by (nonlinear_arith);
    lemma_tdiv_abs_le(x * x, one, 4 * one);
    lemma_tdiv_pos(x * x, one);
    let t2: int = tdiv(x * x, one);
    lemma_abs_mul_le(t2, x, 4 * one, 2 * one);
    lemma_mul_nonneg(t2, x);
    assert((4 * one) * (2 * one) == (8 * one) * one) by (nonlinear_arith);
    lemma_tdiv_abs_le(t2 * x, one, 8 * one);
    lemma_tdiv_pos(t2 * x, one);
    let t3: int = tdiv(t2 * x, one);
    lemma_abs_mul_le(t2, t2, 4 * one, 4 * one);
    lemma_mul_nonneg(t2, t2);
    assert((4 * one) * (4 * one) == (16 * one) * one) by (nonlinear_arith);
    lemma_tdiv_abs_le(t2 * t2, one, 16 * one);
    lemma_tdiv_pos(t2 * t2, one);
    lemma_abs_mul_le(t3, t2, 8 * one, 4 * one);
    lemma_mul_nonneg(t3, t2);
    assert((8 * one) * (4 * one) == (32 * one) * one) by (nonlinear_arith);
    lemma_tdiv_abs_le(t3 * t2, one, 32 * one);
    lemma_tdiv_pos(t3 * t2, one);
    let t4: int = tdiv(t2 * t2, one);
    lemma_abs_mul_le(t4, t2, 16 * one, 4 * one);
    lemma_mul_nonneg(t4, t2);
    assert((16 * one) * (4 * one) == (64 * one) * one) by (nonlinear_arith);
    lemma_tdiv_abs_le(t4 * t2, one, 64 * one);
    lemma_tdiv_pos(t4 * t2, one);
    let t5: int = tdiv(t3 * t2, one);
    lemma_abs_mul_le(t5, t2, 32 * one, 4 * one);
    lemma_mul_nonneg(t5, t2);
    assert((32 * one) * (4 * one) == (128 * one) * one) by (nonlinear_arith);
    lemma_tdiv_abs_le(t5 * t2, one, 128 * one);
    lemma_tdiv_pos(t5 * t2, one);
}

/// A product of non-negative values is non-negative.
pub proof fn lemma_mul_nonneg(a: int, b: int)
    by (nonlinear_arith)
    requires
        a >= 0,
        b >= 0,
    ensures
        a * b >= 0,
{
}

/// A truncating quotient of non-negative values is non-negative.
proof fn lemma_tdiv_pos(n: int, d: int)
    requires
        n >= 0,
        d > 0,
    ensures
        tdiv(n, d) >= 0,
{
    lemma_div_pos_is_pos(n, d);
}

/// Sine and cosine of an angle, spec form: the angle is wrapped into one
/// turn, reduced to a quarter turn by the usual symmetries, and the
/// quarter-turn polynomials are applied.
pub open spec fn sin_cos_spec(a: int) -> (int, int) {
    let x: int = wrap_angle_spec(a);
    if x <= HALF_PI_FX {
        (quarter_sin_spec(x), quarter_cos_spec(x))
    } else if x <= PI_FX {
        (quarter_sin_spec(PI_FX - x), -quarter_cos_spec(PI_FX - x))
    } else if x <= PI_FX + HALF_PI_FX {
        (-quarter_sin_spec(x - PI_FX), -quarter_cos_spec(x - PI_FX))
    } else {
        (-quarter_sin_spec(TAU_FX - x), quarter_cos_spec(TAU_FX - x))
    }
}

/// Sine and cosine of a fixed-point angle, each in `[-SCALE, SCALE]`.
pub fn sin_cos(a: i64) -> (r: (i64, i64))
    requires
        a > i64::MIN,
    ensures
        r.0 == sin_cos_spec(a as int).0,
        r.1 == sin_cos_spec(a as int).1,
        -SCALE <= r.0 <= SCALE,
        -SCALE <= r.1 <= SCALE,
{
    let x: i64 = wrap_angle(a);
    if x <= HALF_PI_FX {
        (quarter_sin(x), quarter_cos(x))
    } else if x <= PI_FX {
        (quarter_sin(PI_FX - x), -quarter_cos(PI_FX - x))
    } else if x <= PI_FX + HALF_PI_FX {
        (-quarter_sin(x - PI_FX), -quarter_cos(x - PI_FX))
    } else {
        (-quarter_sin(TAU_FX - x), quarter_cos(TAU_FX - x))
    }
}

/// Integer square root: the largest `r` with `r * r <= n`.
pub fn isqrt64(n: u64) -> (r: u64)
    ensures
        r * r <= n,
        (r + 1) * (r + 1) > n,
        r < 0x1_0000_0000,
        r == sqrt_floor(n as int),
{
    let mut lo: u64 = 0;
    let mut hi: u64 = 0x1_0000_0000;
    while lo + 1 < hi
        invariant
            lo < hi,
            hi <= 0x1_0000_0000,
            lo * lo <= n,
            hi * hi > n,
        decreases hi - lo,
    {
        let mid: u64 = lo + (hi - lo) / 2;
        proof {
            assert(mid * mid < 0x1_0000_0000_0000_0000) by (nonlinear_arith)
                requires
                    mid < 0x1_0000_0000,
            ;
        }
        if mid * mid <= n {
            lo = mid;
        } else {
            hi = mid;
        }
    }
    proof {
        lemma_sqrt_floor_unique(n as int, lo as int);
    }
    lo
}

} // verus!
