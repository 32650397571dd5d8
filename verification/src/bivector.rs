//! Oriented planes (bivectors) in 4D space, with fixed-point components.

use vstd::prelude::*;
use crate::fixed::{isqrt64, lemma_abs_mul_le, lemma_tdiv_abs_le, sqrt_floor, tdiv, tdiv64, SCALE};
use crate::model::{plane_bounded, plane_neg, plane_sq, plane_zero, PlaneModel};
use crate::vector::Axis;

verus! {

/// The largest component magnitude the plane operations accept; generous
/// enough for any chain of normalized values, small enough that every
/// intermediate product fits the machine arithmetic.
pub const COMP_LIMIT: i64 = 0x400_0000;

/// An oriented plane in 4D space: one fixed-point component per unordered
/// pair of coordinate axes. The sign of a component orients the plane;
/// the six together also carry a magnitude. Values are immutable; every
/// operation returns a new value.
#[derive(Clone, Copy, PartialEq, Eq, Structural, Debug)]
pub struct BiVector4 {
    pub xy: i64,
    pub xz: i64,
    pub xw: i64,
    pub yz: i64,
    pub yw: i64,
    pub zw: i64,
}

impl View for BiVector4 {
    type V = PlaneModel;

    open spec fn view(&self) -> PlaneModel {
        PlaneModel {
            xy: self.xy as int,
            xz: self.xz as int,
            xw: self.xw as int,
            yz: self.yz as int,
            yw: self.yw as int,
            zw: self.zw as int,
        }
    }
}

/// The unit plane spanned by axis `a` then axis `b`, in the exact model:
/// magnitude `SCALE` in the one component named by the pair, with the
/// sign given by the order of the two axes. The whole table follows from
/// one rule: for axes in coordinate order the component is `+SCALE`, and
/// `unit_plane_model(b, a)` is the negation of `unit_plane_model(a, b)`.
/// The plane of an axis with itself is zero.
pub open spec fn unit_plane_model(a: Axis, b: Axis) -> PlaneModel {
    let one: int = SCALE as int;
    match (a, b) {
        (Axis::X, Axis::Y) => PlaneModel { xy: one, xz: 0, xw: 0, yz: 0, yw: 0, zw: 0 },
        (Axis::X, Axis::Z) => PlaneModel { xy: 0, xz: one, xw: 0, yz: 0, yw: 0, zw: 0 },
        (Axis::X, Axis::W) => PlaneModel { xy: 0, xz: 0, xw: one, yz: 0, yw: 0, zw: 0 },
        (Axis::Y, Axis::Z) => PlaneModel { xy: 0, xz: 0, xw: 0, yz: one, yw: 0, zw: 0 },
        (Axis::Y, Axis::W) => PlaneModel { xy: 0, xz: 0, xw: 0, yz: 0, yw: one, zw: 0 },
        (Axis::Z, Axis::W) => PlaneModel { xy: 0, xz: 0, xw: 0, yz: 0, yw: 0, zw: one },
        (Axis::Y, Axis::X) => PlaneModel { xy: -one, xz: 0, xw: 0, yz: 0, yw: 0, zw: 0 },
        (Axis::Z, Axis::X) => PlaneModel { xy: 0, xz: -one, xw: 0, yz: 0, yw: 0, zw: 0 },
        (Axis::W, Axis::X) => PlaneModel { xy: 0, xz: 0, xw: -one, yz: 0, yw: 0, zw: 0 },
        (Axis::Z, Axis::Y) => PlaneModel { xy: 0, xz: 0, xw: 0, yz: -one, yw: 0, zw: 0 },
        (Axis::W, Axis::Y) => PlaneModel { xy: 0, xz: 0, xw: 0, yz: 0, yw: -one, zw: 0 },
        (Axis::W, Axis::Z) => PlaneModel { xy: 0, xz: 0, xw: 0, yz: 0, yw: 0, zw: -one },
        _ => plane_zero(),
    }
}

impl BiVector4 {
    /// The plane with all six components zero.
    pub fn zero() -> (r: BiVector4)
        ensures
            r@ == plane_zero(),
    {
        BiVector4 { xy: 0, xz: 0, xw: 0, yz: 0, yw: 0, zw: 0 }
    }

    /// The unit plane spanned by axis `a` then axis `b` (zero if they are
    /// equal). The twelve named unit planes of the algebra are the twelve
    /// values of this constructor on distinct axes.
    pub fn unit_plane(a: Axis, b: Axis) -> (r: BiVector4)
        ensures
            r@ == unit_plane_model(a, b),
    {
        match (a, b) {
            (Axis::X, Axis::Y) => BiVector4 { xy: SCALE, xz: 0, xw: 0, yz: 0, yw: 0, zw: 0 },
            (Axis::X, Axis::Z) => BiVector4 { xy: 0, xz: SCALE, xw: 0, yz: 0, yw: 0, zw: 0 },
            (Axis::X, Axis::W) => BiVector4 { xy: 0, xz: 0, xw: SCALE, yz: 0, yw: 0, zw: 0 },
            (Axis::Y, Axis::Z) => BiVector4 { xy: 0, xz: 0, xw: 0, yz: SCALE, yw: 0, zw: 0 },
            (Axis::Y, Axis::W) => BiVector4 { xy: 0, xz: 0, xw: 0, yz: 0, yw: SCALE, zw: 0 },
            (Axis::Z, Axis::W) => BiVector4 { xy: 0, xz: 0, xw: 0, yz: 0, yw: 0, zw: SCALE },
            (Axis::Y, Axis::X) => BiVector4 { xy: -SCALE, xz: 0, xw: 0, yz: 0, yw: 0, zw: 0 },
            (Axis::Z, Axis::X) => BiVector4 { xy: 0, xz: -SCALE, xw: 0, yz: 0, yw: 0, zw: 0 },
            (Axis::W, Axis::X) => BiVector4 { xy: 0, xz: 0, xw: -SCALE, yz: 0, yw: 0, zw: 0 },
            (Axis::Z, Axis::Y) => BiVector4 { xy: 0, xz: 0, xw: 0, yz: -SCALE, yw: 0, zw: 0 },
            (Axis::W, Axis::Y) => BiVector4 { xy: 0, xz: 0, xw: 0, yz: 0, yw: -SCALE, zw: 0 },
            (Axis::W, Axis::Z) => BiVector4 { xy: 0, xz: 0, xw: 0, yz: 0, yw: 0, zw: -SCALE },
            _ => BiVector4 { xy: 0, xz: 0, xw: 0, yz: 0, yw: 0, zw: 0 },
        }
    }

    /// Component-wise negation: the same plane with the opposite
    /// orientation. This is also the grade involution that conjugates a
    /// rotor's plane part.
    pub fn neg(self) -> (r: BiVector4)
        requires
            plane_bounded(self@, COMP_LIMIT as int),
        ensures
            r@ == plane_neg(self@),
    {
        BiVector4 {
            xy: -self.xy,
            xz: -self.xz,
            xw: -self.xw,
            yz: -self.yz,
            yw: -self.yw,
            zw: -self.zw,
        }
    }

    /// Sum of the squares of the six components: the squared magnitude.
    pub fn sqr_length(self) -> (r: i64)
        requires
            plane_bounded(self@, COMP_LIMIT as int),
        ensures
            r == plane_sq(self@),
            0 <= r <= 6 * (COMP_LIMIT as int) * (COMP_LIMIT as int),
    {
        proof {
            let m: int = COMP_LIMIT as int;
            lemma_abs_mul_le(self@.xy, self@.xy, m, m);
            lemma_abs_mul_le(self@.xz, self@.xz, m, m);
            lemma_abs_mul_le(self@.xw, self@.xw, m, m);
            lemma_abs_mul_le(self@.yz, self@.yz, m, m);
            lemma_abs_mul_le(self@.yw, self@.yw, m, m);
            lemma_abs_mul_le(self@.zw, self@.zw, m, m);
            assert(self@.xy * self@.xy >= 0) by (nonlinear_arith);
            assert(self@.xz * self@.xz >= 0) by (nonlinear_arith);
            assert(self@.xw * self@.xw >= 0) by (nonlinear_arith);
            assert(self@.yz * self@.yz >= 0) by (nonlinear_arith);
            assert(self@.yw * self@.yw >= 0) by (nonlinear_arith);
            assert(self@.zw * self@.zw >= 0) by (nonlinear_arith);
        }
        let s: i128 = self.xy as i128 * self.xy as i128 + self.xz as i128 * self.xz as i128
            + self.xw as i128 * self.xw as i128 + self.yz as i128 * self.yz as i128
            + self.yw as i128 * self.yw as i128 + self.zw as i128 * self.zw as i128;
        s as i64
    }

    /// The magnitude (norm): the integer square root of `sqr_length`.
    pub fn length(self) -> (r: i64)
        requires
            plane_bounded(self@, COMP_LIMIT as int),
        ensures
            r == sqrt_floor(plane_sq(self@)),
            0 <= r < 0x1_0000_0000,
    {
        let s: i64 = self.sqr_length();
        isqrt64(s as u64) as i64
    }

    /// The result of dividing every component of `b` by `l`, truncating.
    pub open spec fn scaled_down(b: PlaneModel, l: int) -> PlaneModel {
        let one: int = SCALE as int;
        PlaneModel {
            xy: tdiv(b.xy * one, l),
            xz: tdiv(b.xz * one, l),
            xw: tdiv(b.xw * one, l),
            yz: tdiv(b.yz * one, l),
            yw: tdiv(b.yw * one, l),
            zw: tdiv(b.zw * one, l),
        }
    }

    /// The plane scaled to magnitude one: every component is multiplied
    /// by `SCALE` and divided by the magnitude. The zero plane has no
    /// direction to keep, so it is rejected up front.
    pub fn normalized(self) -> (r: BiVector4)
        requires
            plane_bounded(self@, COMP_LIMIT as int),
            plane_sq(self@) > 0,
        ensures
            r@ == Self::scaled_down(self@, sqrt_floor(plane_sq(self@))),
            plane_bounded(r@, SCALE as int),
    {
        let len: i64 = self.length();
        proof {
            let n: int = plane_sq(self@);
            let l: int = len as int;
            crate::fixed::lemma_sqrt_floor_sound(n);
            assert(l >= 1) by (nonlinear_arith)
                requires
                    n > 0,
                    l >= 0,
                    (l + 1) * (l + 1) > n,
                    l * l <= n,
            ;
            crate::fixed::lemma_sq_nonneg(self@.xy);
            crate::fixed::lemma_sq_nonneg(self@.xz);
            crate::fixed::lemma_sq_nonneg(self@.xw);
            crate::fixed::lemma_sq_nonneg(self@.yz);
            crate::fixed::lemma_sq_nonneg(self@.yw);
            crate::fixed::lemma_sq_nonneg(self@.zw);
            lemma_comp_le_sqrt(self@.xy, n, l);
            lemma_comp_le_sqrt(self@.xz, n, l);
            lemma_comp_le_sqrt(self@.xw, n, l);
            lemma_comp_le_sqrt(self@.yz, n, l);
            lemma_comp_le_sqrt(self@.yw, n, l);
            lemma_comp_le_sqrt(self@.zw, n, l);
            lemma_scaled_comp_bounds(self@.xy, l);
            lemma_scaled_comp_bounds(self@.xz, l);
            lemma_scaled_comp_bounds(self@.xw, l);
            lemma_scaled_comp_bounds(self@.yz, l);
            lemma_scaled_comp_bounds(self@.yw, l);
            lemma_scaled_comp_bounds(self@.zw, l);
        }
        BiVector4 {
            xy: tdiv64(self.xy * SCALE, len),
            xz: tdiv64(self.xz * SCALE, len),
            xw: tdiv64(self.xw * SCALE, len),
            yz: tdiv64(self.yz * SCALE, len),
            yw: tdiv64(self.yw * SCALE, len),
            zw: tdiv64(self.zw * SCALE, len),
        }
    }
}

/// A component is bounded by the square root of the sum of squares it
/// contributes to: if `c * c <= n < (l + 1) * (l + 1)` then `|c| <= l`.
proof fn lemma_comp_le_sqrt(c: int, n: int, l: int)
    by (nonlinear_arith)
    requires
        c * c <= n,
        l >= 0,
        (l + 1) * (l + 1) > n,
    ensures
        -l <= c <= l,
{
}

/// With `|c| <= l`, the scaled quotient `tdiv(c * SCALE, l)` lies within
/// `[-SCALE, SCALE]`.
proof fn lemma_scaled_comp_bounds(c: int, l: int)
    requires
        l >= 1,
        -l <= c <= l,
    ensures
        -(SCALE as int) <= tdiv(c * (SCALE as int), l) <= SCALE as int,
{
    let one: int = SCALE as int;
    lemma_abs_mul_le(c, one, l, one);
    assert(l * one == one * l) by (nonlinear_arith);
    lemma_tdiv_abs_le(c * one, l, one);
}

} // verus!
