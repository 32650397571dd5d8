//! Rotors: double-cover rotation operators over 4D space, built from the
//! oriented-plane algebra.

use vstd::prelude::*;
use crate::bivector::{BiVector4, COMP_LIMIT};
use crate::fixed::{
    isqrt64, lemma_abs_mul_le, lemma_normalized_sq_bound, lemma_sqrt_floor_sound,
    lemma_sq_nonneg, lemma_tdiv_abs_le, lemma_tdiv_cancel, scaled_comp_sq, sin_cos,
    sin_cos_spec, sqrt_floor, tdiv, tdiv128, tdiv64, SCALE,
};
use crate::model::{
    between_model, gp_model, plane_bounded, plane_neg, plane_sq, plane_zero, rotor_bounded,
    rotor_conj, rotor_sq, rv_tri, rv_vec, sandwich_model, vec_bounded, wedge_model, PlaneModel,
    RotorModel, VecModel,
};
use crate::vector::Vec4;

verus! {

/// The identity rotor in the exact model: scalar one, zero plane.
pub open spec fn rotor_identity_model() -> RotorModel {
    RotorModel { s: SCALE as int, b: plane_zero() }
}

/// The geometric product of two rotors, truncated back to the fixed-point
/// scale component by component.
pub open spec fn gp_scaled(a: RotorModel, c: RotorModel) -> RotorModel {
    let one: int = SCALE as int;
    let g = gp_model(a, c);
    RotorModel {
        s: tdiv(g.s, one),
        b: PlaneModel {
            xy: tdiv(g.b.xy, one),
            xz: tdiv(g.b.xz, one),
            xw: tdiv(g.b.xw, one),
            yz: tdiv(g.b.yz, one),
            yw: tdiv(g.b.yw, one),
            zw: tdiv(g.b.zw, one),
        },
    }
}

/// The sandwich product of a rotor and a vector, truncated back to the
/// fixed-point scale component by component.
pub open spec fn sandwich_scaled(r: RotorModel, v: VecModel) -> VecModel {
    let sq: int = (SCALE as int) * (SCALE as int);
    let f = sandwich_model(r, v);
    VecModel {
        x: tdiv(f.x, sq),
        y: tdiv(f.y, sq),
        z: tdiv(f.z, sq),
        w: tdiv(f.w, sq),
    }
}

/// Every component of the rotor multiplied by `SCALE` and truncating-
/// divided by `l`.
pub open spec fn rotor_scaled_down(r: RotorModel, l: int) -> RotorModel {
    let one: int = SCALE as int;
    RotorModel {
        s: tdiv(r.s * one, l),
        b: PlaneModel {
            xy: tdiv(r.b.xy * one, l),
            xz: tdiv(r.b.xz * one, l),
            xw: tdiv(r.b.xw * one, l),
            yz: tdiv(r.b.yz * one, l),
            yw: tdiv(r.b.yw * one, l),
            zw: tdiv(r.b.zw * one, l),
        },
    }
}

/// The rotor scaled to norm one: every component multiplied by `SCALE`
/// and divided by the norm.
pub open spec fn rotor_normalized_model(r: RotorModel) -> RotorModel {
    rotor_scaled_down(r, sqrt_floor(rotor_sq(r)))
}

/// The elementary rotation of `angle` within `plane`, as the exact
/// pipeline: scalar is the cosine of half the angle, plane part is the
/// plane scaled by minus the sine of half the angle, and the whole is
/// normalized. A degenerate raw rotor (squared norm under a quarter of
/// one) falls back to the identity.
pub open spec fn fap_model(angle: int, p: PlaneModel) -> RotorModel {
    let one: int = SCALE as int;
    let half: int = tdiv(angle, 2);
    let sc: (int, int) = sin_cos_spec(half);
    let raw = RotorModel {
        s: sc.1,
        b: PlaneModel {
            xy: tdiv(p.xy * (-sc.0), one),
            xz: tdiv(p.xz * (-sc.0), one),
            xw: tdiv(p.xw * (-sc.0), one),
            yz: tdiv(p.yz * (-sc.0), one),
            yw: tdiv(p.yw * (-sc.0), one),
            zw: tdiv(p.zw * (-sc.0), one),
        },
    };
    if 4 * rotor_sq(raw) < one * one {
        rotor_identity_model()
    } else {
        rotor_normalized_model(raw)
    }
}

/// The raw shortest-arc rotor between `a` and `b`, truncated from the
/// double scale of its products back to the fixed-point scale.
pub open spec fn between_scaled(a: VecModel, b: VecModel) -> RotorModel {
    let one: int = SCALE as int;
    let raw = between_model(a, b, one * one);
    RotorModel {
        s: tdiv(raw.s, one),
        b: PlaneModel {
            xy: tdiv(raw.b.xy, one),
            xz: tdiv(raw.b.xz, one),
            xw: tdiv(raw.b.xw, one),
            yz: tdiv(raw.b.yz, one),
            yw: tdiv(raw.b.yw, one),
            zw: tdiv(raw.b.zw, one),
        },
    }
}

/// The shortest-arc rotor pipeline: the raw rotor, normalized; an
/// exactly antiparallel pair gives a zero raw rotor, which falls back to
/// the identity.
pub open spec fn frb_model(a: VecModel, b: VecModel) -> RotorModel {
    let raw = between_scaled(a, b);
    if rotor_sq(raw) == 0 {
        rotor_identity_model()
    } else {
        rotor_normalized_model(raw)
    }
}

/// A rotor: a scalar plus an oriented plane, together representing a
/// rotation of 4D space through the double cover of the rotation group.
/// Unit rotors are produced by the constructors; values are immutable.
#[derive(Clone, Copy, PartialEq, Eq, Structural, Debug)]
pub struct Rotor4 {
    pub s: i64,
    pub bv: BiVector4,
}

impl View for Rotor4 {
    type V = RotorModel;

    open spec fn view(&self) -> RotorModel {
        RotorModel { s: self.s as int, b: self.bv@ }
    }
}

/// Product of two components, both within `COMP_LIMIT`.
fn pcl(a: i64, b: i64) -> (r: i128)
    requires
        -COMP_LIMIT <= a <= COMP_LIMIT,
        -COMP_LIMIT <= b <= COMP_LIMIT,
    ensures
        r == a as int * b as int,
        -((COMP_LIMIT as int) * (COMP_LIMIT as int)) <= r <= (COMP_LIMIT as int) * (
        COMP_LIMIT as int),
{
    proof {
        lemma_abs_mul_le(a as int, b as int, COMP_LIMIT as int, COMP_LIMIT as int);
    }
    (a as i128) * (b as i128)
}

/// Product of an intermediate sandwich term (within four squared
/// component limits) and a component.
fn pu(a: i128, b: i64) -> (r: i128)
    requires
        -(4 * (COMP_LIMIT as int) * (COMP_LIMIT as int)) <= a <= 4 * (COMP_LIMIT as int) * (
        COMP_LIMIT as int),
        -COMP_LIMIT <= b <= COMP_LIMIT,
    ensures
        r == a as int * b as int,
        -(4 * (COMP_LIMIT as int) * (COMP_LIMIT as int) * (COMP_LIMIT as int)) <= r <= 4 * (
        COMP_LIMIT as int) * (COMP_LIMIT as int) * (COMP_LIMIT as int),
{
    proof {
        lemma_abs_mul_le(
            a as int,
            b as int,
            4 * (COMP_LIMIT as int) * (COMP_LIMIT as int),
            COMP_LIMIT as int,
        );
    }
    a * (b as i128)
}

impl Rotor4 {
    /// The identity rotor: no rotation at all.
    pub fn identity() -> (r: Rotor4)
        ensures
            r@ == rotor_identity_model(),
    {
        Rotor4 { s: SCALE, bv: BiVector4::zero() }
    }

    /// Scalar squared plus the plane part's squared magnitude: the
    /// squared norm of the rotor.
    pub fn sqr_length(self) -> (r: i64)
        requires
            rotor_bounded(self@, COMP_LIMIT as int),
        ensures
            r == rotor_sq(self@),
            0 <= r <= 7 * (COMP_LIMIT as int) * (COMP_LIMIT as int),
    {
        proof {
            lemma_abs_mul_le(self@.s, self@.s, COMP_LIMIT as int, COMP_LIMIT as int);
            lemma_sq_nonneg(self@.s);
        }
        let b2: i64 = self.bv.sqr_length();
        let t: i128 = (self.s as i128) * (self.s as i128) + (b2 as i128);
        t as i64
    }

    /// The norm: the integer square root of `sqr_length`.
    pub fn length(self) -> (r: i64)
        requires
            rotor_bounded(self@, COMP_LIMIT as int),
        ensures
            r == sqrt_floor(rotor_sq(self@)),
            0 <= r < 0x1_0000_0000,
    {
        let n: i64 = self.sqr_length();
        isqrt64(n as u64) as i64
    }

    /// The conjugate (reverse) rotor: scalar kept, plane part negated.
    /// It undoes this rotor's rotation.
    pub fn conjugate(self) -> (r: Rotor4)
        requires
            rotor_bounded(self@, COMP_LIMIT as int),
        ensures
            r@ == rotor_conj(self@),
    {
        Rotor4 { s: self.s, bv: self.bv.neg() }
    }

    /// The rotor scaled to norm one. The zero rotor has no direction to
    /// keep, so it is rejected up front. When the input's norm is at
    /// least one half, the result's squared norm is within `19 * SCALE`
    /// of one (`SCALE * SCALE` in fixed point).
    pub fn normalized(self) -> (r: Rotor4)
        requires
            rotor_bounded(self@, COMP_LIMIT as int),
            rotor_sq(self@) > 0,
        ensures
            r@ == rotor_normalized_model(self@),
            rotor_bounded(r@, SCALE as int),
            4 * rotor_sq(self@) >= SCALE * SCALE ==> SCALE * SCALE - 19 * SCALE <= rotor_sq(r@)
                <= SCALE * SCALE + 19 * SCALE,
    {
        let n: i64 = self.sqr_length();
        let len: i64 = isqrt64(n as u64) as i64;
        proof {
            let nn: int = rotor_sq(self@);
            let l: int = len as int;
            lemma_sqrt_floor_sound(nn);
            assert(l >= 1) by (nonlinear_arith)
                requires
                    nn > 0,
                    l >= 0,
                    (l + 1) * (l + 1) > nn,
                    l * l <= nn,
            ;
            lemma_sq_nonneg(self@.s);
            lemma_sq_nonneg(self@.b.xy);
            lemma_sq_nonneg(self@.b.xz);
            lemma_sq_nonneg(self@.b.xw);
            lemma_sq_nonneg(self@.b.yz);
            lemma_sq_nonneg(self@.b.yw);
            lemma_sq_nonneg(self@.b.zw);
            lemma_norm_comp_rotor(self@.s, nn, l);
            lemma_norm_comp_rotor(self@.b.xy, nn, l);
            lemma_norm_comp_rotor(self@.b.xz, nn, l);
            lemma_norm_comp_rotor(self@.b.xw, nn, l);
            lemma_norm_comp_rotor(self@.b.yz, nn, l);
            lemma_norm_comp_rotor(self@.b.yw, nn, l);
            lemma_norm_comp_rotor(self@.b.zw, nn, l);
            if 4 * rotor_sq(self@) >= SCALE * SCALE {
                lemma_normalized_sq_bound(
                    self@.s,
                    self@.b.xy,
                    self@.b.xz,
                    self@.b.xw,
                    self@.b.yz,
                    self@.b.yw,
                    self@.b.zw,
                    nn,
                    l,
                );
            }
        }
        Rotor4 {
            s: tdiv64(self.s * SCALE, len),
            bv: BiVector4 {
                xy: tdiv64(self.bv.xy * SCALE, len),
                xz: tdiv64(self.bv.xz * SCALE, len),
                xw: tdiv64(self.bv.xw * SCALE, len),
                yz: tdiv64(self.bv.yz * SCALE, len),
                yw: tdiv64(self.bv.yw * SCALE, len),
                zw: tdiv64(self.bv.zw * SCALE, len),
            },
        }
    }

    /// The elementary rotation of `angle` radians within `plane`:
    /// scalar is the cosine of half the angle, plane part is `plane`
    /// scaled by minus the sine of half the angle, and the result is
    /// normalized, which also tolerates a caller-supplied plane that is
    /// not exactly unit length. A degenerate raw rotor (squared norm
    /// under a quarter of one, possible only for a plane far from unit
    /// length) falls back to the identity. In every case the result's
    /// squared norm is within `19 * SCALE` of one.
    pub fn from_angle_plane(angle: i64, plane: BiVector4) -> (r: Rotor4)
        requires
            angle > i64::MIN,
            plane_bounded(plane@, COMP_LIMIT as int),
        ensures
            r@ == fap_model(angle as int, plane@),
            rotor_bounded(r@, SCALE as int),
            SCALE * SCALE - 19 * SCALE <= rotor_sq(r@) <= SCALE * SCALE + 19 * SCALE,
    {
        let half: i64 = tdiv64(angle, 2);
        let sc: (i64, i64) = sin_cos(half);
        let m: i64 = -sc.0;
        proof {
            lemma_fap_comp(plane@.xy, m as int);
            lemma_fap_comp(plane@.xz, m as int);
            lemma_fap_comp(plane@.xw, m as int);
            lemma_fap_comp(plane@.yz, m as int);
            lemma_fap_comp(plane@.yw, m as int);
            lemma_fap_comp(plane@.zw, m as int);
        }
        let raw = Rotor4 {
            s: sc.1,
            bv: BiVector4 {
                xy: tdiv64(plane.xy * m, SCALE),
                xz: tdiv64(plane.xz * m, SCALE),
                xw: tdiv64(plane.xw * m, SCALE),
                yz: tdiv64(plane.yz * m, SCALE),
                yw: tdiv64(plane.yw * m, SCALE),
                zw: tdiv64(plane.zw * m, SCALE),
            },
        };
        let n: i64 = raw.sqr_length();
        if 4 * n < SCALE * SCALE {
            Rotor4::identity()
        } else {
            raw.normalized()
        }
    }

    /// The shortest-arc rotor mapping the direction of `from` onto the
    /// direction of `to`, for unit-scale vectors: scalar one plus the
    /// dot product, plane part the wedge of `to` with `from`, then
    /// normalized. Exactly antiparallel inputs make the raw rotor zero;
    /// that degenerate case is a documented caller error, answered with
    /// the identity rotor rather than an indeterminate value (the caller
    /// should instead pick a rotation plane for a half turn itself).
    pub fn from_rotation_between(from: Vec4, to: Vec4) -> (r: Rotor4)
        requires
            vec_bounded(from@, 4 * SCALE as int),
            vec_bounded(to@, 4 * SCALE as int),
        ensures
            r@ == frb_model(from@, to@),
            rotor_bounded(r@, SCALE as int),
    {
        proof {
            lemma_between_prod(to@.x, from@.x);
            lemma_between_prod(to@.y, from@.y);
            lemma_between_prod(to@.z, from@.z);
            lemma_between_prod(to@.w, from@.w);
            lemma_between_prod(to@.x, from@.y);
            lemma_between_prod(from@.x, to@.y);
            lemma_between_prod(to@.x, from@.z);
            lemma_between_prod(from@.x, to@.z);
            lemma_between_prod(to@.x, from@.w);
            lemma_between_prod(from@.x, to@.w);
            lemma_between_prod(to@.y, from@.z);
            lemma_between_prod(from@.y, to@.z);
            lemma_between_prod(to@.y, from@.w);
            lemma_between_prod(from@.y, to@.w);
            lemma_between_prod(to@.z, from@.w);
            lemma_between_prod(from@.z, to@.w);
        }
        let one128: i128 = 0x1_0000_0000;
        proof {
            assert((SCALE as int) * (SCALE as int) == 0x1_0000_0000) by (nonlinear_arith);
        }
        let s_raw: i128 = one128 + pcl(to.x, from.x) + pcl(to.y, from.y) + pcl(to.z, from.z)
            + pcl(to.w, from.w);
        let xy_raw: i128 = pcl(to.x, from.y) - pcl(from.x, to.y);
        let xz_raw: i128 = pcl(to.x, from.z) - pcl(from.x, to.z);
        let xw_raw: i128 = pcl(to.x, from.w) - pcl(from.x, to.w);
        let yz_raw: i128 = pcl(to.y, from.z) - pcl(from.y, to.z);
        let yw_raw: i128 = pcl(to.y, from.w) - pcl(from.y, to.w);
        let zw_raw: i128 = pcl(to.z, from.w) - pcl(from.z, to.w);
        proof {
            lemma_between_cast(s_raw as int);
            lemma_between_cast(xy_raw as int);
            lemma_between_cast(xz_raw as int);
            lemma_between_cast(xw_raw as int);
            lemma_between_cast(yz_raw as int);
            lemma_between_cast(yw_raw as int);
            lemma_between_cast(zw_raw as int);
        }
        let raw = Rotor4 {
            s: tdiv128(s_raw, SCALE as i128) as i64,
            bv: BiVector4 {
                xy: tdiv128(xy_raw, SCALE as i128) as i64,
                xz: tdiv128(xz_raw, SCALE as i128) as i64,
                xw: tdiv128(xw_raw, SCALE as i128) as i64,
                yz: tdiv128(yz_raw, SCALE as i128) as i64,
                yw: tdiv128(yw_raw, SCALE as i128) as i64,
                zw: tdiv128(zw_raw, SCALE as i128) as i64,
            },
        };
        let n: i64 = raw.sqr_length();
        if n == 0 {
            Rotor4::identity()
        } else {
            raw.normalized()
        }
    }

    /// The composition of this rotation with `other`: the rotor that
    /// applies `self` first and `other` after it, computed as the
    /// geometric product of the two rotors (`other` on the left). The
    /// four-fold-volume grade that the product can produce is not
    /// representable in a rotor and is discarded; `laws` states what the
    /// kept grades satisfy. Composing with the identity, on either side
    /// of the convention, changes nothing at all.
    pub fn rotate_by(self, other: Rotor4) -> (r: Rotor4)
        requires
            rotor_bounded(self@, COMP_LIMIT as int),
            rotor_bounded(other@, COMP_LIMIT as int),
        ensures
            r@ == gp_scaled(other@, self@),
            other@ == rotor_identity_model() ==> r@ == self@,
    {
        let s_: i128 = pcl(other.s, self.s) - pcl(other.bv.xy, self.bv.xy) - pcl(
            other.bv.xz,
            self.bv.xz,
        ) - pcl(other.bv.xw, self.bv.xw) - pcl(other.bv.yz, self.bv.yz) - pcl(
            other.bv.yw,
            self.bv.yw,
        ) - pcl(other.bv.zw, self.bv.zw);
        let xy_: i128 = pcl(other.s, self.bv.xy) + pcl(self.s, other.bv.xy) + pcl(
            other.bv.yz,
            self.bv.xz,
        ) - pcl(other.bv.xz, self.bv.yz) + pcl(other.bv.yw, self.bv.xw) - pcl(
            other.bv.xw,
            self.bv.yw,
        );
        let xz_: i128 = pcl(other.s, self.bv.xz) + pcl(self.s, other.bv.xz) + pcl(
            other.bv.xy,
            self.bv.yz,
        ) - pcl(other.bv.yz, self.bv.xy) + pcl(other.bv.zw, self.bv.xw) - pcl(
            other.bv.xw,
            self.bv.zw,
        );
        let xw_: i128 = pcl(other.s, self.bv.xw) + pcl(self.s, other.bv.xw) + pcl(
            other.bv.xy,
            self.bv.yw,
        ) - pcl(other.bv.yw, self.bv.xy) + pcl(other.bv.xz, self.bv.zw) - pcl(
            other.bv.zw,
            self.bv.xz,
        );
        let yz_: i128 = pcl(other.s, self.bv.yz) + pcl(self.s, other.bv.yz) + pcl(
            other.bv.xz,
            self.bv.xy,
        ) - pcl(other.bv.xy, self.bv.xz) + pcl(other.bv.zw, self.bv.yw) - pcl(
            other.bv.yw,
            self.bv.zw,
        );
        let yw_: i128 = pcl(other.s, self.bv.yw) + pcl(self.s, other.bv.yw) + pcl(
            other.bv.xw,
            self.bv.xy,
        ) - pcl(other.bv.xy, self.bv.xw) + pcl(other.bv.yz, self.bv.zw) - pcl(
            other.bv.zw,
            self.bv.yz,
        );
        let zw_: i128 = pcl(other.s, self.bv.zw) + pcl(self.s, other.bv.zw) + pcl(
            other.bv.xw,
            self.bv.xz,
        ) - pcl(other.bv.xz, self.bv.xw) + pcl(other.bv.yw, self.bv.yz) - pcl(
            other.bv.yz,
            self.bv.yw,
        );
        proof {
            lemma_gp_cast(s_ as int);
            lemma_gp_cast(xy_ as int);
            lemma_gp_cast(xz_ as int);
            lemma_gp_cast(xw_ as int);
            lemma_gp_cast(yz_ as int);
            lemma_gp_cast(yw_ as int);
            lemma_gp_cast(zw_ as int);
            if other@ == rotor_identity_model() {
                lemma_tdiv_cancel(self@.s, SCALE as int);
                lemma_tdiv_cancel(self@.b.xy, SCALE as int);
                lemma_tdiv_cancel(self@.b.xz, SCALE as int);
                lemma_tdiv_cancel(self@.b.xw, SCALE as int);
                lemma_tdiv_cancel(self@.b.yz, SCALE as int);
                lemma_tdiv_cancel(self@.b.yw, SCALE as int);
                lemma_tdiv_cancel(self@.b.zw, SCALE as int);
            }
        }
        Rotor4 {
            s: tdiv128(s_, SCALE as i128) as i64,
            bv: BiVector4 {
                xy: tdiv128(xy_, SCALE as i128) as i64,
                xz: tdiv128(xz_, SCALE as i128) as i64,
                xw: tdiv128(xw_, SCALE as i128) as i64,
                yz: tdiv128(yz_, SCALE as i128) as i64,
                yw: tdiv128(yw_, SCALE as i128) as i64,
                zw: tdiv128(zw_, SCALE as i128) as i64,
            },
        }
    }

    /// Apply the rotor to a vector through the sandwich product: the
    /// rotor times the vector times the conjugate rotor, expanded in
    /// closed form through the four three-fold intermediate terms.
    pub fn rotate_vec(self, v: Vec4) -> (r: Vec4)
        requires
            rotor_bounded(self@, COMP_LIMIT as int),
            vec_bounded(v@, COMP_LIMIT as int),
        ensures
            r@ == sandwich_scaled(self@, v@),
    {
        let ux: i128 = pcl(self.s, v.x) + pcl(self.bv.xy, v.y) + pcl(self.bv.xz, v.z) + pcl(
            self.bv.xw,
            v.w,
        );
        let uy: i128 = pcl(self.s, v.y) - pcl(self.bv.xy, v.x) + pcl(self.bv.yz, v.z) + pcl(
            self.bv.yw,
            v.w,
        );
        let uz: i128 = pcl(self.s, v.z) - pcl(self.bv.xz, v.x) - pcl(self.bv.yz, v.y) + pcl(
            self.bv.zw,
            v.w,
        );
        let uw: i128 = pcl(self.s, v.w) - pcl(self.bv.xw, v.x) - pcl(self.bv.yw, v.y) - pcl(
            self.bv.zw,
            v.z,
        );
        let txyz: i128 = pcl(self.bv.xy, v.z) - pcl(self.bv.xz, v.y) + pcl(self.bv.yz, v.x);
        let tyzw: i128 = pcl(self.bv.yz, v.w) - pcl(self.bv.yw, v.z) + pcl(self.bv.zw, v.y);
        let tzwx: i128 = pcl(self.bv.xz, v.w) - pcl(self.bv.xw, v.z) + pcl(self.bv.zw, v.x);
        let twxy: i128 = pcl(self.bv.xy, v.w) - pcl(self.bv.xw, v.y) + pcl(self.bv.yw, v.x);
        let pxy: i64 = -self.bv.xy;
        let pxz: i64 = -self.bv.xz;
        let pxw: i64 = -self.bv.xw;
        let pyz: i64 = -self.bv.yz;
        let pyw: i64 = -self.bv.yw;
        let pzw: i64 = -self.bv.zw;
        let fx: i128 = pu(ux, self.s) - pu(uy, pxy) - pu(uz, pxz) - pu(uw, pxw) - pu(txyz, pyz)
            - pu(twxy, pyw) - pu(tzwx, pzw);
        let fy: i128 = pu(uy, self.s) + pu(ux, pxy) - pu(uz, pyz) - pu(uw, pyw) + pu(txyz, pxz)
            + pu(twxy, pxw) - pu(tyzw, pzw);
        let fz: i128 = pu(uz, self.s) + pu(ux, pxz) + pu(uy, pyz) - pu(uw, pzw) - pu(txyz, pxy)
            + pu(tzwx, pxw) + pu(tyzw, pyw);
        let fw: i128 = pu(uw, self.s) + pu(ux, pxw) + pu(uy, pyw) + pu(uz, pzw) - pu(twxy, pxy)
            - pu(tzwx, pxz) - pu(tyzw, pyz);
        proof {
            lemma_sandwich_cast(fx as int);
            lemma_sandwich_cast(fy as int);
            lemma_sandwich_cast(fz as int);
            lemma_sandwich_cast(fw as int);
        }
        let ss: i128 = 0x1_0000_0000;
        proof {
            assert((SCALE as int) * (SCALE as int) == 0x1_0000_0000) by (nonlinear_arith);
        }
        Vec4 {
            x: tdiv128(fx, ss) as i64,
            y: tdiv128(fy, ss) as i64,
            z: tdiv128(fz, ss) as i64,
            w: tdiv128(fw, ss) as i64,
        }
    }
}

/// The free wedge product on vectors: the oriented plane spanned by `a`
/// and `b`, exact at the double scale of its products.
pub fn wedge(a: Vec4, b: Vec4) -> (r: BiVector4)
    requires
        vec_bounded(a@, COMP_LIMIT as int),
        vec_bounded(b@, COMP_LIMIT as int),
    ensures
        r@ == wedge_model(a@, b@),
        plane_bounded(r@, 2 * (COMP_LIMIT as int) * (COMP_LIMIT as int)),
{
    proof {
        lemma_wedge_comp(a@.x, b@.y, b@.x, a@.y);
        lemma_wedge_comp(a@.x, b@.z, b@.x, a@.z);
        lemma_wedge_comp(a@.x, b@.w, b@.x, a@.w);
        lemma_wedge_comp(a@.y, b@.z, b@.y, a@.z);
        lemma_wedge_comp(a@.y, b@.w, b@.y, a@.w);
        lemma_wedge_comp(a@.z, b@.w, b@.z, a@.w);
    }
    BiVector4 {
        xy: ((a.x as i128) * (b.y as i128) - (b.x as i128) * (a.y as i128)) as i64,
        xz: ((a.x as i128) * (b.z as i128) - (b.x as i128) * (a.z as i128)) as i64,
        xw: ((a.x as i128) * (b.w as i128) - (b.x as i128) * (a.w as i128)) as i64,
        yz: ((a.y as i128) * (b.z as i128) - (b.y as i128) * (a.z as i128)) as i64,
        yw: ((a.y as i128) * (b.w as i128) - (b.y as i128) * (a.w as i128)) as i64,
        zw: ((a.z as i128) * (b.w as i128) - (b.z as i128) * (a.w as i128)) as i64,
    }
}

/// Bounds for one wedge component.
proof fn lemma_wedge_comp(p: int, q: int, r: int, s: int)
    requires
        -(COMP_LIMIT as int) <= p <= COMP_LIMIT as int,
        -(COMP_LIMIT as int) <= q <= COMP_LIMIT as int,
        -(COMP_LIMIT as int) <= r <= COMP_LIMIT as int,
        -(COMP_LIMIT as int) <= s <= COMP_LIMIT as int,
    ensures
        -(2 * (COMP_LIMIT as int) * (COMP_LIMIT as int)) <= p * q - r * s <= 2 * (
        COMP_LIMIT as int) * (COMP_LIMIT as int),
        -((COMP_LIMIT as int) * (COMP_LIMIT as int)) <= p * q <= (COMP_LIMIT as int) * (
        COMP_LIMIT as int),
        -((COMP_LIMIT as int) * (COMP_LIMIT as int)) <= r * s <= (COMP_LIMIT as int) * (
        COMP_LIMIT as int),
{
    lemma_abs_mul_le(p, q, COMP_LIMIT as int, COMP_LIMIT as int);
    lemma_abs_mul_le(r, s, COMP_LIMIT as int, COMP_LIMIT as int);
}

/// Bounds for one component of the scaled geometric product: sums of
/// seven products of bounded components, divided by the scale, fit the
/// component type.
proof fn lemma_gp_cast(t: int)
    requires
        -(7 * (COMP_LIMIT as int) * (COMP_LIMIT as int)) <= t <= 7 * (COMP_LIMIT as int) * (
        COMP_LIMIT as int),
    ensures
        -0x70_0000_0000 <= tdiv(t, SCALE as int) <= 0x70_0000_0000,
{
    assert(7 * (COMP_LIMIT as int) * (COMP_LIMIT as int) == 0x70_0000_0000 * (SCALE as int));
    lemma_tdiv_abs_le(t, SCALE as int, 0x70_0000_0000);
}

/// Bound for one product of unit-scale vector components.
proof fn lemma_between_prod(p: int, q: int)
    requires
        -(4 * SCALE as int) <= p <= 4 * SCALE as int,
        -(4 * SCALE as int) <= q <= 4 * SCALE as int,
    ensures
        -(16 * (SCALE as int) * (SCALE as int)) <= p * q <= 16 * (SCALE as int) * (SCALE as int),
{
    lemma_abs_mul_le(p, q, 4 * SCALE as int, 4 * SCALE as int);
    assert((4 * SCALE as int) * (4 * SCALE as int) == 16 * (SCALE as int) * (SCALE as int))
        by (nonlinear_arith);
}

/// Bounds for one component of the scaled shortest-arc rotor.
proof fn lemma_between_cast(t: int)
    requires
        -(65 * (SCALE as int) * (SCALE as int)) <= t <= 65 * (SCALE as int) * (SCALE as int),
    ensures
        -(65 * (SCALE as int)) <= tdiv(t, SCALE as int) <= 65 * (SCALE as int),
{
    assert(65 * (SCALE as int) * (SCALE as int) == (65 * (SCALE as int)) * (SCALE as int));
    lemma_tdiv_abs_le(t, SCALE as int, 65 * (SCALE as int));
}

/// Bounds for one component of the scaled sandwich product.
proof fn lemma_sandwich_cast(t: int)
    requires
        -(28 * (COMP_LIMIT as int) * (COMP_LIMIT as int) * (COMP_LIMIT as int)) <= t <= 28 * (
        COMP_LIMIT as int) * (COMP_LIMIT as int) * (COMP_LIMIT as int),
    ensures
        -0x7_0000_0000_0000 <= tdiv(t, (SCALE as int) * (SCALE as int)) <= 0x7_0000_0000_0000,
{
    assert(28 * (COMP_LIMIT as int) * (COMP_LIMIT as int) * (COMP_LIMIT as int)
        == 0x7_0000_0000_0000 * ((SCALE as int) * (SCALE as int))) by (nonlinear_arith);
    lemma_tdiv_abs_le(t, (SCALE as int) * (SCALE as int), 0x7_0000_0000_0000);
}

/// Bounds for one plane component scaled by the half-angle sine.
proof fn lemma_fap_comp(c: int, m: int)
    requires
        -(COMP_LIMIT as int) <= c <= COMP_LIMIT as int,
        -(SCALE as int) <= m <= SCALE as int,
    ensures
        -((COMP_LIMIT as int) * (SCALE as int)) <= c * m <= (COMP_LIMIT as int) * (SCALE as int),
        -(COMP_LIMIT as int) <= tdiv(c * m, SCALE as int) <= COMP_LIMIT as int,
{
    lemma_abs_mul_le(c, m, COMP_LIMIT as int, SCALE as int);
    lemma_tdiv_abs_le(c * m, SCALE as int, COMP_LIMIT as int);
}

/// The component facts `normalized` needs, shared with the plane type.
proof fn lemma_norm_comp_rotor(c: int, n: int, l: int)
    requires
        c * c <= n,
        n >= 1,
        l == sqrt_floor(n),
    ensures
        -l <= c <= l,
        l >= 1,
        -(SCALE as int) <= tdiv(c * (SCALE as int), l) <= SCALE as int,
{
    lemma_sqrt_floor_sound(n);
    assert(l >= 1) by (nonlinear_arith)
        requires
            n >= 1,
            l >= 0,
            (l + 1) * (l + 1) > n,
            l * l <= n,
    ;
    assert(-l <= c <= l) by (nonlinear_arith)
        requires
            c * c <= n,
            l >= 0,
            (l + 1) * (l + 1) > n,
    ;
    lemma_abs_mul_le(c, SCALE as int, l, SCALE as int);
    assert(l * (SCALE as int) == (SCALE as int) * l) by (nonlinear_arith);
    lemma_tdiv_abs_le(c * (SCALE as int), l, SCALE as int);
}

/// A bound on every component of the scaled geometric product, from
/// bounds on the two factors: used to chain compositions.
pub proof fn lemma_gp_scaled_bound(a: RotorModel, c: RotorModel, ba: int, bc: int, q: int)
    requires
        rotor_bounded(a, ba),
        rotor_bounded(c, bc),
        0 <= ba,
        0 <= bc,
        0 <= q,
        7 * (ba * bc) <= q * (SCALE as int),
    ensures
        rotor_bounded(gp_scaled(a, c), q),
{
    lemma_abs_mul_le(a.s, c.s, ba, bc);
    lemma_abs_mul_le(a.b.xy, c.b.xy, ba, bc);
    lemma_abs_mul_le(a.b.xz, c.b.xz, ba, bc);
    lemma_abs_mul_le(a.b.xw, c.b.xw, ba, bc);
    lemma_abs_mul_le(a.b.yz, c.b.yz, ba, bc);
    lemma_abs_mul_le(a.b.yw, c.b.yw, ba, bc);
    lemma_abs_mul_le(a.b.zw, c.b.zw, ba, bc);
    lemma_abs_mul_le(a.s, c.b.xy, ba, bc);
    lemma_abs_mul_le(c.s, a.b.xy, bc, ba);
    lemma_abs_mul_le(a.b.yz, c.b.xz, ba, bc);
    lemma_abs_mul_le(a.b.xz, c.b.yz, ba, bc);
    lemma_abs_mul_le(a.b.yw, c.b.xw, ba, bc);
    lemma_abs_mul_le(a.b.xw, c.b.yw, ba, bc);
    lemma_abs_mul_le(a.s, c.b.xz, ba, bc);
    lemma_abs_mul_le(c.s, a.b.xz, bc, ba);
    lemma_abs_mul_le(a.b.xy, c.b.yz, ba, bc);
    lemma_abs_mul_le(a.b.yz, c.b.xy, ba, bc);
    lemma_abs_mul_le(a.b.zw, c.b.xw, ba, bc);
    lemma_abs_mul_le(a.b.xw, c.b.zw, ba, bc);
    lemma_abs_mul_le(a.s, c.b.xw, ba, bc);
    lemma_abs_mul_le(c.s, a.b.xw, bc, ba);
    lemma_abs_mul_le(a.b.xy, c.b.yw, ba, bc);
    lemma_abs_mul_le(a.b.yw, c.b.xy, ba, bc);
    lemma_abs_mul_le(a.b.xz, c.b.zw, ba, bc);
    lemma_abs_mul_le(a.b.zw, c.b.xz, ba, bc);
    lemma_abs_mul_le(a.s, c.b.yz, ba, bc);
    lemma_abs_mul_le(c.s, a.b.yz, bc, ba);
    lemma_abs_mul_le(a.b.xz, c.b.xy, ba, bc);
    lemma_abs_mul_le(a.b.xy, c.b.xz, ba, bc);
    lemma_abs_mul_le(a.b.zw, c.b.yw, ba, bc);
    lemma_abs_mul_le(a.b.yw, c.b.zw, ba, bc);
    lemma_abs_mul_le(a.s, c.b.yw, ba, bc);
    lemma_abs_mul_le(c.s, a.b.yw, bc, ba);
    lemma_abs_mul_le(a.b.xw, c.b.xy, ba, bc);
    lemma_abs_mul_le(a.b.xy, c.b.xw, ba, bc);
    lemma_abs_mul_le(a.b.yz, c.b.zw, ba, bc);
    lemma_abs_mul_le(a.b.zw, c.b.yz, ba, bc);
    lemma_abs_mul_le(a.s, c.b.zw, ba, bc);
    lemma_abs_mul_le(c.s, a.b.zw, bc, ba);
    lemma_abs_mul_le(a.b.xw, c.b.xz, ba, bc);
    lemma_abs_mul_le(a.b.xz, c.b.xw, ba, bc);
    lemma_abs_mul_le(a.b.yw, c.b.yz, ba, bc);
    lemma_abs_mul_le(a.b.yz, c.b.yw, ba, bc);
    assert(bc * ba == ba * bc) by (nonlinear_arith);
    crate::fixed::lemma_mul_nonneg(ba, bc);
    let one: int = SCALE as int;
    let g = gp_model(a, c);
    lemma_tdiv_abs_le(g.s, one, q);
    lemma_tdiv_abs_le(g.b.xy, one, q);
    lemma_tdiv_abs_le(g.b.xz, one, q);
    lemma_tdiv_abs_le(g.b.xw, one, q);
    lemma_tdiv_abs_le(g.b.yz, one, q);
    lemma_tdiv_abs_le(g.b.yw, one, q);
    lemma_tdiv_abs_le(g.b.zw, one, q);
}

} // verus!
