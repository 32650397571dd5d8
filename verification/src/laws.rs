//! The laws of the rotation algebra, proved over the exact integer model.
//!
//! Executable operations truncate each component back to the fixed-point
//! scale, so their outputs follow these laws up to that rounding; the laws
//! themselves are exact statements about the model functions that the
//! executable contracts name.

use vstd::prelude::*;
use crate::fixed::{lemma_tdiv_cancel, SCALE};
use crate::model::{
    gp_model, gp_quad, plane_neg, plane_quad, plane_zero, rotor_conj, rotor_sq, wedge_model,
    RotorModel, VecModel,
};
use crate::rotor::{gp_scaled, rotor_identity_model};
use crate::bivector::unit_plane_model;
use crate::vector::Axis;

verus! {

/// Swapping the two axes of a unit plane negates exactly that plane:
/// the antisymmetry that defines the table of twelve.
pub proof fn lemma_unit_plane_antisymmetric(a: Axis, b: Axis)
    ensures
        unit_plane_model(a, b) == plane_neg(unit_plane_model(b, a)),
{
}

/// The twelve named unit planes are pairwise distinct: two unit planes
/// on distinct axis pairs are equal only when the pairs are the same,
/// in the same order.
pub proof fn lemma_unit_planes_distinct(a: Axis, b: Axis, c: Axis, d: Axis)
    requires
        a != b,
        c != d,
        unit_plane_model(a, b) == unit_plane_model(c, d),
    ensures
        a == c,
        b == d,
{
}

/// The wedge product is antisymmetric, and the wedge of a vector with
/// itself is zero.
pub proof fn lemma_wedge_antisymmetric(a: VecModel, b: VecModel)
    ensures
        wedge_model(a, b) == plane_neg(wedge_model(b, a)),
        wedge_model(a, a) == plane_zero(),
{
}

/// Composing a rotor with its conjugate yields the identity, scaled by
/// the rotor's squared norm: the kept grades of the product are exactly
/// the squared norm and the zero plane, and the discarded four-fold
/// grade is twice the rotor's own four-fold defect, with opposite sign.
pub proof fn lemma_conjugate_cancels(r: RotorModel)
    ensures
        gp_model(r, rotor_conj(r)) == (RotorModel { s: rotor_sq(r), b: plane_zero() }),
        gp_quad(r, rotor_conj(r)) == -2 * plane_quad(r.b),
{
    let c = rotor_conj(r);
    let g = gp_model(r, c);
    let q = gp_quad(r, c);
    assert(g.s == rotor_sq(r) && g.b.xy == 0 && g.b.xz == 0 && g.b.xw == 0 && g.b.yz == 0
        && g.b.yw == 0 && g.b.zw == 0 && q == -2 * plane_quad(r.b)) by (nonlinear_arith)
        requires
            c.s == r.s,
            c.b.xy == -r.b.xy,
            c.b.xz == -r.b.xz,
            c.b.xw == -r.b.xw,
            c.b.yz == -r.b.yz,
            c.b.yw == -r.b.yw,
            c.b.zw == -r.b.zw,
            g == gp_explicit(r, c),
            q == r.b.xy * c.b.zw + r.b.zw * c.b.xy - r.b.xz * c.b.yw - r.b.yw * c.b.xz + r.b.xw
                * c.b.yz + r.b.yz * c.b.xw,
            rotor_sq(r) == r.s * r.s + (r.b.xy * r.b.xy + r.b.xz * r.b.xz + r.b.xw * r.b.xw
                + r.b.yz * r.b.yz + r.b.yw * r.b.yw + r.b.zw * r.b.zw),
            plane_quad(r.b) == r.b.xy * r.b.zw - r.b.xz * r.b.yw + r.b.xw * r.b.yz,
            g.s == r.s * c.s - (r.b.xy * c.b.xy + r.b.xz * c.b.xz + r.b.xw * c.b.xw + r.b.yz
                * c.b.yz + r.b.yw * c.b.yw + r.b.zw * c.b.zw),
            g.b.xy == r.s * c.b.xy + c.s * r.b.xy + (r.b.yz * c.b.xz - r.b.xz * c.b.yz) + (
            r.b.yw * c.b.xw - r.b.xw * c.b.yw),
            g.b.xz == r.s * c.b.xz + c.s * r.b.xz + (r.b.xy * c.b.yz - r.b.yz * c.b.xy) + (
            r.b.zw * c.b.xw - r.b.xw * c.b.zw),
            g.b.xw == r.s * c.b.xw + c.s * r.b.xw + (r.b.xy * c.b.yw - r.b.yw * c.b.xy) + (
            r.b.xz * c.b.zw - r.b.zw * c.b.xz),
            g.b.yz == r.s * c.b.yz + c.s * r.b.yz + (r.b.xz * c.b.xy - r.b.xy * c.b.xz) + (
            r.b.zw * c.b.yw - r.b.yw * c.b.zw),
            g.b.yw == r.s * c.b.yw + c.s * r.b.yw + (r.b.xw * c.b.xy - r.b.xy * c.b.xw) + (
            r.b.yz * c.b.zw - r.b.zw * c.b.yz),
            g.b.zw == r.s * c.b.zw + c.s * r.b.zw + (r.b.xw * c.b.xz - r.b.xz * c.b.xw) + (
            r.b.yw * c.b.yz - r.b.yz * c.b.yw),
    ;
}

/// `gp_model`, written out flat; used to hand the product's component
/// formulas to the arithmetic solver.
spec fn gp_explicit(a: RotorModel, c: RotorModel) -> RotorModel {
    gp_model(a, c)
}

/// Composing with the identity rotor, on either side, changes nothing:
/// the identity is a unit for the scaled geometric product.
pub proof fn lemma_identity_unit(r: RotorModel)
    ensures
        gp_scaled(rotor_identity_model(), r) == r,
        gp_scaled(r, rotor_identity_model()) == r,
{
    let one: int = SCALE as int;
    let i = rotor_identity_model();
    lemma_tdiv_cancel(r.s, one);
    lemma_tdiv_cancel(r.b.xy, one);
    lemma_tdiv_cancel(r.b.xz, one);
    lemma_tdiv_cancel(r.b.xw, one);
    lemma_tdiv_cancel(r.b.yz, one);
    lemma_tdiv_cancel(r.b.yw, one);
    lemma_tdiv_cancel(r.b.zw, one);
    let gl = gp_model(i, r);
    assert(gl.s == one * r.s && gl.b.xy == one * r.b.xy && gl.b.xz == one * r.b.xz && gl.b.xw
        == one * r.b.xw && gl.b.yz == one * r.b.yz && gl.b.yw == one * r.b.yw && gl.b.zw == one
        * r.b.zw) by (nonlinear_arith)
        requires
            gl == gp_explicit(i, r),
            i.s == one,
            i.b.xy == 0 && i.b.xz == 0 && i.b.xw == 0 && i.b.yz == 0 && i.b.yw == 0 && i.b.zw
                == 0,
            gl.s == i.s * r.s - (i.b.xy * r.b.xy + i.b.xz * r.b.xz + i.b.xw * r.b.xw + i.b.yz
                * r.b.yz + i.b.yw * r.b.yw + i.b.zw * r.b.zw),
            gl.b.xy == i.s * r.b.xy + r.s * i.b.xy + (i.b.yz * r.b.xz - i.b.xz * r.b.yz) + (
            i.b.yw * r.b.xw - i.b.xw * r.b.yw),
            gl.b.xz == i.s * r.b.xz + r.s * i.b.xz + (i.b.xy * r.b.yz - i.b.yz * r.b.xy) + (
            i.b.zw * r.b.xw - i.b.xw * r.b.zw),
            gl.b.xw == i.s * r.b.xw + r.s * i.b.xw + (i.b.xy * r.b.yw - i.b.yw * r.b.xy) + (
            i.b.xz * r.b.zw - i.b.zw * r.b.xz),
            gl.b.yz == i.s * r.b.yz + r.s * i.b.yz + (i.b.xz * r.b.xy - i.b.xy * r.b.xz) + (
            i.b.zw * r.b.yw - i.b.yw * r.b.zw),
            gl.b.yw == i.s * r.b.yw + r.s * i.b.yw + (i.b.xw * r.b.xy - i.b.xy * r.b.xw) + (
            i.b.yz * r.b.zw - i.b.zw * r.b.yz),
            gl.b.zw == i.s * r.b.zw + r.s * i.b.zw + (i.b.xw * r.b.xz - i.b.xz * r.b.xw) + (
            i.b.yw * r.b.yz - i.b.yz * r.b.yw),
    ;
    let gr = gp_model(r, i);
    assert(gr.s == one * r.s && gr.b.xy == one * r.b.xy && gr.b.xz == one * r.b.xz && gr.b.xw
        == one * r.b.xw && gr.b.yz == one * r.b.yz && gr.b.yw == one * r.b.yw && gr.b.zw == one
        * r.b.zw) by (nonlinear_arith)
        requires
            gr == gp_explicit(r, i),
            i.s == one,
            i.b.xy == 0 && i.b.xz == 0 && i.b.xw == 0 && i.b.yz == 0 && i.b.yw == 0 && i.b.zw
                == 0,
            gr.s == r.s * i.s - (r.b.xy * i.b.xy + r.b.xz * i.b.xz + r.b.xw * i.b.xw + r.b.yz
                * i.b.yz + r.b.yw * i.b.yw + r.b.zw * i.b.zw),
            gr.b.xy == r.s * i.b.xy + i.s * r.b.xy + (r.b.yz * i.b.xz - r.b.xz * i.b.yz) + (
            r.b.yw * i.b.xw - r.b.xw * i.b.yw),
            gr.b.xz == r.s * i.b.xz + i.s * r.b.xz + (r.b.xy * i.b.yz - r.b.yz * i.b.xy) + (
            r.b.zw * i.b.xw - r.b.xw * i.b.zw),
            gr.b.xw == r.s * i.b.xw + i.s * r.b.xw + (r.b.xy * i.b.yw - r.b.yw * i.b.xy) + (
            r.b.xz * i.b.zw - r.b.zw * i.b.xz),
            gr.b.yz == r.s * i.b.yz + i.s * r.b.yz + (r.b.xz * i.b.xy - r.b.xy * i.b.xz) + (
            r.b.zw * i.b.yw - r.b.yw * i.b.zw),
            gr.b.yw == r.s * i.b.yw + i.s * r.b.yw + (r.b.xw * i.b.xy - r.b.xy * i.b.xw) + (
            r.b.yz * i.b.zw - r.b.zw * i.b.yz),
            gr.b.zw == r.s * i.b.zw + i.s * r.b.zw + (r.b.xw * i.b.xz - r.b.xz * i.b.xw) + (
            r.b.yw * i.b.yz - r.b.yz * i.b.yw),
    ;
}

} // verus!
