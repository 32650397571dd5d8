//! The exact integer model of the 4D rotation algebra.
//!
//! Executable planes, rotors and vectors hold fixed-point `i64` components;
//! their views are the ghost types below, whose components are unbounded
//! integers. The spec functions here are the exact (unrounded, undivided)
//! algebra: every executable operation's contract says that its result is
//! one of these, truncated back to the fixed-point scale, and every law in
//! `laws` is proved of these.
//!
//! Basis convention: the four axes are x, y, z, w in that order; a plane
//! component `xy` is the coefficient of the oriented plane spanned by x
//! then y, so that swapping the two axes negates the component.

use vstd::prelude::*;

verus! {

/// An oriented plane (bivector) with unbounded integer components.
pub ghost struct PlaneModel {
    pub xy: int,
    pub xz: int,
    pub xw: int,
    pub yz: int,
    pub yw: int,
    pub zw: int,
}

/// A rotor: a scalar plus an oriented plane.
pub ghost struct RotorModel {
    pub s: int,
    pub b: PlaneModel,
}

/// A 4-vector with unbounded integer components.
pub ghost struct VecModel {
    pub x: int,
    pub y: int,
    pub z: int,
    pub w: int,
}

/// The plane with all six components zero.
pub open spec fn plane_zero() -> PlaneModel {
    PlaneModel { xy: 0, xz: 0, xw: 0, yz: 0, yw: 0, zw: 0 }
}

/// Component-wise negation of a plane: the same plane with the opposite
/// orientation, and the grade involution used to conjugate a rotor.
pub open spec fn plane_neg(b: PlaneModel) -> PlaneModel {
    PlaneModel { xy: -b.xy, xz: -b.xz, xw: -b.xw, yz: -b.yz, yw: -b.yw, zw: -b.zw }
}

/// Sum of squares of the six plane components.
pub open spec fn plane_sq(b: PlaneModel) -> int {
    b.xy * b.xy + b.xz * b.xz + b.xw * b.xw + b.yz * b.yz + b.yw * b.yw + b.zw * b.zw
}

/// Scalar squared plus the plane's sum of squares: the squared norm of a
/// rotor.
pub open spec fn rotor_sq(r: RotorModel) -> int {
    r.s * r.s + plane_sq(r.b)
}

/// The conjugate (reverse) of a rotor: scalar kept, plane negated.
pub open spec fn rotor_conj(r: RotorModel) -> RotorModel {
    RotorModel { s: r.s, b: plane_neg(r.b) }
}

/// Dot product of two 4-vectors.
pub open spec fn vec_dot(a: VecModel, b: VecModel) -> int {
    a.x * b.x + a.y * b.y + a.z * b.z + a.w * b.w
}

/// The wedge (antisymmetric outer) product of two 4-vectors: the oriented
/// plane they span, scaled by their magnitudes.
pub open spec fn wedge_model(a: VecModel, b: VecModel) -> PlaneModel {
    PlaneModel {
        xy: a.x * b.y - b.x * a.y,
        xz: a.x * b.z - b.x * a.z,
        xw: a.x * b.w - b.x * a.w,
        yz: a.y * b.z - b.y * a.z,
        yw: a.y * b.w - b.y * a.w,
        zw: a.z * b.w - b.z * a.w,
    }
}

/// The coefficient of the four-fold volume element in the square of a
/// plane. A plane is *simple* (it spans a single 2D subspace, as every
/// wedge of two vectors does) exactly when this is zero; it is the part of
/// the rotor algebra that the scalar-plus-plane representation cannot
/// carry.
pub open spec fn plane_quad(b: PlaneModel) -> int {
    b.xy * b.zw - b.xz * b.yw + b.xw * b.yz
}

/// The geometric product of two rotors, keeping the scalar and plane
/// grades. The discarded four-fold-volume coefficient of the full product
/// is `gp_quad`.
pub open spec fn gp_model(a: RotorModel, c: RotorModel) -> RotorModel {
    RotorModel {
        s: a.s * c.s - (a.b.xy * c.b.xy + a.b.xz * c.b.xz + a.b.xw * c.b.xw + a.b.yz * c.b.yz
            + a.b.yw * c.b.yw + a.b.zw * c.b.zw),
        b: PlaneModel {
            xy: a.s * c.b.xy + c.s * a.b.xy + (a.b.yz * c.b.xz - a.b.xz * c.b.yz) + (a.b.yw
                * c.b.xw - a.b.xw * c.b.yw),
            xz: a.s * c.b.xz + c.s * a.b.xz + (a.b.xy * c.b.yz - a.b.yz * c.b.xy) + (a.b.zw
                * c.b.xw - a.b.xw * c.b.zw),
            xw: a.s * c.b.xw + c.s * a.b.xw + (a.b.xy * c.b.yw - a.b.yw * c.b.xy) + (a.b.xz
                * c.b.zw - a.b.zw * c.b.xz),
            yz: a.s * c.b.yz + c.s * a.b.yz + (a.b.xz * c.b.xy - a.b.xy * c.b.xz) + (a.b.zw
                * c.b.yw - a.b.yw * c.b.zw),
            yw: a.s * c.b.yw + c.s * a.b.yw + (a.b.xw * c.b.xy - a.b.xy * c.b.xw) + (a.b.yz
                * c.b.zw - a.b.zw * c.b.yz),
            zw: a.s * c.b.zw + c.s * a.b.zw + (a.b.xw * c.b.xz - a.b.xz * c.b.xw) + (a.b.yw
                * c.b.yz - a.b.yz * c.b.yw),
        },
    }
}

/// The four-fold-volume coefficient that `gp_model` discards.
pub open spec fn gp_quad(a: RotorModel, c: RotorModel) -> int {
    a.b.xy * c.b.zw + a.b.zw * c.b.xy - a.b.xz * c.b.yw - a.b.yw * c.b.xz + a.b.xw * c.b.yz
        + a.b.yz * c.b.xw
}

/// Vector part of the product `r * v`: the first half of the sandwich
/// product.
pub open spec fn rv_vec(r: RotorModel, v: VecModel) -> VecModel {
    VecModel {
        x: r.s * v.x + r.b.xy * v.y + r.b.xz * v.z + r.b.xw * v.w,
        y: r.s * v.y - r.b.xy * v.x + r.b.yz * v.z + r.b.yw * v.w,
        z: r.s * v.z - r.b.xz * v.x - r.b.yz * v.y + r.b.zw * v.w,
        w: r.s * v.w - r.b.xw * v.x - r.b.yw * v.y - r.b.zw * v.z,
    }
}

/// The four three-fold (trivector) coefficients of the product `r * v`,
/// in the order xyz, yzw, zwx, wxy.
pub open spec fn rv_tri(r: RotorModel, v: VecModel) -> VecModel {
    VecModel {
        x: r.b.xy * v.z - r.b.xz * v.y + r.b.yz * v.x,
        y: r.b.yz * v.w - r.b.yw * v.z + r.b.zw * v.y,
        z: r.b.xz * v.w - r.b.xw * v.z + r.b.zw * v.x,
        w: r.b.xy * v.w - r.b.xw * v.y + r.b.yw * v.x,
    }
}

/// The vector part of the sandwich product `r * v * conj(r)`, written in
/// closed form from the intermediate vector and trivector coefficients.
pub open spec fn sandwich_model(r: RotorModel, v: VecModel) -> VecModel {
    let u = rv_vec(r, v);
    let t = rv_tri(r, v);
    let p = plane_neg(r.b);
    VecModel {
        x: u.x * r.s - u.y * p.xy - u.z * p.xz - u.w * p.xw - t.x * p.yz - t.w * p.yw - t.z
            * p.zw,
        y: u.y * r.s + u.x * p.xy - u.z * p.yz - u.w * p.yw + t.x * p.xz + t.w * p.xw - t.y
            * p.zw,
        z: u.z * r.s + u.x * p.xz + u.y * p.yz - u.w * p.zw - t.x * p.xy + t.z * p.xw + t.y
            * p.yw,
        w: u.w * r.s + u.x * p.xw + u.y * p.yw + u.z * p.zw - t.w * p.xy - t.z * p.xz - t.y
            * p.yz,
    }
}

/// The raw (unnormalized) shortest-arc rotor from `a` to `b`, for vectors
/// whose squared length is `unit_sq`: scalar `unit_sq + dot(b, a)`, plane
/// `wedge(b, a)`.
pub open spec fn between_model(a: VecModel, b: VecModel, unit_sq: int) -> RotorModel {
    RotorModel { s: unit_sq + vec_dot(b, a), b: wedge_model(b, a) }
}

/// Scale every component of a vector by `k`.
pub open spec fn vec_scale(v: VecModel, k: int) -> VecModel {
    VecModel { x: k * v.x, y: k * v.y, z: k * v.z, w: k * v.w }
}

/// Every component of the plane lies in `[-m, m]`.
pub open spec fn plane_bounded(b: PlaneModel, m: int) -> bool {
    -m <= b.xy <= m && -m <= b.xz <= m && -m <= b.xw <= m && -m <= b.yz <= m && -m <= b.yw
        <= m && -m <= b.zw <= m
}

/// Every component of the rotor lies in `[-m, m]`.
pub open spec fn rotor_bounded(r: RotorModel, m: int) -> bool {
    -m <= r.s <= m && plane_bounded(r.b, m)
}

/// Every component of the vector lies in `[-m, m]`.
pub open spec fn vec_bounded(v: VecModel, m: int) -> bool {
    -m <= v.x <= m && -m <= v.y <= m && -m <= v.z <= m && -m <= v.w <= m
}

} // verus!
