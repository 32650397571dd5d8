//! The camera: position, four independent rotation angles, viewing
//! limits, and the composer that turns the four angles into one rotor
//! and the camera-local basis every frame.
//!
//! Convention for the two extra-dimensional angles (documented choice
//! between the two orientations seen in the wild): the "w-yaw" angle
//! rotates in the plane of the x and w axes with positive orientation
//! `x` then `w`, and the "w-pitch" angle in the plane of the z and w
//! axes with positive orientation `z` then `w`.

use vstd::prelude::*;
use crate::bivector::{unit_plane_model, BiVector4, COMP_LIMIT};
use crate::fixed::{tdiv, tdiv64, wrap_angle, wrap_angle_spec, HALF_PI_FX, SCALE, TAU_FX};
use crate::model::{rotor_bounded, vec_bounded, RotorModel, VecModel};
use crate::rotor::{
    fap_model, gp_scaled, lemma_gp_scaled_bound, sandwich_scaled, Rotor4,
};
use crate::vector::{axis_model, Axis, Vec4};

verus! {

/// The largest position component the camera accepts, far beyond any
/// reachable scene while keeping translation arithmetic in range.
pub const POS_LIMIT: i64 = 0x100_0000_0000;

/// The largest translation step accepted per call.
pub const STEP_LIMIT: i64 = 0x4000_0000;

/// The camera's editable state. Forward, right and up are never stored:
/// they are recomputed from the four angles every frame by `basis`.
#[derive(Clone)]
pub struct Camera {
    pub position: Vec4,
    pub yaw: i64,
    pub pitch: i64,
    pub w_yaw: i64,
    pub w_pitch: i64,
    pub fov: i64,
    pub min_distance: i64,
    pub max_distance: i64,
    pub bounce_count: u32,
    pub sample_count: u32,
}

/// The numeric invariants the editor boundary promises after every
/// edit: distances ordered and non-negative, at least one bounce and
/// one sample, angles wrapped into one turn.
pub open spec fn camera_clamped(c: Camera) -> bool {
    0 <= c.min_distance && c.min_distance <= c.max_distance && c.bounce_count >= 1
        && c.sample_count >= 1 && 0 <= c.yaw < TAU_FX && 0 <= c.pitch < TAU_FX && 0 <= c.w_yaw
        < TAU_FX && 0 <= c.w_pitch < TAU_FX && 0 <= c.fov < TAU_FX
}

/// The composite rotor of the four camera angles: yaw in the z-x plane,
/// then pitch in the z-y plane, then w-yaw in the x-w plane, then
/// w-pitch in the z-w plane, composed in that order.
pub open spec fn camera_rotor_model(yaw: int, pitch: int, w_yaw: int, w_pitch: int)
    -> RotorModel {
    let r1 = fap_model(yaw, unit_plane_model(Axis::Z, Axis::X));
    let r2 = gp_scaled(fap_model(pitch, unit_plane_model(Axis::Z, Axis::Y)), r1);
    let r3 = gp_scaled(fap_model(w_yaw, unit_plane_model(Axis::X, Axis::W)), r2);
    gp_scaled(fap_model(w_pitch, unit_plane_model(Axis::Z, Axis::W)), r3)
}

impl Camera {
    /// A camera at the given position with everything else at its most
    /// neutral legal value.
    pub fn new(position: Vec4) -> (r: Camera)
        ensures
            r.position == position,
            r.yaw == 0 && r.pitch == 0 && r.w_yaw == 0 && r.w_pitch == 0,
            r.fov == HALF_PI_FX,
            r.min_distance == 0,
            r.max_distance == 0,
            r.bounce_count == 1,
            r.sample_count == 1,
            camera_clamped(r),
    {
        Camera {
            position,
            yaw: 0,
            pitch: 0,
            w_yaw: 0,
            w_pitch: 0,
            fov: HALF_PI_FX,
            min_distance: 0,
            max_distance: 0,
            bounce_count: 1,
            sample_count: 1,
        }
    }

    /// Apply the editor boundary's clamps and wraps after an edit of
    /// the public fields: angles are wrapped into one turn, the minimum
    /// distance is raised to zero, the maximum to the minimum, and the
    /// bounce and sample counts to one. Nothing else changes.
    pub fn clamp(&mut self)
        requires
            old(self).yaw > i64::MIN,
            old(self).pitch > i64::MIN,
            old(self).w_yaw > i64::MIN,
            old(self).w_pitch > i64::MIN,
            old(self).fov > i64::MIN,
        ensures
            final(self).position == old(self).position,
            final(self).yaw == wrap_angle_spec(old(self).yaw as int),
            final(self).pitch == wrap_angle_spec(old(self).pitch as int),
            final(self).w_yaw == wrap_angle_spec(old(self).w_yaw as int),
            final(self).w_pitch == wrap_angle_spec(old(self).w_pitch as int),
            final(self).fov == wrap_angle_spec(old(self).fov as int),
            final(self).min_distance == if old(self).min_distance >= 0 {
                old(self).min_distance
            } else {
                0
            },
            final(self).max_distance == if old(self).max_distance >= final(self).min_distance {
                old(self).max_distance
            } else {
                final(self).min_distance
            },
            final(self).bounce_count == if old(self).bounce_count >= 1 {
                old(self).bounce_count
            } else {
                1
            },
            final(self).sample_count == if old(self).sample_count >= 1 {
                old(self).sample_count
            } else {
                1
            },
            camera_clamped(*final(self)),
    {
        self.yaw = wrap_angle(self.yaw);
        self.pitch = wrap_angle(self.pitch);
        self.w_yaw = wrap_angle(self.w_yaw);
        self.w_pitch = wrap_angle(self.w_pitch);
        self.fov = wrap_angle(self.fov);
        if self.min_distance < 0 {
            self.min_distance = 0;
        }
        if self.max_distance < self.min_distance {
            self.max_distance = self.min_distance;
        }
        if self.bounce_count < 1 {
            self.bounce_count = 1;
        }
        if self.sample_count < 1 {
            self.sample_count = 1;
        }
    }

    /// The composite rotor of the four stored angles, rebuilt from the
    /// angles alone on every call so that nothing can drift across
    /// frames.
    pub fn rotation(&self) -> (r: Rotor4)
        requires
            self.yaw > i64::MIN,
            self.pitch > i64::MIN,
            self.w_yaw > i64::MIN,
            self.w_pitch > i64::MIN,
        ensures
            r@ == camera_rotor_model(
                self.yaw as int,
                self.pitch as int,
                self.w_yaw as int,
                self.w_pitch as int,
            ),
            rotor_bounded(r@, 343 * SCALE as int),
    {
        let one: i64 = SCALE;
        let r1: Rotor4 = Rotor4::from_angle_plane(self.yaw, BiVector4::unit_plane(Axis::Z, Axis::X));
        let r2: Rotor4 = Rotor4::from_angle_plane(
            self.pitch,
            BiVector4::unit_plane(Axis::Z, Axis::Y),
        );
        let r3: Rotor4 = Rotor4::from_angle_plane(
            self.w_yaw,
            BiVector4::unit_plane(Axis::X, Axis::W),
        );
        let r4: Rotor4 = Rotor4::from_angle_plane(
            self.w_pitch,
            BiVector4::unit_plane(Axis::Z, Axis::W),
        );
        proof {
            lemma_chain_bounds(r1@, r2@, r3@, r4@);
        }
        let c2: Rotor4 = r1.rotate_by(r2);
        let c3: Rotor4 = c2.rotate_by(r3);
        c3.rotate_by(r4)
    }

    /// The camera-local basis: the composite rotor applied to the pure
    /// z, x and y unit directions gives forward, right and up, in that
    /// order.
    pub fn basis(&self) -> (r: (Vec4, Vec4, Vec4))
        requires
            self.yaw > i64::MIN,
            self.pitch > i64::MIN,
            self.w_yaw > i64::MIN,
            self.w_pitch > i64::MIN,
        ensures
            ({
                let m = camera_rotor_model(
                    self.yaw as int,
                    self.pitch as int,
                    self.w_yaw as int,
                    self.w_pitch as int,
                );
                r.0@ == sandwich_scaled(m, axis_model(Axis::Z)) && r.1@ == sandwich_scaled(
                    m,
                    axis_model(Axis::X),
                ) && r.2@ == sandwich_scaled(m, axis_model(Axis::Y))
            }),
    {
        let rot: Rotor4 = self.rotation();
        proof {
            assert(343 * SCALE as int <= COMP_LIMIT as int);
            assert(SCALE as int <= COMP_LIMIT as int);
        }
        let forward: Vec4 = rot.rotate_vec(Vec4::unit(Axis::Z));
        let right: Vec4 = rot.rotate_vec(Vec4::unit(Axis::X));
        let up: Vec4 = rot.rotate_vec(Vec4::unit(Axis::Y));
        (forward, right, up)
    }

    /// Translate the camera by `dir` scaled by `amount` (a speed times
    /// an elapsed time, in fixed point): each position component moves
    /// by the corresponding component of `dir` times `amount`.
    pub fn translate(&mut self, dir: Vec4, amount: i64)
        requires
            vec_bounded(dir@, 4 * SCALE as int),
            -STEP_LIMIT <= amount <= STEP_LIMIT,
            vec_bounded(old(self).position@, POS_LIMIT as int),
        ensures
            final(self).position.x == old(self).position.x + tdiv(
                dir.x as int * amount as int,
                SCALE as int,
            ),
            final(self).position.y == old(self).position.y + tdiv(
                dir.y as int * amount as int,
                SCALE as int,
            ),
            final(self).position.z == old(self).position.z + tdiv(
                dir.z as int * amount as int,
                SCALE as int,
            ),
            final(self).position.w == old(self).position.w + tdiv(
                dir.w as int * amount as int,
                SCALE as int,
            ),
            final(self).yaw == old(self).yaw,
            final(self).pitch == old(self).pitch,
            final(self).w_yaw == old(self).w_yaw,
            final(self).w_pitch == old(self).w_pitch,
            final(self).fov == old(self).fov,
            final(self).min_distance == old(self).min_distance,
            final(self).max_distance == old(self).max_distance,
            final(self).bounce_count == old(self).bounce_count,
            final(self).sample_count == old(self).sample_count,
    {
        proof {
            lemma_step(dir.x as int, amount as int);
            lemma_step(dir.y as int, amount as int);
            lemma_step(dir.z as int, amount as int);
            lemma_step(dir.w as int, amount as int);
        }
        self.position = Vec4 {
            x: self.position.x + tdiv64(dir.x * amount, SCALE),
            y: self.position.y + tdiv64(dir.y * amount, SCALE),
            z: self.position.z + tdiv64(dir.z * amount, SCALE),
            w: self.position.w + tdiv64(dir.w * amount, SCALE),
        };
    }
}

/// Bounds for one translation component.
proof fn lemma_step(d: int, k: int)
    requires
        -(4 * SCALE as int) <= d <= 4 * SCALE as int,
        -(STEP_LIMIT as int) <= k <= STEP_LIMIT as int,
    ensures
        -(4 * (STEP_LIMIT as int) * (SCALE as int)) <= d * k <= 4 * (STEP_LIMIT as int) * (
        SCALE as int),
        -(4 * STEP_LIMIT as int) <= tdiv(d * k, SCALE as int) <= 4 * STEP_LIMIT as int,
{
    crate::fixed::lemma_abs_mul_le(d, k, 4 * SCALE as int, STEP_LIMIT as int);
    assert((4 * SCALE as int) * (STEP_LIMIT as int) == 4 * (STEP_LIMIT as int) * (SCALE as int))
        by (nonlinear_arith);
    assert(4 * (STEP_LIMIT as int) * (SCALE as int) == (4 * STEP_LIMIT as int) * (SCALE as int))
        by (nonlinear_arith);
    crate::fixed::lemma_tdiv_abs_le(d * k, SCALE as int, 4 * STEP_LIMIT as int);
}

/// Bounds for the three compositions of the camera chain: each factor
/// of each composition stays within the operation limit.
proof fn lemma_chain_bounds(r1: RotorModel, r2: RotorModel, r3: RotorModel, r4: RotorModel)
    requires
        rotor_bounded(r1, SCALE as int),
        rotor_bounded(r2, SCALE as int),
        rotor_bounded(r3, SCALE as int),
        rotor_bounded(r4, SCALE as int),
    ensures
        rotor_bounded(gp_scaled(r2, r1), 7 * SCALE as int),
        rotor_bounded(gp_scaled(r3, gp_scaled(r2, r1)), 49 * SCALE as int),
        rotor_bounded(gp_scaled(r4, gp_scaled(r3, gp_scaled(r2, r1))), 343 * SCALE as int),
        rotor_bounded(r1, COMP_LIMIT as int),
        rotor_bounded(r2, COMP_LIMIT as int),
        rotor_bounded(r3, COMP_LIMIT as int),
        rotor_bounded(r4, COMP_LIMIT as int),
        rotor_bounded(gp_scaled(r2, r1), COMP_LIMIT as int),
        rotor_bounded(gp_scaled(r3, gp_scaled(r2, r1)), COMP_LIMIT as int),
{
    let one: int = SCALE as int;
    assert(7 * (one * one) == (7 * one) * one) by (nonlinear_arith);
    lemma_gp_scaled_bound(r2, r1, one, one, 7 * one);
    assert(7 * (one * (7 * one)) == (49 * one) * one) by (nonlinear_arith);
    lemma_gp_scaled_bound(r3, gp_scaled(r2, r1), one, 7 * one, 49 * one);
    assert(7 * (one * (49 * one)) == (343 * one) * one) by (nonlinear_arith);
    lemma_gp_scaled_bound(r4, gp_scaled(r3, gp_scaled(r2, r1)), one, 49 * one, 343 * one);
}

} // verus!
