//! Numeric checks of the rotation algebra through the public API.

use hyperview::bivector::BiVector4;
use hyperview::camera::Camera;
use hyperview::fixed::{sin_cos, HALF_PI_FX, PI_FX, SCALE, TAU_FX};
use hyperview::rotor::Rotor4;
use hyperview::vector::{Axis, Vec4};

const ONE: i64 = SCALE;
const ONE_SQ: i64 = SCALE * SCALE;

fn axes() -> [Axis; 4] {
    [Axis::X, Axis::Y, Axis::Z, Axis::W]
}

fn plane_eq(a: BiVector4, b: BiVector4) -> bool {
    a.xy == b.xy && a.xz == b.xz && a.xw == b.xw && a.yz == b.yz && a.yw == b.yw && a.zw == b.zw
}

#[test]
fn twelve_unit_planes_distinct_and_antisymmetric() {
    let mut planes: Vec<BiVector4> = Vec::new();
    for &a in axes().iter() {
        for &b in axes().iter() {
            if a != b {
                planes.push(BiVector4::unit_plane(a, b));
            }
        }
    }
    assert_eq!(planes.len(), 12);
    for i in 0..planes.len() {
        for j in 0..planes.len() {
            if i != j {
                assert!(!plane_eq(planes[i], planes[j]));
            }
        }
    }
    for &a in axes().iter() {
        for &b in axes().iter() {
            if a != b {
                let p = BiVector4::unit_plane(a, b);
                let q = BiVector4::unit_plane(b, a);
                assert!(plane_eq(p, q.neg()));
                assert_eq!(p.sqr_length(), ONE_SQ);
            }
        }
    }
}

#[test]
fn normalizing_a_nonzero_plane_gives_unit_norm() {
    // An arbitrary plane of magnitude well above one.
    let p = BiVector4 {
        xy: 3 * ONE,
        xz: -2 * ONE,
        xw: ONE / 2,
        yz: 5 * ONE,
        yw: -7 * ONE,
        zw: ONE,
    };
    let n = p.normalized();
    let sq = n.sqr_length();
    assert!((sq - ONE_SQ).abs() <= 19 * ONE, "norm off: {sq}");
}

#[test]
fn rotor_from_angle_plane_is_unit() {
    let angles = [0i64, 1000, HALF_PI_FX, PI_FX, PI_FX + 12345, TAU_FX - 1, -HALF_PI_FX, 7 * ONE];
    for &a in angles.iter() {
        for &(x, y) in &[(Axis::Z, Axis::X), (Axis::Z, Axis::Y), (Axis::X, Axis::W)] {
            let r = Rotor4::from_angle_plane(a, BiVector4::unit_plane(x, y));
            let sq = r.sqr_length();
            assert!((sq - ONE_SQ).abs() <= 19 * ONE, "angle {a}: {sq}");
        }
    }
}

#[test]
fn rotate_vec_preserves_length_within_tolerance() {
    let r = Rotor4::from_angle_plane(HALF_PI_FX / 3, BiVector4::unit_plane(Axis::Z, Axis::X));
    let vs = [
        Vec4::new(ONE, 0, 0, 0),
        Vec4::new(0, ONE, -ONE, 0),
        Vec4::new(ONE / 2, ONE / 3, -ONE, 2 * ONE),
    ];
    for v in vs {
        let w = r.rotate_vec(v);
        let before = v.x * v.x + v.y * v.y + v.z * v.z + v.w * v.w;
        let after = w.x * w.x + w.y * w.y + w.z * w.z + w.w * w.w;
        // Relative tolerance of roughly one part in a thousand.
        let tol = before / 500 + 8 * ONE;
        assert!((after - before).abs() <= tol, "before {before}, after {after}");
    }
}

#[test]
fn composing_with_identity_changes_nothing() {
    let r = Rotor4::from_angle_plane(12345, BiVector4::unit_plane(Axis::Z, Axis::Y));
    let c = r.rotate_by(Rotor4::identity());
    assert_eq!(c.s, r.s);
    assert!(plane_eq(c.bv, r.bv));
}

#[test]
fn composing_with_conjugate_gives_identity() {
    let r = Rotor4::from_angle_plane(54321, BiVector4::unit_plane(Axis::X, Axis::W));
    let c = r.rotate_by(r.conjugate());
    assert!((c.s - ONE).abs() <= 8, "scalar {}", c.s);
    for comp in [c.bv.xy, c.bv.xz, c.bv.xw, c.bv.yz, c.bv.yw, c.bv.zw] {
        assert!(comp.abs() <= 8, "plane component {comp}");
    }
}

#[test]
fn rotation_between_maps_first_vector_onto_second() {
    let a = Vec4::unit(Axis::X);
    let b = Vec4::unit(Axis::Y);
    let r = Rotor4::from_rotation_between(a, b);
    let w = r.rotate_vec(a);
    assert!((w.x).abs() <= ONE / 100);
    assert!((w.y - ONE).abs() <= ONE / 100, "y {}", w.y);
    assert!((w.z).abs() <= ONE / 100);
    assert!((w.w).abs() <= ONE / 100);
}

#[test]
fn quarter_turn_yaw_points_forward_along_x() {
    // Documented convention check: a positive quarter-turn yaw carries
    // the forward direction (pure z) onto positive x.
    let mut cam = Camera::new(Vec4::zero());
    cam.yaw = HALF_PI_FX; // ninety degrees
    let (forward, _, _) = cam.basis();
    assert!((forward.x - ONE).abs() <= ONE / 50, "x {}", forward.x);
    assert!(forward.z.abs() <= ONE / 50, "z {}", forward.z);
    assert!(forward.y.abs() <= ONE / 50);
    assert!(forward.w.abs() <= ONE / 50);
}

#[test]
fn camera_basis_stays_orthonormal() {
    let combos = [
        (0i64, 0i64, 0i64, 0i64),
        (HALF_PI_FX, 0, 0, 0),
        (12345, 54321, 0, 0),
        (HALF_PI_FX / 8, HALF_PI_FX / 8, HALF_PI_FX / 8, HALF_PI_FX / 8),
    ];
    for &(yaw, pitch, w_yaw, w_pitch) in combos.iter() {
        let mut cam = Camera::new(Vec4::zero());
        cam.yaw = yaw;
        cam.pitch = pitch;
        cam.w_yaw = w_yaw;
        cam.w_pitch = w_pitch;
        let (f, r, u) = cam.basis();
        let dot = |a: Vec4, b: Vec4| a.x * b.x + a.y * b.y + a.z * b.z + a.w * b.w;
        // The scalar-plus-plane rotor drops the four-fold grade of the
        // composite product, so mixed rotations deviate by up to a few
        // percent; the basis stays orthonormal to within that.
        let tol = ONE_SQ / 24;
        assert!(dot(f, r).abs() <= tol, "f.r {}", dot(f, r));
        assert!(dot(f, u).abs() <= tol, "f.u {}", dot(f, u));
        assert!(dot(r, u).abs() <= tol, "r.u {}", dot(r, u));
        assert!((dot(f, f) - ONE_SQ).abs() <= tol, "|f| {}", dot(f, f));
        assert!((dot(r, r) - ONE_SQ).abs() <= tol, "|r| {}", dot(r, r));
        assert!((dot(u, u) - ONE_SQ).abs() <= tol, "|u| {}", dot(u, u));
    }
}

#[test]
fn camera_clamp_enforces_editor_invariants() {
    let mut cam = Camera::new(Vec4::zero());
    cam.min_distance = -5;
    cam.max_distance = -10;
    cam.bounce_count = 0;
    cam.sample_count = 0;
    cam.yaw = -1;
    cam.clamp();
    assert_eq!(cam.min_distance, 0);
    assert_eq!(cam.max_distance, 0);
    assert_eq!(cam.bounce_count, 1);
    assert_eq!(cam.sample_count, 1);
    assert_eq!(cam.yaw, TAU_FX - 1);
}

#[test]
fn camera_translate_moves_along_direction() {
    let mut cam = Camera::new(Vec4::zero());
    let dir = Vec4::new(ONE, 0, -ONE, 0);
    cam.translate(dir, ONE / 2);
    assert_eq!(cam.position.x, ONE / 2);
    assert_eq!(cam.position.y, 0);
    assert_eq!(cam.position.z, -(ONE / 2));
    assert_eq!(cam.position.w, 0);
}

#[test]
fn sine_and_cosine_hit_the_cardinal_points() {
    let (s0, c0) = sin_cos(0);
    assert_eq!(s0, 0);
    assert_eq!(c0, ONE);
    let (s1, c1) = sin_cos(HALF_PI_FX);
    assert!((s1 - ONE).abs() <= ONE / 1000, "sin quarter {s1}");
    assert!(c1.abs() <= ONE / 1000, "cos quarter {c1}");
    let (s2, c2) = sin_cos(PI_FX);
    assert!(s2.abs() <= ONE / 1000);
    assert!((c2 + ONE).abs() <= ONE / 1000);
    let (s3, c3) = sin_cos(-HALF_PI_FX);
    assert!((s3 + ONE).abs() <= ONE / 1000);
    assert!(c3.abs() <= ONE / 1000);
}

#[test]
fn float_angles_round_trip_through_fixed_point() {
    // The application layer converts radians to fixed point with this
    // scaling; a quarter turn lands on the fixed-point quarter turn.
    let theta = std::f32::consts::FRAC_PI_2;
    let fx = (theta * SCALE as f32).round() as i64;
    assert_eq!(fx, HALF_PI_FX);
}
