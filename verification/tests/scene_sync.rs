//! Checks of the scene model, the kernel byte layout, and the mirror
//! reconciliation policy.

use hyperview::layout::{
    camera_payload, material_payload, plane_payload, sphere_payload, KernelCamera,
};
use hyperview::scene::{HyperPlane, HyperSphere, Material, Scene};
use hyperview::sync::Mirror;

fn bits(x: f32) -> u32 {
    x.to_bits()
}

fn grey_material() -> Material {
    Material {
        base_r: bits(0.9),
        base_g: bits(0.9),
        base_b: bits(0.9),
        emissive_r: bits(0.0),
        emissive_g: bits(0.0),
        emissive_b: bits(0.0),
        emission_strength: bits(0.0),
    }
}

fn default_sphere() -> HyperSphere {
    HyperSphere {
        center_x: bits(0.0),
        center_y: bits(0.0),
        center_z: bits(0.0),
        center_w: bits(0.0),
        radius: bits(1.0),
        material: 0,
    }
}

/// The observed startup scene: one hypersphere above the ground plane,
/// each with its own material.
fn initial_scene() -> Scene {
    let mut scene = Scene::new();
    scene.add_material(Material {
        base_r: bits(0.8),
        base_g: bits(0.4),
        base_b: bits(0.1),
        emissive_r: bits(0.0),
        emissive_g: bits(0.0),
        emissive_b: bits(0.0),
        emission_strength: bits(0.0),
    });
    scene.add_material(Material {
        base_r: bits(0.1),
        base_g: bits(0.8),
        base_b: bits(0.3),
        emissive_r: bits(0.0),
        emissive_g: bits(0.0),
        emissive_b: bits(0.0),
        emission_strength: bits(0.0),
    });
    scene.add_hyper_sphere(
        HyperSphere {
            center_x: bits(0.0),
            center_y: bits(1.0),
            center_z: bits(0.0),
            center_w: bits(0.0),
            radius: bits(1.0),
            material: 0,
        },
        String::from("Hyper Sphere"),
    );
    scene.add_hyper_plane(
        HyperPlane {
            point_x: bits(0.0),
            point_y: bits(0.0),
            point_z: bits(0.0),
            point_w: bits(0.0),
            normal_x: bits(0.0),
            normal_y: bits(1.0),
            normal_z: bits(0.0),
            normal_w: bits(0.0),
            material: 1,
        },
        String::from("Ground"),
    );
    scene
}

#[test]
fn sphere_buffer_layout_is_byte_exact() {
    let scene = initial_scene();
    let bytes = sphere_payload(scene.hyper_spheres());
    assert_eq!(bytes.len(), 16 + 32);
    // Count header, little endian, then zero padding to sixteen bytes.
    assert_eq!(&bytes[0..4], &1u32.to_le_bytes());
    assert_eq!(&bytes[4..16], &[0u8; 12]);
    // Record: center, radius, material, eight bytes of padding.
    assert_eq!(&bytes[16..20], &0.0f32.to_le_bytes());
    assert_eq!(&bytes[20..24], &1.0f32.to_le_bytes());
    assert_eq!(&bytes[32..36], &1.0f32.to_le_bytes());
    assert_eq!(&bytes[36..40], &0u32.to_le_bytes());
    assert_eq!(&bytes[40..48], &[0u8; 8]);
}

#[test]
fn plane_buffer_layout_is_byte_exact() {
    let scene = initial_scene();
    let bytes = plane_payload(scene.hyper_planes());
    assert_eq!(bytes.len(), 16 + 48);
    assert_eq!(&bytes[0..4], &1u32.to_le_bytes());
    // Point at 16, normal at 32, material at 48, padding to 64.
    assert_eq!(&bytes[16..20], &0.0f32.to_le_bytes());
    assert_eq!(&bytes[36..40], &1.0f32.to_le_bytes());
    assert_eq!(&bytes[48..52], &1u32.to_le_bytes());
    assert_eq!(&bytes[52..64], &[0u8; 12]);
}

#[test]
fn material_buffer_layout_is_byte_exact() {
    let scene = initial_scene();
    let bytes = material_payload(scene.materials());
    assert_eq!(bytes.len(), 16 + 2 * 32);
    assert_eq!(&bytes[0..4], &2u32.to_le_bytes());
    // First record: base color, four bytes padding, emissive, strength.
    assert_eq!(&bytes[16..20], &0.8f32.to_le_bytes());
    assert_eq!(&bytes[24..28], &0.1f32.to_le_bytes());
    assert_eq!(&bytes[28..32], &[0u8; 4]);
    assert_eq!(&bytes[32..36], &0.0f32.to_le_bytes());
    assert_eq!(&bytes[44..48], &0.0f32.to_le_bytes());
    // Second record starts at 48.
    assert_eq!(&bytes[48..52], &0.1f32.to_le_bytes());
}

#[test]
fn empty_buffers_keep_room_for_one_record() {
    let scene = Scene::new();
    assert_eq!(sphere_payload(scene.hyper_spheres()).len(), 48);
    assert_eq!(plane_payload(scene.hyper_planes()).len(), 64);
    assert_eq!(material_payload(scene.materials()).len(), 48);
    let bytes = sphere_payload(scene.hyper_spheres());
    assert!(bytes.iter().all(|&b| b == 0));
}

#[test]
fn camera_record_is_ninety_six_bytes() {
    let cam = KernelCamera {
        pos_x: bits(0.0),
        pos_y: bits(1.0),
        pos_z: bits(-3.0),
        pos_w: bits(0.0),
        fwd_x: bits(0.0),
        fwd_y: bits(0.0),
        fwd_z: bits(1.0),
        fwd_w: bits(0.0),
        right_x: bits(1.0),
        right_y: bits(0.0),
        right_z: bits(0.0),
        right_w: bits(0.0),
        up_x: bits(0.0),
        up_y: bits(1.0),
        up_z: bits(0.0),
        up_w: bits(0.0),
        fov: bits(std::f32::consts::FRAC_PI_2),
        min_distance: bits(0.01),
        max_distance: bits(1000.0),
        bounce_count: 5,
        sample_count: 1,
    };
    let bytes = camera_payload(&cam);
    assert_eq!(bytes.len(), 96);
    assert_eq!(&bytes[4..8], &1.0f32.to_le_bytes());
    assert_eq!(&bytes[8..12], &(-3.0f32).to_le_bytes());
    assert_eq!(&bytes[76..80], &5u32.to_le_bytes());
    assert_eq!(&bytes[80..84], &1u32.to_le_bytes());
    assert_eq!(&bytes[84..96], &[0u8; 12]);
}

#[test]
fn mirror_reconciliation_grows_exactly_when_needed() {
    // Start from the minimal allocation a sphere buffer gets.
    let mut mirror = Mirror::new(48);
    let mut scene = Scene::new();
    scene.add_material(grey_material());

    // One element: fits exactly, nothing invalidated.
    scene.add_hyper_sphere(default_sphere(), String::from("First"));
    let payload = sphere_payload(scene.hyper_spheres());
    let grew = mirror.reconcile(payload.len());
    assert!(!grew);
    assert!(!mirror.binding_stale);
    assert_eq!(mirror.capacity, 48);

    // Ten more: the payload outgrows the allocation, exactly once.
    for i in 0..10 {
        scene.add_hyper_sphere(default_sphere(), format!("Sphere {i}"));
    }
    let payload = sphere_payload(scene.hyper_spheres());
    assert_eq!(payload.len(), 16 + 11 * 32);
    let grew = mirror.reconcile(payload.len());
    assert!(grew);
    assert!(mirror.binding_stale);
    assert_eq!(mirror.capacity, payload.len());
    mirror.rebuild();
    assert!(!mirror.binding_stale);

    // Re-running reconciliation with no edits: byte-identical payload,
    // no growth, binding set stays valid across any such run.
    let again = sphere_payload(scene.hyper_spheres());
    assert_eq!(again, payload);
    for _ in 0..5 {
        let grew = mirror.reconcile(again.len());
        assert!(!grew);
        assert!(!mirror.binding_stale);
        assert_eq!(mirror.capacity, payload.len());
    }

    // Deleting does not shrink the capacity.
    scene.remove_hyper_sphere(0);
    let smaller = sphere_payload(scene.hyper_spheres());
    assert!(smaller.len() < payload.len());
    let grew = mirror.reconcile(smaller.len());
    assert!(!grew);
    assert_eq!(mirror.capacity, payload.len());
}

#[test]
fn adding_spheres_auto_creates_materials() {
    // End-to-end: the startup scene, then ten spheres added through the
    // editor boundary, each allocating a fresh material of its own.
    let mut scene = initial_scene();
    for i in 0..10 {
        scene.add_hyper_sphere_with_new_material(
            default_sphere(),
            grey_material(),
            format!("Default Hyper Sphere {i}"),
        );
    }
    let spheres = sphere_payload(scene.hyper_spheres());
    assert_eq!(&spheres[0..4], &11u32.to_le_bytes());
    assert_eq!(spheres.len(), 16 + 11 * 32);
    let materials = material_payload(scene.materials());
    assert_eq!(&materials[0..4], &12u32.to_le_bytes());
    assert!(scene.materials().len() >= 12);
    // The last added sphere references the last added material.
    let last = scene.hyper_spheres()[10];
    assert_eq!(last.material, 11);
    assert_eq!(scene.hyper_sphere_names().len(), scene.hyper_spheres().len());
}

#[test]
fn deleting_keeps_objects_and_names_paired() {
    let mut scene = initial_scene();
    scene.add_hyper_sphere_with_new_material(
        default_sphere(),
        grey_material(),
        String::from("Second"),
    );
    assert_eq!(scene.hyper_spheres().len(), 2);
    scene.remove_hyper_sphere(0);
    assert_eq!(scene.hyper_spheres().len(), 1);
    assert_eq!(scene.hyper_sphere_names().len(), 1);
    assert_eq!(scene.hyper_sphere_names()[0], "Second");
    // Materials were not removed.
    assert_eq!(scene.materials().len(), 3);
    scene.rename_hyper_sphere(0, String::from("Renamed"));
    assert_eq!(scene.hyper_sphere_names()[0], "Renamed");
}
