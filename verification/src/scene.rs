//! The editable scene: ordered sequences of hyperspheres, hyperplanes
//! and materials, with display names kept in step with the objects.
//!
//! Scalar fields that the GPU reads as 32-bit floats are carried as
//! their raw bit patterns; this module never interprets them, it only
//! stores them and keeps the structural invariants: every object list
//! and its name list have equal length, and every material index is in
//! range. Materials are only ever appended, so indices stay stable.

use vstd::prelude::*;

verus! {

/// One hypersphere record: a center (four float bit patterns), a radius
/// (float bit pattern) and a material index.
#[derive(Clone, Copy, PartialEq, Eq, Structural, Debug)]
pub struct HyperSphere {
    pub center_x: u32,
    pub center_y: u32,
    pub center_z: u32,
    pub center_w: u32,
    pub radius: u32,
    pub material: u32,
}

/// One hyperplane record: a point, a unit normal (float bit patterns)
/// and a material index.
#[derive(Clone, Copy, PartialEq, Eq, Structural, Debug)]
pub struct HyperPlane {
    pub point_x: u32,
    pub point_y: u32,
    pub point_z: u32,
    pub point_w: u32,
    pub normal_x: u32,
    pub normal_y: u32,
    pub normal_z: u32,
    pub normal_w: u32,
    pub material: u32,
}

/// One material record: a base color, an emissive color and an
/// emission strength, all float bit patterns.
#[derive(Clone, Copy, PartialEq, Eq, Structural, Debug)]
pub struct Material {
    pub base_r: u32,
    pub base_g: u32,
    pub base_b: u32,
    pub emissive_r: u32,
    pub emissive_g: u32,
    pub emissive_b: u32,
    pub emission_strength: u32,
}

/// The scene: three ordered sequences, two of them paired with name
/// sequences of equal length.
pub struct Scene {
    hyper_spheres: Vec<HyperSphere>,
    hyper_sphere_names: Vec<String>,
    hyper_planes: Vec<HyperPlane>,
    hyper_plane_names: Vec<String>,
    materials: Vec<Material>,
}

impl Scene {
    /// The structural invariant: names pair index-for-index with their
    /// objects, and every material index refers to an existing
    /// material.
    pub closed spec fn wf(&self) -> bool {
        &&& self.hyper_spheres@.len() == self.hyper_sphere_names@.len()
        &&& self.hyper_planes@.len() == self.hyper_plane_names@.len()
        &&& forall|i: int|
            0 <= i < self.hyper_spheres@.len() ==> (#[trigger] self.hyper_spheres@[i]).material
                < self.materials@.len()
        &&& forall|i: int|
            0 <= i < self.hyper_planes@.len() ==> (#[trigger] self.hyper_planes@[i]).material
                < self.materials@.len()
    }

    /// The sphere sequence.
    pub closed spec fn spheres_view(&self) -> Seq<HyperSphere> {
        self.hyper_spheres@
    }

    /// The sphere name sequence.
    pub closed spec fn sphere_names_view(&self) -> Seq<String> {
        self.hyper_sphere_names@
    }

    /// The plane sequence.
    pub closed spec fn planes_view(&self) -> Seq<HyperPlane> {
        self.hyper_planes@
    }

    /// The plane name sequence.
    pub closed spec fn plane_names_view(&self) -> Seq<String> {
        self.hyper_plane_names@
    }

    /// The material sequence.
    pub closed spec fn materials_view(&self) -> Seq<Material> {
        self.materials@
    }

    /// An empty scene.
    pub fn new() -> (r: Scene)
        ensures
            r.wf(),
            r.spheres_view().len() == 0,
            r.sphere_names_view().len() == 0,
            r.planes_view().len() == 0,
            r.plane_names_view().len() == 0,
            r.materials_view().len() == 0,
    {
        Scene {
            hyper_spheres: Vec::new(),
            hyper_sphere_names: Vec::new(),
            hyper_planes: Vec::new(),
            hyper_plane_names: Vec::new(),
            materials: Vec::new(),
        }
    }

    /// Read access to the spheres, for serialization and display.
    pub fn hyper_spheres(&self) -> (r: &Vec<HyperSphere>)
        ensures
            r@ == self.spheres_view(),
    {
        &self.hyper_spheres
    }

    /// Read access to the planes, for serialization and display.
    pub fn hyper_planes(&self) -> (r: &Vec<HyperPlane>)
        ensures
            r@ == self.planes_view(),
    {
        &self.hyper_planes
    }

    /// Read access to the materials, for serialization and display.
    pub fn materials(&self) -> (r: &Vec<Material>)
        ensures
            r@ == self.materials_view(),
    {
        &self.materials
    }

    /// Read access to the sphere names.
    pub fn hyper_sphere_names(&self) -> (r: &Vec<String>)
        ensures
            r@ == self.sphere_names_view(),
    {
        &self.hyper_sphere_names
    }

    /// Read access to the plane names.
    pub fn hyper_plane_names(&self) -> (r: &Vec<String>)
        ensures
            r@ == self.plane_names_view(),
    {
        &self.hyper_plane_names
    }

    /// Append a material. Materials are append-only: nothing ever
    /// removes one, so object records' indices stay valid forever.
    pub fn add_material(&mut self, m: Material)
        requires
            old(self).wf(),
            old(self).materials_view().len() < usize::MAX,
        ensures
            final(self).wf(),
            final(self).materials_view() == old(self).materials_view().push(m),
            final(self).spheres_view() == old(self).spheres_view(),
            final(self).sphere_names_view() == old(self).sphere_names_view(),
            final(self).planes_view() == old(self).planes_view(),
            final(self).plane_names_view() == old(self).plane_names_view(),
    {
        self.materials.push(m);
    }

    /// Append a hypersphere under the given name, referencing an
    /// existing material. The record and its name are added together,
    /// keeping the two sequences in step.
    pub fn add_hyper_sphere(&mut self, s: HyperSphere, name: String)
        requires
            old(self).wf(),
            s.material < old(self).materials_view().len(),
            old(self).spheres_view().len() < usize::MAX,
        ensures
            final(self).wf(),
            final(self).spheres_view() == old(self).spheres_view().push(s),
            final(self).sphere_names_view() == old(self).sphere_names_view().push(name),
            final(self).planes_view() == old(self).planes_view(),
            final(self).plane_names_view() == old(self).plane_names_view(),
            final(self).materials_view() == old(self).materials_view(),
    {
        self.hyper_spheres.push(s);
        self.hyper_sphere_names.push(name);
    }

    /// Append a hypersphere together with a fresh material of its own,
    /// as the editor's add button does: the sphere's material index is
    /// set to the newly appended material, whatever index the caller
    /// put in the record.
    pub fn add_hyper_sphere_with_new_material(&mut self, s: HyperSphere, m: Material, name: String)
        requires
            old(self).wf(),
            old(self).spheres_view().len() < usize::MAX,
            old(self).materials_view().len() < u32::MAX,
        ensures
            final(self).wf(),
            final(self).materials_view() == old(self).materials_view().push(m),
            final(self).spheres_view() == old(self).spheres_view().push(
                HyperSphere { material: old(self).materials_view().len() as u32, ..s },
            ),
            final(self).sphere_names_view() == old(self).sphere_names_view().push(name),
            final(self).planes_view() == old(self).planes_view(),
            final(self).plane_names_view() == old(self).plane_names_view(),
    {
        let idx: u32 = self.materials.len() as u32;
        self.materials.push(m);
        self.hyper_spheres.push(HyperSphere { material: idx, ..s });
        self.hyper_sphere_names.push(name);
    }

    /// Remove the hypersphere at `i` and its name, atomically.
    pub fn remove_hyper_sphere(&mut self, i: usize)
        requires
            old(self).wf(),
            i < old(self).spheres_view().len(),
        ensures
            final(self).wf(),
            final(self).spheres_view() == old(self).spheres_view().remove(i as int),
            final(self).sphere_names_view() == old(self).sphere_names_view().remove(i as int),
            final(self).planes_view() == old(self).planes_view(),
            final(self).plane_names_view() == old(self).plane_names_view(),
            final(self).materials_view() == old(self).materials_view(),
    {
        self.hyper_spheres.remove(i);
        self.hyper_sphere_names.remove(i);
    }

    /// Replace the hypersphere at `i`, keeping its name.
    pub fn set_hyper_sphere(&mut self, i: usize, s: HyperSphere)
        requires
            old(self).wf(),
            i < old(self).spheres_view().len(),
            s.material < old(self).materials_view().len(),
        ensures
            final(self).wf(),
            final(self).spheres_view() == old(self).spheres_view().update(i as int, s),
            final(self).sphere_names_view() == old(self).sphere_names_view(),
            final(self).planes_view() == old(self).planes_view(),
            final(self).plane_names_view() == old(self).plane_names_view(),
            final(self).materials_view() == old(self).materials_view(),
    {
        self.hyper_spheres.set(i, s);
    }

    /// Rename the hypersphere at `i`.
    pub fn rename_hyper_sphere(&mut self, i: usize, name: String)
        requires
            old(self).wf(),
            i < old(self).sphere_names_view().len(),
        ensures
            final(self).wf(),
            final(self).sphere_names_view() == old(self).sphere_names_view().update(
                i as int,
                name,
            ),
            final(self).spheres_view() == old(self).spheres_view(),
            final(self).planes_view() == old(self).planes_view(),
            final(self).plane_names_view() == old(self).plane_names_view(),
            final(self).materials_view() == old(self).materials_view(),
    {
        self.hyper_sphere_names.set(i, name);
    }

    /// Append a hyperplane under the given name, referencing an
    /// existing material.
    pub fn add_hyper_plane(&mut self, p: HyperPlane, name: String)
        requires
            old(self).wf(),
            p.material < old(self).materials_view().len(),
            old(self).planes_view().len() < usize::MAX,
        ensures
            final(self).wf(),
            final(self).planes_view() == old(self).planes_view().push(p),
            final(self).plane_names_view() == old(self).plane_names_view().push(name),
            final(self).spheres_view() == old(self).spheres_view(),
            final(self).sphere_names_view() == old(self).sphere_names_view(),
            final(self).materials_view() == old(self).materials_view(),
    {
        self.hyper_planes.push(p);
        self.hyper_plane_names.push(name);
    }

    /// Append a hyperplane together with a fresh material of its own,
    /// as the editor's add button does.
    pub fn add_hyper_plane_with_new_material(&mut self, p: HyperPlane, m: Material, name: String)
        requires
            old(self).wf(),
            old(self).planes_view().len() < usize::MAX,
            old(self).materials_view().len() < u32::MAX,
        ensures
            final(self).wf(),
            final(self).materials_view() == old(self).materials_view().push(m),
            final(self).planes_view() == old(self).planes_view().push(
                HyperPlane { material: old(self).materials_view().len() as u32, ..p },
            ),
            final(self).plane_names_view() == old(self).plane_names_view().push(name),
            final(self).spheres_view() == old(self).spheres_view(),
            final(self).sphere_names_view() == old(self).sphere_names_view(),
    {
        let idx: u32 = self.materials.len() as u32;
        self.materials.push(m);
        self.hyper_planes.push(HyperPlane { material: idx, ..p });
        self.hyper_plane_names.push(name);
    }

    /// Remove the hyperplane at `i` and its name, atomically.
    pub fn remove_hyper_plane(&mut self, i: usize)
        requires
            old(self).wf(),
            i < old(self).planes_view().len(),
        ensures
            final(self).wf(),
            final(self).planes_view() == old(self).planes_view().remove(i as int),
            final(self).plane_names_view() == old(self).plane_names_view().remove(i as int),
            final(self).spheres_view() == old(self).spheres_view(),
            final(self).sphere_names_view() == old(self).sphere_names_view(),
            final(self).materials_view() == old(self).materials_view(),
    {
        self.hyper_planes.remove(i);
        self.hyper_plane_names.remove(i);
    }

    /// Replace the hyperplane at `i`, keeping its name.
    pub fn set_hyper_plane(&mut self, i: usize, p: HyperPlane)
        requires
            old(self).wf(),
            i < old(self).planes_view().len(),
            p.material < old(self).materials_view().len(),
        ensures
            final(self).wf(),
            final(self).planes_view() == old(self).planes_view().update(i as int, p),
            final(self).plane_names_view() == old(self).plane_names_view(),
            final(self).spheres_view() == old(self).spheres_view(),
            final(self).sphere_names_view() == old(self).sphere_names_view(),
            final(self).materials_view() == old(self).materials_view(),
    {
        self.hyper_planes.set(i, p);
    }

    /// Rename the hyperplane at `i`.
    pub fn rename_hyper_plane(&mut self, i: usize, name: String)
        requires
            old(self).wf(),
            i < old(self).plane_names_view().len(),
        ensures
            final(self).wf(),
            final(self).plane_names_view() == old(self).plane_names_view().update(
                i as int,
                name,
            ),
            final(self).planes_view() == old(self).planes_view(),
            final(self).spheres_view() == old(self).spheres_view(),
            final(self).sphere_names_view() == old(self).sphere_names_view(),
            final(self).materials_view() == old(self).materials_view(),
    {
        self.hyper_plane_names.set(i, name);
    }

    /// Replace the material at `i`. Indices held by object records stay
    /// valid: the sequence keeps its length.
    pub fn set_material(&mut self, i: usize, m: Material)
        requires
            old(self).wf(),
            i < old(self).materials_view().len(),
        ensures
            final(self).wf(),
            final(self).materials_view() == old(self).materials_view().update(i as int, m),
            final(self).spheres_view() == old(self).spheres_view(),
            final(self).sphere_names_view() == old(self).sphere_names_view(),
            final(self).planes_view() == old(self).planes_view(),
            final(self).plane_names_view() == old(self).plane_names_view(),
    {
        self.materials.set(i, m);
    }
}

} // verus!
