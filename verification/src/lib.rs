//! A verified core for a four-dimensional ray-tracing viewer.
//!
//! The crate has two halves. The first is a 4D rotation algebra: oriented
//! planes (bivectors) and rotors over a fixed-point scalar type, with the
//! algebraic laws of the rotation algebra proved over an exact integer model.
//! The second is the scene side: an editable scene of hyperspheres,
//! hyperplanes and materials, a byte-exact serializer for the GPU kernel's
//! record layout, and the reconciliation policy that keeps GPU-resident
//! mirrors of the scene in sync with CPU edits.
//!
//! All scalar quantities in the algebra are fixed-point numbers: an `i64`
//! holding `value * SCALE`. Scene record fields that the GPU reads as 32-bit
//! floats are carried as their raw bit patterns (`u32`); this crate never
//! interprets them numerically, it only stores and serializes them.

pub mod fixed;

pub mod model;

pub mod bivector;

pub mod vector;

pub mod rotor;

pub mod laws;

pub mod camera;

pub mod scene;

pub mod layout;

pub mod sync;






