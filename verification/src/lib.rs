//! Core of a small interactive voxel demo: a cubic voxel grid built from a
//! procedural height field, a face-culling mesh builder, a movable cutting
//! plane held as an affine pose matrix, and player physics (gravity, walking,
//! jumping) driven by a voxel ray-march along the plane.
//!
//! All continuous quantities are held in fixed-point form: an `i64` carries
//! four decimal places, so `10000` is one world unit. Mesh geometry, whose
//! coordinates are always multiples of one half, is held in half-units.
//! Rendering, windowing and input polling live outside this crate; they feed
//! plain values in and read plain values out.

pub mod fixed;
pub mod input;
pub mod mat;
pub mod plane;
pub mod player;
pub mod terrain;
pub mod utils;
pub mod xsection;
