//! Cross-section edge segments.
//!
//! For every solid voxel the mesh builder emits one diagonal edge segment,
//! stored as two `Line` points (the voxel's minimum and maximum corners). A
//! geometry-expansion render stage downstream turns each pair into the visible
//! cross-section slice polygon; that clipping happens outside this crate.

use vstd::prelude::*;

verus! {

/// A vector of three integer coordinates in half-units: a component value of
/// `2` stands for one world unit, so halves are exact.
#[derive(Clone, Copy, PartialEq, Eq, Structural, Debug)]
pub struct Vec3i {
    pub x: i32,
    pub y: i32,
    pub z: i32,
}

/// One endpoint of a cross-section edge segment: a position and the matching
/// texture coordinate, both in half-units.
#[derive(Clone, Copy, PartialEq, Eq, Structural, Debug)]
pub struct Line {
    pub position: Vec3i,
    pub tex_coord: Vec3i,
}

} // verus!
