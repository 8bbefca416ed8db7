//! The voxel grid and its mesh builder.
//!
//! `Terrain` owns a cubic grid of occupancy bytes (`0` = empty, nonzero =
//! solid material id) together with the face geometry and cross-section edge
//! segments last derived from it. Coordinates must satisfy `0 <= c < size` on
//! all three axes for direct access; out-of-range queries return an absent
//! value instead of failing.

use vstd::arithmetic::div_mod::lemma_fundamental_div_mod_converse;
use vstd::prelude::*;

use crate::fixed::fx_mul;
use crate::fixed::fxm;
use crate::fixed::iabs;
use crate::fixed::FX_ONE;
use crate::xsection::Line;
use crate::xsection::Vec3i;

verus! {

/// Largest grid edge length accepted: keeps every flat index and all mesh
/// coordinates comfortably inside the machine integer types.
pub const MAX_SIZE: usize = 1024;

/// A mesh vertex: position, axis-aligned unit normal and texture coordinate,
/// all in half-units (a component value of `2` is one world unit).
#[derive(Clone, Copy, PartialEq, Eq, Structural, Debug)]
pub struct Vertex {
    pub position: Vec3i,
    pub normal: Vec3i,
    pub tex_coord: Vec3i,
}

/// The voxel terrain block.
pub struct Terrain {
    pub tiles: Vec<u8>,
    pub vertices: Vec<Vertex>,
    pub lines: Vec<Line>,
    pub size: usize,
}

/// Flat index of cell `(x, y, z)` in a grid of edge length `size`.
pub open spec fn grid_index(size: int, x: int, y: int, z: int) -> int {
    z * size * size + y * size + x
}

/// Whether `(x, y, z)` lies inside a grid of edge length `size`.
pub open spec fn in_range(size: int, x: int, y: int, z: int) -> bool {
    0 <= x < size && 0 <= y < size && 0 <= z < size
}

/// Occupancy of cell `(x, y, z)`: the stored byte inside the grid, empty
/// outside it.
pub open spec fn cell_of(tiles: Seq<u8>, size: int, x: int, y: int, z: int) -> u8 {
    if in_range(size, x, y, z) {
        tiles[grid_index(size, x, y, z)]
    } else {
        0
    }
}

/// The procedural height-field rule: with `xx` and `zz` the fixed-point sine
/// profile values of the `x` and `z` coordinates, a cell is solid exactly when
/// `-(xx^2)*2.5 - (zz^2)*4.5 + size/2 > y` (all in fixed-point world units;
/// `size * 5000` is half the grid size and `y * 10000` is `y`).
pub open spec fn solid_rule(xx: int, zz: int, size: int, y: int) -> bool {
    -fxm(fxm(xx, xx), 25000) - fxm(fxm(zz, zz), 45000) + size * 5000 > y * 10000
}

/// A flat index of an in-range cell lies inside the tile vector.
pub proof fn lemma_grid_index_bounds(size: int, x: int, y: int, z: int)
    requires
        in_range(size, x, y, z),
    ensures
        0 <= grid_index(size, x, y, z) < size * size * size,
{
    assert(0 <= z * size * size + y * size + x < size * size * size) by (nonlinear_arith)
        requires
            0 <= x < size,
            0 <= y < size,
            0 <= z < size,
    ;
}

/// Distinct in-range cells have distinct flat indices.
pub proof fn lemma_grid_index_injective(
    size: int,
    x1: int,
    y1: int,
    z1: int,
    x2: int,
    y2: int,
    z2: int,
)
    requires
        in_range(size, x1, y1, z1),
        in_range(size, x2, y2, z2),
        grid_index(size, x1, y1, z1) == grid_index(size, x2, y2, z2),
    ensures
        x1 == x2 && y1 == y2 && z1 == z2,
{
    let n = grid_index(size, x1, y1, z1);
    assert(n == (z1 * size + y1) * size + x1) by (nonlinear_arith)
        requires
            n == z1 * size * size + y1 * size + x1,
    ;
    assert(n == (z2 * size + y2) * size + x2) by (nonlinear_arith)
        requires
            n == z2 * size * size + y2 * size + x2,
    ;
    lemma_fundamental_div_mod_converse(n, size, z1 * size + y1, x1);
    lemma_fundamental_div_mod_converse(n, size, z2 * size + y2, x2);
    let m = z1 * size + y1;
    lemma_fundamental_div_mod_converse(m, size, z1, y1);
    lemma_fundamental_div_mod_converse(m, size, z2, y2);
}

impl Terrain {
    /// Structural well-formedness: a bounded edge length and a fully allocated
    /// tile vector.
    pub open spec fn wf(self) -> bool {
        &&& self.size <= MAX_SIZE
        &&& self.tiles@.len() == (self.size as int) * (self.size as int) * (self.size as int)
    }

    /// The tile bytes in storage order.
    pub open spec fn tiles_view(self) -> Seq<u8> {
        self.tiles@
    }

    /// The grid edge length.
    pub open spec fn spec_size(self) -> int {
        self.size as int
    }

    /// Occupancy of cell `(x, y, z)`, empty outside the grid.
    pub open spec fn cell(self, x: int, y: int, z: int) -> u8 {
        cell_of(self.tiles@, self.size as int, x, y, z)
    }

    /// The face geometry last built by `rebuild`.
    pub open spec fn vertices_view(self) -> Seq<Vertex> {
        self.vertices@
    }

    /// The cross-section edge segments last built by `rebuild`.
    pub open spec fn lines_view(self) -> Seq<Line> {
        self.lines@
    }

    /// Builds a terrain block of the given edge length, procedurally filled
    /// from a height field. `profile[c]` must hold the fixed-point value of
    /// the ridge profile (the sine of `c/4 - 2`) for axis coordinate `c`; the
    /// caller evaluates it once per axis value. A cell is solid exactly when
    /// the height-field rule says so.
    pub fn new(size: usize, profile: &Vec<i64>) -> (t: Terrain)
        requires
            size <= MAX_SIZE,
            profile@.len() == size,
            forall|i: int|
                0 <= i < size ==> -(FX_ONE as int) <= #[trigger] profile@[i] <= (FX_ONE as int),
        ensures
            t.wf(),
            t.spec_size() == size,
            t.vertices_view() == Seq::<Vertex>::empty(),
            t.lines_view() == Seq::<Line>::empty(),
            forall|x: int, y: int, z: int|
                in_range(size as int, x, y, z) ==> #[trigger] t.cell(x, y, z) == (if solid_rule(
                    profile@[x] as int,
                    profile@[z] as int,
                    size as int,
                    y,
                ) {
                    1u8
                } else {
                    0u8
                }),
    {
        let mut tiles: Vec<u8> = Vec::new();
        let half: i64 = (size as i64) * 5000;
        let mut z: usize = 0;
        while z < size
            invariant
                size <= MAX_SIZE,
                profile@.len() == size,
                forall|i: int|
                    0 <= i < size ==> -(FX_ONE as int) <= #[trigger] profile@[i] <= (FX_ONE as int),
                half == (size as int) * 5000,
                z <= size,
                tiles@.len() == z * (size as int) * (size as int),
                forall|x0: int, y0: int, z0: int|
                    in_range(size as int, x0, y0, z0) && grid_index(size as int, x0, y0, z0)
                        < tiles@.len() ==> #[trigger] tiles@[grid_index(size as int, x0, y0, z0)]
                        == (if solid_rule(profile@[x0] as int, profile@[z0] as int, size as int, y0) {
                        1u8
                    } else {
                        0u8
                    }),
            decreases size - z,
        {
            let mut y: usize = 0;
            while y < size
                invariant
                    size <= MAX_SIZE,
                    profile@.len() == size,
                    forall|i: int|
                        0 <= i < size ==> -(FX_ONE as int) <= #[trigger] profile@[i] <= (
                        FX_ONE as int),
                    half == (size as int) * 5000,
                    z < size,
                    y <= size,
                    tiles@.len() == z * (size as int) * (size as int) + y * (size as int),
                    forall|x0: int, y0: int, z0: int|
                        in_range(size as int, x0, y0, z0) && grid_index(size as int, x0, y0, z0)
                            < tiles@.len() ==> #[trigger] tiles@[grid_index(
                            size as int,
                            x0,
                            y0,
                            z0,
                        )] == (if solid_rule(profile@[x0] as int, profile@[z0] as int, size as int, y0) {
                            1u8
                        } else {
                            0u8
                        }),
                decreases size - y,
            {
                let mut x: usize = 0;
                while x < size
                    invariant
                        size <= MAX_SIZE,
                        profile@.len() == size,
                        forall|i: int|
                            0 <= i < size ==> -(FX_ONE as int) <= #[trigger] profile@[i] <= (
                            FX_ONE as int),
                        half == (size as int) * 5000,
                        z < size,
                        y < size,
                        x <= size,
                        tiles@.len() == z * (size as int) * (size as int) + y * (size as int) + x,
                        forall|x0: int, y0: int, z0: int|
                            in_range(size as int, x0, y0, z0) && grid_index(size as int, x0, y0, z0)
                                < tiles@.len() ==> #[trigger] tiles@[grid_index(
                                size as int,
                                x0,
                                y0,
                                z0,
                            )] == (if solid_rule(profile@[x0] as int, profile@[z0] as int, size as int, y0) {
                                1u8
                            } else {
                                0u8
                            }),
                    decreases size - x,
                {
                    let xx = profile[x];
                    let zz = profile[z];
                    let xx2 = fx_mul(xx, xx);
                    let zz2 = fx_mul(zz, zz);
                    proof {
                        assert(iabs(xx2 as int) <= 10000 && iabs(zz2 as int) <= 10000) by (
                        nonlinear_arith)
                            requires
                                iabs(xx2 as int) <= (iabs(xx as int) * iabs(xx as int)) / 10000,
                                iabs(zz2 as int) <= (iabs(zz as int) * iabs(zz as int)) / 10000,
                                iabs(xx as int) <= 10000,
                                iabs(zz as int) <= 10000,
                        ;
                    }
                    let t2 = fx_mul(xx2, 25000);
                    let u2 = fx_mul(zz2, 45000);
                    let lhs = -t2 - u2 + half;
                    let rhs = (y as i64) * (FX_ONE);
                    let v: u8 = if lhs > rhs {
                        1
                    } else {
                        0
                    };
                    proof {
                        assert(v == (if solid_rule(
                            profile@[x as int] as int,
                            profile@[z as int] as int,
                            size as int,
                            y as int,
                        ) {
                            1u8
                        } else {
                            0u8
                        }));
                        assert(tiles@.len() == grid_index(size as int, x as int, y as int, z as int));
                        lemma_grid_index_bounds(size as int, x as int, y as int, z as int);
                    }
                    tiles.push(v);
                    proof {
                        let szi = size as int;
                        let n = tiles@.len() - 1;
                        assert forall|x0: int, y0: int, z0: int|
                            in_range(szi, x0, y0, z0) && grid_index(szi, x0, y0, z0)
                                < tiles@.len() implies #[trigger] tiles@[grid_index(szi, x0, y0, z0)]
                            == (if solid_rule(profile@[x0] as int, profile@[z0] as int, szi, y0) {
                            1u8
                        } else {
                            0u8
                        }) by {
                            if grid_index(szi, x0, y0, z0) == n {
                                lemma_grid_index_injective(
                                    szi,
                                    x0,
                                    y0,
                                    z0,
                                    x as int,
                                    y as int,
                                    z as int,
                                );
                            }
                        }
                    }
                    x = x + 1;
                }
                proof {
                    assert(z * (size as int) * (size as int) + y * (size as int) + size == z * (
                    size as int) * (size as int) + (y + 1) * (size as int)) by (nonlinear_arith);
                }
                y = y + 1;
            }
            proof {
                assert(z * (size as int) * (size as int) + size * (size as int) == (z + 1) * (
                size as int) * (size as int)) by (nonlinear_arith);
            }
            z = z + 1;
        }
        let t = Terrain { tiles, vertices: Vec::new(), lines: Vec::new(), size };
        proof {
            assert forall|x: int, y: int, z: int| in_range(size as int, x, y, z) implies #[trigger] t.cell(
                x,
                y,
                z,
            ) == (if solid_rule(profile@[x] as int, profile@[z] as int, size as int, y) {
                1u8
            } else {
                0u8
            }) by {
                lemma_grid_index_bounds(size as int, x, y, z);
            }
        }
        t
    }

    /// Occupancy of an in-range cell, read without a bounds test.
    pub fn get_unsafe(&self, x: usize, y: usize, z: usize) -> (r: u8)
        requires
            self.wf(),
            in_range(self.spec_size(), x as int, y as int, z as int),
        ensures
            r == self.cell(x as int, y as int, z as int),
    {
        proof {
            lemma_grid_index_bounds(self.size as int, x as int, y as int, z as int);
            assert((z as int) * (self.size as int) <= 1024 * 1024 && (z as int) * (self.size as int)
                * (self.size as int) + (y as int) * (self.size as int) + (x as int) < 1024 * 1024
                * 1024) by (nonlinear_arith)
                requires
                    0 <= (x as int) && (x as int) < (self.size as int),
                    0 <= (y as int) && (y as int) < (self.size as int),
                    0 <= (z as int) && (z as int) < (self.size as int),
                    (self.size as int) <= 1024,
            ;
        }
        self.tiles[z * self.size * self.size + y * self.size + x]
    }

    /// Bounds-checked occupancy query: absent outside the grid, never fails.
    pub fn get(&self, x: isize, y: isize, z: isize) -> (r: Option<u8>)
        requires
            self.wf(),
        ensures
            r == (if in_range(self.spec_size(), x as int, y as int, z as int) {
                Some(self.cell(x as int, y as int, z as int))
            } else {
                None::<u8>
            }),
    {
        if x < 0 || y < 0 || z < 0 || x >= self.size as isize || y >= self.size as isize || z
            >= self.size as isize {
            None
        } else {
            Some(self.get_unsafe(x as usize, y as usize, z as usize))
        }
    }

    /// Writes an in-range cell without a bounds test; returns the prior value.
    pub fn set_unsafe(&mut self, x: usize, y: usize, z: usize, value: u8) -> (r: u8)
        requires
            old(self).wf(),
            in_range(old(self).spec_size(), x as int, y as int, z as int),
        ensures
            r == old(self).cell(x as int, y as int, z as int),
            final(self).tiles_view() == old(self).tiles_view().update(
                grid_index(old(self).spec_size(), x as int, y as int, z as int),
                value,
            ),
            final(self).spec_size() == old(self).spec_size(),
            final(self).vertices_view() == old(self).vertices_view(),
            final(self).lines_view() == old(self).lines_view(),
            final(self).wf(),
    {
        proof {
            lemma_grid_index_bounds(self.size as int, x as int, y as int, z as int);
            assert((z as int) * (self.size as int) <= 1024 * 1024 && (z as int) * (self.size as int)
                * (self.size as int) + (y as int) * (self.size as int) + (x as int) < 1024 * 1024
                * 1024) by (nonlinear_arith)
                requires
                    0 <= (x as int) && (x as int) < (self.size as int),
                    0 <= (y as int) && (y as int) < (self.size as int),
                    0 <= (z as int) && (z as int) < (self.size as int),
                    (self.size as int) <= 1024,
            ;
        }
        let i = z * self.size * self.size + y * self.size + x;
        let old_value = self.tiles[i];
        self.tiles.set(i, value);
        old_value
    }

    /// Bounds-checked write: returns the prior occupancy, or absent (changing
    /// nothing) outside the grid.
    pub fn set(&mut self, x: isize, y: isize, z: isize, value: u8) -> (r: Option<u8>)
        requires
            old(self).wf(),
        ensures
            final(self).wf(),
            final(self).spec_size() == old(self).spec_size(),
            final(self).vertices_view() == old(self).vertices_view(),
            final(self).lines_view() == old(self).lines_view(),
            in_range(old(self).spec_size(), x as int, y as int, z as int) ==> {
                &&& r == Some(old(self).cell(x as int, y as int, z as int))
                &&& final(self).tiles_view() == old(self).tiles_view().update(
                    grid_index(old(self).spec_size(), x as int, y as int, z as int),
                    value,
                )
            },
            !in_range(old(self).spec_size(), x as int, y as int, z as int) ==> {
                &&& r == None::<u8>
                &&& final(self).tiles_view() == old(self).tiles_view()
            },
    {
        if x < 0 || y < 0 || z < 0 || x >= self.size as isize || y >= self.size as isize || z
            >= self.size as isize {
            None
        } else {
            Some(self.set_unsafe(x as usize, y as usize, z as usize, value))
        }
    }

    /// The grid edge length.
    pub fn size(&self) -> (r: usize)
        ensures
            r == self.spec_size(),
    {
        self.size
    }
}

/// Writing a cell and reading it back yields the written value, and no other
/// cell changes: in-range writes are exact and local.
pub proof fn lemma_set_get(tiles: Seq<u8>, size: int, x: int, y: int, z: int, v: u8)
    requires
        tiles.len() == size * size * size,
        in_range(size, x, y, z),
    ensures
        cell_of(tiles.update(grid_index(size, x, y, z), v), size, x, y, z) == v,
        forall|x2: int, y2: int, z2: int|
            !(x2 == x && y2 == y && z2 == z) ==> #[trigger] cell_of(
                tiles.update(grid_index(size, x, y, z), v),
                size,
                x2,
                y2,
                z2,
            ) == cell_of(tiles, size, x2, y2, z2),
{
    lemma_grid_index_bounds(size, x, y, z);
    let updated = tiles.update(grid_index(size, x, y, z), v);
    assert forall|x2: int, y2: int, z2: int|
        !(x2 == x && y2 == y && z2 == z) implies #[trigger] cell_of(updated, size, x2, y2, z2)
        == cell_of(tiles, size, x2, y2, z2) by {
        if in_range(size, x2, y2, z2) {
            lemma_grid_index_bounds(size, x2, y2, z2);
            if grid_index(size, x2, y2, z2) == grid_index(size, x, y, z) {
                lemma_grid_index_injective(size, x2, y2, z2, x, y, z);
            }
        }
    }
}

/// Planar corner pattern of a unit quad drawn as two triangles: the first
/// texture/offset component of vertex `j`.
pub open spec fn quad_u(j: int) -> int {
    if j == 0 {
        0
    } else if j == 1 {
        1
    } else if j == 2 {
        0
    } else if j == 3 {
        0
    } else if j == 4 {
        1
    } else {
        1
    }
}

/// Second planar corner component of vertex `j` of a unit quad.
pub open spec fn quad_v(j: int) -> int {
    if j == 0 {
        0
    } else if j == 1 {
        1
    } else if j == 2 {
        1
    } else if j == 3 {
        0
    } else if j == 4 {
        0
    } else {
        1
    }
}

/// A half-unit vector from mathematical components.
pub open spec fn v3(x: int, y: int, z: int) -> Vec3i {
    Vec3i { x: x as i32, y: y as i32, z: z as i32 }
}

/// Texture row offset of the voxel at `(x, y, z)`: one half-unit when the
/// cell directly above is empty (an exposed top selects the other atlas row).
pub open spec fn voxel_off(tiles: Seq<u8>, size: int, x: int, y: int, z: int) -> int {
    if cell_of(tiles, size, x, y + 1, z) == 0 {
        1
    } else {
        0
    }
}

/// Vertex `j` of the quad on the face of voxel `(x, y, z)` that looks along
/// the x axis (side `i`: 0 is the -x face, 1 the +x face), with texture row
/// offset `off`; all components in half-units.
pub open spec fn face_x_vertex(x: int, y: int, z: int, i: int, off: int, j: int) -> Vertex {
    Vertex {
        position: v3(2 * x + 2 * i, 2 * y + 2 * quad_u(j), 2 * z + 2 * quad_v(j)),
        normal: v3(4 * i - 2, 0, 0),
        tex_coord: v3(2 * i, quad_u(j) + off, 2 * quad_v(j)),
    }
}

/// Vertex `j` of the face of voxel `(x, y, z)` that looks along the y axis.
pub open spec fn face_y_vertex(x: int, y: int, z: int, i: int, off: int, j: int) -> Vertex {
    Vertex {
        position: v3(2 * x + 2 * quad_u(j), 2 * y + 2 * i, 2 * z + 2 * quad_v(j)),
        normal: v3(0, 4 * i - 2, 0),
        tex_coord: v3(2 * quad_u(j), i + off, 2 * quad_v(j)),
    }
}

/// Vertex `j` of the face of voxel `(x, y, z)` that looks along the z axis.
pub open spec fn face_z_vertex(x: int, y: int, z: int, i: int, off: int, j: int) -> Vertex {
    Vertex {
        position: v3(2 * x + 2 * quad_u(j), 2 * y + 2 * quad_v(j), 2 * z + 2 * i),
        normal: v3(0, 0, 4 * i - 2),
        tex_coord: v3(2 * quad_u(j), quad_v(j) + off, 2 * i),
    }
}

/// The six vertices of one x-facing quad.
pub open spec fn face_x_seq(x: int, y: int, z: int, i: int, off: int) -> Seq<Vertex> {
    Seq::new(6, |j: int| face_x_vertex(x, y, z, i, off, j))
}

/// The six vertices of one y-facing quad.
pub open spec fn face_y_seq(x: int, y: int, z: int, i: int, off: int) -> Seq<Vertex> {
    Seq::new(6, |j: int| face_y_vertex(x, y, z, i, off, j))
}

/// The six vertices of one z-facing quad.
pub open spec fn face_z_seq(x: int, y: int, z: int, i: int, off: int) -> Seq<Vertex> {
    Seq::new(6, |j: int| face_z_vertex(x, y, z, i, off, j))
}

/// All face geometry of the solid voxel at `(x, y, z)`: one quad per face
/// whose neighbor across that face is empty or out of range, in the order
/// -x, -y, -z, +x, +y, +z.
pub open spec fn voxel_vertices(tiles: Seq<u8>, size: int, x: int, y: int, z: int) -> Seq<Vertex> {
    let off = voxel_off(tiles, size, x, y, z);
    (if cell_of(tiles, size, x - 1, y, z) == 0 {
        face_x_seq(x, y, z, 0, off)
    } else {
        Seq::empty()
    }) + (if cell_of(tiles, size, x, y - 1, z) == 0 {
        face_y_seq(x, y, z, 0, off)
    } else {
        Seq::empty()
    }) + (if cell_of(tiles, size, x, y, z - 1) == 0 {
        face_z_seq(x, y, z, 0, off)
    } else {
        Seq::empty()
    }) + (if cell_of(tiles, size, x + 1, y, z) == 0 {
        face_x_seq(x, y, z, 1, off)
    } else {
        Seq::empty()
    }) + (if cell_of(tiles, size, x, y + 1, z) == 0 {
        face_y_seq(x, y, z, 1, off)
    } else {
        Seq::empty()
    }) + (if cell_of(tiles, size, x, y, z + 1) == 0 {
        face_z_seq(x, y, z, 1, off)
    } else {
        Seq::empty()
    })
}

/// The one diagonal edge segment of the solid voxel at `(x, y, z)`: its two
/// endpoints span the voxel's minimum and maximum corners.
pub open spec fn voxel_lines(tiles: Seq<u8>, size: int, x: int, y: int, z: int) -> Seq<Line> {
    let off = voxel_off(tiles, size, x, y, z);
    seq![
        Line { position: v3(2 * x, 2 * y, 2 * z), tex_coord: v3(0, off, 0) },
        Line {
            position: v3(2 * x + 2, 2 * y + 2, 2 * z + 2),
            tex_coord: v3(2, 1 + off, 2),
        },
    ]
}

/// Geometry contributed by cell `(x, y, z)`: its faces and edge segment when
/// solid, nothing when empty.
pub open spec fn mesh_cell(tiles: Seq<u8>, size: int, x: int, y: int, z: int) -> (
    Seq<Vertex>,
    Seq<Line>,
) {
    if cell_of(tiles, size, x, y, z) > 0 {
        (voxel_vertices(tiles, size, x, y, z), voxel_lines(tiles, size, x, y, z))
    } else {
        (Seq::empty(), Seq::empty())
    }
}

/// Geometry of cells `(x, y, 0) .. (x, y, zn)`, in grid order.
pub open spec fn mesh_z(tiles: Seq<u8>, size: int, x: int, y: int, zn: nat) -> (
    Seq<Vertex>,
    Seq<Line>,
)
    decreases zn,
{
    if zn == 0 {
        (Seq::empty(), Seq::empty())
    } else {
        let p = mesh_z(tiles, size, x, y, (zn - 1) as nat);
        let c = mesh_cell(tiles, size, x, y, zn - 1);
        (p.0 + c.0, p.1 + c.1)
    }
}

/// Geometry of all cells with first coordinate `x` and second below `yn`.
pub open spec fn mesh_y(tiles: Seq<u8>, size: int, x: int, yn: nat) -> (Seq<Vertex>, Seq<Line>)
    decreases yn,
{
    if yn == 0 {
        (Seq::empty(), Seq::empty())
    } else {
        let p = mesh_y(tiles, size, x, (yn - 1) as nat);
        let c = mesh_z(tiles, size, x, yn - 1, size as nat);
        (p.0 + c.0, p.1 + c.1)
    }
}

/// Geometry of all cells with first coordinate below `xn`.
pub open spec fn mesh_x(tiles: Seq<u8>, size: int, xn: nat) -> (Seq<Vertex>, Seq<Line>)
    decreases xn,
{
    if xn == 0 {
        (Seq::empty(), Seq::empty())
    } else {
        let p = mesh_x(tiles, size, (xn - 1) as nat);
        let c = mesh_y(tiles, size, xn - 1, size as nat);
        (p.0 + c.0, p.1 + c.1)
    }
}

/// The full mesh of a grid: every solid voxel's visible faces and edge
/// segment, in grid order (x, then y, then z).
pub open spec fn mesh_of(tiles: Seq<u8>, size: int) -> (Seq<Vertex>, Seq<Line>) {
    mesh_x(tiles, size, size as nat)
}

/// A voxel whose six face neighbors are all solid contributes no quad.
pub proof fn lemma_enclosed_voxel(tiles: Seq<u8>, size: int, x: int, y: int, z: int)
    requires
        cell_of(tiles, size, x - 1, y, z) != 0,
        cell_of(tiles, size, x + 1, y, z) != 0,
        cell_of(tiles, size, x, y - 1, z) != 0,
        cell_of(tiles, size, x, y + 1, z) != 0,
        cell_of(tiles, size, x, y, z - 1) != 0,
        cell_of(tiles, size, x, y, z + 1) != 0,
    ensures
        voxel_vertices(tiles, size, x, y, z) == Seq::<Vertex>::empty(),
{
    assert(voxel_vertices(tiles, size, x, y, z) =~= Seq::<Vertex>::empty());
}

/// A voxel with all six face neighbors empty or out of range contributes
/// exactly six quads (36 vertices) and exactly one edge segment.
pub proof fn lemma_isolated_voxel(tiles: Seq<u8>, size: int, x: int, y: int, z: int)
    requires
        cell_of(tiles, size, x - 1, y, z) == 0,
        cell_of(tiles, size, x + 1, y, z) == 0,
        cell_of(tiles, size, x, y - 1, z) == 0,
        cell_of(tiles, size, x, y + 1, z) == 0,
        cell_of(tiles, size, x, y, z - 1) == 0,
        cell_of(tiles, size, x, y, z + 1) == 0,
    ensures
        voxel_vertices(tiles, size, x, y, z).len() == 36,
        voxel_lines(tiles, size, x, y, z).len() == 2,
{
}

impl Terrain {
    /// Occupancy with the out-of-range convention folded in: empty outside.
    pub fn occ(&self, x: isize, y: isize, z: isize) -> (r: u8)
        requires
            self.wf(),
        ensures
            r == self.cell(x as int, y as int, z as int),
    {
        match self.get(x, y, z) {
            Some(v) => v,
            None => 0,
        }
    }

    /// Face geometry and the edge segment of the voxel at `(x, y, z)`,
    /// face-culled against its six neighbors.
    pub fn make_primitives(&self, x: usize, y: usize, z: usize) -> (r: (Vec<Vertex>, Vec<Line>))
        requires
            self.wf(),
            in_range(self.spec_size(), x as int, y as int, z as int),
        ensures
            r.0@ == voxel_vertices(self.tiles_view(), self.spec_size(), x as int, y as int, z as int),
            r.1@ == voxel_lines(self.tiles_view(), self.spec_size(), x as int, y as int, z as int),
    {
        let ghost t = self.tiles_view();
        let ghost s = self.spec_size();
        let ghost xi = x as int;
        let ghost yi = y as int;
        let ghost zi = z as int;
        let xs = x as isize;
        let ys = y as isize;
        let zs = z as isize;
        let off: i32 = if self.occ(xs, ys + 1, zs) != 0 {
            0
        } else {
            1
        };
        let ghost offi = voxel_off(t, s, xi, yi, zi);
        assert(off as int == offi);
        let ghost p1 = if cell_of(t, s, xi - 1, yi, zi) == 0 {
            face_x_seq(xi, yi, zi, 0, offi)
        } else {
            Seq::<Vertex>::empty()
        };
        let ghost p2 = if cell_of(t, s, xi, yi - 1, zi) == 0 {
            face_y_seq(xi, yi, zi, 0, offi)
        } else {
            Seq::<Vertex>::empty()
        };
        let ghost p3 = if cell_of(t, s, xi, yi, zi - 1) == 0 {
            face_z_seq(xi, yi, zi, 0, offi)
        } else {
            Seq::<Vertex>::empty()
        };
        let ghost p4 = if cell_of(t, s, xi + 1, yi, zi) == 0 {
            face_x_seq(xi, yi, zi, 1, offi)
        } else {
            Seq::<Vertex>::empty()
        };
        let ghost p5 = if cell_of(t, s, xi, yi + 1, zi) == 0 {
            face_y_seq(xi, yi, zi, 1, offi)
        } else {
            Seq::<Vertex>::empty()
        };
        let ghost p6 = if cell_of(t, s, xi, yi, zi + 1) == 0 {
            face_z_seq(xi, yi, zi, 1, offi)
        } else {
            Seq::<Vertex>::empty()
        };
        let mut verts: Vec<Vertex> = Vec::new();
        if self.occ(xs - 1, ys, zs) == 0 {
            push_face_x(&mut verts, x, y, z, 0, off);
        }
        proof {
            assert(verts@ =~= p1);
        }
        if self.occ(xs, ys - 1, zs) == 0 {
            push_face_y(&mut verts, x, y, z, 0, off);
        }
        proof {
            assert(verts@ =~= p1 + p2);
        }
        if self.occ(xs, ys, zs - 1) == 0 {
            push_face_z(&mut verts, x, y, z, 0, off);
        }
        proof {
            assert(verts@ =~= p1 + p2 + p3);
        }
        if self.occ(xs + 1, ys, zs) == 0 {
            push_face_x(&mut verts, x, y, z, 1, off);
        }
        proof {
            assert(verts@ =~= p1 + p2 + p3 + p4);
        }
        if self.occ(xs, ys + 1, zs) == 0 {
            push_face_y(&mut verts, x, y, z, 1, off);
        }
        proof {
            assert(verts@ =~= p1 + p2 + p3 + p4 + p5);
        }
        if self.occ(xs, ys, zs + 1) == 0 {
            push_face_z(&mut verts, x, y, z, 1, off);
        }
        proof {
            assert(verts@ =~= p1 + p2 + p3 + p4 + p5 + p6);
            assert(verts@ == voxel_vertices(t, s, xi, yi, zi));
        }
        let px = 2 * (x as i32);
        let py = 2 * (y as i32);
        let pz = 2 * (z as i32);
        let mut lines: Vec<Line> = Vec::new();
        lines.push(
            Line {
                position: Vec3i { x: px, y: py, z: pz },
                tex_coord: Vec3i { x: 0, y: off, z: 0 },
            },
        );
        lines.push(
            Line {
                position: Vec3i { x: px + 2, y: py + 2, z: pz + 2 },
                tex_coord: Vec3i { x: 2, y: 1 + off, z: 2 },
            },
        );
        proof {
            assert(lines@ =~= voxel_lines(t, s, xi, yi, zi));
        }
        (verts, lines)
    }

    /// Rebuilds the full mesh from the grid: a one-shot regeneration whose
    /// result is a function of the grid alone (rebuilding an unchanged grid
    /// yields the identical vertex and segment sequences), with the grid left
    /// untouched.
    pub fn rebuild(&mut self)
        requires
            old(self).wf(),
        ensures
            final(self).wf(),
            final(self).tiles_view() == old(self).tiles_view(),
            final(self).spec_size() == old(self).spec_size(),
            final(self).vertices_view() == mesh_of(old(self).tiles_view(), old(self).spec_size()).0,
            final(self).lines_view() == mesh_of(old(self).tiles_view(), old(self).spec_size()).1,
    {
        let ghost t = self.tiles_view();
        let ghost s = self.spec_size();
        let size = self.size;
        self.vertices = Vec::new();
        self.lines = Vec::new();
        let mut x: usize = 0;
        while x < size
            invariant
                self.wf(),
                self.tiles_view() == t,
                self.spec_size() == s,
                size == s,
                x <= size,
                self.vertices_view() == mesh_x(t, s, x as nat).0,
                self.lines_view() == mesh_x(t, s, x as nat).1,
            decreases size - x,
        {
            let mut y: usize = 0;
            while y < size
                invariant
                    self.wf(),
                    self.tiles_view() == t,
                    self.spec_size() == s,
                    size == s,
                    x < size,
                    y <= size,
                    self.vertices_view() == mesh_x(t, s, x as nat).0 + mesh_y(t, s, x as int, y as nat).0,
                    self.lines_view() == mesh_x(t, s, x as nat).1 + mesh_y(t, s, x as int, y as nat).1,
                decreases size - y,
            {
                let mut z: usize = 0;
                while z < size
                    invariant
                        self.wf(),
                        self.tiles_view() == t,
                        self.spec_size() == s,
                        size == s,
                        x < size,
                        y < size,
                        z <= size,
                        self.vertices_view() == mesh_x(t, s, x as nat).0 + mesh_y(t, s, x as int, y as nat).0
                            + mesh_z(t, s, x as int, y as int, z as nat).0,
                        self.lines_view() == mesh_x(t, s, x as nat).1 + mesh_y(t, s, x as int, y as nat).1
                            + mesh_z(t, s, x as int, y as int, z as nat).1,
                    decreases size - z,
                {
                    let ghost prev_v = self.vertices_view();
                    let ghost prev_l = self.lines_view();
                    if self.get_unsafe(x, y, z) > 0 {
                        let mut prims = self.make_primitives(x, y, z);
                        self.vertices.append(&mut prims.0);
                        self.lines.append(&mut prims.1);
                    }
                    proof {
                        let c = mesh_cell(t, s, x as int, y as int, z as int);
                        assert(self.vertices_view() =~= prev_v + c.0);
                        assert(self.lines_view() =~= prev_l + c.1);
                        let a0 = mesh_x(t, s, x as nat).0;
                        let b0 = mesh_y(t, s, x as int, y as nat).0;
                        let d0 = mesh_z(t, s, x as int, y as int, z as nat).0;
                        assert((a0 + b0 + d0) + c.0 =~= a0 + b0 + (d0 + c.0));
                        let a1 = mesh_x(t, s, x as nat).1;
                        let b1 = mesh_y(t, s, x as int, y as nat).1;
                        let d1 = mesh_z(t, s, x as int, y as int, z as nat).1;
                        assert((a1 + b1 + d1) + c.1 =~= a1 + b1 + (d1 + c.1));
                        assert(mesh_z(t, s, x as int, y as int, (z + 1) as nat).0 == d0 + c.0);
                        assert(mesh_z(t, s, x as int, y as int, (z + 1) as nat).1 == d1 + c.1);
                    }
                    z = z + 1;
                }
                proof {
                    let a0 = mesh_x(t, s, x as nat).0;
                    let b0 = mesh_y(t, s, x as int, y as nat).0;
                    let d0 = mesh_z(t, s, x as int, y as int, s as nat).0;
                    assert(mesh_y(t, s, x as int, (y + 1) as nat).0 == b0 + d0);
                    assert(a0 + b0 + d0 =~= a0 + (b0 + d0));
                    let a1 = mesh_x(t, s, x as nat).1;
                    let b1 = mesh_y(t, s, x as int, y as nat).1;
                    let d1 = mesh_z(t, s, x as int, y as int, s as nat).1;
                    assert(mesh_y(t, s, x as int, (y + 1) as nat).1 == b1 + d1);
                    assert(a1 + b1 + d1 =~= a1 + (b1 + d1));
                }
                y = y + 1;
            }
            proof {
                assert(mesh_x(t, s, (x + 1) as nat).0 == mesh_x(t, s, x as nat).0 + mesh_y(
                    t,
                    s,
                    x as int,
                    s as nat,
                ).0);
                assert(mesh_x(t, s, (x + 1) as nat).1 == mesh_x(t, s, x as nat).1 + mesh_y(
                    t,
                    s,
                    x as int,
                    s as nat,
                ).1);
            }
            x = x + 1;
        }
    }

    /// The face geometry last built by `rebuild`, in build order.
    pub fn vertices(&self) -> (r: &[Vertex])
        ensures
            r@ == self.vertices_view(),
    {
        self.vertices.as_slice()
    }

    /// The cross-section edge segments last built by `rebuild`, in build order.
    pub fn lines(&self) -> (r: &[Line])
        ensures
            r@ == self.lines_view(),
    {
        self.lines.as_slice()
    }
}

/// The corner pattern of a unit quad as two triangles, per corner index.
fn quad_uv(j: usize) -> (r: (i32, i32))
    requires
        j < 6,
    ensures
        r.0 as int == quad_u(j as int),
        r.1 as int == quad_v(j as int),
{
    if j == 0 {
        (0, 0)
    } else if j == 1 {
        (1, 1)
    } else if j == 2 {
        (0, 1)
    } else if j == 3 {
        (0, 0)
    } else if j == 4 {
        (1, 0)
    } else {
        (1, 1)
    }
}

/// Appends the six vertices of one x-facing quad, in quad-corner order.
fn push_face_x(out: &mut Vec<Vertex>, x: usize, y: usize, z: usize, i: i32, off: i32)
    requires
        x <= 1024,
        y <= 1024,
        z <= 1024,
        0 <= i <= 1,
        0 <= off <= 1,
    ensures
        final(out)@ == old(out)@ + face_x_seq(x as int, y as int, z as int, i as int, off as int),
{
    let ghost fs = face_x_seq(x as int, y as int, z as int, i as int, off as int);
    let px = 2 * (x as i32);
    let py = 2 * (y as i32);
    let pz = 2 * (z as i32);
    let mut j: usize = 0;
    while j < 6
        invariant
            x <= 1024,
            y <= 1024,
            z <= 1024,
            0 <= i <= 1,
            0 <= off <= 1,
            px as int == 2 * (x as int),
            py as int == 2 * (y as int),
            pz as int == 2 * (z as int),
            j <= 6,
            fs == face_x_seq(x as int, y as int, z as int, i as int, off as int),
            out@ == old(out)@ + fs.take(j as int),
        decreases 6 - j,
    {
        let (qu, qv) = quad_uv(j);
        out.push(
            Vertex {
                position: Vec3i { x: px + 2 * i, y: py + 2 * qu, z: pz + 2 * qv },
                normal: Vec3i { x: 4 * i - 2, y: 0, z: 0 },
                tex_coord: Vec3i { x: 2 * i, y: qu + off, z: 2 * qv },
            },
        );
        proof {
            assert(fs[j as int] == face_x_vertex(
                x as int,
                y as int,
                z as int,
                i as int,
                off as int,
                j as int,
            ));
            assert(fs.take(j as int + 1) =~= fs.take(j as int).push(fs[j as int]));
            assert(out@ =~= old(out)@ + fs.take(j as int + 1));
        }
        j = j + 1;
    }
    proof {
        assert(fs.take(6) =~= fs);
    }
}

/// Appends the six vertices of one y-facing quad, in quad-corner order.
fn push_face_y(out: &mut Vec<Vertex>, x: usize, y: usize, z: usize, i: i32, off: i32)
    requires
        x <= 1024,
        y <= 1024,
        z <= 1024,
        0 <= i <= 1,
        0 <= off <= 1,
    ensures
        final(out)@ == old(out)@ + face_y_seq(x as int, y as int, z as int, i as int, off as int),
{
    let ghost fs = face_y_seq(x as int, y as int, z as int, i as int, off as int);
    let px = 2 * (x as i32);
    let py = 2 * (y as i32);
    let pz = 2 * (z as i32);
    let mut j: usize = 0;
    while j < 6
        invariant
            x <= 1024,
            y <= 1024,
            z <= 1024,
            0 <= i <= 1,
            0 <= off <= 1,
            px as int == 2 * (x as int),
            py as int == 2 * (y as int),
            pz as int == 2 * (z as int),
            j <= 6,
            fs == face_y_seq(x as int, y as int, z as int, i as int, off as int),
            out@ == old(out)@ + fs.take(j as int),
        decreases 6 - j,
    {
        let (qu, qv) = quad_uv(j);
        out.push(
            Vertex {
                position: Vec3i { x: px + 2 * qu, y: py + 2 * i, z: pz + 2 * qv },
                normal: Vec3i { x: 0, y: 4 * i - 2, z: 0 },
                tex_coord: Vec3i { x: 2 * qu, y: i + off, z: 2 * qv },
            },
        );
        proof {
            assert(fs[j as int] == face_y_vertex(
                x as int,
                y as int,
                z as int,
                i as int,
                off as int,
                j as int,
            ));
            assert(fs.take(j as int + 1) =~= fs.take(j as int).push(fs[j as int]));
            assert(out@ =~= old(out)@ + fs.take(j as int + 1));
        }
        j = j + 1;
    }
    proof {
        assert(fs.take(6) =~= fs);
    }
}

/// Appends the six vertices of one z-facing quad, in quad-corner order.
fn push_face_z(out: &mut Vec<Vertex>, x: usize, y: usize, z: usize, i: i32, off: i32)
    requires
        x <= 1024,
        y <= 1024,
        z <= 1024,
        0 <= i <= 1,
        0 <= off <= 1,
    ensures
        final(out)@ == old(out)@ + face_z_seq(x as int, y as int, z as int, i as int, off as int),
{
    let ghost fs = face_z_seq(x as int, y as int, z as int, i as int, off as int);
    let px = 2 * (x as i32);
    let py = 2 * (y as i32);
    let pz = 2 * (z as i32);
    let mut j: usize = 0;
    while j < 6
        invariant
            x <= 1024,
            y <= 1024,
            z <= 1024,
            0 <= i <= 1,
            0 <= off <= 1,
            px as int == 2 * (x as int),
            py as int == 2 * (y as int),
            pz as int == 2 * (z as int),
            j <= 6,
            fs == face_z_seq(x as int, y as int, z as int, i as int, off as int),
            out@ == old(out)@ + fs.take(j as int),
        decreases 6 - j,
    {
        let (qu, qv) = quad_uv(j);
        out.push(
            Vertex {
                position: Vec3i { x: px + 2 * qu, y: py + 2 * qv, z: pz + 2 * i },
                normal: Vec3i { x: 0, y: 0, z: 4 * i - 2 },
                tex_coord: Vec3i { x: 2 * qu, y: qv + off, z: 2 * i },
            },
        );
        proof {
            assert(fs[j as int] == face_z_vertex(
                x as int,
                y as int,
                z as int,
                i as int,
                off as int,
                j as int,
            ));
            assert(fs.take(j as int + 1) =~= fs.take(j as int).push(fs[j as int]));
            assert(out@ =~= old(out)@ + fs.take(j as int + 1));
        }
        j = j + 1;
    }
    proof {
        assert(fs.take(6) =~= fs);
    }
}

/// Rebuild idempotence: rebuilding leaves the grid unchanged and its output
/// is a function of the grid alone, so a second rebuild of an unchanged grid
/// reproduces the identical vertex and segment sequences, in the same order.
/// `first` and `second` stand for the terrain after one and after two
/// rebuilds of `start`.
pub proof fn lemma_rebuild_idempotent(start: Terrain, first: Terrain, second: Terrain)
    requires
        first.tiles_view() == start.tiles_view(),
        first.spec_size() == start.spec_size(),
        first.vertices_view() == mesh_of(start.tiles_view(), start.spec_size()).0,
        first.lines_view() == mesh_of(start.tiles_view(), start.spec_size()).1,
        second.tiles_view() == first.tiles_view(),
        second.spec_size() == first.spec_size(),
        second.vertices_view() == mesh_of(first.tiles_view(), first.spec_size()).0,
        second.lines_view() == mesh_of(first.tiles_view(), first.spec_size()).1,
    ensures
        second.vertices_view() == first.vertices_view(),
        second.lines_view() == first.lines_view(),
        second.tiles_view() == start.tiles_view(),
{
}

/// Number of solid cells among `(x, y, 0) .. (x, y, zn)`.
pub open spec fn solid_count_z(tiles: Seq<u8>, size: int, x: int, y: int, zn: nat) -> nat
    decreases zn,
{
    if zn == 0 {
        0
    } else {
        solid_count_z(tiles, size, x, y, (zn - 1) as nat) + (if cell_of(
            tiles,
            size,
            x,
            y,
            zn - 1,
        ) > 0 {
            1nat
        } else {
            0nat
        })
    }
}

/// Number of solid cells with first coordinate `x` and second below `yn`.
pub open spec fn solid_count_y(tiles: Seq<u8>, size: int, x: int, yn: nat) -> nat
    decreases yn,
{
    if yn == 0 {
        0
    } else {
        solid_count_y(tiles, size, x, (yn - 1) as nat) + solid_count_z(
            tiles,
            size,
            x,
            yn - 1,
            size as nat,
        )
    }
}

/// Number of solid cells with first coordinate below `xn`.
pub open spec fn solid_count_x(tiles: Seq<u8>, size: int, xn: nat) -> nat
    decreases xn,
{
    if xn == 0 {
        0
    } else {
        solid_count_x(tiles, size, (xn - 1) as nat) + solid_count_y(
            tiles,
            size,
            xn - 1,
            size as nat,
        )
    }
}

/// Number of solid cells in the whole grid.
pub open spec fn solid_count(tiles: Seq<u8>, size: int) -> nat {
    solid_count_x(tiles, size, size as nat)
}

proof fn lemma_mesh_z_segment_count(tiles: Seq<u8>, size: int, x: int, y: int, zn: nat)
    ensures
        mesh_z(tiles, size, x, y, zn).1.len() == 2 * solid_count_z(tiles, size, x, y, zn),
    decreases zn,
{
    if zn > 0 {
        lemma_mesh_z_segment_count(tiles, size, x, y, (zn - 1) as nat);
    }
}

proof fn lemma_mesh_y_segment_count(tiles: Seq<u8>, size: int, x: int, yn: nat)
    ensures
        mesh_y(tiles, size, x, yn).1.len() == 2 * solid_count_y(tiles, size, x, yn),
    decreases yn,
{
    if yn > 0 {
        lemma_mesh_y_segment_count(tiles, size, x, (yn - 1) as nat);
        lemma_mesh_z_segment_count(tiles, size, x, yn - 1, size as nat);
    }
}

proof fn lemma_mesh_x_segment_count(tiles: Seq<u8>, size: int, xn: nat)
    ensures
        mesh_x(tiles, size, xn).1.len() == 2 * solid_count_x(tiles, size, xn),
    decreases xn,
{
    if xn > 0 {
        lemma_mesh_x_segment_count(tiles, size, (xn - 1) as nat);
        lemma_mesh_y_segment_count(tiles, size, xn - 1, size as nat);
    }
}

/// The mesh carries exactly one edge segment (two `Line` points) per solid
/// voxel of the grid.
pub proof fn lemma_one_segment_per_solid_voxel(tiles: Seq<u8>, size: int)
    ensures
        mesh_of(tiles, size).1.len() == 2 * solid_count(tiles, size),
{
    lemma_mesh_x_segment_count(tiles, size, size as nat);
}

} // verus!
