//! The player and its physics.
//!
//! The player lives in the cutting plane's local frame: a horizontal position
//! `x`, a vertical position `y`, a vertical velocity and an on-floor flag, all
//! fixed-point. Collision is decided by transforming the player's two bottom
//! corners through the plane's pose into world space and marching the voxel
//! grid along the segment between them; gravity, walking and jumping are
//! resolved against that test.

use vstd::prelude::*;

use crate::fixed::fx_div;
use crate::fixed::fx_floor;
use crate::fixed::fx_fract;
use crate::fixed::fx_mul;
use crate::fixed::fxd;
use crate::fixed::fxm;
use crate::fixed::iabs;
use crate::fixed::lemma_fxm_bound;
use crate::fixed::lemma_fxm_zero;
use crate::fixed::FX_ONE;
use crate::mat::pose_ok;
use crate::mat::tp_x;
use crate::mat::tp_y;
use crate::mat::tp_z;
use crate::mat::transform_point;
use crate::mat::Mat4;
use crate::plane::Plane;
use crate::plane::DT_MAX;
use crate::terrain::cell_of;
use crate::terrain::Terrain;

verus! {

/// Walk speed: three and a half world units per second.
pub const WALK_SPEED: i64 = 35000;

/// Gravity: velocity lost per second of fall.
pub const GRAVITY: i64 = 300000;

/// Terminal fall velocity.
pub const VEL_MIN: i64 = -200000;

/// Vertical velocity granted by a jump.
pub const JUMP_VEL: i64 = 120000;

/// The ray-march runs while its parameter stays at or below this value: one
/// world unit (the full segment) plus a one-step epsilon.
pub const T_LIMIT: i64 = 10001;

/// Step reported for an axis whose direction component is zero: past the
/// segment end, so a motionless axis never bounds the march.
pub const INF_STEP: i64 = 20002;

/// Most snap-up corrections one physics update performs; a defensive bound on
/// the resolution loop.
pub const SNAP_CAP: usize = 1000;

/// Largest player coordinate magnitude the physics accepts.
pub const PLAYER_COORD_MAX: i64 = 10_000_000;

/// Whether the voxel containing the fixed-point world position is solid.
pub open spec fn solid_at(tiles: Seq<u8>, size: int, px: int, py: int, pz: int) -> bool {
    cell_of(tiles, size, px / (FX_ONE as int), py / (FX_ONE as int), pz / (FX_ONE as int)) != 0
}

/// Parametric distance to the next whole-unit boundary along one axis:
/// the remaining fraction toward the boundary in the direction's sign, divided
/// by the direction component; a zero component reports a step past the
/// segment end.
pub open spec fn axis_dt(p: int, d: int) -> int {
    if d > 0 {
        fxd((FX_ONE as int) - p % (FX_ONE as int), d)
    } else if d < 0 {
        fxd(-(p % (FX_ONE as int)), d)
    } else {
        INF_STEP as int
    }
}

/// The smaller of three values.
pub open spec fn min3(a: int, b: int, c: int) -> int {
    if a <= b && a <= c {
        a
    } else if b <= c {
        b
    } else {
        c
    }
}

/// The march's parametric step from the position `(px, py, pz)`: the smallest
/// axis boundary distance, never negative.
pub open spec fn march_step(px: int, py: int, pz: int, dx: int, dy: int, dz: int) -> int {
    let m = min3(axis_dt(px, dx), axis_dt(py, dy), axis_dt(pz, dz));
    if m < 0 {
        0
    } else {
        m
    }
}

/// The voxel ray-march from parameter `t`: true exactly when some sampled
/// position `origin + t * dir` with `t` at or below the limit falls in a solid
/// voxel. Each round advances `t` by the distance to the next voxel boundary
/// plus a one-unit epsilon, so the march always terminates.
pub open spec fn march(
    tiles: Seq<u8>,
    size: int,
    ox: int,
    oy: int,
    oz: int,
    dx: int,
    dy: int,
    dz: int,
    t: int,
) -> bool
    decreases (T_LIMIT as int) + 1 - t,
{
    if t > T_LIMIT as int {
        false
    } else {
        let px = ox + fxm(dx, t);
        let py = oy + fxm(dy, t);
        let pz = oz + fxm(dz, t);
        if solid_at(tiles, size, px, py, pz) {
            true
        } else {
            let next0 = t + march_step(px, py, pz, dx, dy, dz) + 1;
            let next = if next0 > (T_LIMIT as int) + 1 {
                (T_LIMIT as int) + 1
            } else {
                next0
            };
            march(tiles, size, ox, oy, oz, dx, dy, dz, next)
        }
    }
}

/// Whether the player at horizontal position `x`, vertical position `y` and
/// width `w` (plane-local, fixed-point) intersects the terrain: its two bottom
/// corners are taken through the pose `m` into world space and the segment
/// between them is ray-marched.
pub open spec fn intersects_spec(
    m: Mat4,
    tiles: Seq<u8>,
    size: int,
    x: int,
    y: int,
    w: int,
) -> bool {
    let hw = fxm(w, 5000);
    let cy = y - 5000;
    let ox = tp_x(m, x - hw, cy, 0);
    let oy = tp_y(m, x - hw, cy, 0);
    let oz = tp_z(m, x - hw, cy, 0);
    let ex = tp_x(m, x + hw, cy, 0);
    let ey = tp_y(m, x + hw, cy, 0);
    let ez = tp_z(m, x + hw, cy, 0);
    march(tiles, size, ox, oy, oz, ex - ox, ey - oy, ez - oz, 0)
}

/// New vertical velocity after `dt` of gravity: lowered by `30 * dt`, floored
/// at the terminal velocity.
pub open spec fn gravity_vel(vel: int, dt: int) -> int {
    let v = vel - fxm(dt, GRAVITY as int);
    if v < VEL_MIN as int {
        VEL_MIN as int
    } else {
        v
    }
}

/// The snap-up resolution: while the player intersects the terrain (and fuel
/// remains), the vertical position moves to the next half-open step
/// `floor(y - 0.5) + 1.5`; reports the final position and whether any snap
/// happened.
pub open spec fn snap_y(
    m: Mat4,
    tiles: Seq<u8>,
    size: int,
    x: int,
    w: int,
    y: int,
    fuel: nat,
) -> (int, bool)
    decreases fuel,
{
    if fuel == 0 {
        (y, false)
    } else if intersects_spec(m, tiles, size, x, y, w) {
        let y2 = ((y - 5000) / (FX_ONE as int)) * (FX_ONE as int) + 15000;
        let rec = snap_y(m, tiles, size, x, w, y2, (fuel - 1) as nat);
        (rec.0, true)
    } else {
        (y, false)
    }
}

/// The player: plane-local position, vertical velocity, on-floor flag and
/// fixed half-width.
pub struct Player {
    pub x: i64,
    pub y: i64,
    pub vel_y: i64,
    pub on_floor: bool,
    pub width: i64,
}

impl Player {
    /// Coordinates and velocity within the operating range of the physics.
    pub open spec fn ok(self) -> bool {
        &&& iabs(self.x as int) <= PLAYER_COORD_MAX as int
        &&& iabs(self.y as int) <= PLAYER_COORD_MAX as int
        &&& VEL_MIN as int <= self.vel_y as int <= JUMP_VEL as int
        &&& 0 <= self.width <= PLAYER_COORD_MAX
    }

    /// A player at the origin, half a unit up, at rest, half a unit wide.
    pub fn new() -> (p: Player)
        ensures
            p.x == 0,
            p.y == 5000,
            p.vel_y == 0,
            p.on_floor == false,
            p.width == 5000,
            p.ok(),
    {
        Player { x: 0, y: 5000, vel_y: 0, on_floor: false, width: 5000 }
    }

    /// Whether the player's bottom edge, taken through the plane's pose,
    /// crosses a solid voxel.
    pub fn intersect(&self, plane: &Plane, terrain: &Terrain) -> (r: bool)
        requires
            pose_ok(plane.transform),
            terrain.wf(),
            iabs(self.x as int) <= 90_000_000,
            iabs(self.y as int) <= 90_000_000,
            0 <= self.width <= PLAYER_COORD_MAX,
        ensures
            r == intersects_spec(
                plane.transform,
                terrain.tiles_view(),
                terrain.spec_size(),
                self.x as int,
                self.y as int,
                self.width as int,
            ),
    {
        let hw = fx_mul(self.width, 5000);
        proof {
            lemma_fxm_bound(self.width as int, 5000, PLAYER_COORD_MAX as int, 5000);
        }
        let cy = self.y - 5000;
        let x1 = self.x - hw;
        let x2 = self.x + hw;
        let o = transform_point(&plane.transform, x1, cy, 0);
        let e = transform_point(&plane.transform, x2, cy, 0);
        march_exec(terrain, o.0, o.1, o.2, e.0 - o.0, e.1 - o.1, e.2 - o.2)
    }

    /// One physics step: gravity integration (velocity lowered by `30 * dt`,
    /// floored at the terminal velocity; position moved by `vel * dt`; the
    /// on-floor flag cleared whenever `dt` is nonzero), then snap-up
    /// resolution while the player intersects the terrain, which sets the
    /// on-floor flag and zeroes the velocity.
    pub fn update(&mut self, dt: i64, plane: &Plane, terrain: &Terrain)
        requires
            0 <= dt <= DT_MAX,
            pose_ok(plane.transform),
            terrain.wf(),
            old(self).ok(),
        ensures
            final(self).x == old(self).x,
            final(self).width == old(self).width,
            ({
                let v1 = gravity_vel(old(self).vel_y as int, dt as int);
                let y1 = old(self).y + fxm(dt as int, v1);
                let res = snap_y(
                    plane.transform,
                    terrain.tiles_view(),
                    terrain.spec_size(),
                    old(self).x as int,
                    old(self).width as int,
                    y1,
                    SNAP_CAP as nat,
                );
                &&& final(self).y == res.0
                &&& final(self).vel_y == (if res.1 {
                    0
                } else {
                    v1
                })
                &&& final(self).on_floor == (if res.1 {
                    true
                } else if dt != 0 {
                    false
                } else {
                    old(self).on_floor
                })
            }),
    {
        let g = fx_mul(dt, GRAVITY);
        proof {
            lemma_fxm_bound(dt as int, GRAVITY as int, DT_MAX as int, GRAVITY as int);
        }
        let mut v1 = self.vel_y - g;
        if v1 < VEL_MIN {
            v1 = VEL_MIN;
        }
        self.vel_y = v1;
        let dy = fx_mul(dt, v1);
        proof {
            lemma_fxm_bound(dt as int, v1 as int, DT_MAX as int, GRAVITY as int);
        }
        self.y = self.y + dy;
        if dt != 0 {
            self.on_floor = false;
        }
        let ghost m = plane.transform;
        let ghost tiles = terrain.tiles_view();
        let ghost size = terrain.spec_size();
        let ghost y1 = self.y as int;
        let ghost floor0 = self.on_floor;
        let mut n: usize = 0;
        let mut snapped = false;
        while n < SNAP_CAP && self.intersect(plane, terrain)
            invariant
                pose_ok(m),
                m == plane.transform,
                tiles == terrain.tiles_view(),
                size == terrain.spec_size(),
                terrain.wf(),
                n <= SNAP_CAP,
                self.x == old(self).x,
                self.width == old(self).width,
                self.vel_y == v1,
                self.on_floor == floor0,
                iabs(self.x as int) <= PLAYER_COORD_MAX as int,
                0 <= self.width <= PLAYER_COORD_MAX,
                iabs(self.y as int) <= 40_000_000 + n * 10_000,
                snap_y(m, tiles, size, self.x as int, self.width as int, y1, SNAP_CAP as nat).0
                    == snap_y(
                    m,
                    tiles,
                    size,
                    self.x as int,
                    self.width as int,
                    self.y as int,
                    (SNAP_CAP - n) as nat,
                ).0,
                snap_y(m, tiles, size, self.x as int, self.width as int, y1, SNAP_CAP as nat).1
                    == (snapped || snap_y(
                    m,
                    tiles,
                    size,
                    self.x as int,
                    self.width as int,
                    self.y as int,
                    (SNAP_CAP - n) as nat,
                ).1),
            decreases SNAP_CAP - n,
        {
            let ghost y_old = self.y as int;
            let f = fx_floor(self.y - 5000);
            proof {
                assert(iabs(f as int) <= 5001 + (40_000_000int + 1000 * 10_000) / 10000) by (
                nonlinear_arith)
                    requires
                        f as int == ((self.y as int) - 5000) / 10000,
                        iabs(self.y as int) <= 40_000_000 + 1000 * 10_000,
                ;
            }
            self.y = f * FX_ONE + 15000;
            snapped = true;
            proof {
                assert(self.y as int == ((y_old - 5000) / (FX_ONE as int)) * (FX_ONE as int)
                    + 15000);
                assert(iabs(self.y as int) <= 40_000_000 + (n + 1) * 10_000) by (nonlinear_arith)
                    requires
                        self.y as int == ((y_old - 5000) / 10000int) * 10000 + 15000,
                        iabs(y_old) <= 40_000_000 + n * 10_000,
                        n < 1000,
                ;
            }
            n = n + 1;
        }
        if snapped {
            self.on_floor = true;
            self.vel_y = 0;
        }
    }

    /// Walks horizontally by `3.5 * dt` (toward negative x when `sign` holds,
    /// matching the screen direction of the keys); the move is fully reverted
    /// if it would intersect the terrain.
    pub fn walk(&mut self, plane: &Plane, terrain: &Terrain, dt: i64, sign: bool)
        requires
            0 <= dt <= DT_MAX,
            pose_ok(plane.transform),
            terrain.wf(),
            old(self).ok(),
        ensures
            final(self).y == old(self).y,
            final(self).vel_y == old(self).vel_y,
            final(self).on_floor == old(self).on_floor,
            final(self).width == old(self).width,
            ({
                let d = if sign {
                    fxm(dt as int, WALK_SPEED as int)
                } else {
                    -fxm(dt as int, WALK_SPEED as int)
                };
                final(self).x == (if intersects_spec(
                    plane.transform,
                    terrain.tiles_view(),
                    terrain.spec_size(),
                    old(self).x - d,
                    old(self).y as int,
                    old(self).width as int,
                ) {
                    old(self).x
                } else {
                    (old(self).x - d) as i64
                })
            }),
    {
        let step = fx_mul(dt, WALK_SPEED);
        proof {
            lemma_fxm_bound(dt as int, WALK_SPEED as int, DT_MAX as int, WALK_SPEED as int);
        }
        let d = if sign {
            step
        } else {
            -step
        };
        self.x = self.x - d;
        if self.intersect(plane, terrain) {
            self.x = self.x + d;
        }
    }

    /// Jumping grants upward velocity, but only from the floor.
    pub fn jump(&mut self)
        ensures
            final(self).x == old(self).x,
            final(self).y == old(self).y,
            final(self).width == old(self).width,
            final(self).on_floor == old(self).on_floor,
            final(self).vel_y == (if old(self).on_floor {
                JUMP_VEL as i64
            } else {
                old(self).vel_y
            }),
    {
        if self.on_floor {
            self.vel_y = JUMP_VEL;
        }
    }
}

/// Parametric distance to the next whole-unit boundary along one axis.
fn axis_step(p: i64, d: i64) -> (r: i64)
    requires
        -20_000_000_000_000 <= p <= 20_000_000_000_000,
    ensures
        r as int == axis_dt(p as int, d as int),
        iabs(r as int) <= 100_000_000,
{
    if d > 0 {
        let fm = fx_fract(p);
        let r = fx_div(FX_ONE - fm, d);
        proof {
            assert(iabs(r as int) == iabs(((FX_ONE - fm) as int) * (FX_ONE as int)) / iabs(d as int));
            assert(iabs(((FX_ONE - fm) as int) * (FX_ONE as int)) / iabs(d as int) <= 100_000_000)
                by (nonlinear_arith)
                requires
                    0 <= (FX_ONE - fm) as int <= 10000,
                    iabs(d as int) >= 1,
                    FX_ONE as int == 10000,
            ;
        }
        r
    } else if d < 0 {
        let fm = fx_fract(p);
        let r = fx_div(0 - fm, d);
        proof {
            assert(iabs(r as int) == iabs(((0 - fm) as int) * (FX_ONE as int)) / iabs(d as int));
            assert(iabs(((0 - fm) as int) * (FX_ONE as int)) / iabs(d as int) <= 100_000_000) by (
            nonlinear_arith)
                requires
                    -10000 <= (0 - fm) as int <= 0,
                    iabs(d as int) >= 1,
                    FX_ONE as int == 10000,
            ;
        }
        r
    } else {
        INF_STEP
    }
}

/// Runs the voxel ray-march from the world-space origin along the direction.
fn march_exec(terrain: &Terrain, ox: i64, oy: i64, oz: i64, dx: i64, dy: i64, dz: i64) -> (r: bool)
    requires
        terrain.wf(),
        iabs(ox as int) <= 5_000_000_000_000,
        iabs(oy as int) <= 5_000_000_000_000,
        iabs(oz as int) <= 5_000_000_000_000,
        iabs(dx as int) <= 10_000_000_000_000,
        iabs(dy as int) <= 10_000_000_000_000,
        iabs(dz as int) <= 10_000_000_000_000,
    ensures
        r == march(
            terrain.tiles_view(),
            terrain.spec_size(),
            ox as int,
            oy as int,
            oz as int,
            dx as int,
            dy as int,
            dz as int,
            0,
        ),
{
    let ghost tiles = terrain.tiles_view();
    let ghost size = terrain.spec_size();
    let mut t: i64 = 0;
    while t <= T_LIMIT
        invariant
            terrain.wf(),
            tiles == terrain.tiles_view(),
            size == terrain.spec_size(),
            iabs(ox as int) <= 5_000_000_000_000,
            iabs(oy as int) <= 5_000_000_000_000,
            iabs(oz as int) <= 5_000_000_000_000,
            iabs(dx as int) <= 10_000_000_000_000,
            iabs(dy as int) <= 10_000_000_000_000,
            iabs(dz as int) <= 10_000_000_000_000,
            0 <= t <= (T_LIMIT as int) + 1,
            march(tiles, size, ox as int, oy as int, oz as int, dx as int, dy as int, dz as int, 0)
                == march(
                tiles,
                size,
                ox as int,
                oy as int,
                oz as int,
                dx as int,
                dy as int,
                dz as int,
                t as int,
            ),
        decreases (T_LIMIT as int) + 1 - t,
    {
        let mx = fx_mul(dx, t);
        let my = fx_mul(dy, t);
        let mz = fx_mul(dz, t);
        proof {
            lemma_fxm_bound(dx as int, t as int, 10_000_000_000_000, T_LIMIT as int);
            lemma_fxm_bound(dy as int, t as int, 10_000_000_000_000, T_LIMIT as int);
            lemma_fxm_bound(dz as int, t as int, 10_000_000_000_000, T_LIMIT as int);
        }
        let px = ox + mx;
        let py = oy + my;
        let pz = oz + mz;
        let cx = fx_floor(px);
        let cy = fx_floor(py);
        let cz = fx_floor(pz);
        proof {
            assert(iabs(cx as int) <= 2_000_000_000 && iabs(cy as int) <= 2_000_000_000 && iabs(
                cz as int,
            ) <= 2_000_000_000) by (nonlinear_arith)
                requires
                    cx as int == (px as int) / 10000int,
                    cy as int == (py as int) / 10000int,
                    cz as int == (pz as int) / 10000int,
                    iabs(px as int) <= 16_000_000_000_000,
                    iabs(py as int) <= 16_000_000_000_000,
                    iabs(pz as int) <= 16_000_000_000_000,
            ;
        }
        let v = terrain.occ(cx as isize, cy as isize, cz as isize);
        if v != 0 {
            proof {
                assert(march(tiles, size, ox as int, oy as int, oz as int, dx as int, dy as int,
                    dz as int, t as int));
            }
            return true;
        }
        let sx = axis_step(px, dx);
        let sy = axis_step(py, dy);
        let sz = axis_step(pz, dz);
        let mut step = sx;
        if sy < step {
            step = sy;
        }
        if sz < step {
            step = sz;
        }
        if step < 0 {
            step = 0;
        }
        proof {
            assert(step as int == march_step(px as int, py as int, pz as int, dx as int, dy as int,
                dz as int));
            let next0 = t as int + step as int + 1;
            let next = if next0 > (T_LIMIT as int) + 1 {
                (T_LIMIT as int) + 1
            } else {
                next0
            };
            assert(march(tiles, size, ox as int, oy as int, oz as int, dx as int, dy as int,
                dz as int, t as int) == march(tiles, size, ox as int, oy as int, oz as int,
                dx as int, dy as int, dz as int, next));
        }
        let next = t + step + 1;
        t = if next > T_LIMIT + 1 {
            T_LIMIT + 1
        } else {
            next
        };
    }
    proof {
        assert(!march(tiles, size, ox as int, oy as int, oz as int, dx as int, dy as int, dz as int,
            t as int));
    }
    false
}

/// Over a grid with no solid voxel the march never reports a hit, from any
/// parameter and for any segment.
pub proof fn lemma_march_empty(
    tiles: Seq<u8>,
    size: int,
    ox: int,
    oy: int,
    oz: int,
    dx: int,
    dy: int,
    dz: int,
    t: int,
)
    requires
        forall|x: int, y: int, z: int| #[trigger] cell_of(tiles, size, x, y, z) == 0,
        0 <= t <= (T_LIMIT as int) + 1,
    ensures
        !march(tiles, size, ox, oy, oz, dx, dy, dz, t),
    decreases (T_LIMIT as int) + 1 - t,
{
    if t > T_LIMIT as int {
    } else {
        let px = ox + fxm(dx, t);
        let py = oy + fxm(dy, t);
        let pz = oz + fxm(dz, t);
        assert(cell_of(tiles, size, px / (FX_ONE as int), py / (FX_ONE as int), pz / (
        FX_ONE as int)) == 0);
        let next0 = t + march_step(px, py, pz, dx, dy, dz) + 1;
        let next = if next0 > (T_LIMIT as int) + 1 {
            (T_LIMIT as int) + 1
        } else {
            next0
        };
        lemma_march_empty(tiles, size, ox, oy, oz, dx, dy, dz, next);
    }
}

/// Over a grid with no solid voxel the intersection test reports no hit for
/// any pose and any player placement.
pub proof fn lemma_intersects_empty(m: Mat4, tiles: Seq<u8>, size: int, x: int, y: int, w: int)
    requires
        forall|cx: int, cy: int, cz: int| #[trigger] cell_of(tiles, size, cx, cy, cz) == 0,
    ensures
        !intersects_spec(m, tiles, size, x, y, w),
{
    let hw = fxm(w, 5000);
    let cy = y - 5000;
    let ox = tp_x(m, x - hw, cy, 0);
    let oy = tp_y(m, x - hw, cy, 0);
    let oz = tp_z(m, x - hw, cy, 0);
    let ex = tp_x(m, x + hw, cy, 0);
    let ey = tp_y(m, x + hw, cy, 0);
    let ez = tp_z(m, x + hw, cy, 0);
    lemma_march_empty(tiles, size, ox, oy, oz, ex - ox, ey - oy, ez - oz, 0);
}

/// A march whose origin already lies in a solid voxel reports a hit
/// immediately, at parameter zero.
pub proof fn lemma_march_starts_inside(
    tiles: Seq<u8>,
    size: int,
    ox: int,
    oy: int,
    oz: int,
    dx: int,
    dy: int,
    dz: int,
)
    requires
        cell_of(
            tiles,
            size,
            ox / (FX_ONE as int),
            oy / (FX_ONE as int),
            oz / (FX_ONE as int),
        ) != 0,
    ensures
        march(tiles, size, ox, oy, oz, dx, dy, dz, 0),
{
    lemma_fxm_zero(dx);
    lemma_fxm_zero(dy);
    lemma_fxm_zero(dz);
}

/// An intersection test whose first transformed corner already lies in a
/// solid voxel reports a hit immediately.
pub proof fn lemma_intersects_starts_inside(
    m: Mat4,
    tiles: Seq<u8>,
    size: int,
    x: int,
    y: int,
    w: int,
)
    requires
        ({
            let hw = fxm(w, 5000);
            let cy = y - 5000;
            cell_of(
                tiles,
                size,
                tp_x(m, x - hw, cy, 0) / (FX_ONE as int),
                tp_y(m, x - hw, cy, 0) / (FX_ONE as int),
                tp_z(m, x - hw, cy, 0) / (FX_ONE as int),
            ) != 0
        }),
    ensures
        intersects_spec(m, tiles, size, x, y, w),
{
    let hw = fxm(w, 5000);
    let cy = y - 5000;
    let ox = tp_x(m, x - hw, cy, 0);
    let oy = tp_y(m, x - hw, cy, 0);
    let oz = tp_z(m, x - hw, cy, 0);
    let ex = tp_x(m, x + hw, cy, 0);
    let ey = tp_y(m, x + hw, cy, 0);
    let ez = tp_z(m, x + hw, cy, 0);
    lemma_march_starts_inside(tiles, size, ox, oy, oz, ex - ox, ey - oy, ez - oz);
}

} // verus!
