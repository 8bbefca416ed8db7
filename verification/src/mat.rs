//! Fixed-point homogeneous transforms.
//!
//! A pose is a 4x4 matrix of fixed-point values stored column-major, composed
//! on the right from pure translations and rotations about the local y axis.
//! Because products truncate toward zero symmetrically, translating by `d` and
//! then by `-d` restores the pose exactly.

use vstd::prelude::*;

use crate::fixed::fx_mul;
use crate::fixed::fxm;
use crate::fixed::iabs;
use crate::fixed::lemma_fxm_neg_right;
use crate::fixed::FX_ONE;
use crate::fixed::TRIG_BOUND;

verus! {

/// Largest magnitude of a linear (rotation) entry a pose operation accepts.
pub const LIN_BOUND: i64 = 100_000_000;

/// Largest magnitude of a translation entry a pose operation accepts.
pub const TR_BOUND: i64 = 2_000_000_000_000;

/// A column of four fixed-point values.
#[derive(Clone, Copy, PartialEq, Eq, Structural, Debug)]
pub struct Vec4 {
    pub x: i64,
    pub y: i64,
    pub z: i64,
    pub w: i64,
}

/// A 4x4 fixed-point matrix, stored as four columns.
#[derive(Clone, Copy, PartialEq, Eq, Structural, Debug)]
pub struct Mat4 {
    pub c0: Vec4,
    pub c1: Vec4,
    pub c2: Vec4,
    pub c3: Vec4,
}

/// The matrix is an affine transform: its bottom row is exactly `(0,0,0,1)`.
pub open spec fn affine_ok(m: Mat4) -> bool {
    m.c0.w == 0 && m.c1.w == 0 && m.c2.w == 0 && m.c3.w == FX_ONE
}

/// The linear (rotation) entries are within operating range.
pub open spec fn lin_ok(m: Mat4) -> bool {
    &&& iabs(m.c0.x as int) <= LIN_BOUND as int
    &&& iabs(m.c0.y as int) <= LIN_BOUND as int
    &&& iabs(m.c0.z as int) <= LIN_BOUND as int
    &&& iabs(m.c1.x as int) <= LIN_BOUND as int
    &&& iabs(m.c1.y as int) <= LIN_BOUND as int
    &&& iabs(m.c1.z as int) <= LIN_BOUND as int
    &&& iabs(m.c2.x as int) <= LIN_BOUND as int
    &&& iabs(m.c2.y as int) <= LIN_BOUND as int
    &&& iabs(m.c2.z as int) <= LIN_BOUND as int
}

/// The translation entries are within operating range.
pub open spec fn tr_ok(m: Mat4) -> bool {
    &&& iabs(m.c3.x as int) <= TR_BOUND as int
    &&& iabs(m.c3.y as int) <= TR_BOUND as int
    &&& iabs(m.c3.z as int) <= TR_BOUND as int
}

/// A pose the transform operations accept: affine, with bounded entries.
pub open spec fn pose_ok(m: Mat4) -> bool {
    affine_ok(m) && lin_ok(m) && tr_ok(m)
}

/// The identity pose.
pub open spec fn identity_mat() -> Mat4 {
    Mat4 {
        c0: Vec4 { x: FX_ONE, y: 0, z: 0, w: 0 },
        c1: Vec4 { x: 0, y: FX_ONE, z: 0, w: 0 },
        c2: Vec4 { x: 0, y: 0, z: FX_ONE, w: 0 },
        c3: Vec4 { x: 0, y: 0, z: 0, w: FX_ONE },
    }
}

/// The product of an affine pose with the pure translation by `(dx, dy, dz)`:
/// the rotation columns are unchanged and the translation column grows by the
/// rotated offset.
pub open spec fn translate_spec(m: Mat4, dx: int, dy: int, dz: int) -> Mat4 {
    Mat4 {
        c0: m.c0,
        c1: m.c1,
        c2: m.c2,
        c3: Vec4 {
            x: (m.c3.x + fxm(m.c0.x as int, dx) + fxm(m.c1.x as int, dy) + fxm(
                m.c2.x as int,
                dz,
            )) as i64,
            y: (m.c3.y + fxm(m.c0.y as int, dx) + fxm(m.c1.y as int, dy) + fxm(
                m.c2.y as int,
                dz,
            )) as i64,
            z: (m.c3.z + fxm(m.c0.z as int, dx) + fxm(m.c1.z as int, dy) + fxm(
                m.c2.z as int,
                dz,
            )) as i64,
            w: m.c3.w,
        },
    }
}

/// The product of an affine pose with the rotation by the angle whose cosine
/// and sine are `c` and `s` about the local y axis: the first and third
/// columns mix, the rest is unchanged.
pub open spec fn rotate_y_spec(m: Mat4, c: int, s: int) -> Mat4 {
    Mat4 {
        c0: Vec4 {
            x: (fxm(c, m.c0.x as int) - fxm(s, m.c2.x as int)) as i64,
            y: (fxm(c, m.c0.y as int) - fxm(s, m.c2.y as int)) as i64,
            z: (fxm(c, m.c0.z as int) - fxm(s, m.c2.z as int)) as i64,
            w: 0,
        },
        c1: m.c1,
        c2: Vec4 {
            x: (fxm(s, m.c0.x as int) + fxm(c, m.c2.x as int)) as i64,
            y: (fxm(s, m.c0.y as int) + fxm(c, m.c2.y as int)) as i64,
            z: (fxm(s, m.c0.z as int) + fxm(c, m.c2.z as int)) as i64,
            w: 0,
        },
        c3: m.c3,
    }
}

/// World-space x component of the affine image of the point `(x, y, z)`.
pub open spec fn tp_x(m: Mat4, x: int, y: int, z: int) -> int {
    fxm(m.c0.x as int, x) + fxm(m.c1.x as int, y) + fxm(m.c2.x as int, z) + m.c3.x
}

/// World-space y component of the affine image of the point `(x, y, z)`.
pub open spec fn tp_y(m: Mat4, x: int, y: int, z: int) -> int {
    fxm(m.c0.y as int, x) + fxm(m.c1.y as int, y) + fxm(m.c2.y as int, z) + m.c3.y
}

/// World-space z component of the affine image of the point `(x, y, z)`.
pub open spec fn tp_z(m: Mat4, x: int, y: int, z: int) -> int {
    fxm(m.c0.z as int, x) + fxm(m.c1.z as int, y) + fxm(m.c2.z as int, z) + m.c3.z
}

impl Mat4 {
    /// The identity pose.
    pub fn identity() -> (r: Mat4)
        ensures
            r == identity_mat(),
            pose_ok(r),
    {
        Mat4 {
            c0: Vec4 { x: FX_ONE, y: 0, z: 0, w: 0 },
            c1: Vec4 { x: 0, y: FX_ONE, z: 0, w: 0 },
            c2: Vec4 { x: 0, y: 0, z: FX_ONE, w: 0 },
            c3: Vec4 { x: 0, y: 0, z: 0, w: FX_ONE },
        }
    }

    /// Whether the pose is inside the operating bounds of all transform
    /// operations; callers that cannot establish it statically test it first.
    pub fn well_formed(&self) -> (r: bool)
        ensures
            r == pose_ok(*self),
    {
        self.c0.w == 0 && self.c1.w == 0 && self.c2.w == 0 && self.c3.w == FX_ONE && in_lin(
            self.c0.x,
        ) && in_lin(self.c0.y) && in_lin(self.c0.z) && in_lin(self.c1.x) && in_lin(self.c1.y)
            && in_lin(self.c1.z) && in_lin(self.c2.x) && in_lin(self.c2.y) && in_lin(self.c2.z)
            && in_tr(self.c3.x) && in_tr(self.c3.y) && in_tr(self.c3.z)
    }
}

/// Whether a value is within the linear-entry operating bound.
fn in_lin(v: i64) -> (r: bool)
    ensures
        r == (iabs(v as int) <= LIN_BOUND as int),
{
    -LIN_BOUND <= v && v <= LIN_BOUND
}

/// Whether a value is within the translation-entry operating bound.
fn in_tr(v: i64) -> (r: bool)
    ensures
        r == (iabs(v as int) <= TR_BOUND as int),
{
    -TR_BOUND <= v && v <= TR_BOUND
}

/// Right-multiplies the pose by a pure translation.
pub fn mul_translate(m: &Mat4, dx: i64, dy: i64, dz: i64) -> (r: Mat4)
    requires
        affine_ok(*m),
        lin_ok(*m),
        tr_ok(*m),
        iabs(dx as int) <= LIN_BOUND as int,
        iabs(dy as int) <= LIN_BOUND as int,
        iabs(dz as int) <= LIN_BOUND as int,
    ensures
        r == translate_spec(*m, dx as int, dy as int, dz as int),
{
    proof {
        let lb = LIN_BOUND as int;
        crate::fixed::lemma_fxm_bound(m.c0.x as int, dx as int, lb, lb);
        crate::fixed::lemma_fxm_bound(m.c1.x as int, dy as int, lb, lb);
        crate::fixed::lemma_fxm_bound(m.c2.x as int, dz as int, lb, lb);
        crate::fixed::lemma_fxm_bound(m.c0.y as int, dx as int, lb, lb);
        crate::fixed::lemma_fxm_bound(m.c1.y as int, dy as int, lb, lb);
        crate::fixed::lemma_fxm_bound(m.c2.y as int, dz as int, lb, lb);
        crate::fixed::lemma_fxm_bound(m.c0.z as int, dx as int, lb, lb);
        crate::fixed::lemma_fxm_bound(m.c1.z as int, dy as int, lb, lb);
        crate::fixed::lemma_fxm_bound(m.c2.z as int, dz as int, lb, lb);
    }
    let tx = fx_mul(m.c0.x, dx) + fx_mul(m.c1.x, dy) + fx_mul(m.c2.x, dz);
    let ty = fx_mul(m.c0.y, dx) + fx_mul(m.c1.y, dy) + fx_mul(m.c2.y, dz);
    let tz = fx_mul(m.c0.z, dx) + fx_mul(m.c1.z, dy) + fx_mul(m.c2.z, dz);
    Mat4 {
        c0: m.c0,
        c1: m.c1,
        c2: m.c2,
        c3: Vec4 { x: m.c3.x + tx, y: m.c3.y + ty, z: m.c3.z + tz, w: m.c3.w },
    }
}

/// Right-multiplies the pose by a rotation about the local y axis, given the
/// fixed-point cosine and sine of the angle.
pub fn mul_rot_y(m: &Mat4, c: i64, s: i64) -> (r: Mat4)
    requires
        affine_ok(*m),
        lin_ok(*m),
        iabs(c as int) <= TRIG_BOUND as int,
        iabs(s as int) <= TRIG_BOUND as int,
    ensures
        r == rotate_y_spec(*m, c as int, s as int),
{
    proof {
        let tb = TRIG_BOUND as int;
        let lb = LIN_BOUND as int;
        crate::fixed::lemma_fxm_bound(c as int, m.c0.x as int, tb, lb);
        crate::fixed::lemma_fxm_bound(c as int, m.c0.y as int, tb, lb);
        crate::fixed::lemma_fxm_bound(c as int, m.c0.z as int, tb, lb);
        crate::fixed::lemma_fxm_bound(c as int, m.c2.x as int, tb, lb);
        crate::fixed::lemma_fxm_bound(c as int, m.c2.y as int, tb, lb);
        crate::fixed::lemma_fxm_bound(c as int, m.c2.z as int, tb, lb);
        crate::fixed::lemma_fxm_bound(s as int, m.c0.x as int, tb, lb);
        crate::fixed::lemma_fxm_bound(s as int, m.c0.y as int, tb, lb);
        crate::fixed::lemma_fxm_bound(s as int, m.c0.z as int, tb, lb);
        crate::fixed::lemma_fxm_bound(s as int, m.c2.x as int, tb, lb);
        crate::fixed::lemma_fxm_bound(s as int, m.c2.y as int, tb, lb);
        crate::fixed::lemma_fxm_bound(s as int, m.c2.z as int, tb, lb);
    }
    Mat4 {
        c0: Vec4 {
            x: fx_mul(c, m.c0.x) - fx_mul(s, m.c2.x),
            y: fx_mul(c, m.c0.y) - fx_mul(s, m.c2.y),
            z: fx_mul(c, m.c0.z) - fx_mul(s, m.c2.z),
            w: 0,
        },
        c1: m.c1,
        c2: Vec4 {
            x: fx_mul(s, m.c0.x) + fx_mul(c, m.c2.x),
            y: fx_mul(s, m.c0.y) + fx_mul(c, m.c2.y),
            z: fx_mul(s, m.c0.z) + fx_mul(c, m.c2.z),
            w: 0,
        },
        c3: m.c3,
    }
}

/// Transforms the point `(x, y, z)` (implicit homogeneous coordinate 1)
/// through the pose into world space.
pub fn transform_point(m: &Mat4, x: i64, y: i64, z: i64) -> (r: (i64, i64, i64))
    requires
        affine_ok(*m),
        lin_ok(*m),
        tr_ok(*m),
        iabs(x as int) <= LIN_BOUND as int,
        iabs(y as int) <= LIN_BOUND as int,
        iabs(z as int) <= LIN_BOUND as int,
    ensures
        r.0 as int == tp_x(*m, x as int, y as int, z as int),
        r.1 as int == tp_y(*m, x as int, y as int, z as int),
        r.2 as int == tp_z(*m, x as int, y as int, z as int),
        iabs(r.0 as int) <= 5_000_000_000_000,
        iabs(r.1 as int) <= 5_000_000_000_000,
        iabs(r.2 as int) <= 5_000_000_000_000,
{
    proof {
        let lb = LIN_BOUND as int;
        crate::fixed::lemma_fxm_bound(m.c0.x as int, x as int, lb, lb);
        crate::fixed::lemma_fxm_bound(m.c1.x as int, y as int, lb, lb);
        crate::fixed::lemma_fxm_bound(m.c2.x as int, z as int, lb, lb);
        crate::fixed::lemma_fxm_bound(m.c0.y as int, x as int, lb, lb);
        crate::fixed::lemma_fxm_bound(m.c1.y as int, y as int, lb, lb);
        crate::fixed::lemma_fxm_bound(m.c2.y as int, z as int, lb, lb);
        crate::fixed::lemma_fxm_bound(m.c0.z as int, x as int, lb, lb);
        crate::fixed::lemma_fxm_bound(m.c1.z as int, y as int, lb, lb);
        crate::fixed::lemma_fxm_bound(m.c2.z as int, z as int, lb, lb);
    }
    let rx = fx_mul(m.c0.x, x) + fx_mul(m.c1.x, y) + fx_mul(m.c2.x, z) + m.c3.x;
    let ry = fx_mul(m.c0.y, x) + fx_mul(m.c1.y, y) + fx_mul(m.c2.y, z) + m.c3.y;
    let rz = fx_mul(m.c0.z, x) + fx_mul(m.c1.z, y) + fx_mul(m.c2.z, z) + m.c3.z;
    (rx, ry, rz)
}

/// Translating a pose by an offset and then by its exact negation restores
/// the pose, entry for entry: the truncation of fixed-point products is
/// symmetric, so the rotated offsets cancel.
pub proof fn lemma_translate_round_trip(m: Mat4, dx: int, dy: int, dz: int)
    requires
        affine_ok(m),
        lin_ok(m),
        tr_ok(m),
        iabs(dx) <= LIN_BOUND as int,
        iabs(dy) <= LIN_BOUND as int,
        iabs(dz) <= LIN_BOUND as int,
    ensures
        translate_spec(translate_spec(m, dx, dy, dz), -dx, -dy, -dz) == m,
{
    lemma_fxm_neg_right(m.c0.x as int, dx);
    lemma_fxm_neg_right(m.c1.x as int, dy);
    lemma_fxm_neg_right(m.c2.x as int, dz);
    lemma_fxm_neg_right(m.c0.y as int, dx);
    lemma_fxm_neg_right(m.c1.y as int, dy);
    lemma_fxm_neg_right(m.c2.y as int, dz);
    lemma_fxm_neg_right(m.c0.z as int, dx);
    lemma_fxm_neg_right(m.c1.z as int, dy);
    lemma_fxm_neg_right(m.c2.z as int, dz);
    crate::fixed::lemma_fxm_bound(m.c0.x as int, dx, LIN_BOUND as int, LIN_BOUND as int);
    crate::fixed::lemma_fxm_bound(m.c1.x as int, dy, LIN_BOUND as int, LIN_BOUND as int);
    crate::fixed::lemma_fxm_bound(m.c2.x as int, dz, LIN_BOUND as int, LIN_BOUND as int);
    crate::fixed::lemma_fxm_bound(m.c0.y as int, dx, LIN_BOUND as int, LIN_BOUND as int);
    crate::fixed::lemma_fxm_bound(m.c1.y as int, dy, LIN_BOUND as int, LIN_BOUND as int);
    crate::fixed::lemma_fxm_bound(m.c2.y as int, dz, LIN_BOUND as int, LIN_BOUND as int);
    crate::fixed::lemma_fxm_bound(m.c0.z as int, dx, LIN_BOUND as int, LIN_BOUND as int);
    crate::fixed::lemma_fxm_bound(m.c1.z as int, dy, LIN_BOUND as int, LIN_BOUND as int);
    crate::fixed::lemma_fxm_bound(m.c2.z as int, dz, LIN_BOUND as int, LIN_BOUND as int);
}

} // verus!
