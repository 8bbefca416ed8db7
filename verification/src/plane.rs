//! The movable cutting plane.
//!
//! A `Plane` owns one pose matrix: translation and rotation composed by
//! right-multiplication. Strafing moves it along its local x or z axis at 5
//! world units per second; rotating turns it about its local y axis at an
//! eighth of a turn per second.

use vstd::prelude::*;

use crate::fixed::cos_fx;
use crate::fixed::fx_cos;
use crate::fixed::fx_mul;
use crate::fixed::fx_sin;
use crate::fixed::fxm;
use crate::fixed::lemma_fxm_bound;
use crate::fixed::sin_fx;
use crate::fixed::FX_ONE;
use crate::mat::identity_mat;
use crate::mat::mul_rot_y;
use crate::mat::mul_translate;
use crate::mat::pose_ok;
use crate::mat::rotate_y_spec;
use crate::mat::translate_spec;
use crate::mat::Mat4;

verus! {

/// Strafe speed: five world units per second.
pub const STRAFE_SPEED: i64 = 50000;

/// Rotation speed: a quarter of pi radians per second, in fixed-point form.
pub const FRAC_PI_4: i64 = 7854;

/// Fixed-point cosine (and sine) of an eighth of a turn: half the square root
/// of two.
pub const SQRT2_HALF: i64 = 7071;

/// Largest frame time step (in fixed-point seconds) the plane mutators
/// accept; beyond it the fixed-point evaluation would leave its safe range.
pub const DT_MAX: i64 = 1_000_000;

/// The signed strafe offset for one time step.
pub open spec fn strafe_delta(dt: int, sign: bool) -> int {
    if sign {
        fxm(dt, STRAFE_SPEED as int)
    } else {
        -fxm(dt, STRAFE_SPEED as int)
    }
}

/// The signed rotation angle for one time step.
pub open spec fn rotate_angle(dt: int, sign: bool) -> int {
    if sign {
        fxm(dt, FRAC_PI_4 as int)
    } else {
        -fxm(dt, FRAC_PI_4 as int)
    }
}

/// The pose the plane starts from: the identity, turned half a turn about y,
/// translated to `(-size/2, size/2, -size/2)`, then turned an eighth of a
/// turn about y, so that the plane cuts the terrain's center diagonally.
pub open spec fn initial_pose(size: int) -> Mat4 {
    let flipped = rotate_y_spec(identity_mat(), -(FX_ONE as int), 0);
    let centered = translate_spec(flipped, -size * 5000, size * 5000, -size * 5000);
    rotate_y_spec(centered, SQRT2_HALF as int, SQRT2_HALF as int)
}

/// The movable cutting plane: one pose matrix.
pub struct Plane {
    pub transform: Mat4,
}

impl Plane {
    /// A plane positioned diagonally through the center of a terrain block of
    /// the given edge length.
    pub fn new(size: usize) -> (p: Plane)
        requires
            size <= 1024,
        ensures
            p.transform == initial_pose(size as int),
            pose_ok(p.transform),
    {
        let m = Mat4::identity();
        let m = mul_rot_y(&m, -FX_ONE, 0);
        proof {
            crate::fixed::lemma_fxm_one(-(FX_ONE as int));
            crate::fixed::lemma_fxm_zero(FX_ONE as int);
            crate::fixed::lemma_fxm_zero(0);
        }
        let d = (size as i64) * 5000;
        let m = mul_translate(&m, -d, d, -d);
        proof {
            crate::fixed::lemma_fxm_one(-(size as int) * 5000);
            crate::fixed::lemma_fxm_one(size as int * 5000);
            crate::fixed::lemma_fxm_zero(-(size as int) * 5000);
            crate::fixed::lemma_fxm_zero(size as int * 5000);
            crate::fixed::lemma_fxm_neg_right(-(FX_ONE as int), -(size as int) * 5000);
            crate::fixed::lemma_fxm_neg_right(FX_ONE as int, size as int * 5000);
        }
        let m = mul_rot_y(&m, SQRT2_HALF, SQRT2_HALF);
        proof {
            lemma_fxm_bound(SQRT2_HALF as int, FX_ONE as int, 7071, 10000);
            lemma_fxm_bound(SQRT2_HALF as int, -(FX_ONE as int), 7071, 10000);
            lemma_fxm_bound(SQRT2_HALF as int, 0, 7071, 10000);
        }
        Plane { transform: m }
    }

    /// A plane with a caller-supplied pose.
    pub fn from_pose(m: Mat4) -> (p: Plane)
        ensures
            p.transform == m,
    {
        Plane { transform: m }
    }

    /// Translates the plane along its local x axis by `5 * dt` world units,
    /// toward positive x when `sign` holds.
    pub fn strafe_x(&mut self, dt: i64, sign: bool)
        requires
            pose_ok(old(self).transform),
            0 <= dt <= DT_MAX,
        ensures
            final(self).transform == translate_spec(
                old(self).transform,
                strafe_delta(dt as int, sign),
                0,
                0,
            ),
    {
        let step = fx_mul(dt, STRAFE_SPEED);
        proof {
            lemma_fxm_bound(dt as int, STRAFE_SPEED as int, DT_MAX as int, STRAFE_SPEED as int);
        }
        let d = if sign {
            step
        } else {
            -step
        };
        self.transform = mul_translate(&self.transform, d, 0, 0);
    }

    /// Translates the plane along its local z axis by `5 * dt` world units,
    /// toward positive z when `sign` holds.
    pub fn strafe_z(&mut self, dt: i64, sign: bool)
        requires
            pose_ok(old(self).transform),
            0 <= dt <= DT_MAX,
        ensures
            final(self).transform == translate_spec(
                old(self).transform,
                0,
                0,
                strafe_delta(dt as int, sign),
            ),
    {
        let step = fx_mul(dt, STRAFE_SPEED);
        proof {
            lemma_fxm_bound(dt as int, STRAFE_SPEED as int, DT_MAX as int, STRAFE_SPEED as int);
        }
        let d = if sign {
            step
        } else {
            -step
        };
        self.transform = mul_translate(&self.transform, 0, 0, d);
    }

    /// Rotates the plane about its local y axis by `pi/4 * dt` radians,
    /// counterclockwise when `sign` holds; the angle's cosine and sine are the
    /// fixed-point small-angle polynomials.
    pub fn rotate(&mut self, dt: i64, sign: bool)
        requires
            pose_ok(old(self).transform),
            0 <= dt <= DT_MAX,
        ensures
            final(self).transform == rotate_y_spec(
                old(self).transform,
                cos_fx(rotate_angle(dt as int, sign)),
                sin_fx(rotate_angle(dt as int, sign)),
            ),
    {
        let step = fx_mul(dt, FRAC_PI_4);
        proof {
            lemma_fxm_bound(dt as int, FRAC_PI_4 as int, DT_MAX as int, FRAC_PI_4 as int);
        }
        let a = if sign {
            step
        } else {
            -step
        };
        let c = fx_cos(a);
        let s = fx_sin(a);
        self.transform = mul_rot_y(&self.transform, c, s);
    }

    /// The current pose, returned as-is. A tilt-angle rescaling of the pose is
    /// deliberately left unapplied here: the unscaled pose is what every
    /// consumer receives.
    pub fn transform(&self) -> (r: Mat4)
        ensures
            r == self.transform,
    {
        self.transform
    }

    /// Whether the pose is inside the operating bounds of the mutators and of
    /// the intersection test.
    pub fn well_formed(&self) -> (r: bool)
        ensures
            r == pose_ok(self.transform),
    {
        self.transform.well_formed()
    }
}

/// Strafing by one time step and then by the same step in the opposite
/// direction restores the pose exactly, translation component included.
pub proof fn lemma_strafe_round_trip(m: Mat4, dt: int)
    requires
        pose_ok(m),
        0 <= dt <= DT_MAX as int,
    ensures
        translate_spec(
            translate_spec(m, strafe_delta(dt, true), 0, 0),
            strafe_delta(dt, false),
            0,
            0,
        ) == m,
{
    lemma_fxm_bound(dt, STRAFE_SPEED as int, DT_MAX as int, STRAFE_SPEED as int);
    crate::mat::lemma_translate_round_trip(m, strafe_delta(dt, true), 0, 0);
}

} // verus!
