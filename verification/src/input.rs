//! Input decoding and the control-mode state machine.
//!
//! The frame driver polls a held-keys snapshot each tick and feeds it through
//! `decode`, which turns it into the frame's commands; a modifier-plus-key
//! release toggles between free-look (the keys move the cutting plane) and
//! player control (the keys move the player).

use vstd::prelude::*;

verus! {

/// The two control modes.
#[derive(Clone, Copy, PartialEq, Eq, Structural, Debug)]
pub enum Mode {
    /// Movement keys strafe the cutting plane.
    FreeLook,
    /// Movement keys walk the player; the plane stands still.
    PlayerControl,
}

/// The other control mode.
pub open spec fn flipped(m: Mode) -> Mode {
    match m {
        Mode::FreeLook => Mode::PlayerControl,
        Mode::PlayerControl => Mode::FreeLook,
    }
}

/// The keys the frame driver polls, as one held-state snapshot.
#[derive(Clone, Copy, PartialEq, Eq, Structural, Debug)]
pub struct HeldKeys {
    pub forward: bool,
    pub back: bool,
    pub left: bool,
    pub right: bool,
    pub jump: bool,
    pub rotate_ccw: bool,
    pub rotate_cw: bool,
    pub escape: bool,
}

/// The commands one frame performs, in the order the driver applies them.
#[derive(Clone, Copy, PartialEq, Eq, Structural, Debug)]
pub struct FrameActions {
    pub exit: bool,
    pub strafe_x_pos: bool,
    pub strafe_x_neg: bool,
    pub walk_pos: bool,
    pub walk_neg: bool,
    pub strafe_z_pos: bool,
    pub strafe_z_neg: bool,
    pub jump: bool,
    pub rotate_pos: bool,
    pub rotate_neg: bool,
}

/// The mode after one key event: any key released while the modifier is held
/// toggles the mode, edge-triggered; everything else leaves it alone.
pub fn mode_after_key_event(mode: Mode, modifier_held: bool, released: bool) -> (r: Mode)
    ensures
        r == (if modifier_held && released {
            flipped(mode)
        } else {
            mode
        }),
{
    if modifier_held && released {
        match mode {
            Mode::FreeLook => Mode::PlayerControl,
            Mode::PlayerControl => Mode::FreeLook,
        }
    } else {
        mode
    }
}

/// Decodes a held-keys snapshot under the current mode into the frame's
/// commands: in free-look the movement keys strafe the plane, in player
/// control the side keys walk the player and jumping is enabled; rotation and
/// exit work in both modes.
pub fn decode(mode: Mode, keys: &HeldKeys) -> (r: FrameActions)
    ensures
        r.exit == keys.escape,
        r.strafe_x_pos == (keys.forward && mode == Mode::FreeLook),
        r.strafe_x_neg == (keys.back && mode == Mode::FreeLook),
        r.walk_pos == (keys.left && mode == Mode::PlayerControl),
        r.walk_neg == (keys.right && mode == Mode::PlayerControl),
        r.strafe_z_pos == (keys.left && mode == Mode::FreeLook),
        r.strafe_z_neg == (keys.right && mode == Mode::FreeLook),
        r.jump == (keys.jump && mode == Mode::PlayerControl),
        r.rotate_pos == keys.rotate_ccw,
        r.rotate_neg == keys.rotate_cw,
{
    let free = match mode {
        Mode::FreeLook => true,
        Mode::PlayerControl => false,
    };
    FrameActions {
        exit: keys.escape,
        strafe_x_pos: keys.forward && free,
        strafe_x_neg: keys.back && free,
        walk_pos: keys.left && !free,
        walk_neg: keys.right && !free,
        strafe_z_pos: keys.left && free,
        strafe_z_neg: keys.right && free,
        jump: keys.jump && !free,
        rotate_pos: keys.rotate_ccw,
        rotate_neg: keys.rotate_cw,
    }
}

} // verus!
