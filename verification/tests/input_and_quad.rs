use xsection::input::{decode, mode_after_key_event, HeldKeys, Mode};
use xsection::utils::make_quad;

fn no_keys() -> HeldKeys {
    HeldKeys {
        forward: false,
        back: false,
        left: false,
        right: false,
        jump: false,
        rotate_ccw: false,
        rotate_cw: false,
        escape: false,
    }
}

#[test]
fn mode_toggles_on_release_with_the_modifier_held() {
    assert_eq!(mode_after_key_event(Mode::FreeLook, true, true), Mode::PlayerControl);
    assert_eq!(mode_after_key_event(Mode::PlayerControl, true, true), Mode::FreeLook);
    assert_eq!(mode_after_key_event(Mode::FreeLook, true, false), Mode::FreeLook);
    assert_eq!(mode_after_key_event(Mode::FreeLook, false, true), Mode::FreeLook);
    assert_eq!(mode_after_key_event(Mode::PlayerControl, false, false), Mode::PlayerControl);
}

#[test]
fn free_look_keys_drive_the_plane() {
    let mut keys = no_keys();
    keys.forward = true;
    keys.left = true;
    keys.rotate_ccw = true;
    let a = decode(Mode::FreeLook, &keys);
    assert!(a.strafe_x_pos);
    assert!(!a.strafe_x_neg);
    assert!(a.strafe_z_pos);
    assert!(!a.strafe_z_neg);
    assert!(!a.walk_pos);
    assert!(!a.walk_neg);
    assert!(!a.jump);
    assert!(a.rotate_pos);
    assert!(!a.rotate_neg);
    assert!(!a.exit);
}

#[test]
fn player_mode_keys_drive_the_player() {
    let mut keys = no_keys();
    keys.forward = true;
    keys.left = true;
    keys.right = true;
    keys.jump = true;
    keys.rotate_cw = true;
    let a = decode(Mode::PlayerControl, &keys);
    assert!(!a.strafe_x_pos);
    assert!(!a.strafe_z_pos);
    assert!(!a.strafe_z_neg);
    assert!(a.walk_pos);
    assert!(a.walk_neg);
    assert!(a.jump);
    assert!(a.rotate_neg);
}

#[test]
fn escape_requests_exit_in_both_modes() {
    let mut keys = no_keys();
    keys.escape = true;
    assert!(decode(Mode::FreeLook, &keys).exit);
    assert!(decode(Mode::PlayerControl, &keys).exit);
}

#[test]
fn the_unit_quad_has_four_corners_and_two_triangles() {
    let (vs, is) = make_quad();
    assert_eq!(vs.len(), 4);
    assert_eq!(is, vec![0, 1, 2, 0, 2, 3]);
    assert_eq!((vs[0].px, vs[0].py, vs[0].tu, vs[0].tv), (-1, 1, 0, 1));
    assert_eq!((vs[1].px, vs[1].py, vs[1].tu, vs[1].tv), (1, 1, 1, 1));
    assert_eq!((vs[2].px, vs[2].py, vs[2].tu, vs[2].tv), (1, -1, 1, 0));
    assert_eq!((vs[3].px, vs[3].py, vs[3].tu, vs[3].tv), (-1, -1, 0, 0));
}
