use xsection::mat::Mat4;
use xsection::plane::Plane;

#[test]
fn strafe_round_trip_restores_the_pose() {
    let mut p = Plane::new(16);
    let before = p.transform();
    p.strafe_x(10000, true);
    assert_ne!(p.transform(), before);
    p.strafe_x(10000, false);
    assert_eq!(p.transform(), before);
}

#[test]
fn strafe_z_round_trip_restores_the_pose() {
    let mut p = Plane::new(16);
    let before = p.transform();
    p.strafe_z(7000, true);
    p.strafe_z(7000, false);
    assert_eq!(p.transform(), before);
}

#[test]
fn strafe_moves_along_the_local_axis() {
    let mut p = Plane::from_pose(Mat4::identity());
    p.strafe_x(10000, true);
    let m = p.transform();
    // One second at five units per second along local x.
    assert_eq!(m.c3.x, 50000);
    assert_eq!(m.c3.y, 0);
    assert_eq!(m.c3.z, 0);
    p.strafe_z(10000, false);
    let m = p.transform();
    assert_eq!(m.c3.z, -50000);
}

#[test]
fn rotation_by_zero_is_inert() {
    let mut p = Plane::new(8);
    let before = p.transform();
    p.rotate(0, true);
    assert_eq!(p.transform(), before);
}

#[test]
fn rotation_mixes_the_x_and_z_columns() {
    let mut p = Plane::from_pose(Mat4::identity());
    p.rotate(10000, true);
    let m = p.transform();
    // An eighth of a turn: cosine and sine from the small-angle polynomials.
    assert_eq!(m.c0.x, 7074);
    assert_eq!(m.c0.z, -7071);
    assert_eq!(m.c2.x, 7071);
    assert_eq!(m.c2.z, 7074);
    // The y column and the translation stay put.
    assert_eq!(m.c1.y, 10000);
    assert_eq!(m.c3.x, 0);
    assert_eq!((m.c0.w, m.c1.w, m.c2.w, m.c3.w), (0, 0, 0, 10000));
}

#[test]
fn initial_pose_centers_the_plane_diagonally() {
    let p = Plane::new(16);
    let m = p.transform();
    // Half a turn about y, translated to the terrain center, then an eighth
    // of a turn: the translation lands at (size/2, size/2, size/2) in world
    // space and the linear part is the composed rotation.
    assert_eq!((m.c3.x, m.c3.y, m.c3.z), (80000, 80000, 80000));
    assert_eq!((m.c0.x, m.c0.y, m.c0.z), (-7071, 0, 7071));
    assert_eq!((m.c1.x, m.c1.y, m.c1.z), (0, 10000, 0));
    assert_eq!((m.c2.x, m.c2.y, m.c2.z), (-7071, 0, -7071));
    assert!(p.well_formed());
}

#[test]
fn transform_returns_the_pose_unscaled() {
    let mut p = Plane::new(16);
    p.rotate(3000, false);
    let first = p.transform();
    let second = p.transform();
    assert_eq!(first, second);
}

#[test]
fn well_formed_accepts_working_poses() {
    let p = Plane::from_pose(Mat4::identity());
    assert!(p.well_formed());
    let mut q = Plane::new(32);
    assert!(q.well_formed());
    q.strafe_x(10000, true);
    q.rotate(5000, true);
    assert!(q.well_formed());
}
