use xsection::mat::Mat4;
use xsection::plane::Plane;
use xsection::player::Player;
use xsection::terrain::Terrain;

/// A grid of the given size with every cell empty.
fn empty_terrain(size: usize) -> Terrain {
    let profile = vec![0i64; size];
    let mut t = Terrain::new(size, &profile);
    for x in 0..size {
        for y in 0..size {
            for z in 0..size {
                t.set(x as isize, y as isize, z as isize, 0);
            }
        }
    }
    t
}

/// An empty grid with a solid floor layer at height zero.
fn floored_terrain(size: usize) -> Terrain {
    let mut t = empty_terrain(size);
    for x in 0..size {
        for z in 0..size {
            t.set(x as isize, 0, z as isize, 1);
        }
    }
    t
}

#[test]
fn gravity_sets_velocity_and_position_from_rest() {
    let plane = Plane::from_pose(Mat4::identity());
    let terrain = empty_terrain(4);
    let mut p = Player::new();
    p.y = 30000;
    // One tenth of a second from rest: velocity -3.0, position falls by 0.3.
    p.update(1000, &plane, &terrain);
    assert_eq!(p.vel_y, -30000);
    assert_eq!(p.y, 27000);
    assert!(!p.on_floor);
}

#[test]
fn velocity_clamps_at_terminal_speed() {
    let plane = Plane::from_pose(Mat4::identity());
    let terrain = empty_terrain(4);
    let mut p = Player::new();
    p.y = 9_000_000;
    for _ in 0..10 {
        p.update(1000, &plane, &terrain);
        assert!(p.vel_y >= -200000);
    }
    assert_eq!(p.vel_y, -200000);
}

#[test]
fn zero_time_step_keeps_the_floor_flag() {
    let plane = Plane::from_pose(Mat4::identity());
    let terrain = empty_terrain(4);
    let mut p = Player::new();
    p.y = 30000;
    p.on_floor = true;
    p.update(0, &plane, &terrain);
    assert!(p.on_floor);
    p.update(1000, &plane, &terrain);
    assert!(!p.on_floor);
}

#[test]
fn falling_player_snaps_onto_the_floor() {
    let plane = Plane::from_pose(Mat4::identity());
    let terrain = floored_terrain(4);
    let mut p = Player::new();
    p.x = 20000;
    p.y = 15000;
    // Standing one unit above the floor: integration drops the bottom edge
    // into the floor voxel, the resolution snaps it back up.
    p.update(1000, &plane, &terrain);
    assert_eq!(p.y, 15000);
    assert_eq!(p.vel_y, 0);
    assert!(p.on_floor);
}

#[test]
fn jump_works_only_from_the_floor() {
    let mut p = Player::new();
    p.vel_y = -5000;
    p.jump();
    assert_eq!(p.vel_y, -5000);
    p.on_floor = true;
    p.jump();
    assert_eq!(p.vel_y, 120000);
}

#[test]
fn walk_into_a_wall_is_fully_reverted() {
    let plane = Plane::from_pose(Mat4::identity());
    let mut terrain = empty_terrain(4);
    terrain.set(0, 1, 0, 1);
    let mut p = Player::new();
    p.x = 15000;
    p.y = 15000;
    // Walking toward the wall (the positive sign moves toward negative x)
    // leaves x unchanged.
    p.walk(&plane, &terrain, 1000, true);
    assert_eq!(p.x, 15000);
    // Walking away moves by the full 3.5 * dt.
    p.walk(&plane, &terrain, 1000, false);
    assert_eq!(p.x, 18500);
}

#[test]
fn intersect_is_false_everywhere_on_an_empty_grid() {
    let terrain = empty_terrain(4);
    let mut p = Player::new();
    p.x = 20000;
    p.y = 15000;
    assert!(!p.intersect(&Plane::from_pose(Mat4::identity()), &terrain));
    assert!(!p.intersect(&Plane::new(4), &terrain));
    let mut turned = Plane::new(4);
    turned.rotate(5000, true);
    turned.strafe_x(2000, false);
    assert!(!p.intersect(&turned, &terrain));
}

#[test]
fn intersect_hits_immediately_from_inside_a_solid_voxel() {
    let plane = Plane::from_pose(Mat4::identity());
    let mut terrain = empty_terrain(4);
    terrain.set(1, 1, 0, 1);
    let mut p = Player::new();
    // The first bottom corner lands inside the solid voxel.
    p.x = 15000;
    p.y = 15000;
    assert!(p.intersect(&plane, &terrain));
}

#[test]
fn intersect_crosses_a_wall_between_the_corners() {
    let plane = Plane::from_pose(Mat4::identity());
    let mut terrain = empty_terrain(8);
    terrain.set(2, 1, 0, 1);
    let mut p = Player::new();
    p.width = 30000;
    p.x = 25000;
    p.y = 15000;
    // Corners at x = 1.0 and x = 4.0 (empty cells), wall at x = 2: the march
    // finds it between them.
    assert!(p.intersect(&plane, &terrain));
}
