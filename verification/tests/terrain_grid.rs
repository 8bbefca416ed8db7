use xsection::terrain::Terrain;

/// A grid of the given size built from a flat (all-zero) sine profile: solid
/// below half the height, empty above.
fn flat_terrain(size: usize) -> Terrain {
    let profile = vec![0i64; size];
    Terrain::new(size, &profile)
}

/// A grid of the given size with every cell empty.
fn empty_terrain(size: usize) -> Terrain {
    let mut t = flat_terrain(size);
    for x in 0..size {
        for y in 0..size {
            for z in 0..size {
                t.set(x as isize, y as isize, z as isize, 0);
            }
        }
    }
    t
}

/// Truncating fixed-point product, mirrored here to compute expected values.
fn fxm(a: i64, b: i64) -> i64 {
    a * b / 10000
}

#[test]
fn set_then_get_returns_the_written_value() {
    let mut t = flat_terrain(4);
    let prior = t.set(1, 2, 3, 7);
    assert_eq!(prior, Some(0));
    assert_eq!(t.get(1, 2, 3), Some(7));
}

#[test]
fn set_leaves_every_other_cell_alone() {
    let mut t = flat_terrain(4);
    let mut before = Vec::new();
    for x in 0..4 {
        for y in 0..4 {
            for z in 0..4 {
                before.push(t.get(x, y, z).unwrap());
            }
        }
    }
    t.set(1, 2, 3, 7);
    let mut i = 0;
    for x in 0..4 {
        for y in 0..4 {
            for z in 0..4 {
                let expected = if (x, y, z) == (1, 2, 3) { 7 } else { before[i] };
                assert_eq!(t.get(x, y, z), Some(expected));
                i += 1;
            }
        }
    }
}

#[test]
fn out_of_range_queries_are_absent_and_harmless() {
    let mut t = flat_terrain(4);
    assert_eq!(t.get(-1, 0, 0), None);
    assert_eq!(t.get(0, -1, 0), None);
    assert_eq!(t.get(0, 0, -1), None);
    assert_eq!(t.get(4, 0, 0), None);
    assert_eq!(t.get(0, 4, 0), None);
    assert_eq!(t.get(0, 0, 4), None);
    assert_eq!(t.set(-1, 0, 0, 9), None);
    assert_eq!(t.set(0, 0, 4, 9), None);
    // The edge cells around the out-of-range writes are untouched.
    assert_eq!(t.get(0, 0, 0), Some(1));
    assert_eq!(t.get(0, 0, 3), Some(1));
    assert_eq!(t.get(3, 3, 3), Some(0));
}

#[test]
fn occupancy_treats_outside_as_empty() {
    let t = flat_terrain(4);
    assert_eq!(t.occ(-1, 0, 0), 0);
    assert_eq!(t.occ(0, 0, 0), 1);
    assert_eq!(t.occ(0, 3, 0), 0);
}

#[test]
fn flat_profile_fills_the_lower_half() {
    let t = flat_terrain(4);
    for x in 0..4 {
        for y in 0..4 {
            for z in 0..4 {
                let expected = if y < 2 { 1 } else { 0 };
                assert_eq!(t.get(x, y, z), Some(expected), "at {} {} {}", x, y, z);
            }
        }
    }
}

#[test]
fn fill_follows_the_height_field_rule() {
    let size = 4usize;
    let profile = vec![0i64, 10000, -10000, 5000];
    let t = Terrain::new(size, &profile);
    for x in 0..size {
        for y in 0..size {
            for z in 0..size {
                let xx = profile[x];
                let zz = profile[z];
                let lhs = -fxm(fxm(xx, xx), 25000) - fxm(fxm(zz, zz), 45000) + size as i64 * 5000;
                let expected = if lhs > y as i64 * 10000 { 1 } else { 0 };
                assert_eq!(
                    t.get(x as isize, y as isize, z as isize),
                    Some(expected),
                    "at {} {} {}",
                    x,
                    y,
                    z
                );
            }
        }
    }
}

#[test]
fn size_reports_the_edge_length() {
    let t = flat_terrain(5);
    assert_eq!(t.size(), 5);
    let e = empty_terrain(3);
    assert_eq!(e.size(), 3);
    assert_eq!(e.get(0, 0, 0), Some(0));
}
