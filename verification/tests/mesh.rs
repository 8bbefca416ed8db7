use xsection::terrain::Terrain;

/// A grid of the given size with every cell empty.
fn empty_terrain(size: usize) -> Terrain {
    let profile = vec![0i64; size];
    let mut t = Terrain::new(size, &profile);
    for x in 0..size {
        for y in 0..size {
            for z in 0..size {
                t.set(x as isize, y as isize, z as isize, 0);
            }
        }
    }
    t
}

#[test]
fn isolated_voxel_emits_six_quads_and_one_segment() {
    let mut t = empty_terrain(3);
    t.set(1, 1, 1, 1);
    t.rebuild();
    assert_eq!(t.vertices().len(), 36);
    assert_eq!(t.lines().len(), 2);
    // The segment spans the voxel's min and max corners (half-units), and the
    // exposed top selects the offset atlas row.
    let l = t.lines();
    assert_eq!((l[0].position.x, l[0].position.y, l[0].position.z), (2, 2, 2));
    assert_eq!((l[1].position.x, l[1].position.y, l[1].position.z), (4, 4, 4));
    assert_eq!((l[0].tex_coord.x, l[0].tex_coord.y, l[0].tex_coord.z), (0, 1, 0));
    assert_eq!((l[1].tex_coord.x, l[1].tex_coord.y, l[1].tex_coord.z), (2, 2, 2));
}

#[test]
fn fully_surrounded_voxel_emits_no_quads() {
    let mut t = empty_terrain(3);
    for x in 0..3 {
        for y in 0..3 {
            for z in 0..3 {
                t.set(x, y, z, 1);
            }
        }
    }
    let (verts, lines) = t.make_primitives(1, 1, 1);
    assert_eq!(verts.len(), 0);
    assert_eq!(lines.len(), 2);
}

#[test]
fn adjacent_voxels_cull_their_shared_faces() {
    let mut t = empty_terrain(4);
    t.set(1, 1, 1, 1);
    t.set(2, 1, 1, 1);
    t.rebuild();
    // Two solid voxels, each with five visible faces.
    assert_eq!(t.vertices().len(), 2 * 5 * 6);
    // Still one segment per solid voxel, two points each.
    assert_eq!(t.lines().len(), 4);
}

#[test]
fn rebuild_is_idempotent_on_an_unchanged_grid() {
    let size = 4usize;
    let profile = vec![0i64, 10000, -10000, 5000];
    let mut t = Terrain::new(size, &profile);
    t.rebuild();
    let verts_first: Vec<_> = t.vertices().to_vec();
    let lines_first: Vec<_> = t.lines().to_vec();
    assert!(!verts_first.is_empty());
    t.rebuild();
    assert_eq!(t.vertices(), verts_first.as_slice());
    assert_eq!(t.lines(), lines_first.as_slice());
}

#[test]
fn covered_voxel_uses_the_unshifted_atlas_row() {
    let mut t = empty_terrain(3);
    t.set(1, 1, 1, 1);
    t.set(1, 2, 1, 1);
    // The lower voxel has a solid cell above it: its segment stays on the
    // base atlas row.
    let (_, lines) = t.make_primitives(1, 1, 1);
    assert_eq!(lines[0].tex_coord.y, 0);
    assert_eq!(lines[1].tex_coord.y, 1);
    // The upper voxel's top is exposed: its rows shift by a half.
    let (_, lines_up) = t.make_primitives(1, 2, 1);
    assert_eq!(lines_up[0].tex_coord.y, 1);
    assert_eq!(lines_up[1].tex_coord.y, 2);
}

#[test]
fn face_vertices_carry_axis_aligned_normals() {
    let mut t = empty_terrain(3);
    t.set(1, 1, 1, 1);
    let (verts, _) = t.make_primitives(1, 1, 1);
    assert_eq!(verts.len(), 36);
    // Faces come in the order -x, -y, -z, +x, +y, +z, six vertices each; the
    // normals are unit vectors in half-units.
    let expected = [
        (-2, 0, 0),
        (0, -2, 0),
        (0, 0, -2),
        (2, 0, 0),
        (0, 2, 0),
        (0, 0, 2),
    ];
    for (f, &(nx, ny, nz)) in expected.iter().enumerate() {
        for j in 0..6 {
            let n = verts[f * 6 + j].normal;
            assert_eq!((n.x, n.y, n.z), (nx, ny, nz), "face {} vertex {}", f, j);
        }
    }
}

#[test]
fn quad_positions_span_the_voxel() {
    let mut t = empty_terrain(3);
    t.set(1, 1, 1, 1);
    let (verts, _) = t.make_primitives(1, 1, 1);
    for v in verts.iter() {
        assert!(v.position.x == 2 || v.position.x == 4);
        assert!(v.position.y == 2 || v.position.y == 4);
        assert!(v.position.z == 2 || v.position.z == 4);
    }
    // The -x face sits at the voxel's low x boundary.
    for j in 0..6 {
        assert_eq!(verts[j].position.x, 2);
    }
    // The +x face at the high boundary.
    for j in 18..24 {
        assert_eq!(verts[j].position.x, 4);
    }
}
