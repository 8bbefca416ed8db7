//! The unit quad shared by the plane and the player sprite.

use vstd::prelude::*;

verus! {

/// A 2D quad vertex: position and texture coordinate in whole units (the quad
/// spans minus one to one, its texture zero to one).
#[derive(Clone, Copy, PartialEq, Eq, Structural, Debug)]
pub struct Vertex {
    pub px: i32,
    pub py: i32,
    pub tu: i32,
    pub tv: i32,
}

/// The four corners of the unit quad, counterclockwise from the top left.
pub open spec fn quad_vertices() -> Seq<Vertex> {
    seq![
        Vertex { px: -1i32, py: 1, tu: 0, tv: 1 },
        Vertex { px: 1i32, py: 1, tu: 1, tv: 1 },
        Vertex { px: 1i32, py: -1i32, tu: 1, tv: 0 },
        Vertex { px: -1i32, py: -1i32, tu: 0, tv: 0 },
    ]
}

/// The two triangles of the unit quad, as corner indices.
pub open spec fn quad_indices() -> Seq<u8> {
    seq![0u8, 1u8, 2u8, 0u8, 2u8, 3u8]
}

/// The unit quad: its four corner vertices and the six indices of its two
/// triangles.
pub fn make_quad() -> (r: (Vec<Vertex>, Vec<u8>))
    ensures
        r.0@ == quad_vertices(),
        r.1@ == quad_indices(),
{
    let mut vs: Vec<Vertex> = Vec::new();
    vs.push(Vertex { px: -1, py: 1, tu: 0, tv: 1 });
    vs.push(Vertex { px: 1, py: 1, tu: 1, tv: 1 });
    vs.push(Vertex { px: 1, py: -1i32, tu: 1, tv: 0 });
    vs.push(Vertex { px: -1, py: -1i32, tu: 0, tv: 0 });
    let mut is: Vec<u8> = Vec::new();
    is.push(0);
    is.push(1);
    is.push(2);
    is.push(0);
    is.push(2);
    is.push(3);
    proof {
        assert(vs@ =~= quad_vertices());
        assert(is@ =~= quad_indices());
    }
    (vs, is)
}

} // verus!
