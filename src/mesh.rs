//! The polyline mesh that a line is drawn with.
use crate::geometry::{Vec3i, FIXED_ONE};
use vstd::prelude::*;

verus! {

/// Vertex attributes and a sequential index buffer for a line strip.
#[derive(Debug)]
pub struct LineMesh {
    pub positions: Vec<Vec3i>,
    pub normals: Vec<Vec3i>,
    pub uvs: Vec<(i32, i32)>,
    pub indices: Vec<usize>,
}

/// The normal every vertex of a line gets: world up, of unit length.
pub open spec fn line_normal() -> Vec3i {
    Vec3i { x: 0, y: FIXED_ONE, z: 0 }
}

/// `m` draws a strip through `points` in order: one vertex per point, each
/// with the up normal and a zero texture coordinate, indexed `0, 1, 2, ...`.
pub open spec fn is_strip_through(m: LineMesh, points: Seq<Vec3i>) -> bool {
    &&& m.positions@ == points
    &&& m.normals@.len() == points.len()
    &&& m.uvs@.len() == points.len()
    &&& m.indices@.len() == points.len()
    &&& forall|i: int| 0 <= i < points.len() ==> #[trigger] m.normals@[i] == line_normal()
    &&& forall|i: int| 0 <= i < points.len() ==> #[trigger] m.uvs@[i] == (0i32, 0i32)
    &&& forall|i: int| 0 <= i < points.len() ==> #[trigger] m.indices@[i] == i
}

/// Builds the line-strip mesh through `points`.
pub fn build_line_mesh(points: &Vec<Vec3i>) -> (m: LineMesh)
    ensures
        is_strip_through(m, points@),
{
    let mut positions: Vec<Vec3i> = Vec::new();
    let mut normals: Vec<Vec3i> = Vec::new();
    let mut uvs: Vec<(i32, i32)> = Vec::new();
    let mut indices: Vec<usize> = Vec::new();
    let mut i: usize = 0;
    while i < points.len()
        invariant
            i <= points@.len(),
            positions@ == points@.subrange(0, i as int),
            normals@.len() == i,
            uvs@.len() == i,
            indices@.len() == i,
            forall|k: int| 0 <= k < i ==> #[trigger] normals@[k] == line_normal(),
            forall|k: int| 0 <= k < i ==> #[trigger] uvs@[k] == (0i32, 0i32),
            forall|k: int| 0 <= k < i ==> #[trigger] indices@[k] == k,
        decreases points@.len() - i,
    {
        positions.push(points[i]);
        normals.push(Vec3i { x: 0, y: FIXED_ONE, z: 0 });
        uvs.push((0, 0));
        indices.push(i);
        i += 1;
        assert(positions@ =~= points@.subrange(0, i as int));
    }
    assert(positions@ =~= points@);
    LineMesh { positions, normals, uvs, indices }
}

} // verus!
