//! The collision shape of a chunk: a triangle mesh over the very vertices
//! and indices of the chunk's render mesh.

use vstd::prelude::*;
use crate::geometry::Point3;
use crate::mesher::ChunkMeshData;

verus! {

/// A triangle mesh for collision: lattice vertices, and triangles as three
/// positions in the list of vertices.
pub struct ColliderShape {
    pub vertices: Vec<Point3>,
    pub triangles: Vec<(u32, u32, u32)>,
}

/// The triangles that a list of indices spells out, three indices each. Up to
/// two indices at the end that make no full triangle are left out.
pub open spec fn spec_triangles(indices: Seq<u32>) -> Seq<(u32, u32, u32)> {
    Seq::new(
        (indices.len() / 3) as nat,
        |t: int| (indices[3 * t], indices[3 * t + 1], indices[3 * t + 2]),
    )
}

/// The triangles of a list of indices.
pub fn triangles(indices: &Vec<u32>) -> (list: Vec<(u32, u32, u32)>)
    ensures
        list@ == spec_triangles(indices@),
{
    let count: usize = indices.len();
    let n: usize = count / 3;
    let mut list: Vec<(u32, u32, u32)> = Vec::new();
    let mut t: usize = 0;
    while t < n
        invariant
            t <= n,
            count == indices@.len(),
            n == count / 3,
            list@.len() == t,
            forall|k: int|
                0 <= k < t ==> #[trigger] list@[k] == (
                    indices@[3 * k],
                    indices@[3 * k + 1],
                    indices@[3 * k + 2],
                ),
        decreases n - t,
    {
        list.push((indices[3 * t], indices[3 * t + 1], indices[3 * t + 2]));
        t += 1;
    }
    assert(list@ =~= spec_triangles(indices@));
    list
}

/// The collision shape of a chunk's mesh: its vertices are the positions of
/// the mesh and its triangles those of the mesh's indices, so that what
/// collides is what is seen.
pub fn collider_shape(mesh: &ChunkMeshData) -> (shape: ColliderShape)
    ensures
        shape.vertices@ == mesh.positions@,
        shape.triangles@ == spec_triangles(mesh.indices@),
        mesh.indices_in_range() ==> forall|t: int|
            0 <= t < shape.triangles@.len() ==> {
                let triangle = #[trigger] shape.triangles@[t];
                triangle.0 < shape.vertices@.len() && triangle.1 < shape.vertices@.len()
                    && triangle.2 < shape.vertices@.len()
            },
{
    let mut vertices: Vec<Point3> = Vec::new();
    let mut i: usize = 0;
    while i < mesh.positions.len()
        invariant
            i <= mesh.positions.len(),
            vertices@ == mesh.positions@.subrange(0, i as int),
        decreases mesh.positions.len() - i,
    {
        vertices.push(mesh.positions[i]);
        assert(vertices@ =~= mesh.positions@.subrange(0, i + 1));
        i += 1;
    }
    assert(mesh.positions@.subrange(0, mesh.positions@.len() as int) =~= mesh.positions@);
    ColliderShape { vertices, triangles: triangles(&mesh.indices) }
}

} // verus!
