//! Ambient occlusion at the vertices of a mesh.

use vstd::prelude::*;
use crate::geometry::Point3;
use crate::quads::Direction;
use crate::voxel::{VoxelArray, VoxelGrid};

verus! {

/// Whether three integers are the coordinates of a lattice point.
pub open spec fn is_point(c: (int, int, int)) -> bool {
    &&& i32::MIN <= c.0 <= i32::MAX
    &&& i32::MIN <= c.1 <= i32::MAX
    &&& i32::MIN <= c.2 <= i32::MAX
}

pub open spec fn to_point(c: (int, int, int)) -> Point3 {
    Point3 { x: c.0 as i32, y: c.1 as i32, z: c.2 as i32 }
}

/// The eight cells around the lattice vertex `v`, seen from a face with the
/// given direction. The four "top" cells lie in the layer of `v` along the
/// face's normal axis: `v - u`, `v - v_axis`, `v` and `v - u - v_axis`, in
/// this order. Cell `k + 4` is the "bottom" cell under top cell `k`, one step
/// back along the normal axis.
pub open spec fn ao_cell(v: Point3, face: Direction, k: int) -> (int, int, int) {
    let n = face.spec_normal_axis().spec_unit();
    let u = face.spec_u_axis().spec_unit();
    let w = face.spec_v_axis().spec_unit();
    let top = if k % 4 == 0 {
        (v.x - u.x, v.y - u.y, v.z - u.z)
    } else if k % 4 == 1 {
        (v.x - w.x, v.y - w.y, v.z - w.z)
    } else if k % 4 == 2 {
        (v.x as int, v.y as int, v.z as int)
    } else {
        (v.x - u.x - w.x, v.y - u.y - w.y, v.z - u.z - w.z)
    };
    if k < 4 {
        top
    } else {
        (top.0 - n.x, top.1 - n.y, top.2 - n.z)
    }
}

/// Whether cell `k` around `v` holds something other than air. A cell that
/// is outside the array, or outside the lattice, holds air.
pub open spec fn ao_occupied(padded: VoxelGrid, v: Point3, face: Direction, k: int) -> bool {
    let c = ao_cell(v, face, k);
    is_point(c) && padded.occupied(to_point(c))
}

/// The weight of an edge cell whose two neighbours in the face plane are
/// `side0` and `side1` and whose diagonal neighbour is `corner`.
pub open spec fn ao_weight(side0: bool, side1: bool, corner: bool) -> int {
    if side0 && side1 {
        3
    } else {
        (if side0 { 1int } else { 0int }) + (if side1 { 1int } else { 0int }) + (if corner {
            1int
        } else {
            0int
        })
    }
}

/// The ambient-occlusion weight of the lattice vertex `v` on a face with the
/// given direction. The first top cell, in the order of `ao_cell`, that is
/// occupied while the cell under it is empty is the edge cell; without one
/// the weight is zero.
pub open spec fn spec_ao_at_vert(padded: VoxelGrid, v: Point3, face: Direction) -> int {
    let top0 = ao_occupied(padded, v, face, 0);
    let top1 = ao_occupied(padded, v, face, 1);
    let top2 = ao_occupied(padded, v, face, 2);
    let top3 = ao_occupied(padded, v, face, 3);
    let bot0 = ao_occupied(padded, v, face, 4);
    let bot1 = ao_occupied(padded, v, face, 5);
    let bot2 = ao_occupied(padded, v, face, 6);
    let bot3 = ao_occupied(padded, v, face, 7);
    if top0 && !bot0 {
        ao_weight(top2, top3, top1)
    } else if top1 && !bot1 {
        ao_weight(top2, top3, top0)
    } else if top2 && !bot2 {
        ao_weight(top0, top1, top3)
    } else if top3 && !bot3 {
        ao_weight(top0, top1, top2)
    } else {
        0
    }
}

/// The weight is one of 0, 1, 2 and 3, whatever the voxels, the vertex and
/// the face.
pub proof fn lemma_ao_in_range(padded: VoxelGrid, v: Point3, face: Direction)
    ensures
        0 <= spec_ao_at_vert(padded, v, face) <= 3,
{
}

fn cell_occupied(padded: &VoxelArray, x: i64, y: i64, z: i64) -> (b: bool)
    requires
        padded@.wf(),
    ensures
        b == (is_point((x as int, y as int, z as int)) && padded@.occupied(
            to_point((x as int, y as int, z as int)),
        )),
{
    let lo: i64 = -0x8000_0000;
    let hi: i64 = 0x7fff_ffff;
    if x < lo || x > hi || y < lo || y > hi || z < lo || z > hi {
        false
    } else {
        padded.is_occupied(Point3 { x: x as i32, y: y as i32, z: z as i32 })
    }
}

fn weigh(side0: bool, side1: bool, corner: bool) -> (w: i32)
    ensures
        w == ao_weight(side0, side1, corner),
{
    if side0 && side1 {
        3
    } else {
        let a: i32 = if side0 { 1 } else { 0 };
        let b: i32 = if side1 { 1 } else { 0 };
        let c: i32 = if corner { 1 } else { 0 };
        a + b + c
    }
}

/// The ambient-occlusion weight of the vertex `v` of a quad on a face with
/// the given direction, from the eight cells of `padded_chunk` around it.
pub fn get_ao_at_vert(v: Point3, face: Direction, padded_chunk: &VoxelArray) -> (ao: i32)
    requires
        padded_chunk@.wf(),
    ensures
        ao == spec_ao_at_vert(padded_chunk@, v, face),
        0 <= ao <= 3,
{
    let n: Point3 = face.normal_axis().unit();
    let u: Point3 = face.u_axis().unit();
    let w: Point3 = face.v_axis().unit();
    let x: i64 = v.x as i64;
    let y: i64 = v.y as i64;
    let z: i64 = v.z as i64;
    let (ux, uy, uz): (i64, i64, i64) = (u.x as i64, u.y as i64, u.z as i64);
    let (wx, wy, wz): (i64, i64, i64) = (w.x as i64, w.y as i64, w.z as i64);
    let (nx, ny, nz): (i64, i64, i64) = (n.x as i64, n.y as i64, n.z as i64);

    let top0 = cell_occupied(padded_chunk, x - ux, y - uy, z - uz);
    let top1 = cell_occupied(padded_chunk, x - wx, y - wy, z - wz);
    let top2 = cell_occupied(padded_chunk, x, y, z);
    let top3 = cell_occupied(padded_chunk, x - ux - wx, y - uy - wy, z - uz - wz);

    let bot0 = cell_occupied(padded_chunk, x - ux - nx, y - uy - ny, z - uz - nz);
    let bot1 = cell_occupied(padded_chunk, x - wx - nx, y - wy - ny, z - wz - nz);
    let bot2 = cell_occupied(padded_chunk, x - nx, y - ny, z - nz);
    let bot3 = cell_occupied(
        padded_chunk,
        x - ux - wx - nx,
        y - uy - wy - ny,
        z - uz - wz - nz,
    );

    assert(top0 == ao_occupied(padded_chunk@, v, face, 0));
    assert(top1 == ao_occupied(padded_chunk@, v, face, 1));
    assert(top2 == ao_occupied(padded_chunk@, v, face, 2));
    assert(top3 == ao_occupied(padded_chunk@, v, face, 3));
    assert(bot0 == ao_occupied(padded_chunk@, v, face, 4));
    assert(bot1 == ao_occupied(padded_chunk@, v, face, 5));
    assert(bot2 == ao_occupied(padded_chunk@, v, face, 6));
    assert(bot3 == ao_occupied(padded_chunk@, v, face, 7));

    if top0 && !bot0 {
        weigh(top2, top3, top1)
    } else if top1 && !bot1 {
        weigh(top2, top3, top0)
    } else if top2 && !bot2 {
        weigh(top0, top1, top3)
    } else if top3 && !bot3 {
        weigh(top0, top1, top2)
    } else {
        0
    }
}

} // verus!
