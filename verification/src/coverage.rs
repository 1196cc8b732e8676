//! Face coverage: which voxel faces of a padded block are visible, and
//! whether a list of quads covers exactly those faces, each once.

use vstd::prelude::*;
use crate::geometry::{Extent, Point3, lemma_offset_in_range, lemma_offset_injective, walked};
use crate::quads::{Direction, FaceQuad};
use crate::voxel::{VoxelArray, VoxelGrid};

verus! {

/// `p` is at least one step away from each of the six sides of `extent`.
pub open spec fn interior(extent: Extent, p: Point3) -> bool {
    &&& extent.minimum.x < p.x && p.x + 1 < extent.lub_x()
    &&& extent.minimum.y < p.y && p.y + 1 < extent.lub_y()
    &&& extent.minimum.z < p.z && p.z + 1 < extent.lub_z()
}

/// The cell next to `p` in the given direction.
pub open spec fn neighbour(p: Point3, face: Direction) -> Point3 {
    Point3 {
        x: (p.x + face.spec_normal().x) as i32,
        y: (p.y + face.spec_normal().y) as i32,
        z: (p.z + face.spec_normal().z) as i32,
    }
}

/// The face of the voxel at `p` that looks in the given direction is
/// visible: the voxel is in the interior of the block and is occupied, and
/// the cell next to it in that direction is empty.
pub open spec fn face_exposed(grid: VoxelGrid, p: Point3, face: Direction) -> bool {
    interior(grid.extent, p) && grid.occupied(p) && !grid.occupied(neighbour(p, face))
}

/// Every face that the quad covers is a visible face of a voxel of the
/// quad's material.
pub open spec fn quad_sound(grid: VoxelGrid, quad: FaceQuad) -> bool {
    &&& quad.within(grid.extent)
    &&& forall|p: Point3| #[trigger]
        quad.covers(p) ==> face_exposed(grid, p, quad.face) && grid.voxel_at(p).0 == quad.material
}

/// The quads that look in the given direction cover exactly the visible
/// faces of that direction, each once: every such quad is sound, no two of
/// them share a face, and every visible face belongs to one of them.
pub open spec fn direction_tiled(grid: VoxelGrid, quads: Seq<FaceQuad>, face: Direction) -> bool {
    &&& forall|i: int| 0 <= i < quads.len() && (#[trigger] quads[i]).face == face ==> quad_sound(grid, quads[i])
    &&& forall|i: int, j: int, p: Point3|
        0 <= i < quads.len() && 0 <= j < quads.len() && i != j && quads[i].face == face && quads[j].face
            == face && #[trigger] quads[i].covers(p) ==> !#[trigger] quads[j].covers(p)
    &&& forall|p: Point3| #[trigger]
        face_exposed(grid, p, face) ==> exists|i: int|
            0 <= i < quads.len() && (#[trigger] quads[i]).face == face && quads[i].covers(p)
}

/// The quads cover exactly the visible faces of the block, each once, in
/// all six directions.
pub open spec fn quads_tile(grid: VoxelGrid, quads: Seq<FaceQuad>) -> bool {
    forall|face: Direction| #[trigger] direction_tiled(grid, quads, face)
}

/// Whether the face of the voxel at `p` that looks in the given direction
/// is visible.
pub fn is_face_exposed(padded: &VoxelArray, p: Point3, face: Direction) -> (exposed: bool)
    requires
        padded@.wf(),
    ensures
        exposed == face_exposed(padded@, p, face),
{
    let e: Extent = padded.extent();
    let lx: i64 = e.minimum.x as i64 + e.shape.x as i64;
    let ly: i64 = e.minimum.y as i64 + e.shape.y as i64;
    let lz: i64 = e.minimum.z as i64 + e.shape.z as i64;
    if !(e.minimum.x < p.x && (p.x as i64) + 1 < lx && e.minimum.y < p.y && (p.y as i64) + 1 < ly
        && e.minimum.z < p.z && (p.z as i64) + 1 < lz) {
        return false;
    }
    let n: Point3 = face.normal();
    let q: Point3 = Point3 { x: p.x + n.x, y: p.y + n.y, z: p.z + n.z };
    padded.is_occupied(p) && !padded.is_occupied(q)
}

/// The state of the face marks while the quads of one direction are laid
/// down: a mark is zero for a face that no quad has covered yet, and one more
/// than the position of the quad that covers it otherwise.
pub open spec fn marks_agree(
    grid: VoxelGrid,
    quads: Seq<FaceQuad>,
    face: Direction,
    marks: Seq<usize>,
    done: int,
) -> bool {
    &&& marks.len() == grid.extent.volume()
    &&& forall|p: Point3|
        grid.extent.spec_contains(p) && #[trigger] marks[grid.extent.offset_of(p)] != 0 ==> {
            let i = marks[grid.extent.offset_of(p)] - 1;
            0 <= i < done && quads[i].face == face && quads[i].covers(p)
        }
    &&& forall|i: int|
        0 <= i < done && (#[trigger] quads[i]).face == face ==> quad_sound(grid, quads[i])
    &&& forall|i: int, p: Point3|
        0 <= i < done && quads[i].face == face && #[trigger] quads[i].covers(p) ==> marks[grid.extent.offset_of(
            p,
        )] == i + 1
}

/// The state of the face marks while one quad is laid down: the faces of
/// the quad that were walked bear its mark, were free before and are sound,
/// and every other mark is as it was.
pub open spec fn laid(
    grid: VoxelGrid,
    quad: FaceQuad,
    mark: int,
    before: Seq<usize>,
    marks: Seq<usize>,
    z: int,
    x: int,
    y: int,
) -> bool {
    &&& marks.len() == before.len()
    &&& forall|p: Point3| #[trigger]
        quad.covers(p) && walked(p, z, x, y) ==> marks[grid.extent.offset_of(p)] == mark
            && before[grid.extent.offset_of(p)] == 0 && face_exposed(grid, p, quad.face)
            && grid.voxel_at(p).0 == quad.material
    &&& forall|p: Point3|
        grid.extent.spec_contains(p) && !(quad.covers(p) && walked(p, z, x, y))
            ==> #[trigger] marks[grid.extent.offset_of(p)] == before[grid.extent.offset_of(p)]
}

/// Lays the quad at position `i` down on the marks. The answer is `false`
/// where the quad is not sound or covers a face that is marked already.
fn mark_quad(padded: &VoxelArray, quads: &Vec<FaceQuad>, i: usize, marks: &mut Vec<usize>) -> (ok: bool)
    requires
        padded@.wf(),
        i < quads@.len(),
        marks_agree(padded@, quads@, quads@[i as int].face, old(marks)@, i as int),
    ensures
        ok ==> marks_agree(padded@, quads@, quads@[i as int].face, final(marks)@, i + 1),
        !ok ==> !direction_tiled(padded@, quads@, quads@[i as int].face),
{
    let count: usize = quads.len();
    let quad: FaceQuad = quads[i];
    let extent: Extent = padded.extent();
    let face: Direction = quad.face;
    if !quad.fits(&extent) {
        assert(!quad_sound(padded@, quads@[i as int]));
        return false;
    }
    let ghost before = marks@;
    let ghost grid = padded@;
    let min: Point3 = quad.minimum;
    let (sx, sy, sz): (i64, i64, i64) = quad.box_sides();
    let max: Point3 = Point3 {
        x: (min.x as i64 + sx) as i32,
        y: (min.y as i64 + sy) as i32,
        z: (min.z as i64 + sz) as i32,
    };
    let mut z: i32 = min.z;
    while z < max.z
        invariant
            padded@.wf(),
            grid == padded@,
            extent == grid.extent,
            i < count,
            count == quads@.len(),
            quad == quads@[i as int],
            face == quad.face,
            quad.within(extent),
            min == quad.minimum,
            max.x == min.x + quad.span().0,
            max.y == min.y + quad.span().1,
            max.z == min.z + quad.span().2,
            min.z <= z <= max.z,
            marks_agree(grid, quads@, face, before, i as int),
            laid(grid, quad, i + 1, before, marks@, z as int, min.x as int, min.y as int),
        decreases max.z - z,
    {
        let mut x: i32 = min.x;
        while x < max.x
            invariant
                padded@.wf(),
                grid == padded@,
                extent == grid.extent,
                i < count,
                count == quads@.len(),
                quad == quads@[i as int],
                face == quad.face,
                quad.within(extent),
                min == quad.minimum,
                max.x == min.x + quad.span().0,
                max.y == min.y + quad.span().1,
                max.z == min.z + quad.span().2,
                min.z <= z < max.z,
                min.x <= x <= max.x,
                marks_agree(grid, quads@, face, before, i as int),
                laid(grid, quad, i + 1, before, marks@, z as int, x as int, min.y as int),
            decreases max.x - x,
        {
            let mut y: i32 = min.y;
            while y < max.y
                invariant
                    padded@.wf(),
                    grid == padded@,
                    extent == grid.extent,
                    i < count,
                    count == quads@.len(),
                    quad == quads@[i as int],
                    face == quad.face,
                    quad.within(extent),
                    min == quad.minimum,
                    max.x == min.x + quad.span().0,
                    max.y == min.y + quad.span().1,
                    max.z == min.z + quad.span().2,
                    min.z <= z < max.z,
                    min.x <= x < max.x,
                    min.y <= y <= max.y,
                    marks_agree(grid, quads@, face, before, i as int),
                    laid(grid, quad, i + 1, before, marks@, z as int, x as int, y as int),
                decreases max.y - y,
            {
                let p: Point3 = Point3 { x, y, z };
                assert(quad.covers(p));
                assert(extent.spec_contains(p));
                let at: usize = padded.position(p);
                if !is_face_exposed(padded, p, face) || padded.get(p).0 != quad.material {
                    assert(!quad_sound(grid, quads@[i as int]));
                    return false;
                }
                assert(marks@[extent.offset_of(p)] == before[extent.offset_of(p)]);
                if marks[at] != 0 {
                    proof {
                        let j = before[extent.offset_of(p)] - 1;
                        assert(quads@[j].covers(p));
                        assert(quads@[i as int].covers(p));
                    }
                    return false;
                }
                let ghost prev = marks@;
                marks.set(at, i + 1);
                proof {
                    assert forall|q: Point3| extent.spec_contains(q) && q != p implies extent.offset_of(
                        q,
                    ) != extent.offset_of(p) by {
                        if extent.offset_of(q) == extent.offset_of(p) {
                            lemma_offset_injective(extent, p, q);
                        }
                    }
                    assert forall|q: Point3| #[trigger]
                        quad.covers(q) && walked(q, z as int, x as int, y + 1) implies marks@[extent.offset_of(
                        q,
                    )] == i + 1 && before[extent.offset_of(q)] == 0 && face_exposed(
                        grid,
                        q,
                        quad.face,
                    ) && grid.voxel_at(q).0 == quad.material by {
                        lemma_offset_in_range(extent, q);
                        if q != p {
                            assert(walked(q, z as int, x as int, y as int));
                            assert(prev[extent.offset_of(q)] == i + 1);
                        }
                    }
                    assert forall|q: Point3|
                        extent.spec_contains(q) && !(quad.covers(q) && walked(
                            q,
                            z as int,
                            x as int,
                            y + 1,
                        )) implies #[trigger] marks@[extent.offset_of(q)] == before[extent.offset_of(
                        q,
                    )] by {
                        lemma_offset_in_range(extent, q);
                        assert(q != p);
                        assert(prev[extent.offset_of(q)] == before[extent.offset_of(q)]);
                    }
                }
                y += 1;
            }
            proof {
                assert forall|q: Point3| #[trigger]
                    quad.covers(q) && walked(q, z as int, x + 1, min.y as int) implies walked(
                    q,
                    z as int,
                    x as int,
                    y as int,
                ) by {}
            }
            x += 1;
        }
        proof {
            assert forall|q: Point3| #[trigger]
                quad.covers(q) && walked(q, z + 1, min.x as int, min.y as int) implies walked(
                q,
                z as int,
                x as int,
                min.y as int,
            ) by {}
        }
        z += 1;
    }
    proof {
        assert forall|q: Point3| #[trigger] quad.covers(q) implies walked(
            q,
            z as int,
            min.x as int,
            min.y as int,
        ) by {}
        assert(quad_sound(grid, quads@[i as int]));
        assert forall|q: Point3|
            extent.spec_contains(q) && #[trigger] marks@[extent.offset_of(q)] != 0 implies {
            let k = marks@[extent.offset_of(q)] - 1;
            0 <= k < i + 1 && quads@[k].face == face && quads@[k].covers(q)
        } by {
            if quad.covers(q) {
            } else {
                assert(marks@[extent.offset_of(q)] == before[extent.offset_of(q)]);
            }
        }
        assert forall|k: int, q: Point3|
            0 <= k < i + 1 && quads@[k].face == face && #[trigger] quads@[k].covers(q) implies marks@[extent.offset_of(
            q,
        )] == k + 1 by {
            if k < i {
                assert(quad_sound(grid, quads@[k]));
                assert(extent.spec_contains(q));
                assert(before[extent.offset_of(q)] == k + 1);
                if quad.covers(q) {
                    assert(before[extent.offset_of(q)] == 0);
                }
                assert(marks@[extent.offset_of(q)] == before[extent.offset_of(q)]);
            }
        }
    }
    true
}

/// Whether the quads that look in the given direction cover exactly the
/// visible faces of that direction, each once.
pub fn check_direction(padded: &VoxelArray, quads: &Vec<FaceQuad>, face: Direction) -> (ok: bool)
    requires
        padded@.wf(),
    ensures
        ok == direction_tiled(padded@, quads@, face),
{
    let extent: Extent = padded.extent();
    let n: usize = extent.num_points();
    let mut marks: Vec<usize> = Vec::new();
    let mut k: usize = 0;
    while k < n
        invariant
            k <= n,
            marks@.len() == k,
            forall|j: int| 0 <= j < k ==> marks@[j] == 0,
        decreases n - k,
    {
        marks.push(0);
        k += 1;
    }
    proof {
        assert forall|p: Point3|
            extent.spec_contains(p) implies #[trigger] marks@[extent.offset_of(p)] == 0 by {
            lemma_offset_in_range(extent, p);
        }
    }
    let mut i: usize = 0;
    while i < quads.len()
        invariant
            i <= quads.len(),
            padded@.wf(),
            extent == padded@.extent,
            marks_agree(padded@, quads@, face, marks@, i as int),
        decreases quads.len() - i,
    {
        if quads[i].face == face {
            if !mark_quad(padded, quads, i, &mut marks) {
                return false;
            }
        } else {
            assert(marks_agree(padded@, quads@, face, marks@, i + 1));
        }
        i += 1;
    }
    if extent.shape.x < 3 || extent.shape.y < 3 || extent.shape.z < 3 {
        proof {
            lemma_tiled_from_marks(padded@, quads@, face, marks@);
        }
        return true;
    }
    let min: Point3 = extent.minimum;
    let max: Point3 = extent.least_upper_bound();
    let mut z: i32 = min.z + 1;
    while z < max.z - 1
        invariant
            padded@.wf(),
            extent == padded@.extent,
            min == extent.minimum,
            max.x == extent.lub_x() && max.y == extent.lub_y() && max.z == extent.lub_z(),
            extent.shape.x >= 3 && extent.shape.y >= 3 && extent.shape.z >= 3,
            min.z < z <= max.z - 1,
            marks_agree(padded@, quads@, face, marks@, quads@.len() as int),
            forall|p: Point3|
                face_exposed(padded@, p, face) && p.z < z ==> #[trigger] marks@[extent.offset_of(p)]
                    != 0,
        decreases max.z - z,
    {
        let mut x: i32 = min.x + 1;
        while x < max.x - 1
            invariant
                padded@.wf(),
                extent == padded@.extent,
                min == extent.minimum,
                max.x == extent.lub_x() && max.y == extent.lub_y() && max.z == extent.lub_z(),
                extent.shape.x >= 3 && extent.shape.y >= 3 && extent.shape.z >= 3,
                min.z < z < max.z - 1,
                min.x < x <= max.x - 1,
                marks_agree(padded@, quads@, face, marks@, quads@.len() as int),
                forall|p: Point3|
                    face_exposed(padded@, p, face) && walked(p, z as int, x as int, min.y + 1)
                        ==> #[trigger] marks@[extent.offset_of(p)] != 0,
            decreases max.x - x,
        {
            let mut y: i32 = min.y + 1;
            while y < max.y - 1
                invariant
                    padded@.wf(),
                    extent == padded@.extent,
                    min == extent.minimum,
                    max.x == extent.lub_x() && max.y == extent.lub_y() && max.z == extent.lub_z(),
                    extent.shape.x >= 3 && extent.shape.y >= 3 && extent.shape.z >= 3,
                    min.z < z < max.z - 1,
                    min.x < x < max.x - 1,
                    min.y < y <= max.y - 1,
                    marks_agree(padded@, quads@, face, marks@, quads@.len() as int),
                    forall|p: Point3|
                        face_exposed(padded@, p, face) && walked(p, z as int, x as int, y as int)
                            ==> #[trigger] marks@[extent.offset_of(p)] != 0,
                decreases max.y - y,
            {
                let p: Point3 = Point3 { x, y, z };
                if is_face_exposed(padded, p, face) {
                    let at: usize = padded.position(p);
                    if marks[at] == 0 {
                        proof {
                            if direction_tiled(padded@, quads@, face) {
                                let j = choose|j: int|
                                    0 <= j < quads@.len() && (#[trigger] quads@[j]).face == face
                                        && quads@[j].covers(p);
                                assert(quads@[j].covers(p));
                            }
                        }
                        return false;
                    }
                }
                y += 1;
            }
            x += 1;
        }
        z += 1;
    }
    proof {
        lemma_tiled_from_marks(padded@, quads@, face, marks@);
    }
    true
}

/// Once all quads are laid down and every visible face is marked, the
/// quads tile the direction.
pub proof fn lemma_tiled_from_marks(grid: VoxelGrid, quads: Seq<FaceQuad>, face: Direction, marks: Seq<usize>)
    requires
        grid.wf(),
        marks_agree(grid, quads, face, marks, quads.len() as int),
        forall|p: Point3|
            face_exposed(grid, p, face) ==> #[trigger] marks[grid.extent.offset_of(p)] != 0,
    ensures
        direction_tiled(grid, quads, face),
{
    assert forall|i: int, j: int, p: Point3|
        0 <= i < quads.len() && 0 <= j < quads.len() && i != j && quads[i].face == face && quads[j].face
            == face && #[trigger] quads[i].covers(p) implies !#[trigger] quads[j].covers(p) by {
        if quads[j].covers(p) {
            assert(marks[grid.extent.offset_of(p)] == i + 1);
            assert(marks[grid.extent.offset_of(p)] == j + 1);
        }
    }
    assert forall|p: Point3| #[trigger] face_exposed(grid, p, face) implies exists|i: int|
        0 <= i < quads.len() && (#[trigger] quads[i]).face == face && quads[i].covers(p) by {
        assert(marks[grid.extent.offset_of(p)] != 0);
        let i = marks[grid.extent.offset_of(p)] - 1;
        assert(grid.extent.spec_contains(p));
        assert(0 <= i < quads.len() && quads[i].face == face && quads[i].covers(p));
    }
}

/// Whether the quads cover exactly the visible faces of the block, each
/// once.
pub fn check_quads_tile(padded: &VoxelArray, quads: &Vec<FaceQuad>) -> (ok: bool)
    requires
        padded@.wf(),
    ensures
        ok == quads_tile(padded@, quads@),
{
    let mut d: usize = 0;
    while d < 6
        invariant
            d <= 6,
            padded@.wf(),
            forall|face: Direction| face.spec_index() < d ==> #[trigger] direction_tiled(padded@, quads@, face),
        decreases 6 - d,
    {
        match Direction::from_index(d) {
            Some(face) => {
                if !check_direction(padded, quads, face) {
                    return false;
                }
                assert forall|other: Direction| other.spec_index() < d + 1 implies #[trigger] direction_tiled(
                    padded@,
                    quads@,
                    other,
                ) by {
                    if other.spec_index() == d {
                        assert(other == face);
                    }
                }
            },
            None => {},
        }
        d += 1;
    }
    true
}

} // verus!
