//! Terrain generation: filling a chunk from a height field, and the material
//! that a chunk is made of.

use vstd::prelude::*;
use crate::geometry::{Extent, Point3, lemma_offset_in_range, lemma_point_at, walked};
use crate::voxel::{Voxel, VoxelArray, VoxelGrid};

verus! {

/// The position of the column through `(x, z)` in a height field over the
/// horizontal sides of `extent`: row after row along `z`, each row along `x`.
pub open spec fn column_index(extent: Extent, x: int, z: int) -> int {
    (z - extent.minimum.z) * extent.shape.x + (x - extent.minimum.x)
}

/// The voxel that generation puts at `p`: the chunk's material where the
/// height of `p` above the floor of the box is at least one and at most the
/// height of its column, and air elsewhere. The lowest layer stays empty.
pub open spec fn generated_voxel(extent: Extent, heights: Seq<i32>, material: Voxel, p: Point3) -> Voxel {
    let local_y = p.y - extent.minimum.y;
    if 1 <= local_y <= heights[column_index(extent, p.x as int, p.z as int)] {
        material
    } else {
        Voxel(0)
    }
}

/// The chunk that generation makes over `extent` from a height field and a
/// material.
pub open spec fn generated_grid(extent: Extent, heights: Seq<i32>, material: Voxel) -> VoxelGrid {
    VoxelGrid {
        extent,
        values: Seq::new(
            extent.volume() as nat,
            |i: int| generated_voxel(extent, heights, material, extent.point_at(i)),
        ),
    }
}

/// Fills the chunk over `extent`: `heights` holds one terrain height for each
/// column of the box, in the order of `column_index`, and every voxel from
/// one step above the floor up to that height gets `material`.
pub fn get_chunk_voxels(extent: Extent, heights: &Vec<i32>, material: Voxel) -> (voxels: VoxelArray)
    requires
        extent.wf(),
        heights@.len() == extent.shape.x * extent.shape.z,
    ensures
        voxels@ == generated_grid(extent, heights@, material),
        voxels@.wf(),
        forall|p: Point3|
            extent.spec_contains(p) ==> #[trigger] voxels@.voxel_at(p) == generated_voxel(
                extent,
                heights@,
                material,
                p,
            ),
{
    let mut voxels: VoxelArray = VoxelArray::fill(extent, Voxel(0));
    let min: Point3 = extent.minimum;
    let max: Point3 = extent.least_upper_bound();
    proof {
        assert forall|p: Point3| extent.spec_contains(p) implies #[trigger] voxels@.voxel_at(p)
            == Voxel(0) by {
            lemma_offset_in_range(extent, p);
        }
    }
    let mut z: i32 = min.z;
    while z < max.z
        invariant
            extent.wf(),
            heights@.len() == extent.shape.x * extent.shape.z,
            min == extent.minimum,
            max.x == extent.lub_x() && max.y == extent.lub_y() && max.z == extent.lub_z(),
            min.z <= z <= max.z,
            voxels@.wf(),
            voxels@.extent == extent,
            forall|p: Point3|
                extent.spec_contains(p) && p.z < z ==> #[trigger] voxels@.voxel_at(p)
                    == generated_voxel(extent, heights@, material, p),
            forall|p: Point3|
                extent.spec_contains(p) && p.z >= z ==> #[trigger] voxels@.voxel_at(p) == Voxel(0),
        decreases max.z - z,
    {
        let mut x: i32 = min.x;
        while x < max.x
            invariant
                extent.wf(),
                heights@.len() == extent.shape.x * extent.shape.z,
                min == extent.minimum,
                max.x == extent.lub_x() && max.y == extent.lub_y() && max.z == extent.lub_z(),
                min.z <= z < max.z,
                min.x <= x <= max.x,
                voxels@.wf(),
                voxels@.extent == extent,
                forall|p: Point3|
                    extent.spec_contains(p) && walked(p, z as int, x as int, min.y as int)
                        ==> #[trigger] voxels@.voxel_at(p) == generated_voxel(
                        extent,
                        heights@,
                        material,
                        p,
                    ),
                forall|p: Point3|
                    extent.spec_contains(p) && !walked(p, z as int, x as int, min.y as int)
                        ==> #[trigger] voxels@.voxel_at(p) == Voxel(0),
            decreases max.x - x,
        {
            let dz: i64 = z as i64 - min.z as i64;
            let dx: i64 = x as i64 - min.x as i64;
            let sx: i64 = extent.shape.x as i64;
            let columns: usize = heights.len();
            proof {
                let (a, b, c, d) = (dz as int, dx as int, sx as int, extent.shape.z as int);
                assert(0 <= a * c <= 0x7fff_ffff * 0x7fff_ffff && a * c + b < c * d)
                    by (nonlinear_arith)
                    requires
                        0 <= a < d <= 0x7fff_ffff,
                        0 <= b < c <= 0x7fff_ffff,
                ;
                assert(a * c + b < columns);
            }
            let column: usize = (dz * sx + dx) as usize;
            let height: i32 = heights[column];
            let mut y: i32 = min.y;
            while y < max.y
                invariant
                    extent.wf(),
                    min == extent.minimum,
                    max.x == extent.lub_x() && max.y == extent.lub_y() && max.z == extent.lub_z(),
                    min.z <= z < max.z,
                    min.x <= x < max.x,
                    min.y <= y <= max.y,
                    height == heights@[column_index(extent, x as int, z as int)],
                    voxels@.wf(),
                    voxels@.extent == extent,
                    forall|p: Point3|
                        extent.spec_contains(p) && walked(p, z as int, x as int, y as int)
                            ==> #[trigger] voxels@.voxel_at(p) == generated_voxel(
                            extent,
                            heights@,
                            material,
                            p,
                        ),
                    forall|p: Point3|
                        extent.spec_contains(p) && !walked(p, z as int, x as int, y as int)
                            ==> #[trigger] voxels@.voxel_at(p) == Voxel(0),
                decreases max.y - y,
            {
                let local_y: i64 = y as i64 - min.y as i64;
                if 1 <= local_y && local_y <= height as i64 {
                    voxels.put(Point3 { x, y, z }, material);
                }
                y += 1;
            }
            x += 1;
        }
        z += 1;
    }
    proof {
        let grid = generated_grid(extent, heights@, material);
        assert forall|i: int| 0 <= i < grid.values.len() implies voxels@.values[i]
            == grid.values[i] by {
            lemma_point_at(extent, i);
            assert(voxels@.voxel_at(extent.point_at(i)) == generated_voxel(
                extent,
                heights@,
                material,
                extent.point_at(i),
            ));
        }
        assert(voxels@.values =~= grid.values);
    }
    voxels
}

/// The material of the chunk at `origin` in a world with the given seed:
/// one of the materials 1, 2 and 3, fixed by the horizontal coordinates of
/// the origin and the seed.
pub open spec fn spec_chunk_material(origin: Point3, seed: u32) -> Voxel {
    Voxel((1 + ((origin.x - i32::MIN) * 31 + (origin.z - i32::MIN) * 17 + seed) % 3) as u8)
}

pub fn chunk_material(origin: Point3, seed: u32) -> (material: Voxel)
    ensures
        material == spec_chunk_material(origin, seed),
        1 <= material.0 <= 3,
{
    let x: u64 = (origin.x as i64 + 0x8000_0000) as u64;
    let z: u64 = (origin.z as i64 + 0x8000_0000) as u64;
    let mixed: u64 = x * 31 + z * 17 + seed as u64;
    Voxel((1 + mixed % 3) as u8)
}

/// Fixed test terrains: a few single voxels in an otherwise empty block.
#[derive(Clone, Copy, Debug, PartialEq, Eq, Structural)]
pub enum Terrain {
    /// One voxel of each of the materials 1 to 4, along a diagonal.
    AllBlocks,
    /// Ten voxels of material 1 that touch at faces, edges and corners.
    Debug,
}

/// The box of the test terrains: forty voxels wide in every direction around
/// the origin, and one more on every side.
pub open spec fn terrain_extent() -> Extent {
    Extent { minimum: Point3 { x: -21i32, y: -21i32, z: -21i32 }, shape: Point3 { x: 42, y: 42, z: 42 } }
}

/// Whether `p` has the given coordinates.
pub open spec fn at(p: Point3, x: i32, y: i32, z: i32) -> bool {
    p.x == x && p.y == y && p.z == z
}

/// The voxel of a test terrain at `p`.
pub open spec fn terrain_voxel(terrain: Terrain, p: Point3) -> Voxel {
    match terrain {
        Terrain::AllBlocks => {
            if at(p, 1, 1, 1) {
                Voxel(1)
            } else if at(p, 2, 2, 2) {
                Voxel(2)
            } else if at(p, 3, 3, 3) {
                Voxel(3)
            } else if at(p, 4, 4, 4) {
                Voxel(4)
            } else {
                Voxel(0)
            }
        },
        Terrain::Debug => {
            if at(p, 5, 2, 5) || at(p, 7, 2, 5) || at(p, 7, 3, 6) || at(p, 9, 2, 5) || at(p, 9, 3, 6)
                || at(p, 10, 3, 6) || at(p, 12, 2, 5) || at(p, 12, 3, 6) || at(p, 13, 3, 6) || at(
                p,
                13,
                3,
                5,
            ) {
                Voxel(1)
            } else {
                Voxel(0)
            }
        },
    }
}

fn put_block(voxels: &mut VoxelArray, x: i32, y: i32, z: i32, material: u8)
    requires
        old(voxels)@.wf(),
        old(voxels)@.extent == terrain_extent(),
        -21 <= x < 21 && -21 <= y < 21 && -21 <= z < 21,
    ensures
        final(voxels)@.wf(),
        final(voxels)@.extent == terrain_extent(),
        forall|q: Point3| #[trigger]
            final(voxels)@.voxel_at(q) == (if at(q, x, y, z) {
                Voxel(material)
            } else {
                old(voxels)@.voxel_at(q)
            }),
{
    voxels.put(Point3 { x, y, z }, Voxel(material));
}

impl Terrain {
    /// The voxels of the test terrain.
    pub fn get_voxels(&self) -> (voxels: VoxelArray)
        ensures
            voxels@.wf(),
            voxels@.extent == terrain_extent(),
            forall|p: Point3| #[trigger] voxels@.voxel_at(p) == terrain_voxel(*self, p),
    {
        let extent = Extent {
            minimum: Point3 { x: -21, y: -21, z: -21 },
            shape: Point3 { x: 42, y: 42, z: 42 },
        };
        let mut voxels: VoxelArray = VoxelArray::fill(extent, Voxel(0));
        proof {
            assert forall|p: Point3| #[trigger] voxels@.voxel_at(p) == Voxel(0) by {
                if extent.spec_contains(p) {
                    lemma_offset_in_range(extent, p);
                }
            }
        }
        match self {
            Terrain::AllBlocks => {
                put_block(&mut voxels, 4, 4, 4, 4);
                put_block(&mut voxels, 3, 3, 3, 3);
                put_block(&mut voxels, 2, 2, 2, 2);
                put_block(&mut voxels, 1, 1, 1, 1);
            },
            Terrain::Debug => {
                put_block(&mut voxels, 5, 2, 5, 1);
                put_block(&mut voxels, 7, 2, 5, 1);
                put_block(&mut voxels, 7, 3, 6, 1);
                put_block(&mut voxels, 9, 2, 5, 1);
                put_block(&mut voxels, 9, 3, 6, 1);
                put_block(&mut voxels, 10, 3, 6, 1);
                put_block(&mut voxels, 12, 2, 5, 1);
                put_block(&mut voxels, 12, 3, 6, 1);
                put_block(&mut voxels, 13, 3, 6, 1);
                put_block(&mut voxels, 13, 3, 5, 1);
            },
        }
        voxels
    }
}

} // verus!
