use voxel_terrain::ao::get_ao_at_vert;
use voxel_terrain::geometry::{Extent, Point3};
use voxel_terrain::quads::Direction;
use voxel_terrain::voxel::{Voxel, VoxelArray};

fn block(cells: &[(i32, i32, i32)]) -> VoxelArray {
    let extent = Extent::from_min_and_shape(Point3::new(-2, -2, -2), Point3::new(5, 5, 5));
    let mut a = VoxelArray::fill(extent, Voxel(0));
    for &(x, y, z) in cells {
        a.put(Point3::new(x, y, z), Voxel(1));
    }
    a
}

// Around the vertex (0, 0, 0) of a face with normal axis y the top cells are
// (-1, 0, 0), (0, 0, -1), (0, 0, 0) and (-1, 0, -1), in this order, and the
// bottom cells lie one step lower.
const TOP0: (i32, i32, i32) = (-1, 0, 0);
const TOP1: (i32, i32, i32) = (0, 0, -1);
const TOP2: (i32, i32, i32) = (0, 0, 0);
const TOP3: (i32, i32, i32) = (-1, 0, -1);

fn ao(cells: &[(i32, i32, i32)]) -> i32 {
    get_ao_at_vert(Point3::new(0, 0, 0), Direction::PosY, &block(cells))
}

#[test]
fn no_edge_cell_means_no_occlusion() {
    assert_eq!(ao(&[]), 0);
    // Occupied top cells that rest on occupied cells are no edge cells.
    assert_eq!(ao(&[TOP0, (-1, -1, 0)]), 0);
    assert_eq!(ao(&[TOP0, (-1, -1, 0), TOP2, (0, -1, 0)]), 0);
    // Bottom cells alone do not count.
    assert_eq!(ao(&[(0, -1, 0), (-1, -1, -1)]), 0);
}

#[test]
fn a_lone_edge_cell_weighs_nothing() {
    assert_eq!(ao(&[TOP0]), 0);
    assert_eq!(ao(&[TOP1]), 0);
    assert_eq!(ao(&[TOP2]), 0);
    assert_eq!(ao(&[TOP3]), 0);
}

#[test]
fn sides_and_corner_are_counted() {
    // Edge cell top0: sides top2 and top3, corner top1.
    assert_eq!(ao(&[TOP0, TOP2]), 1);
    assert_eq!(ao(&[TOP0, TOP3]), 1);
    assert_eq!(ao(&[TOP0, TOP1]), 1);
    assert_eq!(ao(&[TOP0, TOP1, TOP2]), 2);
    assert_eq!(ao(&[TOP0, TOP1, TOP3]), 2);
    // Edge cell top2: sides top0 and top1, corner top3; top0 rests on a cell.
    assert_eq!(ao(&[TOP2, TOP0, (-1, -1, 0)]), 1);
    assert_eq!(ao(&[TOP2, TOP3, TOP0, (-1, -1, 0), (-1, -1, -1)]), 2);
}

#[test]
fn both_sides_give_the_full_weight() {
    assert_eq!(ao(&[TOP0, TOP2, TOP3]), 3);
    assert_eq!(ao(&[TOP0, TOP1, TOP2, TOP3]), 3);
    // Edge cell top1 has the same sides as top0.
    assert_eq!(ao(&[TOP1, TOP2, TOP3, TOP0, (-1, -1, 0)]), 3);
}

#[test]
fn the_first_edge_cell_in_order_decides() {
    // top0 and top1 are both edge cells; top0 comes first, and its corner is
    // top1.
    assert_eq!(ao(&[TOP0, TOP1]), 1);
    // With top0 resting on a cell, top1 is the edge cell and top0 its corner.
    assert_eq!(ao(&[TOP0, (-1, -1, 0), TOP1]), 1);
    // top3 is looked at last: sides top0 and top1, corner top2.
    assert_eq!(ao(&[TOP3, TOP2, (0, -1, 0)]), 1);
}

#[test]
fn cells_follow_the_axes_of_the_face() {
    // On a face with normal axis x, u is z and v is y: the top cells around
    // (0, 0, 0) are (0, 0, -1), (0, -1, 0), (0, 0, 0) and (0, -1, -1), and the
    // bottom cells lie one step back along x.
    let cells = [(0, 0, -1), (0, 0, 0), (0, -1, -1)];
    assert_eq!(get_ao_at_vert(Point3::new(0, 0, 0), Direction::PosX, &block(&cells)), 3);
    assert_eq!(get_ao_at_vert(Point3::new(0, 0, 0), Direction::NegX, &block(&cells)), 3);
    // The first top cell rests on (-1, 0, -1), so the third is the edge cell
    // and the first one of its sides.
    let resting = [(0, 0, -1), (-1, 0, -1), (0, 0, 0)];
    assert_eq!(get_ao_at_vert(Point3::new(0, 0, 0), Direction::PosX, &block(&resting)), 1);
    let all_resting = [(0, 0, -1), (-1, 0, -1), (0, 0, 0), (-1, 0, 0)];
    assert_eq!(get_ao_at_vert(Point3::new(0, 0, 0), Direction::PosX, &block(&all_resting)), 0);
    // On a face with normal axis z, u is x and v is y.
    let cells = [(-1, 0, 0), (0, 0, 0)];
    assert_eq!(get_ao_at_vert(Point3::new(0, 0, 0), Direction::PosZ, &block(&cells)), 1);
    assert_eq!(get_ao_at_vert(Point3::new(0, 0, 0), Direction::PosY, &block(&cells)), 1);
}

#[test]
fn cells_outside_the_block_are_empty() {
    let extent = Extent::from_min_and_shape(Point3::new(0, 0, 0), Point3::new(1, 1, 1));
    let a = VoxelArray::fill(extent, Voxel(1));
    // Only top2 = (0, 0, 0) is inside.
    assert_eq!(get_ao_at_vert(Point3::new(0, 0, 0), Direction::PosY, &a), 0);
    // Only top3 = (0, 0, 0) is inside.
    assert_eq!(get_ao_at_vert(Point3::new(1, 0, 1), Direction::PosY, &a), 0);
    assert_eq!(get_ao_at_vert(Point3::new(i32::MIN, i32::MIN, i32::MIN), Direction::NegZ, &a), 0);
    assert_eq!(get_ao_at_vert(Point3::new(i32::MAX, i32::MAX, i32::MAX), Direction::PosX, &a), 0);
}

#[test]
fn weight_is_at_most_three() {
    let mut seed: u64 = 7;
    for _ in 0..200 {
        let mut cells = Vec::new();
        for x in -1..1 {
            for y in -1..1 {
                for z in -1..1 {
                    seed = seed.wrapping_mul(6364136223846793005).wrapping_add(1442695040888963407);
                    if (seed >> 40) % 2 == 0 {
                        cells.push((x, y, z));
                    }
                }
            }
        }
        let a = block(&cells);
        for face in [Direction::NegX, Direction::PosY, Direction::NegZ] {
            let w = get_ao_at_vert(Point3::new(0, 0, 0), face, &a);
            assert!((0..=3).contains(&w));
        }
    }
}
