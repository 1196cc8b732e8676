use voxel_terrain::coverage::{check_direction, check_quads_tile, is_face_exposed};
use voxel_terrain::geometry::{Extent, Point3};
use voxel_terrain::mesher::mesh_padded;
use voxel_terrain::quads::{Direction, FaceQuad};
use voxel_terrain::voxel::{Voxel, VoxelArray};

const FACES: [Direction; 6] = [
    Direction::NegX,
    Direction::NegY,
    Direction::NegZ,
    Direction::PosX,
    Direction::PosY,
    Direction::PosZ,
];

fn padded(shape: (i32, i32, i32)) -> VoxelArray {
    let extent = Extent::from_min_and_shape(
        Point3::new(-1, -1, -1),
        Point3::new(shape.0 + 2, shape.1 + 2, shape.2 + 2),
    );
    VoxelArray::fill(extent, Voxel(0))
}

fn count_exposed(block: &VoxelArray) -> usize {
    let e = block.extent();
    let mut n = 0;
    for z in e.minimum.z..e.minimum.z + e.shape.z {
        for y in e.minimum.y..e.minimum.y + e.shape.y {
            for x in e.minimum.x..e.minimum.x + e.shape.x {
                for f in FACES {
                    if is_face_exposed(block, Point3::new(x, y, z), f) {
                        n += 1;
                    }
                }
            }
        }
    }
    n
}

fn unit_quads(block: &VoxelArray) -> Vec<FaceQuad> {
    let e = block.extent();
    let mut quads = Vec::new();
    for f in FACES {
        for z in e.minimum.z..e.minimum.z + e.shape.z {
            for y in e.minimum.y..e.minimum.y + e.shape.y {
                for x in e.minimum.x..e.minimum.x + e.shape.x {
                    let p = Point3::new(x, y, z);
                    if is_face_exposed(block, p, f) {
                        quads.push(FaceQuad {
                            face: f,
                            minimum: p,
                            width: 1,
                            height: 1,
                            material: block.get(p).0,
                        });
                    }
                }
            }
        }
    }
    quads
}

#[test]
fn exposure_needs_an_occupied_voxel_and_an_empty_neighbour() {
    let mut block = padded((2, 1, 1));
    block.put(Point3::new(0, 0, 0), Voxel(1));
    block.put(Point3::new(1, 0, 0), Voxel(1));
    assert!(is_face_exposed(&block, Point3::new(0, 0, 0), Direction::NegX));
    assert!(!is_face_exposed(&block, Point3::new(0, 0, 0), Direction::PosX));
    assert!(is_face_exposed(&block, Point3::new(1, 0, 0), Direction::PosX));
    assert!(is_face_exposed(&block, Point3::new(0, 0, 0), Direction::PosY));
    // Empty voxels and voxels of the padding have no visible face.
    assert!(!is_face_exposed(&block, Point3::new(2, 0, 0), Direction::NegX));
    block.put(Point3::new(-1, 0, 0), Voxel(1));
    assert!(!is_face_exposed(&block, Point3::new(-1, 0, 0), Direction::PosY));
    assert!(!is_face_exposed(&block, Point3::new(0, 0, 0), Direction::NegX));
    // Four sides of the first voxel and five of the second.
    assert_eq!(count_exposed(&block), 9);
}

#[test]
fn unit_quads_tile_the_visible_faces() {
    let mut block = padded((3, 3, 3));
    block.put(Point3::new(0, 0, 0), Voxel(1));
    block.put(Point3::new(1, 0, 0), Voxel(2));
    block.put(Point3::new(1, 1, 0), Voxel(1));
    block.put(Point3::new(2, 2, 2), Voxel(3));
    let quads = unit_quads(&block);
    assert_eq!(quads.len(), count_exposed(&block));
    assert!(check_quads_tile(&block, &quads));
}

#[test]
fn gaps_overlaps_and_wrong_quads_are_found() {
    let mut block = padded((2, 1, 2));
    for x in 0..2 {
        for z in 0..2 {
            block.put(Point3::new(x, 0, z), Voxel(1));
        }
    }
    let top = FaceQuad {
        face: Direction::PosY,
        minimum: Point3::new(0, 0, 0),
        width: 2,
        height: 2,
        material: 1,
    };
    assert!(check_direction(&block, &vec![top], Direction::PosY));
    // The quads of other directions are missing.
    assert!(!check_quads_tile(&block, &vec![top]));
    assert!(!check_direction(&block, &vec![top], Direction::NegY));

    // A gap: one row of the top is left out.
    let half = FaceQuad { height: 1, ..top };
    assert!(!check_direction(&block, &vec![half], Direction::PosY));
    let other_half = FaceQuad { minimum: Point3::new(0, 0, 1), ..half };
    assert!(check_direction(&block, &vec![half, other_half], Direction::PosY));

    // An overlap: a face is covered twice.
    assert!(!check_direction(&block, &vec![top, half], Direction::PosY));
    assert!(!check_direction(&block, &vec![top, top], Direction::PosY));

    // A quad of another material, an empty quad, a quad over hidden or
    // outside faces.
    assert!(!check_direction(&block, &vec![FaceQuad { material: 2, ..top }], Direction::PosY));
    assert!(!check_direction(&block, &vec![FaceQuad { width: 0, ..top }], Direction::PosY));
    assert!(!check_direction(&block, &vec![FaceQuad { width: 3, ..top }], Direction::PosY));
    let buried = FaceQuad { face: Direction::PosX, width: 1, height: 1, ..top };
    assert!(!check_direction(&block, &vec![buried], Direction::PosX));
}

#[test]
fn an_empty_block_is_tiled_by_no_quads() {
    let block = padded((2, 2, 2));
    assert!(check_quads_tile(&block, &Vec::new()));
    let stray = FaceQuad {
        face: Direction::PosY,
        minimum: Point3::new(0, 0, 0),
        width: 1,
        height: 1,
        material: 1,
    };
    assert!(!check_quads_tile(&block, &vec![stray]));
}

struct Lcg(u64);

impl Lcg {
    fn next(&mut self) -> u64 {
        self.0 = self.0.wrapping_mul(6364136223846793005).wrapping_add(1442695040888963407);
        self.0 >> 33
    }
}

#[test]
fn greedy_meshes_of_scattered_blocks_cover_the_visible_faces() {
    let mut rng = Lcg(42);
    for round in 0..40 {
        let shape = (
            1 + (rng.next() % 5) as i32,
            1 + (rng.next() % 5) as i32,
            1 + (rng.next() % 5) as i32,
        );
        let mut block = padded(shape);
        let e = block.extent();
        // The padding is filled too: neighbouring chunks hide faces.
        for z in e.minimum.z..e.minimum.z + e.shape.z {
            for y in e.minimum.y..e.minimum.y + e.shape.y {
                for x in e.minimum.x..e.minimum.x + e.shape.x {
                    let r = rng.next() % 4;
                    let material = if round % 2 == 0 { r.min(2) as u8 } else { (r % 2) as u8 };
                    block.put(Point3::new(x, y, z), Voxel(material));
                }
            }
        }
        let exposed = count_exposed(&block);
        // A mesh comes back exactly if the quads of the greedy mesher tile
        // the visible faces and there is at least one.
        match mesh_padded(&block) {
            Some(mesh) => {
                assert!(exposed > 0);
                assert_eq!(mesh.positions.len() % 4, 0);
                assert!(mesh.positions.len() / 4 <= exposed);
                // The area of the quads is the number of visible faces.
                let mut area = 0;
                for q in 0..mesh.positions.len() / 4 {
                    let (w, _) = mesh.tex_coords[4 * q + 1];
                    let (_, h) = mesh.tex_coords[4 * q + 2];
                    area += (w * h) as usize;
                }
                assert_eq!(area, exposed);
            }
            None => assert_eq!(exposed, 0),
        }
    }
}
