use voxel_terrain::generator::{chunk_material, get_chunk_voxels};
use voxel_terrain::geometry::{Extent, Point3};
use voxel_terrain::voxel::Voxel;

#[test]
fn columns_are_filled_up_to_their_height() {
    let extent = Extent::from_min_and_shape(Point3::new(16, 0, -16), Point3::new(2, 5, 2));
    // Columns in the order (x, z) = (16, -16), (17, -16), (16, -15), (17, -15).
    let heights = vec![0, 1, 3, 9];
    let chunk = get_chunk_voxels(extent, &heights, Voxel(2));
    for y in 0..5 {
        assert_eq!(chunk.get(Point3::new(16, y, -16)), Voxel(0));
        assert_eq!(chunk.get(Point3::new(17, y, -16)), Voxel(if y == 1 { 2 } else { 0 }));
        assert_eq!(
            chunk.get(Point3::new(16, y, -15)),
            Voxel(if (1..=3).contains(&y) { 2 } else { 0 })
        );
        assert_eq!(chunk.get(Point3::new(17, y, -15)), Voxel(if y >= 1 { 2 } else { 0 }));
    }
}

#[test]
fn floor_layer_stays_empty() {
    let extent = Extent::from_min_and_shape(Point3::new(0, 0, 0), Point3::new(4, 4, 4));
    let heights = vec![100; 16];
    let chunk = get_chunk_voxels(extent, &heights, Voxel(1));
    for x in 0..4 {
        for z in 0..4 {
            assert_eq!(chunk.get(Point3::new(x, 0, z)), Voxel(0));
            assert_eq!(chunk.get(Point3::new(x, 3, z)), Voxel(1));
        }
    }
}

#[test]
fn generation_is_repeatable() {
    let extent = Extent::from_min_and_shape(Point3::new(0, 0, 0), Point3::new(3, 6, 2));
    let heights = vec![2, 0, 5, 1, 4, 3];
    let material = chunk_material(extent.minimum, 1234);
    let a = get_chunk_voxels(extent, &heights, material);
    let b = get_chunk_voxels(extent, &heights, material);
    assert_eq!(a.values(), b.values());
    assert_eq!(chunk_material(extent.minimum, 1234), material);
}

#[test]
fn material_is_one_of_three() {
    for x in -5..5 {
        for z in -5..5 {
            let m = chunk_material(Point3::new(x * 16, 0, z * 16), 1234).0;
            assert!((1..=3).contains(&m));
        }
    }
    // (2^31 * 31 + 2^31 * 17 + 0) % 3 = (2 * 1 + 2 * 2) % 3 = 0.
    assert_eq!(chunk_material(Point3::new(0, 0, 0), 0), Voxel(1));
    assert_eq!(chunk_material(Point3::new(0, 0, 0), 1), Voxel(2));
    assert_eq!(chunk_material(Point3::new(1, 0, 0), 1), Voxel(3));
}
