use voxel_terrain::geometry::{Extent, Point3};
use voxel_terrain::store::VoxelStore;
use voxel_terrain::voxel::{Voxel, VoxelArray};

#[test]
fn store_needs_power_of_two_chunks() {
    assert!(VoxelStore::new(Point3::new(16, 256, 16)).is_some());
    assert!(VoxelStore::new(Point3::new(1, 1, 1)).is_some());
    assert!(VoxelStore::new(Point3::new(16, 15, 16)).is_none());
    assert!(VoxelStore::new(Point3::new(0, 16, 16)).is_none());
    assert!(VoxelStore::new(Point3::new(-16, 16, 16)).is_none());
    // 2^33 voxels do not fit.
    assert!(VoxelStore::new(Point3::new(2048, 2048, 2048)).is_none());
}

#[test]
fn chunks_are_written_whole_and_on_the_grid() {
    let mut store = VoxelStore::new(Point3::new(4, 2, 4)).unwrap();
    let shape = Point3::new(4, 2, 4);
    let on_grid = Extent::from_min_and_shape(Point3::new(-4, 2, 8), shape);
    assert!(store.is_chunk_key(Point3::new(-4, 2, 8)));
    assert!(!store.is_chunk_key(Point3::new(-4, 1, 8)));
    assert!(!store.contains_chunk(Point3::new(-4, 2, 8)));
    assert!(store.write_chunk(Point3::new(-4, 2, 8), VoxelArray::fill(on_grid, Voxel(5))));
    assert!(store.contains_chunk(Point3::new(-4, 2, 8)));
    assert!(!store.contains_chunk(Point3::new(0, 2, 8)));
    assert!(!store.contains_chunk(Point3::new(-3, 2, 8)));

    let off_grid = Extent::from_min_and_shape(Point3::new(1, 0, 0), shape);
    assert!(!store.write_chunk(Point3::new(1, 0, 0), VoxelArray::fill(off_grid, Voxel(5))));
    let wrong_box = Extent::from_min_and_shape(Point3::new(0, 0, 0), Point3::new(4, 2, 2));
    assert!(!store.write_chunk(Point3::new(0, 0, 0), VoxelArray::fill(wrong_box, Voxel(5))));
    let elsewhere = Extent::from_min_and_shape(Point3::new(4, 0, 0), shape);
    assert!(!store.write_chunk(Point3::new(0, 0, 0), VoxelArray::fill(elsewhere, Voxel(5))));
    assert!(!store.contains_chunk(Point3::new(0, 0, 0)));
}

#[test]
fn reading_spans_chunks_and_fills_gaps_with_air() {
    let mut store = VoxelStore::new(Point3::new(4, 4, 4)).unwrap();
    let shape = Point3::new(4, 4, 4);
    let mut a = VoxelArray::fill(Extent::from_min_and_shape(Point3::new(0, 0, 0), shape), Voxel(0));
    a.put(Point3::new(3, 0, 0), Voxel(1));
    a.put(Point3::new(0, 3, 3), Voxel(2));
    let mut b = VoxelArray::fill(Extent::from_min_and_shape(Point3::new(-4, 0, 0), shape), Voxel(0));
    b.put(Point3::new(-1, 0, 0), Voxel(3));
    assert!(store.write_chunk(Point3::new(0, 0, 0), a));
    assert!(store.write_chunk(Point3::new(-4, 0, 0), b));

    let wanted = Extent::from_min_and_shape(Point3::new(-2, -1, -1), Point3::new(6, 6, 6));
    assert!(store.can_read(wanted));
    let got = store.read_extent(wanted);
    assert_eq!(got.extent(), wanted);
    assert_eq!(got.values().len(), 216);
    assert_eq!(got.get(Point3::new(3, 0, 0)), Voxel(1));
    assert_eq!(got.get(Point3::new(0, 3, 3)), Voxel(2));
    assert_eq!(got.get(Point3::new(-1, 0, 0)), Voxel(3));
    assert_eq!(got.get(Point3::new(-2, 0, 0)), Voxel(0));
    assert_eq!(got.get(Point3::new(0, -1, 0)), Voxel(0));
    assert_eq!(got.get(Point3::new(0, 4, 0)), Voxel(0));
    let occupied = got.values().iter().filter(|v| v.0 != 0).count();
    assert_eq!(occupied, 3);
    // Row-major order: x runs fastest, z slowest.
    let i = (1 * 36 + 1 * 6 + 5) as usize;
    assert_eq!(got.values()[i], Voxel(1));
}

#[test]
fn a_chunk_is_replaced_by_a_later_write() {
    let mut store = VoxelStore::new(Point3::new(2, 2, 2)).unwrap();
    let e = Extent::from_min_and_shape(Point3::new(0, 0, 0), Point3::new(2, 2, 2));
    assert!(store.write_chunk(Point3::new(0, 0, 0), VoxelArray::fill(e, Voxel(1))));
    assert!(store.write_chunk(Point3::new(0, 0, 0), VoxelArray::fill(e, Voxel(2))));
    assert_eq!(store.read_extent(e).get(Point3::new(1, 1, 1)), Voxel(2));
}

#[test]
fn dense_arrays_check_their_size() {
    let e = Extent::from_min_and_shape(Point3::new(0, 0, 0), Point3::new(2, 1, 2));
    assert!(VoxelArray::new(e, vec![Voxel(0); 4]).is_some());
    assert!(VoxelArray::new(e, vec![Voxel(0); 3]).is_none());
    let bad = Extent::from_min_and_shape(Point3::new(0, 0, 0), Point3::new(-2, 1, 2));
    assert!(VoxelArray::new(bad, Vec::new()).is_none());
    let a = VoxelArray::new(e, vec![Voxel(1), Voxel(2), Voxel(3), Voxel(4)]).unwrap();
    assert_eq!(a.get(Point3::new(1, 0, 0)), Voxel(2));
    assert_eq!(a.get(Point3::new(0, 0, 1)), Voxel(3));
    assert_eq!(a.get(Point3::new(5, 0, 1)), Voxel(0));
    assert!(a.is_occupied(Point3::new(1, 0, 1)));
    assert!(!a.is_occupied(Point3::new(1, 1, 1)));
}

#[test]
fn voxel_set_and_default() {
    let mut v = Voxel::default();
    assert_eq!(v, Voxel::air());
    v.set(7);
    assert_eq!(v, Voxel(7));
}
