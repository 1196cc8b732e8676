use voxel_terrain::geometry::{Extent, Point3};
use voxel_terrain::mesher::{can_mesh, generate_mesh, mesh_padded};
use voxel_terrain::quads::Direction;
use voxel_terrain::store::VoxelStore;
use voxel_terrain::voxel::{Voxel, VoxelArray};

fn flat_store() -> VoxelStore {
    let mut store = VoxelStore::new(Point3::new(16, 1, 16)).unwrap();
    let extent = Extent::from_min_and_shape(Point3::new(0, 0, 0), Point3::new(16, 1, 16));
    let chunk = VoxelArray::fill(extent, Voxel(1));
    assert!(store.write_chunk(Point3::new(0, 0, 0), chunk));
    store
}

#[test]
fn flat_chunk_meshes_to_six_quads() {
    let store = flat_store();
    let extent = Extent::from_min_and_shape(Point3::new(0, 0, 0), Point3::new(16, 1, 16));
    assert!(can_mesh(&store, extent));
    let mesh = generate_mesh(&store, extent).unwrap();
    assert_eq!(mesh.positions.len(), 6 * 4);
    assert_eq!(mesh.indices.len(), 6 * 6);
    assert_eq!(mesh.normals.len(), 24);
    assert_eq!(mesh.tex_coords.len(), 24);
    assert_eq!(mesh.vert_vox_mat_vals.len(), 24);
    assert_eq!(mesh.vert_ao_vals.len(), 24);
}

#[test]
fn empty_chunk_has_no_mesh() {
    let store = VoxelStore::new(Point3::new(16, 16, 16)).unwrap();
    let extent = Extent::from_min_and_shape(Point3::new(0, 0, 0), Point3::new(16, 16, 16));
    assert!(generate_mesh(&store, extent).is_none());
}

#[test]
fn single_voxel_has_six_unit_quads() {
    let extent = Extent::from_min_and_shape(Point3::new(-1, -1, -1), Point3::new(3, 3, 3));
    let mut padded = VoxelArray::fill(extent, Voxel(0));
    padded.put(Point3::new(0, 0, 0), Voxel(2));
    let mesh = mesh_padded(&padded).unwrap();
    assert_eq!(mesh.positions.len(), 24);
    // The first group is the face that looks against the x axis.
    assert_eq!(mesh.normals[0], Direction::NegX.normal());
    assert_eq!(mesh.positions[0], Point3::new(0, 0, 0));
    assert_eq!(mesh.positions[1], Point3::new(0, 0, 1));
    assert_eq!(mesh.positions[2], Point3::new(0, 1, 0));
    assert_eq!(mesh.positions[3], Point3::new(0, 1, 1));
    assert_eq!(mesh.vert_vox_mat_vals[0], 3);
}
