use voxel_terrain::collider::{collider_shape, triangles};
use voxel_terrain::file_name::chunk_file_name;
use voxel_terrain::generator::Terrain;
use voxel_terrain::geometry::{Extent, Point3};
use voxel_terrain::mesher::{generate_chunk_meshes, generate_mesh, mesh_padded};
use voxel_terrain::plugin::{
    check_assets, setup_finished, CursorMode, CursorState, FPPlayerControllerState, PluginState,
};
use voxel_terrain::store::VoxelStore;
use voxel_terrain::voxel::{Voxel, VoxelArray};

fn name(x: i32, z: i32) -> String {
    String::from_utf8(chunk_file_name(Point3::new(x, 77, z))).unwrap()
}

#[test]
fn file_names_hold_the_horizontal_coordinates() {
    assert_eq!(name(0, 0), "chunk_0_0");
    assert_eq!(name(16, -32), "chunk_16_-32");
    assert_eq!(name(-7, 1024), "chunk_-7_1024");
    assert_eq!(name(i32::MIN, i32::MAX), "chunk_-2147483648_2147483647");
    assert_eq!(name(10, 100), format!("chunk_{}_{}", 10, 100));
    assert_eq!(name(-909, 90), format!("chunk_{}_{}", -909, 90));
}

#[test]
fn triangles_take_indices_by_three() {
    assert_eq!(triangles(&vec![0, 1, 2, 1, 3, 2]), vec![(0, 1, 2), (1, 3, 2)]);
    assert_eq!(triangles(&vec![5, 6, 7, 8]), vec![(5, 6, 7)]);
    assert!(triangles(&vec![1, 2]).is_empty());
    assert!(triangles(&Vec::new()).is_empty());
}

#[test]
fn collider_has_the_buffers_of_the_mesh() {
    let e = Extent::from_min_and_shape(Point3::new(-1, -1, -1), Point3::new(4, 3, 3));
    let mut block = VoxelArray::fill(e, Voxel(0));
    block.put(Point3::new(0, 0, 0), Voxel(1));
    block.put(Point3::new(1, 0, 0), Voxel(2));
    let mesh = mesh_padded(&block).unwrap();
    let shape = collider_shape(&mesh);
    assert_eq!(shape.vertices, mesh.positions);
    assert_eq!(shape.triangles.len() * 3, mesh.indices.len());
    for (t, tri) in shape.triangles.iter().enumerate() {
        assert_eq!(*tri, (mesh.indices[3 * t], mesh.indices[3 * t + 1], mesh.indices[3 * t + 2]));
        assert!((tri.0 as usize) < shape.vertices.len());
        assert!((tri.1 as usize) < shape.vertices.len());
        assert!((tri.2 as usize) < shape.vertices.len());
    }
}

#[test]
fn test_terrains_hold_their_voxels() {
    let all = Terrain::AllBlocks.get_voxels();
    assert_eq!(all.extent().minimum, Point3::new(-21, -21, -21));
    assert_eq!(all.extent().shape, Point3::new(42, 42, 42));
    for m in 1..=4 {
        assert_eq!(all.get(Point3::new(m, m, m)), Voxel(m as u8));
    }
    assert_eq!(all.values().iter().filter(|v| v.0 != 0).count(), 4);
    let debug = Terrain::Debug.get_voxels();
    assert_eq!(debug.values().iter().filter(|v| v.0 != 0).count(), 10);
    assert_eq!(debug.get(Point3::new(13, 3, 5)), Voxel(1));
    assert_eq!(debug.get(Point3::new(5, 2, 5)), Voxel(1));
    assert_eq!(debug.get(Point3::new(5, 3, 5)), Voxel(0));
    // Four lone voxels have six faces each.
    assert_eq!(mesh_padded(&all).unwrap().positions.len(), 4 * 6 * 4);
}

#[test]
fn batch_meshing_is_meshing_one_by_one() {
    let mut store = VoxelStore::new(Point3::new(4, 4, 4)).unwrap();
    let shape = Point3::new(4, 4, 4);
    let first = Extent::from_min_and_shape(Point3::new(0, 0, 0), shape);
    let second = Extent::from_min_and_shape(Point3::new(4, 0, 0), shape);
    let third = Extent::from_min_and_shape(Point3::new(8, 0, 0), shape);
    assert!(store.write_chunk(first.minimum, VoxelArray::fill(first, Voxel(1))));
    assert!(store.write_chunk(second.minimum, VoxelArray::fill(second, Voxel(1))));
    let meshes = generate_chunk_meshes(&store, &vec![first, second, third]);
    assert_eq!(meshes.len(), 3);
    // The side of the first chunk towards the second is hidden: five quads.
    assert_eq!(meshes[0].as_ref().unwrap().positions.len(), 5 * 4);
    assert_eq!(meshes[1].as_ref().unwrap().positions.len(), 5 * 4);
    assert!(meshes[2].is_none());
    let alone = generate_mesh(&store, first).unwrap();
    assert_eq!(alone.positions, meshes[0].as_ref().unwrap().positions);
    assert_eq!(alone.indices, meshes[0].as_ref().unwrap().indices);
}

#[test]
fn start_up_goes_through_its_stages() {
    assert_eq!(check_assets(PluginState::PreInit, false), PluginState::PreInit);
    assert_eq!(check_assets(PluginState::PreInit, true), PluginState::Init);
    assert_eq!(check_assets(PluginState::Init, true), PluginState::Init);
    assert_eq!(check_assets(PluginState::Finished, true), PluginState::Finished);
    assert_eq!(setup_finished(PluginState::Init), PluginState::Finished);
    assert_eq!(setup_finished(PluginState::PreInit), PluginState::PreInit);
    assert_eq!(setup_finished(PluginState::Finished), PluginState::Finished);
}

#[test]
fn escape_turns_the_cursor_lock_around() {
    let mut cursor = CursorState::new();
    assert!(!cursor.is_locked());
    assert_eq!(cursor.toggle(false), None);
    assert!(!cursor.is_locked());
    assert_eq!(cursor.toggle(true), Some(CursorMode { locked: true, visible: false }));
    assert!(cursor.is_locked());
    assert_eq!(cursor.toggle(true), Some(CursorMode { locked: false, visible: true }));

    let mut player = FPPlayerControllerState::new();
    assert!(player.is_locked());
    assert_eq!(player.toggle(true), Some(CursorMode { locked: false, visible: true }));
    assert!(!player.is_locked());
}
