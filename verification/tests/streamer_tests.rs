use voxel_terrain::geometry::Point3;
use voxel_terrain::store::VoxelStore;
use voxel_terrain::streamer::{
    check_viewer_in_bounds, chunks_in_view, chunks_to_generate, chunks_to_mesh, generate_chunk,
    is_chunk_required, StreamConfig,
};
use voxel_terrain::tracker::{release_steps, ChunkHandles, MaterializedChunks, ReleaseStep};
use voxel_terrain::voxel::Voxel;

fn config() -> StreamConfig {
    StreamConfig { chunk_size: 16, column_height: 16, view_distance: 32 }
}

fn sorted(mut v: Vec<Point3>) -> Vec<(i32, i32, i32)> {
    let mut out: Vec<(i32, i32, i32)> = v.drain(..).map(|p| (p.x, p.y, p.z)).collect();
    out.sort();
    out
}

#[test]
fn viewer_at_origin_needs_the_chunks_in_the_circle() {
    let origins = chunks_in_view(Point3::new(0, 0, 0), &config());
    let mut expected = vec![
        (0, 0, 0),
        (16, 0, 0),
        (-16, 0, 0),
        (0, 0, 16),
        (0, 0, -16),
        (16, 0, 16),
        (16, 0, -16),
        (-16, 0, 16),
        (-16, 0, -16),
        (32, 0, 0),
        (-32, 0, 0),
        (0, 0, 32),
        (0, 0, -32),
    ];
    expected.sort();
    assert_eq!(sorted(origins), expected);
}

#[test]
fn chunks_beyond_the_view_distance_are_not_needed() {
    let c = config();
    let viewer = Point3::new(0, 0, 0);
    assert!(is_chunk_required(Point3::new(32, 0, 0), viewer, &c));
    assert!(!is_chunk_required(Point3::new(32, 0, 16), viewer, &c));
    assert!(!is_chunk_required(Point3::new(48, 0, 0), viewer, &c));
    assert!(!is_chunk_required(Point3::new(32, 0, 32), viewer, &c));
    // Not a chunk origin.
    assert!(!is_chunk_required(Point3::new(1, 0, 0), viewer, &c));
    assert!(!is_chunk_required(Point3::new(0, 16, 0), viewer, &c));
}

#[test]
fn view_follows_an_off_grid_viewer() {
    let origins = sorted(chunks_in_view(Point3::new(5, 7, -7), &config()));
    for &(x, y, z) in &origins {
        assert_eq!(y, 0);
        assert_eq!(x.rem_euclid(16), 0);
        assert_eq!(z.rem_euclid(16), 0);
        assert!((x - 5) * (x - 5) + (z + 7) * (z + 7) <= 32 * 32);
    }
    let mut count = 0;
    for x in -10..10 {
        for z in -10..10 {
            let (px, pz) = (x * 16, z * 16);
            if (px - 5) * (px - 5) + (pz + 7) * (pz + 7) <= 32 * 32 {
                count += 1;
                assert!(origins.contains(&(px, 0, pz)));
            }
        }
    }
    assert_eq!(origins.len(), count);
}

#[test]
fn zero_view_distance_keeps_only_a_chunk_under_the_viewer() {
    let c = StreamConfig { chunk_size: 16, column_height: 16, view_distance: 0 };
    assert_eq!(sorted(chunks_in_view(Point3::new(16, 0, -32), &c)), vec![(16, 0, -32)]);
    assert!(chunks_in_view(Point3::new(17, 0, -32), &c).is_empty());
}

#[test]
fn viewer_bounds_are_checked() {
    assert!(check_viewer_in_bounds(Point3::new(0x4000_0000, 12345, -0x4000_0000)));
    assert!(!check_viewer_in_bounds(Point3::new(0x4000_0001, 0, 0)));
    assert!(!check_viewer_in_bounds(Point3::new(0, 0, -0x4000_0001)));
}

#[test]
fn only_missing_chunks_are_generated() {
    let c = config();
    let viewer = Point3::new(0, 0, 0);
    let mut store = VoxelStore::new(Point3::new(16, 16, 16)).unwrap();
    assert_eq!(chunks_to_generate(&store, viewer, &c).len(), 13);
    let heights = vec![3; 256];
    assert!(generate_chunk(&mut store, Point3::new(16, 0, 0), &c, &heights, 7));
    assert!(store.contains_chunk(Point3::new(16, 0, 0)));
    let todo = sorted(chunks_to_generate(&store, viewer, &c));
    assert_eq!(todo.len(), 12);
    assert!(!todo.contains(&(16, 0, 0)));
    // A height field of the wrong size and an origin off the grid are refused.
    assert!(!generate_chunk(&mut store, Point3::new(0, 0, 0), &c, &vec![3; 255], 7));
    assert!(!generate_chunk(&mut store, Point3::new(1, 0, 0), &c, &heights, 7));
    assert!(!store.contains_chunk(Point3::new(0, 0, 0)));
}

#[test]
fn generated_chunk_reads_back_from_the_store() {
    let c = config();
    let mut store = VoxelStore::new(Point3::new(16, 16, 16)).unwrap();
    let mut heights = vec![0; 256];
    heights[0] = 4;
    heights[17] = 2;
    assert!(generate_chunk(&mut store, Point3::new(-16, 0, 32), &c, &heights, 9));
    let material = voxel_terrain::generator::chunk_material(Point3::new(-16, 0, 32), 9);
    let chunk = store.read_extent(c.chunk_extent(Point3::new(-16, 0, 32)));
    assert_eq!(chunk.get(Point3::new(-16, 0, 32)), Voxel(0));
    assert_eq!(chunk.get(Point3::new(-16, 1, 32)), material);
    assert_eq!(chunk.get(Point3::new(-16, 4, 32)), material);
    assert_eq!(chunk.get(Point3::new(-16, 5, 32)), Voxel(0));
    assert_eq!(chunk.get(Point3::new(-15, 2, 33)), material);
    assert_eq!(chunk.get(Point3::new(-15, 3, 33)), Voxel(0));
    assert_eq!(chunk.get(Point3::new(-14, 1, 33)), Voxel(0));
}

fn handles(n: u64) -> ChunkHandles {
    ChunkHandles { entity: n, mesh: 100 + n, body: 200 + n }
}

#[test]
fn recorded_chunks_are_not_meshed_again() {
    let c = config();
    let viewer = Point3::new(0, 0, 0);
    let mut chunks = MaterializedChunks::new();
    assert_eq!(chunks_to_mesh(&chunks, viewer, &c).len(), 13);
    assert!(chunks.insert(Point3::new(0, 0, 0), Some(handles(1))));
    // A chunk without visible faces is recorded without handles.
    assert!(chunks.insert(Point3::new(16, 0, 0), None));
    let todo = sorted(chunks_to_mesh(&chunks, viewer, &c));
    assert_eq!(todo.len(), 11);
    assert!(!todo.contains(&(0, 0, 0)));
    assert!(!todo.contains(&(16, 0, 0)));
}

#[test]
fn insert_refuses_known_origins_and_shared_handles() {
    let mut chunks = MaterializedChunks::new();
    assert!(chunks.insert(Point3::new(0, 0, 0), Some(handles(1))));
    assert!(!chunks.insert(Point3::new(0, 0, 0), Some(handles(2))));
    assert!(!chunks.insert(Point3::new(16, 0, 0), Some(handles(1))));
    let shared_body = ChunkHandles { entity: 5, mesh: 6, body: 201 };
    assert!(!chunks.insert(Point3::new(16, 0, 0), Some(shared_body)));
    assert!(chunks.insert(Point3::new(16, 0, 0), Some(handles(2))));
    assert_eq!(chunks.len(), 2);
    assert_eq!(chunks.get(Point3::new(16, 0, 0)), Some(Some(handles(2))));
    assert_eq!(chunks.get(Point3::new(32, 0, 0)), None);
}

#[test]
fn release_takes_entity_then_mesh_then_body() {
    assert_eq!(
        release_steps(handles(7)),
        vec![
            ReleaseStep::DespawnEntity(7),
            ReleaseStep::FreeMesh(107),
            ReleaseStep::RemoveBody(207)
        ]
    );
}

#[test]
fn eviction_leaves_no_handle_behind() {
    let mut chunks = MaterializedChunks::new();
    assert!(chunks.insert(Point3::new(0, 0, 0), Some(handles(1))));
    assert!(chunks.insert(Point3::new(16, 0, 0), Some(handles(2))));
    let steps = chunks.evict(Point3::new(0, 0, 0));
    assert_eq!(steps, release_steps(handles(1)));
    assert!(!chunks.contains(Point3::new(0, 0, 0)));
    assert!(!chunks.in_use(&handles(1)));
    assert!(chunks.in_use(&handles(2)));
    // Nothing to release for an origin that is not recorded.
    assert!(chunks.evict(Point3::new(0, 0, 0)).is_empty());
    assert_eq!(chunks.remove(Point3::new(16, 0, 0)), Some(Some(handles(2))));
    assert_eq!(chunks.remove(Point3::new(16, 0, 0)), None);
}

#[test]
fn moving_away_evicts_chunks_that_fall_out_of_range() {
    let c = config();
    let mut chunks = MaterializedChunks::new();
    let mut n = 0;
    for p in chunks_in_view(Point3::new(0, 0, 0), &c) {
        n += 1;
        assert!(chunks.insert(p, Some(handles(n))));
    }
    let far = chunks.get(Point3::new(-32, 0, 0)).unwrap().unwrap();
    let viewer = Point3::new(16, 0, 0);
    let evicted = chunks.evict_out_of_view(viewer, &c);
    assert!(!chunks.contains(Point3::new(-32, 0, 0)));
    assert!(!chunks.in_use(&far));
    assert!(evicted.iter().any(|r| r.origin == Point3::new(-32, 0, 0) && r.handles == Some(far)));
    for r in &evicted {
        assert!(!is_chunk_required(r.origin, viewer, &c));
        assert!(!chunks.contains(r.origin));
        assert!(!chunks.in_use(&r.handles.unwrap()));
    }
    for p in chunks.origins() {
        assert!(is_chunk_required(p, viewer, &c));
    }
    assert_eq!(chunks.len() + evicted.len(), 13);
    // (-32,0,0), (-16,0,±16) and (0,0,±32) are further than 32 from (16,0,0).
    assert_eq!(evicted.len(), 5);
}
