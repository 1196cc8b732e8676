use building_blocks::mesh::{greedy_quads, GreedyQuadsBuffer, PosNormTexMesh, UnorientedQuad};
use building_blocks::prelude::{Array3, Extent3i, PointN};
use voxel_terrain::geometry::{Extent, Point3};
use voxel_terrain::mesher::{
    check_quads_within, face_quads, mesh_of_quads, mesh_padded, process_quad_buffer, GreedyQuad,
};
use voxel_terrain::quads::{texture_layer_from_voxel_type, Axis, Direction, FaceQuad};
use voxel_terrain::voxel::{Voxel, VoxelArray};

const FACES: [Direction; 6] = [
    Direction::NegX,
    Direction::NegY,
    Direction::NegZ,
    Direction::PosX,
    Direction::PosY,
    Direction::PosZ,
];

#[test]
fn texture_layers_by_material() {
    assert_eq!(texture_layer_from_voxel_type(0), (0, 0, 0));
    assert_eq!(texture_layer_from_voxel_type(1), (1, 2, 3));
    assert_eq!(texture_layer_from_voxel_type(2), (3, 3, 3));
    assert_eq!(texture_layer_from_voxel_type(3), (4, 4, 4));
    assert_eq!(texture_layer_from_voxel_type(4), (5, 5, 5));
    assert_eq!(texture_layer_from_voxel_type(5), (0, 0, 0));
    assert_eq!(texture_layer_from_voxel_type(255), (0, 0, 0));
}

#[test]
fn layer_depends_on_the_face() {
    let q = FaceQuad {
        face: Direction::PosY,
        minimum: Point3::new(0, 0, 0),
        width: 1,
        height: 1,
        material: 1,
    };
    assert_eq!(q.layer(), 1);
    assert_eq!(FaceQuad { face: Direction::NegY, ..q }.layer(), 3);
    for face in [Direction::NegX, Direction::PosX, Direction::NegZ, Direction::PosZ] {
        assert_eq!(FaceQuad { face, ..q }.layer(), 2);
    }
    assert_eq!(FaceQuad { material: 9, ..q }.layer(), 0);
}

#[test]
fn directions_are_numbered_like_the_groups_of_the_mesher() {
    let extent = Extent3i::from_min_and_shape(PointN([0, 0, 0]), PointN([3, 3, 3]));
    let buffer: GreedyQuadsBuffer<u8> = GreedyQuadsBuffer::new(extent);
    for (i, group) in buffer.quad_groups.iter().enumerate() {
        let d = Direction::from_index(i).unwrap();
        assert_eq!(d, FACES[i]);
        let face = group.face;
        let n = face.signed_normal();
        assert_eq!(d.normal(), Point3::new(n.x(), n.y(), n.z()));
        assert_eq!(d.is_positive(), face.n_sign > 0);
        assert_eq!(d.normal_axis().unit(), Point3::new(face.n.x(), face.n.y(), face.n.z()));
        assert_eq!(d.u_axis().unit(), Point3::new(face.u.x(), face.u.y(), face.u.z()));
        assert_eq!(d.v_axis().unit(), Point3::new(face.v.x(), face.v.y(), face.v.z()));
        let indices = face.quad_mesh_indices(0);
        let ccw = indices == [0, 1, 2, 1, 3, 2];
        assert!(ccw || indices == [0, 2, 1, 1, 2, 3]);
        assert_eq!(d.counter_clockwise(), ccw);
    }
    assert_eq!(Direction::from_index(6), None);
    assert_eq!(Axis::X.unit(), Point3::new(1, 0, 0));
}

#[test]
fn corners_are_those_of_the_outside_faces() {
    let extent = Extent3i::from_min_and_shape(PointN([-8, -8, -8]), PointN([16, 16, 16]));
    let mine = Extent::from_min_and_shape(Point3::new(-8, -8, -8), Point3::new(16, 16, 16));
    let buffer: GreedyQuadsBuffer<u8> = GreedyQuadsBuffer::new(extent);
    for (i, group) in buffer.quad_groups.iter().enumerate() {
        for &(min, w, h) in &[((0, 0, 0), 1, 1), ((-3, 2, 1), 4, 2), ((1, -5, -2), 2, 5)] {
            let q = FaceQuad {
                face: FACES[i],
                minimum: Point3::new(min.0, min.1, min.2),
                width: w,
                height: h,
                material: 1,
            };
            assert!(q.fits(&mine));
            let theirs = group.face.quad_corners(&UnorientedQuad {
                minimum: PointN([min.0, min.1, min.2]),
                width: w,
                height: h,
            });
            let uv = UnorientedQuad { minimum: PointN([0, 0, 0]), width: w, height: h }
                .simple_tex_coords();
            for k in 0..4 {
                let c = q.corner(k, &mine);
                assert_eq!([c.x as f32, c.y as f32, c.z as f32], theirs[k].0);
                let t = q.tex_coord(k);
                assert_eq!([t.0 as f32, t.1 as f32], uv[k]);
            }
        }
    }
}

#[test]
fn quads_must_lie_in_the_interior() {
    let e = Extent::from_min_and_shape(Point3::new(0, 0, 0), Point3::new(4, 4, 4));
    let q = FaceQuad {
        face: Direction::PosY,
        minimum: Point3::new(1, 1, 1),
        width: 2,
        height: 2,
        material: 1,
    };
    assert!(q.fits(&e));
    assert!(!FaceQuad { width: 3, ..q }.fits(&e));
    assert!(!FaceQuad { height: 3, ..q }.fits(&e));
    assert!(!FaceQuad { width: 0, ..q }.fits(&e));
    assert!(!FaceQuad { minimum: Point3::new(0, 1, 1), ..q }.fits(&e));
    assert!(!FaceQuad { minimum: Point3::new(1, 3, 1), ..q }.fits(&e));
    assert!(check_quads_within(&vec![q, q], &e));
    assert!(!check_quads_within(&vec![q, FaceQuad { width: 3, ..q }], &e));
    assert_eq!(q.box_sides(), (2, 1, 2));
    assert_eq!(FaceQuad { face: Direction::NegX, width: 3, ..q }.box_sides(), (1, 2, 3));
}

fn scattered(seed: u64) -> VoxelArray {
    let extent = Extent::from_min_and_shape(Point3::new(-1, -1, -1), Point3::new(7, 6, 5));
    let mut a = VoxelArray::fill(extent, Voxel(0));
    let mut s = seed;
    for z in -1..4 {
        for y in -1..5 {
            for x in -1..6 {
                s = s.wrapping_mul(6364136223846793005).wrapping_add(1442695040888963407);
                a.put(Point3::new(x, y, z), Voxel(((s >> 35) % 3) as u8));
            }
        }
    }
    a
}

#[test]
fn buffers_are_those_of_the_outside_mesh() {
    for seed in 1..6 {
        let block = scattered(seed);
        let e = block.extent();
        let extent = Extent3i::from_min_and_shape(
            PointN([e.minimum.x, e.minimum.y, e.minimum.z]),
            PointN([e.shape.x, e.shape.y, e.shape.z]),
        );
        let array = Array3::new(extent, block.values().clone());
        let mut buffer = GreedyQuadsBuffer::new(extent);
        greedy_quads(&array, &extent, &mut buffer);
        let mut theirs = PosNormTexMesh::default();
        let mut layers = Vec::new();
        for (i, group) in buffer.quad_groups.iter().enumerate() {
            for (quad, material) in group.quads.iter() {
                group.face.add_quad_to_pos_norm_tex_mesh(quad, &mut theirs);
                let (top, sides, bottom) = texture_layer_from_voxel_type(*material);
                let layer = if i == 4 { top } else if i == 1 { bottom } else { sides };
                layers.extend_from_slice(&[layer; 4]);
            }
        }
        let mine = mesh_padded(&block).unwrap();
        let positions: Vec<[f32; 3]> =
            mine.positions.iter().map(|p| [p.x as f32, p.y as f32, p.z as f32]).collect();
        let normals: Vec<[f32; 3]> =
            mine.normals.iter().map(|p| [p.x as f32, p.y as f32, p.z as f32]).collect();
        let tex: Vec<[f32; 2]> = mine.tex_coords.iter().map(|t| [t.0 as f32, t.1 as f32]).collect();
        assert_eq!(positions, theirs.positions);
        assert_eq!(normals, theirs.normals);
        assert_eq!(tex, theirs.tex_coords);
        assert_eq!(mine.indices, theirs.indices);
        assert_eq!(mine.vert_vox_mat_vals, layers);
        for (v, ao) in mine.positions.iter().zip(mine.vert_ao_vals.iter()) {
            assert!((0..=3).contains(ao));
            let _ = v;
        }
    }
}

#[test]
fn one_quad_gives_four_vertices_and_six_indices() {
    let e = Extent::from_min_and_shape(Point3::new(-1, -1, -1), Point3::new(4, 3, 3));
    let mut block = VoxelArray::fill(e, Voxel(0));
    block.put(Point3::new(0, 0, 0), Voxel(1));
    block.put(Point3::new(1, 0, 0), Voxel(1));
    let top = FaceQuad {
        face: Direction::PosY,
        minimum: Point3::new(0, 0, 0),
        width: 2,
        height: 1,
        material: 1,
    };
    let bottom = FaceQuad { face: Direction::NegY, ..top };
    let mesh = process_quad_buffer(&vec![top, bottom], &block).unwrap();
    assert_eq!(
        mesh.positions,
        vec![
            Point3::new(0, 1, 0),
            Point3::new(2, 1, 0),
            Point3::new(0, 1, 1),
            Point3::new(2, 1, 1),
            Point3::new(0, 0, 0),
            Point3::new(2, 0, 0),
            Point3::new(0, 0, 1),
            Point3::new(2, 0, 1),
        ]
    );
    assert_eq!(mesh.normals[0], Point3::new(0, 1, 0));
    assert_eq!(mesh.normals[7], Point3::new(0, -1, 0));
    assert_eq!(mesh.tex_coords[..4], [(0, 0), (2, 0), (0, 1), (2, 1)]);
    // An upward face is wound clockwise in the order of its corners, a
    // downward face counter-clockwise.
    assert_eq!(mesh.indices, vec![0, 2, 1, 1, 2, 3, 4, 5, 6, 5, 7, 6]);
    assert_eq!(mesh.vert_vox_mat_vals, vec![1, 1, 1, 1, 3, 3, 3, 3]);
    // Under the top face the voxels are occupied; around the bottom face the
    // two voxels are edge cells without neighbours beside them.
    assert_eq!(mesh.vert_ao_vals, vec![0, 0, 0, 0, 0, 0, 0, 0]);
    assert!(process_quad_buffer(&Vec::new(), &block).is_none());
}

#[test]
fn unusable_quads_give_no_mesh() {
    let e = Extent::from_min_and_shape(Point3::new(-1, -1, -1), Point3::new(3, 3, 3));
    let mut block = VoxelArray::fill(e, Voxel(0));
    block.put(Point3::new(0, 0, 0), Voxel(1));
    let good: Vec<GreedyQuad> = (0..6)
        .map(|group| GreedyQuad { group, minimum: [0, 0, 0], width: 1, height: 1, material: 1 })
        .collect();
    assert_eq!(face_quads(&good).unwrap().len(), 6);
    assert_eq!(mesh_of_quads(&good, &block).unwrap().positions.len(), 24);
    // A face is missing.
    assert!(mesh_of_quads(&good[..5].to_vec(), &block).is_none());
    // A group that does not exist.
    let mut alien = good.clone();
    alien[0].group = 6;
    assert!(face_quads(&alien).is_none());
    assert!(mesh_of_quads(&alien, &block).is_none());
    // A quad that reaches into the padding.
    let mut wide = good.clone();
    wide[4].width = 2;
    assert!(mesh_of_quads(&wide, &block).is_none());
    assert!(mesh_of_quads(&Vec::new(), &block).is_none());
}
