//! Turning a padded block of voxels into a triangle mesh: the greedy mesher
//! finds the quads, and the vertex and index buffers are assembled from them.

use vstd::prelude::*;
use building_blocks::mesh::{GreedyQuadsBuffer, greedy_quads};
use building_blocks::prelude::{Array3, Extent3i, PointN};
use crate::ao::{get_ao_at_vert, spec_ao_at_vert};
use crate::coverage::{check_quads_tile, direction_tiled, face_exposed, quad_sound, quads_tile};
use crate::geometry::{Extent, Point3};
use crate::quads::{Direction, FaceQuad};
use crate::store::VoxelStore;
use crate::voxel::{VoxelArray, VoxelGrid};

verus! {

/// Where index `k` of the six indices of a quad points, counted from the
/// quad's first vertex: two triangles over the corners, wound
/// counter-clockwise or clockwise.
pub open spec fn index_pattern(counter_clockwise: bool, k: int) -> int {
    if counter_clockwise {
        if k == 0 {
            0
        } else if k == 1 {
            1
        } else if k == 2 {
            2
        } else if k == 3 {
            1
        } else if k == 4 {
            3
        } else {
            2
        }
    } else {
        if k == 0 {
            0
        } else if k == 1 {
            2
        } else if k == 2 {
            1
        } else if k == 3 {
            1
        } else if k == 4 {
            2
        } else {
            3
        }
    }
}

/// The buffers of a chunk's mesh. Every quad contributes four vertices, in
/// the order of its corners, and six indices. All values are whole numbers:
/// positions are lattice vertices.
pub struct ChunkMeshData {
    pub positions: Vec<Point3>,
    pub normals: Vec<Point3>,
    pub tex_coords: Vec<(i32, i32)>,
    pub indices: Vec<u32>,
    pub vert_vox_mat_vals: Vec<i32>,
    pub vert_ao_vals: Vec<i32>,
}

impl ChunkMeshData {
    /// The buffers are those of `quads`, in their order, with the ambient
    /// occlusion read from `padded`.
    pub open spec fn is_mesh_of(&self, quads: Seq<FaceQuad>, padded: VoxelGrid) -> bool {
        &&& self.positions@ == Seq::new(
            4 * quads.len(),
            |j: int| quads[j / 4].spec_corner(j % 4),
        )
        &&& self.normals@ == Seq::new(4 * quads.len(), |j: int| quads[j / 4].face.spec_normal())
        &&& self.tex_coords@ == Seq::new(
            4 * quads.len(),
            |j: int| quads[j / 4].spec_tex_coord(j % 4),
        )
        &&& self.indices@.len() == 6 * quads.len()
        &&& forall|j: int|
            0 <= j < 6 * quads.len() ==> #[trigger] self.indices@[j] == 4 * (j / 6) + index_pattern(
                quads[j / 6].face.spec_counter_clockwise(),
                j % 6,
            )
        &&& self.vert_vox_mat_vals@ == Seq::new(4 * quads.len(), |j: int| quads[j / 4].spec_layer())
        &&& self.vert_ao_vals@.len() == 4 * quads.len()
        &&& forall|j: int|
            0 <= j < 4 * quads.len() ==> #[trigger] self.vert_ao_vals@[j] == spec_ao_at_vert(
                padded,
                quads[j / 4].spec_corner(j % 4),
                quads[j / 4].face,
            )
    }

    /// The ambient occlusion of every vertex is one of 0, 1, 2 and 3.
    pub open spec fn occlusion_in_range(&self) -> bool {
        forall|j: int| 0 <= j < self.vert_ao_vals@.len() ==> 0 <= #[trigger] self.vert_ao_vals@[j] <= 3
    }

    /// Every index points at a vertex.
    pub open spec fn indices_in_range(&self) -> bool {
        forall|j: int| 0 <= j < self.indices@.len() ==> #[trigger] self.indices@[j] < self.positions@.len()
    }
}

/// In the mesh of any quads over any block, the ambient occlusion of every
/// vertex is one of 0, 1, 2 and 3.
pub proof fn lemma_mesh_occlusion_in_range(mesh: ChunkMeshData, quads: Seq<FaceQuad>, padded: VoxelGrid)
    requires
        mesh.is_mesh_of(quads, padded),
    ensures
        mesh.occlusion_in_range(),
{
    assert forall|j: int| 0 <= j < mesh.vert_ao_vals@.len() implies 0 <= #[trigger] mesh.vert_ao_vals@[j]
        <= 3 by {
        crate::ao::lemma_ao_in_range(padded, quads[j / 4].spec_corner(j % 4), quads[j / 4].face);
    }
}

/// All of `quads` lie within the interior of `extent`, and their vertices
/// can be counted in 32 bits.
pub open spec fn quads_within(quads: Seq<FaceQuad>, extent: Extent) -> bool {
    &&& 4 * quads.len() <= u32::MAX
    &&& forall|i: int| 0 <= i < quads.len() ==> (#[trigger] quads[i]).within(extent)
}

/// Whether all of `quads` lie within the interior of `extent` and their
/// vertices can be counted in 32 bits.
pub fn check_quads_within(quads: &Vec<FaceQuad>, extent: &Extent) -> (ok: bool)
    requires
        extent.wf(),
    ensures
        ok == quads_within(quads@, *extent),
{
    if quads.len() > 0x3fff_ffff {
        return false;
    }
    let mut i: usize = 0;
    while i < quads.len()
        invariant
            i <= quads.len(),
            extent.wf(),
            forall|j: int| 0 <= j < i ==> (#[trigger] quads@[j]).within(*extent),
        decreases quads.len() - i,
    {
        if !quads[i].fits(extent) {
            return false;
        }
        i += 1;
    }
    true
}

/// Builds the mesh of `buffer`, a list of quads over the padded block
/// `padded_chunk`: per quad four vertices with position, normal, texture
/// coordinates, texture layer and ambient occlusion, and six indices.
/// Without quads there is no mesh.
pub fn process_quad_buffer(buffer: &Vec<FaceQuad>, padded_chunk: &VoxelArray) -> (mesh: Option<
    ChunkMeshData,
>)
    requires
        padded_chunk@.wf(),
        quads_within(buffer@, padded_chunk@.extent),
    ensures
        mesh.is_none() <==> buffer@.len() == 0,
        mesh.is_some() ==> mesh.unwrap().is_mesh_of(buffer@, padded_chunk@),
        mesh.is_some() ==> mesh.unwrap().indices_in_range(),
{
    let extent: Extent = padded_chunk.extent();
    let mut positions: Vec<Point3> = Vec::new();
    let mut normals: Vec<Point3> = Vec::new();
    let mut tex_coords: Vec<(i32, i32)> = Vec::new();
    let mut indices: Vec<u32> = Vec::new();
    let mut vert_vox_mat_vals: Vec<i32> = Vec::new();
    let mut vert_ao_vals: Vec<i32> = Vec::new();
    let mut i: usize = 0;
    while i < buffer.len()
        invariant
            i <= buffer.len(),
            padded_chunk@.wf(),
            extent == padded_chunk@.extent,
            quads_within(buffer@, extent),
            positions@.len() == 4 * i,
            normals@.len() == 4 * i,
            tex_coords@.len() == 4 * i,
            vert_vox_mat_vals@.len() == 4 * i,
            vert_ao_vals@.len() == 4 * i,
            indices@.len() == 6 * i,
            forall|j: int|
                0 <= j < 4 * i ==> #[trigger] positions@[j] == buffer@[j / 4].spec_corner(j % 4),
            forall|j: int| 0 <= j < 4 * i ==> #[trigger] normals@[j] == buffer@[j / 4].face.spec_normal(),
            forall|j: int|
                0 <= j < 4 * i ==> #[trigger] tex_coords@[j] == buffer@[j / 4].spec_tex_coord(j % 4),
            forall|j: int| 0 <= j < 4 * i ==> #[trigger] vert_vox_mat_vals@[j] == buffer@[j / 4].spec_layer(),
            forall|j: int|
                0 <= j < 4 * i ==> #[trigger] vert_ao_vals@[j] == spec_ao_at_vert(
                    padded_chunk@,
                    buffer@[j / 4].spec_corner(j % 4),
                    buffer@[j / 4].face,
                ),
            forall|j: int|
                0 <= j < 6 * i ==> #[trigger] indices@[j] == 4 * (j / 6) + index_pattern(
                    buffer@[j / 6].face.spec_counter_clockwise(),
                    j % 6,
                ),
        decreases buffer.len() - i,
    {
        let quad: FaceQuad = buffer[i];
        assert(quad.within(extent));
        let mut k: usize = 0;
        while k < 4
            invariant
                k <= 4,
                i < buffer.len(),
                quad == buffer@[i as int],
                padded_chunk@.wf(),
                extent == padded_chunk@.extent,
                quad.within(extent),
                positions@.len() == 4 * i + k,
                normals@.len() == 4 * i + k,
                tex_coords@.len() == 4 * i + k,
                vert_vox_mat_vals@.len() == 4 * i + k,
                vert_ao_vals@.len() == 4 * i + k,
                forall|j: int|
                    0 <= j < 4 * i + k ==> #[trigger] positions@[j] == buffer@[j / 4].spec_corner(j % 4),
                forall|j: int|
                    0 <= j < 4 * i + k ==> #[trigger] normals@[j] == buffer@[j / 4].face.spec_normal(),
                forall|j: int|
                    0 <= j < 4 * i + k ==> #[trigger] tex_coords@[j] == buffer@[j / 4].spec_tex_coord(
                        j % 4,
                    ),
                forall|j: int|
                    0 <= j < 4 * i + k ==> #[trigger] vert_vox_mat_vals@[j] == buffer@[j / 4].spec_layer(),
                forall|j: int|
                    0 <= j < 4 * i + k ==> #[trigger] vert_ao_vals@[j] == spec_ao_at_vert(
                        padded_chunk@,
                        buffer@[j / 4].spec_corner(j % 4),
                        buffer@[j / 4].face,
                    ),
            decreases 4 - k,
        {
            let c: Point3 = quad.corner(k, &extent);
            let ao: i32 = get_ao_at_vert(c, quad.face, padded_chunk);
            positions.push(c);
            normals.push(quad.face.normal());
            tex_coords.push(quad.tex_coord(k));
            vert_vox_mat_vals.push(quad.layer());
            vert_ao_vals.push(ao);
            k += 1;
        }
        let start: u32 = (4 * i) as u32;
        let ccw: bool = quad.face.counter_clockwise();
        let mut m: usize = 0;
        while m < 6
            invariant
                m <= 6,
                i < buffer.len(),
                4 * buffer.len() <= u32::MAX,
                quad == buffer@[i as int],
                start == 4 * i,
                ccw == quad.face.spec_counter_clockwise(),
                indices@.len() == 6 * i + m,
                forall|j: int|
                    0 <= j < 6 * i + m ==> #[trigger] indices@[j] == 4 * (j / 6) + index_pattern(
                        buffer@[j / 6].face.spec_counter_clockwise(),
                        j % 6,
                    ),
            decreases 6 - m,
        {
            let offset: u32 = index_offset(ccw, m);
            indices.push(start + offset);
            m += 1;
        }
        i += 1;
    }
    if buffer.len() == 0 {
        None
    } else {
        let mesh = ChunkMeshData {
            positions,
            normals,
            tex_coords,
            indices,
            vert_vox_mat_vals,
            vert_ao_vals,
        };
        assert(mesh.indices_in_range()) by {
            assert forall|j: int| 0 <= j < mesh.indices@.len() implies #[trigger] mesh.indices@[j]
                < mesh.positions@.len() by {
                let q = j / 6;
                assert(0 <= index_pattern(buffer@[q].face.spec_counter_clockwise(), j % 6) <= 3);
            }
        }
        assert(mesh.positions@ =~= Seq::new(
            4 * buffer@.len(),
            |j: int| buffer@[j / 4].spec_corner(j % 4),
        ));
        assert(mesh.normals@ =~= Seq::new(
            4 * buffer@.len(),
            |j: int| buffer@[j / 4].face.spec_normal(),
        ));
        assert(mesh.tex_coords@ =~= Seq::new(
            4 * buffer@.len(),
            |j: int| buffer@[j / 4].spec_tex_coord(j % 4),
        ));
        assert(mesh.vert_vox_mat_vals@ =~= Seq::new(
            4 * buffer@.len(),
            |j: int| buffer@[j / 4].spec_layer(),
        ));
        Some(mesh)
    }
}

fn index_offset(counter_clockwise: bool, k: usize) -> (o: u32)
    requires
        k < 6,
    ensures
        o == index_pattern(counter_clockwise, k as int),
        o <= 3,
{
    if counter_clockwise {
        if k == 0 {
            0
        } else if k == 1 {
            1
        } else if k == 2 {
            2
        } else if k == 3 {
            1
        } else if k == 4 {
            3
        } else {
            2
        }
    } else {
        if k == 0 {
            0
        } else if k == 1 {
            2
        } else if k == 2 {
            1
        } else if k == 3 {
            1
        } else if k == 4 {
            2
        } else {
            3
        }
    }
}

/// A quad as the greedy mesher reports it, with the position of its face
/// among the six groups of the mesher's output.
#[derive(Clone, Copy, Debug, PartialEq, Eq)]
pub struct GreedyQuad {
    pub group: usize,
    pub minimum: [i32; 3],
    pub width: i32,
    pub height: i32,
    pub material: u8,
}

/// The quads that greedy meshing makes of a padded block of voxels, group
/// after group and each group in the order in which they were found.
pub uninterp spec fn greedy_quads_of(padded: VoxelGrid) -> Seq<GreedyQuad>;

/// Runs the greedy mesher over a padded block.
///
/// Calls `greedy_quads` of `building_blocks` on an array with the block's
/// voxels and lists the quads of the six groups of its output buffer, group
/// after group. The mesher reads a voxel and its neighbours for every point
/// that is at least one step inside the box, so every side must be at least
/// two long.
#[verifier::external_body]
fn greedy_quads_call(padded: &VoxelArray) -> (quads: Vec<GreedyQuad>)
    requires
        padded@.wf(),
        padded@.extent.shape.x >= 2,
        padded@.extent.shape.y >= 2,
        padded@.extent.shape.z >= 2,
    ensures
        quads@ == greedy_quads_of(padded@),
{
    let (min, shape) = (padded.extent.minimum, padded.extent.shape);
    let extent = Extent3i::from_min_and_shape(PointN([min.x, min.y, min.z]), PointN([shape.x, shape.y, shape.z]));
    let mut buffer = GreedyQuadsBuffer::new(extent);
    greedy_quads(&Array3::new(extent, padded.values.clone()), &extent, &mut buffer);
    let mut quads = Vec::new();
    for (group, g) in buffer.quad_groups.iter().enumerate() {
        for (q, material) in g.quads.iter() {
            quads.push(GreedyQuad { group, minimum: q.minimum.0, width: q.width, height: q.height, material: *material });
        }
    }
    quads
}

/// The face of the group at position `group`: the groups come in the order
/// of `Direction::spec_index`.
pub open spec fn direction_at(group: usize) -> Direction {
    if group == 0 {
        Direction::NegX
    } else if group == 1 {
        Direction::NegY
    } else if group == 2 {
        Direction::NegZ
    } else if group == 3 {
        Direction::PosX
    } else if group == 4 {
        Direction::PosY
    } else {
        Direction::PosZ
    }
}

impl GreedyQuad {
    /// The quad with its face named.
    pub open spec fn spec_face_quad(self) -> FaceQuad {
        FaceQuad {
            face: direction_at(self.group),
            minimum: Point3 { x: self.minimum@[0], y: self.minimum@[1], z: self.minimum@[2] },
            width: self.width,
            height: self.height,
            material: self.material,
        }
    }
}

/// The quads with their faces named.
pub open spec fn spec_face_quads(raw: Seq<GreedyQuad>) -> Seq<FaceQuad> {
    Seq::new(raw.len(), |i: int| raw[i].spec_face_quad())
}

/// The reported quads can be made into a mesh of the block: each belongs
/// to one of the six groups, together they cover exactly the visible faces
/// of the block, each once, and their vertices can be counted in 32 bits.
pub open spec fn quads_usable(raw: Seq<GreedyQuad>, padded: VoxelGrid) -> bool {
    &&& forall|i: int| 0 <= i < raw.len() ==> (#[trigger] raw[i]).group < 6
    &&& 4 * raw.len() <= u32::MAX
    &&& quads_tile(padded, spec_face_quads(raw))
}

/// Quads that tile the visible faces of a block lie in its interior.
pub proof fn lemma_tiling_within(padded: VoxelGrid, quads: Seq<FaceQuad>)
    requires
        quads_tile(padded, quads),
    ensures
        forall|i: int| 0 <= i < quads.len() ==> (#[trigger] quads[i]).within(padded.extent),
{
    assert forall|i: int| 0 <= i < quads.len() implies (#[trigger] quads[i]).within(
        padded.extent,
    ) by {
        assert(direction_tiled(padded, quads, quads[i].face));
        assert(quad_sound(padded, quads[i]));
    }
}

/// Quads that tile the visible faces of a block cover a face exactly if it
/// is visible, and no face twice: the faces of the quads are the visible
/// faces, without gaps and without overlaps.
pub proof fn lemma_tiling_is_exact(padded: VoxelGrid, quads: Seq<FaceQuad>)
    requires
        quads_tile(padded, quads),
    ensures
        forall|p: Point3, face: Direction| #[trigger]
            face_exposed(padded, p, face) <==> exists|i: int|
                0 <= i < quads.len() && (#[trigger] quads[i]).face == face && quads[i].covers(p),
        forall|i: int, j: int, p: Point3|
            0 <= i < quads.len() && 0 <= j < quads.len() && quads[i].face == quads[j].face
                && #[trigger] quads[i].covers(p) && #[trigger] quads[j].covers(p) ==> i == j,
{
    assert forall|p: Point3, face: Direction| #[trigger]
        face_exposed(padded, p, face) <==> exists|i: int|
            0 <= i < quads.len() && (#[trigger] quads[i]).face == face && quads[i].covers(p) by {
        assert(direction_tiled(padded, quads, face));
        if exists|i: int|
            0 <= i < quads.len() && (#[trigger] quads[i]).face == face && quads[i].covers(p) {
            let i = choose|i: int|
                0 <= i < quads.len() && (#[trigger] quads[i]).face == face && quads[i].covers(p);
            assert(quad_sound(padded, quads[i]));
            assert(quads[i].covers(p));
        }
    }
    assert forall|i: int, j: int, p: Point3|
        0 <= i < quads.len() && 0 <= j < quads.len() && quads[i].face == quads[j].face
            && #[trigger] quads[i].covers(p) && #[trigger] quads[j].covers(p) implies i == j by {
        assert(direction_tiled(padded, quads, quads[i].face));
    }
}

/// Names the faces of the reported quads, or gives nothing where one of them
/// belongs to none of the six groups.
pub fn face_quads(raw: &Vec<GreedyQuad>) -> (quads: Option<Vec<FaceQuad>>)
    ensures
        quads.is_some() <==> (forall|i: int| 0 <= i < raw@.len() ==> (#[trigger] raw@[i]).group < 6),
        quads.is_some() ==> quads.unwrap()@ == spec_face_quads(raw@),
{
    let mut quads: Vec<FaceQuad> = Vec::new();
    let mut i: usize = 0;
    while i < raw.len()
        invariant
            i <= raw.len(),
            quads@.len() == i,
            forall|j: int| 0 <= j < i ==> (#[trigger] raw@[j]).group < 6,
            forall|j: int| 0 <= j < i ==> #[trigger] quads@[j] == raw@[j].spec_face_quad(),
        decreases raw.len() - i,
    {
        let q: GreedyQuad = raw[i];
        match Direction::from_index(q.group) {
            Some(face) => {
                quads.push(
                    FaceQuad {
                        face,
                        minimum: Point3 { x: q.minimum[0], y: q.minimum[1], z: q.minimum[2] },
                        width: q.width,
                        height: q.height,
                        material: q.material,
                    },
                );
            },
            None => {
                return None;
            },
        }
        i += 1;
    }
    assert(quads@ =~= spec_face_quads(raw@));
    Some(quads)
}

/// What meshing gives for the quads `raw` over the block `padded`: the mesh
/// of the quads where they are usable and there is at least one, and nothing
/// otherwise. So a mesh is always that of quads that cover exactly the
/// visible faces of the block, each once.
pub open spec fn is_mesh_result(mesh: Option<ChunkMeshData>, raw: Seq<GreedyQuad>, padded: VoxelGrid) -> bool {
    &&& mesh.is_some() <==> quads_usable(raw, padded) && raw.len() > 0
    &&& mesh.is_some() ==> mesh.unwrap().is_mesh_of(spec_face_quads(raw), padded)
    &&& mesh.is_some() ==> mesh.unwrap().indices_in_range()
}

/// The mesh that the reported quads `raw` make over the block
/// `padded_chunk`, or nothing where there is no quad or the quads are not
/// usable over that block.
pub fn mesh_of_quads(raw: &Vec<GreedyQuad>, padded_chunk: &VoxelArray) -> (mesh: Option<ChunkMeshData>)
    requires
        padded_chunk@.wf(),
    ensures
        is_mesh_result(mesh, raw@, padded_chunk@),
{
    match face_quads(raw) {
        Some(quads) => {
            if quads.len() <= 0x3fff_ffff && check_quads_tile(padded_chunk, &quads) {
                proof {
                    lemma_tiling_within(padded_chunk@, quads@);
                }
                process_quad_buffer(&quads, padded_chunk)
            } else {
                None
            }
        },
        None => None,
    }
}

/// Greedy-meshes a padded block of voxels: one quad for each maximal
/// rectangle of visible faces that share a direction and a material, made
/// into vertex and index buffers.
pub fn mesh_padded(padded_chunk: &VoxelArray) -> (mesh: Option<ChunkMeshData>)
    requires
        padded_chunk@.wf(),
        padded_chunk@.extent.shape.x >= 2,
        padded_chunk@.extent.shape.y >= 2,
        padded_chunk@.extent.shape.z >= 2,
    ensures
        is_mesh_result(mesh, greedy_quads_of(padded_chunk@), padded_chunk@),
{
    let raw: Vec<GreedyQuad> = greedy_quads_call(padded_chunk);
    mesh_of_quads(&raw, padded_chunk)
}

/// The box `extent` can be meshed from `store`: it has no negative side,
/// and grown by one step on every side it is still a box that can be read
/// from the store.
pub open spec fn meshable(store: &VoxelStore, extent: Extent) -> bool {
    &&& extent.shape.x >= 0
    &&& extent.shape.y >= 0
    &&& extent.shape.z >= 0
    &&& extent.paddable(1)
    &&& store.readable(extent.spec_padded(1))
}

/// Whether `extent` can be meshed from `voxel_map`.
pub fn can_mesh(voxel_map: &VoxelStore, extent: Extent) -> (ok: bool)
    requires
        voxel_map.wf(),
    ensures
        ok == meshable(voxel_map, extent),
{
    let lo: i32 = -0x7fff_ffff;
    let hi: i32 = 0x7fff_fffd;
    if extent.shape.x < 0 || extent.shape.y < 0 || extent.shape.z < 0 {
        return false;
    }
    if extent.minimum.x < lo || extent.minimum.y < lo || extent.minimum.z < lo {
        return false;
    }
    if extent.shape.x > hi || extent.shape.y > hi || extent.shape.z > hi {
        return false;
    }
    let padded: Extent = extent.padded(1);
    voxel_map.can_read(padded)
}

/// The mesh of the chunk whose box is `extent`: the store is read over the
/// box grown by one step on every side, so that faces towards neighbouring
/// chunks are seen or hidden by what those chunks hold, and the padded block
/// is greedy-meshed. Nothing comes back for a chunk without visible faces.
pub fn generate_mesh(voxel_map: &VoxelStore, extent: Extent) -> (mesh: Option<ChunkMeshData>)
    requires
        voxel_map.wf(),
        meshable(voxel_map, extent),
    ensures
        is_mesh_result(
            mesh,
            greedy_quads_of(voxel_map.grid(extent.spec_padded(1))),
            voxel_map.grid(extent.spec_padded(1)),
        ),
{
    let extent_padded: Extent = extent.padded(1);
    let map: VoxelArray = voxel_map.read_extent(extent_padded);
    mesh_padded(&map)
}

/// The meshes of the chunks whose boxes are `extents`, one after the other
/// and each as `generate_mesh` gives it.
pub fn generate_chunk_meshes(voxel_map: &VoxelStore, extents: &Vec<Extent>) -> (meshes: Vec<
    Option<ChunkMeshData>,
>)
    requires
        voxel_map.wf(),
        forall|i: int| 0 <= i < extents@.len() ==> meshable(voxel_map, #[trigger] extents@[i]),
    ensures
        meshes@.len() == extents@.len(),
        forall|i: int|
            0 <= i < extents@.len() ==> is_mesh_result(
                #[trigger] meshes@[i],
                greedy_quads_of(voxel_map.grid(extents@[i].spec_padded(1))),
                voxel_map.grid(extents@[i].spec_padded(1)),
            ),
{
    let mut meshes: Vec<Option<ChunkMeshData>> = Vec::new();
    let mut i: usize = 0;
    while i < extents.len()
        invariant
            i <= extents.len(),
            voxel_map.wf(),
            forall|j: int| 0 <= j < extents@.len() ==> meshable(voxel_map, #[trigger] extents@[j]),
            meshes@.len() == i,
            forall|j: int|
                0 <= j < i ==> is_mesh_result(
                    #[trigger] meshes@[j],
                    greedy_quads_of(voxel_map.grid(extents@[j].spec_padded(1))),
                    voxel_map.grid(extents@[j].spec_padded(1)),
                ),
        decreases extents.len() - i,
    {
        let mesh = generate_mesh(voxel_map, extents[i]);
        meshes.push(mesh);
        i += 1;
    }
    meshes
}

} // verus!
