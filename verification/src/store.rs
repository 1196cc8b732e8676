//! The voxel store: a sparse map from chunk origins to dense chunks, kept in
//! a `ChunkHashMap` of the `building_blocks` crate.

use vstd::prelude::*;
use building_blocks::prelude::{Array3, Chunk, ChunkMap, ChunkMapBuilder, Extent3i, PointN, copy_extent};
use building_blocks::storage::ChunkHashMap;
use vstd::arithmetic::div_mod::{lemma_fundamental_div_mod, lemma_fundamental_div_mod_converse};
use crate::geometry::{
    Extent, Point3, is_multiple, lemma_chunk_of_point, lemma_modulo_bounds,
    lemma_modulo_down_greatest, lemma_offset_in_range, lemma_point_at, spec_modulo_down,
};
use crate::voxel::{Voxel, VoxelArray, VoxelGrid};

verus! {

/// The chunk map of `building_blocks`, taken as it is.
#[verifier::external_type_specification]
#[verifier::external_body]
#[verifier::reject_recursive_types(N)]
#[verifier::reject_recursive_types(T)]
#[verifier::reject_recursive_types(Meta)]
#[verifier::reject_recursive_types(Store)]
pub struct ExChunkMap<N, T, Meta, Store>(ChunkMap<N, T, Meta, Store>);

/// A chunk of a chunk map of `building_blocks`, taken as it is.
#[verifier::external_type_specification]
#[verifier::external_body]
#[verifier::reject_recursive_types(N)]
#[verifier::reject_recursive_types(T)]
#[verifier::reject_recursive_types(Meta)]
pub struct ExChunk<N, T, Meta>(Chunk<N, T, Meta>);

/// The lattice point of `building_blocks`, which is the key of its chunk
/// maps, taken as it is.
#[verifier::external_type_specification]
#[verifier::external_body]
#[verifier::reject_recursive_types(N)]
pub struct ExPointN<N>(PointN<N>);

/// The hasher factory of the hash map that a chunk map keeps its chunks in,
/// taken as it is.
#[verifier::external_type_specification]
#[verifier::external_body]
#[verifier::reject_recursive_types(H)]
pub struct ExBuildHasherDefault<H>(std::hash::BuildHasherDefault<H>);

/// The hasher of that hash map, taken as it is.
#[verifier::external_type_specification]
#[verifier::external_body]
pub struct ExFnvHasher(fnv::FnvHasher);

/// The sparse chunk map that holds the terrain.
pub type VoxelMap = ChunkHashMap<[i32; 3], Voxel, ()>;

/// The chunks that a chunk map holds: for each chunk key the voxels of that
/// chunk in row-major order.
pub uninterp spec fn stored_chunks(map: VoxelMap) -> Map<Point3, Seq<Voxel>>;

/// The shape of the chunks that a chunk map was made for.
pub uninterp spec fn stored_chunk_shape(map: VoxelMap) -> Point3;

/// Whether `n` is a positive power of two.
pub open spec fn is_power_of_two(n: i32) -> bool {
    n > 0 && n & ((n - 1) as i32) == 0
}

/// A chunk shape that a store can be made for: every side a power of two.
pub open spec fn valid_chunk_shape(shape: Point3) -> bool {
    &&& is_power_of_two(shape.x)
    &&& is_power_of_two(shape.y)
    &&& is_power_of_two(shape.z)
    &&& shape.x * shape.y * shape.z <= i32::MAX
}

/// A chunk key: a lattice point whose coordinates are multiples of the sides
/// of the chunk shape, with the chunk that starts there still in the lattice.
pub open spec fn valid_chunk_key(key: Point3, shape: Point3) -> bool {
    &&& key.x as int % shape.x as int == 0
    &&& key.y as int % shape.y as int == 0
    &&& key.z as int % shape.z as int == 0
    &&& key.x + shape.x <= i32::MAX
    &&& key.y + shape.y <= i32::MAX
    &&& key.z + shape.z <= i32::MAX
}

/// The key of the chunk that holds `p`.
pub open spec fn chunk_key_of(p: Point3, shape: Point3) -> Point3 {
    Point3 {
        x: spec_modulo_down(p.x as int, shape.x as int) as i32,
        y: spec_modulo_down(p.y as int, shape.y as int) as i32,
        z: spec_modulo_down(p.z as int, shape.z as int) as i32,
    }
}

/// The voxel that a set of chunks of the given shape holds at `p`: that of
/// the chunk around `p`, or air where there is no such chunk.
pub open spec fn voxel_in_chunks(chunks: Map<Point3, Seq<Voxel>>, shape: Point3, p: Point3) -> Voxel {
    let key = chunk_key_of(p, shape);
    if chunks.dom().contains(key) {
        chunks[key][(Extent { minimum: key, shape }).offset_of(p)]
    } else {
        Voxel(0)
    }
}

/// Makes an empty chunk map with air as its ambient value.
///
/// Calls `ChunkMapBuilder::build_with_hash_map_storage`, which panics unless
/// every side of the chunk shape is a positive power of two. The map that it
/// returns holds no chunk.
#[verifier::external_body]
fn chunk_map_new(shape: Point3) -> (map: VoxelMap)
    requires
        valid_chunk_shape(shape),
    ensures
        stored_chunks(map) == (Map::<Point3, Seq<Voxel>>::empty()),
        stored_chunk_shape(map) == shape,
{
    ChunkMapBuilder {
        chunk_shape: PointN([shape.x, shape.y, shape.z]),
        ambient_value: Voxel(0),
        default_chunk_metadata: (),
    }.build_with_hash_map_storage()
}

/// Puts a chunk into the map under `key`, in place of any chunk that was
/// there.
///
/// Calls `ChunkMap::write_chunk` with an array over the chunk's box that
/// holds `values`; the array's constructor panics unless there is one value
/// for each point of the box.
#[verifier::external_body]
fn chunk_map_write(map: &mut VoxelMap, key: Point3, values: Vec<Voxel>)
    requires
        valid_chunk_key(key, stored_chunk_shape(*old(map))),
        values@.len() == (Extent { minimum: key, shape: stored_chunk_shape(*old(map)) }).volume(),
    ensures
        stored_chunks(*final(map)) == stored_chunks(*old(map)).insert(key, values@),
        stored_chunk_shape(*final(map)) == stored_chunk_shape(*old(map)),
{
    let extent = Extent3i::from_min_and_shape(PointN([key.x, key.y, key.z]), map.indexer.chunk_shape());
    map.write_chunk(extent.minimum, Chunk::with_array(Array3::new(extent, values)));
}

/// Whether the map holds a chunk under `key`.
///
/// Calls `ChunkMap::get_chunk`, which looks the key up in the hash map.
#[verifier::external_body]
fn chunk_map_has(map: &VoxelMap, key: Point3) -> (found: bool)
    requires
        valid_chunk_key(key, stored_chunk_shape(*map)),
    ensures
        found == stored_chunks(*map).dom().contains(key),
{
    map.get_chunk(&PointN([key.x, key.y, key.z])).is_some()
}

/// Copies the voxels of `extent` from the map into an array over the same
/// box.
///
/// Calls `copy_extent` with the map as its source and an array over `extent`
/// as its destination. For each chunk that meets the box it copies the
/// common part from the chunk, or fills that part with the ambient value, air,
/// where the map has no such chunk.
#[verifier::external_body]
fn chunk_map_read(map: &VoxelMap, extent: Extent) -> (values: Vec<Voxel>)
    requires
        extent.wf(),
        extent.shape.x >= 1 && extent.shape.y >= 1 && extent.shape.z >= 1,
        extent.lub_x() + stored_chunk_shape(*map).x <= i32::MAX,
        extent.lub_y() + stored_chunk_shape(*map).y <= i32::MAX,
        extent.lub_z() + stored_chunk_shape(*map).z <= i32::MAX,
    ensures
        values@.len() == extent.volume(),
        forall|p: Point3|
            extent.spec_contains(p) ==> #[trigger] values@[extent.offset_of(p)] == voxel_in_chunks(
                stored_chunks(*map),
                stored_chunk_shape(*map),
                p,
            ),
{
    let e = Extent3i::from_min_and_shape(
        PointN([extent.minimum.x, extent.minimum.y, extent.minimum.z]),
        PointN([extent.shape.x, extent.shape.y, extent.shape.z]),
    );
    let mut array = Array3::fill(e, Voxel(0));
    copy_extent(&e, map, &mut array);
    array.into_parts().1
}

/// Every chunk has a valid key and one voxel for each point of its box.
pub open spec fn chunks_match_shape(chunks: Map<Point3, Seq<Voxel>>, shape: Point3) -> bool {
    forall|key: Point3| #[trigger]
        chunks.dom().contains(key) ==> valid_chunk_key(key, shape) && chunks[key].len() == (Extent {
            minimum: key,
            shape,
        }).volume()
}

/// The voxels that a set of chunks of the given shape holds over `extent`,
/// in the row-major order of that box.
pub open spec fn grid_of_chunks(chunks: Map<Point3, Seq<Voxel>>, shape: Point3, extent: Extent) -> VoxelGrid {
    VoxelGrid {
        extent,
        values: Seq::new(
            extent.volume() as nat,
            |i: int| voxel_in_chunks(chunks, shape, extent.point_at(i)),
        ),
    }
}

/// The least coordinate of the lattice is a multiple of every power of two,
/// so rounding a coordinate down to a multiple of a power of two stays in the
/// lattice.
pub proof fn lemma_power_of_two_rounds_in_lattice(v: i32, n: i32)
    requires
        is_power_of_two(n),
    ensures
        (i32::MIN as int) % (n as int) == 0,
        i32::MIN <= spec_modulo_down(v as int, n as int) <= v,
{
    let u: u32 = n as u32;
    assert(u & ((u - 1) as u32) == 0) by (bit_vector)
        requires
            n > 0,
            u == n as u32,
            n & ((n - 1) as i32) == 0,
    ;
    assert(u > 0 && u & ((u - 1) as u32) == 0 ==> 0x4000_0000u32 % u == 0 || u == 0x8000_0000u32)
        by (bit_vector);
    let m = n as int;
    assert(0x4000_0000int % m == 0);
    lemma_fundamental_div_mod(0x4000_0000int, m);
    let q = 0x4000_0000int / m;
    assert((-2 * q) * m + 0 == -0x8000_0000int) by (nonlinear_arith)
        requires
            0x4000_0000int == m * q,
    ;
    lemma_fundamental_div_mod_converse(i32::MIN as int, m, -2 * q, 0);
    lemma_modulo_bounds(v as int, m);
    lemma_modulo_down_greatest(v as int, m, i32::MIN as int);
}

/// A point lies in the box of the chunk at `key` exactly if `key` is the key
/// of the chunk that holds the point.
pub proof fn lemma_chunk_key_of(p: Point3, key: Point3, shape: Point3)
    requires
        is_power_of_two(shape.x) && is_power_of_two(shape.y) && is_power_of_two(shape.z),
        valid_chunk_key(key, shape),
    ensures
        (Extent { minimum: key, shape }).spec_contains(p) <==> chunk_key_of(p, shape) == key,
{
    lemma_power_of_two_rounds_in_lattice(p.x, shape.x);
    lemma_power_of_two_rounds_in_lattice(p.y, shape.y);
    lemma_power_of_two_rounds_in_lattice(p.z, shape.z);
    lemma_chunk_of_point(p.x as int, key.x as int, shape.x as int);
    lemma_chunk_of_point(p.y as int, key.y as int, shape.y as int);
    lemma_chunk_of_point(p.z as int, key.z as int, shape.z as int);
}

/// After a chunk is written, the store holds the voxels of that chunk in the
/// chunk's box and what it held before everywhere else.
pub proof fn lemma_voxel_after_write(
    chunks: Map<Point3, Seq<Voxel>>,
    shape: Point3,
    key: Point3,
    values: Seq<Voxel>,
    p: Point3,
)
    requires
        is_power_of_two(shape.x) && is_power_of_two(shape.y) && is_power_of_two(shape.z),
        valid_chunk_key(key, shape),
    ensures
        voxel_in_chunks(chunks.insert(key, values), shape, p) == (if (Extent {
            minimum: key,
            shape,
        }).spec_contains(p) {
            values[(Extent { minimum: key, shape }).offset_of(p)]
        } else {
            voxel_in_chunks(chunks, shape, p)
        }),
{
    lemma_chunk_key_of(p, key, shape);
}

/// The terrain: a sparse map from chunk keys to chunks of one shape. A chunk
/// is either absent or holds a voxel for each of its points.
pub struct VoxelStore {
    map: VoxelMap,
    chunk_shape: Point3,
}

impl VoxelStore {
    /// The chunks of the store: for each chunk key the voxels of that chunk
    /// in row-major order.
    pub closed spec fn chunks(&self) -> Map<Point3, Seq<Voxel>> {
        stored_chunks(self.map)
    }

    /// The shape that all chunks of the store have.
    pub closed spec fn spec_chunk_shape(&self) -> Point3 {
        self.chunk_shape
    }

    pub closed spec fn map_agrees(&self) -> bool {
        stored_chunk_shape(self.map) == self.chunk_shape
    }

    pub open spec fn wf(&self) -> bool {
        &&& self.map_agrees()
        &&& valid_chunk_shape(self.spec_chunk_shape())
        &&& chunks_match_shape(self.chunks(), self.spec_chunk_shape())
    }

    /// Whether the store holds the chunk with the given key.
    pub open spec fn has_chunk(&self, key: Point3) -> bool {
        self.chunks().dom().contains(key)
    }

    /// The voxel at `p`: air where the chunk around `p` is absent.
    pub open spec fn voxel_at(&self, p: Point3) -> Voxel {
        voxel_in_chunks(self.chunks(), self.spec_chunk_shape(), p)
    }

    /// The box of the chunk with the given key.
    pub open spec fn chunk_extent(&self, key: Point3) -> Extent {
        Extent { minimum: key, shape: self.spec_chunk_shape() }
    }

    /// The content of the store over `extent`.
    pub open spec fn grid(&self, extent: Extent) -> VoxelGrid {
        grid_of_chunks(self.chunks(), self.spec_chunk_shape(), extent)
    }

    /// `extent` can be read from the store: it is well-formed, not empty, and
    /// the chunks that meet it lie within the lattice.
    pub open spec fn readable(&self, extent: Extent) -> bool {
        &&& extent.wf()
        &&& extent.shape.x >= 1
        &&& extent.shape.y >= 1
        &&& extent.shape.z >= 1
        &&& extent.lub_x() + self.spec_chunk_shape().x <= i32::MAX
        &&& extent.lub_y() + self.spec_chunk_shape().y <= i32::MAX
        &&& extent.lub_z() + self.spec_chunk_shape().z <= i32::MAX
    }

    /// An empty store for chunks of the given shape, or nothing unless every
    /// side of the shape is a power of two and the chunk's volume fits 32
    /// bits.
    pub fn new(chunk_shape: Point3) -> (store: Option<VoxelStore>)
        ensures
            store.is_some() <==> valid_chunk_shape(chunk_shape),
            store.is_some() ==> {
                &&& store.unwrap().wf()
                &&& store.unwrap().spec_chunk_shape() == chunk_shape
                &&& store.unwrap().chunks() == Map::<Point3, Seq<Voxel>>::empty()
            },
    {
        if !power_of_two(chunk_shape.x) || !power_of_two(chunk_shape.y) || !power_of_two(
            chunk_shape.z,
        ) {
            return None;
        }
        let extent = Extent { minimum: Point3 { x: 0, y: 0, z: 0 }, shape: chunk_shape };
        if !extent.is_wf() {
            return None;
        }
        let map = chunk_map_new(chunk_shape);
        Some(VoxelStore { map, chunk_shape })
    }

    /// Whether `extent` can be read from the store.
    pub fn can_read(&self, extent: Extent) -> (ok: bool)
        requires
            self.wf(),
        ensures
            ok == self.readable(extent),
    {
        let s: Point3 = self.chunk_shape;
        let limit: i64 = 0x7fff_ffff;
        extent.is_wf() && extent.shape.x >= 1 && extent.shape.y >= 1 && extent.shape.z >= 1
            && extent.minimum.x as i64 + extent.shape.x as i64 + s.x as i64 <= limit
            && extent.minimum.y as i64 + extent.shape.y as i64 + s.y as i64 <= limit
            && extent.minimum.z as i64 + extent.shape.z as i64 + s.z as i64 <= limit
    }

    pub fn chunk_shape(&self) -> (shape: Point3)
        ensures
            shape == self.spec_chunk_shape(),
    {
        self.chunk_shape
    }

    /// Whether `key` is a chunk key of this store.
    pub fn is_chunk_key(&self, key: Point3) -> (ok: bool)
        requires
            self.wf(),
        ensures
            ok == valid_chunk_key(key, self.spec_chunk_shape()),
    {
        let s: Point3 = self.chunk_shape;
        let limit: i64 = 0x7fff_ffff;
        is_multiple(key.x, s.x) && is_multiple(key.y, s.y) && is_multiple(key.z, s.z) && key.x as i64
            + s.x as i64 <= limit && key.y as i64 + s.y as i64 <= limit && key.z as i64 + s.z as i64
            <= limit
    }

    /// Whether the store holds the chunk with the given key.
    pub fn contains_chunk(&self, key: Point3) -> (found: bool)
        requires
            self.wf(),
        ensures
            found == self.has_chunk(key),
    {
        if self.is_chunk_key(key) {
            chunk_map_has(&self.map, key)
        } else {
            false
        }
    }

    /// Puts `chunk` into the store under `key`, in place of any chunk that
    /// was there. Nothing is written, and the answer is `false`, unless `key`
    /// is a chunk key of this store and `chunk` covers exactly the box of the
    /// chunk at `key`.
    pub fn write_chunk(&mut self, key: Point3, chunk: VoxelArray) -> (written: bool)
        requires
            old(self).wf(),
            chunk@.wf(),
        ensures
            final(self).wf(),
            final(self).spec_chunk_shape() == old(self).spec_chunk_shape(),
            written == (valid_chunk_key(key, old(self).spec_chunk_shape()) && chunk@.extent
                == old(self).chunk_extent(key)),
            written ==> final(self).chunks() == old(self).chunks().insert(key, chunk@.values),
            !written ==> final(self).chunks() == old(self).chunks(),
            written ==> forall|p: Point3| #[trigger]
                final(self).voxel_at(p) == (if chunk@.extent.spec_contains(p) {
                    chunk@.voxel_at(p)
                } else {
                    old(self).voxel_at(p)
                }),
    {
        let extent: Extent = chunk.extent();
        if !self.is_chunk_key(key) || extent.minimum != key || extent.shape != self.chunk_shape {
            return false;
        }
        proof {
            assert forall|p: Point3| #[trigger]
                voxel_in_chunks(self.chunks().insert(key, chunk@.values), self.chunk_shape, p) == (if chunk@.extent.spec_contains(
                    p,
                ) {
                    chunk@.voxel_at(p)
                } else {
                    self.voxel_at(p)
                }) by {
                lemma_voxel_after_write(self.chunks(), self.chunk_shape, key, chunk@.values, p);
            }
        }
        chunk_map_write(&mut self.map, key, chunk.into_values());
        true
    }

    /// The content of the store over `extent`, as a dense array. Where a
    /// chunk is absent the array holds air.
    pub fn read_extent(&self, extent: Extent) -> (array: VoxelArray)
        requires
            self.wf(),
            self.readable(extent),
        ensures
            array@ == self.grid(extent),
            array@.wf(),
            forall|p: Point3| #[trigger] array@.voxel_at(p) == (if extent.spec_contains(p) {
                self.voxel_at(p)
            } else {
                Voxel(0)
            }),
    {
        let values: Vec<Voxel> = chunk_map_read(&self.map, extent);
        proof {
            let grid = self.grid(extent);
            assert(values@.len() == grid.values.len());
            assert forall|i: int| 0 <= i < values@.len() implies values@[i] == grid.values[i] by {
                lemma_point_at(extent, i);
                let p = extent.point_at(i);
                assert(values@[extent.offset_of(p)] == voxel_in_chunks(
                    stored_chunks(self.map),
                    stored_chunk_shape(self.map),
                    p,
                ));
            }
            assert(values@ =~= grid.values);
            assert forall|p: Point3| extent.spec_contains(p) implies #[trigger] grid.voxel_at(p)
                == self.voxel_at(p) by {
                lemma_offset_in_range(extent, p);
                assert(values@[extent.offset_of(p)] == voxel_in_chunks(
                    stored_chunks(self.map),
                    stored_chunk_shape(self.map),
                    p,
                ));
            }
        }
        VoxelArray::from_parts(extent, values)
    }
}

fn power_of_two(n: i32) -> (b: bool)
    ensures
        b == is_power_of_two(n),
{
    n > 0 && n & (n - 1) == 0
}

} // verus!
