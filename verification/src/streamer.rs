//! Chunk streaming: which chunks a viewer needs, which of them are missing,
//! and the record of the chunks that are materialized.

use vstd::prelude::*;
use vstd::arithmetic::div_mod::lemma_fundamental_div_mod;
use crate::geometry::{
    Extent, Point3, extent_modulo_expand, is_multiple, lemma_modulo_bounds, spec_modulo_down,
    spec_modulo_up, transform_to_extent,
};
use crate::generator::{chunk_material, generated_grid, generated_voxel, get_chunk_voxels, spec_chunk_material};
use crate::store::{VoxelStore, lemma_voxel_after_write, valid_chunk_key, valid_chunk_shape, voxel_in_chunks};
use crate::tracker::MaterializedChunks;
use crate::voxel::{Voxel, VoxelArray};

verus! {

/// The constants of streaming: the horizontal side of a chunk, the height of
/// a chunk column, and the radius around the viewer within which chunks are
/// generated and materialized.
#[derive(Clone, Copy, Debug, PartialEq, Eq, Structural)]
pub struct StreamConfig {
    pub chunk_size: i32,
    pub column_height: i32,
    pub view_distance: i32,
}

/// The largest chunk size, column height and view distance that streaming
/// works with.
pub const MAX_SPAN: i32 = 0x1000_0000;

/// The largest distance of a viewer from the origin, along `x` and along `z`,
/// that streaming works with.
pub const MAX_VIEWER_COORDINATE: i32 = 0x4000_0000;

impl StreamConfig {
    pub open spec fn wf(self) -> bool {
        &&& 1 <= self.chunk_size <= MAX_SPAN
        &&& 1 <= self.column_height <= MAX_SPAN
        &&& 0 <= self.view_distance <= MAX_SPAN
    }

    /// The box of the chunk whose origin is `origin`.
    pub open spec fn spec_chunk_extent(self, origin: Point3) -> Extent {
        Extent {
            minimum: origin,
            shape: Point3 { x: self.chunk_size, y: self.column_height, z: self.chunk_size },
        }
    }

    pub fn is_wf(&self) -> (ok: bool)
        ensures
            ok == self.wf(),
    {
        1 <= self.chunk_size && self.chunk_size <= MAX_SPAN && 1 <= self.column_height
            && self.column_height <= MAX_SPAN && 0 <= self.view_distance && self.view_distance
            <= MAX_SPAN
    }

    pub fn chunk_extent(&self, origin: Point3) -> (extent: Extent)
        ensures
            extent == self.spec_chunk_extent(origin),
    {
        Extent {
            minimum: origin,
            shape: Point3 { x: self.chunk_size, y: self.column_height, z: self.chunk_size },
        }
    }
}

/// A viewer position that streaming works with.
pub open spec fn viewer_in_bounds(viewer: Point3) -> bool {
    &&& -MAX_VIEWER_COORDINATE <= viewer.x <= MAX_VIEWER_COORDINATE
    &&& -MAX_VIEWER_COORDINATE <= viewer.z <= MAX_VIEWER_COORDINATE
}

pub fn check_viewer_in_bounds(viewer: Point3) -> (ok: bool)
    ensures
        ok == viewer_in_bounds(viewer),
{
    -MAX_VIEWER_COORDINATE <= viewer.x && viewer.x <= MAX_VIEWER_COORDINATE
        && -MAX_VIEWER_COORDINATE <= viewer.z && viewer.z <= MAX_VIEWER_COORDINATE
}

/// A chunk origin: a point on the plane `y = 0` whose horizontal coordinates
/// are multiples of the chunk size.
pub open spec fn is_chunk_origin(p: Point3, chunk_size: i32) -> bool {
    &&& p.y == 0
    &&& p.x as int % chunk_size as int == 0
    &&& p.z as int % chunk_size as int == 0
}

/// The square of the distance from `p` to the viewer on the horizontal
/// plane.
pub open spec fn planar_distance_squared(p: Point3, viewer: Point3) -> int {
    (p.x - viewer.x) * (p.x - viewer.x) + (p.z - viewer.z) * (p.z - viewer.z)
}

/// Whether `p` lies within the circle of the view distance around the
/// viewer.
pub open spec fn in_view(p: Point3, viewer: Point3, view_distance: i32) -> bool {
    planar_distance_squared(p, viewer) <= view_distance * view_distance
}

/// Whether the chunk with origin `p` is needed by a viewer: `p` is a chunk
/// origin within the circle of the view distance.
pub open spec fn chunk_required(p: Point3, viewer: Point3, config: StreamConfig) -> bool {
    is_chunk_origin(p, config.chunk_size) && in_view(p, viewer, config.view_distance)
}

/// A point within the circle lies within the square around it.
pub proof fn lemma_in_view_bounds(p: Point3, viewer: Point3, view_distance: i32)
    requires
        view_distance >= 0,
        in_view(p, viewer, view_distance),
    ensures
        viewer.x - view_distance <= p.x <= viewer.x + view_distance,
        viewer.z - view_distance <= p.z <= viewer.z + view_distance,
{
    let dx = p.x - viewer.x;
    let dz = p.z - viewer.z;
    let d = view_distance as int;
    assert(-d <= dx <= d && -d <= dz <= d) by (nonlinear_arith)
        requires
            d >= 0,
            dx * dx + dz * dz <= d * d,
    ;
}

/// Two multiples of a positive number that are less than that number apart
/// are the same.
pub proof fn lemma_multiples_apart(a: int, b: int, m: int)
    requires
        m > 0,
        a % m == 0,
        b % m == 0,
        a <= b < a + m,
    ensures
        a == b,
{
    lemma_fundamental_div_mod(a, m);
    lemma_fundamental_div_mod(b, m);
    let qa = a / m;
    let qb = b / m;
    assert(qa == qb) by (nonlinear_arith)
        requires
            m > 0,
            m * qa <= m * qb < m * qa + m,
    ;
}

fn distance_squared(p: Point3, viewer: Point3) -> (d: i64)
    requires
        -0x7000_0000 <= p.x - viewer.x <= 0x7000_0000,
        -0x7000_0000 <= p.z - viewer.z <= 0x7000_0000,
    ensures
        d == planar_distance_squared(p, viewer),
{
    let dx: i64 = p.x as i64 - viewer.x as i64;
    let dz: i64 = p.z as i64 - viewer.z as i64;
    proof {
        assert(0 <= dx * dx <= 0x7000_0000 * 0x7000_0000) by (nonlinear_arith)
            requires
                -0x7000_0000 <= dx <= 0x7000_0000,
        ;
        assert(0 <= dz * dz <= 0x7000_0000 * 0x7000_0000) by (nonlinear_arith)
            requires
                -0x7000_0000 <= dz <= 0x7000_0000,
        ;
    }
    dx * dx + dz * dz
}

fn view_distance_squared(view_distance: i32) -> (d: i64)
    requires
        0 <= view_distance <= MAX_SPAN,
    ensures
        d == view_distance * view_distance,
{
    proof {
        assert(0 <= view_distance * view_distance <= 0x1000_0000 * 0x1000_0000)
            by (nonlinear_arith)
            requires
                0 <= view_distance <= 0x1000_0000,
        ;
    }
    (view_distance as i64) * (view_distance as i64)
}

/// Whether the chunk with origin `p` is needed by the viewer.
pub fn is_chunk_required(p: Point3, viewer: Point3, config: &StreamConfig) -> (needed: bool)
    requires
        config.wf(),
        viewer_in_bounds(viewer),
    ensures
        needed == chunk_required(p, viewer, *config),
{
    if p.y != 0 || !is_multiple(p.x, config.chunk_size) || !is_multiple(p.z, config.chunk_size) {
        return false;
    }
    let limit: i64 = 0x7000_0000;
    let dx: i64 = p.x as i64 - viewer.x as i64;
    let dz: i64 = p.z as i64 - viewer.z as i64;
    if dx < -limit || dx > limit || dz < -limit || dz > limit {
        proof {
            if in_view(p, viewer, config.view_distance) {
                lemma_in_view_bounds(p, viewer, config.view_distance);
            }
        }
        return false;
    }
    distance_squared(p, viewer) <= view_distance_squared(config.view_distance)
}

/// The origins of the chunks that a viewer needs: every chunk origin within
/// the circle of the view distance around the viewer, each once.
pub fn chunks_in_view(viewer: Point3, config: &StreamConfig) -> (origins: Vec<Point3>)
    requires
        config.wf(),
        viewer_in_bounds(viewer),
    ensures
        origins@.no_duplicates(),
        forall|p: Point3| origins@.contains(p) <==> chunk_required(p, viewer, *config),
{
    let cam_pos: Point3 = Point3 { x: viewer.x, y: 0, z: viewer.z };
    let size: i32 = config.chunk_size;
    let extent: Extent = transform_to_extent(cam_pos, config.view_distance);
    proof {
        lemma_modulo_bounds(extent.minimum.x as int, size as int);
        lemma_modulo_bounds(extent.minimum.z as int, size as int);
        lemma_modulo_bounds(extent.lub_x(), size as int);
        lemma_modulo_bounds(extent.lub_z(), size as int);
    }
    let extent: Extent = extent_modulo_expand(extent, size);
    let min: Point3 = extent.minimum;
    let max: Point3 = extent.least_upper_bound();
    let vd2: i64 = view_distance_squared(config.view_distance);
    let mut origins: Vec<Point3> = Vec::new();
    let mut z: i32 = min.z;
    proof {
        assert forall|q: Point3| chunk_required(q, viewer, *config) implies q.z >= z && q.x
            >= min.x by {
            lemma_in_view_bounds(q, viewer, config.view_distance);
        }
    }
    while z < max.z
        invariant
            config.wf(),
            viewer_in_bounds(viewer),
            size == config.chunk_size,
            vd2 == config.view_distance * config.view_distance,
            min.x as int % size as int == 0,
            z as int % size as int == 0,
            min.x <= viewer.x - config.view_distance,
            min.z <= viewer.z - config.view_distance,
            viewer.x + config.view_distance < max.x <= viewer.x + config.view_distance + size + 1,
            viewer.z + config.view_distance < max.z <= viewer.z + config.view_distance + size + 1,
            viewer.x - config.view_distance - size < min.x,
            viewer.z - config.view_distance - size < min.z,
            min.z <= z <= max.z + size,
            origins@.no_duplicates(),
            forall|p: Point3| origins@.contains(p) ==> chunk_required(p, viewer, *config) && p.z < z,
            forall|p: Point3| chunk_required(p, viewer, *config) && p.z < z ==> origins@.contains(p),
        decreases max.z + size - z,
    {
        let mut x: i32 = min.x;
        proof {
            assert forall|q: Point3| chunk_required(q, viewer, *config) implies q.x >= min.x by {
                lemma_in_view_bounds(q, viewer, config.view_distance);
            }
        }
        while x < max.x
            invariant
                config.wf(),
                viewer_in_bounds(viewer),
                size == config.chunk_size,
                vd2 == config.view_distance * config.view_distance,
                min.x as int % size as int == 0,
                z as int % size as int == 0,
                x as int % size as int == 0,
                min.x <= viewer.x - config.view_distance,
                viewer.x + config.view_distance < max.x <= viewer.x + config.view_distance + size
                    + 1,
                viewer.z + config.view_distance < max.z <= viewer.z + config.view_distance + size
                    + 1,
                viewer.x - config.view_distance - size < min.x,
                viewer.z - config.view_distance - size < min.z,
                min.z <= z < max.z,
                min.x <= x <= max.x + size,
                origins@.no_duplicates(),
                forall|p: Point3|
                    origins@.contains(p) ==> chunk_required(p, viewer, *config) && (p.z < z || (p.z
                        == z && p.x < x)),
                forall|p: Point3|
                    chunk_required(p, viewer, *config) && (p.z < z || (p.z == z && p.x < x))
                        ==> origins@.contains(p),
            decreases max.x + size - x,
        {
            let p: Point3 = Point3 { x, y: 0, z };
            let d2: i64 = distance_squared(p, viewer);
            let ghost before = origins@;
            if d2 <= vd2 {
                proof {
                    lemma_contains_push(before, p);
                }
                origins.push(p);
            }
            proof {
                lemma_next_multiple(x as int, size as int);
                assert forall|q: Point3|
                    chunk_required(q, viewer, *config) && (q.z < z || (q.z == z && q.x < x + size))
                    implies origins@.contains(q) by {
                    if q.z == z && q.x >= x {
                        lemma_multiples_apart(x as int, q.x as int, size as int);
                        assert(q == p);
                    }
                }
            }
            x = x + size;
        }
        proof {
            lemma_next_multiple(z as int, size as int);
            assert forall|q: Point3| chunk_required(q, viewer, *config) && q.z < z + size implies
                origins@.contains(q) by {
                lemma_in_view_bounds(q, viewer, config.view_distance);
                if q.z >= z {
                    lemma_multiples_apart(z as int, q.z as int, size as int);
                }
            }
        }
        z = z + size;
    }
    proof {
        assert forall|q: Point3| chunk_required(q, viewer, *config) implies origins@.contains(q) by {
            lemma_in_view_bounds(q, viewer, config.view_distance);
        }
    }
    origins
}

/// The number after a multiple of `m` that is `m` further is a multiple too.
pub proof fn lemma_next_multiple(a: int, m: int)
    requires
        m > 0,
        a % m == 0,
    ensures
        (a + m) % m == 0,
{
    lemma_fundamental_div_mod(a, m);
    let q = a / m;
    assert(a + m == (q + 1) * m + 0) by (nonlinear_arith)
        requires
            a == m * q,
    ;
    vstd::arithmetic::div_mod::lemma_fundamental_div_mod_converse(a + m, m, q + 1, 0);
}

/// Whether `p` is one of the first `n` points of `points` and is flagged.
pub open spec fn picked(points: Seq<Point3>, flags: Seq<bool>, n: int, p: Point3) -> bool {
    exists|j: int| 0 <= j < n && #[trigger] points[j] == p && flags[j]
}

fn select(points: &Vec<Point3>, flags: &Vec<bool>) -> (chosen: Vec<Point3>)
    requires
        points@.no_duplicates(),
        flags@.len() == points@.len(),
    ensures
        chosen@.no_duplicates(),
        forall|p: Point3| chosen@.contains(p) <==> picked(points@, flags@, points@.len() as int, p),
{
    let mut chosen: Vec<Point3> = Vec::new();
    let mut i: usize = 0;
    while i < points.len()
        invariant
            i <= points.len(),
            points@.no_duplicates(),
            flags@.len() == points@.len(),
            chosen@.no_duplicates(),
            forall|p: Point3| chosen@.contains(p) <==> picked(points@, flags@, i as int, p),
        decreases points.len() - i,
    {
        let p: Point3 = points[i];
        let ghost before = chosen@;
        if flags[i] {
            proof {
                lemma_contains_push(before, p);
                if before.contains(p) {
                    let j = choose|j: int| 0 <= j < i && #[trigger] points@[j] == p && flags@[j];
                    assert(points@[j] == points@[i as int]);
                }
            }
            chosen.push(p);
        }
        proof {
            assert forall|q: Point3| chosen@.contains(q) <==> picked(
                points@,
                flags@,
                i + 1,
                q,
            ) by {
                if picked(points@, flags@, i + 1, q) {
                    let j = choose|j: int| 0 <= j < i + 1 && #[trigger] points@[j] == q && flags@[j];
                    if j < i {
                        assert(picked(points@, flags@, i as int, q));
                    }
                }
                if before.contains(q) {
                    let j = choose|j: int| 0 <= j < i && #[trigger] points@[j] == q && flags@[j];
                    assert(0 <= j < i + 1 && points@[j] == q && flags@[j]);
                }
                if flags@[i as int] && q == p {
                    assert(0 <= i < i + 1 && points@[i as int] == q && flags@[i as int]);
                }
            }
        }
        i += 1;
    }
    chosen
}

/// The origins of the chunks that have to be generated for a viewer: the
/// chunks that the viewer needs and the store does not hold, each once.
pub fn chunks_to_generate(store: &VoxelStore, viewer: Point3, config: &StreamConfig) -> (origins: Vec<
    Point3,
>)
    requires
        store.wf(),
        config.wf(),
        viewer_in_bounds(viewer),
    ensures
        origins@.no_duplicates(),
        forall|p: Point3|
            origins@.contains(p) <==> chunk_required(p, viewer, *config) && !store.has_chunk(p),
{
    let needed: Vec<Point3> = chunks_in_view(viewer, config);
    let mut missing: Vec<bool> = Vec::new();
    let mut i: usize = 0;
    while i < needed.len()
        invariant
            i <= needed.len(),
            store.wf(),
            missing@.len() == i,
            forall|j: int| 0 <= j < i ==> #[trigger] missing@[j] == !store.has_chunk(needed@[j]),
        decreases needed.len() - i,
    {
        missing.push(!store.contains_chunk(needed[i]));
        i += 1;
    }
    let origins: Vec<Point3> = select(&needed, &missing);
    proof {
        assert forall|p: Point3|
            origins@.contains(p) <==> chunk_required(p, viewer, *config) && !store.has_chunk(
                p,
            ) by {
            if picked(needed@, missing@, needed@.len() as int, p) {
                let j = choose|j: int|
                    0 <= j < needed@.len() && #[trigger] needed@[j] == p && missing@[j];
                assert(needed@.contains(p));
            }
            if needed@.contains(p) && !store.has_chunk(p) {
                let j = choose|j: int| 0 <= j < needed@.len() && needed@[j] == p;
                assert(needed@[j] == p && missing@[j]);
            }
        }
    }
    origins
}

/// The origins of the chunks that have to be meshed for a viewer: the
/// chunks that the viewer needs and of which nothing is recorded, each once.
/// A chunk that was found to have no visible face is recorded and is not
/// meshed again.
pub fn chunks_to_mesh(chunks: &MaterializedChunks, viewer: Point3, config: &StreamConfig) -> (origins: Vec<
    Point3,
>)
    requires
        chunks.wf(),
        config.wf(),
        viewer_in_bounds(viewer),
    ensures
        origins@.no_duplicates(),
        forall|p: Point3|
            origins@.contains(p) <==> chunk_required(p, viewer, *config) && !chunks.recorded(p),
{
    let needed: Vec<Point3> = chunks_in_view(viewer, config);
    let mut missing: Vec<bool> = Vec::new();
    let mut i: usize = 0;
    while i < needed.len()
        invariant
            i <= needed.len(),
            chunks.wf(),
            missing@.len() == i,
            forall|j: int| 0 <= j < i ==> #[trigger] missing@[j] == !chunks.recorded(needed@[j]),
        decreases needed.len() - i,
    {
        missing.push(!chunks.contains(needed[i]));
        i += 1;
    }
    let origins: Vec<Point3> = select(&needed, &missing);
    proof {
        assert forall|p: Point3|
            origins@.contains(p) <==> chunk_required(p, viewer, *config) && !chunks.recorded(
                p,
            ) by {
            if picked(needed@, missing@, needed@.len() as int, p) {
                let j = choose|j: int|
                    0 <= j < needed@.len() && #[trigger] needed@[j] == p && missing@[j];
                assert(needed@.contains(p));
            }
            if needed@.contains(p) && !chunks.recorded(p) {
                let j = choose|j: int| 0 <= j < needed@.len() && needed@[j] == p;
                assert(needed@[j] == p && missing@[j]);
            }
        }
    }
    origins
}

/// After `p` is added to a list without it, the list holds what it held and
/// `p`, and still nothing twice.
pub proof fn lemma_contains_push(s: Seq<Point3>, p: Point3)
    requires
        s.no_duplicates(),
    ensures
        forall|q: Point3| s.push(p).contains(q) <==> s.contains(q) || q == p,
        !s.contains(p) ==> s.push(p).no_duplicates(),
{
    let after = s.push(p);
    assert forall|q: Point3| after.contains(q) <==> s.contains(q) || q == p by {
        if after.contains(q) {
            let i = choose|i: int| 0 <= i < after.len() && after[i] == q;
            if i < s.len() {
                assert(s[i] == q);
            }
        }
        if s.contains(q) {
            let i = choose|i: int| 0 <= i < s.len() && s[i] == q;
            assert(after[i] == q);
        }
        if q == p {
            assert(after[s.len() as int] == p);
        }
    }
    if !s.contains(p) {
        assert forall|i: int, j: int| 0 <= i < after.len() && 0 <= j < after.len() && i != j implies after[i]
            != after[j] by {
            if i < s.len() && j < s.len() {
                assert(s[i] != s[j]);
            } else if i < s.len() {
                assert(s[i] == after[i]);
            } else if j < s.len() {
                assert(s[j] == after[j]);
            }
        }
    }
}

/// The store holds chunks of the shape that the configuration asks for.
pub open spec fn store_matches(store: &VoxelStore, config: StreamConfig) -> bool {
    store.spec_chunk_shape() == (Point3 {
        x: config.chunk_size,
        y: config.column_height,
        z: config.chunk_size,
    })
}

/// Generates the chunk at `origin` and puts it into the store: the chunk is
/// filled from `heights`, one terrain height for each of its columns, with
/// the material that the origin and the seed give. Nothing is written, and
/// the answer is `false`, unless `origin` is a chunk key of the store and
/// there is one height for each column.
pub fn generate_chunk(
    store: &mut VoxelStore,
    origin: Point3,
    config: &StreamConfig,
    heights: &Vec<i32>,
    seed: u32,
) -> (written: bool)
    requires
        old(store).wf(),
        config.wf(),
        store_matches(old(store), *config),
    ensures
        final(store).wf(),
        final(store).spec_chunk_shape() == old(store).spec_chunk_shape(),
        written == (valid_origin(old(store), origin) && heights@.len() == config.chunk_size
            * config.chunk_size),
        written ==> final(store).chunks() == old(store).chunks().insert(
            origin,
            generated_grid(
                config.spec_chunk_extent(origin),
                heights@,
                spec_chunk_material(origin, seed),
            ).values,
        ),
        !written ==> final(store).chunks() == old(store).chunks(),
        written ==> forall|p: Point3| #[trigger]
            final(store).voxel_at(p) == (if config.spec_chunk_extent(origin).spec_contains(p) {
                generated_voxel(
                    config.spec_chunk_extent(origin),
                    heights@,
                    spec_chunk_material(origin, seed),
                    p,
                )
            } else {
                old(store).voxel_at(p)
            }),
{
    let extent: Extent = config.chunk_extent(origin);
    if !store.is_chunk_key(origin) {
        return false;
    }
    proof {
        assert(0 <= config.chunk_size * config.chunk_size <= 0x1000_0000 * 0x1000_0000)
            by (nonlinear_arith)
            requires
                1 <= config.chunk_size <= 0x1000_0000,
        ;
    }
    let columns: i64 = (config.chunk_size as i64) * (config.chunk_size as i64);
    if heights.len() as u64 != columns as u64 {
        return false;
    }
    let material: Voxel = chunk_material(origin, seed);
    let voxels: VoxelArray = get_chunk_voxels(extent, heights, material);
    store.write_chunk(origin, voxels)
}

/// `origin` is a chunk key of the store.
pub open spec fn valid_origin(store: &VoxelStore, origin: Point3) -> bool {
    valid_chunk_key(origin, store.spec_chunk_shape())
}

/// After a chunk is generated into a set of chunks, every point of the
/// chunk's box holds the voxel that generation puts there, and every other
/// point holds what it held before.
pub proof fn lemma_generated_chunk_reads_back(
    chunks: Map<Point3, Seq<Voxel>>,
    config: StreamConfig,
    origin: Point3,
    heights: Seq<i32>,
    material: Voxel,
    p: Point3,
)
    requires
        config.wf(),
        config.spec_chunk_extent(origin).wf(),
        valid_chunk_shape(config.spec_chunk_extent(origin).shape),
        valid_chunk_key(origin, config.spec_chunk_extent(origin).shape),
    ensures
        voxel_in_chunks(
            chunks.insert(
                origin,
                generated_grid(config.spec_chunk_extent(origin), heights, material).values,
            ),
            config.spec_chunk_extent(origin).shape,
            p,
        ) == (if config.spec_chunk_extent(origin).spec_contains(p) {
            generated_voxel(config.spec_chunk_extent(origin), heights, material, p)
        } else {
            voxel_in_chunks(chunks, config.spec_chunk_extent(origin).shape, p)
        }),
{
    let extent = config.spec_chunk_extent(origin);
    let grid = generated_grid(extent, heights, material);
    lemma_voxel_after_write(chunks, extent.shape, origin, grid.values, p);
    if extent.spec_contains(p) {
        crate::geometry::lemma_offset_in_range(extent, p);
        crate::geometry::lemma_point_at(extent, extent.offset_of(p));
        crate::geometry::lemma_offset_injective(extent, p, extent.point_at(extent.offset_of(p)));
    }
}

} // verus!
