//! Chunk persistence: the byte format of a saved chunk. A saved chunk is a
//! header with the chunk's box, the length of the payload, and the payload:
//! the chunk's voxels, one byte each in row-major order, compressed with LZ4.

use vstd::prelude::*;
use building_blocks::storage::{BytesCompression, Lz4};
use crate::geometry::{Extent, Point3};
use crate::store::VoxelStore;
use crate::voxel::{Voxel, VoxelArray, VoxelGrid};

verus! {

/// Why a chunk could not be saved or loaded.
#[derive(Clone, Copy, Debug, PartialEq, Eq, Structural)]
pub enum PersistError {
    /// The bytes end before the header does.
    Truncated,
    /// The bytes do not start with the mark of a saved chunk.
    BadMagic,
    /// The box in the header is malformed.
    BadExtent,
    /// The payload is not as long as the header says.
    LengthMismatch,
    /// The payload does not decompress to one byte for each voxel of the box.
    BadPayload,
    /// The saved chunk is not the chunk that was asked for.
    ExtentMismatch,
    /// The compressed chunk did not decompress to what was compressed, or is
    /// too long for the header.
    Compression,
}

/// What LZ4 compression makes of `bytes`.
pub uninterp spec fn lz4_compressed(bytes: Seq<u8>) -> Seq<u8>;

/// What LZ4 decompression makes of `compressed`, or nothing where it
/// reports an error.
pub uninterp spec fn lz4_decompressed(compressed: Seq<u8>) -> Option<Seq<u8>>;

/// Compresses `bytes`.
///
/// Calls `Lz4::compress_bytes` of `building_blocks` at level 10, which writes
/// an LZ4 frame with the compressed bytes.
#[verifier::external_body]
fn lz4_compress(bytes: &Vec<u8>) -> (compressed: Vec<u8>)
    ensures
        compressed@ == lz4_compressed(bytes@),
{
    let mut compressed = Vec::new();
    Lz4 { level: 10 }.compress_bytes(bytes, &mut compressed);
    compressed
}

/// Decompresses an LZ4 frame, or gives nothing where the decoder reports an
/// error.
///
/// Calls `lz4::Decoder::new` on the bytes and reads the decoder to its end.
#[verifier::external_body]
fn lz4_decompress(compressed: &Vec<u8>) -> (bytes: Option<Vec<u8>>)
    ensures
        bytes.is_some() == lz4_decompressed(compressed@).is_some(),
        bytes.is_some() ==> bytes.unwrap()@ == lz4_decompressed(compressed@).unwrap(),
{
    let mut bytes = Vec::new();
    let mut decoder = lz4::Decoder::new(&compressed[..]).ok()?;
    std::io::copy(&mut decoder, &mut bytes).ok()?;
    Some(bytes)
}

/// The four bytes that a saved chunk starts with.
pub open spec fn magic() -> Seq<u8> {
    seq![0x56u8, 0x58u8, 0x43u8, 0x48u8]
}

/// The length of the header: the mark, six coordinates and the length of the
/// payload, four bytes each.
pub const HEADER_LEN: usize = 32;

/// The four base-256 digits of `v`, the lowest first.
pub open spec fn le_bytes(v: int) -> Seq<u8> {
    seq![
        (v % 256) as u8,
        ((v / 256) % 256) as u8,
        ((v / 65536) % 256) as u8,
        ((v / 16777216) % 256) as u8,
    ]
}

/// The number whose four base-256 digits, the lowest first, stand in `bytes`
/// from position `at` on.
pub open spec fn le_value(bytes: Seq<u8>, at: int) -> int {
    bytes[at] + 256 * bytes[at + 1] + 65536 * bytes[at + 2] + 16777216 * bytes[at + 3]
}

/// A coordinate is written as its distance from the least coordinate.
pub open spec fn coordinate_bytes(c: i32) -> Seq<u8> {
    le_bytes(c - i32::MIN)
}

pub open spec fn coordinate_value(bytes: Seq<u8>, at: int) -> i32 {
    (le_value(bytes, at) + i32::MIN) as i32
}

/// The bytes of the voxels: the material of each.
pub open spec fn voxel_bytes(values: Seq<Voxel>) -> Seq<u8> {
    Seq::new(values.len(), |i: int| values[i].0)
}

/// The voxels of the bytes.
pub open spec fn voxels_of_bytes(bytes: Seq<u8>) -> Seq<Voxel> {
    Seq::new(bytes.len(), |i: int| Voxel(bytes[i]))
}

/// The saved form of a chunk over `extent` with the given compressed
/// payload.
pub open spec fn frame(extent: Extent, payload: Seq<u8>) -> Seq<u8> {
    magic() + coordinate_bytes(extent.minimum.x) + coordinate_bytes(extent.minimum.y)
        + coordinate_bytes(extent.minimum.z) + coordinate_bytes(extent.shape.x) + coordinate_bytes(
        extent.shape.y,
    ) + coordinate_bytes(extent.shape.z) + le_bytes(payload.len() as int) + payload
}

/// The box that the header of `bytes` holds.
pub open spec fn header_extent(bytes: Seq<u8>) -> Extent {
    Extent {
        minimum: Point3 {
            x: coordinate_value(bytes, 4),
            y: coordinate_value(bytes, 8),
            z: coordinate_value(bytes, 12),
        },
        shape: Point3 {
            x: coordinate_value(bytes, 16),
            y: coordinate_value(bytes, 20),
            z: coordinate_value(bytes, 24),
        },
    }
}

/// The box and the payload of a saved chunk, or the error that reading them
/// ends with.
pub open spec fn spec_parse_frame(bytes: Seq<u8>) -> Result<(Extent, Seq<u8>), PersistError> {
    if bytes.len() < HEADER_LEN {
        Err(PersistError::Truncated)
    } else if bytes.subrange(0, 4) != magic() {
        Err(PersistError::BadMagic)
    } else if !header_extent(bytes).wf() {
        Err(PersistError::BadExtent)
    } else if le_value(bytes, 28) != bytes.len() - HEADER_LEN {
        Err(PersistError::LengthMismatch)
    } else {
        Ok((header_extent(bytes), bytes.subrange(HEADER_LEN as int, bytes.len() as int)))
    }
}

/// The chunk that a payload holds for `extent`, or the error that unpacking
/// it ends with.
pub open spec fn unpacked(extent: Extent, raw: Option<Seq<u8>>) -> Result<VoxelGrid, PersistError> {
    match raw {
        Some(bytes) => {
            if bytes.len() == extent.volume() {
                Ok(VoxelGrid { extent, values: voxels_of_bytes(bytes) })
            } else {
                Err(PersistError::BadPayload)
            }
        },
        None => Err(PersistError::BadPayload),
    }
}

/// The chunk that `bytes` is the saved form of, or the error that loading
/// them ends with.
pub open spec fn spec_decode(bytes: Seq<u8>) -> Result<VoxelGrid, PersistError> {
    match spec_parse_frame(bytes) {
        Ok((extent, payload)) => unpacked(extent, lz4_decompressed(payload)),
        Err(e) => Err(e),
    }
}

/// What saving makes of a chunk whose compressed voxels are `payload` and
/// decompress to `check`: the saved form, where the payload fits the header
/// and decompresses to the voxels again.
pub open spec fn sealed(grid: VoxelGrid, payload: Seq<u8>, check: Option<Seq<u8>>) -> Result<
    Seq<u8>,
    PersistError,
> {
    if payload.len() <= u32::MAX && check == Some(voxel_bytes(grid.values)) {
        Ok(frame(grid.extent, payload))
    } else {
        Err(PersistError::Compression)
    }
}

/// The saved form of a chunk.
pub open spec fn spec_encode(grid: VoxelGrid) -> Result<Seq<u8>, PersistError> {
    let payload = lz4_compressed(voxel_bytes(grid.values));
    sealed(grid, payload, lz4_decompressed(payload))
}

/// Four digits give back the number that they are the digits of.
pub proof fn lemma_le_round_trip(v: int, bytes: Seq<u8>, at: int)
    requires
        0 <= v <= u32::MAX,
        0 <= at,
        at + 4 <= bytes.len(),
        bytes.subrange(at, at + 4) == le_bytes(v),
    ensures
        le_value(bytes, at) == v,
{
    let d = le_bytes(v);
    assert(bytes[at] == bytes.subrange(at, at + 4)[0]);
    assert(bytes[at + 1] == bytes.subrange(at, at + 4)[1]);
    assert(bytes[at + 2] == bytes.subrange(at, at + 4)[2]);
    assert(bytes[at + 3] == bytes.subrange(at, at + 4)[3]);
    assert(d[0] == v % 256);
    assert(d[1] == (v / 256) % 256);
    assert(d[2] == (v / 65536) % 256);
    assert(d[3] == (v / 16777216) % 256);
}

/// Reading the saved form of a chunk gives its box and its payload.
pub proof fn lemma_parse_frame(extent: Extent, payload: Seq<u8>)
    requires
        extent.wf(),
        payload.len() <= u32::MAX,
    ensures
        spec_parse_frame(frame(extent, payload)) == Ok::<(Extent, Seq<u8>), PersistError>(
            (extent, payload),
        ),
{
    let bytes = frame(extent, payload);
    let n = payload.len() as int;
    assert(bytes.len() == HEADER_LEN + n);
    assert(bytes.subrange(0, 4) =~= magic());
    assert(bytes.subrange(4, 8) =~= coordinate_bytes(extent.minimum.x));
    assert(bytes.subrange(8, 12) =~= coordinate_bytes(extent.minimum.y));
    assert(bytes.subrange(12, 16) =~= coordinate_bytes(extent.minimum.z));
    assert(bytes.subrange(16, 20) =~= coordinate_bytes(extent.shape.x));
    assert(bytes.subrange(20, 24) =~= coordinate_bytes(extent.shape.y));
    assert(bytes.subrange(24, 28) =~= coordinate_bytes(extent.shape.z));
    assert(bytes.subrange(28, 32) =~= le_bytes(n));
    lemma_le_round_trip(extent.minimum.x - i32::MIN, bytes, 4);
    lemma_le_round_trip(extent.minimum.y - i32::MIN, bytes, 8);
    lemma_le_round_trip(extent.minimum.z - i32::MIN, bytes, 12);
    lemma_le_round_trip(extent.shape.x - i32::MIN, bytes, 16);
    lemma_le_round_trip(extent.shape.y - i32::MIN, bytes, 20);
    lemma_le_round_trip(extent.shape.z - i32::MIN, bytes, 24);
    lemma_le_round_trip(n, bytes, 28);
    assert(header_extent(bytes) == extent);
    assert(bytes.subrange(HEADER_LEN as int, bytes.len() as int) =~= payload);
}

/// Voxels come back from their bytes.
pub proof fn lemma_voxel_bytes_round_trip(values: Seq<Voxel>)
    ensures
        voxels_of_bytes(voxel_bytes(values)) == values,
{
    assert(voxels_of_bytes(voxel_bytes(values)) =~= values);
}

/// Loading what saving gave yields the chunk that was saved.
pub proof fn lemma_save_load_round_trip(grid: VoxelGrid, bytes: Seq<u8>)
    requires
        grid.wf(),
        spec_encode(grid) == Ok::<Seq<u8>, PersistError>(bytes),
    ensures
        spec_decode(bytes) == Ok::<VoxelGrid, PersistError>(grid),
{
    let payload = lz4_compressed(voxel_bytes(grid.values));
    lemma_parse_frame(grid.extent, payload);
    lemma_voxel_bytes_round_trip(grid.values);
}

fn push_le(out: &mut Vec<u8>, v: u32)
    ensures
        final(out)@ == old(out)@ + le_bytes(v as int),
{
    let ghost before = out@;
    out.push((v % 256) as u8);
    out.push(((v / 256) % 256) as u8);
    out.push(((v / 65536) % 256) as u8);
    out.push(((v / 16777216) % 256) as u8);
    assert(out@ =~= before + le_bytes(v as int));
}

fn push_coordinate(out: &mut Vec<u8>, c: i32)
    ensures
        final(out)@ == old(out)@ + coordinate_bytes(c),
{
    push_le(out, (c as i64 + 0x8000_0000) as u32);
}

fn read_le(bytes: &Vec<u8>, at: usize) -> (v: u32)
    requires
        at + 4 <= bytes@.len(),
    ensures
        v == le_value(bytes@, at as int),
{
    let n: usize = bytes.len();
    assert(at + 4 <= n);
    let v: u64 = bytes[at] as u64 + 256 * (bytes[at + 1] as u64) + 65536 * (bytes[at + 2] as u64)
        + 16777216 * (bytes[at + 3] as u64);
    v as u32
}

fn read_coordinate(bytes: &Vec<u8>, at: usize) -> (c: i32)
    requires
        at + 4 <= bytes@.len(),
    ensures
        c == coordinate_value(bytes@, at as int),
{
    (read_le(bytes, at) as i64 - 0x8000_0000) as i32
}

/// The saved form of a chunk over `extent` with the given compressed
/// payload.
pub fn encode_frame(extent: Extent, payload: &Vec<u8>) -> (bytes: Vec<u8>)
    requires
        payload@.len() <= u32::MAX,
    ensures
        bytes@ == frame(extent, payload@),
{
    let mut bytes: Vec<u8> = Vec::new();
    bytes.push(0x56);
    bytes.push(0x58);
    bytes.push(0x43);
    bytes.push(0x48);
    assert(bytes@ =~= magic());
    push_coordinate(&mut bytes, extent.minimum.x);
    push_coordinate(&mut bytes, extent.minimum.y);
    push_coordinate(&mut bytes, extent.minimum.z);
    push_coordinate(&mut bytes, extent.shape.x);
    push_coordinate(&mut bytes, extent.shape.y);
    push_coordinate(&mut bytes, extent.shape.z);
    push_le(&mut bytes, payload.len() as u32);
    let ghost header = bytes@;
    let mut i: usize = 0;
    while i < payload.len()
        invariant
            i <= payload.len(),
            bytes@ == header + payload@.subrange(0, i as int),
        decreases payload.len() - i,
    {
        bytes.push(payload[i]);
        assert(bytes@ =~= header + payload@.subrange(0, i + 1));
        i += 1;
    }
    assert(payload@.subrange(0, payload@.len() as int) =~= payload@);
    bytes
}

/// Reads the box and the payload of a saved chunk.
pub fn parse_frame(bytes: &Vec<u8>) -> (parsed: Result<(Extent, Vec<u8>), PersistError>)
    ensures
        match parsed {
            Ok((extent, payload)) => spec_parse_frame(bytes@) == Ok::<
                (Extent, Seq<u8>),
                PersistError,
            >((extent, payload@)),
            Err(e) => spec_parse_frame(bytes@) == Err::<(Extent, Seq<u8>), PersistError>(e),
        },
{
    if bytes.len() < HEADER_LEN {
        return Err(PersistError::Truncated);
    }
    if bytes[0] != 0x56 || bytes[1] != 0x58 || bytes[2] != 0x43 || bytes[3] != 0x48 {
        assert(bytes@.subrange(0, 4)[0] == bytes@[0]);
        assert(bytes@.subrange(0, 4)[1] == bytes@[1]);
        assert(bytes@.subrange(0, 4)[2] == bytes@[2]);
        assert(bytes@.subrange(0, 4)[3] == bytes@[3]);
        return Err(PersistError::BadMagic);
    }
    assert(bytes@.subrange(0, 4) =~= magic());
    let extent = Extent {
        minimum: Point3 {
            x: read_coordinate(bytes, 4),
            y: read_coordinate(bytes, 8),
            z: read_coordinate(bytes, 12),
        },
        shape: Point3 {
            x: read_coordinate(bytes, 16),
            y: read_coordinate(bytes, 20),
            z: read_coordinate(bytes, 24),
        },
    };
    if !extent.is_wf() {
        return Err(PersistError::BadExtent);
    }
    let n: u32 = read_le(bytes, 28);
    if n as u64 != (bytes.len() - HEADER_LEN) as u64 {
        return Err(PersistError::LengthMismatch);
    }
    let mut payload: Vec<u8> = Vec::new();
    let mut i: usize = HEADER_LEN;
    while i < bytes.len()
        invariant
            HEADER_LEN <= i <= bytes.len(),
            payload@ == bytes@.subrange(HEADER_LEN as int, i as int),
        decreases bytes.len() - i,
    {
        payload.push(bytes[i]);
        assert(payload@ =~= bytes@.subrange(HEADER_LEN as int, i + 1));
        i += 1;
    }
    Ok((extent, payload))
}

fn same_bytes(a: &Vec<u8>, b: &Vec<u8>) -> (same: bool)
    ensures
        same == (a@ == b@),
{
    if a.len() != b.len() {
        return false;
    }
    let mut i: usize = 0;
    while i < a.len()
        invariant
            i <= a.len(),
            a@.len() == b@.len(),
            forall|j: int| 0 <= j < i ==> a@[j] == b@[j],
        decreases a.len() - i,
    {
        if a[i] != b[i] {
            return false;
        }
        i += 1;
    }
    assert(a@ =~= b@);
    true
}

/// Puts a compressed chunk into its saved form, where `payload` fits the
/// header and `check`, what the payload decompresses to, is the chunk's
/// voxels again.
pub fn seal(chunk: &VoxelArray, payload: &Vec<u8>, check: &Option<Vec<u8>>) -> (bytes: Result<
    Vec<u8>,
    PersistError,
>)
    requires
        chunk@.wf(),
    ensures
        match bytes {
            Ok(b) => sealed(chunk@, payload@, view_of(*check)) == Ok::<Seq<u8>, PersistError>(b@),
            Err(e) => sealed(chunk@, payload@, view_of(*check)) == Err::<Seq<u8>, PersistError>(e),
        },
{
    let raw: Vec<u8> = raw_bytes(chunk);
    if payload.len() as u64 > 0xffff_ffff {
        return Err(PersistError::Compression);
    }
    match check {
        Some(again) => {
            if same_bytes(again, &raw) {
                Ok(encode_frame(chunk.extent(), payload))
            } else {
                Err(PersistError::Compression)
            }
        },
        None => Err(PersistError::Compression),
    }
}

/// The bytes, if there are any.
pub open spec fn view_of(bytes: Option<Vec<u8>>) -> Option<Seq<u8>> {
    match bytes {
        Some(b) => Some(b@),
        None => None,
    }
}

fn raw_bytes(chunk: &VoxelArray) -> (raw: Vec<u8>)
    ensures
        raw@ == voxel_bytes(chunk@.values),
{
    let values: &Vec<Voxel> = chunk.values();
    let mut raw: Vec<u8> = Vec::new();
    let mut i: usize = 0;
    while i < values.len()
        invariant
            i <= values.len(),
            values@ == chunk@.values,
            raw@.len() == i,
            forall|j: int| 0 <= j < i ==> raw@[j] == values@[j].0,
        decreases values.len() - i,
    {
        raw.push(values[i].0);
        i += 1;
    }
    assert(raw@ =~= voxel_bytes(chunk@.values));
    raw
}

/// The saved form of a chunk: its voxels are compressed, and the result is
/// kept only if it decompresses to the same voxels again, so that what is
/// saved can be loaded.
pub fn encode_chunk(chunk: &VoxelArray) -> (bytes: Result<Vec<u8>, PersistError>)
    requires
        chunk@.wf(),
    ensures
        match bytes {
            Ok(b) => spec_encode(chunk@) == Ok::<Seq<u8>, PersistError>(b@),
            Err(e) => spec_encode(chunk@) == Err::<Seq<u8>, PersistError>(e),
        },
        bytes.is_ok() ==> spec_decode(bytes.unwrap()@) == Ok::<VoxelGrid, PersistError>(chunk@),
{
    let raw: Vec<u8> = raw_bytes(chunk);
    let payload: Vec<u8> = lz4_compress(&raw);
    let check: Option<Vec<u8>> = lz4_decompress(&payload);
    let bytes = seal(chunk, &payload, &check);
    proof {
        if bytes.is_ok() {
            lemma_save_load_round_trip(chunk@, bytes.unwrap()@);
        }
    }
    bytes
}

/// Unpacks the voxels of a chunk over `extent` from `raw`, what its payload
/// decompressed to.
pub fn unpack(extent: Extent, raw: Option<Vec<u8>>) -> (chunk: Result<VoxelArray, PersistError>)
    requires
        extent.wf(),
    ensures
        match chunk {
            Ok(c) => unpacked(extent, view_of(raw)) == Ok::<VoxelGrid, PersistError>(c@),
            Err(e) => unpacked(extent, view_of(raw)) == Err::<VoxelGrid, PersistError>(e),
        },
{
    match raw {
        Some(bytes) => {
            if bytes.len() != extent.num_points() {
                return Err(PersistError::BadPayload);
            }
            let mut values: Vec<Voxel> = Vec::new();
            let mut i: usize = 0;
            while i < bytes.len()
                invariant
                    i <= bytes.len(),
                    values@.len() == i,
                    forall|j: int| 0 <= j < i ==> values@[j] == Voxel(bytes@[j]),
                decreases bytes.len() - i,
            {
                values.push(Voxel(bytes[i]));
                i += 1;
            }
            assert(values@ =~= voxels_of_bytes(bytes@));
            Ok(VoxelArray::from_parts(extent, values))
        },
        None => Err(PersistError::BadPayload),
    }
}

/// Loads a chunk from its saved form.
pub fn decode_chunk(bytes: &Vec<u8>) -> (chunk: Result<VoxelArray, PersistError>)
    ensures
        match chunk {
            Ok(c) => spec_decode(bytes@) == Ok::<VoxelGrid, PersistError>(c@),
            Err(e) => spec_decode(bytes@) == Err::<VoxelGrid, PersistError>(e),
        },
        chunk.is_ok() ==> chunk.unwrap()@.wf(),
{
    match parse_frame(bytes) {
        Ok((extent, payload)) => {
            let raw: Option<Vec<u8>> = lz4_decompress(&payload);
            unpack(extent, raw)
        },
        Err(e) => Err(e),
    }
}

/// The saved form of the content of `voxel_map` over `extent`.
pub fn serialize_chunk(voxel_map: &VoxelStore, extent: Extent) -> (bytes: Result<
    Vec<u8>,
    PersistError,
>)
    requires
        voxel_map.wf(),
        voxel_map.readable(extent),
    ensures
        match bytes {
            Ok(b) => spec_encode(voxel_map.grid(extent)) == Ok::<Seq<u8>, PersistError>(b@),
            Err(e) => spec_encode(voxel_map.grid(extent)) == Err::<Seq<u8>, PersistError>(e),
        },
        bytes.is_ok() ==> spec_decode(bytes.unwrap()@) == Ok::<VoxelGrid, PersistError>(
            voxel_map.grid(extent),
        ),
{
    let chunk: VoxelArray = voxel_map.read_extent(extent);
    encode_chunk(&chunk)
}

/// What loading the chunk over `extent` from `bytes` gives: the chunk that
/// the bytes hold, where it covers that box.
pub open spec fn spec_deserialize(bytes: Seq<u8>, extent: Extent) -> Result<VoxelGrid, PersistError> {
    match spec_decode(bytes) {
        Ok(grid) => if grid.extent == extent {
            Ok(grid)
        } else {
            Err(PersistError::ExtentMismatch)
        },
        Err(e) => Err(e),
    }
}

/// Loads the chunk over `extent` from its saved form.
pub fn deserialize_chunk(serialized: &Vec<u8>, extent: Extent) -> (chunk: Result<
    VoxelArray,
    PersistError,
>)
    ensures
        match chunk {
            Ok(c) => spec_deserialize(serialized@, extent) == Ok::<VoxelGrid, PersistError>(c@),
            Err(e) => spec_deserialize(serialized@, extent) == Err::<VoxelGrid, PersistError>(e),
        },
        chunk.is_ok() ==> chunk.unwrap()@.wf(),
{
    match decode_chunk(serialized) {
        Ok(c) => {
            let found: Extent = c.extent();
            if found == extent {
                Ok(c)
            } else {
                Err(PersistError::ExtentMismatch)
            }
        },
        Err(e) => Err(e),
    }
}

} // verus!
