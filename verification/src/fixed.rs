//! Fixed-point coordinate codecs.
//!
//! A coordinate axis is held as an `i32` of degrees times ten million, the
//! resolution OSM itself uses.  The sparse store packs the two axes of one
//! node into a single `i64`; the dense store lays one node out as eight
//! little-endian bytes, longitude first.

use vstd::prelude::*;
use vstd::bytes::*;

verus! {

/// Two axes packed into one `i64`: longitude in the high 32 bits, the
/// latitude's bit pattern in the low 32 bits.
pub open spec fn spec_pack_coords(lat: i32, lon: i32) -> i64 {
    ((lon as i64) << 32) | ((lat as i64) & 0xFFFFFFFFi64)
}

/// The longitude an `i64` packs: its high 32 bits.
pub open spec fn spec_unpack_lon(packed: i64) -> i32 {
    (packed >> 32) as i32
}

/// The latitude an `i64` packs: its low 32 bits.
pub open spec fn spec_unpack_lat(packed: i64) -> i32 {
    packed as i32
}

/// Packing two fixed-point axes and unpacking them returns them unchanged,
/// for every representable coordinate.
pub proof fn lemma_pack_unpack_roundtrip(lat: i32, lon: i32)
    ensures
        spec_unpack_lon(spec_pack_coords(lat, lon)) == lon,
        spec_unpack_lat(spec_pack_coords(lat, lon)) == lat,
{
    assert((((((lon as i64) << 32) | ((lat as i64) & 0xFFFFFFFFi64)) >> 32) as i32) == lon) by (bit_vector);
    assert(((((lon as i64) << 32) | ((lat as i64) & 0xFFFFFFFFi64)) as i32) == lat) by (bit_vector);
}

/// Pack a latitude/longitude pair into a single `i64` for sparse storage.
pub fn pack_coords(lat: i32, lon: i32) -> (packed: i64)
    ensures
        packed == spec_pack_coords(lat, lon),
{
    ((lon as i64) << 32) | ((lat as i64) & 0xFFFFFFFFi64)
}

/// Unpack an `i64` back to `(lon, lat)`.
pub fn unpack_coords(packed: i64) -> (r: (i32, i32))
    ensures
        r.0 == spec_unpack_lon(packed),
        r.1 == spec_unpack_lat(packed),
{
    ((packed >> 32) as i32, packed as i32)
}

/// The eight-byte dense-slot image of a node: longitude then latitude, each
/// four little-endian bytes.
pub open spec fn spec_slot_bytes(lon: i32, lat: i32) -> Seq<u8> {
    spec_u32_to_le_bytes(lon as u32) + spec_u32_to_le_bytes(lat as u32)
}

/// Encode a `(lon, lat)` pair as its eight-byte dense-slot image.
pub fn encode_coords(lon: i32, lat: i32) -> (r: Vec<u8>)
    ensures
        r@ == spec_slot_bytes(lon, lat),
        r@.len() == 8,
{
    let mut out = u32_to_le_bytes(lon as u32);
    let mut tail = u32_to_le_bytes(lat as u32);
    out.append(&mut tail);
    proof {
        lemma_auto_spec_u32_to_from_le_bytes();
    }
    out
}

/// The `(lon, lat)` pair an eight-byte dense-slot image decodes to.
pub open spec fn spec_decode_slot(data: Seq<u8>) -> (i32, i32) {
    (
        spec_u32_from_le_bytes(data.subrange(0, 4)) as i32,
        spec_u32_from_le_bytes(data.subrange(4, 8)) as i32,
    )
}

/// Decode an eight-byte dense-slot image back to `(lon, lat)`.
pub fn decode_coords(data: &[u8]) -> (r: (i32, i32))
    requires
        data@.len() == 8,
    ensures
        r == spec_decode_slot(data@),
{
    let lon_bits = u32_from_le_bytes(vstd::slice::slice_subrange(data, 0, 4));
    let lat_bits = u32_from_le_bytes(vstd::slice::slice_subrange(data, 4, 8));
    (lon_bits as i32, lat_bits as i32)
}

/// Decoding the slot image of a pair returns that pair.
pub proof fn lemma_slot_roundtrip(lon: i32, lat: i32)
    ensures
        spec_decode_slot(spec_slot_bytes(lon, lat)) == (lon, lat),
        spec_slot_bytes(lon, lat).len() == 8,
{
    lemma_auto_spec_u32_to_from_le_bytes();
    assert(spec_slot_bytes(lon, lat).subrange(0, 4) =~= spec_u32_to_le_bytes(lon as u32));
    assert(spec_slot_bytes(lon, lat).subrange(4, 8) =~= spec_u32_to_le_bytes(lat as u32));
    assert(((lon as u32) as i32) == lon) by (bit_vector);
    assert(((lat as u32) as i32) == lat) by (bit_vector);
}

/// The sixteen-byte sparse-entry image of a node: the id then the packed
/// coordinate pair, each eight little-endian bytes.
pub open spec fn spec_sparse_entry_bytes(id: u64, packed: i64) -> Seq<u8> {
    spec_u64_to_le_bytes(id) + spec_u64_to_le_bytes(packed as u64)
}

/// Append one sparse entry, id then packed coordinates in little-endian
/// order, to a byte buffer.
pub fn write_sparse_entry(out: &mut Vec<u8>, id: u64, packed: i64)
    ensures
        final(out)@ == old(out)@ + spec_sparse_entry_bytes(id, packed),
{
    let mut id_bytes = u64_to_le_bytes(id);
    let mut packed_bytes = u64_to_le_bytes(packed as u64);
    out.append(&mut id_bytes);
    out.append(&mut packed_bytes);
    proof {
        assert(out@ =~= old(out)@ + spec_sparse_entry_bytes(id, packed));
    }
}

} // verus!
