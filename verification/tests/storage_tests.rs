use cosmo::fixed::{decode_coords, encode_coords, pack_coords, unpack_coords, write_sparse_entry};
use cosmo::storage::NodeStoreWriter;

const SCALE_FACTOR: f64 = 10_000_000.0;

fn fixed(deg: f64) -> i32 {
    (deg * SCALE_FACTOR) as i32
}

fn unscale(n: i32) -> f64 {
    n as f64 / SCALE_FACTOR
}

// ============================================
// Coordinate encoding/decoding precision tests
// ============================================

#[test]
fn encode_decode_preserves_precision_to_7_decimal_places() {
    // OSM coordinates have 7 decimal places of precision
    let lat = 51.5073509;
    let lon = -0.1277583;

    let lat_fixed = (lat * SCALE_FACTOR) as i32;
    let lon_fixed = (lon * SCALE_FACTOR) as i32;

    let lat_decoded = lat_fixed as f64 / SCALE_FACTOR;
    let lon_decoded = lon_fixed as f64 / SCALE_FACTOR;

    // Should be accurate to 7 decimal places (1e-7)
    assert!((lat - lat_decoded).abs() < 1e-7);
    assert!((lon - lon_decoded).abs() < 1e-7);
}

#[test]
fn decode_coords_correctly_parses_bytes() {
    // Create known fixed-point values
    let lon_fixed: i32 = -1277583; // -0.1277583 * 10^7
    let lat_fixed: i32 = 515073509; // 51.5073509 * 10^7

    let mut data = [0u8; 8];
    data[0..4].copy_from_slice(&lon_fixed.to_le_bytes());
    data[4..8].copy_from_slice(&lat_fixed.to_le_bytes());

    let (lon, lat) = decode_coords(&data);

    assert!((unscale(lon) - (-0.1277583)).abs() < 1e-7);
    assert!((unscale(lat) - 51.5073509).abs() < 1e-7);
}

#[test]
fn handles_extreme_coordinates() {
    // Maximum valid lat/lon
    let max_lat = 90.0;
    let max_lon = 180.0;
    let min_lat = -90.0;
    let min_lon = -180.0;

    // Verify these fit in i32 after scaling
    let max_lat_fixed = (max_lat * SCALE_FACTOR) as i32;
    let max_lon_fixed = (max_lon * SCALE_FACTOR) as i32;
    let min_lat_fixed = (min_lat * SCALE_FACTOR) as i32;
    let min_lon_fixed = (min_lon * SCALE_FACTOR) as i32;

    assert_eq!(max_lat_fixed, 900_000_000);
    assert_eq!(max_lon_fixed, 1_800_000_000);
    assert_eq!(min_lat_fixed, -900_000_000);
    assert_eq!(min_lon_fixed, -1_800_000_000);

    // Verify roundtrip
    assert!((max_lat_fixed as f64 / SCALE_FACTOR - max_lat).abs() < 1e-7);
    assert!((max_lon_fixed as f64 / SCALE_FACTOR - max_lon).abs() < 1e-7);
}

#[test]
fn handles_zero_coordinates() {
    let lat = 0.0;
    let lon = 0.0;

    let lat_fixed = (lat * SCALE_FACTOR) as i32;
    let lon_fixed = (lon * SCALE_FACTOR) as i32;

    assert_eq!(lat_fixed, 0);
    assert_eq!(lon_fixed, 0);

    let mut data = [0u8; 8];
    data[0..4].copy_from_slice(&lon_fixed.to_le_bytes());
    data[4..8].copy_from_slice(&lat_fixed.to_le_bytes());

    let (decoded_lon, decoded_lat) = decode_coords(&data);
    assert_eq!(unscale(decoded_lon), 0.0);
    assert_eq!(unscale(decoded_lat), 0.0);
}

#[test]
fn encode_coords_roundtrips_through_decode() {
    let lon = fixed(139.6503106);
    let lat = fixed(35.6761919);
    let bytes = encode_coords(lon, lat);
    assert_eq!(bytes.len(), 8);
    let (lon2, lat2) = decode_coords(bytes.as_slice());
    assert_eq!((lon2, lat2), (lon, lat));
}

#[test]
fn sparse_entry_layout_is_id_then_packed() {
    let mut out: Vec<u8> = Vec::new();
    let packed = pack_coords(fixed(51.5), fixed(-0.1));
    write_sparse_entry(&mut out, 7, packed);
    assert_eq!(out.len(), 16);
    assert_eq!(u64::from_le_bytes(out[0..8].try_into().unwrap()), 7);
    assert_eq!(i64::from_le_bytes(out[8..16].try_into().unwrap()), packed);
}

// ============================================
// Memory node store tests
// ============================================

#[test]
fn memory_store_put_and_get() {
    let mut writer = NodeStoreWriter::new_memory();
    writer.put(1, fixed(51.5), fixed(-0.1)).unwrap();
    writer.put(2, fixed(40.7), fixed(-74.0)).unwrap();

    let reader = writer.finalize().unwrap();

    let (lon, lat) = reader.get(1).unwrap();
    assert!((unscale(lat) - 51.5).abs() < 1e-7);
    assert!((unscale(lon) - (-0.1)).abs() < 1e-7);

    let (lon, lat) = reader.get(2).unwrap();
    assert!((unscale(lat) - 40.7).abs() < 1e-7);
    assert!((unscale(lon) - (-74.0)).abs() < 1e-7);
}

#[test]
fn memory_store_returns_none_for_missing_node() {
    let writer = NodeStoreWriter::new_memory();
    let reader = writer.finalize().unwrap();

    assert!(reader.get(999).is_none());
}

#[test]
fn memory_store_overwrites_existing_node() {
    let mut writer = NodeStoreWriter::new_memory();
    writer.put(1, fixed(51.5), fixed(-0.1)).unwrap();
    writer.put(1, fixed(40.7), fixed(-74.0)).unwrap(); // Overwrite

    let reader = writer.finalize().unwrap();

    let (lon, lat) = reader.get(1).unwrap();
    assert!((unscale(lat) - 40.7).abs() < 1e-7);
    assert!((unscale(lon) - (-74.0)).abs() < 1e-7);
}

#[test]
fn memory_store_handles_large_node_ids() {
    let mut writer = NodeStoreWriter::new_memory();
    let large_id = u64::MAX - 1;
    writer.put(large_id, fixed(51.5), fixed(-0.1)).unwrap();

    let reader = writer.finalize().unwrap();

    let (lon, lat) = reader.get(large_id).unwrap();
    assert!((unscale(lat) - 51.5).abs() < 1e-7);
    assert!((unscale(lon) - (-0.1)).abs() < 1e-7);
}

// ============================================
// Sparse node store tests
// ============================================

#[test]
fn sparse_store_put_and_get() {
    let mut writer = NodeStoreWriter::new_sparse().unwrap();
    writer.put(1, fixed(51.5), fixed(-0.1)).unwrap();
    writer.put(2, fixed(40.7), fixed(-74.0)).unwrap();

    let reader = writer.finalize().unwrap();

    let (lon, lat) = reader.get(1).unwrap();
    assert!((unscale(lat) - 51.5).abs() < 1e-7);
    assert!((unscale(lon) - (-0.1)).abs() < 1e-7);

    let (lon, lat) = reader.get(2).unwrap();
    assert!((unscale(lat) - 40.7).abs() < 1e-7);
    assert!((unscale(lon) - (-74.0)).abs() < 1e-7);
}

#[test]
fn sparse_store_returns_none_for_missing_node() {
    let writer = NodeStoreWriter::new_sparse().unwrap();
    let reader = writer.finalize().unwrap();

    assert!(reader.get(999).is_none());
}

#[test]
fn sparse_store_handles_unsorted_input() {
    let mut writer = NodeStoreWriter::new_sparse().unwrap();
    // Insert out of order
    writer.put(5, fixed(51.5), fixed(-0.1)).unwrap();
    let err = writer.put(1, fixed(40.7), fixed(-74.0)).unwrap_err();
    assert!(err.message().contains("osmium sort"));
}

#[test]
fn sparse_store_finalize_fails_after_unsorted_put() {
    let mut writer = NodeStoreWriter::new_sparse().unwrap();
    writer.put(5, fixed(51.5), fixed(-0.1)).unwrap();
    let _ = writer.put(1, fixed(40.7), fixed(-74.0));
    let result = writer.finalize();
    assert!(result.is_err());
}

#[test]
fn sparse_store_accepts_equal_ids_last_wins() {
    let mut writer = NodeStoreWriter::new_sparse().unwrap();
    writer.put(7, fixed(1.0), fixed(2.0)).unwrap();
    writer.put(7, fixed(3.0), fixed(4.0)).unwrap();
    let reader = writer.finalize().unwrap();
    let (lon, lat) = reader.get(7).unwrap();
    assert!((unscale(lat) - 3.0).abs() < 1e-7);
    assert!((unscale(lon) - 4.0).abs() < 1e-7);
}

#[test]
fn sparse_store_handles_large_node_ids() {
    let mut writer = NodeStoreWriter::new_sparse().unwrap();
    let large_id = 13_000_000_000u64; // Typical max OSM node ID
    writer.put(large_id, fixed(51.5), fixed(-0.1)).unwrap();

    let reader = writer.finalize().unwrap();

    let (lon, lat) = reader.get(large_id).unwrap();
    assert!((unscale(lat) - 51.5).abs() < 1e-7);
    assert!((unscale(lon) - (-0.1)).abs() < 1e-7);
}

// ============================================
// Dense node store tests
// ============================================

#[test]
fn dense_temp_store_put_and_get() {
    let mut writer = NodeStoreWriter::new_dense_temp(1000).unwrap();
    writer.put(1, fixed(51.5), fixed(-0.1)).unwrap();
    writer.put(2, fixed(40.7), fixed(-74.0)).unwrap();

    let reader = writer.finalize().unwrap();

    let (lon, lat) = reader.get(1).unwrap();
    assert!((unscale(lat) - 51.5).abs() < 1e-7);
    assert!((unscale(lon) - (-0.1)).abs() < 1e-7);

    let (lon, lat) = reader.get(2).unwrap();
    assert!((unscale(lat) - 40.7).abs() < 1e-7);
    assert!((unscale(lon) - (-74.0)).abs() < 1e-7);
}

#[test]
fn dense_store_errors_on_node_id_exceeding_max() {
    let mut writer = NodeStoreWriter::new_dense_temp(100).unwrap();

    // Node ID within bounds should succeed
    assert!(writer.put(99, fixed(51.5), fixed(-0.1)).is_ok());

    // Node ID at boundary should fail
    let result = writer.put(100, fixed(51.5), fixed(-0.1));
    assert!(result.is_err());
    assert!(result.unwrap_err().message().contains("exceeds"));
}

#[test]
fn dense_store_returns_none_for_out_of_bounds() {
    let writer = NodeStoreWriter::new_dense_temp(100).unwrap();
    let reader = writer.finalize().unwrap();

    assert!(reader.get(100).is_none());
    assert!(reader.get(1000).is_none());
}

#[test]
fn dense_store_returns_zero_for_unwritten_nodes() {
    let writer = NodeStoreWriter::new_dense_temp(100).unwrap();
    let reader = writer.finalize().unwrap();

    // Unwritten node reads as the origin slot value
    let (lon, lat) = reader.get(50).unwrap();
    assert_eq!(unscale(lon), 0.0);
    assert_eq!(unscale(lat), 0.0);
}

// ============================================
// Pack/unpack coords tests
// ============================================

#[test]
fn pack_unpack_roundtrip() {
    let test_cases = vec![
        (51.5073509, -0.1277583),
        (40.7127753, -74.0059728),
        (35.6761919, 139.6503106),
        (-33.8688197, 151.2092955),
        (0.0, 0.0),
        (90.0, 180.0),
        (-90.0, -180.0),
    ];

    for (lat, lon) in test_cases {
        let packed = pack_coords(fixed(lat), fixed(lon));
        let (unpacked_lon, unpacked_lat) = unpack_coords(packed);

        assert!(
            (lat - unscale(unpacked_lat)).abs() < 1e-7,
            "lat mismatch: {} vs {}",
            lat,
            unscale(unpacked_lat)
        );
        assert!(
            (lon - unscale(unpacked_lon)).abs() < 1e-7,
            "lon mismatch: {} vs {}",
            lon,
            unscale(unpacked_lon)
        );
    }
}

// ============================================
// All stores equivalence tests
// ============================================

#[test]
fn all_stores_produce_same_results() {
    let test_coords = vec![
        (1u64, 51.5073509, -0.1277583),
        (2, 40.7127753, -74.0059728),
        (3, 35.6761919, 139.6503106),
        (4, -33.8688197, 151.2092955),
    ];

    // Memory store
    let mut mem_writer = NodeStoreWriter::new_memory();
    for (id, lat, lon) in &test_coords {
        mem_writer.put(*id, fixed(*lat), fixed(*lon)).unwrap();
    }
    let mem_reader = mem_writer.finalize().unwrap();

    // Sparse store
    let mut sparse_writer = NodeStoreWriter::new_sparse().unwrap();
    for (id, lat, lon) in &test_coords {
        sparse_writer.put(*id, fixed(*lat), fixed(*lon)).unwrap();
    }
    let sparse_reader = sparse_writer.finalize().unwrap();

    // Dense store
    let mut dense_writer = NodeStoreWriter::new_dense_temp(1000).unwrap();
    for (id, lat, lon) in &test_coords {
        dense_writer.put(*id, fixed(*lat), fixed(*lon)).unwrap();
    }
    let dense_reader = dense_writer.finalize().unwrap();

    // Compare results
    for (id, _, _) in &test_coords {
        let mem_result = mem_reader.get(*id).unwrap();
        let sparse_result = sparse_reader.get(*id).unwrap();
        let dense_result = dense_reader.get(*id).unwrap();

        assert_eq!(mem_result, sparse_result, "mismatch between memory and sparse for node {id}");
        assert_eq!(mem_result, dense_result, "mismatch between memory and dense for node {id}");
    }
}
