use cosmo::builder::{
    Element, NodeData, WayData, build_feature_row, process_block_collect,
    process_block_nodes_only_collect,
};
use cosmo::config::{
    ClosedWayMode, CompiledColumn, CompiledConfig, CompiledTable, ColumnSource, GeometryConfig,
    RuntimeConfig, WayGeometryMode, WaySetting,
};
use cosmo::ast::FilterAst;
use cosmo::feature::{ColumnType, ColumnValue, Coord, FeatureRow, Geometry};
use cosmo::geometry::build_way_geometry;
use cosmo::json::JsonValue;
use cosmo::metadata::{MetadataFields, extract_meta_value, format_timestamp_millis};
use cosmo::parser::parse_filter;
use cosmo::pipeline::{
    DataSink, WriterOutcome, apply_batches, needs_node_store_compiled, output_format_label,
    resolve_pass_outcome, OutputFormat,
};
use cosmo::progress::ProgressCounter;
use cosmo::sinks::{GeoJsonSink, GeoJsonlSink, parquet_geo_metadata};
use cosmo::storage::NodeStoreWriter;
use cosmo::tags::{TagMap, build_tag_map};
use cosmo::CosmoError;

const SCALE: f64 = 10_000_000.0;

fn fixed(deg: f64) -> i32 {
    (deg * SCALE) as i32
}

fn coord(lon: f64, lat: f64) -> Coord {
    Coord { lon: fixed(lon), lat: fixed(lat) }
}

fn tags(pairs: &[(&str, &str)]) -> TagMap {
    build_tag_map(
        pairs.iter().map(|(k, v)| (k.to_string(), v.to_string())).collect::<Vec<_>>(),
    )
}

fn empty_config() -> CompiledConfig {
    CompiledConfig {
        table: CompiledTable {
            name: "test".to_string(),
            filter: FilterAst::True,
            columns: Vec::new(),
            geometry: GeometryConfig::default(),
        },
        mappings: Vec::new(),
    }
}

fn point_row(name: &str, lon: f64, lat: f64) -> FeatureRow {
    FeatureRow {
        geometry: Geometry::Point(coord(lon, lat)),
        columns: vec![("name".to_string(), ColumnValue::String(name.to_string()))],
        extras: Vec::new(),
    }
}

// ============================================
// Way geometry
// ============================================

#[test]
fn closed_way_can_be_linestring() {
    let geometry_cfg = GeometryConfig {
        way: WaySetting::Enabled(WayGeometryMode::Linestring),
        closed_way: ClosedWayMode::Linestring,
        node: true,
        relation: false,
    };
    let coords = vec![coord(0.0, 0.0), coord(1.0, 0.0), coord(1.0, 1.0), coord(0.0, 0.0)];
    let geometry = build_way_geometry(&geometry_cfg, coords);
    assert!(matches!(geometry, Geometry::LineString(_)));
}

#[test]
fn closed_way_polygon_policy_yields_polygon() {
    let geometry_cfg = GeometryConfig {
        way: WaySetting::Enabled(WayGeometryMode::Linestring),
        closed_way: ClosedWayMode::Polygon,
        node: true,
        relation: false,
    };
    let coords = vec![coord(0.0, 0.0), coord(1.0, 0.0), coord(1.0, 1.0), coord(0.0, 0.0)];
    let geometry = build_way_geometry(&geometry_cfg, coords);
    assert!(matches!(geometry, Geometry::Polygon(_)));
}

#[test]
fn closed_way_centroid_policy_always_yields_point() {
    let geometry_cfg = GeometryConfig {
        way: WaySetting::Enabled(WayGeometryMode::Linestring),
        closed_way: ClosedWayMode::Centroid,
        node: true,
        relation: false,
    };
    // A unit square: the centroid is its middle.
    let coords = vec![
        coord(0.0, 0.0),
        coord(1.0, 0.0),
        coord(1.0, 1.0),
        coord(0.0, 1.0),
        coord(0.0, 0.0),
    ];
    let geometry = build_way_geometry(&geometry_cfg, coords);
    match geometry {
        Geometry::Point(c) => {
            assert!((c.lon as f64 / SCALE - 0.5).abs() < 1e-6);
            assert!((c.lat as f64 / SCALE - 0.5).abs() < 1e-6);
        }
        other => panic!("expected a point, got {:?}", other),
    }
}

#[test]
fn degenerate_ring_centroid_falls_back_to_first_vertex() {
    let geometry_cfg = GeometryConfig {
        way: WaySetting::Enabled(WayGeometryMode::Centroid),
        closed_way: ClosedWayMode::Centroid,
        node: true,
        relation: false,
    };
    // All points on one line: the signed area is zero.
    let coords = vec![coord(1.0, 1.0), coord(2.0, 2.0), coord(3.0, 3.0)];
    let geometry = build_way_geometry(&geometry_cfg, coords);
    match geometry {
        Geometry::Point(c) => assert_eq!(c, coord(1.0, 1.0)),
        other => panic!("expected a point, got {:?}", other),
    }
}

// ============================================
// Feature building
// ============================================

#[test]
fn meta_columns_populate_feature_row() {
    let columns = vec![CompiledColumn {
        name: "timestamp".to_string(),
        source: ColumnSource::Meta("timestamp".to_string()),
        col_type: ColumnType::String,
    }];
    let metadata = MetadataFields {
        id: 1,
        visible: Some(true),
        version: Some(1),
        changeset: Some(2),
        timestamp: Some("2024-01-01T00:00:00Z".to_string()),
        uid: Some(3),
        user: Some("tester".to_string()),
    };
    let config = empty_config();
    let row = build_feature_row(
        Geometry::Point(coord(0.0, 0.0)),
        &TagMap::new(),
        &columns,
        &RuntimeConfig::default(),
        Some(metadata),
        None,
        &config,
    );
    let found = row.columns.iter().find(|(name, _)| name == "timestamp");
    assert!(matches!(
        found,
        Some((_, ColumnValue::String(value))) if value == "2024-01-01T00:00:00Z"
    ));
}

#[test]
fn all_tags_flag_attaches_tags_extra() {
    let runtime = RuntimeConfig { all_tags: true, ..RuntimeConfig::default() };
    let config = empty_config();
    let row = build_feature_row(
        Geometry::Point(coord(0.0, 0.0)),
        &tags(&[("amenity", "cafe")]),
        &Vec::new(),
        &runtime,
        None,
        None,
        &config,
    );
    assert_eq!(row.extras.len(), 1);
    assert_eq!(row.extras[0].0, "tags");
    match &row.extras[0].1 {
        JsonValue::Obj(members) => {
            assert!(members.iter().any(|(k, v)| {
                k == "amenity" && matches!(v, JsonValue::Str(s) if s == "cafe")
            }));
        }
        other => panic!("expected an object, got {:?}", other),
    }
}

// ============================================
// Block processing
// ============================================

fn node_element(id: i64, lon: f64, lat: f64, tag_pairs: &[(&str, &str)]) -> Element {
    Element::Node(NodeData {
        id,
        lon: fixed(lon),
        lat: fixed(lat),
        tags: tags(tag_pairs),
        meta: None,
    })
}

#[test]
fn one_row_per_passing_element() {
    let mut writer = NodeStoreWriter::new_memory();
    writer.put(1, fixed(51.5), fixed(-0.1)).unwrap();
    writer.put(2, fixed(51.6), fixed(-0.2)).unwrap();
    let store = writer.finalize().unwrap();

    let mut config = empty_config();
    config.table.filter = parse_filter("natural=tree | lanes>=1").unwrap();

    let elements = vec![
        node_element(10, 0.0, 0.0, &[("natural", "tree")]),
        node_element(11, 1.0, 1.0, &[("natural", "water")]),
        Element::Way(WayData {
            id: 20,
            refs: vec![1, 2, 999],
            tags: tags(&[("lanes", "2")]),
            meta: None,
        }),
        Element::Relation,
    ];
    let rows = process_block_collect(elements, &config, &RuntimeConfig::default(), &store).unwrap();
    // One matching node and one way with two resolvable references.
    assert_eq!(rows.len(), 2);
}

#[test]
fn way_with_too_few_resolved_nodes_is_dropped() {
    let mut writer = NodeStoreWriter::new_memory();
    writer.put(1, fixed(51.5), fixed(-0.1)).unwrap();
    let store = writer.finalize().unwrap();

    let mut config = empty_config();
    config.table.filter = parse_filter("lanes").unwrap();

    let elements = vec![Element::Way(WayData {
        id: 20,
        refs: vec![1, 998, 999],
        tags: tags(&[("lanes", "2")]),
        meta: None,
    })];
    let rows = process_block_collect(elements, &config, &RuntimeConfig::default(), &store).unwrap();
    assert_eq!(rows.len(), 0);
}

#[test]
fn nodes_only_processing_skips_ways() {
    let mut config = empty_config();
    config.table.filter = parse_filter("lanes").unwrap();

    let elements = vec![
        node_element(10, 0.0, 0.0, &[("lanes", "2")]),
        Element::Way(WayData {
            id: 20,
            refs: vec![1, 2],
            tags: tags(&[("lanes", "2")]),
            meta: None,
        }),
    ];
    let rows =
        process_block_nodes_only_collect(elements, &config, &RuntimeConfig::default()).unwrap();
    assert_eq!(rows.len(), 1);
}

// ============================================
// Sinks
// ============================================

#[test]
fn geojson_stream_is_a_feature_collection() {
    let (mut sink, header) = GeoJsonSink::new();
    let mut doc = header;
    doc.push_str(&sink.append_feature(point_row("First", 0.0, 0.0)));
    doc.push_str(&sink.append_feature(point_row("Second", 1.0, 1.0)));
    doc.push_str(&sink.append_feature(point_row("Third", 2.0, 2.0)));
    doc.push_str(&sink.closing());

    let parsed: serde_json::Value = serde_json::from_str(&doc).unwrap();
    assert_eq!(parsed["type"], "FeatureCollection");
    assert_eq!(parsed["features"].as_array().unwrap().len(), 3);
    assert_eq!(parsed["features"][0]["type"], "Feature");
    assert_eq!(parsed["features"][0]["geometry"]["type"], "Point");
    assert_eq!(parsed["features"][0]["properties"]["name"], "First");
}

#[test]
fn geojson_empty_collection_is_valid() {
    let (sink, header) = GeoJsonSink::new();
    let mut doc = header;
    doc.push_str(&sink.closing());
    let parsed: serde_json::Value = serde_json::from_str(&doc).unwrap();
    assert_eq!(parsed["type"], "FeatureCollection");
    assert!(parsed["features"].as_array().unwrap().is_empty());
}

#[test]
fn geojsonl_every_line_is_a_feature() {
    let mut sink = GeoJsonlSink::new();
    let mut out = String::new();
    out.push_str(&sink.append_feature(point_row("First", 0.0, 0.0)));
    out.push_str(&sink.append_feature(point_row("Second", 1.0, 1.0)));
    out.push_str(&sink.append_feature(point_row("Third", 2.0, 2.0)));
    out.push_str(&sink.closing());

    let lines: Vec<&str> = out.lines().collect();
    assert_eq!(lines.len(), 3);
    for line in lines {
        let parsed: serde_json::Value = serde_json::from_str(line).unwrap();
        assert_eq!(parsed["type"], "Feature");
    }
    assert!(out.ends_with('\n'));
}

#[test]
fn geojsonl_escapes_difficult_strings() {
    let mut sink = GeoJsonlSink::new();
    let row = point_row("with \"quotes\"\nand a newline", -0.1, 51.5);
    let chunk = sink.append_feature(row);
    let line = chunk.lines().next().unwrap();
    let parsed: serde_json::Value = serde_json::from_str(line).unwrap();
    assert_eq!(parsed["properties"]["name"], "with \"quotes\"\nand a newline");
    let coords = &parsed["geometry"]["coordinates"];
    assert!((coords[0].as_f64().unwrap() - (-0.1)).abs() < 1e-7);
    assert!((coords[1].as_f64().unwrap() - 51.5).abs() < 1e-7);
}

#[test]
fn extras_take_precedence_over_columns() {
    let mut sink = GeoJsonlSink::new();
    let row = FeatureRow {
        geometry: Geometry::Point(coord(0.0, 0.0)),
        columns: vec![("name".to_string(), ColumnValue::String("FromColumn".to_string()))],
        extras: vec![("name".to_string(), JsonValue::Str("FromExtras".to_string()))],
    };
    let chunk = sink.append_feature(row);
    let parsed: serde_json::Value = serde_json::from_str(chunk.trim()).unwrap();
    assert_eq!(parsed["properties"]["name"], "FromExtras");
}

#[test]
fn includes_all_column_types() {
    let mut sink = GeoJsonlSink::new();
    let row = FeatureRow {
        geometry: Geometry::Point(coord(0.0, 0.0)),
        columns: vec![
            ("name".to_string(), ColumnValue::String("Test".to_string())),
            ("count".to_string(), ColumnValue::Integer(42)),
            ("value".to_string(), ColumnValue::Float(cosmo::numeric::Decimal::new(314, 2))),
        ],
        extras: Vec::new(),
    };
    let chunk = sink.append_feature(row);
    let parsed: serde_json::Value = serde_json::from_str(chunk.trim()).unwrap();
    let props = &parsed["properties"];
    assert_eq!(props["name"], "Test");
    assert_eq!(props["count"], 42);
    assert!((props["value"].as_f64().unwrap() - 3.14).abs() < 1e-10);
}

#[test]
fn parquet_geo_metadata_names_the_geometry_column() {
    let text = parquet_geo_metadata();
    let parsed: serde_json::Value = serde_json::from_str(&text).unwrap();
    assert_eq!(parsed["primary_column"], "geometry");
    assert_eq!(parsed["version"], "1.0.0");
    assert_eq!(parsed["columns"]["geometry"]["encoding"], "WKB");
    assert_eq!(parsed["columns"]["geometry"]["crs"], "EPSG:4326");
}

// ============================================
// The writer side of a pass
// ============================================

#[test]
fn apply_batches_counts_every_row() {
    let mut sink = GeoJsonlSink::new();
    let batches = vec![
        vec![point_row("a", 0.0, 0.0), point_row("b", 1.0, 1.0)],
        vec![],
        vec![point_row("c", 2.0, 2.0)],
    ];
    let (count, chunks) = apply_batches(&mut sink, batches).unwrap();
    assert_eq!(count, 3);
    assert_eq!(chunks.len(), 3);
    for chunk in chunks {
        let parsed: serde_json::Value = serde_json::from_str(chunk.trim()).unwrap();
        assert_eq!(parsed["type"], "Feature");
    }
}

#[test]
fn writer_failure_is_the_root_cause() {
    let writer: WriterOutcome<u64> = WriterOutcome::Failed(CosmoError::UnsortedIds);
    let decode = Err(CosmoError::Decode("channel closed".to_string()));
    let result = resolve_pass_outcome(writer, decode);
    assert!(matches!(result, Err(CosmoError::UnsortedIds)));
}

#[test]
fn writer_panic_is_surfaced() {
    let writer: WriterOutcome<u64> = WriterOutcome::Panicked("boom".to_string());
    let result = resolve_pass_outcome(writer, Ok(()));
    match result {
        Err(e) => assert!(e.message().contains("panicked")),
        Ok(_) => panic!("expected an error"),
    }
}

#[test]
fn decoder_error_surfaces_when_writer_succeeded() {
    let writer: WriterOutcome<u64> = WriterOutcome::Completed(5);
    let result = resolve_pass_outcome(writer, Err(CosmoError::Decode("bad blob".to_string())));
    assert!(matches!(result, Err(CosmoError::Decode(_))));
    let writer: WriterOutcome<u64> = WriterOutcome::Completed(5);
    assert!(matches!(resolve_pass_outcome(writer, Ok(())), Ok(5)));
}

// ============================================
// Small helpers
// ============================================

#[test]
fn progress_counter_emits_on_interval_crossings() {
    let mut counter = ProgressCounter::new("blocks".to_string(), 100);
    assert!(!counter.inc(40));
    assert!(!counter.inc(40));
    assert!(counter.inc(40)); // crosses 100
    assert!(!counter.inc(10));
    assert!(counter.inc(1000)); // crosses several multiples at once
    assert_eq!(counter.value(), 1130);
    assert_eq!(counter.label_text(), "blocks");
}

#[test]
fn progress_counter_clamps_zero_interval() {
    let mut counter = ProgressCounter::new("x".to_string(), 0);
    assert!(counter.inc(1));
}

#[test]
fn format_timestamp_is_rfc3339() {
    assert_eq!(format_timestamp_millis(0), Some("1970-01-01T00:00:00Z".to_string()));
    assert_eq!(format_timestamp_millis(1704067200000), Some("2024-01-01T00:00:00Z".to_string()));
}

#[test]
fn extract_meta_value_projects_fields() {
    let meta = MetadataFields {
        id: 42,
        visible: Some(false),
        version: None,
        changeset: Some(7),
        timestamp: Some("2024-01-01T00:00:00Z".to_string()),
        uid: None,
        user: Some("tester".to_string()),
    };
    assert_eq!(extract_meta_value("id", Some(&meta)), Some("42".to_string()));
    assert_eq!(extract_meta_value("visible", Some(&meta)), Some("false".to_string()));
    assert_eq!(extract_meta_value("version", Some(&meta)), None);
    assert_eq!(extract_meta_value("changeset", Some(&meta)), Some("7".to_string()));
    assert_eq!(extract_meta_value("user", Some(&meta)), Some("tester".to_string()));
    assert_eq!(extract_meta_value("unknown", Some(&meta)), None);
    assert_eq!(extract_meta_value("id", None), None);
}

#[test]
fn node_store_need_follows_geometry_config() {
    let mut config = empty_config();
    config.table.geometry.way = WaySetting::Disabled(false);
    config.table.geometry.relation = false;
    assert!(!needs_node_store_compiled(&config));
    config.table.geometry.way = WaySetting::Enabled(WayGeometryMode::Linestring);
    assert!(needs_node_store_compiled(&config));
}

#[test]
fn output_format_labels() {
    assert_eq!(output_format_label(&OutputFormat::GeoJson), "geojson");
    assert_eq!(output_format_label(&OutputFormat::GeoJsonl), "geojsonl");
    assert_eq!(output_format_label(&OutputFormat::GeoParquet), "geoparquet");
}

#[test]
fn data_sink_trait_reports_chunks() {
    fn drive<S: DataSink>(sink: &mut S) -> String {
        let mut out = String::new();
        out.push_str(&sink.add_feature(point_row("a", 0.0, 0.0)).unwrap());
        out.push_str(&sink.finish().unwrap());
        out
    }
    let mut sink = GeoJsonlSink::new();
    let out = drive(&mut sink);
    let parsed: serde_json::Value = serde_json::from_str(out.trim()).unwrap();
    assert_eq!(parsed["type"], "Feature");
}

#[test]
fn error_messages_name_their_kind() {
    assert!(CosmoError::OverCapacity { id: 100, max_nodes: 100 }.message().contains("exceeds"));
    assert!(CosmoError::UnsortedIds.message().contains("out of order"));
    assert!(CosmoError::Config("bad".to_string()).message().contains("bad"));
    assert!(CosmoError::Io("disk full".to_string()).message().contains("disk full"));
    assert!(CosmoError::Decode("blob".to_string()).message().contains("blob"));
    assert!(CosmoError::Sink("flush".to_string()).message().contains("flush"));
    assert!(CosmoError::WriterPanic("boom".to_string()).message().contains("panicked"));
}
