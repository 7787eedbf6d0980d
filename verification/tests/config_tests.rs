use std::str::FromStr;

use cosmo::config::{
    ClosedWayMode, FilterExpr, GeometryConfig, NodeCacheMode, RuntimeConfig, WayGeometryMode,
    WaySetting, resolve_node_cache_mode,
};

#[test]
fn node_cache_mode_parses_auto() {
    assert!(matches!(NodeCacheMode::from_str("auto"), Ok(NodeCacheMode::Auto)));
    assert!(matches!(NodeCacheMode::from_str("AUTO"), Ok(NodeCacheMode::Auto)));
}

#[test]
fn node_cache_mode_parses_sparse() {
    assert!(matches!(NodeCacheMode::from_str("sparse"), Ok(NodeCacheMode::Sparse)));
    assert!(matches!(NodeCacheMode::from_str("SPARSE"), Ok(NodeCacheMode::Sparse)));
}

#[test]
fn node_cache_mode_parses_dense() {
    assert!(matches!(NodeCacheMode::from_str("dense"), Ok(NodeCacheMode::Dense)));
    assert!(matches!(NodeCacheMode::from_str("DENSE"), Ok(NodeCacheMode::Dense)));
    // Backwards compatibility: mmap maps to dense
    assert!(matches!(NodeCacheMode::from_str("mmap"), Ok(NodeCacheMode::Dense)));
}

#[test]
fn node_cache_mode_parses_memory() {
    assert!(matches!(NodeCacheMode::from_str("memory"), Ok(NodeCacheMode::Memory)));
    assert!(matches!(NodeCacheMode::from_str("MEMORY"), Ok(NodeCacheMode::Memory)));
}

#[test]
fn node_cache_mode_rejects_invalid() {
    let result = NodeCacheMode::from_str("invalid");
    assert!(result.is_err());
    assert!(result.unwrap_err().contains("invalid"));
}

#[test]
fn runtime_config_defaults() {
    let config = RuntimeConfig::default();
    assert!(matches!(config.node_cache_mode, NodeCacheMode::Auto));
    assert_eq!(config.node_cache_max_nodes, 16_000_000_000);
    assert!(!config.all_tags);
}

#[test]
fn way_setting_enabled_returns_true_for_mode() {
    let setting = WaySetting::Enabled(WayGeometryMode::Linestring);
    assert!(setting.enabled());
}

#[test]
fn way_setting_enabled_returns_value_for_disabled() {
    assert!(!WaySetting::Disabled(false).enabled());
    assert!(WaySetting::Disabled(true).enabled());
}

#[test]
fn way_setting_mode_returns_correct_mode() {
    assert!(matches!(
        WaySetting::Enabled(WayGeometryMode::Polygon).mode(),
        WayGeometryMode::Polygon
    ));
    assert!(matches!(
        WaySetting::Enabled(WayGeometryMode::Centroid).mode(),
        WayGeometryMode::Centroid
    ));
}

#[test]
fn way_setting_mode_returns_linestring_for_disabled() {
    let setting = WaySetting::Disabled(false);
    assert!(matches!(setting.mode(), WayGeometryMode::Linestring));
}

#[test]
fn way_setting_default_is_linestring() {
    let setting = WaySetting::default();
    assert!(setting.enabled());
    assert!(matches!(setting.mode(), WayGeometryMode::Linestring));
}

#[test]
fn geometry_config_defaults() {
    let config = GeometryConfig::default();
    assert!(config.way.enabled());
    assert!(matches!(config.closed_way, ClosedWayMode::Polygon));
    assert!(config.node);
    assert!(config.relation);
}

#[test]
fn filter_expr_default_is_empty_simple() {
    let filter = FilterExpr::default();
    if let FilterExpr::Simple(map) = filter {
        assert!(map.is_empty());
    } else {
        panic!("expected FilterExpr::Simple");
    }
}

#[test]
fn closed_way_mode_default_is_polygon() {
    assert!(matches!(ClosedWayMode::default(), ClosedWayMode::Polygon));
}

#[test]
fn auto_mode_selects_dense_for_large_inputs() {
    let five_gib: u64 = 5 * 1024 * 1024 * 1024;
    let (mode, desc) = resolve_node_cache_mode(NodeCacheMode::Auto, five_gib);
    assert!(matches!(mode, NodeCacheMode::Dense));
    assert!(desc.contains("auto-selected"));

    let (mode, desc) = resolve_node_cache_mode(NodeCacheMode::Auto, five_gib - 1);
    assert!(matches!(mode, NodeCacheMode::Sparse));
    assert!(desc.contains("auto-selected"));
}

#[test]
fn explicit_mode_overrides_auto_selection() {
    let (mode, desc) = resolve_node_cache_mode(NodeCacheMode::Memory, u64::MAX);
    assert!(matches!(mode, NodeCacheMode::Memory));
    assert_eq!(desc, "memory");
}
