use cosmo::mapping::{Mapping, MappingConfig, MappingRule, evaluate_mapping};
use cosmo::tags::{TagMap, build_tag_map};

fn tags(pairs: &[(&str, &str)]) -> TagMap {
    build_tag_map(
        pairs.iter().map(|(k, v)| (k.to_string(), v.to_string())).collect::<Vec<_>>(),
    )
}

fn make_mapping() -> Mapping {
    let config = MappingConfig {
        rules: vec![
            MappingRule {
                match_expr: "amenity=restaurant|food_court|diner".into(),
                value: "restaurant".into(),
            },
            MappingRule { match_expr: "amenity=cafe|coffee_shop".into(), value: "cafe".into() },
            MappingRule { match_expr: "shop=*".into(), value: "retail".into() },
            MappingRule {
                match_expr: "amenity | shop | leisure | tourism".into(),
                value: "misc".into(),
            },
        ],
        default: None,
    };

    Mapping::compile("poi_class".into(), &config).unwrap()
}

#[test]
fn test_first_match_wins() {
    let mapping = make_mapping();

    assert_eq!(
        evaluate_mapping(&mapping, &tags(&[("amenity", "restaurant")])),
        Some("restaurant".into())
    );

    assert_eq!(evaluate_mapping(&mapping, &tags(&[("amenity", "cafe")])), Some("cafe".into()));
}

#[test]
fn test_wildcard_match() {
    let mapping = make_mapping();

    assert_eq!(
        evaluate_mapping(&mapping, &tags(&[("shop", "supermarket")])),
        Some("retail".into())
    );
}

#[test]
fn test_fallback() {
    let mapping = make_mapping();

    assert_eq!(evaluate_mapping(&mapping, &tags(&[("tourism", "hotel")])), Some("misc".into()));
}

#[test]
fn test_no_match() {
    let mapping = make_mapping();

    assert_eq!(evaluate_mapping(&mapping, &tags(&[("highway", "primary")])), None);
}

#[test]
fn mapping_default_applies_when_no_rule_matches() {
    let config = MappingConfig {
        rules: vec![MappingRule { match_expr: "shop".into(), value: "retail".into() }],
        default: Some("other".into()),
    };
    let mapping = Mapping::compile("classes".into(), &config).unwrap();
    assert_eq!(evaluate_mapping(&mapping, &tags(&[("highway", "primary")])), Some("other".into()));
}

#[test]
fn mapping_compile_rejects_bad_rule() {
    let config = MappingConfig {
        rules: vec![MappingRule { match_expr: "((".into(), value: "x".into() }],
        default: None,
    };
    assert!(Mapping::compile("broken".into(), &config).is_err());
}

#[test]
fn mapping_with_no_rules_compiles() {
    let config = MappingConfig { rules: Vec::new(), default: Some("other".into()) };
    let mapping = Mapping::compile("empty".into(), &config).unwrap();
    assert_eq!(evaluate_mapping(&mapping, &tags(&[("a", "b")])), Some("other".into()));
}
