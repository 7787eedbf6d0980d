use cosmo::ast::FilterAst;
use cosmo::config::{
    ColumnConfig, ColumnSource, FilterExpr, FilterInput, FiltersConfig, GeometryConfig,
    TableConfig, TagMatch, convert_structured_filter,
};
use cosmo::eval::evaluate_filter;
use cosmo::feature::ColumnType;
use cosmo::mapping::{MappingConfig, MappingRule};
use cosmo::tags::{TagMap, build_tag_map};

fn tags(pairs: &[(&str, &str)]) -> TagMap {
    build_tag_map(
        pairs.iter().map(|(k, v)| (k.to_string(), v.to_string())).collect::<Vec<_>>(),
    )
}

fn table_with(filter: FilterInput, columns: Vec<ColumnConfig>) -> FiltersConfig {
    FiltersConfig {
        table: TableConfig {
            name: "t".to_string(),
            filter,
            columns,
            geometry: GeometryConfig::default(),
        },
        mappings: Vec::new(),
    }
}

fn column(name: &str, source: &str, col_type: ColumnType) -> ColumnConfig {
    ColumnConfig { name: name.to_string(), source: source.to_string(), col_type }
}

#[test]
fn structured_simple_filter_means_exact_matches() {
    let expr = FilterExpr::Simple(vec![("highway".to_string(), "primary".to_string())]);
    let ast = convert_structured_filter(&expr).unwrap();
    assert!(evaluate_filter(&ast, &tags(&[("highway", "primary")])));
    assert!(!evaluate_filter(&ast, &tags(&[("highway", "secondary")])));
    assert!(!evaluate_filter(&ast, &tags(&[("amenity", "cafe")])));
}

#[test]
fn structured_tag_filter_classifies_values() {
    let expr = FilterExpr::Tag(TagMatch {
        tag: "highway".to_string(),
        value: Some("primary".to_string()),
        values: vec!["*_link".to_string(), "*".to_string()],
    });
    let ast = convert_structured_filter(&expr).unwrap();
    // The exact head, the glob, and the wildcard all match.
    assert!(evaluate_filter(&ast, &tags(&[("highway", "primary")])));
    assert!(evaluate_filter(&ast, &tags(&[("highway", "motorway_link")])));
    assert!(evaluate_filter(&ast, &tags(&[("highway", "anything")])));
    assert!(!evaluate_filter(&ast, &tags(&[("amenity", "cafe")])));
}

#[test]
fn structured_any_and_not_combine() {
    let expr = FilterExpr::Any {
        any: vec![
            FilterExpr::Tag(TagMatch {
                tag: "amenity".to_string(),
                value: None,
                values: Vec::new(),
            }),
            FilterExpr::Not {
                not: Box::new(FilterExpr::Tag(TagMatch {
                    tag: "highway".to_string(),
                    value: None,
                    values: Vec::new(),
                })),
            },
        ],
    };
    let ast = convert_structured_filter(&expr).unwrap();
    assert!(evaluate_filter(&ast, &tags(&[("amenity", "cafe")])));
    assert!(evaluate_filter(&ast, &tags(&[("natural", "tree")])));
    assert!(!evaluate_filter(&ast, &tags(&[("highway", "primary")])));
}

#[test]
fn structured_empty_lists_match_everything() {
    let any = convert_structured_filter(&FilterExpr::Any { any: Vec::new() }).unwrap();
    assert_eq!(any, FilterAst::True);
    let all = convert_structured_filter(&FilterExpr::All { all: Vec::new() }).unwrap();
    assert_eq!(all, FilterAst::True);
}

#[test]
fn compile_resolves_every_source_kind() {
    let config = table_with(
        FilterInput::Dsl("highway".to_string()),
        vec![
            column("a", "tags", ColumnType::Json),
            column("b", "meta", ColumnType::Json),
            column("c", "refs", ColumnType::Json),
            column("d", "tag:name", ColumnType::String),
            column("e", "meta:id", ColumnType::Integer),
            column("f", "bare_key", ColumnType::String),
            column("g", "expr:tags.name", ColumnType::String),
        ],
    );
    let compiled = config.compile().unwrap();
    let sources: Vec<&ColumnSource> =
        compiled.table.columns.iter().map(|c| &c.source).collect();
    assert!(matches!(sources[0], ColumnSource::AllTags));
    assert!(matches!(sources[1], ColumnSource::AllMeta));
    assert!(matches!(sources[2], ColumnSource::Refs));
    assert!(matches!(sources[3], ColumnSource::Tag(k) if k == "name"));
    assert!(matches!(sources[4], ColumnSource::Meta(k) if k == "id"));
    assert!(matches!(sources[5], ColumnSource::Tag(k) if k == "bare_key"));
    assert!(matches!(sources[6], ColumnSource::Cel(_)));
}

#[test]
fn compile_rejects_unknown_mapping_and_bad_expression() {
    let unknown = table_with(
        FilterInput::Dsl(String::new()),
        vec![column("x", "mapping:missing", ColumnType::String)],
    );
    let err = unknown.compile().unwrap_err();
    assert!(err.message().contains("unknown mapping"));

    let bad_expr = table_with(
        FilterInput::Dsl(String::new()),
        vec![column("x", "expr:(((", ColumnType::String)],
    );
    assert!(bad_expr.compile().is_err());
}

#[test]
fn compile_resolves_known_mapping() {
    let mut config = table_with(
        FilterInput::Dsl(String::new()),
        vec![column("class", "mapping:classes", ColumnType::String)],
    );
    config.mappings.push((
        "classes".to_string(),
        MappingConfig {
            rules: vec![MappingRule { match_expr: "shop".to_string(), value: "retail".to_string() }],
            default: None,
        },
    ));
    let compiled = config.compile().unwrap();
    assert!(matches!(&compiled.table.columns[0].source, ColumnSource::Mapping(n) if n == "classes"));
}
