use cosmo::ast::{CompareOp, FilterAst, TagValue};
use cosmo::eval::evaluate_filter;
use cosmo::lexer::{Token, tokenize};
use cosmo::numeric::Decimal;
use cosmo::parser::parse_filter;
use cosmo::tags::{TagMap, build_tag_map};

fn tags(pairs: &[(&str, &str)]) -> TagMap {
    build_tag_map(
        pairs.iter().map(|(k, v)| (k.to_string(), v.to_string())).collect::<Vec<_>>(),
    )
}

// ============================================
// Lexer
// ============================================

#[test]
fn test_simple_tokens() {
    let tokens = tokenize("highway=primary").unwrap();
    assert_eq!(
        tokens,
        vec![
            Token::Ident("highway".into()),
            Token::Eq,
            Token::Ident("primary".into()),
            Token::Eof,
        ]
    );
}

#[test]
fn lexer_test_numeric_comparison() {
    let tokens = tokenize("lanes>=2").unwrap();
    assert_eq!(
        tokens,
        vec![
            Token::Ident("lanes".into()),
            Token::Ge,
            Token::Number(Decimal::from_int(2)),
            Token::Eof,
        ]
    );
}

#[test]
fn lexer_test_complex_expression() {
    let tokens = tokenize("highway=primary & lanes>=2").unwrap();
    assert_eq!(
        tokens,
        vec![
            Token::Ident("highway".into()),
            Token::Eq,
            Token::Ident("primary".into()),
            Token::And,
            Token::Ident("lanes".into()),
            Token::Ge,
            Token::Number(Decimal::from_int(2)),
            Token::Eof,
        ]
    );
}

// ============================================
// Parser
// ============================================

#[test]
fn test_simple_existence() {
    let ast = parse_filter("name").unwrap();
    assert_eq!(ast, FilterAst::TagExists { key: "name".into(), negated: false });
}

#[test]
fn parser_test_negated_existence() {
    let ast = parse_filter("!name").unwrap();
    assert_eq!(ast, FilterAst::TagExists { key: "name".into(), negated: true });
}

#[test]
fn parser_test_exact_match() {
    let ast = parse_filter("highway=primary").unwrap();
    assert_eq!(
        ast,
        FilterAst::TagMatch {
            key: "highway".into(),
            values: vec![TagValue::Exact("primary".into())],
        }
    );
}

#[test]
fn parser_test_multiple_values() {
    let ast = parse_filter("highway=primary|secondary|tertiary").unwrap();
    assert_eq!(
        ast,
        FilterAst::TagMatch {
            key: "highway".into(),
            values: vec![
                TagValue::Exact("primary".into()),
                TagValue::Exact("secondary".into()),
                TagValue::Exact("tertiary".into()),
            ],
        }
    );
}

#[test]
fn test_wildcard() {
    let ast = parse_filter("shop=*").unwrap();
    assert_eq!(ast, FilterAst::TagMatch { key: "shop".into(), values: vec![TagValue::Any] });
}

#[test]
fn parser_test_numeric_comparison() {
    let ast = parse_filter("lanes>=2").unwrap();
    assert_eq!(
        ast,
        FilterAst::NumericCompare {
            key: "lanes".into(),
            op: CompareOp::Ge,
            value: Decimal::from_int(2),
        }
    );
}

#[test]
fn test_and_expression() {
    let ast = parse_filter("highway=primary & lanes>=2").unwrap();
    assert!(matches!(ast, FilterAst::And(_)));
}

#[test]
fn test_or_expression() {
    let ast = parse_filter("highway=primary | highway=secondary").unwrap();
    assert!(matches!(ast, FilterAst::Or(_)));
}

#[test]
fn parser_test_complex_expression() {
    let ast = parse_filter("(highway=primary | highway=secondary) & lanes>=2").unwrap();
    assert!(matches!(ast, FilterAst::And(_)));
}

#[test]
fn test_empty_filter() {
    let ast = parse_filter("").unwrap();
    assert_eq!(ast, FilterAst::True);
}

#[test]
fn test_mixed_value_alternatives_and_boolean_or() {
    let ast = parse_filter("highway=primary|secondary | lanes>=2").unwrap();
    // Should parse as: (highway IN [primary, secondary]) OR (lanes >= 2)
    assert!(matches!(ast, FilterAst::Or(_)));
    if let FilterAst::Or(exprs) = ast {
        assert_eq!(exprs.len(), 2);
        assert!(matches!(exprs[0], FilterAst::TagMatch { .. }));
        assert!(matches!(exprs[1], FilterAst::NumericCompare { .. }));

        // Verify the TagMatch has two values
        if let FilterAst::TagMatch { values, .. } = &exprs[0] {
            assert_eq!(values.len(), 2);
        }
    }
}

// ============================================
// Evaluator
// ============================================

#[test]
fn test_existence() {
    let ast = parse_filter("name").unwrap();
    assert!(evaluate_filter(&ast, &tags(&[("name", "Foo")])));
    assert!(!evaluate_filter(&ast, &tags(&[("highway", "primary")])));
}

#[test]
fn eval_test_negated_existence() {
    let ast = parse_filter("!name").unwrap();
    assert!(!evaluate_filter(&ast, &tags(&[("name", "Foo")])));
    assert!(evaluate_filter(&ast, &tags(&[("highway", "primary")])));
}

#[test]
fn eval_test_exact_match() {
    let ast = parse_filter("highway=primary").unwrap();
    assert!(evaluate_filter(&ast, &tags(&[("highway", "primary")])));
    assert!(!evaluate_filter(&ast, &tags(&[("highway", "secondary")])));
}

#[test]
fn eval_test_multiple_values() {
    let ast = parse_filter("highway=primary|secondary").unwrap();
    assert!(evaluate_filter(&ast, &tags(&[("highway", "primary")])));
    assert!(evaluate_filter(&ast, &tags(&[("highway", "secondary")])));
    assert!(!evaluate_filter(&ast, &tags(&[("highway", "tertiary")])));
}

#[test]
fn eval_test_numeric_comparison() {
    let ast = parse_filter("lanes>=2").unwrap();
    assert!(evaluate_filter(&ast, &tags(&[("lanes", "2")])));
    assert!(evaluate_filter(&ast, &tags(&[("lanes", "4")])));
    assert!(!evaluate_filter(&ast, &tags(&[("lanes", "1")])));
}

#[test]
fn test_numeric_with_units() {
    let ast = parse_filter("maxspeed>=50").unwrap();
    assert!(evaluate_filter(&ast, &tags(&[("maxspeed", "50 mph")])));
    assert!(evaluate_filter(&ast, &tags(&[("maxspeed", "60")])));
    assert!(!evaluate_filter(&ast, &tags(&[("maxspeed", "30")])));
}

#[test]
fn test_and() {
    let ast = parse_filter("highway=primary & lanes>=2").unwrap();
    assert!(evaluate_filter(&ast, &tags(&[("highway", "primary"), ("lanes", "3")])));
    assert!(!evaluate_filter(&ast, &tags(&[("highway", "primary"), ("lanes", "1")])));
    assert!(!evaluate_filter(&ast, &tags(&[("highway", "secondary"), ("lanes", "3")])));
}

#[test]
fn test_or() {
    let ast = parse_filter("highway=primary | highway=secondary").unwrap();
    assert!(evaluate_filter(&ast, &tags(&[("highway", "primary")])));
    assert!(evaluate_filter(&ast, &tags(&[("highway", "secondary")])));
    assert!(!evaluate_filter(&ast, &tags(&[("highway", "tertiary")])));
}

#[test]
fn test_glob() {
    let ast = parse_filter("highway=*_link").unwrap();
    assert!(evaluate_filter(&ast, &tags(&[("highway", "motorway_link")])));
    assert!(evaluate_filter(&ast, &tags(&[("highway", "trunk_link")])));
    assert!(!evaluate_filter(&ast, &tags(&[("highway", "motorway")])));
}

#[test]
fn decimal_comparison_is_exact() {
    let ast = parse_filter("width>=2.5").unwrap();
    assert!(evaluate_filter(&ast, &tags(&[("width", "2.5")])));
    assert!(evaluate_filter(&ast, &tags(&[("width", "2.50")])));
    assert!(!evaluate_filter(&ast, &tags(&[("width", "2.4999")])));
}

#[test]
fn tag_map_last_write_wins() {
    let t = build_tag_map(vec![
        ("name".to_string(), "first".to_string()),
        ("name".to_string(), "second".to_string()),
    ]);
    assert_eq!(t.get("name"), Some(&"second".to_string()));
    assert!(t.contains_key("name"));
    assert!(!t.contains_key("highway"));
}

#[test]
fn numeric_comparison_reads_exponent_forms() {
    let ast = parse_filter("maxspeed>=1000").unwrap();
    assert!(evaluate_filter(&ast, &tags(&[("maxspeed", "1e3")])));
    assert!(!evaluate_filter(&ast, &tags(&[("maxspeed", "9.99e2")])));
    assert!(evaluate_filter(&ast, &tags(&[("maxspeed", "1.5e3")])));
}
