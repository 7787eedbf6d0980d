use std::collections::HashMap;

use cosmo::expr::{CelContext, compile_cel, evaluate_cel, cel_value_to_string};

fn make_ctx<'a>(
    tags: &'a HashMap<String, String>,
    meta: &'a HashMap<String, String>,
) -> CelContext<'a> {
    CelContext { tags, meta }
}

#[test]
fn test_simple_tag_access() {
    let program = compile_cel("tags.name").unwrap();

    let tags: HashMap<String, String> = [("name".into(), "Foo".into())].into();
    let meta = HashMap::new();
    let ctx = make_ctx(&tags, &meta);

    let result = evaluate_cel(&program, &ctx).unwrap();
    assert_eq!(cel_value_to_string(&result), Some("Foo".into()));
}

#[test]
fn test_tag_comparison() {
    let program = compile_cel("tags.highway == 'primary'").unwrap();

    let tags: HashMap<String, String> = [("highway".into(), "primary".into())].into();
    let meta = HashMap::new();
    let ctx = make_ctx(&tags, &meta);

    let result = evaluate_cel(&program, &ctx).unwrap();
    assert!(matches!(result, cel::Value::Bool(true)));
}

#[test]
fn test_has_tag_native() {
    let program = compile_cel("'name' in tags").unwrap();

    let tags: HashMap<String, String> = [("name".into(), "Foo".into())].into();
    let meta = HashMap::new();
    let ctx = make_ctx(&tags, &meta);

    let result = evaluate_cel(&program, &ctx).unwrap();
    assert!(matches!(result, cel::Value::Bool(true)));
}

#[test]
fn test_get_tag_alternative() {
    let program = compile_cel("has(tags.name) ? tags.name : 'default'").unwrap();

    let tags: HashMap<String, String> = [("name".into(), "Foo".into())].into();
    let meta = HashMap::new();
    let ctx = make_ctx(&tags, &meta);

    let result = evaluate_cel(&program, &ctx).unwrap();
    assert_eq!(cel_value_to_string(&result), Some("Foo".into()));
}

#[test]
fn cel_program_remembers_its_source() {
    let program = compile_cel("tags.name").unwrap();
    assert_eq!(program.source(), "tags.name");
}

#[test]
fn cel_compile_rejects_garbage() {
    assert!(compile_cel("tags.(((").is_err());
}
