use cosmo::feature::{ColumnValue, coerce_decimal, coerce_i64, coerce_string};
use cosmo::numeric::Decimal;

// ============================================
// Type coercion tests
// ============================================

#[test]
fn coerce_string_from_string() {
    let value = ColumnValue::String("hello".to_string());
    assert_eq!(coerce_string(Some(&value)), Some("hello".to_string()));
}

#[test]
fn coerce_string_from_integer() {
    let value = ColumnValue::Integer(42);
    assert_eq!(coerce_string(Some(&value)), Some("42".to_string()));
}

#[test]
fn coerce_string_from_float() {
    let value = ColumnValue::Float(Decimal::new(314, 2));
    assert_eq!(coerce_string(Some(&value)), Some("3.14".to_string()));
}

#[test]
fn coerce_string_from_none() {
    assert_eq!(coerce_string(None), None);
}

#[test]
fn coerce_i64_from_integer() {
    let value = ColumnValue::Integer(42);
    assert_eq!(coerce_i64(Some(&value)), Some(42));
}

#[test]
fn coerce_i64_from_float() {
    let value = ColumnValue::Float(Decimal::new(39, 1));
    assert_eq!(coerce_i64(Some(&value)), Some(3)); // truncates
}

#[test]
fn coerce_i64_from_valid_string() {
    let value = ColumnValue::String("123".to_string());
    assert_eq!(coerce_i64(Some(&value)), Some(123));
}

#[test]
fn coerce_i64_from_invalid_string() {
    let value = ColumnValue::String("not a number".to_string());
    assert_eq!(coerce_i64(Some(&value)), None);
}

#[test]
fn coerce_i64_from_none() {
    assert_eq!(coerce_i64(None), None);
}

#[test]
fn coerce_f64_from_float() {
    let value = ColumnValue::Float(Decimal::new(314, 2));
    assert_eq!(coerce_decimal(Some(&value)), Some(Decimal::new(314, 2)));
}

#[test]
fn coerce_f64_from_integer() {
    let value = ColumnValue::Integer(42);
    assert_eq!(coerce_decimal(Some(&value)), Some(Decimal::from_int(42)));
}

#[test]
fn coerce_f64_from_valid_string() {
    let value = ColumnValue::String("3.14".to_string());
    assert_eq!(coerce_decimal(Some(&value)), Some(Decimal::new(314, 2)));
}

#[test]
fn coerce_f64_from_invalid_string() {
    let value = ColumnValue::String("not a number".to_string());
    assert_eq!(coerce_decimal(Some(&value)), None);
}

#[test]
fn coerce_f64_from_none() {
    assert_eq!(coerce_decimal(None), None);
}

#[test]
fn coerce_i64_from_negative_float() {
    let value = ColumnValue::Float(Decimal::new(-57, 1));
    assert_eq!(coerce_i64(Some(&value)), Some(-5));
}

#[test]
fn coerce_i64_from_large_integer() {
    let value = ColumnValue::Integer(i64::MAX);
    assert_eq!(coerce_i64(Some(&value)), Some(i64::MAX));
}

#[test]
fn coerce_string_from_negative_integer() {
    let value = ColumnValue::Integer(-42);
    assert_eq!(coerce_string(Some(&value)), Some("-42".to_string()));
}

#[test]
fn coerce_i64_from_string_with_whitespace() {
    // String parsing doesn't trim whitespace
    let value = ColumnValue::String(" 123 ".to_string());
    assert_eq!(coerce_i64(Some(&value)), None);
}

#[test]
fn coerce_i64_handles_the_integer_bounds() {
    let max = ColumnValue::String("9223372036854775807".to_string());
    assert_eq!(coerce_i64(Some(&max)), Some(i64::MAX));
    let over = ColumnValue::String("9223372036854775808".to_string());
    assert_eq!(coerce_i64(Some(&over)), None);
    let min = ColumnValue::String("-9223372036854775808".to_string());
    assert_eq!(coerce_i64(Some(&min)), Some(i64::MIN));
    let under = ColumnValue::String("-9223372036854775809".to_string());
    assert_eq!(coerce_i64(Some(&under)), None);
}

#[test]
fn coerce_i64_from_json_is_null() {
    let value = ColumnValue::Json(cosmo::json::JsonValue::Null);
    assert_eq!(coerce_i64(Some(&value)), None);
}

#[test]
fn coerce_f64_from_exponent_strings() {
    let plain = ColumnValue::String("1e5".to_string());
    assert_eq!(coerce_decimal(Some(&plain)), Some(Decimal::from_int(100000)));
    let upper = ColumnValue::String("2.5E-3".to_string());
    assert_eq!(coerce_decimal(Some(&upper)), Some(Decimal::new(25, 4)));
    let signed = ColumnValue::String("+0.5".to_string());
    assert_eq!(coerce_decimal(Some(&signed)), Some(Decimal::new(5, 1)));
    let negative = ColumnValue::String("-1.5e2".to_string());
    assert_eq!(coerce_decimal(Some(&negative)), Some(Decimal::from_int(-150)));
}

#[test]
fn coerce_f64_rejects_forms_outside_the_decimal_model() {
    // Values the eighteen-digit decimal model cannot hold stay null.
    for text in ["1e300", "1e-300", "inf", "NaN", "1e99999"] {
        let value = ColumnValue::String(text.to_string());
        assert_eq!(coerce_decimal(Some(&value)), None, "{}", text);
    }
}
