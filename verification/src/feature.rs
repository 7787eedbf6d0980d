//! The in-memory record the builder produces and the sinks consume:
//! geometry, typed columns, extras — and the deterministic coercions into
//! the declared column types.

use vstd::prelude::*;
use crate::json::JsonValue;
use crate::numeric::{
    Decimal, pow10, parse_decimal, decimal_matches, spec_is_digit, spec_digit_val,
    spec_dec_string,
};
use crate::strnum::{spec_dec_i64, i64_to_dec};
use crate::json::spec_json;

verus! {

/// The type a declared column holds.
#[derive(Debug, Clone, Copy, PartialEq, Eq)]
pub enum ColumnType {
    String,
    Integer,
    Float,
    Json,
}

/// A declared output column.
#[derive(Debug, Clone)]
pub struct ColumnSpec {
    pub name: String,
    pub col_type: ColumnType,
}

/// A produced column value.
#[derive(Debug)]
pub enum ColumnValue {
    String(String),
    Integer(i64),
    /// An exact decimal; the floating-point column type is carried this way.
    Float(Decimal),
    Json(JsonValue),
}

/// One coordinate, fixed-point: degrees times ten million.
#[derive(Debug, Clone, Copy, PartialEq, Eq, Structural)]
pub struct Coord {
    pub lon: i32,
    pub lat: i32,
}

/// A feature's geometry, over fixed-point coordinates.
#[derive(Debug)]
pub enum Geometry {
    Point(Coord),
    LineString(Vec<Coord>),
    /// A polygon with the given exterior ring and no holes.
    Polygon(Vec<Coord>),
}

/// One output record: geometry, named columns, and free-form extras that
/// the sinks blend into the output properties.
#[derive(Debug)]
pub struct FeatureRow {
    pub geometry: Geometry,
    pub columns: Vec<(String, ColumnValue)>,
    pub extras: Vec<(String, JsonValue)>,
}

// ---------------------------------------------------------------------------
// Integer parsing (the standard integer grammar)
// ---------------------------------------------------------------------------

/// The value of a run of digits, most significant first, or nothing if the
/// run is empty or holds a non-digit.
pub open spec fn spec_digits_value(s: Seq<char>) -> Option<nat>
    decreases s.len(),
{
    if s.len() == 0 {
        None
    } else if !spec_is_digit(s.last()) {
        None
    } else if s.len() == 1 {
        Some(spec_digit_val(s.last()) as nat)
    } else {
        match spec_digits_value(s.drop_last()) {
            Some(m) => Some((m * 10 + spec_digit_val(s.last())) as nat),
            None => None,
        }
    }
}

/// The standard integer grammar: an optional sign, then digits; the value
/// must fit an `i64`.
pub open spec fn spec_parse_i64(s: Seq<char>) -> Option<i64> {
    let neg = s.len() > 0 && s[0] == '-';
    let signed = s.len() > 0 && (s[0] == '-' || s[0] == '+');
    let body = if signed {
        s.drop_first()
    } else {
        s
    };
    match spec_digits_value(body) {
        None => None,
        Some(mag) => if neg {
            if mag <= 9223372036854775808nat {
                Some((-(mag as int)) as i64)
            } else {
                None
            }
        } else {
            if mag <= 9223372036854775807nat {
                Some(mag as int as i64)
            } else {
                None
            }
        },
    }
}

/// Parse an `i64` from text by the standard integer grammar.
#[verifier::loop_isolation(false)]
pub fn parse_i64(s: &str) -> (r: Option<i64>)
    ensures
        r == spec_parse_i64(s@),
{
    let chars = crate::eval::chars_of(s);
    let n = chars.len();
    let mut i: usize = 0;
    let mut neg = false;
    if n > 0 && (chars[0] == '-' || chars[0] == '+') {
        neg = chars[0] == '-';
        i = 1;
    }
    let ghost body = if i == 1 {
        s@.drop_first()
    } else {
        s@
    };
    if i >= n {
        proof {
            if body.len() > 0 {
                assert(spec_digits_value(body) is None);
            }
        }
        return None;
    }
    let start = i;
    let mut acc: u128 = 0;
    let mut over = false;
    while i < n
        invariant
            start <= i <= n,
            n == chars@.len(),
            chars@ == s@,
            body == s@.skip(start as int),
            forall|j: int| start <= j < i ==> spec_is_digit(chars@[j]),
            i == start ==> acc == 0 && !over,
            i > start ==> {
                let so_far = spec_digits_value(s@.subrange(start as int, i as int));
                &&& so_far is Some
                &&& (!over ==> acc == so_far->0 && acc <= 9223372036854775808u128)
                &&& (over ==> so_far->0 > 9223372036854775808nat)
            },
        decreases n - i,
    {
        let c = chars[i];
        if !('0' <= c && c <= '9') {
            proof {
                lemma_digits_value_bad(body, i - start);
            }
            return None;
        }
        let d = (c as u32) - 48;
        let ghost prefix = s@.subrange(start as int, i as int);
        let ghost extended = s@.subrange(start as int, i as int + 1);
        proof {
            assert(extended.drop_last() =~= prefix);
            assert(extended.last() == s@[i as int]);
        }
        if over {
            proof {
                let m = spec_digits_value(prefix)->0;
                assert(spec_digits_value(extended)->0 == m * 10 + spec_digit_val(s@[i as int]));
                assert(m * 10 >= m) by (nonlinear_arith)
                    requires
                        m >= 0,
                ;
            }
        } else {
            if acc > 922337203685477580u128 || (acc == 922337203685477580u128 && d > 8) {
                proof {
                    let m = spec_digits_value(prefix)->0;
                    if i == start {
                    } else {
                        assert(spec_digits_value(extended)->0 == m * 10 + spec_digit_val(
                            s@[i as int],
                        ));
                    }
                }
                // The magnitude has left the i64 range for good.
                let wide = acc * 10 + (d as u128);
                proof {
                    assert(wide > 9223372036854775808u128);
                }
                acc = wide;
                over = true;
            } else {
                acc = acc * 10 + (d as u128);
            }
        }
        i = i + 1;
    }
    proof {
        assert(s@.subrange(start as int, n as int) =~= body);
    }
    if over {
        return None;
    }
    if neg {
        if acc > 9223372036854775808u128 {
            return None;
        }
        if acc == 9223372036854775808u128 {
            Some(i64::MIN)
        } else {
            Some(-(acc as i64))
        }
    } else {
        if acc > 9223372036854775807u128 {
            return None;
        }
        Some(acc as i64)
    }
}

/// A digit run with a bad character at `k` has no value.
proof fn lemma_digits_value_bad(s: Seq<char>, k: int)
    requires
        0 <= k < s.len(),
        !spec_is_digit(s[k]),
    ensures
        spec_digits_value(s) is None,
    decreases s.len(),
{
    if k == s.len() - 1 {
    } else {
        lemma_digits_value_bad(s.drop_last(), k);
    }
}

// ---------------------------------------------------------------------------
// Coercions into the declared column types
// ---------------------------------------------------------------------------

/// What coercion to a string column yields.
pub open spec fn spec_coerce_string(value: Option<ColumnValue>) -> Option<Seq<char>> {
    match value {
        Some(ColumnValue::String(s)) => Some(s@),
        Some(ColumnValue::Integer(n)) => Some(spec_dec_i64(n as int)),
        Some(ColumnValue::Float(d)) => Some(
            spec_dec_string(d.spec_mantissa() as int, d.spec_scale()),
        ),
        Some(ColumnValue::Json(v)) => Some(spec_json(v)),
        None => None,
    }
}

/// Coerce into a string column: strings kept, numbers as decimal text,
/// JSON serialized compactly.
pub fn coerce_string(value: Option<&ColumnValue>) -> (r: Option<String>)
    ensures
        match spec_coerce_string(
            match value {
                Some(v) => Some(*v),
                None => None,
            },
        ) {
            Some(s) => r matches Some(t) && t@ == s,
            None => r is None,
        },
{
    match value {
        Some(ColumnValue::String(s)) => Some(s.clone()),
        Some(ColumnValue::Integer(n)) => Some(i64_to_dec(*n)),
        Some(ColumnValue::Float(d)) => Some(d.to_dec_string()),
        Some(ColumnValue::Json(v)) => Some(crate::json::render_json(v)),
        None => None,
    }
}

/// Truncation of `m / 10^f` toward zero.
pub open spec fn spec_trunc(m: int, f: nat) -> int {
    if m >= 0 {
        m / pow10(f)
    } else {
        -((-m) / pow10(f))
    }
}

/// What coercion to an integer column yields: integers kept, decimals
/// truncated toward zero, strings by the standard integer grammar, JSON
/// never.
pub open spec fn spec_coerce_i64(value: Option<ColumnValue>) -> Option<i64> {
    match value {
        Some(ColumnValue::Integer(n)) => Some(n),
        Some(ColumnValue::Float(d)) => Some(
            spec_trunc(d.spec_mantissa() as int, d.spec_scale()) as i64,
        ),
        Some(ColumnValue::String(s)) => spec_parse_i64(s@),
        Some(ColumnValue::Json(_)) => None,
        None => None,
    }
}

/// Coerce into an integer column.
pub fn coerce_i64(value: Option<&ColumnValue>) -> (r: Option<i64>)
    ensures
        r == spec_coerce_i64(
            match value {
                Some(v) => Some(*v),
                None => None,
            },
        ),
{
    match value {
        Some(ColumnValue::Integer(n)) => Some(*n),
        Some(ColumnValue::Float(d)) => {
            proof {
                use_type_invariant(d);
            }
            let m = d.mantissa_value();
            let p = crate::numeric::pow10_i64(d.scale_value());
            let q: i64 = if m >= 0 {
                m / p
            } else if m == i64::MIN {
                let wide: u64 = 9223372036854775808u64;
                let mag64: u64 = wide / (p as u64);
                if mag64 == 9223372036854775808u64 {
                    i64::MIN
                } else {
                    -(mag64 as i64)
                }
            } else {
                -((-m) / p)
            };
            proof {
                lemma_trunc_matches(m as int, d.spec_scale(), p as int, q as int);
            }
            Some(q)
        },
        Some(ColumnValue::String(s)) => parse_i64(s.as_str()),
        Some(ColumnValue::Json(_)) => None,
        None => None,
    }
}

proof fn lemma_trunc_matches(m: int, f: nat, p: int, q: int)
    requires
        p == pow10(f),
        p >= 1,
        m >= 0 ==> q == m / p,
        m < 0 ==> q == -((-m) / p),
    ensures
        q == spec_trunc(m, f),
{
}

/// Coerce into a float column, exactly, as a decimal: the string grammar
/// takes sign, digits, point and exponent forms; values outside the
/// eighteen-digit model stay null.
pub fn coerce_decimal(value: Option<&ColumnValue>) -> (r: Option<Decimal>)
    ensures
        match value {
            Some(ColumnValue::Float(d)) => r == Some(*d),
            Some(ColumnValue::Integer(n)) => r matches Some(d) && d.spec_mantissa() == n
                && d.spec_scale() == 0,
            Some(ColumnValue::String(s)) => decimal_matches(r, s@),
            Some(ColumnValue::Json(_)) => r is None,
            None => r is None,
        },
{
    match value {
        Some(ColumnValue::Float(d)) => Some(*d),
        Some(ColumnValue::Integer(n)) => Some(Decimal::from_int(*n)),
        Some(ColumnValue::String(s)) => {
            let chars = crate::eval::chars_of(s.as_str());
            parse_decimal(chars.as_slice())
        },
        Some(ColumnValue::Json(_)) => None,
        None => None,
    }
}

} // verus!
