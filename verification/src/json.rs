//! A small JSON document model and its serializer.
//!
//! The serializer is exact: `render_json` returns precisely the text
//! `spec_json` describes, with strings escaped as JSON requires.  Numbers
//! are integers or exact decimals — coordinates are rendered from their
//! fixed-point form, never through floating point.

use vstd::prelude::*;
use vstd::string::*;
use crate::numeric::{Decimal, spec_dec_string};
use crate::strnum::{spec_dec_i64, spec_digit, i64_to_dec, push_char, digit_char};

verus! {

/// A JSON value.
#[derive(Debug, PartialEq)]
pub enum JsonValue {
    Null,
    Bool(bool),
    /// An integer number.
    Int(i64),
    /// An exact decimal number.
    Num(Decimal),
    Str(String),
    Arr(Vec<JsonValue>),
    /// An object, with its members in insertion order.
    Obj(Vec<(String, JsonValue)>),
}

/// The escape of one character inside a JSON string literal.
pub open spec fn spec_esc_char(c: char) -> Seq<char> {
    if c == '"' {
        seq!['\\', '"']
    } else if c == '\\' {
        seq!['\\', '\\']
    } else if c == '\n' {
        seq!['\\', 'n']
    } else if c == '\r' {
        seq!['\\', 'r']
    } else if c == '\t' {
        seq!['\\', 't']
    } else if c == 8u8 as char {
        seq!['\\', 'b']
    } else if c == 12u8 as char {
        seq!['\\', 'f']
    } else if (c as u32) < 32 {
        seq!['\\', 'u', '0', '0', spec_digit(((c as u32) / 16) as nat), spec_hex_digit(
            ((c as u32) % 16) as nat,
        )]
    } else {
        seq![c]
    }
}

/// The hexadecimal digit for `d < 16`.
pub open spec fn spec_hex_digit(d: nat) -> char {
    if d < 10 {
        spec_digit(d)
    } else if d == 10 {
        'a'
    } else if d == 11 {
        'b'
    } else if d == 12 {
        'c'
    } else if d == 13 {
        'd'
    } else if d == 14 {
        'e'
    } else {
        'f'
    }
}

/// A whole string escaped for a JSON string literal.
pub open spec fn spec_escaped(s: Seq<char>) -> Seq<char>
    decreases s.len(),
{
    if s.len() == 0 {
        Seq::empty()
    } else {
        spec_escaped(s.drop_last()) + spec_esc_char(s.last())
    }
}

/// The text of a JSON string literal: quotes around the escaped text.
pub open spec fn spec_json_string(s: Seq<char>) -> Seq<char> {
    seq!['"'] + spec_escaped(s) + seq!['"']
}

/// The text of a JSON value.
pub open spec fn spec_json(v: JsonValue) -> Seq<char>
    decreases v, 2int,
{
    match v {
        JsonValue::Null => "null"@,
        JsonValue::Bool(b) => if b {
            "true"@
        } else {
            "false"@
        },
        JsonValue::Int(n) => spec_dec_i64(n as int),
        JsonValue::Num(d) => spec_dec_string(d.spec_mantissa() as int, d.spec_scale()),
        JsonValue::Str(s) => spec_json_string(s@),
        JsonValue::Arr(elems) => seq!['['] + spec_json_items(elems@) + seq![']'],
        JsonValue::Obj(members) => seq!['{'] + spec_json_members(members@) + seq!['}'],
    }
}

/// The comma-separated texts of array elements.
pub open spec fn spec_json_items(s: Seq<JsonValue>) -> Seq<char>
    decreases s, 1int,
{
    if s.len() == 0 {
        Seq::empty()
    } else if s.len() == 1 {
        spec_json(s.last())
    } else {
        spec_json_items(s.drop_last()) + seq![','] + spec_json(s.last())
    }
}

/// The comma-separated `"key":value` texts of object members.
pub open spec fn spec_json_members(s: Seq<(String, JsonValue)>) -> Seq<char>
    decreases s, 1int,
{
    if s.len() == 0 {
        Seq::empty()
    } else if s.len() == 1 {
        spec_json_string(s.last().0@) + seq![':'] + spec_json(s.last().1)
    } else {
        spec_json_members(s.drop_last()) + seq![','] + spec_json_string(s.last().0@) + seq![':']
            + spec_json(s.last().1)
    }
}

fn push_esc_char(out: &mut String, c: char)
    ensures
        final(out)@ == old(out)@ + spec_esc_char(c),
{
    if c == '"' {
        push_char(out, '\\');
        push_char(out, '"');
    } else if c == '\\' {
        push_char(out, '\\');
        push_char(out, '\\');
    } else if c == '\n' {
        push_char(out, '\\');
        push_char(out, 'n');
    } else if c == '\r' {
        push_char(out, '\\');
        push_char(out, 'r');
    } else if c == '\t' {
        push_char(out, '\\');
        push_char(out, 't');
    } else if c == (8u8 as char) {
        push_char(out, '\\');
        push_char(out, 'b');
    } else if c == (12u8 as char) {
        push_char(out, '\\');
        push_char(out, 'f');
    } else if (c as u32) < 32 {
        let v = c as u32;
        push_char(out, '\\');
        push_char(out, 'u');
        push_char(out, '0');
        push_char(out, '0');
        push_char(out, digit_char((v / 16) as u64));
        let low = v % 16;
        let lc: char = if low < 10 {
            digit_char(low as u64)
        } else if low == 10 {
            'a'
        } else if low == 11 {
            'b'
        } else if low == 12 {
            'c'
        } else if low == 13 {
            'd'
        } else if low == 14 {
            'e'
        } else {
            'f'
        };
        push_char(out, lc);
        proof {
            assert(out@ =~= old(out)@ + spec_esc_char(c));
        }
    } else {
        push_char(out, c);
    }
    proof {
        assert(out@ =~= old(out)@ + spec_esc_char(c));
    }
}

/// Append the escaped form of `s`.
fn push_escaped(out: &mut String, s: &str)
    ensures
        final(out)@ == old(out)@ + spec_escaped(s@),
{
    let chars = crate::eval::chars_of(s);
    let n = chars.len();
    let mut i: usize = 0;
    while i < n
        invariant
            i <= n,
            n == chars@.len(),
            chars@ == s@,
            out@ == old(out)@ + spec_escaped(s@.take(i as int)),
        decreases n - i,
    {
        push_esc_char(out, chars[i]);
        i = i + 1;
        proof {
            assert(s@.take(i as int).drop_last() =~= s@.take(i as int - 1));
            assert(s@.take(i as int).last() == s@[i as int - 1]);
        }
    }
    proof {
        assert(s@.take(n as int) =~= s@);
    }
}

/// Append a JSON string literal.
pub(crate) fn push_json_string(out: &mut String, s: &str)
    ensures
        final(out)@ == old(out)@ + spec_json_string(s@),
{
    push_char(out, '"');
    push_escaped(out, s);
    push_char(out, '"');
    proof {
        assert(out@ =~= old(out)@ + spec_json_string(s@));
    }
}

/// Append the text of a JSON value.
#[verifier::loop_isolation(false)]
#[verifier::rlimit(100)]
pub fn push_json(out: &mut String, v: &JsonValue)
    ensures
        final(out)@ == old(out)@ + spec_json(*v),
    decreases *v,
{
    match v {
        JsonValue::Null => {
            proof {
                reveal_strlit("null");
            }
            out.append("null");
        },
        JsonValue::Bool(b) => {
            proof {
                reveal_strlit("true");
                reveal_strlit("false");
            }
            if *b {
                out.append("true");
            } else {
                out.append("false");
            }
        },
        JsonValue::Int(n) => {
            let text = i64_to_dec(*n);
            out.append(text.as_str());
        },
        JsonValue::Num(d) => {
            let text = d.to_dec_string();
            out.append(text.as_str());
        },
        JsonValue::Str(s) => {
            push_json_string(out, s.as_str());
        },
        JsonValue::Arr(elems) => {
            push_char(out, '[');
            let n = elems.len();
            let mut i: usize = 0;
            while i < n
                invariant
                    i <= n,
                    n == elems@.len(),
                    out@ == old(out)@ + seq!['['] + spec_json_items(elems@.take(i as int)),
                decreases n - i,
            {
                if i > 0 {
                    push_char(out, ',');
                }
                proof {
                    assert(decreases_to!(*v => (*v)->Arr_0));
                    assert(decreases_to!((*v)->Arr_0 => (*v)->Arr_0@));
                    assert(decreases_to!((*v)->Arr_0@ => (*v)->Arr_0@[i as int]));
                }
                push_json(out, &elems[i]);
                i = i + 1;
                proof {
                    assert(elems@.take(i as int).drop_last() =~= elems@.take(i as int - 1));
                    assert(elems@.take(i as int).last() == elems@[i as int - 1]);
                    assert(out@ =~= old(out)@ + seq!['['] + spec_json_items(
                        elems@.take(i as int),
                    ));
                }
            }
            push_char(out, ']');
            proof {
                assert(elems@.take(n as int) =~= elems@);
                assert(out@ =~= old(out)@ + spec_json(*v));
            }
        },
        JsonValue::Obj(members) => {
            push_char(out, '{');
            let n = members.len();
            let mut i: usize = 0;
            while i < n
                invariant
                    i <= n,
                    n == members@.len(),
                    out@ == old(out)@ + seq!['{'] + spec_json_members(members@.take(i as int)),
                decreases n - i,
            {
                if i > 0 {
                    push_char(out, ',');
                }
                push_json_string(out, members[i].0.as_str());
                push_char(out, ':');
                proof {
                    assert(decreases_to!(*v => (*v)->Obj_0));
                    assert(decreases_to!((*v)->Obj_0 => (*v)->Obj_0@));
                    assert(decreases_to!((*v)->Obj_0@ => (*v)->Obj_0@[i as int]));
                    assert(decreases_to!((*v)->Obj_0@[i as int] => (*v)->Obj_0@[i as int].1));
                }
                push_json(out, &members[i].1);
                i = i + 1;
                proof {
                    assert(members@.take(i as int).drop_last() =~= members@.take(i as int - 1));
                    assert(members@.take(i as int).last() == members@[i as int - 1]);
                    assert(out@ =~= old(out)@ + seq!['{'] + spec_json_members(
                        members@.take(i as int),
                    ));
                }
            }
            push_char(out, '}');
            proof {
                assert(members@.take(n as int) =~= members@);
                assert(out@ =~= old(out)@ + spec_json(*v));
            }
        },
    }
}

/// The text of a JSON value.
pub fn render_json(v: &JsonValue) -> (r: String)
    ensures
        r@ == spec_json(*v),
{
    let mut out = String::new();
    push_json(&mut out, v);
    proof {
        assert(out@ =~= spec_json(*v));
    }
    out
}

} // verus!
