//! Evaluator for the filter DSL, proved against `crate::ast::spec_eval`.

use vstd::prelude::*;
use vstd::string::*;
use crate::ast::{
    CompareOp, FilterAst, TagValue, spec_contains_seq, spec_starts_with, spec_ends_with,
    spec_glob_match, spec_match_value, spec_is_numeric_char, spec_numeric_prefix,
    spec_numeric_value, spec_compare_op, spec_eval, spec_eval_all, spec_eval_any,
    spec_values_match,
};
use crate::numeric::{Decimal, parse_decimal, decimal_value_matches, dec_eq, dec_lt};
use crate::tags::TagMap;

verus! {

/// The characters of a string, in order.
pub fn chars_of(s: &str) -> (r: Vec<char>)
    ensures
        r@ == s@,
{
    let n = s.unicode_len();
    let mut out: Vec<char> = Vec::new();
    let mut i: usize = 0;
    while i < n
        invariant
            i <= n,
            n == s@.len(),
            out@ == s@.take(i as int),
        decreases n - i,
    {
        out.push(s.get_char(i));
        i = i + 1;
        proof {
            assert(out@ =~= s@.take(i as int));
        }
    }
    proof {
        assert(s@.take(n as int) =~= s@);
    }
    out
}

fn eq_chars(a: &[char], b: &[char]) -> (r: bool)
    ensures
        r == (a@ == b@),
{
    if a.len() != b.len() {
        proof {
            assert(a@.len() != b@.len());
        }
        return false;
    }
    let n = a.len();
    let mut i: usize = 0;
    while i < n
        invariant
            i <= n,
            n == a@.len() == b@.len(),
            forall|j: int| 0 <= j < i ==> a@[j] == b@[j],
        decreases n - i,
    {
        if a[i] != b[i] {
            return false;
        }
        i = i + 1;
    }
    proof {
        assert(a@ =~= b@);
    }
    true
}

fn starts_with_chars(hay: &[char], needle: &[char]) -> (r: bool)
    ensures
        r == spec_starts_with(hay@, needle@),
{
    if needle.len() > hay.len() {
        return false;
    }
    let head = vstd::slice::slice_subrange(hay, 0, needle.len());
    eq_chars(head, needle)
}

fn ends_with_chars(hay: &[char], needle: &[char]) -> (r: bool)
    ensures
        r == spec_ends_with(hay@, needle@),
{
    if needle.len() > hay.len() {
        return false;
    }
    let tail = vstd::slice::slice_subrange(hay, hay.len() - needle.len(), hay.len());
    eq_chars(tail, needle)
}

fn contains_chars(hay: &[char], needle: &[char]) -> (r: bool)
    ensures
        r == spec_contains_seq(hay@, needle@),
{
    if needle.len() > hay.len() {
        return false;
    }
    if needle.len() == 0 {
        proof {
            let ghost l = needle@.len() as int;
            assert(hay@.subrange(0, 0 + l) =~= needle@);
            assert(spec_contains_seq(hay@, needle@));
        }
        return true;
    }
    let hn = hay.len();
    let last_start = hay.len() - needle.len();
    let mut k: usize = 0;
    while k <= last_start
        invariant
            1 <= needle@.len() <= hay@.len(),
            hn == hay@.len(),
            last_start == hay@.len() - needle@.len(),
            k <= last_start + 1,
            forall|j: int|
                0 <= j < k ==> #[trigger] hay@.subrange(j, j + needle@.len()) != needle@,
        decreases last_start - k + 1,
    {
        let window = vstd::slice::slice_subrange(hay, k, k + needle.len());
        if eq_chars(window, needle) {
            return true;
        }
        k = k + 1;
    }
    proof {
        if spec_contains_seq(hay@, needle@) {
            let j = choose|j: int|
                0 <= j && j + needle@.len() <= hay@.len() && #[trigger] hay@.subrange(
                    j,
                    j + needle@.len(),
                ) == needle@;
            assert(hay@.subrange(j, j + needle@.len()) != needle@);
        }
    }
    false
}

/// Glob matching over strings: `*` at the start, the end, or both;
/// otherwise an exact comparison.
pub fn glob_match(pattern: &str, actual: &str) -> (r: bool)
    ensures
        r == spec_glob_match(pattern@, actual@),
{
    let p = chars_of(pattern);
    let a = chars_of(actual);
    let plen = p.len();
    if plen == 1 && p[0] == '*' {
        return true;
    }
    let starts_star = plen > 0 && p[0] == '*';
    let ends_star = plen > 0 && p[plen - 1] == '*';
    if starts_star && ends_star {
        let inner = vstd::slice::slice_subrange(p.as_slice(), 1, plen - 1);
        contains_chars(a.as_slice(), inner)
    } else if starts_star {
        let suffix = vstd::slice::slice_subrange(p.as_slice(), 1, plen);
        ends_with_chars(a.as_slice(), suffix)
    } else if ends_star {
        let prefix = vstd::slice::slice_subrange(p.as_slice(), 0, plen - 1);
        starts_with_chars(a.as_slice(), prefix)
    } else {
        eq_chars(a.as_slice(), p.as_slice())
    }
}

/// Match one value pattern against an actual tag value.
pub fn match_value(pattern: &TagValue, actual: &str) -> (r: bool)
    ensures
        r == spec_match_value(*pattern, actual@),
{
    match pattern {
        TagValue::Any => true,
        TagValue::Exact(expected) => crate::strnum::str_eq(expected.as_str(), actual),
        TagValue::Glob(p) => glob_match(p.as_str(), actual),
    }
}

proof fn lemma_numeric_prefix_take(s: Seq<char>, k: int)
    requires
        0 <= k <= s.len(),
        forall|j: int| 0 <= j < k ==> spec_is_numeric_char(#[trigger] s[j]),
        k == s.len() || !spec_is_numeric_char(s[k]),
    ensures
        spec_numeric_prefix(s) == s.take(k),
    decreases k,
{
    if k == 0 {
        assert(spec_numeric_prefix(s) =~= s.take(0));
    } else {
        assert(spec_is_numeric_char(s[0]));
        let rest = s.drop_first();
        assert forall|j: int| 0 <= j < k - 1 implies spec_is_numeric_char(#[trigger] rest[j]) by {
            assert(rest[j] == s[j + 1]);
        }
        if k - 1 < rest.len() {
            assert(rest[k - 1] == s[k]);
        }
        lemma_numeric_prefix_take(rest, k - 1);
        assert(spec_numeric_prefix(s) =~= s.take(k));
    }
}

/// Parse a numeric value from a tag: the whole value as a decimal literal
/// where it is one, else the leading run of digits, points and minus signs
/// (so `50 mph` reads as fifty and `1e3` as a thousand).
pub fn parse_numeric(s: &str) -> (r: Option<Decimal>)
    ensures
        decimal_value_matches(r, spec_numeric_value(s@)),
{
    let chars = chars_of(s);
    let whole = parse_decimal(chars.as_slice());
    if let Some(d) = whole {
        return Some(d);
    }
    let n = chars.len();
    let mut k: usize = 0;
    let mut done = false;
    while k < n && !done
        invariant
            k <= n,
            n == chars@.len(),
            chars@ == s@,
            forall|j: int| 0 <= j < k ==> spec_is_numeric_char(#[trigger] chars@[j]),
            done ==> k < n && !spec_is_numeric_char(chars@[k as int]),
        decreases n - k + (if done {
            0int
        } else {
            1int
        }),
    {
        let c = chars[k];
        let numeric = ('0' <= c && c <= '9') || c == '.' || c == '-';
        if !numeric {
            done = true;
        } else {
            k = k + 1;
        }
    }
    proof {
        lemma_numeric_prefix_take(s@, k as int);
    }
    let prefix = vstd::slice::slice_subrange(chars.as_slice(), 0, k);
    proof {
        assert(prefix@ =~= s@.take(k as int));
    }
    parse_decimal(prefix)
}

/// Apply a comparison operator to two decimals, exactly.
pub fn compare(op: CompareOp, left: &Decimal, right: &Decimal) -> (r: bool)
    ensures
        r == spec_compare_op(
            op,
            left.spec_mantissa() as int,
            left.spec_scale(),
            right.spec_mantissa() as int,
            right.spec_scale(),
        ),
{
    match op {
        CompareOp::Eq => dec_eq(left, right),
        CompareOp::Ne => !dec_eq(left, right),
        CompareOp::Lt => dec_lt(left, right),
        CompareOp::Le => dec_lt(left, right) || dec_eq(left, right),
        CompareOp::Gt => dec_lt(right, left),
        CompareOp::Ge => dec_lt(right, left) || dec_eq(left, right),
    }
}

/// Evaluate a filter against the tags of one element.
#[verifier::loop_isolation(false)]
pub fn evaluate_filter(ast: &FilterAst, tags: &TagMap) -> (r: bool)
    requires
        tags.wf(),
    ensures
        r == spec_eval(*ast, tags.as_map()),
    decreases *ast,
{
    match ast {
        FilterAst::True => true,
        FilterAst::TagExists { key, negated } => {
            let exists_key = tags.contains_key(key.as_str());
            if *negated {
                !exists_key
            } else {
                exists_key
            }
        },
        FilterAst::TagMatch { key, values } => {
            match tags.get(key.as_str()) {
                None => false,
                Some(actual) => {
                    let actual = actual.clone();
                    let n = values.len();
                    let mut i: usize = 0;
                    let mut found = false;
                    while i < n && !found
                        invariant
                            i <= n,
                            n == values@.len(),
                            tags.wf(),
                            actual@ == tags.as_map()[key@],
                            found ==> spec_values_match(values@, actual@),
                            !found ==> forall|j: int|
                                0 <= j < i ==> !spec_match_value(#[trigger] values@[j], actual@),
                        decreases n - i + (if found { 0int } else { 1int }),
                    {
                        if match_value(&values[i], actual.as_str()) {
                            found = true;
                        } else {
                            i = i + 1;
                        }
                    }
                    proof {
                        if !found {
                            if spec_values_match(values@, actual@) {
                                let j = choose|j: int|
                                    0 <= j < values@.len() && spec_match_value(
                                        #[trigger] values@[j],
                                        actual@,
                                    );
                                assert(!spec_match_value(values@[j], actual@));
                            }
                        }
                    }
                    found
                },
            }
        },
        FilterAst::NumericCompare { key, op, value } => {
            match tags.get(key.as_str()) {
                None => false,
                Some(actual) => {
                    match parse_numeric(actual.as_str()) {
                        None => false,
                        Some(actual_num) => compare(*op, &actual_num, value),
                    }
                },
            }
        },
        FilterAst::And(exprs) => {
            let n = exprs.len();
            let mut i: usize = 0;
            while i < n
                invariant
                    i <= n,
                    n == exprs@.len(),
                    tags.wf(),
                    forall|j: int| 0 <= j < i ==> spec_eval(#[trigger] exprs@[j], tags.as_map()),
                decreases n - i,
            {
                proof {
                    assert(decreases_to!(*ast => (*ast)->And_0));
                    assert(decreases_to!((*ast)->And_0 => (*ast)->And_0@));
                    assert(decreases_to!((*ast)->And_0@ => (*ast)->And_0@[i as int]));
                }
                if !evaluate_filter(&exprs[i], tags) {
                    proof {
                        assert(!spec_eval_all(exprs@, tags.as_map()));
                        assert(*ast == FilterAst::And(*exprs));
                    }
                    return false;
                }
                i = i + 1;
            }
            proof {
                assert(spec_eval_all(exprs@, tags.as_map()));
                assert(*ast == FilterAst::And(*exprs));
            }
            true
        },
        FilterAst::Or(exprs) => {
            let n = exprs.len();
            let mut i: usize = 0;
            while i < n
                invariant
                    i <= n,
                    n == exprs@.len(),
                    tags.wf(),
                    forall|j: int| 0 <= j < i ==> !spec_eval(#[trigger] exprs@[j], tags.as_map()),
                decreases n - i,
            {
                proof {
                    assert(decreases_to!(*ast => (*ast)->Or_0));
                    assert(decreases_to!((*ast)->Or_0 => (*ast)->Or_0@));
                    assert(decreases_to!((*ast)->Or_0@ => (*ast)->Or_0@[i as int]));
                }
                if evaluate_filter(&exprs[i], tags) {
                    proof {
                        assert(spec_eval_any(exprs@, tags.as_map()));
                        assert(*ast == FilterAst::Or(*exprs));
                    }
                    return true;
                }
                i = i + 1;
            }
            proof {
                if spec_eval_any(exprs@, tags.as_map()) {
                    let j = choose|j: int|
                        0 <= j < exprs@.len() && spec_eval(#[trigger] exprs@[j], tags.as_map());
                    assert(!spec_eval(exprs@[j], tags.as_map()));
                }
                assert(*ast == FilterAst::Or(*exprs));
            }
            false
        },
        FilterAst::Not(inner) => {
            proof {
                assert(decreases_to!(*ast => (*ast)->Not_0));
            }
            !evaluate_filter(&**inner, tags)
        },
    }
}

} // verus!
