//! AST of the filter DSL, its mathematical evaluation, and `simplify`.
//!
//! `spec_eval` is the meaning of a filter over a tag map; the evaluator in
//! `crate::eval` and the simplifier here are both proved against it.
//! Numeric comparisons read the tag value as an exact decimal — the whole
//! value as a literal (exponents included) where it is one, else its
//! leading digits — with no floating point.

use vstd::prelude::*;
use crate::numeric::{Decimal, pow10, spec_is_digit, spec_decimal_of};

verus! {

/// A value pattern on the right of `key=`.
#[derive(Debug, Clone, PartialEq)]
pub enum TagValue {
    /// Exact string match.
    Exact(String),
    /// Wildcard: any value.
    Any,
    /// Glob pattern with `*` at the start, the end, or both.
    Glob(String),
}

/// Numeric comparison operator.
#[derive(Debug, Clone, Copy, PartialEq, Eq)]
pub enum CompareOp {
    Eq,
    Ne,
    Lt,
    Le,
    Gt,
    Ge,
}

/// Root filter expression.
#[derive(Debug, PartialEq)]
pub enum FilterAst {
    /// Tag existence check: `name` or `!name`.
    TagExists { key: String, negated: bool },
    /// Tag value match: `highway=primary` or `highway=primary|secondary`.
    TagMatch { key: String, values: Vec<TagValue> },
    /// Numeric comparison: `lanes>=2`, `maxspeed<50`.
    NumericCompare { key: String, op: CompareOp, value: Decimal },
    /// Boolean AND: `expr1 & expr2`.
    And(Vec<FilterAst>),
    /// Boolean OR: `expr1 | expr2`.
    Or(Vec<FilterAst>),
    /// Boolean NOT: `!expr`.
    Not(Box<FilterAst>),
    /// Always true: the empty filter.
    True,
}

// ---------------------------------------------------------------------------
// Meaning
// ---------------------------------------------------------------------------

/// `needle` occurs somewhere in `hay`.
pub open spec fn spec_contains_seq(hay: Seq<char>, needle: Seq<char>) -> bool {
    exists|k: int|
        0 <= k && k + needle.len() <= hay.len() && #[trigger] hay.subrange(k, k + needle.len())
            == needle
}

/// `hay` starts with `needle`.
pub open spec fn spec_starts_with(hay: Seq<char>, needle: Seq<char>) -> bool {
    needle.len() <= hay.len() && hay.subrange(0, needle.len() as int) == needle
}

/// `hay` ends with `needle`.
pub open spec fn spec_ends_with(hay: Seq<char>, needle: Seq<char>) -> bool {
    needle.len() <= hay.len() && hay.subrange(
        hay.len() - needle.len(),
        hay.len() as int,
    ) == needle
}

/// Glob matching with `*` at the start, the end, or both; a pattern without
/// a leading or trailing star matches exactly.
pub open spec fn spec_glob_match(p: Seq<char>, actual: Seq<char>) -> bool {
    if p.len() == 1 && p[0] == '*' {
        true
    } else {
        let starts_star = p.len() > 0 && p[0] == '*';
        let ends_star = p.len() > 0 && p[p.len() - 1] == '*';
        if starts_star && ends_star {
            spec_contains_seq(actual, p.subrange(1, p.len() - 1))
        } else if starts_star {
            spec_ends_with(actual, p.subrange(1, p.len() as int))
        } else if ends_star {
            spec_starts_with(actual, p.subrange(0, p.len() - 1))
        } else {
            actual == p
        }
    }
}

/// Whether some pattern in the list matches the tag value.
pub open spec fn spec_values_match(values: Seq<TagValue>, actual: Seq<char>) -> bool {
    exists|i: int| 0 <= i < values.len() && spec_match_value(#[trigger] values[i], actual)
}

/// Whether one value pattern matches an actual tag value.
pub open spec fn spec_match_value(pattern: TagValue, actual: Seq<char>) -> bool {
    match pattern {
        TagValue::Any => true,
        TagValue::Exact(expected) => actual == expected@,
        TagValue::Glob(p) => spec_glob_match(p@, actual),
    }
}

/// Whether `c` can belong to the numeric prefix of a tag value.
pub open spec fn spec_is_numeric_char(c: char) -> bool {
    spec_is_digit(c) || c == '.' || c == '-'
}

/// The longest prefix of digits, points and minus signs.
pub open spec fn spec_numeric_prefix(s: Seq<char>) -> Seq<char>
    decreases s.len(),
{
    if s.len() > 0 && spec_is_numeric_char(s[0]) {
        seq![s[0]] + spec_numeric_prefix(s.drop_first())
    } else {
        Seq::empty()
    }
}

/// The decimal a tag value denotes: the whole value read as a decimal
/// literal where it is one, else its numeric prefix (so `50 mph` reads as
/// fifty and `1e3` as a thousand).
pub open spec fn spec_numeric_value(s: Seq<char>) -> Option<(int, nat)> {
    match spec_decimal_of(s) {
        Some(v) => Some(v),
        None => spec_decimal_of(spec_numeric_prefix(s)),
    }
}

/// `m1/10^f1 == m2/10^f2`.
pub open spec fn spec_rat_eq(m1: int, f1: nat, m2: int, f2: nat) -> bool {
    m1 * pow10(f2) == m2 * pow10(f1)
}

/// `m1/10^f1 < m2/10^f2`.
pub open spec fn spec_rat_lt(m1: int, f1: nat, m2: int, f2: nat) -> bool {
    m1 * pow10(f2) < m2 * pow10(f1)
}

/// One comparison operator applied to two rationals.
pub open spec fn spec_compare_op(op: CompareOp, m1: int, f1: nat, m2: int, f2: nat) -> bool {
    match op {
        CompareOp::Eq => spec_rat_eq(m1, f1, m2, f2),
        CompareOp::Ne => !spec_rat_eq(m1, f1, m2, f2),
        CompareOp::Lt => spec_rat_lt(m1, f1, m2, f2),
        CompareOp::Le => spec_rat_lt(m1, f1, m2, f2) || spec_rat_eq(m1, f1, m2, f2),
        CompareOp::Gt => spec_rat_lt(m2, f2, m1, f1),
        CompareOp::Ge => spec_rat_lt(m2, f2, m1, f1) || spec_rat_eq(m1, f1, m2, f2),
    }
}

/// The meaning of a numeric comparison against a tag map.
pub open spec fn spec_numeric_compare(
    tags: Map<Seq<char>, Seq<char>>,
    key: Seq<char>,
    op: CompareOp,
    value: Decimal,
) -> bool {
    if !tags.contains_key(key) {
        false
    } else {
        match spec_numeric_value(tags[key]) {
            None => false,
            Some((m, f)) => spec_compare_op(op, m, f, value.spec_mantissa() as int, value.spec_scale()),
        }
    }
}

/// The meaning of a filter over a tag map.
pub open spec fn spec_eval(ast: FilterAst, tags: Map<Seq<char>, Seq<char>>) -> bool
    decreases ast, 1int,
{
    match ast {
        FilterAst::True => true,
        FilterAst::TagExists { key, negated } => {
            if negated {
                !tags.contains_key(key@)
            } else {
                tags.contains_key(key@)
            }
        },
        FilterAst::TagMatch { key, values } => tags.contains_key(key@) && spec_values_match(
            values@,
            tags[key@],
        ),
        FilterAst::NumericCompare { key, op, value } => spec_numeric_compare(
            tags,
            key@,
            op,
            value,
        ),
        FilterAst::And(exprs) => spec_eval_all(exprs@, tags),
        FilterAst::Or(exprs) => spec_eval_any(exprs@, tags),
        FilterAst::Not(inner) => !spec_eval(*inner, tags),
    }
}

/// Every filter in the sequence holds.
pub open spec fn spec_eval_all(s: Seq<FilterAst>, tags: Map<Seq<char>, Seq<char>>) -> bool
    decreases s, 0int,
{
    forall|i: int| 0 <= i < s.len() ==> spec_eval(#[trigger] s[i], tags)
}

/// Some filter in the sequence holds.
pub open spec fn spec_eval_any(s: Seq<FilterAst>, tags: Map<Seq<char>, Seq<char>>) -> bool
    decreases s, 0int,
{
    exists|i: int| 0 <= i < s.len() && spec_eval(#[trigger] s[i], tags)
}

pub(crate) proof fn lemma_eval_all_push(s: Seq<FilterAst>, x: FilterAst, tags: Map<Seq<char>, Seq<char>>)
    ensures
        spec_eval_all(s.push(x), tags) == (spec_eval_all(s, tags) && spec_eval(x, tags)),
{
    assert(s.push(x)[s.len() as int] == x);
    assert(forall|i: int| 0 <= i < s.len() ==> s.push(x)[i] == s[i]);
}

pub(crate) proof fn lemma_eval_any_push(s: Seq<FilterAst>, x: FilterAst, tags: Map<Seq<char>, Seq<char>>)
    ensures
        spec_eval_any(s.push(x), tags) == (spec_eval_any(s, tags) || spec_eval(x, tags)),
{
    assert(s.push(x)[s.len() as int] == x);
    assert(forall|i: int| 0 <= i < s.len() ==> s.push(x)[i] == s[i]);
    if spec_eval_any(s.push(x), tags) {
        let i = choose|i: int| 0 <= i < s.push(x).len() && spec_eval(s.push(x)[i], tags);
        if i < s.len() {
            assert(spec_eval(s[i], tags));
        }
    }
}

proof fn lemma_eval_all_concat(a: Seq<FilterAst>, b: Seq<FilterAst>, tags: Map<Seq<char>, Seq<char>>)
    ensures
        spec_eval_all(a + b, tags) == (spec_eval_all(a, tags) && spec_eval_all(b, tags)),
{
    assert(forall|i: int| 0 <= i < a.len() ==> (a + b)[i] == a[i]);
    assert(forall|i: int| 0 <= i < b.len() ==> (a + b)[a.len() + i] == b[i]);
    if spec_eval_all(a + b, tags) {
        assert forall|i: int| 0 <= i < a.len() implies spec_eval(#[trigger] a[i], tags) by {
            assert(spec_eval((a + b)[i], tags));
        }
        assert forall|i: int| 0 <= i < b.len() implies spec_eval(#[trigger] b[i], tags) by {
            assert(spec_eval((a + b)[a.len() + i], tags));
        }
    }
    if spec_eval_all(a, tags) && spec_eval_all(b, tags) {
        assert forall|i: int| 0 <= i < (a + b).len() implies spec_eval(#[trigger] (a + b)[i], tags) by {
            if i < a.len() {
                assert(spec_eval(a[i], tags));
            } else {
                assert(spec_eval(b[i - a.len()], tags));
            }
        }
    }
}

proof fn lemma_eval_any_concat(a: Seq<FilterAst>, b: Seq<FilterAst>, tags: Map<Seq<char>, Seq<char>>)
    ensures
        spec_eval_any(a + b, tags) == (spec_eval_any(a, tags) || spec_eval_any(b, tags)),
{
    assert(forall|i: int| 0 <= i < a.len() ==> (a + b)[i] == a[i]);
    assert(forall|i: int| 0 <= i < b.len() ==> (a + b)[a.len() + i] == b[i]);
    if spec_eval_any(a + b, tags) {
        let i = choose|i: int| 0 <= i < (a + b).len() && spec_eval((a + b)[i], tags);
        if i < a.len() {
            assert(spec_eval(a[i], tags));
        } else {
            assert(spec_eval(b[i - a.len()], tags));
        }
    }
    if spec_eval_any(a, tags) {
        let i = choose|i: int| 0 <= i < a.len() && spec_eval(a[i], tags);
        assert(spec_eval((a + b)[i], tags));
    }
    if spec_eval_any(b, tags) {
        let i = choose|i: int| 0 <= i < b.len() && spec_eval(b[i], tags);
        assert(spec_eval((a + b)[a.len() + i], tags));
    }
}

// ---------------------------------------------------------------------------
// Simplification
// ---------------------------------------------------------------------------

/// No `Or` node anywhere in the filter has an empty disjunct list.  The
/// parser and the structured-filter converter never build one; on such a
/// filter (`Or` of nothing evaluates to false but simplifies away) the
/// simplification law below does not apply.
pub open spec fn spec_no_empty_or(ast: FilterAst) -> bool
    decreases ast,
{
    match ast {
        FilterAst::And(exprs) => forall|i: int|
            0 <= i < exprs@.len() ==> spec_no_empty_or(#[trigger] exprs@[i]),
        FilterAst::Or(exprs) => exprs@.len() > 0 && forall|i: int|
            0 <= i < exprs@.len() ==> spec_no_empty_or(#[trigger] exprs@[i]),
        FilterAst::Not(inner) => spec_no_empty_or(*inner),
        _ => true,
    }
}

/// The shape `simplify` leaves behind: every `And` and `Or` node has at
/// least two children, none the same connective again, no `True` conjunct
/// inside an `And`, and single-child nodes are unwrapped.
pub open spec fn spec_simplified(ast: FilterAst) -> bool
    decreases ast,
{
    match ast {
        FilterAst::And(exprs) => exprs@.len() >= 2 && forall|i: int|
            0 <= i < exprs@.len() ==> (!(#[trigger] exprs@[i] is And) && !(exprs@[i] is True)
                && spec_simplified(exprs@[i])),
        FilterAst::Or(exprs) => exprs@.len() >= 2 && forall|i: int|
            0 <= i < exprs@.len() ==> (!(#[trigger] exprs@[i] is Or) && spec_simplified(exprs@[i])),
        FilterAst::Not(inner) => spec_simplified(*inner),
        _ => true,
    }
}

/// A simplified filter in particular has no empty disjunct list.
pub proof fn lemma_simplified_no_empty_or(ast: FilterAst)
    requires
        spec_simplified(ast),
    ensures
        spec_no_empty_or(ast),
    decreases ast,
{
    match ast {
        FilterAst::And(exprs) => {
            assert forall|i: int|
                0 <= i < exprs@.len() implies spec_no_empty_or(#[trigger] exprs@[i]) by {
                lemma_simplified_no_empty_or(exprs@[i]);
            }
        },
        FilterAst::Or(exprs) => {
            assert forall|i: int|
                0 <= i < exprs@.len() implies spec_no_empty_or(#[trigger] exprs@[i]) by {
                lemma_simplified_no_empty_or(exprs@[i]);
            }
        },
        FilterAst::Not(inner) => {
            lemma_simplified_no_empty_or(*inner);
        },
        _ => {},
    }
}

impl FilterAst {
    /// Flatten nested `And`/`Or` and drop `True` conjuncts.
    ///
    /// Law: on a filter without empty disjunct lists, simplification never
    /// changes what the filter means — the result evaluates exactly as the
    /// input on every tag map.
    #[verifier::loop_isolation(false)]
    pub fn simplify(self) -> (r: FilterAst)
        ensures
            spec_no_empty_or(self) ==> forall|t: Map<Seq<char>, Seq<char>>|
                #[trigger] spec_eval(r, t) == spec_eval(self, t),
            spec_no_empty_or(self) ==> spec_simplified(r),
        decreases self,
    {
        match self {
            FilterAst::And(exprs) => {
                let ghost evec = exprs;
                let ghost orig = exprs@;
                proof {
                    assert(decreases_to!(self => self->And_0));
                    assert(decreases_to!(evec => evec@));
                }
                let mut flat: Vec<FilterAst> = Vec::new();
                let mut rest = exprs;
                proof {
                    assert(rest@ =~= orig.skip(0));
                }
                let ghost mut k: int = 0;
                while rest.len() > 0
                    invariant
                        0 <= k <= orig.len(),
                        rest@ == orig.skip(k),
                        spec_no_empty_or(self) ==> forall|t: Map<Seq<char>, Seq<char>>|
                            #[trigger] spec_eval_all(flat@, t) == spec_eval_all(orig.take(k), t),
                        spec_no_empty_or(self) ==> forall|j: int|
                            0 <= j < flat@.len() ==> (!(#[trigger] flat@[j] is And) && !(flat@[j]
                                is True) && spec_simplified(flat@[j])),
                    decreases rest@.len(),
                {
                    let e = rest.remove(0);
                    proof {
                        assert(orig.skip(k)[0] == orig[k]);
                        assert(e == orig[k]);
                        assert(rest@ =~= orig.skip(k + 1));
                        assert(decreases_to!(orig => orig[k]));
                        assert(decreases_to!(self => e));
                    }
                    let s = e.simplify();
                    let ghost s_spec = s;
                    let ghost flat_before = flat@;
                    match s {
                        FilterAst::And(inner) => {
                            let ghost inner_view = inner@;
                            let mut inner = inner;
                            flat.append(&mut inner);
                            proof {
                                assert(flat@ =~= flat_before + inner_view);
                                if spec_no_empty_or(self) {
                                    assert(spec_no_empty_or(orig[k]));
                                    assert(spec_simplified(s_spec));
                                    assert forall|j: int|
                                        0 <= j < flat@.len() implies (!(#[trigger] flat@[j]
                                        is And) && !(flat@[j] is True) && spec_simplified(
                                        flat@[j],
                                    )) by {
                                        if j >= flat_before.len() {
                                            assert(flat@[j] == inner_view[j - flat_before.len()]);
                                        } else {
                                            assert(flat@[j] == flat_before[j]);
                                        }
                                    }
                                    assert forall|t: Map<Seq<char>, Seq<char>>|
                                        #[trigger] spec_eval_all(flat@, t) == spec_eval_all(
                                        orig.take(k + 1),
                                        t,
                                    ) by {
                                        lemma_eval_all_concat(flat_before, inner_view, t);
                                        assert(spec_eval(s_spec, t) == spec_eval(orig[k], t));
                                        assert(orig.take(k + 1) =~= orig.take(k).push(orig[k]));
                                        lemma_eval_all_push(orig.take(k), orig[k], t);
                                    }
                                }
                            }
                        },
                        FilterAst::True => {
                            proof {
                                if spec_no_empty_or(self) {
                                    assert(spec_no_empty_or(orig[k]));
                                    assert forall|t: Map<Seq<char>, Seq<char>>|
                                        #[trigger] spec_eval_all(flat@, t) == spec_eval_all(
                                        orig.take(k + 1),
                                        t,
                                    ) by {
                                        assert(spec_eval(s_spec, t));
                                        assert(orig.take(k + 1) =~= orig.take(k).push(orig[k]));
                                        lemma_eval_all_push(orig.take(k), orig[k], t);
                                    }
                                }
                            }
                        },
                        other => {
                            let ghost pushed = other;
                            flat.push(other);
                            proof {
                                assert(flat@ =~= flat_before.push(pushed));
                                if spec_no_empty_or(self) {
                                    assert(spec_no_empty_or(orig[k]));
                                    assert(spec_simplified(pushed));
                                    assert forall|j: int|
                                        0 <= j < flat@.len() implies (!(#[trigger] flat@[j]
                                        is And) && !(flat@[j] is True) && spec_simplified(
                                        flat@[j],
                                    )) by {
                                        if j < flat_before.len() {
                                            assert(flat@[j] == flat_before[j]);
                                        } else {
                                            assert(flat@[j] == pushed);
                                        }
                                    }
                                    assert forall|t: Map<Seq<char>, Seq<char>>|
                                        #[trigger] spec_eval_all(flat@, t) == spec_eval_all(
                                        orig.take(k + 1),
                                        t,
                                    ) by {
                                        lemma_eval_all_push(flat_before, pushed, t);
                                        assert(spec_eval(pushed, t) == spec_eval(orig[k], t));
                                        assert(orig.take(k + 1) =~= orig.take(k).push(orig[k]));
                                        lemma_eval_all_push(orig.take(k), orig[k], t);
                                    }
                                }
                            }
                        },
                    }
                    proof {
                        k = k + 1;
                    }
                }
                proof {
                    assert(orig.take(k) =~= orig);
                    assert(self == FilterAst::And(evec));
                    assert(forall|t: Map<Seq<char>, Seq<char>>|
                        #[trigger] spec_eval(self, t) == spec_eval_all(orig, t));
                }
                if flat.len() == 0 {
                    proof {
                        if spec_no_empty_or(self) {
                            assert forall|t: Map<Seq<char>, Seq<char>>|
                                #[trigger] spec_eval(FilterAst::True, t) == spec_eval(self, t) by {
                                assert(spec_eval_all(flat@, t));
                                assert(spec_eval_all(orig.take(k), t));
                            }
                        }
                    }
                    FilterAst::True
                } else if flat.len() == 1 {
                    let ghost flat_view = flat@;
                    let single = flat.remove(0);
                    proof {
                        if spec_no_empty_or(self) {
                            assert(flat_view[0] == single);
                            assert(spec_simplified(single));
                            assert forall|t: Map<Seq<char>, Seq<char>>|
                                #[trigger] spec_eval(single, t) == spec_eval(self, t) by {
                                if spec_eval(single, t) {
                                    assert forall|i: int|
                                        0 <= i < flat_view.len() implies spec_eval(
                                        #[trigger] flat_view[i],
                                        t,
                                    ) by {
                                        assert(flat_view[i] == single);
                                    }
                                    assert(spec_eval_all(flat_view, t));
                                } else {
                                    assert(!spec_eval(flat_view[0], t));
                                    assert(!spec_eval_all(flat_view, t));
                                }
                            }
                        }
                    }
                    single
                } else {
                    let ghost flat_view = flat@;
                    let result = FilterAst::And(flat);
                    proof {
                        if spec_no_empty_or(self) {
                            assert forall|t: Map<Seq<char>, Seq<char>>|
                                #[trigger] spec_eval(result, t) == spec_eval(self, t) by {
                                assert(spec_eval(result, t) == spec_eval_all(flat_view, t));
                                assert(spec_eval_all(flat_view, t) == spec_eval_all(
                                    orig.take(k),
                                    t,
                                ));
                            }
                        }
                    }
                    result
                }
            },
            FilterAst::Or(exprs) => {
                let ghost evec = exprs;
                let ghost orig = exprs@;
                proof {
                    assert(decreases_to!(self => self->Or_0));
                    assert(decreases_to!(evec => evec@));
                }
                let mut flat: Vec<FilterAst> = Vec::new();
                let mut rest = exprs;
                proof {
                    assert(rest@ =~= orig.skip(0));
                }
                let ghost mut k: int = 0;
                while rest.len() > 0
                    invariant
                        0 <= k <= orig.len(),
                        rest@ == orig.skip(k),
                        spec_no_empty_or(self) ==> forall|t: Map<Seq<char>, Seq<char>>|
                            #[trigger] spec_eval_any(flat@, t) == spec_eval_any(orig.take(k), t),
                        spec_no_empty_or(self) ==> forall|j: int|
                            0 <= j < flat@.len() ==> (!(#[trigger] flat@[j] is Or) && spec_simplified(
                                flat@[j],
                            )),
                        spec_no_empty_or(self) ==> flat@.len() >= k,
                    decreases rest@.len(),
                {
                    let e = rest.remove(0);
                    proof {
                        assert(orig.skip(k)[0] == orig[k]);
                        assert(e == orig[k]);
                        assert(rest@ =~= orig.skip(k + 1));
                        assert(decreases_to!(orig => orig[k]));
                        assert(decreases_to!(self => e));
                    }
                    let s = e.simplify();
                    let ghost s_spec = s;
                    let ghost flat_before = flat@;
                    match s {
                        FilterAst::Or(inner) => {
                            let ghost inner_view = inner@;
                            let mut inner = inner;
                            flat.append(&mut inner);
                            proof {
                                assert(flat@ =~= flat_before + inner_view);
                                if spec_no_empty_or(self) {
                                    assert(spec_no_empty_or(orig[k]));
                                    assert(spec_simplified(s_spec));
                                    assert(inner_view.len() >= 2);
                                    assert forall|j: int|
                                        0 <= j < flat@.len() implies (!(#[trigger] flat@[j]
                                        is Or) && spec_simplified(flat@[j])) by {
                                        if j >= flat_before.len() {
                                            assert(flat@[j] == inner_view[j - flat_before.len()]);
                                        } else {
                                            assert(flat@[j] == flat_before[j]);
                                        }
                                    }
                                    assert forall|t: Map<Seq<char>, Seq<char>>|
                                        #[trigger] spec_eval_any(flat@, t) == spec_eval_any(
                                        orig.take(k + 1),
                                        t,
                                    ) by {
                                        lemma_eval_any_concat(flat_before, inner_view, t);
                                        assert(spec_eval(s_spec, t) == spec_eval(orig[k], t));
                                        assert(orig.take(k + 1) =~= orig.take(k).push(orig[k]));
                                        lemma_eval_any_push(orig.take(k), orig[k], t);
                                    }
                                }
                            }
                        },
                        other => {
                            let ghost pushed = other;
                            flat.push(other);
                            proof {
                                assert(flat@ =~= flat_before.push(pushed));
                                if spec_no_empty_or(self) {
                                    assert(spec_no_empty_or(orig[k]));
                                    assert(spec_simplified(pushed));
                                    assert forall|j: int|
                                        0 <= j < flat@.len() implies (!(#[trigger] flat@[j]
                                        is Or) && spec_simplified(flat@[j])) by {
                                        if j < flat_before.len() {
                                            assert(flat@[j] == flat_before[j]);
                                        } else {
                                            assert(flat@[j] == pushed);
                                        }
                                    }
                                    assert forall|t: Map<Seq<char>, Seq<char>>|
                                        #[trigger] spec_eval_any(flat@, t) == spec_eval_any(
                                        orig.take(k + 1),
                                        t,
                                    ) by {
                                        lemma_eval_any_push(flat_before, pushed, t);
                                        assert(spec_eval(pushed, t) == spec_eval(orig[k], t));
                                        assert(orig.take(k + 1) =~= orig.take(k).push(orig[k]));
                                        lemma_eval_any_push(orig.take(k), orig[k], t);
                                    }
                                }
                            }
                        },
                    }
                    proof {
                        k = k + 1;
                    }
                }
                proof {
                    assert(orig.take(k) =~= orig);
                    assert(self == FilterAst::Or(evec));
                    assert(forall|t: Map<Seq<char>, Seq<char>>|
                        #[trigger] spec_eval(self, t) == spec_eval_any(orig, t));
                }
                if flat.len() == 0 {
                    proof {
                        if spec_no_empty_or(self) {
                            assert(orig.len() > 0);
                            assert(false);
                        }
                    }
                    FilterAst::True
                } else if flat.len() == 1 {
                    let ghost flat_view = flat@;
                    let single = flat.remove(0);
                    proof {
                        if spec_no_empty_or(self) {
                            assert(flat_view[0] == single);
                            assert(spec_simplified(single));
                            assert forall|t: Map<Seq<char>, Seq<char>>|
                                #[trigger] spec_eval(single, t) == spec_eval(self, t) by {
                                if spec_eval(single, t) {
                                    assert(spec_eval_any(flat_view, t));
                                } else {
                                    if spec_eval_any(flat_view, t) {
                                        let i = choose|i: int|
                                            0 <= i < flat_view.len() && spec_eval(
                                                flat_view[i],
                                                t,
                                            );
                                        assert(flat_view[i] == single);
                                    }
                                }
                            }
                        }
                    }
                    single
                } else {
                    let ghost flat_view = flat@;
                    let result = FilterAst::Or(flat);
                    proof {
                        if spec_no_empty_or(self) {
                            assert(spec_simplified(result));
                            assert forall|t: Map<Seq<char>, Seq<char>>|
                                #[trigger] spec_eval(result, t) == spec_eval(self, t) by {
                                assert(spec_eval(result, t) == spec_eval_any(flat_view, t));
                                assert(spec_eval_any(flat_view, t) == spec_eval_any(
                                    orig.take(k),
                                    t,
                                ));
                            }
                        }
                    }
                    result
                }
            },
            FilterAst::Not(inner) => {
                let ghost inner_spec = *inner;
                proof {
                    assert(decreases_to!(self => self->Not_0));
                }
                let simplified = (*inner).simplify();
                let ghost simp_spec = simplified;
                let result = FilterAst::Not(Box::new(simplified));
                proof {
                    if spec_no_empty_or(self) {
                        assert(spec_no_empty_or(inner_spec));
                        assert(spec_simplified(result));
                        assert forall|t: Map<Seq<char>, Seq<char>>|
                            #[trigger] spec_eval(result, t) == spec_eval(self, t) by {
                            assert(spec_eval(result, t) == !spec_eval(simp_spec, t));
                            assert(spec_eval(simp_spec, t) == spec_eval(inner_spec, t));
                        }
                    }
                }
                result
            },
            other => other,
        }
    }
}

} // verus!
