//! Mapping rules for derived columns: first-match-wins classification of an
//! element's tags.

use vstd::prelude::*;
use vstd::string::*;
use crate::ast::{FilterAst, spec_eval, spec_simplified, spec_no_empty_or};
use crate::eval::evaluate_filter;
use crate::parser::parse_filter;
use crate::tags::TagMap;
use crate::CosmoError;

verus! {

/// A raw mapping rule: a filter expression and the value it yields.
#[derive(Debug)]
pub struct MappingRule {
    /// The filter expression, in the DSL.
    pub match_expr: String,
    /// The value to return if this rule matches.
    pub value: String,
}

/// A raw mapping: ordered rules and an optional fallback value.
#[derive(Debug)]
pub struct MappingConfig {
    pub rules: Vec<MappingRule>,
    pub default: Option<String>,
}

/// A compiled mapping rule.
#[derive(Debug)]
pub struct CompiledRule {
    pub filter: FilterAst,
    pub value: String,
}

/// A compiled mapping with ordered rules.
#[derive(Debug)]
pub struct Mapping {
    pub rules: Vec<CompiledRule>,
    pub default: Option<String>,
}

/// The value of the first rule whose filter holds of the tags.
pub open spec fn spec_first_match(
    rules: Seq<CompiledRule>,
    tags: Map<Seq<char>, Seq<char>>,
) -> Option<Seq<char>>
    decreases rules.len(),
{
    if rules.len() == 0 {
        None
    } else if spec_eval(rules[0].filter, tags) {
        Some(rules[0].value@)
    } else {
        spec_first_match(rules.drop_first(), tags)
    }
}

/// What a mapping yields: the first matching rule's value, else the
/// default, else nothing.
pub open spec fn spec_mapping_value(m: Mapping, tags: Map<Seq<char>, Seq<char>>) -> Option<
    Seq<char>,
> {
    match spec_first_match(m.rules@, tags) {
        Some(v) => Some(v),
        None => match m.default {
            Some(d) => Some(d@),
            None => None,
        },
    }
}

impl Mapping {
    /// Compile a mapping: parse each rule's filter expression.  Succeeds
    /// exactly when every rule parses; the compiled rules keep their order
    /// and values, and every compiled filter is simplified.
    pub fn compile(name: String, config: &MappingConfig) -> (r: Result<Mapping, CosmoError>)
        ensures
            config.rules@.len() == 0 ==> r is Ok,
            r matches Err(e) ==> e is Config,
            r matches Ok(m) ==> {
                &&& m.rules@.len() == config.rules@.len()
                &&& forall|i: int|
                    0 <= i < m.rules@.len() ==> (#[trigger] m.rules@[i]).value
                        == config.rules@[i].value && spec_simplified(m.rules@[i].filter)
                        && spec_no_empty_or(m.rules@[i].filter)
                &&& m.default == config.default
            },
    {
        let n = config.rules.len();
        let mut rules: Vec<CompiledRule> = Vec::new();
        let mut i: usize = 0;
        while i < n
            invariant
                i <= n,
                n == config.rules@.len(),
                rules@.len() == i,
                forall|j: int|
                    0 <= j < i ==> (#[trigger] rules@[j]).value == config.rules@[j].value
                        && spec_simplified(rules@[j].filter) && spec_no_empty_or(rules@[j].filter),
            decreases n - i,
        {
            let rule = &config.rules[i];
            let filter = match parse_filter(rule.match_expr.as_str()) {
                Ok(f) => f,
                Err(e) => {
                    let mut msg = String::from_str("error parsing a rule in mapping '");
                    msg.append(name.as_str());
                    msg.append("': ");
                    msg.append(e.as_str());
                    return Err(CosmoError::Config(msg));
                },
            };
            rules.push(CompiledRule { filter, value: rule.value.clone() });
            i = i + 1;
        }
        let default = match &config.default {
            Some(d) => Some(d.clone()),
            None => None,
        };
        Ok(Mapping { rules, default })
    }
}

/// Evaluate a mapping against tags: the first matching rule wins, the
/// default is the fallback.
pub fn evaluate_mapping(mapping: &Mapping, tags: &TagMap) -> (r: Option<String>)
    requires
        tags.wf(),
    ensures
        match spec_mapping_value(*mapping, tags.as_map()) {
            Some(v) => r matches Some(s) && s@ == v,
            None => r is None,
        },
{
    let n = mapping.rules.len();
    let mut i: usize = 0;
    proof {
        assert(mapping.rules@.skip(0) =~= mapping.rules@);
    }
    while i < n
        invariant
            i <= n,
            n == mapping.rules@.len(),
            tags.wf(),
            spec_first_match(mapping.rules@, tags.as_map()) == spec_first_match(
                mapping.rules@.skip(i as int),
                tags.as_map(),
            ),
        decreases n - i,
    {
        proof {
            assert(mapping.rules@.skip(i as int)[0] == mapping.rules@[i as int]);
            assert(mapping.rules@.skip(i as int).drop_first() =~= mapping.rules@.skip(
                i as int + 1,
            ));
        }
        if evaluate_filter(&mapping.rules[i].filter, tags) {
            return Some(mapping.rules[i].value.clone());
        }
        i = i + 1;
    }
    proof {
        assert(mapping.rules@.skip(n as int) =~= Seq::<CompiledRule>::empty());
    }
    match &mapping.default {
        Some(d) => Some(d.clone()),
        None => None,
    }
}

} // verus!
