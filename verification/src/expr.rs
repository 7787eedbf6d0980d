//! Expression columns: compilation and evaluation of CEL programs, through
//! the outside interpreter.

use vstd::prelude::*;
use vstd::string::*;
use std::collections::HashMap;
use crate::tags::TagMap;
use crate::CosmoError;

verus! {

#[verifier::external_type_specification]
#[verifier::external_body]
pub struct ExCelProgram(cel::Program);

#[verifier::external_type_specification]
#[verifier::external_body]
pub struct ExCelValue(cel::Value);

#[verifier::external_type_specification]
#[verifier::external_body]
pub struct ExCelExecutionError(cel::ExecutionError);

/// A compiled CEL program, with the source it was compiled from.
#[derive(Debug)]
pub struct CelProgram {
    program: cel::Program,
    source: String,
}

/// The variables a CEL evaluation sees: the element's tags and metadata,
/// both as string maps.
pub struct CelContext<'a> {
    pub tags: &'a HashMap<String, String>,
    pub meta: &'a HashMap<String, String>,
}

/// Whether a CEL source string compiles: a function of the source alone.
pub uninterp spec fn cel_compiles(source: Seq<char>) -> bool;

/// Relies on `cel::Program::compile`: parses a CEL source string, a
/// deterministic function of the source.
#[verifier::external_body]
fn cel_compile_raw(source: &str) -> (r: Result<cel::Program, String>)
    ensures
        r is Ok <==> cel_compiles(source@),
{
    cel::Program::compile(source).map_err(|e| format!("CEL compile error: {}", e))
}

/// Relies on `cel::Context` and `cel::Program::execute`: evaluates the
/// program with the two maps bound as its variables.  Nothing is promised
/// of the value: the display of a compound result walks a hash map whose
/// order differs between processes, so the outcome cannot be named as a
/// function of the inputs.
#[verifier::external_body]
fn cel_execute_raw(
    program: &cel::Program,
    tags: &HashMap<String, String>,
    meta: &HashMap<String, String>,
) -> (r: Result<cel::Value, String>) {
    let mut ctx = cel::Context::default();
    ctx.add_variable_from_value("tags", tags.clone());
    ctx.add_variable_from_value("meta", meta.clone());
    program.execute(&ctx).map_err(|e| format!("CEL execution error: {}", e))
}

/// Relies on the display of the CEL value variants: text for the atoms,
/// nothing for null.
#[verifier::external_body]
fn cel_display_raw(value: &cel::Value) -> (r: Option<String>) {
    match value {
        cel::Value::String(s) => Some(s.to_string()),
        cel::Value::Int(i) => Some(i.to_string()),
        cel::Value::UInt(u) => Some(u.to_string()),
        cel::Value::Float(f) => Some(f.to_string()),
        cel::Value::Bool(b) => Some(b.to_string()),
        cel::Value::Null => None,
        _ => Some(format!("{:?}", value)),
    }
}

impl CelProgram {
    /// The source the program was compiled from.
    pub closed spec fn spec_source(&self) -> Seq<char> {
        self.source@
    }

    /// The source the program was compiled from.
    pub fn source(&self) -> (r: &str)
        ensures
            r@ == self.spec_source(),
    {
        self.source.as_str()
    }
}

/// Compile a CEL expression string into a program.  Succeeds exactly when
/// the source compiles; the program remembers its source.
pub fn compile_cel(source: &str) -> (r: Result<CelProgram, CosmoError>)
    ensures
        r is Ok <==> cel_compiles(source@),
        r matches Ok(p) ==> p.spec_source() == source@,
        r matches Err(e) ==> e is Config,
{
    match cel_compile_raw(source) {
        Ok(program) => Ok(CelProgram { program, source: source.to_owned() }),
        Err(e) => Err(CosmoError::Config(e)),
    }
}

/// Evaluate a compiled CEL program with the given context.  The value is
/// whatever the interpreter returned; evaluation errors are reported, never
/// fatal to the caller.
pub fn evaluate_cel(program: &CelProgram, ctx: &CelContext) -> (r: Result<cel::Value, CosmoError>) {
    match cel_execute_raw(&program.program, ctx.tags, ctx.meta) {
        Ok(v) => Ok(v),
        Err(e) => Err(CosmoError::Config(e)),
    }
}

/// Convert a CEL value to a string for output; null becomes no value.
pub fn cel_value_to_string(value: &cel::Value) -> (r: Option<String>) {
    cel_display_raw(value)
}

/// The tags of an element as a plain string map, for binding into a CEL
/// context.
pub fn build_string_map(tags: &TagMap) -> (r: HashMap<String, String>)
    requires
        tags.wf(),
{
    let mut out: HashMap<String, String> = HashMap::new();
    let n = tags.len();
    let mut i: usize = 0;
    while i < n
        invariant
            tags.wf(),
            n == tags.spec_entries().len(),
            i <= n,
        decreases n - i,
    {
        let pair = tags.pair_at(i);
        out.insert(pair.0.clone(), pair.1.clone());
        i = i + 1;
    }
    out
}

} // verus!
