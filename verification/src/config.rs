//! Configuration: the raw table description, its compiled form, and the
//! node-cache mode selection.

use vstd::prelude::*;
use vstd::string::*;
use crate::ast::{FilterAst, TagValue, spec_simplified, spec_no_empty_or, lemma_simplified_no_empty_or,
    spec_starts_with};
use crate::parser::parse_filter;
use crate::mapping::{Mapping, MappingConfig};
use crate::expr::{CelProgram, compile_cel, cel_compiles};
use crate::strnum::{str_eq, u64_to_dec, push_char, string_from_chars};
use crate::eval::chars_of;
use crate::feature::ColumnType;
use crate::CosmoError;

verus! {

/// Inputs at least this large select the dense node cache under `Auto`.
pub const DENSE_THRESHOLD_BYTES: u64 = 5 * 1024 * 1024 * 1024;

/// The default dense-cache capacity: generous headroom over the ids OSM
/// has assigned.
pub const DEFAULT_MAX_NODES: u64 = 16000000000;

/// The lower-cased code point, for case-insensitive comparison of ASCII.
pub open spec fn spec_lower_code(c: char) -> int {
    if 'A' <= c && c <= 'Z' {
        c as int + 32
    } else {
        c as int
    }
}

/// Case-insensitive equality of ASCII text.
pub open spec fn spec_eq_ic(a: Seq<char>, b: Seq<char>) -> bool {
    a.len() == b.len() && forall|i: int|
        0 <= i < a.len() ==> spec_lower_code(#[trigger] a[i]) == spec_lower_code(b[i])
}

/// Text cannot be case-insensitively equal to two words that differ in
/// their first letter.
proof fn lemma_eq_ic_conflict(v: Seq<char>, a: Seq<char>, b: Seq<char>)
    requires
        a.len() > 0,
        a.len() != b.len() || spec_lower_code(a[0]) != spec_lower_code(b[0]),
    ensures
        !(spec_eq_ic(v, a) && spec_eq_ic(v, b)),
{
    if spec_eq_ic(v, a) && spec_eq_ic(v, b) {
        assert(spec_lower_code(v[0]) == spec_lower_code(a[0]));
        assert(spec_lower_code(v[0]) == spec_lower_code(b[0]));
    }
}

fn lower_code(c: char) -> (r: u32)
    ensures
        r == spec_lower_code(c),
{
    if 'A' <= c && c <= 'Z' {
        c as u32 + 32
    } else {
        c as u32
    }
}

/// Case-insensitive equality of ASCII text, position by position.
pub fn str_eq_ignore_case(a: &str, b: &str) -> (r: bool)
    ensures
        r == spec_eq_ic(a@, b@),
{
    let ac = chars_of(a);
    let bc = chars_of(b);
    if ac.len() != bc.len() {
        return false;
    }
    let n = ac.len();
    let mut i: usize = 0;
    while i < n
        invariant
            i <= n,
            n == ac@.len() == bc@.len(),
            ac@ == a@,
            bc@ == b@,
            forall|j: int| 0 <= j < i ==> spec_lower_code(#[trigger] a@[j]) == spec_lower_code(
                b@[j],
            ),
        decreases n - i,
    {
        if lower_code(ac[i]) != lower_code(bc[i]) {
            return false;
        }
        i = i + 1;
    }
    true
}

/// Which node-cache backend to use.
#[derive(Debug, Clone, Copy, PartialEq, Eq)]
pub enum NodeCacheMode {
    /// Select by input file size.
    Auto,
    /// Sorted array: memory-efficient for extracts.
    Sparse,
    /// Direct id indexing: for planet-scale inputs.
    Dense,
    /// In-memory hash map.
    Memory,
}

impl NodeCacheMode {
    /// The mode's short name.
    pub fn label(&self) -> (r: &'static str)
        ensures
            self is Auto ==> r@ == "auto"@,
            self is Sparse ==> r@ == "sparse"@,
            self is Dense ==> r@ == "dense"@,
            self is Memory ==> r@ == "memory"@,
    {
        match self {
            NodeCacheMode::Auto => "auto",
            NodeCacheMode::Sparse => "sparse",
            NodeCacheMode::Dense => "dense",
            NodeCacheMode::Memory => "memory",
        }
    }

    /// Parse a mode name, case-insensitively; the legacy name `mmap`
    /// resolves to `Dense`.
    pub fn parse(value: &str) -> (r: Result<NodeCacheMode, String>)
        ensures
            spec_eq_ic(value@, "auto"@) ==> r == Ok::<_, String>(NodeCacheMode::Auto),
            spec_eq_ic(value@, "sparse"@) ==> r == Ok::<_, String>(NodeCacheMode::Sparse),
            spec_eq_ic(value@, "dense"@) || spec_eq_ic(value@, "mmap"@) ==> r == Ok::<
                _,
                String,
            >(NodeCacheMode::Dense),
            spec_eq_ic(value@, "memory"@) ==> r == Ok::<_, String>(NodeCacheMode::Memory),
            !spec_eq_ic(value@, "auto"@) && !spec_eq_ic(value@, "sparse"@) && !spec_eq_ic(
                value@,
                "dense"@,
            ) && !spec_eq_ic(value@, "mmap"@) && !spec_eq_ic(value@, "memory"@) ==> (
            r matches Err(e) && e@ == "invalid node_cache_mode: "@ + value@
                && crate::ast::spec_contains_seq(e@, "invalid node_cache_mode"@)),
    {
        proof {
            reveal_strlit("auto");
            reveal_strlit("sparse");
            reveal_strlit("dense");
            reveal_strlit("mmap");
            reveal_strlit("memory");
        }
        if str_eq_ignore_case(value, "auto") {
            proof {
                lemma_eq_ic_conflict(value@, "auto"@, "mmap"@);
            }
            Ok(NodeCacheMode::Auto)
        } else if str_eq_ignore_case(value, "sparse") {
            proof {
                lemma_eq_ic_conflict(value@, "sparse"@, "memory"@);
            }
            Ok(NodeCacheMode::Sparse)
        } else if str_eq_ignore_case(value, "dense") || str_eq_ignore_case(value, "mmap") {
            Ok(NodeCacheMode::Dense)
        } else if str_eq_ignore_case(value, "memory") {
            Ok(NodeCacheMode::Memory)
        } else {
            let mut msg = String::from_str("invalid node_cache_mode: ");
            msg.append(value);
            proof {
                reveal_strlit("invalid node_cache_mode: ");
                reveal_strlit("invalid node_cache_mode");
                let pre = Seq::<char>::empty();
                let mid = "invalid node_cache_mode: "@;
                assert(mid.subrange(0, 23) =~= "invalid node_cache_mode"@);
                crate::lemma_contains_piece(pre, mid, value@, "invalid node_cache_mode"@, 0);
                assert(msg@ =~= pre + mid + value@);
            }
            Err(msg)
        }
    }
}

impl std::str::FromStr for NodeCacheMode {
    type Err = String;

    /// Parse a mode name; the same contract as `NodeCacheMode::parse`.
    fn from_str(value: &str) -> (r: Result<NodeCacheMode, String>)
        ensures
            spec_eq_ic(value@, "auto"@) ==> r == Ok::<_, String>(NodeCacheMode::Auto),
            spec_eq_ic(value@, "sparse"@) ==> r == Ok::<_, String>(NodeCacheMode::Sparse),
            spec_eq_ic(value@, "dense"@) || spec_eq_ic(value@, "mmap"@) ==> r == Ok::<
                _,
                String,
            >(NodeCacheMode::Dense),
            spec_eq_ic(value@, "memory"@) ==> r == Ok::<_, String>(NodeCacheMode::Memory),
            !spec_eq_ic(value@, "auto"@) && !spec_eq_ic(value@, "sparse"@) && !spec_eq_ic(
                value@,
                "dense"@,
            ) && !spec_eq_ic(value@, "mmap"@) && !spec_eq_ic(value@, "memory"@) ==> (
            r matches Err(e) && crate::ast::spec_contains_seq(e@, "invalid node_cache_mode"@)),
    {
        NodeCacheMode::parse(value)
    }
}

/// Runtime options that reach the pipeline.
#[derive(Debug, Clone)]
pub struct RuntimeConfig {
    pub node_cache_mode: NodeCacheMode,
    pub node_cache_max_nodes: u64,
    pub all_tags: bool,
}

impl Default for RuntimeConfig {
    /// Automatic backend selection, default capacity, no extra tags.
    fn default() -> (r: Self)
        ensures
            r.node_cache_mode is Auto,
            r.node_cache_max_nodes == DEFAULT_MAX_NODES,
            !r.all_tags,
    {
        RuntimeConfig {
            node_cache_mode: NodeCacheMode::Auto,
            node_cache_max_nodes: DEFAULT_MAX_NODES,
            all_tags: false,
        }
    }
}

/// How a way's geometry is emitted.
#[derive(Debug, Clone, Copy)]
pub enum WayGeometryMode {
    Linestring,
    Polygon,
    Centroid,
}

/// Whether ways are emitted, and how.
#[derive(Debug, Clone, Copy)]
pub enum WaySetting {
    Enabled(WayGeometryMode),
    Disabled(bool),
}

impl Default for WaySetting {
    /// Ways enabled, as linestrings.
    fn default() -> (r: Self)
        ensures
            r matches WaySetting::Enabled(m) && m is Linestring,
    {
        WaySetting::Enabled(WayGeometryMode::Linestring)
    }
}

impl WaySetting {
    /// Whether ways are emitted at all.
    pub fn enabled(&self) -> (r: bool)
        ensures
            r == self.spec_enabled(),
    {
        match self {
            WaySetting::Enabled(_) => true,
            WaySetting::Disabled(value) => *value,
        }
    }

    pub open spec fn spec_enabled(&self) -> bool {
        match self {
            WaySetting::Enabled(_) => true,
            WaySetting::Disabled(value) => *value,
        }
    }

    /// The way geometry mode; linestring where none was chosen.
    pub fn mode(&self) -> (r: WayGeometryMode)
        ensures
            r == self.spec_mode(),
    {
        match self {
            WaySetting::Enabled(mode) => *mode,
            WaySetting::Disabled(_) => WayGeometryMode::Linestring,
        }
    }

    pub open spec fn spec_mode(&self) -> WayGeometryMode {
        match self {
            WaySetting::Enabled(mode) => *mode,
            WaySetting::Disabled(_) => WayGeometryMode::Linestring,
        }
    }
}

/// How a closed way (a ring) is emitted.
#[derive(Debug, Clone, Copy)]
pub enum ClosedWayMode {
    Polygon,
    Centroid,
    Linestring,
}

impl Default for ClosedWayMode {
    /// Closed ways become polygons.
    fn default() -> (r: Self)
        ensures
            r is Polygon,
    {
        ClosedWayMode::Polygon
    }
}

/// Which element kinds produce geometry, and how.
#[derive(Debug, Clone)]
pub struct GeometryConfig {
    pub way: WaySetting,
    pub closed_way: ClosedWayMode,
    pub node: bool,
    pub relation: bool,
}

impl Default for GeometryConfig {
    /// Nodes, ways as linestrings, closed ways as polygons, relations
    /// counted but not built.
    fn default() -> (r: Self)
        ensures
            r.node,
            r.relation,
            r.closed_way is Polygon,
            r.way.spec_enabled(),
            r.way.spec_mode() is Linestring,
    {
        GeometryConfig {
            way: WaySetting::Enabled(WayGeometryMode::Linestring),
            closed_way: ClosedWayMode::Polygon,
            node: true,
            relation: true,
        }
    }
}

/// A tag condition of the structured filter form.
#[derive(Debug)]
pub struct TagMatch {
    pub tag: String,
    pub value: Option<String>,
    pub values: Vec<String>,
}

/// The structured (pre-DSL) filter form.
#[derive(Debug)]
pub enum FilterExpr {
    Tag(TagMatch),
    Any { any: Vec<FilterExpr> },
    All { all: Vec<FilterExpr> },
    Not { not: Box<FilterExpr> },
    /// A plain key-to-value map: every pair must match exactly.
    Simple(Vec<(String, String)>),
}

impl Default for FilterExpr {
    /// The empty map: matches everything.
    fn default() -> (r: Self)
        ensures
            r matches FilterExpr::Simple(m) && m@.len() == 0,
    {
        FilterExpr::Simple(Vec::new())
    }
}

/// A filter, either as a DSL string or in the structured form.
#[derive(Debug)]
pub enum FilterInput {
    Dsl(String),
    Structured(FilterExpr),
}

impl Default for FilterInput {
    fn default() -> (r: Self)
        ensures
            r matches FilterInput::Structured(e) && (e matches FilterExpr::Simple(m) && m@.len()
                == 0),
    {
        FilterInput::Structured(FilterExpr::Simple(Vec::new()))
    }
}

/// One declared column: a name, a source expression, a type.
#[derive(Debug)]
pub struct ColumnConfig {
    pub name: String,
    pub source: String,
    pub col_type: ColumnType,
}

/// One table: name, filter, columns, geometry policy.
#[derive(Debug)]
pub struct TableConfig {
    pub name: String,
    pub filter: FilterInput,
    pub columns: Vec<ColumnConfig>,
    pub geometry: GeometryConfig,
}

/// The whole raw configuration: one table and named mappings.
#[derive(Debug)]
pub struct FiltersConfig {
    pub table: TableConfig,
    pub mappings: Vec<(String, MappingConfig)>,
}

/// Where a column's value comes from.
#[derive(Debug)]
pub enum ColumnSource {
    /// One tag, by key.
    Tag(String),
    /// One metadata field, by name.
    Meta(String),
    /// All tags, as a JSON object.
    AllTags,
    /// All metadata, as a JSON object.
    AllMeta,
    /// The raw node references of a way, as a JSON array.
    Refs,
    /// A named mapping.
    Mapping(String),
    /// A compiled expression program.
    Cel(CelProgram),
}

/// A compiled column.
#[derive(Debug)]
pub struct CompiledColumn {
    pub name: String,
    pub source: ColumnSource,
    pub col_type: ColumnType,
}

/// The compiled single table.
#[derive(Debug)]
pub struct CompiledTable {
    pub name: String,
    pub filter: FilterAst,
    pub columns: Vec<CompiledColumn>,
    pub geometry: GeometryConfig,
}

/// The compiled configuration the pipeline consumes.
#[derive(Debug)]
pub struct CompiledConfig {
    pub table: CompiledTable,
    pub mappings: Vec<(String, Mapping)>,
}

impl CompiledConfig {
    /// Look a mapping up by name; the first entry with the name wins.
    pub fn get_mapping(&self, name: &str) -> (r: Option<&Mapping>) {
        let n = self.mappings.len();
        let mut i: usize = 0;
        while i < n
            invariant
                i <= n,
                n == self.mappings@.len(),
            decreases n - i,
        {
            if str_eq(self.mappings[i].0.as_str(), name) {
                return Some(&self.mappings[i].1);
            }
            i = i + 1;
        }
        None
    }
}

/// Whether `mappings` holds an entry under `name`.
fn mappings_contain(mappings: &Vec<(String, Mapping)>, name: &str) -> (r: bool)
    ensures
        r == (exists|i: int|
            0 <= i < mappings@.len() && (#[trigger] mappings@[i]).0@ == name@),
{
    let n = mappings.len();
    let mut i: usize = 0;
    while i < n
        invariant
            i <= n,
            n == mappings@.len(),
            forall|j: int| 0 <= j < i ==> (#[trigger] mappings@[j]).0@ != name@,
        decreases n - i,
    {
        if str_eq(mappings[i].0.as_str(), name) {
            return true;
        }
        i = i + 1;
    }
    proof {
        if exists|i: int| 0 <= i < mappings@.len() && (#[trigger] mappings@[i]).0@ == name@ {
            let i = choose|i: int|
                0 <= i < mappings@.len() && (#[trigger] mappings@[i]).0@ == name@;
            assert(mappings@[i].0@ != name@);
        }
    }
    false
}

/// The tail of `s` after a prefix, if the prefix is there.
fn strip_prefix_str(s: &str, prefix: &str) -> (r: Option<String>)
    ensures
        match r {
            Some(tail) => crate::ast::spec_starts_with(s@, prefix@) && tail@ == s@.skip(
                prefix@.len() as int,
            ),
            None => !crate::ast::spec_starts_with(s@, prefix@),
        },
{
    let sc = chars_of(s);
    let pc = chars_of(prefix);
    if pc.len() > sc.len() {
        return None;
    }
    let n = pc.len();
    let mut i: usize = 0;
    while i < n
        invariant
            i <= n,
            n == pc@.len(),
            pc@.len() <= sc@.len(),
            sc@ == s@,
            pc@ == prefix@,
            forall|j: int| 0 <= j < i ==> sc@[j] == pc@[j],
        decreases n - i,
    {
        if sc[i] != pc[i] {
            proof {
                assert(s@.subrange(0, prefix@.len() as int)[i as int] != prefix@[i as int]);
            }
            return None;
        }
        i = i + 1;
    }
    proof {
        assert(s@.subrange(0, prefix@.len() as int) =~= prefix@);
    }
    let tail = vstd::slice::slice_subrange(sc.as_slice(), n, sc.len());
    proof {
        assert(tail@ =~= s@.skip(prefix@.len() as int));
    }
    Some(string_from_chars(tail))
}

/// Whether a mapping table holds an entry under `name`.
pub open spec fn spec_has_mapping(mappings: Seq<(String, Mapping)>, name: Seq<char>) -> bool {
    exists|i: int| 0 <= i < mappings.len() && (#[trigger] mappings[i]).0@ == name
}

/// The column source a source string denotes: the three whole words, the
/// four prefixes, or a bare tag key.
pub open spec fn spec_source_matches(
    cs: ColumnSource,
    src: Seq<char>,
    mappings: Seq<(String, Mapping)>,
) -> bool {
    if src == "tags"@ {
        cs is AllTags
    } else if src == "meta"@ {
        cs is AllMeta
    } else if src == "refs"@ {
        cs is Refs
    } else if spec_starts_with(src, "tag:"@) {
        cs matches ColumnSource::Tag(k) && k@ == src.skip("tag:"@.len() as int)
    } else if spec_starts_with(src, "meta:"@) {
        cs matches ColumnSource::Meta(k) && k@ == src.skip("meta:"@.len() as int)
    } else if spec_starts_with(src, "mapping:"@) {
        cs matches ColumnSource::Mapping(n) && n@ == src.skip("mapping:"@.len() as int)
            && spec_has_mapping(mappings, n@)
    } else if spec_starts_with(src, "expr:"@) {
        cs matches ColumnSource::Cel(p) && p.spec_source() == src.skip("expr:"@.len() as int)
    } else {
        cs matches ColumnSource::Tag(k) && k@ == src
    }
}

/// Parse a column source string: `tags`, `meta`, `refs`, a `tag:`, `meta:`,
/// `mapping:` or `expr:` prefix, or a bare tag key.
pub fn parse_column_source(source: &str, mappings: &Vec<(String, Mapping)>) -> (r: Result<
    ColumnSource,
    CosmoError,
>)
    ensures
        r matches Ok(cs) ==> spec_source_matches(cs, source@, mappings@),
        !spec_starts_with(source@, "mapping:"@) && !spec_starts_with(source@, "expr:"@) ==> r
            is Ok,
        spec_starts_with(source@, "mapping:"@) ==> (r is Ok <==> spec_has_mapping(
            mappings@,
            source@.skip("mapping:"@.len() as int),
        )),
        spec_starts_with(source@, "expr:"@) ==> (r is Ok <==> cel_compiles(
            source@.skip("expr:"@.len() as int),
        )),
{
    proof {
        reveal_strlit("tags");
        reveal_strlit("meta");
        reveal_strlit("refs");
        reveal_strlit("tag:");
        reveal_strlit("meta:");
        reveal_strlit("mapping:");
        reveal_strlit("expr:");
        assert("tags"@[0] == 't' && "meta"@[0] == 'm' && "refs"@[0] == 'r');
        assert("tags"@ != "meta"@);
        assert("tags"@ != "refs"@);
        assert("meta"@ != "refs"@);
    }
    if str_eq(source, "tags") {
        return Ok(ColumnSource::AllTags);
    }
    if str_eq(source, "meta") {
        return Ok(ColumnSource::AllMeta);
    }
    if str_eq(source, "refs") {
        return Ok(ColumnSource::Refs);
    }
    if let Some(tag) = strip_prefix_str(source, "tag:") {
        proof {
            if spec_starts_with(source@, "mapping:"@) {
                assert(source@.subrange(0, 4)[0] == source@[0]);
                assert(source@.subrange(0, 8)[0] == source@[0]);
                assert("tag:"@[0] == 't' && "mapping:"@[0] == 'm');
            }
            if spec_starts_with(source@, "expr:"@) {
                assert(source@.subrange(0, 4)[0] == source@[0]);
                assert(source@.subrange(0, 5)[0] == source@[0]);
                assert("tag:"@[0] == 't' && "expr:"@[0] == 'e');
            }
        }
        return Ok(ColumnSource::Tag(tag));
    }
    if let Some(field) = strip_prefix_str(source, "meta:") {
        proof {
            if spec_starts_with(source@, "mapping:"@) {
                assert(source@.subrange(0, 5)[1] == source@[1]);
                assert(source@.subrange(0, 8)[1] == source@[1]);
                assert("meta:"@[1] == 'e' && "mapping:"@[1] == 'a');
            }
            if spec_starts_with(source@, "expr:"@) {
                assert(source@.subrange(0, 5)[0] == source@[0]);
                assert("meta:"@[0] == 'm' && "expr:"@[0] == 'e');
            }
        }
        return Ok(ColumnSource::Meta(field));
    }
    if let Some(name) = strip_prefix_str(source, "mapping:") {
        proof {
            if spec_starts_with(source@, "expr:"@) {
                assert(source@.subrange(0, 8)[0] == source@[0]);
                assert(source@.subrange(0, 5)[0] == source@[0]);
                assert("mapping:"@[0] == 'm' && "expr:"@[0] == 'e');
            }
        }
        if !mappings_contain(mappings, name.as_str()) {
            let mut msg = String::from_str("unknown mapping: ");
            msg.append(name.as_str());
            return Err(CosmoError::Config(msg));
        }
        return Ok(ColumnSource::Mapping(name));
    }
    if let Some(expr) = strip_prefix_str(source, "expr:") {
        let program = compile_cel(expr.as_str())?;
        return Ok(ColumnSource::Cel(program));
    }
    // Anything else reads as a bare tag key.
    Ok(ColumnSource::Tag(source.to_owned()))
}

/// Whether one raw value string of the structured form matches a tag
/// value: `*` matches anything, a string with a star is a glob, anything
/// else matches exactly.
pub open spec fn spec_structured_value_matches(v: Seq<char>, actual: Seq<char>) -> bool {
    if v == "*"@ {
        true
    } else if exists|i: int| 0 <= i < v.len() && v[i] == '*' {
        crate::ast::spec_glob_match(v, actual)
    } else {
        actual == v
    }
}

/// The meaning of a structured filter over a tag map.  Empty `any` and
/// `all` lists match everything, as their converted form does.
pub open spec fn spec_eval_structured(e: FilterExpr, tags: Map<Seq<char>, Seq<char>>) -> bool
    decreases e, 1int,
{
    match e {
        FilterExpr::Simple(map) => spec_simple_conj(map@, tags),
        FilterExpr::Tag(tm) => {
            if tm.values@.len() == 0 && tm.value is None {
                tags.contains_key(tm.tag@)
            } else {
                tags.contains_key(tm.tag@) && ((tm.value matches Some(v) && tags[tm.tag@] == v@)
                    || spec_values_any(tm.values@, tags[tm.tag@]))
            }
        },
        FilterExpr::Any { any } => {
            if any@.len() == 0 {
                true
            } else {
                spec_structured_any(any@, tags)
            }
        },
        FilterExpr::All { all } => spec_structured_all(all@, tags),
        FilterExpr::Not { not } => !spec_eval_structured(*not, tags),
    }
}

/// Every key/value pair of a simple filter matches exactly.
pub open spec fn spec_simple_conj(pairs: Seq<(String, String)>, tags: Map<Seq<char>, Seq<char>>) -> bool
    decreases pairs.len(),
{
    if pairs.len() == 0 {
        true
    } else {
        spec_simple_conj(pairs.drop_last(), tags) && tags.contains_key(pairs.last().0@)
            && tags[pairs.last().0@] == pairs.last().1@
    }
}

/// Some raw value string matches the tag value.
pub open spec fn spec_values_any(values: Seq<String>, actual: Seq<char>) -> bool
    decreases values.len(),
{
    if values.len() == 0 {
        false
    } else {
        spec_values_any(values.drop_last(), actual) || spec_structured_value_matches(
            values.last()@,
            actual,
        )
    }
}

/// Some structured filter in the sequence holds.
pub open spec fn spec_structured_any(s: Seq<FilterExpr>, tags: Map<Seq<char>, Seq<char>>) -> bool
    decreases s, 0int,
{
    if s.len() == 0 {
        false
    } else {
        spec_structured_any(s.drop_last(), tags) || spec_eval_structured(s.last(), tags)
    }
}

/// Every structured filter in the sequence holds.
pub open spec fn spec_structured_all(s: Seq<FilterExpr>, tags: Map<Seq<char>, Seq<char>>) -> bool
    decreases s, 0int,
{
    if s.len() == 0 {
        true
    } else {
        spec_structured_all(s.drop_last(), tags) && spec_eval_structured(s.last(), tags)
    }
}

/// How one raw value string is classified into a value pattern.
pub open spec fn spec_classified(tv: TagValue, w: Seq<char>) -> bool {
    if w == "*"@ {
        tv is Any
    } else if exists|x: int| 0 <= x < w.len() && w[x] == '*' {
        tv matches TagValue::Glob(g) && g@ == w
    } else {
        tv matches TagValue::Exact(e) && e@ == w
    }
}

/// A classified value list matches a tag value exactly when the optional
/// exact head matches or some raw value does.
proof fn lemma_values_equiv(
    vals: Seq<TagValue>,
    raws: Seq<String>,
    head: Option<Seq<char>>,
    actual: Seq<char>,
)
    requires
        vals.len() == raws.len() + (if head is Some {
            1int
        } else {
            0int
        }),
        head matches Some(h) ==> vals[0] matches TagValue::Exact(e) && e@ == h,
        forall|k: int|
            0 <= k < raws.len() ==> spec_classified(
                vals[
                    (if head is Some {
                        1int
                    } else {
                        0int
                    }) + k
                ],
                (#[trigger] raws[k])@,
            ),
    ensures
        crate::ast::spec_values_match(vals, actual) == ((head matches Some(h) && actual == h)
            || spec_values_any(raws, actual)),
    decreases raws.len(),
{
    let off: int = if head is Some {
        1
    } else {
        0
    };
    if raws.len() == 0 {
        match head {
            Some(h) => {
                assert(crate::ast::spec_match_value(vals[0], actual) == (actual == h));
                if crate::ast::spec_values_match(vals, actual) {
                    let j = choose|j: int|
                        0 <= j < vals.len() && crate::ast::spec_match_value(
                            #[trigger] vals[j],
                            actual,
                        );
                    assert(j == 0);
                }
            },
            None => {
                if crate::ast::spec_values_match(vals, actual) {
                    let j = choose|j: int|
                        0 <= j < vals.len() && crate::ast::spec_match_value(
                            #[trigger] vals[j],
                            actual,
                        );
                    assert(false);
                }
            },
        }
    } else {
        let vals2 = vals.drop_last();
        let raws2 = raws.drop_last();
        assert forall|k: int|
            0 <= k < raws2.len() implies spec_classified(vals2[off + k], (#[trigger] raws2[k])@)
            by {
            assert(raws2[k] == raws[k]);
            assert(vals2[off + k] == vals[off + k]);
        }
        if head is Some {
            assert(vals2[0] == vals[0]);
        }
        lemma_values_equiv(vals2, raws2, head, actual);
        assert(spec_classified(vals.last(), raws.last()@));
        assert(crate::ast::spec_match_value(vals.last(), actual) == spec_structured_value_matches(
            raws.last()@,
            actual,
        ));
        if crate::ast::spec_values_match(vals, actual) {
            let j = choose|j: int|
                0 <= j < vals.len() && crate::ast::spec_match_value(#[trigger] vals[j], actual);
            if j < vals2.len() {
                assert(crate::ast::spec_match_value(vals2[j], actual));
                assert(crate::ast::spec_values_match(vals2, actual));
            } else {
                assert(crate::ast::spec_match_value(vals.last(), actual));
            }
        }
        if crate::ast::spec_values_match(vals2, actual) {
            let j = choose|j: int|
                0 <= j < vals2.len() && crate::ast::spec_match_value(#[trigger] vals2[j], actual);
            assert(crate::ast::spec_match_value(vals[j], actual));
            assert(crate::ast::spec_values_match(vals, actual));
        }
        if spec_structured_value_matches(raws.last()@, actual) {
            assert(crate::ast::spec_match_value(vals[vals.len() - 1], actual));
            assert(crate::ast::spec_values_match(vals, actual));
        }
    }
}

/// Convert a structured filter to the AST form.  Conversion never fails,
/// the result is simplified, and it evaluates exactly as the structured
/// form on every tag map.
#[verifier::loop_isolation(false)]
pub fn convert_structured_filter(expr: &FilterExpr) -> (r: Result<FilterAst, CosmoError>)
    ensures
        r is Ok,
        r matches Ok(ast) ==> spec_simplified(ast) && spec_no_empty_or(ast),
        r matches Ok(ast) ==> forall|t: Map<Seq<char>, Seq<char>>|
            #[trigger] crate::ast::spec_eval(ast, t) == spec_eval_structured(*expr, t),
    decreases *expr,
{
    match expr {
        FilterExpr::Simple(map) => {
            if map.len() == 0 {
                proof {
                    assert(forall|t: Map<Seq<char>, Seq<char>>|
                        #[trigger] crate::ast::spec_eval(FilterAst::True, t)
                            == spec_eval_structured(*expr, t));
                }
                return Ok(FilterAst::True);
            }
            let n = map.len();
            let mut conditions: Vec<FilterAst> = Vec::new();
            let mut i: usize = 0;
            while i < n
                invariant
                    i <= n,
                    n == map@.len(),
                    forall|j: int|
                        0 <= j < conditions@.len() ==> spec_simplified(#[trigger] conditions@[j])
                            && spec_no_empty_or(conditions@[j]),
                    forall|t: Map<Seq<char>, Seq<char>>|
                        #[trigger] crate::ast::spec_eval_all(conditions@, t) == spec_simple_conj(
                            map@.take(i as int),
                            t,
                        ),
                decreases n - i,
            {
                let mut values: Vec<TagValue> = Vec::new();
                values.push(TagValue::Exact(map[i].1.clone()));
                let ghost before = conditions@;
                let condition = FilterAst::TagMatch { key: map[i].0.clone(), values };
                let ghost cond_spec = condition;
                conditions.push(condition);
                proof {
                    assert(conditions@ =~= before.push(cond_spec));
                    assert(map@.take(i as int + 1).drop_last() =~= map@.take(i as int));
                    assert(map@.take(i as int + 1).last() == map@[i as int]);
                    assert forall|t: Map<Seq<char>, Seq<char>>|
                        #[trigger] crate::ast::spec_eval_all(conditions@, t) == spec_simple_conj(
                            map@.take(i as int + 1),
                            t,
                        ) by {
                        crate::ast::lemma_eval_all_push(before, cond_spec, t);
                        let key = map@[i as int].0@;
                        let vals = cond_spec->TagMatch_values;
                        assert(vals@.len() == 1);
                        if t.contains_key(key) {
                            assert(crate::ast::spec_match_value(vals@[0], t[key]) == (t[key]
                                == map@[i as int].1@));
                            if crate::ast::spec_eval(cond_spec, t) {
                                let j = choose|j: int|
                                    0 <= j < vals@.len() && crate::ast::spec_match_value(
                                        vals@[j],
                                        t[key],
                                    );
                                assert(j == 0);
                            }
                        }
                    }
                }
                i = i + 1;
            }
            let ghost cond_view = conditions@;
            let combined = FilterAst::And(conditions);
            let ghost combined_spec = combined;
            proof {
                assert(spec_no_empty_or(combined_spec));
                assert(map@.take(n as int) =~= map@);
            }
            let simplified = combined.simplify();
            proof {
                lemma_simplified_no_empty_or(simplified);
                assert forall|t: Map<Seq<char>, Seq<char>>|
                    #[trigger] crate::ast::spec_eval(simplified, t) == spec_eval_structured(
                        *expr,
                        t,
                    ) by {
                    assert(crate::ast::spec_eval(simplified, t) == crate::ast::spec_eval(
                        combined_spec,
                        t,
                    ));
                    assert(crate::ast::spec_eval(combined_spec, t)
                        == crate::ast::spec_eval_all(cond_view, t));
                    assert(crate::ast::spec_eval_all(cond_view, t) == spec_simple_conj(
                        map@.take(n as int),
                        t,
                    ));
                    assert(spec_eval_structured(*expr, t) == spec_simple_conj(map@, t));
                }
            }
            Ok(simplified)
        },
        FilterExpr::Tag(tag_match) => {
            if tag_match.values.len() == 0 && matches!(tag_match.value, None) {
                let result = FilterAst::TagExists { key: tag_match.tag.clone(), negated: false };
                proof {
                    assert(forall|t: Map<Seq<char>, Seq<char>>|
                        #[trigger] crate::ast::spec_eval(result, t) == spec_eval_structured(
                            *expr,
                            t,
                        ));
                }
                return Ok(result);
            }
            let mut values: Vec<TagValue> = Vec::new();
            let ghost off: int = if tag_match.value is Some {
                1int
            } else {
                0int
            };
            if let Some(v) = &tag_match.value {
                values.push(TagValue::Exact(v.clone()));
            }
            let n = tag_match.values.len();
            let mut i: usize = 0;
            while i < n
                invariant
                    i <= n,
                    n == tag_match.values@.len(),
                    off == (if tag_match.value is Some {
                        1int
                    } else {
                        0int
                    }),
                    values@.len() == off + i,
                    tag_match.value matches Some(hv) ==> values@[0] matches TagValue::Exact(e)
                        && e@ == hv@,
                    forall|k: int|
                        0 <= k < i ==> spec_classified(
                            values@[off + k],
                            (#[trigger] tag_match.values@[k])@,
                        ),
                decreases n - i,
            {
                let v = &tag_match.values[i];
                proof {
                    reveal_strlit("*");
                }
                let ghost before = values@;
                let classified: TagValue = if str_eq(v.as_str(), "*") {
                    TagValue::Any
                } else if crate::parser::has_star(v.as_str()) {
                    TagValue::Glob(v.clone())
                } else {
                    TagValue::Exact(v.clone())
                };
                let ghost cls = classified;
                values.push(classified);
                proof {
                    assert(values@ =~= before.push(cls));
                    assert(spec_classified(cls, tag_match.values@[i as int]@));
                    assert forall|k: int|
                        0 <= k < i + 1 implies spec_classified(
                        values@[off + k],
                        (#[trigger] tag_match.values@[k])@,
                    ) by {
                        if k < i as int {
                            assert(values@[off + k] == before[off + k]);
                        } else {
                            assert(values@[off + k] == cls);
                        }
                    }
                }
                i = i + 1;
            }
            let ghost vals_view = values@;
            let result = FilterAst::TagMatch { key: tag_match.tag.clone(), values };
            let ghost result_spec = result;
            proof {
                let ghost head: Option<Seq<char>> = match &tag_match.value {
                    Some(hv) => Some(hv@),
                    None => None,
                };
                assert forall|t: Map<Seq<char>, Seq<char>>|
                    #[trigger] crate::ast::spec_eval(result_spec, t) == spec_eval_structured(
                        *expr,
                        t,
                    ) by {
                    if t.contains_key(tag_match.tag@) {
                        lemma_values_equiv(
                            vals_view,
                            tag_match.values@,
                            head,
                            t[tag_match.tag@],
                        );
                    }
                }
            }
            Ok(result)
        },
        FilterExpr::Any { any } => {
            if any.len() == 0 {
                proof {
                    assert(forall|t: Map<Seq<char>, Seq<char>>|
                        #[trigger] crate::ast::spec_eval(FilterAst::True, t)
                            == spec_eval_structured(*expr, t));
                }
                return Ok(FilterAst::True);
            }
            let n = any.len();
            let mut exprs: Vec<FilterAst> = Vec::new();
            let mut i: usize = 0;
            while i < n
                invariant
                    i <= n,
                    n == any@.len(),
                    exprs@.len() == i,
                    forall|j: int|
                        0 <= j < exprs@.len() ==> spec_simplified(#[trigger] exprs@[j])
                            && spec_no_empty_or(exprs@[j]),
                    forall|t: Map<Seq<char>, Seq<char>>|
                        #[trigger] crate::ast::spec_eval_any(exprs@, t) == spec_structured_any(
                            any@.take(i as int),
                            t,
                        ),
                decreases n - i,
            {
                proof {
                    assert(decreases_to!(*expr => (*expr)->Any_any));
                    assert(decreases_to!((*expr)->Any_any => (*expr)->Any_any@));
                    assert(decreases_to!((*expr)->Any_any@ => (*expr)->Any_any@[i as int]));
                }
                let converted = match convert_structured_filter(&any[i]) {
                    Ok(c) => c,
                    Err(e) => {
                        return Err(e);
                    },
                };
                let ghost before = exprs@;
                let ghost conv = converted;
                exprs.push(converted);
                proof {
                    assert(exprs@ =~= before.push(conv));
                    assert(any@.take(i as int + 1).drop_last() =~= any@.take(i as int));
                    assert(any@.take(i as int + 1).last() == any@[i as int]);
                    assert forall|t: Map<Seq<char>, Seq<char>>|
                        #[trigger] crate::ast::spec_eval_any(exprs@, t) == spec_structured_any(
                            any@.take(i as int + 1),
                            t,
                        ) by {
                        crate::ast::lemma_eval_any_push(before, conv, t);
                        assert(crate::ast::spec_eval(conv, t) == spec_eval_structured(
                            any@[i as int],
                            t,
                        ));
                    }
                }
                i = i + 1;
            }
            let ghost exprs_view = exprs@;
            let combined = FilterAst::Or(exprs);
            let ghost combined_spec = combined;
            proof {
                assert(spec_no_empty_or(combined_spec));
                assert(any@.take(n as int) =~= any@);
            }
            let simplified = combined.simplify();
            proof {
                lemma_simplified_no_empty_or(simplified);
                assert forall|t: Map<Seq<char>, Seq<char>>|
                    #[trigger] crate::ast::spec_eval(simplified, t) == spec_eval_structured(
                        *expr,
                        t,
                    ) by {
                    assert(crate::ast::spec_eval(simplified, t) == crate::ast::spec_eval(
                        combined_spec,
                        t,
                    ));
                    assert(crate::ast::spec_eval(combined_spec, t)
                        == crate::ast::spec_eval_any(exprs_view, t));
                    assert(crate::ast::spec_eval_any(exprs_view, t) == spec_structured_any(
                        any@.take(n as int),
                        t,
                    ));
                }
            }
            Ok(simplified)
        },
        FilterExpr::All { all } => {
            let n = all.len();
            let mut exprs: Vec<FilterAst> = Vec::new();
            let mut i: usize = 0;
            while i < n
                invariant
                    i <= n,
                    n == all@.len(),
                    exprs@.len() == i,
                    forall|j: int|
                        0 <= j < exprs@.len() ==> spec_simplified(#[trigger] exprs@[j])
                            && spec_no_empty_or(exprs@[j]),
                    forall|t: Map<Seq<char>, Seq<char>>|
                        #[trigger] crate::ast::spec_eval_all(exprs@, t) == spec_structured_all(
                            all@.take(i as int),
                            t,
                        ),
                decreases n - i,
            {
                proof {
                    assert(decreases_to!(*expr => (*expr)->All_all));
                    assert(decreases_to!((*expr)->All_all => (*expr)->All_all@));
                    assert(decreases_to!((*expr)->All_all@ => (*expr)->All_all@[i as int]));
                }
                let converted = match convert_structured_filter(&all[i]) {
                    Ok(c) => c,
                    Err(e) => {
                        return Err(e);
                    },
                };
                let ghost before = exprs@;
                let ghost conv = converted;
                exprs.push(converted);
                proof {
                    assert(exprs@ =~= before.push(conv));
                    assert(all@.take(i as int + 1).drop_last() =~= all@.take(i as int));
                    assert(all@.take(i as int + 1).last() == all@[i as int]);
                    assert forall|t: Map<Seq<char>, Seq<char>>|
                        #[trigger] crate::ast::spec_eval_all(exprs@, t) == spec_structured_all(
                            all@.take(i as int + 1),
                            t,
                        ) by {
                        crate::ast::lemma_eval_all_push(before, conv, t);
                        assert(crate::ast::spec_eval(conv, t) == spec_eval_structured(
                            all@[i as int],
                            t,
                        ));
                    }
                }
                i = i + 1;
            }
            let ghost exprs_view = exprs@;
            let combined = FilterAst::And(exprs);
            let ghost combined_spec = combined;
            proof {
                assert(spec_no_empty_or(combined_spec));
                assert(all@.take(n as int) =~= all@);
            }
            let simplified = combined.simplify();
            proof {
                lemma_simplified_no_empty_or(simplified);
                assert forall|t: Map<Seq<char>, Seq<char>>|
                    #[trigger] crate::ast::spec_eval(simplified, t) == spec_eval_structured(
                        *expr,
                        t,
                    ) by {
                    assert(crate::ast::spec_eval(simplified, t) == crate::ast::spec_eval(
                        combined_spec,
                        t,
                    ));
                    assert(crate::ast::spec_eval(combined_spec, t)
                        == crate::ast::spec_eval_all(exprs_view, t));
                    assert(crate::ast::spec_eval_all(exprs_view, t) == spec_structured_all(
                        all@.take(n as int),
                        t,
                    ));
                }
            }
            Ok(simplified)
        },
        FilterExpr::Not { not } => {
            proof {
                assert(decreases_to!(*expr => (*expr)->Not_not));
            }
            let inner = convert_structured_filter(&**not)?;
            let ghost inner_spec = inner;
            let result = FilterAst::Not(Box::new(inner));
            proof {
                assert forall|t: Map<Seq<char>, Seq<char>>|
                    #[trigger] crate::ast::spec_eval(result, t) == spec_eval_structured(*expr, t)
                    by {
                    assert(crate::ast::spec_eval(result, t) == !crate::ast::spec_eval(
                        inner_spec,
                        t,
                    ));
                    assert(crate::ast::spec_eval(inner_spec, t) == spec_eval_structured(
                        *(*not),
                        t,
                    ));
                }
            }
            Ok(result)
        },
    }
}

impl FiltersConfig {
    /// Compile the configuration: parse the filter, compile the mappings
    /// and the columns.  The compiled filter is simplified; columns keep
    /// their order, names and types.
    pub fn compile(&self) -> (r: Result<CompiledConfig, CosmoError>)
        ensures
            r matches Ok(c) ==> {
                &&& spec_simplified(c.table.filter)
                &&& spec_no_empty_or(c.table.filter)
                &&& c.table.name == self.table.name
                &&& c.table.columns@.len() == self.table.columns@.len()
                &&& forall|i: int|
                    0 <= i < c.table.columns@.len() ==> (#[trigger] c.table.columns@[i]).name
                        == self.table.columns@[i].name && c.table.columns@[i].col_type
                        == self.table.columns@[i].col_type && spec_source_matches(
                        c.table.columns@[i].source,
                        self.table.columns@[i].source@,
                        c.mappings@,
                    )
            },
            (self.table.filter is Structured && self.mappings@.len() == 0 && (forall|i: int|
                0 <= i < self.table.columns@.len() ==> !spec_starts_with(
                    (#[trigger] self.table.columns@[i]).source@,
                    "mapping:"@,
                ) && !spec_starts_with(self.table.columns@[i].source@, "expr:"@))) ==> r is Ok,
            r matches Ok(c) ==> (self.table.filter matches FilterInput::Structured(e)
                ==> forall|t: Map<Seq<char>, Seq<char>>|
                #[trigger] crate::ast::spec_eval(c.table.filter, t) == spec_eval_structured(
                    e,
                    t,
                )),
    {
        // Compile mappings first: columns may reference them.
        let n = self.mappings.len();
        let mut mappings: Vec<(String, Mapping)> = Vec::new();
        let mut i: usize = 0;
        while i < n
            invariant
                i <= n,
                n == self.mappings@.len(),
            decreases n - i,
        {
            let name = self.mappings[i].0.clone();
            let compiled = Mapping::compile(name, &self.mappings[i].1)?;
            mappings.push((self.mappings[i].0.clone(), compiled));
            i = i + 1;
        }
        let filter = match &self.table.filter {
            FilterInput::Dsl(s) => {
                match parse_filter(s.as_str()) {
                    Ok(f) => f,
                    Err(e) => {
                        let mut msg = String::from_str("filter error in table '");
                        msg.append(self.table.name.as_str());
                        msg.append("': ");
                        msg.append(e.as_str());
                        return Err(CosmoError::Config(msg));
                    },
                }
            },
            FilterInput::Structured(expr) => convert_structured_filter(expr)?,
        };
        let cn = self.table.columns.len();
        let mut columns: Vec<CompiledColumn> = Vec::new();
        let mut j: usize = 0;
        while j < cn
            invariant
                j <= cn,
                cn == self.table.columns@.len(),
                columns@.len() == j,
                forall|k: int|
                    0 <= k < j ==> (#[trigger] columns@[k]).name == self.table.columns@[k].name
                        && columns@[k].col_type == self.table.columns@[k].col_type
                        && spec_source_matches(
                        columns@[k].source,
                        self.table.columns@[k].source@,
                        mappings@,
                    ),
            decreases cn - j,
        {
            let col = &self.table.columns[j];
            let source = parse_column_source(col.source.as_str(), &mappings)?;
            columns.push(
                CompiledColumn { name: col.name.clone(), source, col_type: col.col_type },
            );
            j = j + 1;
        }
        Ok(
            CompiledConfig {
                table: CompiledTable {
                    name: self.table.name.clone(),
                    filter,
                    columns,
                    geometry: self.table.geometry.clone(),
                },
                mappings,
            },
        )
    }
}

/// Resolve the requested node-cache mode: `Auto` picks dense at or above
/// the size threshold, sparse below it.  The text describes the choice.
pub fn resolve_node_cache_mode(requested: NodeCacheMode, input_size: u64) -> (r: (
    NodeCacheMode,
    String,
))
    ensures
        requested is Auto ==> r.0 == (if input_size >= DENSE_THRESHOLD_BYTES {
            NodeCacheMode::Dense
        } else {
            NodeCacheMode::Sparse
        }),
        !(requested is Auto) ==> r.0 == requested,
{
    match requested {
        NodeCacheMode::Auto => {
            // Size in tenths of a binary gigabyte, for the description.
            let gib: u64 = 1024 * 1024 * 1024;
            let tenths = (input_size / (gib / 10)) % 10;
            let whole = input_size / gib;
            let mode = if input_size >= DENSE_THRESHOLD_BYTES {
                NodeCacheMode::Dense
            } else {
                NodeCacheMode::Sparse
            };
            let mut desc = String::new();
            desc.append(mode.label());
            desc.append(" (auto-selected for ");
            desc.append(u64_to_dec(whole).as_str());
            push_char(&mut desc, '.');
            desc.append(u64_to_dec(tenths).as_str());
            desc.append(" GB input)");
            (mode, desc)
        },
        other => {
            let mode = other;
            (mode, mode.label().to_owned())
        },
    }
}

} // verus!
