//! The per-block feature builder: gate by element kind, filter by tags,
//! project columns, synthesize geometry.

use vstd::prelude::*;
use vstd::string::*;
use crate::ast::spec_eval;
use crate::config::{CompiledColumn, CompiledConfig, ColumnSource, RuntimeConfig};
use crate::eval::evaluate_filter;
use crate::expr::{CelContext, evaluate_cel, cel_value_to_string, build_string_map};
use crate::feature::{ColumnValue, Coord, FeatureRow, Geometry};
use crate::geometry::{build_way_geometry, spec_way_geometry_ok};
use crate::json::JsonValue;
use crate::mapping::{Mapping, evaluate_mapping, spec_mapping_value};
use crate::metadata::{MetadataFields, extract_meta_value, spec_meta_value};
use crate::storage::NodeStoreReader;
use crate::strnum::{i64_to_dec, str_eq};
use crate::tags::TagMap;
use crate::CosmoError;

verus! {

/// One decoded OSM element, with plain coordinates and tags.
pub struct NodeData {
    pub id: i64,
    /// Longitude, fixed-point.
    pub lon: i32,
    /// Latitude, fixed-point.
    pub lat: i32,
    pub tags: TagMap,
    pub meta: Option<MetadataFields>,
}

/// One decoded way: ordered node references and tags.
pub struct WayData {
    pub id: i64,
    pub refs: Vec<i64>,
    pub tags: TagMap,
    pub meta: Option<MetadataFields>,
}

/// One element of a decoded block.
pub enum Element {
    Node(NodeData),
    Way(WayData),
    Relation,
}

/// The element's tag map is well formed.
pub open spec fn element_wf(e: Element) -> bool {
    match e {
        Element::Node(nd) => nd.tags.wf(),
        Element::Way(wd) => wd.tags.wf(),
        Element::Relation => true,
    }
}

/// The first entry under `name`, the assoc-list view of a mapping table.
pub open spec fn spec_assoc_mapping(s: Seq<(String, Mapping)>, name: Seq<char>) -> Option<Mapping>
    decreases s.len(),
{
    if s.len() == 0 {
        None
    } else if s[0].0@ == name {
        Some(s[0].1)
    } else {
        spec_assoc_mapping(s.drop_first(), name)
    }
}

/// Whether `value` is the tags as a JSON object: one member per tag, in
/// first-insertion order, each value the tag's text.
pub open spec fn spec_tags_object(value: JsonValue, entries: Seq<(String, String)>) -> bool {
    value matches JsonValue::Obj(m) && m@.len() == entries.len() && forall|k: int|
        0 <= k < m@.len() ==> (#[trigger] m@[k]).0@ == entries[k].0@ && (
        m@[k].1 matches JsonValue::Str(s) && s@ == entries[k].1@)
}

/// Whether `value` is the reference list as a JSON array of integers.
pub open spec fn spec_refs_array(value: JsonValue, refs: Seq<i64>) -> bool {
    value matches JsonValue::Arr(items) && items@.len() == refs.len() && forall|k: int|
        0 <= k < refs.len() ==> #[trigger] items@[k] == JsonValue::Int(refs[k])
}

/// The reference list a projection sees, if the element has one.
pub open spec fn spec_opt_refs(refs: Option<&Vec<i64>>) -> Option<Seq<i64>> {
    match refs {
        Some(r) => Some(r@),
        None => None,
    }
}

/// Whether `value` is a correct projection of `col` for the given element
/// data.  Expression columns are opaque: any string satisfies them.
pub open spec fn spec_column_matches(
    col: CompiledColumn,
    value: ColumnValue,
    tags: TagMap,
    meta: Option<MetadataFields>,
    refs: Option<Seq<i64>>,
    mappings: Seq<(String, Mapping)>,
) -> bool {
    match col.source {
        ColumnSource::Tag(key) => tags.as_map().contains_key(key@) && (
        value matches ColumnValue::String(s) && s@ == tags.as_map()[key@]),
        ColumnSource::Meta(key) => meta matches Some(m) && (match spec_meta_value(key@, m) {
            Some(text) => value matches ColumnValue::String(s) && s@ == text,
            None => false,
        }),
        ColumnSource::AllTags => value matches ColumnValue::Json(j) && spec_tags_object(
            j,
            tags.spec_entries(),
        ),
        ColumnSource::AllMeta => meta is Some && value is Json,
        ColumnSource::Refs => refs matches Some(rs) && (value matches ColumnValue::Json(j)
            && spec_refs_array(j, rs)),
        ColumnSource::Mapping(name) => (match spec_assoc_mapping(mappings, name@) {
            Some(m) => match spec_mapping_value(m, tags.as_map()) {
                Some(v) => value matches ColumnValue::String(s) && s@ == v,
                None => false,
            },
            None => false,
        }),
        ColumnSource::Cel(_) => value is String,
    }
}

/// Whether a column will be emitted, where that is determined by the
/// element data alone; an expression column's presence depends on the
/// interpreter and is undetermined here.
pub open spec fn spec_column_present(
    col: CompiledColumn,
    tags: TagMap,
    meta: Option<MetadataFields>,
    refs_present: bool,
    mappings: Seq<(String, Mapping)>,
) -> Option<bool> {
    match col.source {
        ColumnSource::Tag(key) => Some(tags.as_map().contains_key(key@)),
        ColumnSource::Meta(key) => Some(
            meta matches Some(m) && spec_meta_value(key@, m) is Some,
        ),
        ColumnSource::AllTags => Some(true),
        ColumnSource::AllMeta => Some(meta is Some),
        ColumnSource::Refs => Some(refs_present),
        ColumnSource::Mapping(name) => Some(
            match spec_assoc_mapping(mappings, name@) {
                Some(m) => spec_mapping_value(m, tags.as_map()) is Some,
                None => false,
            },
        ),
        ColumnSource::Cel(_) => None,
    }
}

/// One emitted pair is justified by some declared column.
pub open spec fn spec_row_column_ok(
    pair: (String, ColumnValue),
    cols: Seq<CompiledColumn>,
    tags: TagMap,
    meta: Option<MetadataFields>,
    refs: Option<Seq<i64>>,
    mappings: Seq<(String, Mapping)>,
) -> bool {
    exists|i: int|
        0 <= i < cols.len() && pair.0 == (#[trigger] cols[i]).name && spec_column_matches(
            cols[i],
            pair.1,
            tags,
            meta,
            refs,
            mappings,
        )
}

/// Every emitted pair is justified by some declared column.
pub open spec fn spec_row_columns_ok(
    rcols: Seq<(String, ColumnValue)>,
    cols: Seq<CompiledColumn>,
    tags: TagMap,
    meta: Option<MetadataFields>,
    refs: Option<Seq<i64>>,
    mappings: Seq<(String, Mapping)>,
) -> bool {
    forall|j: int|
        0 <= j < rcols.len() ==> spec_row_column_ok(
            #[trigger] rcols[j],
            cols,
            tags,
            meta,
            refs,
            mappings,
        )
}

/// Every deterministic column that should be emitted is.
pub open spec fn spec_row_columns_complete(
    rcols: Seq<(String, ColumnValue)>,
    cols: Seq<CompiledColumn>,
    tags: TagMap,
    meta: Option<MetadataFields>,
    refs: Option<Seq<i64>>,
    mappings: Seq<(String, Mapping)>,
) -> bool {
    forall|i: int|
        0 <= i < cols.len() && spec_column_present(
            #[trigger] cols[i],
            tags,
            meta,
            refs is Some,
            mappings,
        ) == Some(true) ==> exists|j: int|
            0 <= j < rcols.len() && (#[trigger] rcols[j]).0 == cols[i].name
                && spec_column_matches(cols[i], rcols[j].1, tags, meta, refs, mappings)
}

/// The extras of a row: exactly the whole tag map under the key `tags`
/// when the runtime asks for it, nothing otherwise.
pub open spec fn spec_row_extras_ok(
    extras: Seq<(String, JsonValue)>,
    tags: TagMap,
    runtime: RuntimeConfig,
) -> bool {
    if runtime.all_tags {
        extras.len() == 1 && extras[0].0@ == "tags"@ && spec_tags_object(
            extras[0].1,
            tags.spec_entries(),
        )
    } else {
        extras.len() == 0
    }
}

fn lookup_mapping<'a>(mappings: &'a Vec<(String, Mapping)>, name: &str) -> (r: Option<&'a Mapping>)
    ensures
        match spec_assoc_mapping(mappings@, name@) {
            Some(m) => r matches Some(found) && *found == m,
            None => r is None,
        },
{
    let n = mappings.len();
    let mut i: usize = 0;
    proof {
        assert(mappings@.skip(0) =~= mappings@);
    }
    while i < n
        invariant
            i <= n,
            n == mappings@.len(),
            spec_assoc_mapping(mappings@, name@) == spec_assoc_mapping(
                mappings@.skip(i as int),
                name@,
            ),
        decreases n - i,
    {
        proof {
            assert(mappings@.skip(i as int)[0] == mappings@[i as int]);
            assert(mappings@.skip(i as int).drop_first() =~= mappings@.skip(i as int + 1));
        }
        if str_eq(mappings[i].0.as_str(), name) {
            return Some(&mappings[i].1);
        }
        i = i + 1;
    }
    proof {
        assert(mappings@.skip(n as int) =~= Seq::<(String, Mapping)>::empty());
    }
    None
}

/// The tags as a JSON object, keys in first-insertion order.
fn tags_json(tags: &TagMap) -> (r: JsonValue)
    requires
        tags.wf(),
    ensures
        spec_tags_object(r, tags.spec_entries()),
{
    let n = tags.len();
    let mut members: Vec<(String, JsonValue)> = Vec::new();
    let mut i: usize = 0;
    while i < n
        invariant
            tags.wf(),
            i <= n,
            n == tags.spec_entries().len(),
            members@.len() == i,
            forall|k: int|
                0 <= k < i ==> (#[trigger] members@[k]).0@ == tags.spec_entries()[k].0@ && (
                members@[k].1 matches JsonValue::Str(s) && s@ == tags.spec_entries()[k].1@),
        decreases n - i,
    {
        let pair = tags.pair_at(i);
        members.push((pair.0.clone(), JsonValue::Str(pair.1.clone())));
        i = i + 1;
    }
    JsonValue::Obj(members)
}

/// The metadata as a JSON object; absent fields become nulls.
fn meta_json(m: &MetadataFields) -> (r: JsonValue)
    ensures
        r is Obj,
{
    let mut members: Vec<(String, JsonValue)> = Vec::new();
    members.push((String::from_str("id"), JsonValue::Int(m.id)));
    members.push(
        (
            String::from_str("version"),
            match m.version {
                Some(v) => JsonValue::Int(v),
                None => JsonValue::Null,
            },
        ),
    );
    members.push(
        (
            String::from_str("timestamp"),
            match &m.timestamp {
                Some(t) => JsonValue::Str(t.clone()),
                None => JsonValue::Null,
            },
        ),
    );
    members.push(
        (
            String::from_str("user"),
            match &m.user {
                Some(u) => JsonValue::Str(u.clone()),
                None => JsonValue::Null,
            },
        ),
    );
    members.push(
        (
            String::from_str("uid"),
            match m.uid {
                Some(v) => JsonValue::Int(v),
                None => JsonValue::Null,
            },
        ),
    );
    members.push(
        (
            String::from_str("changeset"),
            match m.changeset {
                Some(v) => JsonValue::Int(v),
                None => JsonValue::Null,
            },
        ),
    );
    members.push(
        (
            String::from_str("visible"),
            match m.visible {
                Some(v) => JsonValue::Bool(v),
                None => JsonValue::Null,
            },
        ),
    );
    JsonValue::Obj(members)
}

/// Project one column for one element.
pub fn project_column(
    col: &CompiledColumn,
    tags: &TagMap,
    metadata: &Option<MetadataFields>,
    refs: Option<&Vec<i64>>,
    mappings: &Vec<(String, Mapping)>,
) -> (r: Option<ColumnValue>)
    requires
        tags.wf(),
    ensures
        r matches Some(v) ==> spec_column_matches(
            *col,
            v,
            *tags,
            *metadata,
            spec_opt_refs(refs),
            mappings@,
        ),
        spec_column_present(*col, *tags, *metadata, refs is Some, mappings@) matches Some(
            present,
        ) ==> (r is Some <==> present),
{
    match &col.source {
        ColumnSource::Tag(key) => {
            match tags.get(key.as_str()) {
                Some(v) => Some(ColumnValue::String(v.clone())),
                None => None,
            }
        },
        ColumnSource::Meta(key) => {
            match metadata {
                Some(m) => {
                    match extract_meta_value(key.as_str(), Some(m)) {
                        Some(text) => Some(ColumnValue::String(text)),
                        None => None,
                    }
                },
                None => None,
            }
        },
        ColumnSource::AllTags => Some(ColumnValue::Json(tags_json(tags))),
        ColumnSource::AllMeta => {
            match metadata {
                Some(m) => Some(ColumnValue::Json(meta_json(m))),
                None => None,
            }
        },
        ColumnSource::Refs => {
            match refs {
                Some(r) => {
                    let n = r.len();
                    let mut items: Vec<JsonValue> = Vec::new();
                    let mut i: usize = 0;
                    while i < n
                        invariant
                            i <= n,
                            n == r@.len(),
                            items@.len() == i,
                            forall|k: int|
                                0 <= k < i ==> #[trigger] items@[k] == JsonValue::Int(r@[k]),
                        decreases n - i,
                    {
                        items.push(JsonValue::Int(r[i]));
                        i = i + 1;
                    }
                    Some(ColumnValue::Json(JsonValue::Arr(items)))
                },
                None => None,
            }
        },
        ColumnSource::Mapping(name) => {
            match lookup_mapping(mappings, name.as_str()) {
                Some(mapping) => {
                    match evaluate_mapping(mapping, tags) {
                        Some(v) => Some(ColumnValue::String(v)),
                        None => None,
                    }
                },
                None => None,
            }
        },
        ColumnSource::Cel(program) => {
            // Bind the tags and what metadata travels to expressions.
            let tag_map = build_string_map(tags);
            let mut meta_map: std::collections::HashMap<String, String> =
                std::collections::HashMap::new();
            if let Some(m) = metadata {
                meta_map.insert(String::from_str("id"), i64_to_dec(m.id));
                if let Some(v) = m.version {
                    meta_map.insert(String::from_str("version"), i64_to_dec(v));
                }
                if let Some(t) = &m.timestamp {
                    meta_map.insert(String::from_str("timestamp"), t.clone());
                }
            }
            let ctx = CelContext { tags: &tag_map, meta: &meta_map };
            match evaluate_cel(program, &ctx) {
                Ok(v) => {
                    match cel_value_to_string(&v) {
                        Some(s) => Some(ColumnValue::String(s)),
                        None => None,
                    }
                },
                Err(_) => None,
            }
        },
    }
}

/// Build one feature row: project every declared column, attach the
/// geometry, and, when the runtime asks for it, the whole tag map as an
/// extra.  Every emitted column is a correct projection of some declared
/// column; every deterministic column that should appear does.
pub fn build_feature_row(
    geometry: Geometry,
    tags: &TagMap,
    columns: &Vec<CompiledColumn>,
    runtime: &RuntimeConfig,
    metadata: Option<MetadataFields>,
    refs: Option<&Vec<i64>>,
    config: &CompiledConfig,
) -> (r: FeatureRow)
    requires
        tags.wf(),
    ensures
        r.geometry == geometry,
        r.columns@.len() <= columns@.len(),
        spec_row_columns_ok(
            r.columns@,
            columns@,
            *tags,
            metadata,
            spec_opt_refs(refs),
            config.mappings@,
        ),
        spec_row_columns_complete(
            r.columns@,
            columns@,
            *tags,
            metadata,
            spec_opt_refs(refs),
            config.mappings@,
        ),
        spec_row_extras_ok(r.extras@, *tags, *runtime),
{
    let mut column_values: Vec<(String, ColumnValue)> = Vec::new();
    let n = columns.len();
    let mut i: usize = 0;
    while i < n
        invariant
            tags.wf(),
            i <= n,
            n == columns@.len(),
            column_values@.len() <= i,
            spec_row_columns_ok(
                column_values@,
                columns@,
                *tags,
                metadata,
                spec_opt_refs(refs),
                config.mappings@,
            ),
            forall|k: int|
                0 <= k < i && spec_column_present(
                    #[trigger] columns@[k],
                    *tags,
                    metadata,
                    refs is Some,
                    config.mappings@,
                ) == Some(true) ==> exists|j: int|
                    0 <= j < column_values@.len() && (#[trigger] column_values@[j]).0 == columns@[
                        k
                    ].name && spec_column_matches(
                        columns@[k],
                        column_values@[j].1,
                        *tags,
                        metadata,
                        spec_opt_refs(refs),
                        config.mappings@,
                    ),
        decreases n - i,
    {
        let ghost before = column_values@;
        let value = project_column(&columns[i], tags, &metadata, refs, &config.mappings);
        let ghost got_some = value is Some;
        if let Some(v) = value {
            let ghost vv = v;
            column_values.push((columns[i].name.clone(), v));
            proof {
                assert(column_values@ =~= before.push(column_values@.last()));
                assert forall|j: int|
                    0 <= j < column_values@.len() implies spec_row_column_ok(
                    #[trigger] column_values@[j],
                    columns@,
                    *tags,
                    metadata,
                    spec_opt_refs(refs),
                    config.mappings@,
                ) by {
                    if j < before.len() {
                        assert(column_values@[j] == before[j]);
                    } else {
                        let pair = column_values@[j];
                        assert(pair.0 == columns@[i as int].name && spec_column_matches(
                            columns@[i as int],
                            pair.1,
                            *tags,
                            metadata,
                            spec_opt_refs(refs),
                            config.mappings@,
                        ));
                    }
                }
            }
        }
        proof {
            assert forall|k: int|
                0 <= k < i + 1 && spec_column_present(
                    #[trigger] columns@[k],
                    *tags,
                    metadata,
                    refs is Some,
                    config.mappings@,
                ) == Some(true) implies exists|j: int|
                0 <= j < column_values@.len() && (#[trigger] column_values@[j]).0 == columns@[
                    k
                ].name && spec_column_matches(
                    columns@[k],
                    column_values@[j].1,
                    *tags,
                    metadata,
                    spec_opt_refs(refs),
                    config.mappings@,
                ) by {
                if k == i as int {
                    assert(got_some);
                    let j = column_values@.len() - 1;
                    assert(0 <= j < column_values@.len() && column_values@[j].0 == columns@[
                        k
                    ].name && spec_column_matches(
                        columns@[k],
                        column_values@[j].1,
                        *tags,
                        metadata,
                        spec_opt_refs(refs),
                        config.mappings@,
                    ));
                } else {
                    let j = choose|j: int|
                        0 <= j < before.len() && (#[trigger] before[j]).0 == columns@[k].name
                            && spec_column_matches(
                            columns@[k],
                            before[j].1,
                            *tags,
                            metadata,
                            spec_opt_refs(refs),
                            config.mappings@,
                        );
                    assert(column_values@[j] == before[j]);
                }
            }
        }
        i = i + 1;
    }
    let mut extras: Vec<(String, JsonValue)> = Vec::new();
    if runtime.all_tags {
        proof {
            reveal_strlit("tags");
        }
        extras.push((String::from_str("tags"), tags_json(tags)));
    }
    let ghost final_cols = column_values@;
    let result = FeatureRow { geometry, columns: column_values, extras };
    proof {
        assert(result.columns@ == final_cols);
    }
    result
}

// ---------------------------------------------------------------------------
// Block processing
// ---------------------------------------------------------------------------

/// The coordinates a way's references resolve to; unresolved references
/// are dropped.
pub open spec fn spec_resolved(refs: Seq<i64>, store: NodeStoreReader) -> Seq<Coord>
    decreases refs.len(),
{
    if refs.len() == 0 {
        Seq::empty()
    } else {
        spec_resolved(refs.drop_last(), store) + (match store.spec_get(refs.last() as u64) {
            Some(pair) => seq![Coord { lon: pair.0, lat: pair.1 }],
            None => Seq::empty(),
        })
    }
}

/// Whether an element passes the geometry-kind gate and the filter — and,
/// for a way, resolves to at least two coordinates.
pub open spec fn spec_element_passes(
    e: Element,
    config: CompiledConfig,
    store: NodeStoreReader,
) -> bool {
    match e {
        Element::Node(nd) => config.table.geometry.node && spec_eval(
            config.table.filter,
            nd.tags.as_map(),
        ),
        Element::Way(wd) => config.table.geometry.way.spec_enabled() && spec_eval(
            config.table.filter,
            wd.tags.as_map(),
        ) && spec_resolved(wd.refs@, store).len() >= 2,
        Element::Relation => false,
    }
}

/// The subsequence of elements that pass, in block order.
pub open spec fn spec_passing(
    s: Seq<Element>,
    config: CompiledConfig,
    store: NodeStoreReader,
) -> Seq<Element>
    decreases s.len(),
{
    if s.len() == 0 {
        Seq::empty()
    } else {
        spec_passing(s.drop_last(), config, store) + (if spec_element_passes(
            s.last(),
            config,
            store,
        ) {
            seq![s.last()]
        } else {
            Seq::empty()
        })
    }
}

/// How many elements of the block pass.
pub open spec fn spec_pass_count(
    s: Seq<Element>,
    config: CompiledConfig,
    store: NodeStoreReader,
) -> int {
    spec_passing(s, config, store).len() as int
}

/// Whether `row` is a correct output for `e`: the element's geometry, a
/// correct and complete column projection over its tags, metadata and
/// references, and the extras policy.
pub open spec fn spec_row_matches_element(
    row: FeatureRow,
    e: Element,
    config: CompiledConfig,
    runtime: RuntimeConfig,
    store: NodeStoreReader,
) -> bool {
    match e {
        Element::Node(nd) => {
            &&& row.geometry == Geometry::Point(Coord { lon: nd.lon, lat: nd.lat })
            &&& spec_row_columns_ok(
                row.columns@,
                config.table.columns@,
                nd.tags,
                nd.meta,
                None::<Seq<i64>>,
                config.mappings@,
            )
            &&& spec_row_columns_complete(
                row.columns@,
                config.table.columns@,
                nd.tags,
                nd.meta,
                None::<Seq<i64>>,
                config.mappings@,
            )
            &&& spec_row_extras_ok(row.extras@, nd.tags, runtime)
        },
        Element::Way(wd) => {
            &&& spec_way_geometry_ok(
                config.table.geometry,
                spec_resolved(wd.refs@, store),
                row.geometry,
            )
            &&& spec_row_columns_ok(
                row.columns@,
                config.table.columns@,
                wd.tags,
                wd.meta,
                Some(wd.refs@),
                config.mappings@,
            )
            &&& spec_row_columns_complete(
                row.columns@,
                config.table.columns@,
                wd.tags,
                wd.meta,
                Some(wd.refs@),
                config.mappings@,
            )
            &&& spec_row_extras_ok(row.extras@, wd.tags, runtime)
        },
        Element::Relation => false,
    }
}

/// Resolve a way's node references against the store, dropping unresolved
/// references silently.
pub fn resolve_way_coords(refs: &Vec<i64>, node_store: &NodeStoreReader) -> (coords: Vec<Coord>)
    requires
        node_store.wf(),
    ensures
        coords@ == spec_resolved(refs@, *node_store),
{
    let n = refs.len();
    let mut coords: Vec<Coord> = Vec::new();
    let mut i: usize = 0;
    while i < n
        invariant
            i <= n,
            n == refs@.len(),
            node_store.wf(),
            coords@ == spec_resolved(refs@.take(i as int), *node_store),
        decreases n - i,
    {
        match node_store.get(refs[i] as u64) {
            Some(pair) => {
                coords.push(Coord { lon: pair.0, lat: pair.1 });
            },
            None => {},
        }
        i = i + 1;
        proof {
            assert(refs@.take(i as int).drop_last() =~= refs@.take(i as int - 1));
            assert(refs@.take(i as int).last() == refs@[i as int - 1]);
        }
    }
    proof {
        assert(refs@.take(n as int) =~= refs@);
    }
    coords
}

/// Process one decoded block against the full configuration.
///
/// Law: exactly one row is emitted for each element that passes the
/// geometry-kind gate and the filter (a way also needs two resolvable
/// coordinates), in block order, and each row carries that element's
/// geometry, columns and extras; no other element produces anything.
#[verifier::loop_isolation(false)]
pub fn process_block_collect(
    elements: Vec<Element>,
    config: &CompiledConfig,
    runtime: &RuntimeConfig,
    node_store: &NodeStoreReader,
) -> (r: Result<Vec<FeatureRow>, CosmoError>)
    requires
        node_store.wf(),
        forall|i: int| 0 <= i < elements@.len() ==> element_wf(#[trigger] elements@[i]),
    ensures
        r matches Ok(rows) && rows@.len() == spec_pass_count(elements@, *config, *node_store) && (
        forall|j: int|
            0 <= j < rows@.len() ==> spec_row_matches_element(
                #[trigger] rows@[j],
                spec_passing(elements@, *config, *node_store)[j],
                *config,
                *runtime,
                *node_store,
            )),
{
    let mut rows: Vec<FeatureRow> = Vec::new();
    let n = elements.len();
    let ghost all = elements@;
    let mut rest = elements;
    let mut i: usize = 0;
    proof {
        assert(rest@ =~= all.skip(0));
    }
    while i < n
        invariant
            i <= n,
            n == all.len(),
            rest@ == all.skip(i as int),
            rows@.len() == spec_passing(all.take(i as int), *config, *node_store).len(),
            forall|j: int|
                0 <= j < rows@.len() ==> spec_row_matches_element(
                    #[trigger] rows@[j],
                    spec_passing(all.take(i as int), *config, *node_store)[j],
                    *config,
                    *runtime,
                    *node_store,
                ),
        decreases n - i,
    {
        proof {
            assert(all.skip(i as int)[0] == all[i as int]);
        }
        let element = rest.remove(0);
        let ghost elem = all[i as int];
        let ghost prev_passing = spec_passing(all.take(i as int), *config, *node_store);
        proof {
            assert(rest@ =~= all.skip(i as int + 1));
            assert(all.take(i as int + 1).drop_last() =~= all.take(i as int));
            assert(all.take(i as int + 1).last() == all[i as int]);
        }
        let ghost rows_before = rows@;
        match element {
            Element::Node(node) => {
                if config.table.geometry.node && evaluate_filter(&config.table.filter, &node.tags)
                    {
                    let ghost node_spec = node;
                    let row = build_feature_row(
                        Geometry::Point(Coord { lon: node.lon, lat: node.lat }),
                        &node.tags,
                        &config.table.columns,
                        runtime,
                        node.meta,
                        None,
                        config,
                    );
                    rows.push(row);
                    proof {
                        assert(spec_passing(all.take(i as int + 1), *config, *node_store)
                            =~= prev_passing.push(elem));
                        assert(rows@ =~= rows_before.push(rows@.last()));
                        assert(spec_row_matches_element(
                            rows@.last(),
                            elem,
                            *config,
                            *runtime,
                            *node_store,
                        ));
                    }
                } else {
                    proof {
                        assert(spec_passing(all.take(i as int + 1), *config, *node_store)
                            =~= prev_passing);
                    }
                }
            },
            Element::Way(way) => {
                if config.table.geometry.way.enabled() && evaluate_filter(
                    &config.table.filter,
                    &way.tags,
                ) {
                    let coords = resolve_way_coords(&way.refs, node_store);
                    if coords.len() >= 2 {
                        let geometry = build_way_geometry(&config.table.geometry, coords);
                        let row = build_feature_row(
                            geometry,
                            &way.tags,
                            &config.table.columns,
                            runtime,
                            way.meta,
                            Some(&way.refs),
                            config,
                        );
                        rows.push(row);
                        proof {
                            assert(spec_passing(all.take(i as int + 1), *config, *node_store)
                                =~= prev_passing.push(elem));
                            assert(rows@ =~= rows_before.push(rows@.last()));
                            assert(spec_row_matches_element(
                                rows@.last(),
                                elem,
                                *config,
                                *runtime,
                                *node_store,
                            ));
                        }
                    } else {
                        proof {
                            assert(spec_passing(all.take(i as int + 1), *config, *node_store)
                                =~= prev_passing);
                        }
                    }
                } else {
                    proof {
                        assert(spec_passing(all.take(i as int + 1), *config, *node_store)
                            =~= prev_passing);
                    }
                }
            },
            Element::Relation => {
                proof {
                    assert(spec_passing(all.take(i as int + 1), *config, *node_store)
                        =~= prev_passing);
                }
            },
        }
        i = i + 1;
    }
    proof {
        assert(all.take(n as int) =~= all);
    }
    Ok(rows)
}

/// Whether a node element passes in nodes-only processing.
pub open spec fn spec_node_passes(e: Element, config: CompiledConfig) -> bool {
    match e {
        Element::Node(nd) => config.table.geometry.node && spec_eval(
            config.table.filter,
            nd.tags.as_map(),
        ),
        _ => false,
    }
}

/// The subsequence of nodes that pass, in block order.
pub open spec fn spec_node_passing(s: Seq<Element>, config: CompiledConfig) -> Seq<Element>
    decreases s.len(),
{
    if s.len() == 0 {
        Seq::empty()
    } else {
        spec_node_passing(s.drop_last(), config) + (if spec_node_passes(s.last(), config) {
            seq![s.last()]
        } else {
            Seq::empty()
        })
    }
}

/// How many elements pass in nodes-only processing.
pub open spec fn spec_node_pass_count(s: Seq<Element>, config: CompiledConfig) -> int {
    spec_node_passing(s, config).len() as int
}

/// Whether `row` is a correct output for a passing node in nodes-only
/// processing.
pub open spec fn spec_row_matches_node(
    row: FeatureRow,
    e: Element,
    config: CompiledConfig,
    runtime: RuntimeConfig,
) -> bool {
    match e {
        Element::Node(nd) => {
            &&& row.geometry == Geometry::Point(Coord { lon: nd.lon, lat: nd.lat })
            &&& spec_row_columns_ok(
                row.columns@,
                config.table.columns@,
                nd.tags,
                nd.meta,
                None::<Seq<i64>>,
                config.mappings@,
            )
            &&& spec_row_columns_complete(
                row.columns@,
                config.table.columns@,
                nd.tags,
                nd.meta,
                None::<Seq<i64>>,
                config.mappings@,
            )
            &&& spec_row_extras_ok(row.extras@, nd.tags, runtime)
        },
        _ => false,
    }
}

/// Process one decoded block when only nodes can produce geometry.
///
/// The same law as full processing, with ways and relations never passing
/// and no node store consulted.
#[verifier::loop_isolation(false)]
pub fn process_block_nodes_only_collect(
    elements: Vec<Element>,
    config: &CompiledConfig,
    runtime: &RuntimeConfig,
) -> (r: Result<Vec<FeatureRow>, CosmoError>)
    requires
        forall|i: int| 0 <= i < elements@.len() ==> element_wf(#[trigger] elements@[i]),
    ensures
        r matches Ok(rows) && rows@.len() == spec_node_pass_count(elements@, *config) && (forall|
            j: int,
        |
            0 <= j < rows@.len() ==> spec_row_matches_node(
                #[trigger] rows@[j],
                spec_node_passing(elements@, *config)[j],
                *config,
                *runtime,
            )),
{
    let mut rows: Vec<FeatureRow> = Vec::new();
    let n = elements.len();
    let ghost all = elements@;
    let mut rest = elements;
    let mut i: usize = 0;
    proof {
        assert(rest@ =~= all.skip(0));
    }
    while i < n
        invariant
            i <= n,
            n == all.len(),
            rest@ == all.skip(i as int),
            rows@.len() == spec_node_passing(all.take(i as int), *config).len(),
            forall|j: int|
                0 <= j < rows@.len() ==> spec_row_matches_node(
                    #[trigger] rows@[j],
                    spec_node_passing(all.take(i as int), *config)[j],
                    *config,
                    *runtime,
                ),
        decreases n - i,
    {
        proof {
            assert(all.skip(i as int)[0] == all[i as int]);
        }
        let element = rest.remove(0);
        let ghost elem = all[i as int];
        let ghost prev_passing = spec_node_passing(all.take(i as int), *config);
        proof {
            assert(rest@ =~= all.skip(i as int + 1));
            assert(all.take(i as int + 1).drop_last() =~= all.take(i as int));
            assert(all.take(i as int + 1).last() == all[i as int]);
        }
        let ghost rows_before = rows@;
        match element {
            Element::Node(node) => {
                if config.table.geometry.node && evaluate_filter(&config.table.filter, &node.tags)
                    {
                    let row = build_feature_row(
                        Geometry::Point(Coord { lon: node.lon, lat: node.lat }),
                        &node.tags,
                        &config.table.columns,
                        runtime,
                        node.meta,
                        None,
                        config,
                    );
                    rows.push(row);
                    proof {
                        assert(spec_node_passing(all.take(i as int + 1), *config)
                            =~= prev_passing.push(elem));
                        assert(rows@ =~= rows_before.push(rows@.last()));
                        assert(spec_row_matches_node(rows@.last(), elem, *config, *runtime));
                    }
                } else {
                    proof {
                        assert(spec_node_passing(all.take(i as int + 1), *config)
                            =~= prev_passing);
                    }
                }
            },
            _ => {
                proof {
                    assert(spec_node_passing(all.take(i as int + 1), *config) =~= prev_passing);
                }
            },
        }
        i = i + 1;
    }
    proof {
        assert(all.take(n as int) =~= all);
    }
    Ok(rows)
}

} // verus!
