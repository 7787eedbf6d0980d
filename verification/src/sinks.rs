//! The GeoJSON and GeoJSON-Lines serializers, and the verified pieces of
//! the GeoParquet sink.
//!
//! Each sink turns rows into text chunks; appending the chunks in call
//! order yields exactly the document the specification functions describe.
//! Writing the chunks to a file is the caller's business.

use vstd::prelude::*;
use vstd::string::*;
use crate::feature::{ColumnValue, Coord, FeatureRow, Geometry};
use crate::json::{
    JsonValue, spec_json, spec_json_string, spec_json_members, push_json, push_json_string,
    spec_esc_char, spec_escaped,
};
use crate::numeric::{Decimal, spec_dec_string};
use crate::strnum::{push_char, spec_dec, spec_dec_i64, spec_digit, spec_pad_dec, str_eq};

verus! {

// ---------------------------------------------------------------------------
// Feature text
// ---------------------------------------------------------------------------

/// The JSON value a column value projects to in output properties.
pub open spec fn spec_col_json(v: ColumnValue) -> JsonValue {
    match v {
        ColumnValue::String(s) => JsonValue::Str(s),
        ColumnValue::Integer(n) => JsonValue::Int(n),
        ColumnValue::Float(d) => JsonValue::Num(d),
        ColumnValue::Json(j) => j,
    }
}

/// Whether a member list holds a key.
pub open spec fn spec_has_name(members: Seq<(String, JsonValue)>, name: Seq<char>) -> bool {
    exists|i: int| 0 <= i < members.len() && (#[trigger] members[i]).0@ == name
}

/// The properties of a row: the extras, then each column whose name is not
/// already taken — extras win a name collision.
pub open spec fn spec_merge_props(
    acc: Seq<(String, JsonValue)>,
    cols: Seq<(String, ColumnValue)>,
) -> Seq<(String, JsonValue)>
    decreases cols.len(),
{
    if cols.len() == 0 {
        acc
    } else {
        let acc2 = if spec_has_name(acc, cols[0].0@) {
            acc
        } else {
            acc.push((cols[0].0, spec_col_json(cols[0].1)))
        };
        spec_merge_props(acc2, cols.drop_first())
    }
}

/// The text of one coordinate pair: longitude then latitude, degrees, as
/// exact decimals of seven fractional digits.
pub open spec fn spec_coord_text(c: Coord) -> Seq<char> {
    seq!['['] + spec_dec_string(c.lon as int, 7) + seq![','] + spec_dec_string(c.lat as int, 7)
        + seq![']']
}

/// The text of a coordinate list.
pub open spec fn spec_coords_text(s: Seq<Coord>) -> Seq<char>
    decreases s.len(),
{
    if s.len() == 0 {
        Seq::empty()
    } else if s.len() == 1 {
        spec_coord_text(s.last())
    } else {
        spec_coords_text(s.drop_last()) + seq![','] + spec_coord_text(s.last())
    }
}

/// The GeoJSON text of a geometry.
pub open spec fn spec_geometry_text(g: Geometry) -> Seq<char> {
    match g {
        Geometry::Point(c) => "{\"type\":\"Point\",\"coordinates\":"@ + spec_coord_text(c)
            + seq!['}'],
        Geometry::LineString(coords) => "{\"type\":\"LineString\",\"coordinates\":["@
            + spec_coords_text(coords@) + seq![']', '}'],
        Geometry::Polygon(ring) => "{\"type\":\"Polygon\",\"coordinates\":[["@ + spec_coords_text(
            ring@,
        ) + seq![']', ']', '}'],
    }
}

/// The GeoJSON text of one feature.
pub open spec fn spec_feature_text(row: FeatureRow) -> Seq<char> {
    "{\"type\":\"Feature\",\"geometry\":"@ + spec_geometry_text(row.geometry)
        + ",\"properties\":{"@ + spec_json_members(spec_merge_props(row.extras@, row.columns@))
        + seq!['}', '}']
}

fn push_coord(out: &mut String, c: Coord)
    ensures
        final(out)@ == old(out)@ + spec_coord_text(c),
{
    push_char(out, '[');
    let lon = Decimal::new(c.lon as i64, 7);
    let t = lon.to_dec_string();
    out.append(t.as_str());
    push_char(out, ',');
    let lat = Decimal::new(c.lat as i64, 7);
    let t2 = lat.to_dec_string();
    out.append(t2.as_str());
    push_char(out, ']');
    proof {
        assert(out@ =~= old(out)@ + spec_coord_text(c));
    }
}

fn push_coords(out: &mut String, coords: &Vec<Coord>)
    ensures
        final(out)@ == old(out)@ + spec_coords_text(coords@),
{
    let n = coords.len();
    let mut i: usize = 0;
    while i < n
        invariant
            i <= n,
            n == coords@.len(),
            out@ == old(out)@ + spec_coords_text(coords@.take(i as int)),
        decreases n - i,
    {
        if i > 0 {
            push_char(out, ',');
        }
        push_coord(out, coords[i]);
        i = i + 1;
        proof {
            assert(coords@.take(i as int).drop_last() =~= coords@.take(i as int - 1));
            assert(coords@.take(i as int).last() == coords@[i as int - 1]);
            assert(out@ =~= old(out)@ + spec_coords_text(coords@.take(i as int)));
        }
    }
    proof {
        assert(coords@.take(n as int) =~= coords@);
    }
}

fn push_geometry(out: &mut String, g: &Geometry)
    ensures
        final(out)@ == old(out)@ + spec_geometry_text(*g),
{
    match g {
        Geometry::Point(c) => {
            proof {
                reveal_strlit("{\"type\":\"Point\",\"coordinates\":");
            }
            out.append("{\"type\":\"Point\",\"coordinates\":");
            push_coord(out, *c);
            push_char(out, '}');
            proof {
                assert(out@ =~= old(out)@ + spec_geometry_text(*g));
            }
        },
        Geometry::LineString(coords) => {
            proof {
                reveal_strlit("{\"type\":\"LineString\",\"coordinates\":[");
            }
            out.append("{\"type\":\"LineString\",\"coordinates\":[");
            push_coords(out, coords);
            push_char(out, ']');
            push_char(out, '}');
            proof {
                assert(out@ =~= old(out)@ + spec_geometry_text(*g));
            }
        },
        Geometry::Polygon(ring) => {
            proof {
                reveal_strlit("{\"type\":\"Polygon\",\"coordinates\":[[");
            }
            out.append("{\"type\":\"Polygon\",\"coordinates\":[[");
            push_coords(out, ring);
            push_char(out, ']');
            push_char(out, ']');
            push_char(out, '}');
            proof {
                assert(out@ =~= old(out)@ + spec_geometry_text(*g));
            }
        },
    }
}

fn has_member_name(members: &Vec<(String, JsonValue)>, name: &str) -> (r: bool)
    ensures
        r == spec_has_name(members@, name@),
{
    let n = members.len();
    let mut i: usize = 0;
    while i < n
        invariant
            i <= n,
            n == members@.len(),
            forall|j: int| 0 <= j < i ==> (#[trigger] members@[j]).0@ != name@,
        decreases n - i,
    {
        if str_eq(members[i].0.as_str(), name) {
            return true;
        }
        i = i + 1;
    }
    proof {
        if spec_has_name(members@, name@) {
            let j = choose|j: int| 0 <= j < members@.len() && (#[trigger] members@[j]).0@ == name@;
            assert(members@[j].0@ != name@);
        }
    }
    false
}

fn merge_props(extras: Vec<(String, JsonValue)>, columns: Vec<(String, ColumnValue)>) -> (r: Vec<
    (String, JsonValue),
>)
    ensures
        r@ == spec_merge_props(extras@, columns@),
{
    let ghost all = columns@;
    let mut members = extras;
    let mut rest = columns;
    let ghost mut k: int = 0;
    proof {
        assert(rest@ =~= all.skip(0));
    }
    while rest.len() > 0
        invariant
            0 <= k <= all.len(),
            rest@ == all.skip(k),
            spec_merge_props(extras@, all) == spec_merge_props(members@, all.skip(k)),
        decreases rest@.len(),
    {
        proof {
            assert(all.skip(k)[0] == all[k]);
            assert(all.skip(k).drop_first() =~= all.skip(k + 1));
        }
        let (name, value) = rest.remove(0);
        let present = has_member_name(&members, name.as_str());
        if !present {
            let jv: JsonValue = match value {
                ColumnValue::String(s) => JsonValue::Str(s),
                ColumnValue::Integer(n) => JsonValue::Int(n),
                ColumnValue::Float(d) => JsonValue::Num(d),
                ColumnValue::Json(j) => j,
            };
            members.push((name, jv));
        }
        proof {
            k = k + 1;
        }
    }
    proof {
        assert(all.skip(k) =~= Seq::<(String, ColumnValue)>::empty());
        assert(rest@.len() == 0);
    }
    members
}

/// The GeoJSON text of one feature: type, geometry, properties — extras
/// taking precedence over columns on a name collision.
pub fn feature_to_json_text(row: FeatureRow) -> (r: String)
    ensures
        r@ == spec_feature_text(row),
{
    let ghost row_spec = row;
    let FeatureRow { geometry, columns, extras } = row;
    let mut out = String::new();
    proof {
        reveal_strlit("{\"type\":\"Feature\",\"geometry\":");
        reveal_strlit(",\"properties\":{");
    }
    out.append("{\"type\":\"Feature\",\"geometry\":");
    push_geometry(&mut out, &geometry);
    out.append(",\"properties\":{");
    let members = merge_props(extras, columns);
    let n = members.len();
    let mut i: usize = 0;
    let ghost base = out@;
    while i < n
        invariant
            i <= n,
            n == members@.len(),
            out@ == base + spec_json_members(members@.take(i as int)),
        decreases n - i,
    {
        if i > 0 {
            push_char(&mut out, ',');
        }
        push_json_string(&mut out, members[i].0.as_str());
        push_char(&mut out, ':');
        push_json(&mut out, &members[i].1);
        i = i + 1;
        proof {
            assert(members@.take(i as int).drop_last() =~= members@.take(i as int - 1));
            assert(members@.take(i as int).last() == members@[i as int - 1]);
            assert(out@ =~= base + spec_json_members(members@.take(i as int)));
        }
    }
    push_char(&mut out, '}');
    push_char(&mut out, '}');
    proof {
        assert(members@.take(n as int) =~= members@);
        assert(out@ =~= spec_feature_text(row_spec));
    }
    out
}

// ---------------------------------------------------------------------------
// The feature text never holds a raw newline
// ---------------------------------------------------------------------------

/// No raw newline anywhere in the text.
pub open spec fn line_free(s: Seq<char>) -> bool {
    forall|i: int| 0 <= i < s.len() ==> s[i] != '\n'
}

proof fn lemma_line_free_concat(a: Seq<char>, b: Seq<char>)
    requires
        line_free(a),
        line_free(b),
    ensures
        line_free(a + b),
{
    assert forall|i: int| 0 <= i < (a + b).len() implies (a + b)[i] != '\n' by {
        if i < a.len() {
            assert((a + b)[i] == a[i]);
        } else {
            assert((a + b)[i] == b[i - a.len()]);
        }
    }
}

proof fn lemma_line_free_dec(n: nat)
    ensures
        line_free(spec_dec(n)),
    decreases n,
{
    if n >= 10 {
        lemma_line_free_dec(n / 10);
        lemma_line_free_concat(spec_dec(n / 10), seq![spec_digit(n % 10)]);
    }
}

proof fn lemma_line_free_pad(n: nat, width: nat)
    ensures
        line_free(spec_pad_dec(n, width)),
    decreases width,
{
    if width > 0 {
        lemma_line_free_pad(n / 10, (width - 1) as nat);
        lemma_line_free_concat(
            spec_pad_dec(n / 10, (width - 1) as nat),
            seq![spec_digit(n % 10)],
        );
    }
}

proof fn lemma_line_free_dec_i64(n: int)
    ensures
        line_free(spec_dec_i64(n)),
{
    if n < 0 {
        lemma_line_free_dec((-n) as nat);
        lemma_line_free_concat(seq!['-'], spec_dec((-n) as nat));
    } else {
        lemma_line_free_dec(n as nat);
    }
}

proof fn lemma_line_free_dec_string(m: int, f: nat)
    ensures
        line_free(spec_dec_string(m, f)),
{
    let a = if m < 0 {
        (-m) as nat
    } else {
        m as nat
    };
    if f == 0 {
        lemma_line_free_dec_i64(m);
    } else {
        let sign: Seq<char> = if m < 0 {
            seq!['-']
        } else {
            Seq::empty()
        };
        lemma_line_free_dec(a / (crate::numeric::pow10(f) as nat));
        lemma_line_free_pad(a, f);
        lemma_line_free_concat(sign, spec_dec(a / (crate::numeric::pow10(f) as nat)));
        lemma_line_free_concat(
            sign + spec_dec(a / (crate::numeric::pow10(f) as nat)),
            seq!['.'],
        );
        lemma_line_free_concat(
            sign + spec_dec(a / (crate::numeric::pow10(f) as nat)) + seq!['.'],
            spec_pad_dec(a, f),
        );
    }
}

proof fn lemma_line_free_escaped(s: Seq<char>)
    ensures
        line_free(spec_escaped(s)),
    decreases s.len(),
{
    if s.len() > 0 {
        lemma_line_free_escaped(s.drop_last());
        assert(line_free(spec_esc_char(s.last())));
        lemma_line_free_concat(spec_escaped(s.drop_last()), spec_esc_char(s.last()));
    }
}

proof fn lemma_line_free_json_string(s: Seq<char>)
    ensures
        line_free(spec_json_string(s)),
{
    lemma_line_free_escaped(s);
    lemma_line_free_concat(seq!['"'], spec_escaped(s));
    lemma_line_free_concat(seq!['"'] + spec_escaped(s), seq!['"']);
}

proof fn lemma_line_free_json(v: JsonValue)
    ensures
        line_free(spec_json(v)),
    decreases v, 2int,
{
    reveal_strlit("null");
    reveal_strlit("true");
    reveal_strlit("false");
    match v {
        JsonValue::Null => {},
        JsonValue::Bool(_) => {},
        JsonValue::Int(n) => {
            lemma_line_free_dec_i64(n as int);
        },
        JsonValue::Num(d) => {
            lemma_line_free_dec_string(d.spec_mantissa() as int, d.spec_scale());
        },
        JsonValue::Str(s) => {
            lemma_line_free_json_string(s@);
        },
        JsonValue::Arr(elems) => {
            lemma_line_free_json_items(elems@);
            lemma_line_free_concat(seq!['['], crate::json::spec_json_items(elems@));
            lemma_line_free_concat(
                seq!['['] + crate::json::spec_json_items(elems@),
                seq![']'],
            );
        },
        JsonValue::Obj(members) => {
            lemma_line_free_json_members(members@);
            lemma_line_free_concat(seq!['{'], spec_json_members(members@));
            lemma_line_free_concat(seq!['{'] + spec_json_members(members@), seq!['}']);
        },
    }
}

proof fn lemma_line_free_json_items(s: Seq<JsonValue>)
    ensures
        line_free(crate::json::spec_json_items(s)),
    decreases s, 1int,
{
    if s.len() == 0 {
    } else if s.len() == 1 {
        lemma_line_free_json(s.last());
    } else {
        lemma_line_free_json_items(s.drop_last());
        lemma_line_free_json(s.last());
        lemma_line_free_concat(crate::json::spec_json_items(s.drop_last()), seq![',']);
        lemma_line_free_concat(
            crate::json::spec_json_items(s.drop_last()) + seq![','],
            spec_json(s.last()),
        );
    }
}

proof fn lemma_line_free_json_members(s: Seq<(String, JsonValue)>)
    ensures
        line_free(spec_json_members(s)),
    decreases s, 1int,
{
    if s.len() == 0 {
    } else if s.len() == 1 {
        lemma_line_free_json_string(s.last().0@);
        lemma_line_free_json(s.last().1);
        lemma_line_free_concat(spec_json_string(s.last().0@), seq![':']);
        lemma_line_free_concat(
            spec_json_string(s.last().0@) + seq![':'],
            spec_json(s.last().1),
        );
    } else {
        lemma_line_free_json_members(s.drop_last());
        lemma_line_free_json_string(s.last().0@);
        lemma_line_free_json(s.last().1);
        lemma_line_free_concat(spec_json_members(s.drop_last()), seq![',']);
        lemma_line_free_concat(
            spec_json_members(s.drop_last()) + seq![','],
            spec_json_string(s.last().0@),
        );
        lemma_line_free_concat(
            spec_json_members(s.drop_last()) + seq![','] + spec_json_string(s.last().0@),
            seq![':'],
        );
        lemma_line_free_concat(
            spec_json_members(s.drop_last()) + seq![','] + spec_json_string(s.last().0@)
                + seq![':'],
            spec_json(s.last().1),
        );
    }
}

proof fn lemma_line_free_coords(s: Seq<Coord>)
    ensures
        line_free(spec_coords_text(s)),
    decreases s.len(),
{
    if s.len() == 0 {
    } else {
        let c = s.last();
        lemma_line_free_dec_string(c.lon as int, 7);
        lemma_line_free_dec_string(c.lat as int, 7);
        lemma_line_free_concat(seq!['['], spec_dec_string(c.lon as int, 7));
        lemma_line_free_concat(seq!['['] + spec_dec_string(c.lon as int, 7), seq![',']);
        lemma_line_free_concat(
            seq!['['] + spec_dec_string(c.lon as int, 7) + seq![','],
            spec_dec_string(c.lat as int, 7),
        );
        lemma_line_free_concat(
            seq!['['] + spec_dec_string(c.lon as int, 7) + seq![','] + spec_dec_string(
                c.lat as int,
                7,
            ),
            seq![']'],
        );
        if s.len() == 1 {
        } else {
            lemma_line_free_coords(s.drop_last());
            lemma_line_free_concat(spec_coords_text(s.drop_last()), seq![',']);
            lemma_line_free_concat(
                spec_coords_text(s.drop_last()) + seq![','],
                spec_coord_text(c),
            );
        }
    }
}

/// Law: the text of one feature holds no raw newline, so in line-delimited
/// output every feature is exactly one line.
pub proof fn lemma_feature_text_line_free(row: FeatureRow)
    ensures
        line_free(spec_feature_text(row)),
{
    reveal_strlit("{\"type\":\"Feature\",\"geometry\":");
    reveal_strlit(",\"properties\":{");
    reveal_strlit("{\"type\":\"Point\",\"coordinates\":");
    reveal_strlit("{\"type\":\"LineString\",\"coordinates\":[");
    reveal_strlit("{\"type\":\"Polygon\",\"coordinates\":[[");
    let gt = spec_geometry_text(row.geometry);
    match row.geometry {
        Geometry::Point(c) => {
            lemma_line_free_coords(seq![c]);
            assert(spec_coords_text(seq![c]) == spec_coord_text(c));
            lemma_line_free_concat("{\"type\":\"Point\",\"coordinates\":"@, spec_coord_text(c));
            lemma_line_free_concat(
                "{\"type\":\"Point\",\"coordinates\":"@ + spec_coord_text(c),
                seq!['}'],
            );
        },
        Geometry::LineString(coords) => {
            lemma_line_free_coords(coords@);
            lemma_line_free_concat(
                "{\"type\":\"LineString\",\"coordinates\":["@,
                spec_coords_text(coords@),
            );
            lemma_line_free_concat(
                "{\"type\":\"LineString\",\"coordinates\":["@ + spec_coords_text(coords@),
                seq![']', '}'],
            );
        },
        Geometry::Polygon(ring) => {
            lemma_line_free_coords(ring@);
            lemma_line_free_concat(
                "{\"type\":\"Polygon\",\"coordinates\":[["@,
                spec_coords_text(ring@),
            );
            lemma_line_free_concat(
                "{\"type\":\"Polygon\",\"coordinates\":[["@ + spec_coords_text(ring@),
                seq![']', ']', '}'],
            );
        },
    }
    lemma_line_free_json_members(spec_merge_props(row.extras@, row.columns@));
    lemma_line_free_concat("{\"type\":\"Feature\",\"geometry\":"@, gt);
    lemma_line_free_concat("{\"type\":\"Feature\",\"geometry\":"@ + gt, ",\"properties\":{"@);
    lemma_line_free_concat(
        "{\"type\":\"Feature\",\"geometry\":"@ + gt + ",\"properties\":{"@,
        spec_json_members(spec_merge_props(row.extras@, row.columns@)),
    );
    lemma_line_free_concat(
        "{\"type\":\"Feature\",\"geometry\":"@ + gt + ",\"properties\":{"@ + spec_json_members(
            spec_merge_props(row.extras@, row.columns@),
        ),
        seq!['}', '}'],
    );
}

// ---------------------------------------------------------------------------
// The sinks
// ---------------------------------------------------------------------------

/// The opening text of a GeoJSON feature collection.
pub open spec fn spec_geojson_header() -> Seq<char> {
    "{\n  \"type\": \"FeatureCollection\",\n  \"features\": [\n"@
}

/// The closing text of a GeoJSON feature collection.
pub open spec fn spec_geojson_tail() -> Seq<char> {
    "\n  ]\n}\n"@
}

/// The features joined with comma-newline separators.
pub open spec fn spec_geojson_features(rows: Seq<FeatureRow>) -> Seq<char>
    decreases rows.len(),
{
    if rows.len() == 0 {
        Seq::empty()
    } else if rows.len() == 1 {
        spec_feature_text(rows.last())
    } else {
        spec_geojson_features(rows.drop_last()) + ",\n"@ + spec_feature_text(rows.last())
    }
}

/// The whole text of a GeoJSON feature collection over the given rows.
pub open spec fn spec_geojson_collection(rows: Seq<FeatureRow>) -> Seq<char> {
    spec_geojson_header() + spec_geojson_features(rows) + spec_geojson_tail()
}

/// The GeoJSON sink: one feature collection, the preamble written up
/// front, a separator between features, the closing brackets at the end.
pub struct GeoJsonSink {
    first_feature: bool,
    rows: Ghost<Seq<FeatureRow>>,
}

impl GeoJsonSink {
    /// The rows accepted so far.
    pub closed spec fn spec_rows(&self) -> Seq<FeatureRow> {
        self.rows@
    }

    pub closed spec fn wf(&self) -> bool {
        self.first_feature <==> self.rows@.len() == 0
    }

    /// A fresh sink and the collection preamble.
    pub fn new() -> (r: (GeoJsonSink, String))
        ensures
            r.0.wf(),
            r.0.spec_rows() == Seq::<FeatureRow>::empty(),
            r.1@ == spec_geojson_header(),
    {
        proof {
            reveal_strlit("{\n  \"type\": \"FeatureCollection\",\n  \"features\": [\n");
        }
        let header = String::from_str("{\n  \"type\": \"FeatureCollection\",\n  \"features\": [\n");
        (GeoJsonSink { first_feature: true, rows: Ghost(Seq::empty()) }, header)
    }

    /// Serialize one feature: the separator, if one is due, then the
    /// feature's text.
    pub fn append_feature(&mut self, row: FeatureRow) -> (chunk: String)
        requires
            old(self).wf(),
        ensures
            final(self).wf(),
            final(self).spec_rows() == old(self).spec_rows().push(row),
            chunk@ == (if old(self).spec_rows().len() == 0 {
                Seq::<char>::empty()
            } else {
                ",\n"@
            }) + spec_feature_text(row),
            spec_geojson_header() + spec_geojson_features(final(self).spec_rows())
                == spec_geojson_header() + spec_geojson_features(old(self).spec_rows()) + chunk@,
    {
        proof {
            reveal_strlit(",\n");
        }
        let mut chunk = String::new();
        if !self.first_feature {
            chunk.append(",\n");
        }
        let ghost row_spec = row;
        let text = feature_to_json_text(row);
        chunk.append(text.as_str());
        self.first_feature = false;
        proof {
            self.rows@ = self.rows@.push(row_spec);
            assert(self.rows@.drop_last() =~= old(self).spec_rows());
            assert(spec_geojson_header() + spec_geojson_features(self.rows@)
                =~= spec_geojson_header() + spec_geojson_features(old(self).spec_rows())
                + chunk@);
        }
        chunk
    }

    /// The closing text.
    ///
    /// Law: the preamble, the chunks of every `add_feature` call in order,
    /// and this closing text concatenate to exactly the feature collection
    /// of the accepted rows.
    pub fn closing(&self) -> (tail: String)
        ensures
            tail@ == spec_geojson_tail(),
            spec_geojson_header() + spec_geojson_features(self.spec_rows()) + tail@
                == spec_geojson_collection(self.spec_rows()),
    {
        proof {
            reveal_strlit("\n  ]\n}\n");
        }
        String::from_str("\n  ]\n}\n")
    }
}

/// The GeoJSON-Lines sink: one feature per line, no wrapper.
pub struct GeoJsonlSink {
    rows: Ghost<Seq<FeatureRow>>,
}

/// The whole text of a line-delimited output: one line per row.
pub open spec fn spec_geojsonl_text(rows: Seq<FeatureRow>) -> Seq<char>
    decreases rows.len(),
{
    if rows.len() == 0 {
        Seq::empty()
    } else {
        spec_geojsonl_text(rows.drop_last()) + spec_feature_text(rows.last()) + seq!['\n']
    }
}

impl GeoJsonlSink {
    /// The rows accepted so far.
    pub closed spec fn spec_rows(&self) -> Seq<FeatureRow> {
        self.rows@
    }

    pub fn new() -> (r: GeoJsonlSink)
        ensures
            r.spec_rows() == Seq::<FeatureRow>::empty(),
    {
        GeoJsonlSink { rows: Ghost(Seq::empty()) }
    }

    /// Serialize one feature as one line.
    ///
    /// Law: the chunk is the feature's text — which holds no raw newline —
    /// followed by one newline, so every non-empty line of the output is
    /// exactly one feature.
    pub fn append_feature(&mut self, row: FeatureRow) -> (chunk: String)
        ensures
            final(self).spec_rows() == old(self).spec_rows().push(row),
            chunk@ == spec_feature_text(row) + seq!['\n'],
            line_free(spec_feature_text(row)),
            spec_geojsonl_text(final(self).spec_rows()) == spec_geojsonl_text(
                old(self).spec_rows(),
            ) + chunk@,
    {
        let ghost row_spec = row;
        let mut chunk = feature_to_json_text(row);
        push_char(&mut chunk, '\n');
        proof {
            lemma_feature_text_line_free(row_spec);
            self.rows@ = self.rows@.push(row_spec);
            assert(self.rows@.drop_last() =~= old(self).spec_rows());
            assert(chunk@ =~= spec_feature_text(row_spec) + seq!['\n']);
            assert(spec_geojsonl_text(self.rows@) =~= spec_geojsonl_text(old(self).spec_rows())
                + chunk@);
        }
        chunk
    }

    /// Line-delimited output needs no closing text.
    pub fn closing(&self) -> (tail: String)
        ensures
            tail@ == Seq::<char>::empty(),
    {
        String::new()
    }
}

// ---------------------------------------------------------------------------
// GeoParquet: the verified pieces
// ---------------------------------------------------------------------------

/// The number of rows buffered before a row group is flushed.
pub const PARQUET_BATCH_SIZE: usize = 10000;

/// The `geo` file-metadata value of a GeoParquet output: the version, the
/// primary column, and the geometry column's encoding and reference system.
pub fn parquet_geo_metadata() -> (r: String)
    ensures
        r@ == "{\"version\":\"1.0.0\",\"primary_column\":\"geometry\",\"columns\":{\"geometry\":{\"encoding\":\"WKB\",\"geometry_types\":[\"Point\",\"LineString\",\"Polygon\"],\"crs\":\"EPSG:4326\"}}}"@,
{
    proof {
        reveal_strlit(
            "{\"version\":\"1.0.0\",\"primary_column\":\"geometry\",\"columns\":{\"geometry\":{\"encoding\":\"WKB\",\"geometry_types\":[\"Point\",\"LineString\",\"Polygon\"],\"crs\":\"EPSG:4326\"}}}",
        );
    }
    String::from_str(
        "{\"version\":\"1.0.0\",\"primary_column\":\"geometry\",\"columns\":{\"geometry\":{\"encoding\":\"WKB\",\"geometry_types\":[\"Point\",\"LineString\",\"Polygon\"],\"crs\":\"EPSG:4326\"}}}",
    )
}

} // verus!
