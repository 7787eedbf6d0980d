//! Element metadata: the OSM bookkeeping fields and their projection to
//! column values.

use vstd::prelude::*;
use crate::strnum::{i64_to_dec, spec_dec_i64, str_eq};

verus! {

/// The metadata of one OSM element.
#[derive(Debug, Clone)]
pub struct MetadataFields {
    pub id: i64,
    pub visible: Option<bool>,
    pub version: Option<i64>,
    pub changeset: Option<i64>,
    pub timestamp: Option<String>,
    pub uid: Option<i64>,
    pub user: Option<String>,
}

/// The text of a boolean.
pub open spec fn spec_bool_str(b: bool) -> Seq<char> {
    if b {
        "true"@
    } else {
        "false"@
    }
}

fn bool_to_string(b: bool) -> (r: String)
    ensures
        r@ == spec_bool_str(b),
{
    proof {
        reveal_strlit("true");
        reveal_strlit("false");
    }
    if b {
        String::from_str("true")
    } else {
        String::from_str("false")
    }
}

/// The text an `Option<i64>` field projects to.
pub open spec fn spec_opt_dec(v: Option<i64>) -> Option<Seq<char>> {
    match v {
        Some(n) => Some(spec_dec_i64(n as int)),
        None => None,
    }
}

/// What `extract_meta_value` returns for a key: the field's text, or
/// nothing for an absent field or an unknown key.
pub open spec fn spec_meta_value(key: Seq<char>, meta: MetadataFields) -> Option<Seq<char>> {
    if key == "id"@ {
        Some(spec_dec_i64(meta.id as int))
    } else if key == "visible"@ {
        match meta.visible {
            Some(v) => Some(spec_bool_str(v)),
            None => None,
        }
    } else if key == "version"@ {
        spec_opt_dec(meta.version)
    } else if key == "changeset"@ {
        spec_opt_dec(meta.changeset)
    } else if key == "timestamp"@ {
        match meta.timestamp {
            Some(t) => Some(t@),
            None => None,
        }
    } else if key == "uid"@ {
        spec_opt_dec(meta.uid)
    } else if key == "user"@ {
        match meta.user {
            Some(u) => Some(u@),
            None => None,
        }
    } else {
        None
    }
}

fn opt_dec(v: &Option<i64>) -> (r: Option<String>)
    ensures
        match spec_opt_dec(*v) {
            Some(s) => r matches Some(t) && t@ == s,
            None => r is None,
        },
{
    match v {
        Some(n) => Some(i64_to_dec(*n)),
        None => None,
    }
}

/// Project one metadata field, by name, to its text.
pub fn extract_meta_value(key: &str, metadata: Option<&MetadataFields>) -> (r: Option<String>)
    ensures
        match metadata {
            Some(meta) => match spec_meta_value(key@, *meta) {
                Some(s) => r matches Some(t) && t@ == s,
                None => r is None,
            },
            None => r is None,
        },
{
    let meta = match metadata {
        Some(m) => m,
        None => {
            return None;
        },
    };
    if str_eq(key, "id") {
        Some(i64_to_dec(meta.id))
    } else if str_eq(key, "visible") {
        proof {
            reveal_strlit("id");
            reveal_strlit("visible");
        }
        match meta.visible {
            Some(v) => Some(bool_to_string(v)),
            None => None,
        }
    } else if str_eq(key, "version") {
        opt_dec(&meta.version)
    } else if str_eq(key, "changeset") {
        opt_dec(&meta.changeset)
    } else if str_eq(key, "timestamp") {
        match &meta.timestamp {
            Some(t) => Some(t.clone()),
            None => None,
        }
    } else if str_eq(key, "uid") {
        opt_dec(&meta.uid)
    } else if str_eq(key, "user") {
        match &meta.user {
            Some(u) => Some(u.clone()),
            None => None,
        }
    } else {
        None
    }
}

/// The RFC-3339 text of a Unix timestamp in nanoseconds, or nothing when
/// the instant is outside the calendar's range.
pub uninterp spec fn rfc3339_of(nanos: int) -> Option<Seq<char>>;

/// Relies on `time::OffsetDateTime::from_unix_timestamp_nanos` and its
/// RFC-3339 formatter: the text is a function of the nanosecond value alone.
#[verifier::external_body]
fn rfc3339_from_nanos(nanos: i128) -> (r: Option<String>)
    ensures
        match rfc3339_of(nanos as int) {
            Some(s) => r matches Some(t) && t@ == s,
            None => r is None,
        },
{
    let dt = time::OffsetDateTime::from_unix_timestamp_nanos(nanos).ok()?;
    dt.format(&time::format_description::well_known::Rfc3339).ok()
}

/// The RFC-3339 text of a millisecond Unix timestamp.
pub fn format_timestamp_millis(millis: i64) -> (r: Option<String>)
    ensures
        match rfc3339_of(millis as int * 1000000) {
            Some(s) => r matches Some(t) && t@ == s,
            None => r is None,
        },
{
    let nanos: i128 = (millis as i128) * 1000000;
    rfc3339_from_nanos(nanos)
}

} // verus!
