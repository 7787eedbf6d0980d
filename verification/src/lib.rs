//! Verified core of an OpenStreetMap feature extractor.
//!
//! The library covers the logic of a two-pass PBF extraction pipeline: a
//! polymorphic node coordinate store with three backends, a filter DSL
//! (lexer, parser, evaluator), mapping rules, column projection into feature
//! rows, geometry synthesis for ways, and the GeoJSON / GeoJSON-Lines
//! serializers.  Coordinates are held as fixed-point integers, degrees times
//! ten million, the same representation the stores persist.

pub mod fixed;
pub mod numeric;
pub mod ast;
pub mod eval;
pub mod lexer;
pub mod parser;
pub mod mapping;
pub mod metadata;
pub mod progress;
pub mod expr;
pub mod json;
pub mod feature;
pub mod config;
pub mod geometry;
pub mod builder;
pub mod sinks;
pub mod pipeline;
pub mod storage;
pub mod tags;
pub mod strnum;

use vstd::prelude::*;
use vstd::string::*;

verus! {

/// The error kinds of the library and the pipeline around it.
#[derive(Clone, Debug)]
pub enum CosmoError {
    /// A dense-store id at or above the configured capacity.
    OverCapacity { id: u64, max_nodes: u64 },
    /// The sparse store received a node id smaller than its predecessor.
    UnsortedIds,
    /// A filter, mapping or column definition failed to compile.
    Config(String),
    /// A filesystem failure, reported by the caller that did the reading
    /// or writing.
    Io(String),
    /// A corrupt or unreadable input block.
    Decode(String),
    /// A serialization or finalize failure in a sink.
    Sink(String),
    /// The writer thread died; the text carries what it said.
    WriterPanic(String),
}

/// A needle placed inside the middle piece of a three-piece text is in the
/// whole text.
pub proof fn lemma_contains_piece(
    pre: Seq<char>,
    mid: Seq<char>,
    post: Seq<char>,
    needle: Seq<char>,
    off: int,
)
    requires
        0 <= off,
        off + needle.len() <= mid.len(),
        mid.subrange(off, off + needle.len()) == needle,
    ensures
        crate::ast::spec_contains_seq(pre + mid + post, needle),
{
    let whole = pre + mid + post;
    let k = pre.len() + off;
    assert(whole.subrange(k, k + needle.len()) =~= needle);
}

impl CosmoError {
    /// A human-readable description of the error: the exact text of each
    /// kind, with the capacity hint carrying "exceeds" and the sparse-order
    /// hint naming the sorting tool.
    pub fn message(&self) -> (r: String)
        ensures
            r@.len() > 0,
            self matches CosmoError::OverCapacity { id, max_nodes } ==> r@
                == "NodeStore: Node ID "@ + crate::strnum::spec_dec(id as nat)
                + " exceeds node_cache_max_nodes ("@ + crate::strnum::spec_dec(max_nodes as nat)
                + "); increase --node-cache-max-nodes or use --node-cache-mode memory"@
                && crate::ast::spec_contains_seq(r@, "exceeds"@),
            self is UnsortedIds ==> r@
                == "NodeStore: Node IDs are out of order for sparse cache; run `"@
                + "osmium sort"@ + "` to sort by type then id"@ && crate::ast::spec_contains_seq(
                r@,
                "osmium sort"@,
            ),
            self matches CosmoError::Config(s) ==> r@ == "Config: "@ + s@,
            self matches CosmoError::Io(s) ==> r@ == "I/O: "@ + s@,
            self matches CosmoError::Decode(s) ==> r@ == "Decode: "@ + s@,
            self matches CosmoError::Sink(s) ==> r@ == "Sink: "@ + s@,
            self matches CosmoError::WriterPanic(s) ==> r@ == "Pipeline: writer thread "@
                + "panicked"@ + ": "@ + s@ && crate::ast::spec_contains_seq(r@, "panicked"@),
    {
        match self {
            CosmoError::OverCapacity { id, max_nodes } => {
                let mut m = String::new();
                m.append("NodeStore: Node ID ");
                m.append(crate::strnum::u64_to_dec(*id).as_str());
                m.append(" exceeds node_cache_max_nodes (");
                m.append(crate::strnum::u64_to_dec(*max_nodes).as_str());
                m.append("); increase --node-cache-max-nodes or use --node-cache-mode memory");
                proof {
                    reveal_strlit("NodeStore: Node ID ");
                    reveal_strlit(" exceeds node_cache_max_nodes (");
                    reveal_strlit("exceeds");
                    reveal_strlit("); increase --node-cache-max-nodes or use --node-cache-mode memory");
                    let pre = "NodeStore: Node ID "@ + crate::strnum::spec_dec(*id as nat);
                    let mid = " exceeds node_cache_max_nodes ("@;
                    let post = crate::strnum::spec_dec(*max_nodes as nat)
                        + "); increase --node-cache-max-nodes or use --node-cache-mode memory"@;
                    assert(mid.subrange(1, 8) =~= "exceeds"@);
                    lemma_contains_piece(pre, mid, post, "exceeds"@, 1);
                    assert(m@ =~= pre + mid + post);
                }
                m
            },
            CosmoError::UnsortedIds => {
                let mut m = String::new();
                m.append("NodeStore: Node IDs are out of order for sparse cache; run `");
                m.append("osmium sort");
                m.append("` to sort by type then id");
                proof {
                    reveal_strlit("NodeStore: Node IDs are out of order for sparse cache; run `");
                    reveal_strlit("osmium sort");
                    reveal_strlit("` to sort by type then id");
                    let pre = "NodeStore: Node IDs are out of order for sparse cache; run `"@;
                    let mid = "osmium sort"@;
                    let post = "` to sort by type then id"@;
                    assert(mid.subrange(0, 11) =~= mid);
                    lemma_contains_piece(pre, mid, post, "osmium sort"@, 0);
                    assert(m@ =~= pre + mid + post);
                }
                m
            },
            CosmoError::Config(s) => {
                let mut m = String::from_str("Config: ");
                m.append(s.as_str());
                proof {
                    reveal_strlit("Config: ");
                }
                m
            },
            CosmoError::Io(s) => {
                let mut m = String::from_str("I/O: ");
                m.append(s.as_str());
                proof {
                    reveal_strlit("I/O: ");
                }
                m
            },
            CosmoError::Decode(s) => {
                let mut m = String::from_str("Decode: ");
                m.append(s.as_str());
                proof {
                    reveal_strlit("Decode: ");
                }
                m
            },
            CosmoError::Sink(s) => {
                let mut m = String::from_str("Sink: ");
                m.append(s.as_str());
                proof {
                    reveal_strlit("Sink: ");
                }
                m
            },
            CosmoError::WriterPanic(s) => {
                let mut m = String::new();
                m.append("Pipeline: writer thread ");
                m.append("panicked");
                m.append(": ");
                m.append(s.as_str());
                proof {
                    reveal_strlit("Pipeline: writer thread ");
                    reveal_strlit("panicked");
                    reveal_strlit(": ");
                    let pre = "Pipeline: writer thread "@;
                    let mid = "panicked"@;
                    let post = ": "@ + s@;
                    assert(mid.subrange(0, 8) =~= mid);
                    lemma_contains_piece(pre, mid, post, "panicked"@, 0);
                    assert(m@ =~= pre + mid + post);
                }
                m
            },
        }
    }
}

} // verus!
