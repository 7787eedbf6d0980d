//! The pass driver's decisions: what the writer side does with batches,
//! which error wins when a pass fails, and the small pure helpers around
//! sink selection.

use vstd::prelude::*;
use crate::config::{CompiledConfig};
use crate::feature::{ColumnSpec, FeatureRow};
use crate::CosmoError;

verus! {

/// The output format of a run.
#[derive(Debug, Clone, Copy, PartialEq, Eq)]
pub enum OutputFormat {
    GeoJson,
    GeoJsonl,
    GeoParquet,
}

/// The format's short name.
pub fn output_format_label(format: &OutputFormat) -> (r: &'static str)
    ensures
        format is GeoJson ==> r@ == "geojson"@,
        format is GeoJsonl ==> r@ == "geojsonl"@,
        format is GeoParquet ==> r@ == "geoparquet"@,
{
    match format {
        OutputFormat::GeoJson => "geojson",
        OutputFormat::GeoJsonl => "geojsonl",
        OutputFormat::GeoParquet => "geoparquet",
    }
}

/// Whether the run needs the node store: only when way or relation
/// geometry is asked for.
pub fn needs_node_store_compiled(config: &CompiledConfig) -> (r: bool)
    ensures
        r == (config.table.geometry.way.spec_enabled() || config.table.geometry.relation),
{
    config.table.geometry.way.enabled() || config.table.geometry.relation
}

/// The declared output columns, in user order.
pub fn collect_columns(config: &CompiledConfig) -> (r: Result<Vec<ColumnSpec>, CosmoError>)
    ensures
        r matches Ok(cols) && cols@.len() == config.table.columns@.len() && (forall|i: int|
            0 <= i < cols@.len() ==> (#[trigger] cols@[i]).name == config.table.columns@[i].name
                && cols@[i].col_type == config.table.columns@[i].col_type),
{
    let n = config.table.columns.len();
    let mut columns: Vec<ColumnSpec> = Vec::new();
    let mut i: usize = 0;
    while i < n
        invariant
            i <= n,
            n == config.table.columns@.len(),
            columns@.len() == i,
            forall|k: int|
                0 <= k < i ==> (#[trigger] columns@[k]).name == config.table.columns@[k].name
                    && columns@[k].col_type == config.table.columns@[k].col_type,
        decreases n - i,
    {
        let col = &config.table.columns[i];
        columns.push(ColumnSpec { name: col.name.clone(), col_type: col.col_type });
        i = i + 1;
    }
    Ok(columns)
}

/// A short description of the compiled table: name, column count, and
/// which element kinds are enabled.
pub fn summarize_filters_compiled(config: &CompiledConfig) -> (r: (
    String,
    usize,
    bool,
    bool,
    bool,
))
    ensures
        r.0 == config.table.name,
        r.1 == config.table.columns@.len(),
        r.2 == config.table.geometry.node,
        r.3 == config.table.geometry.way.spec_enabled(),
        r.4 == config.table.geometry.relation,
{
    (
        config.table.name.clone(),
        config.table.columns.len(),
        config.table.geometry.node,
        config.table.geometry.way.enabled(),
        config.table.geometry.relation,
    )
}

// ---------------------------------------------------------------------------
// The sink interface and the writer side of a pass
// ---------------------------------------------------------------------------

/// What the pipeline asks of a sink: accept one row at a time, return the
/// text chunk to append to the output, and account for every accepted row.
pub trait DataSink: Sized {
    /// How many rows the sink has accepted.
    spec fn count(&self) -> int;

    /// The sink's internal invariant.
    spec fn inv(&self) -> bool;

    /// Serialize one feature.  On success the count grows by exactly one.
    fn add_feature(&mut self, row: FeatureRow) -> (r: Result<String, CosmoError>)
        requires
            old(self).inv(),
        ensures
            final(self).inv(),
            r is Ok ==> final(self).count() == old(self).count() + 1,
            r is Err ==> final(self).count() == old(self).count(),
    ;

    /// Flush and close: the closing text of the output.
    fn finish(&mut self) -> (r: Result<String, CosmoError>)
        requires
            old(self).inv(),
        ensures
            final(self).inv(),
            final(self).count() == old(self).count(),
    ;
}

impl DataSink for crate::sinks::GeoJsonSink {
    open spec fn count(&self) -> int {
        self.spec_rows().len() as int
    }

    open spec fn inv(&self) -> bool {
        self.wf()
    }

    fn add_feature(&mut self, row: FeatureRow) -> (r: Result<String, CosmoError>) {
        Ok(self.append_feature(row))
    }

    fn finish(&mut self) -> (r: Result<String, CosmoError>) {
        Ok(self.closing())
    }
}

impl DataSink for crate::sinks::GeoJsonlSink {
    open spec fn count(&self) -> int {
        self.spec_rows().len() as int
    }

    open spec fn inv(&self) -> bool {
        true
    }

    fn add_feature(&mut self, row: FeatureRow) -> (r: Result<String, CosmoError>) {
        Ok(self.append_feature(row))
    }

    fn finish(&mut self) -> (r: Result<String, CosmoError>) {
        Ok(self.closing())
    }
}

/// The number of rows in a sequence of batches.
pub open spec fn spec_total_rows(batches: Seq<Vec<FeatureRow>>) -> int
    decreases batches.len(),
{
    if batches.len() == 0 {
        0
    } else {
        batches[0]@.len() + spec_total_rows(batches.drop_first())
    }
}

proof fn lemma_total_rows_nonneg(batches: Seq<Vec<FeatureRow>>)
    ensures
        spec_total_rows(batches) >= 0,
    decreases batches.len(),
{
    if batches.len() > 0 {
        lemma_total_rows_nonneg(batches.drop_first());
    }
}

/// The writer side of a pass: apply every row of every batch to the sink,
/// in order, and count them.
///
/// Law: on success the returned feature count equals both the number of
/// rows handed over and the number of `add_feature` calls the sink
/// observed — the sink's count grows by exactly that much.
#[verifier::loop_isolation(false)]
pub fn apply_batches<S: DataSink>(sink: &mut S, batches: Vec<Vec<FeatureRow>>) -> (r: Result<
    (u64, Vec<String>),
    CosmoError,
>)
    requires
        old(sink).inv(),
        spec_total_rows(batches@) <= u64::MAX,
    ensures
        final(sink).inv(),
        batches@.len() == 0 ==> r is Ok,
        r matches Ok(p) ==> p.0 == spec_total_rows(batches@) && final(sink).count() == old(
            sink,
        ).count() + p.0 && p.1@.len() == p.0,
        r is Err ==> final(sink).count() <= old(sink).count() + spec_total_rows(batches@),
{
    let ghost all = batches@;
    let mut chunks: Vec<String> = Vec::new();
    let mut match_count: u64 = 0;
    let mut rest = batches;
    let ghost mut k: int = 0;
    proof {
        assert(rest@ =~= all.skip(0));
        lemma_total_rows_nonneg(all);
    }
    while rest.len() > 0
        invariant
            sink.inv(),
            0 <= k <= all.len(),
            rest@ == all.skip(k),
            spec_total_rows(all) <= u64::MAX,
            match_count + spec_total_rows(all.skip(k)) == spec_total_rows(all),
            sink.count() == old(sink).count() + match_count,
            chunks@.len() == match_count,
        decreases rest@.len(),
    {
        proof {
            assert(all.skip(k)[0] == all[k]);
            assert(all.skip(k).drop_first() =~= all.skip(k + 1));
            lemma_total_rows_nonneg(all.skip(k + 1));
        }
        let batch = rest.remove(0);
        let ghost batch_view = batch@;
        let bn = batch.len();
        let mut brest = batch;
        let ghost mut j: int = 0;
        proof {
            assert(brest@ =~= batch_view.skip(0));
        }
        while brest.len() > 0
            invariant
                sink.inv(),
                0 <= j <= batch_view.len(),
                brest@ == batch_view.skip(j),
                spec_total_rows(all) <= u64::MAX,
                match_count + (batch_view.len() - j) + spec_total_rows(all.skip(k + 1))
                    == spec_total_rows(all),
                spec_total_rows(all.skip(k + 1)) >= 0,
                sink.count() == old(sink).count() + match_count,
                chunks@.len() == match_count,
            decreases brest@.len(),
        {
            let row = brest.remove(0);
            proof {
                assert(brest@ =~= batch_view.skip(j + 1));
            }
            let chunk = match sink.add_feature(row) {
                Ok(c) => c,
                Err(e) => {
                    return Err(e);
                },
            };
            chunks.push(chunk);
            match_count = match_count + 1;
            proof {
                j = j + 1;
            }
        }
        proof {
            assert(batch_view.skip(j) =~= Seq::<FeatureRow>::empty());
            k = k + 1;
        }
    }
    proof {
        assert(all.skip(k) =~= Seq::<Vec<FeatureRow>>::empty());
    }
    Ok((match_count, chunks))
}

// ---------------------------------------------------------------------------
// Error causality between the writer and the decoder
// ---------------------------------------------------------------------------

/// How the writer side of a pass ended.
pub enum WriterOutcome<T> {
    /// It drained its channel and produced a value.
    Completed(T),
    /// It failed; its error is the root cause of the pass's failure.
    Failed(CosmoError),
    /// It panicked; the text carries the panic message.
    Panicked(String),
}

/// Resolve a pass: the writer's error is the root cause when it has one —
/// a writer failure usually made the decoder fail too, through the closed
/// channel — a writer panic is surfaced as such, and only with the writer
/// healthy does the decoder's result decide.
pub fn resolve_pass_outcome<T>(writer: WriterOutcome<T>, decode: Result<(), CosmoError>) -> (r:
    Result<T, CosmoError>)
    ensures
        writer matches WriterOutcome::Completed(t) ==> (decode is Ok ==> (r matches Ok(v) && v
            == t)),
        decode matches Err(de) ==> (writer is Completed ==> r == Err::<T, CosmoError>(de)),
        writer matches WriterOutcome::Failed(we) ==> r == Err::<T, CosmoError>(we),
        writer matches WriterOutcome::Panicked(msg) ==> (r matches Err(pe) && pe
            == CosmoError::WriterPanic(msg)),
{
    match writer {
        WriterOutcome::Completed(value) => {
            match decode {
                Ok(_) => Ok(value),
                Err(e) => Err(e),
            }
        },
        WriterOutcome::Failed(e) => Err(e),
        WriterOutcome::Panicked(msg) => Err(CosmoError::WriterPanic(msg)),
    }
}

} // verus!
