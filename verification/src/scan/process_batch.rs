//! Processing one batch of log actions.

use vstd::prelude::*;

use super::data_skipping::{dropped, evaluate_checked, expression_step, DataSkippingFilter};
use super::dedup_visitor::{
    checkpoints_record_nothing, opt_exprs_view, selected_column_names_and_types, visited_columns,
    wrong_getters, AddRemoveDedupVisitor, VisitV,
};
use super::log_replay::{ReplayPlan, ScanLogReplayProcessor};
use super::metrics::ScanMetrics;
use super::partition_values::ScalarParser;
use super::scan_metadata::{get_transform_for_row, metadata_made, ScanMetadata};
use super::state_info::StateInfo;
use crate::engine::{Column, Engine};
use crate::error::{check_length, length_mismatch, DeltaResult, Error, ErrorV};
use crate::expressions::column::ColumnName;
use crate::expressions::expression::ExpressionRef;
use crate::log_replay::{
    ActionsBatch, CheckpointDeduplicator, Deduplicator, FileActionDeduplicator, FileKeySet, KeyV,
};
use crate::schema::DataType;

verus! {

// ---------------------------------------------------------------------------------------------
// Transformation and data skipping
// ---------------------------------------------------------------------------------------------

/// The selection of a batch with every row selected.
pub open spec fn all_selected(n: nat) -> Seq<bool> {
    Seq::new(n, |i: int| true)
}

fn select_all(n: usize) -> (selection: Vec<bool>)
    ensures
        selection@ == all_selected(n as nat),
{
    let mut selection: Vec<bool> = Vec::new();
    for i in 0..n
        invariant
            selection@.len() == i,
            forall|j: int| 0 <= j < i ==> #[trigger] selection@[j],
    {
        selection.push(true);
    }
    assert(selection@ =~= all_selected(n as nat));
    selection
}

/// Whether `r` is the selection that data skipping makes: all rows without a filter.
pub open spec fn selection_built<E: Engine>(
    filter: Option<DataSkippingFilter<E>>,
    engine: &E,
    transformed: &E::Batch,
    n: usize,
    before: ScanMetrics,
    after: ScanMetrics,
    r: DeltaResult<Vec<bool>>,
) -> bool {
    match filter {
        None => r is Ok && r->Ok_0@ == all_selected(n as nat) && after == before,
        Some(f) => {
            &&& exists|k: usize| #[trigger]
                call_ensures(E::batch_len, (engine, transformed), k) && f.outcome(
                    engine,
                    transformed,
                    k,
                    r,
                )
            &&& match r {
                Ok(selection) => if f.records_metrics {
                    after.same_counts(before.with_predicate_filtered(dropped(selection@) as u64))
                } else {
                    after == before
                },
                Err(_) => after == before,
            }
        },
    }
}

impl<E: Engine> ReplayPlan<E> {
    /// The transform for a kind of batch.
    pub open spec fn transform_for(self, is_log_batch: bool) -> E::ExpressionEvaluator {
        if is_log_batch {
            self.commit_transform
        } else {
            self.checkpoint_transform
        }
    }

    /// Whether `r` is the outcome of transforming a batch and skipping data, for every outcome of
    /// the engine's calls: the transformed batch with its selection, of as many rows as the batch
    /// has, or the first error.
    pub open spec fn transform_outcome(
        self,
        engine: &E,
        actions: &E::Batch,
        is_log_batch: bool,
        before: ScanMetrics,
        after: ScanMetrics,
        r: DeltaResult<(E::Batch, Vec<bool>)>,
    ) -> bool {
        exists|n: usize, transformed: DeltaResult<E::Batch>|
            call_ensures(E::batch_len, (engine, actions), n) && #[trigger] expression_step(
                engine,
                &self.transform_for(is_log_batch),
                actions,
                n,
                "transform output"@,
                "actions"@,
                transformed,
            ) && match transformed {
                Err(e) => r == Err::<(E::Batch, Vec<bool>), _>(e) && after == before,
                Ok(batch) => self.skipping_outcome_of(engine, n, batch, before, after, r),
            }
    }

    /// The second half of [`Self::transform_outcome`].
    pub open spec fn skipping_outcome_of(
        self,
        engine: &E,
        n: usize,
        batch: E::Batch,
        before: ScanMetrics,
        after: ScanMetrics,
        r: DeltaResult<(E::Batch, Vec<bool>)>,
    ) -> bool {
        exists|selection: DeltaResult<Vec<bool>>| #[trigger]
            selection_built(
                self.data_skipping_filter,
                engine,
                &batch,
                n,
                before,
                after,
                selection,
            ) && match selection {
                Err(e) => r == Err::<(E::Batch, Vec<bool>), _>(e),
                Ok(selection) => if selection@.len() == n {
                    r is Ok && r->Ok_0.0 == batch && r->Ok_0.1 == selection
                } else {
                    r is Err && r->Err_0@ == length_mismatch(
                        "selection vector"@,
                        selection@.len(),
                        "actions"@,
                        n as nat,
                    )
                },
            }
    }

    /// The rows of a transformed batch that data skipping keeps.
    fn build_selection_vector(
        &self,
        engine: &E,
        transformed: &E::Batch,
        n: usize,
        metrics: &mut ScanMetrics,
    ) -> (r: DeltaResult<Vec<bool>>)
        ensures
            selection_built(
                self.data_skipping_filter,
                engine,
                transformed,
                n,
                *old(metrics),
                *final(metrics),
                r,
            ),
    {
        match &self.data_skipping_filter {
            Some(filter) => filter.apply(engine, transformed, metrics),
            None => Ok(select_all(n)),
        }
    }

    fn transform_and_data_skip(
        &self,
        engine: &E,
        actions: &E::Batch,
        is_log_batch: bool,
        metrics: &mut ScanMetrics,
    ) -> (r: DeltaResult<(E::Batch, Vec<bool>)>)
        ensures
            self.transform_outcome(
                engine,
                actions,
                is_log_batch,
                *old(metrics),
                *final(metrics),
                r,
            ),
    {
        let n = engine.batch_len(actions);
        let transform = if is_log_batch {
            &self.commit_transform
        } else {
            &self.checkpoint_transform
        };
        let evaluated = evaluate_checked(
            engine,
            transform,
            actions,
            n,
            "transform output",
            "actions",
        );
        assert(expression_step(
            engine,
            &self.transform_for(is_log_batch),
            actions,
            n,
            "transform output"@,
            "actions"@,
            evaluated,
        ));
        let transformed = match evaluated {
            Ok(transformed) => transformed,
            Err(e) => return Err(e),
        };
        let selection = self.build_selection_vector(engine, &transformed, n, metrics);
        let ghost built = selection;
        let selection_vector = match selection {
            Ok(selection_vector) => selection_vector,
            Err(e) => {
                assert(self.skipping_outcome_of(
                    engine,
                    n,
                    transformed,
                    *old(metrics),
                    *metrics,
                    Err(e),
                ));
                return Err(e);
            },
        };
        match check_length("selection vector", selection_vector.len(), "actions", n) {
            Ok(_) => {
                assert(self.skipping_outcome_of(
                    engine,
                    n,
                    transformed,
                    *old(metrics),
                    *metrics,
                    Ok((transformed, selection_vector)),
                ));
                Ok((transformed, selection_vector))
            },
            Err(e) => {
                let r: DeltaResult<(E::Batch, Vec<bool>)> = Err(e);
                assert(self.skipping_outcome_of(
                    engine,
                    n,
                    transformed,
                    *old(metrics),
                    *metrics,
                    r,
                ));
                r
            },
        }
    }
}

// ---------------------------------------------------------------------------------------------
// Deduplication
// ---------------------------------------------------------------------------------------------

/// What reconciling a batch gives for each row.
pub struct Reconciled {
    pub selection: Vec<bool>,
    pub row_transform_exprs: Vec<Option<ExpressionRef>>,
    pub active_add_file_sizes: Vec<u64>,
}

/// Whether the engine, asked for the columns that reconciling reads, gave `columns`.
pub open spec fn action_columns_read<E: Engine>(
    engine: &E,
    actions: &E::Batch,
    log_batch: bool,
    columns: DeltaResult<Vec<Column>>,
) -> bool {
    exists|names: Vec<ColumnName>, types: Vec<DataType>|
        names@.len() == visited_columns(log_batch).len() && types@.len() == visited_columns(
            log_batch,
        ).len() && (forall|i: int|
            0 <= i < names@.len() ==> (#[trigger] names@[i])@ == visited_columns(log_batch)[i].0)
            && (forall|i: int|
            0 <= i < types@.len() ==> (#[trigger] types@[i])@ == visited_columns(log_batch)[i].1)
            && #[trigger] call_ensures(
            E::read_columns,
            (engine, actions, &names, &types),
            columns,
        )
}

/// The state in which reconciling a batch starts.
pub open spec fn visit_start(seen: Set<KeyV>, selection: Seq<bool>, metrics: ScanMetrics) -> VisitV {
    VisitV {
        seen,
        selection,
        transforms: seq![],
        sizes: Seq::new(selection.len(), |i: int| 0u64),
        metrics,
        error: None,
    }
}

/// Whether `r` and `seen_after` are the outcome of reconciling the selected rows of a batch, for
/// every outcome of reading its columns.
pub open spec fn reconciled<E: Engine, P: ScalarParser>(
    engine: &E,
    parser: &P,
    state_info: &StateInfo,
    actions: &E::Batch,
    log_batch: bool,
    selection: Seq<bool>,
    seen: Set<KeyV>,
    seen_after: Set<KeyV>,
    before: ScanMetrics,
    after: ScanMetrics,
    r: DeltaResult<Reconciled>,
) -> bool {
    exists|columns: DeltaResult<Vec<Column>>| #[trigger]
        action_columns_read(engine, actions, log_batch, columns) && match columns {
            Err(e) => r == Err::<Reconciled, _>(e) && seen_after == seen && after == before,
            Ok(columns) => if columns@.len() != visited_columns(log_batch).len() {
                r is Err && r->Err_0@ == wrong_getters(columns@.len()) && seen_after == seen
                    && after == before
            } else {
                let end = visit_start(seen, selection, before).after_rows(
                    state_info,
                    parser,
                    columns@,
                    log_batch,
                    selection.len(),
                );
                seen_after == end.seen && match end.error {
                    Some(e) => r is Err && r->Err_0@ == e && after == end.metrics,
                    None => r is Ok && r->Ok_0.selection@ == end.selection && opt_exprs_view(
                        r->Ok_0.row_transform_exprs@,
                    ) == end.transforms && r->Ok_0.active_add_file_sizes@ == end.sizes
                        && after.same_counts(end.metrics),
                }
            },
        }
}

/// Reconciles the selected rows of a batch.
fn reconcile<E: Engine, P: ScalarParser, D: Deduplicator>(
    engine: &E,
    parser: &P,
    state_info: &StateInfo,
    actions: &E::Batch,
    selection: Vec<bool>,
    deduplicator: D,
    metrics: &mut ScanMetrics,
) -> (out: (DeltaResult<Reconciled>, D))
    requires
        deduplicator.wf(),
    ensures
        out.1.wf(),
        out.1.log_batch() == deduplicator.log_batch(),
        !deduplicator.log_batch() ==> out.1.seen() == deduplicator.seen(),
        reconciled(
            engine,
            parser,
            state_info,
            actions,
            deduplicator.log_batch(),
            selection@,
            deduplicator.seen(),
            out.1.seen(),
            *old(metrics),
            *final(metrics),
            out.0,
        ),
{
    let log_batch = deduplicator.is_log_batch();
    let (names, types) = selected_column_names_and_types(log_batch);
    let read = engine.read_columns(actions, &names, &types);
    assert(action_columns_read(engine, actions, log_batch, read));
    let columns = match read {
        Ok(columns) => columns,
        Err(e) => return (Err(e), deduplicator),
    };
    let row_count: usize = selection.len();
    let mut visitor = AddRemoveDedupVisitor::new(deduplicator, selection);
    let ghost start = visitor.state(*metrics, None);
    assert(start.transforms =~= seq![]);
    assert(start == visit_start(deduplicator.seen(), selection@, *metrics));
    proof {
        checkpoints_record_nothing(start, state_info, parser, columns@, row_count as nat);
    }
    match visitor.visit(row_count, &columns, state_info, parser, metrics) {
        Ok(_) => {
            let reconciled = Reconciled {
                selection: visitor.selection_vector,
                row_transform_exprs: visitor.row_transform_exprs,
                active_add_file_sizes: visitor.active_add_file_sizes,
            };
            (Ok(reconciled), visitor.deduplicator)
        },
        Err(e) => (Err(e), visitor.deduplicator),
    }
}

// ---------------------------------------------------------------------------------------------
// The result
// ---------------------------------------------------------------------------------------------

/// The counters with the selected ones among the first `n` rows counted as active files.
pub open spec fn with_active_files(
    metrics: ScanMetrics,
    selection: Seq<bool>,
    sizes: Seq<u64>,
    n: nat,
) -> ScanMetrics
    decreases n,
{
    if n == 0 {
        metrics
    } else {
        let before = with_active_files(metrics, selection, sizes, (n - 1) as nat);
        if selection[n - 1] {
            before.with_active_add_file(sizes[n - 1])
        } else {
            before
        }
    }
}

fn record_active_add_files(
    selection_vector: &Vec<bool>,
    active_add_file_sizes: &Vec<u64>,
    metrics: &mut ScanMetrics,
) -> (r: DeltaResult<()>)
    ensures
        if selection_vector@.len() != active_add_file_sizes@.len() {
            r is Err && r->Err_0@ == length_mismatch(
                "selection vector"@,
                selection_vector@.len(),
                "active Add file sizes"@,
                active_add_file_sizes@.len(),
            ) && *final(metrics) == *old(metrics)
        } else {
            r is Ok && *final(metrics) == with_active_files(
                *old(metrics),
                selection_vector@,
                active_add_file_sizes@,
                selection_vector@.len(),
            )
        },
{
    match check_length(
        "selection vector",
        selection_vector.len(),
        "active Add file sizes",
        active_add_file_sizes.len(),
    ) {
        Ok(_) => {},
        Err(e) => return Err(e),
    }
    for i in 0..selection_vector.len()
        invariant
            selection_vector@.len() == active_add_file_sizes@.len(),
            *metrics == with_active_files(
                *old(metrics),
                selection_vector@,
                active_add_file_sizes@,
                i as nat,
            ),
    {
        if selection_vector[i] {
            metrics.record_active_add_file(active_add_file_sizes[i]);
        }
    }
    Ok(())
}

/// Whether `r` is the scan metadata of these rows, with the selected ones counted.
pub open spec fn finished<E: Engine>(
    engine: &E,
    data: E::Batch,
    selection: Seq<bool>,
    transforms: Seq<Option<ExpressionRef>>,
    sizes: Seq<u64>,
    before: ScanMetrics,
    after: ScanMetrics,
    r: DeltaResult<ScanMetadata<E::Batch>>,
) -> bool {
    if selection.len() != sizes.len() {
        r is Err && r->Err_0@ == length_mismatch(
            "selection vector"@,
            selection.len(),
            "active Add file sizes"@,
            sizes.len(),
        ) && after == before
    } else {
        after == with_active_files(before, selection, sizes, selection.len()) && metadata_made(
            engine,
            data,
            selection,
            transforms,
            r,
        )
    }
}

fn finish<E: Engine>(
    engine: &E,
    data: E::Batch,
    selection: Vec<bool>,
    transforms: Vec<Option<ExpressionRef>>,
    sizes: &Vec<u64>,
    metrics: &mut ScanMetrics,
) -> (r: DeltaResult<ScanMetadata<E::Batch>>)
    ensures
        finished(
            engine,
            data,
            selection@,
            transforms@,
            sizes@,
            *old(metrics),
            *final(metrics),
            r,
        ),
{
    match record_active_add_files(&selection, sizes, metrics) {
        Ok(_) => ScanMetadata::try_new(engine, data, selection, transforms),
        Err(e) => Err(e),
    }
}

/// The transform of a row; `None` beyond the end.
pub open spec fn transform_at(transforms: Seq<Option<ExpressionRef>>, row: int) -> Option<
    ExpressionRef,
> {
    if row < transforms.len() {
        transforms[row]
    } else {
        None
    }
}

/// The transforms of the selected rows among the first `n`.
pub open spec fn kept_transforms(
    selection: Seq<bool>,
    transforms: Seq<Option<ExpressionRef>>,
    n: nat,
) -> Seq<Option<ExpressionRef>>
    decreases n,
{
    if n == 0 {
        seq![]
    } else {
        let before = kept_transforms(selection, transforms, (n - 1) as nat);
        if selection[n - 1] {
            before.push(transform_at(transforms, n - 1))
        } else {
            before
        }
    }
}

/// The sizes of the selected rows among the first `n`.
pub open spec fn kept_sizes(selection: Seq<bool>, sizes: Seq<u64>, n: nat) -> Seq<u64>
    decreases n,
{
    if n == 0 {
        seq![]
    } else {
        let before = kept_sizes(selection, sizes, (n - 1) as nat);
        if selection[n - 1] && n <= sizes.len() {
            before.push(sizes[n - 1])
        } else {
            before
        }
    }
}

fn keep_selected(
    selection: &Vec<bool>,
    transforms: &Vec<Option<ExpressionRef>>,
    sizes: &Vec<u64>,
) -> (kept: (Vec<Option<ExpressionRef>>, Vec<u64>))
    ensures
        kept.0@ == kept_transforms(selection@, transforms@, selection@.len()),
        kept.1@ == kept_sizes(selection@, sizes@, selection@.len()),
{
    let mut row_transform_exprs: Vec<Option<ExpressionRef>> = Vec::new();
    let mut active_add_file_sizes: Vec<u64> = Vec::new();
    for row in 0..selection.len()
        invariant
            row_transform_exprs@ == kept_transforms(selection@, transforms@, row as nat),
            active_add_file_sizes@ == kept_sizes(selection@, sizes@, row as nat),
    {
        if selection[row] {
            row_transform_exprs.push(get_transform_for_row(row, transforms.as_slice()));
            if row < sizes.len() {
                active_add_file_sizes.push(sizes[row]);
            }
        }
    }
    (row_transform_exprs, active_add_file_sizes)
}

// ---------------------------------------------------------------------------------------------
// The whole of it
// ---------------------------------------------------------------------------------------------

/// Everything that processing a batch depends on and changes.
pub struct BatchRun {
    pub log_batch: bool,
    pub seen: Set<KeyV>,
    pub seen_after: Set<KeyV>,
    pub before: ScanMetrics,
    pub after: ScanMetrics,
}

impl<E: Engine> ReplayPlan<E> {
    /// Processing a batch whose transform and data skipping succeeded: the rows that these keep
    /// are reconciled.
    pub open spec fn processed_directly<P: ScalarParser>(
        self,
        engine: &E,
        parser: &P,
        actions: E::Batch,
        transformed: E::Batch,
        selection: Vec<bool>,
        run: BatchRun,
        r: DeltaResult<ScanMetadata<E::Batch>>,
    ) -> bool {
        exists|rows: DeltaResult<Reconciled>, middle: ScanMetrics|
            #[trigger] reconciled(
                engine,
                parser,
                &*self.state_info,
                &actions,
                run.log_batch,
                selection@,
                run.seen,
                run.seen_after,
                run.before,
                middle,
                rows,
            ) && match rows {
                Err(e) => r == Err::<ScanMetadata<E::Batch>, _>(e) && run.after == middle,
                Ok(rows) => finished(
                    engine,
                    transformed,
                    rows.selection@,
                    rows.row_transform_exprs@,
                    rows.active_add_file_sizes@,
                    middle,
                    run.after,
                    r,
                ),
            }
    }

    /// Processing a batch whose transform failed to parse a value: all rows are reconciled first,
    /// and only the surviving Adds are transformed.
    pub open spec fn processed_after_dedup<P: ScalarParser>(
        self,
        engine: &E,
        parser: &P,
        actions: E::Batch,
        run: BatchRun,
        r: DeltaResult<ScanMetadata<E::Batch>>,
    ) -> bool {
        exists|n: usize, rows: DeltaResult<Reconciled>, middle: ScanMetrics|
            call_ensures(E::batch_len, (engine, &actions), n) && #[trigger] reconciled(
                engine,
                parser,
                &*self.state_info,
                &actions,
                run.log_batch,
                all_selected(n as nat),
                run.seen,
                run.seen_after,
                run.before,
                middle,
                rows,
            ) && match rows {
                Err(e) => r == Err::<ScanMetadata<E::Batch>, _>(e) && run.after == middle,
                Ok(rows) => self.retried(engine, actions, rows, run, middle, r),
            }
    }

    /// The retry on the surviving Adds.
    pub open spec fn retried(
        self,
        engine: &E,
        actions: E::Batch,
        rows: Reconciled,
        run: BatchRun,
        middle: ScanMetrics,
        r: DeltaResult<ScanMetadata<E::Batch>>,
    ) -> bool {
        exists|survivors: DeltaResult<E::Batch>| #[trigger]
            call_ensures(
                E::apply_selection_vector,
                (engine, actions, rows.selection),
                survivors,
            ) && match survivors {
                Err(e) => r == Err::<ScanMetadata<E::Batch>, _>(e) && run.after == middle,
                Ok(survivors) => self.survivors_processed(engine, survivors, rows, run, middle, r),
            }
    }

    /// Transforming the surviving Adds.
    pub open spec fn survivors_processed(
        self,
        engine: &E,
        survivors: E::Batch,
        rows: Reconciled,
        run: BatchRun,
        middle: ScanMetrics,
        r: DeltaResult<ScanMetadata<E::Batch>>,
    ) -> bool {
        exists|t: DeltaResult<(E::Batch, Vec<bool>)>, later: ScanMetrics|
            #[trigger] self.transform_outcome(
                engine,
                &survivors,
                run.log_batch,
                middle,
                later,
                t,
            ) && match t {
                Err(e) => r == Err::<ScanMetadata<E::Batch>, _>(e) && run.after == later,
                Ok((transformed, selection)) => finished(
                    engine,
                    transformed,
                    selection@,
                    kept_transforms(
                        rows.selection@,
                        rows.row_transform_exprs@,
                        rows.selection@.len(),
                    ),
                    kept_sizes(
                        rows.selection@,
                        rows.active_add_file_sizes@,
                        rows.selection@.len(),
                    ),
                    later,
                    run.after,
                    r,
                ),
            }
    }

    /// Whether `r` is what processing a batch gives, for every outcome of the engine's calls.
    pub open spec fn processed<P: ScalarParser>(
        self,
        engine: &E,
        parser: &P,
        actions: E::Batch,
        run: BatchRun,
        r: DeltaResult<ScanMetadata<E::Batch>>,
    ) -> bool {
        exists|t: DeltaResult<(E::Batch, Vec<bool>)>, middle: ScanMetrics|
            #[trigger] self.transform_outcome(
                engine,
                &actions,
                run.log_batch,
                run.before,
                middle,
                t,
            ) && match t {
                Ok((transformed, selection)) => self.processed_directly(
                    engine,
                    parser,
                    actions,
                    transformed,
                    selection,
                    BatchRun { before: middle, ..run },
                    r,
                ),
                Err(Error::ParseError(_, _)) => self.processed_after_dedup(
                    engine,
                    parser,
                    actions,
                    BatchRun { before: middle, ..run },
                    r,
                ),
                Err(e) => r == Err::<ScanMetadata<E::Batch>, _>(e) && run.seen_after == run.seen
                    && run.after == middle,
            }
    }

    /// Processes a batch against the files that `deduplicator` has seen.
    pub fn process_batch<P: ScalarParser, D: Deduplicator>(
        &self,
        engine: &E,
        parser: &P,
        actions: E::Batch,
        deduplicator: D,
        metrics: &mut ScanMetrics,
    ) -> (out: (DeltaResult<ScanMetadata<E::Batch>>, D))
        requires
            deduplicator.wf(),
        ensures
            out.1.wf(),
            !deduplicator.log_batch() ==> out.1.seen() == deduplicator.seen(),
            self.processed(
                engine,
                parser,
                actions,
                BatchRun {
                    log_batch: deduplicator.log_batch(),
                    seen: deduplicator.seen(),
                    seen_after: out.1.seen(),
                    before: *old(metrics),
                    after: *final(metrics),
                },
                out.0,
            ),
    {
        let is_log_batch = deduplicator.is_log_batch();
        let ghost start = *metrics;
        // Step 1: Apply transform + data skipping. Do this before deduplication to reduce the size
        // of the dedup map and avoid String allocations.
        // This step transforms all Adds, also those superseded by Removes (dead Adds).
        // The transform for a dead Add may fail because it may have a different partition column
        // type. In that case, it is a ParseError and is retried after deduplication.
        // The transform depends on the batch type:
        // - Log batches: parse JSON for stats, MapToStruct for partition values
        // - Checkpoint batches: read pre-parsed columns directly when available
        // This avoids double JSON parsing -- the transform already parsed the stats.
        // Data skipping is safe for Remove rows: their add-side columns (stats_parsed,
        // partitionValues_parsed) are null, comparisons with null keep the row, and partition
        // predicates are wrapped with OR(NOT is_add, pred) via guard_for_removes.
        let transform_result = self.transform_and_data_skip(
            engine,
            &actions,
            is_log_batch,
            metrics,
        );
        let ghost given = transform_result;
        let ghost middle = *metrics;
        let ghost seen = deduplicator.seen();
        match transform_result {
            Ok((transformed, selection)) => {
                // Step 2: Run deduplication visitor on RAW batch (needs add.path, remove.path, etc.)
                let (rows, deduplicator) = reconcile(
                    engine,
                    parser,
                    &self.state_info,
                    &actions,
                    selection,
                    deduplicator,
                    metrics,
                );
                let ghost found = rows;
                let ghost later = *metrics;
                assert(reconciled(
                    engine,
                    parser,
                    &*self.state_info,
                    &actions,
                    is_log_batch,
                    selection@,
                    seen,
                    deduplicator.seen(),
                    middle,
                    later,
                    found,
                ));
                // Step 3: Return transformed batch with updated selection vector
                match rows {
                    Ok(rows) => {
                        let r = finish(
                            engine,
                            transformed,
                            rows.selection,
                            rows.row_transform_exprs,
                            &rows.active_add_file_sizes,
                            metrics,
                        );
                        let ghost run = BatchRun {
                            log_batch: is_log_batch,
                            seen,
                            seen_after: deduplicator.seen(),
                            before: start,
                            after: *metrics,
                        };
                        proof {
                            self.lemma_processed_directly(
                                engine,
                                parser,
                                actions,
                                transformed,
                                selection,
                                run,
                                middle,
                                later,
                                found,
                                r,
                            );
                        }
                        (r, deduplicator)
                    },
                    Err(e) => {
                        let ghost run = BatchRun {
                            log_batch: is_log_batch,
                            seen,
                            seen_after: deduplicator.seen(),
                            before: start,
                            after: *metrics,
                        };
                        proof {
                            self.lemma_processed_directly(
                                engine,
                                parser,
                                actions,
                                transformed,
                                selection,
                                run,
                                middle,
                                later,
                                found,
                                Err(e),
                            );
                        }
                        (Err(e), deduplicator)
                    },
                }
            },
            Err(Error::ParseError(_, _)) => {
                // Step 1 failed with a parse error: filter out the dead Adds and retry after
                // deduplication.
                let n = engine.batch_len(&actions);
                let (rows, deduplicator) = reconcile(
                    engine,
                    parser,
                    &self.state_info,
                    &actions,
                    select_all(n),
                    deduplicator,
                    metrics,
                );
                let ghost found = rows;
                let ghost later = *metrics;
                assert(reconciled(
                    engine,
                    parser,
                    &*self.state_info,
                    &actions,
                    is_log_batch,
                    all_selected(n as nat),
                    seen,
                    deduplicator.seen(),
                    middle,
                    later,
                    found,
                ));
                match rows {
                    Ok(rows) => {
                        let r = self.retry_transform_and_data_skip(
                            engine,
                            actions,
                            is_log_batch,
                            rows,
                            metrics,
                        );
                        let ghost run = BatchRun {
                            log_batch: is_log_batch,
                            seen,
                            seen_after: deduplicator.seen(),
                            before: start,
                            after: *metrics,
                        };
                        proof {
                            self.lemma_processed_after_dedup(
                                engine,
                                parser,
                                actions,
                                given->Err_0,
                                run,
                                middle,
                                n,
                                later,
                                found,
                                r,
                            );
                        }
                        (r, deduplicator)
                    },
                    Err(e) => {
                        let ghost run = BatchRun {
                            log_batch: is_log_batch,
                            seen,
                            seen_after: deduplicator.seen(),
                            before: start,
                            after: *metrics,
                        };
                        proof {
                            self.lemma_processed_after_dedup(
                                engine,
                                parser,
                                actions,
                                given->Err_0,
                                run,
                                middle,
                                n,
                                later,
                                found,
                                Err(e),
                            );
                        }
                        (Err(e), deduplicator)
                    },
                }
            },
            Err(e) => {
                let ghost run = BatchRun {
                    log_batch: is_log_batch,
                    seen,
                    seen_after: deduplicator.seen(),
                    before: start,
                    after: *metrics,
                };
                assert(self.transform_outcome(
                    engine,
                    &actions,
                    run.log_batch,
                    run.before,
                    middle,
                    given,
                ));
                assert(self.processed(engine, parser, actions, run, Err(e)));
                (Err(e), deduplicator)
            },
        }
    }

    proof fn lemma_processed_directly<P: ScalarParser>(
        self,
        engine: &E,
        parser: &P,
        actions: E::Batch,
        transformed: E::Batch,
        selection: Vec<bool>,
        run: BatchRun,
        middle: ScanMetrics,
        later: ScanMetrics,
        rows: DeltaResult<Reconciled>,
        r: DeltaResult<ScanMetadata<E::Batch>>,
    )
        requires
            self.transform_outcome(
                engine,
                &actions,
                run.log_batch,
                run.before,
                middle,
                Ok((transformed, selection)),
            ),
            reconciled(
                engine,
                parser,
                &*self.state_info,
                &actions,
                run.log_batch,
                selection@,
                run.seen,
                run.seen_after,
                middle,
                later,
                rows,
            ),
            match rows {
                Err(e) => r == Err::<ScanMetadata<E::Batch>, _>(e) && run.after == later,
                Ok(rows) => finished(
                    engine,
                    transformed,
                    rows.selection@,
                    rows.row_transform_exprs@,
                    rows.active_add_file_sizes@,
                    later,
                    run.after,
                    r,
                ),
            },
        ensures
            self.processed(engine, parser, actions, run, r),
    {
        let rest = BatchRun { before: middle, ..run };
        assert(reconciled(
            engine,
            parser,
            &*self.state_info,
            &actions,
            rest.log_batch,
            selection@,
            rest.seen,
            rest.seen_after,
            rest.before,
            later,
            rows,
        ));
        assert(self.processed_directly(engine, parser, actions, transformed, selection, rest, r));
    }

    proof fn lemma_processed_after_dedup<P: ScalarParser>(
        self,
        engine: &E,
        parser: &P,
        actions: E::Batch,
        parse_error: Error,
        run: BatchRun,
        middle: ScanMetrics,
        n: usize,
        later: ScanMetrics,
        rows: DeltaResult<Reconciled>,
        r: DeltaResult<ScanMetadata<E::Batch>>,
    )
        requires
            parse_error is ParseError,
            self.transform_outcome(
                engine,
                &actions,
                run.log_batch,
                run.before,
                middle,
                Err(parse_error),
            ),
            call_ensures(E::batch_len, (engine, &actions), n),
            reconciled(
                engine,
                parser,
                &*self.state_info,
                &actions,
                run.log_batch,
                all_selected(n as nat),
                run.seen,
                run.seen_after,
                middle,
                later,
                rows,
            ),
            match rows {
                Err(e) => r == Err::<ScanMetadata<E::Batch>, _>(e) && run.after == later,
                Ok(rows) => self.retried(
                    engine,
                    actions,
                    rows,
                    BatchRun { before: middle, ..run },
                    later,
                    r,
                ),
            },
        ensures
            self.processed(engine, parser, actions, run, r),
    {
        let rest = BatchRun { before: middle, ..run };
        assert(reconciled(
            engine,
            parser,
            &*self.state_info,
            &actions,
            rest.log_batch,
            all_selected(n as nat),
            rest.seen,
            rest.seen_after,
            rest.before,
            later,
            rows,
        ));
        assert(self.processed_after_dedup(engine, parser, actions, rest, r));
    }

    fn retry_transform_and_data_skip(
        &self,
        engine: &E,
        actions: E::Batch,
        is_log_batch: bool,
        rows: Reconciled,
        metrics: &mut ScanMetrics,
    ) -> (r: DeltaResult<ScanMetadata<E::Batch>>)
        ensures
            forall|run: BatchRun|
                run.log_batch == is_log_batch && run.after == *final(metrics)
                    ==> #[trigger] self.retried(engine, actions, rows, run, *old(metrics), r),
    {
        let ghost middle = *metrics;
        let (row_transform_exprs, active_add_file_sizes) = keep_selected(
            &rows.selection,
            &rows.row_transform_exprs,
            &rows.active_add_file_sizes,
        );
        let survivors = match engine.apply_selection_vector(actions, rows.selection) {
            Ok(survivors) => survivors,
            Err(e) => return Err(e),
        };
        let t = self.transform_and_data_skip(engine, &survivors, is_log_batch, metrics);
        let ghost given = t;
        let ghost later = *metrics;
        match t {
            Ok((transformed_actions, final_selection)) => {
                let r = finish(
                    engine,
                    transformed_actions,
                    final_selection,
                    row_transform_exprs,
                    &active_add_file_sizes,
                    metrics,
                );
                assert forall|run: BatchRun|
                    run.log_batch == is_log_batch && run.after
                        == *metrics implies #[trigger] self.retried(
                    engine,
                    actions,
                    rows,
                    run,
                    middle,
                    r,
                ) by {
                    assert(self.transform_outcome(
                        engine,
                        &survivors,
                        run.log_batch,
                        middle,
                        later,
                        given,
                    ));
                    assert(self.survivors_processed(engine, survivors, rows, run, middle, r));
                }
                r
            },
            Err(e) => {
                assert forall|run: BatchRun|
                    run.log_batch == is_log_batch && run.after
                        == *metrics implies #[trigger] self.retried(
                    engine,
                    actions,
                    rows,
                    run,
                    middle,
                    Err(e),
                ) by {
                    assert(self.transform_outcome(
                        engine,
                        &survivors,
                        run.log_batch,
                        middle,
                        later,
                        given,
                    ));
                    assert(self.survivors_processed(engine, survivors, rows, run, middle, Err(e)));
                }
                Err(e)
            },
        }
    }
}

// ---------------------------------------------------------------------------------------------
// Processing in sequence and in parallel
// ---------------------------------------------------------------------------------------------

/// The counters after a batch: with the number of files seen, if the batch was processed.
pub open spec fn with_seen_count<B>(
    metrics: ScanMetrics,
    seen: Set<KeyV>,
    r: DeltaResult<ScanMetadata<B>>,
) -> ScanMetrics {
    match r {
        Ok(_) => metrics.with_peak(seen.len() as u64),
        Err(_) => metrics,
    }
}

/// What is said of a commit handed to a parallel processor.
pub open spec fn only_checkpoints() -> ErrorV {
    ErrorV::Generic("Parallel checkpoint processor may only be applied to checkpoint files"@)
}

impl<E: Engine> ScanLogReplayProcessor<E> {
    /// Whether everything but the files seen and the counters is the same.
    pub open spec fn same_scan(&self, other: &Self) -> bool {
        &&& self.plan == other.plan
        &&& self.stats_options == other.stats_options
        &&& self.partition_values_options == other.partition_values_options
        &&& self.checkpoint_info == other.checkpoint_info
    }

    /// Processes the next batch of log actions, commits from the newest to the oldest and then
    /// checkpoints. Files of commits are remembered.
    pub fn process_actions_batch<P: ScalarParser>(
        &mut self,
        engine: &E,
        parser: &P,
        actions_batch: ActionsBatch<E::Batch>,
    ) -> (r: DeltaResult<ScanMetadata<E::Batch>>)
        requires
            old(self).wf(),
        ensures
            final(self).wf(),
            final(self).same_scan(old(self)),
            exists|after: ScanMetrics|
                final(self).metrics == with_seen_count(after, final(self).seen_file_keys@, r)
                    && #[trigger] old(self).plan.processed(
                    engine,
                    parser,
                    actions_batch.actions,
                    BatchRun {
                        log_batch: actions_batch.is_log_batch,
                        seen: old(self).seen_file_keys@,
                        seen_after: final(self).seen_file_keys@,
                        before: old(self).metrics,
                        after,
                    },
                    r,
                ),
    {
        let mut seen = FileKeySet::new();
        std::mem::swap(&mut seen, &mut self.seen_file_keys);
        let deduplicator = FileActionDeduplicator::new(seen, actions_batch.is_log_batch);
        let mut metrics = self.metrics;
        let (r, deduplicator) = self.plan.process_batch(
            engine,
            parser,
            actions_batch.actions,
            deduplicator,
            &mut metrics,
        );
        self.seen_file_keys = deduplicator.into_seen();
        let ghost after = metrics;
        if r.is_ok() {
            metrics.update_peak_hash_set_size(self.seen_file_keys.len() as u64);
        }
        self.metrics = metrics;
        assert(self.metrics == with_seen_count(after, self.seen_file_keys@, r));
        r
    }

    /// Processes a checkpoint batch without changing the files seen, so that several batches can
    /// be processed at the same time. Commits are refused.
    pub fn process_checkpoint_batch<P: ScalarParser>(
        &self,
        engine: &E,
        parser: &P,
        actions_batch: ActionsBatch<E::Batch>,
        metrics: &mut ScanMetrics,
    ) -> (r: DeltaResult<ScanMetadata<E::Batch>>)
        requires
            self.wf(),
        ensures
            if actions_batch.is_log_batch {
                r is Err && r->Err_0@ == only_checkpoints() && *final(metrics) == *old(metrics)
            } else {
                exists|after: ScanMetrics|
                    *final(metrics) == with_seen_count(after, self.seen_file_keys@, r)
                        && #[trigger] self.plan.processed(
                        engine,
                        parser,
                        actions_batch.actions,
                        BatchRun {
                            log_batch: false,
                            seen: self.seen_file_keys@,
                            seen_after: self.seen_file_keys@,
                            before: *old(metrics),
                            after,
                        },
                        r,
                    )
            },
    {
        if actions_batch.is_log_batch {
            return Err(
                Error::generic(
                    "Parallel checkpoint processor may only be applied to checkpoint files",
                ),
            );
        }
        let deduplicator = CheckpointDeduplicator::new(&self.seen_file_keys);
        let (r, deduplicator) = self.plan.process_batch(
            engine,
            parser,
            actions_batch.actions,
            deduplicator,
            metrics,
        );
        let ghost after = *metrics;
        if r.is_ok() {
            metrics.update_peak_hash_set_size(self.seen_file_keys.len() as u64);
        }
        assert(*metrics == with_seen_count(after, self.seen_file_keys@, r));
        r
    }
}

} // verus!
