//! What a run of log replay selects, and that updating an earlier scan selects the same.

use vstd::prelude::*;

use super::dedup_laws::{
    seen_after, survives, visit_selects_surviving_adds, visited_actions,
};
use super::dedup_visitor::{visited_columns, VisitV};
use super::log_replay::{ReplayPlan, ScanLogReplayProcessor};
use super::metrics::ScanMetrics;
use super::partition_values::ScalarParser;
use super::process_batch::{
    action_columns_read, all_selected, finished, kept_sizes, reconciled, visit_start, BatchRun,
    Reconciled,
};
use super::replay::{batch_processed, batch_taken, ReplayStep, ScanReplay};
use super::scan_metadata::ScanMetadata;
use super::state_info::StateInfo;
use crate::engine::{Column, Engine};
use crate::error::{DeltaResult, Error, ErrorV};
use crate::log_replay::{action_at, ActionV, ActionsBatch, KeyV};

verus! {

// ---------------------------------------------------------------------------------------------
// One batch
// ---------------------------------------------------------------------------------------------

/// What processing a batch looked at. Each row has an entry.
pub struct VisitedBatch {
    /// The file actions of the rows that are visited; none where data skipping dropped the row
    /// beforehand or the row holds no file action.
    pub actions: Seq<Option<ActionV>>,
    /// Which rows their partition values keep.
    pub kept: Seq<bool>,
    /// Which rows data skipping keeps, where it comes after reconciling.
    pub passed: Seq<bool>,
    pub log_batch: bool,
}

/// The values at the marked ones among the first `n` positions.
pub open spec fn compacted(marks: Seq<bool>, values: Seq<bool>, n: nat) -> Seq<bool>
    decreases n,
{
    if n == 0 {
        seq![]
    } else {
        let before = compacted(marks, values, (n - 1) as nat);
        if marks[n - 1] {
            before.push(values[n - 1])
        } else {
            before
        }
    }
}

impl VisitedBatch {
    pub open spec fn wf(self) -> bool {
        self.kept.len() == self.actions.len() && self.passed.len() == self.actions.len()
    }

    /// The rows that survive reconciling, given the files seen before.
    pub open spec fn reconciled_rows(self, seen: Set<KeyV>) -> Seq<bool> {
        Seq::new(
            self.actions.len(),
            |i: int| survives(seen, self.actions, self.log_batch, i) && self.kept[i],
        )
    }

    /// The rows that are selected in the end.
    pub open spec fn selection(self, seen: Set<KeyV>) -> Seq<bool> {
        Seq::new(
            self.actions.len(),
            |i: int|
                survives(seen, self.actions, self.log_batch, i) && self.kept[i] && self.passed[i],
        )
    }

    /// Whether the file `key` is selected.
    pub open spec fn selects(self, seen: Set<KeyV>, key: KeyV) -> bool {
        exists|i: int|
            0 <= i < self.actions.len() && #[trigger] self.selection(seen)[i]
                && self.actions[i]->0.key == key
    }

    /// Whether an Add of the file `key` is offered, and neither its partition values nor data
    /// skipping drop it.
    pub open spec fn offers(self, key: KeyV) -> bool {
        exists|i: int|
            0 <= i < self.actions.len() && (#[trigger] self.actions[i]) is Some
                && self.actions[i]->0.is_add && self.actions[i]->0.key == key && self.kept[i]
                && self.passed[i]
    }

    /// The files seen after the batch.
    pub open spec fn after(self, seen: Set<KeyV>) -> Set<KeyV> {
        seen_after(seen, self.actions, self.log_batch, self.actions.len() as int)
    }

    /// Whether the batch looked at what the engine read from its columns.
    pub open spec fn reads<E: Engine, P: ScalarParser>(
        self,
        engine: &E,
        parser: &P,
        plan: ReplayPlan<E>,
        actions: &E::Batch,
    ) -> bool {
        exists|columns: Vec<Column>|
            (#[trigger] action_columns_read(engine, actions, self.log_batch, Ok(columns)))
                && forall|i: int|
                0 <= i < self.actions.len() ==> {
                    &&& (#[trigger] self.actions[i]) is Some ==> action_at(
                        columns@,
                        i,
                        !self.log_batch,
                    ) == Ok::<_, ErrorV>(self.actions[i])
                    &&& self.kept[i] == plan.state_info.row_kept(parser, columns@, i)
                }
    }

    /// Whether a step shows what the batch selects. The item has the rows of the batch, or, where
    /// data skipping comes after reconciling, only those that survive it. Without a selected row
    /// there is no item.
    pub open spec fn shown_by<B>(self, seen: Set<KeyV>, step: ReplayStep<B>) -> bool {
        match step {
            ReplayStep::Item(Ok(metadata)) => {
                let shown = metadata.scan_files.selection_vector@;
                shown == self.selection(seen) || shown == compacted(
                    self.reconciled_rows(seen),
                    self.passed,
                    self.actions.len(),
                )
            },
            ReplayStep::Again => forall|key: KeyV| !#[trigger] self.selects(seen, key),
            _ => false,
        }
    }
}

/// Whether a step over a batch looked at `v`, selected what follows from it, and remembers the
/// files that it mentions.
pub open spec fn step_visits<E: Engine, P: ScalarParser>(
    engine: &E,
    parser: &P,
    before: ScanLogReplayProcessor<E>,
    after: ScanLogReplayProcessor<E>,
    batch: ActionsBatch<E::Batch>,
    step: ReplayStep<E::Batch>,
    v: VisitedBatch,
) -> bool {
    &&& v.wf()
    &&& v.log_batch == batch.is_log_batch
    &&& v.reads(engine, parser, before.plan, &batch.actions)
    &&& after.seen_file_keys@ == v.after(before.seen_file_keys@)
    &&& v.shown_by(before.seen_file_keys@, step)
}

proof fn lemma_compacted_selects(marks: Seq<bool>, values: Seq<bool>, n: nat, i: int)
    requires
        0 <= i < n,
        n <= marks.len(),
        marks[i],
        values[i],
    ensures
        compacted(marks, values, n).contains(true),
    decreases n,
{
    let before = compacted(marks, values, (n - 1) as nat);
    if i == n - 1 {
        assert(before.push(values[n - 1])[before.len() as int]);
    } else {
        lemma_compacted_selects(marks, values, (n - 1) as nat, i);
        let k = choose|k: int| 0 <= k < before.len() && before[k] == true;
        assert(compacted(marks, values, n)[k] == true);
    }
}

/// The flags of the marked positions, put back in place.
pub open spec fn spread(marks: Seq<bool>, flags: Seq<bool>, n: nat) -> Seq<bool>
    decreases n,
{
    if n == 0 {
        seq![]
    } else {
        let before = spread(marks, flags, (n - 1) as nat);
        before.push(
            if marks[n - 1] {
                flags[marked(marks, (n - 1) as nat)]
            } else {
                true
            },
        )
    }
}

/// How many of the first `n` positions are marked.
pub open spec fn marked(marks: Seq<bool>, n: nat) -> int
    decreases n,
{
    if n == 0 {
        0
    } else {
        marked(marks, (n - 1) as nat) + (if marks[n - 1] {
            1int
        } else {
            0
        })
    }
}

proof fn lemma_spread_prefix(marks: Seq<bool>, flags: Seq<bool>, n: nat, m: nat)
    requires
        n <= m,
    ensures
        spread(marks, flags, m).len() == m,
        spread(marks, flags, n).len() == n,
        0 <= marked(marks, n) <= marked(marks, m),
        forall|i: int| 0 <= i < n ==> spread(marks, flags, n)[i] == spread(marks, flags, m)[i],
    decreases m,
{
    if m > 0 {
        if n < m {
            lemma_spread_prefix(marks, flags, n, (m - 1) as nat);
        } else {
            lemma_spread_prefix(marks, flags, (n - 1) as nat, (n - 1) as nat);
        }
    }
}

proof fn lemma_compacted_spread(marks: Seq<bool>, flags: Seq<bool>, n: nat, m: nat)
    requires
        n <= m <= marks.len(),
        marked(marks, m) <= flags.len(),
    ensures
        compacted(marks, spread(marks, flags, m), n) =~= flags.take(marked(marks, n)),
    decreases n,
{
    lemma_spread_prefix(marks, flags, n, m);
    if n > 0 {
        lemma_compacted_spread(marks, flags, (n - 1) as nat, m);
        lemma_spread_prefix(marks, flags, (n - 1) as nat, n);
        assert(spread(marks, flags, m)[n - 1] == spread(marks, flags, n)[n - 1]);
    }
}

proof fn lemma_sizes_kept<P: ScalarParser>(
    start: VisitV,
    state_info: &StateInfo,
    parser: &P,
    columns: Seq<Column>,
    log_batch: bool,
    n: nat,
)
    requires
        n <= start.sizes.len(),
    ensures
        start.after_rows(state_info, parser, columns, log_batch, n).sizes.len()
            == start.sizes.len(),
    decreases n,
{
    if n > 0 {
        lemma_sizes_kept(start, state_info, parser, columns, log_batch, (n - 1) as nat);
    }
}

proof fn lemma_kept_sizes(selection: Seq<bool>, sizes: Seq<u64>, n: nat)
    requires
        n <= sizes.len(),
    ensures
        kept_sizes(selection, sizes, n).len() == marked(selection, n),
    decreases n,
{
    if n > 0 {
        lemma_kept_sizes(selection, sizes, (n - 1) as nat);
    }
}

/// What reconciling the selected rows of a batch looked at.
proof fn lemma_reconciled<E: Engine, P: ScalarParser>(
    engine: &E,
    parser: &P,
    plan: ReplayPlan<E>,
    actions: &E::Batch,
    selection: Seq<bool>,
    run: BatchRun,
    middle: ScanMetrics,
    rows: Reconciled,
) -> (columns: Vec<Column>)
    requires
        reconciled(
            engine,
            parser,
            &*plan.state_info,
            actions,
            run.log_batch,
            selection,
            run.seen,
            run.seen_after,
            run.before,
            middle,
            Ok(rows),
        ),
    ensures
        action_columns_read(engine, actions, run.log_batch, Ok(columns)),
        rows.selection@.len() == selection.len(),
        rows.active_add_file_sizes@.len() == selection.len(),
        run.seen_after == seen_after(
            run.seen,
            visited_actions(columns@, selection, run.log_batch, selection.len()),
            run.log_batch,
            selection.len() as int,
        ),
        forall|r: int|
            0 <= r < selection.len() ==> #[trigger] rows.selection@[r] == (survives(
                run.seen,
                visited_actions(columns@, selection, run.log_batch, selection.len()),
                run.log_batch,
                r,
            ) && plan.state_info.row_kept(parser, columns@, r)),
{
    let start = visit_start(run.seen, selection, run.before);
    let read = choose|columns: DeltaResult<Vec<Column>>| #[trigger]
        action_columns_read(engine, actions, run.log_batch, columns) && match columns {
            Err(_) => false,
            Ok(columns) => if columns@.len() != visited_columns(run.log_batch).len() {
                false
            } else {
                let end = start.after_rows(
                    &*plan.state_info,
                    parser,
                    columns@,
                    run.log_batch,
                    selection.len(),
                );
                run.seen_after == end.seen && end.error is None && rows.selection@ == end.selection
                    && rows.active_add_file_sizes@ == end.sizes
            },
        };
    let columns = read->Ok_0;
    visit_selects_surviving_adds(
        start,
        &*plan.state_info,
        parser,
        columns@,
        run.log_batch,
        selection.len(),
    );
    lemma_sizes_kept(
        start,
        &*plan.state_info,
        parser,
        columns@,
        run.log_batch,
        selection.len(),
    );
    columns
}

/// The batch that was looked at, with the given outcome of data skipping after reconciling.
spec fn looked_at<E: Engine, P: ScalarParser>(
    parser: &P,
    plan: ReplayPlan<E>,
    columns: Vec<Column>,
    selection: Seq<bool>,
    log_batch: bool,
    passed: Seq<bool>,
) -> VisitedBatch {
    VisitedBatch {
        actions: visited_actions(columns@, selection, log_batch, selection.len()),
        kept: Seq::new(selection.len(), |i: int| plan.state_info.row_kept(parser, columns@, i)),
        passed,
        log_batch,
    }
}

/// A step shows what was looked at: with data skipping before reconciling.
proof fn lemma_shown_directly<B>(
    v: VisitedBatch,
    seen: Set<KeyV>,
    shown: Seq<bool>,
    metadata: ScanMetadata<B>,
    step: ReplayStep<B>,
)
    requires
        v.wf(),
        metadata.scan_files.selection_vector@ == shown,
        shown == v.selection(seen) || shown == compacted(
            v.reconciled_rows(seen),
            v.passed,
            v.actions.len(),
        ),
        if shown.contains(true) {
            step == ReplayStep::Item::<B>(Ok(metadata))
        } else {
            step is Again
        },
    ensures
        v.shown_by(seen, step),
{
    if !shown.contains(true) {
        assert forall|key: KeyV| !#[trigger] v.selects(seen, key) by {
            if v.selects(seen, key) {
                let i = choose|i: int|
                    0 <= i < v.actions.len() && #[trigger] v.selection(seen)[i]
                        && v.actions[i]->0.key == key;
                if shown == v.selection(seen) {
                    assert(shown[i] == true);
                } else {
                    lemma_compacted_selects(
                        v.reconciled_rows(seen),
                        v.passed,
                        v.actions.len(),
                        i,
                    );
                }
            }
        }
    }
}

/// Every step that takes a batch without an error selects the surviving Adds of what it looked at,
/// as far as their partition values and data skipping keep them.
pub proof fn steps_select_surviving_adds<E: Engine, P: ScalarParser>(
    engine: &E,
    parser: &P,
    before: ScanLogReplayProcessor<E>,
    after: ScanLogReplayProcessor<E>,
    batch: ActionsBatch<E::Batch>,
    step: ReplayStep<E::Batch>,
)
    requires
        batch_taken(engine, parser, before, after, batch, step),
        !(step matches ReplayStep::Item(Err(_))),
    ensures
        exists|v: VisitedBatch| step_visits(engine, parser, before, after, batch, step, v),
{
    let r = choose|r: DeltaResult<ScanMetadata<E::Batch>>| #[trigger]
        batch_processed(engine, parser, before, after, batch, r) && match r {
            Ok(metadata) => if metadata.scan_files.selection_vector@.contains(true) {
                step == ReplayStep::Item::<E::Batch>(Ok(metadata))
            } else {
                step is Again
            },
            Err(_) => false,
        };
    let metadata = r->Ok_0;
    let plan = before.plan;
    let metrics = choose|metrics: ScanMetrics| #[trigger]
        plan.processed(
            engine,
            parser,
            batch.actions,
            BatchRun {
                log_batch: batch.is_log_batch,
                seen: before.seen_file_keys@,
                seen_after: after.seen_file_keys@,
                before: before.metrics,
                after: metrics,
            },
            r,
        );
    let outer = BatchRun {
        log_batch: batch.is_log_batch,
        seen: before.seen_file_keys@,
        seen_after: after.seen_file_keys@,
        before: before.metrics,
        after: metrics,
    };
    let (t, begun) = choose|t: DeltaResult<(E::Batch, Vec<bool>)>, begun: ScanMetrics|
        #[trigger] plan.transform_outcome(
            engine,
            &batch.actions,
            outer.log_batch,
            outer.before,
            begun,
            t,
        ) && match t {
            Ok((transformed, selection)) => plan.processed_directly(
                engine,
                parser,
                batch.actions,
                transformed,
                selection,
                BatchRun { before: begun, ..outer },
                r,
            ),
            Err(Error::ParseError(_, _)) => plan.processed_after_dedup(
                engine,
                parser,
                batch.actions,
                BatchRun { before: begun, ..outer },
                r,
            ),
            Err(_) => false,
        };
    let run = BatchRun { before: begun, ..outer };
    match t {
        Ok((transformed, selection)) => {
            lemma_direct_step(
                engine,
                parser,
                before,
                after,
                batch,
                step,
                transformed,
                selection,
                run,
                metadata,
            );
        },
        _ => {
            lemma_retried_step(engine, parser, before, after, batch, step, run, metadata);
        },
    }
}

proof fn lemma_direct_step<E: Engine, P: ScalarParser>(
    engine: &E,
    parser: &P,
    before: ScanLogReplayProcessor<E>,
    after: ScanLogReplayProcessor<E>,
    batch: ActionsBatch<E::Batch>,
    step: ReplayStep<E::Batch>,
    transformed: E::Batch,
    selection: Vec<bool>,
    run: BatchRun,
    metadata: ScanMetadata<E::Batch>,
)
    requires
        run.log_batch == batch.is_log_batch,
        run.seen == before.seen_file_keys@,
        run.seen_after == after.seen_file_keys@,
        before.plan.processed_directly(
            engine,
            parser,
            batch.actions,
            transformed,
            selection,
            run,
            Ok(metadata),
        ),
        if metadata.scan_files.selection_vector@.contains(true) {
            step == ReplayStep::Item::<E::Batch>(Ok(metadata))
        } else {
            step is Again
        },
    ensures
        exists|v: VisitedBatch| step_visits(engine, parser, before, after, batch, step, v),
{
    let plan = before.plan;
    let (rows, middle) = choose|rows: DeltaResult<Reconciled>, middle: ScanMetrics|
        #[trigger] reconciled(
            engine,
            parser,
            &*plan.state_info,
            &batch.actions,
            run.log_batch,
            selection@,
            run.seen,
            run.seen_after,
            run.before,
            middle,
            rows,
        ) && match rows {
            Err(_) => false,
            Ok(rows) => finished(
                engine,
                transformed,
                rows.selection@,
                rows.row_transform_exprs@,
                rows.active_add_file_sizes@,
                middle,
                run.after,
                Ok(metadata),
            ),
        };
    let rows = rows->Ok_0;
    let columns = lemma_reconciled(
        engine,
        parser,
        plan,
        &batch.actions,
        selection@,
        run,
        middle,
        rows,
    );
    let n = selection@.len();
    let v = looked_at(
        parser,
        plan,
        columns,
        selection@,
        run.log_batch,
        Seq::new(n, |i: int| true),
    );
    assert(rows.selection@ =~= v.selection(run.seen));
    assert(v.reads(engine, parser, plan, &batch.actions));
    lemma_shown_directly(v, run.seen, rows.selection@, metadata, step);
    assert(step_visits(engine, parser, before, after, batch, step, v));
}

proof fn lemma_retried_step<E: Engine, P: ScalarParser>(
    engine: &E,
    parser: &P,
    before: ScanLogReplayProcessor<E>,
    after: ScanLogReplayProcessor<E>,
    batch: ActionsBatch<E::Batch>,
    step: ReplayStep<E::Batch>,
    run: BatchRun,
    metadata: ScanMetadata<E::Batch>,
)
    requires
        run.log_batch == batch.is_log_batch,
        run.seen == before.seen_file_keys@,
        run.seen_after == after.seen_file_keys@,
        before.plan.processed_after_dedup(engine, parser, batch.actions, run, Ok(metadata)),
        if metadata.scan_files.selection_vector@.contains(true) {
            step == ReplayStep::Item::<E::Batch>(Ok(metadata))
        } else {
            step is Again
        },
    ensures
        exists|v: VisitedBatch| step_visits(engine, parser, before, after, batch, step, v),
{
    let plan = before.plan;
    let (n, rows, middle) = choose|n: usize, rows: DeltaResult<Reconciled>, middle: ScanMetrics|
        #[trigger] reconciled(
            engine,
            parser,
            &*plan.state_info,
            &batch.actions,
            run.log_batch,
            all_selected(n as nat),
            run.seen,
            run.seen_after,
            run.before,
            middle,
            rows,
        ) && match rows {
            Err(_) => false,
            Ok(rows) => plan.retried(engine, batch.actions, rows, run, middle, Ok(metadata)),
        };
    let rows = rows->Ok_0;
    let selection = all_selected(n as nat);
    let columns = lemma_reconciled(
        engine,
        parser,
        plan,
        &batch.actions,
        selection,
        run,
        middle,
        rows,
    );
    let flags = metadata.scan_files.selection_vector@;
    let marks = rows.selection@;
    lemma_kept_sizes(marks, rows.active_add_file_sizes@, n as nat);
    assert(flags.len() == marked(marks, n as nat)) by {
        let survivors = choose|survivors: DeltaResult<E::Batch>| #[trigger]
            call_ensures(
                E::apply_selection_vector,
                (engine, batch.actions, rows.selection),
                survivors,
            ) && match survivors {
                Err(_) => false,
                Ok(survivors) => plan.survivors_processed(
                    engine,
                    survivors,
                    rows,
                    run,
                    middle,
                    Ok(metadata),
                ),
            };
        assert(plan.survivors_processed(
            engine,
            survivors->Ok_0,
            rows,
            run,
            middle,
            Ok(metadata),
        ));
    }
    let passed = spread(marks, flags, n as nat);
    let v = looked_at(parser, plan, columns, selection, run.log_batch, passed);
    lemma_spread_prefix(marks, flags, n as nat, n as nat);
    lemma_compacted_spread(marks, flags, n as nat, n as nat);
    assert(v.reconciled_rows(run.seen) =~= marks);
    assert(flags =~= compacted(v.reconciled_rows(run.seen), v.passed, v.actions.len()));
    assert(v.reads(engine, parser, plan, &batch.actions));
    lemma_shown_directly(v, run.seen, flags, metadata, step);
    assert(step_visits(engine, parser, before, after, batch, step, v));
}

// ---------------------------------------------------------------------------------------------
// A whole run
// ---------------------------------------------------------------------------------------------

/// A run of log replay: the batches that were handed in, the step that each gave, and the replay
/// before and after each.
pub struct ReplayRun<E: Engine> {
    pub replays: Seq<ScanReplay<E>>,
    pub batches: Seq<ActionsBatch<E::Batch>>,
    pub steps: Seq<ReplayStep<E::Batch>>,
}

impl<E: Engine> ReplayRun<E> {
    /// Whether this is a run of [`ScanReplay::step`] without an error.
    pub open spec fn is_run<P: ScalarParser>(self, engine: &E, parser: &P) -> bool {
        &&& self.steps.len() == self.batches.len()
        &&& self.replays.len() == self.batches.len() + 1
        &&& forall|i: int|
            0 <= i < self.batches.len() ==> batch_taken(
                engine,
                parser,
                self.replays[i].processor->0,
                self.replays[i + 1].processor->0,
                self.batches[i],
                #[trigger] self.steps[i],
            ) && !(self.steps[i] matches ReplayStep::Item(Err(_)))
    }

    /// The files seen before the batch at `i`.
    pub open spec fn seen(self, i: int) -> Set<KeyV> {
        self.replays[i].processor->0.seen_file_keys@
    }

    /// Whether the steps looked at the given batches.
    pub open spec fn visits<P: ScalarParser>(
        self,
        engine: &E,
        parser: &P,
        visited: Seq<VisitedBatch>,
    ) -> bool {
        &&& visited.len() == self.batches.len()
        &&& forall|i: int|
            0 <= i < self.batches.len() ==> step_visits(
                engine,
                parser,
                self.replays[i].processor->0,
                self.replays[i + 1].processor->0,
                self.batches[i],
                self.steps[i],
                #[trigger] visited[i],
            )
    }

    /// Whether the run selects the file `key`.
    pub open spec fn selects(self, visited: Seq<VisitedBatch>, key: KeyV) -> bool {
        exists|i: int|
            0 <= i < visited.len() && (#[trigger] visited[i]).selects(self.seen(i), key)
    }
}

/// What a step looked at.
spec fn visited_by<E: Engine, P: ScalarParser>(
    engine: &E,
    parser: &P,
    before: ScanLogReplayProcessor<E>,
    after: ScanLogReplayProcessor<E>,
    batch: ActionsBatch<E::Batch>,
    step: ReplayStep<E::Batch>,
) -> VisitedBatch {
    choose|v: VisitedBatch| step_visits(engine, parser, before, after, batch, step, v)
}

/// Every run of steps looked at some batches, and selects what follows from them.
pub proof fn runs_visit_batches<E: Engine, P: ScalarParser>(
    engine: &E,
    parser: &P,
    run: ReplayRun<E>,
)
    requires
        run.is_run(engine, parser),
    ensures
        exists|visited: Seq<VisitedBatch>| run.visits(engine, parser, visited),
{
    let visited = Seq::new(
        run.batches.len(),
        |i: int|
            visited_by(
                engine,
                parser,
                run.replays[i].processor->0,
                run.replays[i + 1].processor->0,
                run.batches[i],
                run.steps[i],
            ),
    );
    assert forall|i: int| 0 <= i < run.batches.len() implies step_visits(
        engine,
        parser,
        run.replays[i].processor->0,
        run.replays[i + 1].processor->0,
        run.batches[i],
        run.steps[i],
        #[trigger] visited[i],
    ) by {
        assert(batch_taken(
            engine,
            parser,
            run.replays[i].processor->0,
            run.replays[i + 1].processor->0,
            run.batches[i],
            run.steps[i],
        ));
        steps_select_surviving_adds(
            engine,
            parser,
            run.replays[i].processor->0,
            run.replays[i + 1].processor->0,
            run.batches[i],
            run.steps[i],
        );
    }
    assert(run.visits(engine, parser, visited));
}

/// Whether one of the first `n` batches mentions the file `key`, so that older batches do not
/// count.
pub open spec fn mentioned(visited: Seq<VisitedBatch>, key: KeyV, n: int) -> bool {
    exists|i: int|
        0 <= i < n && i < visited.len() && (#[trigger] visited[i]).after(Set::empty()).contains(key)
}

/// Whether the file `key` is found: selected by a batch that no newer one has overridden.
pub open spec fn found(visited: Seq<VisitedBatch>, key: KeyV) -> bool {
    exists|i: int|
        0 <= i < visited.len() && (#[trigger] visited[i]).selects(Set::empty(), key) && !mentioned(
            visited,
            key,
            i,
        )
}

/// Whether a batch selects a file depends on the files seen only by whether they hold that file.
proof fn lemma_selects_own_key(v: VisitedBatch, seen: Set<KeyV>, key: KeyV)
    ensures
        v.selects(seen, key) == (!seen.contains(key) && v.selects(Set::empty(), key)),
        v.after(seen).contains(key) == (seen.contains(key) || v.after(Set::empty()).contains(key)),
{
    let none = Set::<KeyV>::empty();
    if v.selects(seen, key) {
        let i = choose|i: int|
            0 <= i < v.actions.len() && #[trigger] v.selection(seen)[i] && v.actions[i]->0.key
                == key;
        assert(v.selection(none)[i]);
    }
    if !seen.contains(key) && v.selects(none, key) {
        let i = choose|i: int|
            0 <= i < v.actions.len() && #[trigger] v.selection(none)[i] && v.actions[i]->0.key
                == key;
        assert(v.selection(seen)[i]);
    }
}

proof fn lemma_seen_at<E: Engine, P: ScalarParser>(
    engine: &E,
    parser: &P,
    run: ReplayRun<E>,
    visited: Seq<VisitedBatch>,
    key: KeyV,
    n: int,
)
    requires
        run.visits(engine, parser, visited),
        run.seen(0) == Set::<KeyV>::empty(),
        0 <= n <= visited.len(),
    ensures
        run.seen(n).contains(key) == mentioned(visited, key, n),
    decreases n,
{
    if n > 0 {
        lemma_seen_at(engine, parser, run, visited, key, n - 1);
        let v = visited[n - 1];
        assert(run.seen(n) == v.after(run.seen(n - 1)));
        lemma_selects_own_key(v, run.seen(n - 1), key);
        if mentioned(visited, key, n - 1) {
            let i = choose|i: int|
                0 <= i < n - 1 && i < visited.len() && (#[trigger] visited[i]).after(
                    Set::empty(),
                ).contains(key);
            assert(visited[i].after(Set::empty()).contains(key));
        }
        if mentioned(visited, key, n) && !mentioned(visited, key, n - 1) {
            let i = choose|i: int|
                0 <= i < n && i < visited.len() && (#[trigger] visited[i]).after(
                    Set::empty(),
                ).contains(key);
            assert(i == n - 1);
        }
    }
}

/// A run that starts without files seen selects a file if and only if it is found in what the run
/// looked at.
pub proof fn runs_select_what_is_found<E: Engine, P: ScalarParser>(
    engine: &E,
    parser: &P,
    run: ReplayRun<E>,
    visited: Seq<VisitedBatch>,
    key: KeyV,
)
    requires
        run.visits(engine, parser, visited),
        run.seen(0) == Set::<KeyV>::empty(),
    ensures
        run.selects(visited, key) <==> found(visited, key),
{
    if run.selects(visited, key) {
        let i = choose|i: int|
            0 <= i < visited.len() && (#[trigger] visited[i]).selects(run.seen(i), key);
        lemma_seen_at(engine, parser, run, visited, key, i);
        lemma_selects_own_key(visited[i], run.seen(i), key);
        assert(visited[i].selects(Set::empty(), key));
    }
    if found(visited, key) {
        let i = choose|i: int|
            0 <= i < visited.len() && (#[trigger] visited[i]).selects(Set::empty(), key)
                && !mentioned(visited, key, i);
        lemma_seen_at(engine, parser, run, visited, key, i);
        lemma_selects_own_key(visited[i], run.seen(i), key);
        assert(visited[i].selects(run.seen(i), key));
    }
}

/// A file is found in newer and older batches if it is found in the newer, or if they do not
/// mention it and it is found in the older.
proof fn lemma_found_splits(visited: Seq<VisitedBatch>, newer: int, key: KeyV)
    requires
        0 <= newer <= visited.len(),
    ensures
        found(visited, key) <==> found(visited.take(newer), key) || (!mentioned(
            visited,
            key,
            newer,
        ) && found(visited.skip(newer), key)),
        mentioned(visited, key, newer) == mentioned(visited.take(newer), key, newer),
{
    let first = visited.take(newer);
    let rest = visited.skip(newer);
    assert forall|n: int| 0 <= n <= newer implies #[trigger] mentioned(first, key, n) == mentioned(
        visited,
        key,
        n,
    ) by {
        if mentioned(first, key, n) {
            let i = choose|i: int|
                0 <= i < n && i < first.len() && (#[trigger] first[i]).after(
                    Set::empty(),
                ).contains(key);
            assert(visited[i] == first[i]);
        }
        if mentioned(visited, key, n) {
            let i = choose|i: int|
                0 <= i < n && i < visited.len() && (#[trigger] visited[i]).after(
                    Set::empty(),
                ).contains(key);
            assert(visited[i] == first[i]);
        }
    }
    assert forall|n: int| 0 <= n <= rest.len() implies mentioned(visited, key, newer + n) == (
    mentioned(visited, key, newer) || #[trigger] mentioned(rest, key, n)) by {
        if mentioned(visited, key, newer + n) {
            let i = choose|i: int|
                0 <= i < newer + n && i < visited.len() && (#[trigger] visited[i]).after(
                    Set::empty(),
                ).contains(key);
            if i >= newer {
                assert(rest[i - newer] == visited[i]);
            }
        }
        if mentioned(rest, key, n) {
            let i = choose|i: int|
                0 <= i < n && i < rest.len() && (#[trigger] rest[i]).after(
                    Set::empty(),
                ).contains(key);
            assert(visited[newer + i] == rest[i]);
        }
        if mentioned(visited, key, newer) {
            let i = choose|i: int|
                0 <= i < newer && i < visited.len() && (#[trigger] visited[i]).after(
                    Set::empty(),
                ).contains(key);
            assert(visited[i].after(Set::empty()).contains(key));
        }
    }
    if found(visited, key) {
        let i = choose|i: int|
            0 <= i < visited.len() && (#[trigger] visited[i]).selects(Set::empty(), key)
                && !mentioned(visited, key, i);
        if i < newer {
            assert(first[i] == visited[i]);
            assert(!mentioned(first, key, i));
        } else {
            assert(rest[i - newer] == visited[i]);
            assert(mentioned(visited, key, newer + (i - newer)) == (mentioned(visited, key, newer)
                || mentioned(rest, key, i - newer)));
        }
    }
    if found(first, key) {
        let i = choose|i: int|
            0 <= i < first.len() && (#[trigger] first[i]).selects(Set::empty(), key) && !mentioned(
                first,
                key,
                i,
            );
        assert(visited[i] == first[i]);
        assert(mentioned(first, key, i) == mentioned(visited, key, i));
    }
    if !mentioned(visited, key, newer) && found(rest, key) {
        let i = choose|i: int|
            0 <= i < rest.len() && (#[trigger] rest[i]).selects(Set::empty(), key) && !mentioned(
                rest,
                key,
                i,
            );
        assert(visited[newer + i] == rest[i]);
        assert(mentioned(visited, key, newer + i) == (mentioned(visited, key, newer) || mentioned(
            rest,
            key,
            i,
        )));
    }
    assert(mentioned(first, key, newer) == mentioned(visited, key, newer));
}

/// Whether one of the batches offers the file `key`.
pub open spec fn any_offers(visited: Seq<VisitedBatch>, key: KeyV) -> bool {
    exists|i: int| 0 <= i < visited.len() && (#[trigger] visited[i]).offers(key)
}

/// Batches of a checkpoint, or of existing data, override nothing: what they offer is found.
proof fn lemma_found_in_checkpoint(visited: Seq<VisitedBatch>, key: KeyV)
    requires
        forall|i: int| 0 <= i < visited.len() ==> !(#[trigger] visited[i]).log_batch,
    ensures
        found(visited, key) <==> any_offers(visited, key),
{
    let none = Set::<KeyV>::empty();
    assert(!mentioned(visited, key, visited.len() as int));
    if any_offers(visited, key) {
        let i = choose|i: int| 0 <= i < visited.len() && (#[trigger] visited[i]).offers(key);
        let v = visited[i];
        let j = choose|j: int|
            0 <= j < v.actions.len() && (#[trigger] v.actions[j]) is Some && v.actions[j]->0.is_add
                && v.actions[j]->0.key == key && v.kept[j] && v.passed[j];
        assert(v.selection(none)[j]);
        assert(v.selects(none, key));
        assert(!mentioned(visited, key, i));
    }
    if found(visited, key) {
        let i = choose|i: int|
            0 <= i < visited.len() && (#[trigger] visited[i]).selects(none, key) && !mentioned(
                visited,
                key,
                i,
            );
        let v = visited[i];
        let j = choose|j: int|
            0 <= j < v.actions.len() && #[trigger] v.selection(none)[j] && v.actions[j]->0.key
                == key;
        assert(v.actions[j] is Some);
        assert(v.offers(key));
    }
}

/// Updating an earlier scan selects the files of a full scan. `full` is a run over the whole log,
/// of which the first `newer` batches are those after the earlier scan, and `earlier` a run over
/// the rest. `update` is a run over the newer batches, which it looks at as `full` does, and then
/// over existing data: what the earlier run selected, treated like a checkpoint. Then `update`
/// selects a file if and only if `full` does. Files that partition values or data skipping drop
/// are taken into account in all three.
pub proof fn update_selects_files_of_full_scan<E: Engine, P: ScalarParser>(
    engine: &E,
    parser: &P,
    full: ReplayRun<E>,
    full_visited: Seq<VisitedBatch>,
    earlier: ReplayRun<E>,
    update: ReplayRun<E>,
    update_visited: Seq<VisitedBatch>,
    newer: int,
    key: KeyV,
)
    requires
        0 <= newer <= full_visited.len(),
        newer <= update_visited.len(),
        full.visits(engine, parser, full_visited),
        earlier.visits(engine, parser, full_visited.skip(newer)),
        update.visits(engine, parser, update_visited),
        full.seen(0) == Set::<KeyV>::empty(),
        earlier.seen(0) == Set::<KeyV>::empty(),
        update.seen(0) == Set::<KeyV>::empty(),
        update_visited.take(newer) == full_visited.take(newer),
        forall|i: int|
            newer <= i < update_visited.len() ==> !(#[trigger] update.batches[i]).is_log_batch,
        forall|k: KeyV| #[trigger]
            any_offers(update_visited.skip(newer), k) <==> earlier.selects(
                full_visited.skip(newer),
                k,
            ),
    ensures
        update.selects(update_visited, key) <==> full.selects(full_visited, key),
{
    let older = full_visited.skip(newer);
    let existing = update_visited.skip(newer);
    runs_select_what_is_found(engine, parser, full, full_visited, key);
    runs_select_what_is_found(engine, parser, earlier, older, key);
    runs_select_what_is_found(engine, parser, update, update_visited, key);
    lemma_found_splits(full_visited, newer, key);
    lemma_found_splits(update_visited, newer, key);
    assert forall|i: int| 0 <= i < existing.len() implies !(#[trigger] existing[i]).log_batch by {
        let v = update_visited[newer + i];
        assert(v.log_batch == update.batches[newer + i].is_log_batch);
    }
    lemma_found_in_checkpoint(existing, key);
    assert(any_offers(existing, key) <==> earlier.selects(older, key));
}

} // verus!
