//! What the two phases of a scan have in common.

use vstd::prelude::*;

use super::parallel_scan_metadata::{
    checkpoint_processed, ParallelState, SequentialScanMetadata,
};
use crate::engine::{Column, Engine};
use crate::error::{DeltaResult, Error};
use crate::log_replay::ActionsBatch;
use crate::metrics::events::{MetricEvent, ScanMetadataCompleted, ScanType};
use crate::scan::dedup_visitor::{checkpoints_record_nothing, visited_columns};
use crate::scan::log_replay::{ReplayPlan, ScanLogReplayProcessor};
use crate::scan::metrics::ScanMetrics;
use crate::scan::partition_values::ScalarParser;
use crate::scan::process_batch::{
    action_columns_read, all_selected, reconciled, visit_start, with_seen_count, BatchRun, Reconciled,
};
use crate::scan::replay::{batch_processed, ScanReplay};
use crate::scan::scan_metadata::ScanMetadata;

verus! {

/// Reconciling a checkpoint batch leaves the files seen as they are.
proof fn lemma_reconciled_checkpoint<E: Engine, P: ScalarParser>(
    plan: ReplayPlan<E>,
    engine: &E,
    parser: &P,
    actions: &E::Batch,
    selection: Seq<bool>,
    run: BatchRun,
    middle: ScanMetrics,
    rows: DeltaResult<Reconciled>,
)
    requires
        reconciled(
            engine,
            parser,
            &*plan.state_info,
            actions,
            false,
            selection,
            run.seen,
            run.seen_after,
            run.before,
            middle,
            rows,
        ),
    ensures
        run.seen_after == run.seen,
{
    let columns = choose|columns: DeltaResult<Vec<Column>>| #[trigger]
        action_columns_read(engine, actions, false, columns)
            && match columns {
            Err(e) => rows == Err::<Reconciled, _>(e) && run.seen_after == run.seen && middle
                == run.before,
            Ok(columns) => if columns@.len() != visited_columns(false).len() {
                run.seen_after == run.seen
            } else {
                run.seen_after == visit_start(run.seen, selection, run.before).after_rows(
                    &*plan.state_info,
                    parser,
                    columns@,
                    false,
                    selection.len(),
                ).seen
            },
        };
    if let Ok(columns) = columns {
        checkpoints_record_nothing(
            visit_start(run.seen, selection, run.before),
            &*plan.state_info,
            parser,
            columns@,
            selection.len(),
        );
    }
}

/// Processing a checkpoint batch leaves the files seen as they are.
pub proof fn checkpoint_batches_leave_files_seen<E: Engine, P: ScalarParser>(
    plan: ReplayPlan<E>,
    engine: &E,
    parser: &P,
    actions: E::Batch,
    run: BatchRun,
    r: DeltaResult<ScanMetadata<E::Batch>>,
)
    requires
        !run.log_batch,
        plan.processed(engine, parser, actions, run, r),
    ensures
        run.seen_after == run.seen,
{
    let (t, middle) = choose|t: DeltaResult<(E::Batch, Vec<bool>)>, middle: ScanMetrics|
        #[trigger] plan.transform_outcome(engine, &actions, run.log_batch, run.before, middle, t)
            && match t {
            Ok((transformed, selection)) => plan.processed_directly(
                engine,
                parser,
                actions,
                transformed,
                selection,
                BatchRun { before: middle, ..run },
                r,
            ),
            Err(Error::ParseError(_, _)) => plan.processed_after_dedup(
                engine,
                parser,
                actions,
                BatchRun { before: middle, ..run },
                r,
            ),
            Err(e) => r == Err::<ScanMetadata<E::Batch>, _>(e) && run.seen_after == run.seen
                && run.after == middle,
        };
    let run = BatchRun { before: middle, ..run };
    match t {
        Ok((transformed, selection)) => {
            let (rows, later) = choose|rows: DeltaResult<Reconciled>, later: ScanMetrics| #[trigger]
                reconciled(
                    engine,
                    parser,
                    &*plan.state_info,
                    &actions,
                    run.log_batch,
                    selection@,
                    run.seen,
                    run.seen_after,
                    run.before,
                    later,
                    rows,
                );
            lemma_reconciled_checkpoint(
                plan,
                engine,
                parser,
                &actions,
                selection@,
                run,
                later,
                rows,
            );
        },
        Err(Error::ParseError(_, _)) => {
            let (n, rows, later) = choose|
                n: usize,
                rows: DeltaResult<Reconciled>,
                later: ScanMetrics,
            | #[trigger]
                reconciled(
                    engine,
                    parser,
                    &*plan.state_info,
                    &actions,
                    run.log_batch,
                    all_selected(n as nat),
                    run.seen,
                    run.seen_after,
                    run.before,
                    later,
                    rows,
                );
            lemma_reconciled_checkpoint(
                plan,
                engine,
                parser,
                &actions,
                all_selected(n as nat),
                run,
                later,
                rows,
            );
        },
        Err(_) => {},
    }
}

/// The two phases agree on checkpoint batches: from equal states, an outcome (data, selection,
/// transforms, counters, or an error) is one that the sequential processor may give if and only if
/// it is one that the parallel processor may give. Neither changes the files seen.
pub proof fn phases_agree_on_checkpoints<E: Engine, P: ScalarParser>(
    engine: &E,
    parser: &P,
    before: ScanLogReplayProcessor<E>,
    after: ScanLogReplayProcessor<E>,
    batch: ActionsBatch<E::Batch>,
    r: DeltaResult<ScanMetadata<E::Batch>>,
)
    requires
        !batch.is_log_batch,
    ensures
        batch_processed(engine, parser, before, after, batch, r) <==> after.same_scan(&before)
            && after.seen_file_keys@ == before.seen_file_keys@ && checkpoint_processed(
            engine,
            parser,
            before,
            batch,
            before.metrics,
            after.metrics,
            r,
        ),
{
    let seen = before.seen_file_keys@;
    if batch_processed(engine, parser, before, after, batch, r) {
        let metrics = choose|metrics: ScanMetrics|
            after.metrics == with_seen_count(metrics, after.seen_file_keys@, r)
                && #[trigger] before.plan.processed(
                engine,
                parser,
                batch.actions,
                BatchRun {
                    log_batch: batch.is_log_batch,
                    seen,
                    seen_after: after.seen_file_keys@,
                    before: before.metrics,
                    after: metrics,
                },
                r,
            );
        checkpoint_batches_leave_files_seen(
            before.plan,
            engine,
            parser,
            batch.actions,
            BatchRun {
                log_batch: batch.is_log_batch,
                seen,
                seen_after: after.seen_file_keys@,
                before: before.metrics,
                after: metrics,
            },
            r,
        );
    }
}

/// Each phase reports itself, and a scan in one piece that it was one; each with its own counters
/// and the operation that it belongs to.
pub proof fn phases_report_themselves<E: Engine>(
    sequential: SequentialScanMetadata<E>,
    parallel: ParallelState<E>,
    replay: ScanReplay<E>,
    workers: ScanMetrics,
    ns: u64,
)
    ensures
        sequential.phase_event(ns) matches MetricEvent::ScanMetadataCompleted(e) && {
            &&& e.scan_type == ScanType::SequentialPhase
            &&& counters_of(e, sequential.processor.metrics)
            &&& e.operation_id == sequential.operation_id
            &&& e.correlation_id == sequential.correlation_id
            &&& e.duration_ns == ns
        },
        parallel.phase_event(workers, ns) matches MetricEvent::ScanMetadataCompleted(e) && {
            &&& e.scan_type == ScanType::ParallelPhase
            &&& counters_of(e, workers)
            &&& e.operation_id == parallel.operation_id
            &&& e.correlation_id == parallel.correlation_id
            &&& e.duration_ns == ns
        },
        replay.end_event(ns) matches MetricEvent::ScanMetadataCompleted(e) && {
            &&& e.scan_type == ScanType::Full
            &&& replay.processor matches Some(p) ==> counters_of(e, p.metrics)
            &&& replay.processor is None ==> e.num_add_files_seen == 0 && e.num_active_add_files
                == 0
            &&& e.operation_id == replay.operation_id
            &&& e.correlation_id == replay.correlation_id
            &&& e.duration_ns == ns
        },
{
}

/// Whether an event has these counters.
pub open spec fn counters_of(e: ScanMetadataCompleted, metrics: ScanMetrics) -> bool {
    &&& e.num_add_files_seen == metrics.num_add_files_seen
    &&& e.num_remove_files_seen == metrics.num_remove_files_seen
    &&& e.num_non_file_actions == metrics.num_non_file_actions
    &&& e.num_active_add_files == metrics.num_active_add_files
    &&& e.active_add_files_bytes == metrics.active_add_files_bytes
    &&& e.num_predicate_filtered == metrics.num_predicate_filtered
    &&& e.peak_hash_set_size == metrics.peak_hash_set_size
    &&& e.dedup_visitor_time_ns == metrics.dedup_visitor_time_ns
    &&& e.predicate_eval_time_ns == metrics.predicate_eval_time_ns
}

} // verus!
