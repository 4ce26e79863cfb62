//! What processing a batch, and reading a file, makes of the outcomes of its steps.

use std::sync::Arc;

use vstd::prelude::*;

use super::add_transform::{
    add_transform_fields, base_exprs, file_constant_exprs, json_stats_expr,
};
use super::builder::{scan_built, Scan, ScanBuilder};
use super::data_skipping::{expression_prepared, expression_step};
use super::execute::{
    bad_file_size, batch_read, data_opened, file_opened, no_data, DataReader, FileRead, ScanFile,
};
use super::log_replay::{
    partition_for_transform, processor_made, stats_for_transform, CheckpointReadInfo, ReplayPlan,
    ScanLogReplayProcessor, ScanPartitionValuesOptions, ScanStatsOptions,
};
use super::metrics::ScanMetrics;
use super::partition_values::ScalarParser;
use super::physical_predicate::{resolved_as, PhysicalPredicate};
use super::process_batch::{reconciled, selection_built, BatchRun, Reconciled};
use super::replay::{batch_processed, batch_taken, ReplayStep};
use super::scan_metadata::ScanMetadata;
use super::schemas::{
    add_fields, commit_read_fields, restored_add_fields, scan_row_fields_with,
};
use super::serialization::{serialized, SerializableScanState, StateCodec};
use super::state_info::StateInfo;
use super::table_scan::{existing_replay, UpdateStream};
use crate::engine::Engine;
use crate::error::{DeltaResult, Error};
use crate::expressions::column::Path;
use crate::expressions::expression::{ExprV, ExpressionRef};
use crate::expressions::opaque::pred_opaque;
use crate::expressions::transforms::{expr_refs, exprs_refs};
use crate::log_replay::{ActionsBatch, KeyV};
use crate::metrics::events::MetricId;
use crate::parallel::parallel_scan_metadata::checkpoint_processed;
use crate::schema::{SchemaRef, SchemaV};
use crate::table_planning::TablePlanning;
use crate::uri::joined_url;

verus! {

// ---------------------------------------------------------------------------------------------
// Batches
// ---------------------------------------------------------------------------------------------

/// Whether the whole batch could not be transformed, for another reason than text that does not
/// parse.
pub open spec fn transform_failed<E: Engine>(
    plan: ReplayPlan<E>,
    engine: &E,
    actions: E::Batch,
    run: BatchRun,
    e: Error,
) -> bool {
    !(e is ParseError) && exists|after: ScanMetrics| #[trigger]
        plan.transform_outcome(
            engine,
            &actions,
            run.log_batch,
            run.before,
            after,
            Err::<(E::Batch, Vec<bool>), Error>(e),
        )
}

/// Whether telling live files from others failed.
pub open spec fn reconcile_failed<E: Engine, P: ScalarParser>(
    plan: ReplayPlan<E>,
    engine: &E,
    parser: &P,
    actions: E::Batch,
    run: BatchRun,
    e: Error,
) -> bool {
    exists|selection: Seq<bool>, before: ScanMetrics, after: ScanMetrics| #[trigger]
        reconciled(
            engine,
            parser,
            &*plan.state_info,
            &actions,
            run.log_batch,
            selection,
            run.seen,
            run.seen_after,
            before,
            after,
            Err::<Reconciled, Error>(e),
        )
}

/// Whether the live files could not be cut out of the batch, or could not be transformed.
pub open spec fn survivors_failed<E: Engine>(
    plan: ReplayPlan<E>,
    engine: &E,
    actions: E::Batch,
    run: BatchRun,
    e: Error,
) -> bool {
    exists|selection: Vec<bool>, survivors: DeltaResult<E::Batch>| #[trigger]
        call_ensures(E::apply_selection_vector, (engine, actions, selection), survivors)
            && match survivors {
            Err(why) => why == e,
            Ok(survivors) => exists|before: ScanMetrics, after: ScanMetrics| #[trigger]
                plan.transform_outcome(
                    engine,
                    &survivors,
                    run.log_batch,
                    before,
                    after,
                    Err::<(E::Batch, Vec<bool>), Error>(e),
                ),
        }
}

/// Text that does not parse fails a batch only if it belongs to a live file: where a batch fails,
/// transforming it failed for another reason, or telling live files from others failed, or cutting
/// out or transforming the live files alone did, or lengths do not agree.
pub proof fn only_live_files_must_parse<E: Engine, P: ScalarParser>(
    plan: ReplayPlan<E>,
    engine: &E,
    parser: &P,
    actions: E::Batch,
    run: BatchRun,
    r: DeltaResult<ScanMetadata<E::Batch>>,
)
    requires
        plan.processed(engine, parser, actions, run, r),
        r is Err,
    ensures
        ({
            let e = r->Err_0;
            ||| transform_failed(plan, engine, actions, run, e)
            ||| reconcile_failed(plan, engine, parser, actions, run, e)
            ||| survivors_failed(plan, engine, actions, run, e)
            ||| e@ is InternalError
            ||| e@ is InvalidSelectionVector
        }),
{
    let e = r->Err_0;
    let (t, middle) = choose|t: DeltaResult<(E::Batch, Vec<bool>)>, middle: ScanMetrics|
        #[trigger] plan.transform_outcome(engine, &actions, run.log_batch, run.before, middle, t)
            && match t {
            Ok((transformed, selection)) => plan.processed_directly(
                engine,
                parser,
                actions,
                transformed,
                selection,
                BatchRun { before: middle, ..run },
                r,
            ),
            Err(Error::ParseError(_, _)) => plan.processed_after_dedup(
                engine,
                parser,
                actions,
                BatchRun { before: middle, ..run },
                r,
            ),
            Err(e) => r == Err::<ScanMetadata<E::Batch>, _>(e) && run.seen_after == run.seen
                && run.after == middle,
        };
    match t {
        Ok((transformed, selection)) => {
            lemma_direct(
                plan,
                engine,
                parser,
                actions,
                transformed,
                selection,
                BatchRun { before: middle, ..run },
                run,
                r,
            );
        },
        Err(Error::ParseError(_, _)) => {
            lemma_after_dedup(
                plan,
                engine,
                parser,
                actions,
                BatchRun { before: middle, ..run },
                run,
                r,
            );
        },
        Err(why) => {
            assert(why == e);
            assert(transform_failed(plan, engine, actions, run, e));
        },
    }
}

proof fn lemma_direct<E: Engine, P: ScalarParser>(
    plan: ReplayPlan<E>,
    engine: &E,
    parser: &P,
    actions: E::Batch,
    transformed: E::Batch,
    selection: Vec<bool>,
    later: BatchRun,
    run: BatchRun,
    r: DeltaResult<ScanMetadata<E::Batch>>,
)
    requires
        plan.processed_directly(engine, parser, actions, transformed, selection, later, r),
        later == (BatchRun { before: later.before, ..run }),
        r is Err,
    ensures
        ({
            let e = r->Err_0;
            ||| reconcile_failed(plan, engine, parser, actions, run, e)
            ||| e@ is InternalError
            ||| e@ is InvalidSelectionVector
        }),
{
}

proof fn lemma_after_dedup<E: Engine, P: ScalarParser>(
    plan: ReplayPlan<E>,
    engine: &E,
    parser: &P,
    actions: E::Batch,
    later: BatchRun,
    run: BatchRun,
    r: DeltaResult<ScanMetadata<E::Batch>>,
)
    requires
        plan.processed_after_dedup(engine, parser, actions, later, r),
        later == (BatchRun { before: later.before, ..run }),
        r is Err,
    ensures
        ({
            let e = r->Err_0;
            ||| reconcile_failed(plan, engine, parser, actions, run, e)
            ||| survivors_failed(plan, engine, actions, run, e)
            ||| e@ is InternalError
            ||| e@ is InvalidSelectionVector
        }),
{
}

/// The actions of commits are transformed by what was prepared for commits, those of checkpoints by
/// what was prepared for checkpoints.
pub proof fn commits_and_checkpoints_have_their_own_transform<E: Engine>(
    plan: ReplayPlan<E>,
    engine: &E,
    actions: E::Batch,
    is_log_batch: bool,
    before: ScanMetrics,
    after: ScanMetrics,
    r: DeltaResult<(E::Batch, Vec<bool>)>,
)
    requires
        plan.transform_outcome(engine, &actions, is_log_batch, before, after, r),
    ensures
        exists|n: usize, transformed: DeltaResult<E::Batch>|
            call_ensures(E::batch_len, (engine, &actions), n) && if is_log_batch {
                expression_step(
                    engine,
                    &plan.commit_transform,
                    &actions,
                    n,
                    "transform output"@,
                    "actions"@,
                    transformed,
                )
            } else {
                expression_step(
                    engine,
                    &plan.checkpoint_transform,
                    &actions,
                    n,
                    "transform output"@,
                    "actions"@,
                    transformed,
                )
            } && (transformed is Err ==> r is Err && r->Err_0 == transformed->Err_0),
{
}

/// Without a filter every row is looked at, and nothing is counted as filtered.
pub proof fn without_a_filter_every_row_is_looked_at<E: Engine>(
    engine: &E,
    transformed: &E::Batch,
    n: usize,
    before: ScanMetrics,
    after: ScanMetrics,
    r: DeltaResult<Vec<bool>>,
)
    requires
        selection_built(None, engine, transformed, n, before, after, r),
    ensures
        r is Ok,
        r->Ok_0@.len() == n,
        forall|i: int| 0 <= i < n ==> #[trigger] r->Ok_0@[i],
        after.num_predicate_filtered == before.num_predicate_filtered,
{
}

/// Only batches with a selected row are handed on, and errors; no batch ends a scan.
pub proof fn only_batches_with_selected_rows_are_handed_on<E: Engine, P: ScalarParser>(
    engine: &E,
    parser: &P,
    before: ScanLogReplayProcessor<E>,
    after: ScanLogReplayProcessor<E>,
    batch: ActionsBatch<E::Batch>,
    step: ReplayStep<E::Batch>,
)
    requires
        batch_taken(engine, parser, before, after, batch, step),
    ensures
        !(step is End),
        step matches ReplayStep::Item(Ok(metadata)) ==> (exists|i: int|
            0 <= i < metadata.scan_files.selection_vector@.len()
                && #[trigger] metadata.scan_files.selection_vector@[i]) && batch_processed(
            engine,
            parser,
            before,
            after,
            batch,
            Ok(metadata),
        ),
        step matches ReplayStep::Item(Err(e)) ==> batch_processed(
            engine,
            parser,
            before,
            after,
            batch,
            Err(e),
        ),
        step is Again ==> exists|metadata: ScanMetadata<E::Batch>| #[trigger]
            batch_processed(engine, parser, before, after, batch, Ok(metadata)) && forall|i: int|
                0 <= i < metadata.scan_files.selection_vector@.len()
                    ==> !(#[trigger] metadata.scan_files.selection_vector@[i]),
{
    if let ReplayStep::Item(Ok(metadata)) = step {
        let selection = metadata.scan_files.selection_vector@;
        assert(selection.contains(true));
        let i = choose|i: int| 0 <= i < selection.len() && selection[i] == true;
        assert(selection[i]);
    }
    if step is Again {
        let r = choose|r: DeltaResult<ScanMetadata<E::Batch>>| #[trigger]
            batch_processed(engine, parser, before, after, batch, r) && match r {
                Ok(metadata) => if metadata.scan_files.selection_vector@.contains(true) {
                    step == ReplayStep::Item::<E::Batch>(Ok(metadata))
                } else {
                    step is Again
                },
                Err(e) => step == ReplayStep::Item::<E::Batch>(Err(e)),
            };
        assert(r is Ok);
        let metadata = r->Ok_0;
        let selection = metadata.scan_files.selection_vector@;
        assert(batch_processed(engine, parser, before, after, batch, Ok(metadata)));
        assert forall|i: int| 0 <= i < selection.len() implies !(#[trigger] selection[i]) by {
            if selection[i] {
                assert(selection.contains(selection[i]));
            }
        }
    }
}

/// The parallel phase takes no commits, and counts nothing of one that it is given.
pub proof fn parallel_workers_take_no_commits<E: Engine, P: ScalarParser>(
    engine: &E,
    parser: &P,
    processor: ScanLogReplayProcessor<E>,
    batch: ActionsBatch<E::Batch>,
    before: ScanMetrics,
    after: ScanMetrics,
    r: DeltaResult<ScanMetadata<E::Batch>>,
)
    requires
        checkpoint_processed(engine, parser, processor, batch, before, after, r),
        batch.is_log_batch,
    ensures
        r is Err,
        after == before,
{
}

/// A scan whose predicate holds something that only the engine understands cannot be sent to
/// another process.
pub proof fn opaque_predicates_are_not_sent<E: Engine, C: StateCodec>(
    processor: ScanLogReplayProcessor<E>,
    codec: &C,
    r: DeltaResult<SerializableScanState>,
)
    requires
        serialized(processor, codec, r),
    ensures
        processor.plan.state_info.physical_predicate matches PhysicalPredicate::Present(p, _)
            ==> pred_opaque(p@) ==> r is Err,
{
}

// ---------------------------------------------------------------------------------------------
// What transforms read
// ---------------------------------------------------------------------------------------------

/// Whether a column is one that every Add has.
pub open spec fn is_add_column(path: Path) -> bool {
    exists|k: int|
        0 <= k < add_fields(true).len() && path == seq![
            "add"@,
            (#[trigger] add_fields(true)[k]).name,
        ]
}

proof fn lemma_add_column(k: int)
    requires
        0 <= k < add_fields(true).len(),
    ensures
        is_add_column(seq!["add"@, add_fields(true)[k].name]),
        expr_refs(ExprV::Column(seq!["add"@, add_fields(true)[k].name])) == set![
            seq!["add"@, add_fields(true)[k].name],
        ],
{
}

proof fn lemma_constants_read()
    ensures
        forall|path: Path| #[trigger]
            expr_refs(ExprV::struct_from(file_constant_exprs())).contains(path) ==> is_add_column(
                path,
            ),
{
    let exprs = file_constant_exprs();
    let fields = add_fields(true);
    assert(fields[1].name == "partitionValues"@);
    assert(fields[6].name == "tags"@);
    assert(fields[8].name == "baseRowId"@);
    assert(fields[9].name == "defaultRowCommitVersion"@);
    assert(fields[10].name == "clusteringProvider"@);
    lemma_add_column(1);
    lemma_add_column(6);
    lemma_add_column(8);
    lemma_add_column(9);
    lemma_add_column(10);
    assert forall|path: Path| #[trigger]
        expr_refs(ExprV::struct_from(exprs)).contains(path) implies is_add_column(path) by {
        assert(exprs_refs(exprs).contains(path));
        let i = choose|i: int| 0 <= i < exprs.len() && expr_refs(#[trigger] exprs[i]).contains(path);
        assert(expr_refs(exprs[i]).contains(path));
    }
}

/// Where the source has nothing parsed, the scan row transform reads only columns that every Add
/// has.
pub proof fn transforms_read_only_adds(
    stats: Option<SchemaV>,
    skip_stats: bool,
    synthesize_json: bool,
    has_partition_schema: bool,
    path: Path,
)
    requires
        expr_refs(
            ExprV::struct_from(
                add_transform_fields(
                    stats,
                    false,
                    skip_stats,
                    synthesize_json,
                    has_partition_schema,
                    false,
                ),
            ),
        ).contains(path),
    ensures
        is_add_column(path),
{
    let exprs = add_transform_fields(
        stats,
        false,
        skip_stats,
        synthesize_json,
        has_partition_schema,
        false,
    );
    let stats_expr = json_stats_expr(false, skip_stats, synthesize_json);
    let fields = add_fields(true);
    assert(exprs_refs(exprs).contains(path));
    let i = choose|i: int| 0 <= i < exprs.len() && expr_refs(#[trigger] exprs[i]).contains(path);
    assert(fields[0].name == "path"@);
    assert(fields[1].name == "partitionValues"@);
    assert(fields[2].name == "size"@);
    assert(fields[3].name == "modificationTime"@);
    assert(fields[5].name == "stats"@);
    assert(fields[7].name == "deletionVector"@);
    lemma_add_column(0);
    lemma_add_column(1);
    lemma_add_column(2);
    lemma_add_column(3);
    lemma_add_column(5);
    lemma_add_column(7);
    lemma_constants_read();
    reveal_with_fuel(expr_refs, 2);
    if i < 6 {
        assert(exprs[i] == base_exprs(stats_expr)[i]);
    }
}

/// The transform for commits reads nothing that commits are not read with, and gives the rows that
/// the scan was planned to give.
pub proof fn commit_transforms_read_commits<E: Engine>(
    engine: &E,
    state_info: Arc<StateInfo>,
    checkpoint_info: CheckpointReadInfo,
    seen: Set<KeyV>,
    options: ScanStatsOptions,
    partition_options: ScanPartitionValuesOptions,
    r: DeltaResult<ScanLogReplayProcessor<E>>,
)
    requires
        processor_made(
            engine,
            state_info,
            checkpoint_info,
            seen,
            options,
            partition_options,
            r,
        ),
        r is Ok,
    ensures
        exists|expr: ExprV|
            #[trigger] expression_prepared(
                engine,
                commit_read_fields(),
                expr,
                scan_row_fields_with(
                    stats_for_transform(*state_info, options),
                    partition_for_transform(*state_info, options, partition_options),
                ),
                Ok(r->Ok_0.plan.commit_transform),
            ) && forall|path: Path| #[trigger]
                expr_refs(expr).contains(path) ==> is_add_column(path),
        r->Ok_0.seen_file_keys@ == seen,
        r->Ok_0.plan.state_info == state_info,
        options.skip_stats ==> r->Ok_0.plan.data_skipping_filter is None,
{
    assert forall|stats: Option<SchemaV>, has_partition_schema: bool, path: Path| #[trigger]
        expr_refs(
            ExprV::struct_from(
                add_transform_fields(
                    stats,
                    false,
                    options.skip_stats,
                    options.synthesize_json,
                    has_partition_schema,
                    false,
                ),
            ),
        ).contains(path) implies is_add_column(path) by {
        transforms_read_only_adds(
            stats,
            options.skip_stats,
            options.synthesize_json,
            has_partition_schema,
            path,
        );
    }
}

/// Whether a column is one that restored Adds have.
pub open spec fn is_restored_column(path: Path) -> bool {
    exists|k: int|
        0 <= k < restored_fields().len() && path == seq![
            "add"@,
            (#[trigger] restored_fields()[k]).name,
        ]
}

/// The fields of restored Adds.
pub open spec fn restored_fields() -> SchemaV {
    restored_add_fields()[0].data_type->Struct_0
}

proof fn lemma_restored_column(k: int)
    requires
        0 <= k < restored_fields().len(),
    ensures
        is_restored_column(seq!["add"@, restored_fields()[k].name]),
        expr_refs(ExprV::Column(seq!["add"@, restored_fields()[k].name])) == set![
            seq!["add"@, restored_fields()[k].name],
        ],
{
}

proof fn lemma_restored_constants()
    ensures
        forall|path: Path| #[trigger]
            expr_refs(ExprV::struct_from(file_constant_exprs())).contains(path)
                ==> is_restored_column(path),
{
    let exprs = file_constant_exprs();
    let fields = restored_fields();
    assert(fields[1].name == "partitionValues"@);
    assert(fields[5].name == "tags"@);
    assert(fields[7].name == "baseRowId"@);
    assert(fields[8].name == "defaultRowCommitVersion"@);
    assert(fields[9].name == "clusteringProvider"@);
    lemma_restored_column(1);
    lemma_restored_column(5);
    lemma_restored_column(7);
    lemma_restored_column(8);
    lemma_restored_column(9);
    assert forall|path: Path| #[trigger]
        expr_refs(ExprV::struct_from(exprs)).contains(path) implies is_restored_column(path) by {
        assert(exprs_refs(exprs).contains(path));
        let i = choose|i: int| 0 <= i < exprs.len() && expr_refs(#[trigger] exprs[i]).contains(path);
        assert(expr_refs(exprs[i]).contains(path));
    }
}

proof fn lemma_restored_reads(
    stats: Option<SchemaV>,
    skip_stats: bool,
    synthesize_json: bool,
    has_partition_schema: bool,
    path: Path,
)
    requires
        expr_refs(
            ExprV::struct_from(
                add_transform_fields(
                    stats,
                    false,
                    skip_stats,
                    synthesize_json,
                    has_partition_schema,
                    false,
                ),
            ),
        ).contains(path),
    ensures
        is_restored_column(path),
{
    let exprs = add_transform_fields(
        stats,
        false,
        skip_stats,
        synthesize_json,
        has_partition_schema,
        false,
    );
    let stats_expr = json_stats_expr(false, skip_stats, synthesize_json);
    let fields = restored_fields();
    assert(exprs_refs(exprs).contains(path));
    let i = choose|i: int| 0 <= i < exprs.len() && expr_refs(#[trigger] exprs[i]).contains(path);
    assert(fields[0].name == "path"@);
    assert(fields[1].name == "partitionValues"@);
    assert(fields[2].name == "size"@);
    assert(fields[3].name == "modificationTime"@);
    assert(fields[4].name == "stats"@);
    assert(fields[6].name == "deletionVector"@);
    lemma_restored_column(0);
    lemma_restored_column(1);
    lemma_restored_column(2);
    lemma_restored_column(3);
    lemma_restored_column(4);
    lemma_restored_column(6);
    lemma_restored_constants();
    reveal_with_fuel(expr_refs, 2);
    if i < 6 {
        assert(exprs[i] == base_exprs(stats_expr)[i]);
    }
}

/// Existing files are transformed from what restored Adds have, and nothing else.
pub proof fn existing_files_are_read_as_restored<E: Engine, T, A>(
    scan: &Scan<T>,
    engine: &E,
    operation_id: MetricId,
    restore: E::ExpressionEvaluator,
    r: DeltaResult<UpdateStream<E, A>>,
)
    requires
        existing_replay(scan, engine, operation_id, restore, r),
    ensures
        r is Ok ==> (r->Ok_0.replay.processor matches Some(p) ==> exists|
            expr: ExprV,
            output: SchemaV,
        |
            #[trigger] expression_prepared(
                engine,
                restored_add_fields(),
                expr,
                output,
                Ok(p.plan.checkpoint_transform),
            ) && forall|path: Path| #[trigger]
                expr_refs(expr).contains(path) ==> is_restored_column(path)),
{
    assert forall|
        stats: Option<SchemaV>,
        skip_stats: bool,
        synthesize_json: bool,
        has_partition_schema: bool,
        path: Path,
    | #[trigger]
        expr_refs(
            ExprV::struct_from(
                add_transform_fields(
                    stats,
                    false,
                    skip_stats,
                    synthesize_json,
                    has_partition_schema,
                    false,
                ),
            ),
        ).contains(path) implies is_restored_column(path) by {
        lemma_restored_reads(stats, skip_stats, synthesize_json, has_partition_schema, path);
    }
}

// ---------------------------------------------------------------------------------------------
// Building a scan
// ---------------------------------------------------------------------------------------------

/// A table without columns cannot be scanned. A scan has what was asked for: the snapshot, the
/// schema to read or else that of the table, the options, and the predicate, resolved against the
/// whole schema of the table.
pub proof fn scans_are_built_as_asked<P: TablePlanning, T>(
    planner: &P,
    builder: ScanBuilder<T>,
    r: DeltaResult<Scan<T>>,
)
    requires
        scan_built(planner, builder, r),
    ensures
        builder.snapshot.table_configuration.logical_schema@.len() == 0 ==> r is Err,
        r is Ok ==> {
            let scan = r->Ok_0;
            let config = builder.snapshot.table_configuration;
            &&& scan.snapshot == builder.snapshot
            &&& scan.stats == builder.stats
            &&& scan.partition_values == builder.partition_values
            &&& scan.correlation_id == builder.correlation_id
            &&& scan.cancellation_token == builder.cancellation_token
            &&& builder.logical_read_schema matches Some(schema) ==> scan.state_info.logical_schema
                == schema
            &&& builder.logical_read_schema is None ==> scan.state_info.logical_schema
                == config.logical_schema
            &&& scan.state_info.skip_row_transforms == builder.without_row_transforms
            &&& scan.state_info.column_mapping_mode == config.column_mapping_mode
            &&& scan.state_info.is_catalog_managed == config.is_catalog_managed
            &&& builder.predicate is None ==> scan.state_info.physical_predicate is Absent
            &&& builder.predicate matches Some(p) ==> resolved_as(
                p@,
                config.logical_schema@,
                config.column_mapping_mode,
                Ok(scan.state_info.physical_predicate),
            )
        },
{
}

// ---------------------------------------------------------------------------------------------
// Files
// ---------------------------------------------------------------------------------------------

/// A file is opened where its path leads from the root of the table, with the size that the log
/// records; it is read with its own transform and the rows of its own deletion vector, and one that
/// is known to hold rows must give data.
pub proof fn files_are_opened_as_recorded<E: Engine, D: DataReader<E>>(
    reader: &D,
    table_root: &String,
    physical_schema: &SchemaRef,
    file: ScanFile,
    r: DeltaResult<FileRead<D::Batches>>,
)
    requires
        file_opened::<E, D>(reader, table_root, physical_schema, file, r),
    ensures
        joined_url(table_root@, file.path@) is Err ==> r is Err,
        file.size < 0 ==> r is Err,
        r is Ok ==> {
            let read = r->Ok_0;
            &&& read.transform == file.transform
            &&& call_ensures(
                D::deletion_selection,
                (reader, table_root, &file),
                Ok::<_, Error>(read.selection),
            )
            &&& exists|url: String| #[trigger]
                call_ensures(
                    D::open_file,
                    (reader, &url, file.size as u64, physical_schema),
                    Ok::<_, Error>(read.batches),
                ) && joined_url(table_root@, file.path@) == Ok::<_, Seq<char>>(url@)
            &&& exists|has_data: bool| #[trigger]
                call_ensures(D::has_data, (reader, &read.batches), has_data) && (
                file.num_records is Some && file.num_records->0 > 0 ==> has_data)
        },
{
    if r is Ok {
        let location = joined_url(table_root@, file.path@)->Ok_0;
        let selection = choose|selection: DeltaResult<Option<Vec<bool>>>| #[trigger]
            call_ensures(D::deletion_selection, (reader, table_root, &file), selection)
                && match selection {
                Err(e) => r == Err::<FileRead<D::Batches>, _>(e),
                Ok(selection) => if file.size < 0 {
                    r is Err && r->Err_0@ == bad_file_size()
                } else {
                    data_opened(reader, location, physical_schema, file, selection, r)
                },
            };
        assert(data_opened(reader, location, physical_schema, file, selection->Ok_0, r));
        let (url, opened) = choose|url: String, opened: DeltaResult<D::Batches>|
            url@ == location && #[trigger] call_ensures(
                D::open_file,
                (reader, &url, file.size as u64, physical_schema),
                opened,
            ) && match opened {
                Err(e) => r == Err::<FileRead<D::Batches>, _>(e),
                Ok(batches) => exists|has_data: bool| #[trigger]
                    call_ensures(D::has_data, (reader, &batches), has_data) && if file.num_records
                        is Some && file.num_records->0 > 0 && !has_data {
                        r is Err && r->Err_0@ == no_data(file.path@)
                    } else {
                        r is Ok && r->Ok_0 == (FileRead {
                            batches,
                            selection: selection->Ok_0,
                            transform: file.transform,
                        })
                    },
            };
        assert(opened is Ok);
        assert(r->Ok_0.batches == opened->Ok_0);
        assert(r->Ok_0.selection == selection->Ok_0);
        assert(opened == Ok::<D::Batches, Error>(r->Ok_0.batches));
        assert(selection == Ok::<Option<Vec<bool>>, Error>(r->Ok_0.selection));
        assert(joined_url(table_root@, file.path@) == Ok::<_, Seq<char>>(url@));
    }
}

/// A batch of a file without a deletion vector is handed on as the transform made it.
pub proof fn batches_without_deletions_are_kept_whole<E: Engine, D: DataReader<E>>(
    engine: &E,
    reader: &D,
    physical_schema: &SchemaRef,
    logical_schema: &SchemaRef,
    transform: &Option<ExpressionRef>,
    data: E::Batch,
    rest: Option<Seq<bool>>,
    r: DeltaResult<E::Batch>,
)
    requires
        batch_read::<E, D>(
            engine,
            reader,
            physical_schema,
            logical_schema,
            transform,
            None,
            data,
            rest,
            r,
        ),
    ensures
        rest is None,
        call_ensures(
            D::transform_to_logical,
            (reader, data, physical_schema, logical_schema, transform),
            r,
        ),
{
}

/// The rows of a batch of a file with a deletion vector are those of the transformed batch, as far
/// as the mask for its first rows keeps them; what is left of the mask is for the next batch.
pub proof fn batches_are_masked_from_their_first_row<E: Engine, D: DataReader<E>>(
    engine: &E,
    reader: &D,
    physical_schema: &SchemaRef,
    logical_schema: &SchemaRef,
    transform: &Option<ExpressionRef>,
    mask: Seq<bool>,
    data: E::Batch,
    rest: Option<Seq<bool>>,
    r: DeltaResult<E::Batch>,
)
    requires
        batch_read::<E, D>(
            engine,
            reader,
            physical_schema,
            logical_schema,
            transform,
            Some(mask),
            data,
            rest,
            r,
        ),
        r is Ok,
    ensures
        exists|logical: E::Batch, len: usize, head: Vec<bool>| #[trigger]
            call_ensures(
                D::transform_to_logical,
                (reader, data, physical_schema, logical_schema, transform),
                Ok::<_, Error>(logical),
            ) && #[trigger] call_ensures(E::batch_len, (engine, &logical), len)
                && #[trigger] call_ensures(
                E::apply_selection_vector,
                (engine, logical, head),
                r,
            ) && head@.len() <= len && head@.len() <= mask.len() && (head@.len() == len
                || head@.len() == mask.len()) && (forall|i: int|
                0 <= i < head@.len() ==> #[trigger] head@[i] == mask[i]) && match rest {
                Some(rest) => len < mask.len() && rest == mask.skip(len as int),
                None => len >= mask.len(),
            },
{
}

} // verus!
