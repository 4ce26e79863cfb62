//! Log replay for table scans.

use std::sync::Arc;

use vstd::prelude::*;

use super::add_transform::{add_transform_fields, get_add_transform_expr};
use super::data_skipping::{
    expression_prepared, filter_from_plan, skipping_plan, DataSkippingFilter,
};
use super::metrics::ScanMetrics;
use super::physical_predicate::{PhysicalPredicate, PhysicalPredicateV};
use super::schemas::{
    checkpoint_read_fields, checkpoint_read_schema, commit_read_fields, commit_read_schema,
    scan_row_fields_with, scan_row_schema_with_parsed_columns,
};
use super::state_info::StateInfo;
use crate::engine::Engine;
use crate::error::DeltaResult;
use crate::expressions::expression::{ExprV, Expression, ExpressionRef, PredV, Predicate};
use crate::log_replay::{FileKeySet, KeyV};
use crate::schema::{clone_opt_schema, opt_schema_view, SchemaRef, SchemaV};

verus! {

/// Read-time stats toggles consumed by [`ScanLogReplayProcessor`].
#[derive(Debug, Clone, Copy, PartialEq, Eq, Structural)]
pub struct ScanStatsOptions {
    /// Skip reading file statistics entirely. Disables columnar data skipping (no stats-based or
    /// partition-value-based pruning), but row-level partition filtering still applies.
    pub skip_stats: bool,
    /// Synthesize the `stats` JSON output via `ToJson(stats_parsed)` on checkpoints
    /// whose `add.stats` is null but whose `add.stats_parsed` is populated
    /// (writeStatsAsJson=false, writeStatsAsStruct=true). When false, a row's stats
    /// are left null on such checkpoints; engines that consume `stats_parsed` directly
    /// avoid reading JSON stats in checkpoints and the per-batch `ToJson` cost.
    pub synthesize_json: bool,
}

impl Default for ScanStatsOptions {
    fn default() -> (options: Self)
        ensures
            options == (ScanStatsOptions { skip_stats: false, synthesize_json: true }),
    {
        ScanStatsOptions { skip_stats: false, synthesize_json: true }
    }
}

/// Read-time partition value toggles consumed by [`ScanLogReplayProcessor`].
#[derive(Debug, Clone, Copy, PartialEq, Eq, Structural)]
pub struct ScanPartitionValuesOptions {
    /// Emit the typed `partitionValues_parsed` struct column in scan metadata output,
    /// independent of any predicate.
    pub parsed_struct: bool,
}

impl Default for ScanPartitionValuesOptions {
    fn default() -> (options: Self)
        ensures
            options == (ScanPartitionValuesOptions { parsed_struct: false }),
    {
        ScanPartitionValuesOptions { parsed_struct: false }
    }
}

/// What a checkpoint offers and how it is read.
#[derive(Debug)]
pub struct CheckpointReadInfo {
    /// Whether the checkpoint has compatible parsed statistics.
    pub has_stats_parsed: bool,
    /// Whether the checkpoint has parsed partition values.
    pub has_partition_values_parsed: bool,
    /// The schema to read from the checkpoint.
    pub checkpoint_read_schema: SchemaRef,
}

impl Clone for CheckpointReadInfo {
    fn clone(&self) -> (copy: CheckpointReadInfo)
        ensures
            copy == *self,
    {
        CheckpointReadInfo {
            has_stats_parsed: self.has_stats_parsed,
            has_partition_values_parsed: self.has_partition_values_parsed,
            checkpoint_read_schema: self.checkpoint_read_schema.clone(),
        }
    }
}

impl CheckpointReadInfo {
    /// A checkpoint that is read for its plain Adds.
    pub fn without_stats_parsed() -> (info: CheckpointReadInfo)
        ensures
            !info.has_stats_parsed,
            !info.has_partition_values_parsed,
            info.checkpoint_read_schema@ == checkpoint_read_fields(true),
    {
        CheckpointReadInfo {
            has_stats_parsed: false,
            has_partition_values_parsed: false,
            checkpoint_read_schema: checkpoint_read_schema(),
        }
    }
}

/// [`ScanLogReplayProcessor`] performs log replay (processes actions) specifically for doing a
/// table scan.
///
/// During a table scan, the processor reads batches of log actions (in reverse chronological order)
/// and performs the following steps:
///
/// - Transformation and Data Skipping: Applies a built-in transformation (`commit_transform` or
///   `checkpoint_transform`) to parse action metadata, then applies a predicate-based filter (via
///   [`DataSkippingFilter`]). This covers both data column stats (min/max/nullCount) and
///   partition value filtering in a single columnar pass. A secondary row-level partition filter
///   catches remaining files the columnar pass cannot prune (e.g. null partition values where
///   null-safety conservatively keeps them, or all of them when stats are skipped).
/// - Action Deduplication: Leverages a deduplicator to ensure that for each unique file (identified
///   by its path and deletion vector unique ID), only the latest valid Add action is processed.
/// - Parse-error fallback: If transformation and data skipping return [`Error::ParseError`],
///   deduplicates the raw batch first, then retries transformation and data skipping on the
///   surviving actions.
/// - Row StructPatch passthrough: Any row-level transformation expressions are preserved and passed
///   through to the engine, which applies them as part of its scan execution logic.
pub struct ScanLogReplayProcessor<E: Engine> {
    /// How each batch is processed.
    pub plan: ReplayPlan<E>,
    /// A set of (data file path, dv_unique_id) pairs that have been seen thus
    /// far in the log. This is used to filter out files with Remove actions as
    /// well as duplicate entries in the log.
    pub seen_file_keys: FileKeySet,
    /// Read-time stats options.
    pub stats_options: ScanStatsOptions,
    /// Read-time partition value options.
    pub partition_values_options: ScanPartitionValuesOptions,
    /// Information about checkpoint reading for stats optimization
    pub checkpoint_info: CheckpointReadInfo,
    /// Metrics related to the scan
    pub metrics: ScanMetrics,
}

/// How a scan processes each batch of log actions.
pub struct ReplayPlan<E: Engine> {
    pub data_skipping_filter: Option<DataSkippingFilter<E>>,
    /// StructPatch for log batches (commit files) - uses ParseJson for stats and MapToStruct
    /// for partition values
    pub commit_transform: E::ExpressionEvaluator,
    /// StructPatch for checkpoint batches - reads pre-parsed stats_parsed and
    /// partitionValues_parsed directly when available, otherwise parses from raw columns
    pub checkpoint_transform: E::ExpressionEvaluator,
    pub state_info: Arc<StateInfo>,
}

/// The statistics that the scan row transform produces. With `skip_stats` there are none.
pub open spec fn stats_for_transform(state_info: StateInfo, options: ScanStatsOptions) -> Option<
    SchemaV,
> {
    if options.skip_stats {
        None
    } else {
        opt_schema_view(state_info.physical_stats_schema)
    }
}

/// The typed partition values that the scan row transform produces. The partition schema feeds two
/// consumers: data skipping, which `skip_stats` disables, and the engine-facing output column,
/// which is requested on its own. Either keeps the column.
pub open spec fn partition_for_transform(
    state_info: StateInfo,
    options: ScanStatsOptions,
    partition_options: ScanPartitionValuesOptions,
) -> Option<SchemaV> {
    if partition_options.parsed_struct || !options.skip_stats {
        opt_schema_view(state_info.physical_partition_schema)
    } else {
        None
    }
}

/// The predicate for data skipping.
pub open spec fn skipping_predicate(p: PhysicalPredicateV) -> Option<PredV> {
    match p {
        PhysicalPredicateV::Present(pred, _) => Some(pred),
        _ => None,
    }
}

/// Whether the engine, asked to prepare the scan row transform for a source, gave `r`.
pub open spec fn transform_prepared<E: Engine>(
    engine: &E,
    input: SchemaV,
    has_stats_parsed: bool,
    has_partition_values_parsed: bool,
    state_info: StateInfo,
    options: ScanStatsOptions,
    partition_options: ScanPartitionValuesOptions,
    r: DeltaResult<E::ExpressionEvaluator>,
) -> bool {
    let stats = stats_for_transform(state_info, options);
    let partition = partition_for_transform(state_info, options, partition_options);
    expression_prepared(
        engine,
        input,
        ExprV::struct_from(
            add_transform_fields(
                stats,
                has_stats_parsed,
                options.skip_stats,
                options.synthesize_json,
                partition is Some,
                has_partition_values_parsed,
            ),
        ),
        scan_row_fields_with(stats, partition),
        r,
    )
}

/// Whether `filter` is the data skipping filter of a scan: none with `skip_stats`, else what the
/// engine makes of the plan over the scan row transform's output.
pub open spec fn scan_filter<E: Engine>(
    engine: &E,
    state_info: StateInfo,
    options: ScanStatsOptions,
    partition_options: ScanPartitionValuesOptions,
    filter: Option<DataSkippingFilter<E>>,
) -> bool {
    let stats = stats_for_transform(state_info, options);
    let partition = partition_for_transform(state_info, options, partition_options);
    if options.skip_stats {
        filter is None
    } else {
        &&& filter_from_plan(
            engine,
            scan_row_fields_with(stats, partition),
            skipping_plan(
                skipping_predicate(state_info.physical_predicate@),
                stats,
                ExprV::Column(seq!["stats_parsed"@]),
                partition,
                ExprV::Column(seq!["partitionValues_parsed"@]),
                ExprV::from_pred(PredV::is_not_null(ExprV::Column(seq!["path"@]))),
                state_info.physical_stats_columns@,
            ),
            filter,
        )
        &&& filter matches Some(f) ==> f.records_metrics
    }
}

/// Whether `r` is the processor for a scan, for every outcome of preparing its evaluators.
pub open spec fn processor_made<E: Engine>(
    engine: &E,
    state_info: Arc<StateInfo>,
    checkpoint_info: CheckpointReadInfo,
    seen: Set<KeyV>,
    options: ScanStatsOptions,
    partition_options: ScanPartitionValuesOptions,
    r: DeltaResult<ScanLogReplayProcessor<E>>,
) -> bool {
    match r {
        Ok(p) => {
            &&& p.wf()
            &&& p.plan.state_info == state_info
            &&& p.seen_file_keys@ == seen
            &&& p.stats_options == options
            &&& p.partition_values_options == partition_options
            &&& p.checkpoint_info == checkpoint_info
            &&& p.metrics == ScanMetrics::zero()
            &&& scan_filter(
                engine,
                *state_info,
                options,
                partition_options,
                p.plan.data_skipping_filter,
            )
            &&& transform_prepared(
                engine,
                commit_read_fields(),
                false,
                false,
                *state_info,
                options,
                partition_options,
                Ok(p.plan.commit_transform),
            )
            &&& transform_prepared(
                engine,
                checkpoint_info.checkpoint_read_schema@,
                checkpoint_info.has_stats_parsed,
                checkpoint_info.has_partition_values_parsed,
                *state_info,
                options,
                partition_options,
                Ok(p.plan.checkpoint_transform),
            )
        },
        Err(e) => {
            ||| transform_prepared(
                engine,
                commit_read_fields(),
                false,
                false,
                *state_info,
                options,
                partition_options,
                Err(e),
            )
            ||| transform_prepared(
                engine,
                checkpoint_info.checkpoint_read_schema@,
                checkpoint_info.has_stats_parsed,
                checkpoint_info.has_partition_values_parsed,
                *state_info,
                options,
                partition_options,
                Err(e),
            )
        },
    }
}

impl<E: Engine> ScanLogReplayProcessor<E> {
    /// The set of seen files is well-formed.
    pub open spec fn wf(&self) -> bool {
        self.seen_file_keys.wf()
    }

    /// Create a new [`ScanLogReplayProcessor`] instance
    pub fn new(
        engine: &E,
        state_info: Arc<StateInfo>,
        checkpoint_info: CheckpointReadInfo,
        stats_options: ScanStatsOptions,
        partition_values_options: ScanPartitionValuesOptions,
    ) -> (r: DeltaResult<Self>)
        ensures
            processor_made(
                engine,
                state_info,
                checkpoint_info,
                Set::empty(),
                stats_options,
                partition_values_options,
                r,
            ),
    {
        Self::new_with_seen_files(
            engine,
            state_info,
            checkpoint_info,
            FileKeySet::new(),
            stats_options,
            partition_values_options,
        )
    }

    /// Create new [`ScanLogReplayProcessor`] with pre-populated seen_file_keys.
    ///
    /// This is useful when reconstructing a processor from serialized state, where the
    /// seen_file_keys have already been computed during a previous phase of log replay.
    ///
    /// # Parameters
    /// - `engine`: Engine for creating evaluators and filters
    /// - `state_info`: StateInfo containing schemas, transforms, and predicates
    /// - `checkpoint_info`: Information about checkpoint reading for stats optimization
    /// - `seen_file_keys`: Pre-computed set of file action keys that have been seen
    /// - `stats_options`: Read-time stats options (see [`ScanStatsOptions`])
    /// - `partition_values_options`: Read-time partition value options (see
    ///   [`ScanPartitionValuesOptions`])
    pub fn new_with_seen_files(
        engine: &E,
        state_info: Arc<StateInfo>,
        checkpoint_info: CheckpointReadInfo,
        seen_file_keys: FileKeySet,
        stats_options: ScanStatsOptions,
        partition_values_options: ScanPartitionValuesOptions,
    ) -> (r: DeltaResult<Self>)
        requires
            seen_file_keys.wf(),
        ensures
            processor_made(
                engine,
                state_info,
                checkpoint_info,
                seen_file_keys@,
                stats_options,
                partition_values_options,
                r,
            ),
    {
        let skip_stats = stats_options.skip_stats;
        let synthesize_json = stats_options.synthesize_json;
        // Extract the physical predicate for data skipping and partition filtering.
        let physical_predicate = match &state_info.physical_predicate {
            PhysicalPredicate::Present(predicate, _) => Some(predicate.clone()),
            _ => None,
        };
        // When skip_stats is enabled, disable both data column skipping and partition pruning.
        // Both rely on the same DataSkippingFilter columnar pass, so they are controlled together.
        let stats_schema_for_transform = if skip_stats {
            None
        } else {
            clone_opt_schema(&state_info.physical_stats_schema)
        };
        let partition_schema_for_transform = if partition_values_options.parsed_struct
            || !skip_stats {
            clone_opt_schema(&state_info.physical_partition_schema)
        } else {
            None
        };
        let output_schema = scan_row_schema_with_parsed_columns(
            &stats_schema_for_transform,
            &partition_schema_for_transform,
        );
        // Create data skipping filter that reads stats_parsed and partitionValues_parsed
        // from the transformed batch. This avoids double JSON parsing -- the transform parses
        // JSON once, then data skipping reads the already-parsed columns from the output.
        //
        // When partition columns are referenced by the predicate, the filter receives a
        // partition schema + expression to extract typed partition values. Since the transform
        // already produces `partitionValues_parsed`, the filter reads that column directly.
        let data_skipping_filter = if skip_stats {
            None
        } else {
            let stats_expr: ExpressionRef = Arc::new(Expression::top("stats_parsed"));
            let partition_expr: ExpressionRef = Arc::new(
                Expression::top("partitionValues_parsed"),
            );
            // The transform flattens `add.*` to top-level columns, so `path` is non-null
            // exactly for Add rows.
            let is_add_expr = Expression::from_pred(Predicate::is_not_null(Expression::top("path")));
            DataSkippingFilter::new(
                engine,
                physical_predicate,
                stats_schema_for_transform.as_ref(),
                stats_expr,
                partition_schema_for_transform.as_ref(),
                partition_expr,
                is_add_expr,
                output_schema.clone(),
                &state_info.physical_stats_columns,
                true,
            )
        };
        // Commit transform: parse JSON for stats, MapToStruct for partition values
        let commit_transform = match engine.new_expression_evaluator(
            commit_read_schema(),
            get_add_transform_expr(
                &stats_schema_for_transform,
                false,
                skip_stats,
                synthesize_json,
                &partition_schema_for_transform,
                false,
            ),
            output_schema.clone(),
        ) {
            Ok(evaluator) => evaluator,
            Err(e) => return Err(e),
        };
        // Checkpoint transform: read pre-parsed columns directly when available
        let checkpoint_transform = match engine.new_expression_evaluator(
            checkpoint_info.checkpoint_read_schema.clone(),
            get_add_transform_expr(
                &stats_schema_for_transform,
                checkpoint_info.has_stats_parsed,
                skip_stats,
                synthesize_json,
                &partition_schema_for_transform,
                checkpoint_info.has_partition_values_parsed,
            ),
            output_schema,
        ) {
            Ok(evaluator) => evaluator,
            Err(e) => return Err(e),
        };
        Ok(
            ScanLogReplayProcessor {
                plan: ReplayPlan {
                    data_skipping_filter,
                    commit_transform,
                    checkpoint_transform,
                    state_info,
                },
                seen_file_keys,
                stats_options,
                partition_values_options,
                checkpoint_info,
                metrics: ScanMetrics::new(),
            },
        )
    }

    /// Get a reference to the checkpoint info.
    pub fn checkpoint_info(&self) -> (info: &CheckpointReadInfo)
        ensures
            *info == self.checkpoint_info,
    {
        &self.checkpoint_info
    }

    /// The counters kept so far.
    pub fn get_metrics(&self) -> (metrics: &ScanMetrics)
        ensures
            *metrics == self.metrics,
    {
        &self.metrics
    }

    /// Whether a catalog manages the table.
    pub fn is_catalog_managed(&self) -> (managed: bool)
        ensures
            managed == self.plan.state_info.is_catalog_managed,
    {
        self.plan.state_info.is_catalog_managed
    }
}

} // verus!
