//! Scans over a table.

use std::sync::Arc;
use std::time::Instant;

use vstd::prelude::*;

use super::add_transform::{get_scan_metadata_transform_expr, restored_add_exprs};
use super::builder::Scan;
use super::data_skipping::{
    as_checkpoint_skipping_predicate, checkpoint_rules, expression_prepared,
};
use super::log_replay::{
    processor_made, CheckpointReadInfo, ScanLogReplayProcessor, ScanPartitionValuesOptions,
    ScanStatsOptions,
};
use super::options::StructStats;
use super::physical_predicate::{prefixed, PhysicalPredicate, PhysicalPredicateV, PrefixColumns};
use super::replay::ScanReplay;
use super::schemas::{
    checkpoint_read_fields, checkpoint_read_schema, checkpoint_read_schema_no_json_stats,
    commit_read_fields, commit_read_schema, restored_add_fields, restored_add_schema,
    scan_row_fields, scan_row_schema,
};
use super::state_info::StateInfo;
use crate::engine::Engine;
use crate::error::{DeltaResult, Error, ErrorV};
use crate::expressions::column::{ColumnName, ColumnSet, Path};
use crate::expressions::expression::{ExprV, PredV, PredicateRef};
use crate::expressions::transforms::{rename_pred, renamed_pred};
use crate::kernel_predicates::rewrite_pred;
use crate::log_replay::ActionsBatch;
use crate::log_segment::{
    after, clone_opt_path, files_after, segment_of, FilesV, LogSegment, LogSegmentFiles, SegmentV,
    Version,
};
use crate::metrics::events::MetricId;
use crate::schema::{
    clone_opt_schema, opt_schema_view, DataType, DataTypeV, PrimitiveType, SchemaRef, SchemaV,
};
use crate::snapshot::SnapshotRef;
use crate::text::{clone_opt_string, decimal, decimal_text};

verus! {

/// The partition columns of a schema.
pub open spec fn partition_column_set(schema: Option<SchemaV>) -> Set<Path> {
    match schema {
        Some(fields) => Set::new(
            |path: Path|
                exists|i: int|
                    0 <= i < fields.len() && path == seq![(#[trigger] fields[i]).name],
        ),
        None => Set::empty(),
    }
}

/// Whether a type is a floating-point type.
pub open spec fn is_floating(t: DataTypeV) -> bool {
    t == DataTypeV::Primitive(PrimitiveType::Float) || t == DataTypeV::Primitive(
        PrimitiveType::Double,
    )
}

/// The floating-point partition columns of a schema.
pub open spec fn floating_column_set(schema: Option<SchemaV>) -> Set<Path> {
    match schema {
        Some(fields) => Set::new(
            |path: Path|
                exists|i: int|
                    0 <= i < fields.len() && is_floating((#[trigger] fields[i]).data_type) && path
                        == seq![fields[i].name],
        ),
        None => Set::empty(),
    }
}

/// The predicate for skipping row groups of checkpoints and sidecars: the scan's predicate in terms
/// of the statistics and partition values of Adds. `None` without a predicate, without a schema for
/// either, or if the predicate cannot be rewritten.
pub open spec fn actions_meta_predicate(info: StateInfo) -> Option<PredV> {
    match info.physical_predicate@ {
        PhysicalPredicateV::Present(predicate, _) => {
            let partition = opt_schema_view(info.physical_partition_schema);
            if info.physical_stats_schema is None && partition is None {
                None
            } else {
                match rewrite_pred(
                    checkpoint_rules(
                        partition_column_set(partition),
                        floating_column_set(partition),
                        info.physical_stats_columns@,
                    ),
                    predicate,
                    false,
                ) {
                    Some(p) => Some(renamed_pred(prefixed(seq!["add"@]), p)),
                    None => None,
                }
            }
        },
        _ => None,
    }
}

fn partition_column_sets(schema: &Option<SchemaRef>) -> (sets: (ColumnSet, ColumnSet))
    ensures
        sets.0@ == partition_column_set(opt_schema_view(*schema)),
        sets.1@ == floating_column_set(opt_schema_view(*schema)),
{
    let mut partition_columns = ColumnSet::new();
    let mut floating_partition_columns = ColumnSet::new();
    if let Some(schema) = schema {
        for i in 0..schema.fields.len()
            invariant
                forall|path: Path| #[trigger]
                    partition_columns@.contains(path) <==> exists|j: int|
                        0 <= j < i && path == seq![(#[trigger] schema@[j]).name],
                forall|path: Path| #[trigger]
                    floating_partition_columns@.contains(path) <==> exists|j: int|
                        0 <= j < i && is_floating((#[trigger] schema@[j]).data_type) && path
                            == seq![schema@[j].name],
        {
            let field = &schema.fields[i];
            assert(field@ == schema@[i as int]);
            let ghost before = (partition_columns@, floating_partition_columns@);
            let floating = match &field.data_type {
                DataType::Primitive(p) => matches!(p, PrimitiveType::Float | PrimitiveType::Double),
                _ => false,
            };
            assert(floating == is_floating(field@.data_type));
            let column = ColumnName::top(field.name.as_str());
            if floating {
                floating_partition_columns.insert(column.clone());
            }
            partition_columns.insert(column);
            assert forall|path: Path| #[trigger] partition_columns@.contains(path) implies exists|
                j: int,
            |
                0 <= j < i + 1 && path == seq![(#[trigger] schema@[j]).name] by {
                if before.0.contains(path) {
                    let j = choose|j: int| 0 <= j < i && path == seq![(#[trigger] schema@[j]).name];
                    assert(path == seq![schema@[j].name]);
                } else {
                    assert(path == seq![schema@[i as int].name]);
                }
            }
            assert forall|path: Path| #[trigger] floating_partition_columns@.contains(
                path,
            ) implies exists|j: int|
                0 <= j < i + 1 && is_floating((#[trigger] schema@[j]).data_type) && path
                    == seq![schema@[j].name] by {
                if before.1.contains(path) {
                    let j = choose|j: int|
                        0 <= j < i && is_floating((#[trigger] schema@[j]).data_type) && path
                            == seq![schema@[j].name];
                    assert(path == seq![schema@[j].name]);
                } else {
                    assert(path == seq![schema@[i as int].name]);
                }
            }
        }
        assert(partition_columns@ =~= partition_column_set(Some(schema@)));
        assert(floating_partition_columns@ =~= floating_column_set(Some(schema@)));
    }
    (partition_columns, floating_partition_columns)
}

/// What a scan reads of checkpoints.
pub struct CheckpointReadOptions {
    /// The schema to read.
    pub checkpoint_schema: SchemaRef,
    /// The predicate for skipping row groups.
    pub meta_predicate: Option<PredicateRef>,
    /// The statistics that the scan can use.
    pub physical_stats_schema: Option<SchemaRef>,
}

/// Whether `options` are what the scan reads of checkpoints. JSON statistics are read unless
/// statistics are skipped, or parsed ones can take their place; the predicate and the statistics
/// schema are left out with skipped statistics.
pub open spec fn read_options_of<T>(scan: &Scan<T>, options: CheckpointReadOptions) -> bool {
    let skip_stats = scan.stats.skips_stats();
    let replace_json = !scan.stats.synthesize_json && scan.state_info.physical_stats_schema is Some;
    &&& options.checkpoint_schema@ == checkpoint_read_fields(!(skip_stats || replace_json))
    &&& match options.meta_predicate {
        Some(p) => !skip_stats && actions_meta_predicate(*scan.state_info) == Some(p@),
        None => skip_stats || actions_meta_predicate(*scan.state_info) is None,
    }
    &&& options.physical_stats_schema == (if skip_stats {
        None
    } else {
        scan.state_info.physical_stats_schema
    })
}

impl<T> Scan<T> {
    /// Whether stats reading is entirely skipped, disabling internal data skipping.
    pub fn skip_stats(&self) -> (skip: bool)
        ensures
            skip == self.stats.skips_stats(),
    {
        !self.stats.synthesize_json && matches!(self.stats.struct_stats, StructStats::Omitted)
    }

    /// Builds a predicate for row group skipping in checkpoint and sidecar parquet files.
    ///
    /// The scan predicate is rewritten into a data-skipping form scoped under the `add` action:
    /// data-column references become `add.stats_parsed.{minValues,maxValues,nullCount}.<col>` and
    /// partition references become `add.partitionValues_parsed.<col>`, so the parquet reader's row
    /// group filter can use footer statistics to skip row groups that cannot contain matching
    /// files. See [`as_checkpoint_skipping_predicate`] for the rewrite and its data-stat IS NULL
    /// guards.
    ///
    /// Returns `None` if the scan has no predicate, if neither a data-column stats schema nor a
    /// partition schema is available, or if the predicate is a bare unsupported expression (e.g.
    /// column-column comparison). Junctions represent unsupported arms with a NULL literal,
    /// preserving three-valued logic while allowing independently decisive supported arms to
    /// prune.
    pub fn build_actions_meta_predicate(&self) -> (predicate: Option<PredicateRef>)
        ensures
            match predicate {
                Some(p) => actions_meta_predicate(*self.state_info) == Some(p@),
                None => actions_meta_predicate(*self.state_info) is None,
            },
    {
        let predicate = match &self.state_info.physical_predicate {
            PhysicalPredicate::Present(predicate, _) => predicate,
            _ => return None,
        };
        // Skipping needs either data-column stats or partition values to rewrite against; a
        // partition-only predicate has no `stats_parsed` schema, a data-only predicate on an
        // unpartitioned table has no partition schema.
        if self.state_info.physical_stats_schema.is_none()
            && self.state_info.physical_partition_schema.is_none() {
            return None;
        }
        // `partitionValues_parsed` is keyed by PHYSICAL partition name, and (under column mapping)
        // the predicate also references physical columns, so partition detection reads the physical
        // partition schema rather than the logical names in table metadata.
        let (partition_columns, floating_partition_columns) = partition_column_sets(
            &self.state_info.physical_partition_schema,
        );
        let skipping_pred = match as_checkpoint_skipping_predicate(
            predicate,
            &partition_columns,
            &floating_partition_columns,
            &self.state_info.physical_stats_columns,
        ) {
            Some(p) => p,
            None => return None,
        };
        let prefixer = PrefixColumns { prefix: ColumnName::top("add") };
        Some(Arc::new(rename_pred(&prefixer, &skipping_pred)))
    }

    /// What the scan reads of checkpoints.
    pub fn checkpoint_read_options(&self) -> (options: CheckpointReadOptions)
        ensures
            read_options_of(self, options),
    {
        let skip_stats = self.skip_stats();
        // `physical_stats_schema` is the typed shape this scan can consume, not evidence that the
        // checkpoint contains `stats_parsed`. Checkpoint discovery validates availability and
        // restores `add.stats` before opening the reader when the structured field is incompatible.
        let can_replace_json_with_structured_stats = !self.stats.synthesize_json
            && self.state_info.physical_stats_schema.is_some();
        let checkpoint_schema = if skip_stats || can_replace_json_with_structured_stats {
            checkpoint_read_schema_no_json_stats()
        } else {
            checkpoint_read_schema()
        };
        let meta_predicate = if skip_stats {
            None
        } else {
            self.build_actions_meta_predicate()
        };
        // Discovery uses this schema to augment the checkpoint projection, so `none()` must
        // suppress it as well as the initial JSON stats field.
        let physical_stats_schema = if skip_stats {
            None
        } else {
            clone_opt_schema(&self.state_info.physical_stats_schema)
        };
        CheckpointReadOptions { checkpoint_schema, meta_predicate, physical_stats_schema }
    }

    /// The stats options of the scan's log replay.
    pub open spec fn spec_stats_options(&self) -> ScanStatsOptions {
        ScanStatsOptions {
            skip_stats: self.stats.skips_stats(),
            synthesize_json: self.stats.synthesize_json,
        }
    }

    /// The partition value options of the scan's log replay.
    pub open spec fn spec_partition_values_options(&self) -> ScanPartitionValuesOptions {
        ScanPartitionValuesOptions { parsed_struct: self.partition_values.parsed_struct }
    }

    /// Build the read-options bundle passed to [`ScanLogReplayProcessor`].
    pub fn stats_options(&self) -> (options: ScanStatsOptions)
        ensures
            options == self.spec_stats_options(),
    {
        ScanStatsOptions {
            skip_stats: self.skip_stats(),
            synthesize_json: self.stats.synthesize_json,
        }
    }

    /// Build the partition-value read options passed to [`ScanLogReplayProcessor`].
    pub fn partition_values_options(&self) -> (options: ScanPartitionValuesOptions)
        ensures
            options == self.spec_partition_values_options(),
    {
        ScanPartitionValuesOptions { parsed_struct: self.partition_values.parsed_struct }
    }

    /// The table's root URL. Any relative paths in scan files must be resolved against this root
    /// to get the actual path to the file.
    pub fn table_root(&self) -> (root: &String)
        ensures
            *root == self.snapshot.table_configuration.table_root,
    {
        self.snapshot.table_root()
    }

    /// Get a shared reference to the snapshot of this scan.
    pub fn snapshot(&self) -> (snapshot: &SnapshotRef)
        ensures
            *snapshot == self.snapshot,
    {
        &self.snapshot
    }

    /// Get a shared reference to the logical schema of the scan (i.e. the output schema of the
    /// scan). Note that the logical schema can differ from the physical schema due to e.g.
    /// partition columns which are present in the logical schema but not in the physical schema.
    pub fn logical_schema(&self) -> (schema: &SchemaRef)
        ensures
            *schema == self.state_info.logical_schema,
    {
        &self.state_info.logical_schema
    }

    /// Get a shared reference to the physical schema of the scan. This represents the schema
    /// of the underlying data files which must be read from storage.
    pub fn physical_schema(&self) -> (schema: &SchemaRef)
        ensures
            *schema == self.state_info.physical_schema,
    {
        &self.state_info.physical_schema
    }

    /// Get the predicate of the scan.
    pub fn physical_predicate(&self) -> (predicate: Option<PredicateRef>)
        ensures
            predicate == (match self.state_info.physical_predicate {
                PhysicalPredicate::Present(p, _) => Some(p),
                _ => None,
            }),
    {
        match &self.state_info.physical_predicate {
            PhysicalPredicate::Present(predicate, _) => Some(predicate.clone()),
            _ => None,
        }
    }
}

// ---------------------------------------------------------------------------------------------
// Log replay
// ---------------------------------------------------------------------------------------------

/// Actions of the log, with what is known of the checkpoint that they come from.
pub struct ActionsWithCheckpointInfo<A> {
    pub actions: A,
    pub checkpoint_info: CheckpointReadInfo,
}

/// Reads the log. `T` is the caller's cancellation token.
pub trait LogReader<T> {
    /// A stream of action batches, newest first.
    type Actions;

    /// Opens the actions of a log segment: those of its commits, then those of its checkpoint.
    /// Nothing has been read yet.
    fn read_actions(
        &self,
        log_segment: &LogSegment,
        commit_schema: SchemaRef,
        options: CheckpointReadOptions,
        partition_schema: Option<SchemaRef>,
        cancellation_token: &Option<T>,
    ) -> DeltaResult<ActionsWithCheckpointInfo<Self::Actions>>;
}

/// A scan's log replay and the actions that it replays.
pub struct ScanMetadataStream<E: Engine, A> {
    pub actions: A,
    pub replay: ScanReplay<E>,
}

/// Whether the reader, asked for the actions of a log segment, gave `actions`.
pub open spec fn actions_opened<T, L: LogReader<T>>(
    scan: &Scan<T>,
    reader: &L,
    log_segment: &LogSegment,
    partition_schema: Option<SchemaRef>,
    token: &Option<T>,
    actions: DeltaResult<ActionsWithCheckpointInfo<L::Actions>>,
) -> bool {
    exists|commit_schema: SchemaRef, options: CheckpointReadOptions|
        commit_schema@ == commit_read_fields() && read_options_of(scan, options)
            && #[trigger] call_ensures(
            L::read_actions,
            (reader, log_segment, commit_schema, options, partition_schema, token),
            actions,
        )
}

/// Whether `r` is the log replay of a scan, ready to start: without a processor if the predicate
/// is known to be FALSE.
pub open spec fn replay_made<E: Engine, T>(
    scan: &Scan<T>,
    engine: &E,
    checkpoint_info: CheckpointReadInfo,
    operation_id: MetricId,
    r: DeltaResult<ScanReplay<E>>,
) -> bool {
    if scan.state_info.physical_predicate is StaticSkipAll {
        r is Ok && r->Ok_0.processor is None && replay_starts(scan, operation_id, r->Ok_0)
    } else {
        exists|processor: DeltaResult<ScanLogReplayProcessor<E>>| #[trigger]
            processor_made(
                engine,
                scan.state_info,
                checkpoint_info,
                Set::empty(),
                scan.spec_stats_options(),
                scan.spec_partition_values_options(),
                processor,
            ) && match processor {
                Err(e) => r == Err::<ScanReplay<E>, _>(e),
                Ok(processor) => r is Ok && r->Ok_0.processor == Some(processor) && replay_starts(
                    scan,
                    operation_id,
                    r->Ok_0,
                ),
            }
    }
}

/// Whether a log replay has not started yet, and reports its end as one of this scan.
pub open spec fn replay_starts<E: Engine, T>(
    scan: &Scan<T>,
    operation_id: MetricId,
    replay: ScanReplay<E>,
) -> bool {
    &&& replay.wf()
    &&& !replay.cancelled
    &&& !replay.completed
    &&& replay.operation_id == operation_id
    &&& replay.is_catalog_managed == scan.snapshot.table_configuration.is_catalog_managed
    &&& replay.correlation_id == scan.correlation_id
}

/// Whether `r` is the log replay over the whole log, for every outcome of opening it.
pub open spec fn full_replay<E: Engine, T, L: LogReader<T>>(
    scan: &Scan<T>,
    engine: &E,
    reader: &L,
    operation_id: MetricId,
    r: DeltaResult<ScanMetadataStream<E, L::Actions>>,
) -> bool {
    exists|opened: DeltaResult<ActionsWithCheckpointInfo<L::Actions>>| #[trigger]
        actions_opened(
            scan,
            reader,
            &scan.snapshot.log_segment,
            scan.state_info.physical_partition_schema,
            &scan.cancellation_token,
            opened,
        ) && match opened {
            Err(e) => r == Err::<ScanMetadataStream<E, L::Actions>, _>(e),
            Ok(opened) => exists|replay: DeltaResult<ScanReplay<E>>| #[trigger]
                replay_made(scan, engine, opened.checkpoint_info, operation_id, replay)
                    && match replay {
                    Err(e) => r == Err::<ScanMetadataStream<E, L::Actions>, _>(e),
                    Ok(replay) => r == Ok::<_, Error>(
                        ScanMetadataStream { actions: opened.actions, replay },
                    ),
                },
        }
}

impl<T> Scan<T> {
    /// Start the log replay of the scan. This handles reconciling Add and Remove actions, and
    /// applying data skipping (if possible). Feed the returned replay with the returned actions,
    /// batch by batch.
    ///
    /// Each item of the replay is a struct of:
    /// - Data in engine format, where each row represents a file to be scanned. The schema for each
    ///   row can be obtained by calling [`scan_row_schema`].
    /// - A selection vector. If a row is at index `i` and this vector is `false` at index `i`, then
    ///   that row should *not* be processed (i.e. it is filtered out). If the vector is `true` at
    ///   index `i` the row *should* be processed. If the selection vector is *shorter* than the
    ///   number of rows returned, missing elements are considered `true`.
    /// - Transformation expressions that need to be applied. For each row at index `i` in the above
    ///   data, if an expression exists at index `i`, the associated expression _must_ be applied to
    ///   the data read from the file specified by the row. If the item at index `i` is `None`, or
    ///   if there are fewer than `i` elements, no expression need be applied and the data read from
    ///   disk is already in the correct logical state.
    ///
    /// Reports its completion when the replay has reached its end.
    pub fn scan_metadata<E: Engine, L: LogReader<T>>(
        &self,
        engine: &E,
        reader: &L,
        operation_id: MetricId,
    ) -> (r: DeltaResult<ScanMetadataStream<E, L::Actions>>)
        ensures
            full_replay(self, engine, reader, operation_id, r),
    {
        let opened = self.replay_for_scan_metadata(reader);
        let ghost answer = opened;
        let opened = match opened {
            Ok(opened) => opened,
            Err(e) => return Err(e),
        };
        let made = self.scan_metadata_inner(engine, opened.checkpoint_info, operation_id);
        let ghost replay_answer = made;
        assert(replay_made(
            self,
            engine,
            answer->Ok_0.checkpoint_info,
            operation_id,
            replay_answer,
        ));
        match made {
            Ok(replay) => Ok(ScanMetadataStream { actions: opened.actions, replay }),
            Err(e) => Err(e),
        }
    }

    /// Opens the log of the snapshot for this scan. Checkpoints already represent reconciled state,
    /// so scans project only Add actions. This derives `add.path IS NOT NULL` and allows readers to
    /// skip non-Add row groups.
    fn replay_for_scan_metadata<L: LogReader<T>>(&self, reader: &L) -> (opened: DeltaResult<
        ActionsWithCheckpointInfo<L::Actions>,
    >)
        ensures
            actions_opened(
                self,
                reader,
                &self.snapshot.log_segment,
                self.state_info.physical_partition_schema,
                &self.cancellation_token,
                opened,
            ),
    {
        let options = self.checkpoint_read_options();
        assert(read_options_of(self, options));
        reader.read_actions(
            &self.snapshot.log_segment,
            commit_read_schema(),
            options,
            clone_opt_schema(&self.state_info.physical_partition_schema),
            &self.cancellation_token,
        )
    }

    /// Prepares the log replay for actions of the given kind of checkpoint.
    fn scan_metadata_inner<E: Engine>(
        &self,
        engine: &E,
        checkpoint_info: CheckpointReadInfo,
        operation_id: MetricId,
    ) -> (r: DeltaResult<ScanReplay<E>>)
        ensures
            replay_made(self, engine, checkpoint_info, operation_id, r),
    {
        let start = Instant::now();
        let is_catalog_managed = self.snapshot.table_configuration.is_catalog_managed;
        let correlation_id = clone_opt_string(&self.correlation_id);
        let processor = match &self.state_info.physical_predicate {
            // The predicate is known to be FALSE, so all files are skipped.
            PhysicalPredicate::StaticSkipAll => None,
            _ => {
                let made = ScanLogReplayProcessor::new(
                    engine,
                    self.state_info.clone(),
                    checkpoint_info,
                    self.stats_options(),
                    self.partition_values_options(),
                );
                assert(processor_made(
                    engine,
                    self.state_info,
                    checkpoint_info,
                    Set::empty(),
                    self.spec_stats_options(),
                    self.spec_partition_values_options(),
                    made,
                ));
                match made {
                    Ok(processor) => Some(processor),
                    Err(e) => return Err(e),
                }
            },
        };
        Ok(
            ScanReplay {
                processor,
                cancelled: false,
                completed: false,
                operation_id,
                is_catalog_managed,
                correlation_id,
                start,
            },
        )
    }
}

// ---------------------------------------------------------------------------------------------
// Building on existing scan metadata
// ---------------------------------------------------------------------------------------------

/// What has to be read to update existing scan metadata.
#[derive(Debug, PartialEq)]
pub enum ExistingDataPlan {
    /// Nothing: the existing data is current.
    ExistingOnly,
    /// The whole log: the existing data is older than the checkpoint.
    FullScan,
    /// The commits after the existing data.
    Since(LogSegment),
}

/// An [`ExistingDataPlan`] as a mathematical value.
pub enum ExistingDataPlanV {
    ExistingOnly,
    FullScan,
    Since(SegmentV),
}

impl View for ExistingDataPlan {
    type V = ExistingDataPlanV;

    open spec fn view(&self) -> ExistingDataPlanV {
        match *self {
            ExistingDataPlan::ExistingOnly => ExistingDataPlanV::ExistingOnly,
            ExistingDataPlan::FullScan => ExistingDataPlanV::FullScan,
            ExistingDataPlan::Since(s) => ExistingDataPlanV::Since(s@),
        }
    }
}

/// What is said of existing data from a later version.
pub open spec fn existing_too_new(existing: Version, current: Version) -> ErrorV {
    ErrorV::Generic(
        "existing_version "@ + decimal(existing as nat) + " is greater than current version "@
            + decimal(current as nat),
    )
}

/// The commits of a segment after a version, as listed files.
pub open spec fn files_since(listed: FilesV, version: Version) -> FilesV {
    FilesV {
        commits: after(listed.commits, version),
        compactions: seq![],
        checkpoint_parts: seq![],
        latest_crc_file: None,
        latest_commit_file: listed.latest_commit_file,
        max_published_version: None,
    }
}

/// What has to be read to update scan metadata of an existing version.
pub open spec fn existing_data_plan(segment: SegmentV, current: Version, existing: Version) -> Result<
    ExistingDataPlanV,
    ErrorV,
> {
    if existing > current {
        Err(existing_too_new(existing, current))
    } else if existing == current {
        Ok(ExistingDataPlanV::ExistingOnly)
    } else if segment.checkpoint_version is Some && segment.checkpoint_version->0 > existing {
        Ok(ExistingDataPlanV::FullScan)
    } else {
        match segment_of(
            files_since(segment.listed, existing),
            segment.log_root,
            Some(segment.end_version),
            None,
        ) {
            Ok(since) => Ok(ExistingDataPlanV::Since(since)),
            Err(e) => Err(e),
        }
    }
}

/// A scan's log replay over new commits and existing data. New actions come first. The existing
/// data is turned into actions by the evaluator.
pub struct UpdateStream<E: Engine, A> {
    /// The new actions; `None` if there are none to read.
    pub actions: Option<A>,
    /// Turns existing scan metadata into actions; `None` if the existing data is not used.
    pub restore: Option<E::ExpressionEvaluator>,
    pub replay: ScanReplay<E>,
}

/// Where the next batch of an update comes from.
#[derive(Debug, Clone, Copy, PartialEq, Eq, Structural)]
pub enum UpdateSource {
    /// The new actions.
    NewActions,
    /// The existing data, to be turned into actions by [`restore_actions`].
    ExistingData,
    /// Nowhere: the log replay is at its end.
    End,
}

impl<E: Engine, A> UpdateStream<E, A> {
    /// Where the next batch comes from, given which sources have come to their end. The newest
    /// action of a file counts, so new actions come first, until they end; then the existing data,
    /// if it is used; then the end.
    pub fn next_source(&self, actions_ended: bool, existing_ended: bool) -> (source: UpdateSource)
        ensures
            source == (if self.actions is Some && !actions_ended {
                UpdateSource::NewActions
            } else if self.restore is Some && !existing_ended {
                UpdateSource::ExistingData
            } else {
                UpdateSource::End
            }),
    {
        if self.actions.is_some() && !actions_ended {
            UpdateSource::NewActions
        } else if self.restore.is_some() && !existing_ended {
            UpdateSource::ExistingData
        } else {
            UpdateSource::End
        }
    }
}

/// Whether the engine, asked to prepare turning scan rows into Adds, gave `r`.
pub open spec fn restore_prepared<E: Engine>(
    engine: &E,
    r: DeltaResult<E::ExpressionEvaluator>,
) -> bool {
    expression_prepared(
        engine,
        scan_row_fields(),
        ExprV::struct_from(seq![ExprV::struct_from(restored_add_exprs())]),
        restored_add_fields(),
        r,
    )
}

/// Whether `r` is the log replay for updating existing scan metadata, for every outcome of the
/// engine's and the reader's calls.
pub open spec fn update_replay<E: Engine, T, L: LogReader<T>>(
    scan: &Scan<T>,
    engine: &E,
    reader: &L,
    operation_id: MetricId,
    existing: Version,
    r: DeltaResult<UpdateStream<E, L::Actions>>,
) -> bool {
    let current = scan.snapshot.table_configuration.version;
    if existing > current {
        r is Err && r->Err_0@ == existing_too_new(existing, current)
    } else {
        exists|restore: DeltaResult<E::ExpressionEvaluator>| #[trigger]
            restore_prepared(engine, restore) && match restore {
                Err(e) => r == Err::<UpdateStream<E, L::Actions>, _>(e),
                Ok(restore) => match existing_data_plan(
                    scan.snapshot.log_segment@,
                    current,
                    existing,
                ) {
                    Err(e) => r is Err && r->Err_0@ == e,
                    Ok(ExistingDataPlanV::ExistingOnly) => existing_replay(
                        scan,
                        engine,
                        operation_id,
                        restore,
                        r,
                    ),
                    Ok(ExistingDataPlanV::FullScan) => exists|
                        full: DeltaResult<ScanMetadataStream<E, L::Actions>>,
                    | #[trigger]
                        full_replay(scan, engine, reader, operation_id, full) && match full {
                            Err(e) => r == Err::<UpdateStream<E, L::Actions>, _>(e),
                            Ok(full) => r == Ok::<_, Error>(
                                UpdateStream {
                                    actions: Some(full.actions),
                                    restore: None,
                                    replay: full.replay,
                                },
                            ),
                        },
                    Ok(ExistingDataPlanV::Since(segment)) => since_replay(
                        scan,
                        engine,
                        reader,
                        operation_id,
                        segment,
                        restore,
                        r,
                    ),
                },
            }
    }
}

/// The log replay over existing data alone. It was reconciled before, so it is treated as if it
/// came from a checkpoint without parsed columns.
pub open spec fn existing_replay<E: Engine, T, A>(
    scan: &Scan<T>,
    engine: &E,
    operation_id: MetricId,
    restore: E::ExpressionEvaluator,
    r: DeltaResult<UpdateStream<E, A>>,
) -> bool {
    exists|info: CheckpointReadInfo, replay: DeltaResult<ScanReplay<E>>|
        !info.has_stats_parsed && !info.has_partition_values_parsed
            && info.checkpoint_read_schema@ == restored_add_fields() && #[trigger] replay_made(
            scan,
            engine,
            info,
            operation_id,
            replay,
        ) && match replay {
            Err(e) => r == Err::<UpdateStream<E, A>, _>(e),
            Ok(replay) => r == Ok::<_, Error>(
                UpdateStream { actions: None::<A>, restore: Some(restore), replay },
            ),
        }
}

/// The log replay over the commits after the existing data, and then that data. The reads of these
/// commits are not handed the cancellation token.
pub open spec fn since_replay<E: Engine, T, L: LogReader<T>>(
    scan: &Scan<T>,
    engine: &E,
    reader: &L,
    operation_id: MetricId,
    segment: SegmentV,
    restore: E::ExpressionEvaluator,
    r: DeltaResult<UpdateStream<E, L::Actions>>,
) -> bool {
    exists|
        log_segment: LogSegment,
        token: Option<T>,
        opened: DeltaResult<ActionsWithCheckpointInfo<L::Actions>>,
    |
        log_segment@ == segment && token is None && #[trigger] actions_opened(
            scan,
            reader,
            &log_segment,
            None,
            &token,
            opened,
        ) && match opened {
            Err(e) => r == Err::<UpdateStream<E, L::Actions>, _>(e),
            Ok(opened) => exists|replay: DeltaResult<ScanReplay<E>>| #[trigger]
                replay_made(scan, engine, opened.checkpoint_info, operation_id, replay)
                    && match replay {
                    Err(e) => r == Err::<UpdateStream<E, L::Actions>, _>(e),
                    Ok(replay) => r == Ok::<_, Error>(
                        UpdateStream {
                            actions: Some(opened.actions),
                            restore: Some(restore),
                            replay,
                        },
                    ),
                },
        }
}

impl<T> Scan<T> {
    /// What has to be read to update scan metadata of an existing version.
    pub fn plan_from_existing(&self, existing_version: Version) -> (plan: DeltaResult<
        ExistingDataPlan,
    >)
        ensures
            match existing_data_plan(
                self.snapshot.log_segment@,
                self.snapshot.table_configuration.version,
                existing_version,
            ) {
                Ok(p) => plan is Ok && plan->Ok_0@ == p,
                Err(e) => plan is Err && plan->Err_0@ == e,
            },
    {
        let version = self.snapshot.version();
        if existing_version > version {
            return Err(
                Error::Generic(
                    "existing_version ".to_string().concat(
                        decimal_text(existing_version).as_str(),
                    ).concat(" is greater than current version ").concat(
                        decimal_text(version).as_str(),
                    ),
                ),
            );
        }
        if existing_version == version {
            return Ok(ExistingDataPlan::ExistingOnly);
        }
        let log_segment = &self.snapshot.log_segment;
        // If the current log segment contains a checkpoint newer than the hint version, the
        // existing data is disregarded, and a full scan performed. The current log segment
        // only has deltas after the checkpoint, so prior versions cannot be updated from it.
        if let Some(checkpoint_version) = log_segment.checkpoint_version {
            if checkpoint_version > existing_version {
                return Ok(ExistingDataPlan::FullScan);
            }
        }
        // create a new log segment containing only the commits added after the version hint.
        let files = LogSegmentFiles {
            ascending_commit_files: files_after(
                &log_segment.listed.ascending_commit_files,
                existing_version,
            ),
            ascending_compaction_files: Vec::new(),
            checkpoint_parts: Vec::new(),
            latest_crc_file: None,
            latest_commit_file: clone_opt_path(&log_segment.listed.latest_commit_file),
            max_published_version: None,
        };
        assert(files@ =~= files_since(log_segment@.listed, existing_version));
        match LogSegment::try_new(
            files,
            log_segment.log_root.clone(),
            Some(log_segment.end_version),
            None,  // No checkpoint in this incremental segment
        ) {
            Ok(segment) => Ok(ExistingDataPlan::Since(segment)),
            Err(e) => Err(e),
        }
    }

    /// Start the log replay that updates existing scan metadata.
    ///
    /// The existing data is assumed to come from a previous scan, with all selection vectors
    /// applied. Engines may decide to cache the results of `scan_metadata` to avoid additional IO
    /// operations required to replay the log.
    ///
    /// As such the new scan's predicate must "contain" the previous scan's predicate. That is, the
    /// new scan's predicate MUST skip all files the previous scan's predicate skipped. The new
    /// scan's predicate is also allowed to skip files the previous predicate kept. For example,
    /// if the previous scan predicate was
    /// ```sql
    /// WHERE a < 42 AND b = 10
    /// ```
    /// then it is legal for the new scan to use predicates such as the following:
    /// ```sql
    /// WHERE a = 30 AND b = 10
    /// WHERE a < 10 AND b = 10
    /// WHERE a < 42 AND b = 10 AND c = 20
    /// ```
    /// but it is NOT legal for the new scan to use predicates like these:
    /// ```sql
    /// WHERE a < 42
    /// WHERE a = 50 AND b = 10
    /// WHERE a < 42 AND b <= 10
    /// WHERE a < 42 OR b = 10
    /// ```
    ///
    /// The existing predicate is not validated against the current predicate: the caller must
    /// ensure that they are compatible.
    ///
    /// # Parameters
    ///
    /// * `existing_version` - Table version the existing data was read from.
    pub fn scan_metadata_from<E: Engine, L: LogReader<T>>(
        &self,
        engine: &E,
        reader: &L,
        operation_id: MetricId,
        existing_version: Version,
    ) -> (r: DeltaResult<UpdateStream<E, L::Actions>>)
        ensures
            update_replay(self, engine, reader, operation_id, existing_version, r),
    {
        let planned = self.plan_from_existing(existing_version);
        if existing_version > self.snapshot.version() {
            return match planned {
                Ok(_) => {
                    assert(false);
                    Err(Error::generic(""))
                },
                Err(e) => Err(e),
            };
        }
        // in order to be processed by log replay, the existing scan metadata must be re-shaped
        // back into shape as read from the log. Since it is already reconciled data,
        // it is treated as if it originated from a checkpoint.
        let prepared = engine.new_expression_evaluator(
            scan_row_schema(),
            get_scan_metadata_transform_expr(),
            restored_add_schema(),
        );
        assert(restore_prepared(engine, prepared));
        let ghost restore_answer = prepared;
        let restore = match prepared {
            Ok(restore) => restore,
            Err(e) => return Err(e),
        };
        match planned {
            Err(e) => Err(e),
            // If the snapshot version corresponds to the hint version, the existing data is
            // processed to apply file skipping and provide the required transformations.
            // Since only existing data is processed (no checkpoint), the base schema is used
            // and no stats_parsed optimization.
            Ok(ExistingDataPlan::ExistingOnly) => {
                let checkpoint_info = CheckpointReadInfo {
                    has_stats_parsed: false,
                    has_partition_values_parsed: false,
                    checkpoint_read_schema: restored_add_schema(),
                };
                let made = self.scan_metadata_inner(engine, checkpoint_info, operation_id);
                let ghost replay_answer = made;
                let r: DeltaResult<UpdateStream<E, L::Actions>> = match made {
                    Ok(replay) => Ok(UpdateStream { actions: None, restore: Some(restore), replay }),
                    Err(e) => Err(e),
                };
                assert(replay_made(self, engine, checkpoint_info, operation_id, replay_answer));
                assert(existing_replay(self, engine, operation_id, restore, r));
                r
            },
            Ok(ExistingDataPlan::FullScan) => {
                let full = self.scan_metadata(engine, reader, operation_id);
                let ghost answer = full;
                assert(full_replay(self, engine, reader, operation_id, answer));
                match full {
                    Ok(full) => Ok(
                        UpdateStream {
                            actions: Some(full.actions),
                            restore: None,
                            replay: full.replay,
                        },
                    ),
                    Err(e) => Err(e),
                }
            },
            Ok(ExistingDataPlan::Since(segment)) => self.replay_since(
                engine,
                reader,
                operation_id,
                segment,
                restore,
            ),
        }
    }

    fn replay_since<E: Engine, L: LogReader<T>>(
        &self,
        engine: &E,
        reader: &L,
        operation_id: MetricId,
        segment: LogSegment,
        restore: E::ExpressionEvaluator,
    ) -> (r: DeltaResult<UpdateStream<E, L::Actions>>)
        ensures
            since_replay(self, engine, reader, operation_id, segment@, restore, r),
    {
        // For incremental reads, the new log segment has no checkpoint but the checkpoint schema
        // is used for consistency.
        let options = self.checkpoint_read_options();
        // The incremental path relies on the batch-boundary poll of the replay for cancellation;
        // the token is not handed to the reads here, so a read already in flight is not
        // interrupted.
        let no_token: Option<T> = None;
        let opened = reader.read_actions(
            &segment,
            commit_read_schema(),
            options,
            None,
            &no_token,
        );
        assert(actions_opened(self, reader, &segment, None, &no_token, opened));
        let ghost answer = opened;
        let opened = match opened {
            Ok(opened) => opened,
            Err(e) => return Err(e),
        };
        let made = self.scan_metadata_inner(engine, opened.checkpoint_info, operation_id);
        let ghost replay_answer = made;
        assert(replay_made(
            self,
            engine,
            answer->Ok_0.checkpoint_info,
            operation_id,
            replay_answer,
        ));
        match made {
            Ok(replay) => Ok(
                UpdateStream { actions: Some(opened.actions), restore: Some(restore), replay },
            ),
            Err(e) => Err(e),
        }
    }
}

/// Turns a batch of existing scan metadata into actions, for every outcome of the engine's call.
pub open spec fn batch_restored<E: Engine>(
    engine: &E,
    restore: &E::ExpressionEvaluator,
    data: &E::Batch,
    r: DeltaResult<ActionsBatch<E::Batch>>,
) -> bool {
    exists|actions: DeltaResult<E::Batch>| #[trigger]
        call_ensures(E::evaluate_expression, (engine, restore, data), actions) && match actions {
            Ok(actions) => r == Ok::<_, Error>(ActionsBatch { actions, is_log_batch: false }),
            Err(e) => r == Err::<ActionsBatch<E::Batch>, _>(e),
        }
}

/// Turns a batch of existing scan metadata into actions. It is already reconciled, so it is
/// treated as if it came from a checkpoint.
pub fn restore_actions<E: Engine>(
    engine: &E,
    restore: &E::ExpressionEvaluator,
    data: &E::Batch,
) -> (r: DeltaResult<ActionsBatch<E::Batch>>)
    ensures
        batch_restored(engine, restore, data, r),
{
    match engine.evaluate_expression(restore, data) {
        Ok(actions) => Ok(ActionsBatch::new(actions, false)),
        Err(e) => Err(e),
    }
}

} // verus!
