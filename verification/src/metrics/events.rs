//! Metric events.

use vstd::prelude::*;

use crate::text::clone_opt_string;

verus! {

/// Joins the events of one operation.
#[derive(Debug, PartialEq)]
pub struct MetricId {
    pub id: String,
}

impl Clone for MetricId {
    fn clone(&self) -> (copy: MetricId)
        ensures
            copy == *self,
    {
        MetricId { id: self.id.clone() }
    }
}

/// Whether a load read the whole log segment or built on an existing snapshot.
#[derive(Debug, Clone, Copy, PartialEq, Eq, Structural)]
pub enum LogSegmentLoadType {
    Full,
    Incremental,
}

/// Where the protocol and metadata of a snapshot came from.
#[derive(Debug, Clone, Copy, PartialEq, Eq, Structural)]
pub enum ProtocolMetadataSource {
    /// Replay of the log, rooted at no CRC file.
    FullReplay,
    /// A CRC file of the target version.
    CrcAtTarget,
    /// An older CRC, brought forward by replaying the commits after it.
    CrcAdvancedByReplay,
    /// Replay of the commits after an older CRC, for protocol and metadata alone.
    CrcSeededPmOnlyReplay,
}

/// Who manages a table.
#[derive(Debug, Clone, Copy, PartialEq, Eq, Structural)]
pub enum TableType {
    CatalogManaged,
    PathBased,
}

/// Which part of log replay a scan event covers.
#[derive(Debug, Clone, Copy, PartialEq, Eq, Structural)]
pub enum ScanType {
    Full,
    SequentialPhase,
    ParallelPhase,
}

/// A log segment was loaded.
#[derive(Debug, PartialEq)]
pub struct LogSegmentLoadSuccess {
    pub operation_id: MetricId,
    pub correlation_id: Option<String>,
    pub load_type: LogSegmentLoadType,
    pub num_commit_files: u64,
    pub num_checkpoint_files: u64,
    pub num_compaction_files: u64,
    /// How many versions the newest CRC file lags behind; `None` without one.
    pub crc_versions_behind: Option<u64>,
    pub duration_ns: u64,
}

/// A log segment could not be loaded.
#[derive(Debug, PartialEq)]
pub struct LogSegmentLoadFailure {
    pub operation_id: MetricId,
    pub correlation_id: Option<String>,
    pub load_type: LogSegmentLoadType,
}

/// Protocol and metadata were loaded.
#[derive(Debug, PartialEq)]
pub struct ProtocolMetadataLoadSuccess {
    pub operation_id: MetricId,
    pub correlation_id: Option<String>,
    pub load_type: LogSegmentLoadType,
    pub source: ProtocolMetadataSource,
    pub duration_ns: u64,
}

/// Protocol and metadata could not be loaded.
#[derive(Debug, PartialEq)]
pub struct ProtocolMetadataLoadFailure {
    pub operation_id: MetricId,
    pub correlation_id: Option<String>,
    pub load_type: LogSegmentLoadType,
}

/// A scan's log replay, or a phase of it, was completed.
#[derive(Debug, PartialEq)]
pub struct ScanMetadataCompleted {
    pub operation_id: MetricId,
    pub correlation_id: Option<String>,
    pub table_type: TableType,
    pub scan_type: ScanType,
    pub duration_ns: u64,
    pub num_add_files_seen: u64,
    pub num_active_add_files: u64,
    pub active_add_files_bytes: u64,
    pub num_remove_files_seen: u64,
    pub num_non_file_actions: u64,
    pub num_predicate_filtered: u64,
    pub peak_hash_set_size: u64,
    pub dedup_visitor_time_ns: u64,
    pub predicate_eval_time_ns: u64,
}

/// A snapshot was built.
#[derive(Debug, PartialEq)]
pub struct SnapshotBuildSuccess {
    pub operation_id: MetricId,
    pub correlation_id: Option<String>,
    pub version: u64,
    pub duration_ns: u64,
}

/// A snapshot could not be built.
#[derive(Debug, PartialEq)]
pub struct SnapshotBuildFailure {
    pub operation_id: MetricId,
    pub correlation_id: Option<String>,
    pub duration_ns: u64,
}

/// A transaction was committed.
#[derive(Debug, PartialEq)]
pub struct TransactionCommitSuccess {
    pub operation_id: MetricId,
    pub correlation_id: Option<String>,
    pub commit_version: u64,
    pub duration_ns: u64,
}

/// A transaction could not be committed.
#[derive(Debug, PartialEq)]
pub struct TransactionCommitFailure {
    pub operation_id: MetricId,
    pub correlation_id: Option<String>,
    pub duration_ns: u64,
}

/// Domain metadata was loaded.
#[derive(Debug, PartialEq)]
pub struct DomainMetadataLoadSuccess {
    pub operation_id: MetricId,
    pub from_crc: bool,
    pub duration_ns: u64,
}

/// Domain metadata could not be loaded.
#[derive(Debug, PartialEq)]
pub struct DomainMetadataLoadFailure {
    pub operation_id: MetricId,
    pub duration_ns: u64,
}

/// Set transactions were loaded.
#[derive(Debug, PartialEq)]
pub struct SetTransactionLoadSuccess {
    pub operation_id: MetricId,
    pub from_crc: bool,
    pub duration_ns: u64,
}

/// Set transactions could not be loaded.
#[derive(Debug, PartialEq)]
pub struct SetTransactionLoadFailure {
    pub operation_id: MetricId,
    pub duration_ns: u64,
}

/// A CRC file was read.
#[derive(Debug, PartialEq)]
pub struct CrcReadSuccess {
    pub operation_id: MetricId,
    pub version: u64,
    pub bytes_read: u64,
    pub duration_ns: u64,
}

/// A CRC file could not be read.
#[derive(Debug, PartialEq)]
pub struct CrcReadFailure {
    pub operation_id: MetricId,
    pub version: u64,
    pub duration_ns: u64,
}

/// JSON files were read.
#[derive(Debug, PartialEq)]
pub struct JsonReadCompleted {
    pub num_files: u64,
    pub bytes_read: u64,
    pub duration_ns: u64,
}

/// Parquet files were read.
#[derive(Debug, PartialEq)]
pub struct ParquetReadCompleted {
    pub num_files: u64,
    pub bytes_read: u64,
    pub duration_ns: u64,
}

/// A storage listing was completed.
#[derive(Debug, PartialEq)]
pub struct StorageListCompleted {
    pub num_files: u64,
    pub duration_ns: u64,
}

/// A storage read was completed.
#[derive(Debug, PartialEq)]
pub struct StorageReadCompleted {
    pub num_files: u64,
    pub bytes_read: u64,
    pub duration_ns: u64,
}

/// A storage copy was completed.
#[derive(Debug, PartialEq)]
pub struct StorageCopyCompleted {
    pub duration_ns: u64,
}

/// Something that happened during a table operation.
#[derive(Debug, PartialEq)]
pub enum MetricEvent {
    LogSegmentLoadSuccess(LogSegmentLoadSuccess),
    LogSegmentLoadFailure(LogSegmentLoadFailure),
    ProtocolMetadataLoadSuccess(ProtocolMetadataLoadSuccess),
    ProtocolMetadataLoadFailure(ProtocolMetadataLoadFailure),
    SnapshotBuildSuccess(SnapshotBuildSuccess),
    SnapshotBuildFailure(SnapshotBuildFailure),
    TransactionCommitSuccess(TransactionCommitSuccess),
    TransactionCommitFailure(TransactionCommitFailure),
    DomainMetadataLoadSuccess(DomainMetadataLoadSuccess),
    DomainMetadataLoadFailure(DomainMetadataLoadFailure),
    SetTransactionLoadSuccess(SetTransactionLoadSuccess),
    SetTransactionLoadFailure(SetTransactionLoadFailure),
    CrcReadSuccess(CrcReadSuccess),
    CrcReadFailure(CrcReadFailure),
    JsonReadCompleted(JsonReadCompleted),
    ParquetReadCompleted(ParquetReadCompleted),
    ScanMetadataCompleted(ScanMetadataCompleted),
    StorageListCompleted(StorageListCompleted),
    StorageReadCompleted(StorageReadCompleted),
    StorageCopyCompleted(StorageCopyCompleted),
}

/// Receives [`MetricEvent`]s as they occur during Delta operations and forwards them to a
/// monitoring system. Reporter implementations must be cheap to call on any thread.
pub trait MetricsReporter {
    /// Report a metric event.
    fn report(&self, event: MetricEvent);
}

/// Whether `event` was handed to the reporter.
pub open spec fn reported<R: MetricsReporter>(reporter: &R, event: MetricEvent) -> bool {
    call_ensures(R::report, (reporter, event), ())
}

/// Whether `event` is all that was added to a list of events.
pub open spec fn added(before: Seq<MetricEvent>, after: Seq<MetricEvent>, event: MetricEvent) -> bool {
    after == before.push(event)
}

/// Reports events in order.
pub fn report_all<R: MetricsReporter>(events: Vec<MetricEvent>, reporter: &R)
    ensures
        forall|i: int| 0 <= i < events@.len() ==> reported(reporter, #[trigger] events@[i]),
{
    let ghost all = events@;
    let mut events = events;
    let count: usize = events.len();
    let mut i: usize = 0;
    while i < count
        invariant
            i <= count,
            count == all.len(),
            events@ == all.skip(i as int),
            forall|j: int| 0 <= j < i ==> reported(reporter, #[trigger] all[j]),
        decreases count - i,
    {
        assert(events@[0] == all[i as int]);
        let event = events.remove(0);
        assert(events@ =~= all.skip(i + 1));
        reporter.report(event);
        i += 1;
    }
}

/// What joins the events of one snapshot load.
#[derive(Debug, PartialEq)]
pub struct SnapshotLoadMetricContext {
    pub operation_id: MetricId,
    pub correlation_id: Option<String>,
    pub load_type: LogSegmentLoadType,
}

impl Clone for SnapshotLoadMetricContext {
    fn clone(&self) -> (copy: SnapshotLoadMetricContext)
        ensures
            copy == *self,
    {
        SnapshotLoadMetricContext {
            operation_id: self.operation_id.clone(),
            correlation_id: clone_opt_string(&self.correlation_id),
            load_type: self.load_type,
        }
    }
}

} // verus!
