//! Turning tracing spans into metric events.

use std::sync::Arc;
use std::time::Instant;

use vstd::prelude::*;

use super::events::{
    reported, CrcReadFailure, CrcReadSuccess, DomainMetadataLoadFailure, DomainMetadataLoadSuccess,
    JsonReadCompleted, LogSegmentLoadFailure, LogSegmentLoadSuccess, LogSegmentLoadType,
    MetricEvent, MetricId, MetricsReporter, ParquetReadCompleted, ProtocolMetadataLoadFailure,
    ProtocolMetadataLoadSuccess, ProtocolMetadataSource, ScanMetadataCompleted, ScanType,
    SetTransactionLoadFailure, SetTransactionLoadSuccess, SnapshotBuildFailure,
    SnapshotBuildSuccess, StorageCopyCompleted, StorageListCompleted, StorageReadCompleted,
    TableType, TransactionCommitFailure, TransactionCommitSuccess,
};
use crate::text::{strings_view, text_eq};
use crate::time::nanos_since;

verus! {

/// How important a log line is.
#[derive(Debug, Clone, Copy, PartialEq, Eq, Structural)]
pub enum Level {
    Error,
    Warn,
    Info,
    Debug,
    Trace,
}

/// A reporter that logs each event at the configured level.
#[derive(Debug)]
pub struct LoggingMetricsReporter {
    pub level: Level,
}

impl LoggingMetricsReporter {
    /// Create a new reporter that logs each [`MetricEvent`] at the given level.
    pub fn new(level: Level) -> (reporter: Self)
        ensures
            reporter.level == level,
    {
        LoggingMetricsReporter { level }
    }
}

// ---------------------------------------------------------------------------------------------
// Events of spans
// ---------------------------------------------------------------------------------------------

/// The event that a span of the given name stands for, before anything is recorded; `None` for
/// spans that are not about metrics. A storage span says by `storage_name` what it is about.
pub open spec fn span_event(
    name: Seq<char>,
    operation_id: MetricId,
    correlation_id: Option<String>,
    storage_name: Seq<char>,
) -> Option<MetricEvent> {
    if name == "segment.load"@ {
        Some(
            MetricEvent::LogSegmentLoadSuccess(
                LogSegmentLoadSuccess {
                    operation_id,
                    correlation_id,
                    load_type: LogSegmentLoadType::Full,
                    num_commit_files: 0,
                    num_checkpoint_files: 0,
                    num_compaction_files: 0,
                    crc_versions_behind: None,
                    duration_ns: 0,
                },
            ),
        )
    } else if name == "protocol_metadata.load"@ {
        Some(
            MetricEvent::ProtocolMetadataLoadSuccess(
                ProtocolMetadataLoadSuccess {
                    operation_id,
                    correlation_id,
                    load_type: LogSegmentLoadType::Full,
                    source: ProtocolMetadataSource::FullReplay,
                    duration_ns: 0,
                },
            ),
        )
    } else if name == "snap.build"@ {
        Some(
            MetricEvent::SnapshotBuildSuccess(
                SnapshotBuildSuccess { operation_id, correlation_id, version: 0, duration_ns: 0 },
            ),
        )
    } else if name == "txn.commit"@ {
        Some(
            MetricEvent::TransactionCommitSuccess(
                TransactionCommitSuccess {
                    operation_id,
                    correlation_id,
                    commit_version: 0,
                    duration_ns: 0,
                },
            ),
        )
    } else if name == "domain_metadata.load"@ {
        Some(
            MetricEvent::DomainMetadataLoadSuccess(
                DomainMetadataLoadSuccess { operation_id, from_crc: false, duration_ns: 0 },
            ),
        )
    } else if name == "set_transaction.load"@ {
        Some(
            MetricEvent::SetTransactionLoadSuccess(
                SetTransactionLoadSuccess { operation_id, from_crc: false, duration_ns: 0 },
            ),
        )
    } else if name == "crc.read"@ {
        Some(
            MetricEvent::CrcReadSuccess(
                CrcReadSuccess { operation_id, version: 0, bytes_read: 0, duration_ns: 0 },
            ),
        )
    } else if name == "json.read"@ {
        Some(
            MetricEvent::JsonReadCompleted(
                JsonReadCompleted { num_files: 0, bytes_read: 0, duration_ns: 0 },
            ),
        )
    } else if name == "parquet.read"@ {
        Some(
            MetricEvent::ParquetReadCompleted(
                ParquetReadCompleted { num_files: 0, bytes_read: 0, duration_ns: 0 },
            ),
        )
    } else if name == "scan.metadata"@ {
        Some(
            MetricEvent::ScanMetadataCompleted(
                ScanMetadataCompleted {
                    operation_id,
                    correlation_id,
                    table_type: TableType::PathBased,
                    scan_type: ScanType::Full,
                    duration_ns: 0,
                    num_add_files_seen: 0,
                    num_active_add_files: 0,
                    active_add_files_bytes: 0,
                    num_remove_files_seen: 0,
                    num_non_file_actions: 0,
                    num_predicate_filtered: 0,
                    peak_hash_set_size: 0,
                    dedup_visitor_time_ns: 0,
                    predicate_eval_time_ns: 0,
                },
            ),
        )
    } else if name == "storage"@ {
        if storage_name == "list"@ {
            Some(
                MetricEvent::StorageListCompleted(
                    StorageListCompleted { num_files: 0, duration_ns: 0 },
                ),
            )
        } else if storage_name == "read"@ {
            Some(
                MetricEvent::StorageReadCompleted(
                    StorageReadCompleted { num_files: 0, bytes_read: 0, duration_ns: 0 },
                ),
            )
        } else if storage_name == "copy"@ {
            Some(MetricEvent::StorageCopyCompleted(StorageCopyCompleted { duration_ns: 0 }))
        } else {
            None
        }
    } else {
        None
    }
}

/// The event that a span of the given name stands for, before anything is recorded.
pub fn event_for_span(
    name: &str,
    operation_id: MetricId,
    correlation_id: Option<String>,
    storage_name: &str,
) -> (event: Option<MetricEvent>)
    ensures
        event == span_event(name@, operation_id, correlation_id, storage_name@),
{
    if text_eq(name, "segment.load") {
        Some(
            MetricEvent::LogSegmentLoadSuccess(
                LogSegmentLoadSuccess {
                    operation_id,
                    correlation_id,
                    load_type: LogSegmentLoadType::Full,
                    num_commit_files: 0,
                    num_checkpoint_files: 0,
                    num_compaction_files: 0,
                    crc_versions_behind: None,
                    duration_ns: 0,
                },
            ),
        )
    } else if text_eq(name, "protocol_metadata.load") {
        Some(
            MetricEvent::ProtocolMetadataLoadSuccess(
                ProtocolMetadataLoadSuccess {
                    operation_id,
                    correlation_id,
                    load_type: LogSegmentLoadType::Full,
                    source: ProtocolMetadataSource::FullReplay,
                    duration_ns: 0,
                },
            ),
        )
    } else if text_eq(name, "snap.build") {
        Some(
            MetricEvent::SnapshotBuildSuccess(
                SnapshotBuildSuccess { operation_id, correlation_id, version: 0, duration_ns: 0 },
            ),
        )
    } else if text_eq(name, "txn.commit") {
        Some(
            MetricEvent::TransactionCommitSuccess(
                TransactionCommitSuccess {
                    operation_id,
                    correlation_id,
                    commit_version: 0,
                    duration_ns: 0,
                },
            ),
        )
    } else if text_eq(name, "domain_metadata.load") {
        Some(
            MetricEvent::DomainMetadataLoadSuccess(
                DomainMetadataLoadSuccess { operation_id, from_crc: false, duration_ns: 0 },
            ),
        )
    } else if text_eq(name, "set_transaction.load") {
        Some(
            MetricEvent::SetTransactionLoadSuccess(
                SetTransactionLoadSuccess { operation_id, from_crc: false, duration_ns: 0 },
            ),
        )
    } else if text_eq(name, "crc.read") {
        Some(
            MetricEvent::CrcReadSuccess(
                CrcReadSuccess { operation_id, version: 0, bytes_read: 0, duration_ns: 0 },
            ),
        )
    } else if text_eq(name, "json.read") {
        Some(
            MetricEvent::JsonReadCompleted(
                JsonReadCompleted { num_files: 0, bytes_read: 0, duration_ns: 0 },
            ),
        )
    } else if text_eq(name, "parquet.read") {
        Some(
            MetricEvent::ParquetReadCompleted(
                ParquetReadCompleted { num_files: 0, bytes_read: 0, duration_ns: 0 },
            ),
        )
    } else if text_eq(name, "scan.metadata") {
        Some(
            MetricEvent::ScanMetadataCompleted(
                ScanMetadataCompleted {
                    operation_id,
                    correlation_id,
                    table_type: TableType::PathBased,
                    scan_type: ScanType::Full,
                    duration_ns: 0,
                    num_add_files_seen: 0,
                    num_active_add_files: 0,
                    active_add_files_bytes: 0,
                    num_remove_files_seen: 0,
                    num_non_file_actions: 0,
                    num_predicate_filtered: 0,
                    peak_hash_set_size: 0,
                    dedup_visitor_time_ns: 0,
                    predicate_eval_time_ns: 0,
                },
            ),
        )
    } else if text_eq(name, "storage") {
        if text_eq(storage_name, "list") {
            Some(
                MetricEvent::StorageListCompleted(
                    StorageListCompleted { num_files: 0, duration_ns: 0 },
                ),
            )
        } else if text_eq(storage_name, "read") {
            Some(
                MetricEvent::StorageReadCompleted(
                    StorageReadCompleted { num_files: 0, bytes_read: 0, duration_ns: 0 },
                ),
            )
        } else if text_eq(storage_name, "copy") {
            Some(MetricEvent::StorageCopyCompleted(StorageCopyCompleted { duration_ns: 0 }))
        } else {
            None
        }
    } else {
        None
    }
}

/// A value that a span records.
pub enum FieldValue {
    Number(u64),
    Flag(bool),
    Text(String),
}

impl MetricEvent {
    /// The name of the span that the event belongs to.
    pub open spec fn span(self) -> Seq<char> {
        match self {
            MetricEvent::LogSegmentLoadSuccess(_) | MetricEvent::LogSegmentLoadFailure(
                _,
            ) => "segment.load"@,
            MetricEvent::ProtocolMetadataLoadSuccess(_) | MetricEvent::ProtocolMetadataLoadFailure(
                _,
            ) => "protocol_metadata.load"@,
            MetricEvent::SnapshotBuildSuccess(_) | MetricEvent::SnapshotBuildFailure(
                _,
            ) => "snap.build"@,
            MetricEvent::TransactionCommitSuccess(_) | MetricEvent::TransactionCommitFailure(
                _,
            ) => "txn.commit"@,
            MetricEvent::DomainMetadataLoadSuccess(_) | MetricEvent::DomainMetadataLoadFailure(
                _,
            ) => "domain_metadata.load"@,
            MetricEvent::SetTransactionLoadSuccess(_) | MetricEvent::SetTransactionLoadFailure(
                _,
            ) => "set_transaction.load"@,
            MetricEvent::CrcReadSuccess(_) | MetricEvent::CrcReadFailure(_) => "crc.read"@,
            MetricEvent::JsonReadCompleted(_) => "json.read"@,
            MetricEvent::ParquetReadCompleted(_) => "parquet.read"@,
            MetricEvent::ScanMetadataCompleted(_) => "scan.metadata"@,
            _ => "storage"@,
        }
    }

    /// The event with a number recorded; `None` if it has no such field.
    pub open spec fn with_number(self, field: Seq<char>, value: u64) -> Option<MetricEvent> {
        match self {
            MetricEvent::LogSegmentLoadSuccess(e) => if field == "num_commit_files"@ {
                Some(
                    MetricEvent::LogSegmentLoadSuccess(
                        LogSegmentLoadSuccess { num_commit_files: value, ..e },
                    ),
                )
            } else if field == "num_checkpoint_files"@ {
                Some(
                    MetricEvent::LogSegmentLoadSuccess(
                        LogSegmentLoadSuccess { num_checkpoint_files: value, ..e },
                    ),
                )
            } else if field == "num_compaction_files"@ {
                Some(
                    MetricEvent::LogSegmentLoadSuccess(
                        LogSegmentLoadSuccess { num_compaction_files: value, ..e },
                    ),
                )
            } else {
                None
            },
            MetricEvent::SnapshotBuildSuccess(e) => if field == "version"@ {
                Some(
                    MetricEvent::SnapshotBuildSuccess(SnapshotBuildSuccess { version: value, ..e }),
                )
            } else {
                None
            },
            MetricEvent::TransactionCommitSuccess(e) => if field == "commit_version"@ {
                Some(
                    MetricEvent::TransactionCommitSuccess(
                        TransactionCommitSuccess { commit_version: value, ..e },
                    ),
                )
            } else {
                None
            },
            MetricEvent::CrcReadSuccess(e) => if field == "version"@ {
                Some(MetricEvent::CrcReadSuccess(CrcReadSuccess { version: value, ..e }))
            } else if field == "bytes_read"@ {
                Some(MetricEvent::CrcReadSuccess(CrcReadSuccess { bytes_read: value, ..e }))
            } else {
                None
            },
            MetricEvent::JsonReadCompleted(e) => if field == "num_files"@ {
                Some(MetricEvent::JsonReadCompleted(JsonReadCompleted { num_files: value, ..e }))
            } else if field == "bytes_read"@ {
                Some(MetricEvent::JsonReadCompleted(JsonReadCompleted { bytes_read: value, ..e }))
            } else {
                None
            },
            MetricEvent::ParquetReadCompleted(e) => if field == "num_files"@ {
                Some(
                    MetricEvent::ParquetReadCompleted(
                        ParquetReadCompleted { num_files: value, ..e },
                    ),
                )
            } else if field == "bytes_read"@ {
                Some(
                    MetricEvent::ParquetReadCompleted(
                        ParquetReadCompleted { bytes_read: value, ..e },
                    ),
                )
            } else {
                None
            },
            MetricEvent::StorageListCompleted(e) => if field == "num_files"@ {
                Some(
                    MetricEvent::StorageListCompleted(
                        StorageListCompleted { num_files: value, ..e },
                    ),
                )
            } else {
                None
            },
            MetricEvent::StorageReadCompleted(e) => if field == "num_files"@ {
                Some(
                    MetricEvent::StorageReadCompleted(
                        StorageReadCompleted { num_files: value, ..e },
                    ),
                )
            } else if field == "bytes_read"@ {
                Some(
                    MetricEvent::StorageReadCompleted(
                        StorageReadCompleted { bytes_read: value, ..e },
                    ),
                )
            } else {
                None
            },
            _ => None,
        }
    }

    /// The event with a truth value recorded; `None` if it has no such field.
    pub open spec fn with_flag(self, field: Seq<char>, value: bool) -> Option<MetricEvent> {
        match self {
            MetricEvent::DomainMetadataLoadSuccess(e) => if field == "from_crc"@ {
                Some(
                    MetricEvent::DomainMetadataLoadSuccess(
                        DomainMetadataLoadSuccess { from_crc: value, ..e },
                    ),
                )
            } else {
                None
            },
            MetricEvent::SetTransactionLoadSuccess(e) => if field == "from_crc"@ {
                Some(
                    MetricEvent::SetTransactionLoadSuccess(
                        SetTransactionLoadSuccess { from_crc: value, ..e },
                    ),
                )
            } else {
                None
            },
            _ => None,
        }
    }

    /// The event with a text recorded; `None` if it has no such field.
    pub open spec fn with_text(self, field: Seq<char>, value: String) -> Option<MetricEvent> {
        match self {
            MetricEvent::SnapshotBuildSuccess(e) => if field == "correlation_id"@ {
                Some(
                    MetricEvent::SnapshotBuildSuccess(
                        SnapshotBuildSuccess { correlation_id: Some(value), ..e },
                    ),
                )
            } else {
                None
            },
            MetricEvent::TransactionCommitSuccess(e) => if field == "correlation_id"@ {
                Some(
                    MetricEvent::TransactionCommitSuccess(
                        TransactionCommitSuccess { correlation_id: Some(value), ..e },
                    ),
                )
            } else {
                None
            },
            _ => None,
        }
    }

    /// The event with a value recorded; `None` if it has no such field.
    pub open spec fn with_value(self, field: Seq<char>, value: FieldValue) -> Option<MetricEvent> {
        match value {
            FieldValue::Number(n) => self.with_number(field, n),
            FieldValue::Flag(b) => self.with_flag(field, b),
            FieldValue::Text(t) => self.with_text(field, t),
        }
    }

    /// The event of the same operation having failed. Events without a failure form stay.
    pub open spec fn failed(self) -> MetricEvent {
        match self {
            MetricEvent::LogSegmentLoadSuccess(e) => MetricEvent::LogSegmentLoadFailure(
                LogSegmentLoadFailure {
                    operation_id: e.operation_id,
                    correlation_id: e.correlation_id,
                    load_type: e.load_type,
                },
            ),
            MetricEvent::ProtocolMetadataLoadSuccess(
                e,
            ) => MetricEvent::ProtocolMetadataLoadFailure(
                ProtocolMetadataLoadFailure {
                    operation_id: e.operation_id,
                    correlation_id: e.correlation_id,
                    load_type: e.load_type,
                },
            ),
            MetricEvent::SnapshotBuildSuccess(e) => MetricEvent::SnapshotBuildFailure(
                SnapshotBuildFailure {
                    operation_id: e.operation_id,
                    correlation_id: e.correlation_id,
                    duration_ns: e.duration_ns,
                },
            ),
            MetricEvent::TransactionCommitSuccess(e) => MetricEvent::TransactionCommitFailure(
                TransactionCommitFailure {
                    operation_id: e.operation_id,
                    correlation_id: e.correlation_id,
                    duration_ns: e.duration_ns,
                },
            ),
            MetricEvent::DomainMetadataLoadSuccess(e) => MetricEvent::DomainMetadataLoadFailure(
                DomainMetadataLoadFailure {
                    operation_id: e.operation_id,
                    duration_ns: e.duration_ns,
                },
            ),
            MetricEvent::SetTransactionLoadSuccess(e) => MetricEvent::SetTransactionLoadFailure(
                SetTransactionLoadFailure {
                    operation_id: e.operation_id,
                    duration_ns: e.duration_ns,
                },
            ),
            MetricEvent::CrcReadSuccess(e) => MetricEvent::CrcReadFailure(
                CrcReadFailure {
                    operation_id: e.operation_id,
                    version: e.version,
                    duration_ns: e.duration_ns,
                },
            ),
            other => other,
        }
    }

    /// The event with the span's duration. Events that carry a duration of their own stay.
    pub open spec fn with_duration(self, ns: u64) -> MetricEvent {
        match self {
            MetricEvent::SnapshotBuildSuccess(e) => MetricEvent::SnapshotBuildSuccess(
                SnapshotBuildSuccess { duration_ns: ns, ..e },
            ),
            MetricEvent::SnapshotBuildFailure(e) => MetricEvent::SnapshotBuildFailure(
                SnapshotBuildFailure { duration_ns: ns, ..e },
            ),
            MetricEvent::TransactionCommitSuccess(e) => MetricEvent::TransactionCommitSuccess(
                TransactionCommitSuccess { duration_ns: ns, ..e },
            ),
            MetricEvent::TransactionCommitFailure(e) => MetricEvent::TransactionCommitFailure(
                TransactionCommitFailure { duration_ns: ns, ..e },
            ),
            MetricEvent::DomainMetadataLoadSuccess(e) => MetricEvent::DomainMetadataLoadSuccess(
                DomainMetadataLoadSuccess { duration_ns: ns, ..e },
            ),
            MetricEvent::DomainMetadataLoadFailure(e) => MetricEvent::DomainMetadataLoadFailure(
                DomainMetadataLoadFailure { duration_ns: ns, ..e },
            ),
            MetricEvent::SetTransactionLoadSuccess(e) => MetricEvent::SetTransactionLoadSuccess(
                SetTransactionLoadSuccess { duration_ns: ns, ..e },
            ),
            MetricEvent::SetTransactionLoadFailure(e) => MetricEvent::SetTransactionLoadFailure(
                SetTransactionLoadFailure { duration_ns: ns, ..e },
            ),
            MetricEvent::CrcReadSuccess(e) => MetricEvent::CrcReadSuccess(
                CrcReadSuccess { duration_ns: ns, ..e },
            ),
            MetricEvent::CrcReadFailure(e) => MetricEvent::CrcReadFailure(
                CrcReadFailure { duration_ns: ns, ..e },
            ),
            MetricEvent::JsonReadCompleted(e) => MetricEvent::JsonReadCompleted(
                JsonReadCompleted { duration_ns: ns, ..e },
            ),
            MetricEvent::ParquetReadCompleted(e) => MetricEvent::ParquetReadCompleted(
                ParquetReadCompleted { duration_ns: ns, ..e },
            ),
            other => other,
        }
    }

    /// The name of the span that the event belongs to.
    pub fn span_name(&self) -> (name: &'static str)
        ensures
            name@ == self.span(),
    {
        match self {
            MetricEvent::LogSegmentLoadSuccess(_) | MetricEvent::LogSegmentLoadFailure(
                _,
            ) => "segment.load",
            MetricEvent::ProtocolMetadataLoadSuccess(_) | MetricEvent::ProtocolMetadataLoadFailure(
                _,
            ) => "protocol_metadata.load",
            MetricEvent::SnapshotBuildSuccess(_) | MetricEvent::SnapshotBuildFailure(
                _,
            ) => "snap.build",
            MetricEvent::TransactionCommitSuccess(_) | MetricEvent::TransactionCommitFailure(
                _,
            ) => "txn.commit",
            MetricEvent::DomainMetadataLoadSuccess(_) | MetricEvent::DomainMetadataLoadFailure(
                _,
            ) => "domain_metadata.load",
            MetricEvent::SetTransactionLoadSuccess(_) | MetricEvent::SetTransactionLoadFailure(
                _,
            ) => "set_transaction.load",
            MetricEvent::CrcReadSuccess(_) | MetricEvent::CrcReadFailure(_) => "crc.read",
            MetricEvent::JsonReadCompleted(_) => "json.read",
            MetricEvent::ParquetReadCompleted(_) => "parquet.read",
            MetricEvent::ScanMetadataCompleted(_) => "scan.metadata",
            _ => "storage",
        }
    }

    /// Records a number. `false` if the event has no such field.
    pub fn record_u64(&mut self, field: &str, value: u64) -> (known: bool)
        ensures
            match old(self).with_number(field@, value) {
                Some(event) => known && *final(self) == event,
                None => !known && *final(self) == *old(self),
            },
    {
        match self {
            MetricEvent::LogSegmentLoadSuccess(e) => {
                if text_eq(field, "num_commit_files") {
                    e.num_commit_files = value;
                    true
                } else if text_eq(field, "num_checkpoint_files") {
                    e.num_checkpoint_files = value;
                    true
                } else if text_eq(field, "num_compaction_files") {
                    e.num_compaction_files = value;
                    true
                } else {
                    false
                }
            },
            MetricEvent::SnapshotBuildSuccess(e) => {
                if text_eq(field, "version") {
                    e.version = value;
                    true
                } else {
                    false
                }
            },
            MetricEvent::TransactionCommitSuccess(e) => {
                if text_eq(field, "commit_version") {
                    e.commit_version = value;
                    true
                } else {
                    false
                }
            },
            MetricEvent::CrcReadSuccess(e) => {
                if text_eq(field, "version") {
                    e.version = value;
                    true
                } else if text_eq(field, "bytes_read") {
                    e.bytes_read = value;
                    true
                } else {
                    false
                }
            },
            MetricEvent::JsonReadCompleted(e) => {
                if text_eq(field, "num_files") {
                    e.num_files = value;
                    true
                } else if text_eq(field, "bytes_read") {
                    e.bytes_read = value;
                    true
                } else {
                    false
                }
            },
            MetricEvent::ParquetReadCompleted(e) => {
                if text_eq(field, "num_files") {
                    e.num_files = value;
                    true
                } else if text_eq(field, "bytes_read") {
                    e.bytes_read = value;
                    true
                } else {
                    false
                }
            },
            MetricEvent::StorageListCompleted(e) => {
                if text_eq(field, "num_files") {
                    e.num_files = value;
                    true
                } else {
                    false
                }
            },
            MetricEvent::StorageReadCompleted(e) => {
                if text_eq(field, "num_files") {
                    e.num_files = value;
                    true
                } else if text_eq(field, "bytes_read") {
                    e.bytes_read = value;
                    true
                } else {
                    false
                }
            },
            _ => false,
        }
    }

    /// Records a truth value. `false` if the event has no such field.
    pub fn record_bool(&mut self, field: &str, value: bool) -> (known: bool)
        ensures
            match old(self).with_flag(field@, value) {
                Some(event) => known && *final(self) == event,
                None => !known && *final(self) == *old(self),
            },
    {
        match self {
            MetricEvent::DomainMetadataLoadSuccess(e) => {
                if text_eq(field, "from_crc") {
                    e.from_crc = value;
                    true
                } else {
                    false
                }
            },
            MetricEvent::SetTransactionLoadSuccess(e) => {
                if text_eq(field, "from_crc") {
                    e.from_crc = value;
                    true
                } else {
                    false
                }
            },
            _ => false,
        }
    }

    /// Records a text. `false` if the event has no such field.
    pub fn record_str(&mut self, field: &str, value: String) -> (known: bool)
        ensures
            match old(self).with_text(field@, value) {
                Some(event) => known && *final(self) == event,
                None => !known && *final(self) == *old(self),
            },
    {
        match self {
            MetricEvent::SnapshotBuildSuccess(e) => {
                if text_eq(field, "correlation_id") {
                    e.correlation_id = Some(value);
                    true
                } else {
                    false
                }
            },
            MetricEvent::TransactionCommitSuccess(e) => {
                if text_eq(field, "correlation_id") {
                    e.correlation_id = Some(value);
                    true
                } else {
                    false
                }
            },
            _ => false,
        }
    }

    /// The event of the same operation having failed.
    pub fn into_failure(self) -> (event: MetricEvent)
        ensures
            event == self.failed(),
    {
        match self {
            MetricEvent::LogSegmentLoadSuccess(e) => MetricEvent::LogSegmentLoadFailure(
                LogSegmentLoadFailure {
                    operation_id: e.operation_id,
                    correlation_id: e.correlation_id,
                    load_type: e.load_type,
                },
            ),
            MetricEvent::ProtocolMetadataLoadSuccess(
                e,
            ) => MetricEvent::ProtocolMetadataLoadFailure(
                ProtocolMetadataLoadFailure {
                    operation_id: e.operation_id,
                    correlation_id: e.correlation_id,
                    load_type: e.load_type,
                },
            ),
            MetricEvent::SnapshotBuildSuccess(e) => MetricEvent::SnapshotBuildFailure(
                SnapshotBuildFailure {
                    operation_id: e.operation_id,
                    correlation_id: e.correlation_id,
                    duration_ns: e.duration_ns,
                },
            ),
            MetricEvent::TransactionCommitSuccess(e) => MetricEvent::TransactionCommitFailure(
                TransactionCommitFailure {
                    operation_id: e.operation_id,
                    correlation_id: e.correlation_id,
                    duration_ns: e.duration_ns,
                },
            ),
            MetricEvent::DomainMetadataLoadSuccess(e) => MetricEvent::DomainMetadataLoadFailure(
                DomainMetadataLoadFailure {
                    operation_id: e.operation_id,
                    duration_ns: e.duration_ns,
                },
            ),
            MetricEvent::SetTransactionLoadSuccess(e) => MetricEvent::SetTransactionLoadFailure(
                SetTransactionLoadFailure {
                    operation_id: e.operation_id,
                    duration_ns: e.duration_ns,
                },
            ),
            MetricEvent::CrcReadSuccess(e) => MetricEvent::CrcReadFailure(
                CrcReadFailure {
                    operation_id: e.operation_id,
                    version: e.version,
                    duration_ns: e.duration_ns,
                },
            ),
            other => other,
        }
    }

    /// Sets the duration of an event that has none of its own.
    pub fn set_duration_if_applicable(&mut self, ns: u64)
        ensures
            *final(self) == old(self).with_duration(ns),
    {
        match self {
            MetricEvent::SnapshotBuildSuccess(e) => {
                e.duration_ns = ns;
            },
            MetricEvent::SnapshotBuildFailure(e) => {
                e.duration_ns = ns;
            },
            MetricEvent::TransactionCommitSuccess(e) => {
                e.duration_ns = ns;
            },
            MetricEvent::TransactionCommitFailure(e) => {
                e.duration_ns = ns;
            },
            MetricEvent::DomainMetadataLoadSuccess(e) => {
                e.duration_ns = ns;
            },
            MetricEvent::DomainMetadataLoadFailure(e) => {
                e.duration_ns = ns;
            },
            MetricEvent::SetTransactionLoadSuccess(e) => {
                e.duration_ns = ns;
            },
            MetricEvent::SetTransactionLoadFailure(e) => {
                e.duration_ns = ns;
            },
            MetricEvent::CrcReadSuccess(e) => {
                e.duration_ns = ns;
            },
            MetricEvent::CrcReadFailure(e) => {
                e.duration_ns = ns;
            },
            MetricEvent::JsonReadCompleted(e) => {
                e.duration_ns = ns;
            },
            MetricEvent::ParquetReadCompleted(e) => {
                e.duration_ns = ns;
            },
            _ => {},
        }
    }
}

// ---------------------------------------------------------------------------------------------
// The state of a span
// ---------------------------------------------------------------------------------------------

/// What is said of a field that was recorded on a span which has no such metric.
pub open spec fn invalid_field(field: Seq<char>, span: Seq<char>) -> Seq<char> {
    "Invalid field '"@ + field + "' recorded on "@ + span + " span"@
}

/// Per-span state. Responsible for:
///
/// 1. Holding the partially-constructed [`MetricEvent`] while the span runs.
/// 2. Routing recorded values to it.
/// 3. Accumulating any deferred warnings, so that they can be emitted after locks are released.
pub struct EventVisitor {
    pub event: Option<MetricEvent>,
    pub pending_warnings: Vec<String>,
}

impl EventVisitor {
    /// A span with its event.
    pub fn new(event: Option<MetricEvent>) -> (visitor: Self)
        ensures
            visitor.event == event,
            visitor.pending_warnings@.len() == 0,
    {
        EventVisitor { event, pending_warnings: Vec::new() }
    }

    fn warn_invalid(&mut self, field: &str, span_name: &str)
        ensures
            final(self).event == old(self).event,
            final(self).pending_warnings@.len() == old(self).pending_warnings@.len() + 1,
            final(self).pending_warnings@.drop_last() == old(self).pending_warnings@,
            final(self).pending_warnings@.last()@ == invalid_field(field@, span_name@),
    {
        self.pending_warnings.push(
            "Invalid field '".to_string().concat(field).concat("' recorded on ").concat(
                span_name,
            ).concat(" span"),
        );
        assert(self.pending_warnings@.drop_last() =~= old(self).pending_warnings@);
    }

    /// Records a value on the span's event. A field that the event does not have is a typo in the
    /// span's declaration and is warned of; a span without an event takes nothing.
    pub fn record(&mut self, field: &str, value: FieldValue)
        ensures
            match old(self).event {
                None => *final(self) == *old(self),
                Some(event) => match event.with_value(field@, value) {
                    Some(updated) => final(self).event == Some(updated)
                        && final(self).pending_warnings == old(self).pending_warnings,
                    None => final(self).event == old(self).event
                        && final(self).pending_warnings@.len() == old(
                        self,
                    ).pending_warnings@.len() + 1 && final(self).pending_warnings@.drop_last()
                        == old(self).pending_warnings@ && final(self).pending_warnings@.last()@
                        == invalid_field(field@, event.span()),
                },
            },
    {
        match self.event.take() {
            None => {},
            Some(event) => {
                let mut event = event;
                let known = match value {
                    FieldValue::Number(n) => event.record_u64(field, n),
                    FieldValue::Flag(b) => event.record_bool(field, b),
                    FieldValue::Text(t) => event.record_str(field, t),
                };
                let span_name = event.span_name();
                self.event = Some(event);
                if !known {
                    self.warn_invalid(field, span_name);
                }
            },
        }
    }

    /// Takes a field of a log line inside the span. Log lines carry no metrics; their only effect
    /// is that the `error` field, which marks a failed function, turns the event into its failure
    /// form.
    pub fn log_field(&mut self, field: &str)
        ensures
            final(self).pending_warnings == old(self).pending_warnings,
            final(self).event == (if field@ == "error"@ {
                match old(self).event {
                    Some(event) => Some(event.failed()),
                    None => None,
                }
            } else {
                old(self).event
            }),
    {
        if text_eq(field, "error") {
            match self.event.take() {
                Some(event) => {
                    self.event = Some(event.into_failure());
                },
                None => {},
            }
        }
    }

    /// Hands over the pending warnings.
    pub fn take_warnings(&mut self) -> (warnings: Vec<String>)
        ensures
            warnings == old(self).pending_warnings,
            final(self).event == old(self).event,
            final(self).pending_warnings@.len() == 0,
    {
        let mut warnings: Vec<String> = Vec::new();
        std::mem::swap(&mut warnings, &mut self.pending_warnings);
        warnings
    }
}

/// A span that is watched: its event and when it was first entered.
pub struct SpanState {
    pub visitor: EventVisitor,
    pub started: Option<Instant>,
}

impl SpanState {
    /// A new span, with the values that it was created with. Fields that its event does not have
    /// are passed over.
    pub fn on_new_span(
        name: &str,
        operation_id: MetricId,
        correlation_id: Option<String>,
        storage_name: &str,
        attributes: Vec<(String, FieldValue)>,
    ) -> (span: SpanState)
        ensures
            span.started is None,
            span.visitor.pending_warnings@.len() == 0,
            span.visitor.event == with_attributes(
                span_event(name@, operation_id, correlation_id, storage_name@),
                attributes@,
                attributes@.len(),
            ),
    {
        let mut event = event_for_span(name, operation_id, correlation_id, storage_name);
        let ghost start = event;
        let ghost given = attributes@;
        let count: usize = attributes.len();
        let mut attributes = attributes;
        let mut i: usize = 0;
        while i < count
            invariant
                i <= count,
                count == given.len(),
                attributes@ == given.skip(i as int),
                event == with_attributes(start, given, i as nat),
            decreases count - i,
        {
            assert(attributes@[0] == given[i as int]);
            let (field, value) = attributes.remove(0);
            assert(attributes@ =~= given.skip(i + 1));
            event =
            match event {
                Some(known_event) => {
                    let mut updated = known_event;
                    let _ = match value {
                        FieldValue::Number(n) => updated.record_u64(field.as_str(), n),
                        FieldValue::Flag(b) => updated.record_bool(field.as_str(), b),
                        FieldValue::Text(t) => updated.record_str(field.as_str(), t),
                    };
                    Some(updated)
                },
                None => None,
            };
            i += 1;
        }
        SpanState { visitor: EventVisitor::new(event), started: None }
    }

    /// The span is entered. The first entry counts: spans entered and exited multiple times (e.g.
    /// iterator adapters) keep the original timestamp, so that the duration is wall time from the
    /// span's first entry.
    pub fn on_enter(&mut self)
        ensures
            final(self).visitor == old(self).visitor,
            final(self).started is Some,
            old(self).started is Some ==> final(self).started == old(self).started,
    {
        if self.started.is_none() {
            self.started = Some(Instant::now());
        }
    }
}

/// An event after the first `n` values were recorded on its span, and what is warned of.
pub open spec fn recorded(
    event: Option<MetricEvent>,
    values: Seq<(String, FieldValue)>,
    n: nat,
) -> (Option<MetricEvent>, Seq<Seq<char>>)
    decreases n,
{
    if n == 0 {
        (event, seq![])
    } else {
        let (before, warnings) = recorded(event, values, (n - 1) as nat);
        match before {
            None => (None, warnings),
            Some(e) => match e.with_value(values[n - 1].0@, values[n - 1].1) {
                Some(updated) => (Some(updated), warnings),
                None => (before, warnings.push(invalid_field(values[n - 1].0@, e.span()))),
            },
        }
    }
}

/// An event after a log line with the first `n` of the given fields.
pub open spec fn after_log_line(event: Option<MetricEvent>, fields: Seq<String>, n: nat) -> Option<
    MetricEvent,
>
    decreases n,
{
    if n == 0 {
        event
    } else {
        match after_log_line(event, fields, (n - 1) as nat) {
            Some(e) => Some(
                if fields[n - 1]@ == "error"@ {
                    e.failed()
                } else {
                    e
                },
            ),
            None => None,
        }
    }
}

/// Log lines carry no metrics: whatever their fields are called, they leave the event of the span
/// as it is, unless one marks a failed function.
pub proof fn log_lines_write_no_metrics(event: Option<MetricEvent>, fields: Seq<String>, n: nat)
    requires
        n <= fields.len(),
        forall|i: int| 0 <= i < n ==> (#[trigger] fields[i])@ != "error"@,
    ensures
        after_log_line(event, fields, n) == event,
    decreases n,
{
    if n > 0 {
        log_lines_write_no_metrics(event, fields, (n - 1) as nat);
        assert(fields[n - 1]@ != "error"@);
    }
}

/// A failure stays one: marking a failed function again changes nothing, and the event still
/// belongs to the same kind of span.
pub proof fn failures_stay_failures(event: MetricEvent)
    ensures
        event.failed().failed() == event.failed(),
        event.failed().span() == event.span(),
{
}

impl SpanState {
    /// Values are recorded on the span. Gives the warnings that are due; they must be emitted after
    /// the span is unlocked, since a warning is a log line itself.
    pub fn on_record(&mut self, values: Vec<(String, FieldValue)>) -> (warnings: Vec<String>)
        ensures
            final(self).started == old(self).started,
            final(self).visitor.event == recorded(
                old(self).visitor.event,
                values@,
                values@.len(),
            ).0,
            final(self).visitor.pending_warnings@.len() == 0,
            strings_view(warnings@) == strings_view(old(self).visitor.pending_warnings@) + recorded(
                old(self).visitor.event,
                values@,
                values@.len(),
            ).1,
    {
        let ghost given = values@;
        let ghost event = self.visitor.event;
        let ghost pending = strings_view(self.visitor.pending_warnings@);
        let count: usize = values.len();
        let mut values = values;
        let mut i: usize = 0;
        assert(strings_view(self.visitor.pending_warnings@) =~= pending + Seq::empty());
        while i < count
            invariant
                i <= count,
                count == given.len(),
                values@ == given.skip(i as int),
                self.started == old(self).started,
                self.visitor.event == recorded(event, given, i as nat).0,
                strings_view(self.visitor.pending_warnings@) == pending + recorded(
                    event,
                    given,
                    i as nat,
                ).1,
            decreases count - i,
        {
            assert(values@[0] == given[i as int]);
            let ghost before = self.visitor.pending_warnings@;
            let (field, value) = values.remove(0);
            assert(values@ =~= given.skip(i + 1));
            self.visitor.record(field.as_str(), value);
            proof {
                let after = self.visitor.pending_warnings@;
                if after.len() == before.len() + 1 && after.drop_last() == before {
                    assert(strings_view(after) =~= strings_view(before).push(after.last()@));
                }
                assert(strings_view(after) =~= pending + recorded(event, given, (i + 1) as nat).1);
            }
            i += 1;
        }
        self.visitor.take_warnings()
    }

    /// A log line inside the span, with the given fields.
    pub fn on_event(&mut self, fields: &Vec<String>)
        ensures
            final(self).started == old(self).started,
            final(self).visitor.pending_warnings == old(self).visitor.pending_warnings,
            final(self).visitor.event == after_log_line(
                old(self).visitor.event,
                fields@,
                fields@.len(),
            ),
    {
        for i in 0..fields.len()
            invariant
                self.started == old(self).started,
                self.visitor.pending_warnings == old(self).visitor.pending_warnings,
                self.visitor.event == after_log_line(
                    old(self).visitor.event,
                    fields@,
                    i as nat,
                ),
        {
            self.visitor.log_field(fields[i].as_str());
        }
    }
}

/// An event with the first `n` attributes recorded, as far as it has such fields.
pub open spec fn with_attributes(
    event: Option<MetricEvent>,
    attributes: Seq<(String, FieldValue)>,
    n: nat,
) -> Option<MetricEvent>
    decreases n,
{
    if n == 0 {
        event
    } else {
        match with_attributes(event, attributes, (n - 1) as nat) {
            None => None,
            Some(before) => match before.with_value(
                attributes[n - 1].0@,
                attributes[n - 1].1,
            ) {
                Some(updated) => Some(updated),
                None => Some(before),
            },
        }
    }
}

/// Converts spans into [`MetricEvent`]s and forwards them to a registered [`MetricsReporter`].
pub struct ReportGeneratorLayer<R: MetricsReporter> {
    reporter: Arc<R>,
}

impl<R: MetricsReporter> ReportGeneratorLayer<R> {
    /// Where events are forwarded to.
    pub closed spec fn target(&self) -> Arc<R> {
        self.reporter
    }

    /// Create a new layer that forwards metric events to the given reporter.
    pub fn new(reporter: Arc<R>) -> (layer: Self)
        ensures
            layer.target() == reporter,
    {
        ReportGeneratorLayer { reporter }
    }

    /// The span is closed. If it declares the field `report`, its event is reported, with the
    /// span's duration if it was ever entered.
    pub fn on_close(&self, span: &mut SpanState, has_report_field: bool)
        ensures
            exists|event: Option<MetricEvent>| #[trigger]
                old(span).closed(has_report_field, *final(span), event) && (event matches Some(e)
                    ==> reported(&*self.target(), e)),
    {
        let event = span.close(has_report_field);
        let ghost given = event;
        if let Some(event) = event {
            self.reporter.report(event);
        }
        assert(old(span).closed(has_report_field, *span, given));
    }
}

impl SpanState {
    /// Whether closing the span leaves `after` and gives `event` to be reported: nothing unless it
    /// declares the field `report`, else its event, which it then holds no more.
    pub open spec fn closed(
        self,
        has_report_field: bool,
        after: SpanState,
        event: Option<MetricEvent>,
    ) -> bool {
        if !has_report_field {
            after == self && event is None
        } else {
            &&& after == (SpanState {
                visitor: EventVisitor { event: None, ..self.visitor },
                ..self
            })
            &&& match self.visitor.event {
                None => event is None,
                Some(e) => if self.started is Some {
                    exists|ns: u64| event == Some(#[trigger] e.with_duration(ns))
                } else {
                    event == Some(e)
                },
            }
        }
    }

    /// The span is closed. Gives the event that is to be reported, with the span's duration if it
    /// was ever entered.
    pub fn close(&mut self, has_report_field: bool) -> (event: Option<MetricEvent>)
        ensures
            old(self).closed(has_report_field, *final(self), event),
    {
        if !has_report_field {
            return None;
        }
        let duration_ns = match &self.started {
            Some(start) => Some(nanos_since(start)),
            None => None,
        };
        match self.visitor.event.take() {
            Some(event) => {
                let mut event = event;
                if let Some(ns) = duration_ns {
                    event.set_duration_if_applicable(ns);
                    assert(event == (old(self).visitor.event->0).with_duration(ns));
                }
                Some(event)
            },
            None => None,
        }
    }
}

} // verus!
