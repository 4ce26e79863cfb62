//! What metric events record.

use vstd::prelude::*;

use super::events::{MetricEvent, MetricId, ScanType, TableType};
use super::metered_storage::{listing_reported, reads_reported};
use super::reporter::{
    after_log_line, failures_stay_failures, invalid_field, recorded, span_event, with_attributes,
    FieldValue, SpanState,
};
use crate::error::DeltaResult;
use crate::log_replay::KeyV;
use crate::parallel::parallel_scan_metadata::with_workers;
use crate::scan::metrics::{bump, completed_event, ScanMetrics};
use crate::scan::process_batch::with_seen_count;
use crate::scan::row_laws::{counts_up, lemma_bump, lemma_counts_up, lemma_no_count};
use crate::scan::scan_metadata::ScanMetadata;

verus! {

/// The number that an event holds under a name.
pub open spec fn number_in(event: MetricEvent, field: Seq<char>) -> Option<u64> {
    match event {
        MetricEvent::LogSegmentLoadSuccess(e) => if field == "num_commit_files"@ {
            Some(e.num_commit_files)
        } else if field == "num_checkpoint_files"@ {
            Some(e.num_checkpoint_files)
        } else if field == "num_compaction_files"@ {
            Some(e.num_compaction_files)
        } else {
            None
        },
        MetricEvent::SnapshotBuildSuccess(e) => if field == "version"@ {
            Some(e.version)
        } else {
            None
        },
        MetricEvent::TransactionCommitSuccess(e) => if field == "commit_version"@ {
            Some(e.commit_version)
        } else {
            None
        },
        MetricEvent::CrcReadSuccess(e) => if field == "version"@ {
            Some(e.version)
        } else if field == "bytes_read"@ {
            Some(e.bytes_read)
        } else {
            None
        },
        MetricEvent::JsonReadCompleted(e) => if field == "num_files"@ {
            Some(e.num_files)
        } else if field == "bytes_read"@ {
            Some(e.bytes_read)
        } else {
            None
        },
        MetricEvent::ParquetReadCompleted(e) => if field == "num_files"@ {
            Some(e.num_files)
        } else if field == "bytes_read"@ {
            Some(e.bytes_read)
        } else {
            None
        },
        MetricEvent::StorageListCompleted(e) => if field == "num_files"@ {
            Some(e.num_files)
        } else {
            None
        },
        MetricEvent::StorageReadCompleted(e) => if field == "num_files"@ {
            Some(e.num_files)
        } else if field == "bytes_read"@ {
            Some(e.bytes_read)
        } else {
            None
        },
        _ => None,
    }
}

proof fn lemma_field_names()
    ensures
        "num_commit_files"@ != "num_checkpoint_files"@,
        "num_commit_files"@ != "num_compaction_files"@,
        "num_checkpoint_files"@ != "num_compaction_files"@,
        "version"@ != "bytes_read"@,
        "num_files"@ != "bytes_read"@,
{
    reveal_strlit("num_commit_files");
    reveal_strlit("num_checkpoint_files");
    reveal_strlit("num_compaction_files");
    reveal_strlit("version");
    reveal_strlit("bytes_read");
    reveal_strlit("num_files");
    assert("num_commit_files"@.len() == 16 && "num_checkpoint_files"@.len() == 20);
    assert("num_compaction_files"@.len() == 20);
    assert("num_checkpoint_files"@[5] == 'h' && "num_compaction_files"@[5] == 'o');
    assert("version"@.len() == 7 && "bytes_read"@.len() == 10 && "num_files"@.len() == 9);
}

/// A number is recorded if and only if the event has a field of that name. It is read back under
/// the name; the other numbers stay, and recording the old number brings back the old event.
pub proof fn recorded_numbers_are_read_back(
    event: MetricEvent,
    field: Seq<char>,
    value: u64,
    other: Seq<char>,
)
    ensures
        event.with_number(field, value) is Some <==> number_in(event, field) is Some,
        event.with_number(field, value) matches Some(after) ==> {
            &&& number_in(after, field) == Some(value)
            &&& other != field ==> number_in(after, other) == number_in(event, other)
            &&& after.with_number(field, number_in(event, field)->0) == Some(event)
        },
{
    lemma_field_names();
}

/// Whether an event holds a flag that tells if a CRC file answered it.
pub open spec fn from_crc(event: MetricEvent) -> Option<bool> {
    match event {
        MetricEvent::DomainMetadataLoadSuccess(e) => Some(e.from_crc),
        MetricEvent::SetTransactionLoadSuccess(e) => Some(e.from_crc),
        _ => None,
    }
}

/// The flag is read back, and recording the old flag brings back the old event.
pub proof fn recorded_flags_are_read_back(event: MetricEvent, field: Seq<char>, value: bool)
    ensures
        event.with_flag(field, value) is Some <==> field == "from_crc"@ && from_crc(event) is Some,
        event.with_flag(field, value) matches Some(after) ==> from_crc(after) == Some(value)
            && after.with_flag(field, from_crc(event)->0) == Some(event),
{
}

/// What joins an event with others of its caller, for events of whole operations.
pub open spec fn correlation(event: MetricEvent) -> Option<Option<String>> {
    match event {
        MetricEvent::SnapshotBuildSuccess(e) => Some(e.correlation_id),
        MetricEvent::TransactionCommitSuccess(e) => Some(e.correlation_id),
        _ => None,
    }
}

/// The correlation ID is read back; everything else stays.
pub proof fn recorded_texts_are_read_back(event: MetricEvent, field: Seq<char>, value: String)
    ensures
        event.with_text(field, value) is Some <==> field == "correlation_id"@ && correlation(event)
            is Some,
        event.with_text(field, value) matches Some(after) ==> {
            &&& correlation(after) == Some(Some(value))
            &&& correlation(event) matches Some(Some(before)) ==> after.with_text(field, before)
                == Some(event)
            &&& after.span() == event.span()
            &&& number_in(after, "version"@) == number_in(event, "version"@)
            &&& number_in(after, "commit_version"@) == number_in(event, "commit_version"@)
            &&& duration_of(after) == duration_of(event)
        },
{
}

/// How long an operation took, for events whose span is timed.
pub open spec fn duration_of(event: MetricEvent) -> Option<u64> {
    match event {
        MetricEvent::SnapshotBuildSuccess(e) => Some(e.duration_ns),
        MetricEvent::SnapshotBuildFailure(e) => Some(e.duration_ns),
        MetricEvent::TransactionCommitSuccess(e) => Some(e.duration_ns),
        MetricEvent::TransactionCommitFailure(e) => Some(e.duration_ns),
        MetricEvent::DomainMetadataLoadSuccess(e) => Some(e.duration_ns),
        MetricEvent::DomainMetadataLoadFailure(e) => Some(e.duration_ns),
        MetricEvent::SetTransactionLoadSuccess(e) => Some(e.duration_ns),
        MetricEvent::SetTransactionLoadFailure(e) => Some(e.duration_ns),
        MetricEvent::CrcReadSuccess(e) => Some(e.duration_ns),
        MetricEvent::CrcReadFailure(e) => Some(e.duration_ns),
        MetricEvent::JsonReadCompleted(e) => Some(e.duration_ns),
        MetricEvent::ParquetReadCompleted(e) => Some(e.duration_ns),
        _ => None,
    }
}

/// A timed event takes the duration and keeps everything else; an event that is not timed stays as
/// it is.
pub proof fn durations_are_read_back(event: MetricEvent, ns: u64)
    ensures
        duration_of(event) is Some ==> duration_of(event.with_duration(ns)) == Some(ns),
        duration_of(event) is Some ==> event.with_duration(ns).with_duration(duration_of(event)->0)
            == event,
        duration_of(event) is None ==> event.with_duration(ns) == event,
{
}

/// The operation that an event belongs to, where it names one.
pub open spec fn operation(event: MetricEvent) -> Option<MetricId> {
    match event {
        MetricEvent::LogSegmentLoadSuccess(e) => Some(e.operation_id),
        MetricEvent::LogSegmentLoadFailure(e) => Some(e.operation_id),
        MetricEvent::ProtocolMetadataLoadSuccess(e) => Some(e.operation_id),
        MetricEvent::ProtocolMetadataLoadFailure(e) => Some(e.operation_id),
        MetricEvent::SnapshotBuildSuccess(e) => Some(e.operation_id),
        MetricEvent::SnapshotBuildFailure(e) => Some(e.operation_id),
        MetricEvent::TransactionCommitSuccess(e) => Some(e.operation_id),
        MetricEvent::TransactionCommitFailure(e) => Some(e.operation_id),
        MetricEvent::DomainMetadataLoadSuccess(e) => Some(e.operation_id),
        MetricEvent::DomainMetadataLoadFailure(e) => Some(e.operation_id),
        MetricEvent::SetTransactionLoadSuccess(e) => Some(e.operation_id),
        MetricEvent::SetTransactionLoadFailure(e) => Some(e.operation_id),
        MetricEvent::CrcReadSuccess(e) => Some(e.operation_id),
        MetricEvent::CrcReadFailure(e) => Some(e.operation_id),
        MetricEvent::ScanMetadataCompleted(e) => Some(e.operation_id),
        _ => None,
    }
}

/// Whether an event tells of a failure.
pub open spec fn is_failure(event: MetricEvent) -> bool {
    event is LogSegmentLoadFailure || event is ProtocolMetadataLoadFailure || event
        is SnapshotBuildFailure || event is TransactionCommitFailure || event
        is DomainMetadataLoadFailure || event is SetTransactionLoadFailure || event
        is CrcReadFailure
}

/// Whether an event tells of an operation that can fail.
pub open spec fn can_fail(event: MetricEvent) -> bool {
    event is LogSegmentLoadSuccess || event is ProtocolMetadataLoadSuccess || event
        is SnapshotBuildSuccess || event is TransactionCommitSuccess || event
        is DomainMetadataLoadSuccess || event is SetTransactionLoadSuccess || event
        is CrcReadSuccess
}

/// An operation that fails is reported as failed, under its own ID and with its own duration; other
/// events stay as they are.
pub proof fn failures_are_reported(event: MetricEvent)
    ensures
        can_fail(event) ==> is_failure(event.failed()),
        !can_fail(event) ==> event.failed() == event,
        operation(event.failed()) == operation(event),
        duration_of(event.failed()) == duration_of(event),
        event.failed().span() == event.span(),
{
}

proof fn lemma_span_names()
    ensures
        "segment.load"@ != "parquet.read"@,
        "snap.build"@ != "txn.commit"@,
        "domain_metadata.load"@ != "set_transaction.load"@,
        "segment.load"@.len() == 12,
        "protocol_metadata.load"@.len() == 22,
        "snap.build"@.len() == 10,
        "txn.commit"@.len() == 10,
        "domain_metadata.load"@.len() == 20,
        "set_transaction.load"@.len() == 20,
        "crc.read"@.len() == 8,
        "json.read"@.len() == 9,
        "parquet.read"@.len() == 12,
        "scan.metadata"@.len() == 13,
        "storage"@.len() == 7,
        "list"@ != "read"@,
        "list"@ != "copy"@,
        "read"@ != "copy"@,
{
    reveal_strlit("segment.load");
    reveal_strlit("protocol_metadata.load");
    reveal_strlit("snap.build");
    reveal_strlit("txn.commit");
    reveal_strlit("domain_metadata.load");
    reveal_strlit("set_transaction.load");
    reveal_strlit("crc.read");
    reveal_strlit("json.read");
    reveal_strlit("parquet.read");
    reveal_strlit("scan.metadata");
    reveal_strlit("storage");
    reveal_strlit("list");
    reveal_strlit("read");
    reveal_strlit("copy");
    assert("segment.load"@[0] == 's' && "parquet.read"@[0] == 'p');
    assert("snap.build"@[0] == 's' && "txn.commit"@[0] == 't');
    assert("domain_metadata.load"@[0] == 'd' && "set_transaction.load"@[0] == 's');
    assert("list"@[0] == 'l' && "read"@[0] == 'r' && "copy"@[0] == 'c');
}

/// Each span starts the event of its own name: not failed, with no time taken and nothing counted,
/// under the ID it was given. A span of another name starts none, nor does a storage span of an
/// unknown operation.
pub proof fn spans_start_their_own_events(
    name: Seq<char>,
    operation_id: MetricId,
    correlation_id: Option<String>,
    storage_name: Seq<char>,
    field: Seq<char>,
)
    ensures
        ({
            let event = span_event(name, operation_id, correlation_id, storage_name);
            &&& event is Some <==> (name == "segment.load"@ || name == "protocol_metadata.load"@
                || name == "snap.build"@ || name == "txn.commit"@ || name
                == "domain_metadata.load"@ || name == "set_transaction.load"@ || name
                == "crc.read"@ || name == "json.read"@ || name == "parquet.read"@ || name
                == "scan.metadata"@ || (name == "storage"@ && (storage_name == "list"@
                || storage_name == "read"@ || storage_name == "copy"@)))
            &&& event matches Some(e) ==> {
                &&& e.span() == name
                &&& !is_failure(e)
                &&& operation(e) matches Some(id) ==> id == operation_id
                &&& correlation(e) matches Some(id) ==> id == correlation_id
                &&& number_in(e, field) matches Some(n) ==> n == 0
                &&& duration_of(e) matches Some(ns) ==> ns == 0
                &&& from_crc(e) matches Some(flag) ==> !flag
                &&& name == "storage"@ ==> {
                    &&& storage_name == "list"@ ==> e is StorageListCompleted
                    &&& storage_name == "read"@ ==> e is StorageReadCompleted
                    &&& storage_name == "copy"@ ==> e is StorageCopyCompleted
                }
            }
        }),
{
    lemma_span_names();
}

/// Values are recorded one after the other, and one that cannot be recorded stops none of the
/// others: recording two lists is recording the first and then the second.
pub proof fn recording_goes_on(
    event: Option<MetricEvent>,
    first: Seq<(String, FieldValue)>,
    second: Seq<(String, FieldValue)>,
    n: nat,
)
    requires
        n <= second.len(),
    ensures
        ({
            let all = first + second;
            let (middle, warnings) = recorded(event, first, first.len());
            let (end, more) = recorded(middle, second, n);
            recorded(event, all, first.len() + n) == (end, warnings + more)
        }),
    decreases n,
{
    let all = first + second;
    if n == 0 {
        lemma_recorded_prefix(event, first, all, first.len());
        let (middle, warnings) = recorded(event, first, first.len());
        assert(warnings + seq![] =~= warnings);
    } else {
        recording_goes_on(event, first, second, (n - 1) as nat);
        let (middle, warnings) = recorded(event, first, first.len());
        let (before, more) = recorded(middle, second, (n - 1) as nat);
        assert(all[first.len() + n - 1] == second[n - 1]);
        if let Some(e) = before {
            let warning = invalid_field(second[n - 1].0@, e.span());
            assert((warnings + more).push(warning) =~= warnings + more.push(warning));
        }
    }
}

proof fn lemma_recorded_prefix(
    event: Option<MetricEvent>,
    first: Seq<(String, FieldValue)>,
    all: Seq<(String, FieldValue)>,
    n: nat,
)
    requires
        n <= first.len() <= all.len(),
        forall|i: int| 0 <= i < first.len() ==> first[i] == all[i],
    ensures
        recorded(event, first, n) == recorded(event, all, n),
    decreases n,
{
    if n > 0 {
        lemma_recorded_prefix(event, first, all, (n - 1) as nat);
    }
}

/// One value is recorded, or warned of by its name and span: never both, never neither. Without an
/// event there is nothing to record or to warn of.
pub proof fn one_value_is_recorded_or_warned_of(event: MetricEvent, value: (String, FieldValue))
    ensures
        ({
            let (after, warnings) = recorded(Some(event), seq![value], 1);
            &&& after is Some
            &&& after->0.span() == event.span()
            &&& warnings.len() > 0 ==> warnings[0] == "Invalid field '"@ + value.0@
                + "' recorded on "@ + event.span() + " span"@
            &&& match value.1 {
                FieldValue::Number(n) => if number_in(event, value.0@) is Some {
                    number_in(after->0, value.0@) == Some(n) && warnings.len() == 0
                } else {
                    after->0 == event && warnings.len() == 1
                },
                FieldValue::Flag(b) => if value.0@ == "from_crc"@ && from_crc(event) is Some {
                    from_crc(after->0) == Some(b) && warnings.len() == 0
                } else {
                    after->0 == event && warnings.len() == 1
                },
                FieldValue::Text(t) => if value.0@ == "correlation_id"@ && correlation(event)
                    is Some {
                    correlation(after->0) == Some(Some(t)) && warnings.len() == 0
                } else {
                    after->0 == event && warnings.len() == 1
                },
            }
        }),
        recorded(None, seq![value], 1) == (None::<MetricEvent>, Seq::<Seq<char>>::empty()),
{
    reveal_with_fuel(recorded, 2);
    lemma_field_names();
}

/// What a span is given when it starts is recorded as what it is given later.
pub proof fn attributes_are_recorded_like_values(
    event: Option<MetricEvent>,
    values: Seq<(String, FieldValue)>,
    n: nat,
)
    requires
        n <= values.len(),
    ensures
        with_attributes(event, values, n) == recorded(event, values, n).0,
    decreases n,
{
    if n > 0 {
        attributes_are_recorded_like_values(event, values, (n - 1) as nat);
    }
}

/// A log line with a field `error` reports the operation as failed, wherever among its fields that
/// stands.
pub proof fn errors_in_log_lines_are_failures(
    event: MetricEvent,
    fields: Seq<String>,
    n: nat,
    i: int,
)
    requires
        0 <= i < n <= fields.len(),
        fields[i]@ == "error"@,
    ensures
        after_log_line(Some(event), fields, n) == Some(event.failed()),
    decreases n,
{
    failures_stay_failures(event);
    if i == n - 1 {
        lemma_log_line(event, fields, (n - 1) as nat);
    } else {
        errors_in_log_lines_are_failures(event, fields, (n - 1) as nat, i);
    }
}

proof fn lemma_log_line(event: MetricEvent, fields: Seq<String>, n: nat)
    requires
        n <= fields.len(),
    ensures
        after_log_line(Some(event), fields, n) == Some(event) || after_log_line(
            Some(event),
            fields,
            n,
        ) == Some(event.failed()),
    decreases n,
{
    failures_stay_failures(event);
    if n > 0 {
        lemma_log_line(event, fields, (n - 1) as nat);
    }
}

/// A span that reports does so once: closing it gives its event, of its own kind, and closing it
/// again gives none. A span that does not report gives none and keeps what it has.
pub proof fn spans_report_once(
    before: SpanState,
    has_report_field: bool,
    after: SpanState,
    event: Option<MetricEvent>,
    end: SpanState,
    again: Option<MetricEvent>,
)
    requires
        before.closed(has_report_field, after, event),
        after.closed(has_report_field, end, again),
    ensures
        again is None,
        has_report_field ==> (event is Some <==> before.visitor.event is Some),
        has_report_field && event is Some ==> event->0.span() == before.visitor.event->0.span(),
        has_report_field && event is Some && before.started is None ==> event
            == before.visitor.event,
        !has_report_field ==> event is None && after == before,
        after.started == before.started,
        after.visitor.pending_warnings == before.visitor.pending_warnings,
{
}

/// What is reported of storage is one event more, with what was counted.
pub proof fn storage_is_reported_by_one_event(
    before: Seq<MetricEvent>,
    after: Seq<MetricEvent>,
    num_files: u64,
    bytes_read: u64,
)
    ensures
        listing_reported(before, after, num_files) ==> after.len() == before.len() + 1
            && before.is_prefix_of(after) && after.last() is StorageListCompleted && number_in(
            after.last(),
            "num_files"@,
        ) == Some(num_files),
        reads_reported(before, after, num_files, bytes_read) ==> after.len() == before.len() + 1
            && before.is_prefix_of(after) && after.last() is StorageReadCompleted && number_in(
            after.last(),
            "num_files"@,
        ) == Some(num_files) && number_in(after.last(), "bytes_read"@) == Some(bytes_read),
{
    lemma_field_names();
}

/// The event at the end of a scan, or of a phase of it, has the scan's counters, each under its own
/// name.
pub proof fn scan_events_carry_the_counters(
    metrics: ScanMetrics,
    operation_id: MetricId,
    is_catalog_managed: bool,
    correlation_id: Option<String>,
    scan_type: ScanType,
    duration_ns: u64,
)
    ensures
        ({
            let event = completed_event(
                metrics,
                operation_id,
                is_catalog_managed,
                correlation_id,
                scan_type,
                duration_ns,
            );
            &&& event.num_add_files_seen == metrics.num_add_files_seen
            &&& event.num_remove_files_seen == metrics.num_remove_files_seen
            &&& event.num_non_file_actions == metrics.num_non_file_actions
            &&& event.num_active_add_files == metrics.num_active_add_files
            &&& event.active_add_files_bytes == metrics.active_add_files_bytes
            &&& event.num_predicate_filtered == metrics.num_predicate_filtered
            &&& event.peak_hash_set_size == metrics.peak_hash_set_size
            &&& event.dedup_visitor_time_ns == metrics.dedup_visitor_time_ns
            &&& event.predicate_eval_time_ns == metrics.predicate_eval_time_ns
            &&& event.operation_id == operation_id
            &&& event.correlation_id == correlation_id
            &&& event.scan_type == scan_type
            &&& event.duration_ns == duration_ns
            &&& event.table_type == TableType::CatalogManaged <==> is_catalog_managed
        }),
{
}

/// The peak covers the files seen after every batch that succeeds, and only grows.
pub proof fn peaks_cover_the_files_seen<B>(
    metrics: ScanMetrics,
    seen: Set<KeyV>,
    r: DeltaResult<ScanMetadata<B>>,
)
    ensures
        ({
            let after = with_seen_count(metrics, seen, r);
            &&& after.peak_hash_set_size >= metrics.peak_hash_set_size
            &&& r is Ok ==> after.peak_hash_set_size >= seen.len() as u64
            &&& after.peak_hash_set_size == metrics.peak_hash_set_size || (r is Ok
                && after.peak_hash_set_size == seen.len() as u64)
            &&& after == (ScanMetrics { peak_hash_set_size: after.peak_hash_set_size, ..metrics })
        }),
{
}

/// The sum of a counter over workers.
pub open spec fn summed(workers: Seq<ScanMetrics>, counter: spec_fn(ScanMetrics) -> u64) -> int
    decreases workers.len(),
{
    if workers.len() == 0 {
        0
    } else {
        summed(workers.drop_last(), counter) + counter(workers.last())
    }
}

/// What workers counted adds up, counter by counter; of the sizes of the set of files seen the
/// largest stays.
pub proof fn workers_add_up(metrics: ScanMetrics, workers: Seq<ScanMetrics>)
    ensures
        ({
            let end = with_workers(metrics, workers, workers.len());
            &&& counts_up(
                metrics.num_add_files_seen,
                summed(workers, |m: ScanMetrics| m.num_add_files_seen),
                end.num_add_files_seen,
            )
            &&& counts_up(
                metrics.num_remove_files_seen,
                summed(workers, |m: ScanMetrics| m.num_remove_files_seen),
                end.num_remove_files_seen,
            )
            &&& counts_up(
                metrics.num_non_file_actions,
                summed(workers, |m: ScanMetrics| m.num_non_file_actions),
                end.num_non_file_actions,
            )
            &&& counts_up(
                metrics.num_active_add_files,
                summed(workers, |m: ScanMetrics| m.num_active_add_files),
                end.num_active_add_files,
            )
            &&& counts_up(
                metrics.active_add_files_bytes,
                summed(workers, |m: ScanMetrics| m.active_add_files_bytes),
                end.active_add_files_bytes,
            )
            &&& counts_up(
                metrics.num_predicate_filtered,
                summed(workers, |m: ScanMetrics| m.num_predicate_filtered),
                end.num_predicate_filtered,
            )
            &&& counts_up(
                metrics.dedup_visitor_time_ns,
                summed(workers, |m: ScanMetrics| m.dedup_visitor_time_ns),
                end.dedup_visitor_time_ns,
            )
            &&& counts_up(
                metrics.predicate_eval_time_ns,
                summed(workers, |m: ScanMetrics| m.predicate_eval_time_ns),
                end.predicate_eval_time_ns,
            )
            &&& end.peak_hash_set_size >= metrics.peak_hash_set_size
            &&& forall|i: int|
                0 <= i < workers.len() ==> end.peak_hash_set_size >= (
                #[trigger] workers[i]).peak_hash_set_size
            &&& end.peak_hash_set_size == metrics.peak_hash_set_size || exists|i: int|
                0 <= i < workers.len() && end.peak_hash_set_size == (
                #[trigger] workers[i]).peak_hash_set_size
        }),
    decreases workers.len(),
{
    if workers.len() == 0 {
        lemma_no_count(metrics.num_add_files_seen);
        lemma_no_count(metrics.num_remove_files_seen);
        lemma_no_count(metrics.num_non_file_actions);
        lemma_no_count(metrics.num_active_add_files);
        lemma_no_count(metrics.active_add_files_bytes);
        lemma_no_count(metrics.num_predicate_filtered);
        lemma_no_count(metrics.dedup_visitor_time_ns);
        lemma_no_count(metrics.predicate_eval_time_ns);
    } else {
        let fewer = workers.drop_last();
        let last = workers.last();
        workers_add_up(metrics, fewer);
        lemma_workers_prefix(metrics, workers, fewer, fewer.len());
        let middle = with_workers(metrics, fewer, fewer.len());
        assert(with_workers(metrics, workers, workers.len()) == middle.plus(last));
        lemma_worker(metrics, middle, fewer, last, |m: ScanMetrics| m.num_add_files_seen);
        lemma_worker(metrics, middle, fewer, last, |m: ScanMetrics| m.num_remove_files_seen);
        lemma_worker(metrics, middle, fewer, last, |m: ScanMetrics| m.num_non_file_actions);
        lemma_worker(metrics, middle, fewer, last, |m: ScanMetrics| m.num_active_add_files);
        lemma_worker(metrics, middle, fewer, last, |m: ScanMetrics| m.active_add_files_bytes);
        lemma_worker(metrics, middle, fewer, last, |m: ScanMetrics| m.num_predicate_filtered);
        lemma_worker(metrics, middle, fewer, last, |m: ScanMetrics| m.dedup_visitor_time_ns);
        lemma_worker(metrics, middle, fewer, last, |m: ScanMetrics| m.predicate_eval_time_ns);
        assert forall|i: int| 0 <= i < workers.len() implies middle.plus(last).peak_hash_set_size
            >= (#[trigger] workers[i]).peak_hash_set_size by {
            if i < fewer.len() {
                assert(fewer[i] == workers[i]);
            }
        }
        if middle.plus(last).peak_hash_set_size == last.peak_hash_set_size {
            assert(workers[workers.len() - 1] == last);
        } else if middle.peak_hash_set_size != metrics.peak_hash_set_size {
            let i = choose|i: int|
                0 <= i < fewer.len() && middle.peak_hash_set_size == (
                #[trigger] fewer[i]).peak_hash_set_size;
            assert(workers[i] == fewer[i]);
        }
    }
}

proof fn lemma_worker(
    metrics: ScanMetrics,
    middle: ScanMetrics,
    fewer: Seq<ScanMetrics>,
    last: ScanMetrics,
    counter: spec_fn(ScanMetrics) -> u64,
)
    requires
        counts_up(counter(metrics), summed(fewer, counter), counter(middle)),
    ensures
        counts_up(
            counter(metrics),
            summed(fewer, counter) + counter(last),
            bump(counter(middle), counter(last) as int),
        ),
{
    lemma_bump(counter(middle), counter(last) as int);
    lemma_counts_up(
        counter(metrics),
        summed(fewer, counter),
        counter(middle),
        counter(last) as int,
        bump(counter(middle), counter(last) as int),
    );
}

proof fn lemma_workers_prefix(
    metrics: ScanMetrics,
    workers: Seq<ScanMetrics>,
    fewer: Seq<ScanMetrics>,
    n: nat,
)
    requires
        n <= fewer.len() <= workers.len(),
        forall|i: int| 0 <= i < fewer.len() ==> fewer[i] == workers[i],
    ensures
        with_workers(metrics, workers, n) == with_workers(metrics, fewer, n),
    decreases n,
{
    if n > 0 {
        lemma_workers_prefix(metrics, workers, fewer, (n - 1) as nat);
    }
}

} // verus!
