use std::cell::RefCell;
use std::sync::Arc;
use std::vec::IntoIter;

use bytes::Bytes;
use delta_kernel::error::{DeltaResult, Error};
use delta_kernel::metrics::events::{
    report_all, MetricEvent, MetricId, MetricsReporter, StorageListCompleted,
};
use delta_kernel::metrics::metered_storage::{FileSlice, MeteredStorageHandler, StorageHandler};
use delta_kernel::metrics::reporter::{
    event_for_span, FieldValue, Level, LoggingMetricsReporter, ReportGeneratorLayer, SpanState,
};
use delta_kernel::parallel::parallel_scan_metadata::FileMeta;
use url::Url;

#[derive(Default)]
struct CapturingReporter {
    events: RefCell<Vec<MetricEvent>>,
}

impl MetricsReporter for CapturingReporter {
    fn report(&self, event: MetricEvent) {
        self.events.borrow_mut().push(event);
    }
}

// ---------------------------------------------------------------------------------------------
// Storage
// ---------------------------------------------------------------------------------------------

/// Storage handler that returns N preconfigured FileMeta / byte slices.
struct StubStorageHandler {
    list_results: Vec<DeltaResult<FileMeta>>,
    read_results: Vec<Bytes>,
    copies: bool,
}

fn copied(result: &DeltaResult<FileMeta>) -> DeltaResult<FileMeta> {
    match result {
        Ok(meta) => Ok(FileMeta {
            location: meta.location.clone(),
            last_modified: meta.last_modified,
            size: meta.size,
        }),
        Err(e) => Err(Error::generic(&e.message())),
    }
}

impl StorageHandler for StubStorageHandler {
    type Listing = IntoIter<DeltaResult<FileMeta>>;
    type Reads = IntoIter<DeltaResult<Vec<u8>>>;

    fn list_from(&self, _path: &String) -> DeltaResult<Self::Listing> {
        let results: Vec<_> = self.list_results.iter().map(copied).collect();
        Ok(results.into_iter())
    }

    fn read_files(&self, _files: Vec<FileSlice>) -> DeltaResult<Self::Reads> {
        let results: Vec<_> = self.read_results.iter().map(|b| Ok(b.to_vec())).collect();
        Ok(results.into_iter())
    }

    fn copy_atomic(&self, _src: &String, dest: &String) -> DeltaResult<()> {
        if self.copies {
            Ok(())
        } else {
            Err(Error::generic(dest))
        }
    }

    fn put(&self, _path: &String, _data: Vec<u8>, _overwrite: bool) -> DeltaResult<()> {
        Ok(())
    }

    fn head(&self, path: &String) -> DeltaResult<FileMeta> {
        Ok(FileMeta { location: path.clone(), last_modified: 3, size: 4 })
    }

    fn delete(&self, _path: &String) -> DeltaResult<()> {
        Ok(())
    }
}

fn stub(
    list_results: Vec<DeltaResult<FileMeta>>,
    read_results: Vec<Bytes>,
) -> MeteredStorageHandler<StubStorageHandler> {
    let inner = StubStorageHandler { list_results, read_results, copies: true };
    MeteredStorageHandler::new(inner)
}

fn fake_url() -> String {
    Url::parse("memory:///_delta_log/").unwrap().to_string()
}

fn fake_file_meta(name: &str) -> DeltaResult<FileMeta> {
    Ok(FileMeta { location: format!("memory:///_delta_log/{name}"), last_modified: 0, size: 0 })
}

#[test]
fn list_from_emits_storage_list_completed() {
    let storage = stub(
        vec![
            fake_file_meta("00000000000000000000.json"),
            fake_file_meta("00000000000000000001.json"),
        ],
        vec![],
    );
    let mut events = vec![];
    let mut iter = storage.list_from(&fake_url()).unwrap();
    while iter.next_file(&mut events).is_some() {}

    let listed = events
        .iter()
        .find(|e| matches!(e, MetricEvent::StorageListCompleted(_)))
        .expect("expected StorageListCompleted event");
    let MetricEvent::StorageListCompleted(e) = listed else {
        unreachable!();
    };
    assert_eq!(e.num_files, 2);
}

#[test]
fn read_files_emits_storage_read_completed() {
    let storage = stub(vec![], vec![Bytes::from(vec![0u8; 32]), Bytes::from(vec![0u8; 8])]);
    let mut events = vec![];
    let mut iter = storage.read_files(vec![]).unwrap();
    while iter.next_data(&mut events).is_some() {}

    let read = events
        .iter()
        .find(|e| matches!(e, MetricEvent::StorageReadCompleted(_)))
        .expect("expected StorageReadCompleted event");
    let MetricEvent::StorageReadCompleted(e) = read else {
        unreachable!();
    };
    assert_eq!(e.num_files, 2);
    assert_eq!(e.bytes_read, 40);
}

#[test]
fn copy_atomic_emits_storage_copy_completed() {
    let storage = stub(vec![], vec![]);
    let mut events = vec![];
    storage.copy_atomic(&fake_url(), &fake_url(), &mut events).unwrap();
    assert!(events.iter().any(|e| matches!(e, MetricEvent::StorageCopyCompleted(_))));
}

#[test]
fn failed_copies_are_reported_too() {
    let inner = StubStorageHandler { list_results: vec![], read_results: vec![], copies: false };
    let storage = MeteredStorageHandler::new(inner);
    let mut events = vec![];
    let error = storage.copy_atomic(&fake_url(), &"taken".to_string(), &mut events).unwrap_err();
    assert_eq!(error.message(), "taken");
    assert!(matches!(&events[..], [MetricEvent::StorageCopyCompleted(_)]));
}

#[test]
fn listing_errors_are_passed_on_and_not_counted() {
    let storage =
        stub(vec![fake_file_meta("a"), Err(Error::generic("lost")), fake_file_meta("b")], vec![]);
    let mut events = vec![];
    let mut iter = storage.list_from(&fake_url()).unwrap();
    assert!(matches!(iter.next_file(&mut events), Some(Ok(_))));
    assert!(matches!(iter.next_file(&mut events), Some(Err(_))));
    assert!(events.is_empty(), "reported at the end only");
    assert!(matches!(iter.next_file(&mut events), Some(Ok(_))));
    assert!(iter.next_file(&mut events).is_none());
    assert!(iter.next_file(&mut events).is_none());
    let [MetricEvent::StorageListCompleted(e)] = &events[..] else {
        panic!("expected one event");
    };
    assert_eq!(e.num_files, 2);
}

#[test]
fn nothing_is_lost_while_counting() {
    let names = ["a", "b", "c"];
    let storage = stub(names.iter().map(|n| fake_file_meta(n)).collect(), vec![]);
    let mut events = vec![];
    let mut iter = storage.list_from(&fake_url()).unwrap();
    for name in names {
        assert_eq!(iter.next_file(&mut events), Some(fake_file_meta(name)));
    }
    assert_eq!(iter.next_file(&mut events), None);
}

#[test]
fn events_are_reported_in_order() {
    let reporter = CapturingReporter::default();
    let listed = |num_files| {
        MetricEvent::StorageListCompleted(StorageListCompleted { num_files, duration_ns: 0 })
    };
    report_all(vec![listed(1), listed(2)], &reporter);
    assert_eq!(*reporter.events.borrow(), [listed(1), listed(2)]);
}

#[test]
fn other_operations_are_passed_through() {
    let storage = stub(vec![], vec![]);
    storage.put(&fake_url(), vec![1], true).unwrap();
    assert_eq!(storage.head(&fake_url()).unwrap().size, 4);
    storage.delete(&fake_url()).unwrap();
}

// ---------------------------------------------------------------------------------------------
// Spans
// ---------------------------------------------------------------------------------------------

const SNAPSHOT_COMPLETED_SPAN: &str = "snap.build";

fn id() -> MetricId {
    MetricId { id: "f47ac10b-58cc-4372-a567-0e02b2c3d479".to_string() }
}

fn span(name: &str) -> SpanState {
    SpanState::on_new_span(name, id(), None, "", vec![])
}

#[test]
fn log_event_field_inside_reporting_span_does_not_warn() {
    let mut span = span(SNAPSHOT_COMPLETED_SPAN);
    span.on_enter();
    span.on_event(&vec!["log_tail_len".to_string()]);
    assert!(
        span.on_record(vec![]).is_empty(),
        "a log line's fields must not be judged as metric writes"
    );
}

#[test]
fn recorded_unknown_field_still_warns() {
    let mut span = span(SNAPSHOT_COMPLETED_SPAN);
    let logs = span.on_record(vec![("bogus".to_string(), FieldValue::Number(7))]).join("\n");
    assert!(
        logs.contains("Invalid field 'bogus' recorded on snap.build span"),
        "an unrecognized field is a declared-field typo and must still warn; got: {logs}"
    );
    assert!(span.on_record(vec![]).is_empty());
}

#[test]
fn log_event_reusing_a_metric_field_name_does_not_overwrite_recorded_metric() {
    let reporter = Arc::new(CapturingReporter::default());
    let layer = ReportGeneratorLayer::new(reporter.clone());
    let mut span = span(SNAPSHOT_COMPLETED_SPAN);
    span.on_enter();
    assert!(span.on_record(vec![("version".to_string(), FieldValue::Number(7))]).is_empty());
    span.on_event(&vec!["version".to_string(), "message".to_string()]);
    layer.on_close(&mut span, true);
    let events = reporter.events.borrow();
    let Some(MetricEvent::SnapshotBuildSuccess(success)) =
        events.iter().find(|e| matches!(e, MetricEvent::SnapshotBuildSuccess(_)))
    else {
        panic!("expected a snapshot build success event; got: {events:?}");
    };
    assert_eq!(success.version, 7, "a log field must not overwrite a recorded metric");
    assert_eq!(success.operation_id, id());
}

#[test]
fn instrument_err_event_still_flips_to_failure() {
    let reporter = Arc::new(CapturingReporter::default());
    let layer = ReportGeneratorLayer::new(reporter.clone());
    let mut span = span(SNAPSHOT_COMPLETED_SPAN);
    span.on_enter();
    span.on_event(&vec!["error".to_string()]);
    layer.on_close(&mut span, true);
    assert!(
        reporter.events.borrow().iter().any(|e| matches!(e, MetricEvent::SnapshotBuildFailure(_))),
        "an error must flip the success event to its failure form"
    );
}

#[test]
fn instrument_ret_event_does_not_flip_to_failure() {
    let reporter = Arc::new(CapturingReporter::default());
    let layer = ReportGeneratorLayer::new(reporter.clone());
    let mut span = span(SNAPSHOT_COMPLETED_SPAN);
    span.on_enter();
    span.on_event(&vec!["return".to_string()]);
    layer.on_close(&mut span, true);
    let events = reporter.events.borrow();
    assert!(
        events.iter().any(|e| matches!(e, MetricEvent::SnapshotBuildSuccess(_))),
        "a `return` field must NOT flip success to failure; got: {events:?}"
    );
    assert!(
        !events.iter().any(|e| matches!(e, MetricEvent::SnapshotBuildFailure(_))),
        "a success must not emit a failure event; got: {events:?}"
    );
}

#[test]
fn spans_without_a_report_field_report_nothing() {
    let reporter = Arc::new(CapturingReporter::default());
    let layer = ReportGeneratorLayer::new(reporter.clone());
    let mut closed = span(SNAPSHOT_COMPLETED_SPAN);
    layer.on_close(&mut closed, false);
    assert!(reporter.events.borrow().is_empty());
    layer.on_close(&mut span("something else"), true);
    assert!(reporter.events.borrow().is_empty());
}

#[test]
fn spans_never_entered_have_no_duration() {
    let reporter = Arc::new(CapturingReporter::default());
    let layer = ReportGeneratorLayer::new(reporter.clone());
    layer.on_close(&mut span(SNAPSHOT_COMPLETED_SPAN), true);
    let events = reporter.events.borrow();
    let [MetricEvent::SnapshotBuildSuccess(success)] = &events[..] else {
        panic!("expected one event");
    };
    assert_eq!(success.duration_ns, 0);
}

#[test]
fn later_entries_keep_the_first_start() {
    let mut span = span(SNAPSHOT_COMPLETED_SPAN);
    span.on_enter();
    let first = span.started;
    assert!(first.is_some());
    span.on_enter();
    assert_eq!(span.started, first);
}

#[test]
fn attributes_are_recorded() {
    let attributes = vec![
        ("num_files".to_string(), FieldValue::Number(3)),
        ("unknown".to_string(), FieldValue::Flag(true)),
        ("bytes_read".to_string(), FieldValue::Number(9)),
    ];
    let span = SpanState::on_new_span("storage", id(), None, "read", attributes);
    let Some(MetricEvent::StorageReadCompleted(e)) = &span.visitor.event else {
        panic!("expected a read");
    };
    assert_eq!((e.num_files, e.bytes_read), (3, 9));
    assert!(span.visitor.pending_warnings.is_empty());
}

#[test]
fn span_names_tell_events_apart() {
    for name in [
        "segment.load",
        "protocol_metadata.load",
        "snap.build",
        "txn.commit",
        "domain_metadata.load",
        "set_transaction.load",
        "crc.read",
        "json.read",
        "parquet.read",
        "scan.metadata",
    ] {
        let event = event_for_span(name, id(), None, "").unwrap();
        assert_eq!(event.span_name(), name);
        let failure = event.into_failure();
        assert_eq!(failure.span_name(), name);
        let again = event_for_span(name, id(), None, "").unwrap().into_failure().into_failure();
        assert_eq!(again, failure);
    }
    for storage_name in ["list", "read", "copy"] {
        assert_eq!(event_for_span("storage", id(), None, storage_name).unwrap().span_name(), "storage");
    }
    assert!(event_for_span("storage", id(), None, "move").is_none());
    assert!(event_for_span("other", id(), None, "list").is_none());
}

#[test]
fn logging_keeps_its_level() {
    assert_eq!(LoggingMetricsReporter::new(Level::Debug).level, Level::Debug);
}
