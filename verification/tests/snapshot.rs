use std::cell::RefCell;
use std::collections::{BTreeMap, BTreeSet};
use std::sync::Arc;

use delta_kernel::error::{DeltaResult, Error};
use delta_kernel::log_segment::{LogPathFileType, LogSegment, LogSegmentFiles, ParsedLogPath};
use delta_kernel::metrics::events::{
    LogSegmentLoadSuccess, LogSegmentLoadType, MetricEvent, MetricId,
    ProtocolMetadataLoadSuccess, ProtocolMetadataSource, SnapshotLoadMetricContext,
};
use delta_kernel::schema::{ColumnMappingMode, StructType};
use delta_kernel::snapshot::incremental::{emit_protocol_metadata_load, NewSegment};
use delta_kernel::snapshot::state::{
    Crc, IncrementalReplay, Metadata, Protocol, Snapshot, SnapshotLoader, TableConfiguration,
};

// ---------------------------------------------------------------------------------------------
// A log in memory
// ---------------------------------------------------------------------------------------------

const TABLE_ROOT: &str = "memory:///";
const LOG_ROOT: &str = "memory:///_delta_log/";

#[derive(Clone, Default)]
struct Commit {
    protocol: Option<Protocol>,
    metadata: Option<Metadata>,
    corrupt: bool,
}

#[derive(Default)]
struct Log {
    commits: BTreeMap<u64, Commit>,
    checkpoints: BTreeSet<u64>,
    crcs: BTreeMap<u64, Arc<Crc>>,
    compactions: BTreeSet<(u64, u64)>,
    events: RefCell<Vec<MetricEvent>>,
    /// What the loader reports on its own account.
    loader_events: RefCell<Vec<MetricEvent>>,
}

fn protocol(min_reader_version: i32, min_writer_version: i32) -> Protocol {
    Protocol {
        min_reader_version,
        min_writer_version,
        reader_features: vec![],
        writer_features: vec![],
    }
}

fn metadata(configuration: &[(&str, &str)]) -> Metadata {
    Metadata {
        id: "test-id".to_string(),
        schema_string: r#"{"type":"struct","fields":[]}"#.to_string(),
        partition_columns: vec![],
        configuration_keys: configuration.iter().map(|(k, _)| k.to_string()).collect(),
        configuration_values: configuration.iter().map(|(_, v)| v.to_string()).collect(),
        created_time: Some(1587968585495),
    }
}

fn pm_commit(protocol: Option<Protocol>, metadata: Option<Metadata>) -> Commit {
    Commit { protocol, metadata, corrupt: false }
}

fn path(version: u64, suffix: &str, file_type: LogPathFileType) -> ParsedLogPath {
    ParsedLogPath { location: format!("{LOG_ROOT}{version:020}.{suffix}"), version, file_type }
}

fn commit_path(version: u64) -> ParsedLogPath {
    path(version, "json", LogPathFileType::Commit)
}

fn context(load_type: LogSegmentLoadType) -> SnapshotLoadMetricContext {
    SnapshotLoadMetricContext {
        operation_id: MetricId { id: "op".to_string() },
        correlation_id: Some("req-abc".to_string()),
        load_type,
    }
}

impl Log {
    /// Commits 0..num_commits, of which the first has protocol and metadata.
    fn with_commits(num_commits: u64) -> Log {
        let mut log = Log::default();
        log.commits.insert(0, pm_commit(Some(protocol(1, 2)), Some(metadata(&[]))));
        for v in 1..num_commits {
            log.commits.insert(v, Commit::default());
        }
        log
    }

    fn put_crc(&mut self, version: u64, protocol: Protocol, metadata: Metadata) {
        let crc = Crc { version, metadata, protocol, table_size_bytes: 300, num_files: 3 };
        self.crcs.insert(version, Arc::new(crc));
    }

    fn put_test_crc(&mut self, version: u64) {
        self.put_crc(version, protocol(1, 2), metadata(&[]));
    }

    fn list(&self, start: u64, end: u64) -> LogSegmentFiles {
        let checkpoint = self.checkpoints.range(start..=end).next_back().copied();
        let first = checkpoint.map_or(start, |c| c + 1);
        let in_range = |v: &u64| *v <= end;
        let published = self.commits.keys().filter(|v| **v >= start && in_range(v)).max();
        LogSegmentFiles {
            ascending_commit_files: self
                .commits
                .keys()
                .filter(|v| **v >= first && in_range(v))
                .map(|v| commit_path(*v))
                .collect(),
            ascending_compaction_files: self
                .compactions
                .iter()
                .filter(|(lo, hi)| *lo >= first && in_range(hi))
                .map(|(lo, hi)| {
                    let file_type = LogPathFileType::CompactedCommit { hi: *hi };
                    path(*lo, &format!("{hi:020}.compacted.json"), file_type)
                })
                .collect(),
            checkpoint_parts: checkpoint
                .iter()
                .map(|c| path(*c, "checkpoint.parquet", LogPathFileType::SinglePartCheckpoint))
                .collect(),
            latest_crc_file: self
                .crcs
                .keys()
                .filter(|v| **v >= checkpoint.unwrap_or(start) && in_range(v))
                .max()
                .map(|v| path(*v, "crc", LogPathFileType::Crc)),
            latest_commit_file: published.map(|v| commit_path(*v)),
            max_published_version: published.copied(),
        }
    }

    fn replay(&self, versions: &[u64]) -> DeltaResult<(Option<Metadata>, Option<Protocol>)> {
        let (mut m, mut p) = (None, None);
        for v in versions.iter().rev() {
            let commit = &self.commits[v];
            if commit.corrupt {
                return Err(Error::MalformedJson("{ not json".to_string()));
            }
            m = m.or(commit.metadata.clone());
            p = p.or(commit.protocol.clone());
        }
        Ok((m, p))
    }

    /// Builds a snapshot from nothing.
    fn build(&self, at: Option<u64>, mode: IncrementalReplay) -> DeltaResult<Arc<Snapshot>> {
        let listed = self.list(0, at.unwrap_or(u64::MAX));
        let segment = LogSegment::try_new(listed, LOG_ROOT.to_string(), at, None)?;
        let snapshot = self.load_from_log_segment(
            &TABLE_ROOT.to_string(),
            segment,
            context(LogSegmentLoadType::Full),
            mode,
            at.is_none(),
        )?;
        Ok(Arc::new(snapshot))
    }

    fn fresh(&self, at: Option<u64>) -> Arc<Snapshot> {
        self.build(at, IncrementalReplay::Disabled).unwrap()
    }

    fn update(
        &self,
        base: &Arc<Snapshot>,
        at: Option<u64>,
        mode: IncrementalReplay,
    ) -> DeltaResult<Arc<Snapshot>> {
        Snapshot::try_new_from(
            base.clone(),
            vec![],
            self,
            &mut self.events.borrow_mut(),
            at,
            context(LogSegmentLoadType::Incremental),
            mode,
            at.is_none(),
        )
    }

    fn updated(&self, base: &Arc<Snapshot>, at: Option<u64>) -> Arc<Snapshot> {
        self.update(base, at, IncrementalReplay::Disabled).unwrap()
    }

    fn forget_events(&self) {
        self.events.borrow_mut().clear();
        self.loader_events.borrow_mut().clear();
    }
}

impl SnapshotLoader for Log {
    fn list_log_files(
        &self,
        log_root: &String,
        log_tail: Vec<ParsedLogPath>,
        start_version: Option<u64>,
        end_version: Option<u64>,
    ) -> DeltaResult<LogSegmentFiles> {
        assert_eq!(log_root, LOG_ROOT);
        let mut listed = self.list(start_version.unwrap_or(0), end_version.unwrap_or(u64::MAX));
        if let Some(first) = log_tail.first() {
            listed.ascending_commit_files.retain(|f| f.version < first.version);
            listed.latest_commit_file = log_tail.last().cloned();
            listed.ascending_commit_files.extend(log_tail);
        }
        Ok(listed)
    }

    fn load_from_log_segment(
        &self,
        table_root: &String,
        log_segment: LogSegment,
        metric_context: SnapshotLoadMetricContext,
        incremental_replay: IncrementalReplay,
        built_as_latest: bool,
    ) -> DeltaResult<Snapshot> {
        let end = log_segment.end_version;
        let all: Vec<u64> = (0..=end).collect();
        let (m, p) = self.replay(&all)?;
        let base = self.pick_latest_base_crc(&log_segment, &None);
        let advanced = self.try_build_crc_within_budget(&log_segment, &base, incremental_replay)?;
        let source = match (&advanced, &base) {
            (Some((_, source)), _) => *source,
            (None, Some(_)) => ProtocolMetadataSource::CrcSeededPmOnlyReplay,
            (None, None) => ProtocolMetadataSource::FullReplay,
        };
        let reported = &mut self.loader_events.borrow_mut();
        emit_protocol_metadata_load(reported, &metric_context, source, 1);
        let table_configuration = TableConfiguration {
            metadata: m.unwrap(),
            protocol: p.unwrap(),
            logical_schema: Arc::new(StructType::new(vec![])),
            column_mapping_mode: ColumnMappingMode::Unmapped,
            is_catalog_managed: false,
            table_root: table_root.clone(),
            version: end,
        };
        let crc = advanced.map(|(crc, _)| crc).or(base);
        Ok(Snapshot::new_with_crc(log_segment, table_configuration, crc, built_as_latest))
    }

    fn pick_latest_base_crc(
        &self,
        log_segment: &LogSegment,
        in_memory: &Option<Arc<Crc>>,
    ) -> Option<Arc<Crc>> {
        let on_disk = log_segment.listed.latest_crc_file.as_ref().map(|f| &self.crcs[&f.version]);
        [on_disk, in_memory.as_ref()].into_iter().flatten().max_by_key(|c| c.version).cloned()
    }

    fn try_build_crc_within_budget(
        &self,
        log_segment: &LogSegment,
        base_crc: &Option<Arc<Crc>>,
        incremental_replay: IncrementalReplay,
    ) -> DeltaResult<Option<(Arc<Crc>, ProtocolMetadataSource)>> {
        let Some(base) = base_crc else {
            return Ok(None);
        };
        let distance = log_segment.end_version - base.version;
        let allowed = match incremental_replay {
            IncrementalReplay::Disabled => 0,
            IncrementalReplay::UpToCommits(n) => n,
            IncrementalReplay::Unlimited => u64::MAX,
        };
        if distance == 0 {
            return Ok(Some((base.clone(), ProtocolMetadataSource::CrcAtTarget)));
        }
        if distance > allowed {
            return Ok(None);
        }
        let newer: Vec<u64> = (base.version + 1..=log_segment.end_version).collect();
        let (m, p) = self.replay(&newer)?;
        let crc = Crc {
            version: log_segment.end_version,
            metadata: m.unwrap_or(base.metadata.clone()),
            protocol: p.unwrap_or(base.protocol.clone()),
            table_size_bytes: 0,
            num_files: 0,
        };
        Ok(Some((Arc::new(crc), ProtocolMetadataSource::CrcAdvancedByReplay)))
    }

    fn read_protocol_metadata(
        &self,
        log_segment: &LogSegment,
        base_crc: &Option<Arc<Crc>>,
    ) -> DeltaResult<(Option<Metadata>, Option<Protocol>, ProtocolMetadataSource)> {
        let listed = &log_segment.listed;
        let versions: Vec<u64> = listed.ascending_commit_files.iter().map(|f| f.version).collect();
        assert!(listed.checkpoint_parts.is_empty());
        let (m, p) = self.replay(&versions)?;
        Ok(match base_crc {
            Some(crc) => (
                Some(m.unwrap_or(crc.metadata.clone())),
                Some(p.unwrap_or(crc.protocol.clone())),
                ProtocolMetadataSource::CrcSeededPmOnlyReplay,
            ),
            None => (m, p, ProtocolMetadataSource::FullReplay),
        })
    }

    fn table_configuration_from(
        &self,
        existing: &TableConfiguration,
        new_metadata: Option<Metadata>,
        new_protocol: Option<Protocol>,
        new_version: u64,
    ) -> DeltaResult<TableConfiguration> {
        Ok(TableConfiguration {
            metadata: new_metadata.unwrap_or(existing.metadata.clone()),
            protocol: new_protocol.unwrap_or(existing.protocol.clone()),
            version: new_version,
            ..existing.clone()
        })
    }
}

/// Compares two snapshots field by field, but for the checkpoint hint, which is only populated on
/// the from-scratch path, and for whether they were built as latest.
fn compare_snapshots(left: &Snapshot, right: &Snapshot) {
    assert_eq!(left.table_configuration, right.table_configuration);
    assert_eq!(left.log_segment.end_version, right.log_segment.end_version);
    assert_eq!(left.log_segment.checkpoint_version, right.log_segment.checkpoint_version);
    assert_eq!(left.log_segment.log_root, right.log_segment.log_root);
    assert_eq!(left.log_segment.listed, right.log_segment.listed);
}

fn crc_at_version(snapshot: &Snapshot) -> Option<u64> {
    let crc = snapshot.base_crc.as_ref()?;
    (crc.version == snapshot.version()).then_some(crc.version)
}

fn latest_crc_file(snapshot: &Snapshot) -> Option<u64> {
    snapshot.log_segment.listed.latest_crc_file.as_ref().map(|f| f.version)
}

// ---------------------------------------------------------------------------------------------
// Requested versions
// ---------------------------------------------------------------------------------------------

#[test]
fn test_try_new_from_empty_log_tail() {
    let log = Log::with_commits(1);
    let base_snapshot = log.fresh(Some(0));
    assert!(!base_snapshot.is_built_as_latest());
    let result = Snapshot::try_new_from(
        base_snapshot.clone(),
        vec![],
        &log,
        &mut vec![],
        None,
        context(LogSegmentLoadType::Incremental),
        IncrementalReplay::Disabled,
        true, /* built_as_latest */
    )
    .unwrap();
    // The same snapshot, but for the flag.
    assert_eq!(result.log_segment, base_snapshot.log_segment);
    assert_eq!(result.table_configuration, base_snapshot.table_configuration);
    assert_eq!(result.base_crc, base_snapshot.base_crc);
    assert!(result.is_built_as_latest());
}

#[test]
fn test_try_new_from_latest_commit_preservation() {
    let log = Log::with_commits(3);
    let base_snapshot = log.fresh(Some(1));
    let latest = |s: &Snapshot| s.log_segment.listed.latest_commit_file.as_ref().map(|f| f.version);
    assert_eq!(latest(&base_snapshot), Some(1));
    let new_snapshot = Snapshot::try_new_from(
        base_snapshot,
        vec![commit_path(2)],
        &log,
        &mut vec![],
        Some(2),
        context(LogSegmentLoadType::Incremental),
        IncrementalReplay::Disabled,
        false, /* built_as_latest */
    )
    .unwrap();
    assert_eq!(latest(&new_snapshot), Some(2));
}

#[test]
fn test_try_new_from_version_boundary_cases() {
    let log = Log::with_commits(2);
    let base_snapshot = log.fresh(Some(1));

    // Test requesting same version - should return same snapshot
    let same_version = log.updated(&base_snapshot, Some(1));
    assert!(Arc::ptr_eq(&same_version, &base_snapshot));

    // Test requesting older version - should error
    let older_version = log.update(&base_snapshot, Some(0), IncrementalReplay::Disabled);
    assert!(matches!(
        older_version,
        Err(Error::Generic(msg)) if msg.contains("older than snapshot hint version")
    ));
}

#[test]
fn test_snapshot_new_from() {
    let log = Log::with_commits(2);
    let old_snapshot = log.fresh(Some(1));
    // 1. new version < existing version: error
    assert!(matches!(
        log.update(&old_snapshot, Some(0), IncrementalReplay::Disabled),
        Err(Error::Generic(msg)) if msg == "Requested snapshot version 0 is older than snapshot hint version 1"
    ));
    // 2. new version == existing version
    assert_eq!(log.updated(&old_snapshot, Some(1)), old_snapshot);

    // 3. new version > existing version
    fn test_new_from(log: &Log) {
        let base_snapshot = log.fresh(Some(0));
        let snapshot = log.updated(&base_snapshot, Some(1));
        assert_eq!(snapshot, log.fresh(Some(1)));
    }
    // a. no new log segment
    let log = Log::with_commits(1);
    let base_snapshot = log.fresh(Some(0));
    compare_snapshots(&log.updated(&base_snapshot, None), &base_snapshot);
    // version exceeds latest version of the table = err
    assert!(matches!(
        log.update(&base_snapshot, Some(1), IncrementalReplay::Disabled),
        Err(Error::Generic(msg)) if msg == "Requested snapshot version 1 is not available: no new commits were found after existing snapshot version 0"
    ));
    // b. log segment for old..=new version has a checkpoint (with new protocol/metadata)
    let with = |protocol: Option<Protocol>, metadata: Option<Metadata>| {
        let mut log = Log::with_commits(1);
        log.commits.insert(1, pm_commit(protocol, metadata));
        log
    };
    let new_metadata = metadata(&[("some", "thing")]);
    let mut log = with(Some(protocol(2, 5)), Some(new_metadata.clone()));
    log.checkpoints.insert(1);
    test_new_from(&log);
    // c. log segment for old..=new version has no checkpoint
    // i. commits have (new protocol, new metadata)
    let log = with(Some(protocol(2, 5)), Some(new_metadata.clone()));
    test_new_from(&log);
    // new commits AND request version > end of log
    assert!(matches!(
        log.update(&log.fresh(Some(0)), Some(2), IncrementalReplay::Disabled),
        Err(Error::Generic(msg)) if msg == "LogSegment end version 1 not the same as the specified end version 2"
    ));
    // ii. commits have (new protocol, no metadata)
    test_new_from(&with(Some(protocol(2, 5)), None));
    // iii. commits have (no protocol, new metadata)
    test_new_from(&with(None, Some(new_metadata)));
    // iv. commits have (no protocol, no metadata)
    test_new_from(&with(None, None));
}

// ---------------------------------------------------------------------------------------------
// Checkpoints
// ---------------------------------------------------------------------------------------------

#[test]
fn test_incremental_snapshot_picks_up_checkpoint_written_at_current_version() {
    let mut log = Log::with_commits(2);
    let snapshot_v1 = log.fresh(Some(1));
    assert_eq!(snapshot_v1.log_segment.checkpoint_version, None);
    log.checkpoints.insert(1);
    let fresh = log.fresh(None);
    assert_eq!(fresh.version(), 1);
    assert_eq!(fresh.log_segment.checkpoint_version, Some(1));
    let updated = log.updated(&snapshot_v1, None);
    assert_eq!(updated.version(), 1);
    assert_eq!(updated.log_segment.checkpoint_version, Some(1));
    compare_snapshots(&updated, &fresh);
}

#[test]
fn test_incremental_snapshot_picks_up_newer_checkpoint_below_current_version() {
    let mut log = Log::with_commits(4);
    log.checkpoints.insert(1);
    let snapshot_v3 = log.fresh(Some(3));
    assert_eq!(snapshot_v3.log_segment.checkpoint_version, Some(1));
    log.checkpoints.insert(2);
    let fresh = log.fresh(None);
    assert_eq!(fresh.version(), 3);
    assert_eq!(fresh.log_segment.checkpoint_version, Some(2));
    let updated = log.updated(&snapshot_v3, None);
    assert_eq!(updated.version(), 3);
    assert_eq!(updated.log_segment.checkpoint_version, Some(2));
    compare_snapshots(&updated, &fresh);
}

#[test]
fn test_explicit_same_version_request_keeps_existing_snapshot_after_checkpoint_write() {
    let mut log = Log::with_commits(2);
    let snapshot_v1 = log.fresh(Some(1));
    assert_eq!(snapshot_v1.log_segment.checkpoint_version, None);
    log.checkpoints.insert(1);
    assert_eq!(log.fresh(None).log_segment.checkpoint_version, Some(1));
    let pinned = log.updated(&snapshot_v1, Some(1));
    assert!(Arc::ptr_eq(&pinned, &snapshot_v1));
    assert_eq!(pinned.log_segment.checkpoint_version, None);
}

#[test]
fn test_checkpoint_at_or_below_snapshot_version_preserves_pm_from_commits_in_between() {
    let mut log = Log::with_commits(4);
    log.commits.insert(2, pm_commit(Some(protocol(2, 5)), None));
    log.checkpoints.insert(0);
    let snapshot_v3 = log.fresh(Some(3));
    assert_eq!(snapshot_v3.log_segment.checkpoint_version, Some(0));
    assert_eq!(snapshot_v3.table_configuration.protocol, protocol(2, 5));
    log.checkpoints.insert(1);
    log.commits.insert(4, Commit::default());
    let updated = log.updated(&snapshot_v3, None);
    assert_eq!(updated.version(), 4);
    assert_eq!(updated.log_segment.checkpoint_version, Some(1));
    assert_eq!(updated.table_configuration.protocol, protocol(2, 5));
    compare_snapshots(&updated, &log.fresh(None));
}

// ---------------------------------------------------------------------------------------------
// CRC files
// ---------------------------------------------------------------------------------------------

#[test]
fn test_incremental_snapshot_crc_resolution_when_checkpoint_at_or_below_snapshot() {
    for (existing_crc_v, new_ckpt_v, newly_listed_crc_v, expected_crc_file_v) in [
        (2, 1, None, Some(2)),
        (2, 1, Some(3), Some(3)),
        (2, 2, None, Some(2)),
        (1, 2, None, None),
    ] {
        let mut log = Log::with_commits(4);
        log.put_test_crc(existing_crc_v);
        let snapshot_v3 = log.build(Some(3), IncrementalReplay::Unlimited).unwrap();
        assert_eq!(crc_at_version(&snapshot_v3), Some(3));
        assert_eq!(latest_crc_file(&snapshot_v3), Some(existing_crc_v));

        log.checkpoints.insert(new_ckpt_v);
        if let Some(v) = newly_listed_crc_v {
            log.put_test_crc(v);
        }
        let updated = log.updated(&snapshot_v3, None);
        compare_snapshots(&updated, &log.fresh(None));
        assert_eq!(updated.version(), 3);
        assert_eq!(updated.log_segment.checkpoint_version, Some(new_ckpt_v));
        assert_eq!(latest_crc_file(&updated), expected_crc_file_v);
        assert_eq!(crc_at_version(&updated), Some(3));
    }
}

#[test]
fn test_incremental_update_advances_in_memory_crc_within_budget() {
    for (mode, expected_crc_v) in [
        (IncrementalReplay::Disabled, None),
        (IncrementalReplay::Unlimited, Some(5)),
        (IncrementalReplay::UpToCommits(2), Some(5)),
        (IncrementalReplay::UpToCommits(5), Some(5)),
        (IncrementalReplay::UpToCommits(1), None),
    ] {
        let mut log = Log::with_commits(6);
        log.put_test_crc(1);
        let snapshot_a = log.build(Some(3), IncrementalReplay::Unlimited).unwrap();
        assert_eq!(crc_at_version(&snapshot_a), Some(3));
        let updated = log.update(&snapshot_a, None, mode).unwrap();
        assert_eq!(updated.version(), 5);
        assert_eq!(crc_at_version(&updated), expected_crc_v);
        assert_eq!(latest_crc_file(&updated), Some(1));
    }
}

fn log_with_metadata_change() -> Log {
    let mut log = Log::with_commits(4);
    log.commits.insert(2, pm_commit(None, Some(metadata(&[("delta.myKey", "myValue")]))));
    log.put_test_crc(1);
    log
}

fn check_metadata_change_survives(new_checkpoint: u64) {
    let mut log = log_with_metadata_change();
    let snapshot_v3 = log.fresh(Some(3));
    let changed = metadata(&[("delta.myKey", "myValue")]);
    assert_eq!(snapshot_v3.table_configuration.metadata, changed);
    log.checkpoints.insert(new_checkpoint);
    let updated = log.updated(&snapshot_v3, None);
    compare_snapshots(&updated, &log.fresh(None));
    assert_eq!(updated.table_configuration.metadata, changed);
}

#[test]
fn test_incremental_snapshot_drops_stale_crc_preserves_correct_metadata() {
    check_metadata_change_survives(2);
}

#[test]
fn test_incremental_snapshot_preserves_metadata_when_below_checkpoint_crc_is_stale() {
    check_metadata_change_survives(1);
}

#[test]
fn test_incremental_snapshot_multi_hop_replay_then_rebuild_drops_stale_crc() {
    let mut log = Log::with_commits(11);
    log.put_test_crc(5);
    let snapshot_v0 = log.fresh(Some(0));
    assert!(crc_at_version(&snapshot_v0).is_none());
    let snapshot_v5 = log.updated(&snapshot_v0, Some(5));
    assert_eq!(snapshot_v5.log_segment.checkpoint_version, None);
    assert_eq!(crc_at_version(&snapshot_v5), Some(5));
    log.checkpoints.insert(7);
    let snapshot_v10 = log.updated(&snapshot_v5, None);
    compare_snapshots(&snapshot_v10, &log.fresh(None));
    assert_eq!(snapshot_v10.version(), 10);
    assert_eq!(snapshot_v10.log_segment.checkpoint_version, Some(7));
    assert!(crc_at_version(&snapshot_v10).is_none());
}

#[test]
fn test_snapshot_new_from_crc() {
    let mut log = Log::default();
    log.commits.insert(0, pm_commit(Some(protocol(1, 1)), Some(metadata(&[]))));
    log.commits.insert(1, pm_commit(Some(protocol(1, 2)), None));
    log.put_crc(0, protocol(1, 1), metadata(&[]));
    let base_snapshot = log.fresh(Some(0));
    // a) only 0.crc exists -- falls back to old segment's 0.crc
    let snapshot = log.updated(&base_snapshot, Some(1));
    assert_eq!(latest_crc_file(&snapshot), Some(0));
    // b) both 0.crc and 1.crc exist; picks up 1.crc
    log.put_crc(1, protocol(1, 2), metadata(&[]));
    let snapshot = log.updated(&base_snapshot, Some(1));
    assert_eq!(snapshot, log.fresh(Some(1)));
    assert_eq!(latest_crc_file(&snapshot), Some(1));
}

// ---------------------------------------------------------------------------------------------
// Compactions
// ---------------------------------------------------------------------------------------------

fn compactions(snapshot: &Snapshot) -> Vec<(u64, u64)> {
    let files = &snapshot.log_segment.listed.ascending_compaction_files;
    let hi = |p: &ParsedLogPath| match p.file_type {
        LogPathFileType::CompactedCommit { hi } => hi,
        _ => panic!("Expected CompactedCommit"),
    };
    files.iter().map(|p| (p.version, hi(p))).collect()
}

#[test]
fn test_incremental_snapshot_with_compaction_files() {
    let mut log = Log::with_commits(3);
    log.compactions.insert((1, 1));
    log.compactions.insert((1, 2));
    let snapshot_v2 = log.fresh(Some(2));
    assert_eq!(compactions(&snapshot_v2).len(), 2);
    log.commits.insert(3, Commit::default());
    let snapshot_v3 = log.updated(&snapshot_v2, Some(3));
    assert_eq!(snapshot_v3.version(), 3);
    assert_eq!(compactions(&snapshot_v3).len(), 2);
}

#[test]
fn test_incremental_snapshot_with_new_compaction_files() {
    let mut log = Log::with_commits(4);
    log.compactions.insert((1, 2));
    log.compactions.insert((2, 2));
    let snapshot_v2 = log.fresh(Some(2));
    assert_eq!(compactions(&snapshot_v2).len(), 2);
    log.compactions.insert((1, 3));
    let snapshot_v3 = log.updated(&snapshot_v2, Some(3));
    assert_eq!(snapshot_v3.version(), 3);
    assert_eq!(compactions(&snapshot_v3), vec![(1, 2), (2, 2)]);
}

// ---------------------------------------------------------------------------------------------
// Events
// ---------------------------------------------------------------------------------------------

fn check_protocol_metadata_load(log: &Log, expect: impl Fn(&ProtocolMetadataLoadSuccess)) {
    let (events, loader_events) = (log.events.borrow(), log.loader_events.borrow());
    let mut found = events.iter().chain(loader_events.iter()).filter_map(|e| match e {
        MetricEvent::ProtocolMetadataLoadSuccess(s) => Some(s),
        _ => None,
    });
    expect(found.next().expect("expected an event of this type"));
    assert!(found.next().is_none(), "expected exactly one matching event");
}

fn check_log_segment_load(log: &Log, expect: impl Fn(&LogSegmentLoadSuccess)) {
    let events = log.events.borrow();
    let mut found = events.iter().filter_map(|e| match e {
        MetricEvent::LogSegmentLoadSuccess(s) => Some(s),
        _ => None,
    });
    expect(found.next().expect("expected an event of this type"));
    assert!(found.next().is_none(), "expected exactly one matching event");
}

#[test]
fn test_incremental_build_classifies_protocol_metadata_source() {
    for (planted_crc_version, mode, expected_source) in [
        (None, IncrementalReplay::Disabled, ProtocolMetadataSource::FullReplay),
        (Some(5), IncrementalReplay::Disabled, ProtocolMetadataSource::CrcAtTarget),
        (Some(1), IncrementalReplay::Unlimited, ProtocolMetadataSource::CrcAdvancedByReplay),
        (Some(4), IncrementalReplay::Disabled, ProtocolMetadataSource::CrcSeededPmOnlyReplay),
    ] {
        let mut log = Log::with_commits(6);
        let base = log.fresh(Some(3));
        if let Some(v) = planted_crc_version {
            log.put_test_crc(v);
        }
        log.forget_events();
        let updated = log.update(&base, Some(5), mode).unwrap();
        assert_eq!(updated.version(), 5);
        check_protocol_metadata_load(&log, |pm| {
            assert_eq!(pm.source, expected_source);
            assert_eq!(pm.load_type, LogSegmentLoadType::Incremental);
        });
        check_log_segment_load(&log, |seg| {
            assert_eq!(seg.load_type, LogSegmentLoadType::Incremental);
            assert_eq!(seg.num_commit_files, 6);
            assert_eq!(seg.num_checkpoint_files, 0);
            assert_eq!(seg.num_compaction_files, 0);
            assert_eq!(seg.crc_versions_behind, planted_crc_version.map(|v| 5 - v));
            assert_eq!(seg.correlation_id.as_deref(), Some("req-abc"));
        });
    }
}

#[test]
fn test_incremental_build_no_pm_change_classifies_full_replay() {
    let log = Log::with_commits(4);
    let base = log.fresh(Some(1));
    log.forget_events();
    let updated = log.updated(&base, None);
    assert_eq!(updated.version(), 3);
    check_protocol_metadata_load(&log, |pm| {
        assert_eq!(pm.source, ProtocolMetadataSource::FullReplay);
    });
}

#[test]
fn test_incremental_build_replay_error_emits_failure() {
    let mut log = Log::with_commits(6);
    let base = log.fresh(Some(3));
    log.commits.insert(4, Commit { corrupt: true, ..Commit::default() });
    log.forget_events();
    assert!(log.update(&base, Some(5), IncrementalReplay::Disabled).is_err());
    let events = log.events.borrow();
    let failures =
        events.iter().filter(|e| matches!(e, MetricEvent::ProtocolMetadataLoadFailure(_)));
    assert_eq!(failures.count(), 1, "expected exactly one ProtocolMetadataLoadFailure");
    assert!(
        !events.iter().any(|e| matches!(e, MetricEvent::ProtocolMetadataLoadSuccess(_))),
        "no success event should fire on the failure path"
    );
}

fn check_segment_failure(log: &Log) {
    let events = log.events.borrow();
    let [MetricEvent::LogSegmentLoadFailure(failure)] = &events[..] else {
        panic!("expected one LogSegmentLoadFailure and no other event");
    };
    assert_eq!(failure.load_type, LogSegmentLoadType::Incremental);
}

#[test]
fn test_incremental_version_regression_emits_log_segment_load_failure() {
    let mut log = Log::with_commits(6);
    let base = log.fresh(Some(5));
    log.commits.remove(&5);
    log.commits.remove(&4);
    log.forget_events();
    let error = log.update(&base, None, IncrementalReplay::Disabled).unwrap_err();
    assert_eq!(
        error.message(),
        "Unexpected state: the newest version in the log 3 is older than the existing snapshot version 5"
    );
    check_segment_failure(&log);
}

#[test]
fn test_incremental_unavailable_version_emits_log_segment_load_failure() {
    let log = Log::with_commits(4);
    let base = log.fresh(Some(3));
    log.forget_events();
    assert!(log.update(&base, Some(9), IncrementalReplay::Disabled).is_err());
    check_segment_failure(&log);
}

#[test]
fn test_incremental_rebuild_reports_incremental_load_type() {
    let mut log = Log::with_commits(4);
    let base = log.fresh(Some(1));
    log.checkpoints.insert(3);
    log.forget_events();
    let updated = log.updated(&base, None);
    assert_eq!(updated.version(), 3);
    assert_eq!(updated.log_segment.checkpoint_version, Some(3));
    check_log_segment_load(&log, |seg| {
        assert_eq!(seg.load_type, LogSegmentLoadType::Incremental);
    });
    check_protocol_metadata_load(&log, |pm| {
        assert_eq!(pm.load_type, LogSegmentLoadType::Incremental);
    });
}

// ---------------------------------------------------------------------------------------------
// Segments
// ---------------------------------------------------------------------------------------------

fn files(commits: &[u64], checkpoint: Option<u64>, crc: Option<u64>) -> LogSegmentFiles {
    LogSegmentFiles {
        ascending_commit_files: commits.iter().map(|v| commit_path(*v)).collect(),
        ascending_compaction_files: vec![],
        checkpoint_parts: checkpoint
            .iter()
            .map(|c| path(*c, "checkpoint.parquet", LogPathFileType::SinglePartCheckpoint))
            .collect(),
        latest_crc_file: crc.map(|v| path(v, "crc", LogPathFileType::Crc)),
        latest_commit_file: commits.last().map(|v| commit_path(*v)),
        max_published_version: commits.last().copied(),
    }
}

fn segment(listed: LogSegmentFiles, end: Option<u64>) -> DeltaResult<LogSegment> {
    LogSegment::try_new(listed, LOG_ROOT.to_string(), end, None)
}

#[test]
fn files_that_form_no_segment() {
    assert_eq!(
        segment(files(&[1, 3], None, None), None),
        Err(Error::generic("Expected ordered contiguous commit files"))
    );
    assert_eq!(
        segment(files(&[4], Some(2), None), None),
        Err(Error::InvalidCheckpoint("Gap between checkpoint version 2 and next commit 4".to_string()))
    );
    assert_eq!(
        segment(files(&[3], Some(2), Some(1)), None),
        Err(Error::InternalError("CRC version 1 is older than checkpoint version 2".to_string()))
    );
    assert_eq!(
        segment(files(&[], None, None), None),
        Err(Error::generic("No files in log segment"))
    );
    assert_eq!(segment(files(&[3], Some(2), Some(2)), Some(3)).unwrap().end_version, 3);
    assert_eq!(segment(files(&[], Some(2), None), None).unwrap().end_version, 2);
}

#[test]
fn the_tail_of_a_segment() {
    let whole = segment(files(&[3, 4, 5], Some(2), Some(4)), None).unwrap();
    let tail = whole.segment_after_version(3);
    assert_eq!(tail.listed.ascending_commit_files, [commit_path(4), commit_path(5)]);
    assert!(tail.listed.checkpoint_parts.is_empty());
    assert_eq!(tail.checkpoint_version, None);
    assert_eq!(tail.listed.latest_crc_file, None);
    assert_eq!(tail.end_version, 5);
}

#[test]
fn combined_segments_hold_each_commit_once() {
    let existing = segment(files(&[1, 2, 3], Some(0), None), None).unwrap();
    let built = Snapshot::assemble_new_segment(&existing, 3, files(&[2, 3, 4], Some(1), None), None);
    let Ok(NewSegment::Combined(combined)) = built else {
        panic!("expected a combined segment");
    };
    let versions: Vec<u64> =
        combined.listed.ascending_commit_files.iter().map(|f| f.version).collect();
    assert_eq!(versions, [2, 3, 4]);
    assert_eq!(combined.checkpoint_version, Some(1));
    assert_eq!(combined.end_version, 4);
    let again = Snapshot::assemble_new_segment(&existing, 3, files(&[1, 2, 3], None, None), None);
    assert_eq!(again, Ok(NewSegment::Unchanged));
}
