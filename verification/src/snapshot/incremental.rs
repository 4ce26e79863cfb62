//! Incremental [`Snapshot`] update.
//!
//! The case-by-case behavior lives in [`Snapshot::try_new_from`].

use std::sync::Arc;
use std::time::Instant;

use vstd::prelude::*;

use super::state::{
    clone_opt_crc, Crc, IncrementalReplay, Metadata, MetadataV, Protocol, ProtocolV, Snapshot,
    SnapshotLoader, SnapshotV, TableConfiguration,
};
use crate::error::{option_view, DeltaResult, Error, ErrorV};
use crate::log_segment::{
    after, clone_opt_hint, clone_opt_path, clone_paths, files_after, segment_after, segment_of,
    FilesV, LogSegment, LogSegmentFiles, ParsedLogPath, SegmentV, Version,
};
use crate::metrics::events::{
    added, LogSegmentLoadFailure, LogSegmentLoadSuccess, MetricEvent, ProtocolMetadataLoadFailure,
    ProtocolMetadataLoadSuccess, ProtocolMetadataSource,
    SnapshotLoadMetricContext,
};
use crate::text::{clone_opt_string, decimal, decimal_text};
use crate::time::nanos_since;

verus! {

/// The assembled outcome of the listing phase of an incremental update. Listing/assembly
/// failures surface as `Err` from [`Snapshot::build_new_segment`], not a variant here.
///
/// See [`Snapshot::try_new_from`] for the case taxonomy these outcomes map onto.
#[derive(Debug, PartialEq)]
pub enum NewSegment {
    /// No new segment to build; the caller returns the existing snapshot unchanged.
    Unchanged,
    /// A checkpoint ahead of the existing snapshot requires a full rebuild from it.
    Rebuild(LogSegment),
    /// New commits merged into the existing segment; ready for incremental P&M.
    Combined(LogSegment),
}

/// A [`NewSegment`] as a mathematical value.
pub enum NewSegmentV {
    Unchanged,
    Rebuild(SegmentV),
    Combined(SegmentV),
}

impl View for NewSegment {
    type V = NewSegmentV;

    open spec fn view(&self) -> NewSegmentV {
        match *self {
            NewSegment::Unchanged => NewSegmentV::Unchanged,
            NewSegment::Rebuild(s) => NewSegmentV::Rebuild(s@),
            NewSegment::Combined(s) => NewSegmentV::Combined(s@),
        }
    }
}

/// The files above a checkpoint, or all of them without one.
pub open spec fn above_checkpoint(files: Seq<ParsedLogPath>, checkpoint: Option<Version>) -> Seq<
    ParsedLogPath,
> {
    match checkpoint {
        Some(version) => after(files, version),
        None => files,
    }
}

/// The newer of two versions, where there are any.
pub open spec fn newer_version(a: Option<Version>, b: Option<Version>) -> Option<Version> {
    match (a, b) {
        (Some(x), Some(y)) => Some(
            if x >= y {
                x
            } else {
                y
            },
        ),
        (Some(x), None) => Some(x),
        (None, y) => y,
    }
}

/// The CRC file of the combined segment: the newly listed one, else the existing one unless the
/// new checkpoint has overtaken it.
pub open spec fn combined_crc_file(listed: FilesV, existing: FilesV) -> Option<ParsedLogPath> {
    match listed.latest_crc_file {
        Some(crc) => Some(crc),
        None => match (existing.latest_crc_file, listed.checkpoint_version()) {
            (Some(crc), Some(checkpoint)) => if crc.version >= checkpoint {
                Some(crc)
            } else {
                None
            },
            (crc, None) => crc,
            (None, _) => None,
        },
    }
}

/// The files of the combined segment: the existing ones that a new checkpoint does not cover, then
/// the newly listed ones above the existing snapshot's version.
pub open spec fn combined_files(existing: FilesV, version: Version, listed: FilesV) -> FilesV {
    let checkpoint = listed.checkpoint_version();
    FilesV {
        commits: above_checkpoint(existing.commits, checkpoint) + after(listed.commits, version),
        compactions: above_checkpoint(existing.compactions, checkpoint) + after(
            listed.compactions,
            version,
        ),
        checkpoint_parts: if checkpoint is Some {
            listed.checkpoint_parts
        } else {
            existing.checkpoint_parts
        },
        latest_crc_file: combined_crc_file(listed, existing),
        latest_commit_file: listed.latest_commit_file,
        max_published_version: newer_version(
            listed.max_published_version,
            existing.max_published_version,
        ),
    }
}

/// What is said when a requested version is newer than the log.
pub open spec fn version_unavailable(requested: Version, existing: Version) -> ErrorV {
    ErrorV::Generic(
        "Requested snapshot version "@ + decimal(requested as nat)
            + " is not available: no new commits were found after existing snapshot version "@
            + decimal(existing as nat),
    )
}

/// What is said when the log ends before the existing snapshot.
pub open spec fn log_regressed(newest: Version, existing: Version) -> ErrorV {
    ErrorV::Generic(
        "Unexpected state: the newest version in the log "@ + decimal(newest as nat)
            + " is older than the existing snapshot version "@ + decimal(existing as nat),
    )
}

/// The outcome of the listing phase for the files that the listing found.
pub open spec fn assembled(
    existing: SegmentV,
    version: Version,
    listed: FilesV,
    requested: Option<Version>,
) -> Result<NewSegmentV, ErrorV> {
    if listed.commits.len() == 0 && listed.checkpoint_parts.len() == 0 {
        match requested {
            Some(requested) => Err(version_unavailable(requested, version)),
            None => Ok(NewSegmentV::Unchanged),
        }
    } else {
        match segment_of(listed, existing.log_root, requested, None) {
            Err(e) => Err(e),
            Ok(segment) => if segment.end_version < version {
                Err(log_regressed(segment.end_version, version))
            } else if segment.checkpoint_version is Some && segment.checkpoint_version->0
                > version {
                Ok(NewSegmentV::Rebuild(segment))
            } else if segment.end_version == version && segment.checkpoint_version is None {
                Ok(NewSegmentV::Unchanged)
            } else {
                match segment_of(
                    combined_files(existing.listed, version, listed),
                    existing.log_root,
                    requested,
                    if segment.checkpoint_version is Some {
                        None
                    } else {
                        existing.hint
                    },
                ) {
                    Err(e) => Err(e),
                    Ok(combined) => Ok(NewSegmentV::Combined(combined)),
                }
            },
        }
    }
}

/// Where the listing for an incremental update starts: just after the existing checkpoint.
pub open spec fn listing_start(existing: SegmentV) -> int {
    match existing.checkpoint_version {
        Some(version) => version + 1,
        None => 1,
    }
}

/// Whether the loader, asked for the log after the existing checkpoint and up to the requested
/// version, gave `listed`.
pub open spec fn log_listed<L: SnapshotLoader>(
    loader: &L,
    existing: SegmentV,
    log_tail: Vec<ParsedLogPath>,
    requested: Option<Version>,
    listed: DeltaResult<LogSegmentFiles>,
) -> bool {
    exists|root: String, start: Version|
        root@ == existing.log_root && start == listing_start(existing) && #[trigger] call_ensures(
            L::list_log_files,
            (loader, &root, log_tail, Some(start), requested),
            listed,
        )
}

/// What the listing phase gives for every outcome of the listing.
pub open spec fn segment_built<L: SnapshotLoader>(
    loader: &L,
    existing: SegmentV,
    version: Version,
    log_tail: Vec<ParsedLogPath>,
    requested: Option<Version>,
    built: DeltaResult<NewSegment>,
) -> bool {
    exists|listed: DeltaResult<LogSegmentFiles>| #[trigger]
        log_listed(loader, existing, log_tail, requested, listed) && match listed {
            Err(e) => built == Err::<NewSegment, _>(e),
            Ok(files) => match assembled(existing, version, files@, requested) {
                Ok(segment) => built is Ok && built->Ok_0@ == segment,
                Err(e) => built is Err && built->Err_0@ == e,
            },
        }
}

impl Snapshot {
    /// List the log after the existing snapshot and assemble the new [`NewSegment`] for this
    /// incremental update. Returns a non-failure [`NewSegment`] on the C/D.1/E/F cases; a
    /// propagated `Err` is a genuine listing/assembly failure.
    pub fn build_new_segment<L: SnapshotLoader>(
        loader: &L,
        existing_log_segment: &LogSegment,
        existing_snapshot_version: Version,
        log_tail: Vec<ParsedLogPath>,
        requested_version: Option<Version>,
    ) -> (built: DeltaResult<NewSegment>)
        requires
            listing_start(existing_log_segment@) <= u64::MAX,
        ensures
            segment_built(
                loader,
                existing_log_segment@,
                existing_snapshot_version,
                log_tail,
                requested_version,
                built,
            ),
    {
        // Start listing just after the previous segment's checkpoint, if any.
        let listing_start: Version = match existing_log_segment.checkpoint_version {
            Some(version) => version + 1,
            None => 1,
        };
        let listed = loader.list_log_files(
            &existing_log_segment.log_root,
            log_tail,
            Some(listing_start),
            requested_version,
        );
        assert(log_listed(
            loader,
            existing_log_segment@,
            log_tail,
            requested_version,
            listed,
        ));
        match listed {
            Ok(new_listed_files) => Self::assemble_new_segment(
                existing_log_segment,
                existing_snapshot_version,
                new_listed_files,
                requested_version,
            ),
            Err(e) => Err(e),
        }
    }

    /// Assemble the new [`NewSegment`] from what the listing found.
    pub fn assemble_new_segment(
        existing_log_segment: &LogSegment,
        existing_snapshot_version: Version,
        new_listed_files: LogSegmentFiles,
        requested_version: Option<Version>,
    ) -> (built: DeltaResult<NewSegment>)
        ensures
            match assembled(
                existing_log_segment@,
                existing_snapshot_version,
                new_listed_files@,
                requested_version,
            ) {
                Ok(segment) => built is Ok && built->Ok_0@ == segment,
                Err(e) => built is Err && built->Err_0@ == e,
            },
    {
        // NB: both checkpoints and commits have to be checked, since commits at and below the
        // checkpoint version are filtered. Example: with a checkpoint + commit at version 1, the
        // log listing will only return the checkpoint and not the commit.
        if new_listed_files.ascending_commit_files.len() == 0
            && new_listed_files.checkpoint_parts.len() == 0 {
            return match requested_version {
                // Case C.1: caller requested a specific version (necessarily >
                // existing_snapshot_version, since cases A and B are handled by the caller), but
                // no such commit exists in the log.
                Some(requested_version) => Err(
                    Error::Generic(
                        "Requested snapshot version ".to_string().concat(
                            decimal_text(requested_version).as_str(),
                        ).concat(
                            " is not available: no new commits were found after existing snapshot version ",
                        ).concat(decimal_text(existing_snapshot_version).as_str()),
                    ),
                ),
                // Case C.2: no new commits and no explicit target; latest is existing.
                None => Ok(NewSegment::Unchanged),
            };
        }
        // Note: the new segment won't have last_checkpoint_metadata since the listing uses no
        // hint. If the new segment has a checkpoint, it is used as is. Otherwise,
        // last_checkpoint_metadata is preserved when merging the new log segment with the old one.
        let new_log_segment = match LogSegment::try_new(
            new_listed_files,
            existing_log_segment.log_root.clone(),
            requested_version,
            None,
        ) {
            Ok(segment) => segment,
            Err(e) => return Err(e),
        };

        let new_end_version: Version = new_log_segment.end_version;
        if new_end_version < existing_snapshot_version {
            // A new log segment with a version < the existing snapshot version would mean a
            // commit was incorrectly deleted from the log.
            return Err(
                Error::Generic(
                    "Unexpected state: the newest version in the log ".to_string().concat(
                        decimal_text(new_end_version).as_str(),
                    ).concat(" is older than the existing snapshot version ").concat(
                        decimal_text(existing_snapshot_version).as_str(),
                    ),
                ),
            );
        }
        if let Some(new_checkpoint_version) = new_log_segment.checkpoint_version {
            if new_checkpoint_version > existing_snapshot_version {
                // Case D.1: checkpoint ahead of existing snapshot. Commits between
                // existing_snapshot_version+1 and new_checkpoint_version were filtered out
                // of the listing, so a full rebuild is required. The existing snapshot's CRC
                // is older than the new checkpoint and cannot apply, but a fresh on-disk CRC
                // at or above the new checkpoint still advances per `incremental_replay`.
                return Ok(NewSegment::Rebuild(new_log_segment));
            }
            // Case D.2: checkpoint at or below existing snapshot; fall through to case F to
            // replay only the new commits and advance the checkpoint base.
        }
        // Case E: no new checkpoint, version did not advance; return existing.
        if new_end_version == existing_snapshot_version
            && new_log_segment.checkpoint_version.is_none() {
            // checkpoint_version must be checked here: if a checkpoint at or below the existing
            // snapshot version was discovered, the checkpoint base still advances even though the
            // version did not change.
            return Ok(NewSegment::Unchanged);
        }

        // Case F: lightweight P+M replay on new commits, merge with existing segment.
        // (Also reached from Case D.2 when a checkpoint at or below the existing snapshot
        // version was discovered.)
        //
        // The example below illustrates Case D.2 -> F.
        // Example: existing segment = checkpoint@v0 + commit@v1, v2, v3
        //          existing_snapshot_version = v3, listing_start = v1
        //          target=v4, new checkpoint@v2 written since last build (Case D.2 -> F):
        //
        //    listing:          commit@v1, then checkpoint@v2 + commit@v3, v4
        //                      (checkpoint flush drops v1)
        //    new segment:      checkpoint@v2 + commit@v3, v4
        //    after dedup:      drop commit@v3 (already in existing snapshot)
        //                      -> ascending_commit_files = [commit@v4]
        //    commit@v3 is not lost: the existing segment contributes it below
        //    (existing commits above checkpoint@v2 = [commit@v3])
        //    combined segment: checkpoint@v2 + commit@v3 (from existing) + commit@v4 (from new)
        //    checkpoint@v2 is kept in checkpoint_parts to advance the listing base.
        let mut new_commit_files = files_after(
            &new_log_segment.listed.ascending_commit_files,
            existing_snapshot_version,
        );
        // Deduplicate compaction files the same way: the new listing re-lists from
        // checkpoint_version, so it has compaction files already in the existing segment.
        // Note: This removes all _new_ compaction files that start at or before
        // `existing_snapshot_version`, which may drop useful compaction files that span
        // across the old/new boundary (e.g. a new compaction(1, 3) when
        // existing_snapshot_version=2). This is conservative but safe.
        let mut new_compaction_files = files_after(
            &new_log_segment.listed.ascending_compaction_files,
            existing_snapshot_version,
        );

        // The CRC file the combined segment carries on disk.
        let crc_file = Self::resolve_crc_file(&new_log_segment, existing_log_segment);

        // Combine existing and new log segments. When the new listing found a checkpoint at or
        // below the existing snapshot version, trim existing commits and compaction files
        // already covered by it; otherwise keep all existing files.
        let new_checkpoint_version = new_log_segment.checkpoint_version;
        let mut ascending_commit_files = Self::files_after_checkpoint(
            &existing_log_segment.listed.ascending_commit_files,
            new_checkpoint_version,
        );
        ascending_commit_files.append(&mut new_commit_files);
        let mut ascending_compaction_files = Self::files_after_checkpoint(
            &existing_log_segment.listed.ascending_compaction_files,
            new_checkpoint_version,
        );
        ascending_compaction_files.append(&mut new_compaction_files);

        // When the new listing found a checkpoint at or below the existing snapshot version,
        // advance the base so future listings start from new_checkpoint_version+1; otherwise
        // preserve the existing base.
        // Note: the incremental listing never uses a _last_checkpoint hint, so
        // new_log_segment.last_checkpoint_metadata is always None when a new checkpoint
        // is found here. The combined segment will read the new checkpoint's parquet footer at
        // scan time. When no new checkpoint was found, preserve the existing hint if available.
        let max_published_version = newer_of(
            new_log_segment.listed.max_published_version,
            existing_log_segment.listed.max_published_version,
        );
        let (new_checkpoint_parts, new_checkpoint_hint) = if new_checkpoint_version.is_some() {
            (
                clone_paths(&new_log_segment.listed.checkpoint_parts),
                clone_opt_hint(&new_log_segment.last_checkpoint_metadata),
            )
        } else {
            (
                clone_paths(&existing_log_segment.listed.checkpoint_parts),
                clone_opt_hint(&existing_log_segment.last_checkpoint_metadata),
            )
        };
        let files = LogSegmentFiles {
            ascending_commit_files,
            ascending_compaction_files,
            checkpoint_parts: new_checkpoint_parts,
            latest_crc_file: crc_file,
            // In Case F there are new commits (new_end_version > existing_snapshot_version
            // with no new checkpoint), so the new listing's `latest_commit_file` is always
            // `Some(commit @ new_end_version)` and matches the combined snapshot version.
            latest_commit_file: clone_opt_path(&new_log_segment.listed.latest_commit_file),
            max_published_version,
        };
        assert(files@ =~= combined_files(
            existing_log_segment@.listed,
            existing_snapshot_version,
            new_listed_files@,
        ));
        match LogSegment::try_new(
            files,
            existing_log_segment.log_root.clone(),
            requested_version,
            new_checkpoint_hint,
        ) {
            Ok(combined_log_segment) => Ok(NewSegment::Combined(combined_log_segment)),
            Err(e) => Err(e),
        }
    }

    /// Determine the on-disk CRC file the combined segment should carry.
    ///
    /// Prefers the new segment's CRC; falls back to the existing segment's CRC if and only if
    /// its version is >= the new segment's checkpoint version, so the fallback never violates the
    /// [`LogSegmentFiles`] invariant `crc.version >= checkpoint.version` (enforced in
    /// [`LogSegment::try_new`]).
    fn resolve_crc_file(new_log_segment: &LogSegment, existing_log_segment: &LogSegment) -> (crc:
        Option<ParsedLogPath>)
        requires
            new_log_segment.checkpoint_version == new_log_segment.listed@.checkpoint_version(),
        ensures
            crc == combined_crc_file(new_log_segment.listed@, existing_log_segment.listed@),
    {
        match &new_log_segment.listed.latest_crc_file {
            Some(crc) => Some(crc.clone()),
            None => match (
                &existing_log_segment.listed.latest_crc_file,
                new_log_segment.checkpoint_version,
            ) {
                (Some(crc), Some(checkpoint_version)) => if crc.version >= checkpoint_version {
                    Some(crc.clone())
                } else {
                    None
                },
                (Some(crc), None) => Some(crc.clone()),
                (None, _) => None,
            },
        }
    }

    /// Filters `files` to only those with version above `checkpoint_version`, or clones all if
    /// `checkpoint_version` is `None`.
    fn files_after_checkpoint(
        files: &Vec<ParsedLogPath>,
        checkpoint_version: Option<Version>,
    ) -> (kept: Vec<ParsedLogPath>)
        ensures
            kept@ == above_checkpoint(files@, checkpoint_version),
    {
        match checkpoint_version {
            Some(version) => files_after(files, version),
            None => clone_paths(files),
        }
    }
}

fn newer_of(a: Option<Version>, b: Option<Version>) -> (newer: Option<Version>)
    ensures
        newer == newer_version(a, b),
{
    match (a, b) {
        (Some(x), Some(y)) => Some(
            if x >= y {
                x
            } else {
                y
            },
        ),
        (Some(x), None) => Some(x),
        (None, y) => y,
    }
}

// ---------------------------------------------------------------------------------------------
// Metric events of a load
// ---------------------------------------------------------------------------------------------

/// How many versions the newest CRC file lags behind the segment's end.
pub open spec fn crc_versions_behind(segment: SegmentV) -> Option<u64> {
    match segment.listed.latest_crc_file {
        Some(crc) => Some(
            if crc.version <= segment.end_version {
                (segment.end_version - crc.version) as u64
            } else {
                0
            },
        ),
        None => None,
    }
}

/// The event of a loaded log segment.
pub open spec fn segment_load_event(
    context: SnapshotLoadMetricContext,
    segment: SegmentV,
    duration_ns: u64,
) -> MetricEvent {
    MetricEvent::LogSegmentLoadSuccess(
        LogSegmentLoadSuccess {
            operation_id: context.operation_id,
            correlation_id: context.correlation_id,
            load_type: context.load_type,
            num_commit_files: segment.listed.commits.len() as u64,
            num_checkpoint_files: segment.listed.checkpoint_parts.len() as u64,
            num_compaction_files: segment.listed.compactions.len() as u64,
            crc_versions_behind: crc_versions_behind(segment),
            duration_ns,
        },
    )
}

/// The event of a log segment that could not be loaded.
pub open spec fn segment_failure_event(context: SnapshotLoadMetricContext) -> MetricEvent {
    MetricEvent::LogSegmentLoadFailure(
        LogSegmentLoadFailure {
            operation_id: context.operation_id,
            correlation_id: context.correlation_id,
            load_type: context.load_type,
        },
    )
}

/// The event of loaded protocol and metadata.
pub open spec fn pm_load_event(
    context: SnapshotLoadMetricContext,
    source: ProtocolMetadataSource,
    duration_ns: u64,
) -> MetricEvent {
    MetricEvent::ProtocolMetadataLoadSuccess(
        ProtocolMetadataLoadSuccess {
            operation_id: context.operation_id,
            correlation_id: context.correlation_id,
            load_type: context.load_type,
            source,
            duration_ns,
        },
    )
}

/// The event of protocol and metadata that could not be loaded.
pub open spec fn pm_failure_event(context: SnapshotLoadMetricContext) -> MetricEvent {
    MetricEvent::ProtocolMetadataLoadFailure(
        ProtocolMetadataLoadFailure {
            operation_id: context.operation_id,
            correlation_id: context.correlation_id,
            load_type: context.load_type,
        },
    )
}

/// Reports a loaded log segment.
pub fn emit_log_segment_load(
    events: &mut Vec<MetricEvent>,
    context: &SnapshotLoadMetricContext,
    segment: &LogSegment,
    duration_ns: u64,
)
    ensures
        added(old(events)@, final(events)@, segment_load_event(*context, segment@, duration_ns)),
{
    let crc_versions_behind = match &segment.listed.latest_crc_file {
        Some(crc) => Some(
            if crc.version <= segment.end_version {
                segment.end_version - crc.version
            } else {
                0
            },
        ),
        None => None,
    };
    events.push(
        MetricEvent::LogSegmentLoadSuccess(
            LogSegmentLoadSuccess {
                operation_id: context.operation_id.clone(),
                correlation_id: clone_opt_string(&context.correlation_id),
                load_type: context.load_type,
                num_commit_files: segment.listed.ascending_commit_files.len() as u64,
                num_checkpoint_files: segment.listed.checkpoint_parts.len() as u64,
                num_compaction_files: segment.listed.ascending_compaction_files.len() as u64,
                crc_versions_behind,
                duration_ns,
            },
        ),
    );
}

/// Reports that a log segment could not be loaded.
pub fn emit_log_segment_load_failure(
    events: &mut Vec<MetricEvent>,
    context: &SnapshotLoadMetricContext,
)
    ensures
        added(old(events)@, final(events)@, segment_failure_event(*context)),
{
    events.push(
        MetricEvent::LogSegmentLoadFailure(
            LogSegmentLoadFailure {
                operation_id: context.operation_id.clone(),
                correlation_id: clone_opt_string(&context.correlation_id),
                load_type: context.load_type,
            },
        ),
    );
}

/// Reports loaded protocol and metadata.
pub fn emit_protocol_metadata_load(
    events: &mut Vec<MetricEvent>,
    context: &SnapshotLoadMetricContext,
    source: ProtocolMetadataSource,
    duration_ns: u64,
)
    ensures
        added(old(events)@, final(events)@, pm_load_event(*context, source, duration_ns)),
{
    events.push(
        MetricEvent::ProtocolMetadataLoadSuccess(
            ProtocolMetadataLoadSuccess {
                operation_id: context.operation_id.clone(),
                correlation_id: clone_opt_string(&context.correlation_id),
                load_type: context.load_type,
                source,
                duration_ns,
            },
        ),
    );
}

/// Reports that protocol and metadata could not be loaded.
pub fn emit_protocol_metadata_load_failure(
    events: &mut Vec<MetricEvent>,
    context: &SnapshotLoadMetricContext,
)
    ensures
        added(old(events)@, final(events)@, pm_failure_event(*context)),
{
    events.push(
        MetricEvent::ProtocolMetadataLoadFailure(
            ProtocolMetadataLoadFailure {
                operation_id: context.operation_id.clone(),
                correlation_id: clone_opt_string(&context.correlation_id),
                load_type: context.load_type,
            },
        ),
    );
}

// ---------------------------------------------------------------------------------------------
// The update
// ---------------------------------------------------------------------------------------------

/// What is said of a request for a version before the existing one.
pub open spec fn version_too_old(requested: Version, existing: Version) -> ErrorV {
    ErrorV::Generic(
        "Requested snapshot version "@ + decimal(requested as nat)
            + " is older than snapshot hint version "@ + decimal(existing as nat),
    )
}

/// The metadata of a CRC, where it differs from the existing one.
pub open spec fn changed_metadata(crc: Crc, existing: TableConfiguration) -> Option<MetadataV> {
    if crc.metadata@ == existing.metadata@ {
        None
    } else {
        Some(crc.metadata@)
    }
}

/// The protocol of a CRC, where it differs from the existing one.
pub open spec fn changed_protocol(crc: Crc, existing: TableConfiguration) -> Option<ProtocolV> {
    if crc.protocol@ == existing.protocol@ {
        None
    } else {
        Some(crc.protocol@)
    }
}

/// A CRC newer than the existing snapshot; `None` otherwise.
pub open spec fn newer_crc(base: Option<Arc<Crc>>, version: Version) -> Option<Arc<Crc>> {
    match base {
        Some(crc) => if crc.version > version {
            Some(crc)
        } else {
            None
        },
        None => None,
    }
}

/// The last step of an incremental update: the new protocol and metadata are reported and make a
/// table configuration, which makes the snapshot together with the combined segment.
pub open spec fn configured<L: SnapshotLoader>(
    loader: &L,
    before: Seq<MetricEvent>,
    after: Seq<MetricEvent>,
    context: SnapshotLoadMetricContext,
    existing: Snapshot,
    segment: LogSegment,
    metadata: Option<MetadataV>,
    protocol: Option<ProtocolV>,
    source: ProtocolMetadataSource,
    crc: Option<Arc<Crc>>,
    built_as_latest: bool,
    r: DeltaResult<Arc<Snapshot>>,
) -> bool {
    &&& exists|ns: u64| #[trigger] added(before, after, pm_load_event(context, source, ns))
    &&& exists|m: Option<Metadata>, p: Option<Protocol>, c: DeltaResult<TableConfiguration>|
        option_view(m) == metadata && option_view(p) == protocol && #[trigger] call_ensures(
            L::table_configuration_from,
            (loader, &existing.table_configuration, m, p, segment.end_version),
            c,
        ) && match c {
            Err(e) => r == Err::<Arc<Snapshot>, _>(e),
            Ok(table_configuration) => r is Ok && *(r->Ok_0) == (Snapshot {
                log_segment: segment,
                table_configuration,
                base_crc: crc,
                built_as_latest,
            }),
        }
}

/// An incremental update without a CRC at the new version: the commits after the existing
/// snapshot are replayed for protocol and metadata.
pub open spec fn replayed<L: SnapshotLoader>(
    loader: &L,
    before: Seq<MetricEvent>,
    after: Seq<MetricEvent>,
    context: SnapshotLoadMetricContext,
    existing: Snapshot,
    segment: LogSegment,
    base: Option<Arc<Crc>>,
    built_as_latest: bool,
    r: DeltaResult<Arc<Snapshot>>,
) -> bool {
    let version = existing.table_configuration.version;
    exists|
        tail: LogSegment,
        newer: Option<Arc<Crc>>,
        pm: DeltaResult<(Option<Metadata>, Option<Protocol>, ProtocolMetadataSource)>,
    |
        tail@ == segment_after(segment@, version) && newer == newer_crc(base, version)
            && #[trigger] call_ensures(
            L::read_protocol_metadata,
            (loader, &tail, &newer),
            pm,
        ) && match pm {
            Err(e) => r == Err::<Arc<Snapshot>, _>(e) && added(
                before,
                after,
                pm_failure_event(context),
            ),
            Ok((m, p, source)) => configured(
                loader,
                before,
                after,
                context,
                existing,
                segment,
                option_view(m),
                option_view(p),
                source,
                base,
                built_as_latest,
                r,
            ),
        }
}

/// The incremental update onto a combined segment, for every outcome of the loader's calls.
pub open spec fn advanced<L: SnapshotLoader>(
    loader: &L,
    before: Seq<MetricEvent>,
    after: Seq<MetricEvent>,
    context: SnapshotLoadMetricContext,
    existing: Snapshot,
    segment: LogSegment,
    incremental_replay: IncrementalReplay,
    built_as_latest: bool,
    r: DeltaResult<Arc<Snapshot>>,
) -> bool {
    exists|
        base: Option<Arc<Crc>>,
        built: DeltaResult<Option<(Arc<Crc>, ProtocolMetadataSource)>>,
    |
        #[trigger] call_ensures(
            L::pick_latest_base_crc,
            (loader, &segment, &existing.base_crc),
            base,
        ) && #[trigger] call_ensures(
            L::try_build_crc_within_budget,
            (loader, &segment, &base, incremental_replay),
            built,
        ) && match built {
            Err(e) => r == Err::<Arc<Snapshot>, _>(e) && added(
                before,
                after,
                pm_failure_event(context),
            ),
            Ok(Some((crc, source))) => configured(
                loader,
                before,
                after,
                context,
                existing,
                segment,
                changed_metadata(*crc, existing.table_configuration),
                changed_protocol(*crc, existing.table_configuration),
                source,
                Some(crc),
                built_as_latest,
                r,
            ),
            Ok(None) => replayed(
                loader,
                before,
                after,
                context,
                existing,
                segment,
                base,
                built_as_latest,
                r,
            ),
        }
}

/// The existing snapshot, known to be the latest if this build confirmed that.
pub open spec fn reused(
    existing: Arc<Snapshot>,
    built_as_latest: bool,
    r: DeltaResult<Arc<Snapshot>>,
) -> bool {
    if existing.built_as_latest || !built_as_latest {
        r == Ok::<_, Error>(existing)
    } else {
        r is Ok && (*r->Ok_0)@ == (SnapshotV { built_as_latest: true, ..existing@ })
    }
}

/// What an incremental update to a version after the existing one gives, for every outcome of the
/// loader's calls.
pub open spec fn updated<L: SnapshotLoader>(
    loader: &L,
    before: Seq<MetricEvent>,
    after: Seq<MetricEvent>,
    context: SnapshotLoadMetricContext,
    existing: Arc<Snapshot>,
    log_tail: Vec<ParsedLogPath>,
    requested: Option<Version>,
    incremental_replay: IncrementalReplay,
    built_as_latest: bool,
    r: DeltaResult<Arc<Snapshot>>,
) -> bool {
    exists|built: DeltaResult<NewSegment>| #[trigger]
        segment_built(
            loader,
            existing.log_segment@,
            existing.table_configuration.version,
            log_tail,
            requested,
            built,
        ) && match built {
            Err(e) => r == Err::<Arc<Snapshot>, _>(e) && added(
                before,
                after,
                segment_failure_event(context),
            ),
            Ok(NewSegment::Unchanged) => reused(existing, built_as_latest, r) && after == before,
            Ok(NewSegment::Rebuild(segment)) => {
                &&& exists|ns: u64| #[trigger]
                    added(before, after, segment_load_event(context, segment@, ns))
                &&& exists|loaded: DeltaResult<Snapshot>| #[trigger]
                    call_ensures(
                        L::load_from_log_segment,
                        (
                            loader,
                            &existing.table_configuration.table_root,
                            segment,
                            context,
                            incremental_replay,
                            built_as_latest,
                        ),
                        loaded,
                    ) && match loaded {
                        Ok(snapshot) => r is Ok && *(r->Ok_0) == snapshot,
                        Err(e) => r == Err::<Arc<Snapshot>, _>(e),
                    }
            },
            Ok(NewSegment::Combined(segment)) => exists|loaded: Seq<MetricEvent>, ns: u64|
                #[trigger] added(before, loaded, segment_load_event(context, segment@, ns))
                    && advanced(
                    loader,
                    loaded,
                    after,
                    context,
                    *existing,
                    segment,
                    incremental_replay,
                    built_as_latest,
                    r,
                ),
        }
}

impl Snapshot {
    /// Incrementally update an existing [`Snapshot`] to a more recent version. Variables used
    /// below:
    ///
    /// - `T` = target version, if one is requested, otherwise unset (defaults to latest).
    /// - `S1` = existing snapshot version.
    /// - `S2` = new snapshot version (= end version of the new listing). When `T` is set, the
    ///   listing is upper-bounded by `T`, so `S2 == T`.
    /// - `C1` = existing checkpoint version (if any).
    /// - `C2` = new checkpoint version (if found in the listing). Always `<= S2`, since `C2` is by
    ///   definition a checkpoint observed within the listing. By transitivity, `C2 <= T` when `T`
    ///   is set.
    ///
    /// The log listing is catalog-log-tail aware: any `log_tail` provided is merged with
    /// filesystem listings.
    ///
    /// Position layout per case (`....` is the version axis; `====` marks the range read for
    /// P+M replay; `listed` is the listing range; `read` is what's read for P+M):
    ///
    /// ```text
    ///             positions                       listed       read       outcome
    /// Case A:     C1 ........ S1 (= T)            -            -          return existing
    /// Case B:     C1 .. T .. S1                   -            -          error (T < S1)
    /// Case C.1:   C1 .. S1 .. T                   empty        -          error (T unreachable)
    /// Case C.2:   C1 .. S1                        empty        -          return existing
    /// Case D.1:   C1 .. S1 .. C2 ===== S2         [C1+1, S2]   [C2, S2]   rebuild from C2
    /// Case D.2:   C1 . C2 .. S1 ====== S2         [C1+1, S2]   (S1, S2]   advance base, -> F
    /// Case E:     C1 .. S1 (= S2)                 [C1+1, S1]   -          return existing
    /// Case F:     C1 .. S1 ====== S2              [C1+1, S2]   (S1, S2]   incremental update
    /// ```
    ///
    /// In the incremental cases (D.2, F), the existing snapshot's P+M at `S1` is the baseline, and
    /// only commits in `(S1, S2]` are replayed for newer P+M on top of it. A base CRC newer than
    /// `S1`, when present, serves as the baseline instead.
    ///
    /// - **A.** `T == S1`: return the existing snapshot unchanged.
    /// - **B.** `T < S1`: error. The incremental path only moves forward.
    /// - Otherwise (`T` unset or `T > S1`), list the log from `C1+1` (or from version 1 if there is
    ///   no existing checkpoint), and one of the following applies:
    ///   - **C.** Listing is empty:
    ///     - **C.1.** `T` is set: error (target is newer than anything in the log).
    ///     - **C.2.** `T` is unset: return the existing snapshot.
    ///   - **D.** Listing contains a checkpoint:
    ///     - **D.1.** `C2 > S1`: the new checkpoint at `C2` already captures the table state
    ///       through version `C2`, with the changes in `(S1, C2]`, so it can serve as the new
    ///       base instead of replaying those commits. Build a fresh snapshot from `C2`.
    ///     - **D.2.** `C2 <= S1`: the existing snapshot's P+M (at `S1`) already reflects everything
    ///       `C2` would tell, so reading `C2` for P+M is skipped. Fall through to case F to replay
    ///       only commits `> S1` for P+M; the combined segment uses `C2` as its checkpoint base,
    ///       producing a better log segment with fewer deltas above the checkpoint (e.g. faster
    ///       distributed log replay).
    ///   - **E.** Listing contains commits but no new checkpoint, and `S2 == S1`: return the
    ///     existing snapshot.
    ///   - **F.** Listing contains new commits (no new checkpoint, or fall through from D.2): run
    ///     lightweight P+M replay on commits `> S1` and merge them into the existing log segment.
    ///
    /// A load is reported by adding to `events`: exactly one event for the log segment, of success
    /// or failure, and after a success, in the incremental cases, exactly one for protocol and
    /// metadata. What the loader reports on its own account in a rebuild is not among them.
    ///
    /// Each case is marked with `// Case X` here or in [`Snapshot::assemble_new_segment`].
    pub fn try_new_from<L: SnapshotLoader>(
        existing_snapshot: Arc<Snapshot>,
        log_tail: Vec<ParsedLogPath>,
        loader: &L,
        events: &mut Vec<MetricEvent>,
        target_version: Option<Version>,
        metric_context: SnapshotLoadMetricContext,
        incremental_replay: IncrementalReplay,
        built_as_latest: bool,
    ) -> (r: DeltaResult<Arc<Snapshot>>)
        requires
            // the log is listed unless the target is at or below the existing version
            target_version is None || target_version->0
                > existing_snapshot.table_configuration.version ==> listing_start(
                existing_snapshot.log_segment@,
            ) <= u64::MAX,
        ensures
            ({
                let version = existing_snapshot.table_configuration.version;
                if target_version == Some(version) {
                    r == Ok::<_, Error>(existing_snapshot) && final(events)@ == old(events)@
                } else if target_version is Some && target_version->0 < version {
                    r is Err && r->Err_0@ == version_too_old(target_version->0, version)
                        && final(events)@ == old(events)@
                } else {
                    updated(
                        loader,
                        old(events)@,
                        final(events)@,
                        metric_context,
                        existing_snapshot,
                        log_tail,
                        target_version,
                        incremental_replay,
                        built_as_latest,
                        r,
                    )
                }
            }),
    {
        let existing_snapshot_version = existing_snapshot.version();
        if let Some(requested_version) = target_version {
            // Case A: re-requesting the same version.
            if requested_version == existing_snapshot_version {
                return Ok(existing_snapshot);
            }
            // Case B: incremental path only moves forward.
            if requested_version < existing_snapshot_version {
                return Err(
                    Error::Generic(
                        "Requested snapshot version ".to_string().concat(
                            decimal_text(requested_version).as_str(),
                        ).concat(" is older than snapshot hint version ").concat(
                            decimal_text(existing_snapshot_version).as_str(),
                        ),
                    ),
                );
            }
        }
        // Assemble the new segment as one fallible unit so a load failure emits exactly once.
        let segment_load_start = Instant::now();
        let built = Self::build_new_segment(
            loader,
            &existing_snapshot.log_segment,
            existing_snapshot_version,
            log_tail,
            target_version,
        );
        let ghost given = built;
        match built {
            Err(e) => {
                emit_log_segment_load_failure(events, &metric_context);
                Err(e)
            },
            Ok(NewSegment::Unchanged) => Self::reuse_promoting_built_as_latest(
                &existing_snapshot,
                built_as_latest,
            ),
            Ok(NewSegment::Rebuild(new_log_segment)) => {
                let ns: u64 = nanos_since(&segment_load_start);
                emit_log_segment_load(events, &metric_context, &new_log_segment, ns);
                assert(added(
                    old(events)@,
                    events@,
                    segment_load_event(metric_context, new_log_segment@, ns),
                ));
                let loaded = loader.load_from_log_segment(
                    existing_snapshot.table_root(),
                    new_log_segment,
                    metric_context,
                    incremental_replay,
                    built_as_latest,
                );
                match loaded {
                    Ok(snapshot) => Ok(Arc::new(snapshot)),
                    Err(e) => Err(e),
                }
            },
            Ok(NewSegment::Combined(combined_log_segment)) => {
                let ns: u64 = nanos_since(&segment_load_start);
                emit_log_segment_load(events, &metric_context, &combined_log_segment, ns);
                let ghost loaded = events@;
                let r = Self::advance_to(
                    &existing_snapshot,
                    combined_log_segment,
                    loader,
                    events,
                    &metric_context,
                    incremental_replay,
                    built_as_latest,
                );
                assert(added(
                    old(events)@,
                    loaded,
                    segment_load_event(metric_context, combined_log_segment@, ns),
                ));
                assert(advanced(
                    loader,
                    loaded,
                    events@,
                    metric_context,
                    *existing_snapshot,
                    combined_log_segment,
                    incremental_replay,
                    built_as_latest,
                    r,
                ));
                r
            },
        }
    }

    /// Load protocol and metadata for the combined segment on top of the existing snapshot's.
    fn advance_to<L: SnapshotLoader>(
        existing_snapshot: &Arc<Snapshot>,
        combined_log_segment: LogSegment,
        loader: &L,
        events: &mut Vec<MetricEvent>,
        metric_context: &SnapshotLoadMetricContext,
        incremental_replay: IncrementalReplay,
        built_as_latest: bool,
    ) -> (r: DeltaResult<Arc<Snapshot>>)
        ensures
            advanced(
                loader,
                old(events)@,
                final(events)@,
                *metric_context,
                **existing_snapshot,
                combined_log_segment,
                incremental_replay,
                built_as_latest,
                r,
            ),
    {
        // Advance the latest available base (the existing snapshot's in-memory CRC, or a newer
        // on-disk CRC the combined segment carries) to the new end version, subject to
        // `incremental_replay`. Time from here so the CRC-advance cost lands in the P&M duration,
        // matching the fresh path.
        let pm_start = Instant::now();
        let base_crc = loader.pick_latest_base_crc(
            &combined_log_segment,
            &existing_snapshot.base_crc,
        );
        let crc_at_version = loader.try_build_crc_within_budget(
            &combined_log_segment,
            &base_crc,
            incremental_replay,
        );
        let existing_table_config = &existing_snapshot.table_configuration;
        match crc_at_version {
            Err(e) => {
                emit_protocol_metadata_load_failure(events, metric_context);
                Err(e)
            },
            Ok(Some((crc, source))) => {
                // A new CRC could be built, so re-use it for the table configuration.
                let new_metadata = if crc.metadata.same(&existing_table_config.metadata) {
                    None
                } else {
                    Some(crc.metadata.clone())
                };
                let new_protocol = if crc.protocol.same(&existing_table_config.protocol) {
                    None
                } else {
                    Some(crc.protocol.clone())
                };
                Self::configure(
                    existing_snapshot,
                    combined_log_segment,
                    loader,
                    events,
                    metric_context,
                    new_metadata,
                    new_protocol,
                    source,
                    nanos_since(&pm_start),
                    Some(crc),
                    built_as_latest,
                )
            },
            Ok(None) => {
                // No incremental CRC to reuse: there was no base CRC, or advancing it was out of
                // budget (note: no log files have been scanned yet). Replay the new commits
                // `(existing_snapshot_version, end]` for P&M, rooted at the base CRC when it is
                // newer than the existing snapshot (else the existing snapshot is the baseline).
                let version = existing_snapshot.version();
                let newer_base = match &base_crc {
                    Some(crc) => if crc.version > version {
                        Some(crc.clone())
                    } else {
                        None
                    },
                    None => None,
                };
                let tail = combined_log_segment.segment_after_version(version);
                let pm = loader.read_protocol_metadata(&tail, &newer_base);
                let ghost given = pm;
                match pm {
                    Err(e) => {
                        emit_protocol_metadata_load_failure(events, metric_context);
                        Err(e)
                    },
                    Ok((new_metadata, new_protocol, source)) => Self::configure(
                        existing_snapshot,
                        combined_log_segment,
                        loader,
                        events,
                        metric_context,
                        new_metadata,
                        new_protocol,
                        source,
                        nanos_since(&pm_start),
                        base_crc,
                        built_as_latest,
                    ),
                }
            },
        }
    }

    /// Make the snapshot from the combined segment and the new protocol and metadata.
    fn configure<L: SnapshotLoader>(
        existing_snapshot: &Arc<Snapshot>,
        combined_log_segment: LogSegment,
        loader: &L,
        events: &mut Vec<MetricEvent>,
        metric_context: &SnapshotLoadMetricContext,
        new_metadata: Option<Metadata>,
        new_protocol: Option<Protocol>,
        source: ProtocolMetadataSource,
        duration_ns: u64,
        crc: Option<Arc<Crc>>,
        built_as_latest: bool,
    ) -> (r: DeltaResult<Arc<Snapshot>>)
        ensures
            configured(
                loader,
                old(events)@,
                final(events)@,
                *metric_context,
                **existing_snapshot,
                combined_log_segment,
                option_view(new_metadata),
                option_view(new_protocol),
                source,
                crc,
                built_as_latest,
                r,
            ),
    {
        emit_protocol_metadata_load(events, metric_context, source, duration_ns);
        let table_configuration = loader.table_configuration_from(
            &existing_snapshot.table_configuration,
            new_metadata,
            new_protocol,
            combined_log_segment.end_version,
        );
        match table_configuration {
            Ok(table_configuration) => Ok(
                Arc::new(
                    Snapshot::new_with_crc(
                        combined_log_segment,
                        table_configuration,
                        crc,
                        built_as_latest,
                    ),
                ),
            ),
            Err(e) => Err(e),
        }
    }

    /// Reuse `existing`, promoting its `built_as_latest` flag to `true` if this build confirmed
    /// latest.
    fn reuse_promoting_built_as_latest(existing: &Arc<Snapshot>, built_as_latest: bool) -> (r:
        DeltaResult<Arc<Snapshot>>)
        ensures
            reused(*existing, built_as_latest, r),
    {
        // Promote only false -> true; every other case reuses the Arc unchanged.
        if existing.built_as_latest || !built_as_latest {
            return Ok(existing.clone());
        }
        Ok(
            Arc::new(
                Snapshot::new_with_crc(
                    existing.log_segment.clone(),
                    existing.table_configuration.clone(),
                    clone_opt_crc(&existing.base_crc),
                    true,  // reached only when the flag flips false -> true
                ),
            ),
        )
    }
}

} // verus!
