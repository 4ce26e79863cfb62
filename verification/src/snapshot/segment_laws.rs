//! What holds of log segments, and of what an update takes from where.

use std::sync::Arc;

use vstd::prelude::*;

use super::incremental::{
    above_checkpoint, assembled, changed_metadata, changed_protocol, combined_files, listing_start,
    newer_crc, reused, segment_load_event, NewSegmentV,
};
use super::incremental_laws::{
    commits_between, files_of_log, lemma_after_between, lemma_forms_segment, numbered, Log,
};
use super::state::{Crc, Snapshot, TableConfiguration};
use crate::error::{DeltaResult, ErrorV};
use crate::log_segment::{
    after, contiguous, segment_after, segment_of, FilesV, LastCheckpointHint, ParsedLogPath,
    SegmentV, Version,
};
use crate::metrics::events::{MetricEvent, SnapshotLoadMetricContext};

verus! {

// ---------------------------------------------------------------------------------------------
// Segments
// ---------------------------------------------------------------------------------------------

/// Whether the commits are those of consecutive versions.
pub open spec fn consecutive(commits: Seq<ParsedLogPath>) -> bool {
    forall|i: int|
        0 <= i < commits.len() ==> (#[trigger] commits[i]).version == commits[0].version + i
}

/// Files make up a segment if and only if there is a commit or a checkpoint, the commits are of
/// consecutive versions, the first comes right after the checkpoint, the CRC file is not older than
/// that, and the last version is the requested one. The segment then ends with the last commit, or
/// with the checkpoint if there is none.
pub proof fn segments_have_no_gaps(
    listed: FilesV,
    log_root: Seq<char>,
    requested: Option<Version>,
    hint: Option<LastCheckpointHint>,
)
    ensures
        ({
            let commits = listed.commits;
            let parts = listed.checkpoint_parts;
            let last = if commits.len() > 0 {
                commits[commits.len() - 1].version
            } else {
                parts[0].version
            };
            let right = {
                &&& commits.len() > 0 || parts.len() > 0
                &&& consecutive(commits)
                &&& commits.len() > 0 && parts.len() > 0 ==> commits[0].version
                    == parts[0].version + 1
                &&& parts.len() > 0 && listed.latest_crc_file is Some
                    ==> listed.latest_crc_file->0.version >= parts[0].version
                &&& requested matches Some(version) ==> last == version
            };
            &&& segment_of(listed, log_root, requested, hint) is Ok <==> right
            &&& segment_of(listed, log_root, requested, hint) matches Ok(segment) ==> {
                &&& segment.end_version == last
                &&& segment.checkpoint_version is Some <==> parts.len() > 0
                &&& parts.len() > 0 ==> segment.checkpoint_version == Some(parts[0].version)
                &&& segment.listed == listed
                &&& segment.log_root == log_root
                &&& segment.hint == hint
            }
        }),
{
    lemma_consecutive(listed.commits);
}

proof fn lemma_consecutive(commits: Seq<ParsedLogPath>)
    ensures
        contiguous(commits) <==> consecutive(commits),
{
    if contiguous(commits) {
        assert forall|i: int| 0 <= i < commits.len() implies (#[trigger] commits[i]).version
            == commits[0].version + i by {
            lemma_counted(commits, i);
        }
    }
    if consecutive(commits) {
        assert forall|i: int| 0 <= i < commits.len() - 1 implies (#[trigger] commits[i]).version + 1
            == commits[i + 1].version by {
            assert(commits[i + 1].version == commits[0].version + (i + 1));
        }
    }
}

proof fn lemma_counted(commits: Seq<ParsedLogPath>, i: int)
    requires
        contiguous(commits),
        0 <= i < commits.len(),
    ensures
        commits[i].version == commits[0].version + i,
    decreases i,
{
    if i > 0 {
        lemma_counted(commits, i - 1);
        assert(commits[i - 1].version + 1 == commits[i].version);
    }
}

/// What comes after a version is every file of a later version, and no other.
pub proof fn later_files_are_all_kept(files: Seq<ParsedLogPath>, version: Version, f: ParsedLogPath)
    ensures
        after(files, version).contains(f) <==> files.contains(f) && f.version > version,
{
    let later = |f: ParsedLogPath| f.version > version;
    if files.contains(f) && f.version > version {
        let i = choose|i: int| 0 <= i < files.len() && files[i] == f;
        assert(later(files[i]));
        files.lemma_filter_contains(later, i);
    }
    if after(files, version).contains(f) {
        lemma_filtered(files, later, f);
    }
}

proof fn lemma_filtered(
    files: Seq<ParsedLogPath>,
    holds: spec_fn(ParsedLogPath) -> bool,
    f: ParsedLogPath,
)
    requires
        files.filter(holds).contains(f),
    ensures
        files.contains(f),
        holds(f),
    decreases files.len(),
{
    reveal(Seq::filter);
    let kept = files.filter(holds);
    if files.len() > 0 {
        let fewer = files.drop_last();
        let k = choose|k: int| 0 <= k < kept.len() && kept[k] == f;
        if holds(files.last()) && k == kept.len() - 1 {
            assert(files[files.len() - 1] == f);
        } else {
            assert(fewer.filter(holds)[k] == f);
            lemma_filtered(fewer, holds, f);
            let j = choose|j: int| 0 <= j < fewer.len() && fewer[j] == f;
            assert(files[j] == f);
        }
    }
}

/// The part of a segment after a version has the commits from the next version to the end, and no
/// checkpoint.
pub proof fn tails_start_with_the_next_version(
    log: Log,
    segment: SegmentV,
    lo: int,
    end: Version,
    version: Version,
)
    requires
        numbered(log),
        files_of_log(segment.listed, log, lo, end as int),
        segment.end_version == end,
        lo <= version + 1,
        version <= end,
    ensures
        ({
            let tail = segment_after(segment, version);
            &&& tail.listed.commits == commits_between(log, version + 1, end as int)
            &&& tail.listed.checkpoint_parts.len() == 0
            &&& tail.checkpoint_version is None
            &&& tail.listed.latest_crc_file is None
            &&& tail.end_version == end
            &&& tail.log_root == segment.log_root
        }),
{
    lemma_after_between(log, lo, end as int, version);
}

// ---------------------------------------------------------------------------------------------
// Updates
// ---------------------------------------------------------------------------------------------

/// A listing for an update sees every commit that the existing checkpoint does not hold, other than
/// the very first of a log without checkpoint.
pub proof fn listings_start_right_after_the_checkpoint(existing: SegmentV, v: int)
    ensures
        existing.checkpoint_version matches Some(checkpoint) ==> (v >= listing_start(existing)
            <==> v > checkpoint),
        existing.checkpoint_version is None ==> (v >= listing_start(existing) <==> v > 0),
{
}

/// An update with nothing new changes nothing: where the listing is empty, or ends with the
/// existing version without a checkpoint. A version that is not there is refused.
pub proof fn nothing_new_changes_nothing(
    log: Log,
    existing: SegmentV,
    version: Version,
    listed: FilesV,
    lo: int,
    requested: Option<Version>,
)
    requires
        numbered(log),
    ensures
        listed.commits.len() == 0 && listed.checkpoint_parts.len() == 0 ==> {
            &&& requested is None ==> assembled(existing, version, listed, requested) == Ok::<
                _,
                ErrorV,
            >(NewSegmentV::Unchanged)
            &&& requested is Some ==> assembled(existing, version, listed, requested) is Err
        },
        files_of_log(listed, log, lo, version as int) && lo <= version
            && listed.checkpoint_parts.len() == 0 && (requested is None || requested == Some(
            version,
        )) ==> assembled(existing, version, listed, requested) == Ok::<_, ErrorV>(
            NewSegmentV::Unchanged,
        ),
{
    if files_of_log(listed, log, lo, version as int) && lo <= version
        && listed.checkpoint_parts.len() == 0 && (requested is None || requested == Some(version)) {
        lemma_forms_segment(listed, log, lo, version, existing.log_root, requested, None);
        assert(listed.commits.len() > 0);
    }
}

/// A checkpoint that is newer than the existing version has the snapshot built anew, from that
/// checkpoint and the commits after it; a log that ends before the existing version is refused.
pub proof fn newer_checkpoints_start_anew(
    log: Log,
    existing: SegmentV,
    version: Version,
    listed: FilesV,
    lo: int,
    end: Version,
    requested: Option<Version>,
)
    requires
        numbered(log),
        files_of_log(listed, log, lo, end as int),
        lo <= end || listed.checkpoint_parts.len() > 0,
        requested is None || requested == Some(end),
    ensures
        listed.checkpoint_parts.len() > 0 && listed.checkpoint_parts[0].version > version ==> (
        assembled(existing, version, listed, requested) matches Ok(NewSegmentV::Rebuild(segment))
            && segment.end_version == end && segment.listed == listed
            && segment.checkpoint_version == Some(listed.checkpoint_parts[0].version)
            && segment.log_root == existing.log_root && segment.hint is None),
        end < version ==> assembled(existing, version, listed, requested) is Err,
{
    lemma_forms_segment(listed, log, lo, end, existing.log_root, requested, None);
    if lo <= end {
        assert(listed.commits.len() > 0);
    }
}

/// The version of a file, where there is one.
pub open spec fn version_of(file: Option<ParsedLogPath>) -> int {
    match file {
        Some(f) => f.version as int,
        None => -1,
    }
}

/// An update keeps the newest CRC file that its checkpoint has not outdated, where the listing found
/// none older than the existing one.
pub proof fn the_newest_crc_file_is_kept(existing: FilesV, version: Version, listed: FilesV)
    requires
        listed.latest_crc_file is Some ==> version_of(listed.latest_crc_file) >= version_of(
            existing.latest_crc_file,
        ),
    ensures
        ({
            let kept = combined_files(existing, version, listed).latest_crc_file;
            let outdated = |file: Option<ParsedLogPath>|
                listed.checkpoint_parts.len() > 0 && version_of(file)
                    < listed.checkpoint_parts[0].version;
            &&& listed.latest_crc_file is Some ==> kept == listed.latest_crc_file
            &&& listed.latest_crc_file is None && !outdated(existing.latest_crc_file) ==> kept
                == existing.latest_crc_file
            &&& listed.latest_crc_file is None && outdated(existing.latest_crc_file) ==> kept is None
        }),
{
}

/// An update has, of the compactions, those of the existing segment that its checkpoint does not
/// hold and those that were listed for later versions; it has the newest checkpoint, and of the
/// newest published versions the newer.
pub proof fn updates_combine_old_and_new(
    existing: FilesV,
    version: Version,
    listed: FilesV,
    f: ParsedLogPath,
)
    ensures
        ({
            let all = combined_files(existing, version, listed);
            let parts = listed.checkpoint_parts;
            &&& all.compactions.contains(f) <==> (existing.compactions.contains(f) && (parts.len()
                > 0 ==> f.version > parts[0].version)) || (listed.compactions.contains(f)
                && f.version > version)
            &&& all.commits.contains(f) <==> (existing.commits.contains(f) && (parts.len() > 0
                ==> f.version > parts[0].version)) || (listed.commits.contains(f) && f.version
                > version)
            &&& all.checkpoint_parts == (if parts.len() > 0 {
                parts
            } else {
                existing.checkpoint_parts
            })
            &&& all.latest_commit_file == listed.latest_commit_file
            &&& existing.max_published_version matches Some(v) ==> (all.max_published_version
                matches Some(w) && w >= v)
            &&& listed.max_published_version matches Some(v) ==> (all.max_published_version
                matches Some(w) && w >= v)
            &&& all.max_published_version == existing.max_published_version
                || all.max_published_version == listed.max_published_version
        }),
{
    let all = combined_files(existing, version, listed);
    lemma_combined(existing.compactions, listed.compactions, listed, version, f);
    lemma_combined(existing.commits, listed.commits, listed, version, f);
}

proof fn lemma_combined(
    old_files: Seq<ParsedLogPath>,
    new_files: Seq<ParsedLogPath>,
    listed: FilesV,
    version: Version,
    f: ParsedLogPath,
)
    ensures
        ({
            let kept = above_checkpoint(
                old_files,
                listed.checkpoint_version(),
            );
            let parts = listed.checkpoint_parts;
            (kept + after(new_files, version)).contains(f) <==> (old_files.contains(f) && (
            parts.len() > 0 ==> f.version > parts[0].version)) || (new_files.contains(f)
                && f.version > version)
        }),
{
    let kept = above_checkpoint(old_files, listed.checkpoint_version());
    let newer = after(new_files, version);
    later_files_are_all_kept(new_files, version, f);
    if listed.checkpoint_parts.len() > 0 {
        later_files_are_all_kept(old_files, listed.checkpoint_parts[0].version, f);
    }
    let all = kept + newer;
    if all.contains(f) {
        let i = choose|i: int| 0 <= i < all.len() && all[i] == f;
        if i < kept.len() {
            assert(kept[i] == f);
        } else {
            assert(newer[i - kept.len()] == f);
        }
    }
    if kept.contains(f) {
        let i = choose|i: int| 0 <= i < kept.len() && kept[i] == f;
        assert(all[i] == f);
    }
    if newer.contains(f) {
        let i = choose|i: int| 0 <= i < newer.len() && newer[i] == f;
        assert(all[kept.len() + i] == f);
    }
}

/// The hint to the last checkpoint outlives an update only without a newer checkpoint.
pub proof fn hints_do_not_outlive_their_checkpoint(
    existing: SegmentV,
    version: Version,
    listed: FilesV,
    requested: Option<Version>,
)
    ensures
        assembled(existing, version, listed, requested) matches Ok(NewSegmentV::Combined(segment))
            ==> segment.hint == (if listed.checkpoint_parts.len() > 0 {
            None
        } else {
            existing.hint
        }),
{
}

/// What an update takes over from a CRC gives the CRC's protocol and metadata, whether they changed
/// or not, and takes over only what changed.
pub proof fn changes_lead_to_the_crc(crc: Crc, existing: TableConfiguration)
    ensures
        match changed_metadata(crc, existing) {
            Some(metadata) => metadata == crc.metadata@ && metadata != existing.metadata@,
            None => existing.metadata@ == crc.metadata@,
        },
        match changed_protocol(crc, existing) {
            Some(protocol) => protocol == crc.protocol@ && protocol != existing.protocol@,
            None => existing.protocol@ == crc.protocol@,
        },
{
}

/// Replay of the commits after a version starts from a CRC only if that is of a later version.
pub proof fn only_later_crcs_seed_replay(base: Option<Arc<Crc>>, version: Version)
    ensures
        newer_crc(base, version) matches Some(crc) ==> base == Some(crc) && crc.version > version,
        newer_crc(base, version) is None ==> (base matches Some(crc) ==> crc.version <= version),
{
}

/// A snapshot that is kept stays at its version with all it holds; it is known as the latest if it
/// was, or now is.
pub proof fn kept_snapshots_stay(
    existing: Arc<Snapshot>,
    built_as_latest: bool,
    r: DeltaResult<Arc<Snapshot>>,
)
    requires
        reused(existing, built_as_latest, r),
    ensures
        r is Ok,
        (*r->Ok_0)@.log_segment == existing@.log_segment,
        (*r->Ok_0)@.table_configuration == existing@.table_configuration,
        (*r->Ok_0)@.base_crc == existing@.base_crc,
        (*r->Ok_0)@.built_as_latest == (existing@.built_as_latest || built_as_latest),
{
}

/// The event of a load counts the files of the segment by their kinds, and how far the CRC file is
/// behind.
pub proof fn loads_count_their_files(
    context: SnapshotLoadMetricContext,
    segment: SegmentV,
    duration_ns: u64,
)
    ensures
        segment_load_event(context, segment, duration_ns) matches MetricEvent::LogSegmentLoadSuccess(
            e,
        ) && {
            &&& e.num_commit_files == segment.listed.commits.len() as u64
            &&& e.num_checkpoint_files == segment.listed.checkpoint_parts.len() as u64
            &&& e.num_compaction_files == segment.listed.compactions.len() as u64
            &&& e.crc_versions_behind is Some <==> segment.listed.latest_crc_file is Some
            &&& segment.listed.latest_crc_file matches Some(crc) ==> crc.version
                <= segment.end_version ==> e.crc_versions_behind->0 + crc.version
                == segment.end_version
            &&& segment.listed.latest_crc_file matches Some(crc) ==> crc.version
                > segment.end_version ==> e.crc_versions_behind == Some(0u64)
            &&& e.operation_id == context.operation_id
            &&& e.correlation_id == context.correlation_id
            &&& e.load_type == context.load_type
            &&& e.duration_ns == duration_ns
        },
{
}

} // verus!
