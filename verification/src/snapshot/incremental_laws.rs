//! What an incremental update guarantees of the log segment that it builds.

use vstd::prelude::*;

use super::incremental::{assembled, combined_files, NewSegmentV};
use crate::error::ErrorV;
use crate::log_segment::{
    after, contiguous, segment_of, FilesV, LastCheckpointHint, ParsedLogPath, SegmentV, Version,
};

verus! {

/// A log: the commit file of each version.
pub type Log = spec_fn(int) -> ParsedLogPath;

/// Whether the log names each commit by its version.
pub open spec fn numbered(log: Log) -> bool {
    forall|v: int| 0 <= v <= u64::MAX ==> (#[trigger] log(v)).version == v
}

/// The commits from version `lo` to version `hi`, both ends taken; empty if `lo` is `hi + 1`.
pub open spec fn commits_between(log: Log, lo: int, hi: int) -> Seq<ParsedLogPath> {
    Seq::new((hi + 1 - lo) as nat, |i: int| log(lo + i))
}

pub proof fn lemma_after_between(log: Log, lo: int, hi: int, v: Version)
    requires
        numbered(log),
        0 <= lo <= hi + 1,
        hi <= u64::MAX,
    ensures
        after(commits_between(log, lo, hi), v) == commits_between(
            log,
            if v + 1 <= lo {
                lo
            } else if v <= hi {
                v + 1
            } else {
                hi + 1
            },
            hi,
        ),
    decreases hi + 1 - lo,
{
    reveal(Seq::filter);
    let files = commits_between(log, lo, hi);
    let newer = |f: ParsedLogPath| f.version > v;
    if files.len() > 0 {
        lemma_after_between(log, lo, hi - 1, v);
        assert(files.drop_last() =~= commits_between(log, lo, hi - 1));
        assert(files.last() == log(hi));
        let from = if v + 1 <= lo {
            lo
        } else if v <= hi {
            v + 1
        } else {
            hi + 1
        };
        if hi > v {
            assert(after(files, v) =~= after(files.drop_last(), v).push(log(hi)));
            assert(after(files, v) =~= commits_between(log, from, hi));
        } else {
            assert(after(files, v) =~= after(files.drop_last(), v));
            assert(after(files, v) =~= commits_between(log, from, hi));
        }
    } else {
        assert(after(files, v) =~= seq![]);
    }
}

proof fn lemma_between_contiguous(log: Log, lo: int, hi: int)
    requires
        numbered(log),
        0 <= lo <= hi + 1,
        hi <= u64::MAX,
    ensures
        contiguous(commits_between(log, lo, hi)),
{
}

/// Whether a segment's files are those of the log up to `end`: a checkpoint, if there is one, the
/// commits from `lo` on, which is right after the checkpoint, and no CRC older than it.
pub open spec fn files_of_log(files: FilesV, log: Log, lo: int, end: int) -> bool {
    &&& 0 <= lo <= end + 1
    &&& end <= u64::MAX
    &&& files.commits == commits_between(log, lo, end)
    &&& files.checkpoint_version() matches Some(checkpoint) ==> lo == checkpoint + 1
    &&& files.checkpoint_version() is Some && files.latest_crc_file is Some
        ==> files.latest_crc_file->0.version >= files.checkpoint_version()->0
}

pub(crate) proof fn lemma_forms_segment(
    files: FilesV,
    log: Log,
    lo: int,
    end: Version,
    log_root: Seq<char>,
    requested: Option<Version>,
    hint: Option<LastCheckpointHint>,
)
    requires
        numbered(log),
        files_of_log(files, log, lo, end as int),
        lo <= end || files.checkpoint_version() is Some,
        requested is None || requested == Some(end),
    ensures
        segment_of(files, log_root, requested, hint) == Ok::<_, ErrorV>(
            SegmentV {
                end_version: end,
                checkpoint_version: files.checkpoint_version(),
                log_root,
                listed: files,
                hint,
            },
        ),
{
    lemma_between_contiguous(log, lo, end as int);
    if files.commits.len() > 0 {
        assert(files.commits.last() == log(end as int));
        assert(files.commits[0] == log(lo));
    }
}

proof fn lemma_combined_files(
    log: Log,
    existing: FilesV,
    old_lo: int,
    old_end: Version,
    listed: FilesV,
    new_lo: int,
    new_end: Version,
)
    requires
        numbered(log),
        files_of_log(existing, log, old_lo, old_end as int),
        files_of_log(listed, log, new_lo, new_end as int),
        old_end <= new_end,
        old_lo <= new_lo <= old_end + 1,
        listed.checkpoint_version() matches Some(checkpoint) ==> checkpoint <= old_end,
        existing.checkpoint_version() is Some && listed.latest_crc_file is Some
            ==> listed.latest_crc_file->0.version >= existing.checkpoint_version()->0,
    ensures
        ({
            let combined = combined_files(existing, old_end, listed);
            let checkpoint = listed.checkpoint_version();
            &&& files_of_log(
                combined,
                log,
                if checkpoint is Some {
                    new_lo
                } else {
                    old_lo
                },
                new_end as int,
            )
            &&& combined.checkpoint_version() == (if checkpoint is Some {
                checkpoint
            } else {
                existing.checkpoint_version()
            })
        }),
{
    let checkpoint = listed.checkpoint_version();
    let combined = combined_files(existing, old_end, listed);
    lemma_after_between(log, new_lo, new_end as int, old_end);
    if let Some(v) = checkpoint {
        lemma_after_between(log, old_lo, old_end as int, v);
        assert(combined.commits =~= commits_between(log, new_lo, new_end as int));
    } else {
        assert(combined.commits =~= commits_between(log, old_lo, new_end as int));
    }
}

proof fn lemma_assembles(
    existing: SegmentV,
    version: Version,
    listed: FilesV,
    requested: Option<Version>,
    segment: SegmentV,
    combined: SegmentV,
)
    requires
        listed.commits.len() > 0 || listed.checkpoint_parts.len() > 0,
        segment_of(listed, existing.log_root, requested, None) == Ok::<_, ErrorV>(segment),
        segment.end_version >= version,
        segment.checkpoint_version matches Some(c) ==> c <= version,
        segment.end_version > version || segment.checkpoint_version is Some,
        segment_of(
            combined_files(existing.listed, version, listed),
            existing.log_root,
            requested,
            if segment.checkpoint_version is Some {
                None
            } else {
                existing.hint
            },
        ) == Ok::<_, ErrorV>(combined),
    ensures
        assembled(existing, version, listed, requested) == Ok::<_, ErrorV>(
            NewSegmentV::Combined(combined),
        ),
{
}

/// An incremental update finds what a fresh listing would: with the existing segment at version
/// `old_end`, and a listing of the same log up to `new_end` that has brought new commits or a
/// newer checkpoint at or below `old_end`, the combined segment has the newest checkpoint and
/// every commit after it up to `new_end`, each once and in order. No commit is lost and none
/// repeated. The existing segment starts at `old_lo`, the listing at `new_lo`.
#[verifier::spinoff_prover]
pub proof fn incremental_update_equals_fresh_listing(
    log: Log,
    existing: SegmentV,
    old_lo: int,
    old_end: Version,
    listed: FilesV,
    new_lo: int,
    new_end: Version,
    requested: Option<Version>,
)
    requires
        numbered(log),
        files_of_log(existing.listed, log, old_lo, old_end as int),
        files_of_log(listed, log, new_lo, new_end as int),
        old_end <= new_end,
        old_lo <= new_lo <= old_end + 1,
        old_end < new_end || listed.checkpoint_version() is Some,
        listed.checkpoint_version() matches Some(checkpoint) ==> checkpoint <= old_end,
        existing.listed.checkpoint_version() is Some && listed.latest_crc_file is Some
            ==> listed.latest_crc_file->0.version >= existing.listed.checkpoint_version()->0,
        requested is None || requested == Some(new_end),
    ensures
        ({
            let first = if listed.checkpoint_version() is Some {
                new_lo
            } else {
                old_lo
            };
            assembled(existing, old_end, listed, requested) matches Ok(
                NewSegmentV::Combined(segment),
            ) && segment.end_version == new_end && segment.listed.commits == commits_between(
                log,
                first,
                new_end as int,
            ) && files_of_log(segment.listed, log, first, new_end as int)
                && segment.checkpoint_version == (if listed.checkpoint_version() is Some {
                listed.checkpoint_version()
            } else {
                existing.listed.checkpoint_version()
            }) && segment.log_root == existing.log_root
        }),
{
    let checkpoint = listed.checkpoint_version();
    let combined = combined_files(existing.listed, old_end, listed);
    let first = if checkpoint is Some {
        new_lo
    } else {
        old_lo
    };
    let hint = if checkpoint is Some {
        None
    } else {
        existing.hint
    };
    lemma_combined_files(log, existing.listed, old_lo, old_end, listed, new_lo, new_end);
    lemma_forms_segment(listed, log, new_lo, new_end, existing.log_root, requested, None);
    lemma_forms_segment(combined, log, first, new_end, existing.log_root, requested, hint);
    if checkpoint is None {
        assert(listed.commits.len() > 0);
    }
    let segment = SegmentV {
        end_version: new_end,
        checkpoint_version: checkpoint,
        log_root: existing.log_root,
        listed,
        hint: None,
    };
    let made = SegmentV {
        end_version: new_end,
        checkpoint_version: combined.checkpoint_version(),
        log_root: existing.log_root,
        listed: combined,
        hint,
    };
    lemma_assembles(existing, old_end, listed, requested, segment, made);
}

/// A segment is never built at an older version than the existing snapshot's, nor at another than
/// the requested one. A rebuild starts from a checkpoint that is newer than the existing snapshot.
pub proof fn update_never_moves_back(
    existing: SegmentV,
    version: Version,
    listed: FilesV,
    requested: Option<Version>,
)
    requires
        existing.end_version == version,
        segment_of(existing.listed, existing.log_root, None, existing.hint) == Ok::<_, ErrorV>(
            existing,
        ),
        forall|i: int|
            0 <= i < listed.checkpoint_parts.len() ==> existing.checkpoint_version is Some
                ==> (#[trigger] listed.checkpoint_parts[i]).version
                > existing.checkpoint_version->0,
    ensures
        match assembled(existing, version, listed, requested) {
            Ok(NewSegmentV::Combined(segment)) => segment.end_version >= version && (requested
                matches Some(t) ==> segment.end_version == t),
            Ok(NewSegmentV::Rebuild(segment)) => segment.checkpoint_version matches Some(c)
                && version < c && (requested matches Some(t) ==> segment.end_version == t)
                && segment.end_version >= version,
            _ => true,
        },
{
    if let Ok(NewSegmentV::Combined(segment)) = assembled(existing, version, listed, requested) {
        let combined = combined_files(existing.listed, version, listed);
        let new_commits = after(listed.commits, version);
        reveal(Seq::filter);
        if new_commits.len() > 0 {
            lemma_after_members(listed.commits, version);
            assert(combined.commits.last() == new_commits.last());
        } else {
            lemma_after_last(listed.commits, version);
            if let Some(c) = listed.checkpoint_version() {
                lemma_after_last(existing.listed.commits, c);
                if existing.listed.commits.len() == 0 {
                    assert(listed.checkpoint_parts[0].version > existing.checkpoint_version->0);
                }
            }
            assert(combined.commits =~= super::incremental::above_checkpoint(
                existing.listed.commits,
                listed.checkpoint_version(),
            ));
        }
    }
}

proof fn lemma_after_members(files: Seq<ParsedLogPath>, v: Version)
    ensures
        forall|i: int| 0 <= i < after(files, v).len() ==> (#[trigger] after(files, v)[i]).version > v,
    decreases files.len(),
{
    reveal(Seq::filter);
    if files.len() > 0 {
        lemma_after_members(files.drop_last(), v);
    }
}

/// If the newest file survives it is still the last one.
proof fn lemma_after_last(files: Seq<ParsedLogPath>, v: Version)
    ensures
        files.len() > 0 && files.last().version > v ==> after(files, v).len() > 0 && after(
            files,
            v,
        ).last() == files.last(),
{
    reveal(Seq::filter);
}

/// The combined segment never carries a CRC file older than its checkpoint.
pub proof fn combined_crc_not_older_than_checkpoint(
    existing: SegmentV,
    version: Version,
    listed: FilesV,
    requested: Option<Version>,
)
    ensures
        assembled(existing, version, listed, requested) matches Ok(NewSegmentV::Combined(segment))
            ==> (segment.listed.latest_crc_file matches Some(crc)
            ==> (segment.checkpoint_version matches Some(checkpoint)
            ==> crc.version >= checkpoint)),
{
}

} // verus!
