//! What is read to update an earlier scan.

use vstd::prelude::*;

use super::builder::Scan;
use super::dedup_laws::{live_files, live_files_build_on_older};
use super::table_scan::{
    actions_opened, existing_data_plan, existing_replay, full_replay, restore_prepared,
    since_replay, update_replay, ActionsWithCheckpointInfo, ExistingDataPlanV, LogReader,
    ScanMetadataStream, UpdateSource, UpdateStream,
};
use crate::engine::Engine;
use crate::error::{DeltaResult, Error};
use crate::log_replay::{ActionV, KeyV};
use crate::log_segment::{contiguous, LogSegment, ParsedLogPath, SegmentV, Version};
use crate::metrics::events::MetricId;
use crate::snapshot::incremental_laws::{commits_between, lemma_after_between, numbered, Log};
use crate::snapshot::segment_laws::later_files_are_all_kept;

verus! {

/// Whether a segment holds the log up to its end: the commits from `lo` on, which is right after
/// its checkpoint if it has one.
pub open spec fn segment_of_log(segment: SegmentV, log: Log, lo: int) -> bool {
    &&& numbered(log)
    &&& 0 <= lo <= segment.end_version + 1
    &&& segment.listed.commits == commits_between(log, lo, segment.end_version as int)
    &&& segment.checkpoint_version matches Some(checkpoint) ==> lo == checkpoint + 1
}

/// The actions of commits, newest first. `content` gives those of one commit.
pub open spec fn actions_of(
    commits: Seq<ParsedLogPath>,
    content: spec_fn(ParsedLogPath) -> Seq<Option<ActionV>>,
) -> Seq<Option<ActionV>>
    decreases commits.len(),
{
    if commits.len() == 0 {
        seq![]
    } else {
        content(commits.last()) + actions_of(commits.drop_last(), content)
    }
}

proof fn lemma_actions_of_both(
    older: Seq<ParsedLogPath>,
    newer: Seq<ParsedLogPath>,
    content: spec_fn(ParsedLogPath) -> Seq<Option<ActionV>>,
)
    ensures
        actions_of(older + newer, content) == actions_of(newer, content) + actions_of(
            older,
            content,
        ),
    decreases newer.len(),
{
    if newer.len() == 0 {
        assert(older + newer =~= older);
        assert(actions_of(newer, content) + actions_of(older, content) =~= actions_of(
            older,
            content,
        ));
    } else {
        let all = older + newer;
        assert(all.drop_last() =~= older + newer.drop_last());
        assert(all.last() == newer.last());
        lemma_actions_of_both(older, newer.drop_last(), content);
        assert(actions_of(all, content) =~= actions_of(newer, content) + actions_of(
            older,
            content,
        ));
    }
}

/// An update reads what was committed since the earlier scan, all of it and nothing else: every
/// commit of the versions after the existing one up to the end, each once and in order. Data of
/// the current version needs none; data from before the checkpoint cannot be updated, so the
/// whole log is read; data from a later version is refused.
pub proof fn updates_read_every_newer_commit(
    segment: SegmentV,
    log: Log,
    lo: int,
    existing: Version,
)
    requires
        segment_of_log(segment, log, lo),
        segment.checkpoint_version is None ==> lo == 0,
    ensures
        ({
            let end = segment.end_version;
            let plan = existing_data_plan(segment, end, existing);
            &&& existing > end <==> plan is Err
            &&& existing == end <==> plan is Ok && plan->Ok_0 is ExistingOnly
            &&& existing + 1 < lo && existing < end <==> plan is Ok && plan->Ok_0 is FullScan
            &&& lo <= existing + 1 && existing < end ==> (plan matches Ok(
                ExistingDataPlanV::Since(since),
            ) && since.listed.commits == commits_between(log, existing + 1, end as int)
                && since.end_version == end && since.checkpoint_version is None
                && since.listed.checkpoint_parts.len() == 0 && since.listed.compactions.len() == 0
                && since.log_root == segment.log_root)
        }),
{
    let end = segment.end_version;
    if lo <= existing + 1 && existing < end {
        lemma_after_between(log, lo, end as int, existing);
        let commits = commits_between(log, existing + 1, end as int);
        assert(contiguous(commits));
        assert(commits.last() == log(end as int));
    }
}

/// What an update reads is what is missing: the actions that it reads, on top of the files that
/// were live at the existing version, give the files that are live after the whole log. `base`
/// are the files of the checkpoint.
pub proof fn updates_give_the_live_files(
    segment: SegmentV,
    log: Log,
    lo: int,
    existing: Version,
    content: spec_fn(ParsedLogPath) -> Seq<Option<ActionV>>,
    base: Set<KeyV>,
)
    requires
        segment_of_log(segment, log, lo),
        segment.checkpoint_version is None ==> lo == 0,
        lo <= existing + 1,
        existing < segment.end_version,
    ensures
        existing_data_plan(segment, segment.end_version, existing) matches Ok(
            ExistingDataPlanV::Since(since),
        ) && live_files(
            actions_of(since.listed.commits, content),
            live_files(actions_of(commits_between(log, lo, existing as int), content), base),
        ) == live_files(actions_of(segment.listed.commits, content), base),
{
    updates_read_every_newer_commit(segment, log, lo, existing);
    let older = commits_between(log, lo, existing as int);
    let newer = commits_between(log, existing + 1, segment.end_version as int);
    assert(segment.listed.commits =~= older + newer);
    lemma_actions_of_both(older, newer, content);
    live_files_build_on_older(actions_of(newer, content), actions_of(older, content), base);
}

/// An update from a later version is refused. One from the same version reads no log, only the
/// existing files; one from a version before the checkpoint reads the whole log and no existing
/// files; any other reads both, and of the log only commits after the existing version.
pub proof fn updates_read_the_log_and_existing_files<E: Engine, T, L: LogReader<T>>(
    scan: &Scan<T>,
    engine: &E,
    reader: &L,
    operation_id: MetricId,
    existing: Version,
    r: DeltaResult<UpdateStream<E, L::Actions>>,
)
    requires
        update_replay(scan, engine, reader, operation_id, existing, r),
    ensures
        ({
            let current = scan.snapshot.table_configuration.version;
            let outdated = scan.snapshot.log_segment.checkpoint_version matches Some(checkpoint)
                && checkpoint > existing;
            &&& existing > current ==> r is Err
            &&& r is Ok && existing == current ==> r->Ok_0.actions is None && r->Ok_0.restore
                is Some
            &&& r is Ok && existing < current && outdated ==> r->Ok_0.actions is Some
                && r->Ok_0.restore is None
            &&& r is Ok && existing < current && !outdated ==> r->Ok_0.actions is Some
                && r->Ok_0.restore is Some && tail_opened(
                scan,
                reader,
                existing,
                r->Ok_0.actions->0,
            )
        }),
{
    let current = scan.snapshot.table_configuration.version;
    if r is Ok && existing < current {
        let restore = choose|restore: DeltaResult<E::ExpressionEvaluator>| #[trigger]
            restore_prepared(engine, restore) && match restore {
                Err(e) => r == Err::<UpdateStream<E, L::Actions>, _>(e),
                Ok(restore) => match existing_data_plan(
                    scan.snapshot.log_segment@,
                    current,
                    existing,
                ) {
                    Err(e) => r is Err && r->Err_0@ == e,
                    Ok(ExistingDataPlanV::ExistingOnly) => existing_replay(
                        scan,
                        engine,
                        operation_id,
                        restore,
                        r,
                    ),
                    Ok(ExistingDataPlanV::FullScan) => exists|
                        full: DeltaResult<ScanMetadataStream<E, L::Actions>>,
                    | #[trigger]
                        full_replay(scan, engine, reader, operation_id, full) && match full {
                            Err(e) => r == Err::<UpdateStream<E, L::Actions>, _>(e),
                            Ok(full) => r == Ok::<_, Error>(
                                UpdateStream {
                                    actions: Some(full.actions),
                                    restore: None,
                                    replay: full.replay,
                                },
                            ),
                        },
                    Ok(ExistingDataPlanV::Since(segment)) => since_replay(
                        scan,
                        engine,
                        reader,
                        operation_id,
                        segment,
                        restore,
                        r,
                    ),
                },
            };
        if let Ok(ExistingDataPlanV::Since(segment)) = existing_data_plan(
            scan.snapshot.log_segment@,
            current,
            existing,
        ) {
            assert forall|i: int| 0 <= i < segment.listed.commits.len() implies (
            #[trigger] segment.listed.commits[i]).version > existing by {
                let f = segment.listed.commits[i];
                assert(segment.listed.commits.contains(f));
                later_files_are_all_kept(scan.snapshot.log_segment@.listed.commits, existing, f);
            }
        }
    }
}

/// Whether `actions` are what the reader gave for a segment of commits after the existing version.
pub open spec fn tail_opened<T, L: LogReader<T>>(
    scan: &Scan<T>,
    reader: &L,
    existing: Version,
    actions: L::Actions,
) -> bool {
    exists|
        segment: LogSegment,
        token: Option<T>,
        opened: DeltaResult<ActionsWithCheckpointInfo<L::Actions>>,
    |
        #[trigger] actions_opened(scan, reader, &segment, None, &token, opened) && opened is Ok
            && opened->Ok_0.actions == actions && segment@.listed.checkpoint_parts.len() == 0 && (
        forall|i: int|
            0 <= i < segment@.listed.commits.len() ==> (
            #[trigger] segment@.listed.commits[i]).version > existing)
}

/// An update takes new actions first, as long as there are any, then the existing files, and ends
/// once neither is left: the newest action of a file is seen first.
pub proof fn updates_take_new_actions_first<E: Engine, A>(
    stream: &UpdateStream<E, A>,
    actions_ended: bool,
    existing_ended: bool,
    source: UpdateSource,
)
    requires
        call_ensures(
            UpdateStream::<E, A>::next_source,
            (stream, actions_ended, existing_ended),
            source,
        ),
    ensures
        source is NewActions <==> stream.actions is Some && !actions_ended,
        source is ExistingData ==> stream.restore is Some && !existing_ended && (stream.actions
            is None || actions_ended),
        source is End <==> (stream.actions is None || actions_ended) && (stream.restore is None
            || existing_ended),
{
}

} // verus!
