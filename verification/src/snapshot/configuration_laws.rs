//! What an incremental update guarantees of protocol, metadata and table configuration.

use std::sync::Arc;

use vstd::prelude::*;

use super::incremental::{
    advanced, assembled, changed_metadata, changed_protocol, configured, log_listed, newer_crc,
    pm_failure_event, replayed, reused, segment_built, updated, NewSegment,
};
use super::incremental_laws::{
    commits_between, files_of_log, incremental_update_equals_fresh_listing, lemma_after_between,
    numbered, Log,
};
use super::state::{
    Crc, IncrementalReplay, Metadata, MetadataV, Protocol, ProtocolV, Snapshot, SnapshotLoader,
    TableConfiguration, TableConfigurationV,
};
use crate::error::{option_view, DeltaResult, Error};
use crate::log_segment::{
    segment_after, FilesV, LogSegment, LogSegmentFiles, ParsedLogPath, SegmentV, Version,
};
use crate::metrics::events::{
    added, MetricEvent, ProtocolMetadataSource, SnapshotLoadMetricContext,
};

verus! {

/// What each commit of a table says of its protocol and metadata.
pub struct History {
    pub metadata: spec_fn(int) -> Option<MetadataV>,
    pub protocol: spec_fn(int) -> Option<ProtocolV>,
}

/// The newest of the values at `lo` to `hi`, both ends taken.
pub open spec fn newest<T>(values: spec_fn(int) -> Option<T>, lo: int, hi: int) -> Option<T>
    decreases hi + 1 - lo,
{
    if hi < lo {
        None
    } else {
        match values(hi) {
            Some(t) => Some(t),
            None => newest(values, lo, hi - 1),
        }
    }
}

/// `new` if there is one, else `old`.
pub open spec fn or_else<T>(new: Option<T>, old: T) -> T {
    match new {
        Some(t) => t,
        None => old,
    }
}

proof fn lemma_newest_splits<T>(values: spec_fn(int) -> Option<T>, lo: int, mid: int, hi: int)
    requires
        lo <= mid + 1,
        mid <= hi,
    ensures
        newest(values, lo, hi) == (match newest(values, mid + 1, hi) {
            Some(t) => Some(t),
            None => newest(values, lo, mid),
        }),
    decreases hi - mid,
{
    if mid < hi {
        lemma_newest_splits(values, lo, mid, hi - 1);
    }
}

impl History {
    /// The table's metadata at a version.
    pub open spec fn metadata_at(self, version: Version) -> Option<MetadataV> {
        newest(self.metadata, 0, version as int)
    }

    /// The table's protocol at a version.
    pub open spec fn protocol_at(self, version: Version) -> Option<ProtocolV> {
        newest(self.protocol, 0, version as int)
    }

    /// Whether the table has protocol and metadata at a version.
    pub open spec fn exists_at(self, version: Version) -> bool {
        self.metadata_at(version) is Some && self.protocol_at(version) is Some
    }

    /// Whether a CRC, if there is one, holds the table's state at its version, which is at most
    /// `end`.
    pub open spec fn crc_right(self, crc: Option<Arc<Crc>>, end: Version) -> bool {
        crc matches Some(crc) ==> crc.version <= end && self.metadata_at(crc.version) == Some(
            crc.metadata@,
        ) && self.protocol_at(crc.version) == Some(crc.protocol@)
    }
}

/// The configuration that a table has, given its metadata and protocol, its root and its version.
pub type Configuring = spec_fn(MetadataV, ProtocolV, Seq<char>, Version) -> TableConfigurationV;

/// Whether configurations hold what they were made from.
pub open spec fn faithful(config: Configuring) -> bool {
    forall|m: MetadataV, p: ProtocolV, root: Seq<char>, v: Version|
        {
            let c = #[trigger] config(m, p, root, v);
            c.metadata == m && c.protocol == p && c.table_root == root && c.version == v
        }
}

/// Whether `c` is the configuration that a fresh build of the table makes at a version.
pub open spec fn fresh_configuration(
    history: History,
    config: Configuring,
    root: Seq<char>,
    version: Version,
    c: TableConfigurationV,
) -> bool {
    history.exists_at(version) && c == config(
        history.metadata_at(version)->0,
        history.protocol_at(version)->0,
        root,
        version,
    )
}

/// Whether the loader reads this table: its answers, where it gives any, are those of a log with
/// this history.
pub open spec fn reads<L: SnapshotLoader>(
    loader: &L,
    log: Log,
    history: History,
    config: Configuring,
) -> bool {
    &&& forall|segment: &LogSegment, in_memory: &Option<Arc<Crc>>, base: Option<Arc<Crc>>|
        #[trigger] call_ensures(L::pick_latest_base_crc, (loader, segment, in_memory), base)
            && history.crc_right(*in_memory, segment.end_version) ==> history.crc_right(
            base,
            segment.end_version,
        )
    &&& forall|
        segment: &LogSegment,
        base: &Option<Arc<Crc>>,
        replay: IncrementalReplay,
        built: DeltaResult<Option<(Arc<Crc>, ProtocolMetadataSource)>>,
    |
        #[trigger] call_ensures(
            L::try_build_crc_within_budget,
            (loader, segment, base, replay),
            built,
        ) && history.crc_right(*base, segment.end_version) ==> (built matches Ok(Some((crc, _)))
            ==> crc.version == segment.end_version && history.crc_right(
            Some(crc),
            segment.end_version,
        ))
    &&& forall|
        tail: &LogSegment,
        base: &Option<Arc<Crc>>,
        pm: DeltaResult<(Option<Metadata>, Option<Protocol>, ProtocolMetadataSource)>,
    | #[trigger]
        call_ensures(L::read_protocol_metadata, (loader, tail, base), pm) ==> tail_read(
            log,
            history,
            tail@,
            *base,
            pm,
        )
    &&& forall|
        existing: &TableConfiguration,
        m: Option<Metadata>,
        p: Option<Protocol>,
        version: Version,
        c: DeltaResult<TableConfiguration>,
    |
        #[trigger] call_ensures(
            L::table_configuration_from,
            (loader, existing, m, p, version),
            c,
        ) && c is Ok ==> c->Ok_0@ == config(
            or_else(option_view(m), existing.metadata@),
            or_else(option_view(p), existing.protocol@),
            existing.table_root@,
            version,
        )
    &&& forall|
        root: &String,
        segment: LogSegment,
        context: SnapshotLoadMetricContext,
        replay: IncrementalReplay,
        latest: bool,
        loaded: DeltaResult<Snapshot>,
    |
        #[trigger] call_ensures(
            L::load_from_log_segment,
            (loader, root, segment, context, replay, latest),
            loaded,
        ) && loaded is Ok ==> fresh_configuration(
            history,
            config,
            root@,
            segment.end_version,
            loaded->Ok_0.table_configuration@,
        )
}

/// Whether reading the commits of a tail gave the newest protocol and metadata among them. A CRC
/// stands for all commits up to its version.
pub open spec fn tail_read(
    log: Log,
    history: History,
    tail: SegmentV,
    base: Option<Arc<Crc>>,
    pm: DeltaResult<(Option<Metadata>, Option<Protocol>, ProtocolMetadataSource)>,
) -> bool {
    forall|lo: int|
        #![trigger commits_between(log, lo, tail.end_version as int)]
        0 <= lo <= tail.end_version + 1 && tail.listed.commits == commits_between(
            log,
            lo,
            tail.end_version as int,
        ) ==> (pm matches Ok((m, p, _)) ==> match base {
            None => option_view(m) == newest(history.metadata, lo, tail.end_version as int)
                && option_view(p) == newest(history.protocol, lo, tail.end_version as int),
            Some(crc) => option_view(m) == Some(
                or_else(
                    newest(history.metadata, crc.version + 1, tail.end_version as int),
                    crc.metadata@,
                ),
            ) && option_view(p) == Some(
                or_else(
                    newest(history.protocol, crc.version + 1, tail.end_version as int),
                    crc.protocol@,
                ),
            ),
        })
}

/// Whether what was listed are files of the log, as a listing after the checkpoint of the existing
/// segment finds them: nothing new, or the log from `new_lo` to `new_end`. The existing segment
/// starts at `old_lo` and ends at `old_end`.
pub open spec fn listing_of_log(
    log: Log,
    existing: FilesV,
    old_lo: int,
    old_end: Version,
    listed: FilesV,
    new_lo: int,
    new_end: Version,
) -> bool {
    &&& files_of_log(listed, log, new_lo, new_end as int)
    &&& old_lo <= new_lo
    &&& listed.checkpoint_version() is None ==> new_lo <= old_end + 1 && new_lo <= new_end
    &&& existing.checkpoint_version() is Some && listed.latest_crc_file is Some
        ==> listed.latest_crc_file->0.version >= existing.checkpoint_version()->0
}

/// Whether the loader lists this log.
pub open spec fn lists<L: SnapshotLoader>(
    loader: &L,
    log: Log,
    existing: SegmentV,
    old_lo: int,
    old_end: Version,
    log_tail: Vec<ParsedLogPath>,
    requested: Option<Version>,
) -> bool {
    forall|files: LogSegmentFiles|
        #![trigger log_listed(loader, existing, log_tail, requested, Ok::<_, Error>(files))]
        log_listed(loader, existing, log_tail, requested, Ok::<_, Error>(files)) ==> (
        files@.commits.len() == 0 && files@.checkpoint_parts.len() == 0) || exists|
            new_lo: int,
            new_end: Version,
        | #[trigger]
            listing_of_log(log, existing.listed, old_lo, old_end, files@, new_lo, new_end)
}

/// The metadata of a CRC, if the existing snapshot has another.
pub open spec fn metadata_of_crc(crc: Arc<Crc>, existing: Arc<Snapshot>) -> Option<MetadataV> {
    changed_metadata(*crc, existing.table_configuration)
}

/// The protocol of a CRC, if the existing snapshot has another.
pub open spec fn protocol_of_crc(crc: Arc<Crc>, existing: Arc<Snapshot>) -> Option<ProtocolV> {
    changed_protocol(*crc, existing.table_configuration)
}

/// Configuring a snapshot from new protocol and metadata gives the configuration of a fresh build,
/// if these, or the existing ones where there are none, are those at the new version.
proof fn lemma_configured<L: SnapshotLoader>(
    loader: &L,
    log: Log,
    history: History,
    config: Configuring,
    before: Seq<MetricEvent>,
    later: Seq<MetricEvent>,
    context: SnapshotLoadMetricContext,
    existing: Arc<Snapshot>,
    segment: LogSegment,
    metadata: Option<MetadataV>,
    protocol: Option<ProtocolV>,
    source: ProtocolMetadataSource,
    crc: Option<Arc<Crc>>,
    latest: bool,
    s: Arc<Snapshot>,
)
    requires
        reads(loader, log, history, config),
        history.metadata_at(segment.end_version) == Some(
            or_else(metadata, existing.table_configuration.metadata@),
        ),
        history.protocol_at(segment.end_version) == Some(
            or_else(protocol, existing.table_configuration.protocol@),
        ),
        configured(
            loader,
            before,
            later,
            context,
            *existing,
            segment,
            metadata,
            protocol,
            source,
            crc,
            latest,
            Ok(s),
        ),
    ensures
        fresh_configuration(
            history,
            config,
            existing.table_configuration.table_root@,
            segment.end_version,
            s.table_configuration@,
        ),
{
}

proof fn lemma_replayed<L: SnapshotLoader>(
    loader: &L,
    log: Log,
    history: History,
    config: Configuring,
    before: Seq<MetricEvent>,
    later: Seq<MetricEvent>,
    context: SnapshotLoadMetricContext,
    existing: Arc<Snapshot>,
    segment: LogSegment,
    first: int,
    base: Option<Arc<Crc>>,
    latest: bool,
    s: Arc<Snapshot>,
)
    requires
        numbered(log),
        reads(loader, log, history, config),
        0 <= first <= existing.table_configuration.version + 1,
        existing.table_configuration.version <= segment.end_version,
        segment@.listed.commits == commits_between(log, first, segment.end_version as int),
        history.metadata_at(existing.table_configuration.version) == Some(
            existing.table_configuration.metadata@,
        ),
        history.protocol_at(existing.table_configuration.version) == Some(
            existing.table_configuration.protocol@,
        ),
        history.crc_right(base, segment.end_version),
        replayed(loader, before, later, context, *existing, segment, base, latest, Ok(s)),
    ensures
        fresh_configuration(
            history,
            config,
            existing.table_configuration.table_root@,
            segment.end_version,
            s.table_configuration@,
        ),
{
    let version = existing.table_configuration.version;
    let end = segment.end_version;
    let (tail, newer, pm) = choose|
        tail: LogSegment,
        newer: Option<Arc<Crc>>,
        pm: DeltaResult<(Option<Metadata>, Option<Protocol>, ProtocolMetadataSource)>,
    |
        tail@ == segment_after(segment@, version) && newer == newer_crc(base, version)
            && #[trigger] call_ensures(L::read_protocol_metadata, (loader, &tail, &newer), pm)
            && match pm {
            Err(e) => Ok::<Arc<Snapshot>, Error>(s) == Err::<Arc<Snapshot>, _>(e) && added(
                before,
                later,
                pm_failure_event(context),
            ),
            Ok((m, p, source)) => configured(
                loader,
                before,
                later,
                context,
                *existing,
                segment,
                option_view(m),
                option_view(p),
                source,
                base,
                latest,
                Ok(s),
            ),
        };
    lemma_after_between(log, first, end as int, version);
    let lo = version + 1;
    assert(tail@.listed.commits == commits_between(log, lo, end as int));
    assert(tail_read(log, history, tail@, newer, pm));
    let (m, p, source) = pm->Ok_0;
    match newer {
        Some(crc) => {
            lemma_newest_splits(history.metadata, 0, crc.version as int, end as int);
            lemma_newest_splits(history.protocol, 0, crc.version as int, end as int);
        },
        None => {
            lemma_newest_splits(history.metadata, 0, version as int, end as int);
            lemma_newest_splits(history.protocol, 0, version as int, end as int);
        },
    }
    lemma_configured(
        loader,
        log,
        history,
        config,
        before,
        later,
        context,
        existing,
        segment,
        option_view(m),
        option_view(p),
        source,
        base,
        latest,
        s,
    );
}

proof fn lemma_advanced<L: SnapshotLoader>(
    loader: &L,
    log: Log,
    history: History,
    config: Configuring,
    before: Seq<MetricEvent>,
    later: Seq<MetricEvent>,
    context: SnapshotLoadMetricContext,
    existing: Arc<Snapshot>,
    segment: LogSegment,
    first: int,
    replay: IncrementalReplay,
    latest: bool,
    s: Arc<Snapshot>,
)
    requires
        numbered(log),
        reads(loader, log, history, config),
        0 <= first <= existing.table_configuration.version + 1,
        existing.table_configuration.version <= segment.end_version,
        segment@.listed.commits == commits_between(log, first, segment.end_version as int),
        history.metadata_at(existing.table_configuration.version) == Some(
            existing.table_configuration.metadata@,
        ),
        history.protocol_at(existing.table_configuration.version) == Some(
            existing.table_configuration.protocol@,
        ),
        history.crc_right(existing.base_crc, existing.table_configuration.version),
        advanced(loader, before, later, context, *existing, segment, replay, latest, Ok(s)),
    ensures
        fresh_configuration(
            history,
            config,
            existing.table_configuration.table_root@,
            segment.end_version,
            s.table_configuration@,
        ),
{
    let (base, built) = choose|
        base: Option<Arc<Crc>>,
        built: DeltaResult<Option<(Arc<Crc>, ProtocolMetadataSource)>>,
    |
        #[trigger] call_ensures(
            L::pick_latest_base_crc,
            (loader, &segment, &existing.base_crc),
            base,
        ) && #[trigger] call_ensures(
            L::try_build_crc_within_budget,
            (loader, &segment, &base, replay),
            built,
        ) && match built {
            Err(e) => false,
            Ok(Some((crc, source))) => configured(
                loader,
                before,
                later,
                context,
                *existing,
                segment,
                changed_metadata(*crc, existing.table_configuration),
                changed_protocol(*crc, existing.table_configuration),
                source,
                Some(crc),
                latest,
                Ok(s),
            ),
            Ok(None) => replayed(
                loader,
                before,
                later,
                context,
                *existing,
                segment,
                base,
                latest,
                Ok(s),
            ),
        };
    match built {
        Ok(Some((crc, source))) => {
            lemma_configured(
                loader,
                log,
                history,
                config,
                before,
                later,
                context,
                existing,
                segment,
                metadata_of_crc(crc, existing),
                protocol_of_crc(crc, existing),
                source,
                Some(crc),
                latest,
                s,
            );
        },
        _ => {
            lemma_replayed(
                loader,
                log,
                history,
                config,
                before,
                later,
                context,
                existing,
                segment,
                first,
                base,
                latest,
                s,
            );
        },
    }
}

/// An incremental update gives the table configuration of a fresh build: from a snapshot that is
/// right for its version, with a loader that reads the same table, protocol, metadata and
/// everything that follows from them are those of the table at the new version. That version is at
/// least the existing one, and the requested one if there is one.
#[verifier::spinoff_prover]
pub proof fn update_configures_like_fresh_build<L: SnapshotLoader>(
    loader: &L,
    log: Log,
    history: History,
    config: Configuring,
    before: Seq<MetricEvent>,
    later: Seq<MetricEvent>,
    context: SnapshotLoadMetricContext,
    existing: Arc<Snapshot>,
    old_lo: int,
    log_tail: Vec<ParsedLogPath>,
    requested: Option<Version>,
    replay: IncrementalReplay,
    latest: bool,
    s: Arc<Snapshot>,
)
    requires
        numbered(log),
        faithful(config),
        reads(loader, log, history, config),
        lists(
            loader,
            log,
            existing.log_segment@,
            old_lo,
            existing.table_configuration.version,
            log_tail,
            requested,
        ),
        files_of_log(
            existing.log_segment@.listed,
            log,
            old_lo,
            existing.table_configuration.version as int,
        ),
        fresh_configuration(
            history,
            config,
            existing.table_configuration.table_root@,
            existing.table_configuration.version,
            existing.table_configuration@,
        ),
        history.crc_right(existing.base_crc, existing.table_configuration.version),
        updated(
            loader,
            before,
            later,
            context,
            existing,
            log_tail,
            requested,
            replay,
            latest,
            Ok(s),
        ),
    ensures
        fresh_configuration(
            history,
            config,
            existing.table_configuration.table_root@,
            s.table_configuration.version,
            s.table_configuration@,
        ),
        s.table_configuration.version >= existing.table_configuration.version,
        requested matches Some(t) ==> s.table_configuration.version == t,
{
    let version = existing.table_configuration.version;
    let segment = existing.log_segment@;
    let built = choose|built: DeltaResult<NewSegment>| #[trigger]
        segment_built(loader, segment, version, log_tail, requested, built) && match built {
            Err(_) => false,
            Ok(NewSegment::Unchanged) => reused(existing, latest, Ok(s)),
            Ok(NewSegment::Rebuild(segment)) => exists|loaded: DeltaResult<Snapshot>| #[trigger]
                call_ensures(
                    L::load_from_log_segment,
                    (
                        loader,
                        &existing.table_configuration.table_root,
                        segment,
                        context,
                        replay,
                        latest,
                    ),
                    loaded,
                ) && loaded is Ok && *s == loaded->Ok_0,
            Ok(NewSegment::Combined(segment)) => exists|loaded: Seq<MetricEvent>| #[trigger]
                advanced(
                    loader,
                    loaded,
                    later,
                    context,
                    *existing,
                    segment,
                    replay,
                    latest,
                    Ok(s),
                ),
        };
    let listed = choose|listed: DeltaResult<LogSegmentFiles>| #[trigger]
        log_listed(loader, segment, log_tail, requested, listed) && match listed {
            Err(_) => false,
            Ok(files) => assembled(segment, version, files@, requested) matches Ok(new)
                && built->Ok_0@ == new,
        };
    let files = listed->Ok_0;
    assert(log_listed(loader, segment, log_tail, requested, Ok::<_, Error>(files)));
    match built->Ok_0 {
        NewSegment::Unchanged => {
            assert(s.table_configuration@ == existing.table_configuration@);
        },
        NewSegment::Rebuild(new) => {},
        NewSegment::Combined(new) => {
            let (new_lo, new_end) = choose|new_lo: int, new_end: Version| #[trigger]
                listing_of_log(log, segment.listed, old_lo, version, files@, new_lo, new_end);
            if files@.commits.len() > 0 {
                assert(files@.commits.last() == log(new_end as int));
            }
            incremental_update_equals_fresh_listing(
                log,
                segment,
                old_lo,
                version,
                files@,
                new_lo,
                new_end,
                requested,
            );
            let first = if files@.checkpoint_version() is Some {
                new_lo
            } else {
                old_lo
            };
            let loaded = choose|loaded: Seq<MetricEvent>| #[trigger]
                advanced(
                    loader,
                    loaded,
                    later,
                    context,
                    *existing,
                    new,
                    replay,
                    latest,
                    Ok(s),
                );
            lemma_advanced(
                loader,
                log,
                history,
                config,
                loaded,
                later,
                context,
                existing,
                new,
                first,
                replay,
                latest,
                s,
            );
        },
    }
}

} // verus!
