//! Running a scan's log replay batch by batch.

use std::time::Instant;

use vstd::prelude::*;

use super::log_replay::ScanLogReplayProcessor;
use super::metrics::{completed_event, ScanMetrics};
use super::partition_values::ScalarParser;
use super::process_batch::{with_seen_count, BatchRun};
use super::scan_metadata::ScanMetadata;
use crate::engine::Engine;
use crate::error::{DeltaResult, Error};
use crate::log_replay::ActionsBatch;
use crate::metrics::events::{added, MetricEvent, MetricId, ScanType};
use crate::text::clone_opt_string;
use crate::time::nanos_since;

verus! {

/// The log replay of a scan in progress. Batches are handed in one by one, newest first.
pub struct ScanReplay<E: Engine> {
    /// `None` if the scan's predicate is known to be FALSE, so that nothing needs to be read.
    pub processor: Option<ScanLogReplayProcessor<E>>,
    /// Whether the scan was cancelled.
    pub cancelled: bool,
    /// Whether the end was reached and reported.
    pub completed: bool,
    pub operation_id: MetricId,
    pub is_catalog_managed: bool,
    pub correlation_id: Option<String>,
    pub start: Instant,
}

/// What handing in a batch gives.
pub enum ReplayStep<B> {
    /// The next item of the scan.
    Item(DeltaResult<ScanMetadata<B>>),
    /// No file of the batch needs to be scanned: hand in the next batch.
    Again,
    /// There are no more items.
    End,
}

impl<E: Engine> ScanReplay<E> {
    pub open spec fn wf(&self) -> bool {
        self.processor matches Some(p) ==> p.wf()
    }

    /// The counters of the scan.
    pub open spec fn counters(&self) -> ScanMetrics {
        match self.processor {
            Some(p) => p.metrics,
            None => ScanMetrics::zero(),
        }
    }

    /// Whether more batches are wanted.
    pub open spec fn active(&self) -> bool {
        self.processor is Some && !self.cancelled
    }

    /// The event that reports the end of the scan.
    pub open spec fn end_event(&self, duration_ns: u64) -> MetricEvent {
        MetricEvent::ScanMetadataCompleted(
            completed_event(
                self.counters(),
                self.operation_id,
                self.is_catalog_managed,
                self.correlation_id,
                ScanType::Full,
                duration_ns,
            ),
        )
    }

    /// Whether more batches are wanted. Without a predicate that could keep a file, or after
    /// cancellation, none are.
    pub fn wants_actions(&self) -> (wants: bool)
        ensures
            wants == self.active(),
    {
        self.processor.is_some() && !self.cancelled
    }

    /// Whether the end of the scan is reported now: by one event the first time, by none later.
    pub open spec fn end_reported(&self, before: Seq<MetricEvent>, after: Seq<MetricEvent>) -> bool {
        if self.completed {
            after == before
        } else {
            exists|ns: u64| #[trigger] added(before, after, self.end_event(ns))
        }
    }

    /// Reports the end of the scan, the first time.
    fn complete(&mut self, events: &mut Vec<MetricEvent>)
        ensures
            *final(self) == (ScanReplay { completed: true, ..*old(self) }),
            old(self).end_reported(old(events)@, final(events)@),
    {
        if self.completed {
            return;
        }
        self.completed = true;
        let counters = match &self.processor {
            Some(processor) => processor.metrics,
            None => ScanMetrics::new(),
        };
        let duration_ns: u64 = nanos_since(&self.start);
        let event = counters.to_event(
            self.operation_id.clone(),
            self.is_catalog_managed,
            clone_opt_string(&self.correlation_id),
            ScanType::Full,
            duration_ns,
        );
        assert(MetricEvent::ScanMetadataCompleted(event) == old(self).end_event(duration_ns));
        events.push(MetricEvent::ScanMetadataCompleted(event));
        assert(added(old(events)@, events@, old(self).end_event(duration_ns)));
    }

    /// Takes the next batch of the log, or `None` at its end. When `cancel_requested`, the scan
    /// ends with [`Error::Cancelled`] as its last item, so that a cancelled listing cannot be
    /// mistaken for a complete one. The end is reported once, and nothing else is: the event is
    /// added to `events`.
    pub fn step<P: ScalarParser>(
        &mut self,
        engine: &E,
        parser: &P,
        events: &mut Vec<MetricEvent>,
        cancel_requested: bool,
        next: Option<DeltaResult<ActionsBatch<E::Batch>>>,
    ) -> (step: ReplayStep<E::Batch>)
        requires
            old(self).wf(),
        ensures
            final(self).wf(),
            if !old(self).active() || (!cancel_requested && next is None) {
                &&& step is End
                &&& *final(self) == (ScanReplay { completed: true, ..*old(self) })
                &&& old(self).end_reported(old(events)@, final(events)@)
            } else if cancel_requested {
                &&& final(events)@ == old(events)@
                &&& step == ReplayStep::Item::<E::Batch>(Err(Error::Cancelled))
                &&& *final(self) == (ScanReplay { cancelled: true, ..*old(self) })
            } else {
                match next->0 {
                    Err(e) => step == ReplayStep::Item::<E::Batch>(Err(e)) && *final(self) == *old(
                        self,
                    ) && final(events)@ == old(events)@,
                    Ok(batch) => {
                        &&& final(events)@ == old(events)@
                        &&& final(self).processor is Some
                        &&& *final(self) == (ScanReplay {
                            processor: final(self).processor,
                            ..*old(self)
                        })
                        &&& batch_taken(
                            engine,
                            parser,
                            old(self).processor->0,
                            final(self).processor->0,
                            batch,
                            step,
                        )
                    },
                }
            },
    {
        if self.processor.is_none() || self.cancelled {
            self.complete(events);
            return ReplayStep::End;
        }
        if cancel_requested {
            self.cancelled = true;
            return ReplayStep::Item(Err(Error::Cancelled));
        }
        let batch = match next {
            Some(Ok(batch)) => batch,
            Some(Err(e)) => return ReplayStep::Item(Err(e)),
            None => {
                self.complete(events);
                return ReplayStep::End;
            },
        };
        match self.processor.take() {
            Some(mut processor) => {
                let ghost before = processor;
                let r = processor.process_actions_batch(engine, parser, batch);
                assert(batch_processed(engine, parser, before, processor, batch, r));
                self.processor = Some(processor);
                match r {
                    Ok(metadata) => if metadata.has_selected_rows() {
                        ReplayStep::Item(Ok(metadata))
                    } else {
                        ReplayStep::Again
                    },
                    Err(e) => ReplayStep::Item(Err(e)),
                }
            },
            None => {
                assert(false);
                ReplayStep::End
            },
        }
    }
}

/// The end of a scan is reported once: the first time that it is reached by one event, and never
/// again.
pub proof fn end_is_reported_once<E: Engine>(
    replay: ScanReplay<E>,
    start: Seq<MetricEvent>,
    first: Seq<MetricEvent>,
    second: Seq<MetricEvent>,
)
    requires
        !replay.completed,
        replay.end_reported(start, first),
        (ScanReplay { completed: true, ..replay }).end_reported(first, second),
    ensures
        exists|ns: u64| first == start.push(#[trigger] replay.end_event(ns)),
        second == first,
{
    let ns = choose|ns: u64| #[trigger] added(start, first, replay.end_event(ns));
    assert(first == start.push(replay.end_event(ns)));
}

/// Whether `r` is what processing a batch gives, and `after` the processor after it.
pub open spec fn batch_processed<E: Engine, P: ScalarParser>(
    engine: &E,
    parser: &P,
    before: ScanLogReplayProcessor<E>,
    after: ScanLogReplayProcessor<E>,
    batch: ActionsBatch<E::Batch>,
    r: DeltaResult<ScanMetadata<E::Batch>>,
) -> bool {
    &&& after.same_scan(&before)
    &&& exists|metrics: ScanMetrics|
        after.metrics == with_seen_count(metrics, after.seen_file_keys@, r)
            && #[trigger] before.plan.processed(
            engine,
            parser,
            batch.actions,
            BatchRun {
                log_batch: batch.is_log_batch,
                seen: before.seen_file_keys@,
                seen_after: after.seen_file_keys@,
                before: before.metrics,
                after: metrics,
            },
            r,
        )
}

/// Whether `step` is what taking a batch gives: an item if a row of it is selected, or its error.
pub open spec fn batch_taken<E: Engine, P: ScalarParser>(
    engine: &E,
    parser: &P,
    before: ScanLogReplayProcessor<E>,
    after: ScanLogReplayProcessor<E>,
    batch: ActionsBatch<E::Batch>,
    step: ReplayStep<E::Batch>,
) -> bool {
    exists|r: DeltaResult<ScanMetadata<E::Batch>>| #[trigger]
        batch_processed(engine, parser, before, after, batch, r) && match r {
            Ok(metadata) => if metadata.scan_files.selection_vector@.contains(true) {
                step == ReplayStep::Item::<E::Batch>(Ok(metadata))
            } else {
                step is Again
            },
            Err(e) => step == ReplayStep::Item::<E::Batch>(Err(e)),
        }
}

} // verus!
