//! Scan metadata in two phases: commits and checkpoint manifests in sequence, then the files that
//! a checkpoint consists of in parallel.

use std::sync::Arc;
use std::time::Instant;

use vstd::prelude::*;

use crate::engine::Engine;
use crate::error::{DeltaResult, Error, ErrorV};
use crate::expressions::expression::PredicateRef;
use crate::log_replay::{keys_view, ActionsBatch, FileActionKey, FileKeySet};
use crate::metrics::events::{added, MetricEvent, MetricId, ScanType};
use crate::scan::builder::Scan;
use crate::scan::log_replay::{processor_made, CheckpointReadInfo, ScanLogReplayProcessor};
use crate::scan::metrics::{completed_event, ScanMetrics};
use crate::scan::partition_values::ScalarParser;
use crate::scan::process_batch::{only_checkpoints, with_seen_count, BatchRun};
use crate::scan::replay::{batch_processed, batch_taken, ReplayStep};
use crate::scan::scan_metadata::ScanMetadata;
use crate::scan::schemas::{
    checkpoint_read_fields, checkpoint_read_schema, checkpoint_read_schema_no_json_stats,
};
use crate::scan::serialization::{
    deserialized, serialized, SerializableScanState, StateCodec,
};
use crate::schema::SchemaRef;
use crate::text::clone_opt_string;
use crate::time::nanos_since;

verus! {

/// A file in storage.
#[derive(Debug, PartialEq)]
pub struct FileMeta {
    pub location: String,
    pub last_modified: i64,
    pub size: u64,
}

/// Result of the sequential phase.
pub enum AfterSequentialScanMetadata<E: Engine> {
    /// All processing complete sequentially - no parallel phase needed.
    Done,
    /// Parallel phase needed - distribute files for parallel processing.
    Parallel { state: Box<ParallelState<E>>, files: Vec<FileMeta> },
}

/// What the sequential phase is fed with.
pub enum SequentialInput<B> {
    /// The next batch of commits or checkpoint manifests, newest first.
    Batch(DeltaResult<ActionsBatch<B>>),
    /// The end, with the files that the checkpoint consists of and that have not been read.
    End(Vec<FileMeta>),
}

/// Sequential scan metadata processing.
///
/// This phase processes commits and checkpoint manifests sequentially. After the end, call
/// `finish()` to determine whether a parallel phase is needed.
pub struct SequentialScanMetadata<E: Engine> {
    pub processor: ScanLogReplayProcessor<E>,
    /// The files that are left for the parallel phase, once the end was reached.
    pub leaf_files: Option<Vec<FileMeta>>,
    pub operation_id: MetricId,
    pub correlation_id: Option<String>,
    pub start: Instant,
}

/// What is said when the sequential phase has not reached its end.
pub open spec fn not_exhausted() -> ErrorV {
    ErrorV::Generic("Must exhaust iterator before calling finish()"@)
}

impl<E: Engine> SequentialScanMetadata<E> {
    pub open spec fn wf(&self) -> bool {
        self.processor.wf()
    }

    /// The event that reports the sequential phase.
    pub open spec fn phase_event(&self, duration_ns: u64) -> MetricEvent {
        MetricEvent::ScanMetadataCompleted(
            completed_event(
                self.processor.metrics,
                self.operation_id,
                self.processor.plan.state_info.is_catalog_managed,
                self.correlation_id,
                ScanType::SequentialPhase,
                duration_ns,
            ),
        )
    }

    /// Starts the sequential phase.
    pub fn new(
        processor: ScanLogReplayProcessor<E>,
        operation_id: MetricId,
        correlation_id: Option<String>,
    ) -> (sequential: Self)
        ensures
            sequential.processor == processor,
            sequential.leaf_files is None,
            sequential.operation_id == operation_id,
            sequential.correlation_id == correlation_id,
    {
        SequentialScanMetadata {
            processor,
            leaf_files: None,
            operation_id,
            correlation_id,
            start: Instant::now(),
        }
    }

    /// Takes the next batch, or the end. Nothing is taken after the end.
    pub fn step<P: ScalarParser>(
        &mut self,
        engine: &E,
        parser: &P,
        input: SequentialInput<E::Batch>,
    ) -> (step: ReplayStep<E::Batch>)
        requires
            old(self).wf(),
        ensures
            final(self).wf(),
            if old(self).leaf_files is Some {
                step is End && *final(self) == *old(self)
            } else {
                match input {
                    SequentialInput::End(files) => step is End && *final(self) == (
                    SequentialScanMetadata { leaf_files: Some(files), ..*old(self) }),
                    SequentialInput::Batch(Err(e)) => step == ReplayStep::Item::<E::Batch>(Err(e))
                        && *final(self) == *old(self),
                    SequentialInput::Batch(Ok(batch)) => {
                        &&& *final(self) == (SequentialScanMetadata {
                            processor: final(self).processor,
                            ..*old(self)
                        })
                        &&& batch_taken(
                            engine,
                            parser,
                            old(self).processor,
                            final(self).processor,
                            batch,
                            step,
                        )
                    },
                }
            },
    {
        if self.leaf_files.is_some() {
            return ReplayStep::End;
        }
        let batch = match input {
            SequentialInput::End(files) => {
                self.leaf_files = Some(files);
                return ReplayStep::End;
            },
            SequentialInput::Batch(Err(e)) => return ReplayStep::Item(Err(e)),
            SequentialInput::Batch(Ok(batch)) => batch,
        };
        let ghost before = self.processor;
        let r = self.processor.process_actions_batch(engine, parser, batch);
        assert(batch_processed(engine, parser, before, self.processor, batch, r));
        match r {
            Ok(metadata) => if metadata.has_selected_rows() {
                ReplayStep::Item(Ok(metadata))
            } else {
                ReplayStep::Again
            },
            Err(e) => ReplayStep::Item(Err(e)),
        }
    }

    /// Complete the sequential phase and get the result of processing.
    ///
    /// The end must have been reached. Reports the counters of the phase by one event, which is
    /// added to `events`, and starts the parallel phase, if there are files left for one, with
    /// counters at zero.
    pub fn finish(self, events: &mut Vec<MetricEvent>) -> (r: DeltaResult<
        AfterSequentialScanMetadata<E>,
    >)
        requires
            self.wf(),
        ensures
            match self.leaf_files {
                None => r is Err && r->Err_0@ == not_exhausted() && final(events)@ == old(events)@,
                Some(files) => {
                    &&& r is Ok
                    &&& exists|ns: u64| #[trigger]
                        added(old(events)@, final(events)@, self.phase_event(ns))
                    &&& if files@.len() == 0 {
                        r->Ok_0 is Done
                    } else {
                        r->Ok_0 matches AfterSequentialScanMetadata::Parallel {
                            state,
                            files: left,
                        } && left == files && state.inner == (ScanLogReplayProcessor {
                            metrics: ScanMetrics::zero(),
                            ..self.processor
                        }) && state.operation_id == self.operation_id && state.correlation_id
                            == self.correlation_id
                    }
                },
            },
    {
        let files = match self.leaf_files {
            Some(files) => files,
            None => return Err(Error::generic("Must exhaust iterator before calling finish()")),
        };
        let duration_ns: u64 = nanos_since(&self.start);
        let event = self.processor.get_metrics().to_event(
            self.operation_id.clone(),
            self.processor.is_catalog_managed(),
            clone_opt_string(&self.correlation_id),
            ScanType::SequentialPhase,
            duration_ns,
        );
        events.push(MetricEvent::ScanMetadataCompleted(event));
        assert(added(old(events)@, events@, self.phase_event(duration_ns)));
        if files.len() == 0 {
            return Ok(AfterSequentialScanMetadata::Done);
        }
        let mut processor = self.processor;
        processor.metrics.reset_counters();
        let state = ParallelState {
            inner: processor,
            operation_id: self.operation_id,
            correlation_id: self.correlation_id,
            parallel_start: Instant::now(),
        };
        Ok(AfterSequentialScanMetadata::Parallel { state: Box::new(state), files })
    }
}

/// Counters with those of the first `n` workers added.
pub open spec fn with_workers(metrics: ScanMetrics, workers: Seq<ScanMetrics>, n: nat) -> ScanMetrics
    decreases n,
{
    if n == 0 {
        metrics
    } else {
        with_workers(metrics, workers, (n - 1) as nat).plus(workers[n - 1])
    }
}

/// State for parallel scan metadata processing.
///
/// This state can be serialized and distributed to remote workers, or shared between workers of
/// one process.
pub struct ParallelState<E: Engine> {
    pub inner: ScanLogReplayProcessor<E>,
    pub operation_id: MetricId,
    pub correlation_id: Option<String>,
    pub parallel_start: Instant,
}

impl<E: Engine> ParallelState<E> {
    pub open spec fn wf(&self) -> bool {
        self.inner.wf()
    }

    /// The event that reports the parallel phase.
    pub open spec fn phase_event(&self, metrics: ScanMetrics, duration_ns: u64) -> MetricEvent {
        MetricEvent::ScanMetadataCompleted(
            completed_event(
                metrics,
                self.operation_id,
                self.inner.plan.state_info.is_catalog_managed,
                self.correlation_id,
                ScanType::ParallelPhase,
                duration_ns,
            ),
        )
    }

    /// Processes a batch of a checkpoint. The counters are the worker's own; they are brought
    /// together by [`ParallelState::log_metrics`].
    pub fn process_actions_batch<P: ScalarParser>(
        &self,
        engine: &E,
        parser: &P,
        actions_batch: ActionsBatch<E::Batch>,
        metrics: &mut ScanMetrics,
    ) -> (r: DeltaResult<ScanMetadata<E::Batch>>)
        requires
            self.wf(),
        ensures
            checkpoint_processed(
                engine,
                parser,
                self.inner,
                actions_batch,
                *old(metrics),
                *final(metrics),
                r,
            ),
    {
        self.inner.process_checkpoint_batch(engine, parser, actions_batch, metrics)
    }

    /// Report the accumulated metrics from parallel processing, by one event which is added to
    /// `events`. The counters are those of the state with those of its workers.
    ///
    /// Call this after all parallel workers complete.
    pub fn log_metrics(&self, workers: &Vec<ScanMetrics>, events: &mut Vec<MetricEvent>)
        ensures
            exists|ns: u64| #[trigger]
                added(
                    old(events)@,
                    final(events)@,
                    self.phase_event(
                        with_workers(self.inner.metrics, workers@, workers@.len()),
                        ns,
                    ),
                ),
    {
        let mut metrics = *self.inner.get_metrics();
        for i in 0..workers.len()
            invariant
                metrics == with_workers(self.inner.metrics, workers@, i as nat),
        {
            metrics = metrics.sum(&workers[i]);
        }
        let duration_ns: u64 = nanos_since(&self.parallel_start);
        let event = metrics.to_event(
            self.operation_id.clone(),
            self.inner.is_catalog_managed(),
            clone_opt_string(&self.correlation_id),
            ScanType::ParallelPhase,
            duration_ns,
        );
        events.push(MetricEvent::ScanMetadataCompleted(event));
        assert(added(old(events)@, events@, self.phase_event(metrics, duration_ns)));
    }

    /// Get the schema to use for reading checkpoint files.
    pub fn file_read_schema(&self) -> (schema: SchemaRef)
        ensures
            schema == self.inner.checkpoint_info.checkpoint_read_schema,
    {
        self.inner.checkpoint_info().checkpoint_read_schema.clone()
    }

    /// Serialize the processor state for distributed processing.
    ///
    /// # Errors
    /// Returns an error if the state cannot be serialized (e.g., contains opaque predicates).
    pub fn into_serializable_state<C: StateCodec>(self, codec: &C) -> (r: DeltaResult<
        SerializableScanState,
    >)
        ensures
            serialized(self.inner, codec, r),
    {
        self.inner.into_serializable_state(codec)
    }

    /// Reconstruct the state from serialized state. Neither the operation id nor the correlation
    /// id survive the serialization boundary; a reconstructed state starts a fresh operation and
    /// has no correlation id.
    pub fn from_serializable_state<C: StateCodec>(
        engine: &E,
        codec: &C,
        state: SerializableScanState,
        operation_id: MetricId,
    ) -> (r: DeltaResult<Self>)
        requires
            state.seen_file_keys.wf(),
        ensures
            state_restored(engine, codec, state, operation_id, r),
    {
        let inner = ScanLogReplayProcessor::from_serializable_state(engine, codec, state);
        let ghost answer = inner;
        match inner {
            Ok(inner) => Ok(
                ParallelState {
                    inner,
                    operation_id,
                    correlation_id: None,
                    parallel_start: Instant::now(),
                },
            ),
            Err(e) => Err(e),
        }
    }

    /// Serialize this state directly to bytes.
    pub fn into_bytes<C: StateCodec, B: BytesCodec>(self, codec: &C, bytes_codec: &B) -> (r:
        DeltaResult<Vec<u8>>)
        ensures
            exists|state: DeltaResult<SerializableScanState>| #[trigger]
                serialized(self.inner, codec, state) && match state {
                    Err(e) => r == Err::<Vec<u8>, _>(e),
                    Ok(state) => bytes_made(bytes_codec, state, r),
                },
    {
        let state = self.into_serializable_state(codec);
        let ghost answer = state;
        let state = match state {
            Ok(state) => state,
            Err(e) => return Err(e),
        };
        let r = match bytes_codec.to_bytes(&state) {
            Ok(bytes) => Ok(bytes),
            Err(why) => Err(
                Error::Generic(
                    "Failed to serialize ParallelState to bytes: ".to_string().concat(why.as_str()),
                ),
            ),
        };
        assert(bytes_made(bytes_codec, state, r));
        r
    }

    /// Reconstruct this state from bytes.
    pub fn from_bytes<C: StateCodec, B: BytesCodec>(
        engine: &E,
        codec: &C,
        bytes_codec: &B,
        bytes: &Vec<u8>,
        operation_id: MetricId,
    ) -> (r: DeltaResult<Self>)
        ensures
            exists|plain: Result<PlainScanState, String>| #[trigger]
                call_ensures(B::from_bytes, (bytes_codec, bytes), plain) && match plain {
                    Err(why) => r is Err && r->Err_0@ == ErrorV::MalformedJson(why@),
                    Ok(plain) => exists|state: SerializableScanState|
                        plain.is_state(state) && #[trigger] state_restored(
                            engine,
                            codec,
                            state,
                            operation_id,
                            r,
                        ),
                },
    {
        let plain = bytes_codec.from_bytes(bytes);
        let ghost answer = plain;
        let plain = match plain {
            Ok(plain) => plain,
            Err(why) => return Err(Error::MalformedJson(why)),
        };
        let state = SerializableScanState {
            predicate: plain.predicate,
            internal_state_blob: plain.internal_state_blob,
            seen_file_keys: FileKeySet::from_members(plain.seen_file_keys),
            checkpoint_info: plain.checkpoint_info,
        };
        Self::from_serializable_state(engine, codec, state, operation_id)
    }
}

/// A serializable scan state with its files as a list.
pub struct PlainScanState {
    pub predicate: Option<PredicateRef>,
    pub internal_state_blob: Vec<u8>,
    pub seen_file_keys: Vec<FileActionKey>,
    pub checkpoint_info: CheckpointReadInfo,
}

impl PlainScanState {
    /// Whether `state` has the same content.
    pub open spec fn is_state(self, state: SerializableScanState) -> bool {
        &&& state.predicate == self.predicate
        &&& state.internal_state_blob == self.internal_state_blob
        &&& state.seen_file_keys.wf()
        &&& state.seen_file_keys@ == keys_view(self.seen_file_keys@).to_set()
        &&& state.checkpoint_info == self.checkpoint_info
    }
}

/// Turns a serializable scan state into bytes and back. On failure the codec says why.
pub trait BytesCodec {
    fn to_bytes(&self, state: &SerializableScanState) -> Result<Vec<u8>, String>;

    fn from_bytes(&self, bytes: &Vec<u8>) -> Result<PlainScanState, String>;
}

/// Whether `r` is the state as bytes, for every outcome of the codec's call.
pub open spec fn bytes_made<B: BytesCodec>(
    codec: &B,
    state: SerializableScanState,
    r: DeltaResult<Vec<u8>>,
) -> bool {
    exists|bytes: Result<Vec<u8>, String>| #[trigger]
        call_ensures(B::to_bytes, (codec, &state), bytes) && match bytes {
            Ok(bytes) => r == Ok::<_, Error>(bytes),
            Err(why) => r is Err && r->Err_0@ == ErrorV::Generic(
                "Failed to serialize ParallelState to bytes: "@ + why@,
            ),
        }
}

/// Whether `r` is the parallel state that a serialized state makes.
pub open spec fn state_restored<E: Engine, C: StateCodec>(
    engine: &E,
    codec: &C,
    state: SerializableScanState,
    operation_id: MetricId,
    r: DeltaResult<ParallelState<E>>,
) -> bool {
    exists|inner: DeltaResult<ScanLogReplayProcessor<E>>| #[trigger]
        deserialized(engine, codec, state, inner) && match inner {
            Err(e) => r == Err::<ParallelState<E>, _>(e),
            Ok(inner) => r is Ok && r->Ok_0.inner == inner && r->Ok_0.operation_id == operation_id
                && r->Ok_0.correlation_id is None,
        }
}

/// Whether `r` is what processing a checkpoint batch gives.
pub open spec fn checkpoint_processed<E: Engine, P: ScalarParser>(
    engine: &E,
    parser: &P,
    processor: ScanLogReplayProcessor<E>,
    batch: ActionsBatch<E::Batch>,
    before: ScanMetrics,
    after: ScanMetrics,
    r: DeltaResult<ScanMetadata<E::Batch>>,
) -> bool {
    if batch.is_log_batch {
        r is Err && r->Err_0@ == only_checkpoints() && after == before
    } else {
        exists|metrics: ScanMetrics|
            after == with_seen_count(metrics, processor.seen_file_keys@, r)
                && #[trigger] processor.plan.processed(
                engine,
                parser,
                batch.actions,
                BatchRun {
                    log_batch: false,
                    seen: processor.seen_file_keys@,
                    seen_after: processor.seen_file_keys@,
                    before,
                    after: metrics,
                },
                r,
            )
    }
}

/// Opens the files that a checkpoint consists of.
pub trait LeafReader {
    /// A stream of batches.
    type Batches;

    fn open(&self, files: Vec<FileMeta>, schema: SchemaRef) -> DeltaResult<Self::Batches>;
}

/// Parallel scan metadata processing: one worker of the parallel phase, with the batches that it
/// processes.
pub struct ParallelScanMetadata<E: Engine, A> {
    pub state: Arc<ParallelState<E>>,
    pub batches: A,
    /// What this worker has counted.
    pub metrics: ScanMetrics,
}

impl<E: Engine, A> ParallelScanMetadata<E, A> {
    /// Creates a new parallel scan metadata processor for the given files.
    pub fn try_new<L: LeafReader<Batches = A>>(
        reader: &L,
        state: Arc<ParallelState<E>>,
        leaf_files: Vec<FileMeta>,
    ) -> (r: DeltaResult<Self>)
        ensures
            exists|batches: DeltaResult<A>| #[trigger]
                call_ensures(
                    L::open,
                    (reader, leaf_files, state.inner.checkpoint_info.checkpoint_read_schema),
                    batches,
                ) && match batches {
                    Err(e) => r == Err::<Self, _>(e),
                    Ok(batches) => r == Ok::<_, Error>(
                        ParallelScanMetadata { state, batches, metrics: ScanMetrics::zero() },
                    ),
                },
    {
        let read_schema = state.file_read_schema();
        match reader.open(leaf_files, read_schema) {
            Ok(batches) => Ok(Self::new_from_iter(state, batches)),
            Err(e) => Err(e),
        }
    }

    /// Creates a new parallel scan metadata processor for batches that the caller reads.
    pub fn new_from_iter(state: Arc<ParallelState<E>>, batches: A) -> (parallel: Self)
        ensures
            parallel == (ParallelScanMetadata { state, batches, metrics: ScanMetrics::zero() }),
    {
        ParallelScanMetadata { state, batches, metrics: ScanMetrics::new() }
    }

    /// Takes the next batch of this worker.
    pub fn step<P: ScalarParser>(
        &mut self,
        engine: &E,
        parser: &P,
        batch: DeltaResult<E::Batch>,
    ) -> (r: DeltaResult<ScanMetadata<E::Batch>>)
        requires
            old(self).state.wf(),
        ensures
            final(self).state == old(self).state,
            final(self).batches == old(self).batches,
            match batch {
                Err(e) => r == Err::<ScanMetadata<E::Batch>, _>(e) && final(self).metrics == old(
                    self,
                ).metrics,
                Ok(actions) => checkpoint_processed(
                    engine,
                    parser,
                    old(self).state.inner,
                    ActionsBatch { actions, is_log_batch: false },
                    old(self).metrics,
                    final(self).metrics,
                    r,
                ),
            },
    {
        match batch {
            Ok(actions) => {
                let mut metrics = self.metrics;
                let r = self.state.process_actions_batch(
                    engine,
                    parser,
                    ActionsBatch::new(actions, false),
                    &mut metrics,
                );
                self.metrics = metrics;
                r
            },
            Err(e) => Err(e),
        }
    }
}

/// What is said of cancellation in a two-phase scan.
pub open spec fn cancellation_unsupported() -> ErrorV {
    ErrorV::Unsupported(
        "cancellation is not supported by parallel_scan_metadata; use scan_metadata for a cancellable scan"@,
    )
}

impl<T> Scan<T> {
    /// Start a parallel scan metadata processing for the table.
    ///
    /// This method returns a [`SequentialScanMetadata`] that processes commits and checkpoint
    /// manifests sequentially. After its end, call `finish()` to determine if a distributed phase
    /// is needed.
    ///
    /// Cancellation is not supported on this path: it errors if a token was set, rather than
    /// silently running to completion. Only [`Scan::scan_metadata`] honors the token.
    pub fn parallel_scan_metadata<E: Engine>(&self, engine: &E, operation_id: MetricId) -> (r:
        DeltaResult<SequentialScanMetadata<E>>)
        ensures
            if self.cancellation_token is Some {
                r is Err && r->Err_0@ == cancellation_unsupported()
            } else {
                exists|info: CheckpointReadInfo, made: DeltaResult<ScanLogReplayProcessor<E>>|
                    !info.has_stats_parsed && !info.has_partition_values_parsed
                        && info.checkpoint_read_schema@ == checkpoint_read_fields(
                        !self.stats.skips_stats(),
                    ) && #[trigger] processor_made(
                        engine,
                        self.state_info,
                        info,
                        Set::empty(),
                        self.spec_stats_options(),
                        self.spec_partition_values_options(),
                        made,
                    ) && match made {
                        Err(e) => r == Err::<SequentialScanMetadata<E>, _>(e),
                        Ok(processor) => r is Ok && r->Ok_0.processor == processor
                            && r->Ok_0.leaf_files is None && r->Ok_0.operation_id == operation_id
                            && r->Ok_0.correlation_id == self.correlation_id,
                    }
            },
    {
        // Fail fast rather than silently ignore a caller-supplied token: the parallel path does
        // not thread cancellation, so honoring a set token would require dropping it on the floor.
        if self.cancellation_token.is_some() {
            return Err(
                Error::unsupported(
                    "cancellation is not supported by parallel_scan_metadata; use scan_metadata for a cancellable scan",
                ),
            );
        }
        // For the sequential/parallel phase approach, a conservative checkpoint_info is used
        // since reading checkpoints by their manifests does not support the stats_parsed
        // optimization.
        let checkpoint_read_schema = if self.skip_stats() {
            checkpoint_read_schema_no_json_stats()
        } else {
            checkpoint_read_schema()
        };
        let checkpoint_info = CheckpointReadInfo {
            has_stats_parsed: false,
            has_partition_values_parsed: false,
            checkpoint_read_schema,
        };
        let made = ScanLogReplayProcessor::new(
            engine,
            self.state_info.clone(),
            checkpoint_info,
            self.stats_options(),
            self.partition_values_options(),
        );
        assert(processor_made(
            engine,
            self.state_info,
            checkpoint_info,
            Set::empty(),
            self.spec_stats_options(),
            self.spec_partition_values_options(),
            made,
        ));
        match made {
            Ok(processor) => Ok(
                SequentialScanMetadata::new(
                    processor,
                    operation_id,
                    clone_opt_string(&self.correlation_id),
                ),
            ),
            Err(e) => Err(e),
        }
    }
}

} // verus!
