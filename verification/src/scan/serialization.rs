//! Handing a scan's log replay to another process.

use std::sync::Arc;

use vstd::prelude::*;

use super::log_replay::{
    processor_made, CheckpointReadInfo, ScanLogReplayProcessor, ScanPartitionValuesOptions,
    ScanStatsOptions,
};
use super::physical_predicate::PhysicalPredicate;
use super::state_info::{clone_opt_transform, StateInfo};
use super::transform_spec::TransformSpec;
use crate::engine::Engine;
use crate::error::{DeltaResult, Error, ErrorV};
use crate::expressions::column::ColumnSet;
use crate::expressions::expression::PredicateRef;
use crate::expressions::opaque::pred_opaque;
use crate::log_replay::FileKeySet;
use crate::schema::{clone_opt_schema, ColumnMappingMode, SchemaRef};

verus! {

/// Internal serializable state (schemas, transform spec, column mapping, etc.)
/// NOTE: This is opaque to the user - it is passed through as a blob.
#[derive(Debug)]
pub struct InternalScanState {
    pub logical_schema: SchemaRef,
    pub physical_schema: SchemaRef,
    pub predicate_schema: Option<SchemaRef>,
    pub transform_spec: Option<Arc<TransformSpec>>,
    pub column_mapping_mode: ColumnMappingMode,
    /// Physical stats schema for reading/parsing stats from checkpoint files
    pub physical_stats_schema: Option<SchemaRef>,
    pub stats_options: ScanStatsOptions,
    pub partition_values_options: ScanPartitionValuesOptions,
    /// Physical partition schema for checkpoint partition pruning via `partitionValues_parsed`
    pub physical_partition_schema: Option<SchemaRef>,
    /// Physical leaf paths which are expected to have stats collected. Carried alongside
    /// `physical_stats_schema` so the distributed `DataSkippingFilter` rebuilds the same
    /// filter the sequential phase used.
    pub physical_stats_columns: ColumnSet,
    pub is_catalog_managed: bool,
    pub skip_row_transforms: bool,
}

/// Serializable processor state for distributed processing. This can be serialized through the
/// default serialization, or through custom serialization in the engine.
///
/// This struct contains all the information needed to reconstruct a `ScanLogReplayProcessor`
/// on remote compute nodes, enabling distributed log replay processing.
///
/// # Serialization Limitations
///
/// - **Opaque expressions**: Predicates containing opaque predicates or expressions cannot be
///   serialized. Connectors that require opaque expression support can work around this by
///   serializing the predicate separately using their own serialization mechanism, then
///   reconstructing the processor state on the remote node.
///
/// - **Large state**: The `seen_file_keys` field can be large for tables with many commits.
///   Connectors are free to serialize this field using their own format (e.g., more compact binary
///   representations).
pub struct SerializableScanState {
    /// Optional predicate for data skipping (if provided)
    pub predicate: Option<PredicateRef>,
    /// Opaque internal state blob
    pub internal_state_blob: Vec<u8>,
    /// Set of file action keys that have already been processed.
    pub seen_file_keys: FileKeySet,
    /// Information about checkpoint reading for stats optimization
    pub checkpoint_info: CheckpointReadInfo,
}

/// Turns the internal state into bytes and back. On failure the codec says why.
pub trait StateCodec {
    fn encode(&self, state: &InternalScanState) -> Result<Vec<u8>, String>;

    fn decode(&self, blob: &Vec<u8>) -> Result<InternalScanState, String>;
}

/// The predicate of a scan, if it has one that can skip data.
pub open spec fn carried_predicate(p: PhysicalPredicate) -> Option<PredicateRef> {
    match p {
        PhysicalPredicate::Present(pred, _) => Some(pred),
        _ => None,
    }
}

/// The schema of the columns that a scan's predicate refers to.
pub open spec fn carried_predicate_schema(p: PhysicalPredicate) -> Option<SchemaRef> {
    match p {
        PhysicalPredicate::Present(_, schema) => Some(schema),
        _ => None,
    }
}

impl InternalScanState {
    /// Whether this is the internal state of a scan.
    pub open spec fn is_of(
        &self,
        state_info: &StateInfo,
        stats_options: ScanStatsOptions,
        partition_values_options: ScanPartitionValuesOptions,
    ) -> bool {
        &&& self.logical_schema == state_info.logical_schema
        &&& self.physical_schema == state_info.physical_schema
        &&& self.predicate_schema == carried_predicate_schema(state_info.physical_predicate)
        &&& self.transform_spec == state_info.transform_spec
        &&& self.column_mapping_mode == state_info.column_mapping_mode
        &&& self.physical_stats_schema == state_info.physical_stats_schema
        &&& self.stats_options == stats_options
        &&& self.partition_values_options == partition_values_options
        &&& self.physical_partition_schema == state_info.physical_partition_schema
        &&& self.physical_stats_columns@ == state_info.physical_stats_columns@
        &&& self.is_catalog_managed == state_info.is_catalog_managed
        &&& self.skip_row_transforms == state_info.skip_row_transforms
    }

    /// The internal state of a scan.
    pub fn from_state_info(
        state_info: &StateInfo,
        stats_options: ScanStatsOptions,
        partition_values_options: ScanPartitionValuesOptions,
    ) -> (state: InternalScanState)
        ensures
            state.is_of(state_info, stats_options, partition_values_options),
    {
        let predicate_schema = match &state_info.physical_predicate {
            PhysicalPredicate::Present(_, schema) => Some(schema.clone()),
            _ => None,
        };
        InternalScanState {
            logical_schema: state_info.logical_schema.clone(),
            physical_schema: state_info.physical_schema.clone(),
            predicate_schema,
            transform_spec: clone_opt_transform(&state_info.transform_spec),
            column_mapping_mode: state_info.column_mapping_mode,
            physical_stats_schema: clone_opt_schema(&state_info.physical_stats_schema),
            stats_options,
            partition_values_options,
            physical_partition_schema: clone_opt_schema(&state_info.physical_partition_schema),
            physical_stats_columns: state_info.physical_stats_columns.clone(),
            is_catalog_managed: state_info.is_catalog_managed,
            skip_row_transforms: state_info.skip_row_transforms,
        }
    }

    /// Whether `r` is the scan state that this internal state and a predicate restore: an error if
    /// there is a predicate but no schema for it.
    pub open spec fn restores(
        self,
        predicate: Option<PredicateRef>,
        r: DeltaResult<StateInfo>,
    ) -> bool {
        if predicate is Some && self.predicate_schema is None {
            r is Err && r->Err_0@ == ErrorV::Generic(
                "Invalid serialized internal state. Expected predicate schema."@,
            )
        } else {
            r is Ok && r->Ok_0 == (StateInfo {
                logical_schema: self.logical_schema,
                physical_schema: self.physical_schema,
                physical_predicate: match predicate {
                    Some(p) => PhysicalPredicate::Present(p, self.predicate_schema->0),
                    None => PhysicalPredicate::Absent,
                },
                transform_spec: self.transform_spec,
                column_mapping_mode: self.column_mapping_mode,
                physical_stats_schema: self.physical_stats_schema,
                physical_partition_schema: self.physical_partition_schema,
                physical_stats_columns: self.physical_stats_columns,
                is_catalog_managed: self.is_catalog_managed,
                skip_row_transforms: self.skip_row_transforms,
            })
        }
    }

    /// The scan state that this internal state and a predicate restore.
    pub fn into_state_info(self, predicate: Option<PredicateRef>) -> (r: DeltaResult<StateInfo>)
        ensures
            self.restores(predicate, r),
    {
        let physical_predicate = match predicate {
            Some(predicate) => match self.predicate_schema {
                Some(schema) => PhysicalPredicate::Present(predicate, schema),
                None => return Err(
                    Error::generic("Invalid serialized internal state. Expected predicate schema."),
                ),
            },
            None => PhysicalPredicate::Absent,
        };
        Ok(
            StateInfo {
                logical_schema: self.logical_schema,
                physical_schema: self.physical_schema,
                physical_predicate,
                transform_spec: self.transform_spec,
                column_mapping_mode: self.column_mapping_mode,
                physical_stats_schema: self.physical_stats_schema,
                physical_partition_schema: self.physical_partition_schema,
                physical_stats_columns: self.physical_stats_columns,
                is_catalog_managed: self.is_catalog_managed,
                skip_row_transforms: self.skip_row_transforms,
            },
        )
    }
}

/// Carrying a scan state over as internal state and predicate restores it: everything is as it
/// was, but a predicate that is known to be FALSE is forgotten.
pub proof fn scan_state_round_trips(
    state_info: &StateInfo,
    stats_options: ScanStatsOptions,
    partition_values_options: ScanPartitionValuesOptions,
    internal: InternalScanState,
    r: DeltaResult<StateInfo>,
)
    requires
        internal.is_of(state_info, stats_options, partition_values_options),
        internal.restores(carried_predicate(state_info.physical_predicate), r),
    ensures
        r is Ok,
        !(state_info.physical_predicate is StaticSkipAll) ==> r->Ok_0.same_as(state_info),
        state_info.physical_predicate is StaticSkipAll ==> r->Ok_0.same_as(
            &(StateInfo { physical_predicate: PhysicalPredicate::Absent, ..*state_info }),
        ),
        internal.stats_options == stats_options,
        internal.partition_values_options == partition_values_options,
{
}

/// What is said of a predicate that cannot be serialized.
pub open spec fn opaque_unserializable() -> ErrorV {
    ErrorV::Unsupported("Cannot serialize an Opaque Predicate"@)
}

/// Whether a scan's predicate holds an opaque part.
pub open spec fn carries_opaque(p: PhysicalPredicate) -> bool {
    match p {
        PhysicalPredicate::Present(pred, _) => pred_opaque(pred@),
        _ => false,
    }
}

/// Whether `r` is the serializable form of a processor: an error if its predicate holds an opaque
/// part; else, for every outcome of encoding its internal state, the state or why it failed.
pub open spec fn serialized<E: Engine, C: StateCodec>(
    processor: ScanLogReplayProcessor<E>,
    codec: &C,
    r: DeltaResult<SerializableScanState>,
) -> bool {
    if carries_opaque(processor.plan.state_info.physical_predicate) {
        r is Err && r->Err_0@ == opaque_unserializable()
    } else {
        state_encoded(processor, codec, r)
    }
}

/// The second half of [`serialized`].
pub open spec fn state_encoded<E: Engine, C: StateCodec>(
    processor: ScanLogReplayProcessor<E>,
    codec: &C,
    r: DeltaResult<SerializableScanState>,
) -> bool {
    exists|internal: InternalScanState, blob: Result<Vec<u8>, String>|
        internal.is_of(
            &*processor.plan.state_info,
            processor.stats_options,
            processor.partition_values_options,
        ) && #[trigger] call_ensures(C::encode, (codec, &internal), blob) && match blob {
            Ok(blob) => r is Ok && r->Ok_0 == (SerializableScanState {
                predicate: carried_predicate(processor.plan.state_info.physical_predicate),
                internal_state_blob: blob,
                seen_file_keys: processor.seen_file_keys,
                checkpoint_info: processor.checkpoint_info,
            }),
            Err(why) => r is Err && r->Err_0@ == ErrorV::Generic(
                "Failed to serialize internal state: "@ + why@,
            ),
        }
}

/// Whether `r` is the processor that a serialized state makes, for every outcome of decoding its
/// internal state and of preparing evaluators.
pub open spec fn deserialized<E: Engine, C: StateCodec>(
    engine: &E,
    codec: &C,
    state: SerializableScanState,
    r: DeltaResult<ScanLogReplayProcessor<E>>,
) -> bool {
    exists|internal: Result<InternalScanState, String>| #[trigger]
        call_ensures(C::decode, (codec, &state.internal_state_blob), internal) && match internal {
            Err(why) => r is Err && r->Err_0@ == ErrorV::MalformedJson(why@),
            Ok(internal) => exists|info: DeltaResult<StateInfo>| #[trigger]
                internal.restores(state.predicate, info) && match info {
                    Err(e) => r is Err && r->Err_0@ == e@,
                    Ok(info) => processor_made(
                        engine,
                        Arc::new(info),
                        state.checkpoint_info,
                        state.seen_file_keys@,
                        internal.stats_options,
                        internal.partition_values_options,
                        r,
                    ),
                },
        }
}

impl<E: Engine> ScanLogReplayProcessor<E> {
    /// Serialize the processor state for distributed processing.
    ///
    /// Consumes the processor and returns a `SerializableScanState` containing:
    /// - The predicate (if any) for data skipping
    /// - An opaque internal state blob (schemas, transform spec, column mapping mode)
    /// - The set of seen file keys with their deletion vector information
    ///
    /// The returned state can be used with `from_serializable_state` to reconstruct the
    /// processor on remote compute nodes.
    ///
    /// WARNING: The SerializableScanState may only be deserialized by the same version of the
    /// library.
    ///
    /// # Errors
    /// Returns an error if the state cannot be serialized: its predicate holds an opaque predicate
    /// or expression, or the codec refuses it.
    pub fn into_serializable_state<C: StateCodec>(self, codec: &C) -> (r: DeltaResult<
        SerializableScanState,
    >)
        ensures
            serialized(self, codec, r),
    {
        let predicate = match &self.plan.state_info.physical_predicate {
            PhysicalPredicate::Present(predicate, _) => {
                if predicate.is_opaque() {
                    return Err(Error::unsupported("Cannot serialize an Opaque Predicate"));
                }
                Some(predicate.clone())
            },
            _ => None,
        };
        let internal_state = InternalScanState::from_state_info(
            &self.plan.state_info,
            self.stats_options,
            self.partition_values_options,
        );
        match codec.encode(&internal_state) {
            Ok(internal_state_blob) => Ok(
                SerializableScanState {
                    predicate,
                    internal_state_blob,
                    seen_file_keys: self.seen_file_keys,
                    checkpoint_info: self.checkpoint_info,
                },
            ),
            Err(why) => Err(
                Error::Generic(
                    "Failed to serialize internal state: ".to_string().concat(why.as_str()),
                ),
            ),
        }
    }

    /// Reconstruct a processor from serialized state.
    ///
    /// Creates a new processor with the provided state. The filter, the transforms and the seen
    /// file keys are reconstructed from the serialized state and engine.
    ///
    /// # Parameters
    /// - `engine`: Engine for creating evaluators and filters
    /// - `codec`: Reads the internal state blob
    /// - `state`: The serialized state containing predicate, internal state blob, and seen file
    ///   keys
    pub fn from_serializable_state<C: StateCodec>(
        engine: &E,
        codec: &C,
        state: SerializableScanState,
    ) -> (r: DeltaResult<Self>)
        requires
            state.seen_file_keys.wf(),
        ensures
            deserialized(engine, codec, state, r),
    {
        let decoded = codec.decode(&state.internal_state_blob);
        let ghost given = decoded;
        let internal_state = match decoded {
            Ok(internal_state) => internal_state,
            Err(why) => return Err(Error::MalformedJson(why)),
        };
        let stats_options = internal_state.stats_options;
        let partition_values_options = internal_state.partition_values_options;
        let restored = internal_state.into_state_info(state.predicate);
        let ghost info = restored;
        assert(internal_state.restores(state.predicate, info));
        let state_info = match restored {
            Ok(state_info) => Arc::new(state_info),
            Err(e) => return Err(e),
        };
        ScanLogReplayProcessor::new_with_seen_files(
            engine,
            state_info,
            state.checkpoint_info,
            state.seen_file_keys,
            stats_options,
            partition_values_options,
        )
    }
}

} // verus!
