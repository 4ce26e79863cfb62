//! Table snapshots.

pub mod configuration_laws;
pub mod incremental;
pub mod incremental_laws;
pub mod segment_laws;
pub mod state;

pub use state::{
    Crc, IncrementalReplay, Metadata, Protocol, Snapshot, SnapshotLoader, SnapshotRef,
    TableConfiguration,
};
