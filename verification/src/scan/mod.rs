//! Scans over a table snapshot.

pub mod add_transform;
pub mod add_transform_laws;
pub mod batch_laws;
pub mod builder;
pub mod data_skipping;
pub mod dedup_laws;
pub mod dedup_visitor;
pub mod execute;
pub mod file_laws;
pub mod filter_laws;
pub mod log_replay;
pub mod metrics;
pub mod options;
pub mod partition_filter;
pub mod partition_power_laws;
pub mod partition_value_laws;
pub mod partition_values;
pub mod physical_predicate;
pub mod plan_laws;
pub mod process_batch;
pub mod replay;
pub mod scan_metadata;
pub mod resolution_laws;
pub mod row_laws;
pub mod schemas;
pub mod serialization;
pub mod skipping_laws;
pub mod skipping_power_laws;
pub mod state_info;
pub mod table_scan;
pub mod transform_laws;
pub mod transform_spec;
pub mod update_laws;

pub use builder::{Scan, ScanBuilder};
pub use options::{PartitionValuesOptions, StatsOptions, StructStats};
pub use scan_metadata::{get_transform_for_row, ScanMetadata};
pub use schemas::scan_row_schema;

pub use crate::parallel::parallel_scan_metadata::{
    AfterSequentialScanMetadata, ParallelScanMetadata, ParallelState, SequentialScanMetadata,
};
