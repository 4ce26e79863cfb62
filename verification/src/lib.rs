//! Table-state logic of a Delta Lake reader: log replay, data skipping, incremental
//! snapshots and scan planning, with every rule stated as a contract.

pub mod engine;
pub mod error;
pub mod expressions;
pub mod kernel_predicates;
pub mod log_replay;
pub mod log_segment;
pub mod metrics;
pub mod parallel;
pub mod scan;
pub mod schema;
pub mod snapshot;
pub mod table_planning;
pub mod text;
pub mod time;
pub mod uri;
pub mod uri_laws;
pub mod utils;
