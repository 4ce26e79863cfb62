//! Log replay in two phases, the second of which can be distributed.

pub mod parallel_scan_metadata;
pub mod phase_laws;
