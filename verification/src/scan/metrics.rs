//! Counters kept while a scan replays the log.

use vstd::prelude::*;

use crate::metrics::events::{MetricId, ScanMetadataCompleted, ScanType, TableType};

verus! {

/// Counters of one scan. They wrap around on overflow.
#[derive(Debug, Clone, Copy, PartialEq, Eq, Structural)]
pub struct ScanMetrics {
    /// Adds visited, whether they survive or not.
    pub num_add_files_seen: u64,
    /// Removes visited.
    pub num_remove_files_seen: u64,
    /// Rows visited that hold neither an Add nor a Remove.
    pub num_non_file_actions: u64,
    /// Adds that survived log replay and data skipping.
    pub num_active_add_files: u64,
    /// The total size of the surviving Adds.
    pub active_add_files_bytes: u64,
    /// Rows dropped by data skipping.
    pub num_predicate_filtered: u64,
    /// The largest number of file keys held at once.
    pub peak_hash_set_size: u64,
    /// Time spent in the deduplication visitor.
    pub dedup_visitor_time_ns: u64,
    /// Time spent evaluating data skipping predicates.
    pub predicate_eval_time_ns: u64,
}

/// The sum of two counters, wrapped around.
pub open spec fn bump(counter: u64, by: int) -> u64 {
    ((counter + by) % 0x1_0000_0000_0000_0000) as u64
}

fn bumped(counter: u64, by: u64) -> (sum: u64)
    ensures
        sum == bump(counter, by as int),
{
    ((counter as u128 + by as u128) % 0x1_0000_0000_0000_0000) as u64
}

impl ScanMetrics {
    /// All counters at zero.
    pub open spec fn zero() -> ScanMetrics {
        ScanMetrics {
            num_add_files_seen: 0,
            num_remove_files_seen: 0,
            num_non_file_actions: 0,
            num_active_add_files: 0,
            active_add_files_bytes: 0,
            num_predicate_filtered: 0,
            peak_hash_set_size: 0,
            dedup_visitor_time_ns: 0,
            predicate_eval_time_ns: 0,
        }
    }

    /// Whether two sets of counters agree in all but the measured times.
    pub open spec fn same_counts(self, other: ScanMetrics) -> bool {
        self == (ScanMetrics {
            dedup_visitor_time_ns: self.dedup_visitor_time_ns,
            predicate_eval_time_ns: self.predicate_eval_time_ns,
            ..other
        })
    }

    pub open spec fn with_add_seen(self) -> ScanMetrics {
        ScanMetrics { num_add_files_seen: bump(self.num_add_files_seen, 1), ..self }
    }

    pub open spec fn with_remove_seen(self) -> ScanMetrics {
        ScanMetrics { num_remove_files_seen: bump(self.num_remove_files_seen, 1), ..self }
    }

    pub open spec fn with_non_file_action(self) -> ScanMetrics {
        ScanMetrics { num_non_file_actions: bump(self.num_non_file_actions, 1), ..self }
    }

    pub open spec fn with_active_add_file(self, size: u64) -> ScanMetrics {
        ScanMetrics {
            num_active_add_files: bump(self.num_active_add_files, 1),
            active_add_files_bytes: bump(self.active_add_files_bytes, size as int),
            ..self
        }
    }

    pub open spec fn with_predicate_filtered(self, n: u64) -> ScanMetrics {
        ScanMetrics { num_predicate_filtered: bump(self.num_predicate_filtered, n as int), ..self }
    }

    pub open spec fn with_peak(self, size: u64) -> ScanMetrics {
        ScanMetrics {
            peak_hash_set_size: if size > self.peak_hash_set_size {
                size
            } else {
                self.peak_hash_set_size
            },
            ..self
        }
    }

    /// All counters at zero.
    pub fn new() -> (metrics: ScanMetrics)
        ensures
            metrics == ScanMetrics::zero(),
    {
        ScanMetrics {
            num_add_files_seen: 0,
            num_remove_files_seen: 0,
            num_non_file_actions: 0,
            num_active_add_files: 0,
            active_add_files_bytes: 0,
            num_predicate_filtered: 0,
            peak_hash_set_size: 0,
            dedup_visitor_time_ns: 0,
            predicate_eval_time_ns: 0,
        }
    }

    pub fn incr_add_files_seen(&mut self)
        ensures
            *final(self) == old(self).with_add_seen(),
    {
        self.num_add_files_seen = bumped(self.num_add_files_seen, 1);
    }

    pub fn incr_remove_files_seen(&mut self)
        ensures
            *final(self) == old(self).with_remove_seen(),
    {
        self.num_remove_files_seen = bumped(self.num_remove_files_seen, 1);
    }

    pub fn incr_non_file_actions(&mut self)
        ensures
            *final(self) == old(self).with_non_file_action(),
    {
        self.num_non_file_actions = bumped(self.num_non_file_actions, 1);
    }

    pub fn record_active_add_file(&mut self, size: u64)
        ensures
            *final(self) == old(self).with_active_add_file(size),
    {
        self.num_active_add_files = bumped(self.num_active_add_files, 1);
        self.active_add_files_bytes = bumped(self.active_add_files_bytes, size);
    }

    pub fn add_predicate_filtered(&mut self, n: u64)
        ensures
            *final(self) == old(self).with_predicate_filtered(n),
    {
        self.num_predicate_filtered = bumped(self.num_predicate_filtered, n);
    }

    pub fn update_peak_hash_set_size(&mut self, size: u64)
        ensures
            *final(self) == old(self).with_peak(size),
    {
        if size > self.peak_hash_set_size {
            self.peak_hash_set_size = size;
        }
    }

    pub fn add_dedup_visitor_time_ns(&mut self, ns: u64)
        ensures
            *final(self) == (ScanMetrics {
                dedup_visitor_time_ns: bump(old(self).dedup_visitor_time_ns, ns as int),
                ..*old(self)
            }),
    {
        self.dedup_visitor_time_ns = bumped(self.dedup_visitor_time_ns, ns);
    }

    pub fn add_predicate_eval_time_ns(&mut self, ns: u64)
        ensures
            *final(self) == (ScanMetrics {
                predicate_eval_time_ns: bump(old(self).predicate_eval_time_ns, ns as int),
                ..*old(self)
            }),
    {
        self.predicate_eval_time_ns = bumped(self.predicate_eval_time_ns, ns);
    }

    /// Sets all counters back to zero.
    pub fn reset_counters(&mut self)
        ensures
            *final(self) == ScanMetrics::zero(),
    {
        *self = ScanMetrics::new();
    }
}

/// The event of a completed scan, or of a phase of it.
pub open spec fn completed_event(
    metrics: ScanMetrics,
    operation_id: MetricId,
    is_catalog_managed: bool,
    correlation_id: Option<String>,
    scan_type: ScanType,
    duration_ns: u64,
) -> ScanMetadataCompleted {
    ScanMetadataCompleted {
        operation_id,
        correlation_id,
        table_type: if is_catalog_managed {
            TableType::CatalogManaged
        } else {
            TableType::PathBased
        },
        scan_type,
        duration_ns,
        num_add_files_seen: metrics.num_add_files_seen,
        num_active_add_files: metrics.num_active_add_files,
        active_add_files_bytes: metrics.active_add_files_bytes,
        num_remove_files_seen: metrics.num_remove_files_seen,
        num_non_file_actions: metrics.num_non_file_actions,
        num_predicate_filtered: metrics.num_predicate_filtered,
        peak_hash_set_size: metrics.peak_hash_set_size,
        dedup_visitor_time_ns: metrics.dedup_visitor_time_ns,
        predicate_eval_time_ns: metrics.predicate_eval_time_ns,
    }
}

impl ScanMetrics {
    /// The event that reports these counters.
    pub fn to_event(
        &self,
        operation_id: MetricId,
        is_catalog_managed: bool,
        correlation_id: Option<String>,
        scan_type: ScanType,
        duration_ns: u64,
    ) -> (event: ScanMetadataCompleted)
        ensures
            event == completed_event(
                *self,
                operation_id,
                is_catalog_managed,
                correlation_id,
                scan_type,
                duration_ns,
            ),
    {
        ScanMetadataCompleted {
            operation_id,
            correlation_id,
            table_type: if is_catalog_managed {
                TableType::CatalogManaged
            } else {
                TableType::PathBased
            },
            scan_type,
            duration_ns,
            num_add_files_seen: self.num_add_files_seen,
            num_active_add_files: self.num_active_add_files,
            active_add_files_bytes: self.active_add_files_bytes,
            num_remove_files_seen: self.num_remove_files_seen,
            num_non_file_actions: self.num_non_file_actions,
            num_predicate_filtered: self.num_predicate_filtered,
            peak_hash_set_size: self.peak_hash_set_size,
            dedup_visitor_time_ns: self.dedup_visitor_time_ns,
            predicate_eval_time_ns: self.predicate_eval_time_ns,
        }
    }
}

impl ScanMetrics {
    /// The counters of two workers taken together.
    pub open spec fn plus(self, other: ScanMetrics) -> ScanMetrics {
        ScanMetrics {
            num_add_files_seen: bump(self.num_add_files_seen, other.num_add_files_seen as int),
            num_remove_files_seen: bump(
                self.num_remove_files_seen,
                other.num_remove_files_seen as int,
            ),
            num_non_file_actions: bump(
                self.num_non_file_actions,
                other.num_non_file_actions as int,
            ),
            num_active_add_files: bump(
                self.num_active_add_files,
                other.num_active_add_files as int,
            ),
            active_add_files_bytes: bump(
                self.active_add_files_bytes,
                other.active_add_files_bytes as int,
            ),
            num_predicate_filtered: bump(
                self.num_predicate_filtered,
                other.num_predicate_filtered as int,
            ),
            peak_hash_set_size: if other.peak_hash_set_size > self.peak_hash_set_size {
                other.peak_hash_set_size
            } else {
                self.peak_hash_set_size
            },
            dedup_visitor_time_ns: bump(
                self.dedup_visitor_time_ns,
                other.dedup_visitor_time_ns as int,
            ),
            predicate_eval_time_ns: bump(
                self.predicate_eval_time_ns,
                other.predicate_eval_time_ns as int,
            ),
        }
    }

    /// The counters of two workers taken together.
    pub fn sum(&self, other: &ScanMetrics) -> (sum: ScanMetrics)
        ensures
            sum == self.plus(*other),
    {
        ScanMetrics {
            num_add_files_seen: bumped(self.num_add_files_seen, other.num_add_files_seen),
            num_remove_files_seen: bumped(
                self.num_remove_files_seen,
                other.num_remove_files_seen,
            ),
            num_non_file_actions: bumped(self.num_non_file_actions, other.num_non_file_actions),
            num_active_add_files: bumped(self.num_active_add_files, other.num_active_add_files),
            active_add_files_bytes: bumped(
                self.active_add_files_bytes,
                other.active_add_files_bytes,
            ),
            num_predicate_filtered: bumped(
                self.num_predicate_filtered,
                other.num_predicate_filtered,
            ),
            peak_hash_set_size: if other.peak_hash_set_size > self.peak_hash_set_size {
                other.peak_hash_set_size
            } else {
                self.peak_hash_set_size
            },
            dedup_visitor_time_ns: bumped(
                self.dedup_visitor_time_ns,
                other.dedup_visitor_time_ns,
            ),
            predicate_eval_time_ns: bumped(
                self.predicate_eval_time_ns,
                other.predicate_eval_time_ns,
            ),
        }
    }
}

} // verus!
