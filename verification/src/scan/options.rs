//! What a scan puts out.

use vstd::prelude::*;

use crate::expressions::column::{ColumnName, Path};

verus! {

/// Which struct stats columns appear in `stats_parsed` in scan metadata output.
#[derive(Debug, Clone, PartialEq)]
pub enum StructStats {
    /// Don't emit `stats_parsed`. Predicate-referenced stats are still read for
    /// internal data skipping unless the caller picked [`StatsOptions::none`], which
    /// disables stats reading entirely.
    Omitted,
    /// Emit all indexed stats columns.
    All,
    /// Emit at least the specified stats columns. Predicate-referenced columns may also appear.
    Columns(Vec<ColumnName>),
}

/// Configures structured-stats output and JSON synthesis in scan metadata.
/// Existing JSON passes through for commits and checkpoints without compatible structured stats
/// unless stats are disabled.
///
/// Most consumers should pick one of the named constructors:
/// - [`Self::json_only`] (default) -- JSON stats only.
/// - [`Self::all_struct`] -- all struct stats without JSON synthesis. Compatible checkpoints omit
///   JSON stats; commits and checkpoints without compatible structured stats pass existing JSON
///   through.
/// - [`Self::struct_columns`] -- selected struct stats with the same JSON behavior.
/// - [`Self::all`] -- both representations.
/// - [`Self::none`] -- neither, AND disables internal data skipping. Unlike the other four
///   constructors, this is the only one that stops stats from being read from parquet at all.
#[derive(Debug, Clone, PartialEq)]
pub struct StatsOptions {
    /// Whether to surface JSON stats on parsed-stats checkpoints (where the
    /// checkpoint writes stats only as a struct, not as JSON). When true, the struct
    /// stats are re-serialized into JSON so engines that read JSON stats
    /// see a populated value; when false, JSON stats are left null on such
    /// checkpoints and the engine consumes the struct stats directly.
    ///
    /// No effect on tables that write JSON stats directly, or on commit JSON --
    /// the existing JSON is passed through regardless.
    pub synthesize_json: bool,
    /// Which struct stats columns to request in `stats_parsed`.
    pub struct_stats: StructStats,
}

impl Default for StatsOptions {
    /// JSON only, no struct stats.
    fn default() -> (options: Self)
        ensures
            options.synthesize_json,
            options.struct_stats is Omitted,
    {
        StatsOptions { synthesize_json: true, struct_stats: StructStats::Omitted }
    }
}

impl StatsOptions {
    /// Whether stats are not read at all.
    pub open spec fn skips_stats(self) -> bool {
        !self.synthesize_json && self.struct_stats is Omitted
    }

    /// JSON only. Equivalent to [`Default::default`].
    pub fn json_only() -> (options: Self)
        ensures
            options.synthesize_json,
            options.struct_stats is Omitted,
            !options.skips_stats(),
    {
        Self::default()
    }

    /// All struct stats without JSON synthesis. Compatible checkpoints omit JSON stats and avoid
    /// per-batch `ToJson`; commits and checkpoints without compatible structured stats pass
    /// existing JSON through.
    pub fn all_struct() -> (options: Self)
        ensures
            !options.synthesize_json,
            options.struct_stats is All,
            !options.skips_stats(),
    {
        StatsOptions { synthesize_json: false, struct_stats: StructStats::All }
    }

    /// Struct stats for at least the specified columns without JSON synthesis. Predicate-referenced
    /// columns may also appear because scan paths can retain stats used for data skipping.
    pub fn struct_columns(cols: Vec<ColumnName>) -> (options: Self)
        ensures
            !options.synthesize_json,
            options.struct_stats == StructStats::Columns(cols),
            !options.skips_stats(),
    {
        StatsOptions { synthesize_json: false, struct_stats: StructStats::Columns(cols) }
    }

    /// Both JSON and struct stats. Pays for both representations.
    pub fn all() -> (options: Self)
        ensures
            options.synthesize_json,
            options.struct_stats is All,
            !options.skips_stats(),
    {
        StatsOptions { synthesize_json: true, struct_stats: StructStats::All }
    }

    /// **Disables all stats work**: no stats output, no internal data skipping (even
    /// when a predicate is set). No stats columns are read from parquet at all.
    /// Use when the engine handles its own pruning.
    ///
    /// To get internal predicate-based skipping without `stats_parsed` output, use
    /// [`StatsOptions::default`] (JSON only) or set `struct_stats` to `All`/`Columns(_)`.
    pub fn none() -> (options: Self)
        ensures
            !options.synthesize_json,
            options.struct_stats is Omitted,
            options.skips_stats(),
    {
        StatsOptions { synthesize_json: false, struct_stats: StructStats::Omitted }
    }
}

/// Engine-facing partition value options. Pass to `ScanBuilder::with_partition_values` to
/// declare whether scan metadata output has the typed `partitionValues_parsed` struct
/// alongside the raw string map (`fileConstantValues.partitionValues`), which is always present.
///
/// When the typed struct is requested, scan metadata output gains a top-level
/// `partitionValues_parsed` struct column with one typed nullable field per partition column
/// (physical names, table partition-column order). On non-partitioned tables the column is
/// omitted. Values come directly from the checkpoint's native `partitionValues_parsed` column
/// when present, otherwise from parsing the string map.
#[derive(Debug, Clone, Copy, PartialEq, Eq, Structural)]
pub struct PartitionValuesOptions {
    /// Whether to emit the typed `partitionValues_parsed` struct column.
    pub parsed_struct: bool,
}

impl Default for PartitionValuesOptions {
    fn default() -> (options: Self)
        ensures
            options == (PartitionValuesOptions { parsed_struct: false }),
    {
        PartitionValuesOptions { parsed_struct: false }
    }
}

impl PartitionValuesOptions {
    /// Raw string map only, no typed struct. Equivalent to [`Default::default`].
    pub fn string_map_only() -> (options: Self)
        ensures
            options == (PartitionValuesOptions { parsed_struct: false }),
    {
        Self::default()
    }

    /// Emit the typed `partitionValues_parsed` struct alongside the raw string map. Lets engines
    /// consume `partitionValues_parsed` directly instead of parsing the string map per row.
    pub fn with_struct() -> (options: Self)
        ensures
            options == (PartitionValuesOptions { parsed_struct: true }),
    {
        PartitionValuesOptions { parsed_struct: true }
    }
}

/// The views of a list of column names.
pub open spec fn columns_view(columns: Seq<ColumnName>) -> Seq<Path> {
    columns.map_values(|c: ColumnName| c@)
}

} // verus!
