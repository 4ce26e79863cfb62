//! What planning a scan asks of the table's features.

use std::sync::Arc;

use vstd::prelude::*;

use crate::error::DeltaResult;
use crate::expressions::column::{ColumnName, ColumnSet};
use crate::scan::options::{PartitionValuesOptions, StatsOptions};
use crate::scan::physical_predicate::PhysicalPredicate;
use crate::scan::transform_spec::TransformSpec;
use crate::schema::SchemaRef;
use crate::snapshot::TableConfiguration;

verus! {

/// What is done to a table.
#[derive(Debug, Clone, Copy, PartialEq, Eq, Structural)]
pub enum Operation {
    Scan,
    Write,
    ChangeDataFeed,
}

/// What to read from data files for a scan, and how to turn it into the table's rows.
pub struct ReadPlan {
    pub physical_schema: SchemaRef,
    pub transform_spec: Option<Arc<TransformSpec>>,
    pub physical_stats_schema: Option<SchemaRef>,
    pub physical_partition_schema: Option<SchemaRef>,
    pub physical_stats_columns: ColumnSet,
}

/// What follows from the features that a table uses.
pub trait TablePlanning {
    /// Whether the table's features allow the operation.
    fn ensure_operation_supported(
        &self,
        table_configuration: &TableConfiguration,
        operation: Operation,
    ) -> DeltaResult<()>;

    /// What to read for the given logical columns, predicate and output options.
    fn read_plan(
        &self,
        table_configuration: &TableConfiguration,
        logical_read_schema: &SchemaRef,
        physical_predicate: &PhysicalPredicate,
        stats: &StatsOptions,
        partition_values: &PartitionValuesOptions,
    ) -> DeltaResult<ReadPlan>;

    /// The schema of the statistics that files have for the given physical columns.
    fn build_expected_stats_schemas(
        &self,
        table_configuration: &TableConfiguration,
        requested_physical_columns: &Vec<ColumnName>,
    ) -> DeltaResult<SchemaRef>;

    /// The physical leaf columns that have statistics.
    fn physical_stats_columns_set(&self, table_configuration: &TableConfiguration) -> ColumnSet;

    /// The typed partition columns among the given physical columns; `None` if there are none.
    fn predicate_partition_schema(
        &self,
        table_configuration: &TableConfiguration,
        predicate_refs: &Vec<ColumnName>,
    ) -> Option<SchemaRef>;
}

} // verus!
