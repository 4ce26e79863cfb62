//! What a scan knows of the table and of what is to be read.

use std::sync::Arc;

use vstd::prelude::*;

use super::partition_values::ScalarParser;
use super::physical_predicate::PhysicalPredicate;
use super::transform_spec::{partition_scalars, transform_expr, TransformSpec};
use crate::engine::Column;
use crate::error::ErrorV;
use crate::expressions::column::ColumnSet;
use crate::expressions::expression::ExprV;
use crate::schema::{clone_opt_schema, ColumnMappingMode, SchemaRef};

verus! {

/// All the state needed to process a scan.
#[derive(Debug)]
pub struct StateInfo {
    /// The logical schema of the scan's output.
    pub logical_schema: SchemaRef,
    /// The schema to read from data files.
    pub physical_schema: SchemaRef,
    /// The predicate, in terms of physical columns.
    pub physical_predicate: PhysicalPredicate,
    /// How data file rows become table rows; `None` if they are the same.
    pub transform_spec: Option<Arc<TransformSpec>>,
    pub column_mapping_mode: ColumnMappingMode,
    /// The statistics to read, with physical names.
    pub physical_stats_schema: Option<SchemaRef>,
    /// The typed partition columns, with physical names.
    pub physical_partition_schema: Option<SchemaRef>,
    /// The physical leaf paths that have statistics.
    pub physical_stats_columns: ColumnSet,
    pub is_catalog_managed: bool,
    /// Whether no transforms are to be built for files.
    pub skip_row_transforms: bool,
}

/// Copies an optional transform.
pub fn clone_opt_transform(spec: &Option<Arc<TransformSpec>>) -> (copy: Option<Arc<TransformSpec>>)
    ensures
        copy == *spec,
{
    match spec {
        Some(s) => Some(s.clone()),
        None => None,
    }
}

impl StateInfo {
    /// The transform of the file that a row adds; `None` if it needs none. The error of the first
    /// part of the row that cannot be read or parsed.
    pub open spec fn row_transform<P: ScalarParser>(
        &self,
        parser: &P,
        columns: Seq<Column>,
        row: int,
    ) -> Result<Option<ExprV>, ErrorV> {
        if self.skip_row_transforms {
            Ok(None)
        } else {
            match self.transform_spec {
                None => match columns[6].long_at(row, "add.baseRowId"@) {
                    Ok(_) => Ok(None),
                    Err(e) => Err(e),
                },
                Some(spec) => match columns[1].pairs_at(row, "add.partitionValues"@) {
                    Err(e) => Err(e),
                    Ok(pairs) => match partition_scalars(
                        parser,
                        self.logical_schema@,
                        spec@,
                        spec@.len(),
                        pairs@,
                        self.column_mapping_mode,
                    ) {
                        Err(e) => Err(e),
                        Ok(values) => match columns[6].long_at(row, "add.baseRowId"@) {
                            Err(e) => Err(e),
                            Ok(base_row_id) => match transform_expr(spec@, values, base_row_id) {
                                Ok(e) => Ok(Some(e)),
                                Err(e) => Err(e),
                            },
                        },
                    },
                },
            }
        }
    }

    /// Whether two states say the same. Shared parts are the same parts.
    pub open spec fn same_as(&self, other: &StateInfo) -> bool {
        &&& self.logical_schema == other.logical_schema
        &&& self.physical_schema == other.physical_schema
        &&& self.physical_predicate@ == other.physical_predicate@
        &&& self.transform_spec == other.transform_spec
        &&& self.column_mapping_mode == other.column_mapping_mode
        &&& self.physical_stats_schema == other.physical_stats_schema
        &&& self.physical_partition_schema == other.physical_partition_schema
        &&& self.physical_stats_columns@ == other.physical_stats_columns@
        &&& self.is_catalog_managed == other.is_catalog_managed
        &&& self.skip_row_transforms == other.skip_row_transforms
    }
}

impl Clone for StateInfo {
    fn clone(&self) -> (copy: StateInfo)
        ensures
            copy.same_as(self),
    {
        StateInfo {
            logical_schema: self.logical_schema.clone(),
            physical_schema: self.physical_schema.clone(),
            physical_predicate: self.physical_predicate.clone(),
            transform_spec: clone_opt_transform(&self.transform_spec),
            column_mapping_mode: self.column_mapping_mode,
            physical_stats_schema: clone_opt_schema(&self.physical_stats_schema),
            physical_partition_schema: clone_opt_schema(&self.physical_partition_schema),
            physical_stats_columns: self.physical_stats_columns.clone(),
            is_catalog_managed: self.is_catalog_managed,
            skip_row_transforms: self.skip_row_transforms,
        }
    }
}

} // verus!
