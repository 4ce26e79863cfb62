//! Planning a scan.

use std::sync::Arc;

use vstd::prelude::*;

use super::options::{columns_view, PartitionValuesOptions, StatsOptions, StructStats};
use super::physical_predicate::{resolved_as, PhysicalPredicate};
use super::state_info::StateInfo;
use crate::error::{DeltaResult, Error, ErrorV};
use crate::expressions::column::{column_text, ColumnName, Path};
use crate::expressions::expression::{clone_opt_pred, PredicateRef};
use crate::schema::{
    clone_opt_schema, ColumnMappingMode, DataType, DataTypeV, SchemaRef, SchemaV, StructType,
};
use crate::snapshot::{SnapshotRef, TableConfiguration};
use crate::table_planning::{Operation, ReadPlan, TablePlanning};
use crate::text::strings_view;

verus! {

/// Builder to scan a snapshot of a table. `T` is the caller's cancellation token.
pub struct ScanBuilder<T> {
    pub snapshot: SnapshotRef,
    pub logical_read_schema: Option<SchemaRef>,
    pub predicate: Option<PredicateRef>,
    pub stats: StatsOptions,
    pub correlation_id: Option<String>,
    pub without_row_transforms: bool,
    pub partition_values: PartitionValuesOptions,
    pub cancellation_token: Option<T>,
}

/// The result of building a scan over a table. This can be used to get the actual data from
/// scanning the table.
pub struct Scan<T> {
    pub snapshot: SnapshotRef,
    pub state_info: Arc<StateInfo>,
    pub stats: StatsOptions,
    /// The physical schema of the `stats_parsed` column that the caller asked for.
    pub physical_stats_output_schema: Option<SchemaRef>,
    pub correlation_id: Option<String>,
    pub partition_values: PartitionValuesOptions,
    /// Optional cooperative cancellation token supplied via
    /// [`ScanBuilder::with_cancellation_token`]. `None` means the scan is not cancellable.
    pub cancellation_token: Option<T>,
}

impl<T> ScanBuilder<T> {
    /// The logical columns to read: all of them unless a schema was given.
    pub open spec fn read_schema(self) -> SchemaRef {
        match self.logical_read_schema {
            Some(schema) => schema,
            None => self.snapshot.table_configuration.logical_schema,
        }
    }

    /// Create a new [`ScanBuilder`] instance.
    pub fn new(snapshot: SnapshotRef) -> (builder: Self)
        ensures
            builder.snapshot == snapshot,
            builder.logical_read_schema is None,
            builder.predicate is None,
            builder.stats.synthesize_json,
            builder.stats.struct_stats is Omitted,
            builder.correlation_id is None,
            !builder.without_row_transforms,
            !builder.partition_values.parsed_struct,
            builder.cancellation_token is None,
    {
        ScanBuilder {
            snapshot,
            logical_read_schema: None,
            predicate: None,
            stats: StatsOptions::default(),
            correlation_id: None,
            without_row_transforms: false,
            partition_values: PartitionValuesOptions::default(),
            cancellation_token: None,
        }
    }

    /// Provide a schema for columns to select from the snapshot.
    ///
    /// A table with columns `[a, b, c]` could have a scan which reads only the first
    /// two columns by using the schema `[a, b]`.
    pub fn with_schema(self, logical_read_schema: SchemaRef) -> (builder: Self)
        ensures
            builder == (ScanBuilder { logical_read_schema: Some(logical_read_schema), ..self }),
    {
        ScanBuilder { logical_read_schema: Some(logical_read_schema), ..self }
    }

    /// Optionally provide a schema for columns to select from the snapshot. See
    /// [`ScanBuilder::with_schema`] for details. If `schema_opt` is `None` this is a no-op.
    pub fn with_schema_opt(self, schema_opt: Option<SchemaRef>) -> (builder: Self)
        ensures
            builder == (match schema_opt {
                Some(schema) => ScanBuilder { logical_read_schema: Some(schema), ..self },
                None => self,
            }),
    {
        match schema_opt {
            Some(schema) => self.with_schema(schema),
            None => self,
        }
    }

    /// Optionally provide an expression to filter rows. For example, using the predicate `x <
    /// 4` to return a subset of the rows in the scan which satisfy the filter. If `predicate` is
    /// `None`, this is a no-op.
    ///
    /// NOTE: The filtering is best-effort and can produce false positives (rows that should
    /// have been filtered out but were kept).
    ///
    /// NOTE: Predicates referencing metadata columns the caller added to the projection (row
    /// indexes, row ids, file paths) are not supported and will error at build time.
    ///
    /// A predicate alone enables internal data skipping; stats are not surfaced
    /// to the engine by default. Use [`with_stats`](Self::with_stats) if the engine
    /// also wants stats in the scan metadata output.
    pub fn with_predicate(self, predicate: Option<PredicateRef>) -> (builder: Self)
        ensures
            builder == (match predicate {
                Some(_) => ScanBuilder { predicate, ..self },
                None => self,
            }),
    {
        match predicate {
            Some(_) => ScanBuilder { predicate, ..self },
            None => self,
        }
    }

    /// Configure stats output for the scan. See [`StatsOptions`].
    ///
    /// Defaults to [`StatsOptions::default`] (JSON only). Engines that consume
    /// `stats_parsed` directly should pass [`StatsOptions::all_struct`] so compatible
    /// checkpoints omit JSON stats and skip `ToJson` synthesis.
    pub fn with_stats(self, stats: StatsOptions) -> (builder: Self)
        ensures
            builder == (ScanBuilder { stats, ..self }),
    {
        ScanBuilder { stats, ..self }
    }

    /// Attach an opaque, caller-supplied correlation id for joining this scan's metric events to
    /// the caller's own request or operation id. An empty id is treated as unset. When unset,
    /// behavior is unchanged.
    ///
    /// Note: like `operation_id`, the correlation id does not currently survive the
    /// [`Scan::parallel_scan_metadata`] serialization boundary. A `ParallelState` reconstructed
    /// from serialized bytes on a remote worker carries no correlation id.
    pub fn with_correlation_id(self, correlation_id: String) -> (builder: Self)
        ensures
            builder == (ScanBuilder {
                correlation_id: if correlation_id@.len() == 0 {
                    None
                } else {
                    Some(correlation_id)
                },
                ..self
            }),
    {
        let correlation_id = if correlation_id.as_str().unicode_len() == 0 {
            None
        } else {
            Some(correlation_id)
        };
        ScanBuilder { correlation_id, ..self }
    }

    /// Declare that the engine will reconstruct logical rows itself and will not consume
    /// `ScanMetadata::scan_file_transforms`.
    ///
    /// The per-file transform expressions are then not built, nor are partition values parsed
    /// for them. The returned `scan_file_transforms` is left empty (each row's transform is
    /// `None`); use [`Scan::scan_metadata`] for listing.
    ///
    /// With this set the engine must itself apply every physical-to-logical fixup the transform
    /// would normally perform: partition column injection, column-mapping renames, and generated
    /// row ids. Deletion vectors are unaffected: they are delivered per file in the scan metadata
    /// regardless. [`Scan::execute`] returns an error.
    pub fn without_row_transforms(self) -> (builder: Self)
        ensures
            builder == (ScanBuilder { without_row_transforms: true, ..self }),
    {
        ScanBuilder { without_row_transforms: true, ..self }
    }

    /// Configure partition value output for the scan. See [`PartitionValuesOptions`].
    ///
    /// Defaults to [`PartitionValuesOptions::default`] (string map only). Engines that
    /// consume `partitionValues_parsed` directly should pass
    /// [`PartitionValuesOptions::with_struct`] to also emit the typed struct column.
    pub fn with_partition_values(self, partition_values: PartitionValuesOptions) -> (builder: Self)
        ensures
            builder == (ScanBuilder { partition_values, ..self }),
    {
        ScanBuilder { partition_values, ..self }
    }

    /// Provide a cancellation token so a cancelled request can stop an in-flight
    /// [`scan_metadata`](Scan::scan_metadata) log replay instead of running to completion.
    ///
    /// Cancellation is cooperative: the token is polled at each action-batch boundary.
    /// On cancellation the scan surfaces [`Error::Cancelled`] as the terminal item -- never as a
    /// silent early end, so a cancelled listing cannot be mistaken for a complete one. With no
    /// token the scan is not cancellable.
    pub fn with_cancellation_token(self, token: Option<T>) -> (builder: Self)
        ensures
            builder == (ScanBuilder { cancellation_token: token, ..self }),
    {
        ScanBuilder { cancellation_token: token, ..self }
    }
}

// ---------------------------------------------------------------------------------------------
// Physical names of columns
// ---------------------------------------------------------------------------------------------

/// The position of the first field of a name among the first `n`; `n` if there is none.
pub open spec fn field_position(schema: SchemaV, name: Seq<char>, n: nat) -> nat
    decreases n,
{
    if n == 0 {
        0
    } else {
        let before = field_position(schema, name, (n - 1) as nat);
        if before < n - 1 {
            before
        } else if schema[n - 1].name == name {
            (n - 1) as nat
        } else {
            n
        }
    }
}

/// The physical path of a column at any level; `None` if the schema does not have it.
pub open spec fn physical_path(schema: SchemaV, path: Path, mode: ColumnMappingMode) -> Option<Path>
    decreases path.len(),
{
    if path.len() == 0 {
        None
    } else {
        let i = field_position(schema, path[0], schema.len());
        if i >= schema.len() {
            None
        } else {
            let field = schema[i as int];
            if path.len() == 1 {
                Some(seq![field.stored_name(mode)])
            } else {
                match field.data_type {
                    DataTypeV::Struct(inner) => match physical_path(
                        inner,
                        path.drop_first(),
                        mode,
                    ) {
                        Some(rest) => Some(seq![field.stored_name(mode)] + rest),
                        None => None,
                    },
                    _ => None,
                }
            }
        }
    }
}

proof fn lemma_field_position(schema: SchemaV, name: Seq<char>, i: nat, n: nat)
    requires
        i <= n <= schema.len(),
        forall|j: int| 0 <= j < i ==> (#[trigger] schema[j]).name != name,
        i < n ==> schema[i as int].name == name,
    ensures
        field_position(schema, name, n) == i,
    decreases n,
{
    if n > 0 {
        if i == n {
            lemma_field_position(schema, name, (n - 1) as nat, (n - 1) as nat);
        } else {
            lemma_field_position(schema, name, i, (n - 1) as nat);
        }
    }
}

impl StructType {
    /// The position of the field of a name; the number of fields if there is none.
    pub fn position_of(&self, name: &String) -> (i: usize)
        ensures
            i == field_position(self@, name@, self@.len()),
            i <= self.fields@.len(),
    {
        let mut i: usize = 0;
        while i < self.fields.len()
            invariant
                i <= self.fields@.len(),
                forall|j: int| 0 <= j < i ==> (#[trigger] self@[j]).name != name@,
            decreases self.fields@.len() - i,
        {
            assert(self@[i as int].name == self.fields@[i as int].name@);
            if self.fields[i].name == *name {
                proof {
                    lemma_field_position(self@, name@, i as nat, self@.len());
                }
                return i;
            }
            i += 1;
        }
        proof {
            lemma_field_position(self@, name@, i as nat, self@.len());
        }
        i
    }
}

fn physical_names(schema: &StructType, path: &Vec<String>, from: usize, mode: ColumnMappingMode) -> (
names: Option<Vec<String>>)
    requires
        from <= path@.len(),
    ensures
        match names {
            Some(names) => physical_path(
                schema@,
                strings_view(path@).skip(from as int),
                mode,
            ) == Some(strings_view(names@)),
            None => physical_path(schema@, strings_view(path@).skip(from as int), mode) is None,
        },
    decreases path@.len() - from,
{
    let ghost rest = strings_view(path@).skip(from as int);
    if from == path.len() {
        return None;
    }
    assert(rest[0] == path@[from as int]@);
    let i = schema.position_of(&path[from]);
    if i >= schema.fields.len() {
        return None;
    }
    let field = &schema.fields[i];
    assert(field@ == schema@[i as int]);
    let name = field.physical_name(mode).clone();
    if from + 1 == path.len() {
        let names: Vec<String> = vec![name];
        assert(strings_view(names@) =~= seq![name@]);
        return Some(names);
    }
    match &field.data_type {
        DataType::Struct(inner) => {
            assert(rest.drop_first() =~= strings_view(path@).skip(from + 1));
            match physical_names(inner, path, from + 1, mode) {
                Some(tail) => {
                    let mut names: Vec<String> = vec![name];
                    let mut tail = tail;
                    let ghost tail_view = strings_view(tail@);
                    names.append(&mut tail);
                    assert(strings_view(names@) =~= seq![name@] + tail_view);
                    Some(names)
                },
                None => None,
            }
        },
        _ => None,
    }
}

/// What is said of a column that the table does not have.
pub open spec fn column_not_found(path: Path) -> ErrorV {
    ErrorV::MissingColumn("Column not found in schema: "@ + column_text(path))
}

/// The physical name of a column at any level of a schema.
pub fn get_any_level_column_physical_name(
    schema: &StructType,
    column: &ColumnName,
    mode: ColumnMappingMode,
) -> (name: DeltaResult<ColumnName>)
    ensures
        match physical_path(schema@, column@, mode) {
            Some(path) => name is Ok && name->Ok_0@ == path,
            None => name is Err && name->Err_0@ == column_not_found(column@),
        },
{
    assert(strings_view(column.path@).skip(0) =~= column@);
    match physical_names(schema, &column.path, 0, mode) {
        Some(path) => Ok(ColumnName { path }),
        None => Err(
            Error::MissingColumn(
                "Column not found in schema: ".to_string().concat(column.text().as_str()),
            ),
        ),
    }
}

/// The physical names of the first `n` columns; the error of the first that has none.
pub open spec fn physical_paths(
    schema: SchemaV,
    columns: Seq<Path>,
    mode: ColumnMappingMode,
    n: nat,
) -> Result<Seq<Path>, ErrorV>
    decreases n,
{
    if n == 0 {
        Ok(seq![])
    } else {
        match physical_paths(schema, columns, mode, (n - 1) as nat) {
            Err(e) => Err(e),
            Ok(before) => match physical_path(schema, columns[n - 1], mode) {
                Some(path) => Ok(before.push(path)),
                None => Err(column_not_found(columns[n - 1])),
            },
        }
    }
}

proof fn lemma_paths_error(
    schema: SchemaV,
    columns: Seq<Path>,
    mode: ColumnMappingMode,
    n: nat,
    m: nat,
)
    requires
        n <= m,
        physical_paths(schema, columns, mode, n) is Err,
    ensures
        physical_paths(schema, columns, mode, m) == physical_paths(schema, columns, mode, n),
    decreases m,
{
    if n < m {
        lemma_paths_error(schema, columns, mode, n, (m - 1) as nat);
    }
}

fn physical_column_names(
    schema: &StructType,
    columns: &Vec<ColumnName>,
    mode: ColumnMappingMode,
) -> (names: DeltaResult<Vec<ColumnName>>)
    ensures
        match names {
            Ok(names) => physical_paths(schema@, columns_view(columns@), mode, columns@.len())
                == Ok::<_, ErrorV>(columns_view(names@)),
            Err(e) => physical_paths(schema@, columns_view(columns@), mode, columns@.len())
                == Err::<Seq<Path>, _>(e@),
        },
{
    let ghost paths = columns_view(columns@);
    let mut names: Vec<ColumnName> = Vec::new();
    assert(columns_view(names@) =~= seq![]);
    for i in 0..columns.len()
        invariant
            paths == columns_view(columns@),
            physical_paths(schema@, paths, mode, i as nat) == Ok::<_, ErrorV>(
                columns_view(names@),
            ),
    {
        assert(paths[i as int] == columns@[i as int]@);
        match get_any_level_column_physical_name(schema, &columns[i], mode) {
            Ok(name) => {
                let ghost before = names@;
                names.push(name);
                assert(columns_view(names@) =~= columns_view(before).push(name@));
            },
            Err(e) => {
                proof {
                    lemma_paths_error(schema@, paths, mode, (i + 1) as nat, columns@.len());
                }
                return Err(e);
            },
        }
    }
    Ok(names)
}

// ---------------------------------------------------------------------------------------------
// State of a scan
// ---------------------------------------------------------------------------------------------

/// Whether `r` is the state of a scan, for every answer of the planner: the error of the predicate
/// or of the planner, or the planner's read plan together with the predicate.
pub open spec fn state_info_made<P: TablePlanning>(
    planner: &P,
    table_configuration: &TableConfiguration,
    logical_read_schema: SchemaRef,
    predicate: Option<PredicateRef>,
    stats: &StatsOptions,
    partition_values: &PartitionValuesOptions,
    skip_row_transforms: bool,
    r: DeltaResult<StateInfo>,
) -> bool {
    exists|physical: DeltaResult<PhysicalPredicate>| #[trigger]
        predicate_resolved(table_configuration, predicate, physical) && match physical {
            Err(e) => r == Err::<StateInfo, _>(e),
            Ok(physical) => exists|plan: DeltaResult<ReadPlan>| #[trigger]
                call_ensures(
                    P::read_plan,
                    (
                        planner,
                        table_configuration,
                        &logical_read_schema,
                        &physical,
                        stats,
                        partition_values,
                    ),
                    plan,
                ) && match plan {
                    Err(e) => r == Err::<StateInfo, _>(e),
                    Ok(plan) => r == Ok::<_, Error>(
                        StateInfo {
                            logical_schema: logical_read_schema,
                            physical_schema: plan.physical_schema,
                            physical_predicate: physical,
                            transform_spec: plan.transform_spec,
                            column_mapping_mode: table_configuration.column_mapping_mode,
                            physical_stats_schema: plan.physical_stats_schema,
                            physical_partition_schema: plan.physical_partition_schema,
                            physical_stats_columns: plan.physical_stats_columns,
                            is_catalog_managed: table_configuration.is_catalog_managed,
                            skip_row_transforms,
                        },
                    ),
                },
        }
}

/// Whether `physical` is the predicate in terms of physical columns, resolved against the whole
/// table schema.
pub open spec fn predicate_resolved(
    table_configuration: &TableConfiguration,
    predicate: Option<PredicateRef>,
    physical: DeltaResult<PhysicalPredicate>,
) -> bool {
    match predicate {
        None => physical is Ok && physical->Ok_0 is Absent,
        Some(p) => resolved_as(
            p@,
            table_configuration.logical_schema@,
            table_configuration.column_mapping_mode,
            physical,
        ),
    }
}

impl StateInfo {
    /// The state of a scan that reads `logical_read_schema` of a table.
    pub fn try_new<P: TablePlanning>(
        planner: &P,
        table_configuration: &TableConfiguration,
        logical_read_schema: SchemaRef,
        predicate: Option<PredicateRef>,
        stats: &StatsOptions,
        partition_values: &PartitionValuesOptions,
        skip_row_transforms: bool,
    ) -> (r: DeltaResult<StateInfo>)
        ensures
            state_info_made(
                planner,
                table_configuration,
                logical_read_schema,
                predicate,
                stats,
                partition_values,
                skip_row_transforms,
                r,
            ),
    {
        let resolved = match &predicate {
            Some(p) => PhysicalPredicate::try_new(
                p,
                &table_configuration.logical_schema,
                table_configuration.column_mapping_mode,
            ),
            None => Ok(PhysicalPredicate::Absent),
        };
        assert(predicate_resolved(table_configuration, predicate, resolved));
        let physical_predicate = match resolved {
            Ok(physical_predicate) => physical_predicate,
            Err(e) => return Err(e),
        };
        match planner.read_plan(
            table_configuration,
            &logical_read_schema,
            &physical_predicate,
            stats,
            partition_values,
        ) {
            Ok(plan) => Ok(
                StateInfo {
                    logical_schema: logical_read_schema,
                    physical_schema: plan.physical_schema,
                    physical_predicate,
                    transform_spec: plan.transform_spec,
                    column_mapping_mode: table_configuration.column_mapping_mode,
                    physical_stats_schema: plan.physical_stats_schema,
                    physical_partition_schema: plan.physical_partition_schema,
                    physical_stats_columns: plan.physical_stats_columns,
                    is_catalog_managed: table_configuration.is_catalog_managed,
                    // The transform spec is kept, but per-file expressions are not built.
                    skip_row_transforms,
                },
            ),
            Err(e) => Err(e),
        }
    }
}

// ---------------------------------------------------------------------------------------------
// Statistics for output
// ---------------------------------------------------------------------------------------------

/// A statistics schema, if it has statistics for at least one data column.
///
/// Expected stats schemas always contain `numRecords` and `tightBounds`. `nullCount` is present
/// only when at least one data column survives stats filtering.
pub open spec fn with_data_columns(schema: SchemaRef) -> Option<SchemaRef> {
    if field_position(schema@, "nullCount"@, schema@.len()) < schema@.len() {
        Some(schema)
    } else {
        None
    }
}

/// Returns `schema` only when it contains stats for at least one data column.
pub fn stats_schema_with_data_columns(schema: SchemaRef) -> (kept: Option<SchemaRef>)
    ensures
        kept == with_data_columns(schema),
{
    let i = schema.position_of(&"nullCount".to_string());
    if i < schema.fields.len() {
        Some(schema)
    } else {
        None
    }
}

/// Whether `r` is the physical schema of the statistics to put out, for every answer of the
/// planner: none if no columns are asked for, all that are read if all are, else what the planner
/// expects of the requested columns.
pub open spec fn stats_output_made<P: TablePlanning>(
    planner: &P,
    table_configuration: &TableConfiguration,
    state_info: &StateInfo,
    stats: &StatsOptions,
    r: DeltaResult<Option<SchemaRef>>,
) -> bool {
    match stats.struct_stats {
        StructStats::Omitted => r == Ok::<Option<SchemaRef>, Error>(None),
        StructStats::All => r == Ok::<_, Error>(state_info.physical_stats_schema),
        StructStats::Columns(columns) => if columns@.len() == 0 {
            r == Ok::<Option<SchemaRef>, Error>(None)
        } else {
            match physical_paths(
                table_configuration.logical_schema@,
                columns_view(columns@),
                table_configuration.column_mapping_mode,
                columns@.len(),
            ) {
                Err(e) => r is Err && r->Err_0@ == e,
                Ok(paths) => exists|names: Vec<ColumnName>, schema: DeltaResult<SchemaRef>|
                    columns_view(names@) == paths && #[trigger] call_ensures(
                        P::build_expected_stats_schemas,
                        (planner, table_configuration, &names),
                        schema,
                    ) && match schema {
                        Err(e) => r == Err::<Option<SchemaRef>, _>(e),
                        Ok(schema) => r == Ok::<_, Error>(with_data_columns(schema)),
                    },
            }
        },
    }
}

/// Builds the physical `stats_parsed` output schema requested through `StatsOptions`.
///
/// For example, if the caller requests `[a, b]` and the predicate references `c`,
/// `StateInfo::physical_stats_schema` contains `[a, b, c]`, while this returns `[a, b]`.
/// Returns `None` when no eligible struct stats are requested and errors when a requested column
/// cannot be resolved.
pub fn build_physical_stats_output_schema<P: TablePlanning>(
    planner: &P,
    table_configuration: &TableConfiguration,
    state_info: &StateInfo,
    stats: &StatsOptions,
) -> (r: DeltaResult<Option<SchemaRef>>)
    ensures
        stats_output_made(planner, table_configuration, state_info, stats, r),
{
    match &stats.struct_stats {
        StructStats::Omitted => Ok(None),
        StructStats::All => Ok(clone_opt_schema(&state_info.physical_stats_schema)),
        StructStats::Columns(columns) => {
            if columns.len() == 0 {
                return Ok(None);
            }
            let physical_columns = match physical_column_names(
                &table_configuration.logical_schema,
                columns,
                table_configuration.column_mapping_mode,
            ) {
                Ok(names) => names,
                Err(e) => return Err(e),
            };
            match planner.build_expected_stats_schemas(table_configuration, &physical_columns) {
                Ok(schema) => Ok(stats_schema_with_data_columns(schema)),
                Err(e) => Err(e),
            }
        },
    }
}

// ---------------------------------------------------------------------------------------------
// Building the scan
// ---------------------------------------------------------------------------------------------

/// What is said of a table without columns.
pub open spec fn empty_schema_error() -> ErrorV {
    ErrorV::Generic(
        "Cannot scan Delta table with empty schema; use ALTER TABLE ADD COLUMN to add at least one column before scanning"@,
    )
}

/// Whether `r` is the scan that a builder makes, for every answer of the planner.
pub open spec fn scan_built<P: TablePlanning, T>(
    planner: &P,
    builder: ScanBuilder<T>,
    r: DeltaResult<Scan<T>>,
) -> bool {
    let config = builder.snapshot.table_configuration;
    if config.logical_schema@.len() == 0 {
        r is Err && r->Err_0@ == empty_schema_error()
    } else {
        exists|supported: DeltaResult<()>| #[trigger]
            call_ensures(
                P::ensure_operation_supported,
                (planner, &config, Operation::Scan),
                supported,
            ) && match supported {
                Err(e) => r == Err::<Scan<T>, _>(e),
                Ok(_) => supported_scan_built(planner, builder, r),
            }
    }
}

/// The second half of [`scan_built`].
pub open spec fn supported_scan_built<P: TablePlanning, T>(
    planner: &P,
    builder: ScanBuilder<T>,
    r: DeltaResult<Scan<T>>,
) -> bool {
    let config = builder.snapshot.table_configuration;
    exists|info: DeltaResult<StateInfo>| #[trigger]
        state_info_made(
            planner,
            &config,
            builder.read_schema(),
            builder.predicate,
            &builder.stats,
            &builder.partition_values,
            builder.without_row_transforms,
            info,
        ) && match info {
            Err(e) => r == Err::<Scan<T>, _>(e),
            Ok(info) => exists|output: DeltaResult<Option<SchemaRef>>| #[trigger]
                stats_output_made(planner, &config, &info, &builder.stats, output)
                    && match output {
                    Err(e) => r == Err::<Scan<T>, _>(e),
                    Ok(output) => r is Ok && r->Ok_0 == (Scan {
                        snapshot: builder.snapshot,
                        state_info: Arc::new(info),
                        stats: builder.stats,
                        physical_stats_output_schema: output,
                        correlation_id: builder.correlation_id,
                        partition_values: builder.partition_values,
                        cancellation_token: builder.cancellation_token,
                    }),
                },
        }
}

impl<T> ScanBuilder<T> {
    /// Build the [`Scan`].
    ///
    /// This does not scan the table at this point, but does do some work to ensure that the
    /// provided schema make sense, and to prepare some metadata that the scan will need.  The
    /// [`Scan`] type itself can be used to fetch the files and associated metadata required to
    /// perform actual data reads.
    pub fn build<P: TablePlanning>(self, planner: &P) -> (r: DeltaResult<Scan<T>>)
        ensures
            scan_built(planner, self, r),
    {
        // Predicates may reference columns outside self.logical_read_schema, so they are resolved
        // against the full table schema
        let table_schema = self.snapshot.schema();
        // Reject scans of empty-schema tables. CREATE TABLE accepts an empty schema as
        // a transient state, but a scan over zero columns has no way to derive row
        // counts downstream. Users must populate the schema with ALTER TABLE ADD COLUMN before
        // scanning.
        if table_schema.fields.len() == 0 {
            return Err(
                Error::generic(
                    "Cannot scan Delta table with empty schema; use ALTER TABLE ADD COLUMN to add at least one column before scanning",
                ),
            );
        }
        // if no schema is provided, use snapshot's entire schema (e.g. SELECT *)
        let logical_read_schema = match &self.logical_read_schema {
            Some(schema) => schema.clone(),
            None => table_schema,
        };
        let table_configuration = &self.snapshot.table_configuration;
        match planner.ensure_operation_supported(table_configuration, Operation::Scan) {
            Ok(_) => {},
            Err(e) => return Err(e),
        }
        let predicate = clone_opt_pred(&self.predicate);
        let made = StateInfo::try_new(
            planner,
            table_configuration,
            logical_read_schema,
            predicate,
            &self.stats,
            &self.partition_values,
            self.without_row_transforms,
        );
        let ghost info = made;
        assert(logical_read_schema == self.read_schema());
        assert(state_info_made(
            planner,
            table_configuration,
            self.read_schema(),
            self.predicate,
            &self.stats,
            &self.partition_values,
            self.without_row_transforms,
            info,
        ));
        let state_info = match made {
            Ok(state_info) => state_info,
            Err(e) => {
                assert(supported_scan_built(planner, self, Err(e)));
                return Err(e);
            },
        };
        let output = build_physical_stats_output_schema(
            planner,
            table_configuration,
            &state_info,
            &self.stats,
        );
        assert(stats_output_made(
            planner,
            table_configuration,
            &state_info,
            &self.stats,
            output,
        ));
        let physical_stats_output_schema = match output {
            Ok(schema) => schema,
            Err(e) => {
                assert(supported_scan_built(planner, self, Err(e)));
                return Err(e);
            },
        };
        let scan = Scan {
            snapshot: self.snapshot,
            state_info: Arc::new(state_info),
            stats: self.stats,
            physical_stats_output_schema,
            correlation_id: self.correlation_id,
            partition_values: self.partition_values,
            cancellation_token: self.cancellation_token,
        };
        assert(supported_scan_built(planner, self, Ok(scan)));
        Ok(scan)
    }
}

} // verus!
