use std::sync::Arc;

use delta_kernel::engine::{Column, Engine};
use delta_kernel::error::{DeltaResult, Error};
use delta_kernel::expressions::{
    ColumnName, ColumnSet, Comparison, Expression, ExpressionRef, JunctionPredicateOp, OpaquePredicate,
    Predicate, PredicateRef, Scalar,
};
use delta_kernel::log_segment::{LogPathFileType, LogSegment, LogSegmentFiles, ParsedLogPath};
use delta_kernel::metrics::events::MetricId;
use delta_kernel::scan::builder::{get_any_level_column_physical_name, Scan, ScanBuilder};
use delta_kernel::scan::data_skipping::{
    adjust_scalar_for_max_stat_truncation, as_checkpoint_skipping_predicate,
    as_data_skipping_predicate_with_stats_columns,
    as_sql_data_skipping_predicate_with_stats_columns, collect_junction_preds,
    comparison_predicate, read_selection, DataSkippingFilter,
};
use delta_kernel::scan::execute::{
    deleted_rows_to_bools, selection_vector, split_vector, DataReader, DeletionVectorReader,
    FileRead, PlanBuilder, ScanFile,
};
use delta_kernel::scan::log_replay::CheckpointReadInfo;
use delta_kernel::scan::options::{PartitionValuesOptions, StatsOptions, StructStats};
use delta_kernel::scan::partition_values::{PlainScalarParser, ScalarParser};
use delta_kernel::scan::physical_predicate::PhysicalPredicate;
use delta_kernel::scan::scan_metadata::get_transform_for_row;
use delta_kernel::scan::schemas::{
    checkpoint_read_schema, checkpoint_read_schema_no_json_stats, commit_read_schema,
    scan_row_schema,
};
use delta_kernel::scan::table_scan::{
    ActionsWithCheckpointInfo, CheckpointReadOptions, ExistingDataPlan, LogReader, UpdateSource,
};
use delta_kernel::schema::{
    ColumnMappingMode, DataType, PrimitiveType, SchemaRef, StructField, StructType,
};
use delta_kernel::snapshot::state::{Metadata, Protocol, Snapshot, TableConfiguration};
use delta_kernel::table_planning::{Operation, ReadPlan, TablePlanning};

fn primitive(name: &str, t: PrimitiveType) -> StructField {
    StructField::nullable(name, DataType::Primitive(t))
}

fn schema(fields: Vec<StructField>) -> SchemaRef {
    Arc::new(StructType::new(fields))
}

fn table_schema() -> SchemaRef {
    let inner = StructType::new(vec![StructField {
        physical_name: Some("col-3".to_string()),
        ..primitive("Street", PrimitiveType::String)
    }]);
    schema(vec![
        StructField {
            physical_name: Some("col-1".to_string()),
            ..primitive("Id", PrimitiveType::Long)
        },
        StructField {
            physical_name: Some("col-2".to_string()),
            ..StructField::nullable("Address", DataType::Struct(Box::new(inner)))
        },
    ])
}

fn long(v: i64) -> Expression {
    Expression::Literal(Scalar::Long(v))
}

// ---------------------------------------------------------------------------------------------
// Predicates over physical columns
// ---------------------------------------------------------------------------------------------

fn resolve(predicate: Predicate, mode: ColumnMappingMode) -> DeltaResult<PhysicalPredicate> {
    PhysicalPredicate::try_new(&predicate, &table_schema(), mode)
}

#[test]
fn predicate_columns_are_found_whatever_their_case() {
    let predicate = Predicate::and(
        Predicate::gt(Expression::top("ID"), long(5)),
        Predicate::is_null(Expression::nested("address", "STREET")),
    );
    let PhysicalPredicate::Present(physical, needed) =
        resolve(predicate, ColumnMappingMode::Name).unwrap()
    else {
        panic!("expected a predicate");
    };
    assert_eq!(
        physical.as_ref(),
        &Predicate::and(
            Predicate::gt(Expression::top("col-1"), long(5)),
            Predicate::is_null(Expression::nested("col-2", "col-3")),
        )
    );
    let names: Vec<&str> = needed.fields.iter().map(|f| f.name.as_str()).collect();
    assert_eq!(names, ["col-1", "col-2"]);
}

#[test]
fn opaque_predicates_skip_by_what_they_imply() {
    let opaque = OpaquePredicate {
        name: "starts_above".to_string(),
        exprs: vec![Arc::new(Expression::top("ID"))],
        implied: Some(Arc::new(Predicate::gt(Expression::top("ID"), long(5)))),
        implied_inverted: None,
        constant: None,
    };
    let PhysicalPredicate::Present(physical, _) =
        resolve(Predicate::Opaque(opaque), ColumnMappingMode::Name).unwrap()
    else {
        panic!("expected a predicate");
    };
    let none = ColumnSet::new();
    let rewrite = |p: &Predicate| {
        as_data_skipping_predicate_with_stats_columns(p, &none, &columns(&["col-1"]))
    };
    assert_eq!(
        rewrite(&physical),
        Some(Predicate::or(
            Predicate::not(Predicate::column(ColumnName::top("is_add"))),
            Predicate::gt(stat("maxValues", "col-1"), long(5)),
        ))
    );
    assert_eq!(rewrite(&Predicate::Not(physical.clone())), None);
    assert_eq!(
        as_checkpoint_skipping_predicate(&physical, &none, &none, &columns(&["col-1"])),
        None
    );
}

#[test]
fn unmapped_columns_keep_the_case_of_the_table() {
    let PhysicalPredicate::Present(physical, _) = resolve(
        Predicate::gt(Expression::top("ID"), long(5)),
        ColumnMappingMode::Unmapped,
    )
    .unwrap() else {
        panic!("expected a predicate");
    };
    assert_eq!(physical.as_ref(), &Predicate::gt(Expression::top("Id"), long(5)));
}

#[test]
fn unknown_predicate_columns_are_errors() {
    let error = resolve(
        Predicate::gt(Expression::top("nowhere"), long(5)),
        ColumnMappingMode::Unmapped,
    )
    .unwrap_err();
    assert!(matches!(&error, Error::MissingColumn(_)));
    assert!(error.message().contains("nowhere"), "{}", error.message());
}

#[test]
fn constant_predicates() {
    let mode = ColumnMappingMode::Unmapped;
    let never = Predicate::and(
        Predicate::gt(Expression::top("Id"), long(10)),
        Predicate::literal(false),
    );
    assert_eq!(resolve(never, mode).unwrap(), PhysicalPredicate::StaticSkipAll);
    // Read as a filter, NULL keeps no row either.
    let null = Scalar::Null(DataType::Primitive(PrimitiveType::Long));
    let unknown = Predicate::eq(long(1), Expression::Literal(null));
    assert_eq!(resolve(unknown, mode).unwrap(), PhysicalPredicate::StaticSkipAll);
    assert_eq!(resolve(Predicate::literal(true), mode).unwrap(), PhysicalPredicate::Absent);
}

#[test]
fn physical_names_at_any_level() {
    let table = table_schema();
    let column = ColumnName::nested("Address", "Street");
    assert_eq!(
        get_any_level_column_physical_name(&table, &column, ColumnMappingMode::Id).unwrap(),
        ColumnName::nested("col-2", "col-3")
    );
    assert_eq!(
        get_any_level_column_physical_name(&table, &column, ColumnMappingMode::Unmapped).unwrap(),
        column
    );
    let missing = ColumnName::nested("Address", "zip");
    let error =
        get_any_level_column_physical_name(&table, &missing, ColumnMappingMode::Id).unwrap_err();
    assert_eq!(error, Error::MissingColumn("Column not found in schema: Address.zip".to_string()));
}

// ---------------------------------------------------------------------------------------------
// Data skipping
// ---------------------------------------------------------------------------------------------

fn columns(names: &[&str]) -> ColumnSet {
    let mut set = ColumnSet::new();
    for name in names {
        set.insert(ColumnName::top(name));
    }
    set
}

fn stat(kind: &str, name: &str) -> Expression {
    Expression::Column(ColumnName::new(vec![
        "stats_parsed".to_string(),
        kind.to_string(),
        name.to_string(),
    ]))
}

fn skipping(pred: Predicate) -> Option<Predicate> {
    as_data_skipping_predicate_with_stats_columns(&pred, &columns(&["p"]), &columns(&["a", "b"]))
}

#[test]
fn comparisons_become_comparisons_of_statistics() {
    let a = || Expression::top("a");
    let (min, max) = (|| stat("minValues", "a"), || stat("maxValues", "a"));
    assert_eq!(
        skipping(Predicate::lt(a(), long(5))),
        Some(Predicate::lt(min(), long(5)))
    );
    assert_eq!(
        skipping(Predicate::gt(a(), long(5))),
        Some(Predicate::gt(max(), long(5)))
    );
    assert_eq!(
        skipping(Predicate::lt(long(5), a())),
        Some(Predicate::gt(max(), long(5)))
    );
    let Some(Predicate::Junction(JunctionPredicateOp::And, both)) =
        skipping(Predicate::eq(a(), long(5)))
    else {
        panic!("expected bounds on both sides");
    };
    assert_eq!(both.len(), 2);
}

#[test]
fn columns_without_statistics_say_nothing() {
    assert_eq!(skipping(Predicate::lt(Expression::top("c"), long(5))), None);
    assert_eq!(skipping(Predicate::lt(Expression::top("a"), Expression::top("b"))), None);
    let mixed = Predicate::and(
        Predicate::lt(Expression::top("c"), long(5)),
        Predicate::lt(Expression::top("a"), long(5)),
    );
    assert_eq!(
        skipping(mixed),
        Some(Predicate::and(
            Predicate::null(),
            Predicate::lt(stat("minValues", "a"), long(5)),
        ))
    );
}

#[test]
fn junctions_hold_one_null_at_most() {
    let known = Predicate::literal(true);
    let collected = collect_junction_preds(
        JunctionPredicateOp::Or,
        vec![None, Some(known.clone()), None],
        false,
    );
    assert_eq!(
        collected,
        Predicate::Junction(
            JunctionPredicateOp::Or,
            vec![Arc::new(Predicate::null()), Arc::new(known)],
        )
    );
}

#[test]
fn filters_need_rows_that_are_not_null() {
    let pred = Predicate::lt(Expression::top("a"), long(5));
    let sql = as_sql_data_skipping_predicate_with_stats_columns(
        &pred,
        &ColumnSet::new(),
        &columns(&["a"]),
    )
    .unwrap();
    let refs = sql.references();
    assert!(refs.contains(&ColumnName::new(vec![
        "stats_parsed".to_string(),
        "nullCount".to_string(),
        "a".to_string(),
    ])));
    assert!(refs.contains(&ColumnName::nested("stats_parsed", "numRecords")));
}

#[test]
fn checkpoint_rewrites_allow_for_missing_statistics() {
    let pred = Predicate::lt(Expression::top("a"), long(5));
    let none = ColumnSet::new();
    assert_eq!(
        as_checkpoint_skipping_predicate(&pred, &none, &none, &columns(&["a"])),
        Some(Predicate::or(
            Predicate::is_null(stat("minValues", "a")),
            Predicate::lt(stat("minValues", "a"), long(5)),
        ))
    );
    let on_partition = Predicate::lt(Expression::top("p"), long(5));
    assert_eq!(
        as_checkpoint_skipping_predicate(&on_partition, &columns(&["p"]), &none, &none),
        Some(Predicate::lt(Expression::nested("partitionValues_parsed", "p"), long(5)))
    );
    assert_eq!(
        as_checkpoint_skipping_predicate(&on_partition, &columns(&["p"]), &columns(&["p"]), &none),
        None
    );
}

#[test]
fn negated_comparisons_are_opposites() {
    let col = || Expression::top("a");
    let cases = [
        (Comparison::Less, Predicate::lt(col(), long(5)), Predicate::ge(col(), long(5))),
        (Comparison::Equal, Predicate::eq(col(), long(5)), Predicate::ne(col(), long(5))),
        (Comparison::Greater, Predicate::gt(col(), long(5)), Predicate::le(col(), long(5))),
    ];
    for (ord, plain, negation) in cases {
        assert_eq!(comparison_predicate(ord, col(), &Scalar::Long(5), false), plain);
        assert_eq!(comparison_predicate(ord, col(), &Scalar::Long(5), true), negation);
    }
}

#[test]
fn timestamps_are_compared_with_room_for_truncation() {
    assert_eq!(
        adjust_scalar_for_max_stat_truncation(&Scalar::Timestamp(4_000_400)),
        Scalar::Timestamp(3_999_401)
    );
    assert_eq!(
        adjust_scalar_for_max_stat_truncation(&Scalar::TimestampNtz(i64::MIN)),
        Scalar::TimestampNtz(i64::MIN)
    );
    assert_eq!(adjust_scalar_for_max_stat_truncation(&Scalar::Long(7)), Scalar::Long(7));
}

#[test]
fn skipping_selections_are_read() {
    let column = Column::Booleans(vec![Some(true), Some(false), Some(true)]);
    assert_eq!(read_selection(&column, 3), Ok((vec![true, false, true], 1)));
    let column = Column::Booleans(vec![Some(true), None]);
    assert_eq!(
        read_selection(&column, 2),
        Err(Error::MissingData("Data missing for field selectionvector.output".to_string()))
    );
}

// ---------------------------------------------------------------------------------------------
// Options
// ---------------------------------------------------------------------------------------------

#[test]
fn stats_options() {
    let none = StatsOptions::none();
    assert!(!none.synthesize_json);
    assert_eq!(none.struct_stats, StructStats::Omitted);
    let json = StatsOptions::json_only();
    assert!(json.synthesize_json);
    assert_eq!(json.struct_stats, StructStats::Omitted);
    let all = StatsOptions::all_struct();
    assert!(!all.synthesize_json);
    assert_eq!(all.struct_stats, StructStats::All);
    let some = StatsOptions::struct_columns(vec![ColumnName::top("a")]);
    assert_eq!(some.struct_stats, StructStats::Columns(vec![ColumnName::top("a")]));
    let both = StatsOptions::all();
    assert!(both.synthesize_json);
    assert_eq!(both.struct_stats, StructStats::All);
    assert!(!PartitionValuesOptions::default().parsed_struct);
    assert!(PartitionValuesOptions::with_struct().parsed_struct);
    assert!(!PartitionValuesOptions::string_map_only().parsed_struct);
}

#[test]
fn scan_rows_have_these_fields() {
    let schema = scan_row_schema();
    let names: Vec<&str> = schema.fields.iter().map(|f| f.name.as_str()).collect();
    assert_eq!(
        names,
        ["path", "size", "modificationTime", "stats", "deletionVector", "fileConstantValues"]
    );
    let DataType::Struct(constants) = &schema.fields[5].data_type else {
        panic!("expected a struct");
    };
    let names: Vec<&str> = constants.fields.iter().map(|f| f.name.as_str()).collect();
    assert_eq!(
        names,
        ["partitionValues", "tags", "baseRowId", "defaultRowCommitVersion", "clusteringProvider"]
    );
}

#[test]
fn transforms_of_rows() {
    let transforms: Vec<Option<ExpressionRef>> = vec![None, Some(Arc::new(long(1)))];
    assert!(get_transform_for_row(0, &transforms).is_none());
    assert_eq!(get_transform_for_row(1, &transforms).unwrap().as_ref(), &long(1));
    assert!(get_transform_for_row(2, &transforms).is_none());
}

// ---------------------------------------------------------------------------------------------
// Partition values
// ---------------------------------------------------------------------------------------------

#[test]
fn partition_values_are_parsed() {
    let parse = |t: PrimitiveType, raw: &str| PlainScalarParser {}.parse_scalar(t, &raw.to_string());
    let error = |t: PrimitiveType, raw: &str| Err(Error::ParseError(raw.to_string(), t));
    assert_eq!(parse(PrimitiveType::Integer, "-7"), Ok(Scalar::Integer(-7)));
    assert_eq!(parse(PrimitiveType::Long, "+9223372036854775807"), Ok(Scalar::Long(i64::MAX)));
    assert_eq!(
        parse(PrimitiveType::Long, "9223372036854775808"),
        error(PrimitiveType::Long, "9223372036854775808")
    );
    assert_eq!(parse(PrimitiveType::Byte, "-128"), Ok(Scalar::Byte(-128)));
    assert_eq!(parse(PrimitiveType::Byte, "128"), error(PrimitiveType::Byte, "128"));
    assert_eq!(parse(PrimitiveType::Short, "1x"), error(PrimitiveType::Short, "1x"));
    assert_eq!(parse(PrimitiveType::Boolean, "TRUE"), Ok(Scalar::Boolean(true)));
    assert_eq!(parse(PrimitiveType::Boolean, "no"), error(PrimitiveType::Boolean, "no"));
    assert_eq!(parse(PrimitiveType::Date, "1970-01-01"), Ok(Scalar::Date(0)));
    assert_eq!(parse(PrimitiveType::Date, "2024-02-29"), Ok(Scalar::Date(19_782)));
    assert_eq!(parse(PrimitiveType::Date, "2023-02-29"), error(PrimitiveType::Date, "2023-02-29"));
    assert_eq!(parse(PrimitiveType::String, "a b"), Ok(Scalar::String("a b".to_string())));
    assert_eq!(parse(PrimitiveType::Binary, "ab"), Ok(Scalar::Binary(vec![97, 98])));
    assert_eq!(
        parse(PrimitiveType::String, ""),
        Ok(Scalar::Null(DataType::Primitive(PrimitiveType::String)))
    );
    assert!(matches!(parse(PrimitiveType::Double, "1.5"), Err(Error::Unsupported(_))));
}

// ---------------------------------------------------------------------------------------------
// Building scans
// ---------------------------------------------------------------------------------------------

struct Planner {
    supported: bool,
}

impl TablePlanning for Planner {
    fn ensure_operation_supported(
        &self,
        _: &TableConfiguration,
        operation: Operation,
    ) -> DeltaResult<()> {
        assert_eq!(operation, Operation::Scan);
        if self.supported {
            Ok(())
        } else {
            Err(Error::unsupported("feature"))
        }
    }

    fn read_plan(
        &self,
        _: &TableConfiguration,
        logical_read_schema: &SchemaRef,
        _: &PhysicalPredicate,
        _: &StatsOptions,
        _: &PartitionValuesOptions,
    ) -> DeltaResult<ReadPlan> {
        Ok(ReadPlan {
            physical_schema: logical_read_schema.clone(),
            transform_spec: None,
            physical_stats_schema: Some(stats_schema()),
            physical_partition_schema: None,
            physical_stats_columns: columns(&["Id"]),
        })
    }

    fn build_expected_stats_schemas(
        &self,
        _: &TableConfiguration,
        requested_physical_columns: &Vec<ColumnName>,
    ) -> DeltaResult<SchemaRef> {
        assert_eq!(requested_physical_columns.len(), 1);
        Ok(stats_schema())
    }

    fn physical_stats_columns_set(&self, _: &TableConfiguration) -> ColumnSet {
        columns(&["Id"])
    }

    fn predicate_partition_schema(
        &self,
        _: &TableConfiguration,
        _: &Vec<ColumnName>,
    ) -> Option<SchemaRef> {
        None
    }
}

fn stats_schema() -> SchemaRef {
    let counts = StructType::new(vec![primitive("Id", PrimitiveType::Long)]);
    schema(vec![
        primitive("numRecords", PrimitiveType::Long),
        StructField::nullable("nullCount", DataType::Struct(Box::new(counts))),
    ])
}

fn commit(version: u64) -> ParsedLogPath {
    ParsedLogPath {
        location: format!("memory:///t/_delta_log/{version:020}.json"),
        version,
        file_type: LogPathFileType::Commit,
    }
}

fn snapshot(logical_schema: SchemaRef, checkpoint: Option<u64>, commits: &[u64]) -> Arc<Snapshot> {
    let listed = LogSegmentFiles {
        ascending_commit_files: commits.iter().map(|v| commit(*v)).collect(),
        ascending_compaction_files: vec![],
        checkpoint_parts: checkpoint
            .iter()
            .map(|v| ParsedLogPath {
                location: format!("memory:///t/_delta_log/{v:020}.checkpoint.parquet"),
                version: *v,
                file_type: LogPathFileType::SinglePartCheckpoint,
            })
            .collect(),
        latest_crc_file: None,
        latest_commit_file: commits.last().map(|v| commit(*v)),
        max_published_version: None,
    };
    let log_segment =
        LogSegment::try_new(listed, "memory:///t/_delta_log/".to_string(), None, None).unwrap();
    let version = log_segment.end_version;
    let table_configuration = TableConfiguration {
        metadata: Metadata {
            id: "id".to_string(),
            schema_string: "{}".to_string(),
            partition_columns: vec![],
            configuration_keys: vec![],
            configuration_values: vec![],
            created_time: None,
        },
        protocol: Protocol {
            min_reader_version: 1,
            min_writer_version: 2,
            reader_features: vec![],
            writer_features: vec![],
        },
        logical_schema,
        column_mapping_mode: ColumnMappingMode::Name,
        is_catalog_managed: false,
        table_root: "memory:///t/".to_string(),
        version,
    };
    Arc::new(Snapshot::new_with_crc(log_segment, table_configuration, None, true))
}

fn builder() -> ScanBuilder<()> {
    ScanBuilder::new(snapshot(table_schema(), Some(2), &[3, 4]))
}

const PLANNER: Planner = Planner { supported: true };

#[test]
fn scans_of_empty_tables_are_refused() {
    let empty: ScanBuilder<()> = ScanBuilder::new(snapshot(schema(vec![]), None, &[0]));
    let Err(e) = empty.build(&PLANNER) else {
        panic!("expected an error");
    };
    assert_eq!(
        e.message(),
        "Cannot scan Delta table with empty schema; use ALTER TABLE ADD COLUMN to add at least one column before scanning"
    );
}

#[test]
fn unsupported_tables_are_refused() {
    let Err(e) = builder().build(&Planner { supported: false }) else {
        panic!("expected an error");
    };
    assert_eq!(e, Error::unsupported("feature"));
}

#[test]
fn scans_keep_what_the_builder_was_given() {
    let predicate: PredicateRef = Arc::new(Predicate::gt(Expression::top("id"), long(5)));
    let scan = builder()
        .with_schema(schema(vec![primitive("Id", PrimitiveType::Long)]))
        .with_predicate(Some(predicate))
        .with_stats(StatsOptions::struct_columns(vec![ColumnName::top("Id")]))
        .with_correlation_id("req".to_string())
        .with_partition_values(PartitionValuesOptions::with_struct())
        .build(&PLANNER)
        .unwrap();
    assert_eq!(scan.table_root(), "memory:///t/");
    assert_eq!(scan.logical_schema().fields.len(), 1);
    assert_eq!(scan.correlation_id.as_deref(), Some("req"));
    assert!(scan.partition_values_options().parsed_struct);
    assert_eq!(
        scan.physical_predicate().unwrap().as_ref(),
        &Predicate::gt(Expression::top("col-1"), long(5))
    );
    assert_eq!(scan.physical_stats_output_schema, Some(stats_schema()));
    assert!(!scan.skip_stats());
}

#[test]
fn no_predicate_changes_nothing() {
    let p: PredicateRef = Arc::new(Predicate::lt(Expression::top("Id"), long(4)));
    let b = builder().with_predicate(Some(p.clone())).with_predicate(None);
    assert_eq!(b.predicate, Some(p));
}

#[test]
fn unknown_stats_columns_are_errors() {
    let result = builder()
        .with_stats(StatsOptions::struct_columns(vec![ColumnName::top("nowhere")]))
        .build(&PLANNER);
    let Err(e) = result else {
        panic!("expected an error");
    };
    assert_eq!(e.message(), "Column not found in schema: nowhere");
}

#[test]
fn checkpoints_are_read_without_statistics_that_nobody_wants() {
    let json = builder().build(&PLANNER).unwrap().checkpoint_read_options();
    assert_eq!(json.checkpoint_schema, checkpoint_read_schema());
    let scan = builder().with_stats(StatsOptions::none()).build(&PLANNER).unwrap();
    assert!(scan.skip_stats());
    let none = scan.checkpoint_read_options();
    assert_eq!(none.checkpoint_schema, checkpoint_read_schema_no_json_stats());
    assert!(none.physical_stats_schema.is_none());
    assert!(none.meta_predicate.is_none());
    let parsed = builder()
        .with_stats(StatsOptions::all_struct())
        .build(&PLANNER)
        .unwrap()
        .checkpoint_read_options();
    assert_eq!(parsed.checkpoint_schema, checkpoint_read_schema_no_json_stats());
    assert_eq!(parsed.physical_stats_schema, Some(stats_schema()));
}

#[test]
fn predicates_on_checkpoints_speak_of_adds() {
    let predicate: PredicateRef = Arc::new(Predicate::is_null(Expression::top("id")));
    let mut scan = builder().with_predicate(Some(predicate)).build(&PLANNER).unwrap();
    assert_eq!(scan.build_actions_meta_predicate(), None, "no statistics of col-1");
    let mut info = scan.state_info.as_ref().clone();
    info.physical_stats_columns = columns(&["col-1"]);
    scan.state_info = Arc::new(info);
    let refs = scan.build_actions_meta_predicate().unwrap().references();
    let nullcount = ["add", "stats_parsed", "nullCount", "col-1"];
    assert!(refs.contains(&ColumnName::new(nullcount.iter().map(|s| s.to_string()).collect())));
    assert!(refs.members().iter().all(|c| c.path[0] == "add"));
}

#[test]
fn existing_data_is_updated_from_newer_commits() {
    let scan = builder().build(&PLANNER).unwrap();
    assert_eq!(
        scan.plan_from_existing(5).unwrap_err().message(),
        "existing_version 5 is greater than current version 4"
    );
    assert_eq!(scan.plan_from_existing(4), Ok(ExistingDataPlan::ExistingOnly));
    let Ok(ExistingDataPlan::Since(segment)) = scan.plan_from_existing(3) else {
        panic!("expected newer commits");
    };
    assert_eq!(segment.listed.ascending_commit_files, [commit(4)]);
    assert_eq!(segment.checkpoint_version, None);
    assert!(matches!(scan.plan_from_existing(2), Ok(ExistingDataPlan::Since(_))));
    assert_eq!(scan.plan_from_existing(1), Ok(ExistingDataPlan::FullScan));
}

// ---------------------------------------------------------------------------------------------
// Reading data
// ---------------------------------------------------------------------------------------------

struct ListEngine;

impl Engine for ListEngine {
    type Batch = Vec<i64>;
    type ExpressionEvaluator = ();
    type PredicateEvaluator = ();

    fn new_expression_evaluator(
        &self,
        _: SchemaRef,
        _: ExpressionRef,
        _: SchemaRef,
    ) -> DeltaResult<()> {
        Ok(())
    }

    fn new_predicate_evaluator(&self, _: SchemaRef, _: PredicateRef) -> DeltaResult<()> {
        Ok(())
    }

    fn evaluate_expression(&self, _: &(), batch: &Vec<i64>) -> DeltaResult<Vec<i64>> {
        Ok(batch.clone())
    }

    fn evaluate_predicate(&self, _: &(), batch: &Vec<i64>) -> DeltaResult<Vec<i64>> {
        Ok(batch.clone())
    }

    fn batch_len(&self, batch: &Vec<i64>) -> usize {
        batch.len()
    }

    fn read_columns(
        &self,
        _: &Vec<i64>,
        _: &Vec<ColumnName>,
        _: &Vec<DataType>,
    ) -> DeltaResult<Vec<Column>> {
        Err(Error::generic("not exercised in these tests"))
    }

    fn apply_selection_vector(&self, batch: Vec<i64>, selection: Vec<bool>) -> DeltaResult<Vec<i64>> {
        let rows = batch.into_iter().enumerate();
        Ok(rows.filter(|(i, _)| *selection.get(*i).unwrap_or(&true)).map(|(_, v)| v).collect())
    }
}

struct Log;

impl LogReader<()> for Log {
    type Actions = usize;

    fn read_actions(
        &self,
        log_segment: &LogSegment,
        _: SchemaRef,
        _: CheckpointReadOptions,
        _: Option<SchemaRef>,
        _: &Option<()>,
    ) -> DeltaResult<ActionsWithCheckpointInfo<usize>> {
        Ok(ActionsWithCheckpointInfo {
            actions: log_segment.listed.ascending_commit_files.len(),
            checkpoint_info: CheckpointReadInfo::without_stats_parsed(),
        })
    }
}

struct Reader {
    has_data: bool,
}

impl DataReader<ListEngine> for Reader {
    type Batches = String;

    fn deletion_selection(&self, _: &String, _: &ScanFile) -> DeltaResult<Option<Vec<bool>>> {
        Ok(Some(vec![true, false, true, true, false]))
    }

    fn open_file(&self, location: &String, size: u64, _: &SchemaRef) -> DeltaResult<String> {
        Ok(format!("{location}:{size}"))
    }

    fn has_data(&self, _: &String) -> bool {
        self.has_data
    }

    fn transform_to_logical(
        &self,
        data: Vec<i64>,
        _: &SchemaRef,
        _: &SchemaRef,
        _: &Option<ExpressionRef>,
    ) -> DeltaResult<Vec<i64>> {
        Ok(data.into_iter().map(|v| 10 * v).collect())
    }
}

fn id() -> MetricId {
    MetricId { id: "op".to_string() }
}

fn file(path: &str, size: i64, num_records: Option<u64>) -> ScanFile {
    ScanFile { path: path.to_string(), size, num_records, transform: None }
}

fn a_scan() -> Scan<()> {
    builder().build(&PLANNER).unwrap()
}

#[test]
fn scans_without_row_transforms_are_not_executed() {
    let scan = builder().without_row_transforms().build(&PLANNER).unwrap();
    let Err(e) = scan.execute(&ListEngine, &Log, id()) else {
        panic!("expected an error");
    };
    assert_eq!(
        e,
        Error::unsupported("Scan::execute is not supported when the scan was built with without_row_transforms; use scan_metadata for listing and read data with your own reader")
    );
}

#[test]
fn files_are_read_without_deleted_rows() {
    let execution = a_scan().execute(&ListEngine, &Log, id()).unwrap();
    assert_eq!(execution.metadata.actions, 2);
    let reader = Reader { has_data: true };
    let mut read: FileRead<String> =
        execution.open_scan_file(&reader, file("a%20b.parquet", 7, Some(6))).unwrap();
    assert_eq!(read.batches, "memory:///t/a%20b.parquet:7");
    let mut next = |data: DeltaResult<Vec<i64>>| {
        let s = &execution.physical_schema;
        read.next_batch(&ListEngine, &reader, s, &execution.logical_schema, data)
    };
    assert_eq!(next(Ok(vec![1, 2])), Ok(vec![10]));
    assert_eq!(next(Err(Error::generic("torn"))), Err(Error::generic("torn")));
    assert_eq!(next(Ok(vec![3, 4])), Ok(vec![30, 40]));
    assert_eq!(next(Ok(vec![5, 6])), Ok(vec![60]));
    assert_eq!(next(Ok(vec![7])), Ok(vec![70]));
}

#[test]
fn files_that_cannot_be_read() {
    let execution = a_scan().execute(&ListEngine, &Log, id()).unwrap();
    let open = |has_data: bool, f: ScanFile| {
        execution.open_scan_file(&Reader { has_data }, f).err().map(|e| e.message())
    };
    assert_eq!(
        open(true, file("a", -1, None)).unwrap(),
        "Unable to convert scan file size into FileSize"
    );
    let empty = open(false, file("a", 1, Some(3))).unwrap();
    assert!(empty.contains("ParquetHandler returned no data for file 'a'"), "{empty}");
    assert_eq!(open(false, file("a", 1, Some(0))), None);
    assert_eq!(open(false, file("a", 1, None)), None);
    let mut elsewhere = execution;
    elsewhere.table_root = "no url".to_string();
    assert!(matches!(
        elsewhere.open_scan_file(&Reader { has_data: true }, file("a", 1, None)),
        Err(Error::InvalidUrl(_))
    ));
}

#[test]
fn scan_metadata_replays_what_is_needed() {
    let scan = a_scan();
    let full = scan.scan_metadata(&ListEngine, &Log, id()).unwrap();
    assert_eq!(full.actions, 2);
    assert!(full.replay.wants_actions());
    assert_eq!(full.replay.operation_id, id());
    let from = |version: u64| scan.scan_metadata_from(&ListEngine, &Log, id(), version);
    let same = from(4).unwrap();
    assert_eq!((same.actions, same.restore.is_some()), (None, true));
    assert_eq!(same.next_source(false, false), UpdateSource::ExistingData);
    assert_eq!(same.next_source(false, true), UpdateSource::End);
    let newer = from(3).unwrap();
    assert_eq!((newer.actions, newer.restore.is_some()), (Some(1), true));
    assert_eq!(newer.next_source(false, false), UpdateSource::NewActions);
    assert_eq!(newer.next_source(true, false), UpdateSource::ExistingData);
    assert_eq!(newer.next_source(true, true), UpdateSource::End);
    let whole = from(1).unwrap();
    assert_eq!((whole.actions, whole.restore.is_some()), (Some(2), false));
    assert_eq!(whole.next_source(false, false), UpdateSource::NewActions);
    assert_eq!(whole.next_source(true, false), UpdateSource::End);
    assert!(from(5).is_err());
}

#[test]
fn scans_that_can_match_nothing_replay_nothing() {
    let scan = builder()
        .with_predicate(Some(Arc::new(Predicate::literal(false))))
        .with_schema_opt(None)
        .with_cancellation_token(Some(()))
        .build(&PLANNER)
        .unwrap();
    assert_eq!(scan.logical_schema(), &table_schema());
    assert_eq!(scan.cancellation_token, Some(()));
    let stream = scan.scan_metadata(&ListEngine, &Log, id()).unwrap();
    assert!(stream.replay.processor.is_none());
    assert!(!stream.replay.wants_actions());
}

#[test]
fn two_phase_scans() {
    let cancellable = builder().with_cancellation_token(Some(())).build(&PLANNER).unwrap();
    let Err(e) = cancellable.parallel_scan_metadata(&ListEngine, id()) else {
        panic!("expected an error");
    };
    assert_eq!(
        e,
        Error::unsupported("cancellation is not supported by parallel_scan_metadata; use scan_metadata for a cancellable scan")
    );
    let phase = a_scan().parallel_scan_metadata(&ListEngine, id()).unwrap();
    let info = phase.processor.checkpoint_info();
    assert!(!info.has_stats_parsed && !info.has_partition_values_parsed);
    assert_eq!(info.checkpoint_read_schema, checkpoint_read_schema());
    let without = builder().with_stats(StatsOptions::none()).build(&PLANNER).unwrap();
    let phase = without.parallel_scan_metadata(&ListEngine, id()).unwrap();
    assert_eq!(
        phase.processor.checkpoint_info().checkpoint_read_schema,
        checkpoint_read_schema_no_json_stats()
    );
}

#[test]
fn filters_over_raw_actions() {
    let scan = a_scan();
    let config = &scan.snapshot().table_configuration;
    let filter = |predicate: Predicate| {
        DataSkippingFilter::for_raw_action_batch(
            &ListEngine,
            &PLANNER,
            Arc::new(predicate),
            config,
            commit_read_schema(),
        )
    };
    let on_stats = filter(Predicate::gt(Expression::top("Id"), long(5)));
    assert!(on_stats.is_some_and(|f| !f.records_metrics));
    assert!(filter(Predicate::gt(Expression::top("other"), long(5))).is_none());
}

#[test]
fn masks_are_split() {
    assert_eq!(split_vector(None, 3), (None, None));
    assert_eq!(
        split_vector(Some(vec![true, false, true]), 2),
        (Some(vec![true, false]), Some(vec![true]))
    );
    assert_eq!(split_vector(Some(vec![true]), 1), (Some(vec![true]), None));
    assert_eq!(split_vector(Some(vec![true]), 5), (Some(vec![true]), None));
}

struct Deleted(Vec<u64>);

impl DeletionVectorReader for Deleted {
    type Descriptor = ();

    fn read(&self, _: &(), _: &String) -> DeltaResult<Vec<u64>> {
        Ok(self.0.clone())
    }
}

#[test]
fn deletion_vectors_become_masks() {
    let root = "memory:///t/".to_string();
    assert_eq!(
        selection_vector(&Deleted(vec![3, 1]), &(), &root),
        Ok(vec![true, false, true, false])
    );
    assert_eq!(selection_vector(&Deleted(vec![]), &(), &root), Ok(vec![]));
    assert_eq!(
        deleted_rows_to_bools(&vec![u64::MAX]),
        Err(Error::generic("Deletion vector covers more rows than can be addressed"))
    );
}

struct Plans {
    executor: bool,
}

impl PlanBuilder<()> for Plans {
    type Shape = bool;
    type Plan = String;

    fn require_plan_executor(&self) -> DeltaResult<()> {
        if self.executor {
            Ok(())
        } else {
            Err(Error::unsupported("no executor"))
        }
    }

    fn checkpoint_shape(&self, _: &Scan<()>, stats: &Option<SchemaRef>) -> DeltaResult<bool> {
        Ok(stats.is_some())
    }

    fn build_metadata_scan_plan(&self, _: &Scan<()>, shape: &bool) -> DeltaResult<Option<String>> {
        Ok(Some(format!("parsed stats: {shape}")))
    }
}

#[test]
fn plans_of_scans() {
    let scan = a_scan();
    let plan = scan.declarative_metadata_scan_plan(&Plans { executor: true });
    assert_eq!(plan, Ok(Some("parsed stats: true".to_string())));
    let refused = scan.declarative_metadata_scan_plan(&Plans { executor: false });
    assert_eq!(refused, Err(Error::unsupported("no executor")));
}
