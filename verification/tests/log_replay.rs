use std::sync::Arc;

use delta_kernel::engine::{Column, Engine};
use delta_kernel::error::{DeltaResult, Error};
use delta_kernel::expressions::{
    BinaryExpressionOp, BinaryPredicateOp, ColumnName, ColumnSet, Expression, ExpressionRef,
    JunctionPredicateOp, OpaquePredicate, Predicate, PredicateRef, Scalar, UnaryExpressionOp,
};
use delta_kernel::log_replay::{ActionsBatch, FileActionKey, FileKeySet};
use delta_kernel::metrics::events::{
    MetricEvent, MetricId, ScanType, TableType,
};
use delta_kernel::parallel::parallel_scan_metadata::{
    AfterSequentialScanMetadata, BytesCodec, FileMeta, LeafReader, ParallelScanMetadata,
    ParallelState, PlainScanState, SequentialInput, SequentialScanMetadata,
};
use delta_kernel::scan::add_transform::{get_add_transform_expr, get_scan_metadata_transform_expr};
use delta_kernel::scan::log_replay::{
    CheckpointReadInfo, ScanLogReplayProcessor, ScanPartitionValuesOptions, ScanStatsOptions,
};
use delta_kernel::scan::partition_filter::partition_row_kept;
use delta_kernel::scan::partition_values::{PlainScalarParser, ScalarParser};
use delta_kernel::scan::physical_predicate::PhysicalPredicate;
use delta_kernel::scan::replay::{ReplayStep, ScanReplay};
use delta_kernel::scan::schemas::{restored_add_schema, scan_row_schema};
use delta_kernel::scan::serialization::{
    InternalScanState, SerializableScanState, StateCodec,
};
use delta_kernel::scan::state_info::StateInfo;
use delta_kernel::scan::table_scan::restore_actions;
use delta_kernel::scan::transform_spec::FieldTransformSpec;
use delta_kernel::scan::ScanMetadata;
use delta_kernel::schema::{
    ColumnMappingMode, DataType, PrimitiveType, SchemaRef, StructField, StructType,
};
use serde_json::Value;
use std::cell::RefCell;

// ---------------------------------------------------------------------------------------------
// An engine over JSON rows
// ---------------------------------------------------------------------------------------------

#[derive(Clone, Debug)]
struct Rows(Vec<Value>);

struct Prepared {
    expr: ExpressionRef,
    output: SchemaRef,
}

#[derive(Default)]
struct JsonEngine {
    /// Makes the first transform fail with a parse error, once.
    parse_error: RefCell<bool>,
}

fn at<'a>(row: &'a Value, column: &ColumnName) -> &'a Value {
    let mut value = row;
    for name in &column.path {
        value = match value {
            Value::Object(map) => map.get(name).unwrap_or(&Value::Null),
            _ => &Value::Null,
        };
    }
    value
}

fn literal(scalar: &Scalar) -> Value {
    match scalar {
        Scalar::Integer(v) => Value::from(*v),
        Scalar::Long(v) => Value::from(*v),
        Scalar::Short(v) => Value::from(*v),
        Scalar::Byte(v) => Value::from(*v),
        Scalar::Date(v) => Value::from(*v),
        Scalar::Timestamp(v) => Value::from(*v),
        Scalar::TimestampNtz(v) => Value::from(*v),
        Scalar::Boolean(v) => Value::from(*v),
        Scalar::String(v) => Value::from(v.clone()),
        Scalar::Null(_) => Value::Null,
        other => panic!("no literal {other:?} in these tests"),
    }
}

fn coerce(value: Value, data_type: &DataType) -> DeltaResult<Value> {
    match (value, data_type) {
        (Value::Null, _) => Ok(Value::Null),
        (Value::String(text), DataType::Primitive(PrimitiveType::Date)) => {
            let parsed = PlainScalarParser {}.parse_scalar(PrimitiveType::Date, &text)?;
            Ok(literal(&parsed))
        }
        (Value::Object(map), DataType::Struct(fields)) => {
            let mut out = serde_json::Map::new();
            for field in &fields.fields {
                let value = map.get(&field.name).cloned().unwrap_or(Value::Null);
                out.insert(field.name.clone(), coerce(value, &field.data_type)?);
            }
            Ok(Value::Object(out))
        }
        (value, _) => Ok(value),
    }
}

fn eval(expr: &Expression, row: &Value) -> Value {
    match expr {
        Expression::Literal(s) => literal(s),
        Expression::Column(c) => at(row, c).clone(),
        Expression::Predicate(p) => match eval_pred(p, row) {
            Some(b) => Value::from(b),
            None => Value::Null,
        },
        Expression::Variadic(_, exprs) => exprs
            .iter()
            .map(|e| eval(e, row))
            .find(|v| !v.is_null())
            .unwrap_or(Value::Null),
        Expression::Unary(UnaryExpressionOp::ToJson, e) => match eval(e, row) {
            Value::Null => Value::Null,
            v => Value::from(v.to_string()),
        },
        Expression::ParseJson(e, _) => match eval(e, row) {
            Value::String(text) => serde_json::from_str(&text).unwrap_or(Value::Null),
            _ => Value::Null,
        },
        Expression::MapToStruct(e) => eval(e, row),
        other => panic!("no expression {other:?} in these tests"),
    }
}

fn compare(op: BinaryPredicateOp, a: &Value, b: &Value) -> Option<bool> {
    if op == BinaryPredicateOp::Distinct {
        return Some(a != b);
    }
    if a.is_null() || b.is_null() {
        return None;
    }
    let less = match (a, b) {
        (Value::String(a), Value::String(b)) => a < b,
        _ => a.as_i64()? < b.as_i64()?,
    };
    Some(match op {
        BinaryPredicateOp::LessThan => less,
        BinaryPredicateOp::Equal => a == b,
        BinaryPredicateOp::GreaterThan => !less && a != b,
        _ => return None,
    })
}

fn eval_pred(pred: &Predicate, row: &Value) -> Option<bool> {
    match pred {
        Predicate::BooleanExpression(e) => eval(e, row).as_bool(),
        Predicate::Not(p) => eval_pred(p, row).map(|b| !b),
        Predicate::IsNull(e) => Some(eval(e, row).is_null()),
        Predicate::Binary(op, a, b) => compare(*op, &eval(a, row), &eval(b, row)),
        Predicate::Junction(op, preds) => {
            let dominant = *op == JunctionPredicateOp::Or;
            let values: Vec<Option<bool>> = preds.iter().map(|p| eval_pred(p, row)).collect();
            if values.contains(&Some(dominant)) {
                Some(dominant)
            } else if values.contains(&None) {
                None
            } else {
                Some(!dominant)
            }
        }
        other => panic!("no predicate {other:?} in these tests"),
    }
}

fn fill(expr: &Expression, schema: &StructType, row: &Value) -> DeltaResult<Value> {
    let Expression::Struct(fields, _) = expr else {
        panic!("a batch is a struct");
    };
    assert_eq!(fields.len(), schema.fields.len());
    let mut out = serde_json::Map::new();
    for (e, field) in fields.iter().zip(&schema.fields) {
        let value = match (e.as_ref(), &field.data_type) {
            (Expression::Struct(..), DataType::Struct(inner)) => fill(e, inner, row)?,
            (e, t) => coerce(eval(e, row), t)?,
        };
        out.insert(field.name.clone(), value);
    }
    Ok(Value::Object(out))
}

impl Engine for JsonEngine {
    type Batch = Rows;
    type ExpressionEvaluator = Prepared;
    type PredicateEvaluator = PredicateRef;

    fn new_expression_evaluator(
        &self,
        _input_schema: SchemaRef,
        expression: ExpressionRef,
        output_schema: SchemaRef,
    ) -> DeltaResult<Prepared> {
        Ok(Prepared { expr: expression, output: output_schema })
    }

    fn new_predicate_evaluator(
        &self,
        _input_schema: SchemaRef,
        predicate: PredicateRef,
    ) -> DeltaResult<PredicateRef> {
        Ok(predicate)
    }

    fn evaluate_expression(&self, evaluator: &Prepared, batch: &Rows) -> DeltaResult<Rows> {
        if self.parse_error.replace(false) {
            return Err(Error::ParseError("x".to_string(), PrimitiveType::Integer));
        }
        let rows: DeltaResult<Vec<Value>> =
            batch.0.iter().map(|row| fill(&evaluator.expr, &evaluator.output, row)).collect();
        Ok(Rows(rows?))
    }

    fn evaluate_predicate(&self, evaluator: &PredicateRef, batch: &Rows) -> DeltaResult<Rows> {
        let rows = batch.0.iter().map(|row| {
            let mut out = serde_json::Map::new();
            let value = match eval_pred(evaluator, row) {
                Some(b) => Value::from(b),
                None => Value::Null,
            };
            out.insert("output".to_string(), value);
            Value::Object(out)
        });
        Ok(Rows(rows.collect()))
    }

    fn batch_len(&self, batch: &Rows) -> usize {
        batch.0.len()
    }

    fn read_columns(
        &self,
        batch: &Rows,
        names: &Vec<ColumnName>,
        types: &Vec<DataType>,
    ) -> DeltaResult<Vec<Column>> {
        let columns = names.iter().zip(types).map(|(name, data_type)| {
            let values = batch.0.iter().map(|row| at(row, name));
            match data_type {
                DataType::Primitive(PrimitiveType::String) => Column::Strings(
                    values.map(|v| v.as_str().map(|s| s.to_string())).collect(),
                ),
                DataType::Primitive(PrimitiveType::Long) => {
                    Column::Longs(values.map(|v| v.as_i64()).collect())
                }
                DataType::Primitive(PrimitiveType::Integer) => {
                    Column::Integers(values.map(|v| v.as_i64().map(|n| n as i32)).collect())
                }
                DataType::Primitive(PrimitiveType::Boolean) => {
                    Column::Booleans(values.map(|v| v.as_bool()).collect())
                }
                _ => Column::Pairs(
                    values
                        .map(|v| {
                            v.as_object().map(|map| {
                                map.iter()
                                    .filter_map(|(k, v)| {
                                        v.as_str().map(|v| (k.clone(), v.to_string()))
                                    })
                                    .collect()
                            })
                        })
                        .collect(),
                ),
            }
        });
        Ok(columns.collect())
    }

    fn apply_selection_vector(
        &self,
        batch: Rows,
        selection_vector: Vec<bool>,
    ) -> DeltaResult<Rows> {
        let kept = batch
            .0
            .into_iter()
            .enumerate()
            .filter(|(i, _)| selection_vector.get(*i).copied().unwrap_or(true))
            .map(|(_, row)| row);
        Ok(Rows(kept.collect()))
    }
}

// ---------------------------------------------------------------------------------------------
// Batches
// ---------------------------------------------------------------------------------------------

fn batch(lines: &[&str]) -> Rows {
    Rows(lines.iter().map(|line| serde_json::from_str(line).unwrap()).collect())
}

const METADATA: &str = r#"{"metaData":{"id":"testId","schemaString":"{}","partitionColumns":[]}}"#;
const PROTOCOL: &str = r#"{"protocol":{"minReaderVersion":1,"minWriterVersion":2}}"#;
const ADD_C000: &str = r#"{"add":{"path":"part-00000-fae5310a-a37d-4e51-827b-c3d5516560ca-c000.snappy.parquet","partitionValues":{"date":"2017-12-10"},"size":635,"modificationTime":1677811178336,"dataChange":true,"stats":"{\"numRecords\":10,\"minValues\":{\"value\":0},\"maxValues\":{\"value\":9},\"nullCount\":{\"value\":0},\"tightBounds\":true}","tags":{"INSERTION_TIME":"1677811178336000"},"deletionVector":{"storageType":"u","pathOrInlineDv":"vBn[lx{q8@P<9BNH/isA","offset":1,"sizeInBytes":36,"cardinality":2}}}"#;
const ADD_C001: &str = r#"{"add":{"path":"part-00000-fae5310a-a37d-4e51-827b-c3d5516560ca-c001.snappy.parquet","partitionValues":{"date":"2017-12-10"},"size":635,"modificationTime":1677811178336,"dataChange":true,"stats":"{\"numRecords\":10,\"minValues\":{\"value\":0},\"maxValues\":{\"value\":9},\"nullCount\":{\"value\":0},\"tightBounds\":true}"}}"#;
const REMOVE_C001: &str = r#"{"remove":{"path":"part-00000-fae5310a-a37d-4e51-827b-c3d5516560ca-c001.snappy.parquet","deletionTimestamp":1677811194426,"dataChange":true,"extendedFileMetadata":true,"partitionValues":{"date":"2017-12-10"},"size":635}}"#;

fn add_batch_simple() -> Rows {
    batch(&[ADD_C000, METADATA])
}

fn add_batch_with_remove() -> Rows {
    batch(&[REMOVE_C001, ADD_C001, ADD_C000, METADATA])
}

fn add_batch_with_partition_col() -> Rows {
    let earlier = ADD_C001.replace("2017-12-10", "2017-12-11");
    batch(&[METADATA, &earlier, PROTOCOL, ADD_C000])
}

fn add_batch_for_row_id() -> Rows {
    let with_id = ADD_C000.replace("\"size\":635", "\"size\":635,\"baseRowId\":42");
    batch(&[&with_id, METADATA])
}

fn schema(fields: Vec<StructField>) -> SchemaRef {
    Arc::new(StructType::new(fields))
}

fn primitive(name: &str, t: PrimitiveType) -> StructField {
    StructField::nullable(name, DataType::Primitive(t))
}

fn id_schema() -> SchemaRef {
    schema(vec![primitive("id", PrimitiveType::Integer)])
}

fn plain_state_info(logical_schema: SchemaRef) -> StateInfo {
    StateInfo {
        physical_schema: logical_schema.clone(),
        logical_schema,
        physical_predicate: PhysicalPredicate::Absent,
        transform_spec: None,
        column_mapping_mode: ColumnMappingMode::Unmapped,
        physical_stats_schema: None,
        physical_partition_schema: None,
        physical_stats_columns: ColumnSet::new(),
        is_catalog_managed: false,
        skip_row_transforms: false,
    }
}

/// A table with columns `value` and `date`, partitioned by `date`.
fn partitioned_state_info() -> StateInfo {
    let logical = schema(vec![
        primitive("value", PrimitiveType::Integer),
        primitive("date", PrimitiveType::Date),
    ]);
    StateInfo {
        physical_schema: schema(vec![primitive("value", PrimitiveType::Integer)]),
        transform_spec: Some(Arc::new(vec![FieldTransformSpec::MetadataDerivedColumn {
            field_index: 1,
            insert_after: Some("value".to_string()),
        }])),
        ..plain_state_info(logical)
    }
}

fn test_checkpoint_info() -> CheckpointReadInfo {
    CheckpointReadInfo::without_stats_parsed()
}

fn id(text: &str) -> MetricId {
    MetricId { id: text.to_string() }
}

fn replay_of(
    engine: &JsonEngine,
    state_info: StateInfo,
    stats_options: ScanStatsOptions,
) -> ScanReplay<JsonEngine> {
    let processor = ScanLogReplayProcessor::new(
        engine,
        Arc::new(state_info),
        test_checkpoint_info(),
        stats_options,
        ScanPartitionValuesOptions::default(),
    )
    .unwrap();
    ScanReplay {
        processor: Some(processor),
        cancelled: false,
        completed: false,
        operation_id: id("op"),
        is_catalog_managed: false,
        correlation_id: None,
        start: std::time::Instant::now(),
    }
}

/// All items of a log replay over commits.
fn scan_action_iter(
    engine: &JsonEngine,
    batches: Vec<Rows>,
    state_info: StateInfo,
    stats_options: ScanStatsOptions,
) -> Vec<DeltaResult<ScanMetadata<Rows>>> {
    let mut replay = replay_of(engine, state_info, stats_options);
    let mut events = vec![];
    let mut batches = batches.into_iter();
    let mut items = vec![];
    loop {
        let next = batches.next().map(|b| Ok(ActionsBatch::new(b, true)));
        match replay.step(engine, &PlainScalarParser {}, &mut events, false, next) {
            ReplayStep::Item(item) => items.push(item),
            ReplayStep::Again => {}
            ReplayStep::End => return items,
        }
    }
}

/// The selected rows of scan metadata.
fn scan_files(metadata: &ScanMetadata<Rows>) -> Vec<Value> {
    let selection = &metadata.scan_files.selection_vector;
    let rows = metadata.scan_files.data.0.iter().enumerate();
    rows.filter(|(i, _)| selection.get(*i).copied().unwrap_or(true))
        .map(|(_, row)| row.clone())
        .collect()
}

fn run_with_validate(batches: Vec<Rows>, expected_selection: &[bool], validate: fn(&Value)) {
    let items = scan_action_iter(
        &JsonEngine::default(),
        batches,
        plain_state_info(schema(vec![])),
        ScanStatsOptions::default(),
    );
    let mut found = false;
    for item in items {
        let metadata = item.unwrap();
        assert_eq!(metadata.scan_files.selection_vector, expected_selection);
        for file in scan_files(&metadata) {
            validate(&file);
            found = true;
        }
    }
    assert!(found);
}

fn validate_simple(file: &Value) {
    assert_eq!(
        file["path"],
        "part-00000-fae5310a-a37d-4e51-827b-c3d5516560ca-c000.snappy.parquet"
    );
    assert_eq!(file["size"], 635);
    let stats: Value = serde_json::from_str(file["stats"].as_str().unwrap()).unwrap();
    assert_eq!(stats["numRecords"], 10);
    let partition_values = &file["fileConstantValues"]["partitionValues"];
    assert_eq!(partition_values["date"], "2017-12-10");
    assert_eq!(partition_values["non-existent"], Value::Null);
}

#[test]
fn test_scan_action_iter() {
    run_with_validate(vec![add_batch_simple()], &[true, false], validate_simple);
}

#[test]
fn test_scan_action_iter_with_remove() {
    run_with_validate(
        vec![add_batch_with_remove()],
        &[false, false, true, false],
        validate_simple,
    );
}

#[test]
fn test_no_transforms() {
    let items = scan_action_iter(
        &JsonEngine::default(),
        vec![add_batch_simple()],
        plain_state_info(schema(vec![])),
        ScanStatsOptions::default(),
    );
    for res in items {
        let scan_metadata = res.unwrap();
        assert!(scan_metadata.scan_file_transforms.is_empty(), "Should have no transforms");
    }
}

#[test]
fn test_simple_transform() {
    let items = scan_action_iter(
        &JsonEngine::default(),
        vec![add_batch_with_partition_col()],
        partitioned_state_info(),
        ScanStatsOptions::default(),
    );

    fn validate_patch(patch_expr: Option<&ExpressionRef>, expected_date_offset: i32) {
        assert!(patch_expr.is_some());
        let Expression::StructPatch(patch) = patch_expr.unwrap().as_ref() else {
            panic!("Expression should always be a StructPatch expr");
        };

        // With sparse patches, we expect only one insertion for the partition column.
        assert!(patch.prepended_fields.is_empty());
        assert!(patch.appended_fields.is_empty());
        let mut field_patches = patch.field_patches.iter();
        let (field_name, field_patch) = field_patches.next().unwrap();
        assert_eq!(field_name, "value");
        assert!(field_patch.keep_input);
        let [expr] = &field_patch.insertions[..] else {
            panic!("Expected a single insertion");
        };
        let Expression::Literal(Scalar::Date(date_offset)) = expr.as_ref() else {
            panic!("Expected a literal date");
        };
        assert_eq!(*date_offset, expected_date_offset);
        assert!(field_patches.next().is_none());
    }

    for res in items {
        let transforms = res.unwrap().scan_file_transforms;
        // in this case we have a metadata action first and protocol 3rd, so we expect 4 items,
        // the first and 3rd being a `None`
        assert_eq!(transforms.len(), 4, "Should have 4 transforms");
        assert!(transforms[0].is_none(), "transform at [0] should be None");
        assert!(transforms[2].is_none(), "transform at [2] should be None");
        validate_patch(transforms[1].as_ref(), 17511);
        validate_patch(transforms[3].as_ref(), 17510);
    }
}

fn row_id_state_info() -> StateInfo {
    StateInfo {
        transform_spec: Some(Arc::new(vec![
            FieldTransformSpec::GenerateRowId {
                field_name: "row_id_col".to_string(),
                row_index_field_name: "row_indexes_for_row_id_0".to_string(),
            },
            FieldTransformSpec::StaticDrop {
                field_name: "row_indexes_for_row_id_0".to_string(),
            },
        ])),
        ..plain_state_info(schema(vec![primitive("value", PrimitiveType::Integer)]))
    }
}

fn assert_transform_spec(
    transform_spec: &[FieldTransformSpec],
    requested_row_indexes: bool,
    expected_row_id_name: &str,
    expected_row_index_name: &str,
) {
    let mut generated = transform_spec.iter().filter_map(|spec| match spec {
        FieldTransformSpec::GenerateRowId { field_name, row_index_field_name } => {
            Some((field_name.as_str(), row_index_field_name.as_str()))
        }
        _ => None,
    });
    assert_eq!(generated.next(), Some((expected_row_id_name, expected_row_index_name)));
    assert!(generated.next().is_none());
    let dropped = transform_spec.iter().any(|spec| {
        matches!(spec, FieldTransformSpec::StaticDrop { field_name } if field_name == expected_row_index_name)
    });
    assert_eq!(dropped, !requested_row_indexes);
}

#[test]
fn test_row_id_patch() {
    let state_info = row_id_state_info();
    let transform_spec = state_info.transform_spec.as_ref().unwrap();
    assert_transform_spec(transform_spec, false, "row_id_col", "row_indexes_for_row_id_0");

    let items = scan_action_iter(
        &JsonEngine::default(),
        vec![add_batch_for_row_id()],
        row_id_state_info(),
        ScanStatsOptions::default(),
    );
    for res in items {
        let transforms = res.unwrap().scan_file_transforms;
        assert_eq!(transforms.len(), 1, "Should have 1 transform");
        if let Some(Expression::StructPatch(patch)) = transforms[0].as_ref().map(Arc::as_ref) {
            assert!(patch.input_path.is_none());
            let row_id_patch = patch.get("row_id_col").expect("Should have row_id_col patch");
            assert!(!row_id_patch.keep_input);
            assert_eq!(row_id_patch.insertions.len(), 1);
            let expr = &row_id_patch.insertions[0];
            let expected_expr = Expression::coalesce(
                Expression::top("row_id_col"),
                Expression::Binary(
                    BinaryExpressionOp::Plus,
                    Arc::new(Expression::Literal(Scalar::Long(42))),
                    Arc::new(Expression::top("row_indexes_for_row_id_0")),
                ),
            );
            assert_eq!(expr.as_ref(), &expected_expr);
        } else {
            panic!("Should have been a StructPatch expression");
        }
    }
}

#[test]
fn row_ids_need_a_base_row_id() {
    let items = scan_action_iter(
        &JsonEngine::default(),
        vec![add_batch_simple()],
        row_id_state_info(),
        ScanStatsOptions::default(),
    );
    let [Err(e)] = &items[..] else {
        panic!("expected one error");
    };
    assert_eq!(e.message(), "Asked to generate RowIds, but no baseRowId found.");
}

#[test]
fn test_scan_action_iter_with_skip_stats() {
    let items = scan_action_iter(
        &JsonEngine::default(),
        vec![add_batch_simple()],
        partitioned_state_info(),
        ScanStatsOptions { skip_stats: true, ..Default::default() },
    );
    let mut found_add = false;
    for res in items {
        for file in scan_files(&res.unwrap()) {
            assert!(file["stats"].is_null());
        }
        found_add = true;
    }
    assert!(found_add);
}

// ---------------------------------------------------------------------------------------------
// Data skipping end to end
// ---------------------------------------------------------------------------------------------

fn lit(v: i32) -> Expression {
    Expression::Literal(Scalar::Integer(v))
}

fn date_lit(v: i32) -> Expression {
    Expression::Literal(Scalar::Date(v))
}

fn stats_schema() -> SchemaRef {
    let value = || schema(vec![primitive("value", PrimitiveType::Integer)]).as_ref().clone();
    let count = schema(vec![primitive("value", PrimitiveType::Long)]).as_ref().clone();
    let nested = |name: &str, t: StructType| {
        StructField::nullable(name, DataType::Struct(Box::new(t)))
    };
    schema(vec![
        primitive("numRecords", PrimitiveType::Long),
        nested("nullCount", count),
        nested("minValues", value()),
        nested("maxValues", value()),
    ])
}

fn skipping_state_info(predicate: Predicate, partitioned: bool) -> StateInfo {
    let info = if partitioned {
        partitioned_state_info()
    } else {
        plain_state_info(schema(vec![primitive("value", PrimitiveType::Integer)]))
    };
    let physical_predicate = PhysicalPredicate::try_new(
        &predicate,
        &info.logical_schema,
        ColumnMappingMode::Unmapped,
    )
    .unwrap();
    let mut physical_stats_columns = ColumnSet::new();
    physical_stats_columns.insert(ColumnName::top("value"));
    StateInfo {
        physical_predicate,
        physical_stats_schema: Some(stats_schema()),
        physical_partition_schema: partitioned
            .then_some(schema(vec![primitive("date", PrimitiveType::Date)])),
        physical_stats_columns,
        ..info
    }
}

fn surviving_paths(predicate: Predicate, partitioned: bool, rows: Rows) -> Vec<String> {
    let items = scan_action_iter(
        &JsonEngine::default(),
        vec![rows],
        skipping_state_info(predicate, partitioned),
        ScanStatsOptions::default(),
    );
    let mut paths = vec![];
    for item in items {
        for file in scan_files(&item.unwrap()) {
            paths.push(file["path"].as_str().unwrap().to_string());
        }
    }
    paths
}

fn check_remove_survives(predicate: Predicate, partitioned: bool) {
    // Batch: [Remove c001, Add c001, Add c000, Metadata]
    // The Remove must not be pruned -- it records c001 as seen, suppressing the c001 Add.
    let paths = surviving_paths(predicate, partitioned, add_batch_with_remove());
    assert_eq!(paths.len(), 1, "Expected exactly one add to survive");
    assert!(paths[0].contains("c000"), "Expected c000 add to survive, got: {}", paths[0]);
}

#[test]
fn data_skipping_does_not_prune_remove_actions_stats_only() {
    check_remove_survives(Predicate::gt(Expression::top("value"), lit(5)), false);
}

#[test]
fn data_skipping_does_not_prune_remove_actions_partition_predicate() {
    check_remove_survives(Predicate::eq(Expression::top("date"), date_lit(17_510)), true);
}

#[test]
fn data_skipping_does_not_prune_remove_actions_mixed() {
    check_remove_survives(
        Predicate::and(
            Predicate::gt(Expression::top("value"), lit(5)),
            Predicate::eq(Expression::top("date"), date_lit(17_510)),
        ),
        true,
    );
}

#[test]
fn data_skipping_drops_files_that_cannot_match() {
    let beyond = Predicate::gt(Expression::top("value"), lit(9));
    assert!(surviving_paths(beyond, false, add_batch_simple()).is_empty());
    let inside = Predicate::gt(Expression::top("value"), lit(8));
    assert_eq!(surviving_paths(inside, false, add_batch_simple()).len(), 1);
    let other_day = Predicate::eq(Expression::top("date"), date_lit(17_511));
    assert!(surviving_paths(other_day, true, add_batch_simple()).is_empty());
    let null = Predicate::is_null(Expression::top("value"));
    assert!(surviving_paths(null, false, add_batch_simple()).is_empty());
}

#[test]
fn partition_filter_applies_without_stats() {
    // With skipped stats there is no columnar data skipping.
    let other_day = Predicate::eq(Expression::top("date"), date_lit(17_511));
    let same_day = Predicate::eq(Expression::top("date"), date_lit(17_510));
    let on_data = Predicate::gt(Expression::top("value"), lit(9));
    let no_date = ADD_C001.replace(r#"{"date":"2017-12-10"}"#, "{}");
    for (predicate, rows, expected) in [
        (other_day.clone(), batch(&[ADD_C000, METADATA]), 0),
        (same_day.clone(), batch(&[ADD_C000, METADATA]), 1),
        (on_data, batch(&[ADD_C000]), 1),
        // A NULL partition value equals nothing.
        (same_day, batch(&[&no_date]), 0),
        (Predicate::is_null(Expression::top("date")), batch(&[&no_date, ADD_C000]), 1),
        (Predicate::not(other_day), batch(&[ADD_C000]), 1),
    ] {
        let items = scan_action_iter(
            &JsonEngine::default(),
            vec![rows],
            skipping_state_info(predicate, true),
            ScanStatsOptions { skip_stats: true, ..Default::default() },
        );
        let files: usize = items.iter().map(|i| scan_files(i.as_ref().unwrap()).len()).sum();
        assert_eq!(files, expected);
    }
}

#[test]
fn removes_count_though_their_partition_does_not_match() {
    let other_day = Predicate::eq(Expression::top("date"), date_lit(17_511));
    let later = ADD_C001.replace("2017-12-10", "2017-12-11");
    let items = scan_action_iter(
        &JsonEngine::default(),
        vec![batch(&[REMOVE_C001]), batch(&[&later])],
        skipping_state_info(other_day, true),
        ScanStatsOptions { skip_stats: true, ..Default::default() },
    );
    assert!(items.is_empty(), "the Remove hides the Add");
}

#[test]
fn single_partition_rows() {
    let kept = |predicate: Predicate, pairs: &[(&str, &str)]| {
        let pairs = pairs.iter().map(|(k, v)| (k.to_string(), v.to_string())).collect();
        partition_row_kept(
            &PlainScalarParser {},
            &skipping_state_info(predicate, true),
            &pairs,
        )
    };
    let date = || Expression::top("date");
    assert!(kept(Predicate::lt(date(), date_lit(17_511)), &[("date", "2017-12-10")]));
    assert!(!kept(Predicate::lt(date(), date_lit(17_510)), &[("date", "2017-12-10")]));
    // Nothing is known of a value that cannot be parsed.
    assert!(kept(Predicate::lt(date(), date_lit(17_510)), &[("date", "soon")]));
    let either = Predicate::or(
        Predicate::lt(date(), date_lit(17_510)),
        Predicate::gt(Expression::top("value"), lit(9)),
    );
    assert!(kept(either, &[("date", "2017-12-10")]));
}

#[test]
fn filtered_rows_are_counted() {
    let engine = JsonEngine::default();
    let predicate = Predicate::gt(Expression::top("value"), lit(9));
    let mut replay =
        replay_of(&engine, skipping_state_info(predicate, false), ScanStatsOptions::default());
    let mut events = vec![];
    let next = Some(Ok(ActionsBatch::new(add_batch_with_remove(), true)));
    let step = replay.step(&engine, &PlainScalarParser {}, &mut events, false, next);
    assert!(matches!(step, ReplayStep::Again));
    let step = replay.step(&engine, &PlainScalarParser {}, &mut events, false, None);
    assert!(matches!(step, ReplayStep::End));
    let [MetricEvent::ScanMetadataCompleted(event)] = &events[..] else {
        panic!("expected one event");
    };
    assert_eq!(event.num_predicate_filtered, 2);
    assert_eq!(event.num_remove_files_seen, 1);
    assert_eq!(event.num_add_files_seen, 0);
    assert_eq!(event.num_non_file_actions, 1);
    assert_eq!(event.num_active_add_files, 0);
    assert_eq!(event.peak_hash_set_size, 1);
    assert_eq!(event.scan_type, ScanType::Full);
}

#[test]
fn surviving_files_are_counted() {
    let engine = JsonEngine::default();
    let mut replay =
        replay_of(&engine, plain_state_info(id_schema()), ScanStatsOptions::default());
    let mut events = vec![];
    let next = Some(Ok(ActionsBatch::new(add_batch_with_remove(), true)));
    let step = replay.step(&engine, &PlainScalarParser {}, &mut events, false, next);
    assert!(matches!(step, ReplayStep::Item(Ok(_))));
    let metrics = replay.processor.as_ref().unwrap().get_metrics();
    assert_eq!(metrics.num_add_files_seen, 2);
    assert_eq!(metrics.num_active_add_files, 1);
    assert_eq!(metrics.active_add_files_bytes, 635);
    assert_eq!(metrics.peak_hash_set_size, 2);
}

#[test]
fn parse_errors_are_retried_on_the_survivors() {
    let engine = JsonEngine { parse_error: RefCell::new(true) };
    let items = scan_action_iter(
        &engine,
        vec![add_batch_with_partition_col()],
        partitioned_state_info(),
        ScanStatsOptions::default(),
    );
    let [Ok(metadata)] = &items[..] else {
        panic!("expected one item");
    };
    assert_eq!(metadata.scan_files.selection_vector, [true, true]);
    assert_eq!(metadata.scan_files.data.0.len(), 2);
    assert_eq!(metadata.scan_file_transforms.len(), 2);
    assert!(metadata.scan_file_transforms.iter().all(|t| t.is_some()));
}

#[test]
fn older_batches_do_not_bring_back_removed_files() {
    let items = scan_action_iter(
        &JsonEngine::default(),
        vec![batch(&[REMOVE_C001]), batch(&[ADD_C001, ADD_C000]), batch(&[ADD_C000])],
        plain_state_info(id_schema()),
        ScanStatsOptions::default(),
    );
    let paths: Vec<Value> = items
        .iter()
        .flat_map(|item| scan_files(item.as_ref().unwrap()))
        .map(|file| file["path"].clone())
        .collect();
    assert_eq!(paths.len(), 1);
    assert!(paths[0].as_str().unwrap().contains("c000"));
}

#[test]
fn cutting_the_log_into_batches_does_not_matter() {
    let rows = || [REMOVE_C001, ADD_C001, ADD_C000, METADATA, ADD_C000];
    let files = |batches: Vec<Rows>| -> Vec<Value> {
        scan_action_iter(
            &JsonEngine::default(),
            batches,
            plain_state_info(id_schema()),
            ScanStatsOptions::default(),
        )
        .iter()
        .flat_map(|item| scan_files(item.as_ref().unwrap()))
        .collect()
    };
    let whole = files(vec![batch(&rows())]);
    assert_eq!(whole.len(), 1);
    for cut in 0..=rows().len() {
        assert_eq!(files(vec![batch(&rows()[..cut]), batch(&rows()[cut..])]), whole);
    }
}

#[test]
fn bad_partition_values_are_errors() {
    let bad = ADD_C000.replace("2017-12-10", "2017-13-10");
    let engine = JsonEngine::default();
    let mut replay = replay_of(&engine, partitioned_state_info(), ScanStatsOptions::default());
    let next = Some(Ok(ActionsBatch::new(batch(&[&bad]), true)));
    let step =
        replay.step(&engine, &PlainScalarParser {}, &mut vec![], false, next);
    let ReplayStep::Item(Err(e)) = step else {
        panic!("expected an error");
    };
    assert_eq!(e, Error::ParseError("2017-13-10".to_string(), PrimitiveType::Date));
}

// ---------------------------------------------------------------------------------------------
// Steps of a replay
// ---------------------------------------------------------------------------------------------

#[test]
fn cancellation_is_the_last_item() {
    let engine = JsonEngine::default();
    let mut replay =
        replay_of(&engine, plain_state_info(id_schema()), ScanStatsOptions::default());
    let mut events = vec![];
    let parser = PlainScalarParser {};
    assert!(replay.wants_actions());
    let next = Some(Ok(ActionsBatch::new(add_batch_simple(), true)));
    let step = replay.step(&engine, &parser, &mut events, true, next);
    assert!(matches!(step, ReplayStep::Item(Err(Error::Cancelled))));
    assert!(!replay.wants_actions());
    assert!(matches!(replay.step(&engine, &parser, &mut events, true, None), ReplayStep::End));
    assert!(matches!(replay.step(&engine, &parser, &mut events, false, None), ReplayStep::End));
    assert_eq!(events.len(), 1, "the end is reported once");
}

#[test]
fn errors_of_the_log_are_passed_on() {
    let engine = JsonEngine::default();
    let mut replay =
        replay_of(&engine, plain_state_info(id_schema()), ScanStatsOptions::default());
    let next = Some(Err(Error::generic("unreadable")));
    let step =
        replay.step(&engine, &PlainScalarParser {}, &mut vec![], false, next);
    let ReplayStep::Item(Err(e)) = step else {
        panic!("expected an error");
    };
    assert_eq!(e.message(), "unreadable");
}

// ---------------------------------------------------------------------------------------------
// The scan row transform
// ---------------------------------------------------------------------------------------------

/// Walk `expr` and count `ToJson` occurrences anywhere in the tree.
fn count_to_json(expr: &Expression) -> usize {
    match expr {
        Expression::Unary(UnaryExpressionOp::ToJson, e) => 1 + count_to_json(e),
        Expression::Binary(_, a, b) => count_to_json(a) + count_to_json(b),
        Expression::Variadic(_, exprs) => exprs.iter().map(|e| count_to_json(e)).sum(),
        Expression::Struct(fields, nullability) => {
            fields.iter().map(|e| count_to_json(e)).sum::<usize>()
                + nullability.as_ref().map_or(0, |e| count_to_json(e))
        }
        Expression::StructPatch(p) => {
            let insertions = p.field_patches.iter().flat_map(|(_, fp)| fp.insertions.iter());
            p.prepended_fields
                .iter()
                .chain(p.appended_fields.iter())
                .chain(insertions)
                .map(|e| count_to_json(e))
                .sum()
        }
        Expression::ParseJson(e, _) => count_to_json(e),
        Expression::MapToStruct(e) => count_to_json(e),
        Expression::Cast(e, _) => count_to_json(e),
        Expression::Predicate(_)
        | Expression::Literal(_)
        | Expression::Column(_)
        | Expression::Opaque(..)
        | Expression::Unknown(_) => 0,
    }
}

#[test]
fn add_transform_omits_to_json_when_synthesis_skipped() {
    let stats_schema = Some(schema(vec![
        primitive("id", PrimitiveType::Long),
        primitive("value", PrimitiveType::String),
    ]));
    let partition_schema = Some(schema(vec![primitive("date", PrimitiveType::Date)]));

    // Synthesis enabled: COALESCE branch present -> exactly one ToJson.
    let with_synthesis =
        get_add_transform_expr(&stats_schema, true, false, true, &partition_schema, false);
    assert_eq!(
        count_to_json(&with_synthesis),
        1,
        "expected exactly one ToJson(add.stats_parsed) in the COALESCE branch when synthesis is enabled"
    );

    // Synthesis disabled: no ToJson anywhere in the transform.
    let without_synthesis =
        get_add_transform_expr(&stats_schema, true, false, false, &partition_schema, false);
    assert_eq!(
        count_to_json(&without_synthesis),
        0,
        "expected no ToJson nodes anywhere in the transform when synthesis is skipped"
    );
    assert!(
        !without_synthesis.references().contains(&ColumnName::nested("add", "stats")),
        "structured-only checkpoint transform must not reference add.stats"
    );
    let Expression::Struct(fields, _) = without_synthesis.as_ref() else {
        panic!("add transform must produce a struct");
    };
    assert_eq!(
        fields[3].as_ref(),
        &Expression::Literal(Scalar::Null(DataType::Primitive(PrimitiveType::String))),
        "structured-only checkpoint stats output must be a typed NULL"
    );
}

#[test]
fn scan_rows_can_be_turned_back_into_adds() {
    let engine = JsonEngine::default();
    let items = scan_action_iter(
        &engine,
        vec![add_batch_simple()],
        plain_state_info(id_schema()),
        ScanStatsOptions::default(),
    );
    let metadata = items.into_iter().next().unwrap().unwrap();
    let rows = Rows(scan_files(&metadata));
    let restore = engine
        .new_expression_evaluator(
            scan_row_schema(),
            get_scan_metadata_transform_expr(),
            restored_add_schema(),
        )
        .unwrap();
    let restored = restore_actions(&engine, &restore, &rows).unwrap();
    assert!(!restored.is_log_batch);
    let before: Value = serde_json::from_str(ADD_C000).unwrap();
    let after = &restored.actions.0[0]["add"];
    for name in ["path", "partitionValues", "size", "modificationTime", "stats", "tags"] {
        assert_eq!(after[name], before["add"][name], "{name}");
    }
    assert_eq!(after["deletionVector"]["pathOrInlineDv"], "vBn[lx{q8@P<9BNH/isA");
}

#[test]
fn updating_an_earlier_scan_finds_the_files_of_a_full_scan() {
    let engine = JsonEngine::default();
    let added = ADD_C001.replace("c001", "c002");
    let newer = || batch(&[REMOVE_C001, &added]);
    let older = || batch(&[ADD_C001, ADD_C000]);
    let paths = |items: Vec<DeltaResult<ScanMetadata<Rows>>>| -> Vec<Value> {
        let files = items.iter().flat_map(|item| scan_files(item.as_ref().unwrap()));
        files.map(|file| file["path"].clone()).collect()
    };
    let scan = |batches: Vec<Rows>| {
        let info = plain_state_info(id_schema());
        scan_action_iter(&engine, batches, info, ScanStatsOptions::default())
    };
    let full = paths(scan(vec![newer(), older()]));
    assert_eq!(full.len(), 2);

    let earlier = scan(vec![older()]).into_iter().next().unwrap().unwrap();
    let restore = engine
        .new_expression_evaluator(
            scan_row_schema(),
            get_scan_metadata_transform_expr(),
            restored_add_schema(),
        )
        .unwrap();
    let existing = restore_actions(&engine, &restore, &Rows(scan_files(&earlier))).unwrap();
    let mut replay =
        replay_of(&engine, plain_state_info(id_schema()), ScanStatsOptions::default());
    let mut updated = vec![];
    for actions in [ActionsBatch::new(newer(), true), existing] {
        let step =
            replay.step(&engine, &PlainScalarParser {}, &mut vec![], false, Some(Ok(actions)));
        if let ReplayStep::Item(item) = step {
            updated.push(item);
        }
    }
    assert_eq!(paths(updated), full);
}

#[test]
fn both_phases_treat_checkpoints_alike() {
    let engine = JsonEngine::default();
    let parser = PlainScalarParser {};
    let make = || {
        let mut p = processor(partitioned_state_info());
        let removed: Value = serde_json::from_str(REMOVE_C001).unwrap();
        let path = removed["remove"]["path"].as_str().unwrap().to_string();
        p.seen_file_keys.insert(FileActionKey::new(path, None));
        p
    };
    let checkpoint = || ActionsBatch::new(batch(&[ADD_C001, ADD_C000, METADATA]), false);
    let mut sequential = make();
    let one = sequential.process_actions_batch(&engine, &parser, checkpoint()).unwrap();
    let parallel = make();
    let mut counted = parallel.metrics;
    let other =
        parallel.process_checkpoint_batch(&engine, &parser, checkpoint(), &mut counted).unwrap();
    assert_eq!(one.scan_files.selection_vector, [false, true, false]);
    assert_eq!(other.scan_files.selection_vector, one.scan_files.selection_vector);
    assert_eq!(other.scan_files.data.0, one.scan_files.data.0);
    assert_eq!(other.scan_file_transforms, one.scan_file_transforms);
    assert_eq!(sequential.seen_file_keys.len(), 1);
    assert_eq!(counted.num_active_add_files, sequential.metrics.num_active_add_files);
}

// ---------------------------------------------------------------------------------------------
// Serialization
// ---------------------------------------------------------------------------------------------

/// Keeps internal states in a list, and the position of each as its bytes.
#[derive(Default)]
struct ListCodec {
    states: RefCell<Vec<InternalScanState>>,
}

fn copy_internal(s: &InternalScanState) -> InternalScanState {
    InternalScanState {
        logical_schema: s.logical_schema.clone(),
        physical_schema: s.physical_schema.clone(),
        predicate_schema: s.predicate_schema.clone(),
        transform_spec: s.transform_spec.clone(),
        column_mapping_mode: s.column_mapping_mode,
        physical_stats_schema: s.physical_stats_schema.clone(),
        stats_options: s.stats_options,
        partition_values_options: s.partition_values_options,
        physical_partition_schema: s.physical_partition_schema.clone(),
        physical_stats_columns: s.physical_stats_columns.clone(),
        is_catalog_managed: s.is_catalog_managed,
        skip_row_transforms: s.skip_row_transforms,
    }
}

impl StateCodec for ListCodec {
    fn encode(&self, state: &InternalScanState) -> Result<Vec<u8>, String> {
        let mut states = self.states.borrow_mut();
        states.push(copy_internal(state));
        Ok(vec![(states.len() - 1) as u8])
    }

    fn decode(&self, blob: &Vec<u8>) -> Result<InternalScanState, String> {
        match &blob[..] {
            [i] => Ok(copy_internal(&self.states.borrow()[*i as usize])),
            _ => Err("expected value at line 1 column 1".to_string()),
        }
    }
}

struct FailingCodec;

impl StateCodec for FailingCodec {
    fn encode(&self, _: &InternalScanState) -> Result<Vec<u8>, String> {
        Err("disk full".to_string())
    }

    fn decode(&self, _: &Vec<u8>) -> Result<InternalScanState, String> {
        Err("trailing characters".to_string())
    }
}

fn processor(state_info: StateInfo) -> ScanLogReplayProcessor<JsonEngine> {
    ScanLogReplayProcessor::new(
        &JsonEngine::default(),
        Arc::new(state_info),
        test_checkpoint_info(),
        ScanStatsOptions::default(),
        ScanPartitionValuesOptions::default(),
    )
    .unwrap()
}

fn round_trip(p: ScanLogReplayProcessor<JsonEngine>) -> ScanLogReplayProcessor<JsonEngine> {
    let codec = ListCodec::default();
    let state = p.into_serializable_state(&codec).unwrap();
    ScanLogReplayProcessor::from_serializable_state(&JsonEngine::default(), &codec, state).unwrap()
}

#[test]
fn test_serialization_basic_state_and_dv_dropping() {
    let schema = schema(vec![
        primitive("id", PrimitiveType::Integer),
        primitive("value", PrimitiveType::String),
    ]);
    let mut processor = processor(plain_state_info(schema));

    // Add file keys with and without DV info
    let key1 = FileActionKey::new("file1.parquet".to_string(), None);
    let key2 = FileActionKey::new("file2.parquet".to_string(), Some("dv-1".to_string()));
    let key3 = FileActionKey::new("file3.parquet".to_string(), Some("dv-2".to_string()));
    processor.seen_file_keys.insert(key1.clone());
    processor.seen_file_keys.insert(key2.clone());
    processor.seen_file_keys.insert(key3.clone());

    let state_info = processor.plan.state_info.clone();
    let deserialized = round_trip(processor);

    // Verify StateInfo fields preserved
    let restored = &deserialized.plan.state_info;
    assert_eq!(restored.logical_schema, state_info.logical_schema);
    assert_eq!(restored.physical_schema, state_info.physical_schema);
    assert_eq!(restored.column_mapping_mode, state_info.column_mapping_mode);

    // Verify all file keys are preserved with their DV info
    assert_eq!(deserialized.seen_file_keys.len(), 3);
    assert!(deserialized.seen_file_keys.contains(&key1));
    assert!(deserialized.seen_file_keys.contains(&key2));
    assert!(deserialized.seen_file_keys.contains(&key3));
}

#[test]
fn test_serialization_with_predicate() {
    let schema = schema(vec![
        primitive("id", PrimitiveType::Integer),
        primitive("value", PrimitiveType::String),
    ]);
    let predicate = Predicate::eq(Expression::top("id"), lit(10));
    let physical_predicate =
        PhysicalPredicate::try_new(&predicate, &schema, ColumnMappingMode::Unmapped).unwrap();
    let original_pred_schema = match &physical_predicate {
        PhysicalPredicate::Present(_, s) => s.clone(),
        _ => panic!("Expected predicate"),
    };
    let info = StateInfo { physical_predicate, ..plain_state_info(schema) };
    let deserialized = round_trip(processor(info));
    match &deserialized.plan.state_info.physical_predicate {
        PhysicalPredicate::Present(pred, pred_schema) => {
            assert_eq!(pred.as_ref(), &predicate);
            assert_eq!(pred_schema.as_ref(), original_pred_schema.as_ref());
        }
        _ => panic!("Expected PhysicalPredicate::Present"),
    }
}

#[test]
fn test_serialization_with_transforms() {
    let transform = vec![
        FieldTransformSpec::MetadataDerivedColumn {
            field_index: 1,
            insert_after: Some("value".to_string()),
        },
        FieldTransformSpec::GenerateRowId {
            field_name: "row_id_col".to_string(),
            row_index_field_name: "row_indexes_for_row_id_0".to_string(),
        },
    ];
    let info = StateInfo {
        transform_spec: Some(Arc::new(transform)),
        ..partitioned_state_info()
    };
    let original_transform = info.transform_spec.clone();
    assert!(original_transform.is_some());
    let deserialized = round_trip(processor(info));
    assert_eq!(deserialized.plan.state_info.transform_spec, original_transform);
}

#[test]
fn test_serialization_column_mapping_modes() {
    for mode in [
        ColumnMappingMode::Unmapped,
        ColumnMappingMode::Id,
        ColumnMappingMode::Name,
    ] {
        let info = StateInfo { column_mapping_mode: mode, ..plain_state_info(id_schema()) };
        let deserialized = round_trip(processor(info));
        assert_eq!(deserialized.plan.state_info.column_mapping_mode, mode);
    }
}

#[test]
fn test_serialization_edge_cases() {
    // Test edge cases: empty seen_file_keys, no predicate, no transform_spec
    let codec = ListCodec::default();
    let serialized =
        processor(plain_state_info(id_schema())).into_serializable_state(&codec).unwrap();
    assert!(serialized.predicate.is_none());
    let deserialized = ScanLogReplayProcessor::from_serializable_state(
        &JsonEngine::default(),
        &codec,
        serialized,
    )
    .unwrap();
    assert_eq!(deserialized.seen_file_keys.len(), 0);
    assert!(deserialized.plan.state_info.transform_spec.is_none());
}

#[test]
fn test_serialization_round_trips_is_catalog_managed() {
    let info = StateInfo { is_catalog_managed: true, ..plain_state_info(id_schema()) };
    assert!(round_trip(processor(info)).is_catalog_managed());
}

#[test]
fn test_serialization_round_trips_skip_row_transforms() {
    for skip in [false, true] {
        let info = StateInfo { skip_row_transforms: skip, ..plain_state_info(id_schema()) };
        let deserialized = round_trip(processor(info));
        assert_eq!(deserialized.plan.state_info.skip_row_transforms, skip);
    }
}

#[test]
fn statically_false_predicates_are_forgotten() {
    let info = StateInfo {
        physical_predicate: PhysicalPredicate::StaticSkipAll,
        ..plain_state_info(id_schema())
    };
    let deserialized = round_trip(processor(info));
    assert!(matches!(
        deserialized.plan.state_info.physical_predicate,
        PhysicalPredicate::Absent
    ));
}

#[test]
fn test_serialization_invalid_json() {
    let invalid_state = SerializableScanState {
        predicate: None,
        internal_state_blob: vec![0, 1, 2, 3, 255], // Invalid JSON
        seen_file_keys: FileKeySet::new(),
        checkpoint_info: test_checkpoint_info(),
    };
    let result = ScanLogReplayProcessor::from_serializable_state(
        &JsonEngine::default(),
        &ListCodec::default(),
        invalid_state,
    );
    assert!(matches!(result, Err(Error::MalformedJson(_))));
}

fn opaque(name: &str, exprs: Vec<ExpressionRef>) -> Predicate {
    Predicate::Opaque(OpaquePredicate {
        name: name.to_string(),
        exprs,
        implied: None,
        implied_inverted: None,
        constant: None,
    })
}

fn serialize_with(predicate: Predicate) -> DeltaResult<SerializableScanState> {
    let physical_predicate = PhysicalPredicate::Present(Arc::new(predicate), id_schema());
    let info = StateInfo { physical_predicate, ..plain_state_info(id_schema()) };
    processor(info).into_serializable_state(&ListCodec::default())
}

#[test]
fn serializng_scan_state_with_opaque_predicate_fails() {
    let Err(e) = serialize_with(opaque("test_op", vec![])) else {
        panic!("expected an error");
    };
    assert!(e.message().contains("Cannot serialize an Opaque Predicate"), "{}", e.message());
}

#[test]
fn opaque_parts_cannot_be_serialized() {
    let nested = Predicate::and(
        Predicate::gt(Expression::top("id"), lit(5)),
        Predicate::not(opaque("matches", vec![Arc::new(Expression::top("id"))])),
    );
    let on_expression =
        Predicate::is_null(Expression::Opaque("shift".to_string(), vec![]));
    for predicate in [nested, on_expression] {
        let Err(e) = serialize_with(predicate) else {
            panic!("expected an error");
        };
        assert_eq!(e, Error::unsupported("Cannot serialize an Opaque Predicate"));
    }
}

#[test]
fn rows_that_the_partition_filter_cannot_judge_are_kept() {
    // No transform needs the partition values here.
    let other_day = || Predicate::eq(Expression::top("date"), date_lit(17_511));
    let unparsable = ADD_C000.replace("2017-12-10", "soon");
    let no_map = ADD_C000.replace(r#"{"date":"2017-12-10"}"#, "null");
    for add in [&unparsable, &no_map] {
        let info = StateInfo {
            transform_spec: None,
            ..skipping_state_info(other_day(), true)
        };
        let items = scan_action_iter(
            &JsonEngine::default(),
            vec![batch(&[add])],
            info,
            ScanStatsOptions { skip_stats: true, ..Default::default() },
        );
        let [Ok(metadata)] = &items[..] else {
            panic!("expected one item");
        };
        assert_eq!(metadata.scan_files.selection_vector, [true]);
    }
}

#[test]
fn failed_serialization_says_why() {
    let result = processor(plain_state_info(id_schema())).into_serializable_state(&FailingCodec);
    let Err(e) = result else {
        panic!("expected an error");
    };
    assert_eq!(e.message(), "Failed to serialize internal state: disk full");
}

#[test]
fn test_serialization_missing_predicate_schema() {
    // Test that missing predicate_schema when predicate exists is detected
    let codec = ListCodec::default();
    let internal = InternalScanState::from_state_info(
        &plain_state_info(id_schema()),
        ScanStatsOptions::default(),
        ScanPartitionValuesOptions::default(),
    );
    assert!(internal.predicate_schema.is_none());
    let invalid_state = SerializableScanState {
        // Predicate exists but schema is None
        predicate: Some(Arc::new(Predicate::column(ColumnName::top("id")))),
        internal_state_blob: codec.encode(&internal).unwrap(),
        seen_file_keys: FileKeySet::new(),
        checkpoint_info: test_checkpoint_info(),
    };
    let result = ScanLogReplayProcessor::from_serializable_state(
        &JsonEngine::default(),
        &codec,
        invalid_state,
    );
    assert!(result.is_err());
    if let Err(e) = result {
        assert!(e.message().contains("predicate schema"));
    }
}

// ---------------------------------------------------------------------------------------------
// Two phases
// ---------------------------------------------------------------------------------------------

#[test]
fn test_parallel_state_log_metrics_carries_round_tripped_table_type() {
    let engine = JsonEngine::default();
    let codec = ListCodec::default();
    let info = StateInfo { is_catalog_managed: true, ..plain_state_info(id_schema()) };
    let serialized = processor(info).into_serializable_state(&codec).unwrap();
    let state =
        ParallelState::from_serializable_state(&engine, &codec, serialized, id("remote")).unwrap();

    let mut events = vec![];
    state.log_metrics(&vec![], &mut events);

    assert_eq!(events.len(), 1);
    let event = events
        .into_iter()
        .find_map(|e| match e {
            MetricEvent::ScanMetadataCompleted(c) => Some(c),
            _ => None,
        })
        .expect("ScanMetadataCompleted emitted");
    assert_eq!(event.table_type, TableType::CatalogManaged);
    assert_eq!(event.scan_type, ScanType::ParallelPhase);
    assert_eq!(event.correlation_id, None);
}

struct PlainBytes {
    states: RefCell<Vec<PlainScanState>>,
}

impl BytesCodec for PlainBytes {
    fn to_bytes(&self, state: &SerializableScanState) -> Result<Vec<u8>, String> {
        let mut states = self.states.borrow_mut();
        states.push(PlainScanState {
            predicate: state.predicate.clone(),
            internal_state_blob: state.internal_state_blob.clone(),
            seen_file_keys: state.seen_file_keys.members().clone(),
            checkpoint_info: state.checkpoint_info.clone(),
        });
        Ok(vec![states.len() as u8])
    }

    fn from_bytes(&self, bytes: &Vec<u8>) -> Result<PlainScanState, String> {
        match (&bytes[..], self.states.borrow_mut().pop()) {
            ([1], Some(state)) => Ok(state),
            _ => Err("EOF while parsing a value".to_string()),
        }
    }
}

#[test]
fn parallel_states_go_through_bytes() {
    let engine = JsonEngine::default();
    let codec = ListCodec::default();
    let bytes_codec = PlainBytes { states: RefCell::new(vec![]) };
    let mut inner = processor(plain_state_info(id_schema()));
    let key = FileActionKey::new("file.parquet".to_string(), Some("dv".to_string()));
    inner.seen_file_keys.insert(key.clone());
    let serialized = inner.into_serializable_state(&codec).unwrap();
    let state =
        ParallelState::from_serializable_state(&engine, &codec, serialized, id("here")).unwrap();
    let bytes = state.into_bytes(&codec, &bytes_codec).unwrap();
    let restored =
        ParallelState::from_bytes(&engine, &codec, &bytes_codec, &bytes, id("there")).unwrap();
    assert!(restored.inner.seen_file_keys.contains(&key));
    assert_eq!(restored.inner.seen_file_keys.len(), 1);
    let refused =
        ParallelState::from_bytes(&engine, &codec, &bytes_codec, &vec![7], id("there"));
    assert!(matches!(refused, Err(Error::MalformedJson(_))));
}

struct Leaves;

impl LeafReader for Leaves {
    type Batches = (Vec<FileMeta>, SchemaRef);

    fn open(&self, files: Vec<FileMeta>, schema: SchemaRef) -> DeltaResult<Self::Batches> {
        Ok((files, schema))
    }
}

#[test]
fn workers_read_their_files_with_the_schema_of_the_checkpoint() {
    let engine = JsonEngine::default();
    let codec = ListCodec::default();
    let serialized =
        processor(plain_state_info(id_schema())).into_serializable_state(&codec).unwrap();
    let state =
        ParallelState::from_serializable_state(&engine, &codec, serialized, id("op")).unwrap();
    let expected = test_checkpoint_info().checkpoint_read_schema;
    assert_eq!(state.file_read_schema(), expected);
    let worker =
        ParallelScanMetadata::try_new(&Leaves, Arc::new(state), vec![leaf("part")]).unwrap();
    assert_eq!(worker.batches, (vec![leaf("part")], expected));
}

fn leaf(name: &str) -> FileMeta {
    FileMeta { location: name.to_string(), last_modified: 0, size: 1 }
}

#[test]
fn two_phases_replay_the_whole_log() {
    let engine = JsonEngine::default();
    let parser = PlainScalarParser {};
    let mut events = vec![];
    let mut sequential = SequentialScanMetadata::new(
        processor(plain_state_info(id_schema())),
        id("op"),
        Some("req".to_string()),
    );
    let commit = ActionsBatch::new(batch(&[REMOVE_C001]), true);
    let step = sequential.step(&engine, &parser, SequentialInput::Batch(Ok(commit)));
    assert!(matches!(step, ReplayStep::Again));
    let step = sequential.step(&engine, &parser, SequentialInput::End(vec![leaf("sidecar")]));
    assert!(matches!(step, ReplayStep::End));
    let after = sequential.finish(&mut events).unwrap();
    let AfterSequentialScanMetadata::Parallel { state, files } = after else {
        panic!("expected a parallel phase");
    };
    assert_eq!(files, [leaf("sidecar")]);
    assert_eq!(state.inner.metrics.num_remove_files_seen, 0, "counters start again");
    {
            let [MetricEvent::ScanMetadataCompleted(event)] = &events[..] else {
            panic!("expected one event");
        };
        assert_eq!(event.scan_type, ScanType::SequentialPhase);
        assert_eq!(event.num_remove_files_seen, 1);
        assert_eq!(event.correlation_id.as_deref(), Some("req"));
    }

    let state = Arc::new(*state);
    let mut worker = ParallelScanMetadata::new_from_iter(state.clone(), ());
    let metadata = worker.step(&engine, &parser, Ok(batch(&[ADD_C001, ADD_C000]))).unwrap();
    assert_eq!(metadata.scan_files.selection_vector, [false, true]);
    let refused = state.process_actions_batch(
        &engine,
        &parser,
        ActionsBatch::new(batch(&[ADD_C000]), true),
        &mut worker.metrics,
    );
    let Err(e) = refused else {
        panic!("expected an error");
    };
    assert_eq!(
        e.message(),
        "Parallel checkpoint processor may only be applied to checkpoint files"
    );
    let counted = worker.metrics;
    drop(worker);
    state.log_metrics(&vec![counted], &mut events);
    assert_eq!(events.len(), 2);
    let MetricEvent::ScanMetadataCompleted(event) = &events[1] else {
        panic!("expected a scan event");
    };
    assert_eq!(event.num_add_files_seen, 2);
    assert_eq!(event.num_active_add_files, 1);
}

#[test]
fn the_sequential_phase_must_reach_its_end() {
    let sequential =
        SequentialScanMetadata::new(processor(plain_state_info(id_schema())), id("op"), None);
    let mut events = vec![];
    let Err(e) = sequential.finish(&mut events) else {
        panic!("expected an error");
    };
    assert_eq!(e.message(), "Must exhaust iterator before calling finish()");
    assert!(events.is_empty());
}

#[test]
fn no_parallel_phase_without_files() {
    let engine = JsonEngine::default();
    let mut sequential =
        SequentialScanMetadata::new(processor(plain_state_info(id_schema())), id("op"), None);
    sequential.step(&engine, &PlainScalarParser {}, SequentialInput::End(vec![]));
    let after = sequential.finish(&mut vec![]).unwrap();
    assert!(matches!(after, AfterSequentialScanMetadata::Done));
}
