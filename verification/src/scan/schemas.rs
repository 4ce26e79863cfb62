//! Schemas of log actions and of scan rows.

use std::sync::Arc;

use vstd::prelude::*;

use crate::schema::{
    data_type_view, fields_view, opt_schema_view, DataType, DataTypeV, FieldV, MapType,
    PrimitiveType, SchemaRef, SchemaV, StructField, StructType,
};

verus! {

pub open spec fn string_type() -> DataTypeV {
    DataTypeV::Primitive(PrimitiveType::String)
}

pub open spec fn long_type() -> DataTypeV {
    DataTypeV::Primitive(PrimitiveType::Long)
}

pub open spec fn integer_type() -> DataTypeV {
    DataTypeV::Primitive(PrimitiveType::Integer)
}

pub open spec fn boolean_type() -> DataTypeV {
    DataTypeV::Primitive(PrimitiveType::Boolean)
}

/// A map from strings to strings that may be NULL.
pub open spec fn string_map_type() -> DataTypeV {
    DataTypeV::KeyValue(Box::new(string_type()), Box::new(string_type()), true)
}

/// A map from strings to strings that may be NULL.
pub fn string_map() -> (t: DataType)
    ensures
        t@ == string_map_type(),
{
    proof {
        reveal_with_fuel(data_type_view, 2);
    }
    DataType::KeyValue(
        Box::new(
            MapType {
                key_type: DataType::Primitive(PrimitiveType::String),
                value_type: DataType::Primitive(PrimitiveType::String),
                value_contains_null: true,
            },
        ),
    )
}

fn string() -> (t: DataType)
    ensures
        t@ == string_type(),
{
    DataType::Primitive(PrimitiveType::String)
}

fn long() -> (t: DataType)
    ensures
        t@ == long_type(),
{
    DataType::Primitive(PrimitiveType::Long)
}

fn integer() -> (t: DataType)
    ensures
        t@ == integer_type(),
{
    DataType::Primitive(PrimitiveType::Integer)
}

fn boolean() -> (t: DataType)
    ensures
        t@ == boolean_type(),
{
    DataType::Primitive(PrimitiveType::Boolean)
}

/// A struct type with the given fields.
fn struct_of(fields: Vec<StructField>) -> (t: DataType)
    ensures
        t@ == DataTypeV::Struct(fields_view(fields@)),
{
    DataType::Struct(Box::new(StructType::new(fields)))
}

/// The schema of a deletion vector descriptor.
pub open spec fn deletion_vector_fields() -> SchemaV {
    seq![
        FieldV::not_null("storageType"@, string_type()),
        FieldV::not_null("pathOrInlineDv"@, string_type()),
        FieldV::nullable("offset"@, integer_type()),
        FieldV::not_null("sizeInBytes"@, integer_type()),
        FieldV::not_null("cardinality"@, long_type()),
    ]
}

fn deletion_vector_type() -> (t: DataType)
    ensures
        t@ == DataTypeV::Struct(deletion_vector_fields()),
{
    let fields: Vec<StructField> = vec![
        StructField::not_null("storageType", string()),
        StructField::not_null("pathOrInlineDv", string()),
        StructField::nullable("offset", integer()),
        StructField::not_null("sizeInBytes", integer()),
        StructField::not_null("cardinality", long()),
    ];
    assert(fields_view(fields@) =~= deletion_vector_fields());
    struct_of(fields)
}

/// The schema of an Add action, with or without its JSON statistics.
pub open spec fn add_fields(with_stats: bool) -> SchemaV {
    seq![
        FieldV::not_null("path"@, string_type()),
        FieldV::not_null("partitionValues"@, string_map_type()),
        FieldV::not_null("size"@, long_type()),
        FieldV::not_null("modificationTime"@, long_type()),
        FieldV::not_null("dataChange"@, boolean_type()),
    ] + (if with_stats {
        seq![FieldV::nullable("stats"@, string_type())]
    } else {
        seq![]
    }) + seq![
        FieldV::nullable("tags"@, string_map_type()),
        FieldV::nullable("deletionVector"@, DataTypeV::Struct(deletion_vector_fields())),
        FieldV::nullable("baseRowId"@, long_type()),
        FieldV::nullable("defaultRowCommitVersion"@, long_type()),
        FieldV::nullable("clusteringProvider"@, string_type()),
    ]
}

fn add_type(with_stats: bool) -> (t: DataType)
    ensures
        t@ == DataTypeV::Struct(add_fields(with_stats)),
{
    let mut fields: Vec<StructField> = vec![
        StructField::not_null("path", string()),
        StructField::not_null("partitionValues", string_map()),
        StructField::not_null("size", long()),
        StructField::not_null("modificationTime", long()),
        StructField::not_null("dataChange", boolean()),
    ];
    if with_stats {
        fields.push(StructField::nullable("stats", string()));
    }
    fields.push(StructField::nullable("tags", string_map()));
    fields.push(StructField::nullable("deletionVector", deletion_vector_type()));
    fields.push(StructField::nullable("baseRowId", long()));
    fields.push(StructField::nullable("defaultRowCommitVersion", long()));
    fields.push(StructField::nullable("clusteringProvider", string()));
    assert(fields_view(fields@) =~= add_fields(with_stats));
    struct_of(fields)
}

/// The schema of a Remove action.
pub open spec fn remove_fields() -> SchemaV {
    seq![
        FieldV::not_null("path"@, string_type()),
        FieldV::nullable("deletionTimestamp"@, long_type()),
        FieldV::not_null("dataChange"@, boolean_type()),
        FieldV::nullable("extendedFileMetadata"@, boolean_type()),
        FieldV::nullable("partitionValues"@, string_map_type()),
        FieldV::nullable("size"@, long_type()),
        FieldV::nullable("stats"@, string_type()),
        FieldV::nullable("tags"@, string_map_type()),
        FieldV::nullable("deletionVector"@, DataTypeV::Struct(deletion_vector_fields())),
        FieldV::nullable("baseRowId"@, long_type()),
        FieldV::nullable("defaultRowCommitVersion"@, long_type()),
    ]
}

fn remove_type() -> (t: DataType)
    ensures
        t@ == DataTypeV::Struct(remove_fields()),
{
    let fields: Vec<StructField> = vec![
        StructField::not_null("path", string()),
        StructField::nullable("deletionTimestamp", long()),
        StructField::not_null("dataChange", boolean()),
        StructField::nullable("extendedFileMetadata", boolean()),
        StructField::nullable("partitionValues", string_map()),
        StructField::nullable("size", long()),
        StructField::nullable("stats", string()),
        StructField::nullable("tags", string_map()),
        StructField::nullable("deletionVector", deletion_vector_type()),
        StructField::nullable("baseRowId", long()),
        StructField::nullable("defaultRowCommitVersion", long()),
    ];
    assert(fields_view(fields@) =~= remove_fields());
    struct_of(fields)
}

/// What a scan reads of commits: Adds and Removes.
pub open spec fn commit_read_fields() -> SchemaV {
    seq![
        FieldV::nullable("add"@, DataTypeV::Struct(add_fields(true))),
        FieldV::nullable("remove"@, DataTypeV::Struct(remove_fields())),
    ]
}

/// What a scan reads of checkpoints: Adds, with or without their JSON statistics.
pub open spec fn checkpoint_read_fields(with_stats: bool) -> SchemaV {
    seq![FieldV::nullable("add"@, DataTypeV::Struct(add_fields(with_stats)))]
}

/// What a scan reads of commits: Adds and Removes.
pub fn commit_read_schema() -> (schema: SchemaRef)
    ensures
        schema@ == commit_read_fields(),
{
    let fields: Vec<StructField> = vec![
        StructField::nullable("add", add_type(true)),
        StructField::nullable("remove", remove_type()),
    ];
    assert(fields_view(fields@) =~= commit_read_fields());
    Arc::new(StructType::new(fields))
}

/// What a scan reads of checkpoints: Adds.
pub fn checkpoint_read_schema() -> (schema: SchemaRef)
    ensures
        schema@ == checkpoint_read_fields(true),
{
    let fields: Vec<StructField> = vec![StructField::nullable("add", add_type(true))];
    assert(fields_view(fields@) =~= checkpoint_read_fields(true));
    Arc::new(StructType::new(fields))
}

/// Initial checkpoint projection without JSON `add.stats`. Discovery restores JSON stats when
/// structured stats cannot satisfy the scan.
pub fn checkpoint_read_schema_no_json_stats() -> (schema: SchemaRef)
    ensures
        schema@ == checkpoint_read_fields(false),
{
    let fields: Vec<StructField> = vec![StructField::nullable("add", add_type(false))];
    assert(fields_view(fields@) =~= checkpoint_read_fields(false));
    Arc::new(StructType::new(fields))
}

/// The constants of a file that scan rows carry.
pub open spec fn file_constant_fields() -> SchemaV {
    seq![
        FieldV::nullable("partitionValues"@, string_map_type()),
        FieldV::nullable("tags"@, string_map_type()),
        FieldV::nullable("baseRowId"@, long_type()),
        FieldV::nullable("defaultRowCommitVersion"@, long_type()),
        FieldV::nullable("clusteringProvider"@, string_type()),
    ]
}

/// The base schema of scan rows. Fields projected out of a nullable struct must be nullable.
pub open spec fn scan_row_fields() -> SchemaV {
    seq![
        FieldV::nullable("path"@, string_type()),
        FieldV::nullable("size"@, long_type()),
        FieldV::nullable("modificationTime"@, long_type()),
        FieldV::nullable("stats"@, string_type()),
        FieldV::nullable("deletionVector"@, DataTypeV::Struct(deletion_vector_fields())),
        FieldV::nullable("fileConstantValues"@, DataTypeV::Struct(file_constant_fields())),
    ]
}

fn file_constant_type() -> (t: DataType)
    ensures
        t@ == DataTypeV::Struct(file_constant_fields()),
{
    let fields: Vec<StructField> = vec![
        StructField::nullable("partitionValues", string_map()),
        StructField::nullable("tags", string_map()),
        StructField::nullable("baseRowId", long()),
        StructField::nullable("defaultRowCommitVersion", long()),
        StructField::nullable("clusteringProvider", string()),
    ];
    assert(fields_view(fields@) =~= file_constant_fields());
    struct_of(fields)
}

fn scan_row_columns() -> (fields: Vec<StructField>)
    ensures
        fields_view(fields@) == scan_row_fields(),
{
    let fields: Vec<StructField> = vec![
        StructField::nullable("path", string()),
        StructField::nullable("size", long()),
        StructField::nullable("modificationTime", long()),
        StructField::nullable("stats", string()),
        StructField::nullable("deletionVector", deletion_vector_type()),
        StructField::nullable("fileConstantValues", file_constant_type()),
    ];
    assert(fields_view(fields@) =~= scan_row_fields());
    fields
}

/// The schema of scan rows with the typed columns that were asked for.
pub open spec fn scan_row_fields_with(stats: Option<SchemaV>, partition: Option<SchemaV>) -> SchemaV {
    scan_row_fields() + (match stats {
        Some(s) => seq![FieldV::nullable("stats_parsed"@, DataTypeV::Struct(s))],
        None => seq![],
    }) + (match partition {
        Some(p) => seq![FieldV::nullable("partitionValues_parsed"@, DataTypeV::Struct(p))],
        None => seq![],
    })
}

/// Build the scan-row schema, appending the opt-in typed `stats_parsed` / `partitionValues_parsed`
/// columns when requested.
///
/// These typed columns are appended at the top level (siblings of `fileConstantValues`) rather than
/// nested inside it. This mirrors `stats_parsed`, keeps `fileConstantValues` a fixed shape
/// regardless of the engine's options, and keeps data-skipping paths uniform:
/// `partitionValues_parsed.<col>` parallels `stats_parsed.minValues.<col>`. The checkpoint source
/// is also `add.partitionValues_parsed`, a sibling of `add.stats_parsed`.
pub fn scan_row_schema_with_parsed_columns(
    stats_schema: &Option<SchemaRef>,
    partition_schema: &Option<SchemaRef>,
) -> (schema: SchemaRef)
    ensures
        schema@ == scan_row_fields_with(
            opt_schema_view(*stats_schema),
            opt_schema_view(*partition_schema),
        ),
{
    let mut fields = scan_row_columns();
    if let Some(schema) = stats_schema {
        let stats_type: StructType = (&**schema).clone();
        fields.push(StructField::nullable("stats_parsed", DataType::Struct(Box::new(stats_type))));
    }
    if let Some(schema) = partition_schema {
        let partition_type: StructType = (&**schema).clone();
        fields.push(
            StructField::nullable(
                "partitionValues_parsed",
                DataType::Struct(Box::new(partition_type)),
            ),
        );
    }
    assert(fields_view(fields@) =~= scan_row_fields_with(
        opt_schema_view(*stats_schema),
        opt_schema_view(*partition_schema),
    ));
    Arc::new(StructType::new(fields))
}

/// Get the base schema that scan rows will be returned with.
///
/// This is the base shape; engines may add trailing `*_parsed` columns by opting in via
/// `StatsOptions` (`stats_parsed`) or `PartitionValuesOptions` (`partitionValues_parsed`).
///
/// It is:
/// ```ignored
/// {
///    path: string,
///    size: long,
///    modificationTime: long,
///    stats: string,
///    deletionVector: {
///      storageType: string,
///      pathOrInlineDv: string,
///      offset: int,
///      sizeInBytes: int,
///      cardinality: long,
///    },
///    fileConstantValues: {
///      partitionValues: map<string, string>,
///      tags: map<string, string>,
///      baseRowId: long,
///      defaultRowCommitVersion: long,
///      clusteringProvider: string,
///    }
/// }
/// ```
pub fn scan_row_schema() -> (schema: SchemaRef)
    ensures
        schema@ == scan_row_fields(),
{
    Arc::new(StructType::new(scan_row_columns()))
}

/// The schema of Adds that are made again from scan rows.
pub open spec fn restored_add_fields() -> SchemaV {
    seq![
        FieldV::nullable(
            "add"@,
            DataTypeV::Struct(
                seq![
                    FieldV::not_null("path"@, string_type()),
                    FieldV::not_null("partitionValues"@, string_map_type()),
                    FieldV::not_null("size"@, long_type()),
                    FieldV::nullable("modificationTime"@, long_type()),
                    FieldV::nullable("stats"@, string_type()),
                    FieldV::nullable("tags"@, string_map_type()),
                    FieldV::nullable("deletionVector"@, DataTypeV::Struct(deletion_vector_fields())),
                    FieldV::nullable("baseRowId"@, long_type()),
                    FieldV::nullable("defaultRowCommitVersion"@, long_type()),
                    FieldV::nullable("clusteringProvider"@, string_type()),
                ],
            ),
        ),
    ]
}

/// The schema of Adds that are made again from scan rows.
pub fn restored_add_schema() -> (schema: SchemaRef)
    ensures
        schema@ == restored_add_fields(),
{
    let inner: Vec<StructField> = vec![
        StructField::not_null("path", string()),
        StructField::not_null("partitionValues", string_map()),
        StructField::not_null("size", long()),
        StructField::nullable("modificationTime", long()),
        StructField::nullable("stats", string()),
        StructField::nullable("tags", string_map()),
        StructField::nullable("deletionVector", deletion_vector_type()),
        StructField::nullable("baseRowId", long()),
        StructField::nullable("defaultRowCommitVersion", long()),
        StructField::nullable("clusteringProvider", string()),
    ];
    let ghost inner_fields = fields_view(inner@);
    let fields: Vec<StructField> = vec![StructField::nullable("add", struct_of(inner))];
    assert(inner_fields =~= restored_add_fields()[0].data_type->Struct_0);
    assert(fields_view(fields@) =~= restored_add_fields());
    Arc::new(StructType::new(fields))
}

} // verus!
