//! The expressions that turn log actions into scan rows and back.

use std::sync::Arc;

use vstd::prelude::*;

use super::schemas::string_type;
use crate::expressions::expression::{
    expr_view, exprs_view, ExprV, Expression, ExpressionRef, UnaryExpressionOp,
};
use crate::expressions::scalar::{Scalar, ScalarV};
use crate::schema::{opt_schema_view, DataType, PrimitiveType, SchemaRef, SchemaV};

verus! {

/// The column `add.<name>`.
pub open spec fn add_column(name: Seq<char>) -> ExprV {
    ExprV::Column(seq!["add"@, name])
}

/// The NULL string.
pub open spec fn null_string() -> ExprV {
    ExprV::Literal(ScalarV::Null(string_type()))
}

/// Where a scan row's JSON statistics come from: nowhere if statistics are skipped; the JSON
/// column if the source has no parsed statistics; else the JSON column with the parsed statistics
/// as fallback, or nothing when that synthesis is switched off.
pub open spec fn json_stats_expr(
    has_stats_parsed: bool,
    skip_stats: bool,
    synthesize_json: bool,
) -> ExprV {
    if skip_stats {
        null_string()
    } else if has_stats_parsed && synthesize_json {
        ExprV::coalesce(
            seq![
                add_column("stats"@),
                ExprV::Unary(
                    UnaryExpressionOp::ToJson,
                    Box::new(add_column("stats_parsed"@)),
                ),
            ],
        )
    } else if has_stats_parsed {
        null_string()
    } else {
        add_column("stats"@)
    }
}

/// The constants of a file in terms of an Add action.
pub open spec fn file_constant_exprs() -> Seq<ExprV> {
    seq![
        add_column("partitionValues"@),
        add_column("tags"@),
        add_column("baseRowId"@),
        add_column("defaultRowCommitVersion"@),
        add_column("clusteringProvider"@),
    ]
}

/// The fields that every scan row has, in terms of an Add action and the JSON statistics.
pub open spec fn base_exprs(stats: ExprV) -> Seq<ExprV> {
    seq![
        add_column("path"@),
        add_column("size"@),
        add_column("modificationTime"@),
        stats,
        add_column("deletionVector"@),
        ExprV::struct_from(file_constant_exprs()),
    ]
}

/// The fields of a scan row in terms of an Add action.
pub open spec fn add_transform_fields(
    stats_schema: Option<SchemaV>,
    has_stats_parsed: bool,
    skip_stats: bool,
    synthesize_json: bool,
    has_partition_schema: bool,
    has_partition_values_parsed: bool,
) -> Seq<ExprV> {
    base_exprs(json_stats_expr(has_stats_parsed, skip_stats, synthesize_json)) + (match stats_schema {
        Some(schema) => seq![
            if has_stats_parsed {
                add_column("stats_parsed"@)
            } else {
                ExprV::ParseJson(Box::new(add_column("stats"@)), schema)
            },
        ],
        None => seq![],
    }) + (if has_partition_schema {
        seq![
            if has_partition_values_parsed {
                add_column("partitionValues_parsed"@)
            } else {
                ExprV::MapToStruct(Box::new(add_column("partitionValues"@)))
            },
        ]
    } else {
        seq![]
    })
}

fn add_col(name: &str) -> (e: ExpressionRef)
    ensures
        e@ == add_column(name@),
{
    Arc::new(Expression::nested("add", name))
}

fn null_string_expr() -> (e: ExpressionRef)
    ensures
        e@ == null_string(),
{
    Arc::new(Expression::Literal(Scalar::Null(DataType::Primitive(PrimitiveType::String))))
}

fn json_stats(has_stats_parsed: bool, skip_stats: bool, synthesize_json: bool) -> (e: ExpressionRef)
    ensures
        e@ == json_stats_expr(has_stats_parsed, skip_stats, synthesize_json),
{
    if skip_stats {
        null_string_expr()
    } else if has_stats_parsed && synthesize_json {
        // Checkpoint may lack JSON stats when writeStatsAsJson=false. Fall back to
        // serializing stats_parsed so the row's stats are populated either way.
        proof {
            reveal_with_fuel(expr_view, 2);
        }
        Arc::new(
            Expression::coalesce(
                Expression::nested("add", "stats"),
                Expression::Unary(UnaryExpressionOp::ToJson, add_col("stats_parsed")),
            ),
        )
    } else if has_stats_parsed {
        // The compatible checkpoint projection can omit add.stats when JSON output is disabled.
        null_string_expr()
    } else {
        add_col("stats")
    }
}

/// Build the add transform expression with optional stats and partition value parsing.
///
/// # Parameters
/// - `physical_stats_schema`: Schema for parsing stats from JSON and for output (physical column
///   names), or None if stats should not be part of the output.
/// - `has_stats_parsed`: Whether checkpoint has pre-parsed stats_parsed column. When true and
///   `synthesize_json` is true, stats output uses `COALESCE(add.stats, ToJson(add.stats_parsed))`
///   so that stats are populated even when the checkpoint lacks JSON stats
///   (writeStatsAsJson=false).
/// - `skip_stats`: When true, replaces the stats column with a null literal, avoiding reads of the
///   JSON stats column in checkpoint parquet files.
/// - `synthesize_json`: When false, disables the `ToJson(add.stats_parsed)` fallback regardless of
///   `has_stats_parsed`. Compatible parsed-stats checkpoints produce null JSON stats and can omit
///   the JSON stats column; JSON-only checkpoints and commits retain `add.stats` as fallback input.
/// - `partition_schema`: Schema of typed partition columns for data skipping, or None if partition
///   value parsing is not needed.
/// - `has_partition_values_parsed`: Whether the source carries a native `partitionValues_parsed`
///   column (checkpoint). When true it is read directly; otherwise the struct is reconstructed from
///   the `partitionValues` string map.
///
/// The transform has `stats_parsed` only when `physical_stats_schema` is Some,
/// and `partitionValues_parsed` only when `partition_schema` is Some.
/// Stats are output using physical column names.
pub fn get_add_transform_expr(
    physical_stats_schema: &Option<SchemaRef>,
    has_stats_parsed: bool,
    skip_stats: bool,
    synthesize_json: bool,
    partition_schema: &Option<SchemaRef>,
    has_partition_values_parsed: bool,
) -> (e: ExpressionRef)
    ensures
        e@ == ExprV::struct_from(
            add_transform_fields(
                opt_schema_view(*physical_stats_schema),
                has_stats_parsed,
                skip_stats,
                synthesize_json,
                partition_schema is Some,
                has_partition_values_parsed,
            ),
        ),
{
    let mut fields = base_fields(json_stats(has_stats_parsed, skip_stats, synthesize_json));
    let ghost base = exprs_view(fields);
    // Add stats_parsed when stats output is requested (using physical column names)
    if let Some(stats_schema) = physical_stats_schema {
        let stats_parsed_expr: ExpressionRef = if has_stats_parsed {
            // Checkpoint has stats_parsed column - read directly
            add_col("stats_parsed")
        } else {
            // No stats_parsed available (JSON log files) - parse JSON
            Arc::new(Expression::ParseJson(add_col("stats"), stats_schema.clone()))
        };
        push_expr(&mut fields, stats_parsed_expr);
    }
    // Add partitionValues_parsed when partition columns are needed for data skipping or for the
    // engine-facing typed output column.

    if partition_schema.is_some() {
        let pv_parsed_expr: ExpressionRef = if has_partition_values_parsed {
            // Checkpoint carries a native partitionValues_parsed column - read it directly.
            add_col("partitionValues_parsed")
        } else {
            // No native column (JSON commit): reconstruct from the string map.
            Arc::new(Expression::MapToStruct(add_col("partitionValues")))
        };
        push_expr(&mut fields, pv_parsed_expr);
    }
    assert(exprs_view(fields) =~= add_transform_fields(
        opt_schema_view(*physical_stats_schema),
        has_stats_parsed,
        skip_stats,
        synthesize_json,
        partition_schema is Some,
        has_partition_values_parsed,
    ));
    Arc::new(Expression::struct_from(fields))
}

/// Appends an expression.
fn push_expr(exprs: &mut Vec<ExpressionRef>, e: ExpressionRef)
    ensures
        exprs_view(*final(exprs)) == exprs_view(*old(exprs)).push(e@),
{
    exprs.push(e);
    assert(exprs_view(*exprs) =~= exprs_view(*old(exprs)).push(e@));
}

/// The fields that every scan row has.
fn base_fields(stats: ExpressionRef) -> (fields: Vec<ExpressionRef>)
    ensures
        exprs_view(fields) == base_exprs(stats@),
{
    let constants: Vec<ExpressionRef> = vec![
        add_col("partitionValues"),
        add_col("tags"),
        add_col("baseRowId"),
        add_col("defaultRowCommitVersion"),
        add_col("clusteringProvider"),
    ];
    let ghost constant_exprs = exprs_view(constants);
    assert(constant_exprs =~= file_constant_exprs());
    let constants_struct: ExpressionRef = Arc::new(Expression::struct_from(constants));
    let fields: Vec<ExpressionRef> = vec![
        add_col("path"),
        add_col("size"),
        add_col("modificationTime"),
        stats,
        add_col("deletionVector"),
        constants_struct,
    ];
    assert(exprs_view(fields) =~= base_exprs(stats@));
    fields
}

/// The column `fileConstantValues.<name>` of a scan row.
pub open spec fn constant_column(name: Seq<char>) -> ExprV {
    ExprV::Column(seq!["fileConstantValues"@, name])
}

/// The fields of an Add in terms of a scan row.
pub open spec fn restored_add_exprs() -> Seq<ExprV> {
    seq![
        ExprV::Column(seq!["path"@]),
        constant_column("partitionValues"@),
        ExprV::Column(seq!["size"@]),
        ExprV::Column(seq!["modificationTime"@]),
        ExprV::Column(seq!["stats"@]),
        constant_column("tags"@),
        ExprV::Column(seq!["deletionVector"@]),
        constant_column("baseRowId"@),
        constant_column("defaultRowCommitVersion"@),
        constant_column("clusteringProvider"@),
    ]
}

/// Makes Add actions again from scan rows.
pub fn get_scan_metadata_transform_expr() -> (e: ExpressionRef)
    ensures
        e@ == ExprV::struct_from(seq![ExprV::struct_from(restored_add_exprs())]),
{
    proof {
        reveal_with_fuel(expr_view, 2);
    }
    let fields: Vec<ExpressionRef> = vec![
        Arc::new(Expression::top("path")),
        Arc::new(Expression::nested("fileConstantValues", "partitionValues")),
        Arc::new(Expression::top("size")),
        Arc::new(Expression::top("modificationTime")),
        Arc::new(Expression::top("stats")),
        Arc::new(Expression::nested("fileConstantValues", "tags")),
        Arc::new(Expression::top("deletionVector")),
        Arc::new(Expression::nested("fileConstantValues", "baseRowId")),
        Arc::new(Expression::nested("fileConstantValues", "defaultRowCommitVersion")),
        Arc::new(Expression::nested("fileConstantValues", "clusteringProvider")),
    ];
    assert(exprs_view(fields) =~= restored_add_exprs());
    let add: ExpressionRef = Arc::new(Expression::struct_from(fields));
    let top: Vec<ExpressionRef> = vec![add];
    assert(exprs_view(top) =~= seq![ExprV::struct_from(restored_add_exprs())]);
    Arc::new(Expression::struct_from(top))
}

} // verus!
