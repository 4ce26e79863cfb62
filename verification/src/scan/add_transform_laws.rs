//! What the scan row transform guarantees.

use vstd::prelude::*;

use super::add_transform::{
    add_column, add_transform_fields, base_exprs, file_constant_exprs, json_stats_expr,
    restored_add_exprs,
};
use super::data_skipping::{expr_for, unified_exprs, unified_schema};
use super::schemas::{
    file_constant_fields, restored_add_fields, scan_row_fields, scan_row_fields_with,
};
use crate::expressions::expression::{ExprV, UnaryExpressionOp};
use crate::schema::{DataTypeV, SchemaV};

verus! {

/// The last step of a column's path.
pub open spec fn leaf_name(e: ExprV) -> Seq<char> {
    match e {
        ExprV::Column(path) => path.last(),
        _ => seq![],
    }
}

/// The scan row transform fills the scan row schema field by field: it has as many expressions as
/// the schema has fields, whatever typed columns were asked for, and each column that it takes over
/// from the Add goes to the field of the same name.
pub proof fn transform_fills_scan_row_schema(
    stats: Option<SchemaV>,
    has_stats_parsed: bool,
    skip_stats: bool,
    synthesize_json: bool,
    partition: Option<SchemaV>,
    has_partition_values_parsed: bool,
)
    ensures
        ({
            let fields = scan_row_fields_with(stats, partition);
            let exprs = add_transform_fields(
                stats,
                has_stats_parsed,
                skip_stats,
                synthesize_json,
                partition is Some,
                has_partition_values_parsed,
            );
            &&& exprs.len() == fields.len()
            &&& forall|i: int|
                0 <= i < 3 || i == 4 ==> #[trigger] exprs[i] == add_column(fields[i].name)
            &&& exprs[5] == ExprV::struct_from(file_constant_exprs())
            &&& fields[5].data_type == DataTypeV::Struct(file_constant_fields())
            &&& file_constant_exprs().len() == file_constant_fields().len()
            &&& forall|i: int|
                0 <= i < file_constant_fields().len() ==> #[trigger] file_constant_exprs()[i]
                    == add_column(file_constant_fields()[i].name)
            &&& stats is Some ==> fields[6].name == "stats_parsed"@ && exprs[6] == (
            if has_stats_parsed {
                add_column(fields[6].name)
            } else {
                ExprV::ParseJson(Box::new(add_column("stats"@)), stats->0)
            })
            &&& partition is Some ==> fields.last().name == "partitionValues_parsed"@
                && exprs.last() == (if has_partition_values_parsed {
                add_column(fields.last().name)
            } else {
                ExprV::MapToStruct(Box::new(add_column("partitionValues"@)))
            })
        }),
{
    let fields = scan_row_fields_with(stats, partition);
    let exprs = add_transform_fields(
        stats,
        has_stats_parsed,
        skip_stats,
        synthesize_json,
        partition is Some,
        has_partition_values_parsed,
    );
    let stats_expr = json_stats_expr(has_stats_parsed, skip_stats, synthesize_json);
    assert forall|i: int| 0 <= i < 6 implies #[trigger] exprs[i] == base_exprs(stats_expr)[i] by {}
    assert forall|i: int| 0 <= i < 6 implies #[trigger] fields[i] == scan_row_fields()[i] by {}
}

/// The Adds that are made again from scan rows have each field from the scan row column of the
/// same name.
pub proof fn restored_adds_keep_field_names()
    ensures
        ({
            let fields = restored_add_fields()[0].data_type->Struct_0;
            &&& restored_add_exprs().len() == fields.len()
            &&& forall|i: int|
                0 <= i < fields.len() ==> leaf_name(#[trigger] restored_add_exprs()[i])
                    == fields[i].name
        }),
{
}

/// The values that data skipping reads fill their schema field by field.
pub proof fn unified_exprs_fill_unified_schema(
    stats: Option<SchemaV>,
    stats_expr: ExprV,
    partition: Option<SchemaV>,
    partition_expr: ExprV,
    is_add_expr: ExprV,
)
    ensures
        ({
            let fields = unified_schema(stats, partition);
            let exprs = unified_exprs(
                expr_for(stats, stats_expr),
                expr_for(partition, partition_expr),
                is_add_expr,
            );
            &&& exprs.len() == fields.len()
            &&& forall|i: int|
                0 <= i < fields.len() ==> {
                    ||| (#[trigger] fields[i]).name == "stats_parsed"@ && exprs[i] == stats_expr
                        && stats is Some
                    ||| fields[i].name == "partitionValues_parsed"@ && exprs[i] == partition_expr
                        && partition is Some
                    ||| fields[i].name == "is_add"@ && exprs[i] == is_add_expr
                }
        }),
{
}

/// How many times an expression renders a struct as JSON, patches and predicates aside.
pub open spec fn to_json_count(e: ExprV) -> nat
    decreases e,
{
    match e {
        ExprV::Unary(UnaryExpressionOp::ToJson, a) => 1 + to_json_count(*a),
        ExprV::Binary(_, a, b) => to_json_count(*a) + to_json_count(*b),
        ExprV::Variadic(_, exprs) => to_json_counts(exprs, exprs.len()),
        ExprV::Struct(fields, nullability) => to_json_counts(fields, fields.len()) + (
        match nullability {
            Some(n) => to_json_count(*n),
            None => 0,
        }),
        ExprV::ParseJson(a, _) => to_json_count(*a),
        ExprV::MapToStruct(a) => to_json_count(*a),
        ExprV::Cast(a, _) => to_json_count(*a),
        _ => 0,
    }
}

/// The sum over the first `n` expressions.
pub open spec fn to_json_counts(exprs: Seq<ExprV>, n: nat) -> nat
    decreases exprs, n,
{
    if n == 0 || n > exprs.len() {
        0
    } else {
        to_json_counts(exprs, (n - 1) as nat) + to_json_count(exprs[n - 1])
    }
}

proof fn lemma_counts_plain(exprs: Seq<ExprV>, n: nat)
    requires
        n <= exprs.len(),
        forall|i: int| 0 <= i < n ==> to_json_count(#[trigger] exprs[i]) == 0,
    ensures
        to_json_counts(exprs, n) == 0,
    decreases n,
{
    if n > 0 {
        lemma_counts_plain(exprs, (n - 1) as nat);
    }
}

proof fn lemma_counts_one(exprs: Seq<ExprV>, k: int, n: nat)
    requires
        0 <= k < n <= exprs.len(),
        forall|i: int| 0 <= i < n && i != k ==> to_json_count(#[trigger] exprs[i]) == 0,
    ensures
        to_json_counts(exprs, n) == to_json_count(exprs[k]),
    decreases n,
{
    if k == n - 1 {
        lemma_counts_plain(exprs, (n - 1) as nat);
    } else {
        lemma_counts_one(exprs, k, (n - 1) as nat);
    }
}

/// Statistics are rendered as JSON exactly once where that was asked for and the source has them
/// parsed, and never otherwise.
pub proof fn json_is_synthesized_only_on_request(
    stats: Option<SchemaV>,
    has_stats_parsed: bool,
    skip_stats: bool,
    synthesize_json: bool,
    has_partition_schema: bool,
    has_partition_values_parsed: bool,
)
    ensures
        to_json_count(
            ExprV::struct_from(
                add_transform_fields(
                    stats,
                    has_stats_parsed,
                    skip_stats,
                    synthesize_json,
                    has_partition_schema,
                    has_partition_values_parsed,
                ),
            ),
        ) == (if has_stats_parsed && synthesize_json && !skip_stats {
            1nat
        } else {
            0nat
        }),
{
    let exprs = add_transform_fields(
        stats,
        has_stats_parsed,
        skip_stats,
        synthesize_json,
        has_partition_schema,
        has_partition_values_parsed,
    );
    let stats_expr = json_stats_expr(has_stats_parsed, skip_stats, synthesize_json);
    assert forall|i: int| 0 <= i < 6 implies #[trigger] exprs[i] == base_exprs(stats_expr)[i] by {}
    let constants = file_constant_exprs();
    lemma_counts_plain(constants, constants.len());
    reveal_with_fuel(to_json_count, 2);
    assert(to_json_count(ExprV::struct_from(constants)) == 0);
    let wanted = add_column("stats"@);
    let parsed = ExprV::Unary(
        UnaryExpressionOp::ToJson,
        Box::new(add_column("stats_parsed"@)),
    );
    let both = seq![wanted, parsed];
    assert(to_json_count(parsed) == 1);
    lemma_counts_one(both, 1, 2);
    assert(to_json_count(stats_expr) == if has_stats_parsed && synthesize_json && !skip_stats {
        1nat
    } else {
        0nat
    });
    assert forall|i: int| 0 <= i < exprs.len() && i != 3 implies to_json_count(#[trigger] exprs[i])
        == 0 by {}
    lemma_counts_one(exprs, 3, exprs.len());
}

} // verus!
