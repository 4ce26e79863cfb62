//! What the filters that a scan prepares drop and keep.

use vstd::prelude::*;

use super::data_skipping::{
    checkpoint_rules, comparison, eligible_partition_columns, expression_prepared, filter_pred,
    filter_schema, guarded, junction_of, literal_of, predicate_prepared, raw_action_plan,
    scan_rules, skipping_plan, with_one_null, DataSkippingFilter, SkippingRules,
};
use super::log_replay::{scan_filter, ScanPartitionValuesOptions, ScanStatsOptions};
use super::physical_predicate::{prefixed, PhysicalPredicateV};
use super::resolution_laws::{renaming_keeps_the_meaning, understood, understood_expr};
use super::row_laws::{fills, has_field, lemma_field, lemma_fills};
use super::schemas::scan_row_fields_with;
use super::skipping_laws::{
    at_most, describes, describes_column, is_not_add, non_adds_are_never_pruned, opaques_sound,
    pred_value, rewrite_is_sound, skip_value, sql_where_rewrite_is_sound, within_max,
    Interpretation, Row,
};
use super::skipping_power_laws::{
    bounds_that_meet_leave_one_value, compares, dropped_by, has_bounds, has_partition_value,
    maximum, minimum, negation, nothing_is_above_the_maximum, nothing_is_below_the_minimum,
    nothing_is_outside_the_bounds, nothing_reaches_above_the_maximum,
    nothing_reaches_below_the_minimum, null_count, partition_values_decide_comparisons, row_count,
    with_slack,
};
use super::state_info::StateInfo;
use super::table_scan::{
    actions_meta_predicate, floating_column_set, is_floating, partition_column_set,
};
use crate::engine::Engine;
use crate::expressions::column::Path;
use crate::expressions::expression::{BinaryPredicateOp, ExprV, JunctionPredicateOp, PredV};
use crate::expressions::scalar::{scalar_order, Comparison, ScalarV};
use crate::kernel_predicates::{
    binary_value, constant_sql_where, rewrite_expr, rewrite_pred, rewrite_preds, rewrite_sql_where,
    scalar_value,
};
use crate::schema::{opt_schema_view, DataTypeV, PrimitiveType, SchemaV};

verus! {

// ---------------------------------------------------------------------------------------------
// Files and their rows
// ---------------------------------------------------------------------------------------------

/// Whether the recorded statistics of a column are correct for a file that holds `row`. Every
/// statistic may be missing, and the maximum of a timestamp may be cut to milliseconds.
pub open spec fn column_described(stats: Row, row: Row, col: Path) -> bool {
    let v = row(col);
    let min = minimum(stats, col);
    let max = maximum(stats, col);
    let nulls = null_count(stats, col);
    &&& min.is_null() || v.is_null() || at_most(min, v)
    &&& max.is_null() || v.is_null() || within_max(v, max)
    &&& nulls.is_null() || nulls is Long
    &&& nulls == ScalarV::Long(0) ==> !v.is_null()
    &&& nulls is Long && nulls == row_count(stats) ==> v.is_null()
}

/// Whether what is recorded of a file is correct for `row`, one of its rows: the partition values
/// are those of the row, and the statistics of the listed columns are correct.
pub open spec fn file_described(
    stats: Row,
    row: Row,
    partition: Option<SchemaV>,
    columns: Set<Path>,
) -> bool {
    &&& partition matches Some(fields) ==> forall|i: int|
        0 <= i < fields.len() ==> row(seq![(#[trigger] fields[i]).name]) == stats(
            seq!["partitionValues_parsed"@] + seq![fields[i].name],
        )
    &&& forall|col: Path| #[trigger] columns.contains(col) ==> column_described(stats, row, col)
}

/// Whether a field of the schema has this name.
pub open spec fn is_partition_column(partition: Option<SchemaV>, col: Path) -> bool {
    partition matches Some(fields) && exists|i: int|
        0 <= i < fields.len() && col == seq![(#[trigger] fields[i]).name]
}

proof fn lemma_described(
    rules: SkippingRules,
    stats: Row,
    row: Row,
    partition: Option<SchemaV>,
    columns: Set<Path>,
)
    requires
        file_described(stats, row, partition, columns),
        rules.stats == columns,
        forall|col: Path| #[trigger]
            rules.partition.contains(col) ==> is_partition_column(partition, col),
    ensures
        describes(rules, stats, row),
{
    assert forall|col: Path| #[trigger] describes_column(rules, stats, row, col) by {
        if rules.partition.contains(col) {
            let fields = partition->0;
            let i = choose|i: int| 0 <= i < fields.len() && col == seq![(#[trigger] fields[i]).name];
            assert(row(seq![fields[i].name]) == stats(
                seq!["partitionValues_parsed"@] + seq![fields[i].name],
            ));
        } else if columns.contains(col) {
            assert(column_described(stats, row, col));
        }
    }
}

/// Whether `p` is one of the six comparisons of a column with a value, and the recorded bounds leave
/// no room for it.
pub open spec fn excluded(stats: Row, col: Path, val: ScalarV, p: PredV) -> bool {
    let least = scalar_order(minimum(stats, col), val);
    let most = scalar_order(maximum(stats, col), with_slack(val));
    let less = BinaryPredicateOp::LessThan;
    let greater = BinaryPredicateOp::GreaterThan;
    let equal = BinaryPredicateOp::Equal;
    ||| p == compares(col, less, val) && (least == Some(Comparison::Greater) || least == Some(
        Comparison::Equal,
    ))
    ||| p == negation(compares(col, greater, val)) && least == Some(Comparison::Greater)
    ||| p == compares(col, greater, val) && (most == Some(Comparison::Less) || most == Some(
        Comparison::Equal,
    ))
    ||| p == negation(compares(col, less, val)) && most == Some(Comparison::Less)
    ||| p == compares(col, equal, val) && (least == Some(Comparison::Greater) || most == Some(
        Comparison::Less,
    ))
    ||| p == negation(compares(col, equal, val)) && least == Some(Comparison::Equal) && most
        == Some(Comparison::Equal)
}

proof fn lemma_excluded(
    it: Interpretation,
    rules: SkippingRules,
    stats: Row,
    col: Path,
    val: ScalarV,
    p: PredV,
)
    requires
        rules.stats.contains(col),
        !rules.partition.contains(col),
        !rules.floating.contains(col),
        has_bounds(val),
        excluded(stats, col, val, p),
    ensures
        dropped_by(it, rules, stats, p),
{
    let least = scalar_order(minimum(stats, col), val);
    let most = scalar_order(maximum(stats, col), with_slack(val));
    if p == compares(col, BinaryPredicateOp::LessThan, val) {
        nothing_is_below_the_minimum(it, rules, stats, col, val);
    } else if p == negation(compares(col, BinaryPredicateOp::GreaterThan, val)) {
        nothing_reaches_below_the_minimum(it, rules, stats, col, val);
    } else if p == compares(col, BinaryPredicateOp::GreaterThan, val) {
        nothing_is_above_the_maximum(it, rules, stats, col, val);
    } else if p == negation(compares(col, BinaryPredicateOp::LessThan, val)) {
        nothing_reaches_above_the_maximum(it, rules, stats, col, val);
    } else if p == compares(col, BinaryPredicateOp::Equal, val) {
        nothing_is_outside_the_bounds(it, rules, stats, col, val);
    } else {
        bounds_that_meet_leave_one_value(it, rules, stats, col, val);
    }
}

// ---------------------------------------------------------------------------------------------
// The filter over single files
// ---------------------------------------------------------------------------------------------

/// The filter of a scan drops only files none of whose rows the predicate keeps, and no row of the
/// log that is not an Add, unless the predicate keeps nothing whatever the columns hold.
pub proof fn filters_drop_no_match(
    it: Interpretation,
    p: PredV,
    stats_schema: Option<SchemaV>,
    stats_expr: ExprV,
    partition: Option<SchemaV>,
    partition_expr: ExprV,
    is_add_expr: ExprV,
    columns: Set<Path>,
    stats: Row,
    row: Row,
)
    requires
        opaques_sound(it, row, p),
    ensures
        skipping_plan(
            Some(p),
            stats_schema,
            stats_expr,
            partition,
            partition_expr,
            is_add_expr,
            columns,
        ) matches Some(plan) ==> pred_value(it, stats, plan.skipping) == Some(false) ==> {
            &&& file_described(stats, row, partition, columns) ==> pred_value(it, row, p) != Some(
                true,
            )
            &&& is_not_add(stats) ==> constant_sql_where(p, false) == Some(false)
        },
{
    let eligible = eligible_partition_columns(partition);
    let rules = scan_rules(eligible, columns);
    if file_described(stats, row, partition, columns) {
        assert forall|col: Path| #[trigger] rules.partition.contains(col) implies is_partition_column(
            partition,
            col,
        ) by {}
        lemma_described(rules, stats, row, partition, columns);
        sql_where_rewrite_is_sound(it, rules, stats, row, p, false);
    }
    if is_not_add(stats) {
        non_adds_are_never_pruned(it, eligible, columns, stats, p, false);
    }
}

/// The filter of a scan drops a file whose recorded bounds leave no room for a comparison; there is
/// such a filter wherever there are statistics or partition values to read.
pub proof fn filters_drop_what_bounds_exclude(
    it: Interpretation,
    p: PredV,
    stats_schema: Option<SchemaV>,
    stats_expr: ExprV,
    partition: Option<SchemaV>,
    partition_expr: ExprV,
    is_add_expr: ExprV,
    columns: Set<Path>,
    stats: Row,
    col: Path,
    val: ScalarV,
)
    requires
        stats_schema is Some || partition is Some,
        columns.contains(col),
        !is_partition_column(partition, col),
        has_bounds(val),
        excluded(stats, col, val, p),
    ensures
        skipping_plan(
            Some(p),
            stats_schema,
            stats_expr,
            partition,
            partition_expr,
            is_add_expr,
            columns,
        ) matches Some(plan) && pred_value(it, stats, plan.skipping) == Some(false),
{
    let rules = scan_rules(eligible_partition_columns(partition), columns);
    lemma_excluded(it, rules, stats, col, val, p);
}

/// Whether a type is one of those that partition columns are compared by: all primitive types but
/// intervals.
pub open spec fn comparable_type(t: DataTypeV) -> bool {
    t is Primitive && t->Primitive_0 != PrimitiveType::IntervalYearMonth && t->Primitive_0
        != PrimitiveType::IntervalDayTime
}

/// The filter of a scan drops a file whose partition value is known not to satisfy a comparison, or
/// is NULL.
pub proof fn filters_drop_other_partitions(
    it: Interpretation,
    stats_schema: Option<SchemaV>,
    stats_expr: ExprV,
    fields: SchemaV,
    partition_expr: ExprV,
    is_add_expr: ExprV,
    columns: Set<Path>,
    stats: Row,
    row: Row,
    i: int,
    op: BinaryPredicateOp,
    val: ScalarV,
    inverted: bool,
)
    requires
        0 <= i < fields.len(),
        comparable_type(fields[i].data_type),
        stats(seq!["is_add"@]) == ScalarV::Boolean(true),
        row(seq![fields[i].name]) == stats(
            seq!["partitionValues_parsed"@] + seq![fields[i].name],
        ),
        op == BinaryPredicateOp::LessThan || op == BinaryPredicateOp::GreaterThan || op
            == BinaryPredicateOp::Equal,
    ensures
        ({
            let col = seq![fields[i].name];
            let p = if inverted {
                negation(compares(col, op, val))
            } else {
                compares(col, op, val)
            };
            skipping_plan(
                Some(p),
                stats_schema,
                stats_expr,
                Some(fields),
                partition_expr,
                is_add_expr,
                columns,
            ) matches Some(plan) && (pred_value(it, row, p) == Some(false) || row(col).is_null()
                ==> pred_value(it, stats, plan.skipping) == Some(false))
        }),
{
    let col = seq![fields[i].name];
    let p = if inverted {
        negation(compares(col, op, val))
    } else {
        compares(col, op, val)
    };
    let eligible = eligible_partition_columns(Some(fields));
    let rules = scan_rules(eligible, columns);
    assert(eligible.contains(col));
    partition_values_decide_comparisons(it, rules, stats, row, col, op, val, inverted);
    reveal_with_fuel(rewrite_sql_where, 3);
    assert(rewrite_sql_where(rules, p, false) is Some);
}

/// Whether the values that a filter reads are filled from these expressions: statistics and
/// partition values, where there are schemas for them, and whether the row is an Add, which it is if
/// it has a path.
pub open spec fn reads_from(
    schema: SchemaV,
    expr: ExprV,
    stats: Option<(SchemaV, ExprV)>,
    partition: Option<(SchemaV, ExprV)>,
    path: Path,
) -> bool {
    &&& expr is Struct
    &&& schema.len() == expr->Struct_0.len()
    &&& stats matches Some((s, e)) ==> has_field(schema, "stats_parsed"@, DataTypeV::Struct(s))
        && fills(schema, expr->Struct_0, "stats_parsed"@, e)
    &&& partition matches Some((s, e)) ==> has_field(
        schema,
        "partitionValues_parsed"@,
        DataTypeV::Struct(s),
    ) && fills(schema, expr->Struct_0, "partitionValues_parsed"@, e)
    &&& fills(
        schema,
        expr->Struct_0,
        "is_add"@,
        ExprV::Predicate(Box::new(negation(PredV::IsNull(Box::new(ExprV::Column(path)))))),
    )
}

/// `e` with its schema, where there is one.
pub open spec fn with_schema(schema: Option<SchemaV>, e: ExprV) -> Option<(SchemaV, ExprV)> {
    match schema {
        Some(s) => Some((s, e)),
        None => None,
    }
}

proof fn lemma_plan_reads(
    p: PredV,
    stats: Option<SchemaV>,
    stats_expr: ExprV,
    partition: Option<SchemaV>,
    partition_expr: ExprV,
    path: Path,
    columns: Set<Path>,
)
    ensures
        skipping_plan(
            Some(p),
            stats,
            stats_expr,
            partition,
            partition_expr,
            ExprV::from_pred(PredV::is_not_null(ExprV::Column(path))),
            columns,
        ) matches Some(plan) ==> reads_from(
            plan.schema,
            plan.expr,
            with_schema(stats, stats_expr),
            with_schema(partition, partition_expr),
            path,
        ),
{
    if let Some(plan) = skipping_plan(
        Some(p),
        stats,
        stats_expr,
        partition,
        partition_expr,
        ExprV::from_pred(PredV::is_not_null(ExprV::Column(path))),
        columns,
    ) {
        let exprs = plan.expr->Struct_0;
        let n = plan.schema.len();
        lemma_fills(plan.schema, exprs, n - 1);
        lemma_fills(plan.schema, exprs, 0);
        lemma_field(plan.schema, 0);
        if n > 1 {
            lemma_fills(plan.schema, exprs, n - 2);
            lemma_field(plan.schema, n - 2);
        }
    }
}

/// The filter over raw actions reads what Adds record: statistics parsed from their text, partition
/// values from their pairs.
pub proof fn raw_filters_read_adds(
    p: PredV,
    stats: SchemaV,
    partition: Option<SchemaV>,
    columns: Set<Path>,
)
    ensures
        raw_action_plan(p, stats, partition, columns) matches Some(plan) ==> reads_from(
            plan.schema,
            plan.expr,
            Some(
                (stats, ExprV::ParseJson(Box::new(ExprV::Column(seq!["add"@, "stats"@])), stats)),
            ),
            with_schema(
                partition,
                ExprV::MapToStruct(Box::new(ExprV::Column(seq!["add"@, "partitionValues"@]))),
            ),
            seq!["add"@, "path"@],
        ),
{
    lemma_plan_reads(
        p,
        Some(stats),
        ExprV::ParseJson(Box::new(ExprV::Column(seq!["add"@, "stats"@])), stats),
        partition,
        ExprV::MapToStruct(Box::new(ExprV::Column(seq!["add"@, "partitionValues"@]))),
        seq!["add"@, "path"@],
        columns,
    );
}

/// The filter of a scan reads its typed columns off scan rows, evaluates a predicate on them, and
/// keeps the rows on which that is not FALSE. There is one only for a predicate, and never if
/// statistics are skipped.
pub proof fn scan_filters_read_scan_rows<E: Engine>(
    engine: &E,
    info: StateInfo,
    options: ScanStatsOptions,
    partition_options: ScanPartitionValuesOptions,
    f: DataSkippingFilter<E>,
)
    requires
        scan_filter(engine, info, options, partition_options, Some(f)),
    ensures
        !options.skip_stats,
        info.physical_predicate@ is Present,
        f.records_metrics,
        exists|schema: SchemaV, expr: ExprV, skipping: PredV|
            #[trigger] expression_prepared(
                engine,
                scan_row_fields_with(
                    opt_schema_view(info.physical_stats_schema),
                    opt_schema_view(info.physical_partition_schema),
                ),
                expr,
                schema,
                Ok(f.stats_evaluator),
            ) && #[trigger] predicate_prepared(
                engine,
                schema,
                skipping,
                Ok(f.skipping_evaluator),
            ) && reads_from(
                schema,
                expr,
                with_schema(
                    opt_schema_view(info.physical_stats_schema),
                    ExprV::Column(seq!["stats_parsed"@]),
                ),
                with_schema(
                    opt_schema_view(info.physical_partition_schema),
                    ExprV::Column(seq!["partitionValues_parsed"@]),
                ),
                seq!["path"@],
            ),
        predicate_prepared(engine, filter_schema(), filter_pred(), Ok(f.filter_evaluator)),
{
    let p = (info.physical_predicate@)->Present_0;
    lemma_plan_reads(
        p,
        opt_schema_view(info.physical_stats_schema),
        ExprV::Column(seq!["stats_parsed"@]),
        opt_schema_view(info.physical_partition_schema),
        ExprV::Column(seq!["partitionValues_parsed"@]),
        seq!["path"@],
        info.physical_stats_columns@,
    );
}

/// What the filter of a scan was prepared with drops a file whose recorded bounds leave no room for
/// the scan's predicate.
pub proof fn scan_filters_drop_what_bounds_exclude<E: Engine>(
    it: Interpretation,
    engine: &E,
    info: StateInfo,
    options: ScanStatsOptions,
    partition_options: ScanPartitionValuesOptions,
    f: DataSkippingFilter<E>,
    stats: Row,
    col: Path,
    val: ScalarV,
)
    requires
        scan_filter(engine, info, options, partition_options, Some(f)),
        info.physical_stats_columns@.contains(col),
        !is_partition_column(opt_schema_view(info.physical_partition_schema), col),
        has_bounds(val),
        excluded(stats, col, val, (info.physical_predicate@)->Present_0),
    ensures
        exists|schema: SchemaV, skipping: PredV|
            #[trigger] predicate_prepared(engine, schema, skipping, Ok(f.skipping_evaluator))
                && pred_value(it, stats, skipping) == Some(false),
{
    let p = (info.physical_predicate@)->Present_0;
    let partition = opt_schema_view(info.physical_partition_schema);
    let columns = info.physical_stats_columns@;
    let plan = skipping_plan(
        Some(p),
        opt_schema_view(info.physical_stats_schema),
        ExprV::Column(seq!["stats_parsed"@]),
        partition,
        ExprV::Column(seq!["partitionValues_parsed"@]),
        ExprV::from_pred(PredV::is_not_null(ExprV::Column(seq!["path"@]))),
        columns,
    );
    assert(plan is Some);
    lemma_excluded(
        it,
        scan_rules(eligible_partition_columns(partition), columns),
        stats,
        col,
        val,
        p,
    );
    assert(predicate_prepared(
        engine,
        plan->0.schema,
        plan->0.skipping,
        Ok(f.skipping_evaluator),
    ));
}

// ---------------------------------------------------------------------------------------------
// The filter over parts of checkpoints
// ---------------------------------------------------------------------------------------------

proof fn lemma_literal_understood(value: Option<bool>)
    ensures
        literal_of(value) matches Some(p) ==> understood(p),
{
    reveal_with_fuel(understood, 2);
    reveal_with_fuel(understood_expr, 2);
}

proof fn lemma_two_understood(op: JunctionPredicateOp, a: PredV, b: PredV)
    requires
        understood(a),
        understood(b),
    ensures
        understood(PredV::Junction(op, seq![a, b])),
{
    let preds = seq![a, b];
    assert forall|i: int| 0 <= i < preds.len() implies understood(#[trigger] preds[i]) by {}
}

proof fn lemma_parts_understood(preds: Seq<Option<PredV>>)
    requires
        forall|i: int|
            0 <= i < preds.len() ==> ((#[trigger] preds[i]) matches Some(p) ==> understood(p)),
    ensures
        forall|i: int|
            0 <= i < with_one_null(preds).len() ==> understood(#[trigger] with_one_null(preds)[i]),
    decreases preds.len(),
{
    reveal_with_fuel(understood, 2);
    reveal_with_fuel(understood_expr, 2);
    if preds.len() > 0 {
        let fewer = preds.drop_last();
        assert forall|i: int| 0 <= i < fewer.len() implies ((#[trigger] fewer[i]) matches Some(p)
            ==> understood(p)) by {
            assert(fewer[i] == preds[i]);
        }
        lemma_parts_understood(fewer);
        assert(understood_expr(
            ExprV::Literal(ScalarV::Null(DataTypeV::Primitive(PrimitiveType::Boolean))),
        ));
        assert(understood(PredV::null()));
        assert(preds[preds.len() - 1] == preds.last());
        let before = with_one_null(fewer);
        let all = with_one_null(preds);
        assert forall|i: int| 0 <= i < all.len() implies understood(#[trigger] all[i]) by {
            if i < before.len() {
                assert(all[i] == before[i]);
            } else if let Some(p) = preds.last() {
                assert(all[i] == p);
            } else {
                assert(all[i] == PredV::null());
            }
        }
    }
}

proof fn lemma_junction_understood(
    op: JunctionPredicateOp,
    preds: Seq<Option<PredV>>,
    inverted: bool,
)
    requires
        forall|i: int|
            0 <= i < preds.len() ==> ((#[trigger] preds[i]) matches Some(p) ==> understood(p)),
    ensures
        understood(junction_of(op, preds, inverted)),
{
    lemma_parts_understood(preds);
}

proof fn lemma_comparison_understood(
    rules: SkippingRules,
    ord: Comparison,
    path: Path,
    val: ScalarV,
    inverted: bool,
)
    ensures
        understood(comparison(ord, ExprV::Column(path), val, inverted)),
        understood(PredV::is_null(ExprV::Column(path))),
        understood(PredV::is_not_null(ExprV::Column(path))),
        understood(rules.compare(ord, ExprV::Column(path), val, inverted)),
{
    reveal_with_fuel(understood, 3);
    reveal_with_fuel(understood_expr, 2);
    let plain = comparison(ord, ExprV::Column(path), val, inverted);
    lemma_two_understood(JunctionPredicateOp::Or, PredV::is_null(ExprV::Column(path)), plain);
    lemma_guard_understood(plain);
}

proof fn lemma_guard_understood(p: PredV)
    requires
        understood(p),
    ensures
        understood(guarded(p)),
{
    let not_add = PredV::not(PredV::column(seq!["is_add"@]));
    reveal_with_fuel(understood, 3);
    reveal_with_fuel(understood_expr, 2);
    lemma_two_understood(JunctionPredicateOp::Or, not_add, p);
}

proof fn lemma_bounds_understood(
    rules: SkippingRules,
    col: Path,
    val: ScalarV,
    ord: Comparison,
    inverted: bool,
)
    ensures
        rules.compare_min(col, val, ord, inverted) matches Some(p) ==> understood(p),
        rules.compare_max(col, val, ord, inverted) matches Some(p) ==> understood(p),
{
    if let Some(ExprV::Column(path)) = rules.min_stat(col, val.data_type()) {
        lemma_comparison_understood(rules, ord, path, val, inverted);
    }
    if let Some(ExprV::Column(path)) = rules.max_stat(col, val.data_type()) {
        lemma_comparison_understood(
            rules,
            ord,
            path,
            rules.max_comparison_value(col, val),
            inverted,
        );
    }
}

proof fn lemma_equal_understood(rules: SkippingRules, col: Path, val: ScalarV, inverted: bool)
    ensures
        understood(rules.equal(col, val, inverted)),
{
    lemma_bounds_understood(rules, col, val, Comparison::Equal, true);
    lemma_bounds_understood(rules, col, val, Comparison::Greater, true);
    lemma_bounds_understood(rules, col, val, Comparison::Less, true);
    if inverted {
        lemma_junction_understood(
            JunctionPredicateOp::Or,
            seq![
                rules.compare_min(col, val, Comparison::Equal, true),
                rules.compare_max(col, val, Comparison::Equal, true),
            ],
            false,
        );
    } else {
        lemma_junction_understood(
            JunctionPredicateOp::And,
            seq![
                rules.compare_min(col, val, Comparison::Greater, true),
                rules.compare_max(col, val, Comparison::Less, true),
            ],
            false,
        );
    }
}

proof fn lemma_is_null_understood(rules: SkippingRules, col: Path, inverted: bool)
    ensures
        rules.is_null(col, inverted) matches Some(p) ==> understood(p),
{
    let value = seq!["partitionValues_parsed"@] + col;
    lemma_comparison_understood(rules, Comparison::Equal, value, ScalarV::Long(0), inverted);
    lemma_guard_understood(PredV::is_null(ExprV::Column(value)));
    lemma_guard_understood(PredV::is_not_null(ExprV::Column(value)));
    let nulls = seq!["stats_parsed"@, "nullCount"@] + col;
    lemma_comparison_understood(rules, Comparison::Equal, nulls, ScalarV::Long(0), true);
    lemma_two_understood(
        JunctionPredicateOp::Or,
        PredV::is_null(ExprV::Column(nulls)),
        comparison(Comparison::Equal, ExprV::Column(nulls), ScalarV::Long(0), true),
    );
    reveal_with_fuel(understood, 3);
    reveal_with_fuel(understood_expr, 2);
}

proof fn lemma_column_understood(
    rules: SkippingRules,
    op: BinaryPredicateOp,
    col: Path,
    val: ScalarV,
    inverted: bool,
)
    ensures
        rules.column_with_scalar(op, col, val, inverted) matches Some(p) ==> understood(p),
{
    lemma_bounds_understood(rules, col, val, Comparison::Less, inverted);
    lemma_bounds_understood(rules, col, val, Comparison::Greater, inverted);
    lemma_equal_understood(rules, col, val, inverted);
    lemma_equal_understood(rules, col, val, !inverted);
    lemma_is_null_understood(rules, col, inverted);
    lemma_is_null_understood(rules, col, !inverted);
    lemma_junction_understood(
        JunctionPredicateOp::Or,
        seq![rules.is_null(col, inverted), Some(rules.equal(col, val, !inverted))],
        inverted,
    );
}

proof fn lemma_cast_understood(
    rules: SkippingRules,
    op: BinaryPredicateOp,
    col: Path,
    target: DataTypeV,
    val: ScalarV,
    inverted: bool,
)
    ensures
        rules.cast(op, col, target, val, inverted) matches Some(p) ==> understood(p),
{
    let value = ExprV::Column(seq!["partitionValues_parsed"@] + col);
    let cast = ExprV::Cast(Box::new(value), target);
    assert(understood_expr(value));
    assert(understood_expr(cast));
    assert(understood_expr(ExprV::Literal(val)));
    reveal_with_fuel(understood, 2);
}

proof fn lemma_binary_understood(
    rules: SkippingRules,
    op: BinaryPredicateOp,
    a: ExprV,
    b: ExprV,
    inverted: bool,
)
    ensures
        rules.binary(op, a, b, inverted) matches Some(p) ==> understood(p),
{
    match (a, b) {
        (ExprV::Literal(x), ExprV::Literal(y)) => {
            lemma_literal_understood(binary_value(op, x, y, inverted));
        },
        (ExprV::Column(col), ExprV::Literal(val)) => {
            lemma_column_understood(rules, op, col, val, inverted);
        },
        (ExprV::Literal(val), ExprV::Column(col)) => {
            if let Some(commuted) = op.commute() {
                lemma_column_understood(rules, commuted, col, val, inverted);
            }
        },
        (ExprV::Cast(e, target), ExprV::Literal(val)) => {
            if let ExprV::Column(col) = *e {
                lemma_cast_understood(rules, op, col, target, val, inverted);
            }
        },
        (ExprV::Literal(val), ExprV::Cast(e, target)) => {
            if let (ExprV::Column(col), Some(commuted)) = (*e, op.commute()) {
                lemma_cast_understood(rules, commuted, col, target, val, inverted);
            }
        },
        _ => {},
    }
}

/// A rewrite holds nothing that only the engine understands, whatever the predicate does.
pub proof fn rewrites_are_understood(rules: SkippingRules, p: PredV, inverted: bool)
    ensures
        rewrite_pred(rules, p, inverted) matches Some(r) ==> understood(r),
    decreases p,
{
    match p {
        PredV::BooleanExpression(e) => {
            lemma_expr_understood(rules, *e, inverted);
        },
        PredV::Not(a) => {
            rewrites_are_understood(rules, *a, !inverted);
        },
        PredV::IsNull(e) => {
            match *e {
                ExprV::Literal(s) => {
                    lemma_literal_understood(Some(s.is_null() != inverted));
                },
                ExprV::Column(col) => {
                    lemma_is_null_understood(rules, col, inverted);
                },
                _ => {},
            }
        },
        PredV::Binary(op, a, b) => {
            lemma_binary_understood(rules, op, *a, *b, inverted);
        },
        PredV::Junction(op, preds) => {
            let parts = rewrite_preds(rules, preds, inverted);
            assert forall|i: int| 0 <= i < parts.len() implies ((#[trigger] parts[i]) matches Some(
                q,
            ) ==> understood(q)) by {
                rewrites_are_understood(rules, preds[i], inverted);
            }
            lemma_junction_understood(op, parts, inverted);
        },
        PredV::Opaque(o) => {
            let implied = if inverted {
                o.implied_inverted
            } else {
                o.implied
            };
            if let Some(q) = implied {
                rewrites_are_understood(rules, *q, false);
                if let Some(r) = rewrite_pred(rules, *q, false) {
                    lemma_guard_understood(r);
                }
            }
        },
        PredV::Unknown(_) => {},
    }
}

proof fn lemma_expr_understood(rules: SkippingRules, e: ExprV, inverted: bool)
    ensures
        rewrite_expr(rules, e, inverted) matches Some(r) ==> understood(r),
    decreases e,
{
    match e {
        ExprV::Literal(s) => {
            lemma_literal_understood(scalar_value(s, inverted));
        },
        ExprV::Column(col) => {
            lemma_equal_understood(rules, col, ScalarV::Boolean(inverted), true);
        },
        ExprV::Predicate(p) => {
            rewrites_are_understood(rules, *p, inverted);
        },
        _ => {},
    }
}

/// What a row of a checkpoint records of its Add, read without the `add` in front.
pub open spec fn of_add(checkpoint: Row) -> Row {
    |path: Path| checkpoint(seq!["add"@] + path)
}

proof fn lemma_meta_value(it: Interpretation, info: StateInfo, checkpoint: Row)
    ensures
        actions_meta_predicate(info) matches Some(m) ==> ({
            let partition = opt_schema_view(info.physical_partition_schema);
            let rules = checkpoint_rules(
                partition_column_set(partition),
                floating_column_set(partition),
                info.physical_stats_columns@,
            );
            let p = (info.physical_predicate@)->Present_0;
            &&& info.physical_predicate@ is Present
            &&& rewrite_pred(rules, p, false) is Some
            &&& pred_value(it, checkpoint, m) == skip_value(
                it,
                of_add(checkpoint),
                rewrite_pred(rules, p, false),
            )
        }),
{
    if let PhysicalPredicateV::Present(p, _) = info.physical_predicate@ {
        let partition = opt_schema_view(info.physical_partition_schema);
        let rules = checkpoint_rules(
            partition_column_set(partition),
            floating_column_set(partition),
            info.physical_stats_columns@,
        );
        rewrites_are_understood(rules, p, false);
        if let Some(r) = rewrite_pred(rules, p, false) {
            let f = prefixed(seq!["add"@]);
            renaming_keeps_the_meaning(it, checkpoint, f, r);
            assert((|path: Path| checkpoint(f(path))) =~= of_add(checkpoint));
        }
    }
}

/// The predicate for parts of checkpoints drops only Adds none of whose rows the scan's predicate
/// keeps.
pub proof fn checkpoint_filters_drop_no_match(
    it: Interpretation,
    info: StateInfo,
    checkpoint: Row,
    row: Row,
)
    requires
        info.physical_predicate@ is Present,
        opaques_sound(it, row, (info.physical_predicate@)->Present_0),
        file_described(
            of_add(checkpoint),
            row,
            opt_schema_view(info.physical_partition_schema),
            info.physical_stats_columns@,
        ),
    ensures
        actions_meta_predicate(info) matches Some(m) ==> pred_value(it, checkpoint, m) == Some(
            false,
        ) ==> pred_value(it, row, (info.physical_predicate@)->Present_0) != Some(true),
{
    let partition = opt_schema_view(info.physical_partition_schema);
    let columns = info.physical_stats_columns@;
    let rules = checkpoint_rules(
        partition_column_set(partition),
        floating_column_set(partition),
        columns,
    );
    lemma_meta_value(it, info, checkpoint);
    lemma_described(rules, of_add(checkpoint), row, partition, columns);
    rewrite_is_sound(
        it,
        rules,
        of_add(checkpoint),
        row,
        (info.physical_predicate@)->Present_0,
        false,
    );
}

/// The predicate for parts of checkpoints drops an Add whose recorded bounds leave no room for a
/// comparison; there is such a predicate wherever there are statistics or partition values to read.
pub proof fn checkpoint_filters_drop_what_bounds_exclude(
    it: Interpretation,
    info: StateInfo,
    checkpoint: Row,
    col: Path,
    val: ScalarV,
)
    requires
        info.physical_predicate@ is Present,
        info.physical_stats_schema is Some || info.physical_partition_schema is Some,
        info.physical_stats_columns@.contains(col),
        !is_partition_column(opt_schema_view(info.physical_partition_schema), col),
        has_bounds(val),
        excluded(of_add(checkpoint), col, val, (info.physical_predicate@)->Present_0),
    ensures
        actions_meta_predicate(info) matches Some(m) && pred_value(it, checkpoint, m) == Some(
            false,
        ),
{
    let partition = opt_schema_view(info.physical_partition_schema);
    let rules = checkpoint_rules(
        partition_column_set(partition),
        floating_column_set(partition),
        info.physical_stats_columns@,
    );
    lemma_meta_value(it, info, checkpoint);
    lemma_excluded(
        it,
        rules,
        of_add(checkpoint),
        col,
        val,
        (info.physical_predicate@)->Present_0,
    );
}

/// Bounds of floating-point partition values may leave NaN out, so no comparison of such a column
/// by order makes a predicate for parts of checkpoints; with every other partition column there is
/// one, and it is decided by the value.
pub proof fn checkpoint_filters_trust_no_floating_bounds(
    it: Interpretation,
    info: StateInfo,
    checkpoint: Row,
    row: Row,
    fields: SchemaV,
    i: int,
    op: BinaryPredicateOp,
    val: ScalarV,
)
    requires
        opt_schema_view(info.physical_partition_schema) == Some(fields),
        0 <= i < fields.len(),
        forall|j: int, k: int|
            0 <= j < k < fields.len() ==> (#[trigger] fields[j]).name != (#[trigger] fields[k]).name,
        info.physical_predicate@ is Present,
        (info.physical_predicate@)->Present_0 == compares(seq![fields[i].name], op, val),
        op == BinaryPredicateOp::LessThan || op == BinaryPredicateOp::GreaterThan,
        row(seq![fields[i].name]) == checkpoint(
            seq!["add"@] + (seq!["partitionValues_parsed"@] + seq![fields[i].name]),
        ),
    ensures
        ({
            let t = fields[i].data_type;
            let floating = t == DataTypeV::Primitive(PrimitiveType::Float) || t
                == DataTypeV::Primitive(PrimitiveType::Double);
            &&& floating ==> actions_meta_predicate(info) is None
            &&& !floating ==> (actions_meta_predicate(info) matches Some(m) && pred_value(
                it,
                checkpoint,
                m,
            ) == pred_value(it, row, (info.physical_predicate@)->Present_0))
        }),
{
    let partition = Some(fields);
    let col = seq![fields[i].name];
    let rules = checkpoint_rules(
        partition_column_set(partition),
        floating_column_set(partition),
        info.physical_stats_columns@,
    );
    assert(rules.partition.contains(col));
    let t = fields[i].data_type;
    let floating = t == DataTypeV::Primitive(PrimitiveType::Float) || t == DataTypeV::Primitive(
        PrimitiveType::Double,
    );
    if floating {
        assert(rules.floating.contains(col));
    } else if rules.floating.contains(col) {
        let j = choose|j: int|
            0 <= j < fields.len() && is_floating(
                (#[trigger] fields[j]).data_type,
            ) && col == seq![fields[j].name];
        assert(col[0] == fields[j].name && col[0] == fields[i].name);
        assert(i == j) by {
            if i < j {
                assert(fields[i].name != fields[j].name);
            } else if j < i {
                assert(fields[j].name != fields[i].name);
            }
        }
    }
    reveal_with_fuel(rewrite_pred, 2);
    lemma_meta_value(it, info, checkpoint);
    if !floating {
        assert(has_partition_value(rules, of_add(checkpoint), col));
        partition_values_decide_comparisons(
            it,
            rules,
            of_add(checkpoint),
            row,
            col,
            op,
            val,
            false,
        );
    }
}

} // verus!
