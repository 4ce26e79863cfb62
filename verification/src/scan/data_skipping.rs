//! Data skipping: rewriting a predicate so that per-file statistics decide it.

use std::sync::Arc;
use std::time::Instant;

use vstd::prelude::*;

use super::metrics::ScanMetrics;
use crate::engine::{Column, Engine};
use crate::error::{check_length, length_mismatch, option_view, DeltaResult, Error, ErrorV};
use crate::expressions::column::{clone_columns, ColumnName, ColumnSet, Path};
use crate::expressions::expression::{
    exprs_view, preds_view, BinaryPredicateOp, ExprV, Expression, ExpressionRef,
    JunctionPredicateOp, PredV, Predicate, PredicateRef,
};
use crate::expressions::scalar::{Comparison, Scalar, ScalarV};
use crate::expressions::transforms::pred_refs;
use crate::kernel_predicates::{
    effective_op, eval, eval_sql_where, rewrite_pred, rewrite_sql_where,
    DataSkippingPredicateEvaluator,
};
use crate::schema::{
    fields_view, opt_schema_view, DataType, DataTypeV, FieldV, PrimitiveType, SchemaRef, SchemaV,
    StructField, StructType,
};
use crate::snapshot::TableConfiguration;
use crate::table_planning::TablePlanning;
use crate::text::{decimal, decimal_text};
use crate::time::nanos_since;

verus! {

/// Whether files record minimum and maximum values for columns of this type.
pub open spec fn skipping_eligible(t: PrimitiveType) -> bool {
    match t {
        PrimitiveType::Boolean
        | PrimitiveType::Binary
        | PrimitiveType::IntervalYearMonth
        | PrimitiveType::IntervalDayTime => false,
        _ => true,
    }
}

/// Whether files record minimum and maximum values for columns of this type.
pub fn is_skipping_eligible_datatype(t: &PrimitiveType) -> (eligible: bool)
    ensures
        eligible == skipping_eligible(*t),
{
    match t {
        PrimitiveType::Boolean
        | PrimitiveType::Binary
        | PrimitiveType::IntervalYearMonth
        | PrimitiveType::IntervalDayTime => false,
        _ => true,
    }
}

pub open spec fn min_max_stats(t: DataTypeV) -> bool {
    match t {
        DataTypeV::Primitive(p) => skipping_eligible(p),
        _ => false,
    }
}

/// A column carries min/max stats iff it is a primitive whose type supports them. Boolean and
/// binary leaves, arrays, maps and variants carry null counts only; a struct has no stats of its
/// own, only its primitive leaves do.
fn has_min_max_stats(data_type: &DataType) -> (has: bool)
    ensures
        has == min_max_stats(data_type@),
{
    match data_type {
        DataType::Primitive(p) => is_skipping_eligible_datatype(p),
        _ => false,
    }
}

/// Where the statistic `kind` of a data column is found.
pub open spec fn stats_path(kind: Seq<char>, col: Path) -> Path {
    seq!["stats_parsed"@, kind] + col
}

/// Where the value of a partition column is found.
pub open spec fn partition_path(col: Path) -> Path {
    seq!["partitionValues_parsed"@] + col
}

/// Where a file's row count is found.
pub open spec fn rowcount_path() -> Path {
    seq!["stats_parsed"@, "numRecords"@]
}

pub open spec fn partition_value_reference(e: ExprV) -> bool {
    match e {
        ExprV::Column(path) => path.len() > 0 && path[0] == "partitionValues_parsed"@,
        _ => false,
    }
}

/// Whether a rewritten stat expression references `partitionValues_parsed`.
fn is_partition_value_reference(expr: &Expression) -> (is: bool)
    ensures
        is == partition_value_reference(expr@),
{
    match expr {
        Expression::Column(name) => name.starts_with("partitionValues_parsed"),
        _ => false,
    }
}

/// The reference to a partition column's exact value, which serves as both its minimum and its
/// maximum.
fn partition_value_expr(col: &ColumnName) -> (expr: Expression)
    ensures
        expr@ == ExprV::Column(partition_path(col@)),
{
    Expression::Column(ColumnName::top("partitionValues_parsed").join(col))
}

/// The comparison `col ord val`, or its negation.
pub open spec fn comparison(ord: Comparison, col: ExprV, val: ScalarV, inverted: bool) -> PredV {
    let op = match ord {
        Comparison::Less => BinaryPredicateOp::LessThan,
        Comparison::Equal => BinaryPredicateOp::Equal,
        Comparison::Greater => BinaryPredicateOp::GreaterThan,
    };
    let plain = PredV::binary(op, col, ExprV::Literal(val));
    if inverted {
        PredV::not(plain)
    } else {
        plain
    }
}

/// Maps an ordering and inversion flag to the corresponding comparison predicate.
pub fn comparison_predicate(ord: Comparison, col: Expression, val: &Scalar, inverted: bool) -> (pred:
    Predicate)
    ensures
        pred@ == comparison(ord, col@, val@, inverted),
{
    let val = Expression::Literal(val.clone());
    match (ord, inverted) {
        (Comparison::Less, false) => Predicate::lt(col, val),
        (Comparison::Less, true) => Predicate::ge(col, val),
        (Comparison::Equal, false) => Predicate::eq(col, val),
        (Comparison::Equal, true) => Predicate::ne(col, val),
        (Comparison::Greater, false) => Predicate::gt(col, val),
        (Comparison::Greater, true) => Predicate::le(col, val),
    }
}

/// The supported operands of a junction, with one NULL standing for all unsupported ones at the
/// place of the first.
pub open spec fn with_one_null(preds: Seq<Option<PredV>>) -> Seq<PredV>
    decreases preds.len(),
{
    if preds.len() == 0 {
        seq![]
    } else {
        let before = with_one_null(preds.drop_last());
        match preds.last() {
            Some(p) => before.push(p),
            None => if preds.drop_last().contains(None) {
                before
            } else {
                before.push(PredV::null())
            },
        }
    }
}

/// The views of a list of optional predicates.
pub open spec fn opt_preds_view(preds: Seq<Option<Predicate>>) -> Seq<Option<PredV>> {
    preds.map_values(|p: Option<Predicate>| option_view(p))
}

/// The junction of rewritten operands, or its negation with the operands negated already.
pub open spec fn junction_of(
    op: JunctionPredicateOp,
    preds: Seq<Option<PredV>>,
    inverted: bool,
) -> PredV {
    PredV::Junction(effective_op(op, inverted), with_one_null(preds))
}

/// Collects sub-predicates into a junction (AND/OR), replacing unsupported sub-predicates (None)
/// with a single NULL literal to preserve correct three-valued logic. One NULL is enough to
/// produce the correct behavior during predicate evaluation; additional NULLs are redundant.
pub fn collect_junction_preds(
    op: JunctionPredicateOp,
    preds: Vec<Option<Predicate>>,
    inverted: bool,
) -> (pred: Predicate)
    ensures
        pred@ == junction_of(op, opt_preds_view(preds@), inverted),
{
    let op = if inverted {
        op.invert()
    } else {
        op
    };
    let ghost all = opt_preds_view(preds@);
    let mut keep_null = true;
    let mut kept: Vec<PredicateRef> = Vec::new();
    let mut i: usize = 0;
    let ghost given = preds@;
    let mut preds = preds;
    assert(all.take(0) =~= seq![]);
    while i < preds.len()
        invariant
            i <= preds@.len(),
            preds@.len() == given.len(),
            all == opt_preds_view(given),
            forall|j: int| i <= j < given.len() ==> #[trigger] preds@[j] == given[j],
            keep_null == !all.take(i as int).contains(None),
            preds_view(kept) == with_one_null(all.take(i as int)),
        decreases preds@.len() - i,
    {
        let mut next: Option<Predicate> = None;
        std::mem::swap(&mut next, &mut preds[i]);
        let ghost before = kept;
        proof {
            assert(all[i as int] == option_view(given[i as int]));
            assert(all.take(i + 1).drop_last() =~= all.take(i as int));
            assert(all.take(i + 1).last() == all[i as int]);
            assert(all.take(i + 1) =~= all.take(i as int).push(all[i as int]));
        }
        match next {
            Some(pred) => {
                kept.push(Arc::new(pred));
                assert(preds_view(kept)
                    =~= preds_view(before).push(pred@));
                proof {
                    if all.take(i as int).contains(None) {
                        let k = choose|k: int|
                            0 <= k < all.take(i as int).len() && all.take(i as int)[k] is None;
                        assert(all.take(i + 1)[k] is None);
                        assert(all.take(i + 1).contains(None));
                    }
                }
            },
            None => {
                assert(all.take(i + 1)[i as int] is None);
                assert(all.take(i + 1).contains(None));
                if keep_null {
                    keep_null = false;
                    kept.push(Arc::new(Predicate::null()));
                    assert(preds_view(kept)
                        =~= preds_view(before).push(PredV::null()));
                }
            },
        }
        i += 1;
    }
    assert(all.take(i as int) =~= all);
    Predicate::Junction(op, kept)
}

/// The value to compare a data column's maximum with: timestamps recorded as statistics may be
/// truncated down to milliseconds.
pub open spec fn truncation_adjusted(val: ScalarV) -> ScalarV {
    match val {
        ScalarV::Timestamp(micros) => ScalarV::Timestamp(less_999(micros)),
        ScalarV::TimestampNtz(micros) => ScalarV::TimestampNtz(less_999(micros)),
        _ => val,
    }
}

/// `micros - 999`, or the smallest value if that does not exist.
pub open spec fn less_999(micros: i64) -> i64 {
    if micros - 999 < i64::MIN {
        i64::MIN
    } else {
        (micros - 999) as i64
    }
}

/// `micros - 999`, saturating.
fn widen_down(micros: i64) -> (widened: i64)
    ensures
        widened == less_999(micros),
{
    if micros < i64::MIN + 999 {
        i64::MIN
    } else {
        micros - 999
    }
}

/// Adjusts a comparison value before comparing against a max stat, to account for the Delta
/// protocol allowing timestamp stats to be truncated to millisecond precision (see Per-file
/// Statistics: "Timestamp columns are truncated down to milliseconds"). Truncation floors to
/// the nearest millisecond, so: `stored_max <= actual_max <= stored_max + 999us`. Subtracting
/// 999us from the comparison value avoids incorrectly pruning files whose actual max may be
/// higher than the stored (truncated) max.
///
/// For example, if a file's actual max is `4_000_500us` (4.000500s), Spark truncates the
/// stored max stat to `4_000_000us` (4.000s). A predicate `ts > 4_000_400` would incorrectly
/// prune this file by comparing against the truncated max. By adjusting the comparison value
/// to `4_000_400 - 999 = 3_999_401`, the file is kept.
///
/// Non-timestamp values pass through unchanged.
pub fn adjust_scalar_for_max_stat_truncation(val: &Scalar) -> (adjusted: Scalar)
    ensures
        adjusted@ == truncation_adjusted(val@),
{
    match val {
        Scalar::Timestamp(micros) => Scalar::Timestamp(widen_down(*micros)),
        Scalar::TimestampNtz(micros) => Scalar::TimestampNtz(widen_down(*micros)),
        other => other.clone(),
    }
}

/// What decides how a predicate is rewritten: which columns have partition values or statistics,
/// and whether the rewrite is for skipping parts of checkpoints or single files.
pub struct SkippingRules {
    pub partition: Set<Path>,
    pub stats: Set<Path>,
    /// Partition columns whose recorded bounds may leave values out. Empty for single files.
    pub floating: Set<Path>,
    pub checkpoint: bool,
}

impl SkippingRules {
    pub open spec fn stat(self, kind: Seq<char>, col: Path, t: DataTypeV) -> Option<ExprV> {
        if self.checkpoint && self.floating.contains(col) {
            None
        } else if self.partition.contains(col) {
            Some(ExprV::Column(partition_path(col)))
        } else if self.stats.contains(col) && min_max_stats(t) {
            Some(ExprV::Column(stats_path(kind, col)))
        } else {
            None
        }
    }

    /// The expression for a column's minimum.
    pub open spec fn min_stat(self, col: Path, t: DataTypeV) -> Option<ExprV> {
        self.stat("minValues"@, col, t)
    }

    /// The expression for a column's maximum.
    pub open spec fn max_stat(self, col: Path, t: DataTypeV) -> Option<ExprV> {
        self.stat("maxValues"@, col, t)
    }

    pub open spec fn max_comparison_value(self, col: Path, val: ScalarV) -> ScalarV {
        if self.partition.contains(col) {
            val
        } else {
            truncation_adjusted(val)
        }
    }

    /// The expression for a column's null count.
    pub open spec fn nullcount_stat(self, col: Path) -> Option<ExprV> {
        if !self.partition.contains(col) && self.stats.contains(col) {
            Some(ExprV::Column(stats_path("nullCount"@, col)))
        } else {
            None
        }
    }

    /// A comparison of a statistic with a literal. For single files, one on partition values is
    /// true of rows that are not Adds; for checkpoints, one on statistics is true where they are
    /// missing.
    pub open spec fn compare(
        self,
        ord: Comparison,
        stat: ExprV,
        val: ScalarV,
        inverted: bool,
    ) -> PredV {
        let plain = comparison(ord, stat, val, inverted);
        if self.checkpoint {
            if partition_value_reference(stat) {
                plain
            } else {
                PredV::or(PredV::is_null(stat), plain)
            }
        } else {
            if partition_value_reference(stat) {
                guarded(plain)
            } else {
                plain
            }
        }
    }

    /// The rewrite of `col IS NULL`, or of its negation.
    pub open spec fn is_null(self, col: Path, inverted: bool) -> Option<PredV> {
        if self.partition.contains(col) {
            let value = ExprV::Column(partition_path(col));
            let plain = if inverted {
                PredV::is_not_null(value)
            } else {
                PredV::is_null(value)
            };
            Some(
                if self.checkpoint {
                    plain
                } else {
                    guarded(plain)
                },
            )
        } else {
            match self.nullcount_stat(col) {
                None => None,
                Some(nullcount) => if self.checkpoint {
                    if inverted {
                        None
                    } else {
                        Some(
                            PredV::or(
                                PredV::is_null(nullcount),
                                comparison(
                                    Comparison::Equal,
                                    nullcount,
                                    ScalarV::Long(0),
                                    true,
                                ),
                            ),
                        )
                    }
                } else {
                    let safe_to_skip = if inverted {
                        ExprV::Column(rowcount_path())
                    } else {
                        ExprV::Literal(ScalarV::Long(0))
                    };
                    Some(
                        PredV::not(
                            PredV::binary(BinaryPredicateOp::Equal, nullcount, safe_to_skip),
                        ),
                    )
                },
            }
        }
    }

    /// The rewrite of a comparison of a cast column with a literal, or of its negation.
    pub open spec fn cast(
        self,
        op: BinaryPredicateOp,
        col: Path,
        target: DataTypeV,
        val: ScalarV,
        inverted: bool,
    ) -> Option<PredV> {
        if self.checkpoint && self.partition.contains(col) {
            let value = ExprV::Cast(Box::new(ExprV::Column(partition_path(col))), target);
            match op {
                BinaryPredicateOp::LessThan => Some(
                    comparison(Comparison::Less, value, val, inverted),
                ),
                BinaryPredicateOp::Equal => Some(
                    comparison(Comparison::Equal, value, val, inverted),
                ),
                BinaryPredicateOp::GreaterThan => Some(
                    comparison(Comparison::Greater, value, val, inverted),
                ),
                _ => None,
            }
        } else {
            None
        }
    }

    /// The rewrite of an opaque predicate, or of its negation, given the rewrite of what it
    /// implies.
    pub open spec fn opaque(self, implied: Option<PredV>) -> Option<PredV> {
        if self.checkpoint {
            None
        } else {
            match implied {
                Some(p) => Some(guarded(p)),
                None => None,
            }
        }
    }
}

/// `NOT is_add OR p`: true of every row that is not an Add.
pub open spec fn guarded(p: PredV) -> PredV {
    PredV::or(PredV::not(PredV::column(seq!["is_add"@])), p)
}

/// Column metadata shared by the data-skipping predicate creators.
struct DataSkippingColumns<'a> {
    /// Physical names of partition columns (always single-segment: Delta partition columns are
    /// top-level). Stats for these come from `partitionValues_parsed.<col>` (exact values) instead
    /// of min/max ranges; each creator applies its own partition policy.
    physical_partition_columns: &'a ColumnSet,
    /// Physical leaf paths whose stats are present in `stats_parsed` (honors
    /// `delta.dataSkippingNumIndexedCols`, `delta.dataSkippingStatsColumns`, and required
    /// columns). Must match the column set used to build `physical_stats_schema`; otherwise the
    /// rewritten predicate references columns absent from the unified schema.
    physical_stats_columns: &'a ColumnSet,
}

impl<'a> DataSkippingColumns<'a> {
    /// The rules that apply to a single file with these columns.
    spec fn rules(self) -> SkippingRules {
        SkippingRules {
            partition: self.physical_partition_columns@,
            stats: self.physical_stats_columns@,
            floating: Set::empty(),
            checkpoint: false,
        }
    }

    fn is_partition_column(&self, col: &ColumnName) -> (is: bool)
        ensures
            is == self.physical_partition_columns@.contains(col@),
    {
        self.physical_partition_columns.contains(col)
    }

    fn is_stats_column(&self, col: &ColumnName) -> (is: bool)
        ensures
            is == self.physical_stats_columns@.contains(col@),
    {
        self.physical_stats_columns.contains(col)
    }

    /// Min stat for `col`: the exact `partitionValues_parsed.<col>` value for partition columns
    /// (it serves as both min and max), else `stats_parsed.minValues.<col>` (`None` when unindexed
    /// or not min/max-eligible).
    fn min_stat(&self, col: &ColumnName, data_type: &DataType) -> (stat: Option<Expression>)
        ensures
            option_view(stat) == self.rules().min_stat(col@, data_type@),
    {
        if self.is_partition_column(col) {
            Some(partition_value_expr(col))
        } else if self.is_stats_column(col) && has_min_max_stats(data_type) {
            Some(Expression::Column(ColumnName::nested("stats_parsed", "minValues").join(col)))
        } else {
            None
        }
    }

    /// Max stat for `col`: the exact `partitionValues_parsed.<col>` value for partition columns,
    /// else `stats_parsed.maxValues.<col>` (`None` when unindexed or not min/max-eligible).
    fn max_stat(&self, col: &ColumnName, data_type: &DataType) -> (stat: Option<Expression>)
        ensures
            option_view(stat) == self.rules().max_stat(col@, data_type@),
    {
        if self.is_partition_column(col) {
            Some(partition_value_expr(col))
        } else if self.is_stats_column(col) && has_min_max_stats(data_type) {
            Some(Expression::Column(ColumnName::nested("stats_parsed", "maxValues").join(col)))
        } else {
            None
        }
    }

    /// The comparison value for a max-stat check. Data-column max stats may be JSON-truncated, so
    /// the value is widened by [`adjust_scalar_for_max_stat_truncation`]; partition values are
    /// exact and pass through unchanged.
    fn max_stat_comparison_value(&self, col: &ColumnName, val: &Scalar) -> (value: Scalar)
        ensures
            value@ == self.rules().max_comparison_value(col@, val@),
    {
        if self.is_partition_column(col) {
            val.clone()
        } else {
            adjust_scalar_for_max_stat_truncation(val)
        }
    }

    /// Null count stat for `col`: `None` for partition columns (their values are exact, not
    /// aggregated) and for data columns outside the stats set, else `stats_parsed.nullCount.<col>`.
    fn nullcount_stat(&self, col: &ColumnName) -> (stat: Option<Expression>)
        ensures
            option_view(stat) == self.rules().nullcount_stat(col@),
    {
        if self.is_partition_column(col) {
            None
        } else if self.is_stats_column(col) {
            Some(Expression::Column(ColumnName::nested("stats_parsed", "nullCount").join(col)))
        } else {
            None
        }
    }

    fn rowcount_stat(&self) -> (stat: Expression)
        ensures
            stat@ == ExprV::Column(rowcount_path()),
    {
        Expression::nested("stats_parsed", "numRecords")
    }
}

/// Rewrites user predicates into stats-based predicates for data skipping.
///
/// For data columns, rewrites to `stats_parsed.minValues.*`/`stats_parsed.maxValues.*`/
/// `stats_parsed.nullCount.*`.
/// For partition columns, rewrites to `partitionValues_parsed.*` since the partition value is
/// the exact value for every row in the file (serving as both min and max).
struct DataSkippingPredicateCreator<'a> {
    data_skipping_columns: DataSkippingColumns<'a>,
}

impl<'a> DataSkippingPredicateCreator<'a> {
    fn new(
        physical_partition_columns: &'a ColumnSet,
        physical_stats_columns: &'a ColumnSet,
    ) -> (creator: Self)
        ensures
            creator.rules() == scan_rules(physical_partition_columns@, physical_stats_columns@),
    {
        Self {
            data_skipping_columns: DataSkippingColumns {
                physical_partition_columns,
                physical_stats_columns,
            },
        }
    }

    /// Wraps a predicate with `OR(NOT is_add, pred)` to protect Remove rows from being
    /// filtered. Used for partition predicates (Remove rows have null add-side partition
    /// values, which would incorrectly evaluate to false) and for opaque-predicate rewrites
    /// (op-computed verdicts bypass the null-stats folding). The `is_add` column ensures
    /// non-Add rows always pass the filter.
    fn guard_for_removes(&self, pred: Predicate) -> (p: Predicate)
        ensures
            p@ == guarded(pred@),
    {
        Predicate::or(Predicate::not(Predicate::column(ColumnName::top("is_add"))), pred)
    }
}

/// The rules for skipping single files.
pub open spec fn scan_rules(partition: Set<Path>, stats: Set<Path>) -> SkippingRules {
    SkippingRules { partition, stats, floating: Set::empty(), checkpoint: false }
}

/// The rules for skipping parts of checkpoints.
pub open spec fn checkpoint_rules(
    partition: Set<Path>,
    floating: Set<Path>,
    stats: Set<Path>,
) -> SkippingRules {
    SkippingRules { partition, stats, floating, checkpoint: true }
}

/// A literal predicate, where its value is known.
pub open spec fn literal_of(value: Option<bool>) -> Option<PredV> {
    match value {
        Some(b) => Some(PredV::literal(b)),
        None => None,
    }
}

/// A literal predicate, where its value is known.
pub fn literal_pred(value: Option<bool>) -> (pred: Option<Predicate>)
    ensures
        option_view(pred) == literal_of(value),
{
    match value {
        Some(b) => Some(Predicate::literal(b)),
        None => None,
    }
}

impl<'a> DataSkippingPredicateEvaluator for DataSkippingPredicateCreator<'a> {
    closed spec fn rules(&self) -> SkippingRules {
        self.data_skipping_columns.rules()
    }

    fn get_min_stat(&self, col: &ColumnName, data_type: &DataType) -> (stat: Option<Expression>) {
        self.data_skipping_columns.min_stat(col, data_type)
    }

    fn get_max_stat(&self, col: &ColumnName, data_type: &DataType) -> (stat: Option<Expression>) {
        self.data_skipping_columns.max_stat(col, data_type)
    }

    fn max_stat_comparison_value(&self, col: &ColumnName, val: &Scalar) -> (value: Scalar) {
        self.data_skipping_columns.max_stat_comparison_value(col, val)
    }

    /// For partition columns, wraps the comparison with `OR(NOT is_add, comparison)` so that
    /// Remove rows (which have null add-side partition values) are never filtered.
    fn eval_partial_cmp(
        &self,
        ord: Comparison,
        col: Expression,
        val: &Scalar,
        inverted: bool,
    ) -> (pred: Predicate) {
        // Partition columns are known by the prefix set in get_min_stat/get_max_stat.
        let is_partition = is_partition_value_reference(&col);
        let compared = comparison_predicate(ord, col, val, inverted);
        if is_partition {
            self.guard_for_removes(compared)
        } else {
            compared
        }
    }

    /// For partition columns, checks `partitionValues_parsed.<col> IS [NOT] NULL` directly,
    /// wrapped with `OR(NOT is_add, ...)` to protect Remove rows from being filtered.
    /// For data columns, uses nullCount stats.
    fn eval_pred_is_null(&self, col: &ColumnName, inverted: bool) -> (pred: Option<Predicate>) {
        if self.data_skipping_columns.is_partition_column(col) {
            let pv_expr = partition_value_expr(col);
            let pred = if inverted {
                Predicate::is_not_null(pv_expr)
            } else {
                Predicate::is_null(pv_expr)
            };
            Some(self.guard_for_removes(pred))
        } else {
            let safe_to_skip = if inverted {
                self.data_skipping_columns.rowcount_stat()  // all-null
            } else {
                Expression::Literal(Scalar::Long(0))  // no-null
            };
            match self.data_skipping_columns.nullcount_stat(col) {
                Some(nullcount) => Some(Predicate::ne(nullcount, safe_to_skip)),
                None => None,
            }
        }
    }

    fn eval_pred_cast(
        &self,
        op: BinaryPredicateOp,
        col: &ColumnName,
        target: &DataType,
        val: &Scalar,
        inverted: bool,
    ) -> (pred: Option<Predicate>) {
        None
    }

    /// Rewrites an opaque predicate via its own data-skipping rewrite, wrapped with
    /// `OR(NOT is_add, ...)`. Opaque rewrites may embed op-computed verdicts (e.g. an engine
    /// callback) that bypass the null-stats folding, so non-Add rows (Removes and other actions,
    /// which carry null stats) are guarded here -- dropping a Remove from log replay would
    /// resurrect a deleted file.
    fn eval_pred_opaque(&self, implied: Option<Predicate>) -> (pred: Option<Predicate>) {
        match implied {
            Some(p) => Some(self.guard_for_removes(p)),
            None => None,
        }
    }
}

/// Rewrites user predicates into predicates that skip row groups of checkpoints and sidecars.
struct CheckpointDataSkippingPredicateCreator<'a> {
    data_skipping_columns: DataSkippingColumns<'a>,
    physical_floating_partition_columns: &'a ColumnSet,
}

impl<'a> CheckpointDataSkippingPredicateCreator<'a> {
    fn partition_min_max_may_omit_values(&self, col: &ColumnName) -> (may: bool)
        ensures
            may == self.physical_floating_partition_columns@.contains(col@),
    {
        self.physical_floating_partition_columns.contains(col)
    }
}

impl<'a> DataSkippingPredicateEvaluator for CheckpointDataSkippingPredicateCreator<'a> {
    closed spec fn rules(&self) -> SkippingRules {
        checkpoint_rules(
            self.data_skipping_columns.physical_partition_columns@,
            self.physical_floating_partition_columns@,
            self.data_skipping_columns.physical_stats_columns@,
        )
    }

    fn get_min_stat(&self, col: &ColumnName, data_type: &DataType) -> (stat: Option<Expression>) {
        // Parquet footer min/max exclude NaNs, so they cannot bound every floating partition value.
        if self.partition_min_max_may_omit_values(col) {
            return None;
        }
        self.data_skipping_columns.min_stat(col, data_type)
    }

    fn get_max_stat(&self, col: &ColumnName, data_type: &DataType) -> (stat: Option<Expression>) {
        if self.partition_min_max_may_omit_values(col) {
            return None;
        }
        self.data_skipping_columns.max_stat(col, data_type)
    }

    fn max_stat_comparison_value(&self, col: &ColumnName, val: &Scalar) -> (value: Scalar) {
        self.data_skipping_columns.max_stat_comparison_value(col, val)
    }

    /// Wraps a data-stat comparison with an IS NULL guard, so a missing stat keeps the row group.
    /// `col > 100` becomes
    /// `OR(stats_parsed.maxValues.col IS NULL, stats_parsed.maxValues.col > 100)`.
    /// Partition comparisons reference the typed per-Add value without a null guard. The parquet
    /// filter evaluates that column through row-group footer bounds; null-only groups remain
    /// unknown while mixed groups may be pruned from their non-null bounds.
    fn eval_partial_cmp(
        &self,
        ord: Comparison,
        col: Expression,
        val: &Scalar,
        inverted: bool,
    ) -> (pred: Predicate) {
        if is_partition_value_reference(&col) {
            comparison_predicate(ord, col, val, inverted)
        } else {
            let compared = comparison_predicate(ord, col.clone(), val, inverted);
            Predicate::or(Predicate::is_null(col), compared)
        }
    }

    /// Partition NULL checks use the exact parsed value. Data `IS NULL` uses a guarded null count;
    /// data `IS NOT NULL` remains unsupported because row-group filtering cannot compare it with
    /// `numRecords`.
    fn eval_pred_is_null(&self, col: &ColumnName, inverted: bool) -> (pred: Option<Predicate>) {
        if self.data_skipping_columns.is_partition_column(col) {
            let partition_value = partition_value_expr(col);
            return Some(
                if inverted {
                    Predicate::is_not_null(partition_value)
                } else {
                    Predicate::is_null(partition_value)
                },
            );
        }
        if inverted {
            return None;  // IS NOT NULL: column vs column, cannot prune
        }
        match self.data_skipping_columns.nullcount_stat(col) {
            Some(nullcount) => {
                let compared = Predicate::ne(
                    nullcount.clone(),
                    Expression::Literal(Scalar::Long(0)),
                );
                Some(Predicate::or(Predicate::is_null(nullcount), compared))
            },
            None => None,
        }
    }

    /// Rewrites casts over exact per-Add partition values.
    fn eval_pred_cast(
        &self,
        op: BinaryPredicateOp,
        col: &ColumnName,
        target: &DataType,
        val: &Scalar,
        inverted: bool,
    ) -> (pred: Option<Predicate>) {
        if !self.data_skipping_columns.is_partition_column(col) {
            return None;
        }
        let ord = match op {
            BinaryPredicateOp::LessThan => Comparison::Less,
            BinaryPredicateOp::Equal => Comparison::Equal,
            BinaryPredicateOp::GreaterThan => Comparison::Greater,
            BinaryPredicateOp::Distinct | BinaryPredicateOp::In => return None,
        };
        let value: ExpressionRef = Arc::new(partition_value_expr(col));
        let cast = Expression::Cast(value, target.clone());
        Some(comparison_predicate(ord, cast, val, inverted))
    }

    /// Unsupported. Opaque predicates can construct data-stat references directly, bypassing IS
    /// NULL guards and risking false pruning when a live Add has missing stats. Returns `None` to
    /// conservatively drop these from the skipping predicate.
    fn eval_pred_opaque(&self, implied: Option<Predicate>) -> (pred: Option<Predicate>) {
        None
    }
}

/// Rewrites a predicate to one over per-file statistics that is FALSE only for files that cannot
/// hold a row which the predicate, read as a filter, keeps. Only references to columns in
/// `stats_columns` are rewritten to statistics; others are unknown, which inside a junction is
/// written as NULL. `None` when nothing can be said of the predicate.
pub fn as_sql_data_skipping_predicate_with_stats_columns(
    pred: &Predicate,
    partition_columns: &ColumnSet,
    stats_columns: &ColumnSet,
) -> (skipping: Option<Predicate>)
    ensures
        option_view(skipping) == rewrite_sql_where(
            scan_rules(partition_columns@, stats_columns@),
            pred@,
            false,
        ),
{
    eval_sql_where(&DataSkippingPredicateCreator::new(partition_columns, stats_columns), pred)
}

/// Like [`as_sql_data_skipping_predicate_with_stats_columns`], without counting a comparison
/// with NULL as FALSE.
pub fn as_data_skipping_predicate_with_stats_columns(
    pred: &Predicate,
    partition_columns: &ColumnSet,
    stats_columns: &ColumnSet,
) -> (skipping: Option<Predicate>)
    ensures
        option_view(skipping) == rewrite_pred(
            scan_rules(partition_columns@, stats_columns@),
            pred@,
            false,
        ),
{
    eval(&DataSkippingPredicateCreator::new(partition_columns, stats_columns), pred)
}

/// Rewrites `pred` for scan checkpoint and sidecar Add row-group skipping. Data references become
/// IS NULL guarded `stats_parsed.{minValues,maxValues,nullCount}.<col>` comparisons; eligible
/// partition references become exact, unguarded `partitionValues_parsed.<col>` values. Checkpoint
/// Removes are irrelevant to scan replay, so partition predicates may prune their null add-side
/// values. A bare unsupported predicate returns `None`; unsupported junction arms become NULL
/// literals to preserve three-valued logic.
///
/// `physical_partition_columns` may be narrowed to the predicate's references; pass an empty set
/// for unpartitioned tables. `physical_floating_partition_columns` identifies FLOAT and DOUBLE
/// partitions whose parquet min/max may omit NaNs. `physical_stats_columns` is the table-level
/// stats membership set; references outside it fold to NULL (keeping the file).
pub fn as_checkpoint_skipping_predicate(
    pred: &Predicate,
    physical_partition_columns: &ColumnSet,
    physical_floating_partition_columns: &ColumnSet,
    physical_stats_columns: &ColumnSet,
) -> (skipping: Option<Predicate>)
    ensures
        option_view(skipping) == rewrite_pred(
            checkpoint_rules(
                physical_partition_columns@,
                physical_floating_partition_columns@,
                physical_stats_columns@,
            ),
            pred@,
            false,
        ),
{
    let creator = CheckpointDataSkippingPredicateCreator {
        data_skipping_columns: DataSkippingColumns {
            physical_partition_columns,
            physical_stats_columns,
        },
        physical_floating_partition_columns,
    };
    eval(&creator, pred)
}

// ---------------------------------------------------------------------------------------------
// The filter
// ---------------------------------------------------------------------------------------------

/// Whether a predicate may be decided from the value of a partition column of this type.
/// Intervals are ordered, but interval data skipping is not supported.
pub open spec fn partition_eligible(t: DataTypeV) -> bool {
    match t {
        DataTypeV::Primitive(p) => skipping_eligible(p) || p == PrimitiveType::Boolean || p
            == PrimitiveType::Binary,
        _ => false,
    }
}

fn is_partition_eligible(t: &DataType) -> (eligible: bool)
    ensures
        eligible == partition_eligible(t@),
{
    match t {
        DataType::Primitive(p) => is_skipping_eligible_datatype(p) || matches!(
            p,
            PrimitiveType::Boolean | PrimitiveType::Binary
        ),
        _ => false,
    }
}

/// The partition columns that take part in data skipping.
pub open spec fn eligible_partition_columns(schema: Option<SchemaV>) -> Set<Path> {
    match schema {
        Some(fields) => Set::new(
            |path: Path|
                exists|i: int|
                    0 <= i < fields.len() && partition_eligible(
                        (#[trigger] fields[i]).data_type,
                    ) && path == seq![fields[i].name],
        ),
        None => Set::empty(),
    }
}

/// The schema over which the rewritten predicate is evaluated: file statistics and partition
/// values, as far as there are any, and whether the row is an Add.
pub open spec fn unified_schema(stats: Option<SchemaV>, partition: Option<SchemaV>) -> SchemaV {
    (match stats {
        Some(s) => seq![FieldV::nullable("stats_parsed"@, DataTypeV::Struct(s))],
        None => seq![],
    }) + (match partition {
        Some(p) => seq![FieldV::nullable("partitionValues_parsed"@, DataTypeV::Struct(p))],
        None => seq![],
    }) + seq![
        FieldV::not_null("is_add"@, DataTypeV::Primitive(PrimitiveType::Boolean)),
    ]
}

/// The expressions that fill [`unified_schema`], field by field.
pub open spec fn unified_exprs(
    stats: Option<ExprV>,
    partition: Option<ExprV>,
    is_add: ExprV,
) -> Seq<ExprV> {
    (match stats {
        Some(e) => seq![e],
        None => seq![],
    }) + (match partition {
        Some(e) => seq![e],
        None => seq![],
    }) + seq![is_add]
}

/// What a filter is prepared from: the schema and the expression of the values that it reads, and
/// the rewritten predicate over them.
pub struct SkippingPlan {
    pub schema: SchemaV,
    pub expr: ExprV,
    pub skipping: PredV,
}

/// `e` where there is a schema for it.
pub open spec fn expr_for(schema: Option<SchemaV>, e: ExprV) -> Option<ExprV> {
    match schema {
        Some(_) => Some(e),
        None => None,
    }
}

/// The plan for a predicate; `None` when there is no predicate, nothing to evaluate it on, or no
/// rewrite.
pub open spec fn skipping_plan(
    predicate: Option<PredV>,
    stats_schema: Option<SchemaV>,
    stats_expr: ExprV,
    partition_schema: Option<SchemaV>,
    partition_expr: ExprV,
    is_add_expr: ExprV,
    stats_columns: Set<Path>,
) -> Option<SkippingPlan> {
    match predicate {
        None => None,
        Some(p) => if stats_schema is None && partition_schema is None {
            None
        } else {
            match rewrite_sql_where(
                scan_rules(eligible_partition_columns(partition_schema), stats_columns),
                p,
                false,
            ) {
                None => None,
                Some(skipping) => Some(
                    SkippingPlan {
                        schema: unified_schema(stats_schema, partition_schema),
                        expr: ExprV::struct_from(
                            unified_exprs(
                                expr_for(stats_schema, stats_expr),
                                expr_for(partition_schema, partition_expr),
                                is_add_expr,
                            ),
                        ),
                        skipping,
                    },
                ),
            }
        },
    }
}

/// The predicate that turns the outcome of the rewritten predicate into a selection: everything
/// but FALSE is kept.
pub open spec fn filter_pred() -> PredV {
    PredV::binary(
        BinaryPredicateOp::Distinct,
        ExprV::Column(seq!["output"@]),
        ExprV::Literal(ScalarV::Boolean(false)),
    )
}

/// The schema of the outcome of a predicate.
pub open spec fn filter_schema() -> SchemaV {
    seq![FieldV::nullable("output"@, DataTypeV::Primitive(PrimitiveType::Boolean))]
}

/// Drops files whose statistics show that no row can pass a predicate.
pub struct DataSkippingFilter<E: Engine> {
    /// Extracts the values that the rewritten predicate reads from the input batch. The caller
    /// provides the expression at construction time, which determines where stats come from:
    /// - Scan path: `stats_parsed` reads the already-parsed struct from a transformed batch (where
    ///   `add.*` fields are flattened to top-level columns).
    /// - Table changes path: parses JSON from a raw action batch (where stats are nested under
    ///   `add.stats`).
    pub stats_evaluator: E::ExpressionEvaluator,
    pub skipping_evaluator: E::PredicateEvaluator,
    pub filter_evaluator: E::PredicateEvaluator,
    /// Whether to record data skipping statistics.
    pub records_metrics: bool,
}

/// Whether the engine, asked to prepare `expr` over `input` for `output`, gave `r`.
pub open spec fn expression_prepared<E: Engine>(
    engine: &E,
    input: SchemaV,
    expr: ExprV,
    output: SchemaV,
    r: DeltaResult<E::ExpressionEvaluator>,
) -> bool {
    exists|i: SchemaRef, e: ExpressionRef, o: SchemaRef|
        i@ == input && e@ == expr && o@ == output && #[trigger] call_ensures(
            E::new_expression_evaluator,
            (engine, i, e, o),
            r,
        )
}

/// Whether the engine, asked to prepare `pred` over `input`, gave `r`.
pub open spec fn predicate_prepared<E: Engine>(
    engine: &E,
    input: SchemaV,
    pred: PredV,
    r: DeltaResult<E::PredicateEvaluator>,
) -> bool {
    exists|i: SchemaRef, p: PredicateRef|
        i@ == input && p@ == pred && #[trigger] call_ensures(
            E::new_predicate_evaluator,
            (engine, i, p),
            r,
        )
}

/// Whether `filter` is what the engine makes of a plan: with all three evaluators prepared the
/// filter holds them, and without one of them there is no filter.
pub open spec fn filter_from_plan<E: Engine>(
    engine: &E,
    input: SchemaV,
    plan: Option<SkippingPlan>,
    filter: Option<DataSkippingFilter<E>>,
) -> bool {
    match (plan, filter) {
        (None, f) => f is None,
        (Some(plan), Some(f)) => {
            &&& expression_prepared(engine, input, plan.expr, plan.schema, Ok(f.stats_evaluator))
            &&& predicate_prepared(engine, plan.schema, plan.skipping, Ok(f.skipping_evaluator))
            &&& predicate_prepared(engine, filter_schema(), filter_pred(), Ok(f.filter_evaluator))
        },
        (Some(plan), None) => {
            ||| exists|e: Error|
                #[trigger] expression_prepared(engine, input, plan.expr, plan.schema, Err(e))
            ||| exists|e: Error|
                #[trigger] predicate_prepared(engine, plan.schema, plan.skipping, Err(e))
            ||| exists|e: Error|
                #[trigger] predicate_prepared(engine, filter_schema(), filter_pred(), Err(e))
        },
    }
}

impl<E: Engine> DataSkippingFilter<E> {
    /// Creates a new data skipping filter. Returns `None` if there is no predicate, the predicate
    /// is ineligible for data skipping, or the engine cannot evaluate it.
    ///
    /// NOTE: `None` is equivalent to a trivial filter that always returns TRUE (= keeps all files),
    /// but using an `Option` lets the engine easily avoid the overhead of applying trivial filters.
    ///
    /// # Parameters
    /// - `engine`: Engine for creating evaluators
    /// - `predicate`: Optional predicate for data skipping
    /// - `stats_schema`: The data stats schema (numRecords, nullCount, minValues, maxValues). Pass
    ///   `None` if no data stats are available.
    /// - `stats_expr`: Expression to extract data stats from the batch, producing output matching
    ///   `stats_schema`.
    /// - `partition_schema`: Schema of typed partition columns referenced by the predicate
    ///   (physical names). Pass `None` if no partition columns are referenced.
    /// - `partition_expr`: Expression to extract partition values from the batch, producing output
    ///   matching `partition_schema`. Only used when `partition_schema` is `Some`.
    /// - `is_add_expr`: Boolean expression that is true for Add rows and false for Remove and other
    ///   non-file rows (e.g. `path IS NOT NULL` against a transformed batch, or `add.path IS NOT
    ///   NULL` against a raw action batch). Used to guard partition predicates and opaque-predicate
    ///   rewrites so non-Add rows are never filtered out.
    /// - `input_schema`: Schema of the batch that will be passed to [`apply()`](Self::apply)
    /// - `stats_columns`: Physical leaf paths whose stats are in `stats_schema`. References to
    ///   other data columns fold to NULL (keeping the file). Must line up with `stats_schema` --
    ///   otherwise the rewritten predicate references columns the unified schema doesn't have and
    ///   evaluator construction fails.
    /// - `records_metrics`: Whether applying the filter records data skipping statistics.
    pub fn new(
        engine: &E,
        predicate: Option<PredicateRef>,
        stats_schema: Option<&SchemaRef>,
        stats_expr: ExpressionRef,
        partition_schema: Option<&SchemaRef>,
        partition_expr: ExpressionRef,
        is_add_expr: ExpressionRef,
        input_schema: SchemaRef,
        stats_columns: &ColumnSet,
        records_metrics: bool,
    ) -> (filter: Option<Self>)
        ensures
            filter_from_plan(
                engine,
                input_schema@,
                skipping_plan(
                    opt_arc_view(predicate),
                    opt_ref_view(stats_schema),
                    stats_expr@,
                    opt_ref_view(partition_schema),
                    partition_expr@,
                    is_add_expr@,
                    stats_columns@,
                ),
                filter,
            ),
            filter matches Some(f) ==> f.records_metrics == records_metrics,
    {
        let predicate = match predicate {
            Some(p) => p,
            None => return None,
        };
        // Build the unified evaluation schema and extraction expression. Data stats and partition
        // values are conceptually separate, but the evaluator needs a single schema/expression.
        let (unified_schema, unified_expr, partition_columns) = match build_unified_schema_and_expr(
            stats_schema,
            stats_expr,
            partition_schema,
            partition_expr,
            is_add_expr,
        ) {
            Some(unified) => unified,
            None => return None,
        };

        // Skipping happens in several steps:
        //
        // 1. The stats evaluator extracts file-level statistics from the batch (the expression
        //    provided by the caller determines how: reading a pre-parsed column, parsing JSON,
        //    etc.)
        //
        // 2. The predicate (skipping evaluator) produces false for any file whose stats prove it
        //    can safely be skipped. A value of true means the stats say the file must be kept, and
        //    null means that could not be determined, because its stats were missing/null.
        //
        // 3. The selection evaluator does DISTINCT(col(predicate), 'false') to produce true (=
        //    keep) when the predicate is true/null and false (= skip) when the predicate is false.
        let skipping = match as_sql_data_skipping_predicate_with_stats_columns(
            &predicate,
            &partition_columns,
            stats_columns,
        ) {
            Some(p) => Arc::new(p),
            None => return None,
        };
        let ghost plan = SkippingPlan {
            schema: unified_schema@,
            expr: unified_expr@,
            skipping: skipping@,
        };
        let stats_evaluator = match engine.new_expression_evaluator(
            input_schema,
            unified_expr,
            unified_schema.clone(),
        ) {
            Ok(evaluator) => evaluator,
            Err(e) => {
                assert(expression_prepared(engine, input_schema@, plan.expr, plan.schema, Err(e)));
                return None;
            },
        };
        let skipping_evaluator = match engine.new_predicate_evaluator(
            unified_schema.clone(),
            skipping,
        ) {
            Ok(evaluator) => evaluator,
            Err(e) => {
                assert(predicate_prepared(engine, plan.schema, plan.skipping, Err(e)));
                return None;
            },
        };
        // The filter evaluator operates on the skipping evaluator's output, which is a single
        // boolean column named "output" (not the unified stats schema).
        let output = StructField::nullable("output", DataType::Primitive(PrimitiveType::Boolean));
        let filter_schema_ref: SchemaRef = Arc::new(StructType::new(vec![output]));
        assert(filter_schema_ref@ =~= filter_schema());
        let filter_pred_ref: PredicateRef = Arc::new(
            Predicate::distinct(
                Expression::top("output"),
                Expression::Literal(Scalar::Boolean(false)),
            ),
        );
        let filter_evaluator = match engine.new_predicate_evaluator(
            filter_schema_ref,
            filter_pred_ref,
        ) {
            Ok(evaluator) => evaluator,
            Err(e) => {
                assert(predicate_prepared(engine, filter_schema(), filter_pred(), Err(e)));
                return None;
            },
        };
        Some(Self { stats_evaluator, skipping_evaluator, filter_evaluator, records_metrics })
    }
}

/// What an optional shared value is.
pub open spec fn opt_arc_view(p: Option<PredicateRef>) -> Option<PredV> {
    match p {
        Some(p) => Some(p@),
        None => None,
    }
}

/// What an optional schema refers to.
pub open spec fn opt_ref_view(s: Option<&SchemaRef>) -> Option<SchemaV> {
    match s {
        Some(s) => Some(s@),
        None => None,
    }
}

/// Builds the unified schema and extraction expression from separate data stats and partition
/// value inputs. Returns `None` if neither stats nor partition values are available.
///
/// The caller provides a flat stats schema (e.g. `{ numRecords, minValues: { x } }`) and an
/// expression to extract it from the input batch. This function wraps both under a
/// `stats_parsed` struct field, producing a nested schema like
/// `{ stats_parsed: { numRecords, minValues: { x } } }` and a corresponding
/// `struct_from([stats_expr])` extraction expression. This ensures the unified schema aligns
/// with the `stats_parsed.*` prefixed column references emitted by
/// `DataSkippingPredicateCreator`. Partition values are similarly wrapped under
/// `partitionValues_parsed` when present.
pub fn build_unified_schema_and_expr(
    physical_stats_schema: Option<&SchemaRef>,
    stats_expr: ExpressionRef,
    physical_partition_schema: Option<&SchemaRef>,
    partition_expr: ExpressionRef,
    is_add_expr: ExpressionRef,
) -> (unified: Option<(SchemaRef, ExpressionRef, ColumnSet)>)
    ensures
        match unified {
            None => physical_stats_schema is None && physical_partition_schema is None,
            Some((schema, expr, partition_columns)) => {
                &&& physical_stats_schema is Some || physical_partition_schema is Some
                &&& schema@ == unified_schema(
                    opt_ref_view(physical_stats_schema),
                    opt_ref_view(physical_partition_schema),
                )
                &&& expr@ == ExprV::struct_from(
                    unified_exprs(
                        expr_for(opt_ref_view(physical_stats_schema), stats_expr@),
                        expr_for(opt_ref_view(physical_partition_schema), partition_expr@),
                        is_add_expr@,
                    ),
                )
                &&& partition_columns@ == eligible_partition_columns(
                    opt_ref_view(physical_partition_schema),
                )
            },
        },
{
    if physical_stats_schema.is_none() && physical_partition_schema.is_none() {
        return None;
    }
    let mut partition_columns = ColumnSet::new();
    let mut fields: Vec<StructField> = Vec::new();
    let mut exprs: Vec<ExpressionRef> = Vec::new();
    if let Some(stats) = physical_stats_schema {
        let stats_type: StructType = (&**stats).clone();
        fields.push(StructField::nullable("stats_parsed", DataType::Struct(Box::new(stats_type))));
        exprs.push(stats_expr);
    }
    let ghost stats_fields = fields_view(fields@);
    let ghost stats_exprs = exprs_view(exprs);
    assert(stats_fields =~= (match opt_ref_view(physical_stats_schema) {
        Some(s) => seq![FieldV::nullable("stats_parsed"@, DataTypeV::Struct(s))],
        None => seq![],
    }));
    assert(stats_exprs =~= (match expr_for(opt_ref_view(physical_stats_schema), stats_expr@) {
        Some(e) => seq![e],
        None => seq![],
    }));
    if let Some(partition) = physical_partition_schema {
        for i in 0..partition.fields.len()
            invariant
                forall|path: Path| #[trigger]
                    partition_columns@.contains(path) <==> exists|j: int|
                        0 <= j < i && partition_eligible((#[trigger] partition@[j]).data_type)
                            && path == seq![partition@[j].name],
        {
            let field = &partition.fields[i];
            assert(field@ == partition@[i as int]);
            let ghost before = partition_columns@;
            if is_partition_eligible(&field.data_type) {
                partition_columns.insert(ColumnName::top(field.name.as_str()));
                assert forall|path: Path| #[trigger] partition_columns@.contains(path) implies exists|
                    j: int,
                |
                    0 <= j < i + 1 && partition_eligible((#[trigger] partition@[j]).data_type)
                        && path == seq![partition@[j].name] by {
                    if before.contains(path) {
                        let j = choose|j: int|
                            0 <= j < i && partition_eligible((#[trigger] partition@[j]).data_type)
                                && path == seq![partition@[j].name];
                        assert(partition_eligible(partition@[j].data_type));
                    } else {
                        assert(path == seq![partition@[i as int].name]);
                    }
                }
            }
        }
        assert(partition_columns@ =~= eligible_partition_columns(Some(partition@)));
        let partition_type: StructType = (&**partition).clone();
        fields.push(
            StructField::nullable(
                "partitionValues_parsed",
                DataType::Struct(Box::new(partition_type)),
            ),
        );
        exprs.push(partition_expr);
    }
    // Always add an `is_add` boolean (extracted by the caller-provided `is_add_expr`, true for
    // Add rows and false for Remove/non-file rows) so that predicates can guard against filtering
    // Remove rows: partition predicates and opaque-predicate rewrites are wrapped with
    // `OR(NOT is_add, ...)` (see `guard_for_removes`).
    fields.push(StructField::not_null("is_add", DataType::Primitive(PrimitiveType::Boolean)));
    exprs.push(is_add_expr);
    assert(fields_view(fields@) =~= unified_schema(
        opt_ref_view(physical_stats_schema),
        opt_ref_view(physical_partition_schema),
    ));
    assert(exprs_view(exprs) =~= unified_exprs(
        expr_for(opt_ref_view(physical_stats_schema), stats_expr@),
        expr_for(opt_ref_view(physical_partition_schema), partition_expr@),
        is_add_expr@,
    ));
    let schema: SchemaRef = Arc::new(StructType::new(fields));
    let expr: ExpressionRef = Arc::new(Expression::struct_from(exprs));
    Some((schema, expr, partition_columns))
}

/// The selection that a boolean column makes of the first `n` rows; the error of the first row
/// that has no truth value otherwise.
pub open spec fn selection_of(column: Column, n: nat) -> Result<Seq<bool>, ErrorV>
    decreases n,
{
    if n == 0 {
        Ok(seq![])
    } else {
        match selection_of(column, (n - 1) as nat) {
            Err(e) => Err(e),
            Ok(before) => match column.bool_at(n - 1, "selectionvector.output"@) {
                Ok(b) => Ok(before.push(b)),
                Err(e) => Err(e),
            },
        }
    }
}

/// How many rows a selection drops.
pub open spec fn dropped(selection: Seq<bool>) -> nat
    decreases selection.len(),
{
    if selection.len() == 0 {
        0
    } else {
        dropped(selection.drop_last()) + if selection.last() {
            0nat
        } else {
            1nat
        }
    }
}

/// Reads the selection off a boolean column, with the number of rows that it drops.
pub fn read_selection(column: &Column, row_count: usize) -> (r: DeltaResult<(Vec<bool>, u64)>)
    ensures
        match r {
            Ok((selection, num_filtered)) => selection_of(*column, row_count as nat) == Ok::<
                _,
                ErrorV,
            >(selection@) && selection@.len() == row_count && num_filtered == dropped(selection@),
            Err(e) => selection_of(*column, row_count as nat) == Err::<Seq<bool>, _>(e@),
        },
{
    let mut selection: Vec<bool> = Vec::new();
    let mut num_filtered: u64 = 0;
    for row in 0..row_count
        invariant
            selection_of(*column, row as nat) == Ok::<_, ErrorV>(selection@),
            selection@.len() == row,
            num_filtered == dropped(selection@),
            num_filtered <= row,
    {
        match column.get_bool(row, "selectionvector.output") {
            Ok(b) => {
                let ghost before = selection@;
                selection.push(b);
                assert(selection@.drop_last() =~= before);
                if !b {
                    num_filtered += 1;
                }
                assert(selection_of(*column, (row + 1) as nat) == Ok::<_, ErrorV>(selection@));
            },
            Err(e) => {
                assert(selection_of(*column, (row + 1) as nat) == Err::<Seq<bool>, _>(e@));
                proof {
                    lemma_selection_error(*column, (row + 1) as nat, row_count as nat);
                }
                return Err(e);
            },
        }
    }
    Ok((selection, num_filtered))
}

proof fn lemma_selection_error(column: Column, n: nat, m: nat)
    requires
        selection_of(column, n) is Err,
        n <= m,
    ensures
        selection_of(column, m) == selection_of(column, n),
    decreases m,
{
    if n < m {
        lemma_selection_error(column, n, (m - 1) as nat);
    }
}

// The steps of applying a filter, each with what it does on every outcome of the engine's call.

/// The last step: reading the selection off the filter's output.
pub open spec fn selection_outcome<E: Engine>(
    engine: &E,
    n: usize,
    output: &E::Batch,
    r: DeltaResult<Vec<bool>>,
) -> bool {
    exists|columns: DeltaResult<Vec<Column>>| #[trigger]
        selection_read(engine, output, columns) && match columns {
            Err(e) => r == Err::<Vec<bool>, _>(e),
            Ok(columns) => if columns@.len() != 1 {
                r is Err && r->Err_0@ == wrong_selection_columns(columns@.len())
            } else {
                match selection_of(columns@[0], n as nat) {
                    Ok(selection) => r is Ok && r->Ok_0@ == selection,
                    Err(e) => r is Err && r->Err_0@ == e,
                }
            },
        }
}

/// Whether the engine, asked for the column `output`, gave `columns`.
pub open spec fn selection_read<E: Engine>(
    engine: &E,
    output: &E::Batch,
    columns: DeltaResult<Vec<Column>>,
) -> bool {
    exists|names: Vec<ColumnName>, types: Vec<DataType>|
        names@.len() == 1 && names@[0]@ == seq!["output"@] && types@.len() == 1 && types@[0]@
            == DataTypeV::Primitive(PrimitiveType::Boolean) && #[trigger] call_ensures(
            E::read_columns,
            (engine, output, &names, &types),
            columns,
        )
}

pub open spec fn wrong_selection_columns(n: nat) -> ErrorV {
    ErrorV::InternalError("Wrong number of SelectionVectorVisitor getters: "@ + decimal(n))
}

/// Evaluating a predicate on `input`, with a check that it keeps the number of rows.
pub open spec fn predicate_step<E: Engine>(
    engine: &E,
    evaluator: &E::PredicateEvaluator,
    input: &E::Batch,
    n: usize,
    what: Seq<char>,
    output: DeltaResult<E::Batch>,
) -> bool {
    exists|evaluated: DeltaResult<E::Batch>| #[trigger]
        call_ensures(E::evaluate_predicate, (engine, evaluator, input), evaluated)
            && length_checked(engine, evaluated, n, what, "batch"@, output)
}

/// `output` is `evaluated` if that has `n` rows, and an error otherwise.
pub open spec fn length_checked<E: Engine>(
    engine: &E,
    evaluated: DeltaResult<E::Batch>,
    n: usize,
    what: Seq<char>,
    against: Seq<char>,
    output: DeltaResult<E::Batch>,
) -> bool {
    match evaluated {
        Err(e) => output == Err::<E::Batch, _>(e),
        Ok(batch) => exists|len: usize| #[trigger]
            call_ensures(E::batch_len, (engine, &batch), len) && if len == n {
                output == Ok::<_, Error>(batch)
            } else {
                output is Err && output->Err_0@ == length_mismatch(
                    what,
                    len as nat,
                    against,
                    n as nat,
                )
            },
    }
}

/// Evaluating an expression on `input`, with a check that it keeps the number of rows.
pub open spec fn expression_step<E: Engine>(
    engine: &E,
    evaluator: &E::ExpressionEvaluator,
    input: &E::Batch,
    n: usize,
    what: Seq<char>,
    against: Seq<char>,
    output: DeltaResult<E::Batch>,
) -> bool {
    exists|evaluated: DeltaResult<E::Batch>| #[trigger]
        call_ensures(E::evaluate_expression, (engine, evaluator, input), evaluated)
            && length_checked(engine, evaluated, n, what, against, output)
}

impl<E: Engine> DataSkippingFilter<E> {
    /// The filter step: turning the predicate's outcome into a selection.
    pub open spec fn filter_outcome(
        self,
        engine: &E,
        n: usize,
        skipping: &E::Batch,
        r: DeltaResult<Vec<bool>>,
    ) -> bool {
        exists|output: DeltaResult<E::Batch>| #[trigger]
            predicate_step(
                engine,
                &self.filter_evaluator,
                skipping,
                n,
                "filter evaluator output"@,
                output,
            ) && match output {
                Err(e) => r == Err::<Vec<bool>, _>(e),
                Ok(output) => selection_outcome(engine, n, &output, r),
            }
    }

    /// The skipping step: evaluating the rewritten predicate on the statistics.
    pub open spec fn skipping_outcome(
        self,
        engine: &E,
        n: usize,
        file_stats: &E::Batch,
        r: DeltaResult<Vec<bool>>,
    ) -> bool {
        exists|skipping: DeltaResult<E::Batch>| #[trigger]
            predicate_step(
                engine,
                &self.skipping_evaluator,
                file_stats,
                n,
                "skipping evaluator output"@,
                skipping,
            ) && match skipping {
                Err(e) => r == Err::<Vec<bool>, _>(e),
                Ok(skipping) => self.filter_outcome(engine, n, &skipping, r),
            }
    }

    /// What applying the filter to a batch of `n` rows gives, for every outcome of the engine's
    /// calls: the first error, an error when a step does not keep the number of rows, and the
    /// selection that the filter evaluator computed otherwise.
    pub open spec fn outcome(
        self,
        engine: &E,
        batch: &E::Batch,
        n: usize,
        r: DeltaResult<Vec<bool>>,
    ) -> bool {
        exists|file_stats: DeltaResult<E::Batch>| #[trigger]
            expression_step(
                engine,
                &self.stats_evaluator,
                batch,
                n,
                "stats evaluator output"@,
                "batch"@,
                file_stats,
            ) && match file_stats {
                Err(e) => r == Err::<Vec<bool>, _>(e),
                Ok(file_stats) => self.skipping_outcome(engine, n, &file_stats, r),
            }
    }

    /// Apply the DataSkippingFilter to a batch. Returns a selection vector which can be applied
    /// to the batch to find rows that passed data skipping.
    pub fn apply(&self, engine: &E, batch: &E::Batch, metrics: &mut ScanMetrics) -> (r: DeltaResult<
        Vec<bool>,
    >)
        ensures
            exists|n: usize| #[trigger]
                call_ensures(E::batch_len, (engine, batch), n) && self.outcome(engine, batch, n, r)
                    && (r is Ok ==> r->Ok_0@.len() == n),
            match r {
                Ok(selection) => if self.records_metrics {
                    final(metrics).same_counts(
                        old(metrics).with_predicate_filtered(dropped(selection@) as u64),
                    )
                } else {
                    *final(metrics) == *old(metrics)
                },
                Err(_) => *final(metrics) == *old(metrics),
            },
    {
        let start_time = Instant::now();
        let batch_len = engine.batch_len(batch);

        let file_stats = match evaluate_checked(
            engine,
            &self.stats_evaluator,
            batch,
            batch_len,
            "stats evaluator output",
            "batch",
        ) {
            Ok(file_stats) => file_stats,
            Err(e) => {
                return Err(e);
            },
        };
        let skipping_predicate = match evaluate_predicate_checked(
            engine,
            &self.skipping_evaluator,
            &file_stats,
            batch_len,
            "skipping evaluator output",
        ) {
            Ok(skipping_predicate) => skipping_predicate,
            Err(e) => {
                assert(self.skipping_outcome(engine, batch_len, &file_stats, Err(e)));
                return Err(e);
            },
        };
        let selection_vector = match evaluate_predicate_checked(
            engine,
            &self.filter_evaluator,
            &skipping_predicate,
            batch_len,
            "filter evaluator output",
        ) {
            Ok(selection_vector) => selection_vector,
            Err(e) => {
                assert(self.filter_outcome(engine, batch_len, &skipping_predicate, Err(e)));
                assert(self.skipping_outcome(engine, batch_len, &file_stats, Err(e)));
                return Err(e);
            },
        };

        let r = visit_selection(engine, &selection_vector, batch_len);
        let (selection, num_filtered) = match r {
            Ok(read) => read,
            Err(e) => {
                assert(self.filter_outcome(engine, batch_len, &skipping_predicate, Err(e)));
                assert(self.skipping_outcome(engine, batch_len, &file_stats, Err(e)));
                return Err(e);
            },
        };
        assert(self.filter_outcome(engine, batch_len, &skipping_predicate, Ok(selection)));
        assert(self.skipping_outcome(engine, batch_len, &file_stats, Ok(selection)));
        if self.records_metrics {
            metrics.add_predicate_filtered(num_filtered);
            metrics.add_predicate_eval_time_ns(nanos_since(&start_time));
        }
        Ok(selection)
    }
}

/// Evaluates an expression and checks that the output has as many rows as the input.
pub fn evaluate_checked<E: Engine>(
    engine: &E,
    evaluator: &E::ExpressionEvaluator,
    batch: &E::Batch,
    batch_len: usize,
    what: &str,
    against: &str,
) -> (output: DeltaResult<E::Batch>)
    ensures
        expression_step(engine, evaluator, batch, batch_len, what@, against@, output),
{
    let evaluated = engine.evaluate_expression(evaluator, batch);
    let ghost given = evaluated;
    let output = match evaluated {
        Ok(output) => output,
        Err(e) => {
            return Err(e);
        },
    };
    let len = engine.batch_len(&output);
    match check_length(what, len, against, batch_len) {
        Ok(_) => Ok(output),
        Err(e) => {
            let r: DeltaResult<E::Batch> = Err(e);
            assert(length_checked(engine, given, batch_len, what@, against@, r));
            r
        },
    }
}

fn evaluate_predicate_checked<E: Engine>(
    engine: &E,
    evaluator: &E::PredicateEvaluator,
    batch: &E::Batch,
    batch_len: usize,
    what: &str,
) -> (output: DeltaResult<E::Batch>)
    ensures
        predicate_step(engine, evaluator, batch, batch_len, what@, output),
{
    let evaluated = engine.evaluate_predicate(evaluator, batch);
    let ghost given = evaluated;
    let output = match evaluated {
        Ok(output) => output,
        Err(e) => {
            return Err(e);
        },
    };
    let len = engine.batch_len(&output);
    match check_length(what, len, "batch", batch_len) {
        Ok(_) => Ok(output),
        Err(e) => {
            let r: DeltaResult<E::Batch> = Err(e);
            assert(length_checked(engine, given, batch_len, what@, "batch"@, r));
            r
        },
    }
}

fn visit_selection<E: Engine>(engine: &E, output: &E::Batch, row_count: usize) -> (r: DeltaResult<
    (Vec<bool>, u64),
>)
    ensures
        match r {
            Ok((selection, num_filtered)) => selection_outcome(
                engine,
                row_count,
                output,
                Ok(selection),
            ) && selection@.len() == row_count && num_filtered == dropped(selection@),
            Err(e) => selection_outcome(engine, row_count, output, Err(e)),
        },
{
    let names: Vec<ColumnName> = vec![ColumnName::top("output")];
    let types: Vec<DataType> = vec![DataType::Primitive(PrimitiveType::Boolean)];
    let read = engine.read_columns(output, &names, &types);
    assert(selection_read(engine, output, read));
    let columns = match read {
        Ok(columns) => columns,
        Err(e) => {
            return Err(e);
        },
    };
    if columns.len() != 1 {
        let count = decimal_text(columns.len() as u64);
        return Err(
            Error::InternalError(
                "Wrong number of SelectionVectorVisitor getters: ".to_string().concat(
                    count.as_str(),
                ),
            ),
        );
    }
    read_selection(&columns[0], row_count)
}

// ---------------------------------------------------------------------------------------------
// Filters over raw actions
// ---------------------------------------------------------------------------------------------

/// Whether a list names exactly the columns of a set.
pub open spec fn lists_columns(columns: Seq<ColumnName>, set: Set<Path>) -> bool {
    forall|path: Path|
        set.contains(path) <==> exists|i: int|
            0 <= i < columns.len() && #[trigger] columns[i]@ == path
}

/// The plan for filtering raw actions: statistics are parsed from `add.stats`, partition values
/// from `add.partitionValues`, and Adds are known by `add.path`.
pub open spec fn raw_action_plan(
    predicate: PredV,
    stats_schema: SchemaV,
    partition_schema: Option<SchemaV>,
    stats_columns: Set<Path>,
) -> Option<SkippingPlan> {
    skipping_plan(
        Some(predicate),
        Some(stats_schema),
        ExprV::ParseJson(Box::new(ExprV::Column(seq!["add"@, "stats"@])), stats_schema),
        partition_schema,
        ExprV::MapToStruct(Box::new(ExprV::Column(seq!["add"@, "partitionValues"@]))),
        ExprV::from_pred(PredV::is_not_null(ExprV::Column(seq!["add"@, "path"@]))),
        stats_columns,
    )
}

/// Whether `filter` is the filter over raw actions, for every answer of the planner and the
/// engine: none if there is no schema for the statistics, or if the predicate refers to no column
/// with statistics or partition values.
pub open spec fn raw_action_filter<E: Engine, P: TablePlanning>(
    engine: &E,
    planner: &P,
    predicate: PredV,
    table_configuration: &TableConfiguration,
    input: SchemaV,
    filter: Option<DataSkippingFilter<E>>,
) -> bool {
    exists|
        refs: Vec<ColumnName>,
        stats_columns: ColumnSet,
        stats_schema: DeltaResult<SchemaRef>,
    |
        lists_columns(refs@, pred_refs(predicate)) && #[trigger] call_ensures(
            P::physical_stats_columns_set,
            (planner, table_configuration),
            stats_columns,
        ) && #[trigger] call_ensures(
            P::build_expected_stats_schemas,
            (planner, table_configuration, &refs),
            stats_schema,
        ) && match stats_schema {
            Err(_) => filter is None,
            Ok(stats_schema) => exists|partition_schema: Option<SchemaRef>| #[trigger]
                call_ensures(
                    P::predicate_partition_schema,
                    (planner, table_configuration, &refs),
                    partition_schema,
                ) && if partition_schema is None && pred_refs(predicate).disjoint(
                    stats_columns@,
                ) {
                    filter is None
                } else {
                    filter_from_plan(
                        engine,
                        input,
                        raw_action_plan(
                            predicate,
                            stats_schema@,
                            opt_schema_view(partition_schema),
                            stats_columns@,
                        ),
                        filter,
                    )
                },
        }
}

impl<E: Engine> DataSkippingFilter<E> {
    /// Builds a filter over raw `{ add, remove, ... }` action batches, parsing file stats from
    /// the JSON `add.stats` string. This is the shape used by log-replay paths that skip
    /// *before* transforming actions (the change-data-feed path and the incremental scan),
    /// unlike the scan path which reads pre-parsed `stats_parsed` from transformed batches.
    ///
    /// The stats schema is derived from the predicate's column references, matching the write side
    /// exactly; references outside the table's stats columns fold to NULL (keeping the file).
    /// Partition values are parsed from the raw `add.partitionValues` string map, so predicates
    /// over partition columns prune too.
    ///
    /// Returns `None` (equivalent to keep-all) when the predicate is ineligible for data skipping
    /// (references no stats or partition columns, or fails evaluator construction).
    ///
    /// Pruning applies only to Add rows: Remove and cdc rows (null `add.path`) are never pruned,
    /// guarded by the `add.path IS NOT NULL` `is_add` expression wired in below. Callers on the
    /// change-data-feed path rely on this so tombstones survive a non-matching predicate.
    ///
    /// # Parameters
    /// - `engine`: Engine for creating evaluators.
    /// - `planner`: Source of the stats schema, partition schema, and stats columns.
    /// - `physical_predicate`: The predicate, already lowered to physical column names.
    /// - `table_configuration`: The table's configuration.
    /// - `input_schema`: Schema of the raw action batches passed to [`apply()`](Self::apply).
    pub fn for_raw_action_batch<P: TablePlanning>(
        engine: &E,
        planner: &P,
        physical_predicate: PredicateRef,
        table_configuration: &TableConfiguration,
        input_schema: SchemaRef,
    ) -> (filter: Option<Self>)
        ensures
            raw_action_filter(
                engine,
                planner,
                physical_predicate@,
                table_configuration,
                input_schema@,
                filter,
            ),
            filter matches Some(f) ==> !f.records_metrics,
    {
        // Predicate refs become the requested columns; refs outside the stats columns fold to NULL
        // via the stats column set. Clustering columns are deliberately not required here: loading
        // clustering domain metadata would require a separate scan of the log, which this filter
        // avoids.
        let references = physical_predicate.references();
        let predicate_refs = clone_columns(references.members());
        proof {
            let members = references.listed();
            assert forall|path: Path| pred_refs(physical_predicate@).contains(path) implies exists|
                i: int,
            |
                0 <= i < predicate_refs@.len() && #[trigger] predicate_refs@[i]@ == path by {
                let i = choose|i: int| 0 <= i < members.len() && #[trigger] members[i]@ == path;
                assert(predicate_refs@[i]@ == path);
            }
            assert forall|path: Path|
                (exists|i: int|
                    0 <= i < predicate_refs@.len() && #[trigger] predicate_refs@[i]@
                        == path) implies pred_refs(physical_predicate@).contains(path) by {
                let i = choose|i: int|
                    0 <= i < predicate_refs@.len() && #[trigger] predicate_refs@[i]@ == path;
                assert(members[i]@ == path);
            }
            assert(lists_columns(predicate_refs@, pred_refs(physical_predicate@)));
        }
        let physical_stats_columns = planner.physical_stats_columns_set(table_configuration);
        let stats_schema = planner.build_expected_stats_schemas(
            table_configuration,
            &predicate_refs,
        );
        let ghost answered = stats_schema;
        let physical_stats_schema = match stats_schema {
            Ok(schema) => schema,
            Err(_) => return None,
        };
        let partition_schema = planner.predicate_partition_schema(
            table_configuration,
            &predicate_refs,
        );
        let mut eligible = partition_schema.is_some();
        for i in 0..predicate_refs.len()
            invariant
                eligible == (partition_schema is Some || exists|j: int|
                    0 <= j < i && physical_stats_columns@.contains(
                        (#[trigger] predicate_refs@[j])@,
                    )),
        {
            if physical_stats_columns.contains(&predicate_refs[i]) {
                eligible = true;
            }
        }
        if !eligible {
            assert(pred_refs(physical_predicate@).disjoint(physical_stats_columns@)) by {
                assert forall|path: Path|
                    pred_refs(physical_predicate@).contains(
                        path,
                    ) implies !physical_stats_columns@.contains(path) by {
                    let i = choose|i: int|
                        0 <= i < predicate_refs@.len() && #[trigger] predicate_refs@[i]@ == path;
                    assert(predicate_refs@[i]@ == path);
                }
            }
            return None;
        }
        proof {
            if partition_schema is None {
                let j = choose|j: int|
                    0 <= j < predicate_refs@.len() && physical_stats_columns@.contains(
                        (#[trigger] predicate_refs@[j])@,
                    );
                assert(pred_refs(physical_predicate@).contains(predicate_refs@[j]@));
            }
        }
        // Parse JSON stats from the raw action batch's `add.stats` column, parse partition values
        // from the raw `add.partitionValues` string map, and identify Add rows by
        // `add.path IS NOT NULL` (raw batches keep the nested layout).
        let stats_column: ExpressionRef = Arc::new(Expression::nested("add", "stats"));
        let stats_expr: ExpressionRef = Arc::new(
            Expression::ParseJson(stats_column, physical_stats_schema.clone()),
        );
        let partition_column: ExpressionRef = Arc::new(
            Expression::nested("add", "partitionValues"),
        );
        let partition_expr: ExpressionRef = Arc::new(Expression::MapToStruct(partition_column));
        let is_add_expr = Expression::from_pred(
            Predicate::is_not_null(Expression::nested("add", "path")),
        );
        Self::new(
            engine,
            Some(physical_predicate),
            Some(&physical_stats_schema),
            stats_expr,
            partition_schema.as_ref(),
            partition_expr,
            is_add_expr,
            input_schema,
            &physical_stats_columns,
            false,
        )
    }
}

} // verus!
