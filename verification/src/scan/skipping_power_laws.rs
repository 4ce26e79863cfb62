//! What data skipping is able to drop, and the meaning of comparisons and connectives.

use vstd::prelude::*;
use vstd::utf8::encode_utf8;

use super::data_skipping::{
    checkpoint_rules, comparison, guarded, junction_of, scan_rules, SkippingRules,
};
use super::skipping_laws::{
    expr_value, junction_value_keeps_unknowns, negated, negated_comparison_is_opposite, pred_value,
    pred_values, skip_value, skip_values, Interpretation, Row,
};
use crate::expressions::column::Path;
use crate::expressions::expression::{
    BinaryPredicateOp, ExprV, JunctionPredicateOp, OpaqueV, PredV,
};
use crate::expressions::scalar::{compare_bytes, scalar_order, Comparison, ScalarV};
use crate::kernel_predicates::{
    binary_value, junction_value, rewrite_expr, rewrite_pred, rewrite_preds, rewrite_sql_where,
    rewrite_sql_wheres,
};
use crate::schema::{DataTypeV, DecimalType};

verus! {

// ---------------------------------------------------------------------------------------------
// The order of values
// ---------------------------------------------------------------------------------------------

/// How two numbers compare.
pub open spec fn numbers_compare(a: int, b: int, c: Comparison) -> bool {
    match c {
        Comparison::Less => a < b,
        Comparison::Equal => a == b,
        Comparison::Greater => a > b,
    }
}

/// Values of the integer types, dates and timestamps are ordered as numbers, FALSE comes before
/// TRUE, and decimals of one type are ordered by their unscaled values.
pub proof fn values_are_ordered_as_numbers(a: int, b: int)
    ensures
        i32::MIN <= a <= i32::MAX && i32::MIN <= b <= i32::MAX ==> (scalar_order(
            ScalarV::Integer(a as i32),
            ScalarV::Integer(b as i32),
        ) matches Some(c) && numbers_compare(a, b, c)),
        i64::MIN <= a <= i64::MAX && i64::MIN <= b <= i64::MAX ==> (scalar_order(
            ScalarV::Long(a as i64),
            ScalarV::Long(b as i64),
        ) matches Some(c) && numbers_compare(a, b, c)),
        i16::MIN <= a <= i16::MAX && i16::MIN <= b <= i16::MAX ==> (scalar_order(
            ScalarV::Short(a as i16),
            ScalarV::Short(b as i16),
        ) matches Some(c) && numbers_compare(a, b, c)),
        i8::MIN <= a <= i8::MAX && i8::MIN <= b <= i8::MAX ==> (scalar_order(
            ScalarV::Byte(a as i8),
            ScalarV::Byte(b as i8),
        ) matches Some(c) && numbers_compare(a, b, c)),
        i32::MIN <= a <= i32::MAX && i32::MIN <= b <= i32::MAX ==> (scalar_order(
            ScalarV::Date(a as i32),
            ScalarV::Date(b as i32),
        ) matches Some(c) && numbers_compare(a, b, c)),
        i64::MIN <= a <= i64::MAX && i64::MIN <= b <= i64::MAX ==> (scalar_order(
            ScalarV::Timestamp(a as i64),
            ScalarV::Timestamp(b as i64),
        ) matches Some(c) && numbers_compare(a, b, c)),
        i64::MIN <= a <= i64::MAX && i64::MIN <= b <= i64::MAX ==> (scalar_order(
            ScalarV::TimestampNtz(a as i64),
            ScalarV::TimestampNtz(b as i64),
        ) matches Some(c) && numbers_compare(a, b, c)),
        scalar_order(ScalarV::Boolean(false), ScalarV::Boolean(true)) == Some(Comparison::Less),
        forall|t: DecimalType|
            i128::MIN <= a <= i128::MAX && i128::MIN <= b <= i128::MAX ==> (
            #[trigger] scalar_order(
                ScalarV::Decimal(a as i128, t),
                ScalarV::Decimal(b as i128, t),
            ) matches Some(c) && numbers_compare(a, b, c)),
{
    reveal(scalar_order);
}

/// Floating-point numbers, held as their bits, are ordered as the standard for them says: those
/// without a sign by magnitude, those with a sign the other way round and below the others, both
/// zeros equal, and not-a-number comparable with nothing.
pub proof fn floats_are_ordered_by_sign_and_magnitude(a: u32, b: u32)
    ensures
        ({
            let order = scalar_order(ScalarV::Float(a), ScalarV::Float(b));
            &&& a <= 0x7f80_0000 && b <= 0x7f80_0000 ==> (order matches Some(c) && numbers_compare(
                a as int,
                b as int,
                c,
            ))
            &&& 0x8000_0000 <= a <= 0xff80_0000 && 0x8000_0000 <= b <= 0xff80_0000 ==> (order
                matches Some(c) && numbers_compare(b as int, a as int, c))
            &&& 0x8000_0000 < a <= 0xff80_0000 && b <= 0x7f80_0000 ==> order == Some(
                Comparison::Less,
            )
            &&& a == 0x8000_0000 && b == 0 ==> order == Some(Comparison::Equal)
            &&& 0x7f80_0000 < a < 0x8000_0000 || a > 0xff80_0000 ==> order is None
            &&& 0x7f80_0000 < b < 0x8000_0000 || b > 0xff80_0000 ==> order is None
        }),
{
    reveal(scalar_order);
}

/// The same of numbers of double precision.
pub proof fn doubles_are_ordered_by_sign_and_magnitude(a: u64, b: u64)
    ensures
        ({
            let order = scalar_order(ScalarV::Double(a), ScalarV::Double(b));
            let infinity = 0x7ff0_0000_0000_0000u64;
            let sign = 0x8000_0000_0000_0000u64;
            let negative_infinity = 0xfff0_0000_0000_0000u64;
            &&& a <= infinity && b <= infinity ==> (order matches Some(c) && numbers_compare(
                a as int,
                b as int,
                c,
            ))
            &&& sign <= a <= negative_infinity && sign <= b <= negative_infinity ==> (order
                matches Some(c) && numbers_compare(b as int, a as int, c))
            &&& sign < a <= negative_infinity && b <= infinity ==> order == Some(Comparison::Less)
            &&& a == sign && b == 0 ==> order == Some(Comparison::Equal)
            &&& infinity < a < sign || a > negative_infinity ==> order is None
            &&& infinity < b < sign || b > negative_infinity ==> order is None
        }),
{
    reveal(scalar_order);
}

/// Texts are ordered by their bytes: by the first that differs, or else by length.
pub proof fn texts_are_ordered_by_bytes(a: Seq<u8>, b: Seq<u8>, i: int)
    requires
        0 <= i <= a.len(),
        i <= b.len(),
        forall|j: int| 0 <= j < i ==> a[j] == b[j],
    ensures
        i < a.len() && i < b.len() && a[i] < b[i] ==> compare_bytes(a, b) == Comparison::Less,
        i < a.len() && i < b.len() && a[i] > b[i] ==> compare_bytes(a, b) == Comparison::Greater,
        i == a.len() && i < b.len() ==> compare_bytes(a, b) == Comparison::Less,
        i < a.len() && i == b.len() ==> compare_bytes(a, b) == Comparison::Greater,
        i == a.len() && i == b.len() ==> compare_bytes(a, b) == Comparison::Equal,
        scalar_order(ScalarV::Binary(a), ScalarV::Binary(b)) == Some(compare_bytes(a, b)),
    decreases i,
{
    reveal(scalar_order);
    if i > 0 {
        assert(a[0] == b[0]);
        texts_are_ordered_by_bytes(a.drop_first(), b.drop_first(), i - 1);
    }
}

/// Text is ordered as the bytes that encode it.
pub proof fn text_is_ordered_as_its_bytes(a: Seq<char>, b: Seq<char>)
    ensures
        scalar_order(ScalarV::String(a), ScalarV::String(b)) == Some(
            compare_bytes(encode_utf8(a), encode_utf8(b)),
        ),
{
    reveal(scalar_order);
}

/// Values of different types, and NULL, are not comparable.
pub proof fn only_values_of_one_type_compare(a: ScalarV, b: ScalarV)
    ensures
        a.data_type() != b.data_type() ==> scalar_order(a, b) is None,
        a is Null || b is Null ==> scalar_order(a, b) is None,
{
    reveal(scalar_order);
}

// ---------------------------------------------------------------------------------------------
// Comparisons and connectives
// ---------------------------------------------------------------------------------------------

/// What comparing two values with an operator gives: unknown unless they are comparable. Two NULLs
/// are not distinct, and NULL is distinct from any value.
pub proof fn operators_mean_what_they_say(a: ScalarV, b: ScalarV)
    ensures
        scalar_order(a, b) matches Some(c) ==> {
            &&& binary_value(BinaryPredicateOp::LessThan, a, b, false) == Some(
                c == Comparison::Less,
            )
            &&& binary_value(BinaryPredicateOp::GreaterThan, a, b, false) == Some(
                c == Comparison::Greater,
            )
            &&& binary_value(BinaryPredicateOp::Equal, a, b, false) == Some(c == Comparison::Equal)
        },
        scalar_order(a, b) is None ==> {
            &&& binary_value(BinaryPredicateOp::LessThan, a, b, false) is None
            &&& binary_value(BinaryPredicateOp::GreaterThan, a, b, false) is None
            &&& binary_value(BinaryPredicateOp::Equal, a, b, false) is None
        },
        a is Null && b is Null ==> binary_value(BinaryPredicateOp::Distinct, a, b, false) == Some(
            false,
        ),
        (a is Null) != (b is Null) ==> binary_value(BinaryPredicateOp::Distinct, a, b, false)
            == Some(true),
        !(a is Null) && !(b is Null) ==> (scalar_order(a, b) matches Some(c) ==> binary_value(
            BinaryPredicateOp::Distinct,
            a,
            b,
            false,
        ) == Some(c != Comparison::Equal)),
        forall|op: BinaryPredicateOp| #[trigger]
            binary_value(op, a, b, true) == (match binary_value(op, a, b, false) {
                Some(v) => Some(!v),
                None => None,
            }),
{
    if scalar_order(a, b) is Some {
        only_values_of_one_type_compare(a, b);
    }
}

/// AND is FALSE if and only if an operand is, TRUE if and only if all are, and else unknown; OR is
/// TRUE if and only if an operand is, FALSE if and only if all are, and else unknown.
pub proof fn connectives_are_three_valued(values: Seq<Option<bool>>)
    ensures
        ({
            let and = junction_value(JunctionPredicateOp::And, values);
            let or = junction_value(JunctionPredicateOp::Or, values);
            let some = |v: Option<bool>| exists|i: int| 0 <= i < values.len() && #[trigger] values[i] == v;
            let all = |v: Option<bool>| forall|i: int| 0 <= i < values.len() ==> #[trigger] values[i] == v;
            &&& and == Some(false) <==> some(Some(false))
            &&& and == Some(true) <==> all(Some(true))
            &&& or == Some(true) <==> some(Some(true))
            &&& or == Some(false) <==> all(Some(false))
        }),
{
    let and = junction_value(JunctionPredicateOp::And, values);
    let or = junction_value(JunctionPredicateOp::Or, values);
    if forall|i: int| 0 <= i < values.len() ==> #[trigger] values[i] == Some(true) {
        if values.contains(Some(false)) {
            let k = choose|k: int| 0 <= k < values.len() && values[k] == Some(false);
            assert(values[k] == Some(true));
        }
        if values.contains(None) {
            let k = choose|k: int| 0 <= k < values.len() && values[k] == None::<bool>;
            assert(values[k] == Some(true));
        }
    } else {
        let k = choose|k: int| 0 <= k < values.len() && #[trigger] values[k] != Some(true);
        assert(values[k] == None::<bool> || values[k] == Some(false));
        assert(values.contains(values[k]));
    }
    if forall|i: int| 0 <= i < values.len() ==> #[trigger] values[i] == Some(false) {
        if values.contains(Some(true)) {
            let k = choose|k: int| 0 <= k < values.len() && values[k] == Some(true);
            assert(values[k] == Some(false));
        }
        if values.contains(None) {
            let k = choose|k: int| 0 <= k < values.len() && values[k] == None::<bool>;
            assert(values[k] == Some(false));
        }
    } else {
        let k = choose|k: int| 0 <= k < values.len() && #[trigger] values[k] != Some(false);
        assert(values[k] == None::<bool> || values[k] == Some(true));
        assert(values.contains(values[k]));
    }
    if exists|i: int| 0 <= i < values.len() && #[trigger] values[i] == Some(false) {
        let k = choose|i: int| 0 <= i < values.len() && #[trigger] values[i] == Some(false);
        assert(values.contains(values[k]));
    }
    if exists|i: int| 0 <= i < values.len() && #[trigger] values[i] == Some(true) {
        let k = choose|i: int| 0 <= i < values.len() && #[trigger] values[i] == Some(true);
        assert(values.contains(values[k]));
    }
}

// ---------------------------------------------------------------------------------------------
// Statistics that exclude every match
// ---------------------------------------------------------------------------------------------

/// Whether files record a minimum and a maximum for values of this kind.
pub open spec fn has_bounds(val: ScalarV) -> bool {
    match val {
        ScalarV::Boolean(_) | ScalarV::Binary(_) | ScalarV::Null(_) => false,
        _ => true,
    }
}

/// The value that a recorded maximum is compared with: recorded timestamps may be up to 999
/// microseconds too low.
pub open spec fn with_slack(val: ScalarV) -> ScalarV {
    match val {
        ScalarV::Timestamp(t) => ScalarV::Timestamp(
            if t >= i64::MIN + 999 {
                (t - 999) as i64
            } else {
                i64::MIN
            },
        ),
        ScalarV::TimestampNtz(t) => ScalarV::TimestampNtz(
            if t >= i64::MIN + 999 {
                (t - 999) as i64
            } else {
                i64::MIN
            },
        ),
        _ => val,
    }
}

/// The recorded minimum of a column.
pub open spec fn minimum(stats: Row, col: Path) -> ScalarV {
    stats(seq!["stats_parsed"@, "minValues"@] + col)
}

/// The recorded maximum of a column.
pub open spec fn maximum(stats: Row, col: Path) -> ScalarV {
    stats(seq!["stats_parsed"@, "maxValues"@] + col)
}

/// The recorded number of NULLs of a column.
pub open spec fn null_count(stats: Row, col: Path) -> ScalarV {
    stats(seq!["stats_parsed"@, "nullCount"@] + col)
}

/// The recorded number of rows.
pub open spec fn row_count(stats: Row) -> ScalarV {
    stats(seq!["stats_parsed"@, "numRecords"@])
}

/// `col op val`.
pub open spec fn compares(col: Path, op: BinaryPredicateOp, val: ScalarV) -> PredV {
    PredV::Binary(op, Box::new(ExprV::Column(col)), Box::new(ExprV::Literal(val)))
}

/// `val op col`.
pub open spec fn compares_with(val: ScalarV, op: BinaryPredicateOp, col: Path) -> PredV {
    PredV::Binary(op, Box::new(ExprV::Literal(val)), Box::new(ExprV::Column(col)))
}

pub open spec fn negation(p: PredV) -> PredV {
    PredV::Not(Box::new(p))
}

/// Whether the file is dropped by the rewrite of the predicate, or by its rewrite as a filter.
pub open spec fn drops(
    it: Interpretation,
    rules: SkippingRules,
    stats: Row,
    p: PredV,
    as_filter: bool,
) -> bool {
    skip_value(
        it,
        stats,
        if as_filter {
            rewrite_sql_where(rules, p, false)
        } else {
            rewrite_pred(rules, p, false)
        },
    ) == Some(false)
}

/// Whether the file is dropped by both.
pub open spec fn dropped_by(it: Interpretation, rules: SkippingRules, stats: Row, p: PredV) -> bool {
    drops(it, rules, stats, p, false) && drops(it, rules, stats, p, true)
}

/// Whether a column has statistics, and is no partition column.
pub open spec fn has_statistics(rules: SkippingRules, col: Path) -> bool {
    rules.stats.contains(col) && !rules.partition.contains(col) && !rules.floating.contains(col)
}

proof fn lemma_not_partition(kind: Seq<char>, col: Path)
    ensures
        (seq!["stats_parsed"@, kind] + col)[0] == "stats_parsed"@,
        "stats_parsed"@ != "partitionValues_parsed"@,
{
    reveal_strlit("stats_parsed");
    reveal_strlit("partitionValues_parsed");
    assert("stats_parsed"@.len() == 12 && "partitionValues_parsed"@.len() == 22);
}

proof fn lemma_column_value(it: Interpretation, stats: Row, path: Path)
    ensures
        expr_value(it, stats, ExprV::Column(path)) == stats(path),
{
}

proof fn lemma_or_of_false(it: Interpretation, stats: Row, a: PredV, b: PredV)
    requires
        pred_value(it, stats, a) == Some(false),
        pred_value(it, stats, b) == Some(false),
    ensures
        pred_value(it, stats, PredV::or(a, b)) == Some(false),
{
    let values = pred_values(it, stats, seq![a, b]);
    assert(values =~= seq![Some(false), Some(false)]);
    if values.contains(Some(true)) || values.contains(None) {
        let k = choose|k: int| 0 <= k < values.len() && values[k] != Some(false);
        assert(values[k] == Some(false));
    }
    reveal_with_fuel(pred_value, 2);
}

/// A comparison with a recorded bound is FALSE where the bound says so.
proof fn lemma_bound(
    it: Interpretation,
    rules: SkippingRules,
    stats: Row,
    kind: Seq<char>,
    col: Path,
    ord: Comparison,
    val: ScalarV,
    inverted: bool,
)
    requires
        scalar_order(stats(seq!["stats_parsed"@, kind] + col), val) matches Some(c) && (c == ord)
            == inverted,
    ensures
        pred_value(
            it,
            stats,
            rules.compare(ord, ExprV::Column(seq!["stats_parsed"@, kind] + col), val, inverted),
        ) == Some(false),
{
    let path = seq!["stats_parsed"@, kind] + col;
    let stat = ExprV::Column(path);
    lemma_not_partition(kind, col);
    lemma_column_value(it, stats, path);
    negated_comparison_is_opposite(it, stats, ord, stat, val);
    only_values_of_one_type_compare(stats(path), val);
    if rules.checkpoint {
        let null = PredV::is_null(stat);
        assert(pred_value(it, stats, null) == Some(stats(path).is_null()));
        lemma_or_of_false(it, stats, null, comparison(ord, stat, val, inverted));
    }
}

/// A conjunction is FALSE if one of its parts is.
proof fn lemma_conjunction(it: Interpretation, stats: Row, parts: Seq<Option<PredV>>, i: int)
    requires
        0 <= i < parts.len(),
        skip_value(it, stats, parts[i]) == Some(false),
    ensures
        pred_value(
            it,
            stats,
            junction_of(JunctionPredicateOp::And, parts, false),
        ) == Some(false),
{
    junction_value_keeps_unknowns(it, stats, JunctionPredicateOp::And, parts, false);
    let values = skip_values(it, stats, parts);
    assert(values[i] == Some(false));
    assert(values.contains(Some(false)));
}

/// The rewrite of a comparison as a filter is FALSE where the rewrite of the comparison is.
proof fn lemma_filter_follows(
    it: Interpretation,
    rules: SkippingRules,
    stats: Row,
    op: BinaryPredicateOp,
    a: ExprV,
    b: ExprV,
    inverted: bool,
)
    requires
        op == BinaryPredicateOp::LessThan || op == BinaryPredicateOp::GreaterThan || op
            == BinaryPredicateOp::Equal,
        skip_value(it, stats, rules.binary(op, a, b, inverted)) == Some(false),
    ensures
        ({
            let p = PredV::Binary(op, Box::new(a), Box::new(b));
            if inverted {
                dropped_by(it, rules, stats, negation(p))
            } else {
                dropped_by(it, rules, stats, p)
            }
        }),
{
    reveal_with_fuel(rewrite_pred, 2);
    reveal_with_fuel(rewrite_sql_where, 2);
    let parts = seq![
        rules.expr_is_null(a, true),
        rules.expr_is_null(b, true),
        rules.binary(op, a, b, inverted),
    ];
    lemma_conjunction(it, stats, parts, 2);
}

/// What the rules compare for a column with statistics.
proof fn lemma_statistics(rules: SkippingRules, col: Path, val: ScalarV)
    requires
        has_statistics(rules, col),
        has_bounds(val),
    ensures
        rules.max_comparison_value(col, val) == with_slack(val),
        rules.min_stat(col, val.data_type()) == Some(
            ExprV::Column(seq!["stats_parsed"@, "minValues"@] + col),
        ),
        rules.max_stat(col, val.data_type()) == Some(
            ExprV::Column(seq!["stats_parsed"@, "maxValues"@] + col),
        ),
{
}

/// A file whose recorded minimum is not below a value is dropped for `column < value`.
pub proof fn nothing_is_below_the_minimum(
    it: Interpretation,
    rules: SkippingRules,
    stats: Row,
    col: Path,
    val: ScalarV,
)
    requires
        has_statistics(rules, col),
        has_bounds(val),
        scalar_order(minimum(stats, col), val) == Some(Comparison::Greater)
            || scalar_order(minimum(stats, col), val) == Some(Comparison::Equal),
    ensures
        dropped_by(it, rules, stats, compares(col, BinaryPredicateOp::LessThan, val)),
        dropped_by(it, rules, stats, compares_with(val, BinaryPredicateOp::GreaterThan, col)),
{
    let column = ExprV::Column(col);
    let literal = ExprV::Literal(val);
    lemma_statistics(rules, col, val);
    lemma_bound(it, rules, stats, "minValues"@, col, Comparison::Less, val, false);
    lemma_filter_follows(
        it,
        rules,
        stats,
        BinaryPredicateOp::LessThan,
        column,
        literal,
        false,
    );
    lemma_filter_follows(
        it,
        rules,
        stats,
        BinaryPredicateOp::GreaterThan,
        literal,
        column,
        false,
    );
}

/// A file whose recorded minimum is above a value is dropped for `column <= value`.
pub proof fn nothing_reaches_below_the_minimum(
    it: Interpretation,
    rules: SkippingRules,
    stats: Row,
    col: Path,
    val: ScalarV,
)
    requires
        has_statistics(rules, col),
        has_bounds(val),
        scalar_order(minimum(stats, col), val) == Some(Comparison::Greater),
    ensures
        dropped_by(it, rules, stats, negation(compares(col, BinaryPredicateOp::GreaterThan, val))),
        dropped_by(it, rules, stats, negation(compares_with(val, BinaryPredicateOp::LessThan, col))),
{
    let column = ExprV::Column(col);
    let literal = ExprV::Literal(val);
    lemma_statistics(rules, col, val);
    lemma_bound(it, rules, stats, "minValues"@, col, Comparison::Greater, val, true);
    lemma_filter_follows(
        it,
        rules,
        stats,
        BinaryPredicateOp::GreaterThan,
        column,
        literal,
        true,
    );
    lemma_filter_follows(
        it,
        rules,
        stats,
        BinaryPredicateOp::LessThan,
        literal,
        column,
        true,
    );
}

/// A file whose recorded maximum is not above a value is dropped for `column > value`.
pub proof fn nothing_is_above_the_maximum(
    it: Interpretation,
    rules: SkippingRules,
    stats: Row,
    col: Path,
    val: ScalarV,
)
    requires
        has_statistics(rules, col),
        has_bounds(val),
        scalar_order(maximum(stats, col), with_slack(val)) == Some(Comparison::Less)
            || scalar_order(maximum(stats, col), with_slack(val)) == Some(Comparison::Equal),
    ensures
        dropped_by(it, rules, stats, compares(col, BinaryPredicateOp::GreaterThan, val)),
        dropped_by(it, rules, stats, compares_with(val, BinaryPredicateOp::LessThan, col)),
{
    let column = ExprV::Column(col);
    let literal = ExprV::Literal(val);
    lemma_statistics(rules, col, val);
    lemma_bound(it, rules, stats, "maxValues"@, col, Comparison::Greater, with_slack(val), false);
    lemma_filter_follows(
        it,
        rules,
        stats,
        BinaryPredicateOp::GreaterThan,
        column,
        literal,
        false,
    );
    lemma_filter_follows(
        it,
        rules,
        stats,
        BinaryPredicateOp::LessThan,
        literal,
        column,
        false,
    );
}

/// A file whose recorded maximum is below a value is dropped for `column >= value`.
pub proof fn nothing_reaches_above_the_maximum(
    it: Interpretation,
    rules: SkippingRules,
    stats: Row,
    col: Path,
    val: ScalarV,
)
    requires
        has_statistics(rules, col),
        has_bounds(val),
        scalar_order(maximum(stats, col), with_slack(val)) == Some(Comparison::Less),
    ensures
        dropped_by(it, rules, stats, negation(compares(col, BinaryPredicateOp::LessThan, val))),
        dropped_by(it, rules, stats, negation(compares_with(val, BinaryPredicateOp::GreaterThan, col))),
{
    let column = ExprV::Column(col);
    let literal = ExprV::Literal(val);
    lemma_statistics(rules, col, val);
    lemma_bound(it, rules, stats, "maxValues"@, col, Comparison::Less, with_slack(val), true);
    lemma_filter_follows(
        it,
        rules,
        stats,
        BinaryPredicateOp::LessThan,
        column,
        literal,
        true,
    );
    lemma_filter_follows(
        it,
        rules,
        stats,
        BinaryPredicateOp::GreaterThan,
        literal,
        column,
        true,
    );
}

spec fn equality_parts(rules: SkippingRules, col: Path, val: ScalarV) -> Seq<Option<PredV>> {
    seq![
        rules.compare_min(col, val, Comparison::Greater, true),
        rules.compare_max(col, val, Comparison::Less, true),
    ]
}

/// A file whose recorded bounds leave a value out is dropped for `column = value`.
pub proof fn nothing_is_outside_the_bounds(
    it: Interpretation,
    rules: SkippingRules,
    stats: Row,
    col: Path,
    val: ScalarV,
)
    requires
        has_statistics(rules, col),
        has_bounds(val),
        scalar_order(minimum(stats, col), val) == Some(Comparison::Greater)
            || scalar_order(maximum(stats, col), with_slack(val)) == Some(Comparison::Less),
    ensures
        dropped_by(it, rules, stats, compares(col, BinaryPredicateOp::Equal, val)),
        dropped_by(it, rules, stats, compares_with(val, BinaryPredicateOp::Equal, col)),
{
    let column = ExprV::Column(col);
    let literal = ExprV::Literal(val);
    lemma_statistics(rules, col, val);
    if scalar_order(minimum(stats, col), val) == Some(Comparison::Greater) {
        lemma_bound(it, rules, stats, "minValues"@, col, Comparison::Greater, val, true);
        lemma_conjunction(it, stats, equality_parts(rules, col, val), 0);
    } else {
        lemma_bound(it, rules, stats, "maxValues"@, col, Comparison::Less, with_slack(val), true);
        lemma_conjunction(it, stats, equality_parts(rules, col, val), 1);
    }
    lemma_filter_follows(
        it,
        rules,
        stats,
        BinaryPredicateOp::Equal,
        column,
        literal,
        false,
    );
    lemma_filter_follows(
        it,
        rules,
        stats,
        BinaryPredicateOp::Equal,
        literal,
        column,
        false,
    );
}

/// A file whose recorded bounds both equal a value is dropped for `column != value`.
pub proof fn bounds_that_meet_leave_one_value(
    it: Interpretation,
    rules: SkippingRules,
    stats: Row,
    col: Path,
    val: ScalarV,
)
    requires
        has_statistics(rules, col),
        has_bounds(val),
        scalar_order(minimum(stats, col), val) == Some(Comparison::Equal),
        scalar_order(maximum(stats, col), with_slack(val)) == Some(Comparison::Equal),
    ensures
        dropped_by(it, rules, stats, negation(compares(col, BinaryPredicateOp::Equal, val))),
        dropped_by(it, rules, stats, negation(compares_with(val, BinaryPredicateOp::Equal, col))),
{
    let column = ExprV::Column(col);
    let literal = ExprV::Literal(val);
    lemma_statistics(rules, col, val);
    lemma_bound(it, rules, stats, "minValues"@, col, Comparison::Equal, val, true);
    lemma_bound(it, rules, stats, "maxValues"@, col, Comparison::Equal, with_slack(val), true);
    lemma_disjunction(
        it,
        stats,
        seq![
            rules.compare_min(col, val, Comparison::Equal, true),
            rules.compare_max(col, val, Comparison::Equal, true),
        ],
    );
    lemma_filter_follows(
        it,
        rules,
        stats,
        BinaryPredicateOp::Equal,
        column,
        literal,
        true,
    );
    lemma_filter_follows(
        it,
        rules,
        stats,
        BinaryPredicateOp::Equal,
        literal,
        column,
        true,
    );
}

/// A disjunction is FALSE if all of its parts are.
proof fn lemma_disjunction(it: Interpretation, stats: Row, parts: Seq<Option<PredV>>)
    requires
        forall|i: int|
            0 <= i < parts.len() ==> skip_value(it, stats, #[trigger] parts[i]) == Some(false),
    ensures
        pred_value(
            it,
            stats,
            junction_of(JunctionPredicateOp::Or, parts, false),
        ) == Some(false),
{
    junction_value_keeps_unknowns(it, stats, JunctionPredicateOp::Or, parts, false);
    let values = skip_values(it, stats, parts);
    if values.contains(Some(true)) || values.contains(None) {
        let k = choose|k: int| 0 <= k < values.len() && values[k] != Some(false);
        assert(skip_value(it, stats, parts[k]) == Some(false));
    }
}

/// Data skipping drops files by their NULLs: without a NULL a file is dropped for `IS NULL`, and
/// with nothing but NULLs for `IS NOT NULL` and for every comparison as a filter.
pub proof fn null_counts_drop_files(
    it: Interpretation,
    partition: Set<Path>,
    stats_columns: Set<Path>,
    stats: Row,
    col: Path,
    val: ScalarV,
)
    requires
        stats_columns.contains(col),
        !partition.contains(col),
    ensures
        ({
            let rules = scan_rules(partition, stats_columns);
            let is_null = PredV::IsNull(Box::new(ExprV::Column(col)));
            let nulls = null_count(stats, col);
            let rows = row_count(stats);
            &&& nulls == ScalarV::Long(0) ==> dropped_by(it, rules, stats, is_null)
            &&& nulls is Long && rows == nulls ==> dropped_by(it, rules, stats, negation(is_null))
            &&& nulls is Long && rows == nulls ==> forall|op: BinaryPredicateOp|
                op == BinaryPredicateOp::LessThan || op == BinaryPredicateOp::GreaterThan || op
                    == BinaryPredicateOp::Equal ==> skip_value(
                    it,
                    stats,
                    rewrite_sql_where(rules, #[trigger] compares(col, op, val), false),
                ) == Some(false)
        }),
{
    reveal_with_fuel(rewrite_pred, 2);
    reveal_with_fuel(rewrite_sql_where, 2);
    reveal_with_fuel(pred_value, 3);
    reveal_with_fuel(expr_value, 2);
    let rules = scan_rules(partition, stats_columns);
    let nulls = null_count(stats, col);
    let rows = row_count(stats);
    lemma_column_value(it, stats, seq!["stats_parsed"@, "nullCount"@] + col);
    lemma_column_value(it, stats, seq!["stats_parsed"@, "numRecords"@]);
    if nulls is Long {
        values_are_ordered_as_numbers(nulls->Long_0 as int, nulls->Long_0 as int);
        operators_mean_what_they_say(nulls, nulls);
        assert(scalar_order(nulls, nulls) == Some(Comparison::Equal));
    }
    if nulls == ScalarV::Long(0) {
        assert(expr_value(it, stats, ExprV::Literal(ScalarV::Long(0))) == ScalarV::Long(0));
        assert(skip_value(it, stats, rules.is_null(col, false)) == Some(false));
    }
    if nulls is Long && rows == nulls {
        assert(skip_value(it, stats, rules.is_null(col, true)) == Some(false));
        assert forall|op: BinaryPredicateOp|
            op == BinaryPredicateOp::LessThan || op == BinaryPredicateOp::GreaterThan || op
                == BinaryPredicateOp::Equal implies skip_value(
            it,
            stats,
            rewrite_sql_where(rules, #[trigger] compares(col, op, val), false),
        ) == Some(false) by {
            let parts = seq![
                rules.expr_is_null(ExprV::Column(col), true),
                rules.expr_is_null(ExprV::Literal(val), true),
                rules.binary(op, ExprV::Column(col), ExprV::Literal(val), false),
            ];
            lemma_conjunction(it, stats, parts, 0);
        }
    }
}

// ---------------------------------------------------------------------------------------------
// Partition values
// ---------------------------------------------------------------------------------------------

/// Whether a row of the log, or a part of a checkpoint, has the exact value of a partition column.
pub open spec fn has_partition_value(rules: SkippingRules, stats: Row, col: Path) -> bool {
    &&& rules.partition.contains(col)
    &&& !rules.floating.contains(col)
    &&& rules.checkpoint || stats(seq!["is_add"@]) == ScalarV::Boolean(true)
}

proof fn lemma_guard_of_add(it: Interpretation, stats: Row, p: PredV)
    requires
        stats(seq!["is_add"@]) == ScalarV::Boolean(true),
    ensures
        pred_value(it, stats, guarded(p)) == pred_value(it, stats, p),
{
    let not_add = PredV::not(PredV::column(seq!["is_add"@]));
    reveal_with_fuel(pred_value, 3);
    reveal_with_fuel(expr_value, 3);
    assert(expr_value(it, stats, ExprV::Column(seq!["is_add"@])) == ScalarV::Boolean(true));
    assert(pred_value(it, stats, PredV::column(seq!["is_add"@])) == Some(true));
    assert(pred_value(it, stats, not_add) == Some(false));
    let values = pred_values(it, stats, seq![not_add, p]);
    assert(values[0] == Some(false));
    assert(values.len() == 2);
    assert(values[1] == pred_value(it, stats, p));
    assert(values.contains(values[1]));
    assert(pred_value(it, stats, guarded(p)) == junction_value(JunctionPredicateOp::Or, values));
    connectives_are_three_valued(values);
}

/// What comparing a partition value gives.
proof fn lemma_partition_compare(
    it: Interpretation,
    rules: SkippingRules,
    stats: Row,
    col: Path,
    ord: Comparison,
    val: ScalarV,
    inverted: bool,
)
    requires
        has_partition_value(rules, stats, col),
    ensures
        rules.compare_min(col, val, ord, inverted) == rules.compare_max(col, val, ord, inverted),
        skip_value(it, stats, rules.compare_min(col, val, ord, inverted)) == (match scalar_order(
            stats(seq!["partitionValues_parsed"@] + col),
            val,
        ) {
            Some(c) => Some((c == ord) != inverted),
            None => None,
        }),
{
    let path = seq!["partitionValues_parsed"@] + col;
    assert(path[0] == "partitionValues_parsed"@);
    lemma_column_value(it, stats, path);
    let plain = comparison(ord, ExprV::Column(path), val, inverted);
    reveal_with_fuel(pred_value, 3);
    operators_mean_what_they_say(stats(path), val);
    if !rules.checkpoint {
        lemma_guard_of_add(it, stats, plain);
    }
}

/// The value of a partition column decides every comparison of the column with a literal: the
/// rewrite is TRUE, FALSE or unknown as the comparison is on the rows of the file. As a filter it
/// drops the file where the column is NULL.
pub proof fn partition_values_decide_comparisons(
    it: Interpretation,
    rules: SkippingRules,
    stats: Row,
    row: Row,
    col: Path,
    op: BinaryPredicateOp,
    val: ScalarV,
    inverted: bool,
)
    requires
        has_partition_value(rules, stats, col),
        row(col) == stats(seq!["partitionValues_parsed"@] + col),
        op == BinaryPredicateOp::LessThan || op == BinaryPredicateOp::GreaterThan || op
            == BinaryPredicateOp::Equal,
    ensures
        ({
            let p = if inverted {
                negation(compares(col, op, val))
            } else {
                compares(col, op, val)
            };
            &&& skip_value(it, stats, rewrite_pred(rules, p, false)) == pred_value(it, row, p)
            &&& !row(col).is_null() && !val.is_null() ==> (skip_value(
                it,
                stats,
                rewrite_sql_where(rules, p, false),
            ) == Some(false) <==> pred_value(it, row, p) == Some(false))
            &&& row(col).is_null() ==> skip_value(it, stats, rewrite_sql_where(rules, p, false))
                == Some(false)
            &&& val.is_null() ==> skip_value(it, stats, rewrite_sql_where(rules, p, false)) == Some(
                false,
            )
        }),
{
    let value = row(col);
    let column = ExprV::Column(col);
    let literal = ExprV::Literal(val);
    let plain = compares(col, op, val);
    lemma_partition_binary(it, rules, stats, col, op, val, inverted);
    lemma_plain_value(it, row, col, op, val);
    let rewrite = rules.binary(op, column, literal, inverted);
    let parts = seq![rules.expr_is_null(column, true), rules.expr_is_null(literal, true), rewrite];
    lemma_rewrites(rules, op, column, literal);
    lemma_partition_null(it, rules, stats, col, true);
    lemma_literal_null(it, rules, stats, val);
    lemma_three(it, stats, parts);
}

/// The value of a comparison, and of its negation.
proof fn lemma_plain_value(
    it: Interpretation,
    row: Row,
    col: Path,
    op: BinaryPredicateOp,
    val: ScalarV,
)
    requires
        op != BinaryPredicateOp::In,
    ensures
        pred_value(it, row, compares(col, op, val)) == binary_value(op, row(col), val, false),
        pred_value(it, row, negation(compares(col, op, val))) == binary_value(
            op,
            row(col),
            val,
            true,
        ),
{
    operators_mean_what_they_say(row(col), val);
    lemma_column_value(it, row, col);
    assert(expr_value(it, row, ExprV::Literal(val)) == val);
    reveal_with_fuel(pred_value, 2);
}

/// The rewrites of a comparison and of its negation.
proof fn lemma_rewrites(rules: SkippingRules, op: BinaryPredicateOp, a: ExprV, b: ExprV)
    ensures
        ({
            let p = PredV::Binary(op, Box::new(a), Box::new(b));
            let filter = |inverted: bool|
                junction_of(
                    JunctionPredicateOp::And,
                    seq![
                        rules.expr_is_null(a, true),
                        rules.expr_is_null(b, true),
                        rules.binary(op, a, b, inverted),
                    ],
                    false,
                );
            &&& rewrite_pred(rules, p, false) == rules.binary(op, a, b, false)
            &&& rewrite_pred(rules, negation(p), false) == rules.binary(op, a, b, true)
            &&& op == BinaryPredicateOp::LessThan || op == BinaryPredicateOp::GreaterThan || op
                == BinaryPredicateOp::Equal ==> {
                &&& rewrite_sql_where(rules, p, false) == Some(filter(false))
                &&& rewrite_sql_where(rules, negation(p), false) == Some(filter(true))
            }
        }),
{
    reveal_with_fuel(rewrite_pred, 2);
    reveal_with_fuel(rewrite_sql_where, 2);
}

proof fn lemma_literal_null(it: Interpretation, rules: SkippingRules, stats: Row, val: ScalarV)
    ensures
        skip_value(it, stats, rules.expr_is_null(ExprV::Literal(val), true)) == Some(
            !val.is_null(),
        ),
{
    reveal_with_fuel(pred_value, 2);
    reveal_with_fuel(expr_value, 2);
}

/// A conjunction of three parts.
proof fn lemma_three(it: Interpretation, stats: Row, parts: Seq<Option<PredV>>)
    requires
        parts.len() == 3,
    ensures
        pred_value(it, stats, junction_of(JunctionPredicateOp::And, parts, false)) == Some(false)
            <==> skip_value(it, stats, parts[0]) == Some(false) || skip_value(it, stats, parts[1])
            == Some(false) || skip_value(it, stats, parts[2]) == Some(false),
{
    junction_value_keeps_unknowns(it, stats, JunctionPredicateOp::And, parts, false);
    let values = skip_values(it, stats, parts);
    assert(values.len() == 3);
    assert(values[0] == skip_value(it, stats, parts[0]));
    assert(values[1] == skip_value(it, stats, parts[1]));
    assert(values[2] == skip_value(it, stats, parts[2]));
    connectives_are_three_valued(values);
}

/// A junction of two parts.
proof fn lemma_two(
    it: Interpretation,
    stats: Row,
    op: JunctionPredicateOp,
    a: Option<PredV>,
    b: Option<PredV>,
    inverted: bool,
)
    ensures
        ({
            let value = pred_value(it, stats, junction_of(op, seq![a, b], inverted));
            let x = skip_value(it, stats, a);
            let y = skip_value(it, stats, b);
            let and = (op == JunctionPredicateOp::And) != inverted;
            &&& and ==> (value == Some(false) <==> x == Some(false) || y == Some(false))
            &&& and ==> (value == Some(true) <==> x == Some(true) && y == Some(true))
            &&& !and ==> (value == Some(true) <==> x == Some(true) || y == Some(true))
            &&& !and ==> (value == Some(false) <==> x == Some(false) && y == Some(false))
        }),
{
    let parts = seq![a, b];
    junction_value_keeps_unknowns(it, stats, op, parts, inverted);
    let values = skip_values(it, stats, parts);
    assert(values.len() == 2);
    assert(values[0] == skip_value(it, stats, a));
    assert(values[1] == skip_value(it, stats, b));
    connectives_are_three_valued(values);
}

/// What the rewrite of a comparison with a partition column gives.
proof fn lemma_partition_binary(
    it: Interpretation,
    rules: SkippingRules,
    stats: Row,
    col: Path,
    op: BinaryPredicateOp,
    val: ScalarV,
    inverted: bool,
)
    requires
        has_partition_value(rules, stats, col),
        op == BinaryPredicateOp::LessThan || op == BinaryPredicateOp::GreaterThan || op
            == BinaryPredicateOp::Equal,
    ensures
        skip_value(it, stats, rules.binary(op, ExprV::Column(col), ExprV::Literal(val), inverted))
            == binary_value(op, stats(seq!["partitionValues_parsed"@] + col), val, inverted),
{
    operators_mean_what_they_say(stats(seq!["partitionValues_parsed"@] + col), val);
    match op {
        BinaryPredicateOp::LessThan => {
            lemma_partition_compare(it, rules, stats, col, Comparison::Less, val, inverted);
        },
        BinaryPredicateOp::GreaterThan => {
            lemma_partition_compare(it, rules, stats, col, Comparison::Greater, val, inverted);
        },
        _ => {
            lemma_partition_equal(it, rules, stats, col, val, inverted);
        },
    }
}

/// What the rewrite of a test for NULL of a partition column gives.
proof fn lemma_partition_null(
    it: Interpretation,
    rules: SkippingRules,
    stats: Row,
    col: Path,
    inverted: bool,
)
    requires
        has_partition_value(rules, stats, col),
    ensures
        skip_value(it, stats, rules.is_null(col, inverted)) == Some(
            stats(seq!["partitionValues_parsed"@] + col).is_null() != inverted,
        ),
{
    let path = seq!["partitionValues_parsed"@] + col;
    reveal_with_fuel(pred_value, 3);
    lemma_column_value(it, stats, path);
    let plain = if inverted {
        PredV::is_not_null(ExprV::Column(path))
    } else {
        PredV::is_null(ExprV::Column(path))
    };
    if !rules.checkpoint {
        lemma_guard_of_add(it, stats, plain);
    }
}

/// The value of a partition column decides whether the column is NULL, whether it is distinct from
/// a value it can be compared with, and, for a boolean column, whether it holds.
pub proof fn partition_values_decide_tests(
    it: Interpretation,
    rules: SkippingRules,
    stats: Row,
    row: Row,
    col: Path,
    val: ScalarV,
    inverted: bool,
)
    requires
        has_partition_value(rules, stats, col),
        row(col) == stats(seq!["partitionValues_parsed"@] + col),
    ensures
        ({
            let turned = |p: PredV|
                if inverted {
                    negation(p)
                } else {
                    p
                };
            let is_null = turned(PredV::IsNull(Box::new(ExprV::Column(col))));
            let distinct = turned(compares(col, BinaryPredicateOp::Distinct, val));
            let holds = turned(PredV::BooleanExpression(Box::new(ExprV::Column(col))));
            &&& skip_value(it, stats, rewrite_pred(rules, is_null, false)) == pred_value(
                it,
                row,
                is_null,
            )
            &&& row(col).is_null() || val.is_null() || scalar_order(row(col), val) is Some
                ==> skip_value(it, stats, rewrite_pred(rules, distinct, false)) == pred_value(
                it,
                row,
                distinct,
            )
            &&& row(col) is Boolean || row(col) is Null ==> skip_value(
                it,
                stats,
                rewrite_pred(rules, holds, false),
            ) == pred_value(it, row, holds)
        }),
{
    lemma_partition_is_null(it, rules, stats, row, col, inverted);
    lemma_partition_distinct(it, rules, stats, row, col, val, inverted);
    lemma_partition_holds(it, rules, stats, row, col, inverted);
}

proof fn lemma_partition_is_null(
    it: Interpretation,
    rules: SkippingRules,
    stats: Row,
    row: Row,
    col: Path,
    inverted: bool,
)
    requires
        has_partition_value(rules, stats, col),
        row(col) == stats(seq!["partitionValues_parsed"@] + col),
    ensures
        ({
            let p = PredV::IsNull(Box::new(ExprV::Column(col)));
            let p = if inverted {
                negation(p)
            } else {
                p
            };
            skip_value(it, stats, rewrite_pred(rules, p, false)) == pred_value(it, row, p)
        }),
{
    reveal_with_fuel(rewrite_pred, 2);
    reveal_with_fuel(pred_value, 2);
    lemma_column_value(it, row, col);
    lemma_partition_null(it, rules, stats, col, inverted);
}

proof fn lemma_partition_distinct(
    it: Interpretation,
    rules: SkippingRules,
    stats: Row,
    row: Row,
    col: Path,
    val: ScalarV,
    inverted: bool,
)
    requires
        has_partition_value(rules, stats, col),
        row(col) == stats(seq!["partitionValues_parsed"@] + col),
    ensures
        ({
            let p = compares(col, BinaryPredicateOp::Distinct, val);
            let p = if inverted {
                negation(p)
            } else {
                p
            };
            row(col).is_null() || val.is_null() || scalar_order(row(col), val) is Some
                ==> skip_value(it, stats, rewrite_pred(rules, p, false)) == pred_value(it, row, p)
        }),
{
    let op = BinaryPredicateOp::Distinct;
    operators_mean_what_they_say(row(col), val);
    only_values_of_one_type_compare(row(col), val);
    lemma_plain_value(it, row, col, op, val);
    lemma_rewrites(rules, op, ExprV::Column(col), ExprV::Literal(val));
    lemma_partition_null(it, rules, stats, col, inverted);
    lemma_partition_null(it, rules, stats, col, !inverted);
    lemma_partition_equal(it, rules, stats, col, val, !inverted);
    lemma_two(
        it,
        stats,
        JunctionPredicateOp::Or,
        rules.is_null(col, inverted),
        Some(rules.equal(col, val, !inverted)),
        inverted,
    );
}

proof fn lemma_boolean_rewrites(rules: SkippingRules, col: Path)
    ensures
        ({
            let p = PredV::BooleanExpression(Box::new(ExprV::Column(col)));
            &&& rewrite_pred(rules, p, false) == Some(
                rules.equal(col, ScalarV::Boolean(false), true),
            )
            &&& rewrite_pred(rules, negation(p), false) == Some(
                rules.equal(col, ScalarV::Boolean(true), true),
            )
        }),
{
    let column = ExprV::Column(col);
    let p = PredV::BooleanExpression(Box::new(column));
    assert(rewrite_expr(rules, column, false) == Some(rules.bool_column(col, false)));
    assert(rewrite_expr(rules, column, true) == Some(rules.bool_column(col, true)));
    assert(rewrite_pred(rules, p, false) == rewrite_expr(rules, column, false));
    assert(rewrite_pred(rules, p, true) == rewrite_expr(rules, column, true));
    assert(rewrite_pred(rules, negation(p), false) == rewrite_pred(rules, p, true));
}

proof fn lemma_boolean_value(it: Interpretation, row: Row, col: Path)
    ensures
        ({
            let p = PredV::BooleanExpression(Box::new(ExprV::Column(col)));
            let value = match row(col) {
                ScalarV::Boolean(b) => Some(b),
                _ => None,
            };
            &&& pred_value(it, row, p) == value
            &&& pred_value(it, row, negation(p)) == negated(value)
        }),
{
    lemma_column_value(it, row, col);
    reveal_with_fuel(pred_value, 2);
}

proof fn lemma_partition_holds(
    it: Interpretation,
    rules: SkippingRules,
    stats: Row,
    row: Row,
    col: Path,
    inverted: bool,
)
    requires
        has_partition_value(rules, stats, col),
        row(col) == stats(seq!["partitionValues_parsed"@] + col),
    ensures
        ({
            let p = PredV::BooleanExpression(Box::new(ExprV::Column(col)));
            let p = if inverted {
                negation(p)
            } else {
                p
            };
            row(col) is Boolean || row(col) is Null ==> skip_value(
                it,
                stats,
                rewrite_pred(rules, p, false),
            ) == pred_value(it, row, p)
        }),
{
    lemma_boolean_rewrites(rules, col);
    lemma_boolean_value(it, row, col);
    lemma_partition_equal(it, rules, stats, col, ScalarV::Boolean(inverted), true);
    lemma_booleans(row(col), ScalarV::Boolean(inverted));
    only_values_of_one_type_compare(row(col), ScalarV::Boolean(inverted));
}

proof fn lemma_booleans(a: ScalarV, b: ScalarV)
    ensures
        a is Boolean && b is Boolean ==> (scalar_order(a, b) matches Some(c) && (c
            == Comparison::Equal) == (a == b)),
{
    reveal(scalar_order);
}

/// What the rewrite of equality with a partition column gives.
proof fn lemma_partition_equal(
    it: Interpretation,
    rules: SkippingRules,
    stats: Row,
    col: Path,
    val: ScalarV,
    inverted: bool,
)
    requires
        has_partition_value(rules, stats, col),
    ensures
        pred_value(it, stats, rules.equal(col, val, inverted)) == (match scalar_order(
            stats(seq!["partitionValues_parsed"@] + col),
            val,
        ) {
            Some(c) => Some((c == Comparison::Equal) != inverted),
            None => None,
        }),
{
    lemma_partition_compare(it, rules, stats, col, Comparison::Equal, val, true);
    lemma_partition_compare(it, rules, stats, col, Comparison::Less, val, true);
    lemma_partition_compare(it, rules, stats, col, Comparison::Greater, val, true);
    if inverted {
        let part = rules.compare_min(col, val, Comparison::Equal, true);
        lemma_two(it, stats, JunctionPredicateOp::Or, part, part, false);
    } else {
        lemma_two(
            it,
            stats,
            JunctionPredicateOp::And,
            rules.compare_min(col, val, Comparison::Greater, true),
            rules.compare_max(col, val, Comparison::Less, true),
            false,
        );
    }
}

// ---------------------------------------------------------------------------------------------
// Compound predicates
// ---------------------------------------------------------------------------------------------

/// A conjunction drops a file that one of its parts drops, and a disjunction one that all of its
/// parts drop; negated, each does as the other with its parts negated.
pub proof fn parts_drop_files(
    it: Interpretation,
    rules: SkippingRules,
    stats: Row,
    parts: Seq<PredV>,
    as_filter: bool,
)
    ensures
        ({
            let and = PredV::Junction(JunctionPredicateOp::And, parts);
            let or = PredV::Junction(JunctionPredicateOp::Or, parts);
            let some_part = exists|i: int|
                0 <= i < parts.len() && drops(it, rules, stats, #[trigger] parts[i], as_filter);
            let all_parts = forall|i: int|
                0 <= i < parts.len() ==> drops(it, rules, stats, #[trigger] parts[i], as_filter);
            let some_negated = exists|i: int|
                0 <= i < parts.len() && drops(
                    it,
                    rules,
                    stats,
                    negation(#[trigger] parts[i]),
                    as_filter,
                );
            let all_negated = forall|i: int|
                0 <= i < parts.len() ==> drops(
                    it,
                    rules,
                    stats,
                    negation(#[trigger] parts[i]),
                    as_filter,
                );
            &&& some_part ==> drops(it, rules, stats, and, as_filter)
            &&& all_parts ==> drops(it, rules, stats, or, as_filter)
            &&& all_negated ==> drops(it, rules, stats, negation(and), as_filter)
            &&& some_negated ==> drops(it, rules, stats, negation(or), as_filter)
        }),
{
    lemma_parts(it, rules, stats, parts, false, as_filter);
    lemma_parts(it, rules, stats, parts, true, as_filter);
}

proof fn lemma_parts(
    it: Interpretation,
    rules: SkippingRules,
    stats: Row,
    parts: Seq<PredV>,
    inverted: bool,
    as_filter: bool,
)
    ensures
        ({
            let dropped = |p: PredV|
                drops(
                    it,
                    rules,
                    stats,
                    if inverted {
                        negation(p)
                    } else {
                        p
                    },
                    as_filter,
                );
            let and = PredV::Junction(
                if inverted {
                    JunctionPredicateOp::Or
                } else {
                    JunctionPredicateOp::And
                },
                parts,
            );
            let or = PredV::Junction(
                if inverted {
                    JunctionPredicateOp::And
                } else {
                    JunctionPredicateOp::Or
                },
                parts,
            );
            &&& (exists|i: int| 0 <= i < parts.len() && dropped(#[trigger] parts[i])) ==> dropped(
                and,
            )
            &&& (forall|i: int| 0 <= i < parts.len() ==> dropped(#[trigger] parts[i])) ==> dropped(
                or,
            )
        }),
{
    let dropped = |p: PredV|
        drops(
            it,
            rules,
            stats,
            if inverted {
                negation(p)
            } else {
                p
            },
            as_filter,
        );
    let and = if inverted {
        JunctionPredicateOp::Or
    } else {
        JunctionPredicateOp::And
    };
    let or = if inverted {
        JunctionPredicateOp::And
    } else {
        JunctionPredicateOp::Or
    };
    reveal_with_fuel(rewrite_pred, 2);
    reveal_with_fuel(rewrite_sql_where, 2);
    let rewrites = if as_filter {
        rewrite_sql_wheres(rules, parts, inverted)
    } else {
        rewrite_preds(rules, parts, inverted)
    };
    junction_value_keeps_unknowns(it, stats, and, rewrites, inverted);
    junction_value_keeps_unknowns(it, stats, or, rewrites, inverted);
    let values = skip_values(it, stats, rewrites);
    connectives_are_three_valued(values);
    if exists|i: int| 0 <= i < parts.len() && dropped(#[trigger] parts[i]) {
        let k = choose|i: int| 0 <= i < parts.len() && dropped(#[trigger] parts[i]);
        assert(values[k] == Some(false));
    }
    if forall|i: int| 0 <= i < parts.len() ==> dropped(#[trigger] parts[i]) {
        assert forall|i: int| 0 <= i < values.len() implies #[trigger] values[i] == Some(false) by {
            assert(dropped(parts[i]));
        }
    }
}

/// Negating twice changes nothing, and literals drop every file or none; as a filter NULL drops
/// every file.
pub proof fn double_negation_and_literals(
    it: Interpretation,
    rules: SkippingRules,
    stats: Row,
    p: PredV,
    as_filter: bool,
)
    ensures
        drops(it, rules, stats, negation(negation(p)), as_filter) == drops(
            it,
            rules,
            stats,
            p,
            as_filter,
        ),
        drops(it, rules, stats, PredV::literal(false), as_filter),
        drops(it, rules, stats, negation(PredV::literal(true)), as_filter),
        !drops(it, rules, stats, PredV::literal(true), as_filter),
        drops(it, rules, stats, PredV::null(), true),
        drops(it, rules, stats, negation(PredV::null()), true),
        !drops(it, rules, stats, PredV::null(), false),
{
    reveal_with_fuel(rewrite_pred, 3);
    reveal_with_fuel(rewrite_expr, 3);
    reveal_with_fuel(rewrite_sql_where, 3);
    reveal_with_fuel(pred_value, 3);
    reveal_with_fuel(expr_value, 3);
}

/// A part of a checkpoint without NULLs in a column is dropped for `IS NULL`.
pub proof fn null_counts_drop_checkpoint_parts(
    it: Interpretation,
    partition: Set<Path>,
    floating: Set<Path>,
    stats_columns: Set<Path>,
    stats: Row,
    col: Path,
)
    requires
        stats_columns.contains(col),
        !partition.contains(col),
        null_count(stats, col) == ScalarV::Long(0),
    ensures
        dropped_by(
            it,
            checkpoint_rules(partition, floating, stats_columns),
            stats,
            PredV::IsNull(Box::new(ExprV::Column(col))),
        ),
{
    reveal_with_fuel(rewrite_pred, 2);
    reveal_with_fuel(rewrite_sql_where, 2);
    reveal_with_fuel(pred_value, 3);
    reveal_with_fuel(expr_value, 2);
    let path = seq!["stats_parsed"@, "nullCount"@] + col;
    let nulls = stats(path);
    lemma_column_value(it, stats, path);
    values_are_ordered_as_numbers(0, 0);
    operators_mean_what_they_say(nulls, ScalarV::Long(0));
    lemma_or_of_false(
        it,
        stats,
        PredV::is_null(ExprV::Column(path)),
        comparison(Comparison::Equal, ExprV::Column(path), ScalarV::Long(0), true),
    );
}

/// A comparison of two literals drops every file or none, as its value says.
pub proof fn literals_decide_comparisons(
    it: Interpretation,
    rules: SkippingRules,
    stats: Row,
    op: BinaryPredicateOp,
    a: ScalarV,
    b: ScalarV,
)
    requires
        op == BinaryPredicateOp::LessThan || op == BinaryPredicateOp::GreaterThan || op
            == BinaryPredicateOp::Equal,
        binary_value(op, a, b, false) == Some(false),
    ensures
        dropped_by(
            it,
            rules,
            stats,
            PredV::Binary(op, Box::new(ExprV::Literal(a)), Box::new(ExprV::Literal(b))),
        ),
{
    reveal_with_fuel(pred_value, 2);
    reveal_with_fuel(expr_value, 2);
    assert(pred_value(it, stats, PredV::literal(false)) == Some(false));
    lemma_filter_follows(it, rules, stats, op, ExprV::Literal(a), ExprV::Literal(b), false);
}

/// A predicate that is used as an expression drops what it drops as a predicate.
pub proof fn nested_predicates_drop_the_same(
    it: Interpretation,
    rules: SkippingRules,
    stats: Row,
    p: PredV,
    as_filter: bool,
)
    ensures
        drops(
            it,
            rules,
            stats,
            PredV::BooleanExpression(Box::new(ExprV::Predicate(Box::new(p)))),
            as_filter,
        ) == drops(it, rules, stats, p, as_filter),
{
    let e = ExprV::Predicate(Box::new(p));
    let nested = PredV::BooleanExpression(Box::new(e));
    assert(rewrite_expr(rules, e, false) == rewrite_pred(rules, p, false));
    assert(rewrite_pred(rules, nested, false) == rewrite_expr(rules, e, false));
    assert(rewrite_sql_where(rules, nested, false) == rewrite_sql_where(rules, p, false));
}

/// A predicate that only the engine understands drops an Add by what it implies: where that drops
/// the file, so does the predicate, and its negation likewise by what the negation implies.
pub proof fn opaque_predicates_drop_by_what_they_imply(
    it: Interpretation,
    rules: SkippingRules,
    stats: Row,
    o: OpaqueV,
)
    requires
        !rules.checkpoint,
        stats(seq!["is_add"@]) == ScalarV::Boolean(true),
    ensures
        o.implied matches Some(q) ==> drops(it, rules, stats, *q, false) ==> dropped_by(
            it,
            rules,
            stats,
            PredV::Opaque(o),
        ),
        o.implied_inverted matches Some(q) ==> drops(it, rules, stats, *q, false) ==> dropped_by(
            it,
            rules,
            stats,
            negation(PredV::Opaque(o)),
        ),
{
    let p = PredV::Opaque(o);
    if let Some(q) = o.implied {
        assert(rewrite_pred(rules, p, false) == rules.opaque(rewrite_pred(rules, *q, false)));
        if let Some(r) = rewrite_pred(rules, *q, false) {
            lemma_guard_of_add(it, stats, r);
        }
        assert(rewrite_sql_where(rules, p, false) == rewrite_pred(rules, p, false));
    }
    if let Some(q) = o.implied_inverted {
        assert(rewrite_pred(rules, p, true) == rules.opaque(rewrite_pred(rules, *q, false)));
        assert(rewrite_pred(rules, negation(p), false) == rewrite_pred(rules, p, true));
        if let Some(r) = rewrite_pred(rules, *q, false) {
            lemma_guard_of_add(it, stats, r);
        }
        assert(rewrite_sql_where(rules, p, true) == rewrite_pred(rules, p, true));
        assert(rewrite_sql_where(rules, negation(p), false) == rewrite_sql_where(rules, p, true));
    }
}

/// In checkpoints, the value of a partition column also decides comparisons of the column cast to
/// another type.
pub proof fn cast_partition_values_decide_in_checkpoints(
    it: Interpretation,
    rules: SkippingRules,
    stats: Row,
    row: Row,
    col: Path,
    target: DataTypeV,
    op: BinaryPredicateOp,
    val: ScalarV,
)
    requires
        rules.checkpoint,
        rules.partition.contains(col),
        row(col) == stats(seq!["partitionValues_parsed"@] + col),
        op == BinaryPredicateOp::LessThan || op == BinaryPredicateOp::GreaterThan || op
            == BinaryPredicateOp::Equal,
    ensures
        ({
            let cast = ExprV::Cast(Box::new(ExprV::Column(col)), target);
            let p = PredV::Binary(op, Box::new(cast), Box::new(ExprV::Literal(val)));
            &&& skip_value(it, stats, rewrite_pred(rules, p, false)) == pred_value(it, row, p)
            &&& skip_value(it, stats, rewrite_pred(rules, negation(p), false)) == pred_value(
                it,
                row,
                negation(p),
            )
        }),
{
    let cast = ExprV::Cast(Box::new(ExprV::Column(col)), target);
    let literal = ExprV::Literal(val);
    let p = PredV::Binary(op, Box::new(cast), Box::new(literal));
    let path = seq!["partitionValues_parsed"@] + col;
    let stored = ExprV::Cast(Box::new(ExprV::Column(path)), target);
    lemma_column_value(it, stats, path);
    lemma_column_value(it, row, col);
    assert(expr_value(it, stats, stored) == (it.cast)(stats(path), target));
    assert(expr_value(it, row, cast) == (it.cast)(row(col), target));
    assert(expr_value(it, stats, literal) == val);
    assert(expr_value(it, row, literal) == val);
    let plain = PredV::Binary(op, Box::new(stored), Box::new(literal));
    assert(pred_value(it, stats, plain) == pred_value(it, row, p));
    assert(rewrite_pred(rules, p, false) == Some(plain));
    assert(rewrite_pred(rules, p, true) == Some(negation(plain)));
    assert(rewrite_pred(rules, negation(p), false) == rewrite_pred(rules, p, true));
    assert(pred_value(it, stats, negation(plain)) == negated(pred_value(it, stats, plain)));
    assert(pred_value(it, row, negation(p)) == negated(pred_value(it, row, p)));
}

/// Bounds also decide NULL-safe comparison: a file is dropped for being the same as a value that
/// its bounds leave out, and one without NULLs whose bounds are both the value for being distinct
/// from it.
pub proof fn bounds_decide_distinctness(
    it: Interpretation,
    partition: Set<Path>,
    stats_columns: Set<Path>,
    stats: Row,
    col: Path,
    val: ScalarV,
)
    requires
        stats_columns.contains(col),
        !partition.contains(col),
        has_bounds(val),
    ensures
        ({
            let rules = scan_rules(partition, stats_columns);
            let distinct = compares(col, BinaryPredicateOp::Distinct, val);
            let least = scalar_order(minimum(stats, col), val);
            let most = scalar_order(maximum(stats, col), with_slack(val));
            &&& least == Some(Comparison::Greater) || most == Some(Comparison::Less) ==> dropped_by(
                it,
                rules,
                stats,
                negation(distinct),
            )
            &&& least == Some(Comparison::Equal) && most == Some(Comparison::Equal) && null_count(
                stats,
                col,
            ) == ScalarV::Long(0) ==> dropped_by(it, rules, stats, distinct)
        }),
{
    let rules = scan_rules(partition, stats_columns);
    let op = BinaryPredicateOp::Distinct;
    let distinct = compares(col, op, val);
    let equal = compares(col, BinaryPredicateOp::Equal, val);
    let least = scalar_order(minimum(stats, col), val);
    let most = scalar_order(maximum(stats, col), with_slack(val));
    lemma_distinct_rewrites(rules, col, val);
    lemma_rewrites(rules, BinaryPredicateOp::Equal, ExprV::Column(col), ExprV::Literal(val));
    if least == Some(Comparison::Greater) || most == Some(Comparison::Less) {
        nothing_is_outside_the_bounds(it, rules, stats, col, val);
        lemma_two(
            it,
            stats,
            JunctionPredicateOp::Or,
            rules.is_null(col, true),
            Some(rules.equal(col, val, false)),
            true,
        );
    }
    if least == Some(Comparison::Equal) && most == Some(Comparison::Equal) && null_count(stats, col)
        == ScalarV::Long(0) {
        bounds_that_meet_leave_one_value(it, rules, stats, col, val);
        null_counts_drop_files(it, partition, stats_columns, stats, col, val);
        assert(rewrite_pred(rules, PredV::IsNull(Box::new(ExprV::Column(col))), false)
            == rules.is_null(col, false));
        lemma_two(
            it,
            stats,
            JunctionPredicateOp::Or,
            rules.is_null(col, false),
            Some(rules.equal(col, val, true)),
            false,
        );
    }
}

proof fn lemma_distinct_rewrites(rules: SkippingRules, col: Path, val: ScalarV)
    requires
        !(val is Null),
    ensures
        ({
            let distinct = compares(col, BinaryPredicateOp::Distinct, val);
            let plain = Some(
                junction_of(
                    JunctionPredicateOp::Or,
                    seq![rules.is_null(col, false), Some(rules.equal(col, val, true))],
                    false,
                ),
            );
            let inverted = Some(
                junction_of(
                    JunctionPredicateOp::Or,
                    seq![rules.is_null(col, true), Some(rules.equal(col, val, false))],
                    true,
                ),
            );
            &&& rewrite_pred(rules, distinct, false) == plain
            &&& rewrite_sql_where(rules, distinct, false) == plain
            &&& rewrite_pred(rules, negation(distinct), false) == inverted
            &&& rewrite_sql_where(rules, negation(distinct), false) == inverted
        }),
{
    let distinct = compares(col, BinaryPredicateOp::Distinct, val);
    assert(rewrite_pred(rules, negation(distinct), false) == rewrite_pred(rules, distinct, true));
    assert(rewrite_sql_where(rules, negation(distinct), false) == rewrite_sql_where(
        rules,
        distinct,
        true,
    ));
}

/// As a filter, a boolean column, negated or not, drops a file in which it is known to be NULL
/// throughout; and a partition column drops the file whose value does not satisfy it.
pub proof fn boolean_columns_drop_files(
    it: Interpretation,
    partition: Set<Path>,
    stats_columns: Set<Path>,
    stats: Row,
    col: Path,
    inverted: bool,
)
    ensures
        ({
            let rules = scan_rules(partition, stats_columns);
            let column = PredV::BooleanExpression(Box::new(ExprV::Column(col)));
            let p = if inverted {
                negation(column)
            } else {
                column
            };
            let value = stats(seq!["partitionValues_parsed"@] + col);
            &&& stats_columns.contains(col) && !partition.contains(col) && null_count(stats, col)
                is Long && row_count(stats) == null_count(stats, col) ==> drops(
                it,
                rules,
                stats,
                p,
                true,
            )
            &&& partition.contains(col) && stats(seq!["is_add"@]) == ScalarV::Boolean(true) && (
            value is Null || value == ScalarV::Boolean(inverted)) ==> drops(
                it,
                rules,
                stats,
                p,
                true,
            )
        }),
{
    let rules = scan_rules(partition, stats_columns);
    let column = PredV::BooleanExpression(Box::new(ExprV::Column(col)));
    let is_null = PredV::IsNull(Box::new(ExprV::Column(col)));
    let value = stats(seq!["partitionValues_parsed"@] + col);
    let parts = seq![rules.is_null(col, true), Some(rules.bool_column(col, inverted))];
    assert(rewrite_sql_where(rules, column, inverted) == Some(
        junction_of(JunctionPredicateOp::And, parts, false),
    ));
    assert(rewrite_sql_where(rules, negation(column), false) == rewrite_sql_where(
        rules,
        column,
        true,
    ));
    lemma_two(it, stats, JunctionPredicateOp::And, parts[0], parts[1], false);
    if stats_columns.contains(col) && !partition.contains(col) && null_count(stats, col) is Long
        && row_count(stats) == null_count(stats, col) {
        null_counts_drop_files(it, partition, stats_columns, stats, col, ScalarV::Long(0));
        assert(rewrite_pred(rules, is_null, true) == rules.is_null(col, true));
        assert(rewrite_pred(rules, negation(is_null), false) == rewrite_pred(
            rules,
            is_null,
            true,
        ));
    }
    if partition.contains(col) && stats(seq!["is_add"@]) == ScalarV::Boolean(true) {
        lemma_partition_null(it, rules, stats, col, true);
        lemma_partition_equal(it, rules, stats, col, ScalarV::Boolean(inverted), true);
        lemma_booleans(value, ScalarV::Boolean(inverted));
    }
}

} // verus!
