//! What data skipping guarantees: a file is dropped only when none of its rows passes the filter.

use vstd::prelude::*;

use super::data_skipping::{
    comparison, guarded, junction_of, literal_of, partition_path, rowcount_path, scan_rules,
    stats_path, truncation_adjusted, with_one_null, SkippingRules,
};
use crate::expressions::column::Path;
use crate::expressions::expression::{
    BinaryPredicateOp, ExprV, JunctionPredicateOp, PredV,
};
use crate::expressions::scalar::{
    bytes_key, compare_bytes, scalar_order, Comparison, ScalarV,
};
use crate::kernel_predicates::{
    and_value, binary_value, compared_value, constant_binary, constant_expr, constant_is_null,
    constant_pred, constant_preds, constant_sql_where, constant_sql_wheres, effective_op,
    junction_value, or_value, rewrite_expr, rewrite_pred, rewrite_preds, rewrite_sql_where,
    rewrite_sql_wheres, scalar_value,
};
use crate::schema::{DataTypeV, PrimitiveType};

verus! {

// ---------------------------------------------------------------------------------------------
// The meaning of predicates
// ---------------------------------------------------------------------------------------------

/// A row: its value at each column path.
pub type Row = spec_fn(Path) -> ScalarV;

/// What the engine computes where this library does not look inside.
pub struct Interpretation {
    pub cast: spec_fn(ScalarV, DataTypeV) -> ScalarV,
    pub expr: spec_fn(ExprV, Row) -> ScalarV,
    pub pred: spec_fn(PredV, Row) -> Option<bool>,
}

pub open spec fn negated(value: Option<bool>) -> Option<bool> {
    match value {
        Some(b) => Some(!b),
        None => None,
    }
}

/// The value of an expression on a row.
pub open spec fn expr_value(it: Interpretation, row: Row, e: ExprV) -> ScalarV
    decreases e,
{
    match e {
        ExprV::Literal(s) => s,
        ExprV::Column(path) => row(path),
        ExprV::Cast(inner, target) => (it.cast)(expr_value(it, row, *inner), target),
        ExprV::Predicate(p) => match pred_value(it, row, *p) {
            Some(b) => ScalarV::Boolean(b),
            None => ScalarV::Null(DataTypeV::Primitive(PrimitiveType::Boolean)),
        },
        _ => (it.expr)(e, row),
    }
}

/// The value of a predicate on a row, in three-valued logic.
pub open spec fn pred_value(it: Interpretation, row: Row, p: PredV) -> Option<bool>
    decreases p,
{
    match p {
        PredV::BooleanExpression(e) => match expr_value(it, row, *e) {
            ScalarV::Boolean(b) => Some(b),
            _ => None,
        },
        PredV::Not(a) => negated(pred_value(it, row, *a)),
        PredV::IsNull(e) => Some(expr_value(it, row, *e).is_null()),
        PredV::Binary(op, a, b) => if op == BinaryPredicateOp::In {
            (it.pred)(p, row)
        } else {
            binary_value(op, expr_value(it, row, *a), expr_value(it, row, *b), false)
        },
        PredV::Junction(op, preds) => junction_value(op, pred_values(it, row, preds)),
        PredV::Opaque(_) => (it.pred)(p, row),
        PredV::Unknown(_) => (it.pred)(p, row),
    }
}

/// The values of all operands on a row.
pub open spec fn pred_values(it: Interpretation, row: Row, preds: Seq<PredV>) -> Seq<Option<bool>>
    decreases preds,
{
    Seq::new(
        preds.len(),
        |i: int|
            if 0 <= i < preds.len() {
                pred_value(it, row, preds[i])
            } else {
                None
            },
    )
}

/// The value of a rewrite on a file's statistics; unknown where there is no rewrite. A file is
/// dropped only when this is FALSE.
pub open spec fn skip_value(it: Interpretation, stats: Row, rewrite: Option<PredV>) -> Option<
    bool,
> {
    match rewrite {
        Some(p) => pred_value(it, stats, p),
        None => None,
    }
}

// ---------------------------------------------------------------------------------------------
// Valid statistics
// ---------------------------------------------------------------------------------------------

pub open spec fn at_most(a: ScalarV, b: ScalarV) -> bool {
    scalar_order(a, b) == Some(Comparison::Less) || scalar_order(a, b) == Some(Comparison::Equal)
}

/// Whether `max` is a recorded maximum of values among which is `v`: an upper bound, or, for
/// timestamps, an upper bound truncated down to milliseconds.
pub open spec fn within_max(v: ScalarV, max: ScalarV) -> bool {
    at_most(v, max) || match (v, max) {
        (ScalarV::Timestamp(x), ScalarV::Timestamp(m)) => m % 1000 == 0 && x <= m + 999,
        (ScalarV::TimestampNtz(x), ScalarV::TimestampNtz(m)) => m % 1000 == 0 && x <= m + 999,
        _ => false,
    }
}

/// Whether `stats` are correct statistics for a file that holds `row`, as far as column `col`
/// goes. Every statistic may be missing.
pub open spec fn describes_column(rules: SkippingRules, stats: Row, row: Row, col: Path) -> bool {
    if rules.partition.contains(col) {
        row(col) == stats(partition_path(col))
    } else if rules.stats.contains(col) {
        let v = row(col);
        let min = stats(stats_path("minValues"@, col));
        let max = stats(stats_path("maxValues"@, col));
        let nulls = stats(stats_path("nullCount"@, col));
        &&& min.is_null() || v.is_null() || at_most(min, v)
        &&& max.is_null() || v.is_null() || within_max(v, max)
        &&& nulls.is_null() || nulls is Long
        &&& nulls == ScalarV::Long(0) ==> !v.is_null()
        &&& nulls is Long && nulls == stats(rowcount_path()) ==> v.is_null()
    } else {
        true
    }
}

/// Whether `stats` are correct statistics for a file that holds `row`.
pub open spec fn describes(rules: SkippingRules, stats: Row, row: Row) -> bool {
    forall|col: Path| #[trigger] describes_column(rules, stats, row, col)
}

/// Whether what the engine says that the opaque parts of `p` imply does follow from them on this
/// row.
pub open spec fn opaques_sound(it: Interpretation, row: Row, p: PredV) -> bool
    decreases p,
{
    match p {
        PredV::BooleanExpression(e) => expr_opaques_sound(it, row, *e),
        PredV::Not(a) => opaques_sound(it, row, *a),
        PredV::Junction(_, preds) => forall|i: int|
            0 <= i < preds.len() ==> opaques_sound(it, row, #[trigger] preds[i]),
        PredV::Opaque(o) => {
            &&& o.implied matches Some(q) ==> opaques_sound(it, row, *q) && (pred_value(it, row, p)
                == Some(true) ==> pred_value(it, row, *q) == Some(true))
            &&& o.implied_inverted matches Some(q) ==> opaques_sound(it, row, *q) && (pred_value(
                it,
                row,
                p,
            ) == Some(false) ==> pred_value(it, row, *q) == Some(true))
        },
        _ => true,
    }
}

pub open spec fn expr_opaques_sound(it: Interpretation, row: Row, e: ExprV) -> bool
    decreases e,
{
    match e {
        ExprV::Predicate(p) => opaques_sound(it, row, *p),
        _ => true,
    }
}

// ---------------------------------------------------------------------------------------------
// The order of values
// ---------------------------------------------------------------------------------------------

pub open spec fn flipped(c: Comparison) -> Comparison {
    match c {
        Comparison::Less => Comparison::Greater,
        Comparison::Equal => Comparison::Equal,
        Comparison::Greater => Comparison::Less,
    }
}

proof fn lemma_bytes_flip(a: Seq<u8>, b: Seq<u8>)
    ensures
        compare_bytes(b, a) == flipped(compare_bytes(a, b)),
    decreases a.len(),
{
    if a.len() > 0 && b.len() > 0 && a[0] == b[0] {
        lemma_bytes_flip(a.drop_first(), b.drop_first());
    }
}

proof fn lemma_bytes_transitive(a: Seq<u8>, b: Seq<u8>, c: Seq<u8>)
    ensures
        compare_bytes(a, b) == Comparison::Equal ==> compare_bytes(a, c) == compare_bytes(b, c),
        compare_bytes(b, c) == Comparison::Equal ==> compare_bytes(a, c) == compare_bytes(a, b),
        compare_bytes(a, b) == compare_bytes(b, c) ==> compare_bytes(a, c) == compare_bytes(a, b),
    decreases a.len(),
{
    if a.len() > 0 && b.len() > 0 && c.len() > 0 && a[0] == b[0] && b[0] == c[0] {
        lemma_bytes_transitive(a.drop_first(), b.drop_first(), c.drop_first());
    }
}

/// Exchanging two values turns their order around.
pub proof fn lemma_order_flip(a: ScalarV, b: ScalarV)
    ensures
        scalar_order(b, a) == (match scalar_order(a, b) {
            Some(c) => Some(flipped(c)),
            None => None,
        }),
{
    reveal(scalar_order);
    if let (Some((_, x)), Some((_, y))) = (bytes_key(a), bytes_key(b)) {
        lemma_bytes_flip(x, y);
    }
}

proof fn lemma_order_equal(a: ScalarV, b: ScalarV)
    requires
        scalar_order(a, b) == Some(Comparison::Equal),
    ensures
        a is Long || b is Long || a is Boolean || b is Boolean ==> a == b,
{
    reveal(scalar_order);
}

proof fn lemma_order_types(a: ScalarV, b: ScalarV)
    requires
        scalar_order(a, b) is Some,
    ensures
        !a.is_null(),
        !b.is_null(),
        a is Timestamp <==> b is Timestamp,
        a is TimestampNtz <==> b is TimestampNtz,
        a is String <==> b is String,
        a is Binary <==> b is Binary,
        a is Long <==> b is Long,
        a is Boolean <==> b is Boolean,
{
    reveal(scalar_order);
}

/// The order of values is transitive, and equal values compare alike with others.
pub proof fn lemma_order_transitive(a: ScalarV, b: ScalarV, c: ScalarV)
    requires
        scalar_order(a, b) is Some,
        scalar_order(b, c) is Some,
    ensures
        scalar_order(a, c) is Some,
        scalar_order(a, b) == Some(Comparison::Equal) ==> scalar_order(a, c) == scalar_order(b, c),
        scalar_order(b, c) == Some(Comparison::Equal) ==> scalar_order(a, c) == scalar_order(a, b),
        scalar_order(a, b) == scalar_order(b, c) ==> scalar_order(a, c) == scalar_order(a, b),
{
    reveal(scalar_order);
    if let (Some((_, x)), Some((_, y)), Some((_, z))) = (bytes_key(a), bytes_key(b), bytes_key(c)) {
        lemma_bytes_transitive(x, y, z);
    }
}

/// A comparison, as `comparison_predicate` makes it, is TRUE if and only if the values stand in its
/// relation, and its negation if and only if they do not. The column stands on the left in both.
pub proof fn negated_comparison_is_opposite(
    it: Interpretation,
    row: Row,
    ord: Comparison,
    col: ExprV,
    val: ScalarV,
)
    requires
        scalar_order(expr_value(it, row, col), val) is Some,
    ensures
        ({
            let plain = comparison(ord, col, val, false);
            let negation = comparison(ord, col, val, true);
            let holds = scalar_order(expr_value(it, row, col), val) == Some(ord);
            &&& pred_value(it, row, plain) == Some(holds)
            &&& pred_value(it, row, negation) == Some(!holds)
            &&& plain matches PredV::Binary(_, left, _) && *left == col
            &&& negation == PredV::not(plain)
        }),
{
    reveal_with_fuel(pred_value, 2);
    let literal = ExprV::Literal(val);
    assert(expr_value(it, row, literal) == val);
}

/// A literal comparison read with its operands exchanged.
proof fn lemma_commute(op: BinaryPredicateOp, a: ScalarV, b: ScalarV)
    requires
        op != BinaryPredicateOp::In,
    ensures
        op.commute() is Some,
        op.commute()->0 != BinaryPredicateOp::In,
        binary_value(op, a, b, false) == binary_value(op.commute()->0, b, a, false),
{
    lemma_order_flip(a, b);
}

/// A value that lies within the adjusted maximum cannot exceed the literal.
proof fn lemma_max_bound(v: ScalarV, max: ScalarV, val: ScalarV)
    requires
        within_max(v, max),
        scalar_order(max, truncation_adjusted(val)) is Some,
    ensures
        scalar_order(v, val) is Some,
        scalar_order(max, truncation_adjusted(val)) == Some(Comparison::Less) ==> scalar_order(
            v,
            val,
        ) == Some(Comparison::Less),
        scalar_order(max, truncation_adjusted(val)) == Some(Comparison::Equal) ==> scalar_order(
            v,
            val,
        ) != Some(Comparison::Greater),
{
    lemma_order_types(max, truncation_adjusted(val));
    match val {
        ScalarV::Timestamp(x) => {
            reveal(scalar_order);
            assert(i64::MIN % 1000 != 0);
        },
        ScalarV::TimestampNtz(x) => {
            reveal(scalar_order);
            assert(i64::MIN % 1000 != 0);
        },
        _ => {
            lemma_order_transitive(v, max, val);
        },
    }
}

// ---------------------------------------------------------------------------------------------
// Junctions
// ---------------------------------------------------------------------------------------------

/// The values of all operand rewrites.
pub open spec fn skip_values(it: Interpretation, stats: Row, rewrites: Seq<Option<PredV>>) -> Seq<
    Option<bool>,
> {
    rewrites.map_values(|r: Option<PredV>| skip_value(it, stats, r))
}

proof fn lemma_null_value(it: Interpretation, stats: Row)
    ensures
        pred_value(it, stats, PredV::null()) is None,
{
    reveal_with_fuel(pred_value, 2);
    reveal_with_fuel(expr_value, 2);
}

proof fn lemma_with_one_null(it: Interpretation, stats: Row, rewrites: Seq<Option<PredV>>)
    ensures
        forall|v: Option<bool>| #[trigger]
            pred_values(it, stats, with_one_null(rewrites)).contains(v) <==> skip_values(
                it,
                stats,
                rewrites,
            ).contains(v),
    decreases rewrites.len(),
{
    let out = pred_values(it, stats, with_one_null(rewrites));
    let all = skip_values(it, stats, rewrites);
    if rewrites.len() > 0 {
        let init = rewrites.drop_last();
        let last = rewrites.last();
        lemma_with_one_null(it, stats, init);
        lemma_null_value(it, stats);
        let out0 = pred_values(it, stats, with_one_null(init));
        let all0 = skip_values(it, stats, init);
        assert(all =~= all0.push(skip_value(it, stats, last)));
        match last {
            Some(p) => {
                assert(out =~= out0.push(pred_value(it, stats, p)));
            },
            None => {
                if init.contains(None) {
                    let k = choose|k: int| 0 <= k < init.len() && init[k] is None;
                    assert(all0[k] is None);
                    assert(all0.contains(None));
                    assert(out =~= out0);
                } else {
                    assert(out =~= out0.push(None));
                }
            },
        }
        assert forall|v: Option<bool>| #[trigger] out.contains(v) <==> all.contains(v) by {
            lemma_push_contains(all0, skip_value(it, stats, last), v);
            match last {
                Some(p) => lemma_push_contains(out0, pred_value(it, stats, p), v),
                None => {
                    if !init.contains(None) {
                        lemma_push_contains(out0, None, v);
                    }
                },
            }
        }
    }
}

proof fn lemma_push_contains(s: Seq<Option<bool>>, x: Option<bool>, v: Option<bool>)
    ensures
        s.push(x).contains(v) <==> (s.contains(v) || v == x),
{
    if s.contains(v) {
        let k = choose|k: int| 0 <= k < s.len() && s[k] == v;
        assert(s.push(x)[k] == v);
    }
    if v == x {
        assert(s.push(x)[s.len() as int] == v);
    }
    if s.push(x).contains(v) {
        let k = choose|k: int| 0 <= k < s.push(x).len() && s.push(x)[k] == v;
        if k < s.len() {
            assert(s[k] == v);
        }
    }
}

/// One NULL among the operands of a junction stands for all operands that have no rewrite.
pub proof fn junction_value_keeps_unknowns(
    it: Interpretation,
    stats: Row,
    op: JunctionPredicateOp,
    rewrites: Seq<Option<PredV>>,
    inverted: bool,
)
    ensures
        pred_value(it, stats, junction_of(op, rewrites, inverted)) == junction_value(
            effective_op(op, inverted),
            skip_values(it, stats, rewrites),
        ),
{
    lemma_with_one_null(it, stats, rewrites);
    let out = pred_values(it, stats, with_one_null(rewrites));
    assert(out.contains(Some(true)) <==> skip_values(it, stats, rewrites).contains(Some(true)));
    assert(out.contains(Some(false)) <==> skip_values(it, stats, rewrites).contains(Some(false)));
    assert(out.contains(None) <==> skip_values(it, stats, rewrites).contains(None));
}

/// The value of a two-operand OR.
proof fn lemma_or_false(it: Interpretation, stats: Row, a: PredV, b: PredV)
    ensures
        pred_value(it, stats, PredV::or(a, b)) == Some(false) <==> pred_value(it, stats, a) == Some(
            false,
        ) && pred_value(it, stats, b) == Some(false),
{
    let values = pred_values(it, stats, seq![a, b]);
    assert(values =~= seq![pred_value(it, stats, a), pred_value(it, stats, b)]);
    assert(values[0] == pred_value(it, stats, a));
    assert(values[1] == pred_value(it, stats, b));
    assert(pred_value(it, stats, PredV::or(a, b)) == or_value(values));
    lemma_value_in(values, 0);
    lemma_value_in(values, 1);
}

/// An operand that is not FALSE keeps an OR from being FALSE, one that is not TRUE keeps an AND
/// from being TRUE.
proof fn lemma_value_in(values: Seq<Option<bool>>, i: int)
    requires
        0 <= i < values.len(),
    ensures
        values[i] != Some(false) ==> or_value(values) != Some(false),
        values[i] != Some(true) ==> and_value(values) != Some(true),
        values[i] == Some(false) ==> and_value(values) == Some(false),
        values[i] == Some(true) ==> or_value(values) == Some(true),
{
    assert(values.contains(values[i]));
    match values[i] {
        Some(b) => {
            if b {
                assert(values[i] == Some(true));
            } else {
                assert(values[i] == Some(false));
            }
        },
        None => {},
    }
}

// ---------------------------------------------------------------------------------------------
// Soundness of the rewrites
// ---------------------------------------------------------------------------------------------

/// Comparing a statistic with a literal yields FALSE only if the plain comparison does.
proof fn lemma_compare(
    it: Interpretation,
    stats: Row,
    rules: SkippingRules,
    ord: Comparison,
    path: Path,
    val: ScalarV,
    inverted: bool,
)
    ensures
        pred_value(it, stats, rules.compare(ord, ExprV::Column(path), val, inverted)) == Some(false)
            ==> compared_value(ord, stats(path), val, inverted) == Some(false),
        pred_value(it, stats, comparison(ord, ExprV::Column(path), val, inverted))
            == compared_value(ord, stats(path), val, inverted),
{
    let stat = ExprV::Column(path);
    lemma_comparison(it, stats, ord, stat, val, inverted);
    let plain = comparison(ord, stat, val, inverted);
    lemma_or_false(it, stats, PredV::is_null(stat), plain);
    lemma_or_false(it, stats, PredV::not(PredV::column(seq!["is_add"@])), plain);
}

proof fn lemma_comparison(
    it: Interpretation,
    stats: Row,
    ord: Comparison,
    e: ExprV,
    val: ScalarV,
    inverted: bool,
)
    ensures
        pred_value(it, stats, comparison(ord, e, val, inverted)) == compared_value(
            ord,
            expr_value(it, stats, e),
            val,
            inverted,
        ),
{
    reveal_with_fuel(pred_value, 3);
    reveal_with_fuel(expr_value, 3);
}

/// Whether the rewrite is sound for the predicate (or, with `inverted`, its negation): FALSE on
/// the statistics only if the row does not satisfy it.
pub open spec fn rules_out(skip: Option<bool>, value: Option<bool>, inverted: bool) -> bool {
    skip == Some(false) ==> value != Some(!inverted)
}

proof fn lemma_less(
    it: Interpretation,
    rules: SkippingRules,
    stats: Row,
    row: Row,
    col: Path,
    val: ScalarV,
    inverted: bool,
)
    requires
        describes(rules, stats, row),
    ensures
        rules_out(
            skip_value(it, stats, rules.less(col, val, inverted)),
            binary_value(BinaryPredicateOp::LessThan, row(col), val, false),
            inverted,
        ),
        rules_out(
            skip_value(it, stats, rules.greater(col, val, inverted)),
            binary_value(BinaryPredicateOp::GreaterThan, row(col), val, false),
            inverted,
        ),
{
    assert(describes_column(rules, stats, row, col));
    let v = row(col);
    if scalar_order(v, val) is Some {
        lemma_order_types(v, val);
    }
    let min = stats(stats_path("minValues"@, col));
    let max = stats(stats_path("maxValues"@, col));
    let part = stats(partition_path(col));
    let ords = (Comparison::Less, Comparison::Greater);
    lemma_compare(it, stats, rules, ords.0, stats_path("minValues"@, col), val, inverted);
    lemma_compare(it, stats, rules, ords.1, stats_path("minValues"@, col), val, inverted);
    lemma_compare(it, stats, rules, ords.0, partition_path(col), val, inverted);
    lemma_compare(it, stats, rules, ords.1, partition_path(col), val, inverted);
    let adjusted = truncation_adjusted(val);
    lemma_compare(it, stats, rules, ords.0, stats_path("maxValues"@, col), adjusted, inverted);
    lemma_compare(it, stats, rules, ords.1, stats_path("maxValues"@, col), adjusted, inverted);
    if !rules.partition.contains(col) && rules.stats.contains(col) {
        if scalar_order(min, val) is Some && !v.is_null() {
            lemma_order_types(min, val);
            lemma_order_flip(min, v);
            lemma_order_transitive(v, min, val);
        }
        if scalar_order(max, adjusted) is Some && !v.is_null() {
            lemma_order_types(max, adjusted);
            lemma_max_bound(v, max, val);
        }
    }
}

/// Without the bounds enclosing `val` no row equals it; with both bounds equal to it no row
/// differs.
proof fn lemma_equal(
    it: Interpretation,
    rules: SkippingRules,
    stats: Row,
    row: Row,
    col: Path,
    val: ScalarV,
    inverted: bool,
)
    requires
        describes(rules, stats, row),
    ensures
        rules_out(
            pred_value(it, stats, rules.equal(col, val, inverted)),
            binary_value(BinaryPredicateOp::Equal, row(col), val, false),
            inverted,
        ),
{
    assert(describes_column(rules, stats, row, col));
    let v = row(col);
    if scalar_order(v, val) is Some {
        lemma_order_types(v, val);
    }
    let min = stats(stats_path("minValues"@, col));
    let max = stats(stats_path("maxValues"@, col));
    let adjusted = truncation_adjusted(val);
    let minp = stats_path("minValues"@, col);
    let maxp = stats_path("maxValues"@, col);
    let partp = partition_path(col);
    lemma_compare(it, stats, rules, Comparison::Equal, minp, val, true);
    lemma_compare(it, stats, rules, Comparison::Equal, maxp, adjusted, true);
    lemma_compare(it, stats, rules, Comparison::Equal, partp, val, true);
    lemma_compare(it, stats, rules, Comparison::Greater, minp, val, true);
    lemma_compare(it, stats, rules, Comparison::Less, maxp, adjusted, true);
    lemma_compare(it, stats, rules, Comparison::Greater, partp, val, true);
    lemma_compare(it, stats, rules, Comparison::Less, partp, val, true);
    let ords = if inverted {
        (Comparison::Equal, Comparison::Equal)
    } else {
        (Comparison::Greater, Comparison::Less)
    };
    let rewrites = seq![
        rules.compare_min(col, val, ords.0, true),
        rules.compare_max(col, val, ords.1, true),
    ];
    let op = if inverted {
        JunctionPredicateOp::Or
    } else {
        JunctionPredicateOp::And
    };
    assert(rules.equal(col, val, inverted) == junction_of(op, rewrites, false));
    junction_value_keeps_unknowns(it, stats, op, rewrites, false);
    let values = skip_values(it, stats, rewrites);
    assert(values.len() == 2);
    assert(values[0] == skip_value(it, stats, rewrites[0]));
    assert(values[1] == skip_value(it, stats, rewrites[1]));
    if !rules.partition.contains(col) && rules.stats.contains(col) {
        if scalar_order(min, val) is Some && !v.is_null() {
            lemma_order_types(min, val);
            lemma_order_flip(min, v);
            lemma_order_transitive(v, min, val);
        }
        if scalar_order(max, adjusted) is Some && !v.is_null() {
            lemma_order_types(max, adjusted);
            lemma_max_bound(v, max, val);
        }
    }
    if pred_value(it, stats, rules.equal(col, val, inverted)) == Some(false) {
        if inverted {
            lemma_value_in(values, 0);
            lemma_value_in(values, 1);
            assert(values[0] == Some(false) && values[1] == Some(false));
        } else {
            assert(and_value(values) == Some(false));
            assert(values[0] == Some(false) || values[1] == Some(false));
        }
    }
}

proof fn lemma_is_null(
    it: Interpretation,
    rules: SkippingRules,
    stats: Row,
    row: Row,
    col: Path,
    inverted: bool,
)
    requires
        describes(rules, stats, row),
    ensures
        rules_out(
            skip_value(it, stats, rules.is_null(col, inverted)),
            Some(row(col).is_null()),
            inverted,
        ),
{
    assert(describes_column(rules, stats, row, col));
    reveal_with_fuel(pred_value, 3);
    reveal_with_fuel(expr_value, 3);
    let value = ExprV::Column(partition_path(col));
    let is_add = PredV::not(PredV::column(seq!["is_add"@]));
    lemma_or_false(it, stats, is_add, PredV::is_null(value));
    lemma_or_false(it, stats, is_add, PredV::is_not_null(value));
    let nulls = ExprV::Column(stats_path("nullCount"@, col));
    lemma_or_false(
        it,
        stats,
        PredV::is_null(nulls),
        comparison(Comparison::Equal, nulls, ScalarV::Long(0), true),
    );
    lemma_comparison(it, stats, Comparison::Equal, nulls, ScalarV::Long(0), true);
    let count = stats(stats_path("nullCount"@, col));
    if scalar_order(count, ScalarV::Long(0)) == Some(Comparison::Equal) {
        lemma_order_equal(count, ScalarV::Long(0));
    }
    if scalar_order(count, stats(rowcount_path())) == Some(Comparison::Equal) {
        lemma_order_types(count, stats(rowcount_path()));
        lemma_order_equal(count, stats(rowcount_path()));
    }
    if !rules.partition.contains(col) && rules.stats.contains(col) && !rules.checkpoint {
        let other = if inverted {
            ExprV::Column(rowcount_path())
        } else {
            ExprV::Literal(ScalarV::Long(0))
        };
        let equal = PredV::binary(BinaryPredicateOp::Equal, nulls, other);
        assert(pred_value(it, stats, equal) == binary_value(
            BinaryPredicateOp::Equal,
            count,
            expr_value(it, stats, other),
            false,
        ));
        assert(pred_value(it, stats, PredV::not(equal)) == negated(pred_value(it, stats, equal)));
    }
}

proof fn lemma_column_with_scalar(
    it: Interpretation,
    rules: SkippingRules,
    stats: Row,
    row: Row,
    op: BinaryPredicateOp,
    col: Path,
    val: ScalarV,
    inverted: bool,
)
    requires
        describes(rules, stats, row),
        op != BinaryPredicateOp::In,
    ensures
        rules_out(
            skip_value(it, stats, rules.column_with_scalar(op, col, val, inverted)),
            binary_value(op, row(col), val, false),
            inverted,
        ),
{
    lemma_less(it, rules, stats, row, col, val, inverted);
    lemma_equal(it, rules, stats, row, col, val, inverted);
    if op == BinaryPredicateOp::Distinct {
        lemma_is_null(it, rules, stats, row, col, inverted);
        lemma_is_null(it, rules, stats, row, col, !inverted);
        lemma_equal(it, rules, stats, row, col, val, !inverted);
        let rewrites = seq![
            rules.is_null(col, inverted),
            Some(rules.equal(col, val, !inverted)),
        ];
        junction_value_keeps_unknowns(it, stats, JunctionPredicateOp::Or, rewrites, inverted);
        let values = skip_values(it, stats, rewrites);
        assert(values.len() == 2);
        assert(values[0] == skip_value(it, stats, rewrites[0]));
        assert(values[1] == skip_value(it, stats, rewrites[1]));
        lemma_value_in(values, 0);
        lemma_value_in(values, 1);
    }
}

proof fn lemma_binary(
    it: Interpretation,
    rules: SkippingRules,
    stats: Row,
    row: Row,
    op: BinaryPredicateOp,
    a: ExprV,
    b: ExprV,
    inverted: bool,
)
    requires
        describes(rules, stats, row),
    ensures
        rules_out(
            skip_value(it, stats, rules.binary(op, a, b, inverted)),
            pred_value(it, row, PredV::binary(op, a, b)),
            inverted,
        ),
{
    if op == BinaryPredicateOp::In {
        lemma_binary_in(it, rules, stats, a, b, inverted);
        return ;
    }
    let value = pred_value(it, row, PredV::binary(op, a, b));
    assert(value == binary_value(op, expr_value(it, row, a), expr_value(it, row, b), false));
    match (a, b) {
        (ExprV::Literal(x), ExprV::Literal(y)) => {
            lemma_literal_value(it, stats, binary_value(op, x, y, inverted));
        },
        (ExprV::Column(col), ExprV::Literal(val)) => {
            lemma_column_with_scalar(it, rules, stats, row, op, col, val, inverted);
        },
        (ExprV::Literal(val), ExprV::Column(col)) => {
            lemma_commute(op, val, row(col));
            lemma_column_with_scalar(
                it,
                rules,
                stats,
                row,
                op.commute()->0,
                col,
                val,
                inverted,
            );
        },
        (ExprV::Cast(e, target), ExprV::Literal(val)) => {
            if let ExprV::Column(col) = *e {
                lemma_cast(it, rules, stats, row, op, col, target, val, inverted);
            }
        },
        (ExprV::Literal(val), ExprV::Cast(e, target)) => {
            if let ExprV::Column(col) = *e {
                lemma_commute(op, val, expr_value(it, row, b));
                lemma_cast(it, rules, stats, row, op.commute()->0, col, target, val, inverted);
            }
        },
        _ => {},
    }
}

proof fn lemma_binary_in(
    it: Interpretation,
    rules: SkippingRules,
    stats: Row,
    a: ExprV,
    b: ExprV,
    inverted: bool,
)
    ensures
        rules.binary(BinaryPredicateOp::In, a, b, inverted) is None,
{
}

proof fn lemma_literal_value(it: Interpretation, stats: Row, value: Option<bool>)
    ensures
        skip_value(it, stats, literal_of(value)) == value,
{
    reveal_with_fuel(pred_value, 2);
    reveal_with_fuel(expr_value, 2);
}

proof fn lemma_cast(
    it: Interpretation,
    rules: SkippingRules,
    stats: Row,
    row: Row,
    op: BinaryPredicateOp,
    col: Path,
    target: DataTypeV,
    val: ScalarV,
    inverted: bool,
)
    requires
        describes(rules, stats, row),
        op != BinaryPredicateOp::In,
    ensures
        rules_out(
            skip_value(it, stats, rules.cast(op, col, target, val, inverted)),
            binary_value(
                op,
                expr_value(it, row, ExprV::Cast(Box::new(ExprV::Column(col)), target)),
                val,
                false,
            ),
            inverted,
        ),
{
    assert(describes_column(rules, stats, row, col));
    reveal_with_fuel(expr_value, 3);
    let value = ExprV::Cast(Box::new(ExprV::Column(partition_path(col))), target);
    lemma_comparison(it, stats, Comparison::Less, value, val, inverted);
    lemma_comparison(it, stats, Comparison::Equal, value, val, inverted);
    lemma_comparison(it, stats, Comparison::Greater, value, val, inverted);
}

proof fn lemma_bool_column(
    it: Interpretation,
    rules: SkippingRules,
    stats: Row,
    row: Row,
    col: Path,
    inverted: bool,
)
    requires
        describes(rules, stats, row),
    ensures
        rules_out(
            pred_value(it, stats, rules.bool_column(col, inverted)),
            pred_value(it, row, PredV::column(col)),
            inverted,
        ),
{
    lemma_equal(it, rules, stats, row, col, ScalarV::Boolean(inverted), true);
    reveal(scalar_order);
    reveal_with_fuel(pred_value, 2);
    reveal_with_fuel(expr_value, 2);
}

/// A junction of sound rewrites is sound.
proof fn lemma_junction(
    it: Interpretation,
    stats: Row,
    op: JunctionPredicateOp,
    rewrites: Seq<Option<PredV>>,
    values: Seq<Option<bool>>,
    inverted: bool,
)
    requires
        rewrites.len() == values.len(),
        forall|i: int|
            0 <= i < values.len() ==> rules_out(
                skip_value(it, stats, rewrites[i]),
                #[trigger] values[i],
                inverted,
            ),
    ensures
        rules_out(
            pred_value(it, stats, junction_of(op, rewrites, inverted)),
            junction_value(op, values),
            inverted,
        ),
{
    junction_value_keeps_unknowns(it, stats, op, rewrites, inverted);
    let skips = skip_values(it, stats, rewrites);
    if pred_value(it, stats, junction_of(op, rewrites, inverted)) == Some(false) {
        match effective_op(op, inverted) {
            JunctionPredicateOp::And => {
                let k = choose|k: int| 0 <= k < skips.len() && skips[k] == Some(false);
                assert(rules_out(skip_value(it, stats, rewrites[k]), values[k], inverted));
                lemma_value_in(values, k);
            },
            JunctionPredicateOp::Or => {
                if values.contains(Some(!inverted)) {
                    let k = choose|k: int| 0 <= k < values.len() && values[k] == Some(!inverted);
                    lemma_value_in(skips, k);
                    assert(skips[k] == Some(false));
                    assert(rules_out(skip_value(it, stats, rewrites[k]), values[k], inverted));
                    assert(false);
                }
            },
        }
    }
}

/// Whether the rewrite of `p`, or of its negation, is sound for this file and row.
pub open spec fn sound_rewrite(
    it: Interpretation,
    rules: SkippingRules,
    stats: Row,
    row: Row,
    p: PredV,
    inverted: bool,
) -> bool {
    rules_out(
        skip_value(it, stats, rewrite_pred(rules, p, inverted)),
        pred_value(it, row, p),
        inverted,
    )
}

/// Whether the rewrite of the filter `p`, or of its negation, is sound for this file and row.
pub open spec fn sound_sql_where(
    it: Interpretation,
    rules: SkippingRules,
    stats: Row,
    row: Row,
    p: PredV,
    inverted: bool,
) -> bool {
    rules_out(
        skip_value(it, stats, rewrite_sql_where(rules, p, inverted)),
        pred_value(it, row, p),
        inverted,
    )
}

proof fn lemma_sound_expr(
    it: Interpretation,
    rules: SkippingRules,
    stats: Row,
    row: Row,
    e: ExprV,
    inverted: bool,
)
    requires
        describes(rules, stats, row),
        !(e is Predicate),
    ensures
        sound_rewrite(it, rules, stats, row, PredV::BooleanExpression(Box::new(e)), inverted),
{
    let p = PredV::BooleanExpression(Box::new(e));
    assert(rewrite_pred(rules, p, inverted) == rewrite_expr(rules, e, inverted));
    match e {
        ExprV::Literal(s) => {
            lemma_literal_value(it, stats, scalar_value(s, inverted));
            assert(expr_value(it, row, e) == s);
        },
        ExprV::Column(col) => {
            assert(p == PredV::column(col));
            lemma_bool_column(it, rules, stats, row, col, inverted);
        },
        _ => {
            assert(rewrite_expr(rules, e, inverted) is None);
        },
    }
}

proof fn lemma_sound_is_null(
    it: Interpretation,
    rules: SkippingRules,
    stats: Row,
    row: Row,
    e: ExprV,
    inverted: bool,
)
    requires
        describes(rules, stats, row),
    ensures
        rules_out(
            skip_value(it, stats, rules.expr_is_null(e, inverted)),
            Some(expr_value(it, row, e).is_null()),
            inverted,
        ),
{
    match e {
        ExprV::Literal(s) => {
            lemma_literal_value(it, stats, Some(s.is_null() != inverted));
        },
        ExprV::Column(col) => {
            lemma_is_null(it, rules, stats, row, col, inverted);
        },
        _ => {},
    }
}

/// The guard on the rewrite of what an opaque predicate implies makes it no less sound.
proof fn lemma_sound_opaque(it: Interpretation, rules: SkippingRules, stats: Row, r: Option<PredV>)
    ensures
        skip_value(it, stats, rules.opaque(r)) == Some(false) ==> skip_value(it, stats, r) == Some(
            false,
        ),
{
    if let Some(q) = r {
        lemma_or_false(it, stats, PredV::not(PredV::column(seq!["is_add"@])), q);
    }
}

/// Dropping a file by the rewrite of a predicate is sound: if the rewrite is FALSE on the
/// statistics of a file, no row of the file satisfies the predicate (or, with `inverted`, its
/// negation). This holds of the rewrites for single files and for checkpoints alike, whatever
/// statistics are missing, as long as those present are correct and what the engine says that its
/// opaque predicates imply does follow from them.
pub proof fn rewrite_is_sound(
    it: Interpretation,
    rules: SkippingRules,
    stats: Row,
    row: Row,
    p: PredV,
    inverted: bool,
)
    requires
        describes(rules, stats, row),
        opaques_sound(it, row, p),
    ensures
        sound_rewrite(it, rules, stats, row, p, inverted),
    decreases p,
{
    match p {
        PredV::BooleanExpression(e) => {
            assert(p == PredV::BooleanExpression(Box::new(*e)));
            if let ExprV::Predicate(q) = *e {
                assert(expr_opaques_sound(it, row, *e));
                rewrite_is_sound(it, rules, stats, row, *q, inverted);
                lemma_nested(it, rules, stats, row, *q, inverted);
                assert(p == nested(*q));
            } else {
                lemma_sound_expr(it, rules, stats, row, *e, inverted);
            }
        },
        PredV::Not(a) => {
            rewrite_is_sound(it, rules, stats, row, *a, !inverted);
        },
        PredV::IsNull(e) => {
            lemma_sound_is_null(it, rules, stats, row, *e, inverted);
        },
        PredV::Binary(op, a, b) => {
            assert(p == PredV::binary(op, *a, *b));
            lemma_binary(it, rules, stats, row, op, *a, *b, inverted);
        },
        PredV::Junction(op, preds) => {
            let rewrites = rewrite_preds(rules, preds, inverted);
            let values = pred_values(it, row, preds);
            assert forall|i: int| 0 <= i < values.len() implies rules_out(
                skip_value(it, stats, rewrites[i]),
                #[trigger] values[i],
                inverted,
            ) by {
                rewrite_is_sound(it, rules, stats, row, preds[i], inverted);
                assert(sound_rewrite(it, rules, stats, row, preds[i], inverted));
            }
            lemma_junction(it, stats, op, rewrites, values, inverted);
        },
        PredV::Opaque(o) => {
            let implied = if inverted {
                o.implied_inverted
            } else {
                o.implied
            };
            if let Some(q) = implied {
                rewrite_is_sound(it, rules, stats, row, *q, false);
                lemma_sound_opaque(it, rules, stats, rewrite_pred(rules, *q, false));
            }
        },
        PredV::Unknown(_) => {},
    }
}

/// A predicate wrapped as an expression and used as a predicate again.
pub open spec fn nested(q: PredV) -> PredV {
    PredV::BooleanExpression(Box::new(ExprV::Predicate(Box::new(q))))
}

proof fn lemma_nested(
    it: Interpretation,
    rules: SkippingRules,
    stats: Row,
    row: Row,
    q: PredV,
    inverted: bool,
)
    ensures
        pred_value(it, row, nested(q)) == pred_value(it, row, q),
        rewrite_pred(rules, nested(q), inverted) == rewrite_pred(rules, q, inverted),
        rewrite_sql_where(rules, nested(q), inverted) == rewrite_sql_where(rules, q, inverted),
{
    reveal_with_fuel(pred_value, 3);
    reveal_with_fuel(expr_value, 3);
    reveal_with_fuel(rewrite_pred, 3);
    reveal_with_fuel(rewrite_expr, 3);
    reveal_with_fuel(rewrite_sql_where, 3);
}

/// An AND is FALSE only if one of its operand rewrites is.
proof fn lemma_and_false(it: Interpretation, stats: Row, rewrites: Seq<Option<PredV>>)
    ensures
        pred_value(it, stats, junction_of(JunctionPredicateOp::And, rewrites, false)) == Some(false)
            ==> exists|i: int|
            0 <= i < rewrites.len() && skip_value(it, stats, #[trigger] rewrites[i]) == Some(false),
{
    junction_value_keeps_unknowns(it, stats, JunctionPredicateOp::And, rewrites, false);
    let skips = skip_values(it, stats, rewrites);
    if and_value(skips) == Some(false) {
        let k = choose|k: int| 0 <= k < skips.len() && skips[k] == Some(false);
        assert(skip_value(it, stats, rewrites[k]) == Some(false));
    }
}

proof fn lemma_sql_where_binary(
    it: Interpretation,
    rules: SkippingRules,
    stats: Row,
    row: Row,
    op: BinaryPredicateOp,
    a: ExprV,
    b: ExprV,
    inverted: bool,
)
    requires
        describes(rules, stats, row),
    ensures
        sound_sql_where(it, rules, stats, row, PredV::binary(op, a, b), inverted),
{
    let p = PredV::binary(op, a, b);
    lemma_binary(it, rules, stats, row, op, a, b, inverted);
    if op.is_null_intolerant() {
        lemma_sound_is_null(it, rules, stats, row, a, true);
        lemma_sound_is_null(it, rules, stats, row, b, true);
        let x = expr_value(it, row, a);
        let y = expr_value(it, row, b);
        if scalar_order(x, y) is Some {
            lemma_order_types(x, y);
        }
        let rewrites = seq![
            rules.expr_is_null(a, true),
            rules.expr_is_null(b, true),
            rules.binary(op, a, b, inverted),
        ];
        lemma_and_false(it, stats, rewrites);
        assert(rewrites.len() == 3);
        assert(rewrites[0] == rules.expr_is_null(a, true));
        assert(rewrites[1] == rules.expr_is_null(b, true));
        assert(rewrites[2] == rules.binary(op, a, b, inverted));
        assert(pred_value(it, row, p) == binary_value(op, x, y, false));
        assert(rewrite_sql_where(rules, p, inverted) == Some(
            junction_of(JunctionPredicateOp::And, rewrites, false),
        ));
    }
}

proof fn lemma_sql_where_expr(
    it: Interpretation,
    rules: SkippingRules,
    stats: Row,
    row: Row,
    e: ExprV,
    inverted: bool,
)
    requires
        describes(rules, stats, row),
        !(e is Predicate),
    ensures
        sound_sql_where(it, rules, stats, row, PredV::BooleanExpression(Box::new(e)), inverted),
{
    let p = PredV::BooleanExpression(Box::new(e));
    match e {
        ExprV::Literal(s) => {
            lemma_literal_value(it, stats, scalar_value(s, inverted));
            lemma_literal_value(it, stats, Some(false));
            assert(expr_value(it, row, e) == s);
        },
        ExprV::Column(col) => {
            assert(p == PredV::column(col));
            lemma_bool_column(it, rules, stats, row, col, inverted);
            lemma_is_null(it, rules, stats, row, col, true);
            let rewrites = seq![
                rules.is_null(col, true),
                Some(rules.bool_column(col, inverted)),
            ];
            lemma_and_false(it, stats, rewrites);
            assert(rewrites.len() == 2);
            assert(rewrites[0] == rules.is_null(col, true));
            assert(rewrites[1] == Some(rules.bool_column(col, inverted)));
            assert(expr_value(it, row, e) == row(col));
            assert(rewrite_sql_where(rules, p, inverted) == Some(
                junction_of(JunctionPredicateOp::And, rewrites, false),
            ));
        },
        _ => {},
    }
}

/// Dropping a file by the rewrite of a filter is sound: if the rewrite is FALSE on the statistics
/// of a file, the filter keeps no row of it. A filter keeps the rows on which it is TRUE.
pub proof fn sql_where_rewrite_is_sound(
    it: Interpretation,
    rules: SkippingRules,
    stats: Row,
    row: Row,
    p: PredV,
    inverted: bool,
)
    requires
        describes(rules, stats, row),
        opaques_sound(it, row, p),
    ensures
        sound_sql_where(it, rules, stats, row, p, inverted),
    decreases p,
{
    match p {
        PredV::Junction(op, preds) => {
            let rewrites = rewrite_sql_wheres(rules, preds, inverted);
            let values = pred_values(it, row, preds);
            assert forall|i: int| 0 <= i < values.len() implies rules_out(
                skip_value(it, stats, rewrites[i]),
                #[trigger] values[i],
                inverted,
            ) by {
                sql_where_rewrite_is_sound(it, rules, stats, row, preds[i], inverted);
                assert(sound_sql_where(it, rules, stats, row, preds[i], inverted));
            }
            lemma_junction(it, stats, op, rewrites, values, inverted);
        },
        PredV::Binary(op, a, b) => {
            assert(p == PredV::binary(op, *a, *b));
            lemma_sql_where_binary(it, rules, stats, row, op, *a, *b, inverted);
        },
        PredV::Not(a) => {
            sql_where_rewrite_is_sound(it, rules, stats, row, *a, !inverted);
        },
        PredV::BooleanExpression(e) => {
            assert(p == PredV::BooleanExpression(Box::new(*e)));
            if let ExprV::Predicate(q) = *e {
                assert(expr_opaques_sound(it, row, *e));
                sql_where_rewrite_is_sound(it, rules, stats, row, *q, inverted);
                lemma_nested(it, rules, stats, row, *q, inverted);
                assert(p == nested(*q));
            } else {
                lemma_sql_where_expr(it, rules, stats, row, *e, inverted);
            }
        },
        _ => {
            rewrite_is_sound(it, rules, stats, row, p, inverted);
        },
    }
}

// ---------------------------------------------------------------------------------------------
// Rows that are not Adds
// ---------------------------------------------------------------------------------------------

/// What the filter sees of a row that is not an Add: no statistics and no partition values.
pub open spec fn is_not_add(stats: Row) -> bool {
    &&& stats(seq!["is_add"@]) == ScalarV::Boolean(false)
    &&& forall|path: Path|
        path.len() > 0 && (path[0] == "stats_parsed"@ || path[0] == "partitionValues_parsed"@)
            ==> (#[trigger] stats(path)).is_null()
}

/// Whether a rewrite is FALSE only if the constant value is.
pub open spec fn only_constantly_false(skip: Option<bool>, constant: Option<bool>) -> bool {
    skip == Some(false) ==> constant == Some(false)
}

proof fn lemma_guard_of_non_add(it: Interpretation, stats: Row, p: PredV)
    requires
        is_not_add(stats),
    ensures
        pred_value(it, stats, guarded(p)) != Some(false),
{
    let not_add = PredV::not(PredV::column(seq!["is_add"@]));
    reveal_with_fuel(pred_value, 3);
    reveal_with_fuel(expr_value, 3);
    lemma_or_false(it, stats, not_add, p);
}

proof fn lemma_compare_of_non_add(
    it: Interpretation,
    rules: SkippingRules,
    stats: Row,
    ord: Comparison,
    col: Path,
    val: ScalarV,
    inverted: bool,
)
    requires
        is_not_add(stats),
    ensures
        skip_value(it, stats, rules.compare_min(col, val, ord, inverted)) != Some(false),
        skip_value(it, stats, rules.compare_max(col, val, ord, inverted)) != Some(false),
{
    let adjusted = rules.max_comparison_value(col, val);
    let minp = stats_path("minValues"@, col);
    let maxp = stats_path("maxValues"@, col);
    let partp = partition_path(col);
    assert(stats(minp).is_null() && stats(maxp).is_null() && stats(partp).is_null());
    if scalar_order(stats(minp), val) is Some {
        lemma_order_types(stats(minp), val);
    }
    if scalar_order(stats(maxp), adjusted) is Some {
        lemma_order_types(stats(maxp), adjusted);
    }
    if scalar_order(stats(partp), val) is Some {
        lemma_order_types(stats(partp), val);
    }
    lemma_compare(it, stats, rules, ord, minp, val, inverted);
    lemma_compare(it, stats, rules, ord, maxp, adjusted, inverted);
    lemma_compare(it, stats, rules, ord, partp, val, inverted);
}

/// A junction of operands none of which is FALSE is not FALSE.
proof fn lemma_never_false(
    it: Interpretation,
    stats: Row,
    op: JunctionPredicateOp,
    rewrites: Seq<Option<PredV>>,
    inverted: bool,
)
    requires
        rewrites.len() > 0,
        forall|i: int|
            0 <= i < rewrites.len() ==> skip_value(it, stats, #[trigger] rewrites[i]) != Some(
                false,
            ),
    ensures
        pred_value(it, stats, junction_of(op, rewrites, inverted)) != Some(false),
{
    junction_value_keeps_unknowns(it, stats, op, rewrites, inverted);
    let skips = skip_values(it, stats, rewrites);
    assert(skips[0] == skip_value(it, stats, rewrites[0]));
    lemma_value_in(skips, 0);
    if skips.contains(Some(false)) {
        let k = choose|k: int| 0 <= k < skips.len() && skips[k] == Some(false);
        assert(skip_value(it, stats, rewrites[k]) == Some(false));
    }
}

proof fn lemma_equal_of_non_add(
    it: Interpretation,
    rules: SkippingRules,
    stats: Row,
    col: Path,
    val: ScalarV,
    inverted: bool,
)
    requires
        is_not_add(stats),
    ensures
        pred_value(it, stats, rules.equal(col, val, inverted)) != Some(false),
{
    lemma_compare_of_non_add(it, rules, stats, Comparison::Equal, col, val, true);
    lemma_compare_of_non_add(it, rules, stats, Comparison::Greater, col, val, true);
    lemma_compare_of_non_add(it, rules, stats, Comparison::Less, col, val, true);
    let either = seq![
        rules.compare_min(col, val, Comparison::Equal, true),
        rules.compare_max(col, val, Comparison::Equal, true),
    ];
    let both = seq![
        rules.compare_min(col, val, Comparison::Greater, true),
        rules.compare_max(col, val, Comparison::Less, true),
    ];
    lemma_never_false(it, stats, JunctionPredicateOp::Or, either, false);
    lemma_never_false(it, stats, JunctionPredicateOp::And, both, false);
}

proof fn lemma_is_null_of_non_add(
    it: Interpretation,
    rules: SkippingRules,
    stats: Row,
    col: Path,
    inverted: bool,
)
    requires
        is_not_add(stats),
        !rules.checkpoint,
    ensures
        skip_value(it, stats, rules.is_null(col, inverted)) != Some(false),
{
    let value = ExprV::Column(partition_path(col));
    lemma_guard_of_non_add(it, stats, PredV::is_null(value));
    lemma_guard_of_non_add(it, stats, PredV::is_not_null(value));
    let countp = stats_path("nullCount"@, col);
    let count = stats(countp);
    assert(count.is_null());
    if !rules.partition.contains(col) && rules.stats.contains(col) {
        let other = if inverted {
            ExprV::Column(rowcount_path())
        } else {
            ExprV::Literal(ScalarV::Long(0))
        };
        let y = expr_value(it, stats, other);
        if scalar_order(count, y) is Some {
            lemma_order_types(count, y);
        }
        let equal = PredV::binary(BinaryPredicateOp::Equal, ExprV::Column(countp), other);
        assert(expr_value(it, stats, ExprV::Column(countp)) == count);
        assert(pred_value(it, stats, equal) == binary_value(
            BinaryPredicateOp::Equal,
            count,
            y,
            false,
        ));
        assert(pred_value(it, stats, PredV::not(equal)) == negated(pred_value(it, stats, equal)));
    }
}

proof fn lemma_column_of_non_add(
    it: Interpretation,
    rules: SkippingRules,
    stats: Row,
    op: BinaryPredicateOp,
    col: Path,
    val: ScalarV,
    inverted: bool,
)
    requires
        is_not_add(stats),
        !rules.checkpoint,
    ensures
        skip_value(it, stats, rules.column_with_scalar(op, col, val, inverted)) != Some(false),
{
    lemma_compare_of_non_add(it, rules, stats, Comparison::Less, col, val, inverted);
    lemma_compare_of_non_add(it, rules, stats, Comparison::Greater, col, val, inverted);
    lemma_equal_of_non_add(it, rules, stats, col, val, inverted);
    lemma_equal_of_non_add(it, rules, stats, col, val, !inverted);
    lemma_is_null_of_non_add(it, rules, stats, col, inverted);
    lemma_is_null_of_non_add(it, rules, stats, col, !inverted);
    let rewrites = seq![rules.is_null(col, inverted), Some(rules.equal(col, val, !inverted))];
    lemma_never_false(it, stats, JunctionPredicateOp::Or, rewrites, inverted);
}

proof fn lemma_binary_of_non_add(
    it: Interpretation,
    rules: SkippingRules,
    stats: Row,
    op: BinaryPredicateOp,
    a: ExprV,
    b: ExprV,
    inverted: bool,
)
    requires
        is_not_add(stats),
        !rules.checkpoint,
    ensures
        only_constantly_false(
            skip_value(it, stats, rules.binary(op, a, b, inverted)),
            constant_binary(op, a, b, inverted),
        ),
{
    match (a, b) {
        (ExprV::Literal(x), ExprV::Literal(y)) => {
            lemma_literal_value(it, stats, binary_value(op, x, y, inverted));
        },
        (ExprV::Column(col), ExprV::Literal(val)) => {
            lemma_column_of_non_add(it, rules, stats, op, col, val, inverted);
        },
        (ExprV::Literal(val), ExprV::Column(col)) => {
            if let Some(commuted) = op.commute() {
                lemma_column_of_non_add(it, rules, stats, commuted, col, val, inverted);
            }
        },
        _ => {},
    }
}

proof fn lemma_expr_is_null_of_non_add(
    it: Interpretation,
    rules: SkippingRules,
    stats: Row,
    e: ExprV,
    inverted: bool,
)
    requires
        is_not_add(stats),
        !rules.checkpoint,
    ensures
        only_constantly_false(
            skip_value(it, stats, rules.expr_is_null(e, inverted)),
            constant_is_null(e, inverted),
        ),
{
    match e {
        ExprV::Literal(s) => {
            lemma_literal_value(it, stats, Some(s.is_null() != inverted));
        },
        ExprV::Column(col) => {
            lemma_is_null_of_non_add(it, rules, stats, col, inverted);
        },
        _ => {},
    }
}

proof fn lemma_junction_of_non_add(
    it: Interpretation,
    stats: Row,
    op: JunctionPredicateOp,
    rewrites: Seq<Option<PredV>>,
    constants: Seq<Option<bool>>,
    inverted: bool,
)
    requires
        rewrites.len() == constants.len(),
        forall|i: int|
            0 <= i < constants.len() ==> only_constantly_false(
                skip_value(it, stats, rewrites[i]),
                #[trigger] constants[i],
            ),
    ensures
        only_constantly_false(
            pred_value(it, stats, junction_of(op, rewrites, inverted)),
            junction_value(effective_op(op, inverted), constants),
        ),
{
    junction_value_keeps_unknowns(it, stats, op, rewrites, inverted);
    let skips = skip_values(it, stats, rewrites);
    if junction_value(effective_op(op, inverted), skips) == Some(false) {
        match effective_op(op, inverted) {
            JunctionPredicateOp::And => {
                let k = choose|k: int| 0 <= k < skips.len() && skips[k] == Some(false);
                assert(only_constantly_false(skip_value(it, stats, rewrites[k]), constants[k]));
                lemma_value_in(constants, k);
            },
            JunctionPredicateOp::Or => {
                assert forall|i: int| 0 <= i < constants.len() implies #[trigger] constants[i]
                    == Some(false) by {
                    lemma_value_in(skips, i);
                    assert(skips[i] == skip_value(it, stats, rewrites[i]));
                }
                if constants.contains(Some(true)) {
                    let k = choose|k: int| 0 <= k < constants.len() && constants[k] == Some(true);
                    assert(constants[k] == Some(false));
                }
                if constants.contains(None) {
                    let k = choose|k: int| 0 <= k < constants.len() && constants[k] is None;
                    assert(constants[k] == Some(false));
                }
            },
        }
    }
}

proof fn lemma_expr_of_non_add(
    it: Interpretation,
    rules: SkippingRules,
    stats: Row,
    e: ExprV,
    inverted: bool,
)
    requires
        is_not_add(stats),
        !rules.checkpoint,
        !(e is Predicate),
    ensures
        only_constantly_false(
            skip_value(
                it,
                stats,
                rewrite_pred(rules, PredV::BooleanExpression(Box::new(e)), inverted),
            ),
            constant_pred(PredV::BooleanExpression(Box::new(e)), inverted),
        ),
        only_constantly_false(
            skip_value(
                it,
                stats,
                rewrite_sql_where(rules, PredV::BooleanExpression(Box::new(e)), inverted),
            ),
            constant_sql_where(PredV::BooleanExpression(Box::new(e)), inverted),
        ),
{
    let p = PredV::BooleanExpression(Box::new(e));
    assert(rewrite_pred(rules, p, inverted) == rewrite_expr(rules, e, inverted));
    assert(constant_pred(p, inverted) == constant_expr(e, inverted));
    match e {
        ExprV::Literal(s) => {
            lemma_literal_value(it, stats, scalar_value(s, inverted));
            lemma_literal_value(it, stats, Some(false));
        },
        ExprV::Column(col) => {
            lemma_equal_of_non_add(it, rules, stats, col, ScalarV::Boolean(inverted), true);
            lemma_is_null_of_non_add(it, rules, stats, col, true);
            let rewrites = seq![
                rules.is_null(col, true),
                Some(rules.bool_column(col, inverted)),
            ];
            lemma_never_false(it, stats, JunctionPredicateOp::And, rewrites, false);
            assert(rewrite_sql_where(rules, p, inverted) == Some(
                junction_of(JunctionPredicateOp::And, rewrites, false),
            ));
        },
        _ => {},
    }
}

proof fn lemma_nested_constant(q: PredV, inverted: bool)
    ensures
        constant_pred(nested(q), inverted) == constant_pred(q, inverted),
        constant_sql_where(nested(q), inverted) == constant_sql_where(q, inverted),
{
    reveal_with_fuel(constant_pred, 3);
    reveal_with_fuel(constant_expr, 3);
    reveal_with_fuel(constant_sql_where, 3);
}

proof fn lemma_non_add(
    it: Interpretation,
    rules: SkippingRules,
    stats: Row,
    p: PredV,
    inverted: bool,
)
    requires
        is_not_add(stats),
        !rules.checkpoint,
    ensures
        only_constantly_false(
            skip_value(it, stats, rewrite_pred(rules, p, inverted)),
            constant_pred(p, inverted),
        ),
    decreases p,
{
    match p {
        PredV::BooleanExpression(e) => {
            assert(p == PredV::BooleanExpression(Box::new(*e)));
            if let ExprV::Predicate(q) = *e {
                lemma_non_add(it, rules, stats, *q, inverted);
                lemma_nested(it, rules, stats, stats, *q, inverted);
                lemma_nested_constant(*q, inverted);
                assert(p == nested(*q));
            } else {
                lemma_expr_of_non_add(it, rules, stats, *e, inverted);
            }
        },
        PredV::Not(a) => {
            lemma_non_add(it, rules, stats, *a, !inverted);
        },
        PredV::IsNull(e) => {
            lemma_expr_is_null_of_non_add(it, rules, stats, *e, inverted);
        },
        PredV::Binary(op, a, b) => {
            lemma_binary_of_non_add(it, rules, stats, op, *a, *b, inverted);
        },
        PredV::Junction(op, preds) => {
            let rewrites = rewrite_preds(rules, preds, inverted);
            let constants = constant_preds(preds, inverted);
            assert forall|i: int| 0 <= i < constants.len() implies only_constantly_false(
                skip_value(it, stats, rewrites[i]),
                #[trigger] constants[i],
            ) by {
                lemma_non_add(it, rules, stats, preds[i], inverted);
            }
            lemma_junction_of_non_add(it, stats, op, rewrites, constants, inverted);
        },
        PredV::Opaque(o) => {
            let implied = if inverted {
                o.implied_inverted
            } else {
                o.implied
            };
            if let Some(q) = implied {
                if let Some(rewritten) = rewrite_pred(rules, *q, false) {
                    lemma_guard_of_non_add(it, stats, rewritten);
                }
            }
        },
        PredV::Unknown(_) => {},
    }
}

/// Rows that are not Adds survive data skipping: the rewrite for single files is FALSE on such a
/// row only if the filter is FALSE whatever any column holds. A Remove is therefore never lost to
/// a filter that some row could pass.
pub proof fn non_adds_are_never_pruned(
    it: Interpretation,
    partition: Set<Path>,
    stats_columns: Set<Path>,
    stats: Row,
    p: PredV,
    inverted: bool,
)
    requires
        is_not_add(stats),
    ensures
        skip_value(it, stats, rewrite_sql_where(scan_rules(partition, stats_columns), p, inverted))
            == Some(false) ==> constant_sql_where(p, inverted) == Some(false),
    decreases p,
{
    let rules = scan_rules(partition, stats_columns);
    match p {
        PredV::Junction(op, preds) => {
            let rewrites = rewrite_sql_wheres(rules, preds, inverted);
            let constants = constant_sql_wheres(preds, inverted);
            assert forall|i: int| 0 <= i < constants.len() implies only_constantly_false(
                skip_value(it, stats, rewrites[i]),
                #[trigger] constants[i],
            ) by {
                non_adds_are_never_pruned(it, partition, stats_columns, stats, preds[i], inverted);
            }
            lemma_junction_of_non_add(it, stats, op, rewrites, constants, inverted);
        },
        PredV::Binary(op, a, b) => {
            lemma_binary_of_non_add(it, rules, stats, op, *a, *b, inverted);
            if op.is_null_intolerant() {
                lemma_expr_is_null_of_non_add(it, rules, stats, *a, true);
                lemma_expr_is_null_of_non_add(it, rules, stats, *b, true);
                let rewrites = seq![
                    rules.expr_is_null(*a, true),
                    rules.expr_is_null(*b, true),
                    rules.binary(op, *a, *b, inverted),
                ];
                let constants = seq![
                    constant_is_null(*a, true),
                    constant_is_null(*b, true),
                    constant_binary(op, *a, *b, inverted),
                ];
                lemma_junction_of_non_add(
                    it,
                    stats,
                    JunctionPredicateOp::And,
                    rewrites,
                    constants,
                    false,
                );
            }
        },
        PredV::Not(a) => {
            non_adds_are_never_pruned(it, partition, stats_columns, stats, *a, !inverted);
        },
        PredV::BooleanExpression(e) => {
            assert(p == PredV::BooleanExpression(Box::new(*e)));
            if let ExprV::Predicate(q) = *e {
                non_adds_are_never_pruned(it, partition, stats_columns, stats, *q, inverted);
                lemma_nested(it, rules, stats, stats, *q, inverted);
                lemma_nested_constant(*q, inverted);
                assert(p == nested(*q));
            } else {
                lemma_expr_of_non_add(it, rules, stats, *e, inverted);
            }
        },
        _ => {
            lemma_non_add(it, rules, stats, p, inverted);
        },
    }
}

// ---------------------------------------------------------------------------------------------
// Predicates that are FALSE whatever the columns hold
// ---------------------------------------------------------------------------------------------

/// Whether what the engine says of the constant value of opaque predicates is right on this row.
pub open spec fn constants_right(it: Interpretation, row: Row, p: PredV) -> bool
    decreases p,
{
    match p {
        PredV::BooleanExpression(e) => expr_constants_right(it, row, *e),
        PredV::Not(a) => constants_right(it, row, *a),
        PredV::Junction(_, preds) => forall|i: int|
            0 <= i < preds.len() ==> constants_right(it, row, #[trigger] preds[i]),
        PredV::Opaque(o) => o.constant is Some ==> pred_value(it, row, p) == o.constant,
        _ => true,
    }
}

pub open spec fn expr_constants_right(it: Interpretation, row: Row, e: ExprV) -> bool
    decreases e,
{
    match e {
        ExprV::Predicate(p) => constants_right(it, row, *p),
        _ => true,
    }
}

proof fn lemma_constant_junction(
    op: JunctionPredicateOp,
    constants: Seq<Option<bool>>,
    values: Seq<Option<bool>>,
    inverted: bool,
)
    requires
        constants.len() == values.len(),
        forall|i: int|
            0 <= i < values.len() ==> rules_out(constants[i], #[trigger] values[i], inverted),
    ensures
        rules_out(
            junction_value(effective_op(op, inverted), constants),
            junction_value(op, values),
            inverted,
        ),
{
    if junction_value(effective_op(op, inverted), constants) == Some(false) {
        match effective_op(op, inverted) {
            JunctionPredicateOp::And => {
                let k = choose|k: int| 0 <= k < constants.len() && constants[k] == Some(false);
                assert(rules_out(constants[k], values[k], inverted));
                lemma_value_in(values, k);
            },
            JunctionPredicateOp::Or => {
                if values.contains(Some(!inverted)) {
                    let k = choose|k: int| 0 <= k < values.len() && values[k] == Some(!inverted);
                    lemma_value_in(constants, k);
                    assert(rules_out(constants[k], values[k], inverted));
                    assert(false);
                }
            },
        }
    }
}

proof fn lemma_constant_binary(
    it: Interpretation,
    row: Row,
    op: BinaryPredicateOp,
    a: ExprV,
    b: ExprV,
    inverted: bool,
)
    ensures
        rules_out(
            constant_binary(op, a, b, inverted),
            pred_value(it, row, PredV::binary(op, a, b)),
            inverted,
        ),
{
    if op != BinaryPredicateOp::In {
        assert(pred_value(it, row, PredV::binary(op, a, b)) == binary_value(
            op,
            expr_value(it, row, a),
            expr_value(it, row, b),
            false,
        ));
    }
}

proof fn lemma_constant_expr(it: Interpretation, row: Row, e: ExprV, inverted: bool)
    requires
        !(e is Predicate),
    ensures
        rules_out(
            constant_pred(PredV::BooleanExpression(Box::new(e)), inverted),
            pred_value(it, row, PredV::BooleanExpression(Box::new(e))),
            inverted,
        ),
        rules_out(
            constant_sql_where(PredV::BooleanExpression(Box::new(e)), inverted),
            pred_value(it, row, PredV::BooleanExpression(Box::new(e))),
            inverted,
        ),
{
    let p = PredV::BooleanExpression(Box::new(e));
    assert(constant_pred(p, inverted) == constant_expr(e, inverted));
    match e {
        ExprV::Literal(s) => {
            assert(expr_value(it, row, e) == s);
        },
        ExprV::Column(_) => {
            let none: Seq<Option<bool>> = seq![None, None];
            assert(none[0] is None);
            if none.contains(Some(false)) {
                let k = choose|k: int| 0 <= k < none.len() && none[k] == Some(false);
                assert(none[k] is None);
            }
        },
        _ => {},
    }
}

proof fn lemma_constant(it: Interpretation, row: Row, p: PredV, inverted: bool)
    requires
        constants_right(it, row, p),
    ensures
        rules_out(constant_pred(p, inverted), pred_value(it, row, p), inverted),
    decreases p,
{
    match p {
        PredV::BooleanExpression(e) => {
            assert(p == PredV::BooleanExpression(Box::new(*e)));
            if let ExprV::Predicate(q) = *e {
                assert(expr_constants_right(it, row, *e));
                lemma_constant(it, row, *q, inverted);
                lemma_nested_constant(*q, inverted);
                lemma_nested_value(it, row, *q);
                assert(p == nested(*q));
            } else {
                lemma_constant_expr(it, row, *e, inverted);
            }
        },
        PredV::Not(a) => {
            lemma_constant(it, row, *a, !inverted);
        },
        PredV::IsNull(e) => {
            if let ExprV::Literal(s) = *e {
                assert(expr_value(it, row, *e) == s);
            }
        },
        PredV::Binary(op, a, b) => {
            assert(p == PredV::binary(op, *a, *b));
            lemma_constant_binary(it, row, op, *a, *b, inverted);
        },
        PredV::Junction(op, preds) => {
            let constants = constant_preds(preds, inverted);
            let values = pred_values(it, row, preds);
            assert forall|i: int| 0 <= i < values.len() implies rules_out(
                constants[i],
                #[trigger] values[i],
                inverted,
            ) by {
                lemma_constant(it, row, preds[i], inverted);
            }
            lemma_constant_junction(op, constants, values, inverted);
        },
        _ => {},
    }
}

proof fn lemma_nested_value(it: Interpretation, row: Row, q: PredV)
    ensures
        pred_value(it, row, nested(q)) == pred_value(it, row, q),
{
    reveal_with_fuel(pred_value, 3);
    reveal_with_fuel(expr_value, 3);
}

/// A filter that is FALSE without reading any column keeps no row, so all files may be skipped
/// without looking at them.
pub proof fn statically_false_filter_keeps_no_row(
    it: Interpretation,
    row: Row,
    p: PredV,
    inverted: bool,
)
    requires
        constants_right(it, row, p),
    ensures
        constant_sql_where(p, inverted) == Some(false) ==> pred_value(it, row, p) != Some(
            !inverted,
        ),
    decreases p,
{
    match p {
        PredV::Junction(op, preds) => {
            let constants = constant_sql_wheres(preds, inverted);
            let values = pred_values(it, row, preds);
            assert forall|i: int| 0 <= i < values.len() implies rules_out(
                constants[i],
                #[trigger] values[i],
                inverted,
            ) by {
                statically_false_filter_keeps_no_row(it, row, preds[i], inverted);
            }
            lemma_constant_junction(op, constants, values, inverted);
        },
        PredV::Binary(op, a, b) => {
            assert(p == PredV::binary(op, *a, *b));
            lemma_constant_binary(it, row, op, *a, *b, inverted);
            if op.is_null_intolerant() {
                let x = expr_value(it, row, *a);
                let y = expr_value(it, row, *b);
                if scalar_order(x, y) is Some {
                    lemma_order_types(x, y);
                }
                let constants = seq![
                    constant_is_null(*a, true),
                    constant_is_null(*b, true),
                    constant_binary(op, *a, *b, inverted),
                ];
                assert(constants.len() == 3);
                assert(constants[0] == constant_is_null(*a, true));
                assert(constants[1] == constant_is_null(*b, true));
                assert(constants[2] == constant_binary(op, *a, *b, inverted));
                assert(pred_value(it, row, p) == binary_value(op, x, y, false));
                if and_value(constants) == Some(false) {
                    let k = choose|k: int| 0 <= k < constants.len() && constants[k] == Some(false);
                    assert(k == 0 || k == 1 || k == 2);
                }
            }
        },
        PredV::Not(a) => {
            statically_false_filter_keeps_no_row(it, row, *a, !inverted);
        },
        PredV::BooleanExpression(e) => {
            assert(p == PredV::BooleanExpression(Box::new(*e)));
            if let ExprV::Predicate(q) = *e {
                assert(expr_constants_right(it, row, *e));
                statically_false_filter_keeps_no_row(it, row, *q, inverted);
                lemma_nested_constant(*q, inverted);
                lemma_nested_value(it, row, *q);
                assert(p == nested(*q));
            } else {
                lemma_constant_expr(it, row, *e, inverted);
            }
        },
        _ => {
            lemma_constant(it, row, p, inverted);
        },
    }
}

} // verus!
