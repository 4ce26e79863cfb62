//! Which files their partition values drop.

use vstd::prelude::*;

use super::partition_filter::{
    filled, filled_all, filled_operand, known_partition_values, partition_kept,
};
use super::partition_values::ScalarParser;
use super::physical_predicate::PhysicalPredicateV;
use super::skipping_laws::{expr_value, pred_value, pred_values, Interpretation, Row};
use super::skipping_power_laws::{connectives_are_three_valued, operators_mean_what_they_say};
use super::state_info::StateInfo;
use super::transform_spec::partition_value;
use crate::expressions::column::Path;
use crate::expressions::expression::{
    BinaryPredicateOp, ExprV, JunctionPredicateOp, OpaqueV, PredV,
};
use crate::expressions::scalar::ScalarV;
use crate::kernel_predicates::{
    and_value, binary_value, constant_is_null, constant_sql_where, constant_sql_wheres,
    junction_value,
};
use crate::schema::{opt_schema_view, ColumnMappingMode, SchemaV};

verus! {

/// The known values are those of the partition columns whose recorded value can be read, each under
/// the name of its column.
pub proof fn known_values_are_the_recorded_ones<P: ScalarParser>(
    parser: &P,
    schema: SchemaV,
    pairs: Seq<(String, String)>,
    n: nat,
    k: usize,
)
    requires
        k < n <= schema.len() <= usize::MAX,
        forall|i: int, j: int|
            0 <= i < j < schema.len() ==> (#[trigger] schema[i]).name != (#[trigger] schema[j]).name,
    ensures
        ({
            let known = known_partition_values(parser, schema, pairs, n);
            let path = seq![schema[k as int].name];
            match partition_value(parser, schema, k, pairs, ColumnMappingMode::Unmapped) {
                Ok(value) => known.contains_key(path) && known[path] == value,
                Err(_) => !known.contains_key(path),
            }
        }),
    decreases n,
{
    let m = (n - 1) as nat;
    let path = seq![schema[k as int].name];
    let last = seq![schema[n - 1].name];
    if k == m {
        lemma_not_known_yet(parser, schema, pairs, m, k);
    } else {
        known_values_are_the_recorded_ones(parser, schema, pairs, m, k);
        assert(schema[k as int].name != schema[n - 1].name);
        assert(path[0] != last[0]);
    }
}

proof fn lemma_not_known_yet<P: ScalarParser>(
    parser: &P,
    schema: SchemaV,
    pairs: Seq<(String, String)>,
    n: nat,
    k: usize,
)
    requires
        n <= k < schema.len() <= usize::MAX,
        forall|i: int, j: int|
            0 <= i < j < schema.len() ==> (#[trigger] schema[i]).name != (#[trigger] schema[j]).name,
    ensures
        !known_partition_values(parser, schema, pairs, n).contains_key(
            seq![schema[k as int].name],
        ),
    decreases n,
{
    if n > 0 {
        lemma_not_known_yet(parser, schema, pairs, (n - 1) as nat, k);
        let path = seq![schema[k as int].name];
        let last = seq![schema[n - 1].name];
        assert(schema[n - 1].name != schema[k as int].name);
        assert(path[0] != last[0]);
    }
}

/// Whether an operand is a literal or a column of known value.
pub open spec fn operand_known(known: Map<Path, ScalarV>, e: ExprV) -> bool {
    match e {
        ExprV::Literal(_) => true,
        ExprV::Column(path) => known.contains_key(path),
        _ => false,
    }
}

/// Whether a predicate compares and tests nothing but literals and columns of known value.
pub open spec fn decided(known: Map<Path, ScalarV>, p: PredV) -> bool
    decreases p,
{
    match p {
        PredV::BooleanExpression(e) => operand_known(known, *e),
        PredV::Not(a) => decided(known, *a),
        PredV::IsNull(e) => operand_known(known, *e),
        PredV::Binary(op, a, b) => op != BinaryPredicateOp::In && operand_known(known, *a)
            && operand_known(known, *b),
        PredV::Junction(_, preds) => forall|i: int|
            0 <= i < preds.len() ==> decided(known, #[trigger] preds[i]),
        _ => false,
    }
}

/// Known values decide a predicate: where it is FALSE of the rows that hold them, filling them in
/// gives FALSE without reading anything; and where its negation is, so does the negation.
pub proof fn known_values_decide(
    it: Interpretation,
    row: Row,
    known: Map<Path, ScalarV>,
    p: PredV,
    inverted: bool,
)
    requires
        decided(known, p),
        forall|c: Path| #[trigger] known.contains_key(c) ==> row(c) == known[c],
        pred_value(it, row, p) == Some(inverted),
    ensures
        constant_sql_where(filled(known, p), inverted) == Some(false),
    decreases p,
{
    match p {
        PredV::BooleanExpression(e) => {
            lemma_operand(it, row, known, *e);
        },
        PredV::Not(a) => {
            known_values_decide(it, row, known, *a, !inverted);
        },
        PredV::IsNull(e) => {
            lemma_operand(it, row, known, *e);
        },
        PredV::Binary(op, a, b) => {
            lemma_operand(it, row, known, *a);
            lemma_operand(it, row, known, *b);
            let x = expr_value(it, row, *a);
            let y = expr_value(it, row, *b);
            operators_mean_what_they_say(x, y);
            assert(binary_value(op, x, y, inverted) == Some(false));
            let parts = seq![Some(!x.is_null()), Some(!y.is_null()), Some(false)];
            assert(parts[2] == Some(false));
            assert(parts.contains(Some(false)));
            assert(and_value(parts) == Some(false));
        },
        PredV::Junction(op, preds) => {
            lemma_decided_junction(it, row, known, op, preds, inverted);
        },
        _ => {},
    }
}

proof fn lemma_operand(it: Interpretation, row: Row, known: Map<Path, ScalarV>, e: ExprV)
    requires
        operand_known(known, e),
        forall|c: Path| #[trigger] known.contains_key(c) ==> row(c) == known[c],
    ensures
        filled_operand(known, e) == ExprV::Literal(
            expr_value(it, row, e),
        ),
{
}

proof fn lemma_decided_junction(
    it: Interpretation,
    row: Row,
    known: Map<Path, ScalarV>,
    op: JunctionPredicateOp,
    preds: Seq<PredV>,
    inverted: bool,
)
    requires
        forall|i: int| 0 <= i < preds.len() ==> decided(known, #[trigger] preds[i]),
        forall|c: Path| #[trigger] known.contains_key(c) ==> row(c) == known[c],
        pred_value(it, row, PredV::Junction(op, preds)) == Some(inverted),
    ensures
        constant_sql_where(filled(known, PredV::Junction(op, preds)), inverted) == Some(false),
    decreases preds,
{
    let values = pred_values(it, row, preds);
    let filled_preds = filled_all(known, preds);
    let constants = constant_sql_wheres(filled_preds, inverted);
    assert forall|i: int|
        0 <= i < preds.len() && values[i] == Some(inverted) implies #[trigger] constants[i] == Some(
        false,
    ) by {
        known_values_decide(it, row, known, preds[i], inverted);
        assert(filled_preds[i] == filled(known, preds[i]));
    }
    connectives_are_three_valued(values);
    connectives_are_three_valued(constants);
    assert(junction_value(op, values) == Some(inverted));
    if (op == JunctionPredicateOp::And) == inverted {
        assert forall|i: int| 0 <= i < constants.len() implies #[trigger] constants[i] == Some(
            false,
        ) by {
            assert(values[i] == Some(inverted));
        }
    } else {
        let i = choose|i: int| 0 <= i < values.len() && #[trigger] values[i] == Some(inverted);
        assert(constants[i] == Some(false));
    }
}

/// A comparison with NULL keeps no row, whether it is negated or not.
pub proof fn comparisons_with_null_keep_nothing(
    known: Map<Path, ScalarV>,
    op: BinaryPredicateOp,
    col: Path,
    val: ScalarV,
    inverted: bool,
)
    requires
        op == BinaryPredicateOp::LessThan || op == BinaryPredicateOp::GreaterThan || op
            == BinaryPredicateOp::Equal,
        known.contains_key(col),
        known[col].is_null() || val.is_null(),
    ensures
        constant_sql_where(
            filled(
                known,
                PredV::Binary(op, Box::new(ExprV::Column(col)), Box::new(ExprV::Literal(val))),
            ),
            inverted,
        ) == Some(false),
{
    let x = known[col];
    let parts = seq![
        constant_is_null(ExprV::Literal(x), true),
        constant_is_null(ExprV::Literal(val), true),
        binary_value(op, x, val, inverted),
    ];
    assert(parts[0] == Some(!x.is_null()));
    assert(parts[1] == Some(!val.is_null()));
    assert(parts.contains(Some(false)));
    reveal_with_fuel(filled, 2);
    reveal_with_fuel(constant_sql_where, 2);
}

/// Literals, and opaque predicates whose value the engine knows, decide a filter without reading
/// anything: NULL keeps nothing, whether it is negated or not.
pub proof fn constants_decide_filters(b: bool, o: OpaqueV, inverted: bool)
    ensures
        constant_sql_where(PredV::literal(b), inverted) == Some(b != inverted),
        constant_sql_where(PredV::null(), inverted) == Some(false),
        o.constant matches Some(known) ==> constant_sql_where(PredV::Opaque(o), inverted) == Some(
            known != inverted,
        ),
        o.constant is None ==> constant_sql_where(PredV::Opaque(o), inverted) is None,
{
    reveal_with_fuel(constant_sql_where, 2);
}

/// A file is dropped whose partition values make the predicate FALSE; without a predicate, or
/// without partition columns to decide it, none is.
pub proof fn files_of_other_partitions_are_dropped<P: ScalarParser>(
    it: Interpretation,
    row: Row,
    info: &StateInfo,
    parser: &P,
    pairs: Seq<(String, String)>,
)
    ensures
        !(info.physical_predicate@ is Present) || info.physical_partition_schema is None
            ==> partition_kept(info, parser, pairs),
        info.physical_predicate@ is Present && info.physical_partition_schema is Some ==> ({
            let p = (info.physical_predicate@)->Present_0;
            let schema = opt_schema_view(info.physical_partition_schema)->0;
            let known = known_partition_values(parser, schema, pairs, schema.len());
            decided(known, p) && (forall|c: Path| #[trigger]
                known.contains_key(c) ==> row(c) == known[c]) && pred_value(it, row, p) == Some(
                false,
            ) ==> !partition_kept(info, parser, pairs)
        }),
{
    if let (PhysicalPredicateV::Present(p, _), Some(schema)) = (
        info.physical_predicate@,
        opt_schema_view(info.physical_partition_schema),
    ) {
        let known = known_partition_values(parser, schema, pairs, schema.len());
        if decided(known, p) && (forall|c: Path| #[trigger]
            known.contains_key(c) ==> row(c) == known[c]) && pred_value(it, row, p) == Some(
            false,
        ) {
            known_values_decide(it, row, known, p, false);
        }
    }
}

} // verus!
