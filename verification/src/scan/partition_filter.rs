//! Filtering files by their partition values, row by row.

use std::sync::Arc;

use vstd::prelude::*;

use super::partition_values::ScalarParser;
use super::physical_predicate::{
    can_statically_skip_all_files, PhysicalPredicate, PhysicalPredicateV,
};
use super::skipping_laws::{
    constants_right, expr_constants_right, expr_value, nested, pred_value, pred_values,
    statically_false_filter_keeps_no_row, Interpretation, Row,
};
use super::state_info::StateInfo;
use super::transform_spec::{parse_partition_value, partition_value};
use crate::engine::{Column, StringPairs};
use crate::expressions::column::{ColumnName, Path};
use crate::expressions::expression::{
    expr_view, lemma_pred_view, preds_view, BinaryPredicateOp, ExprV, Expression, ExpressionRef,
    PredV, Predicate, PredicateRef,
};
use crate::expressions::scalar::{Scalar, ScalarV};
use crate::kernel_predicates::constant_sql_where;
use crate::schema::{opt_schema_view, ColumnMappingMode, Schema, SchemaV};

verus! {

// ---------------------------------------------------------------------------------------------
// Known values
// ---------------------------------------------------------------------------------------------

/// An operand with its column replaced by that column's value, if it is known.
pub open spec fn filled_operand(known: Map<Path, ScalarV>, e: ExprV) -> ExprV {
    match e {
        ExprV::Column(path) => if known.contains_key(path) {
            ExprV::Literal(known[path])
        } else {
            e
        },
        _ => e,
    }
}

/// A predicate whose operands are filled in with the known values of columns. Opaque and unknown
/// predicates stay as they are.
pub open spec fn filled(known: Map<Path, ScalarV>, p: PredV) -> PredV
    decreases p,
{
    match p {
        PredV::BooleanExpression(e) => match *e {
            ExprV::Predicate(q) => nested(filled(known, *q)),
            _ => PredV::BooleanExpression(Box::new(filled_operand(known, *e))),
        },
        PredV::Not(a) => PredV::Not(Box::new(filled(known, *a))),
        PredV::IsNull(e) => PredV::IsNull(Box::new(filled_operand(known, *e))),
        PredV::Binary(op, a, b) => if op == BinaryPredicateOp::In {
            p
        } else {
            PredV::Binary(
                op,
                Box::new(filled_operand(known, *a)),
                Box::new(filled_operand(known, *b)),
            )
        },
        PredV::Junction(op, preds) => PredV::Junction(op, filled_all(known, preds)),
        _ => p,
    }
}

pub open spec fn filled_all(known: Map<Path, ScalarV>, preds: Seq<PredV>) -> Seq<PredV>
    decreases preds,
{
    Seq::new(
        preds.len(),
        |i: int|
            if 0 <= i < preds.len() {
                filled(known, preds[i])
            } else {
                arbitrary()
            },
    )
}

/// The values in a list; of two values of a column the later one counts.
pub open spec fn values_of(list: Seq<(ColumnName, Scalar)>, n: nat) -> Map<Path, ScalarV>
    decreases n,
{
    if n == 0 || n > list.len() {
        Map::empty()
    } else {
        values_of(list, (n - 1) as nat).insert(list[n - 1].0@, list[n - 1].1@)
    }
}

proof fn lemma_values_prefix(a: Seq<(ColumnName, Scalar)>, b: Seq<(ColumnName, Scalar)>, n: nat)
    requires
        n <= a.len(),
        n <= b.len(),
        forall|i: int| 0 <= i < n ==> a[i] == b[i],
    ensures
        values_of(a, n) == values_of(b, n),
    decreases n,
{
    if n > 0 {
        lemma_values_prefix(a, b, (n - 1) as nat);
    }
}

fn find<'a>(list: &'a Vec<(ColumnName, Scalar)>, column: &ColumnName) -> (value: Option<&'a Scalar>)
    ensures
        match value {
            Some(v) => values_of(list@, list@.len()).contains_key(column@) && values_of(
                list@,
                list@.len(),
            )[column@] == v@,
            None => !values_of(list@, list@.len()).contains_key(column@),
        },
{
    let mut i: usize = list.len();
    while i > 0
        invariant
            i <= list@.len(),
            ({
                let whole = values_of(list@, list@.len());
                let rest = values_of(list@, i as nat);
                &&& whole.contains_key(column@) == rest.contains_key(column@)
                &&& whole.contains_key(column@) ==> whole[column@] == rest[column@]
            }),
        decreases i,
    {
        i = i - 1;
        if list[i].0.same(column) {
            return Some(&list[i].1);
        }
    }
    None
}

fn fill_operand(list: &Vec<(ColumnName, Scalar)>, e: &ExpressionRef) -> (out: ExpressionRef)
    ensures
        out@ == filled_operand(values_of(list@, list@.len()), e@),
{
    match &**e {
        Expression::Column(column) => match find(list, column) {
            Some(value) => Arc::new(Expression::Literal(value.clone())),
            None => e.clone(),
        },
        _ => e.clone(),
    }
}

fn fill(list: &Vec<(ColumnName, Scalar)>, p: &Predicate) -> (out: Predicate)
    ensures
        out@ == filled(values_of(list@, list@.len()), p@),
    decreases p,
{
    let ghost known = values_of(list@, list@.len());
    proof {
        lemma_pred_view(*p);
    }
    let out = match p {
        Predicate::BooleanExpression(e) => match &**e {
            Expression::Predicate(q) => {
                let inner = fill(list, q);
                proof {
                    reveal_with_fuel(expr_view, 2);
                }
                Predicate::BooleanExpression(Arc::new(Expression::Predicate(Arc::new(inner))))
            },
            _ => Predicate::BooleanExpression(fill_operand(list, e)),
        },
        Predicate::Not(a) => Predicate::Not(Arc::new(fill(list, a))),
        Predicate::IsNull(e) => Predicate::IsNull(fill_operand(list, e)),
        Predicate::Binary(op, a, b) => if *op == BinaryPredicateOp::In {
            p.clone()
        } else {
            Predicate::Binary(*op, fill_operand(list, a), fill_operand(list, b))
        },
        Predicate::Junction(op, preds) => {
            let mut out: Vec<PredicateRef> = Vec::new();
            for i in 0..preds.len()
                invariant
                    known == values_of(list@, list@.len()),
                    *p == Predicate::Junction(*op, *preds),
                    p@ == PredV::Junction(*op, preds_view(*preds)),
                    out@.len() == i,
                    forall|j: int|
                        0 <= j < i ==> (#[trigger] out@[j])@ == filled(
                            known,
                            preds_view(*preds)[j],
                        ),
            {
                proof {
                    assert(decreases_to!(*p => p->Junction_1));
                    assert(decreases_to!(p->Junction_1 => p->Junction_1@));
                    assert(decreases_to!(p->Junction_1@ => p->Junction_1@[i as int]));
                    assert(preds_view(*preds)[i as int] == preds@[i as int]@);
                }
                let q = fill(list, &preds[i]);
                out.push(Arc::new(q));
            }
            assert(preds_view(out) =~= filled_all(known, preds_view(*preds)));
            Predicate::Junction(*op, out)
        },
        _ => p.clone(),
    };
    proof {
        lemma_pred_view(out);
    }
    out
}

// ---------------------------------------------------------------------------------------------
// The filter
// ---------------------------------------------------------------------------------------------

/// The values of the first `n` partition columns of a file, as far as they can be parsed.
pub open spec fn known_partition_values<P: ScalarParser>(
    parser: &P,
    schema: SchemaV,
    pairs: Seq<(String, String)>,
    n: nat,
) -> Map<Path, ScalarV>
    decreases n,
{
    if n == 0 || n > schema.len() {
        Map::empty()
    } else {
        let known = known_partition_values(parser, schema, pairs, (n - 1) as nat);
        match partition_value(
            parser,
            schema,
            (n - 1) as usize,
            pairs,
            ColumnMappingMode::Unmapped,
        ) {
            Ok(value) => known.insert(seq![schema[n - 1].name], value),
            Err(_) => known,
        }
    }
}

fn parse_known_values<P: ScalarParser>(
    parser: &P,
    schema: &Schema,
    partition_values: &StringPairs,
) -> (list: Vec<(ColumnName, Scalar)>)
    ensures
        values_of(list@, list@.len()) == known_partition_values(
            parser,
            schema@,
            partition_values@,
            schema@.len(),
        ),
{
    let mut list: Vec<(ColumnName, Scalar)> = Vec::new();
    for i in 0..schema.fields.len()
        invariant
            values_of(list@, list@.len()) == known_partition_values(
                parser,
                schema@,
                partition_values@,
                i as nat,
            ),
    {
        assert(schema.fields@[i as int]@ == schema@[i as int]);
        if let Ok(value) = parse_partition_value(
            parser,
            schema,
            i,
            partition_values,
            ColumnMappingMode::Unmapped,
        ) {
            let ghost before = list@;
            list.push((ColumnName::top(schema.fields[i].name.as_str()), value));
            proof {
                lemma_values_prefix(before, list@, before.len());
            }
        }
    }
    list
}

/// Whether a file is kept, given the text of its partition values: it is dropped if and only if
/// the scan's predicate, read as a filter, is FALSE with the partition columns at these values,
/// whatever the other columns hold. A partition column whose value cannot be parsed counts as one
/// of these others.
pub open spec fn partition_kept<P: ScalarParser>(
    info: &StateInfo,
    parser: &P,
    pairs: Seq<(String, String)>,
) -> bool {
    match (info.physical_predicate@, opt_schema_view(info.physical_partition_schema)) {
        (PhysicalPredicateV::Present(p, _), Some(schema)) => {
            let known = known_partition_values(parser, schema, pairs, schema.len());
            constant_sql_where(filled(known, p), false) != Some(false)
        },
        _ => true,
    }
}

/// Whether a file with the given partition values is kept. This catches files that the columnar
/// pass cannot drop, for instance those with a NULL partition value, or all of them if it is
/// disabled.
pub fn partition_row_kept<P: ScalarParser>(
    parser: &P,
    info: &StateInfo,
    partition_values: &StringPairs,
) -> (keep: bool)
    ensures
        keep == partition_kept(info, parser, partition_values@),
{
    match (&info.physical_predicate, &info.physical_partition_schema) {
        (PhysicalPredicate::Present(predicate, _), Some(schema)) => {
            let list = parse_known_values(parser, schema, partition_values);
            !can_statically_skip_all_files(&fill(&list, predicate))
        },
        _ => true,
    }
}

impl StateInfo {
    /// Whether the file that a row adds is kept. One without a map of partition values is.
    pub open spec fn row_kept<P: ScalarParser>(
        &self,
        parser: &P,
        columns: Seq<Column>,
        row: int,
    ) -> bool {
        match columns[1].pairs_at(row, "add.partitionValues"@) {
            Ok(pairs) => partition_kept(self, parser, pairs@),
            Err(_) => true,
        }
    }
}

// ---------------------------------------------------------------------------------------------
// Soundness
// ---------------------------------------------------------------------------------------------

proof fn lemma_filled_operand(it: Interpretation, row: Row, known: Map<Path, ScalarV>, e: ExprV)
    requires
        forall|c: Path| #[trigger] known.contains_key(c) ==> row(c) == known[c],
    ensures
        expr_value(it, row, filled_operand(known, e)) == expr_value(it, row, e),
{
}

/// Filling in the values that columns have on a row does not change a predicate there.
pub proof fn filling_in_changes_nothing(
    it: Interpretation,
    row: Row,
    known: Map<Path, ScalarV>,
    p: PredV,
)
    requires
        forall|c: Path| #[trigger] known.contains_key(c) ==> row(c) == known[c],
    ensures
        pred_value(it, row, filled(known, p)) == pred_value(it, row, p),
        constants_right(it, row, p) ==> constants_right(it, row, filled(known, p)),
    decreases p,
{
    match p {
        PredV::BooleanExpression(e) => {
            if let ExprV::Predicate(q) = *e {
                filling_in_changes_nothing(it, row, known, *q);
                let inner = ExprV::Predicate(Box::new(filled(known, *q)));
                assert(expr_value(it, row, inner) == expr_value(it, row, *e));
                assert(expr_constants_right(it, row, *e) ==> expr_constants_right(it, row, inner));
                assert(constants_right(it, row, filled(known, p)) == expr_constants_right(
                    it,
                    row,
                    inner,
                ));
            } else {
                lemma_filled_operand(it, row, known, *e);
                assert(expr_constants_right(it, row, filled_operand(known, *e)));
            }
        },
        PredV::Not(a) => {
            filling_in_changes_nothing(it, row, known, *a);
        },
        PredV::IsNull(e) => {
            lemma_filled_operand(it, row, known, *e);
        },
        PredV::Binary(op, a, b) => {
            lemma_filled_operand(it, row, known, *a);
            lemma_filled_operand(it, row, known, *b);
        },
        PredV::Junction(op, preds) => {
            let out = filled_all(known, preds);
            assert forall|i: int| 0 <= i < preds.len() implies pred_value(
                it,
                row,
                #[trigger] out[i],
            ) == pred_value(it, row, preds[i]) && (constants_right(it, row, preds[i])
                ==> constants_right(it, row, out[i])) by {
                filling_in_changes_nothing(it, row, known, preds[i]);
            }
            assert(pred_values(it, row, out) =~= pred_values(it, row, preds));
            if constants_right(it, row, p) {
                assert forall|i: int| 0 <= i < out.len() implies constants_right(
                    it,
                    row,
                    #[trigger] out[i],
                ) by {
                    assert(constants_right(it, row, preds[i]));
                }
            }
        },
        _ => {},
    }
}

/// Dropping a file by its partition values is sound: if the filter is FALSE with these filled in,
/// it keeps no row that has them.
pub proof fn partition_filter_is_sound(
    it: Interpretation,
    row: Row,
    known: Map<Path, ScalarV>,
    p: PredV,
)
    requires
        constants_right(it, row, p),
        forall|c: Path| #[trigger] known.contains_key(c) ==> row(c) == known[c],
    ensures
        constant_sql_where(filled(known, p), false) == Some(false) ==> pred_value(it, row, p)
            != Some(true),
{
    filling_in_changes_nothing(it, row, known, p);
    statically_false_filter_keeps_no_row(it, row, filled(known, p), false);
}

} // verus!
