//! Evaluation of predicates without rows: on literals alone, and as rewrites over per-file
//! statistics.

use vstd::prelude::*;

use crate::error::option_view;
use crate::expressions::column::{ColumnName, Path};
use crate::expressions::expression::{
    expr_view, lemma_pred_view, BinaryPredicateOp, ExprV, Expression, JunctionPredicateOp,
    PredV, Predicate,
};
use crate::expressions::scalar::{scalar_order, Comparison, Scalar, ScalarV};
use crate::scan::data_skipping::{
    collect_junction_preds, junction_of, literal_of, literal_pred, opt_preds_view, SkippingRules,
};
use crate::schema::DataType;

verus! {

// ---------------------------------------------------------------------------------------------
// Values that are known from literals alone
// ---------------------------------------------------------------------------------------------

/// A literal used as a predicate, or its negation: known only for TRUE and FALSE.
pub open spec fn scalar_value(val: ScalarV, inverted: bool) -> Option<bool> {
    match val {
        ScalarV::Boolean(b) => Some(b != inverted),
        _ => None,
    }
}

/// Whether `a` stands to `b` in the relation `ord`, or its negation; unknown when the two are
/// not comparable.
pub open spec fn compared_value(
    ord: Comparison,
    a: ScalarV,
    b: ScalarV,
    inverted: bool,
) -> Option<bool> {
    match scalar_order(a, b) {
        Some(o) => Some((o == ord) != inverted),
        None => None,
    }
}

/// A comparison of two literals, or its negation.
pub open spec fn binary_value(
    op: BinaryPredicateOp,
    a: ScalarV,
    b: ScalarV,
    inverted: bool,
) -> Option<bool> {
    match op {
        BinaryPredicateOp::LessThan => compared_value(Comparison::Less, a, b, inverted),
        BinaryPredicateOp::GreaterThan => compared_value(Comparison::Greater, a, b, inverted),
        BinaryPredicateOp::Equal => compared_value(Comparison::Equal, a, b, inverted),
        BinaryPredicateOp::Distinct => if a.is_null() || b.is_null() {
            Some((a.is_null() != b.is_null()) != inverted)
        } else {
            compared_value(Comparison::Equal, a, b, !inverted)
        },
        BinaryPredicateOp::In => None,
    }
}

/// Three-valued AND: FALSE if an operand is, else NULL if an operand is, else TRUE.
pub open spec fn and_value(values: Seq<Option<bool>>) -> Option<bool> {
    if values.contains(Some(false)) {
        Some(false)
    } else if values.contains(None) {
        None
    } else {
        Some(true)
    }
}

/// Three-valued OR: TRUE if an operand is, else NULL if an operand is, else FALSE.
pub open spec fn or_value(values: Seq<Option<bool>>) -> Option<bool> {
    if values.contains(Some(true)) {
        Some(true)
    } else if values.contains(None) {
        None
    } else {
        Some(false)
    }
}

pub open spec fn junction_value(op: JunctionPredicateOp, values: Seq<Option<bool>>) -> Option<
    bool,
> {
    match op {
        JunctionPredicateOp::And => and_value(values),
        JunctionPredicateOp::Or => or_value(values),
    }
}

/// The connective to use for a junction or, with `inverted`, for its negation over negated
/// operands.
pub open spec fn effective_op(op: JunctionPredicateOp, inverted: bool) -> JunctionPredicateOp {
    if inverted {
        op.invert()
    } else {
        op
    }
}

/// Shared rules for literals and connectives.
pub struct KernelPredicateEvaluatorDefaults {}

impl KernelPredicateEvaluatorDefaults {
    /// A literal used as a predicate.
    pub fn eval_pred_scalar(val: &Scalar, inverted: bool) -> (value: Option<bool>)
        ensures
            value == scalar_value(val@, inverted),
    {
        match val {
            Scalar::Boolean(b) => Some(*b != inverted),
            _ => None,
        }
    }

    /// `val IS NULL`.
    pub fn eval_pred_scalar_is_null(val: &Scalar, inverted: bool) -> (value: Option<bool>)
        ensures
            value == Some(val@.is_null() != inverted),
    {
        Some(val.is_null() != inverted)
    }

    /// Whether two literals stand in the relation `ord`.
    pub fn partial_cmp_scalars(ord: Comparison, a: &Scalar, b: &Scalar, inverted: bool) -> (value:
        Option<bool>)
        ensures
            value == compared_value(ord, a@, b@, inverted),
    {
        match a.order(b) {
            Some(o) => Some((o == ord) != inverted),
            None => None,
        }
    }

    /// A comparison of two literals.
    pub fn eval_pred_binary_scalars(
        op: BinaryPredicateOp,
        left: &Scalar,
        right: &Scalar,
        inverted: bool,
    ) -> (value: Option<bool>)
        ensures
            value == binary_value(op, left@, right@, inverted),
    {
        match op {
            BinaryPredicateOp::LessThan => Self::partial_cmp_scalars(
                Comparison::Less,
                left,
                right,
                inverted,
            ),
            BinaryPredicateOp::GreaterThan => Self::partial_cmp_scalars(
                Comparison::Greater,
                left,
                right,
                inverted,
            ),
            BinaryPredicateOp::Equal => Self::partial_cmp_scalars(
                Comparison::Equal,
                left,
                right,
                inverted,
            ),
            BinaryPredicateOp::Distinct => if left.is_null() || right.is_null() {
                Some((left.is_null() != right.is_null()) != inverted)
            } else {
                Self::partial_cmp_scalars(Comparison::Equal, left, right, !inverted)
            },
            BinaryPredicateOp::In => None,
        }
    }

    /// Combines operand values with AND or OR; with `inverted` the connective is dualised,
    /// the operands being negated already.
    pub fn finish_eval_pred_junction(
        op: JunctionPredicateOp,
        values: &Vec<Option<bool>>,
        inverted: bool,
    ) -> (value: Option<bool>)
        ensures
            value == junction_value(effective_op(op, inverted), values@),
    {
        let effective = if inverted {
            op.invert()
        } else {
            op
        };
        let dominant = match effective {
            JunctionPredicateOp::And => false,
            JunctionPredicateOp::Or => true,
        };
        let mut found_null = false;
        for i in 0..values.len()
            invariant
                effective == effective_op(op, inverted),
                dominant == (effective == JunctionPredicateOp::Or),
                found_null == exists|j: int| 0 <= j < i && #[trigger] values@[j] is None,
                forall|j: int| 0 <= j < i ==> #[trigger] values@[j] != Some(dominant),
        {
            match values[i] {
                Some(v) => if v == dominant {
                    assert(values@.contains(Some(dominant)));
                    return Some(dominant);
                },
                None => {
                    found_null = true;
                },
            }
        }
        assert(!values@.contains(Some(dominant)));
        if found_null {
            assert(values@.contains(None));
            None
        } else {
            assert(!values@.contains(None));
            Some(!dominant)
        }
    }
}

/// The value of a predicate, or of its negation, as far as it is known without reading any
/// column.
pub open spec fn constant_pred(p: PredV, inverted: bool) -> Option<bool>
    decreases p,
{
    match p {
        PredV::BooleanExpression(e) => constant_expr(*e, inverted),
        PredV::Not(a) => constant_pred(*a, !inverted),
        PredV::IsNull(e) => constant_is_null(*e, inverted),
        PredV::Binary(op, a, b) => constant_binary(op, *a, *b, inverted),
        PredV::Junction(op, preds) => junction_value(
            effective_op(op, inverted),
            constant_preds(preds, inverted),
        ),
        PredV::Opaque(o) => match o.constant {
            Some(b) => Some(b != inverted),
            None => None,
        },
        PredV::Unknown(_) => None,
    }
}

pub open spec fn constant_expr(e: ExprV, inverted: bool) -> Option<bool>
    decreases e,
{
    match e {
        ExprV::Literal(s) => scalar_value(s, inverted),
        ExprV::Predicate(p) => constant_pred(*p, inverted),
        _ => None,
    }
}

pub open spec fn constant_is_null(e: ExprV, inverted: bool) -> Option<bool> {
    match e {
        ExprV::Literal(s) => Some(s.is_null() != inverted),
        _ => None,
    }
}

pub open spec fn constant_binary(
    op: BinaryPredicateOp,
    a: ExprV,
    b: ExprV,
    inverted: bool,
) -> Option<bool> {
    match (a, b) {
        (ExprV::Literal(x), ExprV::Literal(y)) => binary_value(op, x, y, inverted),
        _ => None,
    }
}

/// The values of all operands, as [`constant_pred`] gives them.
pub open spec fn constant_preds(preds: Seq<PredV>, inverted: bool) -> Seq<Option<bool>>
    decreases preds,
{
    Seq::new(
        preds.len(),
        |i: int|
            if 0 <= i < preds.len() {
                constant_pred(preds[i], inverted)
            } else {
                None
            },
    )
}

/// Like [`constant_pred`], read as a filter: a comparison, a boolean column or a literal that
/// is NULL keeps no row, so it counts as FALSE wherever that is known.
pub open spec fn constant_sql_where(p: PredV, inverted: bool) -> Option<bool>
    decreases p,
{
    match p {
        PredV::Junction(op, preds) => junction_value(
            effective_op(op, inverted),
            constant_sql_wheres(preds, inverted),
        ),
        PredV::Binary(op, a, b) => if op.is_null_intolerant() {
            and_value(
                seq![
                    constant_is_null(*a, true),
                    constant_is_null(*b, true),
                    constant_binary(op, *a, *b, inverted),
                ],
            )
        } else {
            constant_binary(op, *a, *b, inverted)
        },
        PredV::Not(a) => constant_sql_where(*a, !inverted),
        PredV::BooleanExpression(e) => match *e {
            ExprV::Column(_) => and_value(seq![None, None]),
            ExprV::Literal(s) => if s.is_null() {
                Some(false)
            } else {
                scalar_value(s, inverted)
            },
            ExprV::Predicate(q) => constant_sql_where(*q, inverted),
            _ => None,
        },
        _ => constant_pred(p, inverted),
    }
}

/// The values of all operands, as [`constant_sql_where`] gives them.
pub open spec fn constant_sql_wheres(preds: Seq<PredV>, inverted: bool) -> Seq<Option<bool>>
    decreases preds,
{
    Seq::new(
        preds.len(),
        |i: int|
            if 0 <= i < preds.len() {
                constant_sql_where(preds[i], inverted)
            } else {
                None
            },
    )
}

/// Evaluates predicates when no column value is known.
pub struct EmptyColumnResolver {}

impl EmptyColumnResolver {
    fn eval_pred_unary(e: &Expression, inverted: bool) -> (value: Option<bool>)
        ensures
            value == constant_is_null(e@, inverted),
    {
        match e {
            Expression::Literal(s) => KernelPredicateEvaluatorDefaults::eval_pred_scalar_is_null(
                s,
                inverted,
            ),
            _ => None,
        }
    }

    fn eval_pred_binary(
        op: BinaryPredicateOp,
        left: &Expression,
        right: &Expression,
        inverted: bool,
    ) -> (value: Option<bool>)
        ensures
            value == constant_binary(op, left@, right@, inverted),
    {
        match (left, right) {
            (
                Expression::Literal(a),
                Expression::Literal(b),
            ) => KernelPredicateEvaluatorDefaults::eval_pred_binary_scalars(op, a, b, inverted),
            _ => None,
        }
    }

    fn eval_pred_expr(e: &Expression, inverted: bool) -> (value: Option<bool>)
        ensures
            value == constant_expr(e@, inverted),
        decreases e,
    {
        match e {
            Expression::Literal(s) => KernelPredicateEvaluatorDefaults::eval_pred_scalar(
                s,
                inverted,
            ),
            Expression::Predicate(p) => Self::eval_pred(p, inverted),
            _ => None,
        }
    }

    /// The predicate's value (or its negation's), as far as literals alone give it.
    pub fn eval_pred(pred: &Predicate, inverted: bool) -> (value: Option<bool>)
        ensures
            value == constant_pred(pred@, inverted),
        decreases pred,
    {
        proof {
            lemma_pred_view(*pred);
        }
        match pred {
            Predicate::BooleanExpression(e) => Self::eval_pred_expr(e, inverted),
            Predicate::Not(p) => Self::eval_pred(p, !inverted),
            Predicate::IsNull(e) => Self::eval_pred_unary(e, inverted),
            Predicate::Binary(op, a, b) => Self::eval_pred_binary(*op, a, b, inverted),
            Predicate::Junction(op, preds) => {
                let mut values: Vec<Option<bool>> = Vec::new();
                for i in 0..preds.len()
                    invariant
                        *pred == Predicate::Junction(*op, *preds),
                        values@.len() == i,
                        forall|j: int|
                            0 <= j < i ==> #[trigger] values@[j] == constant_pred(
                                preds@[j]@,
                                inverted,
                            ),
                {
                    proof {
                        assert(decreases_to!(*pred => pred->Junction_1));
                        assert(decreases_to!(pred->Junction_1 => pred->Junction_1@));
                        assert(decreases_to!(pred->Junction_1@ => pred->Junction_1@[i as int]));
                    }
                    values.push(Self::eval_pred(&preds[i], inverted));
                }
                assert(values@ =~= constant_preds(pred@->Junction_1, inverted));
                KernelPredicateEvaluatorDefaults::finish_eval_pred_junction(*op, &values, inverted)
            },
            Predicate::Opaque(o) => match o.constant {
                Some(b) => Some(b != inverted),
                None => None,
            },
            Predicate::Unknown(_) => None,
        }
    }

    /// The predicate's value as a filter, as far as literals alone give it.
    pub fn eval_sql_where(pred: &Predicate) -> (value: Option<bool>)
        ensures
            value == constant_sql_where(pred@, false),
    {
        Self::eval_pred_sql_where(pred, false)
    }

    fn eval_pred_sql_where(pred: &Predicate, inverted: bool) -> (value: Option<bool>)
        ensures
            value == constant_sql_where(pred@, inverted),
        decreases pred,
    {
        proof {
            lemma_pred_view(*pred);
        }
        match pred {
            Predicate::Junction(op, preds) => {
                let mut values: Vec<Option<bool>> = Vec::new();
                for i in 0..preds.len()
                    invariant
                        *pred == Predicate::Junction(*op, *preds),
                        values@.len() == i,
                        forall|j: int|
                            0 <= j < i ==> #[trigger] values@[j] == constant_sql_where(
                                preds@[j]@,
                                inverted,
                            ),
                {
                    proof {
                        assert(decreases_to!(*pred => pred->Junction_1));
                        assert(decreases_to!(pred->Junction_1 => pred->Junction_1@));
                        assert(decreases_to!(pred->Junction_1@ => pred->Junction_1@[i as int]));
                    }
                    values.push(Self::eval_pred_sql_where(&preds[i], inverted));
                }
                assert(values@ =~= constant_sql_wheres(pred@->Junction_1, inverted));
                KernelPredicateEvaluatorDefaults::finish_eval_pred_junction(*op, &values, inverted)
            },
            Predicate::Binary(op, a, b) => if op.is_null_intolerant() {
                let values: Vec<Option<bool>> = vec![
                    Self::eval_pred_unary(a, true),
                    Self::eval_pred_unary(b, true),
                    Self::eval_pred_binary(*op, a, b, inverted),
                ];
                assert(values@ =~= seq![
                    constant_is_null(a@, true),
                    constant_is_null(b@, true),
                    constant_binary(*op, a@, b@, inverted),
                ]);
                KernelPredicateEvaluatorDefaults::finish_eval_pred_junction(
                    JunctionPredicateOp::And,
                    &values,
                    false,
                )
            } else {
                Self::eval_pred_binary(*op, a, b, inverted)
            },
            Predicate::Not(p) => Self::eval_pred_sql_where(p, !inverted),
            Predicate::BooleanExpression(e) => match &**e {
                Expression::Column(_) => {
                    let values: Vec<Option<bool>> = vec![None, None];
                    assert(values@ =~= seq![None, None]);
                    KernelPredicateEvaluatorDefaults::finish_eval_pred_junction(
                        JunctionPredicateOp::And,
                        &values,
                        false,
                    )
                },
                Expression::Literal(s) => if s.is_null() {
                    Some(false)
                } else {
                    KernelPredicateEvaluatorDefaults::eval_pred_scalar(s, inverted)
                },
                Expression::Predicate(p) => Self::eval_pred_sql_where(p, inverted),
                _ => None,
            },
            _ => Self::eval_pred(pred, inverted),
        }
    }
}

// ---------------------------------------------------------------------------------------------
// Rewrites over per-file statistics
// ---------------------------------------------------------------------------------------------

impl SkippingRules {
    /// The rewrite of a comparison with a column's minimum.
    pub open spec fn compare_min(
        self,
        col: Path,
        val: ScalarV,
        ord: Comparison,
        inverted: bool,
    ) -> Option<PredV> {
        match self.min_stat(col, val.data_type()) {
            Some(min) => Some(self.compare(ord, min, val, inverted)),
            None => None,
        }
    }

    /// The rewrite of a comparison with a column's maximum.
    pub open spec fn compare_max(
        self,
        col: Path,
        val: ScalarV,
        ord: Comparison,
        inverted: bool,
    ) -> Option<PredV> {
        match self.max_stat(col, val.data_type()) {
            Some(max) => Some(
                self.compare(ord, max, self.max_comparison_value(col, val), inverted),
            ),
            None => None,
        }
    }

    /// `col < val` is possible if the minimum is below `val`; `col >= val` if the maximum is not.
    pub open spec fn less(self, col: Path, val: ScalarV, inverted: bool) -> Option<PredV> {
        if inverted {
            self.compare_max(col, val, Comparison::Less, true)
        } else {
            self.compare_min(col, val, Comparison::Less, false)
        }
    }

    /// `col > val` is possible if the maximum is above `val`; `col <= val` if the minimum is not.
    pub open spec fn greater(self, col: Path, val: ScalarV, inverted: bool) -> Option<PredV> {
        if inverted {
            self.compare_min(col, val, Comparison::Greater, true)
        } else {
            self.compare_max(col, val, Comparison::Greater, false)
        }
    }

    /// `col = val` is possible if the bounds enclose `val`; `col != val` if one of them differs.
    pub open spec fn equal(self, col: Path, val: ScalarV, inverted: bool) -> PredV {
        if inverted {
            junction_of(
                JunctionPredicateOp::Or,
                seq![
                    self.compare_min(col, val, Comparison::Equal, true),
                    self.compare_max(col, val, Comparison::Equal, true),
                ],
                false,
            )
        } else {
            junction_of(
                JunctionPredicateOp::And,
                seq![
                    self.compare_min(col, val, Comparison::Greater, true),
                    self.compare_max(col, val, Comparison::Less, true),
                ],
                false,
            )
        }
    }

    pub open spec fn distinct(self, col: Path, val: ScalarV, inverted: bool) -> Option<PredV> {
        if val.is_null() {
            self.is_null(col, !inverted)
        } else {
            Some(
                junction_of(
                    JunctionPredicateOp::Or,
                    seq![
                        self.is_null(col, inverted),
                        Some(self.equal(col, val, !inverted)),
                    ],
                    inverted,
                ),
            )
        }
    }

    /// A boolean column holds where it differs from FALSE.
    pub open spec fn bool_column(self, col: Path, inverted: bool) -> PredV {
        self.equal(col, ScalarV::Boolean(inverted), true)
    }

    pub open spec fn column_with_scalar(
        self,
        op: BinaryPredicateOp,
        col: Path,
        val: ScalarV,
        inverted: bool,
    ) -> Option<PredV> {
        match op {
            BinaryPredicateOp::LessThan => self.less(col, val, inverted),
            BinaryPredicateOp::GreaterThan => self.greater(col, val, inverted),
            BinaryPredicateOp::Equal => Some(self.equal(col, val, inverted)),
            BinaryPredicateOp::Distinct => self.distinct(col, val, inverted),
            BinaryPredicateOp::In => None,
        }
    }

    /// The rewrite of a comparison: of literals, of a column with a literal or of a cast column
    /// with a literal, on either side.
    pub open spec fn binary(
        self,
        op: BinaryPredicateOp,
        a: ExprV,
        b: ExprV,
        inverted: bool,
    ) -> Option<PredV> {
        match (a, b) {
            (ExprV::Literal(x), ExprV::Literal(y)) => literal_of(binary_value(op, x, y, inverted)),
            (ExprV::Column(col), ExprV::Literal(val)) => self.column_with_scalar(
                op,
                col,
                val,
                inverted,
            ),
            (ExprV::Literal(val), ExprV::Column(col)) => match op.commute() {
                Some(commuted) => self.column_with_scalar(commuted, col, val, inverted),
                None => None,
            },
            (ExprV::Cast(e, target), ExprV::Literal(val)) => match *e {
                ExprV::Column(col) => self.cast(op, col, target, val, inverted),
                _ => None,
            },
            (ExprV::Literal(val), ExprV::Cast(e, target)) => match (*e, op.commute()) {
                (ExprV::Column(col), Some(commuted)) => self.cast(
                    commuted,
                    col,
                    target,
                    val,
                    inverted,
                ),
                _ => None,
            },
            _ => None,
        }
    }

    pub open spec fn expr_is_null(self, e: ExprV, inverted: bool) -> Option<PredV> {
        match e {
            ExprV::Literal(s) => Some(PredV::literal(s.is_null() != inverted)),
            ExprV::Column(col) => self.is_null(col, inverted),
            _ => None,
        }
    }
}

/// The rewrite of a predicate, or of its negation, over per-file statistics.
pub open spec fn rewrite_pred(rules: SkippingRules, p: PredV, inverted: bool) -> Option<PredV>
    decreases p,
{
    match p {
        PredV::BooleanExpression(e) => rewrite_expr(rules, *e, inverted),
        PredV::Not(a) => rewrite_pred(rules, *a, !inverted),
        PredV::IsNull(e) => rules.expr_is_null(*e, inverted),
        PredV::Binary(op, a, b) => rules.binary(op, *a, *b, inverted),
        PredV::Junction(op, preds) => Some(
            junction_of(op, rewrite_preds(rules, preds, inverted), inverted),
        ),
        PredV::Opaque(o) => {
            let implied = if inverted {
                o.implied_inverted
            } else {
                o.implied
            };
            match implied {
                Some(q) => rules.opaque(rewrite_pred(rules, *q, false)),
                None => None,
            }
        },
        PredV::Unknown(_) => None,
    }
}

/// The rewrites of all operands, as [`rewrite_pred`] gives them.
pub open spec fn rewrite_preds(rules: SkippingRules, preds: Seq<PredV>, inverted: bool) -> Seq<
    Option<PredV>,
>
    decreases preds,
{
    Seq::new(
        preds.len(),
        |i: int|
            if 0 <= i < preds.len() {
                rewrite_pred(rules, preds[i], inverted)
            } else {
                None
            },
    )
}

pub open spec fn rewrite_expr(rules: SkippingRules, e: ExprV, inverted: bool) -> Option<PredV>
    decreases e,
{
    match e {
        ExprV::Literal(s) => literal_of(scalar_value(s, inverted)),
        ExprV::Column(col) => Some(rules.bool_column(col, inverted)),
        ExprV::Predicate(p) => rewrite_pred(rules, *p, inverted),
        _ => None,
    }
}

/// Like [`rewrite_pred`], read as a filter: the operands of a comparison and a boolean column
/// must not be NULL, and the NULL literal is FALSE.
pub open spec fn rewrite_sql_where(rules: SkippingRules, p: PredV, inverted: bool) -> Option<PredV>
    decreases p,
{
    match p {
        PredV::Junction(op, preds) => Some(
            junction_of(op, rewrite_sql_wheres(rules, preds, inverted), inverted),
        ),
        PredV::Binary(op, a, b) => if op.is_null_intolerant() {
            Some(
                junction_of(
                    JunctionPredicateOp::And,
                    seq![
                        rules.expr_is_null(*a, true),
                        rules.expr_is_null(*b, true),
                        rules.binary(op, *a, *b, inverted),
                    ],
                    false,
                ),
            )
        } else {
            rules.binary(op, *a, *b, inverted)
        },
        PredV::Not(a) => rewrite_sql_where(rules, *a, !inverted),
        PredV::BooleanExpression(e) => match *e {
            ExprV::Column(col) => Some(
                junction_of(
                    JunctionPredicateOp::And,
                    seq![rules.is_null(col, true), Some(rules.bool_column(col, inverted))],
                    false,
                ),
            ),
            ExprV::Literal(s) => if s.is_null() {
                Some(PredV::literal(false))
            } else {
                literal_of(scalar_value(s, inverted))
            },
            ExprV::Predicate(q) => rewrite_sql_where(rules, *q, inverted),
            _ => None,
        },
        _ => rewrite_pred(rules, p, inverted),
    }
}

/// The rewrites of all operands, as [`rewrite_sql_where`] gives them.
pub open spec fn rewrite_sql_wheres(rules: SkippingRules, preds: Seq<PredV>, inverted: bool) -> Seq<
    Option<PredV>,
>
    decreases preds,
{
    Seq::new(
        preds.len(),
        |i: int|
            if 0 <= i < preds.len() {
                rewrite_sql_where(rules, preds[i], inverted)
            } else {
                None
            },
    )
}

/// The parts of a rewrite on which the rewrites for single files and for checkpoints differ.
pub trait DataSkippingPredicateEvaluator {
    spec fn rules(&self) -> SkippingRules;

    /// The column's minimum.
    fn get_min_stat(&self, col: &ColumnName, data_type: &DataType) -> (stat: Option<Expression>)
        ensures
            option_view(stat) == self.rules().min_stat(col@, data_type@),
    ;

    /// The column's maximum.
    fn get_max_stat(&self, col: &ColumnName, data_type: &DataType) -> (stat: Option<Expression>)
        ensures
            option_view(stat) == self.rules().max_stat(col@, data_type@),
    ;

    /// The value to compare the column's maximum with.
    fn max_stat_comparison_value(&self, col: &ColumnName, val: &Scalar) -> (value: Scalar)
        ensures
            value@ == self.rules().max_comparison_value(col@, val@),
    ;

    /// Compares a statistic with a literal.
    fn eval_partial_cmp(
        &self,
        ord: Comparison,
        col: Expression,
        val: &Scalar,
        inverted: bool,
    ) -> (pred: Predicate)
        ensures
            pred@ == self.rules().compare(ord, col@, val@, inverted),
    ;

    /// `col IS NULL`.
    fn eval_pred_is_null(&self, col: &ColumnName, inverted: bool) -> (pred: Option<Predicate>)
        ensures
            option_view(pred) == self.rules().is_null(col@, inverted),
    ;

    /// Compares a cast column with a literal.
    fn eval_pred_cast(
        &self,
        op: BinaryPredicateOp,
        col: &ColumnName,
        target: &DataType,
        val: &Scalar,
        inverted: bool,
    ) -> (pred: Option<Predicate>)
        ensures
            option_view(pred) == self.rules().cast(op, col@, target@, val@, inverted),
    ;

    /// A predicate that only the engine understands, given the rewrite of what it implies.
    fn eval_pred_opaque(&self, implied: Option<Predicate>) -> (pred: Option<Predicate>)
        ensures
            option_view(pred) == self.rules().opaque(option_view(implied)),
    ;
}

/// Compares a column's minimum with a literal.
fn partial_cmp_min_stat<E: DataSkippingPredicateEvaluator>(
    e: &E,
    col: &ColumnName,
    val: &Scalar,
    ord: Comparison,
    inverted: bool,
) -> (pred: Option<Predicate>)
    ensures
        option_view(pred) == e.rules().compare_min(col@, val@, ord, inverted),
{
    match e.get_min_stat(col, &val.data_type()) {
        Some(min) => Some(e.eval_partial_cmp(ord, min, val, inverted)),
        None => None,
    }
}

/// Compares a column's maximum with a literal.
fn partial_cmp_max_stat<E: DataSkippingPredicateEvaluator>(
    e: &E,
    col: &ColumnName,
    val: &Scalar,
    ord: Comparison,
    inverted: bool,
) -> (pred: Option<Predicate>)
    ensures
        option_view(pred) == e.rules().compare_max(col@, val@, ord, inverted),
{
    match e.get_max_stat(col, &val.data_type()) {
        Some(max) => {
            let adjusted = e.max_stat_comparison_value(col, val);
            Some(e.eval_partial_cmp(ord, max, &adjusted, inverted))
        },
        None => None,
    }
}

fn eval_pred_lt<E: DataSkippingPredicateEvaluator>(
    e: &E,
    col: &ColumnName,
    val: &Scalar,
    inverted: bool,
) -> (pred: Option<Predicate>)
    ensures
        option_view(pred) == e.rules().less(col@, val@, inverted),
{
    if inverted {
        partial_cmp_max_stat(e, col, val, Comparison::Less, true)
    } else {
        partial_cmp_min_stat(e, col, val, Comparison::Less, false)
    }
}

fn eval_pred_gt<E: DataSkippingPredicateEvaluator>(
    e: &E,
    col: &ColumnName,
    val: &Scalar,
    inverted: bool,
) -> (pred: Option<Predicate>)
    ensures
        option_view(pred) == e.rules().greater(col@, val@, inverted),
{
    if inverted {
        partial_cmp_min_stat(e, col, val, Comparison::Greater, true)
    } else {
        partial_cmp_max_stat(e, col, val, Comparison::Greater, false)
    }
}

fn eval_pred_eq<E: DataSkippingPredicateEvaluator>(
    e: &E,
    col: &ColumnName,
    val: &Scalar,
    inverted: bool,
) -> (pred: Predicate)
    ensures
        pred@ == e.rules().equal(col@, val@, inverted),
{
    if inverted {
        // The column can differ from the literal if its minimum or maximum does.
        let preds: Vec<Option<Predicate>> = vec![
            partial_cmp_min_stat(e, col, val, Comparison::Equal, true),
            partial_cmp_max_stat(e, col, val, Comparison::Equal, true),
        ];
        assert(opt_preds_view(preds@) =~= seq![
            e.rules().compare_min(col@, val@, Comparison::Equal, true),
            e.rules().compare_max(col@, val@, Comparison::Equal, true),
        ]);
        collect_junction_preds(JunctionPredicateOp::Or, preds, false)
    } else {
        // The column can equal the literal if its minimum and maximum bracket it.
        let preds: Vec<Option<Predicate>> = vec![
            partial_cmp_min_stat(e, col, val, Comparison::Greater, true),
            partial_cmp_max_stat(e, col, val, Comparison::Less, true),
        ];
        assert(opt_preds_view(preds@) =~= seq![
            e.rules().compare_min(col@, val@, Comparison::Greater, true),
            e.rules().compare_max(col@, val@, Comparison::Less, true),
        ]);
        collect_junction_preds(JunctionPredicateOp::And, preds, false)
    }
}

fn eval_pred_distinct<E: DataSkippingPredicateEvaluator>(
    e: &E,
    col: &ColumnName,
    val: &Scalar,
    inverted: bool,
) -> (pred: Option<Predicate>)
    ensures
        option_view(pred) == e.rules().distinct(col@, val@, inverted),
{
    if val.is_null() {
        e.eval_pred_is_null(col, !inverted)
    } else {
        let preds: Vec<Option<Predicate>> = vec![
            e.eval_pred_is_null(col, inverted),
            Some(eval_pred_eq(e, col, val, !inverted)),
        ];
        assert(opt_preds_view(preds@) =~= seq![
            e.rules().is_null(col@, inverted),
            Some(e.rules().equal(col@, val@, !inverted)),
        ]);
        Some(collect_junction_preds(JunctionPredicateOp::Or, preds, inverted))
    }
}

fn eval_pred_column<E: DataSkippingPredicateEvaluator>(
    e: &E,
    col: &ColumnName,
    inverted: bool,
) -> (pred: Predicate)
    ensures
        pred@ == e.rules().bool_column(col@, inverted),
{
    eval_pred_eq(e, col, &Scalar::Boolean(inverted), true)
}

fn eval_pred_column_with_scalar<E: DataSkippingPredicateEvaluator>(
    e: &E,
    op: BinaryPredicateOp,
    col: &ColumnName,
    val: &Scalar,
    inverted: bool,
) -> (pred: Option<Predicate>)
    ensures
        option_view(pred) == e.rules().column_with_scalar(op, col@, val@, inverted),
{
    match op {
        BinaryPredicateOp::LessThan => eval_pred_lt(e, col, val, inverted),
        BinaryPredicateOp::GreaterThan => eval_pred_gt(e, col, val, inverted),
        BinaryPredicateOp::Equal => Some(eval_pred_eq(e, col, val, inverted)),
        BinaryPredicateOp::Distinct => eval_pred_distinct(e, col, val, inverted),
        BinaryPredicateOp::In => None,
    }
}

fn eval_pred_binary<E: DataSkippingPredicateEvaluator>(
    e: &E,
    op: BinaryPredicateOp,
    left: &Expression,
    right: &Expression,
    inverted: bool,
) -> (pred: Option<Predicate>)
    ensures
        option_view(pred) == e.rules().binary(op, left@, right@, inverted),
{
    proof {
        reveal_with_fuel(expr_view, 2);
    }
    match (left, right) {
        (Expression::Literal(a), Expression::Literal(b)) => literal_pred(
            KernelPredicateEvaluatorDefaults::eval_pred_binary_scalars(op, a, b, inverted),
        ),
        (Expression::Column(col), Expression::Literal(val)) => eval_pred_column_with_scalar(
            e,
            op,
            col,
            val,
            inverted,
        ),
        (Expression::Literal(val), Expression::Column(col)) => match op.commute() {
            Some(commuted) => eval_pred_column_with_scalar(e, commuted, col, val, inverted),
            None => None,
        },
        (Expression::Cast(inner, target), Expression::Literal(val)) => match &**inner {
            Expression::Column(col) => e.eval_pred_cast(op, col, target, val, inverted),
            _ => None,
        },
        (Expression::Literal(val), Expression::Cast(inner, target)) => match (
            &**inner,
            op.commute(),
        ) {
            (Expression::Column(col), Some(commuted)) => e.eval_pred_cast(
                commuted,
                col,
                target,
                val,
                inverted,
            ),
            _ => None,
        },
        _ => None,
    }
}

fn eval_pred_unary<E: DataSkippingPredicateEvaluator>(
    e: &E,
    operand: &Expression,
    inverted: bool,
) -> (pred: Option<Predicate>)
    ensures
        option_view(pred) == e.rules().expr_is_null(operand@, inverted),
{
    match operand {
        Expression::Literal(s) => Some(Predicate::literal(s.is_null() != inverted)),
        Expression::Column(col) => e.eval_pred_is_null(col, inverted),
        _ => None,
    }
}

fn eval_pred_expr<E: DataSkippingPredicateEvaluator>(
    e: &E,
    expr: &Expression,
    inverted: bool,
) -> (pred: Option<Predicate>)
    ensures
        option_view(pred) == rewrite_expr(e.rules(), expr@, inverted),
    decreases expr,
{
    match expr {
        Expression::Literal(s) => literal_pred(
            KernelPredicateEvaluatorDefaults::eval_pred_scalar(s, inverted),
        ),
        Expression::Column(col) => Some(eval_pred_column(e, col, inverted)),
        Expression::Predicate(p) => eval_pred(e, p, inverted),
        _ => None,
    }
}

fn eval_pred<E: DataSkippingPredicateEvaluator>(
    e: &E,
    pred: &Predicate,
    inverted: bool,
) -> (rewritten: Option<Predicate>)
    ensures
        option_view(rewritten) == rewrite_pred(e.rules(), pred@, inverted),
    decreases pred,
{
    proof {
        lemma_pred_view(*pred);
    }
    match pred {
        Predicate::BooleanExpression(expr) => eval_pred_expr(e, expr, inverted),
        Predicate::Not(p) => eval_pred(e, p, !inverted),
        Predicate::IsNull(expr) => eval_pred_unary(e, expr, inverted),
        Predicate::Binary(op, a, b) => eval_pred_binary(e, *op, a, b, inverted),
        Predicate::Junction(op, preds) => {
            let mut rewrites: Vec<Option<Predicate>> = Vec::new();
            for i in 0..preds.len()
                invariant
                    *pred == Predicate::Junction(*op, *preds),
                    rewrites@.len() == i,
                    forall|j: int|
                        0 <= j < i ==> option_view(#[trigger] rewrites@[j]) == rewrite_pred(
                            e.rules(),
                            preds@[j]@,
                            inverted,
                        ),
            {
                proof {
                    assert(decreases_to!(*pred => pred->Junction_1));
                    assert(decreases_to!(pred->Junction_1 => pred->Junction_1@));
                    assert(decreases_to!(pred->Junction_1@ => pred->Junction_1@[i as int]));
                }
                rewrites.push(eval_pred(e, &preds[i], inverted));
            }
            assert(opt_preds_view(rewrites@) =~= rewrite_preds(
                e.rules(),
                pred@->Junction_1,
                inverted,
            ));
            Some(collect_junction_preds(*op, rewrites, inverted))
        },
        Predicate::Opaque(op) => {
            let implied = if inverted {
                &op.implied_inverted
            } else {
                &op.implied
            };
            match implied {
                Some(q) => {
                    let rewritten = eval_pred(e, q, false);
                    e.eval_pred_opaque(rewritten)
                },
                None => None,
            }
        },
        Predicate::Unknown(_) => None,
    }
}

fn eval_pred_sql_where<E: DataSkippingPredicateEvaluator>(
    e: &E,
    pred: &Predicate,
    inverted: bool,
) -> (rewritten: Option<Predicate>)
    ensures
        option_view(rewritten) == rewrite_sql_where(e.rules(), pred@, inverted),
    decreases pred,
{
    proof {
        lemma_pred_view(*pred);
    }
    match pred {
        Predicate::Junction(op, preds) => {
            let mut rewrites: Vec<Option<Predicate>> = Vec::new();
            for i in 0..preds.len()
                invariant
                    *pred == Predicate::Junction(*op, *preds),
                    rewrites@.len() == i,
                    forall|j: int|
                        0 <= j < i ==> option_view(#[trigger] rewrites@[j]) == rewrite_sql_where(
                            e.rules(),
                            preds@[j]@,
                            inverted,
                        ),
            {
                proof {
                    assert(decreases_to!(*pred => pred->Junction_1));
                    assert(decreases_to!(pred->Junction_1 => pred->Junction_1@));
                    assert(decreases_to!(pred->Junction_1@ => pred->Junction_1@[i as int]));
                }
                rewrites.push(eval_pred_sql_where(e, &preds[i], inverted));
            }
            assert(opt_preds_view(rewrites@) =~= rewrite_sql_wheres(
                e.rules(),
                pred@->Junction_1,
                inverted,
            ));
            Some(collect_junction_preds(*op, rewrites, inverted))
        },
        Predicate::Binary(op, a, b) => if op.is_null_intolerant() {
            let rewrites: Vec<Option<Predicate>> = vec![
                eval_pred_unary(e, a, true),
                eval_pred_unary(e, b, true),
                eval_pred_binary(e, *op, a, b, inverted),
            ];
            assert(opt_preds_view(rewrites@) =~= seq![
                e.rules().expr_is_null(a@, true),
                e.rules().expr_is_null(b@, true),
                e.rules().binary(*op, a@, b@, inverted),
            ]);
            Some(collect_junction_preds(JunctionPredicateOp::And, rewrites, false))
        } else {
            eval_pred_binary(e, *op, a, b, inverted)
        },
        Predicate::Not(p) => eval_pred_sql_where(e, p, !inverted),
        Predicate::BooleanExpression(expr) => match &**expr {
            Expression::Column(col) => {
                let rewrites: Vec<Option<Predicate>> = vec![
                    e.eval_pred_is_null(col, true),
                    Some(eval_pred_column(e, col, inverted)),
                ];
                assert(opt_preds_view(rewrites@) =~= seq![
                    e.rules().is_null(col@, true),
                    Some(e.rules().bool_column(col@, inverted)),
                ]);
                Some(collect_junction_preds(JunctionPredicateOp::And, rewrites, false))
            },
            Expression::Literal(s) => if s.is_null() {
                Some(Predicate::literal(false))
            } else {
                literal_pred(KernelPredicateEvaluatorDefaults::eval_pred_scalar(s, inverted))
            },
            Expression::Predicate(p) => eval_pred_sql_where(e, p, inverted),
            _ => None,
        },
        _ => eval_pred(e, pred, inverted),
    }
}

/// Rewrites a predicate.
pub fn eval<E: DataSkippingPredicateEvaluator>(e: &E, pred: &Predicate) -> (rewritten: Option<
    Predicate,
>)
    ensures
        option_view(rewritten) == rewrite_pred(e.rules(), pred@, false),
{
    eval_pred(e, pred, false)
}

/// Rewrites a predicate that is used as a filter.
pub fn eval_sql_where<E: DataSkippingPredicateEvaluator>(e: &E, pred: &Predicate) -> (rewritten:
    Option<Predicate>)
    ensures
        option_view(rewritten) == rewrite_sql_where(e.rules(), pred@, false),
{
    eval_pred_sql_where(e, pred, false)
}

} // verus!
