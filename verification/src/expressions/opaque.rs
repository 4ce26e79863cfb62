//! Which expressions hold a part that only the engine knows.

use vstd::prelude::*;

use super::expression::{
    exprs_view, lemma_pred_view, preds_view, ExprV, Expression, ExpressionRef, PredV, Predicate,
    StructPatch, StructPatchV,
};

verus! {

/// Whether an expression holds an opaque predicate or expression.
pub open spec fn expr_opaque(e: ExprV) -> bool
    decreases e,
{
    match e {
        ExprV::Literal(_) => false,
        ExprV::Column(_) => false,
        ExprV::Predicate(p) => pred_opaque(*p),
        ExprV::Struct(fields, nullability) => exprs_opaque(fields) || (match nullability {
            Some(n) => expr_opaque(*n),
            None => false,
        }),
        ExprV::StructPatch(p) => patch_opaque(*p),
        ExprV::Unary(_, a) => expr_opaque(*a),
        ExprV::Binary(_, a, b) => expr_opaque(*a) || expr_opaque(*b),
        ExprV::Variadic(_, exprs) => exprs_opaque(exprs),
        ExprV::ParseJson(a, _) => expr_opaque(*a),
        ExprV::MapToStruct(a) => expr_opaque(*a),
        ExprV::Cast(a, _) => expr_opaque(*a),
        ExprV::Opaque(_, _) => true,
        ExprV::Unknown(_) => false,
    }
}

/// Whether any of the expressions holds an opaque part.
pub open spec fn exprs_opaque(exprs: Seq<ExprV>) -> bool
    decreases exprs,
{
    exists|i: int| 0 <= i < exprs.len() && expr_opaque(#[trigger] exprs[i])
}

/// Whether any expression of a patch holds an opaque part.
pub open spec fn patch_opaque(p: StructPatchV) -> bool
    decreases p,
{
    exprs_opaque(p.prepended_fields) || exprs_opaque(p.appended_fields) || exists|i: int|
        0 <= i < p.field_patches.len() && exprs_opaque(#[trigger] p.field_patches[i].insertions)
}

/// Whether a predicate holds an opaque predicate or expression.
pub open spec fn pred_opaque(p: PredV) -> bool
    decreases p,
{
    match p {
        PredV::BooleanExpression(e) => expr_opaque(*e),
        PredV::Not(a) => pred_opaque(*a),
        PredV::IsNull(e) => expr_opaque(*e),
        PredV::Binary(_, a, b) => expr_opaque(*a) || expr_opaque(*b),
        PredV::Junction(_, preds) => preds_opaque(preds),
        PredV::Opaque(_) => true,
        PredV::Unknown(_) => false,
    }
}

/// Whether any of the predicates holds an opaque part.
pub open spec fn preds_opaque(preds: Seq<PredV>) -> bool
    decreases preds,
{
    exists|i: int| 0 <= i < preds.len() && pred_opaque(#[trigger] preds[i])
}

fn any_opaque(exprs: &Vec<ExpressionRef>) -> (opaque: bool)
    ensures
        opaque == exprs_opaque(exprs_view(*exprs)),
    decreases exprs,
{
    for i in 0..exprs.len()
        invariant
            forall|j: int| 0 <= j < i ==> !expr_opaque(#[trigger] exprs_view(*exprs)[j]),
    {
        proof {
            assert(decreases_to!(*exprs => exprs@));
            assert(decreases_to!(exprs@ => exprs@[i as int]));
            assert(exprs_view(*exprs)[i as int] == exprs@[i as int]@);
        }
        if expr_is_opaque(&exprs[i]) {
            return true;
        }
    }
    false
}

fn patch_is_opaque(patch: &StructPatch) -> (opaque: bool)
    ensures
        opaque == patch_opaque(patch@),
    decreases patch,
{
    if any_opaque(&patch.prepended_fields) || any_opaque(&patch.appended_fields) {
        return true;
    }
    for i in 0..patch.field_patches.len()
        invariant
            forall|j: int|
                0 <= j < i ==> !exprs_opaque(#[trigger] patch@.field_patches[j].insertions),
    {
        proof {
            assert(decreases_to!(*patch => patch.field_patches));
            assert(decreases_to!(patch.field_patches => patch.field_patches@));
            assert(decreases_to!(patch.field_patches@ => patch.field_patches@[i as int]));
            assert(patch@.field_patches[i as int].insertions == exprs_view(
                patch.field_patches@[i as int].1.insertions,
            ));
        }
        if any_opaque(&patch.field_patches[i].1.insertions) {
            return true;
        }
    }
    false
}

fn expr_is_opaque(e: &Expression) -> (opaque: bool)
    ensures
        opaque == expr_opaque(e@),
    decreases e,
{
    match e {
        Expression::Literal(_) => false,
        Expression::Column(_) => false,
        Expression::Predicate(p) => pred_is_opaque(p),
        Expression::Struct(fields, nullability) => any_opaque(fields) || (match nullability {
            Some(n) => expr_is_opaque(n),
            None => false,
        }),
        Expression::StructPatch(p) => patch_is_opaque(p),
        Expression::Unary(_, a) => expr_is_opaque(a),
        Expression::Binary(_, a, b) => expr_is_opaque(a) || expr_is_opaque(b),
        Expression::Variadic(_, exprs) => any_opaque(exprs),
        Expression::ParseJson(a, _) => expr_is_opaque(a),
        Expression::MapToStruct(a) => expr_is_opaque(a),
        Expression::Cast(a, _) => expr_is_opaque(a),
        Expression::Opaque(_, _) => true,
        Expression::Unknown(_) => false,
    }
}

fn pred_is_opaque(p: &Predicate) -> (opaque: bool)
    ensures
        opaque == pred_opaque(p@),
    decreases p,
{
    proof {
        lemma_pred_view(*p);
    }
    match p {
        Predicate::BooleanExpression(e) => expr_is_opaque(e),
        Predicate::Not(a) => pred_is_opaque(a),
        Predicate::IsNull(e) => expr_is_opaque(e),
        Predicate::Binary(_, a, b) => expr_is_opaque(a) || expr_is_opaque(b),
        Predicate::Junction(op, preds) => {
            for i in 0..preds.len()
                invariant
                    *p == Predicate::Junction(*op, *preds),
                    p@ == PredV::Junction(*op, preds_view(*preds)),
                    forall|j: int| 0 <= j < i ==> !pred_opaque(#[trigger] preds_view(*preds)[j]),
            {
                proof {
                    assert(decreases_to!(*p => p->Junction_1));
                    assert(decreases_to!(p->Junction_1 => p->Junction_1@));
                    assert(decreases_to!(p->Junction_1@ => p->Junction_1@[i as int]));
                    assert(preds_view(*preds)[i as int] == preds@[i as int]@);
                }
                if pred_is_opaque(&preds[i]) {
                    assert(preds_opaque(preds_view(*preds)));
                    return true;
                }
            }
            assert(!preds_opaque(preds_view(*preds)));
            false
        },
        Predicate::Opaque(_) => true,
        Predicate::Unknown(_) => false,
    }
}

impl Predicate {
    /// Whether the predicate holds an opaque predicate or expression.
    pub fn is_opaque(&self) -> (opaque: bool)
        ensures
            opaque == pred_opaque(self@),
    {
        pred_is_opaque(self)
    }
}

} // verus!
