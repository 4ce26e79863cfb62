//! What makes an expression opaque.

use vstd::prelude::*;

use super::expression::{ExprV, FieldPatchV, PredV};
use super::opaque::{expr_opaque, exprs_opaque, patch_opaque, pred_opaque, preds_opaque};

verus! {

/// Whether `part` stands right under `e`.
pub open spec fn expr_part(e: ExprV, part: ExprV) -> bool {
    match e {
        ExprV::Struct(fields, nullability) => fields.contains(part) || (nullability matches Some(n)
            && *n == part),
        ExprV::StructPatch(p) => p.prepended_fields.contains(part) || p.appended_fields.contains(
            part,
        ) || exists|patch: FieldPatchV|
            p.field_patches.contains(patch) && #[trigger] patch.insertions.contains(part),
        ExprV::Unary(_, a) => *a == part,
        ExprV::Binary(_, a, b) => *a == part || *b == part,
        ExprV::Variadic(_, exprs) => exprs.contains(part),
        ExprV::ParseJson(a, _) => *a == part,
        ExprV::MapToStruct(a) => *a == part,
        ExprV::Cast(a, _) => *a == part,
        _ => false,
    }
}

/// Whether `part` stands right under `p`.
pub open spec fn pred_part(p: PredV, part: ExprV) -> bool {
    match p {
        PredV::BooleanExpression(e) => *e == part,
        PredV::IsNull(e) => *e == part,
        PredV::Binary(_, a, b) => *a == part || *b == part,
        _ => false,
    }
}

/// Whether `q` stands right under `p`.
pub open spec fn sub_predicate(p: PredV, q: PredV) -> bool {
    match p {
        PredV::Not(a) => *a == q,
        PredV::Junction(_, preds) => preds.contains(q),
        _ => false,
    }
}

proof fn lemma_exprs_opaque(exprs: Seq<ExprV>)
    ensures
        exprs_opaque(exprs) <==> exists|part: ExprV|
            exprs.contains(part) && #[trigger] expr_opaque(part),
{
    if exprs_opaque(exprs) {
        let i = choose|i: int| 0 <= i < exprs.len() && expr_opaque(#[trigger] exprs[i]);
        assert(exprs.contains(exprs[i]));
    }
    if exists|part: ExprV| exprs.contains(part) && #[trigger] expr_opaque(part) {
        let part = choose|part: ExprV| exprs.contains(part) && #[trigger] expr_opaque(part);
        let i = choose|i: int| 0 <= i < exprs.len() && exprs[i] == part;
        assert(expr_opaque(exprs[i]));
    }
}

/// An expression is opaque if and only if it is itself one that only the engine understands, or one
/// of its parts is, or it is a predicate that is.
pub proof fn expressions_are_opaque_by_their_parts(e: ExprV)
    ensures
        expr_opaque(e) <==> e is Opaque || (e matches ExprV::Predicate(p) && pred_opaque(*p)) || (
        exists|part: ExprV| expr_part(e, part) && #[trigger] expr_opaque(part)),
{
    match e {
        ExprV::Struct(fields, nullability) => {
            lemma_exprs_opaque(fields);
            if let Some(n) = nullability {
                assert(expr_part(e, *n));
                assert(expr_opaque(e) == (exprs_opaque(fields) || expr_opaque(*n)));
            } else {
                assert(expr_opaque(e) == exprs_opaque(fields));
            }
            if exprs_opaque(fields) {
                let part = choose|part: ExprV| fields.contains(part) && #[trigger] expr_opaque(part);
                assert(expr_part(e, part));
            }
            if exists|part: ExprV| expr_part(e, part) && #[trigger] expr_opaque(part) {
                let part = choose|part: ExprV| expr_part(e, part) && #[trigger] expr_opaque(part);
                if fields.contains(part) {
                    assert(exprs_opaque(fields));
                }
            }
        },
        ExprV::Predicate(p) => {
            assert(expr_opaque(e) == pred_opaque(*p));
        },
        ExprV::StructPatch(p) => {
            assert(expr_opaque(e) == patch_opaque(*p));
            lemma_exprs_opaque(p.prepended_fields);
            lemma_exprs_opaque(p.appended_fields);
            assert forall|i: int| 0 <= i < p.field_patches.len() implies (exprs_opaque(
                #[trigger] p.field_patches[i].insertions,
            ) <==> exists|part: ExprV|
                p.field_patches[i].insertions.contains(part) && #[trigger] expr_opaque(part)) by {
                lemma_exprs_opaque(p.field_patches[i].insertions);
            }
            if exists|part: ExprV| expr_part(e, part) && #[trigger] expr_opaque(part) {
                let part = choose|part: ExprV| expr_part(e, part) && #[trigger] expr_opaque(part);
                if !p.prepended_fields.contains(part) && !p.appended_fields.contains(part) {
                    let patch = choose|patch: FieldPatchV|
                        p.field_patches.contains(patch) && #[trigger] patch.insertions.contains(
                            part,
                        );
                    let i = choose|i: int|
                        0 <= i < p.field_patches.len() && p.field_patches[i] == patch;
                    assert(exprs_opaque(p.field_patches[i].insertions));
                }
            }
            if exists|i: int|
                0 <= i < p.field_patches.len() && exprs_opaque(
                    #[trigger] p.field_patches[i].insertions,
                ) {
                let i = choose|i: int|
                    0 <= i < p.field_patches.len() && exprs_opaque(
                        #[trigger] p.field_patches[i].insertions,
                    );
                let part = choose|part: ExprV|
                    p.field_patches[i].insertions.contains(part) && #[trigger] expr_opaque(part);
                assert(p.field_patches.contains(p.field_patches[i]));
                assert(expr_part(e, part));
            }
            if exprs_opaque(p.prepended_fields) {
                let part = choose|part: ExprV|
                    p.prepended_fields.contains(part) && #[trigger] expr_opaque(part);
                assert(expr_part(e, part));
            }
            if exprs_opaque(p.appended_fields) {
                let part = choose|part: ExprV|
                    p.appended_fields.contains(part) && #[trigger] expr_opaque(part);
                assert(expr_part(e, part));
            }
        },
        ExprV::Binary(_, a, b) => {
            assert(expr_part(e, *a) && expr_part(e, *b));
            assert(expr_opaque(e) == (expr_opaque(*a) || expr_opaque(*b)));
        },
        ExprV::Variadic(_, exprs) => {
            lemma_exprs_opaque(exprs);
            assert(expr_opaque(e) == exprs_opaque(exprs));
            if exprs_opaque(exprs) {
                let part = choose|part: ExprV| exprs.contains(part) && #[trigger] expr_opaque(part);
                assert(expr_part(e, part));
            }
        },
        ExprV::Unary(_, a) => {
            assert(expr_part(e, *a));
            assert(expr_opaque(e) == expr_opaque(*a));
        },
        ExprV::ParseJson(a, _) => {
            assert(expr_part(e, *a));
            assert(expr_opaque(e) == expr_opaque(*a));
        },
        ExprV::MapToStruct(a) => {
            assert(expr_part(e, *a));
            assert(expr_opaque(e) == expr_opaque(*a));
        },
        ExprV::Cast(a, _) => {
            assert(expr_part(e, *a));
            assert(expr_opaque(e) == expr_opaque(*a));
        },
        _ => {},
    }
}

/// A predicate is opaque if and only if it is itself one that only the engine understands, or one of
/// the expressions or predicates under it is.
pub proof fn predicates_are_opaque_by_their_parts(p: PredV)
    ensures
        pred_opaque(p) <==> p is Opaque || (exists|part: ExprV|
            pred_part(p, part) && #[trigger] expr_opaque(part)) || (exists|q: PredV|
            sub_predicate(p, q) && #[trigger] pred_opaque(q)),
{
    match p {
        PredV::BooleanExpression(e) => {
            assert(pred_part(p, *e));
            assert(pred_opaque(p) == expr_opaque(*e));
        },
        PredV::Not(a) => {
            assert(sub_predicate(p, *a));
            assert(pred_opaque(p) == pred_opaque(*a));
        },
        PredV::IsNull(e) => {
            assert(pred_part(p, *e));
            assert(pred_opaque(p) == expr_opaque(*e));
        },
        PredV::Binary(_, a, b) => {
            assert(pred_part(p, *a) && pred_part(p, *b));
            assert(pred_opaque(p) == (expr_opaque(*a) || expr_opaque(*b)));
        },
        PredV::Junction(_, preds) => {
            assert(pred_opaque(p) == preds_opaque(preds));
            if preds_opaque(preds) {
                let i = choose|i: int| 0 <= i < preds.len() && pred_opaque(#[trigger] preds[i]);
                assert(preds.contains(preds[i]));
                assert(sub_predicate(p, preds[i]));
            }
            if exists|q: PredV| sub_predicate(p, q) && #[trigger] pred_opaque(q) {
                let q = choose|q: PredV| sub_predicate(p, q) && #[trigger] pred_opaque(q);
                let i = choose|i: int| 0 <= i < preds.len() && preds[i] == q;
                assert(pred_opaque(preds[i]));
            }
        },
        _ => {},
    }
}

} // verus!
