//! What the references of an expression are good for.

use vstd::prelude::*;

use super::column::Path;
use super::expression::{ExprV, PredV, StructPatchV};
use super::transforms::{
    expr_refs, exprs_refs, patch_refs, pred_refs, renamed_expr, renamed_exprs, renamed_patch,
    renamed_pred, renamed_preds,
};

verus! {

/// Whether two renamings agree on some columns.
pub open spec fn agree(
    f: spec_fn(Path) -> Path,
    g: spec_fn(Path) -> Path,
    columns: Set<Path>,
) -> bool {
    forall|path: Path| #[trigger] columns.contains(path) ==> f(path) == g(path)
}

/// The references of an expression are exactly the columns that renaming reaches: two renamings
/// give the same expression if and only if they agree on its references.
pub proof fn references_are_what_renaming_reaches(
    f: spec_fn(Path) -> Path,
    g: spec_fn(Path) -> Path,
    e: ExprV,
)
    ensures
        renamed_expr(f, e) == renamed_expr(g, e) <==> agree(f, g, expr_refs(e)),
    decreases e,
{
    match e {
        ExprV::Literal(_) => {},
        ExprV::Column(path) => {
            assert(expr_refs(e).contains(path));
        },
        ExprV::Predicate(p) => {
            predicate_references_are_what_renaming_reaches(f, g, *p);
        },
        ExprV::Struct(fields, nullability) => {
            lemma_exprs(f, g, fields);
            let other = match nullability {
                Some(n) => expr_refs(*n),
                None => Set::empty(),
            };
            if let Some(n) = nullability {
                references_are_what_renaming_reaches(f, g, *n);
            }
            lemma_union(f, g, exprs_refs(fields), other);
        },
        ExprV::StructPatch(p) => {
            lemma_patch(f, g, *p);
        },
        ExprV::Unary(_, a) => {
            references_are_what_renaming_reaches(f, g, *a);
        },
        ExprV::Binary(_, a, b) => {
            references_are_what_renaming_reaches(f, g, *a);
            references_are_what_renaming_reaches(f, g, *b);
            lemma_union(f, g, expr_refs(*a), expr_refs(*b));
        },
        ExprV::Variadic(_, exprs) => {
            lemma_exprs(f, g, exprs);
        },
        ExprV::ParseJson(a, _) => {
            references_are_what_renaming_reaches(f, g, *a);
        },
        ExprV::MapToStruct(a) => {
            references_are_what_renaming_reaches(f, g, *a);
        },
        ExprV::Cast(a, _) => {
            references_are_what_renaming_reaches(f, g, *a);
        },
        ExprV::Opaque(_, exprs) => {
            lemma_exprs(f, g, exprs);
        },
        ExprV::Unknown(_) => {},
    }
}

/// The references of a predicate are exactly the columns that renaming reaches: two renamings give
/// the same predicate if and only if they agree on its references.
pub proof fn predicate_references_are_what_renaming_reaches(
    f: spec_fn(Path) -> Path,
    g: spec_fn(Path) -> Path,
    p: PredV,
)
    ensures
        renamed_pred(f, p) == renamed_pred(g, p) <==> agree(f, g, pred_refs(p)),
    decreases p,
{
    match p {
        PredV::BooleanExpression(e) => {
            references_are_what_renaming_reaches(f, g, *e);
        },
        PredV::Not(a) => {
            predicate_references_are_what_renaming_reaches(f, g, *a);
        },
        PredV::IsNull(e) => {
            references_are_what_renaming_reaches(f, g, *e);
        },
        PredV::Binary(_, a, b) => {
            references_are_what_renaming_reaches(f, g, *a);
            references_are_what_renaming_reaches(f, g, *b);
            lemma_union(f, g, expr_refs(*a), expr_refs(*b));
        },
        PredV::Junction(op, preds) => {
            assert forall|i: int| 0 <= i < preds.len() implies (renamed_pred(
                f,
                #[trigger] preds[i],
            ) == renamed_pred(g, preds[i]) <==> agree(f, g, pred_refs(preds[i]))) by {
                predicate_references_are_what_renaming_reaches(f, g, preds[i]);
            }
            let a = renamed_preds(f, preds);
            let b = renamed_preds(g, preds);
            if renamed_pred(f, p) == renamed_pred(g, p) {
                assert forall|path: Path| #[trigger] pred_refs(p).contains(path) implies f(path)
                    == g(path) by {
                    let i = choose|i: int|
                        0 <= i < preds.len() && pred_refs(#[trigger] preds[i]).contains(path);
                    assert(a[i] == b[i]);
                    assert(a[i] == renamed_pred(f, preds[i]));
                    assert(b[i] == renamed_pred(g, preds[i]));
                }
            }
            if agree(f, g, pred_refs(p)) {
                assert forall|i: int| 0 <= i < preds.len() implies #[trigger] a[i] == b[i] by {
                    assert forall|path: Path| #[trigger]
                        pred_refs(preds[i]).contains(path) implies f(path) == g(path) by {
                        assert(pred_refs(p).contains(path));
                    }
                }
                assert(a =~= b);
            }
        },
        PredV::Opaque(o) => {
            lemma_exprs(f, g, o.exprs);
            let implied = match o.implied {
                Some(q) => pred_refs(*q),
                None => Set::empty(),
            };
            let inverted = match o.implied_inverted {
                Some(q) => pred_refs(*q),
                None => Set::empty(),
            };
            if let Some(q) = o.implied {
                predicate_references_are_what_renaming_reaches(f, g, *q);
            }
            if let Some(q) = o.implied_inverted {
                predicate_references_are_what_renaming_reaches(f, g, *q);
            }
            lemma_union(f, g, exprs_refs(o.exprs), implied);
            lemma_union(f, g, exprs_refs(o.exprs).union(implied), inverted);
        },
        PredV::Unknown(_) => {},
    }
}

proof fn lemma_union(
    f: spec_fn(Path) -> Path,
    g: spec_fn(Path) -> Path,
    a: Set<Path>,
    b: Set<Path>,
)
    ensures
        agree(f, g, a.union(b)) <==> agree(f, g, a) && agree(f, g, b),
{
    if agree(f, g, a.union(b)) {
        assert forall|path: Path| #[trigger] a.contains(path) implies f(path) == g(path) by {
            assert(a.union(b).contains(path));
        }
        assert forall|path: Path| #[trigger] b.contains(path) implies f(path) == g(path) by {
            assert(a.union(b).contains(path));
        }
    }
}

proof fn lemma_exprs(f: spec_fn(Path) -> Path, g: spec_fn(Path) -> Path, exprs: Seq<ExprV>)
    ensures
        renamed_exprs(f, exprs) == renamed_exprs(g, exprs) <==> agree(f, g, exprs_refs(exprs)),
    decreases exprs,
{
    assert forall|i: int| 0 <= i < exprs.len() implies (renamed_expr(f, #[trigger] exprs[i])
        == renamed_expr(g, exprs[i]) <==> agree(f, g, expr_refs(exprs[i]))) by {
        references_are_what_renaming_reaches(f, g, exprs[i]);
    }
    let a = renamed_exprs(f, exprs);
    let b = renamed_exprs(g, exprs);
    if a == b {
        assert forall|path: Path| #[trigger] exprs_refs(exprs).contains(path) implies f(path)
            == g(path) by {
            let i = choose|i: int|
                0 <= i < exprs.len() && expr_refs(#[trigger] exprs[i]).contains(path);
            assert(a[i] == b[i]);
            assert(a[i] == renamed_expr(f, exprs[i]));
            assert(b[i] == renamed_expr(g, exprs[i]));
        }
    }
    if agree(f, g, exprs_refs(exprs)) {
        assert forall|i: int| 0 <= i < exprs.len() implies #[trigger] a[i] == b[i] by {
            assert forall|path: Path| #[trigger] expr_refs(exprs[i]).contains(path) implies f(path)
                == g(path) by {
                assert(exprs_refs(exprs).contains(path));
            }
        }
        assert(a =~= b);
    }
}

proof fn lemma_patch(f: spec_fn(Path) -> Path, g: spec_fn(Path) -> Path, p: StructPatchV)
    ensures
        renamed_patch(f, p) == renamed_patch(g, p) <==> agree(f, g, patch_refs(p)),
    decreases p,
{
    lemma_exprs(f, g, p.prepended_fields);
    lemma_exprs(f, g, p.appended_fields);
    let patches = p.field_patches;
    assert forall|i: int| 0 <= i < patches.len() implies (renamed_exprs(
        f,
        #[trigger] patches[i].insertions,
    ) == renamed_exprs(g, patches[i].insertions) <==> agree(
        f,
        g,
        exprs_refs(patches[i].insertions),
    )) by {
        lemma_exprs(f, g, patches[i].insertions);
    }
    let inner = Set::new(
        |path: Path|
            exists|i: int|
                0 <= i < p.field_patches.len() && exprs_refs(
                    #[trigger] p.field_patches[i].insertions,
                ).contains(path),
    );
    let a = renamed_patch(f, p).field_patches;
    let b = renamed_patch(g, p).field_patches;
    if a == b {
        assert forall|path: Path| #[trigger] inner.contains(path) implies f(path) == g(path) by {
            let i = choose|i: int|
                0 <= i < p.field_patches.len() && exprs_refs(
                    #[trigger] p.field_patches[i].insertions,
                ).contains(path);
            assert(a[i] == b[i]);
            assert(a[i].insertions == renamed_exprs(f, patches[i].insertions));
            assert(b[i].insertions == renamed_exprs(g, patches[i].insertions));
        }
    }
    if agree(f, g, inner) {
        assert forall|i: int| 0 <= i < patches.len() implies #[trigger] a[i] == b[i] by {
            assert forall|path: Path| #[trigger]
                exprs_refs(patches[i].insertions).contains(path) implies f(path) == g(path) by {
                assert(exprs_refs(p.field_patches[i].insertions).contains(path));
                assert(inner.contains(path));
            }
        }
        assert(a =~= b);
    }
    let outer = exprs_refs(p.prepended_fields).union(exprs_refs(p.appended_fields));
    lemma_union(f, g, exprs_refs(p.prepended_fields), exprs_refs(p.appended_fields));
    lemma_union(f, g, outer, inner);
    assert(patch_refs(p) =~= outer.union(inner));
}

} // verus!
