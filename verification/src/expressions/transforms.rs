//! The columns that expressions refer to, and renaming them.

use std::sync::Arc;

use vstd::prelude::*;

use super::column::{ColumnName, ColumnSet, Path};
use super::expression::{
    exprs_view, lemma_pred_view, preds_view, ExprV, Expression, ExpressionRef,
    FieldPatch, FieldPatchV, OpaquePredicate, OpaqueV, PredV, Predicate, PredicateRef, StructPatch,
    StructPatchV,
};

verus! {

/// The columns that an expression refers to.
pub open spec fn expr_refs(e: ExprV) -> Set<Path>
    decreases e,
{
    match e {
        ExprV::Literal(_) => Set::empty(),
        ExprV::Column(path) => set![path],
        ExprV::Predicate(p) => pred_refs(*p),
        ExprV::Struct(fields, nullability) => exprs_refs(fields).union(
            match nullability {
                Some(n) => expr_refs(*n),
                None => Set::empty(),
            },
        ),
        ExprV::StructPatch(p) => patch_refs(*p),
        ExprV::Unary(_, a) => expr_refs(*a),
        ExprV::Binary(_, a, b) => expr_refs(*a).union(expr_refs(*b)),
        ExprV::Variadic(_, exprs) => exprs_refs(exprs),
        ExprV::ParseJson(a, _) => expr_refs(*a),
        ExprV::MapToStruct(a) => expr_refs(*a),
        ExprV::Cast(a, _) => expr_refs(*a),
        ExprV::Opaque(_, exprs) => exprs_refs(exprs),
        ExprV::Unknown(_) => Set::empty(),
    }
}

/// The columns that any of the expressions refers to.
pub open spec fn exprs_refs(exprs: Seq<ExprV>) -> Set<Path>
    decreases exprs,
{
    Set::new(
        |path: Path|
            exists|i: int|
                0 <= i < exprs.len() && expr_refs(#[trigger] exprs[i]).contains(path),
    )
}

/// The columns that the expressions of a patch refer to.
pub open spec fn patch_refs(p: StructPatchV) -> Set<Path>
    decreases p,
{
    exprs_refs(p.prepended_fields).union(exprs_refs(p.appended_fields)).union(
        Set::new(
            |path: Path|
                exists|i: int|
                    0 <= i < p.field_patches.len() && exprs_refs(
                        #[trigger] p.field_patches[i].insertions,
                    ).contains(path),
        ),
    )
}

/// The columns that a predicate refers to.
pub open spec fn pred_refs(p: PredV) -> Set<Path>
    decreases p,
{
    match p {
        PredV::BooleanExpression(e) => expr_refs(*e),
        PredV::Not(a) => pred_refs(*a),
        PredV::IsNull(e) => expr_refs(*e),
        PredV::Binary(_, a, b) => expr_refs(*a).union(expr_refs(*b)),
        PredV::Junction(_, preds) => Set::new(
            |path: Path|
                exists|i: int|
                    0 <= i < preds.len() && pred_refs(#[trigger] preds[i]).contains(path),
        ),
        PredV::Opaque(o) => exprs_refs(o.exprs).union(
            match o.implied {
                Some(q) => pred_refs(*q),
                None => Set::empty(),
            },
        ).union(
            match o.implied_inverted {
                Some(q) => pred_refs(*q),
                None => Set::empty(),
            },
        ),
        PredV::Unknown(_) => Set::empty(),
    }
}

fn collect_exprs(exprs: &Vec<ExpressionRef>, refs: &mut ColumnSet)
    ensures
        final(refs)@ == old(refs)@.union(exprs_refs(exprs_view(*exprs))),
    decreases exprs,
{
    let ghost start = refs@;
    for i in 0..exprs.len()
        invariant
            forall|path: Path| #[trigger]
                refs@.contains(path) <==> start.contains(path) || exists|j: int|
                    0 <= j < i && expr_refs(#[trigger] exprs_view(*exprs)[j]).contains(path),
    {
        proof {
            assert(decreases_to!(*exprs => exprs@));
            assert(decreases_to!(exprs@ => exprs@[i as int]));
            assert(exprs_view(*exprs)[i as int] == exprs@[i as int]@);
        }
        let ghost before = refs@;
        collect_expr(&exprs[i], refs);
        assert forall|path: Path| #[trigger] refs@.contains(path) implies start.contains(path)
            || exists|j: int|
            0 <= j < i + 1 && expr_refs(#[trigger] exprs_view(*exprs)[j]).contains(path) by {
            if !before.contains(path) {
                assert(expr_refs(exprs_view(*exprs)[i as int]).contains(path));
            }
        }
    }
    assert(refs@ =~= start.union(exprs_refs(exprs_view(*exprs))));
}

fn collect_patch(patch: &StructPatch, refs: &mut ColumnSet)
    ensures
        final(refs)@ == old(refs)@.union(patch_refs(patch@)),
    decreases patch,
{
    let ghost start = refs@;
    collect_exprs(&patch.prepended_fields, refs);
    collect_exprs(&patch.appended_fields, refs);
    let ghost ends = refs@;
    for i in 0..patch.field_patches.len()
        invariant
            forall|path: Path| #[trigger]
                refs@.contains(path) <==> ends.contains(path) || exists|j: int|
                    0 <= j < i && exprs_refs(
                        #[trigger] patch@.field_patches[j].insertions,
                    ).contains(path),
    {
        proof {
            assert(decreases_to!(*patch => patch.field_patches));
            assert(decreases_to!(patch.field_patches => patch.field_patches@));
            assert(decreases_to!(patch.field_patches@ => patch.field_patches@[i as int]));
            assert(patch@.field_patches[i as int].insertions == exprs_view(
                patch.field_patches@[i as int].1.insertions,
            ));
        }
        let ghost before = refs@;
        collect_exprs(&patch.field_patches[i].1.insertions, refs);
        assert forall|path: Path| #[trigger] refs@.contains(path) implies ends.contains(path)
            || exists|j: int|
            0 <= j < i + 1 && exprs_refs(
                #[trigger] patch@.field_patches[j].insertions,
            ).contains(path) by {
            if !before.contains(path) {
                assert(exprs_refs(patch@.field_patches[i as int].insertions).contains(path));
            }
        }
    }
    assert(refs@ =~= start.union(patch_refs(patch@)));
}

fn collect_expr(e: &Expression, refs: &mut ColumnSet)
    ensures
        final(refs)@ == old(refs)@.union(expr_refs(e@)),
    decreases e,
{
    let ghost start = refs@;
    match e {
        Expression::Literal(_) => {
            assert(refs@ =~= start.union(expr_refs(e@)));
        },
        Expression::Column(c) => {
            refs.insert(c.clone());
            assert(refs@ =~= start.union(expr_refs(e@)));
        },
        Expression::Predicate(p) => {
            collect_pred(p, refs);
        },
        Expression::Struct(fields, nullability) => {
            collect_exprs(fields, refs);
            if let Some(n) = nullability {
                collect_expr(n, refs);
            }
            assert(refs@ =~= start.union(expr_refs(e@)));
        },
        Expression::StructPatch(p) => {
            collect_patch(p, refs);
        },
        Expression::Unary(_, a) => {
            collect_expr(a, refs);
        },
        Expression::Binary(_, a, b) => {
            collect_expr(a, refs);
            collect_expr(b, refs);
            assert(refs@ =~= start.union(expr_refs(e@)));
        },
        Expression::Variadic(_, exprs) => {
            collect_exprs(exprs, refs);
        },
        Expression::ParseJson(a, _) => {
            collect_expr(a, refs);
        },
        Expression::MapToStruct(a) => {
            collect_expr(a, refs);
        },
        Expression::Cast(a, _) => {
            collect_expr(a, refs);
        },
        Expression::Opaque(_, exprs) => {
            collect_exprs(exprs, refs);
        },
        Expression::Unknown(_) => {
            assert(refs@ =~= start.union(expr_refs(e@)));
        },
    }
}

fn collect_pred(p: &Predicate, refs: &mut ColumnSet)
    ensures
        final(refs)@ == old(refs)@.union(pred_refs(p@)),
    decreases p,
{
    let ghost start = refs@;
    proof {
        lemma_pred_view(*p);
    }
    match p {
        Predicate::BooleanExpression(e) => {
            collect_expr(e, refs);
        },
        Predicate::Not(a) => {
            collect_pred(a, refs);
        },
        Predicate::IsNull(e) => {
            collect_expr(e, refs);
        },
        Predicate::Binary(_, a, b) => {
            collect_expr(a, refs);
            collect_expr(b, refs);
            assert(refs@ =~= start.union(pred_refs(p@)));
        },
        Predicate::Junction(op, preds) => {
            for i in 0..preds.len()
                invariant
                    *p == Predicate::Junction(*op, *preds),
                    p@ == PredV::Junction(*op, preds_view(*preds)),
                    forall|path: Path| #[trigger]
                        refs@.contains(path) <==> start.contains(path) || exists|j: int|
                            0 <= j < i && pred_refs(#[trigger] preds_view(*preds)[j]).contains(
                                path,
                            ),
            {
                proof {
                    assert(decreases_to!(*p => p->Junction_1));
                    assert(decreases_to!(p->Junction_1 => p->Junction_1@));
                    assert(decreases_to!(p->Junction_1@ => p->Junction_1@[i as int]));
                    assert(preds_view(*preds)[i as int] == preds@[i as int]@);
                }
                let ghost before = refs@;
                collect_pred(&preds[i], refs);
                assert forall|path: Path| #[trigger] refs@.contains(path) implies start.contains(
                    path,
                ) || exists|j: int|
                    0 <= j < i + 1 && pred_refs(#[trigger] preds_view(*preds)[j]).contains(
                        path,
                    ) by {
                    if !before.contains(path) {
                        assert(pred_refs(preds_view(*preds)[i as int]).contains(path));
                    }
                }
            }
            assert(refs@ =~= start.union(pred_refs(p@)));
        },
        Predicate::Opaque(o) => {
            collect_exprs(&o.exprs, refs);
            if let Some(q) = &o.implied {
                collect_pred(q, refs);
            }
            if let Some(q) = &o.implied_inverted {
                collect_pred(q, refs);
            }
            assert(refs@ =~= start.union(pred_refs(p@)));
        },
        Predicate::Unknown(_) => {
            assert(refs@ =~= start.union(pred_refs(p@)));
        },
    }
}

impl Predicate {
    /// The columns that the predicate refers to.
    pub fn references(&self) -> (refs: ColumnSet)
        ensures
            refs@ == pred_refs(self@),
    {
        let mut refs = ColumnSet::new();
        collect_pred(self, &mut refs);
        assert(refs@ =~= pred_refs(self@));
        refs
    }
}

impl Expression {
    /// The columns that the expression refers to.
    pub fn references(&self) -> (refs: ColumnSet)
        ensures
            refs@ == expr_refs(self@),
    {
        let mut refs = ColumnSet::new();
        collect_expr(self, &mut refs);
        assert(refs@ =~= expr_refs(self@));
        refs
    }
}

// ---------------------------------------------------------------------------------------------
// Renaming columns
// ---------------------------------------------------------------------------------------------

/// An expression with its columns renamed.
pub open spec fn renamed_expr(f: spec_fn(Path) -> Path, e: ExprV) -> ExprV
    decreases e,
{
    match e {
        ExprV::Literal(s) => ExprV::Literal(s),
        ExprV::Column(path) => ExprV::Column(f(path)),
        ExprV::Predicate(p) => ExprV::Predicate(Box::new(renamed_pred(f, *p))),
        ExprV::Struct(fields, nullability) => ExprV::Struct(
            renamed_exprs(f, fields),
            match nullability {
                Some(n) => Some(Box::new(renamed_expr(f, *n))),
                None => None,
            },
        ),
        ExprV::StructPatch(p) => ExprV::StructPatch(Box::new(renamed_patch(f, *p))),
        ExprV::Unary(op, a) => ExprV::Unary(op, Box::new(renamed_expr(f, *a))),
        ExprV::Binary(op, a, b) => ExprV::Binary(
            op,
            Box::new(renamed_expr(f, *a)),
            Box::new(renamed_expr(f, *b)),
        ),
        ExprV::Variadic(op, exprs) => ExprV::Variadic(op, renamed_exprs(f, exprs)),
        ExprV::ParseJson(a, schema) => ExprV::ParseJson(Box::new(renamed_expr(f, *a)), schema),
        ExprV::MapToStruct(a) => ExprV::MapToStruct(Box::new(renamed_expr(f, *a))),
        ExprV::Cast(a, t) => ExprV::Cast(Box::new(renamed_expr(f, *a)), t),
        ExprV::Opaque(name, exprs) => ExprV::Opaque(name, renamed_exprs(f, exprs)),
        ExprV::Unknown(name) => ExprV::Unknown(name),
    }
}

pub open spec fn renamed_exprs(f: spec_fn(Path) -> Path, exprs: Seq<ExprV>) -> Seq<ExprV>
    decreases exprs,
{
    Seq::new(
        exprs.len(),
        |i: int|
            if 0 <= i < exprs.len() {
                renamed_expr(f, exprs[i])
            } else {
                arbitrary()
            },
    )
}

pub open spec fn renamed_patch(f: spec_fn(Path) -> Path, p: StructPatchV) -> StructPatchV
    decreases p,
{
    StructPatchV {
        input_path: p.input_path,
        prepended_fields: renamed_exprs(f, p.prepended_fields),
        field_patches: Seq::new(
            p.field_patches.len(),
            |i: int|
                if 0 <= i < p.field_patches.len() {
                    FieldPatchV {
                        name: p.field_patches[i].name,
                        keep_input: p.field_patches[i].keep_input,
                        insertions: renamed_exprs(f, p.field_patches[i].insertions),
                    }
                } else {
                    arbitrary()
                },
        ),
        appended_fields: renamed_exprs(f, p.appended_fields),
    }
}

/// A predicate with its columns renamed, also in what an opaque predicate implies.
pub open spec fn renamed_pred(f: spec_fn(Path) -> Path, p: PredV) -> PredV
    decreases p,
{
    match p {
        PredV::BooleanExpression(e) => PredV::BooleanExpression(Box::new(renamed_expr(f, *e))),
        PredV::Not(a) => PredV::Not(Box::new(renamed_pred(f, *a))),
        PredV::IsNull(e) => PredV::IsNull(Box::new(renamed_expr(f, *e))),
        PredV::Binary(op, a, b) => PredV::Binary(
            op,
            Box::new(renamed_expr(f, *a)),
            Box::new(renamed_expr(f, *b)),
        ),
        PredV::Junction(op, preds) => PredV::Junction(op, renamed_preds(f, preds)),
        PredV::Opaque(o) => PredV::Opaque(
            OpaqueV {
                exprs: renamed_exprs(f, o.exprs),
                implied: match o.implied {
                    Some(q) => Some(Box::new(renamed_pred(f, *q))),
                    None => None,
                },
                implied_inverted: match o.implied_inverted {
                    Some(q) => Some(Box::new(renamed_pred(f, *q))),
                    None => None,
                },
                ..o
            },
        ),
        PredV::Unknown(name) => PredV::Unknown(name),
    }
}

pub open spec fn renamed_preds(f: spec_fn(Path) -> Path, preds: Seq<PredV>) -> Seq<PredV>
    decreases preds,
{
    Seq::new(
        preds.len(),
        |i: int|
            if 0 <= i < preds.len() {
                renamed_pred(f, preds[i])
            } else {
                arbitrary()
            },
    )
}

/// A way to rename columns.
pub trait ColumnRenaming {
    /// The columns that have a new name.
    spec fn covers(&self) -> Set<Path>;

    /// The new name of each column.
    spec fn renaming(&self) -> spec_fn(Path) -> Path;

    fn rename(&self, column: &ColumnName) -> (renamed: ColumnName)
        requires
            self.covers().contains(column@),
        ensures
            renamed@ == (self.renaming())(column@),
    ;
}

fn rename_exprs<R: ColumnRenaming>(r: &R, exprs: &Vec<ExpressionRef>) -> (out: Vec<ExpressionRef>)
    requires
        exprs_refs(exprs_view(*exprs)).subset_of(r.covers()),
    ensures
        exprs_view(out) == renamed_exprs(r.renaming(), exprs_view(*exprs)),
    decreases exprs,
{
    let mut out: Vec<ExpressionRef> = Vec::new();
    for i in 0..exprs.len()
        invariant
            exprs_refs(exprs_view(*exprs)).subset_of(r.covers()),
            out@.len() == i,
            forall|j: int|
                0 <= j < i ==> (#[trigger] out@[j])@ == renamed_expr(
                    r.renaming(),
                    exprs_view(*exprs)[j],
                ),
    {
        proof {
            assert(decreases_to!(*exprs => exprs@));
            assert(decreases_to!(exprs@ => exprs@[i as int]));
            assert(exprs_view(*exprs)[i as int] == exprs@[i as int]@);
            assert forall|path: Path| #[trigger] expr_refs(exprs@[i as int]@).contains(
                path,
            ) implies r.covers().contains(path) by {
                assert(exprs_refs(exprs_view(*exprs)).contains(path));
            }
        }
        let e = rename_expr(r, &exprs[i]);
        out.push(Arc::new(e));
    }
    assert(exprs_view(out) =~= renamed_exprs(r.renaming(), exprs_view(*exprs)));
    out
}

fn rename_patch<R: ColumnRenaming>(r: &R, patch: &StructPatch) -> (out: StructPatch)
    requires
        patch_refs(patch@).subset_of(r.covers()),
    ensures
        out@ == renamed_patch(r.renaming(), patch@),
    decreases patch,
{
    proof {
        assert forall|path: Path| #[trigger] exprs_refs(patch@.prepended_fields).contains(
            path,
        ) implies r.covers().contains(path) by {
            assert(patch_refs(patch@).contains(path));
        }
        assert forall|path: Path| #[trigger] exprs_refs(patch@.appended_fields).contains(
            path,
        ) implies r.covers().contains(path) by {
            assert(patch_refs(patch@).contains(path));
        }
    }
    let prepended_fields = rename_exprs(r, &patch.prepended_fields);
    let appended_fields = rename_exprs(r, &patch.appended_fields);
    let mut field_patches: Vec<(String, FieldPatch)> = Vec::new();
    for i in 0..patch.field_patches.len()
        invariant
            patch_refs(patch@).subset_of(r.covers()),
            field_patches@.len() == i,
            forall|j: int|
                0 <= j < i ==> {
                    &&& (#[trigger] field_patches@[j]).0@ == patch@.field_patches[j].name
                    &&& field_patches@[j].1.keep_input == patch@.field_patches[j].keep_input
                    &&& exprs_view(field_patches@[j].1.insertions) == renamed_exprs(
                        r.renaming(),
                        patch@.field_patches[j].insertions,
                    )
                },
    {
        proof {
            assert(decreases_to!(*patch => patch.field_patches));
            assert(decreases_to!(patch.field_patches => patch.field_patches@));
            assert(decreases_to!(patch.field_patches@ => patch.field_patches@[i as int]));
            assert(patch@.field_patches[i as int].insertions == exprs_view(
                patch.field_patches@[i as int].1.insertions,
            ));
            assert forall|path: Path| #[trigger] exprs_refs(
                patch@.field_patches[i as int].insertions,
            ).contains(path) implies r.covers().contains(path) by {
                assert(patch_refs(patch@).contains(path));
            }
        }
        let (name, field_patch) = &patch.field_patches[i];
        let insertions = rename_exprs(r, &field_patch.insertions);
        let renamed = FieldPatch { keep_input: field_patch.keep_input, insertions };
        field_patches.push((name.clone(), renamed));
    }
    let input_path = match &patch.input_path {
        Some(path) => Some(path.clone()),
        None => None,
    };
    let out = StructPatch { input_path, prepended_fields, field_patches, appended_fields };
    assert(out@.field_patches =~= renamed_patch(r.renaming(), patch@).field_patches);
    out
}

fn rename_expr<R: ColumnRenaming>(r: &R, e: &Expression) -> (out: Expression)
    requires
        expr_refs(e@).subset_of(r.covers()),
    ensures
        out@ == renamed_expr(r.renaming(), e@),
    decreases e,
{
    match e {
        Expression::Literal(s) => Expression::Literal(s.clone()),
        Expression::Column(c) => {
            assert(expr_refs(e@).contains(c@));
            Expression::Column(r.rename(c))
        },
        Expression::Predicate(p) => Expression::Predicate(Arc::new(rename_pred(r, p))),
        Expression::Struct(fields, nullability) => {
            let fields = rename_exprs(r, fields);
            let nullability = match nullability {
                Some(n) => {
                    let n = rename_expr(r, n);
                    Some(Arc::new(n))
                },
                None => None,
            };
            Expression::Struct(fields, nullability)
        },
        Expression::StructPatch(p) => Expression::StructPatch(rename_patch(r, p)),
        Expression::Unary(op, a) => Expression::Unary(*op, Arc::new(rename_expr(r, a))),
        Expression::Binary(op, a, b) => {
            let a = rename_expr(r, a);
            let b = rename_expr(r, b);
            Expression::Binary(*op, Arc::new(a), Arc::new(b))
        },
        Expression::Variadic(op, exprs) => Expression::Variadic(*op, rename_exprs(r, exprs)),
        Expression::ParseJson(a, schema) => Expression::ParseJson(
            Arc::new(rename_expr(r, a)),
            schema.clone(),
        ),
        Expression::MapToStruct(a) => Expression::MapToStruct(Arc::new(rename_expr(r, a))),
        Expression::Cast(a, t) => Expression::Cast(Arc::new(rename_expr(r, a)), t.clone()),
        Expression::Opaque(name, exprs) => Expression::Opaque(name.clone(), rename_exprs(r, exprs)),
        Expression::Unknown(name) => Expression::Unknown(name.clone()),
    }
}

/// Renames the columns of a predicate.
pub fn rename_pred<R: ColumnRenaming>(r: &R, p: &Predicate) -> (out: Predicate)
    requires
        pred_refs(p@).subset_of(r.covers()),
    ensures
        out@ == renamed_pred(r.renaming(), p@),
    decreases p,
{
    proof {
        lemma_pred_view(*p);
    }
    let renamed = match p {
        Predicate::BooleanExpression(e) => Predicate::BooleanExpression(
            Arc::new(rename_expr(r, e)),
        ),
        Predicate::Not(a) => Predicate::Not(Arc::new(rename_pred(r, a))),
        Predicate::IsNull(e) => Predicate::IsNull(Arc::new(rename_expr(r, e))),
        Predicate::Binary(op, a, b) => {
            let a = rename_expr(r, a);
            let b = rename_expr(r, b);
            Predicate::Binary(*op, Arc::new(a), Arc::new(b))
        },
        Predicate::Junction(op, preds) => {
            let mut out: Vec<PredicateRef> = Vec::new();
            for i in 0..preds.len()
                invariant
                    *p == Predicate::Junction(*op, *preds),
                    p@ == PredV::Junction(*op, preds_view(*preds)),
                    pred_refs(p@).subset_of(r.covers()),
                    out@.len() == i,
                    forall|j: int|
                        0 <= j < i ==> (#[trigger] out@[j])@ == renamed_pred(
                            r.renaming(),
                            preds_view(*preds)[j],
                        ),
            {
                proof {
                    assert(decreases_to!(*p => p->Junction_1));
                    assert(decreases_to!(p->Junction_1 => p->Junction_1@));
                    assert(decreases_to!(p->Junction_1@ => p->Junction_1@[i as int]));
                    assert(preds_view(*preds)[i as int] == preds@[i as int]@);
                    assert forall|path: Path| #[trigger] pred_refs(preds@[i as int]@).contains(
                        path,
                    ) implies r.covers().contains(path) by {
                        assert(pred_refs(p@).contains(path));
                    }
                }
                let q = rename_pred(r, &preds[i]);
                out.push(Arc::new(q));
            }
            assert(preds_view(out) =~= renamed_preds(r.renaming(), preds_view(*preds)));
            Predicate::Junction(*op, out)
        },
        Predicate::Opaque(o) => {
            let exprs = rename_exprs(r, &o.exprs);
            let implied = match &o.implied {
                Some(q) => {
                    let q = rename_pred(r, q);
                    Some(Arc::new(q))
                },
                None => None,
            };
            let implied_inverted = match &o.implied_inverted {
                Some(q) => {
                    let q = rename_pred(r, q);
                    Some(Arc::new(q))
                },
                None => None,
            };
            let renamed = OpaquePredicate {
                name: o.name.clone(),
                exprs,
                implied,
                implied_inverted,
                constant: o.constant,
            };
            Predicate::Opaque(renamed)
        },
        Predicate::Unknown(name) => Predicate::Unknown(name.clone()),
    };
    proof {
        lemma_pred_view(renamed);
    }
    renamed
}

} // verus!
