//! How logical columns are found in files.

use vstd::prelude::*;

use super::builder::{field_position, physical_path, physical_paths, with_data_columns};
use super::physical_predicate::{
    folded, folded_set, physical_name_of, referenced_fields, resolve, resolved_as,
    PhysicalPredicate,
};
use super::skipping_laws::{expr_value, pred_value, pred_values, Interpretation, Row};
use crate::error::DeltaResult;
use crate::expressions::column::Path;
use crate::expressions::expression::{BinaryPredicateOp, ExprV, PredV};
use crate::expressions::transforms::{pred_refs, renamed_expr, renamed_pred, renamed_preds};
use crate::kernel_predicates::constant_sql_where;
use crate::schema::{ColumnMappingMode, DataTypeV, FieldV, PrimitiveType, SchemaRef, SchemaV};
use crate::text::lowercase;

verus! {

// ---------------------------------------------------------------------------------------------
// Renaming
// ---------------------------------------------------------------------------------------------

/// Whether a predicate holds nothing that only the engine can evaluate.
pub open spec fn understood(p: PredV) -> bool
    decreases p,
{
    match p {
        PredV::BooleanExpression(e) => understood_expr(*e),
        PredV::Not(a) => understood(*a),
        PredV::IsNull(e) => understood_expr(*e),
        PredV::Binary(op, a, b) => op != BinaryPredicateOp::In && understood_expr(*a)
            && understood_expr(*b),
        PredV::Junction(_, preds) => forall|i: int|
            0 <= i < preds.len() ==> understood(#[trigger] preds[i]),
        _ => false,
    }
}

pub open spec fn understood_expr(e: ExprV) -> bool
    decreases e,
{
    match e {
        ExprV::Literal(_) | ExprV::Column(_) => true,
        ExprV::Cast(a, _) => understood_expr(*a),
        ExprV::Predicate(p) => understood(*p),
        _ => false,
    }
}

/// A renamed predicate says of a row what the predicate says of the row read under the new names.
pub proof fn renaming_keeps_the_meaning(
    it: Interpretation,
    row: Row,
    f: spec_fn(Path) -> Path,
    p: PredV,
)
    requires
        understood(p),
    ensures
        pred_value(it, row, renamed_pred(f, p)) == pred_value(it, |path: Path| row(f(path)), p),
    decreases p,
{
    let read = |path: Path| row(f(path));
    match p {
        PredV::BooleanExpression(e) => {
            lemma_renamed_value(it, row, f, *e);
        },
        PredV::Not(a) => {
            renaming_keeps_the_meaning(it, row, f, *a);
        },
        PredV::IsNull(e) => {
            lemma_renamed_value(it, row, f, *e);
        },
        PredV::Binary(_, a, b) => {
            lemma_renamed_value(it, row, f, *a);
            lemma_renamed_value(it, row, f, *b);
        },
        PredV::Junction(_, preds) => {
            let renamed = renamed_preds(f, preds);
            let a = pred_values(it, row, renamed);
            let b = pred_values(it, read, preds);
            assert forall|i: int| 0 <= i < preds.len() implies #[trigger] a[i] == b[i] by {
                renaming_keeps_the_meaning(it, row, f, preds[i]);
                assert(renamed[i] == renamed_pred(f, preds[i]));
            }
            assert(a =~= b);
        },
        _ => {},
    }
}

proof fn lemma_renamed_value(it: Interpretation, row: Row, f: spec_fn(Path) -> Path, e: ExprV)
    requires
        understood_expr(e),
    ensures
        expr_value(it, row, renamed_expr(f, e)) == expr_value(it, |path: Path| row(f(path)), e),
    decreases e,
{
    match e {
        ExprV::Cast(a, _) => {
            lemma_renamed_value(it, row, f, *a);
        },
        ExprV::Predicate(p) => {
            renaming_keeps_the_meaning(it, row, f, *p);
        },
        _ => {},
    }
}

// ---------------------------------------------------------------------------------------------
// Leaves of a schema
// ---------------------------------------------------------------------------------------------

/// Whether a field leads to a primitive column that is called `logical` and stored as `physical`.
pub open spec fn leads_to(
    field: FieldV,
    mode: ColumnMappingMode,
    logical: Path,
    physical: Path,
    t: PrimitiveType,
) -> bool
    decreases logical.len(), 0int,
{
    &&& logical.len() > 0
    &&& physical.len() == logical.len()
    &&& logical[0] == field.name
    &&& physical[0] == (match (mode, field.physical_name) {
        (ColumnMappingMode::Unmapped, _) => field.name,
        (_, Some(name)) => name,
        (_, None) => field.name,
    })
    &&& if logical.len() == 1 {
        field.data_type == DataTypeV::Primitive(t)
    } else {
        match field.data_type {
            DataTypeV::Struct(inner) => leaf_among(
                inner,
                inner.len(),
                mode,
                logical.drop_first(),
                physical.drop_first(),
                t,
            ),
            _ => false,
        }
    }
}

/// Whether one of the first `n` fields leads to such a column.
pub open spec fn leaf_among(
    schema: SchemaV,
    n: nat,
    mode: ColumnMappingMode,
    logical: Path,
    physical: Path,
    t: PrimitiveType,
) -> bool
    decreases logical.len(), 1int,
{
    exists|i: int|
        0 <= i < n && i < schema.len() && leads_to(
            #[trigger] schema[i],
            mode,
            logical,
            physical,
            t,
        )
}

/// Whether a schema has a primitive column that is called `logical` and stored as `physical`.
pub open spec fn leaf(
    schema: SchemaV,
    mode: ColumnMappingMode,
    logical: Path,
    physical: Path,
    t: PrimitiveType,
) -> bool {
    leaf_among(schema, schema.len(), mode, logical, physical, t)
}

/// Whether a schema has a primitive column of this name.
pub open spec fn has_leaf(schema: SchemaV, path: Path, t: PrimitiveType) -> bool {
    leaf(schema, ColumnMappingMode::Unmapped, path, path, t)
}

proof fn lemma_pushed(
    schema: SchemaV,
    field: FieldV,
    mode: ColumnMappingMode,
    logical: Path,
    physical: Path,
    t: PrimitiveType,
)
    ensures
        leaf(schema.push(field), mode, logical, physical, t) <==> leaf(
            schema,
            mode,
            logical,
            physical,
            t,
        ) || leads_to(field, mode, logical, physical, t),
{
    let all = schema.push(field);
    if leaf(all, mode, logical, physical, t) {
        let i = choose|i: int|
            0 <= i < all.len() && leads_to(#[trigger] all[i], mode, logical, physical, t);
        if i < schema.len() {
            assert(leads_to(schema[i], mode, logical, physical, t));
        }
    }
    if leaf(schema, mode, logical, physical, t) {
        let i = choose|i: int|
            0 <= i < schema.len() && leads_to(#[trigger] schema[i], mode, logical, physical, t);
        assert(leads_to(all[i], mode, logical, physical, t));
    }
    if leads_to(field, mode, logical, physical, t) {
        assert(leads_to(all[schema.len() as int], mode, logical, physical, t));
    }
}

proof fn lemma_one_more(
    schema: SchemaV,
    n: nat,
    mode: ColumnMappingMode,
    logical: Path,
    physical: Path,
    t: PrimitiveType,
)
    requires
        0 < n <= schema.len(),
    ensures
        leaf_among(schema, n, mode, logical, physical, t) <==> leaf_among(
            schema,
            (n - 1) as nat,
            mode,
            logical,
            physical,
            t,
        ) || leads_to(schema[n - 1], mode, logical, physical, t),
{
    if leaf_among(schema, n, mode, logical, physical, t) {
        let i = choose|i: int|
            0 <= i < n && i < schema.len() && leads_to(
                #[trigger] schema[i],
                mode,
                logical,
                physical,
                t,
            );
        assert(leads_to(schema[i], mode, logical, physical, t));
    }
}

proof fn lemma_folded_path(logical: Path, prefix: Path)
    requires
        logical.len() > 0,
    ensures
        folded(logical).len() == logical.len(),
        prefix + folded(logical) == prefix.push(lowercase(logical[0])) + folded(
            logical.drop_first(),
        ),
{
    assert(prefix + folded(logical) =~= prefix.push(lowercase(logical[0])) + folded(
        logical.drop_first(),
    ));
}

// ---------------------------------------------------------------------------------------------
// Resolving references
// ---------------------------------------------------------------------------------------------

/// Whether `key` was found newly, as a column of the schema that is kept.
spec fn newly_found(
    fields: SchemaV,
    n: nat,
    mode: ColumnMappingMode,
    folded_prefix: Path,
    physical_prefix: Path,
    kept: SchemaV,
    key: Path,
    place: Path,
) -> bool {
    exists|logical: Path, physical: Path, t: PrimitiveType|
        #[trigger] leaf_among(fields, n, mode, logical, physical, t) && key == folded_prefix
            + folded(logical) && place == physical_prefix + physical && has_leaf(kept, physical, t)
}

/// Whether `path` is where something newly found is stored.
spec fn place_found(
    before: Map<Path, Path>,
    found: Map<Path, Path>,
    physical_prefix: Path,
    path: Path,
) -> bool {
    exists|key: Path| #[trigger]
        found.contains_key(key) && !before.contains_key(key) && found[key] == physical_prefix + path
}

/// Nothing that was found before is lost or changed.
spec fn none_lost(before: Map<Path, Path>, found: Map<Path, Path>) -> bool {
    forall|key: Path| #[trigger]
        before.contains_key(key) ==> found.contains_key(key) && found[key] == before[key]
}

/// Whatever was found newly was wanted and is a column.
spec fn all_right(
    fields: SchemaV,
    n: nat,
    wanted: Set<Path>,
    mode: ColumnMappingMode,
    folded_prefix: Path,
    physical_prefix: Path,
    before: Map<Path, Path>,
    kept: SchemaV,
    found: Map<Path, Path>,
) -> bool {
    forall|key: Path| #[trigger]
        found.contains_key(key) && !before.contains_key(key) ==> wanted.contains(key)
            && newly_found(
            fields,
            n,
            mode,
            folded_prefix,
            physical_prefix,
            kept,
            key,
            found[key],
        )
}

/// Every column that was wanted was found.
spec fn all_found(
    fields: SchemaV,
    n: nat,
    wanted: Set<Path>,
    mode: ColumnMappingMode,
    folded_prefix: Path,
    found: Map<Path, Path>,
) -> bool {
    forall|logical: Path, physical: Path, t: PrimitiveType| #[trigger]
        leaf_among(fields, n, mode, logical, physical, t) && wanted.contains(
            folded_prefix + folded(logical),
        ) ==> found.contains_key(folded_prefix + folded(logical))
}

/// Every column that is kept was found newly.
spec fn kept_were_found(
    before: Map<Path, Path>,
    found: Map<Path, Path>,
    physical_prefix: Path,
    kept: SchemaV,
) -> bool {
    forall|path: Path, t: PrimitiveType| #[trigger]
        has_leaf(kept, path, t) ==> place_found(before, found, physical_prefix, path)
}

spec fn found_right(
    fields: SchemaV,
    n: nat,
    wanted: Set<Path>,
    mode: ColumnMappingMode,
    folded_prefix: Path,
    physical_prefix: Path,
    before: Map<Path, Path>,
    kept: SchemaV,
    found: Map<Path, Path>,
) -> bool {
    &&& none_lost(before, found)
    &&& all_right(
        fields,
        n,
        wanted,
        mode,
        folded_prefix,
        physical_prefix,
        before,
        kept,
        found,
    )
    &&& all_found(fields, n, wanted, mode, folded_prefix, found)
    &&& kept_were_found(before, found, physical_prefix, kept)
}

proof fn lemma_resolved(
    fields: SchemaV,
    n: nat,
    wanted: Set<Path>,
    mode: ColumnMappingMode,
    folded_prefix: Path,
    physical_prefix: Path,
    before: Map<Path, Path>,
)
    requires
        n <= fields.len(),
    ensures
        ({
            let (kept, found) = referenced_fields(
                fields,
                n,
                wanted,
                mode,
                folded_prefix,
                physical_prefix,
                before,
            );
            found_right(
                fields,
                n,
                wanted,
                mode,
                folded_prefix,
                physical_prefix,
                before,
                kept,
                found,
            )
        }),
    decreases fields, n,
{
    if n == 0 {
        assert forall|path: Path, t: PrimitiveType| !(#[trigger] has_leaf(
            Seq::<FieldV>::empty(),
            path,
            t,
        )) by {}
    } else {
        let m = (n - 1) as nat;
        let (kept, found) = referenced_fields(
            fields,
            m,
            wanted,
            mode,
            folded_prefix,
            physical_prefix,
            before,
        );
        lemma_resolved(fields, m, wanted, mode, folded_prefix, physical_prefix, before);
        let field = fields[n - 1];
        match field.data_type {
            DataTypeV::Primitive(t) => {
                lemma_primitive_field(
                    fields,
                    n,
                    wanted,
                    mode,
                    folded_prefix,
                    physical_prefix,
                    before,
                    kept,
                    found,
                    t,
                );
            },
            DataTypeV::Struct(inner) => {
                let folded_path = folded_prefix.push(lowercase(field.name));
                let physical_path = physical_prefix.push(field.stored_name(mode));
                lemma_resolved(
                    inner,
                    inner.len(),
                    wanted,
                    mode,
                    folded_path,
                    physical_path,
                    found,
                );
                let (inner_kept, all_found) = referenced_fields(
                    inner,
                    inner.len(),
                    wanted,
                    mode,
                    folded_path,
                    physical_path,
                    found,
                );
                lemma_struct_field(
                    fields,
                    n,
                    wanted,
                    mode,
                    folded_prefix,
                    physical_prefix,
                    before,
                    kept,
                    found,
                    inner,
                    inner_kept,
                    all_found,
                );
            },
            _ => {
                assert forall|logical: Path, physical: Path, t: PrimitiveType| #[trigger]
                    leaf_among(fields, n, mode, logical, physical, t) implies leaf_among(
                    fields,
                    m,
                    mode,
                    logical,
                    physical,
                    t,
                ) by {
                    lemma_one_more(fields, n, mode, logical, physical, t);
                }
                assert forall|key: Path| #[trigger]
                    found.contains_key(key) && !before.contains_key(key) implies newly_found(
                    fields,
                    n,
                    mode,
                    folded_prefix,
                    physical_prefix,
                    kept,
                    key,
                    found[key],
                ) by {
                    lemma_still_found(
                        fields,
                        n,
                        mode,
                        folded_prefix,
                        physical_prefix,
                        kept,
                        kept,
                        key,
                        found[key],
                    );
                }
            },
        }
    }
}

/// What was found among fewer fields is still found.
proof fn lemma_still_found(
    fields: SchemaV,
    n: nat,
    mode: ColumnMappingMode,
    folded_prefix: Path,
    physical_prefix: Path,
    kept: SchemaV,
    more: SchemaV,
    key: Path,
    place: Path,
)
    requires
        0 < n <= fields.len(),
        newly_found(
            fields,
            (n - 1) as nat,
            mode,
            folded_prefix,
            physical_prefix,
            kept,
            key,
            place,
        ),
        more == kept || (more.len() > 0 && more.drop_last() == kept),
    ensures
        newly_found(fields, n, mode, folded_prefix, physical_prefix, more, key, place),
{
    let (logical, physical, t) = choose|logical: Path, physical: Path, t: PrimitiveType|
        #[trigger] leaf_among(fields, (n - 1) as nat, mode, logical, physical, t) && key
            == folded_prefix + folded(logical) && place == physical_prefix + physical && has_leaf(
            kept,
            physical,
            t,
        );
    lemma_one_more(fields, n, mode, logical, physical, t);
    if more != kept {
        assert(more =~= kept.push(more.last()));
        lemma_pushed(kept, more.last(), ColumnMappingMode::Unmapped, physical, physical, t);
    }
    assert(has_leaf(more, physical, t));
    assert(leaf_among(fields, n, mode, logical, physical, t));
}

proof fn lemma_primitive_field(
    fields: SchemaV,
    n: nat,
    wanted: Set<Path>,
    mode: ColumnMappingMode,
    folded_prefix: Path,
    physical_prefix: Path,
    before: Map<Path, Path>,
    kept: SchemaV,
    found: Map<Path, Path>,
    t: PrimitiveType,
)
    requires
        0 < n <= fields.len(),
        fields[n - 1].data_type == DataTypeV::Primitive(t),
        found_right(
            fields,
            (n - 1) as nat,
            wanted,
            mode,
            folded_prefix,
            physical_prefix,
            before,
            kept,
            found,
        ),
    ensures
        ({
            let field = fields[n - 1];
            let name = field.stored_name(mode);
            let key = folded_prefix.push(lowercase(field.name));
            let taken = wanted.contains(key) && !found.contains_key(key);
            found_right(
                fields,
                n,
                wanted,
                mode,
                folded_prefix,
                physical_prefix,
                before,
                if taken {
                    kept.push(FieldV { name, ..field })
                } else {
                    kept
                },
                if taken {
                    found.insert(key, physical_prefix.push(name))
                } else {
                    found
                },
            )
        }),
{
    let field = fields[n - 1];
    let name = field.stored_name(mode);
    let new_key = folded_prefix.push(lowercase(field.name));
    let taken = wanted.contains(new_key) && !found.contains_key(new_key);
    let stored = FieldV { name, ..field };
    let more = if taken {
        kept.push(stored)
    } else {
        kept
    };
    let all = if taken {
        found.insert(new_key, physical_prefix.push(name))
    } else {
        found
    };
    assert(none_lost(before, all));
    lemma_primitive_right(
        fields,
        n,
        wanted,
        mode,
        folded_prefix,
        physical_prefix,
        before,
        kept,
        found,
        more,
        all,
        t,
    );
    lemma_primitive_found(fields, n, wanted, mode, folded_prefix, found, all, t);
    lemma_primitive_kept(
        fields[n - 1],
        mode,
        physical_prefix,
        before,
        kept,
        found,
        more,
        all,
        new_key,
        t,
    );
}

proof fn lemma_primitive_right(
    fields: SchemaV,
    n: nat,
    wanted: Set<Path>,
    mode: ColumnMappingMode,
    folded_prefix: Path,
    physical_prefix: Path,
    before: Map<Path, Path>,
    kept: SchemaV,
    found: Map<Path, Path>,
    more: SchemaV,
    all: Map<Path, Path>,
    t: PrimitiveType,
)
    requires
        0 < n <= fields.len(),
        fields[n - 1].data_type == DataTypeV::Primitive(t),
        all_right(
            fields,
            (n - 1) as nat,
            wanted,
            mode,
            folded_prefix,
            physical_prefix,
            before,
            kept,
            found,
        ),
        ({
            let field = fields[n - 1];
            let name = field.stored_name(mode);
            let key = folded_prefix.push(lowercase(field.name));
            if wanted.contains(key) && !found.contains_key(key) {
                &&& more == kept.push(FieldV { name, ..field })
                &&& all == found.insert(key, physical_prefix.push(name))
            } else {
                more == kept && all == found
            }
        }),
    ensures
        all_right(
            fields,
            n,
            wanted,
            mode,
            folded_prefix,
            physical_prefix,
            before,
            more,
            all,
        ),
{
    let unmapped = ColumnMappingMode::Unmapped;
    let field = fields[n - 1];
    let name = field.stored_name(mode);
    let new_key = folded_prefix.push(lowercase(field.name));
    let stored = FieldV { name, ..field };
    let logical = seq![field.name];
    let physical = seq![name];
    assert forall|key: Path| #[trigger]
        all.contains_key(key) && !before.contains_key(key) implies wanted.contains(key)
        && newly_found(
        fields,
        n,
        mode,
        folded_prefix,
        physical_prefix,
        more,
        key,
        all[key],
    ) by {
        if found.contains_key(key) {
            if more != kept {
                assert(more.drop_last() =~= kept);
            }
            lemma_still_found(
                fields,
                n,
                mode,
                folded_prefix,
                physical_prefix,
                kept,
                more,
                key,
                found[key],
            );
        } else {
            assert(key == new_key);
            assert(folded_prefix + folded(logical) =~= new_key);
            assert(physical_prefix + physical =~= physical_prefix.push(name));
            assert(leads_to(field, mode, logical, physical, t));
            lemma_one_more(fields, n, mode, logical, physical, t);
            assert(leads_to(stored, unmapped, physical, physical, t));
            lemma_pushed(kept, stored, unmapped, physical, physical, t);
            assert(has_leaf(more, physical, t));
            assert(leaf_among(fields, n, mode, logical, physical, t));
        }
    }
}

proof fn lemma_primitive_found(
    fields: SchemaV,
    n: nat,
    wanted: Set<Path>,
    mode: ColumnMappingMode,
    folded_prefix: Path,
    found: Map<Path, Path>,
    all: Map<Path, Path>,
    t: PrimitiveType,
)
    requires
        0 < n <= fields.len(),
        fields[n - 1].data_type == DataTypeV::Primitive(t),
        all_found(fields, (n - 1) as nat, wanted, mode, folded_prefix, found),
        none_lost(found, all),
        ({
            let key = folded_prefix.push(lowercase(fields[n - 1].name));
            wanted.contains(key) ==> all.contains_key(key)
        }),
    ensures
        all_found(fields, n, wanted, mode, folded_prefix, all),
{
    let logical = seq![fields[n - 1].name];
    assert forall|l: Path, p: Path, u: PrimitiveType| #[trigger]
        leaf_among(fields, n, mode, l, p, u) && wanted.contains(
            folded_prefix + folded(l),
        ) implies all.contains_key(folded_prefix + folded(l)) by {
        lemma_one_more(fields, n, mode, l, p, u);
        if leaf_among(fields, (n - 1) as nat, mode, l, p, u) {
            assert(found.contains_key(folded_prefix + folded(l)));
        } else {
            assert(leads_to(fields[n - 1], mode, l, p, u));
            assert(l.len() == 1);
            assert(l =~= logical);
            assert(folded_prefix + folded(logical) =~= folded_prefix.push(
                lowercase(fields[n - 1].name),
            ));
        }
    }
}

proof fn lemma_primitive_kept(
    field: FieldV,
    mode: ColumnMappingMode,
    physical_prefix: Path,
    before: Map<Path, Path>,
    kept: SchemaV,
    found: Map<Path, Path>,
    more: SchemaV,
    all: Map<Path, Path>,
    new_key: Path,
    t: PrimitiveType,
)
    requires
        field.data_type == DataTypeV::Primitive(t),
        kept_were_found(before, found, physical_prefix, kept),
        none_lost(before, found),
        none_lost(found, all),
        ({
            let name = field.stored_name(mode);
            ||| more == kept && all == found
            ||| more == kept.push(FieldV { name, ..field }) && all == found.insert(
                new_key,
                physical_prefix.push(name),
            ) && !found.contains_key(new_key)
        }),
    ensures
        kept_were_found(before, all, physical_prefix, more),
{
    let unmapped = ColumnMappingMode::Unmapped;
    let name = field.stored_name(mode);
    let stored = FieldV { name, ..field };
    assert forall|path: Path, u: PrimitiveType| #[trigger] has_leaf(more, path, u) implies place_found(
        before,
        all,
        physical_prefix,
        path,
    ) by {
        lemma_pushed(kept, stored, unmapped, path, path, u);
        if has_leaf(kept, path, u) {
            lemma_still_placed(before, found, all, physical_prefix, path);
        } else {
            assert(leads_to(stored, unmapped, path, path, u));
            assert(path =~= seq![name]);
            assert(physical_prefix + path =~= physical_prefix.push(name));
            assert(all.contains_key(new_key));
            if before.contains_key(new_key) {
                assert(found.contains_key(new_key));
            }
        }
    }
}

proof fn lemma_still_placed(
    before: Map<Path, Path>,
    found: Map<Path, Path>,
    all: Map<Path, Path>,
    physical_prefix: Path,
    path: Path,
)
    requires
        place_found(before, found, physical_prefix, path),
        none_lost(found, all),
    ensures
        place_found(before, all, physical_prefix, path),
{
    let key = choose|key: Path| #[trigger]
        found.contains_key(key) && !before.contains_key(key) && found[key] == physical_prefix
            + path;
    assert(all.contains_key(key) && all[key] == found[key]);
}

proof fn lemma_struct_field(
    fields: SchemaV,
    n: nat,
    wanted: Set<Path>,
    mode: ColumnMappingMode,
    folded_prefix: Path,
    physical_prefix: Path,
    before: Map<Path, Path>,
    kept: SchemaV,
    found: Map<Path, Path>,
    inner: SchemaV,
    inner_kept: SchemaV,
    all: Map<Path, Path>,
)
    requires
        0 < n <= fields.len(),
        fields[n - 1].data_type == DataTypeV::Struct(inner),
        found_right(
            fields,
            (n - 1) as nat,
            wanted,
            mode,
            folded_prefix,
            physical_prefix,
            before,
            kept,
            found,
        ),
        found_right(
            inner,
            inner.len(),
            wanted,
            mode,
            folded_prefix.push(lowercase(fields[n - 1].name)),
            physical_prefix.push(fields[n - 1].stored_name(mode)),
            found,
            inner_kept,
            all,
        ),
    ensures
        ({
            let field = fields[n - 1];
            let name = field.stored_name(mode);
            found_right(
                fields,
                n,
                wanted,
                mode,
                folded_prefix,
                physical_prefix,
                before,
                if inner_kept.len() == 0 {
                    kept
                } else {
                    kept.push(FieldV { name, data_type: DataTypeV::Struct(inner_kept), ..field })
                },
                all,
            )
        }),
{
    let field = fields[n - 1];
    let name = field.stored_name(mode);
    let stored = FieldV { name, data_type: DataTypeV::Struct(inner_kept), ..field };
    let more = if inner_kept.len() == 0 {
        kept
    } else {
        kept.push(stored)
    };
    assert(none_lost(before, all)) by {
        assert forall|key: Path| #[trigger] before.contains_key(key) implies all.contains_key(key)
            && all[key] == before[key] by {
            assert(found.contains_key(key));
        }
    }
    lemma_struct_right(
        fields,
        n,
        wanted,
        mode,
        folded_prefix,
        physical_prefix,
        before,
        kept,
        found,
        inner,
        inner_kept,
        more,
        all,
    );
    lemma_struct_found(fields, n, wanted, mode, folded_prefix, found, inner, all);
    lemma_struct_kept(
        field,
        mode,
        physical_prefix,
        before,
        kept,
        found,
        inner_kept,
        more,
        all,
    );
}

proof fn lemma_struct_right(
    fields: SchemaV,
    n: nat,
    wanted: Set<Path>,
    mode: ColumnMappingMode,
    folded_prefix: Path,
    physical_prefix: Path,
    before: Map<Path, Path>,
    kept: SchemaV,
    found: Map<Path, Path>,
    inner: SchemaV,
    inner_kept: SchemaV,
    more: SchemaV,
    all: Map<Path, Path>,
)
    requires
        0 < n <= fields.len(),
        fields[n - 1].data_type == DataTypeV::Struct(inner),
        none_lost(found, all),
        all_right(
            fields,
            (n - 1) as nat,
            wanted,
            mode,
            folded_prefix,
            physical_prefix,
            before,
            kept,
            found,
        ),
        all_right(
            inner,
            inner.len(),
            wanted,
            mode,
            folded_prefix.push(lowercase(fields[n - 1].name)),
            physical_prefix.push(fields[n - 1].stored_name(mode)),
            found,
            inner_kept,
            all,
        ),
        more == (if inner_kept.len() == 0 {
            kept
        } else {
            kept.push(
                FieldV {
                    name: fields[n - 1].stored_name(mode),
                    data_type: DataTypeV::Struct(inner_kept),
                    ..fields[n - 1]
                },
            )
        }),
    ensures
        all_right(
            fields,
            n,
            wanted,
            mode,
            folded_prefix,
            physical_prefix,
            before,
            more,
            all,
        ),
{
    let field = fields[n - 1];
    let name = field.stored_name(mode);
    let folded_path = folded_prefix.push(lowercase(field.name));
    let physical_path = physical_prefix.push(name);
    assert forall|key: Path| #[trigger]
        all.contains_key(key) && !before.contains_key(key) implies wanted.contains(key)
        && newly_found(
        fields,
        n,
        mode,
        folded_prefix,
        physical_prefix,
        more,
        key,
        all[key],
    ) by {
        if found.contains_key(key) {
            if inner_kept.len() != 0 {
                assert(more.drop_last() =~= kept);
            }
            lemma_still_found(
                fields,
                n,
                mode,
                folded_prefix,
                physical_prefix,
                kept,
                more,
                key,
                found[key],
            );
        } else {
            assert(newly_found(
                inner,
                inner.len(),
                mode,
                folded_path,
                physical_path,
                inner_kept,
                key,
                all[key],
            ));
            lemma_found_inside(
                fields,
                n,
                mode,
                folded_prefix,
                physical_prefix,
                kept,
                inner,
                inner_kept,
                more,
                key,
                all[key],
            );
        }
    }
}

/// What was found inside a struct is found in the schema that holds the struct.
proof fn lemma_found_inside(
    fields: SchemaV,
    n: nat,
    mode: ColumnMappingMode,
    folded_prefix: Path,
    physical_prefix: Path,
    kept: SchemaV,
    inner: SchemaV,
    inner_kept: SchemaV,
    more: SchemaV,
    key: Path,
    place: Path,
)
    requires
        0 < n <= fields.len(),
        fields[n - 1].data_type == DataTypeV::Struct(inner),
        newly_found(
            inner,
            inner.len(),
            mode,
            folded_prefix.push(lowercase(fields[n - 1].name)),
            physical_prefix.push(fields[n - 1].stored_name(mode)),
            inner_kept,
            key,
            place,
        ),
        inner_kept.len() != 0 ==> more == kept.push(
            FieldV {
                name: fields[n - 1].stored_name(mode),
                data_type: DataTypeV::Struct(inner_kept),
                ..fields[n - 1]
            },
        ),
    ensures
        newly_found(fields, n, mode, folded_prefix, physical_prefix, more, key, place),
{
    let unmapped = ColumnMappingMode::Unmapped;
    let field = fields[n - 1];
    let name = field.stored_name(mode);
    let folded_path = folded_prefix.push(lowercase(field.name));
    let physical_path = physical_prefix.push(name);
    let stored = FieldV { name, data_type: DataTypeV::Struct(inner_kept), ..field };
    let (l, p, t) = choose|l: Path, p: Path, t: PrimitiveType|
        #[trigger] leaf_among(inner, inner.len(), mode, l, p, t) && key == folded_path + folded(l)
            && place == physical_path + p && has_leaf(inner_kept, p, t);
    let logical = seq![field.name] + l;
    let physical = seq![name] + p;
    lemma_leaf_len(inner, inner.len(), mode, l, p, t);
    assert(logical.drop_first() =~= l);
    assert(physical.drop_first() =~= p);
    assert(leads_to(field, mode, logical, physical, t));
    lemma_one_more(fields, n, mode, logical, physical, t);
    lemma_folded_path(logical, folded_prefix);
    assert(physical_prefix + physical =~= physical_path + p);
    assert(leads_to(stored, unmapped, physical, physical, t));
    lemma_pushed(kept, stored, unmapped, physical, physical, t);
    assert(has_leaf(more, physical, t));
    assert(leaf_among(fields, n, mode, logical, physical, t));
}

proof fn lemma_struct_found(
    fields: SchemaV,
    n: nat,
    wanted: Set<Path>,
    mode: ColumnMappingMode,
    folded_prefix: Path,
    found: Map<Path, Path>,
    inner: SchemaV,
    all: Map<Path, Path>,
)
    requires
        0 < n <= fields.len(),
        fields[n - 1].data_type == DataTypeV::Struct(inner),
        all_found(fields, (n - 1) as nat, wanted, mode, folded_prefix, found),
        none_lost(found, all),
        all_found(
            inner,
            inner.len(),
            wanted,
            mode,
            folded_prefix.push(lowercase(fields[n - 1].name)),
            all,
        ),
    ensures
        all_found(fields, n, wanted, mode, folded_prefix, all),
{
    let field = fields[n - 1];
    assert forall|logical: Path, physical: Path, t: PrimitiveType| #[trigger]
        leaf_among(fields, n, mode, logical, physical, t) && wanted.contains(
            folded_prefix + folded(logical),
        ) implies all.contains_key(folded_prefix + folded(logical)) by {
        lemma_one_more(fields, n, mode, logical, physical, t);
        if leaf_among(fields, (n - 1) as nat, mode, logical, physical, t) {
            assert(found.contains_key(folded_prefix + folded(logical)));
        } else {
            assert(leads_to(field, mode, logical, physical, t));
            assert(leaf_among(
                inner,
                inner.len(),
                mode,
                logical.drop_first(),
                physical.drop_first(),
                t,
            ));
            lemma_folded_path(logical, folded_prefix);
        }
    }
}

proof fn lemma_struct_kept(
    field: FieldV,
    mode: ColumnMappingMode,
    physical_prefix: Path,
    before: Map<Path, Path>,
    kept: SchemaV,
    found: Map<Path, Path>,
    inner_kept: SchemaV,
    more: SchemaV,
    all: Map<Path, Path>,
)
    requires
        kept_were_found(before, found, physical_prefix, kept),
        kept_were_found(
            found,
            all,
            physical_prefix.push(field.stored_name(mode)),
            inner_kept,
        ),
        none_lost(before, found),
        none_lost(found, all),
        more == (if inner_kept.len() == 0 {
            kept
        } else {
            kept.push(
                FieldV {
                    name: field.stored_name(mode),
                    data_type: DataTypeV::Struct(inner_kept),
                    ..field
                },
            )
        }),
    ensures
        kept_were_found(before, all, physical_prefix, more),
{
    let unmapped = ColumnMappingMode::Unmapped;
    let name = field.stored_name(mode);
    let physical_path = physical_prefix.push(name);
    let stored = FieldV { name, data_type: DataTypeV::Struct(inner_kept), ..field };
    assert forall|path: Path, t: PrimitiveType| #[trigger] has_leaf(more, path, t) implies place_found(
        before,
        all,
        physical_prefix,
        path,
    ) by {
        lemma_pushed(kept, stored, unmapped, path, path, t);
        if has_leaf(kept, path, t) {
            lemma_still_placed(before, found, all, physical_prefix, path);
        } else {
            assert(leads_to(stored, unmapped, path, path, t));
            let rest = path.drop_first();
            assert(has_leaf(inner_kept, rest, t));
            assert(place_found(found, all, physical_path, rest));
            let key = choose|key: Path| #[trigger]
                all.contains_key(key) && !found.contains_key(key) && all[key] == physical_path
                    + rest;
            assert(path[0] == name);
            assert(path =~= seq![name] + rest);
            assert(physical_path + rest =~= physical_prefix + path);
            if before.contains_key(key) {
                assert(found.contains_key(key));
            }
        }
    }
}

proof fn lemma_leaf_len(
    schema: SchemaV,
    n: nat,
    mode: ColumnMappingMode,
    logical: Path,
    physical: Path,
    t: PrimitiveType,
)
    requires
        leaf_among(schema, n, mode, logical, physical, t),
    ensures
        logical.len() > 0,
        physical.len() == logical.len(),
{
}

/// Whether two paths are the same but for the case of their letters.
pub open spec fn same_name(a: Path, b: Path) -> bool {
    a.len() == b.len() && forall|i: int|
        0 <= i < a.len() ==> lowercase(#[trigger] a[i]) == lowercase(b[i])
}

proof fn lemma_same_name(a: Path, b: Path)
    ensures
        same_name(a, b) <==> folded(a) == folded(b),
{
    if same_name(a, b) {
        assert(folded(a) =~= folded(b));
    }
    if folded(a) == folded(b) {
        assert(folded(a).len() == a.len() && folded(b).len() == b.len());
        assert forall|i: int| 0 <= i < a.len() implies lowercase(#[trigger] a[i]) == lowercase(
            b[i],
        ) by {
            assert(folded(a)[i] == lowercase(a[i]));
            assert(folded(b)[i] == lowercase(b[i]));
        }
    }
}

/// References are found, without regard to case, if and only if the schema has a primitive column
/// of that name, and then as a column is stored that has the name. The schema of what was found has
/// every such place and no other column.
pub proof fn references_are_found_in_the_schema(
    schema: SchemaV,
    refs: Set<Path>,
    mode: ColumnMappingMode,
    r: Path,
)
    requires
        refs.contains(r),
    ensures
        ({
            let (kept, found) = resolve(schema, refs, mode);
            &&& found.contains_key(folded(r)) <==> exists|
                logical: Path,
                physical: Path,
                t: PrimitiveType,
            | #[trigger]
                leaf(schema, mode, logical, physical, t) && same_name(logical, r)
            &&& found.contains_key(folded(r)) ==> exists|logical: Path, t: PrimitiveType| #[trigger]
                leaf(schema, mode, logical, physical_name_of(found)(r), t) && same_name(logical, r)
                    && has_leaf(kept, physical_name_of(found)(r), t)
            &&& forall|path: Path, t: PrimitiveType| #[trigger]
                has_leaf(kept, path, t) ==> exists|s: Path|
                    refs.contains(s) && found.contains_key(folded(s)) && path
                        == #[trigger] physical_name_of(found)(s)
        }),
{
    let wanted = folded_set(refs);
    let nothing = Map::<Path, Path>::empty();
    let root = Seq::<Seq<char>>::empty();
    lemma_resolved(schema, schema.len(), wanted, mode, root, root, nothing);
    let (kept, found) = resolve(schema, refs, mode);
    assert(found_right(schema, schema.len(), wanted, mode, root, root, nothing, kept, found));
    assert(wanted.contains(folded(r)));
    if found.contains_key(folded(r)) {
        let key = folded(r);
        let (logical, physical, t) = choose|logical: Path, physical: Path, t: PrimitiveType|
            #[trigger] leaf_among(schema, schema.len(), mode, logical, physical, t) && key == root
                + folded(logical) && found[key] == root + physical && has_leaf(kept, physical, t);
        assert(root + folded(logical) =~= folded(logical));
        assert(root + physical =~= physical);
        assert(physical_name_of(found)(r) == physical);
        lemma_same_name(logical, r);
        assert(leaf(schema, mode, logical, physical, t));
    }
    if exists|logical: Path, physical: Path, t: PrimitiveType| #[trigger]
        leaf(schema, mode, logical, physical, t) && same_name(logical, r) {
        let (logical, physical, t) = choose|logical: Path, physical: Path, t: PrimitiveType|
            #[trigger]
            leaf(schema, mode, logical, physical, t) && same_name(logical, r);
        lemma_same_name(logical, r);
        assert(root + folded(logical) =~= folded(r));
        assert(leaf_among(schema, schema.len(), mode, logical, physical, t));
    }
    assert forall|path: Path, t: PrimitiveType| #[trigger] has_leaf(kept, path, t) implies exists|
        s: Path,
    |
        refs.contains(s) && found.contains_key(folded(s)) && path == #[trigger] physical_name_of(
            found,
        )(s) by {
        assert(place_found(nothing, found, root, path));
        let key = choose|key: Path| #[trigger]
            found.contains_key(key) && !nothing.contains_key(key) && found[key] == root + path;
        assert(root + path =~= path);
        assert(wanted.contains(key));
        let s = choose|s: Path| #[trigger] refs.contains(s) && key == folded(s);
        assert(physical_name_of(found)(s) == path);
    }
}

/// A resolved predicate says of the stored columns what the predicate says of the logical ones: it
/// holds of a file's row if and only if the predicate holds of the row that has, under each logical
/// name it refers to, the value of a column that is stored for that name.
pub proof fn resolved_predicates_read_stored_columns(
    it: Interpretation,
    predicate: PredV,
    schema: SchemaV,
    mode: ColumnMappingMode,
    physical: DeltaResult<PhysicalPredicate>,
    stored: Row,
    r: Path,
)
    requires
        understood(predicate),
        resolved_as(predicate, schema, mode, physical),
        physical is Ok,
        physical->Ok_0@ is Present,
        pred_refs(predicate).contains(r),
    ensures
        ({
            let names = physical_name_of(resolve(schema, pred_refs(predicate), mode).1);
            let p = (physical->Ok_0@)->Present_0;
            &&& pred_value(it, stored, p) == pred_value(
                it,
                |path: Path| stored(names(path)),
                predicate,
            )
            &&& exists|logical: Path, t: PrimitiveType| #[trigger]
                leaf(schema, mode, logical, names(r), t) && same_name(logical, r)
        }),
{
    let (kept, found) = resolve(schema, pred_refs(predicate), mode);
    let names = physical_name_of(found);
    renaming_keeps_the_meaning(it, stored, names, predicate);
    references_are_found_in_the_schema(schema, pred_refs(predicate), mode, r);
}

proof fn lemma_nothing_wanted(
    fields: SchemaV,
    n: nat,
    wanted: Set<Path>,
    mode: ColumnMappingMode,
    folded_prefix: Path,
    physical_prefix: Path,
    before: Map<Path, Path>,
)
    requires
        n <= fields.len(),
        forall|path: Path| !(#[trigger] wanted.contains(path)),
    ensures
        referenced_fields(
            fields,
            n,
            wanted,
            mode,
            folded_prefix,
            physical_prefix,
            before,
        ).0.len() == 0,
    decreases fields, n,
{
    if n > 0 {
        let m = (n - 1) as nat;
        lemma_nothing_wanted(fields, m, wanted, mode, folded_prefix, physical_prefix, before);
        let (kept, found) = referenced_fields(
            fields,
            m,
            wanted,
            mode,
            folded_prefix,
            physical_prefix,
            before,
        );
        let field = fields[n - 1];
        if let DataTypeV::Struct(inner) = field.data_type {
            lemma_nothing_wanted(
                inner,
                inner.len(),
                wanted,
                mode,
                folded_prefix.push(lowercase(field.name)),
                physical_prefix.push(field.stored_name(mode)),
                found,
            );
        }
    }
}

/// Whether the schema has a primitive column of this name, without regard to case.
pub open spec fn known_column(schema: SchemaV, mode: ColumnMappingMode, r: Path) -> bool {
    exists|logical: Path, physical: Path, t: PrimitiveType| #[trigger]
        leaf(schema, mode, logical, physical, t) && same_name(logical, r)
}

/// A predicate that keeps nothing whatever the columns hold has all files skipped; any other is
/// refused if and only if it refers to a column that the schema does not have, is dropped if it
/// refers to none, and is resolved otherwise.
pub proof fn predicates_are_resolved_skipped_or_refused(
    predicate: PredV,
    schema: SchemaV,
    mode: ColumnMappingMode,
    physical: DeltaResult<PhysicalPredicate>,
)
    requires
        resolved_as(predicate, schema, mode, physical),
    ensures
        ({
            let nothing = constant_sql_where(predicate, false) == Some(false);
            let all_known = forall|r: Path| #[trigger]
                pred_refs(predicate).contains(r) ==> known_column(schema, mode, r);
            let refers = exists|r: Path| #[trigger] pred_refs(predicate).contains(r);
            &&& nothing ==> physical is Ok && physical->Ok_0@ is StaticSkipAll
            &&& !nothing ==> (physical is Err <==> !all_known)
            &&& !nothing && all_known && refers ==> physical->Ok_0@ is Present
            &&& !nothing && !refers ==> physical is Ok && physical->Ok_0@ is Absent
        }),
{
    let refs = pred_refs(predicate);
    let (kept, found) = resolve(schema, refs, mode);
    assert forall|r: Path| #[trigger] refs.contains(r) implies (found.contains_key(folded(r))
        <==> known_column(schema, mode, r)) by {
        references_are_found_in_the_schema(schema, refs, mode, r);
    }
    if exists|r: Path| #[trigger] refs.contains(r) {
        let r = choose|r: Path| #[trigger] refs.contains(r);
        references_are_found_in_the_schema(schema, refs, mode, r);
        if found.contains_key(folded(r)) {
            let (logical, t) = choose|logical: Path, t: PrimitiveType| #[trigger]
                leaf(schema, mode, logical, physical_name_of(found)(r), t) && same_name(logical, r)
                    && has_leaf(kept, physical_name_of(found)(r), t);
            assert(has_leaf(kept, physical_name_of(found)(r), t));
            assert(kept.len() > 0);
        }
    } else {
        let wanted = folded_set(refs);
        assert forall|path: Path| !(#[trigger] wanted.contains(path)) by {}
        lemma_nothing_wanted(
            schema,
            schema.len(),
            wanted,
            mode,
            seq![],
            seq![],
            Map::empty(),
        );
    }
}

// ---------------------------------------------------------------------------------------------
// Columns by their exact names
// ---------------------------------------------------------------------------------------------

/// Whether a schema has a column, of whatever type, that is called `logical` and stored as
/// `physical`.
pub open spec fn named(
    schema: SchemaV,
    mode: ColumnMappingMode,
    logical: Path,
    physical: Path,
) -> bool
    decreases logical.len(),
{
    &&& logical.len() > 0
    &&& physical.len() == logical.len()
    &&& exists|i: int|
        0 <= i < schema.len() && (#[trigger] schema[i]).name == logical[0] && physical[0] == (
        match (mode, schema[i].physical_name) {
            (ColumnMappingMode::Unmapped, _) => schema[i].name,
            (_, Some(name)) => name,
            (_, None) => schema[i].name,
        }) && (logical.len() == 1 || (schema[i].data_type is Struct && named(
            schema[i].data_type->Struct_0,
            mode,
            logical.drop_first(),
            physical.drop_first(),
        )))
}

/// Whether no two fields on the way of a path have the same name.
pub open spec fn distinct_along(schema: SchemaV, path: Path) -> bool
    decreases path.len(),
{
    path.len() > 0 ==> {
        &&& forall|i: int, j: int|
            0 <= i < j < schema.len() ==> (#[trigger] schema[i]).name != (#[trigger] schema[j]).name
        &&& forall|i: int|
            0 <= i < schema.len() && (#[trigger] schema[i]).data_type is Struct ==> distinct_along(
                schema[i].data_type->Struct_0,
                path.drop_first(),
            )
    }
}

proof fn lemma_field_position(schema: SchemaV, name: Seq<char>, n: nat)
    requires
        n <= schema.len(),
    ensures
        ({
            let k = field_position(schema, name, n);
            &&& k <= n
            &&& k < n ==> schema[k as int].name == name
            &&& forall|i: int| 0 <= i < k ==> (#[trigger] schema[i]).name != name
        }),
    decreases n,
{
    if n > 0 {
        lemma_field_position(schema, name, (n - 1) as nat);
    }
}

/// A column of a given name is stored where the schema says; and where no two fields have the same
/// name, every column of the schema has such a place.
pub proof fn columns_are_stored_where_the_schema_says(
    schema: SchemaV,
    path: Path,
    mode: ColumnMappingMode,
    physical: Path,
)
    ensures
        physical_path(schema, path, mode) matches Some(p) ==> named(schema, mode, path, p),
        distinct_along(schema, path) && named(schema, mode, path, physical) ==> physical_path(
            schema,
            path,
            mode,
        ) == Some(physical),
    decreases path.len(),
{
    if path.len() > 0 {
        lemma_field_position(schema, path[0], schema.len());
        let k = field_position(schema, path[0], schema.len()) as int;
        if k < schema.len() {
            let field = schema[k];
            let head = seq![field.stored_name(mode)];
            if path.len() == 1 {
                assert(named(schema, mode, path, head));
            } else if let DataTypeV::Struct(inner) = field.data_type {
                columns_are_stored_where_the_schema_says(
                    inner,
                    path.drop_first(),
                    mode,
                    physical.drop_first(),
                );
                if let Some(rest) = physical_path(inner, path.drop_first(), mode) {
                    assert((head + rest).drop_first() =~= rest);
                    lemma_named_len(inner, mode, path.drop_first(), rest);
                    assert(named(schema, mode, path, head + rest));
                }
            }
        }
        if distinct_along(schema, path) && named(schema, mode, path, physical) {
            let i = choose|i: int|
                0 <= i < schema.len() && (#[trigger] schema[i]).name == path[0] && physical[0] == (
                match (mode, schema[i].physical_name) {
                    (ColumnMappingMode::Unmapped, _) => schema[i].name,
                    (_, Some(name)) => name,
                    (_, None) => schema[i].name,
                }) && (path.len() == 1 || (schema[i].data_type is Struct && named(
                    schema[i].data_type->Struct_0,
                    mode,
                    path.drop_first(),
                    physical.drop_first(),
                )));
            assert(k < schema.len());
            assert(k == i) by {
                if k < i {
                    assert(schema[k].name != schema[i].name);
                }
            }
            assert(schema[i].name == path[0]);
            if path.len() == 1 {
                assert(physical =~= seq![physical[0]]);
            } else {
                assert(physical =~= seq![physical[0]] + physical.drop_first());
            }
        }
    }
}

proof fn lemma_named_len(schema: SchemaV, mode: ColumnMappingMode, logical: Path, physical: Path)
    requires
        named(schema, mode, logical, physical),
    ensures
        logical.len() > 0,
        physical.len() == logical.len(),
{
}

/// A list of columns is resolved column by column; it is refused if and only if one of them is not
/// in the schema.
pub proof fn columns_are_resolved_one_by_one(
    schema: SchemaV,
    columns: Seq<Path>,
    mode: ColumnMappingMode,
    n: nat,
)
    requires
        n <= columns.len(),
    ensures
        physical_paths(schema, columns, mode, n) is Ok <==> forall|i: int|
            0 <= i < n ==> physical_path(schema, #[trigger] columns[i], mode) is Some,
        physical_paths(schema, columns, mode, n) matches Ok(paths) ==> paths.len() == n && forall|
            i: int,
        |
            0 <= i < n ==> Some(#[trigger] paths[i]) == physical_path(schema, columns[i], mode),
    decreases n,
{
    if n > 0 {
        columns_are_resolved_one_by_one(schema, columns, mode, (n - 1) as nat);
        assert(physical_path(schema, columns[n - 1], mode) is Some || physical_paths(
            schema,
            columns,
            mode,
            n,
        ) is Err);
    }
}

/// A schema of statistics is put out if and only if it has counts of NULLs, and so at least one
/// data column.
pub proof fn statistics_are_put_out_with_data_columns(schema: SchemaRef)
    ensures
        with_data_columns(schema) is Some <==> exists|i: int|
            0 <= i < schema@.len() && (#[trigger] schema@[i]).name == "nullCount"@,
        with_data_columns(schema) matches Some(s) ==> s == schema,
{
    lemma_field_position(schema@, "nullCount"@, schema@.len());
}

} // verus!
