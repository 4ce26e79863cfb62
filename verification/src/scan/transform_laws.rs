//! What the transform of a file makes of its stored columns.

use vstd::prelude::*;

use super::partition_values::ScalarParser;
use super::transform_spec::{
    partition_scalars, partition_value, recorded, row_id_expr, transform_expr, transform_patch,
    FieldTransformSpec,
};
use super::update_laws::marked;
use crate::error::ErrorV;
use crate::expressions::expression::{
    BinaryExpressionOp, ExprV, FieldPatchV, StructPatchV, VariadicExpressionOp,
};
use crate::expressions::column::Path;
use crate::expressions::scalar::ScalarV;
use crate::schema::{ColumnMappingMode, SchemaV};
use crate::text::opt_string_view;

verus! {

// ---------------------------------------------------------------------------------------------
// What a patch does
// ---------------------------------------------------------------------------------------------

/// The patch of a column in a list: the first of that name; without one the column is kept.
pub open spec fn patch_of(patches: Seq<FieldPatchV>, name: Seq<char>) -> FieldPatchV
    decreases patches.len(),
{
    if patches.len() == 0 {
        FieldPatchV { name, keep_input: true, insertions: seq![] }
    } else if patches[0].name == name {
        patches[0]
    } else {
        patch_of(patches.drop_first(), name)
    }
}

/// What a patch puts in place of a column: the column itself if it is kept, then what is inserted.
pub open spec fn in_place_of(patch: StructPatchV, name: Seq<char>) -> Seq<ExprV> {
    let field = patch_of(patch.field_patches, name);
    (if field.keep_input {
        seq![ExprV::Column(seq![name])]
    } else {
        seq![]
    }) + field.insertions
}

/// What a patch puts in place of columns, one after the other.
pub open spec fn in_place_of_all(patch: StructPatchV, columns: Seq<Seq<char>>) -> Seq<ExprV>
    decreases columns.len(),
{
    if columns.len() == 0 {
        seq![]
    } else {
        in_place_of_all(patch, columns.drop_last()) + in_place_of(patch, columns.last())
    }
}

/// The columns that a patch makes of stored columns.
pub open spec fn applied(patch: StructPatchV, columns: Seq<Seq<char>>) -> Seq<ExprV> {
    patch.prepended_fields + in_place_of_all(patch, columns) + patch.appended_fields
}

// ---------------------------------------------------------------------------------------------
// What the steps ask for
// ---------------------------------------------------------------------------------------------

/// The place at which a step inserts: before all columns (`Some(None)`), or after a column.
pub open spec fn insertion_place(step: FieldTransformSpec) -> Option<Option<Seq<char>>> {
    match step {
        FieldTransformSpec::StaticInsert { insert_after, .. } => Some(
            opt_string_view(insert_after),
        ),
        FieldTransformSpec::StaticReplace { field_name, .. } => Some(Some(field_name@)),
        FieldTransformSpec::StaticDrop { .. } => None,
        FieldTransformSpec::MetadataDerivedColumn { insert_after, .. } => Some(
            opt_string_view(insert_after),
        ),
        FieldTransformSpec::GenerateRowId { field_name, .. } => Some(Some(field_name@)),
    }
}

/// What a step inserts.
pub open spec fn insertion(
    step: FieldTransformSpec,
    values: Map<usize, ScalarV>,
    base_row_id: Option<i64>,
) -> ExprV {
    match step {
        FieldTransformSpec::StaticInsert { expr, .. } => expr@,
        FieldTransformSpec::StaticReplace { expr, .. } => expr@,
        FieldTransformSpec::MetadataDerivedColumn { field_index, .. } => ExprV::Literal(
            values[field_index],
        ),
        FieldTransformSpec::GenerateRowId { field_name, row_index_field_name } => row_id_expr(
            field_name@,
            base_row_id->0,
            row_index_field_name@,
        ),
        _ => arbitrary(),
    }
}

/// Whether a step takes a column away.
pub open spec fn takes_away(step: FieldTransformSpec, name: Seq<char>) -> bool {
    match step {
        FieldTransformSpec::StaticReplace { field_name, .. } => field_name@ == name,
        FieldTransformSpec::StaticDrop { field_name } => field_name@ == name,
        FieldTransformSpec::GenerateRowId { field_name, .. } => field_name@ == name,
        _ => false,
    }
}

/// What the first `n` steps insert at a place, in the order of the steps.
pub open spec fn inserted_at(
    steps: Seq<FieldTransformSpec>,
    n: nat,
    place: Option<Seq<char>>,
    values: Map<usize, ScalarV>,
    base_row_id: Option<i64>,
) -> Seq<ExprV>
    decreases n,
{
    if n == 0 {
        seq![]
    } else {
        let before = inserted_at(steps, (n - 1) as nat, place, values, base_row_id);
        if insertion_place(steps[n - 1]) == Some(place) {
            before.push(insertion(steps[n - 1], values, base_row_id))
        } else {
            before
        }
    }
}

/// Whether one of the first `n` steps takes a column away.
pub open spec fn taken_away(steps: Seq<FieldTransformSpec>, n: nat, name: Seq<char>) -> bool {
    exists|k: int| 0 <= k < n && takes_away(#[trigger] steps[k], name)
}

/// What the first `n` steps ask for in place of columns, one after the other: each column unless it
/// is taken away, and then what is inserted after it.
pub open spec fn asked_in_place(
    steps: Seq<FieldTransformSpec>,
    n: nat,
    values: Map<usize, ScalarV>,
    base_row_id: Option<i64>,
    columns: Seq<Seq<char>>,
) -> Seq<ExprV>
    decreases columns.len(),
{
    if columns.len() == 0 {
        seq![]
    } else {
        let name = columns.last();
        asked_in_place(steps, n, values, base_row_id, columns.drop_last()) + (if taken_away(
            steps,
            n,
            name,
        ) {
            seq![]
        } else {
            seq![ExprV::Column(seq![name])]
        }) + inserted_at(steps, n, Some(name), values, base_row_id)
    }
}

// ---------------------------------------------------------------------------------------------
// The transform does what the steps ask for
// ---------------------------------------------------------------------------------------------

proof fn lemma_patch_of(patches: Seq<FieldPatchV>, name: Seq<char>, i: int)
    requires
        0 <= i <= patches.len(),
        forall|j: int| 0 <= j < i ==> (#[trigger] patches[j]).name != name,
        i < patches.len() ==> patches[i].name == name,
    ensures
        patch_of(patches, name) == (if i < patches.len() {
            patches[i]
        } else {
            FieldPatchV { name, keep_input: true, insertions: seq![] }
        }),
    decreases patches.len(),
{
    if patches.len() > 0 && i > 0 {
        assert(patches[0].name != name);
        let rest = patches.drop_first();
        assert forall|j: int| 0 <= j < i - 1 implies (#[trigger] rest[j]).name != name by {
            assert(rest[j] == patches[j + 1]);
        }
        lemma_patch_of(rest, name, i - 1);
    }
}

proof fn lemma_position_is_first(p: StructPatchV, name: Seq<char>, n: nat)
    requires
        n <= p.field_patches.len(),
    ensures
        p.position(name, n) <= n,
        forall|j: int|
            0 <= j < p.position(name, n) ==> (#[trigger] p.field_patches[j]).name != name,
        p.position(name, n) < n ==> p.field_patches[p.position(name, n) as int].name == name,
    decreases n,
{
    if n > 0 {
        lemma_position_is_first(p, name, (n - 1) as nat);
    }
}

/// Putting in a patch of one column changes that column's patch alone.
proof fn lemma_with_field_patch(p: StructPatchV, patch: FieldPatchV, name: Seq<char>)
    ensures
        patch_of(p.with_field_patch(patch).field_patches, name) == (if name == patch.name {
            patch
        } else {
            patch_of(p.field_patches, name)
        }),
        patch_of(p.field_patches, name) == p.field_patch(name),
{
    let len = p.field_patches.len();
    let i = p.position(patch.name, len) as int;
    let k = p.position(name, len) as int;
    lemma_position_is_first(p, patch.name, len);
    lemma_position_is_first(p, name, len);
    lemma_patch_of(p.field_patches, name, k);
    let after = p.with_field_patch(patch).field_patches;
    if name == patch.name {
        assert forall|j: int| 0 <= j < i implies (#[trigger] after[j]).name != name by {
            assert(after[j] == p.field_patches[j]);
        }
        lemma_patch_of(after, name, i);
    } else {
        let m = if k < len {
            k
        } else {
            after.len() as int
        };
        assert forall|j: int| 0 <= j < m implies (#[trigger] after[j]).name != name by {
            if j < len && j != i {
                assert(after[j] == p.field_patches[j]);
            }
        }
        if k < len {
            assert(after[k] == p.field_patches[k]);
        }
        lemma_patch_of(after, name, m);
    }
}

/// The patch of the first `n` steps holds what these insert at each place and which columns they
/// take away.
proof fn lemma_patch_holds_steps(
    steps: Seq<FieldTransformSpec>,
    n: nat,
    values: Map<usize, ScalarV>,
    base_row_id: Option<i64>,
    name: Seq<char>,
)
    requires
        n <= steps.len(),
        transform_patch(steps, n, values, base_row_id) is Ok,
    ensures
        ({
            let (patch, left) = transform_patch(steps, n, values, base_row_id)->Ok_0;
            let field = patch_of(patch.field_patches, name);
            &&& patch.prepended_fields == inserted_at(steps, n, None, values, base_row_id)
            &&& patch.appended_fields.len() == 0
            &&& patch.input_path is None
            &&& field.insertions == inserted_at(steps, n, Some(name), values, base_row_id)
            &&& field.keep_input == !taken_away(steps, n, name)
            &&& forall|i: usize| #[trigger]
                left.contains_key(i) ==> values.contains_key(i) && left[i] == values[i]
        }),
    decreases n,
{
    if n > 0 {
        let m = (n - 1) as nat;
        lemma_patch_holds_steps(steps, m, values, base_row_id, name);
        let (patch, left) = transform_patch(steps, m, values, base_row_id)->Ok_0;
        let step = steps[m as int];
        assert(taken_away(steps, n, name) == (taken_away(steps, m, name) || takes_away(
            step,
            name,
        ))) by {
            if taken_away(steps, n, name) {
                let k = choose|k: int| 0 <= k < n && takes_away(#[trigger] steps[k], name);
                if k < m {
                    assert(takes_away(steps[k], name));
                }
            }
            if taken_away(steps, m, name) {
                let k = choose|k: int| 0 <= k < m && takes_away(#[trigger] steps[k], name);
                assert(takes_away(steps[k], name));
            }
        }
        let touched = match step {
            FieldTransformSpec::StaticInsert { insert_after, .. } => opt_string_view(insert_after),
            FieldTransformSpec::StaticReplace { field_name, .. } => Some(field_name@),
            FieldTransformSpec::StaticDrop { field_name } => Some(field_name@),
            FieldTransformSpec::MetadataDerivedColumn { insert_after, .. } => opt_string_view(
                insert_after,
            ),
            FieldTransformSpec::GenerateRowId { field_name, .. } => Some(field_name@),
        };
        if let Some(other) = touched {
            lemma_patch_holds_steps(steps, m, values, base_row_id, other);
            let before = patch.field_patch(other);
            lemma_with_field_patch(patch, before, other);
            lemma_field_patch_named(patch, other);
            let after = transform_patch(steps, n, values, base_row_id)->Ok_0.0;
            let made = after.field_patch(other);
            let put = FieldPatchV {
                name: other,
                keep_input: before.keep_input && !takes_away(step, other),
                insertions: if insertion_place(step) == Some(Some(other)) {
                    before.insertions.push(insertion(step, values, base_row_id))
                } else {
                    before.insertions
                },
            };
            assert(after == patch.with_field_patch(put));
            lemma_with_field_patch(patch, put, name);
        }
    }
}

proof fn lemma_field_patch_named(p: StructPatchV, name: Seq<char>)
    ensures
        p.field_patch(name).name == name,
{
    lemma_position_is_first(p, name, p.field_patches.len());
}

proof fn lemma_in_place_of_all(
    steps: Seq<FieldTransformSpec>,
    values: Map<usize, ScalarV>,
    base_row_id: Option<i64>,
    n: nat,
    columns: Seq<Seq<char>>,
)
    requires
        n <= steps.len(),
        transform_patch(steps, n, values, base_row_id) is Ok,
    ensures
        in_place_of_all(transform_patch(steps, n, values, base_row_id)->Ok_0.0, columns)
            == asked_in_place(steps, n, values, base_row_id, columns),
    decreases columns.len(),
{
    if columns.len() > 0 {
        let patch = transform_patch(steps, n, values, base_row_id)->Ok_0.0;
        let name = columns.last();
        lemma_in_place_of_all(steps, values, base_row_id, n, columns.drop_last());
        lemma_patch_holds_steps(steps, n, values, base_row_id, name);
        assert(in_place_of_all(patch, columns) =~= asked_in_place(
            steps,
            n,
            values,
            base_row_id,
            columns,
        ));
    }
}

/// A transform does what its steps ask for: applied to stored columns, it gives what is inserted
/// before all columns, and then for each column the column itself, unless a step takes it away,
/// followed by what is inserted after it or in its place. What is inserted at the same place
/// appears in the order of the steps.
pub proof fn transforms_follow_their_steps(
    steps: Seq<FieldTransformSpec>,
    values: Map<usize, ScalarV>,
    base_row_id: Option<i64>,
    columns: Seq<Seq<char>>,
)
    ensures
        transform_expr(steps, values, base_row_id) matches Ok(e) ==> (e matches ExprV::StructPatch(
            patch,
        ) && patch.input_path is None && applied(*patch, columns) == inserted_at(
            steps,
            steps.len(),
            None,
            values,
            base_row_id,
        ) + asked_in_place(steps, steps.len(), values, base_row_id, columns)),
{
    if transform_expr(steps, values, base_row_id) is Ok {
        let n = steps.len();
        lemma_patch_holds_steps(steps, n, values, base_row_id, seq![]);
        lemma_in_place_of_all(steps, values, base_row_id, n, columns);
        let patch = transform_patch(steps, n, values, base_row_id)->Ok_0.0;
        assert(applied(patch, columns) =~= inserted_at(steps, n, None, values, base_row_id)
            + asked_in_place(steps, n, values, base_row_id, columns));
    }
}

// ---------------------------------------------------------------------------------------------
// When there is a transform
// ---------------------------------------------------------------------------------------------

/// Whether the first `n` steps can be taken: each partition column that they insert has a value and
/// is inserted once, and there is a base row id if they make row ids.
pub open spec fn can_be_taken(
    steps: Seq<FieldTransformSpec>,
    n: nat,
    values: Map<usize, ScalarV>,
    base_row_id: Option<i64>,
) -> bool {
    forall|k: int|
        0 <= k < n ==> match #[trigger] steps[k] {
            FieldTransformSpec::MetadataDerivedColumn { field_index, .. } => values.contains_key(
                field_index,
            ) && !inserts_partition(steps, k as nat, field_index),
            FieldTransformSpec::GenerateRowId { .. } => base_row_id is Some,
            _ => true,
        }
}

/// Whether one of the first `n` steps inserts a partition column.
pub open spec fn inserts_partition(
    steps: Seq<FieldTransformSpec>,
    n: nat,
    field_index: usize,
) -> bool {
    exists|k: int|
        0 <= k < n && ((#[trigger] steps[k]) matches FieldTransformSpec::MetadataDerivedColumn {
            field_index: i,
            ..
        } && i == field_index)
}

proof fn lemma_taken(
    steps: Seq<FieldTransformSpec>,
    n: nat,
    values: Map<usize, ScalarV>,
    base_row_id: Option<i64>,
)
    requires
        n <= steps.len(),
    ensures
        transform_patch(steps, n, values, base_row_id) is Ok <==> can_be_taken(
            steps,
            n,
            values,
            base_row_id,
        ),
        transform_patch(steps, n, values, base_row_id) matches Ok((_, left)) ==> forall|i: usize|
         #[trigger]
            left.contains_key(i) <==> values.contains_key(i) && !inserts_partition(steps, n, i),
    decreases n,
{
    if n > 0 {
        let m = (n - 1) as nat;
        lemma_taken(steps, m, values, base_row_id);
        if can_be_taken(steps, n, values, base_row_id) {
            assert forall|k: int| 0 <= k < m implies match #[trigger] steps[k] {
                FieldTransformSpec::MetadataDerivedColumn { field_index, .. } => {
                    values.contains_key(field_index) && !inserts_partition(
                        steps,
                        k as nat,
                        field_index,
                    )
                },
                FieldTransformSpec::GenerateRowId { .. } => base_row_id is Some,
                _ => true,
            } by {}
            assert(can_be_taken(steps, m, values, base_row_id));
            let step = steps[m as int];
        }
        assert forall|i: usize| inserts_partition(steps, n, i) == (inserts_partition(steps, m, i)
            || (steps[m as int] matches FieldTransformSpec::MetadataDerivedColumn {
            field_index,
            ..
        } && field_index == i)) by {
            if inserts_partition(steps, n, i) {
                let k = choose|k: int|
                    0 <= k < n && ((#[trigger] steps[k])
                        matches FieldTransformSpec::MetadataDerivedColumn { field_index, .. }
                        && field_index == i);
                if k < m {
                    assert(inserts_partition(steps, m, i));
                }
            }
            if inserts_partition(steps, m, i) {
                let k = choose|k: int|
                    0 <= k < m && ((#[trigger] steps[k])
                        matches FieldTransformSpec::MetadataDerivedColumn { field_index, .. }
                        && field_index == i);
                assert(steps[k] is MetadataDerivedColumn);
            }
        }
        if can_be_taken(steps, m, values, base_row_id) && transform_patch(
            steps,
            n,
            values,
            base_row_id,
        ) is Ok {
            assert(can_be_taken(steps, n, values, base_row_id));
        }
    }
}

/// A file has a transform if and only if its steps can be taken.
pub proof fn transforms_exist_if_steps_can_be_taken(
    steps: Seq<FieldTransformSpec>,
    values: Map<usize, ScalarV>,
    base_row_id: Option<i64>,
)
    ensures
        transform_expr(steps, values, base_row_id) is Ok <==> can_be_taken(
            steps,
            steps.len(),
            values,
            base_row_id,
        ),
{
    lemma_taken(steps, steps.len(), values, base_row_id);
}

// ---------------------------------------------------------------------------------------------
// Rows of the table
// ---------------------------------------------------------------------------------------------

/// The columns among the first `n` that are stored in files: those that are no partition columns.
pub open spec fn stored_columns(names: Seq<Seq<char>>, partition: Seq<bool>, n: nat) -> Seq<
    Seq<char>,
>
    decreases n,
{
    if n == 0 {
        seq![]
    } else {
        let before = stored_columns(names, partition, (n - 1) as nat);
        if partition[n - 1] {
            before
        } else {
            before.push(names[n - 1])
        }
    }
}

/// Whether the steps insert the partition columns of a table, from the first to the last, each after
/// the stored column before it, or before all stored columns.
pub open spec fn insert_partition_columns(
    steps: Seq<FieldTransformSpec>,
    names: Seq<Seq<char>>,
    partition: Seq<bool>,
) -> bool {
    &&& steps.len() == marked(partition, names.len())
    &&& forall|k: int|
        0 <= k < names.len() && #[trigger] partition[k] ==> {
            let stored = stored_columns(names, partition, k as nat);
            steps[marked(partition, k as nat)] matches FieldTransformSpec::MetadataDerivedColumn {
                field_index,
                insert_after,
            } && field_index == k && opt_string_view(insert_after) == (if stored.len() > 0 {
                Some(stored.last())
            } else {
                None
            })
        }
}

/// The columns of the table's rows: partition columns by their values, the others as stored.
pub open spec fn table_columns(
    names: Seq<Seq<char>>,
    partition: Seq<bool>,
    values: Map<usize, ScalarV>,
) -> Seq<ExprV> {
    Seq::new(
        names.len(),
        |k: int|
            if partition[k] {
                ExprV::Literal(values[k as usize])
            } else {
                ExprV::Column(seq![names[k]])
            },
    )
}

/// What the first `n` steps make of stored columns.
spec fn asked(
    steps: Seq<FieldTransformSpec>,
    n: nat,
    values: Map<usize, ScalarV>,
    columns: Seq<Seq<char>>,
) -> Seq<ExprV> {
    inserted_at(steps, n, None, values, None) + asked_in_place(steps, n, values, None, columns)
}

proof fn lemma_stored_members(names: Seq<Seq<char>>, partition: Seq<bool>, n: nat, i: int)
    requires
        n <= names.len(),
        0 <= i < stored_columns(names, partition, n).len(),
    ensures
        exists|k: int| 0 <= k < n && !partition[k] && #[trigger] names[k] == stored_columns(
            names,
            partition,
            n,
        )[i],
    decreases n,
{
    let before = stored_columns(names, partition, (n - 1) as nat);
    if i < before.len() {
        lemma_stored_members(names, partition, (n - 1) as nat, i);
        let k = choose|k: int| 0 <= k < n - 1 && !partition[k] && #[trigger] names[k] == before[i];
        assert(names[k] == stored_columns(names, partition, n)[i]);
    } else {
        assert(names[n - 1] == stored_columns(names, partition, n)[i]);
    }
}

proof fn lemma_stored_distinct(names: Seq<Seq<char>>, partition: Seq<bool>, n: nat)
    requires
        n <= names.len(),
        names.no_duplicates(),
    ensures
        stored_columns(names, partition, n).no_duplicates(),
        forall|k: int|
            n <= k < names.len() ==> !stored_columns(names, partition, n).contains(
                #[trigger] names[k],
            ),
    decreases n,
{
    let columns = stored_columns(names, partition, n);
    assert forall|k: int| n <= k < names.len() implies !columns.contains(#[trigger] names[k]) by {
        if columns.contains(names[k]) {
            let i = choose|i: int| 0 <= i < columns.len() && columns[i] == names[k];
            lemma_stored_members(names, partition, n, i);
            let j = choose|j: int| 0 <= j < n && !partition[j] && #[trigger] names[j] == columns[i];
            assert(names[j] == names[k] && j != k);
        }
    }
    if n > 0 {
        lemma_stored_distinct(names, partition, (n - 1) as nat);
        let before = stored_columns(names, partition, (n - 1) as nat);
        assert(!before.contains(names[n - 1]));
    }
}

/// One more step that inserts after the last column puts its value at the end.
proof fn lemma_one_more_step(
    steps: Seq<FieldTransformSpec>,
    n: nat,
    values: Map<usize, ScalarV>,
    columns: Seq<Seq<char>>,
    i: int,
)
    requires
        n < steps.len(),
        columns.no_duplicates(),
        steps[n as int] is MetadataDerivedColumn,
        insertion_place(steps[n as int]) == Some(
            if columns.len() > 0 {
                Some(columns.last())
            } else {
                None
            },
        ),
        0 <= i <= columns.len(),
    ensures
        asked_in_place(steps, n + 1, values, None, columns.take(i)) == (if i == columns.len() && i
            > 0 {
            asked_in_place(steps, n, values, None, columns.take(i)).push(
                insertion(steps[n as int], values, None),
            )
        } else {
            asked_in_place(steps, n, values, None, columns.take(i))
        }),
    decreases i,
{
    if i > 0 {
        lemma_one_more_step(steps, n, values, columns, i - 1);
        let part = columns.take(i);
        let name = columns[i - 1];
        assert(part.drop_last() =~= columns.take(i - 1));
        assert(part.last() == name);
        assert(taken_away(steps, n + 1, name) == taken_away(steps, n, name)) by {
            if taken_away(steps, n + 1, name) {
                let k = choose|k: int| 0 <= k < n + 1 && takes_away(#[trigger] steps[k], name);
                assert(k < n);
                assert(takes_away(steps[k], name));
            }
            if taken_away(steps, n, name) {
                let k = choose|k: int| 0 <= k < n && takes_away(#[trigger] steps[k], name);
                assert(takes_away(steps[k], name));
            }
        }
        if i < columns.len() {
            assert(name != columns.last());
        }
        assert(asked_in_place(steps, n + 1, values, None, part) =~= (if i == columns.len() {
            asked_in_place(steps, n, values, None, part).push(
                insertion(steps[n as int], values, None),
            )
        } else {
            asked_in_place(steps, n, values, None, part)
        }));
    }
}

/// Steps that insert after other columns say nothing of a column.
proof fn lemma_untouched(
    steps: Seq<FieldTransformSpec>,
    n: nat,
    values: Map<usize, ScalarV>,
    name: Seq<char>,
)
    requires
        n <= steps.len(),
        forall|k: int|
            0 <= k < n ==> (#[trigger] steps[k]) is MetadataDerivedColumn && insertion_place(
                steps[k],
            ) != Some(Some(name)),
    ensures
        inserted_at(steps, n, Some(name), values, None) == Seq::<ExprV>::empty(),
        !taken_away(steps, n, name),
    decreases n,
{
    if n > 0 {
        lemma_untouched(steps, (n - 1) as nat, values, name);
    }
    if taken_away(steps, n, name) {
        let k = choose|k: int| 0 <= k < n && takes_away(#[trigger] steps[k], name);
        assert(steps[k] is MetadataDerivedColumn);
    }
}

proof fn lemma_marks(partition: Seq<bool>, n: nat)
    requires
        n <= partition.len(),
    ensures
        0 <= marked(partition, n) <= n,
    decreases n,
{
    if n > 0 {
        lemma_marks(partition, (n - 1) as nat);
    }
}

/// The position of the mark that comes after `j` others.
proof fn lemma_mark_at(partition: Seq<bool>, n: nat, j: int) -> (k: int)
    requires
        n <= partition.len(),
        0 <= j < marked(partition, n),
    ensures
        0 <= k < n,
        partition[k],
        marked(partition, k as nat) == j,
    decreases n,
{
    lemma_marks(partition, n);
    let m = (n - 1) as nat;
    lemma_marks(partition, m);
    if j < marked(partition, m) {
        lemma_mark_at(partition, m, j)
    } else {
        m as int
    }
}

proof fn lemma_marks_grow(partition: Seq<bool>, n: nat, m: nat)
    requires
        n <= m,
    ensures
        marked(partition, n) <= marked(partition, m),
        n < m && partition[n as int] ==> marked(partition, n) < marked(partition, m),
    decreases m,
{
    if n < m {
        lemma_marks_grow(partition, n, (m - 1) as nat);
    }
}

/// The first steps make the first columns of the table's rows.
proof fn lemma_rows_so_far(
    steps: Seq<FieldTransformSpec>,
    names: Seq<Seq<char>>,
    partition: Seq<bool>,
    values: Map<usize, ScalarV>,
    n: nat,
)
    requires
        n <= names.len(),
        names.len() <= usize::MAX,
        partition.len() == names.len(),
        names.no_duplicates(),
        insert_partition_columns(steps, names, partition),
    ensures
        0 <= marked(partition, n) <= steps.len(),
        asked(
            steps,
            marked(partition, n) as nat,
            values,
            stored_columns(names, partition, n),
        ) == table_columns(names, partition, values).take(n as int),
    decreases n,
{
    lemma_marks(partition, n);
    lemma_marks_grow(partition, n, names.len());
    let table = table_columns(names, partition, values);
    let count = marked(partition, n) as nat;
    if n == 0 {
        assert(asked(steps, 0, values, seq![]) =~= table.take(0));
    } else {
        let m = (n - 1) as nat;
        lemma_rows_so_far(steps, names, partition, values, m);
        lemma_marks(partition, m);
        lemma_marks_grow(partition, m, names.len());
        let before = marked(partition, m) as nat;
        let columns = stored_columns(names, partition, m);
        lemma_stored_distinct(names, partition, m);
        assert(table.take(n as int) =~= table.take(m as int).push(table[m as int]));
        if partition[m as int] {
            assert(partition[m as int]);
            lemma_one_more_step(steps, before, values, columns, columns.len() as int);
            assert(columns.take(columns.len() as int) =~= columns);
            assert(insertion(steps[before as int], values, None) == table[m as int]);
            assert(asked(steps, count, values, columns) =~= asked(
                steps,
                before,
                values,
                columns,
            ).push(table[m as int]));
        } else {
            let name = names[m as int];
            assert forall|j: int| 0 <= j < before implies (#[trigger] steps[j])
                is MetadataDerivedColumn && insertion_place(steps[j]) != Some(Some(name)) by {
                let k = lemma_mark_at(partition, m, j);
                assert(partition[k]);
                let stored = stored_columns(names, partition, k as nat);
                if stored.len() > 0 {
                    lemma_stored_distinct(names, partition, k as nat);
                    assert(stored.contains(stored.last()));
                    assert(!stored.contains(names[m as int]));
                }
            }
            lemma_untouched(steps, before, values, name);
            let more = columns.push(name);
            assert(more.drop_last() =~= columns);
            assert(asked(steps, count, values, more) =~= asked(
                steps,
                before,
                values,
                columns,
            ).push(table[m as int]));
        }
    }
}

proof fn lemma_each_once(
    steps: Seq<FieldTransformSpec>,
    names: Seq<Seq<char>>,
    partition: Seq<bool>,
    values: Map<usize, ScalarV>,
)
    requires
        names.len() <= usize::MAX,
        partition.len() == names.len(),
        insert_partition_columns(steps, names, partition),
        forall|k: int|
            0 <= k < names.len() && #[trigger] partition[k] ==> values.contains_key(k as usize),
    ensures
        can_be_taken(steps, steps.len(), values, None),
{
    lemma_marks(partition, names.len());
    assert forall|j: int| 0 <= j < steps.len() implies match #[trigger] steps[j] {
        FieldTransformSpec::MetadataDerivedColumn { field_index, .. } => values.contains_key(
            field_index,
        ) && !inserts_partition(steps, j as nat, field_index),
        FieldTransformSpec::GenerateRowId { .. } => false,
        _ => true,
    } by {
        let k = lemma_mark_at(partition, names.len(), j);
        assert(partition[k]);
        if inserts_partition(steps, j as nat, k as usize) {
            let i = choose|i: int|
                0 <= i < j && ((#[trigger] steps[i])
                    matches FieldTransformSpec::MetadataDerivedColumn { field_index, .. }
                    && field_index == k as usize);
            let l = lemma_mark_at(partition, names.len(), i);
            assert(partition[l]);
            assert(l == k);
        }
    }
}

/// A file's transform gives rows of the table: applied to the stored columns, its k-th column is
/// the k-th column of the table, a partition column by its value and any other as it is stored.
pub proof fn transforms_give_rows_of_the_table(
    steps: Seq<FieldTransformSpec>,
    names: Seq<Seq<char>>,
    partition: Seq<bool>,
    values: Map<usize, ScalarV>,
)
    requires
        names.len() <= usize::MAX,
        partition.len() == names.len(),
        names.no_duplicates(),
        insert_partition_columns(steps, names, partition),
        forall|k: int|
            0 <= k < names.len() && #[trigger] partition[k] ==> values.contains_key(k as usize),
    ensures
        transform_expr(steps, values, None) matches Ok(ExprV::StructPatch(patch)) && applied(
            *patch,
            stored_columns(names, partition, names.len()),
        ) == table_columns(names, partition, values),
{
    let n = names.len();
    lemma_each_once(steps, names, partition, values);
    transforms_exist_if_steps_can_be_taken(steps, values, None);
    transforms_follow_their_steps(
        steps,
        values,
        None,
        stored_columns(names, partition, n),
    );
    lemma_rows_so_far(steps, names, partition, values, n);
    let table = table_columns(names, partition, values);
    assert(table.take(n as int) =~= table);
}

// ---------------------------------------------------------------------------------------------
// Partition values and row ids
// ---------------------------------------------------------------------------------------------

proof fn lemma_recorded(pairs: Seq<(String, String)>, key: Seq<char>, n: nat, i: int)
    requires
        0 <= i < n <= pairs.len(),
        pairs[i].0@ == key,
        forall|j: int| i < j < n ==> (#[trigger] pairs[j]).0@ != key,
    ensures
        recorded(pairs, key, n) == Some(pairs[i].1@),
    decreases n,
{
    if i < n - 1 {
        assert(pairs[n - 1].0@ != key);
        lemma_recorded(pairs, key, (n - 1) as nat, i);
    }
}

proof fn lemma_not_recorded(pairs: Seq<(String, String)>, key: Seq<char>, n: nat)
    requires
        n <= pairs.len(),
        forall|j: int| 0 <= j < n ==> (#[trigger] pairs[j]).0@ != key,
    ensures
        recorded(pairs, key, n) is None,
    decreases n,
{
    if n > 0 {
        assert(pairs[n - 1].0@ != key);
        lemma_not_recorded(pairs, key, (n - 1) as nat);
    }
}

/// The name under which files know a field: its physical name if columns are mapped and it has one,
/// else its own.
pub open spec fn name_in_files(
    schema: SchemaV,
    k: int,
    mode: ColumnMappingMode,
) -> Seq<char> {
    if mode == ColumnMappingMode::Unmapped || schema[k].physical_name is None {
        schema[k].name
    } else {
        schema[k].physical_name->0
    }
}

/// The value of a partition column is the text that the log records under its name in files, parsed
/// as a value of its type, and NULL if none is recorded. `pairs` records each name once.
pub proof fn partition_values_come_from_the_log<P: ScalarParser>(
    parser: &P,
    schema: SchemaV,
    k: usize,
    pairs: Seq<(String, String)>,
    mode: ColumnMappingMode,
    i: int,
)
    requires
        k < schema.len(),
        forall|a: int, b: int|
            0 <= a < b < pairs.len() ==> (#[trigger] pairs[a]).0@ != (#[trigger] pairs[b]).0@,
    ensures
        0 <= i < pairs.len() && pairs[i].0@ == name_in_files(schema, k as int, mode) && (
        schema[k as int].data_type is Primitive) ==> partition_value(
            parser,
            schema,
            k,
            pairs,
            mode,
        ) == parser.parsed(schema[k as int].data_type->Primitive_0, pairs[i].1@),
        (forall|j: int|
            0 <= j < pairs.len() ==> (#[trigger] pairs[j]).0@ != name_in_files(
                schema,
                k as int,
                mode,
            )) ==> partition_value(parser, schema, k, pairs, mode) == Ok::<_, ErrorV>(
            ScalarV::Null(schema[k as int].data_type),
        ),
{
    let name = name_in_files(schema, k as int, mode);
    assert(name == schema[k as int].stored_name(mode));
    if 0 <= i < pairs.len() && pairs[i].0@ == name {
        lemma_recorded(pairs, name, pairs.len(), i);
    }
    if forall|j: int| 0 <= j < pairs.len() ==> (#[trigger] pairs[j]).0@ != name {
        lemma_not_recorded(pairs, name, pairs.len());
    }
}

/// The values for a file's transform are those of the partition columns that its steps insert, and
/// no others.
pub proof fn every_inserted_partition_has_its_value<P: ScalarParser>(
    parser: &P,
    schema: SchemaV,
    steps: Seq<FieldTransformSpec>,
    n: nat,
    pairs: Seq<(String, String)>,
    mode: ColumnMappingMode,
    i: usize,
)
    requires
        n <= steps.len(),
    ensures
        partition_scalars(parser, schema, steps, n, pairs, mode) matches Ok(values) ==> {
            &&& values.contains_key(i) <==> inserts_partition(steps, n, i)
            &&& values.contains_key(i) ==> partition_value(parser, schema, i, pairs, mode) == Ok::<
                _,
                ErrorV,
            >(values[i])
        },
        (forall|j: usize|
            inserts_partition(steps, n, j) ==> #[trigger] partition_value(
                parser,
                schema,
                j,
                pairs,
                mode,
            ) is Ok) ==> partition_scalars(parser, schema, steps, n, pairs, mode) is Ok,
    decreases n,
{
    if n > 0 {
        let m = (n - 1) as nat;
        every_inserted_partition_has_its_value(parser, schema, steps, m, pairs, mode, i);
        assert forall|j: usize| inserts_partition(steps, m, j) implies inserts_partition(
            steps,
            n,
            j,
        ) by {
            let k = choose|k: int|
                0 <= k < m && ((#[trigger] steps[k])
                    matches FieldTransformSpec::MetadataDerivedColumn { field_index, .. }
                    && field_index == j);
            assert(steps[k] is MetadataDerivedColumn);
        }
        if let FieldTransformSpec::MetadataDerivedColumn { field_index, .. } = steps[m as int] {
            assert(steps[m as int] is MetadataDerivedColumn);
            assert(inserts_partition(steps, n, field_index));
        }
        if inserts_partition(steps, n, i) && !inserts_partition(steps, m, i) {
            let k = choose|k: int|
                0 <= k < n && ((#[trigger] steps[k])
                    matches FieldTransformSpec::MetadataDerivedColumn { field_index, .. }
                    && field_index == i);
            assert(k == m);
        }
        if forall|j: usize|
            inserts_partition(steps, n, j) ==> #[trigger] partition_value(
                parser,
                schema,
                j,
                pairs,
                mode,
            ) is Ok {
            assert forall|j: usize| inserts_partition(steps, m, j) implies #[trigger] partition_value(
                parser,
                schema,
                j,
                pairs,
                mode,
            ) is Ok by {
                assert(inserts_partition(steps, n, j));
            }
        }
    }
}

/// The number that an expression gives on a row of numbers; `None` for NULL.
pub open spec fn number(e: ExprV, row: spec_fn(Path) -> Option<int>) -> Option<int>
    decreases e,
{
    match e {
        ExprV::Literal(ScalarV::Long(n)) => Some(n as int),
        ExprV::Column(path) => row(path),
        ExprV::Binary(BinaryExpressionOp::Plus, a, b) => match (number(*a, row), number(*b, row)) {
            (Some(x), Some(y)) => Some(x + y),
            _ => None,
        },
        ExprV::Variadic(VariadicExpressionOp::Coalesce, exprs) => first_number(exprs, row),
        _ => None,
    }
}

/// The first number that is not NULL.
pub open spec fn first_number(exprs: Seq<ExprV>, row: spec_fn(Path) -> Option<int>) -> Option<int>
    decreases exprs,
{
    if exists|i: int| 0 <= i < exprs.len() && number(#[trigger] exprs[i], row) is Some {
        let i = choose|i: int|
            0 <= i < exprs.len() && number(#[trigger] exprs[i], row) is Some && forall|j: int|
                0 <= j < i ==> number(#[trigger] exprs[j], row) is None;
        if 0 <= i < exprs.len() {
            number(exprs[i], row)
        } else {
            None
        }
    } else {
        None
    }
}

/// A row's id is the materialized one where there is one, else the base row id of its file plus its
/// position in the file.
pub proof fn row_ids_are_materialized_or_counted(
    field_name: Seq<char>,
    base: i64,
    index_name: Seq<char>,
    row: spec_fn(Path) -> Option<int>,
)
    ensures
        row(seq![field_name]) matches Some(id) ==> number(
            row_id_expr(field_name, base, index_name),
            row,
        ) == Some(id),
        row(seq![field_name]) is None && row(seq![index_name]) is Some ==> number(
            row_id_expr(field_name, base, index_name),
            row,
        ) == Some(base + row(seq![index_name])->0),
{
    reveal_with_fuel(number, 3);
    reveal_with_fuel(first_number, 2);
    let e = row_id_expr(field_name, base, index_name);
    let exprs = e->Variadic_1;
    assert(exprs.len() == 2);
    assert(number(exprs[0], row) == row(seq![field_name]));
    assert(number(exprs[1], row) == (match row(seq![index_name]) {
        Some(k) => Some(base + k),
        None => None,
    }));
    if row(seq![field_name]) is Some {
        let i = choose|i: int|
            0 <= i < exprs.len() && number(#[trigger] exprs[i], row) is Some && forall|j: int|
                0 <= j < i ==> number(#[trigger] exprs[j], row) is None;
        assert(number(exprs[0], row) is Some && forall|j: int|
            0 <= j < 0 ==> number(#[trigger] exprs[j], row) is None);
        if i > 0 {
            assert(number(exprs[0], row) is None);
        }
    } else if row(seq![index_name]) is Some {
        let i = choose|i: int|
            0 <= i < exprs.len() && number(#[trigger] exprs[i], row) is Some && forall|j: int|
                0 <= j < i ==> number(#[trigger] exprs[j], row) is None;
        assert(number(exprs[1], row) is Some && forall|j: int|
            0 <= j < 1 ==> number(#[trigger] exprs[j], row) is None);
        assert(i == 1);
    }
}

} // verus!
