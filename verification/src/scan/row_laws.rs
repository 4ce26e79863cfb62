//! Which rows, columns and counts a scan takes from where.

use vstd::prelude::*;

use super::add_transform::{add_transform_fields, base_exprs, json_stats_expr, restored_add_exprs};
use super::builder::Scan;
use super::data_skipping::{dropped, filter_pred, selection_of};
use super::dedup_visitor::{visited_columns, VisitV};
use super::execute::{head_of, kept_rows, mask_after, mask_stays_in_step, rows_covered, total};
use super::log_replay::{
    partition_for_transform, stats_for_transform, ScanPartitionValuesOptions, ScanStatsOptions,
};
use super::metrics::{bump, ScanMetrics};
use super::partition_values::ScalarParser;
use super::process_batch::{kept_sizes, kept_transforms, with_active_files};
use super::schemas::{
    checkpoint_read_fields, commit_read_fields, restored_add_fields, scan_row_fields,
    scan_row_fields_with,
};
use super::skipping_laws::{expr_value, pred_value, Interpretation, Row};
use super::skipping_power_laws::operators_mean_what_they_say;
use super::state_info::StateInfo;
use super::table_scan::{actions_meta_predicate, read_options_of, CheckpointReadOptions};
use super::transform_spec::{partition_scalars, transform_expr};
use crate::engine::Column;
use crate::error::ErrorV;
use crate::expressions::column::Path;
use crate::expressions::expression::{
    ExprV, ExpressionRef, UnaryExpressionOp, VariadicExpressionOp,
};
use crate::expressions::scalar::{scalar_order, ScalarV};
use crate::log_replay::action_at;
use crate::schema::{DataTypeV, PrimitiveType, SchemaV};

verus! {

// ---------------------------------------------------------------------------------------------
// Deleted rows
// ---------------------------------------------------------------------------------------------

/// A deletion vector takes away the rows that it lists and no other; its mask ends with the last
/// row that it lists.
pub proof fn deletion_vectors_mask_the_rows_they_list(deleted: Seq<u64>)
    ensures
        ({
            let kept = kept_rows(deleted);
            &&& forall|i: int|
                0 <= i < deleted.len() ==> (#[trigger] deleted[i]) < kept.len()
                    && !kept[deleted[i] as int]
            &&& forall|row: int|
                0 <= row < kept.len() && !(#[trigger] kept[row]) ==> exists|i: int|
                    0 <= i < deleted.len() && #[trigger] deleted[i] == row
            &&& kept.len() > 0 ==> !kept.last()
        }),
{
    lemma_covered(deleted, deleted.len());
    let kept = kept_rows(deleted);
    assert forall|i: int| 0 <= i < deleted.len() implies (#[trigger] deleted[i]) < kept.len()
        && !kept[deleted[i] as int] by {
        assert(deleted.contains(deleted[i]));
    }
    assert forall|row: int| 0 <= row < kept.len() && !(#[trigger] kept[row]) implies exists|i: int|
        0 <= i < deleted.len() && #[trigger] deleted[i] == row by {
        let i = choose|i: int| 0 <= i < deleted.len() && deleted[i] == row as u64;
        assert(deleted[i] == row as u64);
        assert(row < 0x1_0000_0000_0000_0000);
    }
}

proof fn lemma_covered(deleted: Seq<u64>, n: nat)
    requires
        n <= deleted.len(),
    ensures
        0 <= rows_covered(deleted, n) <= 0x1_0000_0000_0000_0000,
        forall|i: int| 0 <= i < n ==> (#[trigger] deleted[i]) < rows_covered(deleted, n),
        rows_covered(deleted, n) > 0 ==> deleted.contains((rows_covered(deleted, n) - 1) as u64),
    decreases n,
{
    if n > 0 {
        lemma_covered(deleted, (n - 1) as nat);
        assert(deleted.contains(deleted[n - 1]));
    }
}

/// Each row of a file is kept or dropped by the entry of the mask at its place in the file, however
/// the file is cut into batches; rows behind the end of the mask are kept.
pub proof fn rows_are_judged_by_their_place(mask: Seq<bool>, lens: Seq<nat>, next: nat, row: int)
    requires
        0 <= row < next,
    ensures
        ({
            let place = total(lens) + row;
            match head_of(mask_after(mask, lens), next) {
                Some(head) => if place < mask.len() {
                    row < head.len() && head[row] == mask[place]
                } else {
                    row >= head.len()
                },
                None => place >= mask.len(),
            }
        }),
{
    mask_stays_in_step(mask, lens);
}

// ---------------------------------------------------------------------------------------------
// Selections
// ---------------------------------------------------------------------------------------------

/// The filter keeps a row if and only if the rewritten predicate is not FALSE on it.
pub proof fn filter_keeps_all_but_false(it: Interpretation, row: Row)
    requires
        row(seq!["output"@]) is Boolean || row(seq!["output"@]) is Null,
    ensures
        pred_value(it, row, filter_pred()) == Some(
            row(seq!["output"@]) != ScalarV::Boolean(false),
        ),
{
    let value = row(seq!["output"@]);
    reveal_with_fuel(pred_value, 2);
    assert(expr_value(it, row, ExprV::Column(seq!["output"@])) == value);
    assert(expr_value(it, row, ExprV::Literal(ScalarV::Boolean(false))) == ScalarV::Boolean(false));
    reveal(scalar_order);
    operators_mean_what_they_say(value, ScalarV::Boolean(false));
}

/// A selection is read off a boolean column row by row, and is refused if and only if a row has no
/// truth value.
pub proof fn selections_are_read_row_by_row(column: Column, n: nat)
    ensures
        selection_of(column, n) is Ok <==> n == 0 || (column is Booleans && forall|i: int|
            0 <= i < n ==> i < column->Booleans_0@.len() && (#[trigger] column->Booleans_0@[i])
                is Some),
        selection_of(column, n) matches Ok(selection) ==> selection.len() == n && forall|i: int|
            0 <= i < n ==> column->Booleans_0@[i] == Some(#[trigger] selection[i]),
    decreases n,
{
    if n > 0 {
        selections_are_read_row_by_row(column, (n - 1) as nat);
        if column is Booleans {
            assert(selection_of(column, n) is Ok ==> column->Booleans_0@[n - 1] is Some);
        }
    }
}

/// The first `n` rows of which something holds, in order.
pub open spec fn rows_where(n: nat, holds: spec_fn(int) -> bool) -> Seq<int> {
    Seq::new(n, |i: int| i).filter(holds)
}

/// The places of the selected rows, in order.
pub open spec fn selected_rows(selection: Seq<bool>) -> Seq<int> {
    rows_where(selection.len(), |i: int| selection[i])
}

proof fn lemma_rows_where(n: nat, holds: spec_fn(int) -> bool)
    ensures
        n == 0 ==> rows_where(n, holds).len() == 0,
        n > 0 ==> rows_where(n, holds) == (if holds(n - 1) {
            rows_where((n - 1) as nat, holds).push(n - 1)
        } else {
            rows_where((n - 1) as nat, holds)
        }),
{
    let all = Seq::new(n, |i: int| i);
    reveal(Seq::filter);
    if n > 0 {
        assert(all.drop_last() =~= Seq::new((n - 1) as nat, |i: int| i));
    }
}

proof fn lemma_selected(selection: Seq<bool>)
    ensures
        selection.len() == 0 ==> selected_rows(selection).len() == 0,
        selection.len() > 0 ==> selected_rows(selection) == (if selection.last() {
            selected_rows(selection.drop_last()).push(selection.len() - 1)
        } else {
            selected_rows(selection.drop_last())
        }),
{
    let p = |i: int| selection[i];
    lemma_rows_where(selection.len(), p);
    if selection.len() > 0 {
        let shorter = selection.drop_last();
        lemma_filters_agree(Seq::new(shorter.len(), |i: int| i), p, |i: int| shorter[i]);
    }
}

proof fn lemma_filters_agree(s: Seq<int>, p: spec_fn(int) -> bool, q: spec_fn(int) -> bool)
    requires
        forall|i: int| 0 <= i < s.len() ==> p(#[trigger] s[i]) == q(s[i]),
    ensures
        s.filter(p) == s.filter(q),
    decreases s.len(),
{
    reveal(Seq::filter);
    if s.len() > 0 {
        let t = s.drop_last();
        assert forall|i: int| 0 <= i < t.len() implies p(#[trigger] t[i]) == q(t[i]) by {
            assert(t[i] == s[i]);
        }
        lemma_filters_agree(t, p, q);
        assert(p(s[s.len() - 1]) == q(s[s.len() - 1]));
    }
}

/// Every row is either selected or counted as dropped.
pub proof fn rows_are_selected_or_dropped(selection: Seq<bool>)
    ensures
        dropped(selection) + selected_rows(selection).len() == selection.len(),
    decreases selection.len(),
{
    lemma_selected(selection);
    if selection.len() > 0 {
        rows_are_selected_or_dropped(selection.drop_last());
    }
}

/// Once unselected rows are gone, each row that is left still has its own transform and size.
pub proof fn selected_rows_keep_their_own(
    selection: Seq<bool>,
    transforms: Seq<Option<ExpressionRef>>,
    sizes: Seq<u64>,
)
    requires
        sizes.len() >= selection.len(),
    ensures
        ({
            let rows = selected_rows(selection);
            let kept = kept_transforms(selection, transforms, selection.len());
            let left = kept_sizes(selection, sizes, selection.len());
            &&& kept.len() == rows.len()
            &&& left.len() == rows.len()
            &&& forall|k: int|
                0 <= k < rows.len() ==> {
                    &&& 0 <= (#[trigger] rows[k]) < selection.len()
                    &&& left[k] == sizes[rows[k]]
                    &&& rows[k] < transforms.len() ==> kept[k] == transforms[rows[k]]
                    &&& rows[k] >= transforms.len() ==> kept[k] is None
                }
        }),
    decreases selection.len(),
{
    lemma_selected(selection);
    if selection.len() > 0 {
        let shorter = selection.drop_last();
        selected_rows_keep_their_own(shorter, transforms, sizes);
        lemma_kept_of_prefix(selection, shorter, transforms, sizes, shorter.len());
    }
}

proof fn lemma_kept_of_prefix(
    selection: Seq<bool>,
    shorter: Seq<bool>,
    transforms: Seq<Option<ExpressionRef>>,
    sizes: Seq<u64>,
    n: nat,
)
    requires
        n <= shorter.len() <= selection.len(),
        forall|i: int| 0 <= i < shorter.len() ==> shorter[i] == selection[i],
    ensures
        kept_transforms(selection, transforms, n) == kept_transforms(shorter, transforms, n),
        kept_sizes(selection, sizes, n) == kept_sizes(shorter, sizes, n),
    decreases n,
{
    if n > 0 {
        lemma_kept_of_prefix(selection, shorter, transforms, sizes, (n - 1) as nat);
    }
}

// ---------------------------------------------------------------------------------------------
// Counters
// ---------------------------------------------------------------------------------------------

/// A counter after `more` has been counted; counters wrap around.
pub open spec fn counts_up(before: u64, more: int, after: u64) -> bool {
    exists|wraps: int| after == before + more - #[trigger] (wraps * 0x1_0000_0000_0000_0000)
}

pub(crate) proof fn lemma_counts_up(before: u64, more: int, after: u64, again: int, end: u64)
    requires
        counts_up(before, more, after),
        counts_up(after, again, end),
    ensures
        counts_up(before, more + again, end),
{
    let a = choose|wraps: int| after == before + more - #[trigger] (wraps * 0x1_0000_0000_0000_0000);
    let b = choose|wraps: int| end == after + again - #[trigger] (wraps * 0x1_0000_0000_0000_0000);
    assert((a + b) * 0x1_0000_0000_0000_0000 == a * 0x1_0000_0000_0000_0000 + b
        * 0x1_0000_0000_0000_0000) by (nonlinear_arith);
    assert(end == before + (more + again) - ((a + b) * 0x1_0000_0000_0000_0000));
}

/// Bumping a counter counts up.
pub(crate) proof fn lemma_bump(counter: u64, by: int)
    requires
        by >= 0,
    ensures
        counts_up(counter, by, bump(counter, by)),
{
    let sum = counter + by;
    vstd::arithmetic::div_mod::lemma_fundamental_div_mod(sum, 0x1_0000_0000_0000_0000);
    let wraps = sum / 0x1_0000_0000_0000_0000;
    assert(wraps * 0x1_0000_0000_0000_0000 == 0x1_0000_0000_0000_0000 * wraps) by (nonlinear_arith);
    assert(bump(counter, by) == counter + by - (wraps * 0x1_0000_0000_0000_0000));
}

pub(crate) proof fn lemma_no_count(counter: u64)
    ensures
        counts_up(counter, 0, counter),
{
    assert(counter == counter + 0 - (0int * 0x1_0000_0000_0000_0000));
}

/// The sum of the sizes of some rows.
pub open spec fn bytes_of(sizes: Seq<u64>, rows: Seq<int>) -> int
    decreases rows.len(),
{
    if rows.len() == 0 {
        0
    } else {
        bytes_of(sizes, rows.drop_last()) + sizes[rows.last()]
    }
}

/// The counters of active files count the selected rows and their bytes, and no other counter is
/// touched.
pub proof fn active_files_are_the_selected_rows(
    metrics: ScanMetrics,
    selection: Seq<bool>,
    sizes: Seq<u64>,
)
    requires
        sizes.len() == selection.len(),
    ensures
        ({
            let after = with_active_files(metrics, selection, sizes, selection.len());
            let rows = selected_rows(selection);
            &&& counts_up(
                metrics.num_active_add_files,
                rows.len() as int,
                after.num_active_add_files,
            )
            &&& counts_up(
                metrics.active_add_files_bytes,
                bytes_of(sizes, rows),
                after.active_add_files_bytes,
            )
            &&& after == (ScanMetrics {
                num_active_add_files: after.num_active_add_files,
                active_add_files_bytes: after.active_add_files_bytes,
                ..metrics
            })
        }),
{
    lemma_active_files(metrics, selection, sizes, selection.len());
}

proof fn lemma_active_files(metrics: ScanMetrics, selection: Seq<bool>, sizes: Seq<u64>, n: nat)
    requires
        sizes.len() == selection.len(),
        n <= selection.len(),
    ensures
        ({
            let after = with_active_files(metrics, selection, sizes, n);
            let rows = rows_where(n, |i: int| selection[i]);
            &&& counts_up(
                metrics.num_active_add_files,
                rows.len() as int,
                after.num_active_add_files,
            )
            &&& counts_up(
                metrics.active_add_files_bytes,
                bytes_of(sizes, rows),
                after.active_add_files_bytes,
            )
            &&& after == (ScanMetrics {
                num_active_add_files: after.num_active_add_files,
                active_add_files_bytes: after.active_add_files_bytes,
                ..metrics
            })
        }),
    decreases n,
{
    let p = |i: int| selection[i];
    lemma_rows_where(n, p);
    if n == 0 {
        lemma_no_count(metrics.num_active_add_files);
        lemma_no_count(metrics.active_add_files_bytes);
    } else {
        let m = (n - 1) as nat;
        lemma_active_files(metrics, selection, sizes, m);
        let before = with_active_files(metrics, selection, sizes, m);
        let rows = rows_where(m, p);
        if selection[n - 1] {
            let after = with_active_files(metrics, selection, sizes, n);
            lemma_bump(before.num_active_add_files, 1);
            lemma_counts_up(
                metrics.num_active_add_files,
                rows.len() as int,
                before.num_active_add_files,
                1,
                after.num_active_add_files,
            );
            lemma_bump(before.active_add_files_bytes, sizes[n - 1] as int);
            lemma_counts_up(
                metrics.active_add_files_bytes,
                bytes_of(sizes, rows),
                before.active_add_files_bytes,
                sizes[n - 1] as int,
                after.active_add_files_bytes,
            );
            assert(rows.push(n - 1).drop_last() =~= rows);
        }
    }
}

/// Whether a row holds an Add.
pub open spec fn holds_add(columns: Seq<Column>, log_batch: bool, row: int) -> bool {
    action_at(columns, row, !log_batch) matches Ok(Some(action)) && action.is_add
}

/// Whether a row holds a Remove.
pub open spec fn holds_remove(columns: Seq<Column>, log_batch: bool, row: int) -> bool {
    action_at(columns, row, !log_batch) matches Ok(Some(action)) && !action.is_add
}

/// Whether a row holds neither.
pub open spec fn holds_no_file(columns: Seq<Column>, log_batch: bool, row: int) -> bool {
    action_at(columns, row, !log_batch) matches Ok(None)
}

/// A visit counts every row that it was to look at, as an Add, a Remove or neither; it touches no
/// other counter. Each row that it selects is an Add whose size it keeps.
pub proof fn visits_count_what_they_see<P: ScalarParser>(
    start: VisitV,
    state_info: &StateInfo,
    parser: &P,
    columns: Seq<Column>,
    log_batch: bool,
)
    requires
        start.error is None,
        start.sizes.len() == start.selection.len(),
        start.after_rows(state_info, parser, columns, log_batch, start.selection.len()).error
            is None,
    ensures
        ({
            let n = start.selection.len();
            let end = start.after_rows(state_info, parser, columns, log_batch, n);
            let adds = rows_where(
                n,
                |i: int| start.selection[i] && holds_add(columns, log_batch, i),
            );
            let removes = rows_where(
                n,
                |i: int| start.selection[i] && holds_remove(columns, log_batch, i),
            );
            let others = rows_where(
                n,
                |i: int| start.selection[i] && holds_no_file(columns, log_batch, i),
            );
            &&& counts_up(
                start.metrics.num_add_files_seen,
                adds.len() as int,
                end.metrics.num_add_files_seen,
            )
            &&& counts_up(
                start.metrics.num_remove_files_seen,
                removes.len() as int,
                end.metrics.num_remove_files_seen,
            )
            &&& counts_up(
                start.metrics.num_non_file_actions,
                others.len() as int,
                end.metrics.num_non_file_actions,
            )
            &&& end.metrics == (ScanMetrics {
                num_add_files_seen: end.metrics.num_add_files_seen,
                num_remove_files_seen: end.metrics.num_remove_files_seen,
                num_non_file_actions: end.metrics.num_non_file_actions,
                ..start.metrics
            })
            &&& forall|i: int|
                0 <= i < n && #[trigger] end.selection[i] ==> start.selection[i] && (action_at(
                    columns,
                    i,
                    !log_batch,
                ) matches Ok(Some(action)) && action.is_add && end.sizes[i] == action.size)
        }),
{
    lemma_visit(start, state_info, parser, columns, log_batch, start.selection.len());
}

proof fn lemma_visit<P: ScalarParser>(
    start: VisitV,
    state_info: &StateInfo,
    parser: &P,
    columns: Seq<Column>,
    log_batch: bool,
    n: nat,
)
    requires
        start.error is None,
        start.sizes.len() == start.selection.len(),
        n <= start.selection.len(),
        start.after_rows(state_info, parser, columns, log_batch, n).error is None,
    ensures
        ({
            let end = start.after_rows(state_info, parser, columns, log_batch, n);
            let adds = rows_where(
                n,
                |i: int| start.selection[i] && holds_add(columns, log_batch, i),
            );
            let removes = rows_where(
                n,
                |i: int| start.selection[i] && holds_remove(columns, log_batch, i),
            );
            let others = rows_where(
                n,
                |i: int| start.selection[i] && holds_no_file(columns, log_batch, i),
            );
            &&& end.selection.len() == start.selection.len()
            &&& end.sizes.len() == start.sizes.len()
            &&& forall|i: int|
                n <= i < start.selection.len() ==> #[trigger] end.selection[i]
                    == start.selection[i]
            &&& counts_up(
                start.metrics.num_add_files_seen,
                adds.len() as int,
                end.metrics.num_add_files_seen,
            )
            &&& counts_up(
                start.metrics.num_remove_files_seen,
                removes.len() as int,
                end.metrics.num_remove_files_seen,
            )
            &&& counts_up(
                start.metrics.num_non_file_actions,
                others.len() as int,
                end.metrics.num_non_file_actions,
            )
            &&& end.metrics == (ScanMetrics {
                num_add_files_seen: end.metrics.num_add_files_seen,
                num_remove_files_seen: end.metrics.num_remove_files_seen,
                num_non_file_actions: end.metrics.num_non_file_actions,
                ..start.metrics
            })
            &&& forall|i: int|
                0 <= i < n && #[trigger] end.selection[i] ==> start.selection[i] && (action_at(
                    columns,
                    i,
                    !log_batch,
                ) matches Ok(Some(action)) && action.is_add && end.sizes[i] == action.size)
        }),
    decreases n,
{
    let add = |i: int| start.selection[i] && holds_add(columns, log_batch, i);
    let remove = |i: int| start.selection[i] && holds_remove(columns, log_batch, i);
    let other = |i: int| start.selection[i] && holds_no_file(columns, log_batch, i);
    lemma_rows_where(n, add);
    lemma_rows_where(n, remove);
    lemma_rows_where(n, other);
    let old_counts = start.metrics;
    if n == 0 {
        lemma_no_count(old_counts.num_add_files_seen);
        lemma_no_count(old_counts.num_remove_files_seen);
        lemma_no_count(old_counts.num_non_file_actions);
    } else {
        let m = (n - 1) as nat;
        let before = start.after_rows(state_info, parser, columns, log_batch, m);
        assert(before.error is None);
        lemma_visit(start, state_info, parser, columns, log_batch, m);
        assert(before.selection[n - 1] == start.selection[n - 1]);
        let counts = before.metrics;
        if start.selection[n - 1] {
            let adds = rows_where(m, add).len() as int;
            let removes = rows_where(m, remove).len() as int;
            let others = rows_where(m, other).len() as int;
            lemma_bump(counts.num_add_files_seen, 1);
            lemma_bump(counts.num_remove_files_seen, 1);
            lemma_bump(counts.num_non_file_actions, 1);
            lemma_counts_up(
                old_counts.num_add_files_seen,
                adds,
                counts.num_add_files_seen,
                1,
                bump(counts.num_add_files_seen, 1),
            );
            lemma_counts_up(
                old_counts.num_remove_files_seen,
                removes,
                counts.num_remove_files_seen,
                1,
                bump(counts.num_remove_files_seen, 1),
            );
            lemma_counts_up(
                old_counts.num_non_file_actions,
                others,
                counts.num_non_file_actions,
                1,
                bump(counts.num_non_file_actions, 1),
            );
        }
    }
}

// ---------------------------------------------------------------------------------------------
// Transforms
// ---------------------------------------------------------------------------------------------

/// A visit keeps the transform of each row at the row's own place: a selected row has there the
/// transform made for it, and no other row has one.
pub proof fn transforms_stay_with_their_rows<P: ScalarParser>(
    start: VisitV,
    state_info: &StateInfo,
    parser: &P,
    columns: Seq<Column>,
    log_batch: bool,
    n: nat,
)
    requires
        start.error is None,
        start.transforms.len() == 0,
        n <= start.selection.len(),
        start.after_rows(state_info, parser, columns, log_batch, n).error is None,
    ensures
        ({
            let end = start.after_rows(state_info, parser, columns, log_batch, n);
            &&& end.selection.len() == start.selection.len()
            &&& end.transforms.len() <= n
            &&& forall|i: int|
                n <= i < start.selection.len() ==> #[trigger] end.selection[i]
                    == start.selection[i]
            &&& forall|i: int|
                0 <= i < end.transforms.len() && (#[trigger] end.transforms[i]) is Some ==> {
                    &&& end.selection[i]
                    &&& state_info.row_transform(parser, columns, i) == Ok::<_, ErrorV>(
                        end.transforms[i],
                    )
                }
            &&& forall|i: int|
                0 <= i < n && #[trigger] end.selection[i] ==> (state_info.row_transform(
                    parser,
                    columns,
                    i,
                ) matches Ok(transform) && (transform is Some ==> i < end.transforms.len()
                    && end.transforms[i] == transform))
        }),
    decreases n,
{
    if n > 0 {
        let m = (n - 1) as nat;
        let before = start.after_rows(state_info, parser, columns, log_batch, m);
        assert(before.error is None);
        transforms_stay_with_their_rows(start, state_info, parser, columns, log_batch, m);
        assert(before.selection[n - 1] == start.selection[n - 1]);
    }
}

/// The transform of a row is made from the partition values and the first row ID of that row. There
/// is none where transforms are not wanted or the table needs none.
pub proof fn transforms_are_made_from_their_row<P: ScalarParser>(
    state_info: &StateInfo,
    parser: &P,
    columns: Seq<Column>,
    row: int,
)
    requires
        columns.len() >= 7,
        columns[1] is Pairs,
        columns[6] is Longs,
        0 <= row < columns[1]->Pairs_0@.len(),
        0 <= row < columns[6]->Longs_0@.len(),
        columns[1]->Pairs_0@[row] is Some,
    ensures
        state_info.skip_row_transforms || state_info.transform_spec is None
            ==> state_info.row_transform(parser, columns, row) == Ok::<Option<ExprV>, ErrorV>(None),
        !state_info.skip_row_transforms ==> (state_info.transform_spec matches Some(steps) ==> ({
            let values = partition_scalars(
                parser,
                state_info.logical_schema@,
                steps@,
                steps@.len(),
                columns[1]->Pairs_0@[row]->0@,
                state_info.column_mapping_mode,
            );
            &&& values matches Err(e) ==> state_info.row_transform(parser, columns, row) == Err::<
                Option<ExprV>,
                ErrorV,
            >(e)
            &&& values matches Ok(values) ==> (state_info.row_transform(parser, columns, row)
                == match transform_expr(steps@, values, columns[6]->Longs_0@[row]) {
                Ok(e) => Ok::<Option<ExprV>, ErrorV>(Some(e)),
                Err(e) => Err(e),
            })
        })),
{
}

// ---------------------------------------------------------------------------------------------
// Columns
// ---------------------------------------------------------------------------------------------

/// Whether a schema has a field.
pub open spec fn has_field(schema: SchemaV, name: Seq<char>, t: DataTypeV) -> bool {
    exists|i: int|
        0 <= i < schema.len() && (#[trigger] schema[i]).name == name && schema[i].data_type == t
}

/// Whether a schema has a column at a path.
pub open spec fn has_column(schema: SchemaV, path: Path, t: DataTypeV) -> bool
    decreases path.len(),
{
    if path.len() == 0 {
        false
    } else if path.len() == 1 {
        has_field(schema, path[0], t)
    } else {
        exists|inner: SchemaV|
            #[trigger] has_field(schema, path[0], DataTypeV::Struct(inner)) && has_column(
                inner,
                path.drop_first(),
                t,
            )
    }
}

pub(crate) proof fn lemma_field(schema: SchemaV, i: int)
    requires
        0 <= i < schema.len(),
    ensures
        has_field(schema, schema[i].name, schema[i].data_type),
{
}

proof fn lemma_column(schema: SchemaV, i: int, inner: SchemaV, path: Path, t: DataTypeV)
    requires
        0 <= i < schema.len(),
        schema[i].data_type == DataTypeV::Struct(inner),
        path.len() > 1,
        path[0] == schema[i].name,
        has_column(inner, path.drop_first(), t),
    ensures
        has_column(schema, path, t),
{
    lemma_field(schema, i);
    assert(has_field(schema, path[0], DataTypeV::Struct(inner)));
}

pub open spec fn primitive(t: PrimitiveType) -> DataTypeV {
    DataTypeV::Primitive(t)
}

pub open spec fn string_pairs() -> DataTypeV {
    DataTypeV::KeyValue(
        Box::new(DataTypeV::Primitive(PrimitiveType::String)),
        Box::new(DataTypeV::Primitive(PrimitiveType::String)),
        true,
    )
}

/// The columns that replay looks at, by their places: of Adds the path, the partition values, the
/// size, the three parts that tell deletion vectors apart and the first row ID; of Removes, which
/// only commits hold, the path and the same three parts.
pub proof fn replay_looks_at_these_columns()
    ensures
        ({
            let commits = visited_columns(true);
            let checkpoints = visited_columns(false);
            let text = primitive(PrimitiveType::String);
            let long = primitive(PrimitiveType::Long);
            let integer = primitive(PrimitiveType::Integer);
            &&& commits.len() == 11
            &&& checkpoints.len() == 7
            &&& forall|i: int| 0 <= i < 7 ==> #[trigger] checkpoints[i] == commits[i]
            &&& commits[0] == (seq!["add"@, "path"@], text)
            &&& commits[1] == (seq!["add"@, "partitionValues"@], string_pairs())
            &&& commits[2] == (seq!["add"@, "size"@], long)
            &&& commits[3] == (seq!["add"@, "deletionVector"@, "storageType"@], text)
            &&& commits[4] == (seq!["add"@, "deletionVector"@, "pathOrInlineDv"@], text)
            &&& commits[5] == (seq!["add"@, "deletionVector"@, "offset"@], integer)
            &&& commits[6] == (seq!["add"@, "baseRowId"@], long)
            &&& commits[7] == (seq!["remove"@, "path"@], text)
            &&& commits[8] == (seq!["remove"@, "deletionVector"@, "storageType"@], text)
            &&& commits[9] == (seq!["remove"@, "deletionVector"@, "pathOrInlineDv"@], text)
            &&& commits[10] == (seq!["remove"@, "deletionVector"@, "offset"@], integer)
        }),
{
}

/// Every column that replay looks at is read: commits are read with all of them, checkpoints and
/// restored Adds with those of Adds.
pub proof fn visited_columns_are_read(i: int, with_stats: bool)
    ensures
        0 <= i < visited_columns(true).len() ==> has_column(
            commit_read_fields(),
            visited_columns(true)[i].0,
            visited_columns(true)[i].1,
        ),
        0 <= i < visited_columns(false).len() ==> has_column(
            checkpoint_read_fields(with_stats),
            visited_columns(false)[i].0,
            visited_columns(false)[i].1,
        ) && has_column(
            restored_add_fields(),
            visited_columns(false)[i].0,
            visited_columns(false)[i].1,
        ),
{
    let part = if i >= 8 {
        i - 8
    } else {
        i - 3
    };
    if 0 <= i < visited_columns(true).len() {
        let (path, t) = visited_columns(true)[i];
        if i < 7 {
            lemma_read(commit_read_fields(), 0, place_in_add(i, true), part, path, t);
        } else {
            lemma_read(
                commit_read_fields(),
                1,
                if i == 7 {
                    0
                } else {
                    8
                },
                part,
                path,
                t,
            );
        }
    }
    if 0 <= i < visited_columns(false).len() {
        let (path, t) = visited_columns(false)[i];
        lemma_read(
            checkpoint_read_fields(with_stats),
            0,
            place_in_add(i, with_stats),
            part,
            path,
            t,
        );
        lemma_read(restored_add_fields(), 0, place_in_add(i, false), part, path, t);
    }
}

/// Where an Add has the `i`th column that replay looks at.
spec fn place_in_add(i: int, with_stats: bool) -> int {
    let before = if with_stats {
        1int
    } else {
        0
    };
    if i < 3 {
        i
    } else if i < 6 {
        6 + before
    } else {
        7 + before
    }
}

/// A column of an action is read if its action has the field, or the part of a deletion vector.
proof fn lemma_read(schema: SchemaV, action: int, k: int, j: int, path: Path, t: DataTypeV)
    requires
        0 <= action < schema.len(),
        schema[action].data_type is Struct,
        path.len() == 2 || path.len() == 3,
        path[0] == schema[action].name,
        ({
            let fields = schema[action].data_type->Struct_0;
            &&& 0 <= k < fields.len()
            &&& fields[k].name == path[1]
            &&& path.len() == 2 ==> fields[k].data_type == t
            &&& path.len() == 3 ==> {
                let inner = fields[k].data_type->Struct_0;
                &&& fields[k].data_type is Struct
                &&& 0 <= j < inner.len()
                &&& inner[j].name == path[2]
                &&& inner[j].data_type == t
            }
        }),
    ensures
        has_column(schema, path, t),
{
    let fields = schema[action].data_type->Struct_0;
    let rest = path.drop_first();
    if path.len() == 2 {
        assert(rest.len() == 1 && rest[0] == path[1]);
        assert(has_field(fields, path[1], t));
        assert(has_column(fields, rest, t));
    } else {
        let inner = fields[k].data_type->Struct_0;
        let last = rest.drop_first();
        assert(last.len() == 1 && last[0] == path[2]);
        assert(has_field(inner, path[2], t));
        assert(has_column(inner, last, t));
        lemma_column(fields, k, inner, rest, t);
    }
    lemma_column(schema, action, fields, path, t);
}

/// Whether a list of expressions fills the field `name` of a schema with `e`.
pub open spec fn fills(schema: SchemaV, exprs: Seq<ExprV>, name: Seq<char>, e: ExprV) -> bool {
    exists|i: int|
        0 <= i < schema.len() && i < exprs.len() && (#[trigger] schema[i]).name == name && exprs[i]
            == e
}

/// Whether a list of expressions fills the field `name` of the struct `outer` with `e`.
pub open spec fn fills_inner(
    schema: SchemaV,
    exprs: Seq<ExprV>,
    outer: Seq<char>,
    name: Seq<char>,
    e: ExprV,
) -> bool {
    exists|i: int|
        0 <= i < schema.len() && i < exprs.len() && (#[trigger] schema[i]).name == outer
            && schema[i].data_type is Struct && exprs[i] is Struct && exprs[i]->Struct_1 is None
            && fills(schema[i].data_type->Struct_0, exprs[i]->Struct_0, name, e)
}

/// A scan row has everything from its Add: the path, the size, the time and the deletion vector as
/// columns of their own, and the partition values, the tags, the row ID, the row commit version and
/// the clustering provider among the constants of the file.
pub proof fn scan_rows_hold_their_adds(
    stats: Option<SchemaV>,
    has_stats_parsed: bool,
    skip_stats: bool,
    synthesize_json: bool,
    partition: Option<SchemaV>,
    has_partition_values_parsed: bool,
)
    ensures
        ({
            let fields = scan_row_fields_with(stats, partition);
            let exprs = add_transform_fields(
                stats,
                has_stats_parsed,
                skip_stats,
                synthesize_json,
                partition is Some,
                has_partition_values_parsed,
            );
            let from_add = |name: Seq<char>| ExprV::Column(seq!["add"@, name]);
            let constants = "fileConstantValues"@;
            &&& fills(fields, exprs, "path"@, from_add("path"@))
            &&& fills(fields, exprs, "size"@, from_add("size"@))
            &&& fills(fields, exprs, "modificationTime"@, from_add("modificationTime"@))
            &&& fills(fields, exprs, "deletionVector"@, from_add("deletionVector"@))
            &&& fills_inner(
                fields,
                exprs,
                constants,
                "partitionValues"@,
                from_add("partitionValues"@),
            )
            &&& fills_inner(fields, exprs, constants, "tags"@, from_add("tags"@))
            &&& fills_inner(fields, exprs, constants, "baseRowId"@, from_add("baseRowId"@))
            &&& fills_inner(
                fields,
                exprs,
                constants,
                "defaultRowCommitVersion"@,
                from_add("defaultRowCommitVersion"@),
            )
            &&& fills_inner(
                fields,
                exprs,
                constants,
                "clusteringProvider"@,
                from_add("clusteringProvider"@),
            )
        }),
{
    let fields = scan_row_fields_with(stats, partition);
    let stats_expr = json_stats_expr(has_stats_parsed, skip_stats, synthesize_json);
    let exprs = add_transform_fields(
        stats,
        has_stats_parsed,
        skip_stats,
        synthesize_json,
        partition is Some,
        has_partition_values_parsed,
    );
    assert forall|i: int| 0 <= i < 6 implies #[trigger] exprs[i] == base_exprs(stats_expr)[i] by {}
    assert forall|i: int| 0 <= i < 6 implies #[trigger] fields[i] == scan_row_fields()[i] by {}
    lemma_fills(fields, exprs, 0);
    lemma_fills(fields, exprs, 1);
    lemma_fills(fields, exprs, 2);
    lemma_fills(fields, exprs, 4);
    let inner = fields[5].data_type->Struct_0;
    let constants = exprs[5]->Struct_0;
    assert(fields[5].name == "fileConstantValues"@);
    lemma_fills(inner, constants, 0);
    lemma_fills(inner, constants, 1);
    lemma_fills(inner, constants, 2);
    lemma_fills(inner, constants, 3);
    lemma_fills(inner, constants, 4);
}

pub(crate) proof fn lemma_fills(schema: SchemaV, exprs: Seq<ExprV>, i: int)
    requires
        0 <= i < schema.len(),
        i < exprs.len(),
    ensures
        fills(schema, exprs, schema[i].name, exprs[i]),
{
}

/// What a scan row has as statistics. The JSON text is that of the Add; only where the source has
/// them parsed, and text was asked for, is missing text rendered from them; it is NULL where
/// statistics are not wanted, or are parsed and no text was asked for. Parsed statistics are those
/// of the source, or else parsed from the text of the Add, and partition values likewise from its
/// pairs.
pub proof fn scan_rows_hold_statistics(
    stats: Option<SchemaV>,
    has_stats_parsed: bool,
    skip_stats: bool,
    synthesize_json: bool,
    partition: Option<SchemaV>,
    has_partition_values_parsed: bool,
)
    ensures
        ({
            let fields = scan_row_fields_with(stats, partition);
            let exprs = add_transform_fields(
                stats,
                has_stats_parsed,
                skip_stats,
                synthesize_json,
                partition is Some,
                has_partition_values_parsed,
            );
            let from_add = |name: Seq<char>| ExprV::Column(seq!["add"@, name]);
            let null_text = ExprV::Literal(ScalarV::Null(primitive(PrimitiveType::String)));
            let rendered = ExprV::Unary(
                UnaryExpressionOp::ToJson,
                Box::new(from_add("stats_parsed"@)),
            );
            &&& !skip_stats && !has_stats_parsed ==> fills(
                fields,
                exprs,
                "stats"@,
                from_add("stats"@),
            )
            &&& !skip_stats && has_stats_parsed && synthesize_json ==> fills(
                fields,
                exprs,
                "stats"@,
                ExprV::Variadic(
                    VariadicExpressionOp::Coalesce,
                    seq![from_add("stats"@), rendered],
                ),
            )
            &&& skip_stats || (has_stats_parsed && !synthesize_json) ==> fills(
                fields,
                exprs,
                "stats"@,
                null_text,
            )
            &&& stats matches Some(schema) ==> has_field(
                fields,
                "stats_parsed"@,
                DataTypeV::Struct(schema),
            ) && fills(
                fields,
                exprs,
                "stats_parsed"@,
                if has_stats_parsed {
                    from_add("stats_parsed"@)
                } else {
                    ExprV::ParseJson(Box::new(from_add("stats"@)), schema)
                },
            )
            &&& partition matches Some(schema) ==> has_field(
                fields,
                "partitionValues_parsed"@,
                DataTypeV::Struct(schema),
            ) && fills(
                fields,
                exprs,
                "partitionValues_parsed"@,
                if has_partition_values_parsed {
                    from_add("partitionValues_parsed"@)
                } else {
                    ExprV::MapToStruct(Box::new(from_add("partitionValues"@)))
                },
            )
            &&& exprs.len() == fields.len()
            &&& fields.len() == 6 + (if stats is Some {
                1int
            } else {
                0
            }) + (if partition is Some {
                1int
            } else {
                0
            })
        }),
{
    let fields = scan_row_fields_with(stats, partition);
    let stats_expr = json_stats_expr(has_stats_parsed, skip_stats, synthesize_json);
    let exprs = add_transform_fields(
        stats,
        has_stats_parsed,
        skip_stats,
        synthesize_json,
        partition is Some,
        has_partition_values_parsed,
    );
    assert(exprs[3] == base_exprs(stats_expr)[3]);
    assert(fields[3] == scan_row_fields()[3]);
    lemma_fills(fields, exprs, 3);
    if stats is Some {
        lemma_fills(fields, exprs, 6);
        lemma_field(fields, 6);
    }
    if partition is Some {
        lemma_fills(fields, exprs, fields.len() - 1);
        lemma_field(fields, fields.len() - 1);
    }
}

/// Adds are made again from where scan rows hold their parts.
pub proof fn restored_adds_come_from_scan_rows()
    ensures
        ({
            let fields = restored_add_fields()[0].data_type->Struct_0;
            let exprs = restored_add_exprs();
            let constant = |name: Seq<char>| ExprV::Column(seq!["fileConstantValues"@, name]);
            &&& restored_add_fields().len() == 1
            &&& restored_add_fields()[0].name == "add"@
            &&& fills(fields, exprs, "path"@, ExprV::Column(seq!["path"@]))
            &&& fills(fields, exprs, "size"@, ExprV::Column(seq!["size"@]))
            &&& fields.len() == 10
            &&& fills(fields, exprs, "modificationTime"@, ExprV::Column(seq!["modificationTime"@]))
            &&& fills(fields, exprs, "stats"@, ExprV::Column(seq!["stats"@]))
            &&& fills(fields, exprs, "deletionVector"@, ExprV::Column(seq!["deletionVector"@]))
            &&& fills(fields, exprs, "partitionValues"@, constant("partitionValues"@))
            &&& fills(fields, exprs, "tags"@, constant("tags"@))
            &&& fills(fields, exprs, "baseRowId"@, constant("baseRowId"@))
            &&& fills(
                fields,
                exprs,
                "defaultRowCommitVersion"@,
                constant("defaultRowCommitVersion"@),
            )
            &&& fills(fields, exprs, "clusteringProvider"@, constant("clusteringProvider"@))
        }),
{
    let fields = restored_add_fields()[0].data_type->Struct_0;
    let exprs = restored_add_exprs();
    lemma_fills(fields, exprs, 0);
    lemma_fills(fields, exprs, 1);
    lemma_fills(fields, exprs, 2);
    lemma_fills(fields, exprs, 3);
    lemma_fills(fields, exprs, 4);
    lemma_fills(fields, exprs, 5);
    lemma_fills(fields, exprs, 6);
    lemma_fills(fields, exprs, 7);
    lemma_fills(fields, exprs, 8);
    lemma_fills(fields, exprs, 9);
}

/// Whether some Add column of a schema has this name.
pub open spec fn has_add_field(schema: SchemaV, name: Seq<char>) -> bool {
    exists|i: int, j: int|
        0 <= i < schema.len() && schema[i].data_type is Struct && 0 <= j
            < schema[i].data_type->Struct_0.len() && (
        #[trigger] schema[i].data_type->Struct_0[j]).name == name
}

proof fn lemma_other_names()
    ensures
        "path"@ != "stats"@,
        "partitionValues"@ != "stats"@,
        "size"@ != "stats"@,
        "modificationTime"@ != "stats"@,
        "dataChange"@ != "stats"@,
        "tags"@ != "stats"@,
        "deletionVector"@ != "stats"@,
        "baseRowId"@ != "stats"@,
        "defaultRowCommitVersion"@ != "stats"@,
        "clusteringProvider"@ != "stats"@,
{
    reveal_strlit("stats");
    reveal_strlit("path");
    reveal_strlit("partitionValues");
    reveal_strlit("size");
    reveal_strlit("modificationTime");
    reveal_strlit("dataChange");
    reveal_strlit("tags");
    reveal_strlit("deletionVector");
    reveal_strlit("baseRowId");
    reveal_strlit("defaultRowCommitVersion");
    reveal_strlit("clusteringProvider");
    assert("stats"@.len() == 5 && "path"@.len() == 4 && "size"@.len() == 4 && "tags"@.len() == 4);
    assert("partitionValues"@.len() == 15 && "modificationTime"@.len() == 16);
    assert("dataChange"@.len() == 10 && "deletionVector"@.len() == 14 && "baseRowId"@.len() == 9);
    assert("defaultRowCommitVersion"@.len() == 23 && "clusteringProvider"@.len() == 18);
}

/// What a scan reads of checkpoints: the text of statistics whenever it is asked for, or there is no
/// schema to have them parsed by; neither statistics nor a predicate over them if the scan is to
/// skip statistics; and the predicate over them, as far as there is one, if it is not.
pub proof fn scans_read_the_statistics_they_need<T>(scan: &Scan<T>, options: CheckpointReadOptions)
    requires
        read_options_of(scan, options),
    ensures
        ({
            let wanted = scan.stats.synthesize_json || !(scan.stats.struct_stats is Omitted);
            let schema = options.checkpoint_schema@;
            let text = seq!["add"@, "stats"@];
            &&& scan.stats.synthesize_json || (wanted && scan.state_info.physical_stats_schema
                is None) ==> has_column(schema, text, primitive(PrimitiveType::String))
            &&& !wanted ==> {
                &&& !has_add_field(schema, "stats"@)
                &&& options.meta_predicate is None
                &&& options.physical_stats_schema is None
            }
            &&& wanted ==> {
                &&& options.physical_stats_schema == scan.state_info.physical_stats_schema
                &&& options.meta_predicate is Some <==> actions_meta_predicate(*scan.state_info)
                    is Some
                &&& options.meta_predicate matches Some(p) ==> actions_meta_predicate(
                    *scan.state_info,
                ) == Some(p@)
            }
        }),
{
    let wanted = scan.stats.synthesize_json || !(scan.stats.struct_stats is Omitted);
    let schema = options.checkpoint_schema@;
    if schema == checkpoint_read_fields(true) {
        lemma_read(
            schema,
            0,
            5,
            0,
            seq!["add"@, "stats"@],
            primitive(PrimitiveType::String),
        );
    }
    if !wanted {
        lemma_other_names();
        assert(schema == checkpoint_read_fields(false));
    }
}

/// The typed columns of scan rows: without statistics there are none of them, and with them those
/// that were planned; partition values are there whenever statistics are, and else if they were
/// asked for.
pub proof fn typed_columns_are_there_when_needed(
    info: StateInfo,
    options: ScanStatsOptions,
    partition_options: ScanPartitionValuesOptions,
)
    ensures
        ({
            let stats = stats_for_transform(info, options);
            let partition = partition_for_transform(info, options, partition_options);
            let fields = scan_row_fields_with(stats, partition);
            &&& !options.skip_stats ==> (info.physical_stats_schema matches Some(s) ==> has_field(
                fields,
                "stats_parsed"@,
                DataTypeV::Struct(s@),
            ))
            &&& !options.skip_stats || partition_options.parsed_struct ==> (
            info.physical_partition_schema matches Some(s) ==> has_field(
                fields,
                "partitionValues_parsed"@,
                DataTypeV::Struct(s@),
            ))
            &&& options.skip_stats && !partition_options.parsed_struct ==> fields.len() == 6
        }),
{
    let stats = stats_for_transform(info, options);
    let partition = partition_for_transform(info, options, partition_options);
    let fields = scan_row_fields_with(stats, partition);
    if stats is Some {
        lemma_field(fields, 6);
    }
    if partition is Some {
        lemma_field(fields, fields.len() - 1);
    }
}

/// A scan skips statistics if and only if neither their text nor any parsed ones were asked for.
pub proof fn statistics_are_skipped_when_unwanted<T>(scan: &Scan<T>)
    ensures
        scan.spec_stats_options().skip_stats <==> !scan.stats.synthesize_json
            && scan.stats.struct_stats is Omitted,
        scan.spec_stats_options().synthesize_json == scan.stats.synthesize_json,
        scan.spec_partition_values_options().parsed_struct == scan.partition_values.parsed_struct,
{
}

} // verus!
