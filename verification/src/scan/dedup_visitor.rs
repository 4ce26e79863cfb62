//! Reconciling Add and Remove actions.

use std::time::Instant;

use vstd::prelude::*;

use super::metrics::ScanMetrics;
use super::partition_filter::partition_row_kept;
use super::partition_values::ScalarParser;
use super::schemas::{
    integer_type, long_type, string_map, string_map_type, string_type,
};
use super::state_info::StateInfo;
use super::transform_spec::{get_transform_expr, parse_partition_values};
use crate::engine::Column;
use crate::error::{DeltaResult, Error, ErrorV};
use crate::expressions::column::{ColumnName, Path};
use crate::expressions::expression::{ExprV, ExpressionRef};
use crate::log_replay::{
    action_at, extract_file_action, ActionV, Deduplicator, KeyV, ADD_PARTITION_VALUES_INDEX,
    BASE_ROW_ID_INDEX,
};
use crate::schema::{DataType, DataTypeV, PrimitiveType};
use crate::text::{decimal, decimal_text};
use crate::time::nanos_since;

verus! {

/// The views of a list of optional expressions.
pub open spec fn opt_exprs_view(exprs: Seq<Option<ExpressionRef>>) -> Seq<Option<ExprV>> {
    exprs.map_values(
        |e: Option<ExpressionRef>|
            match e {
                Some(e) => Some(e@),
                None => None,
            },
    )
}

/// The state of reconciling one batch: the files seen, and per row whether it is selected, its
/// transform and its size. Rows without a transform at the end have no entry.
pub struct VisitV {
    pub seen: Set<KeyV>,
    pub selection: Seq<bool>,
    pub transforms: Seq<Option<ExprV>>,
    pub sizes: Seq<u64>,
    pub metrics: ScanMetrics,
    /// What stopped the visit.
    pub error: Option<ErrorV>,
}

/// `transforms` with entries up to `row`.
pub open spec fn padded(transforms: Seq<Option<ExprV>>, row: int) -> Seq<Option<ExprV>> {
    if transforms.len() < row {
        transforms + Seq::new((row - transforms.len()) as nat, |i: int| None)
    } else {
        transforms
    }
}

impl VisitV {
    /// The state after counting a file action and recording its file.
    pub open spec fn with_action(self, action: ActionV, log_batch: bool) -> VisitV {
        VisitV {
            seen: if log_batch {
                self.seen.insert(action.key)
            } else {
                self.seen
            },
            metrics: if action.is_add {
                self.metrics.with_add_seen()
            } else {
                self.metrics.with_remove_seen()
            },
            ..self
        }
    }

    pub open spec fn with_selection(self, row: int, selected: bool) -> VisitV {
        VisitV { selection: self.selection.update(row, selected), ..self }
    }

    /// The state after a row that was selected so far: it stays selected only if it holds an Add
    /// of a file that was not seen before and that is kept by its partition values.
    pub open spec fn after_selected_row<P: ScalarParser>(
        self,
        state_info: &StateInfo,
        parser: &P,
        columns: Seq<Column>,
        log_batch: bool,
        row: int,
    ) -> VisitV {
        match action_at(columns, row, !log_batch) {
            Err(e) => VisitV { error: Some(e), ..self },
            Ok(None) => VisitV { metrics: self.metrics.with_non_file_action(), ..self }.with_selection(
                row,
                false,
            ),
            Ok(Some(action)) => {
                let next = self.with_action(action, log_batch);
                if self.seen.contains(action.key) || !action.is_add || !state_info.row_kept(
                    parser,
                    columns,
                    row,
                ) {
                    next.with_selection(row, false)
                } else {
                    match state_info.row_transform(parser, columns, row) {
                        Err(e) => VisitV { error: Some(e), ..next },
                        Ok(transform) => VisitV {
                            transforms: match transform {
                                Some(t) => padded(next.transforms, row).push(Some(t)),
                                None => next.transforms,
                            },
                            sizes: next.sizes.update(row, action.size),
                            ..next
                        }.with_selection(row, true),
                    }
                }
            },
        }
    }

    /// The state after the first `n` rows. Rows that are not selected are passed over; an error
    /// stops the visit.
    pub open spec fn after_rows<P: ScalarParser>(
        self,
        state_info: &StateInfo,
        parser: &P,
        columns: Seq<Column>,
        log_batch: bool,
        n: nat,
    ) -> VisitV
        decreases n,
    {
        if n == 0 {
            self
        } else {
            let before = self.after_rows(state_info, parser, columns, log_batch, (n - 1) as nat);
            if before.error is Some || !before.selection[n - 1] {
                before
            } else {
                before.after_selected_row(state_info, parser, columns, log_batch, n - 1)
            }
        }
    }
}

/// The columns that reconciling reads, in the order of the index constants. Checkpoint batches
/// are already reconciled, and their Removes only serve as tombstones for vacuum jobs, so only the
/// Adds are read there.
pub open spec fn visited_columns(log_batch: bool) -> Seq<(Path, DataTypeV)> {
    let adds = seq![
        (seq!["add"@, "path"@], string_type()),
        (seq!["add"@, "partitionValues"@], string_map_type()),
        (seq!["add"@, "size"@], long_type()),
        (seq!["add"@, "deletionVector"@, "storageType"@], string_type()),
        (seq!["add"@, "deletionVector"@, "pathOrInlineDv"@], string_type()),
        (seq!["add"@, "deletionVector"@, "offset"@], integer_type()),
        (seq!["add"@, "baseRowId"@], long_type()),
    ];
    if log_batch {
        adds + seq![
            (seq!["remove"@, "path"@], string_type()),
            (seq!["remove"@, "deletionVector"@, "storageType"@], string_type()),
            (seq!["remove"@, "deletionVector"@, "pathOrInlineDv"@], string_type()),
            (seq!["remove"@, "deletionVector"@, "offset"@], integer_type()),
        ]
    } else {
        adds
    }
}

fn deletion_vector_column(action: &str, name: &str) -> (column: ColumnName)
    ensures
        column@ == seq![action@, "deletionVector"@, name@],
{
    let column = ColumnName::nested(action, "deletionVector").join(&ColumnName::top(name));
    assert(column@ =~= seq![action@, "deletionVector"@, name@]);
    column
}

/// The names and types of the columns that reconciling reads.
pub fn selected_column_names_and_types(log_batch: bool) -> (r: (Vec<ColumnName>, Vec<DataType>))
    ensures
        r.0@.len() == visited_columns(log_batch).len(),
        r.1@.len() == visited_columns(log_batch).len(),
        forall|i: int|
            0 <= i < r.0@.len() ==> (#[trigger] r.0@[i])@ == visited_columns(log_batch)[i].0,
        forall|i: int|
            0 <= i < r.1@.len() ==> (#[trigger] r.1@[i])@ == visited_columns(log_batch)[i].1,
{
    // NOTE: The visitor assumes a schema with adds first and removes optionally afterward.
    let mut names: Vec<ColumnName> = vec![
        ColumnName::nested("add", "path"),
        ColumnName::nested("add", "partitionValues"),
        ColumnName::nested("add", "size"),
        deletion_vector_column("add", "storageType"),
        deletion_vector_column("add", "pathOrInlineDv"),
        deletion_vector_column("add", "offset"),
        ColumnName::nested("add", "baseRowId"),
    ];
    let mut types: Vec<DataType> = vec![
        DataType::Primitive(PrimitiveType::String),
        string_map(),
        DataType::Primitive(PrimitiveType::Long),
        DataType::Primitive(PrimitiveType::String),
        DataType::Primitive(PrimitiveType::String),
        DataType::Primitive(PrimitiveType::Integer),
        DataType::Primitive(PrimitiveType::Long),
    ];
    if log_batch {
        names.push(ColumnName::nested("remove", "path"));
        names.push(deletion_vector_column("remove", "storageType"));
        names.push(deletion_vector_column("remove", "pathOrInlineDv"));
        names.push(deletion_vector_column("remove", "offset"));
        types.push(DataType::Primitive(PrimitiveType::String));
        types.push(DataType::Primitive(PrimitiveType::String));
        types.push(DataType::Primitive(PrimitiveType::String));
        types.push(DataType::Primitive(PrimitiveType::Integer));
    }
    (names, types)
}

/// Adds empty entries until there is one for every row before `row`.
fn pad_to(exprs: &mut Vec<Option<ExpressionRef>>, row: usize)
    ensures
        opt_exprs_view(final(exprs)@) == padded(opt_exprs_view(old(exprs)@), row as int),
{
    let ghost before = exprs@;
    while exprs.len() < row
        invariant
            exprs@.len() >= before.len(),
            exprs@.len() <= row || exprs@.len() == before.len(),
            forall|j: int| 0 <= j < before.len() ==> #[trigger] exprs@[j] == before[j],
            forall|j: int| before.len() <= j < exprs@.len() ==> (#[trigger] exprs@[j]) is None,
        decreases row - exprs@.len(),
    {
        exprs.push(None);
    }
    assert(opt_exprs_view(exprs@) =~= padded(opt_exprs_view(before), row as int));
}

/// What is said when the engine delivers another number of columns.
pub open spec fn wrong_getters(n: nat) -> ErrorV {
    ErrorV::InternalError("Wrong number of AddRemoveDedupVisitor getters: "@ + decimal(n))
}

/// A visitor that deduplicates a stream of add and remove actions into a stream of valid adds. Log
/// replay visits actions newest-first, so once a file action for a given (path, dvId) pair was
/// seen, all subsequent (older) actions for that same (path, dvId) pair are ignored. If the first
/// action for a given file is a remove, then that file does not show up in the result at all.
pub struct AddRemoveDedupVisitor<D: Deduplicator> {
    pub deduplicator: D,
    pub selection_vector: Vec<bool>,
    pub row_transform_exprs: Vec<Option<ExpressionRef>>,
    pub active_add_file_sizes: Vec<u64>,
}

impl<D: Deduplicator> AddRemoveDedupVisitor<D> {
    /// The state of the visit.
    pub open spec fn state(self, metrics: ScanMetrics, error: Option<ErrorV>) -> VisitV {
        VisitV {
            seen: self.deduplicator.seen(),
            selection: self.selection_vector@,
            transforms: opt_exprs_view(self.row_transform_exprs@),
            sizes: self.active_add_file_sizes@,
            metrics,
            error,
        }
    }

    pub open spec fn wf(self) -> bool {
        self.deduplicator.wf() && self.active_add_file_sizes@.len() == self.selection_vector@.len()
    }

    /// Starts a visit of the selected rows.
    pub fn new(deduplicator: D, selection_vector: Vec<bool>) -> (visitor: Self)
        requires
            deduplicator.wf(),
        ensures
            visitor.wf(),
            visitor.deduplicator == deduplicator,
            visitor.selection_vector@ == selection_vector@,
            visitor.row_transform_exprs@.len() == 0,
            visitor.active_add_file_sizes@ == Seq::new(selection_vector@.len(), |i: int| 0u64),
    {
        let mut active_add_file_sizes: Vec<u64> = Vec::new();
        for i in 0..selection_vector.len()
            invariant
                active_add_file_sizes@.len() == i,
                forall|j: int| 0 <= j < i ==> #[trigger] active_add_file_sizes@[j] == 0,
        {
            active_add_file_sizes.push(0);
        }
        assert(active_add_file_sizes@ =~= Seq::new(selection_vector@.len(), |i: int| 0u64));
        AddRemoveDedupVisitor {
            deduplicator,
            selection_vector,
            row_transform_exprs: Vec::new(),
            active_add_file_sizes,
        }
    }

    /// Whether the file that a row adds is kept by its partition values.
    fn kept_by_partition<P: ScalarParser>(
        row: usize,
        columns: &Vec<Column>,
        state_info: &StateInfo,
        parser: &P,
    ) -> (kept: bool)
        requires
            columns@.len() >= 7,
        ensures
            kept == state_info.row_kept(parser, columns@, row as int),
    {
        match columns[ADD_PARTITION_VALUES_INDEX].get_pairs(row, "add.partitionValues") {
            Ok(pairs) => partition_row_kept(parser, state_info, pairs),
            Err(_) => true,
        }
    }

    /// True if this row contains an Add action that should survive log replay. Skip it if the row
    /// is not an Add action, the file has already been seen previously, or its partition values
    /// rule it out.
    fn is_valid_add<P: ScalarParser>(
        &mut self,
        row: usize,
        columns: &Vec<Column>,
        state_info: &StateInfo,
        parser: &P,
        metrics: &mut ScanMetrics,
    ) -> (valid: DeltaResult<bool>)
        requires
            old(self).wf(),
            row < old(self).selection_vector@.len(),
            old(self).row_transform_exprs@.len() <= row,
            columns@.len() >= 7,
            old(self).deduplicator.log_batch() ==> columns@.len() >= 11,
        ensures
            final(self).wf(),
            final(self).selection_vector == old(self).selection_vector,
            final(self).deduplicator.log_batch() == old(self).deduplicator.log_batch(),
            final(self).row_transform_exprs@.len() <= row + 1,
            ({
                let after = old(self).state(*old(metrics), None).after_selected_row(
                    state_info,
                    parser,
                    columns@,
                    old(self).deduplicator.log_batch(),
                    row as int,
                );
                match valid {
                    Ok(selected) => final(self).state(*final(metrics), None).with_selection(
                        row as int,
                        selected,
                    ) == after && after.error is None,
                    Err(e) => final(self).state(*final(metrics), Some(e@)) == after,
                }
            }),
    {
        let ghost start = self.state(*metrics, None);
        let ghost log_batch = self.deduplicator.log_batch();
        // For Add actions, path is at index 0, size at 2, then followed by DV fields at indexes
        // 3-5. For Remove actions (in log batches only), path is at index 7, followed by DV fields
        // at indexes 8-10. Remove columns are not read from a checkpoint batch, so Removes are
        // skipped there.
        let skip_removes = !self.deduplicator.is_log_batch();
        let action = match extract_file_action(row, columns, skip_removes) {
            Ok(Some(action)) => action,
            Ok(None) => {
                metrics.incr_non_file_actions();
                return Ok(false);
            },
            Err(e) => return Err(e),
        };
        let ghost act = action@;
        if action.is_add {
            metrics.incr_add_files_seen();
        } else {
            metrics.incr_remove_files_seen();
        }
        let (is_add, size) = (action.is_add, action.size);
        // Check both adds and removes (skipping already-seen), but only transform and return adds
        let seen = self.deduplicator.check_and_record_seen(action.key);
        assert(self.state(*metrics, None) == start.with_action(act, log_batch));
        if seen || !is_add {
            return Ok(false);
        }
        // Files that the columnar data skipping phase could not drop may still be ruled out by
        // their partition values. This is only needed for survived adds: a Remove is never pruned.
        if !Self::kept_by_partition(row, columns, state_info, parser) {
            return Ok(false);
        }
        if !state_info.skip_row_transforms {
            match &state_info.transform_spec {
                None => {
                    match columns[BASE_ROW_ID_INDEX].get_opt_long(row, "add.baseRowId") {
                        Ok(_) => {},
                        Err(e) => return Err(e),
                    }
                },
                Some(transform_spec) => {
                    let pairs = match columns[ADD_PARTITION_VALUES_INDEX].get_pairs(
                        row,
                        "add.partitionValues",
                    ) {
                        Ok(pairs) => pairs,
                        Err(e) => return Err(e),
                    };
                    let partition_values = match parse_partition_values(
                        parser,
                        &state_info.logical_schema,
                        transform_spec,
                        pairs,
                        state_info.column_mapping_mode,
                    ) {
                        Ok(values) => values,
                        Err(e) => return Err(e),
                    };
                    let base_row_id = match columns[BASE_ROW_ID_INDEX].get_opt_long(
                        row,
                        "add.baseRowId",
                    ) {
                        Ok(base_row_id) => base_row_id,
                        Err(e) => return Err(e),
                    };
                    let transform = match get_transform_expr(
                        transform_spec,
                        partition_values,
                        base_row_id,
                    ) {
                        Ok(transform) => transform,
                        Err(e) => return Err(e),
                    };
                    // fill in any needed `None`s for previous rows
                    let ghost before = self.row_transform_exprs@;
                    pad_to(&mut self.row_transform_exprs, row);
                    self.row_transform_exprs.push(Some(transform));
                    assert(opt_exprs_view(self.row_transform_exprs@) =~= padded(
                        opt_exprs_view(before),
                        row as int,
                    ).push(Some(transform@)));
                },
            }
        }
        self.active_add_file_sizes.set(row, size);
        Ok(true)
    }
}

/// Checkpoint batches leave the files seen as they are.
pub proof fn checkpoints_record_nothing<P: ScalarParser>(
    start: VisitV,
    state_info: &StateInfo,
    parser: &P,
    columns: Seq<Column>,
    n: nat,
)
    ensures
        start.after_rows(state_info, parser, columns, false, n).seen == start.seen,
    decreases n,
{
    if n > 0 {
        checkpoints_record_nothing(start, state_info, parser, columns, (n - 1) as nat);
    }
}

/// An error stops the visit.
proof fn lemma_visit_stops<P: ScalarParser>(
    start: VisitV,
    state_info: &StateInfo,
    parser: &P,
    columns: Seq<Column>,
    log_batch: bool,
    n: nat,
    m: nat,
)
    requires
        n <= m,
        start.after_rows(state_info, parser, columns, log_batch, n).error is Some,
    ensures
        start.after_rows(state_info, parser, columns, log_batch, m) == start.after_rows(
            state_info,
            parser,
            columns,
            log_batch,
            n,
        ),
    decreases m,
{
    if n < m {
        lemma_visit_stops(start, state_info, parser, columns, log_batch, n, (m - 1) as nat);
    }
}

impl<D: Deduplicator> AddRemoveDedupVisitor<D> {
    /// Visits the selected rows of a batch, and keeps only those selected that hold an Add which
    /// survives log replay.
    pub fn visit<P: ScalarParser>(
        &mut self,
        row_count: usize,
        columns: &Vec<Column>,
        state_info: &StateInfo,
        parser: &P,
        metrics: &mut ScanMetrics,
    ) -> (r: DeltaResult<()>)
        requires
            old(self).wf(),
            row_count <= old(self).selection_vector@.len(),
            old(self).row_transform_exprs@.len() == 0,
        ensures
            final(self).wf(),
            final(self).deduplicator.log_batch() == old(self).deduplicator.log_batch(),
            final(self).selection_vector@.len() == old(self).selection_vector@.len(),
            ({
                let log_batch = old(self).deduplicator.log_batch();
                let start = old(self).state(*old(metrics), None);
                let after = start.after_rows(
                    state_info,
                    parser,
                    columns@,
                    log_batch,
                    row_count as nat,
                );
                if columns@.len() != visited_columns(log_batch).len() {
                    r is Err && r->Err_0@ == wrong_getters(columns@.len()) && final(self).state(
                        *final(metrics),
                        None,
                    ) == start
                } else {
                    match r {
                        Ok(_) => after.error is None && final(self).state(after.metrics, None)
                            == after && final(metrics).same_counts(after.metrics),
                        Err(e) => after.error == Some(e@) && final(self).state(
                            *final(metrics),
                            Some(e@),
                        ) == after,
                    }
                }
            }),
    {
        let start_time = Instant::now();
        let ghost start = self.state(*metrics, None);
        let is_log_batch = self.deduplicator.is_log_batch();
        let expected_getters: usize = if is_log_batch {
            11
        } else {
            7
        };
        if columns.len() != expected_getters {
            let count = decimal_text(columns.len() as u64);
            return Err(
                Error::InternalError(
                    "Wrong number of AddRemoveDedupVisitor getters: ".to_string().concat(
                        count.as_str(),
                    ),
                ),
            );
        }
        for row in 0..row_count
            invariant
                start == old(self).state(*old(metrics), None),
                is_log_batch == old(self).deduplicator.log_batch(),
                self.deduplicator.log_batch() == is_log_batch,
                self.wf(),
                row_count <= self.selection_vector@.len(),
                self.selection_vector@.len() == old(self).selection_vector@.len(),
                self.row_transform_exprs@.len() <= row,
                columns@.len() == visited_columns(is_log_batch).len(),
                self.state(*metrics, None) == start.after_rows(
                    state_info,
                    parser,
                    columns@,
                    is_log_batch,
                    row as nat,
                ),
        {
            if self.selection_vector[row] {
                let ghost before = self.state(*metrics, None);
                match self.is_valid_add(row, columns, state_info, parser, metrics) {
                    Ok(selected) => {
                        self.selection_vector.set(row, selected);
                        assert(self.state(*metrics, None) == before.after_selected_row(
                            state_info,
                            parser,
                            columns@,
                            is_log_batch,
                            row as int,
                        ));
                    },
                    Err(e) => {
                        proof {
                            lemma_visit_stops(
                                start,
                                state_info,
                                parser,
                                columns@,
                                is_log_batch,
                                (row + 1) as nat,
                                row_count as nat,
                            );
                        }
                        return Err(e);
                    },
                }
            }
        }
        metrics.add_dedup_visitor_time_ns(nanos_since(&start_time));
        Ok(())
    }
}

} // verus!
