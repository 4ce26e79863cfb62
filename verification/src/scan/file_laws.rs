//! How rows of the log tell files apart.

use vstd::prelude::*;

use super::dedup_laws::{
    mentions, survives, visit_selects_surviving_adds, visited_actions,
};
use super::dedup_visitor::VisitV;
use super::partition_value_laws::signed_decimal_reads_back;
use super::partition_values::ScalarParser;
use super::state_info::StateInfo;
use crate::engine::Column;
use crate::error::ErrorV;
use crate::log_replay::{action_at, dv_at, dv_unique_id, ActionV, KeyV};
use crate::text::signed_decimal;

verus! {

/// A deletion vector as the log describes it.
pub struct VectorV {
    pub storage_type: Seq<char>,
    pub path: Seq<char>,
    pub offset: Option<i32>,
}

impl VectorV {
    /// Whether the protocol allows it: it is stored inline (`i`), then without an offset, or in a
    /// file that is named relative to the table (`u`) or absolutely (`p`). An `@` in the path of a
    /// vector in a file comes with an offset.
    pub open spec fn allowed(self) -> bool {
        ||| self.storage_type == seq!['i'] && self.offset is None
        ||| (self.storage_type == seq!['u'] || self.storage_type == seq!['p']) && (self.offset
            is Some || !self.path.contains('@'))
    }
}

/// The text in a cell of a column; `None` for NULL.
pub open spec fn text_cell(column: Column, row: int) -> Option<Seq<char>> {
    match column {
        Column::Strings(v) => if 0 <= row < v@.len() {
            match v@[row] {
                Some(s) => Some(s@),
                None => None,
            }
        } else {
            None
        },
        _ => None,
    }
}

/// Whether the three columns from `start` on hold the deletion vector at a row.
pub open spec fn holds_vector(
    columns: Seq<Column>,
    start: int,
    row: int,
    vector: Option<VectorV>,
) -> bool {
    &&& columns[start] is Strings
    &&& columns[start + 1] is Strings
    &&& columns[start + 2] is Integers
    &&& match vector {
        None => text_cell(columns[start], row) is None,
        Some(v) => {
            &&& v.allowed()
            &&& text_cell(columns[start], row) == Some(v.storage_type)
            &&& text_cell(columns[start + 1], row) == Some(v.path)
            &&& match columns[start + 2] {
                Column::Integers(offsets) => if 0 <= row < offsets@.len() {
                    v.offset == offsets@[row]
                } else {
                    v.offset is None
                },
                _ => false,
            }
        },
    }
}

/// A row that adds or removes a file. A logical file is a path with a deletion vector, or without.
pub struct FileRowV {
    pub is_add: bool,
    pub path: Seq<char>,
    pub vector: Option<VectorV>,
    /// The size that an Add records.
    pub size: i64,
}

impl FileRowV {
    /// Whether two rows are about the same logical file.
    pub open spec fn same_file(self, other: FileRowV) -> bool {
        self.path == other.path && self.vector == other.vector
    }
}

/// Whether the columns of a commit hold this row: `add.path`, `add.size` and the Add's vector, or
/// `remove.path` and the Remove's vector; neither path for any other row.
pub open spec fn holds_row(columns: Seq<Column>, row: int, file: Option<FileRowV>) -> bool {
    &&& columns.len() == 11
    &&& columns[0] is Strings
    &&& columns[7] is Strings
    &&& match file {
        None => text_cell(columns[0], row) is None && text_cell(columns[7], row) is None,
        Some(f) => if f.is_add {
            &&& text_cell(columns[0], row) == Some(f.path)
            &&& holds_vector(columns, 3, row, f.vector)
            &&& columns[2] matches Column::Longs(sizes) && 0 <= row < sizes@.len() && sizes@[row]
                == Some(f.size)
        } else {
            &&& text_cell(columns[0], row) is None
            &&& text_cell(columns[7], row) == Some(f.path)
            &&& holds_vector(columns, 8, row, f.vector)
        },
    }
}

/// The ids of deletion vectors tell them apart.
pub proof fn vector_ids_are_unique(v: VectorV, w: VectorV)
    requires
        v.allowed(),
        w.allowed(),
        dv_unique_id(v.storage_type, v.path, v.offset) == dv_unique_id(
            w.storage_type,
            w.path,
            w.offset,
        ),
    ensures
        v == w,
{
    reveal_strlit("@");
    let a = dv_unique_id(v.storage_type, v.path, v.offset);
    let b = dv_unique_id(w.storage_type, w.path, w.offset);
    assert(a[0] == v.storage_type[0]);
    assert(b[0] == w.storage_type[0]);
    assert(v.storage_type =~= w.storage_type);
    match (v.offset, w.offset) {
        (None, None) => {
            assert(a.skip(1) =~= v.path);
            assert(b.skip(1) =~= w.path);
        },
        (Some(m), Some(n)) => {
            let (d, e) = (signed_decimal(m as int), signed_decimal(n as int));
            assert(a.skip(1) =~= v.path + "@"@ + d);
            assert(b.skip(1) =~= w.path + "@"@ + e);
            lemma_split_at_last(v.path, d, w.path, e, a.skip(1));
            signed_decimal_reads_back(m as int);
            signed_decimal_reads_back(n as int);
        },
        (None, Some(n)) => {
            assert(a.skip(1) =~= v.path);
            assert(b[(1 + w.path.len()) as int] == '@');
            assert(v.path[w.path.len() as int] == '@');
        },
        (Some(m), None) => {
            assert(b.skip(1) =~= w.path);
            assert(a[(1 + v.path.len()) as int] == '@');
            assert(w.path[v.path.len() as int] == '@');
        },
    }
}

proof fn lemma_split_at_last(
    p: Seq<char>,
    d: Seq<char>,
    q: Seq<char>,
    e: Seq<char>,
    whole: Seq<char>,
)
    requires
        whole == p + "@"@ + d,
        whole == q + "@"@ + e,
        exists|m: int| d == signed_decimal(m),
        exists|n: int| e == signed_decimal(n),
    ensures
        p == q,
        d == e,
{
    reveal_strlit("@");
    let m = choose|m: int| d == signed_decimal(m);
    let n = choose|n: int| e == signed_decimal(n);
    signed_decimal_reads_back(m);
    signed_decimal_reads_back(n);
    assert("@"@.len() == 1);
    assert((p + "@"@).len() == p.len() + 1);
    assert((q + "@"@).len() == q.len() + 1);
    assert(whole.len() == p.len() + 1 + d.len());
    assert(whole.len() == q.len() + 1 + e.len());
    assert((p + "@"@ + d)[p.len() as int] == '@');
    assert((q + "@"@ + e)[q.len() as int] == '@');
    if p.len() < q.len() {
        assert((p + "@"@ + d)[q.len() as int] == d[q.len() - p.len() - 1]);
    }
    if q.len() < p.len() {
        assert((q + "@"@ + e)[p.len() as int] == e[p.len() - q.len() - 1]);
    }
    assert(p =~= whole.take(p.len() as int));
    assert(q =~= whole.take(q.len() as int));
    assert(d =~= whole.skip((p.len() + 1) as int));
    assert(e =~= whole.skip((q.len() + 1) as int));
}

/// A row of a commit is read as what it holds: an Add with its size, a Remove, or neither. A
/// negative size counts as zero.
pub proof fn rows_are_read_as_they_are(columns: Seq<Column>, row: int, file: Option<FileRowV>)
    requires
        0 <= row,
        holds_row(columns, row, file),
    ensures
        match file {
            None => action_at(columns, row, false) == Ok::<Option<ActionV>, ErrorV>(None),
            Some(f) => action_at(columns, row, false) matches Ok(Some(action)) && action.is_add
                == f.is_add && action.key.0 == f.path && (f.is_add ==> action.size == (if f.size
                >= 0 {
                f.size as int
            } else {
                0
            })),
        },
{
    if let Some(f) = file {
        let start = if f.is_add {
            3int
        } else {
            8
        };
        lemma_dv_at(columns, start, row, f.vector);
    }
}

proof fn lemma_dv_at(columns: Seq<Column>, start: int, row: int, vector: Option<VectorV>)
    requires
        0 <= row,
        holds_vector(columns, start, row, vector),
    ensures
        dv_at(columns, start, row) == Ok::<_, ErrorV>(
            match vector {
                None => None,
                Some(v) => Some(dv_unique_id(v.storage_type, v.path, v.offset)),
            },
        ),
{
}

/// Checkpoints are read for their Adds alone, and an Add is read from a checkpoint as from a commit.
pub proof fn checkpoints_are_read_for_adds(
    columns: Seq<Column>,
    removes: Seq<Column>,
    row: int,
)
    requires
        0 <= row,
        columns.len() == 7,
        columns[0] is Strings,
    ensures
        text_cell(columns[0], row) is None ==> action_at(columns, row, true) == Ok::<
            Option<ActionV>,
            ErrorV,
        >(None),
        text_cell(columns[0], row) is Some ==> action_at(columns, row, true) == action_at(
            columns + removes,
            row,
            false,
        ),
{
    let all = columns + removes;
    assert forall|i: int| 0 <= i < 7 implies #[trigger] all[i] == columns[i] by {}
}

/// An Add without a size is refused, and so is a deletion vector without a path.
pub proof fn incomplete_rows_are_refused(columns: Seq<Column>, row: int, skip_removes: bool)
    requires
        0 <= row,
        columns.len() >= 7,
        columns[0] is Strings,
        text_cell(columns[0], row) is Some,
        columns[2] is Longs,
        columns[3] is Strings,
        columns[4] is Strings,
        columns[5] is Integers,
    ensures
        row >= columns[2]->Longs_0@.len() || columns[2]->Longs_0@[row] is None ==> action_at(
            columns,
            row,
            skip_removes,
        ) is Err,
        text_cell(columns[3], row) is Some && text_cell(columns[4], row) is None ==> action_at(
            columns,
            row,
            skip_removes,
        ) is Err,
{
}

/// Keys tell logical files apart: two rows have the same key if and only if they have the same path
/// and both no deletion vector, or both one of the same storage type, path and offset.
pub proof fn keys_tell_logical_files_apart(
    a: Seq<Column>,
    i: int,
    f: FileRowV,
    b: Seq<Column>,
    j: int,
    g: FileRowV,
)
    requires
        0 <= i,
        0 <= j,
        holds_row(a, i, Some(f)),
        holds_row(b, j, Some(g)),
    ensures
        action_at(a, i, false) matches Ok(Some(x)) && action_at(b, j, false) matches Ok(Some(y)) && (
        x.key == y.key <==> f.same_file(g)),
{
    rows_are_read_as_they_are(a, i, Some(f));
    rows_are_read_as_they_are(b, j, Some(g));
    lemma_dv_at(
        a,
        if f.is_add {
            3
        } else {
            8
        },
        i,
        f.vector,
    );
    lemma_dv_at(
        b,
        if g.is_add {
            3
        } else {
            8
        },
        j,
        g.vector,
    );
    if let (Some(v), Some(w)) = (f.vector, g.vector) {
        if dv_unique_id(v.storage_type, v.path, v.offset) == dv_unique_id(
            w.storage_type,
            w.path,
            w.offset,
        ) {
            vector_ids_are_unique(v, w);
        }
    }
}

/// A commit selects its newest Adds: a row is selected if and only if it adds a logical file that
/// no row before it is about, and its partition values keep it. So an Add of a file with a new
/// deletion vector survives the Remove of the same path with another vector, or with none.
pub proof fn commits_select_first_adds<P: ScalarParser>(
    start: VisitV,
    state_info: &StateInfo,
    parser: &P,
    columns: Seq<Column>,
    files: Seq<Option<FileRowV>>,
    i: int,
)
    requires
        start.seen == Set::<KeyV>::empty(),
        start.error is None,
        start.selection == Seq::new(files.len(), |r: int| true),
        start.after_rows(state_info, parser, columns, true, files.len()).error is None,
        forall|r: int| 0 <= r < files.len() ==> holds_row(columns, r, #[trigger] files[r]),
        0 <= i < files.len(),
    ensures
        start.after_rows(state_info, parser, columns, true, files.len()).selection[i] <==> (files[i]
            matches Some(f) && f.is_add && (forall|j: int|
            0 <= j < i && (#[trigger] files[j]) is Some ==> !files[j]->0.same_file(f))
            && state_info.row_kept(parser, columns, i)),
{
    let n = files.len();
    visit_selects_surviving_adds(start, state_info, parser, columns, true, n);
    let actions = visited_actions(columns, start.selection, true, n);
    assert forall|r: int| 0 <= r < n implies match #[trigger] files[r] {
        None => actions[r] is None,
        Some(f) => actions[r] is Some && actions[r]->0.is_add == f.is_add,
    } by {
        rows_are_read_as_they_are(columns, r, files[r]);
        assert(actions[r] == action_at(columns, r, false)->Ok_0);
    }
    if let Some(f) = files[i] {
        let key = actions[i]->0.key;
        assert forall|j: int| 0 <= j < i && (#[trigger] files[j]) is Some implies (
        actions[j]->0.key == key) == files[j]->0.same_file(f) by {
            keys_tell_logical_files_apart(columns, j, files[j]->0, columns, i, f);
            assert(actions[j] == action_at(columns, j, false)->Ok_0);
            assert(actions[i] == action_at(columns, i, false)->Ok_0);
        }
        if mentions(actions, key, i) {
            let j = choose|j: int|
                0 <= j < i && j < actions.len() && (#[trigger] actions[j]) is Some
                    && actions[j]->0.key == key;
            assert(files[j] is Some);
        }
        if exists|j: int| 0 <= j < i && (#[trigger] files[j]) is Some && files[j]->0.same_file(f) {
            let j = choose|j: int|
                0 <= j < i && (#[trigger] files[j]) is Some && files[j]->0.same_file(f);
            assert(actions[j] is Some && actions[j]->0.key == key);
            assert(mentions(actions, key, i));
        }
        assert(survives(start.seen, actions, true, i) == (f.is_add && !mentions(actions, key, i)));
    }
}

} // verus!
