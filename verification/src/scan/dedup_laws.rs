//! What reconciling file actions guarantees.

use vstd::prelude::*;

use super::dedup_visitor::VisitV;
use super::partition_values::ScalarParser;
use super::state_info::StateInfo;
use crate::engine::Column;
use crate::log_replay::{action_at, ActionV, KeyV};

verus! {

/// The file action of each of the first `n` rows that is visited: selected to begin with, and
/// readable.
pub open spec fn visited_actions(
    columns: Seq<Column>,
    selection: Seq<bool>,
    log_batch: bool,
    n: nat,
) -> Seq<Option<ActionV>> {
    Seq::new(
        n,
        |r: int|
            if selection[r] {
                match action_at(columns, r, !log_batch) {
                    Ok(action) => action,
                    Err(_) => None,
                }
            } else {
                None
            },
    )
}

/// Whether one of the first `n` actions is about the file `key`.
pub open spec fn mentions(actions: Seq<Option<ActionV>>, key: KeyV, n: int) -> bool {
    exists|i: int|
        0 <= i < n && i < actions.len() && (#[trigger] actions[i]) is Some && actions[i]->0.key
            == key
}

/// Whether the action at `i` is an Add that survives: of a file that was neither seen before nor,
/// in a commit, mentioned by an earlier action.
pub open spec fn survives(
    seen: Set<KeyV>,
    actions: Seq<Option<ActionV>>,
    log_batch: bool,
    i: int,
) -> bool {
    actions[i] matches Some(action) && action.is_add && !seen.contains(action.key) && !(log_batch
        && mentions(actions, action.key, i))
}

/// The files seen after the first `n` actions of a batch.
pub open spec fn seen_after(
    seen: Set<KeyV>,
    actions: Seq<Option<ActionV>>,
    log_batch: bool,
    n: int,
) -> Set<KeyV> {
    if log_batch {
        Set::new(|key: KeyV| seen.contains(key) || mentions(actions, key, n))
    } else {
        seen
    }
}

/// Reconciling a batch selects exactly the surviving Adds that their partition values do not rule
/// out: a row stays selected if and only if it was selected, holds an Add, its file was neither
/// seen in newer batches nor, in a commit, mentioned by an earlier row, and the file is kept. The
/// files seen are those seen before and, in a commit, those of the visited rows. So a Remove hides
/// every older Add of its file, and no file is added twice.
pub proof fn visit_selects_surviving_adds<P: ScalarParser>(
    start: VisitV,
    state_info: &StateInfo,
    parser: &P,
    columns: Seq<Column>,
    log_batch: bool,
    n: nat,
)
    requires
        n <= start.selection.len(),
        start.error is None,
        start.after_rows(state_info, parser, columns, log_batch, n).error is None,
    ensures
        ({
            let after = start.after_rows(state_info, parser, columns, log_batch, n);
            let actions = visited_actions(columns, start.selection, log_batch, n);
            &&& after.selection.len() == start.selection.len()
            &&& after.seen == seen_after(start.seen, actions, log_batch, n as int)
            &&& forall|r: int|
                0 <= r < n ==> #[trigger] after.selection[r] == (survives(
                    start.seen,
                    actions,
                    log_batch,
                    r,
                ) && state_info.row_kept(parser, columns, r))
            &&& forall|r: int|
                n <= r < start.selection.len() ==> #[trigger] after.selection[r]
                    == start.selection[r]
        }),
    decreases n,
{
    let after = start.after_rows(state_info, parser, columns, log_batch, n);
    let actions = visited_actions(columns, start.selection, log_batch, n);
    if n == 0 {
        assert(after.seen =~= seen_after(start.seen, actions, log_batch, 0));
        return ;
    }
    let m = (n - 1) as nat;
    let before = start.after_rows(state_info, parser, columns, log_batch, m);
    let older = visited_actions(columns, start.selection, log_batch, m);
    visit_selects_surviving_adds(start, state_info, parser, columns, log_batch, m);
    assert(before.selection[m as int] == start.selection[m as int]);
    assert forall|i: int| 0 <= i < m implies #[trigger] older[i] == actions[i] by {}
    assert forall|key: KeyV, i: int| 0 <= i <= m implies #[trigger] mentions(older, key, i)
        == mentions(actions, key, i) by {
        if mentions(older, key, i) {
            let j = choose|j: int|
                0 <= j < i && j < older.len() && (#[trigger] older[j]) is Some && older[j]->0.key
                    == key;
            assert(actions[j] is Some && actions[j]->0.key == key);
        }
        if mentions(actions, key, i) {
            let j = choose|j: int|
                0 <= j < i && j < actions.len() && (#[trigger] actions[j]) is Some
                    && actions[j]->0.key == key;
            assert(older[j] is Some && older[j]->0.key == key);
        }
    }
    assert forall|key: KeyV| #[trigger] seen_after(start.seen, actions, log_batch, n as int).contains(
        key,
    ) == (seen_after(start.seen, older, log_batch, m as int).contains(key) || (log_batch
        && actions[m as int] is Some && actions[m as int]->0.key == key)) by {
        if log_batch {
            if mentions(actions, key, n as int) && !mentions(actions, key, m as int) {
                let j = choose|j: int|
                    0 <= j < n && j < actions.len() && (#[trigger] actions[j]) is Some
                        && actions[j]->0.key == key;
                assert(j == m);
            }
            if mentions(actions, key, m as int) {
                let j = choose|j: int|
                    0 <= j < m && j < actions.len() && (#[trigger] actions[j]) is Some
                        && actions[j]->0.key == key;
                assert(actions[j] is Some);
                assert(mentions(actions, key, n as int));
            }
            if actions[m as int] is Some && actions[m as int]->0.key == key {
                assert(mentions(actions, key, n as int));
            }
        }
    }
    assert(after.seen =~= seen_after(start.seen, actions, log_batch, n as int));
    assert forall|r: int| 0 <= r < n implies #[trigger] after.selection[r] == (survives(
        start.seen,
        actions,
        log_batch,
        r,
    ) && state_info.row_kept(parser, columns, r)) by {
        if r < m {
            assert(before.selection[r] == (survives(start.seen, older, log_batch, r)
                && state_info.row_kept(parser, columns, r)));
            assert(older[r] == actions[r]);
            if let Some(action) = actions[r] {
                assert(mentions(older, action.key, r) == mentions(actions, action.key, r));
            }
        } else {
            if let Some(action) = actions[r] {
                assert(mentions(older, action.key, m as int) == mentions(
                    actions,
                    action.key,
                    m as int,
                ));
            }
        }
    }
}

/// No file survives twice in a commit.
pub proof fn survivors_are_distinct(seen: Set<KeyV>, actions: Seq<Option<ActionV>>, i: int, j: int)
    requires
        0 <= i < actions.len(),
        0 <= j < actions.len(),
        i != j,
        survives(seen, actions, true, i),
        survives(seen, actions, true, j),
    ensures
        actions[i]->0.key != actions[j]->0.key,
{
    if actions[i]->0.key == actions[j]->0.key {
        if i < j {
            assert(mentions(actions, actions[j]->0.key, j));
        } else {
            assert(mentions(actions, actions[i]->0.key, i));
        }
    }
}

/// How commits are cut into batches does not matter: reconciling two batches one after the other
/// selects the same actions, and sees the same files, as reconciling them as one.
pub proof fn batching_does_not_matter(
    seen: Set<KeyV>,
    newer: Seq<Option<ActionV>>,
    older: Seq<Option<ActionV>>,
)
    ensures
        ({
            let seen_between = seen_after(seen, newer, true, newer.len() as int);
            let all = newer + older;
            &&& forall|i: int|
                0 <= i < newer.len() ==> #[trigger] survives(seen, all, true, i) == survives(
                    seen,
                    newer,
                    true,
                    i,
                )
            &&& forall|i: int|
                0 <= i < older.len() ==> #[trigger] survives(seen_between, older, true, i)
                    == survives(seen, all, true, newer.len() + i)
            &&& seen_after(seen, all, true, all.len() as int) == seen_after(
                seen_between,
                older,
                true,
                older.len() as int,
            )
        }),
{
    let all = newer + older;
    let k = newer.len() as int;
    let seen_between = seen_after(seen, newer, true, k);
    assert forall|key: KeyV, n: int| 0 <= n <= k implies #[trigger] mentions(newer, key, n)
        == mentions(all, key, n) by {
        if mentions(newer, key, n) {
            let j = choose|j: int|
                0 <= j < n && j < newer.len() && (#[trigger] newer[j]) is Some && newer[j]->0.key
                    == key;
            assert(all[j] is Some && all[j]->0.key == key);
        }
        if mentions(all, key, n) {
            let j = choose|j: int|
                0 <= j < n && j < all.len() && (#[trigger] all[j]) is Some && all[j]->0.key == key;
            assert(newer[j] is Some && newer[j]->0.key == key);
        }
    }
    assert forall|key: KeyV, n: int| 0 <= n <= older.len() implies #[trigger] mentions(
        all,
        key,
        k + n,
    ) == (mentions(newer, key, k) || mentions(older, key, n)) by {
        if mentions(all, key, k + n) {
            let j = choose|j: int|
                0 <= j < k + n && j < all.len() && (#[trigger] all[j]) is Some && all[j]->0.key
                    == key;
            if j < k {
                assert(newer[j] is Some && newer[j]->0.key == key);
            } else {
                assert(older[j - k] is Some && older[j - k]->0.key == key);
            }
        }
        if mentions(newer, key, k) {
            let j = choose|j: int|
                0 <= j < k && j < newer.len() && (#[trigger] newer[j]) is Some && newer[j]->0.key
                    == key;
            assert(all[j] is Some && all[j]->0.key == key);
        }
        if mentions(older, key, n) {
            let j = choose|j: int|
                0 <= j < n && j < older.len() && (#[trigger] older[j]) is Some && older[j]->0.key
                    == key;
            assert(all[k + j] is Some && all[k + j]->0.key == key);
        }
    }
    assert forall|i: int| 0 <= i < newer.len() implies #[trigger] survives(seen, all, true, i)
        == survives(seen, newer, true, i) by {
        assert(all[i] == newer[i]);
        if let Some(action) = newer[i] {
            assert(mentions(newer, action.key, i) == mentions(all, action.key, i));
        }
    }
    assert forall|i: int| 0 <= i < older.len() implies #[trigger] survives(
        seen_between,
        older,
        true,
        i,
    ) == survives(seen, all, true, k + i) by {
        assert(all[k + i] == older[i]);
        if let Some(action) = older[i] {
            assert(mentions(all, action.key, k + i) == (mentions(newer, action.key, k) || mentions(
                older,
                action.key,
                i,
            )));
        }
    }
    assert forall|key: KeyV| #[trigger] seen_after(seen, all, true, all.len() as int).contains(key)
        == seen_after(seen_between, older, true, older.len() as int).contains(key) by {
        assert(mentions(all, key, k + older.len()) == (mentions(newer, key, k) || mentions(
            older,
            key,
            older.len() as int,
        )));
    }
    assert(seen_after(seen, all, true, all.len() as int) =~= seen_after(
        seen_between,
        older,
        true,
        older.len() as int,
    ));
}

/// The live files after a table's history: an Add makes its file live and a Remove ends it. The
/// actions are listed newest first, and act on the files that were live before the oldest.
pub open spec fn live_files(actions: Seq<Option<ActionV>>, base: Set<KeyV>) -> Set<KeyV>
    decreases actions.len(),
{
    if actions.len() == 0 {
        base
    } else {
        let before = live_files(actions.drop_first(), base);
        match actions[0] {
            Some(action) => if action.is_add {
                before.insert(action.key)
            } else {
                before.remove(action.key)
            },
            None => before,
        }
    }
}

/// Log replay finds the live files: those of the surviving Adds of the commits, and those files of
/// the checkpoint that no commit mentions. `base` are the files of the checkpoint.
pub proof fn replay_finds_live_files(actions: Seq<Option<ActionV>>, base: Set<KeyV>, key: KeyV)
    ensures
        live_files(actions, base).contains(key) <==> (exists|i: int|
            0 <= i < actions.len() && #[trigger] survives(Set::empty(), actions, true, i)
                && actions[i]->0.key == key) || (base.contains(key) && !seen_after(
            Set::empty(),
            actions,
            true,
            actions.len() as int,
        ).contains(key)),
    decreases actions.len(),
{
    let none = Set::<KeyV>::empty();
    let n = actions.len() as int;
    if n == 0 {
        return ;
    }
    let rest = actions.drop_first();
    replay_finds_live_files(rest, base, key);
    let about = actions[0] is Some && actions[0]->0.key == key;
    assert forall|m: int| 0 <= m <= rest.len() implies #[trigger] mentions(actions, key, m + 1)
        == (about || mentions(rest, key, m)) by {
        if mentions(actions, key, m + 1) {
            let j = choose|j: int|
                0 <= j < m + 1 && j < actions.len() && (#[trigger] actions[j]) is Some
                    && actions[j]->0.key == key;
            if j > 0 {
                assert(rest[j - 1] == actions[j]);
            }
        }
        if about {
            assert(actions[0] is Some && actions[0]->0.key == key);
        }
        if mentions(rest, key, m) {
            let j = choose|j: int|
                0 <= j < m && j < rest.len() && (#[trigger] rest[j]) is Some && rest[j]->0.key
                    == key;
            assert(actions[j + 1] is Some && actions[j + 1]->0.key == key);
        }
    }
    assert(mentions(actions, key, (n - 1) + 1) == (about || mentions(rest, key, n - 1)));
    let found = exists|i: int|
        0 <= i < n && #[trigger] survives(none, actions, true, i) && actions[i]->0.key == key;
    let found_rest = exists|i: int|
        0 <= i < rest.len() && #[trigger] survives(none, rest, true, i) && rest[i]->0.key == key;
    assert(!mentions(actions, key, 0));
    if about {
        if actions[0]->0.is_add {
            assert(survives(none, actions, true, 0));
        }
        if found && !actions[0]->0.is_add {
            let i = choose|i: int|
                0 <= i < n && #[trigger] survives(none, actions, true, i) && actions[i]->0.key
                    == key;
            assert(i > 0);
            assert(mentions(actions, key, (i - 1) + 1) == (about || mentions(rest, key, i - 1)));
            assert(false);
        }
    } else {
        if found {
            let i = choose|i: int|
                0 <= i < n && #[trigger] survives(none, actions, true, i) && actions[i]->0.key
                    == key;
            assert(i > 0);
            assert(rest[i - 1] == actions[i]);
            assert(mentions(actions, key, (i - 1) + 1) == (about || mentions(rest, key, i - 1)));
            assert(survives(none, rest, true, i - 1));
        }
        if found_rest {
            let i = choose|i: int|
                0 <= i < rest.len() && #[trigger] survives(none, rest, true, i) && rest[i]->0.key
                    == key;
            assert(rest[i] == actions[i + 1]);
            assert(mentions(actions, key, i + 1) == (about || mentions(rest, key, i)));
            assert(survives(none, actions, true, i + 1));
        }
    }
}

/// Live files build on one another: the newer part of a history acts on the files that were live
/// after the older part.
pub proof fn live_files_build_on_older(
    newer: Seq<Option<ActionV>>,
    older: Seq<Option<ActionV>>,
    base: Set<KeyV>,
)
    ensures
        live_files(newer + older, base) == live_files(newer, live_files(older, base)),
    decreases newer.len(),
{
    if newer.len() == 0 {
        assert(newer + older =~= older);
    } else {
        let all = newer + older;
        assert(all.drop_first() =~= newer.drop_first() + older);
        assert(all[0] == newer[0]);
        live_files_build_on_older(newer.drop_first(), older, base);
    }
}

} // verus!
