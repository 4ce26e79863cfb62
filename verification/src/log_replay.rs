//! File actions of the log and telling which of them are still current.

use vstd::hash_map::StringHashMap;
use vstd::prelude::*;

use crate::engine::{required, Column};
use crate::error::{DeltaResult, ErrorV};
use crate::text::{clone_opt_string, opt_string_view, signed_decimal, signed_decimal_text};

verus! {

/// A batch of actions read from the log. Commits are log batches; checkpoints and sidecars are
/// not.
pub struct ActionsBatch<B> {
    pub actions: B,
    pub is_log_batch: bool,
}

impl<B> ActionsBatch<B> {
    /// A batch of actions.
    pub fn new(actions: B, is_log_batch: bool) -> (batch: ActionsBatch<B>)
        ensures
            batch == (ActionsBatch { actions, is_log_batch }),
    {
        ActionsBatch { actions, is_log_batch }
    }
}

/// What identifies a logical file: its path and its deletion vector, if it has one.
#[derive(Debug, PartialEq)]
pub struct FileActionKey {
    pub path: String,
    pub dv_unique_id: Option<String>,
}

/// A [`FileActionKey`] as a mathematical value.
pub type KeyV = (Seq<char>, Option<Seq<char>>);

impl View for FileActionKey {
    type V = KeyV;

    open spec fn view(&self) -> KeyV {
        (self.path@, opt_string_view(self.dv_unique_id))
    }
}

impl Clone for FileActionKey {
    fn clone(&self) -> (copy: FileActionKey)
        ensures
            copy == *self,
    {
        FileActionKey {
            path: self.path.clone(),
            dv_unique_id: clone_opt_string(&self.dv_unique_id),
        }
    }
}

impl FileActionKey {
    /// The key of a file.
    pub fn new(path: String, dv_unique_id: Option<String>) -> (key: FileActionKey)
        ensures
            key@ == (path@, opt_string_view(dv_unique_id)),
    {
        FileActionKey { path, dv_unique_id }
    }

    /// Whether both keys identify the same logical file.
    pub fn same(&self, other: &FileActionKey) -> (same: bool)
        ensures
            same == (self@ == other@),
    {
        let same_dv = match (&self.dv_unique_id, &other.dv_unique_id) {
            (Some(a), Some(b)) => *a == *b,
            (None, None) => true,
            _ => false,
        };
        self.path == other.path && same_dv
    }
}

/// A set of file keys, found by path.
pub struct FileKeySet {
    keys: Vec<FileActionKey>,
    by_path: StringHashMap<Vec<usize>>,
}

impl View for FileKeySet {
    type V = Set<KeyV>;

    closed spec fn view(&self) -> Set<KeyV> {
        keys_view(self.keys@).to_set()
    }
}

/// The views of a list of keys.
pub open spec fn keys_view(keys: Seq<FileActionKey>) -> Seq<KeyV> {
    keys.map_values(|k: FileActionKey| k@)
}

impl FileKeySet {
    /// No key is held twice, and each is found under its path.
    pub closed spec fn wf(&self) -> bool {
        &&& forall|i: int|
            0 <= i < self.keys@.len() ==> self.by_path@.contains_key(
                (#[trigger] self.keys@[i]).path@,
            ) && self.by_path@[self.keys@[i].path@]@.contains(i as usize)
        &&& forall|p: Seq<char>, j: int|
            self.by_path@.contains_key(p) && 0 <= j < self.by_path@[p]@.len() ==> (
            #[trigger] self.by_path@[p]@[j]) < self.keys@.len()
                && self.keys@[self.by_path@[p]@[j] as int].path@ == p
        &&& keys_view(self.keys@).no_duplicates()
    }

    /// The empty set.
    pub fn new() -> (set: FileKeySet)
        ensures
            set.wf(),
            set@ == Set::<KeyV>::empty(),
    {
        let set = FileKeySet { keys: Vec::new(), by_path: StringHashMap::new() };
        assert(set@ =~= Set::<KeyV>::empty());
        set
    }

    /// Whether the set holds `key`.
    pub fn contains(&self, key: &FileActionKey) -> (found: bool)
        requires
            self.wf(),
        ensures
            found == self@.contains(key@),
    {
        match self.by_path.get(key.path.as_str()) {
            None => {
                assert forall|i: int| 0 <= i < self.keys@.len() implies #[trigger] keys_view(
                    self.keys@,
                )[i] != key@ by {
                    assert(self.by_path@.contains_key(self.keys@[i].path@));
                }
                false
            },
            Some(positions) => {
                let count: usize = self.keys.len();
                for j in 0..positions.len()
                    invariant
                        self.wf(),
                        self.by_path@.contains_key(key.path@),
                        *positions == self.by_path@[key.path@],
                        forall|k: int|
                            0 <= k < j ==> self.keys@[(#[trigger] positions@[k]) as int]@ != key@,
                {
                    let i: usize = positions[j];
                    assert(self.by_path@[key.path@]@[j as int] < self.keys@.len());
                    if self.keys[i].same(key) {
                        assert(keys_view(self.keys@)[i as int] == key@);
                        return true;
                    }
                }
                assert forall|i: int| 0 <= i < self.keys@.len() implies #[trigger] keys_view(
                    self.keys@,
                )[i] != key@ by {
                    if self.keys@[i]@ == key@ {
                        assert(self.keys@[i].path@ == key.path@);
                        assert(i < count);
                        assert(positions@.contains(i as usize));
                        let k = choose|k: int|
                            0 <= k < positions@.len() && positions@[k] == i as usize;
                        assert(self.keys@[positions@[k] as int]@ != key@);
                    }
                }
                false
            },
        }
    }

    /// Adds `key`.
    pub fn insert(&mut self, key: FileActionKey)
        requires
            old(self).wf(),
        ensures
            final(self).wf(),
            final(self)@ == old(self)@.insert(key@),
    {
        if self.contains(&key) {
            assert(self@ =~= old(self)@.insert(key@));
            return;
        }
        let position: usize = self.keys.len();
        let mut positions: Vec<usize> = Vec::new();
        if let Some(existing) = self.by_path.get(key.path.as_str()) {
            for j in 0..existing.len()
                invariant
                    positions@ == existing@.take(j as int),
            {
                positions.push(existing[j]);
                assert(positions@ =~= existing@.take(j + 1));
            }
            assert(positions@ =~= existing@);
        }
        let ghost before = positions@;
        positions.push(position);
        self.by_path.insert(key.path.clone(), positions);
        self.keys.push(key);
        proof {
            let old_keys = old(self).keys@;
            assert(self.keys@ == old_keys.push(key));
            assert(positions@[before.len() as int] == position);
            assert forall|i: int| 0 <= i < self.keys@.len() implies self.by_path@.contains_key(
                (#[trigger] self.keys@[i]).path@,
            ) && self.by_path@[self.keys@[i].path@]@.contains(i as usize) by {
                if i < old_keys.len() {
                    assert(self.keys@[i] == old_keys[i]);
                    assert(old(self).by_path@.contains_key(old_keys[i].path@));
                    if old_keys[i].path@ == key.path@ {
                        let k = choose|k: int|
                            0 <= k < before.len() && before[k] == i as usize;
                        assert(positions@[k] == i as usize);
                    }
                }
            }
            assert forall|p: Seq<char>, j: int|
                self.by_path@.contains_key(p) && 0 <= j < self.by_path@[p]@.len() implies (
            #[trigger] self.by_path@[p]@[j]) < self.keys@.len()
                && self.keys@[self.by_path@[p]@[j] as int].path@ == p by {
                if p == key.path@ {
                    if j < before.len() {
                        assert(old(self).by_path@[p]@[j] < old_keys.len());
                    }
                } else {
                    assert(old(self).by_path@[p]@[j] < old_keys.len());
                }
            }
            let views = keys_view(self.keys@);
            let old_views = keys_view(old_keys);
            assert(views =~= old_views.push(key@));
            assert(!old_views.to_set().contains(key@));
            assert forall|i: int, j: int|
                0 <= i < views.len() && 0 <= j < views.len() && i != j implies views[i]
                != views[j] by {
                if i < old_views.len() && j < old_views.len() {
                    assert(old_views[i] != old_views[j]);
                } else if i < old_views.len() {
                    assert(old_views.contains(old_views[i]));
                } else {
                    assert(old_views.contains(old_views[j]));
                }
            }
            assert forall|k: KeyV| #[trigger] old(self)@.insert(key@).contains(
                k,
            ) implies self@.contains(k) by {
                if k == key@ {
                    assert(views[old_views.len() as int] == k);
                } else {
                    let i = choose|i: int| 0 <= i < old_views.len() && old_views[i] == k;
                    assert(views[i] == k);
                }
            }
            assert forall|k: KeyV| #[trigger] self@.contains(k) implies old(self)@.insert(
                key@,
            ).contains(k) by {
                let i = choose|i: int| 0 <= i < views.len() && views[i] == k;
                if i < old_views.len() {
                    assert(old_views[i] == k);
                }
            }
            assert(self@ =~= old(self)@.insert(key@));
        }
    }

    /// The number of keys.
    pub fn len(&self) -> (len: usize)
        requires
            self.wf(),
        ensures
            len == self@.len(),
            self@.finite(),
    {
        proof {
            keys_view(self.keys@).unique_seq_to_set();
        }
        self.keys.len()
    }

    /// The keys, in the order in which they were added.
    pub fn members(&self) -> (members: &Vec<FileActionKey>)
        ensures
            keys_view(members@).to_set() == self@,
    {
        &self.keys
    }

    /// The set of the given keys.
    pub fn from_members(members: Vec<FileActionKey>) -> (set: FileKeySet)
        ensures
            set.wf(),
            set@ == keys_view(members@).to_set(),
    {
        let mut set = FileKeySet::new();
        assert(keys_view(members@).take(0).to_set() =~= Set::<KeyV>::empty());
        for i in 0..members.len()
            invariant
                set.wf(),
                set@ == keys_view(members@).take(i as int).to_set(),
        {
            let ghost views = keys_view(members@);
            set.insert(members[i].clone());
            proof {
                assert(views.take(i + 1) =~= views.take(i as int).push(views[i as int]));
                lemma_push_to_set(views.take(i as int), views[i as int]);
            }
        }
        assert(keys_view(members@).take(members@.len() as int) =~= keys_view(members@));
        set
    }
}

proof fn lemma_push_to_set(s: Seq<KeyV>, k: KeyV)
    ensures
        s.push(k).to_set() == s.to_set().insert(k),
{
    assert forall|x: KeyV| #[trigger] s.to_set().insert(k).contains(x) implies s.push(
        k,
    ).to_set().contains(x) by {
        if x == k {
            assert(s.push(k)[s.len() as int] == x);
        } else {
            let i = choose|i: int| 0 <= i < s.len() && s[i] == x;
            assert(s.push(k)[i] == x);
        }
    }
    assert forall|x: KeyV| #[trigger] s.push(k).to_set().contains(x) implies s.to_set().insert(
        k,
    ).contains(x) by {
        let i = choose|i: int| 0 <= i < s.push(k).len() && s.push(k)[i] == x;
        if i < s.len() {
            assert(s[i] == x);
        }
    }
    assert(s.push(k).to_set() =~= s.to_set().insert(k));
}

// ---------------------------------------------------------------------------------------------
// Reading file actions
// ---------------------------------------------------------------------------------------------

/// Position of `add.path` among the columns.
pub const ADD_PATH_INDEX: usize = 0;

/// Position of `add.partitionValues` among the columns.
pub const ADD_PARTITION_VALUES_INDEX: usize = 1;

/// Position of `add.size` among the columns.
pub const ADD_SIZE_INDEX: usize = 2;

/// Position of the first column of the Add's deletion vector.
pub const ADD_DV_START_INDEX: usize = 3;

/// Position of `add.baseRowId` among the columns.
pub const BASE_ROW_ID_INDEX: usize = 6;

/// Position of `remove.path` among the columns.
pub const REMOVE_PATH_INDEX: usize = 7;

/// Position of the first column of the Remove's deletion vector.
pub const REMOVE_DV_START_INDEX: usize = 8;

/// A file action: an Add or a Remove.
pub struct FileActionInfo {
    pub key: FileActionKey,
    /// The file's size in bytes; zero for a Remove.
    pub size: u64,
    pub is_add: bool,
}

/// A [`FileActionInfo`] as a mathematical value.
pub struct ActionV {
    pub key: KeyV,
    pub size: u64,
    pub is_add: bool,
}

impl View for FileActionInfo {
    type V = ActionV;

    open spec fn view(&self) -> ActionV {
        ActionV { key: self.key@, size: self.size, is_add: self.is_add }
    }
}

/// The unique id of a deletion vector: its storage type and path, and its offset if it has one.
pub open spec fn dv_unique_id(
    storage_type: Seq<char>,
    path_or_inline_dv: Seq<char>,
    offset: Option<i32>,
) -> Seq<char> {
    match offset {
        Some(offset) => storage_type + path_or_inline_dv + "@"@ + signed_decimal(offset as int),
        None => storage_type + path_or_inline_dv,
    }
}

/// The unique id of the deletion vector at a row; `None` without one.
pub open spec fn dv_at(columns: Seq<Column>, start: int, row: int) -> Result<
    Option<Seq<char>>,
    ErrorV,
> {
    match columns[start].string_at(row, "deletionVector.storageType"@) {
        Err(e) => Err(e),
        Ok(None) => Ok(None),
        Ok(Some(storage_type)) => match required(
            columns[start + 1].string_at(row, "deletionVector.pathOrInlineDv"@),
            "deletionVector.pathOrInlineDv"@,
        ) {
            Err(e) => Err(e),
            Ok(path) => match columns[start + 2].integer_at(row, "deletionVector.offset"@) {
                Err(e) => Err(e),
                Ok(offset) => Ok(Some(dv_unique_id(storage_type, path, offset))),
            },
        },
    }
}

/// A recorded size in bytes; a negative one counts as zero.
pub open spec fn size_of(size: i64) -> u64 {
    if size < 0 {
        0
    } else {
        size as u64
    }
}

/// The file action at a row: an Add if there is an Add path, else a Remove if there is a Remove
/// path and removes are not skipped; `None` for other actions.
pub open spec fn action_at(columns: Seq<Column>, row: int, skip_removes: bool) -> Result<
    Option<ActionV>,
    ErrorV,
> {
    match columns[0].string_at(row, "add.path"@) {
        Err(e) => Err(e),
        Ok(Some(path)) => match dv_at(columns, 3, row) {
            Err(e) => Err(e),
            Ok(dv) => match required(columns[2].long_at(row, "add.size"@), "add.size"@) {
                Err(e) => Err(e),
                Ok(size) => Ok(
                    Some(ActionV { key: (path, dv), size: size_of(size), is_add: true }),
                ),
            },
        },
        Ok(None) => if skip_removes {
            Ok(None)
        } else {
            match columns[7].string_at(row, "remove.path"@) {
                Err(e) => Err(e),
                Ok(None) => Ok(None),
                Ok(Some(path)) => match dv_at(columns, 8, row) {
                    Err(e) => Err(e),
                    Ok(dv) => Ok(Some(ActionV { key: (path, dv), size: 0, is_add: false })),
                },
            }
        },
    }
}

/// The unique id of the deletion vector at a row, if there is one.
pub fn extract_dv_unique_id(columns: &Vec<Column>, dv_start_index: usize, row: usize) -> (id:
    DeltaResult<Option<String>>)
    requires
        dv_start_index + 2 < columns@.len(),
    ensures
        match id {
            Ok(id) => dv_at(columns@, dv_start_index as int, row as int) == Ok::<_, ErrorV>(
                opt_string_view(id),
            ),
            Err(e) => dv_at(columns@, dv_start_index as int, row as int) == Err::<
                Option<Seq<char>>,
                _,
            >(e@),
        },
{
    let count: usize = columns.len();
    assert(dv_start_index + 2 < count);
    let storage_type = match columns[dv_start_index].get_opt_str(
        row,
        "deletionVector.storageType",
    ) {
        Ok(Some(storage_type)) => storage_type,
        Ok(None) => return Ok(None),
        Err(e) => return Err(e),
    };
    let path = match columns[dv_start_index + 1].get_str(row, "deletionVector.pathOrInlineDv") {
        Ok(path) => path,
        Err(e) => return Err(e),
    };
    let offset = match columns[dv_start_index + 2].get_opt_int(row, "deletionVector.offset") {
        Ok(offset) => offset,
        Err(e) => return Err(e),
    };
    let id = storage_type.clone().concat(path.as_str());
    match offset {
        Some(offset) => Ok(Some(id.concat("@").concat(signed_decimal_text(offset).as_str()))),
        None => Ok(Some(id)),
    }
}

/// The file action at a row.
pub fn extract_file_action(row: usize, columns: &Vec<Column>, skip_removes: bool) -> (action:
    DeltaResult<Option<FileActionInfo>>)
    requires
        columns@.len() >= 7,
        !skip_removes ==> columns@.len() >= 11,
    ensures
        match action {
            Ok(Some(action)) => action_at(columns@, row as int, skip_removes) == Ok::<_, ErrorV>(
                Some(action@),
            ),
            Ok(None) => action_at(columns@, row as int, skip_removes) == Ok::<
                Option<ActionV>,
                ErrorV,
            >(None),
            Err(e) => action_at(columns@, row as int, skip_removes) == Err::<Option<ActionV>, _>(
                e@,
            ),
        },
{
    // Try to extract an add action by the required path column
    match columns[ADD_PATH_INDEX].get_opt_str(row, "add.path") {
        Err(e) => return Err(e),
        Ok(Some(path)) => {
            let dv_unique_id = match extract_dv_unique_id(columns, ADD_DV_START_INDEX, row) {
                Ok(id) => id,
                Err(e) => return Err(e),
            };
            let size = match columns[ADD_SIZE_INDEX].get_long(row, "add.size") {
                Ok(size) => if size < 0 {
                    0
                } else {
                    size as u64
                },
                Err(e) => return Err(e),
            };
            let key = FileActionKey::new(path.clone(), dv_unique_id);
            return Ok(Some(FileActionInfo { key, size, is_add: true }));
        },
        Ok(None) => {},
    }
    if skip_removes {
        return Ok(None);
    }
    // Try to extract a remove action by the required path column

    match columns[REMOVE_PATH_INDEX].get_opt_str(row, "remove.path") {
        Err(e) => Err(e),
        Ok(Some(path)) => {
            let dv_unique_id = match extract_dv_unique_id(columns, REMOVE_DV_START_INDEX, row) {
                Ok(id) => id,
                Err(e) => return Err(e),
            };
            let key = FileActionKey::new(path.clone(), dv_unique_id);
            Ok(Some(FileActionInfo { key, size: 0, is_add: false }))
        },
        Ok(None) => Ok(None),
    }
}

// ---------------------------------------------------------------------------------------------
// Deduplicators
// ---------------------------------------------------------------------------------------------

/// Tells whether a file action was superseded by one seen before.
pub trait Deduplicator {
    /// The files seen so far.
    spec fn seen(&self) -> Set<KeyV>;

    /// Whether the batch at hand is a commit.
    spec fn log_batch(&self) -> bool;

    spec fn wf(&self) -> bool;

    /// Whether the batch at hand is a commit.
    fn is_log_batch(&self) -> (is: bool)
        ensures
            is == self.log_batch(),
    ;

    /// Whether the file was seen before. Files of commits are remembered; checkpoints hold the
    /// oldest actions and never supersede anything.
    fn check_and_record_seen(&mut self, key: FileActionKey) -> (seen: bool)
        requires
            old(self).wf(),
        ensures
            final(self).wf(),
            final(self).log_batch() == old(self).log_batch(),
            seen == old(self).seen().contains(key@),
            final(self).seen() == (if old(self).log_batch() {
                old(self).seen().insert(key@)
            } else {
                old(self).seen()
            }),
    ;
}

/// Remembers the files of commits as they are seen.
pub struct FileActionDeduplicator {
    seen_file_keys: FileKeySet,
    is_log_batch: bool,
}

impl FileActionDeduplicator {
    /// Starts from the files seen so far.
    pub fn new(seen_file_keys: FileKeySet, is_log_batch: bool) -> (d: FileActionDeduplicator)
        requires
            seen_file_keys.wf(),
        ensures
            d.wf(),
            d.seen() == seen_file_keys@,
            d.log_batch() == is_log_batch,
    {
        FileActionDeduplicator { seen_file_keys, is_log_batch }
    }

    /// Gives the files seen.
    pub fn into_seen(self) -> (seen: FileKeySet)
        requires
            self.wf(),
        ensures
            seen.wf(),
            seen@ == self.seen(),
    {
        self.seen_file_keys
    }
}

impl Deduplicator for FileActionDeduplicator {
    closed spec fn seen(&self) -> Set<KeyV> {
        self.seen_file_keys@
    }

    closed spec fn log_batch(&self) -> bool {
        self.is_log_batch
    }

    closed spec fn wf(&self) -> bool {
        self.seen_file_keys.wf()
    }

    fn is_log_batch(&self) -> (is: bool) {
        self.is_log_batch
    }

    fn check_and_record_seen(&mut self, key: FileActionKey) -> (seen: bool) {
        if self.seen_file_keys.contains(&key) {
            assert(self.seen_file_keys@.insert(key@) =~= self.seen_file_keys@);
            return true;
        }
        // Remember file actions from this batch so that duplicates can be ignored in batches of
        // older commits and checkpoints. Checkpoint batches are not tracked because they are
        // already the oldest actions and never replace anything.
        if self.is_log_batch {
            self.seen_file_keys.insert(key);
        }
        false
    }
}

/// Checks the files of checkpoints against the files that commits have dealt with.
pub struct CheckpointDeduplicator<'a> {
    seen_file_keys: &'a FileKeySet,
}

impl<'a> CheckpointDeduplicator<'a> {
    /// Checks against the given files.
    pub fn new(seen_file_keys: &'a FileKeySet) -> (d: CheckpointDeduplicator<'a>)
        requires
            seen_file_keys.wf(),
        ensures
            d.wf(),
            d.seen() == seen_file_keys@,
            !d.log_batch(),
    {
        CheckpointDeduplicator { seen_file_keys }
    }
}

impl<'a> Deduplicator for CheckpointDeduplicator<'a> {
    closed spec fn seen(&self) -> Set<KeyV> {
        self.seen_file_keys@
    }

    open spec fn log_batch(&self) -> bool {
        false
    }

    closed spec fn wf(&self) -> bool {
        self.seen_file_keys.wf()
    }

    fn is_log_batch(&self) -> (is: bool) {
        false
    }

    fn check_and_record_seen(&mut self, key: FileActionKey) -> (seen: bool) {
        self.seen_file_keys.contains(&key)
    }
}

} // verus!
