//! Reading the data of a scan.

use vstd::prelude::*;

use super::builder::Scan;
use super::table_scan::{full_replay, LogReader, ScanMetadataStream};
use crate::engine::Engine;
use crate::error::{DeltaResult, Error, ErrorV};
use crate::expressions::expression::ExpressionRef;
use crate::metrics::events::MetricId;
use crate::schema::SchemaRef;
use crate::uri::{joined_url, resolve_file_path};

verus! {

/// A file to be scanned.
pub struct ScanFile {
    /// The file's path, relative to the table's root or absolute.
    pub path: String,
    /// The file's size in bytes, as the log records it.
    pub size: i64,
    /// How many rows the file's statistics say it has; `None` without statistics.
    pub num_records: Option<u64>,
    /// The transform of the file's rows.
    pub transform: Option<ExpressionRef>,
}

/// Reads data files.
pub trait DataReader<E: Engine> {
    /// A stream of the batches of one file.
    type Batches;

    /// Which rows of the file its deletion vector keeps; `None` without one.
    fn deletion_selection(&self, table_root: &String, file: &ScanFile) -> DeltaResult<
        Option<Vec<bool>>,
    >;

    /// Opens a data file.
    fn open_file(&self, location: &String, size: u64, physical_schema: &SchemaRef) -> DeltaResult<
        Self::Batches,
    >;

    /// Whether the file has a batch at all.
    fn has_data(&self, batches: &Self::Batches) -> bool;

    /// Turns data as stored into rows of the table.
    fn transform_to_logical(
        &self,
        data: E::Batch,
        physical_schema: &SchemaRef,
        logical_schema: &SchemaRef,
        transform: &Option<ExpressionRef>,
    ) -> DeltaResult<E::Batch>;
}

/// What is said of a file size that is negative.
pub open spec fn bad_file_size() -> ErrorV {
    ErrorV::Generic("Unable to convert scan file size into FileSize"@)
}

/// What is said of a file without batches that should have rows.
pub open spec fn no_data(path: Seq<char>) -> ErrorV {
    ErrorV::InternalError(
        "ParquetHandler returned no data for file '"@ + path
            + "'. This is likely a connector bug -- the handler's read_parquet_files must return at least one batch for each requested file that contains rows."@,
    )
}

/// A file's size in bytes.
pub fn file_size(size: i64) -> (bytes: DeltaResult<u64>)
    ensures
        if size >= 0 {
            bytes is Ok && bytes->Ok_0 == size
        } else {
            bytes is Err && bytes->Err_0@ == bad_file_size()
        },
{
    if size >= 0 {
        Ok(size as u64)
    } else {
        Err(Error::generic("Unable to convert scan file size into FileSize"))
    }
}

/// Whether a file that gave no batch is fine.
///
/// Only flag an empty file as a connector bug when stats are present and report a positive row
/// count. When stats are absent a legitimate 0-row file cannot be told from a buggy connector, so
/// it is conservatively allowed.
pub fn check_has_data(num_records: Option<u64>, has_data: bool, path: &str) -> (r: DeltaResult<()>)
    ensures
        if num_records is Some && num_records->0 > 0 && !has_data {
            r is Err && r->Err_0@ == no_data(path@)
        } else {
            r is Ok
        },
{
    let expect_data = match num_records {
        Some(n) => n > 0,
        None => false,
    };
    if expect_data && !has_data {
        return Err(
            Error::InternalError(
                "ParquetHandler returned no data for file '".to_string().concat(path).concat(
                    "'. This is likely a connector bug -- the handler's read_parquet_files must return at least one batch for each requested file that contains rows.",
                ),
            ),
        );
    }
    Ok(())
}

/// The part of a selection for the next `len` rows.
pub open spec fn head_of(selection: Option<Seq<bool>>, len: nat) -> Option<Seq<bool>> {
    match selection {
        Some(s) => Some(
            if len < s.len() {
                s.take(len as int)
            } else {
                s
            },
        ),
        None => None,
    }
}

/// What is left of a selection after `len` rows; `None` if nothing is.
pub open spec fn rest_of(selection: Option<Seq<bool>>, len: nat) -> Option<Seq<bool>> {
    match selection {
        Some(s) => if len < s.len() {
            Some(s.skip(len as int))
        } else {
            None
        },
        None => None,
    }
}

/// The rows that an optional selection vector selects.
pub open spec fn selection_view(selection: Option<Vec<bool>>) -> Option<Seq<bool>> {
    match selection {
        Some(s) => Some(s@),
        None => None,
    }
}

/// Splits a selection into the part for the next `len` rows and the rest.
pub fn split_vector(selection: Option<Vec<bool>>, len: usize) -> (parts: (
    Option<Vec<bool>>,
    Option<Vec<bool>>,
))
    ensures
        selection_view(parts.0) == head_of(selection_view(selection), len as nat),
        selection_view(parts.1) == rest_of(selection_view(selection), len as nat),
{
    match selection {
        Some(selection) => {
            let mut selection = selection;
            if len < selection.len() {
                let rest = selection.split_off(len);
                (Some(selection), Some(rest))
            } else {
                (Some(selection), None)
            }
        },
        None => (None, None),
    }
}

/// What is left of a deletion mask after batches of the given lengths.
pub open spec fn mask_after(mask: Seq<bool>, lens: Seq<nat>) -> Option<Seq<bool>>
    decreases lens.len(),
{
    if lens.len() == 0 {
        Some(mask)
    } else {
        rest_of(mask_after(mask, lens.drop_last()), lens.last())
    }
}

/// The number of rows of the given batches.
pub open spec fn total(lens: Seq<nat>) -> nat
    decreases lens.len(),
{
    if lens.len() == 0 {
        0
    } else {
        total(lens.drop_last()) + lens.last()
    }
}

/// A deletion mask stays in step with the rows of its file: after batches of any lengths, the mask
/// for the next batch starts right after the rows that were read, so each row is judged by its own
/// entry however the file is cut into batches.
pub proof fn mask_stays_in_step(mask: Seq<bool>, lens: Seq<nat>)
    ensures
        mask_after(mask, lens) matches Some(rest) ==> total(lens) <= mask.len() && rest
            == mask.skip(total(lens) as int),
        mask_after(mask, lens) is None ==> total(lens) >= mask.len(),
    decreases lens.len(),
{
    if lens.len() == 0 {
        assert(mask.skip(0) =~= mask);
    } else {
        mask_stays_in_step(mask, lens.drop_last());
        let before = total(lens.drop_last());
        if let Some(rest) = mask_after(mask, lens.drop_last()) {
            if lens.last() < rest.len() {
                assert(rest.skip(lens.last() as int) =~= mask.skip(total(lens) as int));
            }
        }
    }
}

/// A data file being read.
pub struct FileRead<A> {
    pub batches: A,
    /// Which of the rows that are still to come the deletion vector keeps.
    pub selection: Option<Vec<bool>>,
    pub transform: Option<ExpressionRef>,
}

/// Whether `r` is the opened file, for every outcome of the reader's calls.
pub open spec fn file_opened<E: Engine, D: DataReader<E>>(
    reader: &D,
    table_root: &String,
    physical_schema: &SchemaRef,
    file: ScanFile,
    r: DeltaResult<FileRead<D::Batches>>,
) -> bool {
    match joined_url(table_root@, file.path@) {
        Err(why) => r is Err && r->Err_0@ == ErrorV::InvalidUrl(why),
        Ok(location) => exists|selection: DeltaResult<Option<Vec<bool>>>| #[trigger]
            call_ensures(D::deletion_selection, (reader, table_root, &file), selection)
                && match selection {
                Err(e) => r == Err::<FileRead<D::Batches>, _>(e),
                Ok(selection) => if file.size < 0 {
                    r is Err && r->Err_0@ == bad_file_size()
                } else {
                    data_opened(reader, location, physical_schema, file, selection, r)
                },
            },
    }
}

/// The second half of [`file_opened`].
pub open spec fn data_opened<E: Engine, D: DataReader<E>>(
    reader: &D,
    location: Seq<char>,
    physical_schema: &SchemaRef,
    file: ScanFile,
    selection: Option<Vec<bool>>,
    r: DeltaResult<FileRead<D::Batches>>,
) -> bool {
    exists|url: String, opened: DeltaResult<D::Batches>|
        url@ == location && #[trigger] call_ensures(
            D::open_file,
            (reader, &url, file.size as u64, physical_schema),
            opened,
        ) && match opened {
            Err(e) => r == Err::<FileRead<D::Batches>, _>(e),
            Ok(batches) => exists|has_data: bool| #[trigger]
                call_ensures(D::has_data, (reader, &batches), has_data) && if file.num_records
                    is Some && file.num_records->0 > 0 && !has_data {
                    r is Err && r->Err_0@ == no_data(file.path@)
                } else {
                    r is Ok && r->Ok_0 == (FileRead {
                        batches,
                        selection,
                        transform: file.transform,
                    })
                },
        }
}

/// A scan that reads data: its log replay, and what its files are read with.
pub struct ScanExecution<E: Engine, A> {
    pub metadata: ScanMetadataStream<E, A>,
    pub table_root: String,
    pub physical_schema: SchemaRef,
    pub logical_schema: SchemaRef,
}

/// What is said of executing a scan without row transforms.
pub open spec fn execute_unsupported() -> ErrorV {
    ErrorV::Unsupported(
        "Scan::execute is not supported when the scan was built with without_row_transforms; use scan_metadata for listing and read data with your own reader"@,
    )
}

impl<T> Scan<T> {
    /// Perform an "all in one" scan: start the log replay, and read and process all the data of
    /// the files that it gives, with [`ScanExecution::open_scan_file`] and
    /// [`FileRead::next_batch`]. Generally connectors/engines will want to use
    /// [`Scan::scan_metadata`] so they can have more control over the execution of the scan.
    ///
    /// Returns an error if the scan was built with
    /// [`ScanBuilder::without_row_transforms`](super::builder::ScanBuilder::without_row_transforms);
    /// use [`Scan::scan_metadata`] instead.
    pub fn execute<E: Engine, L: LogReader<T>>(
        &self,
        engine: &E,
        reader: &L,
        operation_id: MetricId,
    ) -> (r: DeltaResult<ScanExecution<E, L::Actions>>)
        ensures
            if self.state_info.skip_row_transforms {
                r is Err && r->Err_0@ == execute_unsupported()
            } else {
                exists|metadata: DeltaResult<ScanMetadataStream<E, L::Actions>>| #[trigger]
                    full_replay(self, engine, reader, operation_id, metadata) && match metadata {
                        Err(e) => r == Err::<ScanExecution<E, L::Actions>, _>(e),
                        Ok(metadata) => r is Ok && r->Ok_0 == (ScanExecution {
                            metadata,
                            table_root: self.snapshot.table_configuration.table_root,
                            physical_schema: self.state_info.physical_schema,
                            logical_schema: self.state_info.logical_schema,
                        }),
                    }
            },
    {
        if self.state_info.skip_row_transforms {
            return Err(
                Error::unsupported(
                    "Scan::execute is not supported when the scan was built with without_row_transforms; use scan_metadata for listing and read data with your own reader",
                ),
            );
        }
        match self.scan_metadata(engine, reader, operation_id) {
            Ok(metadata) => Ok(
                ScanExecution {
                    metadata,
                    table_root: self.table_root().clone(),
                    physical_schema: self.physical_schema().clone(),
                    logical_schema: self.logical_schema().clone(),
                },
            ),
            Err(e) => Err(e),
        }
    }
}

impl<E: Engine, A> ScanExecution<E, A> {
    /// Opens one of the files that the log replay gave.
    pub fn open_scan_file<D: DataReader<E>>(&self, reader: &D, file: ScanFile) -> (r: DeltaResult<
        FileRead<D::Batches>,
    >)
        ensures
            file_opened(reader, &self.table_root, &self.physical_schema, file, r),
    {
        let file_path = match resolve_file_path(self.table_root.as_str(), file.path.as_str()) {
            Ok(file_path) => file_path,
            Err(e) => return Err(e),
        };
        let selection = match reader.deletion_selection(&self.table_root, &file) {
            Ok(selection) => selection,
            Err(e) => return Err(e),
        };
        let size = match file_size(file.size) {
            Ok(size) => size,
            Err(e) => return Err(e),
        };
        // WARNING: The physical predicate was validated against a schema that has the partition
        // columns, but the read schema used here does _NOT_ have them. So it cannot safely be
        // assumed that all column references are valid, and no predicate is pushed down.
        let opened = reader.open_file(&file_path, size, &self.physical_schema);
        let ghost answer = opened;
        let batches = match opened {
            Ok(batches) => batches,
            Err(e) => {
                assert(data_opened(
                    reader,
                    file_path@,
                    &self.physical_schema,
                    file,
                    selection,
                    Err(e),
                ));
                return Err(e);
            },
        };
        let has_data = reader.has_data(&batches);
        let r = match check_has_data(file.num_records, has_data, file.path.as_str()) {
            Ok(_) => Ok(FileRead { batches, selection, transform: file.transform }),
            Err(e) => Err(e),
        };
        assert(data_opened(
            reader,
            file_path@,
            &self.physical_schema,
            file,
            selection,
            r,
        ));
        r
    }
}

/// Whether `r` is a batch as rows of the table, with deleted rows left out, for every outcome of
/// the engine's and the reader's calls. `rest` is what remains of the deletion mask.
pub open spec fn batch_read<E: Engine, D: DataReader<E>>(
    engine: &E,
    reader: &D,
    physical_schema: &SchemaRef,
    logical_schema: &SchemaRef,
    transform: &Option<ExpressionRef>,
    selection: Option<Seq<bool>>,
    data: E::Batch,
    rest: Option<Seq<bool>>,
    r: DeltaResult<E::Batch>,
) -> bool {
    exists|logical: DeltaResult<E::Batch>| #[trigger]
        call_ensures(
            D::transform_to_logical,
            (reader, data, physical_schema, logical_schema, transform),
            logical,
        ) && match logical {
            Err(e) => r == Err::<E::Batch, _>(e) && rest == rest_of(selection, 0),
            Ok(logical) => exists|len: usize| #[trigger]
                call_ensures(E::batch_len, (engine, &logical), len) && rest == rest_of(
                    selection,
                    len as nat,
                ) && rows_kept(engine, logical, head_of(selection, len as nat), r),
        }
}

/// Whether `r` is a batch without the rows that a deletion mask drops.
pub open spec fn rows_kept<E: Engine>(
    engine: &E,
    logical: E::Batch,
    mask: Option<Seq<bool>>,
    r: DeltaResult<E::Batch>,
) -> bool {
    match mask {
        None => r == Ok::<_, Error>(logical),
        Some(mask) => exists|selection: Vec<bool>|
            selection@ == mask && #[trigger] call_ensures(
                E::apply_selection_vector,
                (engine, logical, selection),
                r,
            ),
    }
}

impl<A> FileRead<A> {
    /// Takes the next batch of the file as stored, and gives it as rows of the table without the
    /// deleted ones.
    pub fn next_batch<E: Engine, D: DataReader<E>>(
        &mut self,
        engine: &E,
        reader: &D,
        physical_schema: &SchemaRef,
        logical_schema: &SchemaRef,
        read_result: DeltaResult<E::Batch>,
    ) -> (r: DeltaResult<E::Batch>)
        ensures
            final(self).batches == old(self).batches,
            final(self).transform == old(self).transform,
            match read_result {
                Err(e) => r == Err::<E::Batch, _>(e) && final(self).selection == old(
                    self,
                ).selection,
                Ok(data) => batch_read(
                    engine,
                    reader,
                    physical_schema,
                    logical_schema,
                    &old(self).transform,
                    selection_view(old(self).selection),
                    data,
                    selection_view(final(self).selection),
                    r,
                ),
            },
    {
        let data = match read_result {
            Ok(data) => data,
            Err(e) => return Err(e),
        };
        // transform the physical data into the correct logical form
        let logical = reader.transform_to_logical(
            data,
            physical_schema,
            logical_schema,
            &self.transform,
        );
        let len: usize = match &logical {
            Ok(logical) => engine.batch_len(logical),
            Err(_) => 0,
        };
        // The mask has to be split. What comes before the split covers this batch, and the rest
        // will cover the following ones.
        let (mask, rest) = split_vector(self.selection.take(), len);
        self.selection = rest;
        match logical {
            Ok(logical) => match mask {
                Some(mask) => engine.apply_selection_vector(logical, mask),
                None => Ok(logical),
            },
            Err(e) => Err(e),
        }
    }
}

// ---------------------------------------------------------------------------------------------
// Declarative plans
// ---------------------------------------------------------------------------------------------

/// Builds declarative plans for scans.
pub trait PlanBuilder<T> {
    /// What a checkpoint looks like.
    type Shape;

    /// A declarative plan.
    type Plan;

    /// Whether the engine can execute plans.
    fn require_plan_executor(&self) -> DeltaResult<()>;

    /// Inspects the checkpoint of the scan's snapshot: whether it has a manifest or leaves, and
    /// whether it has compatible parsed statistics.
    fn checkpoint_shape(
        &self,
        scan: &Scan<T>,
        physical_stats_schema: &Option<SchemaRef>,
    ) -> DeltaResult<Self::Shape>;

    /// The plan for a checkpoint of the given shape; `None` when no metadata matches the scan.
    fn build_metadata_scan_plan(&self, scan: &Scan<T>, shape: &Self::Shape) -> DeltaResult<
        Option<Self::Plan>,
    >;
}

/// Whether `r` is the plan for a scan, for every outcome of the builder's calls.
pub open spec fn plan_made<T, B: PlanBuilder<T>>(
    scan: &Scan<T>,
    builder: &B,
    r: DeltaResult<Option<B::Plan>>,
) -> bool {
    exists|executor: DeltaResult<()>| #[trigger]
        call_ensures(B::require_plan_executor, (builder,), executor) && match executor {
            Err(e) => r == Err::<Option<B::Plan>, _>(e),
            Ok(_) => exists|shape: DeltaResult<B::Shape>| #[trigger]
                call_ensures(
                    B::checkpoint_shape,
                    (builder, scan, &scan.state_info.physical_stats_schema),
                    shape,
                ) && match shape {
                    Err(e) => r == Err::<Option<B::Plan>, _>(e),
                    Ok(shape) => call_ensures(
                        B::build_metadata_scan_plan,
                        (builder, scan, &shape),
                        r,
                    ),
                },
        }
}

impl<T> Scan<T> {
    /// Builds a declarative plan that produces the scan's live `add` actions.
    ///
    /// `builder` inspects the checkpoint shape. Returns `None` when no Delta metadata matches this
    /// scan.
    ///
    /// # Errors
    ///
    /// Returns an error if the engine cannot execute plans, or if log discovery, checkpoint
    /// inspection, or plan construction fails.
    pub fn declarative_metadata_scan_plan<B: PlanBuilder<T>>(&self, builder: &B) -> (r: DeltaResult<
        Option<B::Plan>,
    >)
        ensures
            plan_made(self, builder, r),
    {
        match builder.require_plan_executor() {
            Ok(_) => {},
            Err(e) => return Err(e),
        }
        // Resolve the checkpoint shape once: it selects the leaf-vs-manifest arm and reports
        // whether the checkpoint carries a compatible parsed-stats column.
        match builder.checkpoint_shape(self, &self.state_info.physical_stats_schema) {
            Ok(shape) => builder.build_metadata_scan_plan(self, &shape),
            Err(e) => Err(e),
        }
    }
}

// ---------------------------------------------------------------------------------------------
// Deletion vectors
// ---------------------------------------------------------------------------------------------

/// Reads deletion vectors.
pub trait DeletionVectorReader {
    /// Says where a deletion vector is found.
    type Descriptor;

    /// The positions of the deleted rows.
    fn read(&self, descriptor: &Self::Descriptor, table_root: &String) -> DeltaResult<Vec<u64>>;
}

/// One more than the greatest of the first `n` positions; zero if there are none.
pub open spec fn rows_covered(deleted: Seq<u64>, n: nat) -> int
    decreases n,
{
    if n == 0 {
        0
    } else {
        let before = rows_covered(deleted, (n - 1) as nat);
        if deleted[n - 1] + 1 > before {
            deleted[n - 1] + 1
        } else {
            before
        }
    }
}

/// Which rows a deletion vector keeps: all but the deleted ones, up to the last of these.
pub open spec fn kept_rows(deleted: Seq<u64>) -> Seq<bool> {
    Seq::new(
        rows_covered(deleted, deleted.len()) as nat,
        |row: int| !deleted.contains(row as u64),
    )
}

/// What is said of a deletion vector that covers more rows than fit into memory.
pub open spec fn too_many_rows() -> ErrorV {
    ErrorV::Generic("Deletion vector covers more rows than can be addressed"@)
}

proof fn lemma_rows_covered(deleted: Seq<u64>, n: nat, i: int)
    requires
        0 <= i < n <= deleted.len(),
    ensures
        deleted[i] < rows_covered(deleted, n),
    decreases n,
{
    if i < n - 1 {
        lemma_rows_covered(deleted, (n - 1) as nat, i);
    }
}

/// Turns the positions of deleted rows into a selection vector.
pub fn deleted_rows_to_bools(deleted: &Vec<u64>) -> (selection: DeltaResult<Vec<bool>>)
    ensures
        if rows_covered(deleted@, deleted@.len()) <= usize::MAX {
            selection is Ok && selection->Ok_0@ == kept_rows(deleted@)
        } else {
            selection is Err && selection->Err_0@ == too_many_rows()
        },
{
    let mut covered: u128 = 0;
    for i in 0..deleted.len()
        invariant
            covered == rows_covered(deleted@, i as nat),
            0 <= covered <= 0x1_0000_0000_0000_0000,
    {
        let end: u128 = deleted[i] as u128 + 1;
        if end > covered {
            covered = end;
        }
    }
    if covered > usize::MAX as u128 {
        return Err(Error::generic("Deletion vector covers more rows than can be addressed"));
    }
    let len: usize = covered as usize;
    let mut selection: Vec<bool> = Vec::new();
    for i in 0..len
        invariant
            selection@.len() == i,
            forall|j: int| 0 <= j < i ==> #[trigger] selection@[j],
    {
        selection.push(true);
    }
    for i in 0..deleted.len()
        invariant
            len == rows_covered(deleted@, deleted@.len()),
            selection@.len() == len,
            forall|row: int|
                0 <= row < len ==> #[trigger] selection@[row] == !deleted@.take(i as int).contains(
                    row as u64,
                ),
    {
        proof {
            lemma_rows_covered(deleted@, deleted@.len(), i as int);
            assert(deleted@.take(i + 1) =~= deleted@.take(i as int).push(deleted@[i as int]));
        }
        let ghost before = selection@;
        let row: usize = deleted[i] as usize;
        selection.set(row, false);
        assert forall|r: int| 0 <= r < len implies #[trigger] selection@[r] == !deleted@.take(
            i + 1,
        ).contains(r as u64) by {
            let shorter = deleted@.take(i as int);
            let longer = deleted@.take(i + 1);
            if r == row {
                assert(longer[i as int] == r as u64);
            } else {
                assert(before[r] == !shorter.contains(r as u64));
                if longer.contains(r as u64) {
                    let k = choose|k: int| 0 <= k < longer.len() && longer[k] == r as u64;
                    assert(k < i);
                    assert(shorter[k] == r as u64);
                }
                if shorter.contains(r as u64) {
                    let k = choose|k: int| 0 <= k < shorter.len() && shorter[k] == r as u64;
                    assert(longer[k] == r as u64);
                }
            }
        }
    }
    assert(deleted@.take(deleted@.len() as int) =~= deleted@);
    assert(selection@ =~= kept_rows(deleted@));
    Ok(selection)
}

/// The rows of a file that its deletion vector keeps, up to the last deleted one.
pub fn selection_vector<R: DeletionVectorReader>(
    reader: &R,
    descriptor: &R::Descriptor,
    table_root: &String,
) -> (r: DeltaResult<Vec<bool>>)
    ensures
        exists|deleted: DeltaResult<Vec<u64>>| #[trigger]
            call_ensures(R::read, (reader, descriptor, table_root), deleted) && match deleted {
                Err(e) => r == Err::<Vec<bool>, _>(e),
                Ok(deleted) => if rows_covered(deleted@, deleted@.len()) <= usize::MAX {
                    r is Ok && r->Ok_0@ == kept_rows(deleted@)
                } else {
                    r is Err && r->Err_0@ == too_many_rows()
                },
            },
{
    match reader.read(descriptor, table_root) {
        Ok(deleted) => deleted_rows_to_bools(&deleted),
        Err(e) => Err(e),
    }
}

} // verus!
