//! What a scan gives for each batch of the log.

use vstd::prelude::*;

use crate::engine::Engine;
use crate::error::{DeltaResult, Error, ErrorV};
use crate::expressions::expression::ExpressionRef;
use crate::text::{decimal, decimal_text};

verus! {

/// A batch and which of its rows count. Rows beyond the selection vector are selected.
pub struct FilteredEngineData<B> {
    pub data: B,
    pub selection_vector: Vec<bool>,
}

/// What is said of a selection vector that is longer than its data.
pub open spec fn selection_too_long(selection: nat, data: nat) -> ErrorV {
    ErrorV::InvalidSelectionVector(
        "Selection vector is larger than data length: "@ + decimal(selection) + " > "@ + decimal(
            data,
        ),
    )
}

/// [`ScanMetadata`] contains (1) a batch of [`FilteredEngineData`] specifying data files to be
/// scanned and (2) a vector of transforms (one transform per scan file) that must be applied to the
/// data read from those files.
pub struct ScanMetadata<B> {
    /// Filtered engine data with one row per file to scan (and only selected rows should be
    /// scanned)
    pub scan_files: FilteredEngineData<B>,
    /// Row-level transformations to apply to data read from files.
    ///
    /// Each entry in this vector corresponds to a row in the `scan_files` data. The entry is an
    /// optional expression that must be applied to convert the file's data into the logical schema
    /// expected by the scan:
    ///
    /// - `Some(expr)`: Apply this expression to transform the data to match the scan's logical
    ///   schema.
    /// - `None`: No transformation is needed; the data is already in the correct logical form.
    ///
    /// Note: This vector can be indexed by row number, as rows masked by the selection vector will
    /// have corresponding entries that will be `None`.
    pub scan_file_transforms: Vec<Option<ExpressionRef>>,
}

/// Whether `r` is the scan metadata of these parts: an error if the selection vector has more
/// entries than the data has rows.
pub open spec fn metadata_made<E: Engine>(
    engine: &E,
    data: E::Batch,
    selection: Seq<bool>,
    transforms: Seq<Option<ExpressionRef>>,
    r: DeltaResult<ScanMetadata<E::Batch>>,
) -> bool {
    exists|n: usize| #[trigger]
        call_ensures(E::batch_len, (engine, &data), n) && if selection.len() > n {
            r is Err && r->Err_0@ == selection_too_long(selection.len(), n as nat)
        } else {
            r is Ok && r->Ok_0.scan_files.data == data && r->Ok_0.scan_files.selection_vector@
                == selection && r->Ok_0.scan_file_transforms@ == transforms
        }
}

impl<B> ScanMetadata<B> {
    /// Scan metadata from its parts.
    pub fn try_new<E: Engine<Batch = B>>(
        engine: &E,
        data: B,
        selection_vector: Vec<bool>,
        scan_file_transforms: Vec<Option<ExpressionRef>>,
    ) -> (r: DeltaResult<ScanMetadata<B>>)
        ensures
            metadata_made(engine, data, selection_vector@, scan_file_transforms@, r),
    {
        let len = engine.batch_len(&data);
        if selection_vector.len() > len {
            return Err(
                Error::InvalidSelectionVector(
                    "Selection vector is larger than data length: ".to_string().concat(
                        decimal_text(selection_vector.len() as u64).as_str(),
                    ).concat(" > ").concat(decimal_text(len as u64).as_str()),
                ),
            );
        }
        Ok(
            ScanMetadata {
                scan_files: FilteredEngineData { data, selection_vector },
                scan_file_transforms,
            },
        )
    }

    /// Whether the selection vector selects any row.
    pub fn has_selected_rows(&self) -> (has: bool)
        ensures
            has == self.scan_files.selection_vector@.contains(true),
    {
        let selection = &self.scan_files.selection_vector;
        for i in 0..selection.len()
            invariant
                forall|j: int| 0 <= j < i ==> !#[trigger] selection@[j],
                selection == &self.scan_files.selection_vector,
        {
            if selection[i] {
                assert(selection@[i as int]);
                return true;
            }
        }
        false
    }
}

/// utility method making it easy to get a transform for a particular row. If the requested row is
/// outside the range of the passed slice returns `None`, otherwise returns the element at the index
/// of the specified row
pub fn get_transform_for_row(row: usize, transforms: &[Option<ExpressionRef>]) -> (transform: Option<
    ExpressionRef,
>)
    ensures
        transform == (if row < transforms@.len() {
            transforms@[row as int]
        } else {
            None
        }),
{
    if row < transforms.len() {
        match &transforms[row] {
            Some(transform) => Some(transform.clone()),
            None => None,
        }
    } else {
        None
    }
}

} // verus!
