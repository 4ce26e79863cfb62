//! What the library asks of an engine, and the plain values it gets back.

use vstd::prelude::*;

use crate::error::{DeltaResult, Error, ErrorV};
use crate::expressions::{ColumnName, ExpressionRef, PredicateRef};
use crate::schema::{DataType, SchemaRef};
use crate::text::opt_string_view;

verus! {

/// A connector's engine: it owns columnar batches and evaluates expressions over them.
pub trait Engine {
    /// Columnar data in the engine's own format.
    type Batch;

    /// A prepared expression.
    type ExpressionEvaluator;

    /// A prepared predicate.
    type PredicateEvaluator;

    /// Prepares `expression` over batches of `input_schema`, producing batches of
    /// `output_schema`.
    fn new_expression_evaluator(
        &self,
        input_schema: SchemaRef,
        expression: ExpressionRef,
        output_schema: SchemaRef,
    ) -> DeltaResult<Self::ExpressionEvaluator>;

    /// Prepares `predicate` over batches of `input_schema`, producing batches with the single
    /// boolean column `output`.
    fn new_predicate_evaluator(
        &self,
        input_schema: SchemaRef,
        predicate: PredicateRef,
    ) -> DeltaResult<Self::PredicateEvaluator>;

    /// Evaluates a prepared expression on every row of `batch`.
    fn evaluate_expression(
        &self,
        evaluator: &Self::ExpressionEvaluator,
        batch: &Self::Batch,
    ) -> DeltaResult<Self::Batch>;

    /// Evaluates a prepared predicate on every row of `batch`.
    fn evaluate_predicate(
        &self,
        evaluator: &Self::PredicateEvaluator,
        batch: &Self::Batch,
    ) -> DeltaResult<Self::Batch>;

    /// The number of rows of `batch`.
    fn batch_len(&self, batch: &Self::Batch) -> usize;

    /// Reads the named leaf columns of `batch` as plain values.
    fn read_columns(
        &self,
        batch: &Self::Batch,
        names: &Vec<ColumnName>,
        types: &Vec<DataType>,
    ) -> DeltaResult<Vec<Column>>;

    /// Keeps the selected rows of `batch`; rows beyond the selection vector are kept.
    fn apply_selection_vector(
        &self,
        batch: Self::Batch,
        selection_vector: Vec<bool>,
    ) -> DeltaResult<Self::Batch>;
}

/// The entries of one string map.
pub type StringPairs = Vec<(String, String)>;

/// One column read from a batch, row by row. `None` is NULL, and so is every row beyond the end.
#[derive(Debug, PartialEq)]
pub enum Column {
    Strings(Vec<Option<String>>),
    Longs(Vec<Option<i64>>),
    Integers(Vec<Option<i32>>),
    Booleans(Vec<Option<bool>>),
    Pairs(Vec<Option<StringPairs>>),
}

/// The entry of a column at a row; `None` for NULL and beyond the end.
pub open spec fn entry<T>(column: Seq<Option<T>>, row: int) -> Option<T> {
    if 0 <= row < column.len() {
        column[row]
    } else {
        None
    }
}

/// What is said of a column that does not have the requested type.
pub open spec fn wrong_type(field: Seq<char>, wanted: Seq<char>) -> ErrorV {
    ErrorV::UnexpectedColumnType(field + " is not of type "@ + wanted)
}

fn wrong_type_error(field: &str, wanted: &str) -> (error: Error)
    ensures
        error@ == wrong_type(field@, wanted@),
{
    Error::UnexpectedColumnType(field.to_string().concat(" is not of type ").concat(wanted))
}

/// What is said of a required value that is NULL.
pub open spec fn missing(field: Seq<char>) -> ErrorV {
    ErrorV::MissingData("Data missing for field "@ + field)
}

fn missing_error(field: &str) -> (error: Error)
    ensures
        error@ == missing(field@),
{
    Error::MissingData("Data missing for field ".to_string().concat(field))
}

impl Column {
    /// The string at `row`.
    pub open spec fn string_at(self, row: int, field: Seq<char>) -> Result<
        Option<Seq<char>>,
        ErrorV,
    > {
        match self {
            Column::Strings(v) => Ok(opt_string_view(entry(v@, row))),
            _ => Err(wrong_type(field, "str"@)),
        }
    }

    /// The 64-bit integer at `row`.
    pub open spec fn long_at(self, row: int, field: Seq<char>) -> Result<Option<i64>, ErrorV> {
        match self {
            Column::Longs(v) => Ok(entry(v@, row)),
            _ => Err(wrong_type(field, "long"@)),
        }
    }

    /// The 32-bit integer at `row`.
    pub open spec fn integer_at(self, row: int, field: Seq<char>) -> Result<Option<i32>, ErrorV> {
        match self {
            Column::Integers(v) => Ok(entry(v@, row)),
            _ => Err(wrong_type(field, "int"@)),
        }
    }

    /// The truth value at `row`, which must not be NULL.
    pub open spec fn bool_at(self, row: int, field: Seq<char>) -> Result<bool, ErrorV> {
        match self {
            Column::Booleans(v) => match entry(v@, row) {
                Some(b) => Ok(b),
                None => Err(missing(field)),
            },
            _ => Err(wrong_type(field, "bool"@)),
        }
    }

    /// The string map at `row`, which must not be NULL.
    pub open spec fn pairs_at(self, row: int, field: Seq<char>) -> Result<StringPairs, ErrorV> {
        match self {
            Column::Pairs(v) => match entry(v@, row) {
                Some(pairs) => Ok(pairs),
                None => Err(missing(field)),
            },
            _ => Err(wrong_type(field, "map"@)),
        }
    }

    /// The string at `row`, if it is not NULL.
    pub fn get_opt_str(&self, row: usize, field: &str) -> (value: DeltaResult<Option<&String>>)
        ensures
            match value {
                Ok(Some(s)) => self.string_at(row as int, field@) == Ok::<_, ErrorV>(Some(s@)),
                Ok(None) => self.string_at(row as int, field@) == Ok::<
                    Option<Seq<char>>,
                    ErrorV,
                >(None),
                Err(e) => self.string_at(row as int, field@) == Err::<Option<Seq<char>>, _>(e@),
            },
    {
        match self {
            Column::Strings(v) => if row < v.len() {
                match &v[row] {
                    Some(s) => Ok(Some(s)),
                    None => Ok(None),
                }
            } else {
                Ok(None)
            },
            _ => Err(wrong_type_error(field, "str")),
        }
    }

    /// The 64-bit integer at `row`, if it is not NULL.
    pub fn get_opt_long(&self, row: usize, field: &str) -> (value: DeltaResult<Option<i64>>)
        ensures
            match value {
                Ok(v) => self.long_at(row as int, field@) == Ok::<_, ErrorV>(v),
                Err(e) => self.long_at(row as int, field@) == Err::<Option<i64>, _>(e@),
            },
    {
        match self {
            Column::Longs(v) => if row < v.len() {
                Ok(v[row])
            } else {
                Ok(None)
            },
            _ => Err(wrong_type_error(field, "long")),
        }
    }

    /// The 32-bit integer at `row`, if it is not NULL.
    pub fn get_opt_int(&self, row: usize, field: &str) -> (value: DeltaResult<Option<i32>>)
        ensures
            match value {
                Ok(v) => self.integer_at(row as int, field@) == Ok::<_, ErrorV>(v),
                Err(e) => self.integer_at(row as int, field@) == Err::<Option<i32>, _>(e@),
            },
    {
        match self {
            Column::Integers(v) => if row < v.len() {
                Ok(v[row])
            } else {
                Ok(None)
            },
            _ => Err(wrong_type_error(field, "int")),
        }
    }

    /// The truth value at `row`.
    pub fn get_bool(&self, row: usize, field: &str) -> (value: DeltaResult<bool>)
        ensures
            match value {
                Ok(v) => self.bool_at(row as int, field@) == Ok::<_, ErrorV>(v),
                Err(e) => self.bool_at(row as int, field@) == Err::<bool, _>(e@),
            },
    {
        match self {
            Column::Booleans(v) => if row < v.len() {
                match v[row] {
                    Some(b) => Ok(b),
                    None => Err(missing_error(field)),
                }
            } else {
                Err(missing_error(field))
            },
            _ => Err(wrong_type_error(field, "bool")),
        }
    }

    /// The string map at `row`.
    pub fn get_pairs(&self, row: usize, field: &str) -> (value: DeltaResult<&StringPairs>)
        ensures
            match value {
                Ok(v) => self.pairs_at(row as int, field@) == Ok::<_, ErrorV>(*v),
                Err(e) => self.pairs_at(row as int, field@) == Err::<StringPairs, _>(e@),
            },
    {
        match self {
            Column::Pairs(v) => if row < v.len() {
                match &v[row] {
                    Some(pairs) => Ok(pairs),
                    None => Err(missing_error(field)),
                }
            } else {
                Err(missing_error(field))
            },
            _ => Err(wrong_type_error(field, "map")),
        }
    }

    /// The string at `row`, which must not be NULL.
    pub fn get_str(&self, row: usize, field: &str) -> (value: DeltaResult<&String>)
        ensures
            match value {
                Ok(s) => self.string_at(row as int, field@) == Ok::<_, ErrorV>(Some(s@)),
                Err(e) => required(self.string_at(row as int, field@), field@) == Err::<
                    Seq<char>,
                    _,
                >(e@),
            },
    {
        match self.get_opt_str(row, field) {
            Ok(Some(s)) => Ok(s),
            Ok(None) => Err(missing_error(field)),
            Err(e) => Err(e),
        }
    }

    /// The 64-bit integer at `row`, which must not be NULL.
    pub fn get_long(&self, row: usize, field: &str) -> (value: DeltaResult<i64>)
        ensures
            match value {
                Ok(v) => self.long_at(row as int, field@) == Ok::<_, ErrorV>(Some(v)),
                Err(e) => required(self.long_at(row as int, field@), field@) == Err::<i64, _>(e@),
            },
    {
        match self.get_opt_long(row, field) {
            Ok(Some(v)) => Ok(v),
            Ok(None) => Err(missing_error(field)),
            Err(e) => Err(e),
        }
    }
}

/// A value that must not be NULL.
pub open spec fn required<T>(value: Result<Option<T>, ErrorV>, field: Seq<char>) -> Result<
    T,
    ErrorV,
> {
    match value {
        Ok(Some(v)) => Ok(v),
        Ok(None) => Err(missing(field)),
        Err(e) => Err(e),
    }
}

} // verus!
