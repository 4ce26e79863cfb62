//! How the rows of a data file become rows of the table.

use std::collections::HashMap;
use std::sync::Arc;

use vstd::prelude::*;
use vstd::std_specs::hash::group_hash_axioms;

use super::partition_values::ScalarParser;
use crate::engine::StringPairs;
use crate::error::{DeltaResult, Error, ErrorV};
use crate::expressions::expression::{
    clone_exprs, expr_view, exprs_view, BinaryExpressionOp, ExprV, Expression, ExpressionRef,
    FieldPatch, FieldPatchV, StructPatch, StructPatchV,
};
use crate::expressions::scalar::{Scalar, ScalarV};
use crate::schema::{ColumnMappingMode, DataType, DataTypeV, Schema, SchemaV};
use crate::text::{decimal, decimal_text, opt_string_view};

verus! {

/// One step from a data file's columns to the table's.
#[derive(Debug, PartialEq)]
pub enum FieldTransformSpec {
    /// Insert an expression after the named input column, or before all of them.
    StaticInsert { insert_after: Option<String>, expr: ExpressionRef },
    /// Replace the named input column.
    StaticReplace { field_name: String, expr: ExpressionRef },
    /// Drop the named input column.
    StaticDrop { field_name: String },
    /// Insert a partition column, given by its position in the logical schema, after the named
    /// input column or before all of them. Its value comes from file metadata.
    MetadataDerivedColumn { field_index: usize, insert_after: Option<String> },
    /// Replace the named column by row ids: the materialized ones where there are any, else the
    /// file's base row id plus the row's position.
    GenerateRowId { field_name: String, row_index_field_name: String },
}

/// The steps for a scan.
pub type TransformSpec = Vec<FieldTransformSpec>;

// ---------------------------------------------------------------------------------------------
// Building a patch
// ---------------------------------------------------------------------------------------------

impl StructPatchV {
    /// The patch that changes nothing.
    pub open spec fn empty() -> StructPatchV {
        StructPatchV {
            input_path: None,
            prepended_fields: seq![],
            field_patches: seq![],
            appended_fields: seq![],
        }
    }

    /// The position of the first patch of a field among the first `n`; `n` if there is none.
    pub open spec fn position(self, name: Seq<char>, n: nat) -> nat
        decreases n,
    {
        if n == 0 {
            0
        } else {
            let before = self.position(name, (n - 1) as nat);
            if before < n - 1 {
                before
            } else if self.field_patches[n - 1].name == name {
                (n - 1) as nat
            } else {
                n
            }
        }
    }

    /// The patch of a field: kept with nothing inserted, unless it was changed before.
    pub open spec fn field_patch(self, name: Seq<char>) -> FieldPatchV {
        let i = self.position(name, self.field_patches.len());
        if i < self.field_patches.len() {
            self.field_patches[i as int]
        } else {
            FieldPatchV { name, keep_input: true, insertions: seq![] }
        }
    }

    /// The patch with the patch of one field replaced.
    pub open spec fn with_field_patch(self, patch: FieldPatchV) -> StructPatchV {
        let i = self.position(patch.name, self.field_patches.len());
        StructPatchV {
            field_patches: if i < self.field_patches.len() {
                self.field_patches.update(i as int, patch)
            } else {
                self.field_patches.push(patch)
            },
            ..self
        }
    }

    /// Inserts an expression after a field, or before all of them.
    pub open spec fn with_inserted(self, after: Option<Seq<char>>, e: ExprV) -> StructPatchV {
        match after {
            Some(name) => {
                let patch = self.field_patch(name);
                self.with_field_patch(
                    FieldPatchV { insertions: patch.insertions.push(e), ..patch },
                )
            },
            None => StructPatchV { prepended_fields: self.prepended_fields.push(e), ..self },
        }
    }

    /// Puts an expression in place of a field.
    pub open spec fn with_replaced(self, name: Seq<char>, e: ExprV) -> StructPatchV {
        let patch = self.field_patch(name);
        self.with_field_patch(
            FieldPatchV { keep_input: false, insertions: patch.insertions.push(e), ..patch },
        )
    }

    /// Drops a field.
    pub open spec fn with_dropped(self, name: Seq<char>) -> StructPatchV {
        let patch = self.field_patch(name);
        self.with_field_patch(FieldPatchV { keep_input: false, ..patch })
    }
}

proof fn lemma_position(p: StructPatchV, name: Seq<char>, i: nat, n: nat)
    requires
        i <= n <= p.field_patches.len(),
        forall|j: int| 0 <= j < i ==> (#[trigger] p.field_patches[j]).name != name,
        i < n ==> p.field_patches[i as int].name == name,
    ensures
        p.position(name, n) == i,
    decreases n,
{
    if n > 0 {
        if i < n - 1 {
            lemma_position(p, name, i, (n - 1) as nat);
        } else if i == n - 1 {
            lemma_position(p, name, i, (n - 1) as nat);
        } else {
            lemma_position(p, name, (n - 1) as nat, (n - 1) as nat);
        }
    }
}

impl StructPatch {
    /// The patch of the whole row that changes nothing.
    pub fn new_top_level() -> (patch: StructPatch)
        ensures
            patch@ == StructPatchV::empty(),
    {
        let patch = StructPatch {
            input_path: None,
            prepended_fields: Vec::new(),
            field_patches: Vec::new(),
            appended_fields: Vec::new(),
        };
        assert(exprs_view(patch.prepended_fields) =~= seq![]);
        assert(exprs_view(patch.appended_fields) =~= seq![]);
        assert(patch@.field_patches =~= seq![]);
        patch
    }

    /// The patch of a field, if it has one.
    pub fn get(&self, name: &str) -> (patch: Option<&FieldPatch>)
        ensures
            match patch {
                Some(p) => self@.position(name@, self@.field_patches.len())
                    < self@.field_patches.len() && self@.field_patch(name@).keep_input
                    == p.keep_input && self@.field_patch(name@).insertions == exprs_view(
                    p.insertions,
                ),
                None => self@.position(name@, self@.field_patches.len())
                    == self@.field_patches.len(),
            },
    {
        let i = self.find(name);
        if i < self.field_patches.len() {
            Some(&self.field_patches[i].1)
        } else {
            None
        }
    }

    fn find(&self, name: &str) -> (i: usize)
        ensures
            i == self@.position(name@, self@.field_patches.len()),
            i <= self.field_patches@.len(),
    {
        let wanted = name.to_string();
        let mut i: usize = 0;
        while i < self.field_patches.len()
            invariant
                i <= self.field_patches@.len(),
                wanted@ == name@,
                forall|j: int|
                    0 <= j < i ==> (#[trigger] self@.field_patches[j]).name != name@,
            decreases self.field_patches@.len() - i,
        {
            assert(self@.field_patches[i as int].name == self.field_patches@[i as int].0@);
            if self.field_patches[i].0 == wanted {
                proof {
                    lemma_position(self@, name@, i as nat, self@.field_patches.len());
                }
                return i;
            }
            i += 1;
        }
        proof {
            lemma_position(self@, name@, i as nat, self@.field_patches.len());
        }
        i
    }

    /// Puts a new patch of a field in place.
    fn edit(self, name: &str, keep_input: Option<bool>, insertion: Option<ExpressionRef>) -> (patch:
        StructPatch)
        ensures
            patch@ == self@.with_field_patch(
                FieldPatchV {
                    name: name@,
                    keep_input: match keep_input {
                        Some(keep) => keep,
                        None => self@.field_patch(name@).keep_input,
                    },
                    insertions: match insertion {
                        Some(e) => self@.field_patch(name@).insertions.push(e@),
                        None => self@.field_patch(name@).insertions,
                    },
                },
            ),
    {
        let ghost start = self@;
        let i = self.find(name);
        let mut patch = self;
        let (keep_before, mut insertions) = if i < patch.field_patches.len() {
            assert(start.field_patches[i as int].insertions == exprs_view(
                patch.field_patches@[i as int].1.insertions,
            ));
            (
                patch.field_patches[i].1.keep_input,
                clone_exprs(&patch.field_patches[i].1.insertions),
            )
        } else {
            let none: Vec<ExpressionRef> = Vec::new();
            assert(exprs_view(none) =~= seq![]);
            (true, none)
        };
        assert(exprs_view(insertions) == start.field_patch(name@).insertions);
        assert(keep_before == start.field_patch(name@).keep_input);
        let ghost before = insertions;
        if let Some(e) = insertion {
            insertions.push(e);
            assert(exprs_view(insertions) =~= exprs_view(before).push(e@));
        }
        let keep_input = match keep_input {
            Some(keep) => keep,
            None => keep_before,
        };
        let field_patch = FieldPatch { keep_input, insertions };
        let ghost made = FieldPatchV {
            name: name@,
            keep_input,
            insertions: exprs_view(insertions),
        };
        if i < patch.field_patches.len() {
            patch.field_patches.set(i, (name.to_string(), field_patch));
            assert(patch@.field_patches =~= start.field_patches.update(i as int, made));
        } else {
            patch.field_patches.push((name.to_string(), field_patch));
            assert(patch@.field_patches =~= start.field_patches.push(made));
        }
        assert(patch@ =~= start.with_field_patch(made));
        patch
    }

    /// Inserts an expression after a field, or before all of them.
    pub fn with_inserted_field(self, after: &Option<String>, e: ExpressionRef) -> (patch:
        StructPatch)
        ensures
            patch@ == self@.with_inserted(opt_string_view(*after), e@),
    {
        let ghost start = self@;
        match after {
            Some(name) => {
                proof {
                    lemma_field_patch_name(start, name@);
                }
                self.edit(name.as_str(), None, Some(e))
            },
            None => {
                let mut patch = self;
                let ghost before = patch.prepended_fields;
                patch.prepended_fields.push(e);
                assert(exprs_view(patch.prepended_fields) =~= exprs_view(before).push(e@));
                assert(patch@.field_patches =~= start.field_patches);
                patch
            },
        }
    }

    /// Puts an expression in place of a field.
    pub fn with_replaced_field(self, name: &str, e: ExpressionRef) -> (patch: StructPatch)
        ensures
            patch@ == self@.with_replaced(name@, e@),
    {
        proof {
            lemma_field_patch_name(self@, name@);
        }
        self.edit(name, Some(false), Some(e))
    }

    /// Drops a field.
    pub fn with_dropped_field(self, name: &str) -> (patch: StructPatch)
        ensures
            patch@ == self@.with_dropped(name@),
    {
        proof {
            lemma_field_patch_name(self@, name@);
        }
        self.edit(name, Some(false), None)
    }
}

proof fn lemma_field_patch_name(p: StructPatchV, name: Seq<char>)
    ensures
        p.field_patch(name).name == name,
{
    lemma_position_name(p, name, p.field_patches.len());
}

proof fn lemma_position_name(p: StructPatchV, name: Seq<char>, n: nat)
    requires
        n <= p.field_patches.len(),
    ensures
        p.position(name, n) <= n,
        p.position(name, n) < n ==> p.field_patches[p.position(name, n) as int].name == name,
    decreases n,
{
    if n > 0 {
        lemma_position_name(p, name, (n - 1) as nat);
    }
}

// ---------------------------------------------------------------------------------------------
// Partition values
// ---------------------------------------------------------------------------------------------

/// The value recorded for a key among the first `n` entries; of two entries the later one counts.
pub open spec fn recorded(pairs: Seq<(String, String)>, key: Seq<char>, n: nat) -> Option<Seq<char>>
    decreases n,
{
    if n == 0 || n > pairs.len() {
        None
    } else if pairs[n - 1].0@ == key {
        Some(pairs[n - 1].1@)
    } else {
        recorded(pairs, key, (n - 1) as nat)
    }
}

fn find_value<'a>(pairs: &'a StringPairs, key: &String) -> (value: Option<&'a String>)
    ensures
        match value {
            Some(v) => recorded(pairs@, key@, pairs@.len()) == Some(v@),
            None => recorded(pairs@, key@, pairs@.len()) is None,
        },
{
    let mut i: usize = pairs.len();
    while i > 0
        invariant
            i <= pairs@.len(),
            recorded(pairs@, key@, pairs@.len()) == recorded(pairs@, key@, i as nat),
        decreases i,
    {
        i = i - 1;
        if pairs[i].0 == *key {
            return Some(&pairs[i].1);
        }
    }
    None
}

/// What is said of a partition column that the schema does not have.
pub open spec fn out_of_bounds(field_index: usize) -> ErrorV {
    ErrorV::InternalError(
        "out of bounds partition column field index "@ + decimal(field_index as nat),
    )
}

/// The value of a partition column: NULL if none is recorded.
pub open spec fn partition_value<P: ScalarParser>(
    parser: &P,
    schema: SchemaV,
    field_index: usize,
    pairs: Seq<(String, String)>,
    mode: ColumnMappingMode,
) -> Result<ScalarV, ErrorV> {
    if field_index >= schema.len() {
        Err(out_of_bounds(field_index))
    } else {
        let field = schema[field_index as int];
        match recorded(pairs, field.stored_name(mode), pairs.len()) {
            None => Ok(ScalarV::Null(field.data_type)),
            Some(raw) => match field.data_type {
                DataTypeV::Primitive(t) => parser.parsed(t, raw),
                _ => Err(ErrorV::Generic("Unexpected partition column type"@)),
            },
        }
    }
}

/// The value of a partition column of a file.
pub fn parse_partition_value<P: ScalarParser>(
    parser: &P,
    logical_schema: &Schema,
    field_index: usize,
    partition_values: &StringPairs,
    mode: ColumnMappingMode,
) -> (value: DeltaResult<Scalar>)
    ensures
        match value {
            Ok(s) => partition_value(
                parser,
                logical_schema@,
                field_index,
                partition_values@,
                mode,
            ) == Ok::<_, ErrorV>(s@),
            Err(e) => partition_value(
                parser,
                logical_schema@,
                field_index,
                partition_values@,
                mode,
            ) == Err::<ScalarV, _>(e@),
        },
{
    if field_index >= logical_schema.fields.len() {
        return Err(
            Error::InternalError(
                "out of bounds partition column field index ".to_string().concat(
                    decimal_text(field_index as u64).as_str(),
                ),
            ),
        );
    }
    let field = &logical_schema.fields[field_index];
    assert(field@ == logical_schema@[field_index as int]);
    match find_value(partition_values, field.physical_name(mode)) {
        None => Ok(Scalar::Null(field.data_type.clone())),
        Some(raw) => match &field.data_type {
            DataType::Primitive(t) => parser.parse_scalar(*t, raw),
            _ => Err(Error::generic("Unexpected partition column type")),
        },
    }
}

/// The values of the partition columns that the first `n` steps insert, by field position; the
/// error of the first that has none.
pub open spec fn partition_scalars<P: ScalarParser>(
    parser: &P,
    schema: SchemaV,
    specs: Seq<FieldTransformSpec>,
    n: nat,
    pairs: Seq<(String, String)>,
    mode: ColumnMappingMode,
) -> Result<Map<usize, ScalarV>, ErrorV>
    decreases n,
{
    if n == 0 || n > specs.len() {
        Ok(Map::empty())
    } else {
        match partition_scalars(parser, schema, specs, (n - 1) as nat, pairs, mode) {
            Err(e) => Err(e),
            Ok(values) => match specs[n - 1] {
                FieldTransformSpec::MetadataDerivedColumn { field_index, .. } => {
                    match partition_value(parser, schema, field_index, pairs, mode) {
                        Ok(value) => Ok(values.insert(field_index, value)),
                        Err(e) => Err(e),
                    }
                },
                _ => Ok(values),
            },
        }
    }
}

/// The scalars of a map, as mathematical values.
pub open spec fn scalars_view(values: Map<usize, Scalar>) -> Map<usize, ScalarV> {
    values.map_values(|s: Scalar| s@)
}

proof fn lemma_scalars_error<P: ScalarParser>(
    parser: &P,
    schema: SchemaV,
    specs: Seq<FieldTransformSpec>,
    n: nat,
    m: nat,
    pairs: Seq<(String, String)>,
    mode: ColumnMappingMode,
)
    requires
        n <= m <= specs.len(),
        partition_scalars(parser, schema, specs, n, pairs, mode) is Err,
    ensures
        partition_scalars(parser, schema, specs, m, pairs, mode) == partition_scalars(
            parser,
            schema,
            specs,
            n,
            pairs,
            mode,
        ),
    decreases m,
{
    if n < m {
        lemma_scalars_error(parser, schema, specs, n, (m - 1) as nat, pairs, mode);
    }
}

/// Parses the partition values of a file that a transform inserts.
pub fn parse_partition_values<P: ScalarParser>(
    parser: &P,
    logical_schema: &Schema,
    transform_spec: &TransformSpec,
    partition_values: &StringPairs,
    mode: ColumnMappingMode,
) -> (values: DeltaResult<HashMap<usize, Scalar>>)
    ensures
        match values {
            Ok(values) => partition_scalars(
                parser,
                logical_schema@,
                transform_spec@,
                transform_spec@.len(),
                partition_values@,
                mode,
            ) == Ok::<_, ErrorV>(scalars_view(values@)),
            Err(e) => partition_scalars(
                parser,
                logical_schema@,
                transform_spec@,
                transform_spec@.len(),
                partition_values@,
                mode,
            ) == Err::<Map<usize, ScalarV>, _>(e@),
        },
{
    broadcast use group_hash_axioms;

    let mut values: HashMap<usize, Scalar> = HashMap::new();
    assert(scalars_view(values@) =~= Map::empty());
    for i in 0..transform_spec.len()
        invariant
            partition_scalars(
                parser,
                logical_schema@,
                transform_spec@,
                i as nat,
                partition_values@,
                mode,
            ) == Ok::<_, ErrorV>(scalars_view(values@)),
    {
        if let FieldTransformSpec::MetadataDerivedColumn { field_index, insert_after } =
            &transform_spec[i] {
            match parse_partition_value(
                parser,
                logical_schema,
                *field_index,
                partition_values,
                mode,
            ) {
                Ok(value) => {
                    let ghost before = values@;
                    values.insert(*field_index, value);
                    assert(scalars_view(values@) =~= scalars_view(before).insert(
                        *field_index,
                        value@,
                    ));
                },
                Err(e) => {
                    proof {
                        lemma_scalars_error(
                            parser,
                            logical_schema@,
                            transform_spec@,
                            (i + 1) as nat,
                            transform_spec@.len(),
                            partition_values@,
                            mode,
                        );
                    }
                    return Err(e);
                },
            }
        }
    }
    Ok(values)
}

// ---------------------------------------------------------------------------------------------
// The transform of a file
// ---------------------------------------------------------------------------------------------

/// What is said when a file has no base row id but row ids are wanted.
pub open spec fn no_base_row_id() -> ErrorV {
    ErrorV::Generic("Asked to generate RowIds, but no baseRowId found."@)
}

/// What is said of a partition column without a value.
pub open spec fn missing_partition_value(field_index: usize) -> ErrorV {
    ErrorV::MissingData("missing partition value for field index "@ + decimal(field_index as nat))
}

/// The row ids of a file: the materialized ones where there are any, else the base row id plus
/// the row's position.
pub open spec fn row_id_expr(
    field_name: Seq<char>,
    base_row_id: i64,
    row_index_field_name: Seq<char>,
) -> ExprV {
    ExprV::coalesce(
        seq![
            ExprV::Column(seq![field_name]),
            ExprV::Binary(
                BinaryExpressionOp::Plus,
                Box::new(ExprV::Literal(ScalarV::Long(base_row_id))),
                Box::new(ExprV::Column(seq![row_index_field_name])),
            ),
        ],
    )
}

/// The patch that the first `n` steps make, and the partition values that are left; the error of
/// the first step that cannot be taken.
pub open spec fn transform_patch(
    specs: Seq<FieldTransformSpec>,
    n: nat,
    values: Map<usize, ScalarV>,
    base_row_id: Option<i64>,
) -> Result<(StructPatchV, Map<usize, ScalarV>), ErrorV>
    decreases n,
{
    if n == 0 || n > specs.len() {
        Ok((StructPatchV::empty(), values))
    } else {
        match transform_patch(specs, (n - 1) as nat, values, base_row_id) {
            Err(e) => Err(e),
            Ok((patch, values)) => match specs[n - 1] {
                FieldTransformSpec::StaticInsert { insert_after, expr } => Ok(
                    (patch.with_inserted(opt_string_view(insert_after), expr@), values),
                ),
                FieldTransformSpec::StaticReplace { field_name, expr } => Ok(
                    (patch.with_replaced(field_name@, expr@), values),
                ),
                FieldTransformSpec::StaticDrop { field_name } => Ok(
                    (patch.with_dropped(field_name@), values),
                ),
                FieldTransformSpec::MetadataDerivedColumn { field_index, insert_after } => {
                    if values.contains_key(field_index) {
                        Ok(
                            (
                                patch.with_inserted(
                                    opt_string_view(insert_after),
                                    ExprV::Literal(values[field_index]),
                                ),
                                values.remove(field_index),
                            ),
                        )
                    } else {
                        Err(missing_partition_value(field_index))
                    }
                },
                FieldTransformSpec::GenerateRowId { field_name, row_index_field_name } => {
                    match base_row_id {
                        Some(base) => Ok(
                            (
                                patch.with_replaced(
                                    field_name@,
                                    row_id_expr(field_name@, base, row_index_field_name@),
                                ),
                                values,
                            ),
                        ),
                        None => Err(no_base_row_id()),
                    }
                },
            },
        }
    }
}

/// The transform of a file.
pub open spec fn transform_expr(
    specs: Seq<FieldTransformSpec>,
    values: Map<usize, ScalarV>,
    base_row_id: Option<i64>,
) -> Result<ExprV, ErrorV> {
    match transform_patch(specs, specs.len(), values, base_row_id) {
        Ok((patch, _)) => Ok(ExprV::StructPatch(Box::new(patch))),
        Err(e) => Err(e),
    }
}

proof fn lemma_patch_error(
    specs: Seq<FieldTransformSpec>,
    n: nat,
    m: nat,
    values: Map<usize, ScalarV>,
    base_row_id: Option<i64>,
)
    requires
        n <= m <= specs.len(),
        transform_patch(specs, n, values, base_row_id) is Err,
    ensures
        transform_patch(specs, m, values, base_row_id) == transform_patch(
            specs,
            n,
            values,
            base_row_id,
        ),
    decreases m,
{
    if n < m {
        lemma_patch_error(specs, n, (m - 1) as nat, values, base_row_id);
    }
}

fn row_id_expression(field_name: &String, base_row_id: i64, row_index_field_name: &String) -> (e:
    Expression)
    ensures
        e@ == row_id_expr(field_name@, base_row_id, row_index_field_name@),
{
    proof {
        reveal_with_fuel(expr_view, 2);
    }
    let base: ExpressionRef = Arc::new(Expression::Literal(Scalar::Long(base_row_id)));
    let index: ExpressionRef = Arc::new(Expression::top(row_index_field_name.as_str()));
    Expression::coalesce(
        Expression::top(field_name.as_str()),
        Expression::Binary(BinaryExpressionOp::Plus, base, index),
    )
}

/// Builds the transform of a file from its partition values and its base row id.
pub fn get_transform_expr(
    transform_spec: &TransformSpec,
    metadata_values: HashMap<usize, Scalar>,
    base_row_id: Option<i64>,
) -> (expr: DeltaResult<ExpressionRef>)
    ensures
        match expr {
            Ok(e) => transform_expr(transform_spec@, scalars_view(metadata_values@), base_row_id)
                == Ok::<_, ErrorV>(e@),
            Err(e) => transform_expr(transform_spec@, scalars_view(metadata_values@), base_row_id)
                == Err::<ExprV, _>(e@),
        },
{
    broadcast use group_hash_axioms;

    let ghost given = scalars_view(metadata_values@);
    let ghost specs = transform_spec@;
    let mut values = metadata_values;
    let mut patch = StructPatch::new_top_level();
    for i in 0..transform_spec.len()
        invariant
            specs == transform_spec@,
            given == scalars_view(metadata_values@),
            transform_patch(specs, i as nat, given, base_row_id) == Ok::<_, ErrorV>(
                (patch@, scalars_view(values@)),
            ),
    {
        match &transform_spec[i] {
            FieldTransformSpec::StaticInsert { insert_after, expr } => {
                patch = patch.with_inserted_field(insert_after, expr.clone());
            },
            FieldTransformSpec::StaticReplace { field_name, expr } => {
                patch = patch.with_replaced_field(field_name.as_str(), expr.clone());
            },
            FieldTransformSpec::StaticDrop { field_name } => {
                patch = patch.with_dropped_field(field_name.as_str());
            },
            FieldTransformSpec::MetadataDerivedColumn { field_index, insert_after } => {
                let ghost before = values@;
                match values.remove(field_index) {
                    Some(value) => {
                        assert(scalars_view(values@) =~= scalars_view(before).remove(*field_index));
                        let literal: ExpressionRef = Arc::new(Expression::Literal(value));
                        patch = patch.with_inserted_field(insert_after, literal);
                    },
                    None => {
                        proof {
                            lemma_patch_error(
                                specs,
                                (i + 1) as nat,
                                specs.len(),
                                given,
                                base_row_id,
                            );
                        }
                        return Err(
                            Error::MissingData(
                                "missing partition value for field index ".to_string().concat(
                                    decimal_text(*field_index as u64).as_str(),
                                ),
                            ),
                        );
                    },
                }
            },
            FieldTransformSpec::GenerateRowId { field_name, row_index_field_name } => {
                match base_row_id {
                    Some(base) => {
                        let e = row_id_expression(field_name, base, row_index_field_name);
                        patch = patch.with_replaced_field(field_name.as_str(), Arc::new(e));
                    },
                    None => {
                        proof {
                            lemma_patch_error(
                                specs,
                                (i + 1) as nat,
                                specs.len(),
                                given,
                                base_row_id,
                            );
                        }
                        return Err(
                            Error::generic("Asked to generate RowIds, but no baseRowId found."),
                        );
                    },
                }
            },
        }
    }
    Ok(Arc::new(Expression::StructPatch(patch)))
}

} // verus!
