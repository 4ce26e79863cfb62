//! Resolving a predicate's columns against the table schema.

use std::sync::Arc;

use vstd::prelude::*;

use crate::error::{DeltaResult, Error, ErrorV};
use crate::expressions::column::{column_text, ColumnName, ColumnSet, Path};
use crate::expressions::expression::{PredV, Predicate, PredicateRef};
use crate::expressions::transforms::{
    pred_refs, rename_pred, renamed_pred, ColumnRenaming,
};
use crate::kernel_predicates::{constant_sql_where, EmptyColumnResolver};
use crate::schema::{
    fields_view, ColumnMappingMode, DataType, DataTypeV, FieldV, Schema, SchemaRef, SchemaV,
    StructField, StructType,
};
use crate::text::{clone_opt_string, lowercase, to_lowercase};

verus! {

/// A scan's predicate in terms of the columns that data files hold.
#[derive(Debug, PartialEq)]
pub enum PhysicalPredicate {
    /// The predicate, and the schema of the columns that it refers to.
    Present(PredicateRef, SchemaRef),
    /// The predicate is FALSE whatever the columns hold.
    StaticSkipAll,
    /// There is no predicate, or none that could skip anything.
    Absent,
}

/// A [`PhysicalPredicate`] as a mathematical value.
pub enum PhysicalPredicateV {
    Present(PredV, SchemaV),
    StaticSkipAll,
    Absent,
}

impl View for PhysicalPredicate {
    type V = PhysicalPredicateV;

    open spec fn view(&self) -> PhysicalPredicateV {
        match *self {
            PhysicalPredicate::Present(p, s) => PhysicalPredicateV::Present(p@, s@),
            PhysicalPredicate::StaticSkipAll => PhysicalPredicateV::StaticSkipAll,
            PhysicalPredicate::Absent => PhysicalPredicateV::Absent,
        }
    }
}

impl Clone for PhysicalPredicate {
    fn clone(&self) -> (copy: PhysicalPredicate)
        ensures
            copy@ == self@,
    {
        match self {
            PhysicalPredicate::Present(p, s) => PhysicalPredicate::Present(p.clone(), s.clone()),
            PhysicalPredicate::StaticSkipAll => PhysicalPredicate::StaticSkipAll,
            PhysicalPredicate::Absent => PhysicalPredicate::Absent,
        }
    }
}

/// A column path without regard to case.
pub open spec fn folded(path: Path) -> Path {
    path.map_values(|s: Seq<char>| lowercase(s))
}

/// A set of column paths without regard to case.
pub open spec fn folded_set(refs: Set<Path>) -> Set<Path> {
    Set::new(|f: Path| exists|r: Path| #[trigger] refs.contains(r) && f == folded(r))
}

/// Walks the first `n` of `fields` in order, depth first, and keeps the leaves whose case-folded
/// path is wanted. Gives the kept part of the schema under physical names, and the physical path
/// of each kept leaf by its case-folded path, added to `found`. Where two leaves fold to the same
/// path the first is kept. Arrays, maps and variants are dropped, as are structs of which nothing
/// is kept.
pub open spec fn referenced_fields(
    fields: SchemaV,
    n: nat,
    wanted: Set<Path>,
    mode: ColumnMappingMode,
    folded_prefix: Path,
    physical_prefix: Path,
    found: Map<Path, Path>,
) -> (SchemaV, Map<Path, Path>)
    decreases fields, n,
{
    if n == 0 || n > fields.len() {
        (seq![], found)
    } else {
        let (kept, found) = referenced_fields(
            fields,
            (n - 1) as nat,
            wanted,
            mode,
            folded_prefix,
            physical_prefix,
            found,
        );
        let field = fields[n - 1];
        let name = field.stored_name(mode);
        let folded_path = folded_prefix.push(lowercase(field.name));
        let physical_path = physical_prefix.push(name);
        match field.data_type {
            DataTypeV::Primitive(_) => if wanted.contains(folded_path) && !found.contains_key(
                folded_path,
            ) {
                (
                    kept.push(FieldV { name, ..field }),
                    found.insert(folded_path, physical_path),
                )
            } else {
                (kept, found)
            },
            DataTypeV::Struct(inner) => {
                let (inner_kept, found) = referenced_fields(
                    inner,
                    inner.len(),
                    wanted,
                    mode,
                    folded_path,
                    physical_path,
                    found,
                );
                if inner_kept.len() == 0 {
                    (kept, found)
                } else {
                    (
                        kept.push(
                            FieldV { name, data_type: DataTypeV::Struct(inner_kept), ..field },
                        ),
                        found,
                    )
                }
            },
            _ => (kept, found),
        }
    }
}

/// The referenced part of a table schema, and where its leaves are stored.
pub open spec fn resolve(schema: SchemaV, refs: Set<Path>, mode: ColumnMappingMode) -> (
    SchemaV,
    Map<Path, Path>,
) {
    referenced_fields(
        schema,
        schema.len(),
        folded_set(refs),
        mode,
        seq![],
        seq![],
        Map::empty(),
    )
}

/// The physical path of a column, by its case-folded path.
pub open spec fn physical_name_of(found: Map<Path, Path>) -> spec_fn(Path) -> Path {
    |path: Path| found[folded(path)]
}

/// What is said of a reference to a column that the table does not have.
pub open spec fn unknown_column(path: Path) -> ErrorV {
    ErrorV::MissingColumn("Predicate references unknown column: "@ + column_text(path))
}

/// The physical paths found so far, by case-folded logical path.
struct FoundLeaves {
    leaves: Vec<(ColumnName, ColumnName)>,
}

spec fn leaf_map(leaves: Seq<(ColumnName, ColumnName)>) -> Map<Path, Path>
    decreases leaves.len(),
{
    if leaves.len() == 0 {
        Map::empty()
    } else {
        leaf_map(leaves.drop_last()).insert(leaves.last().0@, leaves.last().1@)
    }
}

impl View for FoundLeaves {
    type V = Map<Path, Path>;

    closed spec fn view(&self) -> Map<Path, Path> {
        leaf_map(self.leaves@)
    }
}

impl FoundLeaves {
    fn new() -> (found: FoundLeaves)
        ensures
            found@ == Map::<Path, Path>::empty(),
    {
        FoundLeaves { leaves: Vec::new() }
    }

    fn get(&self, folded_path: &ColumnName) -> (physical: Option<&ColumnName>)
        ensures
            match physical {
                Some(p) => self@.contains_key(folded_path@) && self@[folded_path@] == p@,
                None => !self@.contains_key(folded_path@),
            },
    {
        let mut i: usize = self.leaves.len();
        assert(self.leaves@.take(i as int) =~= self.leaves@);
        while i > 0
            invariant
                i <= self.leaves@.len(),
                self@.contains_key(folded_path@) == leaf_map(
                    self.leaves@.take(i as int),
                ).contains_key(folded_path@),
                self@.contains_key(folded_path@) ==> self@[folded_path@] == leaf_map(
                    self.leaves@.take(i as int),
                )[folded_path@],
            decreases i,
        {
            assert(self.leaves@.take(i as int).drop_last() =~= self.leaves@.take(i - 1));
            assert(self.leaves@.take(i as int).last() == self.leaves@[i - 1]);
            i = i - 1;
            if self.leaves[i].0.same(folded_path) {
                return Some(&self.leaves[i].1);
            }
        }
        assert(self.leaves@.take(0) =~= seq![]);
        None
    }

    fn insert(&mut self, folded_path: ColumnName, physical: ColumnName)
        ensures
            final(self)@ == old(self)@.insert(folded_path@, physical@),
    {
        self.leaves.push((folded_path, physical));
        assert(self.leaves@.drop_last() =~= old(self).leaves@);
    }
}

fn fold_column(column: &ColumnName) -> (f: ColumnName)
    ensures
        f@ == folded(column@),
{
    let mut path: Vec<String> = Vec::new();
    for i in 0..column.path.len()
        invariant
            path@.len() == i,
            forall|j: int| 0 <= j < i ==> #[trigger] path@[j]@ == lowercase(column@[j]),
    {
        path.push(to_lowercase(column.path[i].as_str()));
    }
    let f = ColumnName { path };
    assert(f@ =~= folded(column@));
    f
}

fn push_name(prefix: &ColumnName, name: String) -> (path: ColumnName)
    ensures
        path@ == prefix@.push(name@),
{
    let mut path = prefix.clone();
    let ghost before = path@;
    path.path.push(name);
    assert(path@ =~= before.push(name@));
    path
}

/// Finds the referenced leaves of a schema and where they are stored.
fn get_referenced_fields(
    schema: &StructType,
    wanted: &ColumnSet,
    mode: ColumnMappingMode,
    folded_logical_path: &ColumnName,
    physical_path: &ColumnName,
    found: &mut FoundLeaves,
) -> (kept: Vec<StructField>)
    ensures
        (fields_view(kept@), final(found)@) == referenced_fields(
            schema@,
            schema@.len(),
            wanted@,
            mode,
            folded_logical_path@,
            physical_path@,
            old(found)@,
        ),
    decreases schema,
{
    let ghost start = found@;
    let mut kept: Vec<StructField> = Vec::new();
    assert(fields_view(kept@) =~= seq![]);
    for i in 0..schema.fields.len()
        invariant
            (fields_view(kept@), found@) == referenced_fields(
                schema@,
                i as nat,
                wanted@,
                mode,
                folded_logical_path@,
                physical_path@,
                start,
            ),
    {
        proof {
            assert(decreases_to!(*schema => schema.fields));
            assert(decreases_to!(schema.fields => schema.fields@));
            assert(decreases_to!(schema.fields@ => schema.fields@[i as int]));
            assert(schema@[i as int] == schema.fields@[i as int]@);
        }
        let ghost before = kept@;
        let field = &schema.fields[i];
        let physical_name = field.physical_name(mode).clone();
        let folded_path = push_name(folded_logical_path, to_lowercase(field.name.as_str()));
        let stored_path = push_name(physical_path, physical_name.clone());
        match &field.data_type {
            DataType::Primitive(p) => {
                // Delta column names are case-insensitive, so leaves are matched by their
                // case-folded path.
                if wanted.contains(&folded_path) && found.get(&folded_path).is_none() {
                    found.insert(folded_path, stored_path);
                    let renamed = StructField {
                        name: physical_name,
                        data_type: DataType::Primitive(*p),
                        nullable: field.nullable,
                        physical_name: clone_opt_string(&field.physical_name),
                    };
                    kept.push(renamed);
                    assert(fields_view(kept@) =~= fields_view(before).push(renamed@));
                }
            },
            // array and map fields are not eligible for data skipping, so they are filtered out.
            DataType::Array(_) => {},
            DataType::KeyValue(_) => {},
            DataType::Variant => {},
            DataType::Struct(inner) => {
                let inner_kept = get_referenced_fields(
                    inner,
                    wanted,
                    mode,
                    &folded_path,
                    &stored_path,
                    found,
                );
                if inner_kept.len() > 0 {
                    let data_type = DataType::Struct(Box::new(StructType::new(inner_kept)));
                    let renamed = StructField {
                        name: physical_name,
                        data_type,
                        nullable: field.nullable,
                        physical_name: clone_opt_string(&field.physical_name),
                    };
                    kept.push(renamed);
                    assert(fields_view(kept@) =~= fields_view(before).push(renamed@));
                }
            },
        }
    }
    kept
}

/// Replaces logical column names by physical ones.
struct ApplyColumnMappings {
    column_mappings: FoundLeaves,
}

impl ColumnRenaming for ApplyColumnMappings {
    closed spec fn covers(&self) -> Set<Path> {
        Set::new(|path: Path| self.column_mappings@.contains_key(folded(path)))
    }

    closed spec fn renaming(&self) -> spec_fn(Path) -> Path {
        physical_name_of(self.column_mappings@)
    }

    fn rename(&self, column: &ColumnName) -> (renamed: ColumnName) {
        match self.column_mappings.get(&fold_column(column)) {
            Some(physical) => physical.clone(),
            None => {
                assert(false);
                column.clone()
            },
        }
    }
}

/// Prefixes all column references in a predicate with a fixed path. The checkpoint path prefixes
/// stat expressions that already carry their `stats_parsed.*` root (e.g. `stats_parsed.minValues.x
/// > 100`) with `add`, yielding `add.stats_parsed.minValues.x > 100`.
pub struct PrefixColumns {
    pub prefix: ColumnName,
}

/// Puts `prefix` before a path.
pub open spec fn prefixed(prefix: Path) -> spec_fn(Path) -> Path {
    |path: Path| prefix + path
}

impl ColumnRenaming for PrefixColumns {
    open spec fn covers(&self) -> Set<Path> {
        Set::full()
    }

    open spec fn renaming(&self) -> spec_fn(Path) -> Path {
        prefixed(self.prefix@)
    }

    fn rename(&self, column: &ColumnName) -> (renamed: ColumnName) {
        self.prefix.join(column)
    }
}

/// Evaluates a static data skipping predicate, ignoring any column references, and returns true if
/// the predicate allows to statically skip all files.
pub fn can_statically_skip_all_files(predicate: &Predicate) -> (skip: bool)
    ensures
        skip == (constant_sql_where(predicate@, false) == Some(false)),
{
    match EmptyColumnResolver::eval_sql_where(predicate) {
        Some(value) => !value,
        None => false,
    }
}

/// Whether `physical` is what a predicate becomes: nothing but a mark if it is FALSE whatever the
/// columns hold; an error that names an unknown column if it refers to one; nothing if it refers
/// to no column; else the predicate over physical columns with the schema of these.
pub open spec fn resolved_as(
    predicate: PredV,
    logical_schema: SchemaV,
    mode: ColumnMappingMode,
    physical: DeltaResult<PhysicalPredicate>,
) -> bool {
    let refs = pred_refs(predicate);
    let (schema, found) = resolve(logical_schema, refs, mode);
    if constant_sql_where(predicate, false) == Some(false) {
        physical is Ok && physical->Ok_0@ == PhysicalPredicateV::StaticSkipAll
    } else if exists|r: Path| #[trigger] refs.contains(r) && !found.contains_key(folded(r)) {
        physical is Err && exists|r: Path| #[trigger]
            refs.contains(r) && !found.contains_key(folded(r)) && physical->Err_0@
                == unknown_column(r)
    } else if schema.len() == 0 {
        physical is Ok && physical->Ok_0@ == PhysicalPredicateV::Absent
    } else {
        physical is Ok && physical->Ok_0@ == PhysicalPredicateV::Present(
            renamed_pred(physical_name_of(found), predicate),
            schema,
        )
    }
}

impl PhysicalPredicate {
    /// If there is a predicate, verify the columns it references and apply column mapping. First,
    /// get the set of references; use that to filter the schema to only the columns of interest
    /// (and verify that all referenced columns exist); then use the resulting logical/physical
    /// mappings to rewrite the expression with physical column names.
    ///
    /// NOTE: It is possible the predicate resolves to FALSE even ignoring column references,
    /// e.g. `col > 10 AND FALSE`. Such predicates can statically skip the whole query.
    pub fn try_new(
        predicate: &Predicate,
        logical_schema: &Schema,
        column_mapping_mode: ColumnMappingMode,
    ) -> (physical: DeltaResult<PhysicalPredicate>)
        ensures
            resolved_as(predicate@, logical_schema@, column_mapping_mode, physical),
    {
        if can_statically_skip_all_files(predicate) {
            return Ok(PhysicalPredicate::StaticSkipAll);
        }
        let references = predicate.references();
        // Predicate references are matched by case-folded path so that multiple references to the
        // same column with different casings (e.g., `col > 5 AND COL < 10`) all resolve.
        let mut folded_references = ColumnSet::new();
        let members = references.members();
        for i in 0..members.len()
            invariant
                forall|f: Path| #[trigger]
                    folded_references@.contains(f) <==> exists|j: int|
                        0 <= j < i && f == folded((#[trigger] members@[j])@),
        {
            let ghost before = folded_references@;
            folded_references.insert(fold_column(&members[i]));
            assert forall|f: Path| #[trigger] folded_references@.contains(f) implies exists|j: int|
                0 <= j < i + 1 && f == folded((#[trigger] members@[j])@) by {
                if before.contains(f) {
                    let j = choose|j: int| 0 <= j < i && f == folded((#[trigger] members@[j])@);
                    assert(f == folded(members@[j]@));
                } else {
                    assert(f == folded(members@[i as int]@));
                }
            }
        }
        proof {
            let refs = pred_refs(predicate@);
            assert forall|f: Path| #[trigger] folded_references@.contains(f) implies folded_set(
                refs,
            ).contains(f) by {
                let j = choose|j: int|
                    0 <= j < members@.len() && f == folded((#[trigger] members@[j])@);
                assert(refs.contains(members@[j]@));
            }
            assert forall|f: Path| #[trigger] folded_set(refs).contains(
                f,
            ) implies folded_references@.contains(f) by {
                let r = choose|r: Path| #[trigger] refs.contains(r) && f == folded(r);
                let j = choose|j: int| 0 <= j < members@.len() && #[trigger] members@[j]@ == r;
                assert(f == folded(members@[j]@));
            }
            assert(folded_references@ =~= folded_set(refs));
        }
        let mut found = FoundLeaves::new();
        let top = ColumnName { path: Vec::new() };
        assert(top@ =~= seq![]);
        let kept = get_referenced_fields(
            logical_schema,
            &folded_references,
            column_mapping_mode,
            &top,
            &top,
            &mut found,
        );
        for i in 0..members.len()
            invariant
                forall|j: int|
                    0 <= j < i ==> found@.contains_key(folded((#[trigger] members@[j])@)),
                forall|p: Path|
                    references@.contains(p) <==> exists|j: int|
                        0 <= j < members@.len() && #[trigger] members@[j]@ == p,
                references@ == pred_refs(predicate@),
                constant_sql_where(predicate@, false) != Some(false),
                found@ == resolve(
                    logical_schema@,
                    pred_refs(predicate@),
                    column_mapping_mode,
                ).1,
        {
            if found.get(&fold_column(&members[i])).is_none() {
                // Schema traversal failed to resolve a column referenced by the predicate.
                //
                // NOTE: It's a pretty serious engine bug to get this far with a query whose WHERE
                // clause has invalid column references. Data skipping is best-effort and the
                // predicate anyway needs to be evaluated against every row of data -- which is
                // impossible if the columns are missing/invalid.
                let ghost r = members@[i as int]@;
                assert(references@.contains(r));
                return Err(
                    Error::MissingColumn(
                        "Predicate references unknown column: ".to_string().concat(
                            members[i].text().as_str(),
                        ),
                    ),
                );
            }
        }
        assert forall|r: Path| #[trigger] pred_refs(predicate@).contains(
            r,
        ) implies found@.contains_key(folded(r)) by {
            let j = choose|j: int| 0 <= j < members@.len() && #[trigger] members@[j]@ == r;
            assert(found@.contains_key(folded(members@[j]@)));
        }
        if kept.len() == 0 {
            // The predicate doesn't statically skip all files, and it doesn't reference any columns
            // that could dynamically change its behavior, so it's useless for data skipping.
            return Ok(PhysicalPredicate::Absent);
        }
        let apply_mappings = ApplyColumnMappings { column_mappings: found };
        assert(pred_refs(predicate@).subset_of(apply_mappings.covers()));
        let physical = rename_pred(&apply_mappings, predicate);
        let schema = StructType::new(kept);
        Ok(PhysicalPredicate::Present(Arc::new(physical), Arc::new(schema)))
    }
}

} // verus!
