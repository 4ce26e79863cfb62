//! Column paths and sets of them.

use vstd::prelude::*;

use crate::text::{clone_strings, strings_eq, strings_view, text_eq};

verus! {

/// A column path: the field names from the top-level column down to the leaf.
pub type Path = Seq<Seq<char>>;

/// The name of a possibly nested column.
#[derive(Debug, PartialEq)]
pub struct ColumnName {
    pub path: Vec<String>,
}

impl View for ColumnName {
    type V = Path;

    open spec fn view(&self) -> Path {
        strings_view(self.path@)
    }
}

impl Clone for ColumnName {
    fn clone(&self) -> (copy: ColumnName)
        ensures
            copy@ == self@,
    {
        ColumnName { path: clone_strings(&self.path) }
    }
}

impl ColumnName {
    /// The column with the given path.
    pub fn new(path: Vec<String>) -> (column: ColumnName)
        ensures
            column@ == strings_view(path@),
    {
        ColumnName { path }
    }

    /// A top-level column.
    pub fn top(name: &str) -> (column: ColumnName)
        ensures
            column@ == seq![name@],
    {
        let mut path: Vec<String> = Vec::new();
        path.push(name.to_string());
        let column = ColumnName { path };
        assert(column@ =~= seq![name@]);
        column
    }

    /// A column one level below a top-level column.
    pub fn nested(parent: &str, name: &str) -> (column: ColumnName)
        ensures
            column@ == seq![parent@, name@],
    {
        let mut path: Vec<String> = Vec::new();
        path.push(parent.to_string());
        path.push(name.to_string());
        let column = ColumnName { path };
        assert(column@ =~= seq![parent@, name@]);
        column
    }

    /// The column reached from `self` by following the path of `other`.
    pub fn join(&self, other: &ColumnName) -> (column: ColumnName)
        ensures
            column@ == self@ + other@,
    {
        let mut path = clone_strings(&self.path);
        let mut rest = clone_strings(&other.path);
        path.append(&mut rest);
        let column = ColumnName { path };
        assert(column@ =~= self@ + other@);
        column
    }

    /// Whether both names denote the same path.
    pub fn same(&self, other: &ColumnName) -> (same: bool)
        ensures
            same == (self@ == other@),
    {
        strings_eq(&self.path, &other.path)
    }

    /// Whether the first step of the path is `name`.
    pub fn starts_with(&self, name: &str) -> (starts: bool)
        ensures
            starts == (self@.len() > 0 && self@[0] == name@),
    {
        self.path.len() > 0 && text_eq(self.path[0].as_str(), name)
    }
}

/// A set of column names.
#[derive(Debug, PartialEq)]
pub struct ColumnSet {
    names: Vec<ColumnName>,
}

impl View for ColumnSet {
    type V = Set<Path>;

    closed spec fn view(&self) -> Set<Path> {
        Set::new(|p: Path| exists|i: int| 0 <= i < self.names@.len() && #[trigger] self.names@[i]@ == p)
    }
}

impl Clone for ColumnSet {
    fn clone(&self) -> (copy: ColumnSet)
        ensures
            copy@ == self@,
    {
        let mut copy = ColumnSet { names: Vec::new() };
        for i in 0..self.names.len()
            invariant
                copy.names@.len() == i,
                forall|j: int| 0 <= j < i ==> #[trigger] copy.names@[j]@ == self.names@[j]@,
        {
            copy.names.push(self.names[i].clone());
        }
        assert forall|p: Path| #[trigger] self@.contains(p) implies copy@.contains(p) by {
            let i = choose|i: int| 0 <= i < self.names@.len() && #[trigger] self.names@[i]@ == p;
            assert(copy.names@[i]@ == p);
        }
        assert(copy@ =~= self@);
        copy
    }
}

impl ColumnSet {
    /// The empty set.
    pub fn new() -> (set: ColumnSet)
        ensures
            set@ == Set::<Path>::empty(),
    {
        let set = ColumnSet { names: Vec::new() };
        assert(set@ =~= Set::<Path>::empty());
        set
    }

    /// Whether `column` is in the set.
    pub fn contains(&self, column: &ColumnName) -> (found: bool)
        ensures
            found == self@.contains(column@),
    {
        for i in 0..self.names.len()
            invariant
                forall|j: int| 0 <= j < i ==> #[trigger] self.names@[j]@ != column@,
        {
            if self.names[i].same(column) {
                return true;
            }
        }
        false
    }

    /// Adds `column` to the set.
    pub fn insert(&mut self, column: ColumnName)
        ensures
            final(self)@ == old(self)@.insert(column@),
    {
        if self.contains(&column) {
            assert(self@ =~= old(self)@.insert(column@));
            return;
        }
        self.names.push(column);
        let ghost before = old(self).names@;
        assert(self.names@ == before.push(column));
        assert forall|p: Path| #[trigger] old(self)@.insert(column@).contains(p) implies self@.contains(
            p,
        ) by {
            if p == column@ {
                assert(self.names@[before.len() as int]@ == p);
            } else {
                let i = choose|i: int| 0 <= i < before.len() && #[trigger] before[i]@ == p;
                assert(self.names@[i]@ == p);
            }
        }
        assert forall|p: Path| #[trigger] self@.contains(p) implies old(self)@.insert(
            column@,
        ).contains(p) by {
            let i = choose|i: int| 0 <= i < self.names@.len() && #[trigger] self.names@[i]@ == p;
            if i < before.len() {
                assert(before[i]@ == p);
            }
        }
        assert(self@ =~= old(self)@.insert(column@));
    }

    /// The members, in insertion order.
    pub closed spec fn listed(&self) -> Seq<ColumnName> {
        self.names@
    }

    /// The members, in insertion order.
    pub fn members(&self) -> (members: &Vec<ColumnName>)
        ensures
            members@ == self.listed(),
            forall|p: Path| self@.contains(p) <==> exists|i: int|
                0 <= i < members@.len() && #[trigger] members@[i]@ == p,
    {
        &self.names
    }
}

/// Copies a list of column names.
pub fn clone_columns(columns: &Vec<ColumnName>) -> (copy: Vec<ColumnName>)
    ensures
        copy@.len() == columns@.len(),
        forall|i: int| 0 <= i < columns@.len() ==> (#[trigger] copy@[i])@ == columns@[i]@,
{
    let mut copy: Vec<ColumnName> = Vec::new();
    for i in 0..columns.len()
        invariant
            copy@.len() == i,
            forall|j: int| 0 <= j < i ==> (#[trigger] copy@[j])@ == columns@[j]@,
    {
        copy.push(columns[i].clone());
    }
    copy
}

// ---------------------------------------------------------------------------------------------
// Column names as text
// ---------------------------------------------------------------------------------------------

pub open spec fn is_digit(c: char) -> bool {
    '0' <= c && c <= '9'
}

/// Characters that need no quoting: ASCII letters, digits and underscores.
pub open spec fn is_simple_char(c: char) -> bool {
    is_digit(c) || ('a' <= c && c <= 'z') || ('A' <= c && c <= 'Z') || c == '_'
}

/// Names that need no quoting: non-empty, of simple characters, not starting with a digit.
pub open spec fn is_simple_name(name: Seq<char>) -> bool {
    name.len() > 0 && !is_digit(name[0]) && forall|i: int|
        0 <= i < name.len() ==> is_simple_char(#[trigger] name[i])
}

/// A name with every backtick doubled.
pub open spec fn escaped(name: Seq<char>) -> Seq<char>
    decreases name.len(),
{
    if name.len() == 0 {
        seq![]
    } else if name.last() == '`' {
        escaped(name.drop_last()) + seq!['`'] + "`"@
    } else {
        escaped(name.drop_last()).push(name.last())
    }
}

/// A field name as text: plain if it is simple, else between backticks.
pub open spec fn field_text(name: Seq<char>) -> Seq<char> {
    if is_simple_name(name) {
        name
    } else {
        "`"@ + escaped(name) + "`"@
    }
}

/// A column path as text: its field names, separated by dots.
pub open spec fn column_text(path: Path) -> Seq<char>
    decreases path.len(),
{
    if path.len() == 0 {
        seq![]
    } else if path.len() == 1 {
        field_text(path[0])
    } else {
        column_text(path.drop_last()) + "."@ + field_text(path.last())
    }
}

fn simple_name(name: &String) -> (simple: bool)
    ensures
        simple == is_simple_name(name@),
{
    let text = name.as_str();
    let len = text.unicode_len();
    if len == 0 {
        return false;
    }
    let first = text.get_char(0);
    if '0' <= first && first <= '9' {
        return false;
    }
    for i in 0..len
        invariant
            text@ == name@,
            len == name@.len(),
            forall|j: int| 0 <= j < i ==> is_simple_char(#[trigger] name@[j]),
    {
        let c = text.get_char(i);
        let simple = ('0' <= c && c <= '9') || ('a' <= c && c <= 'z') || ('A' <= c && c <= 'Z')
            || c == '_';
        if !simple {
            assert(!is_simple_char(name@[i as int]));
            return false;
        }
    }
    true
}

fn field_name_text(name: &String) -> (text: String)
    ensures
        text@ == field_text(name@),
{
    if simple_name(name) {
        return name.clone();
    }
    let source = name.as_str();
    let len = source.unicode_len();
    let mut text = "`".to_string();
    assert(name@.take(0) =~= seq![]);
    assert(text@ =~= "`"@ + escaped(name@.take(0)));
    for i in 0..len
        invariant
            source@ == name@,
            len == name@.len(),
            text@ == "`"@ + escaped(name@.take(i as int)),
    {
        let ghost before = text@;
        assert(name@.take(i + 1).drop_last() =~= name@.take(i as int));
        assert(name@.take(i + 1).last() == name@[i as int]);
        text.append(source.substring_char(i, i + 1));
        assert(source@.subrange(i as int, i + 1) =~= seq![name@[i as int]]);
        if source.get_char(i) == '`' {
            text.append("`");
            assert(text@ =~= "`"@ + escaped(name@.take(i + 1)));
        } else {
            assert(text@ =~= "`"@ + escaped(name@.take(i + 1)));
        }
    }
    assert(name@.take(len as int) =~= name@);
    text.append("`");
    text
}

impl ColumnName {
    /// The column path as text: field names separated by dots, quoted with backticks where they
    /// hold anything but letters, digits and underscores.
    pub fn text(&self) -> (text: String)
        ensures
            text@ == column_text(self@),
    {
        let mut text = String::new();
        assert(self@.take(0) =~= seq![]);
        assert(text@ =~= column_text(self@.take(0)));
        for i in 0..self.path.len()
            invariant
                text@ == column_text(self@.take(i as int)),
        {
            assert(self@.take(i + 1).drop_last() =~= self@.take(i as int));
            assert(self@.take(i + 1).last() == self.path@[i as int]@);
            if i > 0 {
                text.append(".");
            }
            text.append(field_name_text(&self.path[i]).as_str());
            assert(text@ =~= column_text(self@.take(i + 1)));
        }
        assert(self@.take(self.path@.len() as int) =~= self@);
        text
    }
}

} // verus!
