//! How columns are written.

use vstd::prelude::*;

use super::column::{column_text, escaped, field_text, is_simple_name, Path};

verus! {

/// A name is escaped character by character: a backtick is doubled, any other character stays.
pub proof fn names_are_escaped_by_characters(a: Seq<char>, b: Seq<char>, c: char)
    ensures
        escaped(a + b) == escaped(a) + escaped(b),
        escaped(seq![c]) == (if c == '`' {
            seq!['`', '`']
        } else {
            seq![c]
        }),
    decreases b.len(),
{
    reveal_strlit("`");
    assert("`"@ =~= seq!['`']);
    reveal_with_fuel(escaped, 2);
    let one = seq![c];
    assert(one.drop_last() =~= seq![]);
    if c == '`' {
        assert(escaped(one) =~= seq!['`', '`']);
    } else {
        assert(escaped(one) =~= seq![c]);
    }
    if b.len() == 0 {
        assert(a + b =~= a);
        assert(escaped(a) + escaped(b) =~= escaped(a));
    } else {
        names_are_escaped_by_characters(a, b.drop_last(), c);
        assert((a + b).drop_last() =~= a + b.drop_last());
        assert((a + b).last() == b.last());
        assert(escaped(a + b) =~= escaped(a) + escaped(b));
    }
}

proof fn lemma_escaped_apart(a: Seq<char>, b: Seq<char>)
    requires
        escaped(a) == escaped(b),
    ensures
        a == b,
    decreases a.len(),
{
    reveal_strlit("`");
    assert("`"@ =~= seq!['`']);
    if a.len() == 0 {
        assert(b.len() == 0) by {
            if b.len() > 0 {
                assert(escaped(b).len() > 0);
            }
        }
        assert(a =~= b);
    } else {
        assert(escaped(a).len() > 0);
        assert(b.len() > 0);
        assert(escaped(a).last() == a.last());
        assert(escaped(b).last() == b.last());
        if a.last() == '`' {
            let n = escaped(a).len() as int;
            assert(escaped(a).take(n - 2) =~= escaped(a.drop_last()));
            assert(escaped(b).take(n - 2) =~= escaped(b.drop_last()));
        } else {
            assert(escaped(a).drop_last() =~= escaped(a.drop_last()));
            assert(escaped(b).drop_last() =~= escaped(b.drop_last()));
        }
        lemma_escaped_apart(a.drop_last(), b.drop_last());
        assert(a =~= a.drop_last().push(a.last()));
        assert(b =~= b.drop_last().push(b.last()));
    }
}

/// Names are told apart by how they are written: only a name of letters, digits and underscores
/// that starts with no digit is written as it is, any other stands in backticks.
pub proof fn names_are_told_apart(a: Seq<char>, b: Seq<char>)
    ensures
        field_text(a) == field_text(b) ==> a == b,
        field_text(a) == a <==> is_simple_name(a),
        !is_simple_name(a) ==> field_text(a).len() >= a.len() + 2 && field_text(a)[0] == '`'
            && field_text(a).last() == '`',
{
    reveal_strlit("`");
    assert("`"@ =~= seq!['`']);
    lemma_escaped_len(a);
    lemma_escaped_len(b);
    if field_text(a) == field_text(b) {
        if is_simple_name(a) && !is_simple_name(b) {
            assert(field_text(b)[0] == '`');
            assert(a[0] == '`');
        } else if !is_simple_name(a) && is_simple_name(b) {
            assert(field_text(a)[0] == '`');
            assert(b[0] == '`');
        } else if !is_simple_name(a) {
            let n = field_text(a).len() as int;
            assert(field_text(a).subrange(1, n - 1) =~= escaped(a));
            assert(field_text(b).subrange(1, n - 1) =~= escaped(b));
            lemma_escaped_apart(a, b);
        }
    }
}

proof fn lemma_escaped_len(name: Seq<char>)
    ensures
        escaped(name).len() >= name.len(),
    decreases name.len(),
{
    if name.len() > 0 {
        lemma_escaped_len(name.drop_last());
    }
}

/// A path is written as its names with dots between them.
pub proof fn paths_are_written_with_dots(a: Path, b: Path, name: Seq<char>)
    requires
        a.len() > 0,
        b.len() > 0,
    ensures
        column_text(a + b) == column_text(a) + "."@ + column_text(b),
        column_text(seq![name]) == field_text(name),
    decreases b.len(),
{
    let all = a + b;
    assert(all.last() == b.last());
    if b.len() == 1 {
        assert(all.drop_last() =~= a);
    } else {
        paths_are_written_with_dots(a, b.drop_last(), name);
        assert(all.drop_last() =~= a + b.drop_last());
        assert(column_text(all) =~= column_text(a) + "."@ + column_text(b));
    }
}

} // verus!
