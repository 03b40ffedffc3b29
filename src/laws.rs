use vstd::prelude::*;
use crate::datatypes::{CreateSnippetModel, SnippetModel};
use crate::error::ErrorKind;
use crate::store::{
    category_name, find_snippet, in_category, join_all, lemma_found_category_below, without_id, CategoryEntry,
    SnippetEntry, StoreModel,
};

verus! {

/// Reading back, by its id, the snippet that a create returned yields that
/// same snippet.
pub proof fn create_then_get(m: StoreModel, p: CreateSnippetModel)
    ensures
        m.create(p).1 matches Ok(s) ==> m.create(p).0.get(s.id) == Ok::<_, ErrorKind>(s),
{
}

/// In a well-formed store a create hands out an id that no snippet had
/// before: a lookup of it would have failed with `NotFound`.
pub proof fn create_assigns_fresh_id(m: StoreModel, p: CreateSnippetModel)
    requires
        m.wf(),
    ensures
        m.create(p).1 matches Ok(s) ==> m.get(s.id) == Err::<SnippetModel, _>(ErrorKind::NotFound),
{
    if let Ok(s) = m.create(p).1 {
        assert forall|i: int| 0 <= i < m.snippets.len() implies #[trigger] m.snippets[i].id != s.id by {
            assert(0 < m.snippets[i].id < m.next_snippet_id);
        }
        find_absent(m.snippets, s.id);
    }
}

/// A create that names an existing category id adds no category row, and the
/// new snippet references that id.
pub proof fn create_with_id_adds_no_category(m: StoreModel, p: CreateSnippetModel, id: i32)
    requires
        p.category.id == Some(id),
        category_name(m.categories, id) is Some,
    ensures
        m.create(p).0.categories == m.categories,
        m.create(p).1 matches Ok(s) ==> s.category.id == id && s.category.name == category_name(m.categories, id),
{
}

/// A create that names a category only by name adds exactly one category row,
/// of that name, and links the new snippet to it.
pub proof fn create_with_name_adds_one_category(m: StoreModel, p: CreateSnippetModel, name: Seq<char>)
    requires
        p.category.id is None,
        p.category.name == Some(name),
    ensures
        m.create(p).1 matches Ok(s) ==> {
            &&& m.create(p).0.categories == m.categories.push(CategoryEntry { id: s.category.id, name })
            &&& s.category.name == Some(name)
        },
{
}

/// A create that fails leaves the store as it was: a category inserted for
/// it is rolled back with the snippet insert.
pub proof fn failed_create_changes_nothing(m: StoreModel, p: CreateSnippetModel)
    ensures
        m.create(p).1 is Err ==> m.create(p).0 == m,
{
}

/// A create with neither a category id nor a name fails with `BadRequest` and
/// leaves the store as it was.
pub proof fn create_without_category_is_refused(m: StoreModel, p: CreateSnippetModel)
    requires
        p.category.id is None,
        p.category.name is None,
    ensures
        m.create(p) == (m, Err::<SnippetModel, _>(ErrorKind::BadRequest)),
{
}

proof fn without_id_twice(s: Seq<SnippetEntry>, id: i32)
    ensures
        without_id(without_id(s, id), id) == without_id(s, id),
    decreases s.len(),
{
    if s.len() > 0 {
        without_id_twice(s.drop_last(), id);
        let rest = without_id(s.drop_last(), id);
        if s.last().id != id {
            let pushed = rest.push(s.last());
            assert(pushed.drop_last() =~= rest);
        }
    }
}

/// Deleting an id a second time changes nothing: both deletes succeed, and the
/// store after the second is the store after the first.
pub proof fn delete_twice(m: StoreModel, id: i32)
    ensures
        m.delete(id).delete(id) == m.delete(id),
{
    without_id_twice(m.snippets, id);
}

proof fn without_id_drops_id(s: Seq<SnippetEntry>, id: i32)
    ensures
        forall|i: int| 0 <= i < without_id(s, id).len() ==> #[trigger] without_id(s, id)[i].id != id,
    decreases s.len(),
{
    if s.len() > 0 {
        without_id_drops_id(s.drop_last(), id);
        let rest = without_id(s.drop_last(), id);
        if s.last().id != id {
            let pushed = rest.push(s.last());
            assert forall|i: int| 0 <= i < pushed.len() implies #[trigger] pushed[i].id != id by {
                if i < rest.len() {
                    assert(pushed[i] == rest[i]);
                }
            }
        }
    }
}

/// After a delete of an id, a lookup of that id fails with `NotFound`.
pub proof fn delete_then_get(m: StoreModel, id: i32)
    ensures
        m.delete(id).get(id) == Err::<SnippetModel, _>(ErrorKind::NotFound),
{
    without_id_drops_id(m.snippets, id);
    find_absent(without_id(m.snippets, id), id);
}

proof fn find_absent(s: Seq<SnippetEntry>, id: i32)
    requires
        forall|i: int| 0 <= i < s.len() ==> #[trigger] s[i].id != id,
    ensures
        find_snippet(s, id) is None,
    decreases s.len(),
{
    if s.len() > 0 {
        assert(s.last() == s[s.len() - 1]);
        find_absent(s.drop_last(), id);
    }
}

/// A lookup of an id that no snippet has fails with `NotFound`.
pub proof fn get_missing_is_not_found(m: StoreModel, id: i32)
    requires
        forall|i: int| 0 <= i < m.snippets.len() ==> #[trigger] m.snippets[i].id != id,
    ensures
        m.get(id) == Err::<SnippetModel, _>(ErrorKind::NotFound),
{
    find_absent(m.snippets, id);
}

proof fn in_category_absent(s: Seq<SnippetEntry>, category_id: i32)
    requires
        forall|i: int| 0 <= i < s.len() ==> #[trigger] s[i].category_id != category_id,
    ensures
        in_category(s, category_id).len() == 0,
    decreases s.len(),
{
    if s.len() > 0 {
        assert(s.last() == s[s.len() - 1]);
        in_category_absent(s.drop_last(), category_id);
    }
}

/// In a well-formed store (where every snippet references a category row)
/// the snippets of a category that has no row are an empty sequence.
pub proof fn by_missing_category_is_empty(m: StoreModel, category_id: i32)
    requires
        m.wf(),
        category_name(m.categories, category_id) is None,
    ensures
        m.by_category(category_id).len() == 0,
{
    assert forall|i: int| 0 <= i < m.snippets.len() implies #[trigger] m.snippets[i].category_id != category_id by {
        assert(category_name(m.categories, m.snippets[i].category_id) is Some);
    }
    in_category_absent(m.snippets, category_id);
}

/// A create that names a new category by name, in a well-formed store, is
/// then the one snippet listed under that category's id.
pub proof fn create_with_name_then_list(m: StoreModel, p: CreateSnippetModel)
    requires
        m.wf(),
        p.category.id is None,
        p.category.name is Some,
    ensures
        m.create(p).1 matches Ok(s) ==> m.create(p).0.by_category(s.category.id) == seq![s],
{
    if let Ok(s) = m.create(p).1 {
        let n = m.next_category_id;
        let end = m.create(p).0;
        assert forall|i: int| 0 <= i < m.snippets.len() implies #[trigger] m.snippets[i].category_id != n by {
            assert(category_name(m.categories, m.snippets[i].category_id) is Some);
            lemma_found_category_below(m.categories, m.snippets[i].category_id, n);
        }
        in_category_absent(m.snippets, n);
        let e = end.snippets.last();
        assert(end.snippets.drop_last() =~= m.snippets);
        assert(in_category(end.snippets, n) =~= seq![e]);
        assert(join_all(end.categories, seq![e]) =~= seq![s]);
    }
}

} // verus!
