use vstd::prelude::*;
use crate::datatypes::{CategoryModel, CreateSnippet, CreateSnippetModel, Snippet, SnippetModel, SnippetRow};
use crate::error::{missing_category, missing_category_text, DbError, ErrorKind};
use crate::resolver::{resolve_category, CategoryPlan, CategoryPlanModel};

verus! {

/// A row of the categories table.
pub struct CategoryEntry {
    pub id: i32,
    pub name: Seq<char>,
}

/// A row of the snippets table.
pub struct SnippetEntry {
    pub id: i32,
    pub category_id: i32,
    pub description: Seq<char>,
    pub code: Seq<char>,
}

/// The state of the relational store: both tables in order of insertion,
/// and the next id that each table's sequence hands out.
pub struct StoreModel {
    pub categories: Seq<CategoryEntry>,
    pub snippets: Seq<SnippetEntry>,
    pub next_category_id: i32,
    pub next_snippet_id: i32,
}

/// The name of the category row with this id (the latest, should there be several).
pub open spec fn category_name(cats: Seq<CategoryEntry>, id: i32) -> Option<Seq<char>>
    decreases cats.len(),
{
    if cats.len() == 0 {
        None
    } else if cats.last().id == id {
        Some(cats.last().name)
    } else {
        category_name(cats.drop_last(), id)
    }
}

/// The snippet row with this id (the latest, should there be several).
pub open spec fn find_snippet(snips: Seq<SnippetEntry>, id: i32) -> Option<SnippetEntry>
    decreases snips.len(),
{
    if snips.len() == 0 {
        None
    } else if snips.last().id == id {
        Some(snips.last())
    } else {
        find_snippet(snips.drop_last(), id)
    }
}

/// The snippet rows that reference this category, in order.
pub open spec fn in_category(snips: Seq<SnippetEntry>, category_id: i32) -> Seq<SnippetEntry>
    decreases snips.len(),
{
    if snips.len() == 0 {
        seq![]
    } else {
        let rest = in_category(snips.drop_last(), category_id);
        if snips.last().category_id == category_id {
            rest.push(snips.last())
        } else {
            rest
        }
    }
}

/// The snippet rows whose id is not this one, in order.
pub open spec fn without_id(snips: Seq<SnippetEntry>, id: i32) -> Seq<SnippetEntry>
    decreases snips.len(),
{
    if snips.len() == 0 {
        seq![]
    } else {
        let rest = without_id(snips.drop_last(), id);
        if snips.last().id == id {
            rest
        } else {
            rest.push(snips.last())
        }
    }
}

/// A snippet row joined (left) with the categories table.
pub open spec fn joined(cats: Seq<CategoryEntry>, e: SnippetEntry) -> SnippetModel {
    SnippetModel {
        id: e.id,
        category: CategoryModel { id: e.category_id, name: category_name(cats, e.category_id) },
        description: e.description,
        code: e.code,
    }
}

/// Snippet rows joined (left) with the categories table, in order.
pub open spec fn join_all(cats: Seq<CategoryEntry>, snips: Seq<SnippetEntry>) -> Seq<SnippetModel> {
    snips.map_values(|e: SnippetEntry| joined(cats, e))
}

/// Category ids ascend in order of insertion, are positive, and stay below `bound`.
pub open spec fn category_ids_ascending(s: Seq<CategoryEntry>, bound: i32) -> bool {
    &&& forall|i: int, j: int| 0 <= i < j < s.len() ==> (#[trigger] s[i]).id < (#[trigger] s[j]).id
    &&& forall|i: int| 0 <= i < s.len() ==> 0 < (#[trigger] s[i]).id < bound
}

/// Snippet ids ascend in order of insertion, are positive, and stay below `bound`.
pub open spec fn snippet_ids_ascending(s: Seq<SnippetEntry>, bound: i32) -> bool {
    &&& forall|i: int, j: int| 0 <= i < j < s.len() ==> (#[trigger] s[i]).id < (#[trigger] s[j]).id
    &&& forall|i: int| 0 <= i < s.len() ==> 0 < (#[trigger] s[i]).id < bound
}

/// Every snippet row references a category row.
pub open spec fn references_in(cats: Seq<CategoryEntry>, snips: Seq<SnippetEntry>) -> bool {
    forall|i: int| 0 <= i < snips.len() ==> category_name(cats, (#[trigger] snips[i]).category_id) is Some
}

/// A category row that is added leaves every category that was found still found.
pub proof fn lemma_push_keeps_references(cats: Seq<CategoryEntry>, c: CategoryEntry, snips: Seq<SnippetEntry>)
    requires
        references_in(cats, snips),
    ensures
        references_in(cats.push(c), snips),
{
    assert(cats.push(c).drop_last() =~= cats);
}

/// Deleting rows keeps every remaining row's category reference intact.
pub proof fn lemma_without_id_references(cats: Seq<CategoryEntry>, s: Seq<SnippetEntry>, id: i32)
    requires
        references_in(cats, s),
    ensures
        references_in(cats, without_id(s, id)),
    decreases s.len(),
{
    if s.len() > 0 {
        let init = s.drop_last();
        assert forall|i: int| 0 <= i < init.len() implies category_name(cats, (#[trigger] init[i]).category_id) is Some by {
            assert(init[i] == s[i]);
        }
        lemma_without_id_references(cats, init, id);
        let rest = without_id(init, id);
        if s.last().id != id {
            let pushed = rest.push(s.last());
            assert(s[s.len() - 1] == s.last());
            assert forall|i: int| 0 <= i < pushed.len() implies category_name(cats, (#[trigger] pushed[i]).category_id) is Some by {
                if i < rest.len() {
                    assert(pushed[i] == rest[i]);
                }
            }
        }
    }
}

/// A category that is found has an id below the bound of the ids.
pub proof fn lemma_found_category_below(cats: Seq<CategoryEntry>, id: i32, bound: i32)
    requires
        category_ids_ascending(cats, bound),
        category_name(cats, id) is Some,
    ensures
        id < bound,
    decreases cats.len(),
{
    if cats.last().id != id {
        let init = cats.drop_last();
        assert forall|i: int| 0 <= i < init.len() implies 0 < (#[trigger] init[i]).id < bound by {
            assert(init[i] == cats[i]);
        }
        assert forall|i: int, j: int| 0 <= i < j < init.len() implies (#[trigger] init[i]).id < (#[trigger] init[j]).id by {
            assert(init[i] == cats[i] && init[j] == cats[j]);
        }
        lemma_found_category_below(init, id, bound);
    } else {
        assert(cats[cats.len() - 1] == cats.last());
    }
}

/// Deleting rows keeps the ids ascending and below their bound.
pub proof fn lemma_without_id_ascending(s: Seq<SnippetEntry>, id: i32, bound: i32)
    requires
        snippet_ids_ascending(s, bound),
    ensures
        snippet_ids_ascending(without_id(s, id), bound),
    decreases s.len(),
{
    if s.len() > 0 {
        let last = s.last();
        assert(s[s.len() - 1] == last);
        let init = s.drop_last();
        assert forall|i: int| 0 <= i < init.len() implies 0 < (#[trigger] init[i]).id < last.id by {
            assert(init[i] == s[i]);
        }
        assert forall|i: int, j: int| 0 <= i < j < init.len() implies (#[trigger] init[i]).id < (#[trigger] init[j]).id by {
            assert(init[i] == s[i] && init[j] == s[j]);
        }
        lemma_without_id_ascending(init, id, last.id);
        let rest = without_id(init, id);
        if last.id != id {
            let pushed = rest.push(last);
            assert forall|i: int| 0 <= i < pushed.len() implies 0 < (#[trigger] pushed[i]).id < bound by {
                if i < rest.len() {
                    assert(pushed[i] == rest[i]);
                }
            }
            assert forall|i: int, j: int| 0 <= i < j < pushed.len() implies (#[trigger] pushed[i]).id < (#[trigger] pushed[j]).id by {
                assert(pushed[i] == rest[i]);
                if j < rest.len() {
                    assert(pushed[j] == rest[j]);
                }
            }
        }
    }
}

impl StoreModel {
    /// The store's invariant: in each table the ids are unique, ascend in
    /// order of insertion and stay below the next id of its sequence; and
    /// every snippet references a category row.
    pub open spec fn wf(self) -> bool {
        &&& self.references_intact()
        &&& 0 < self.next_category_id
        &&& 0 < self.next_snippet_id
        &&& category_ids_ascending(self.categories, self.next_category_id)
        &&& snippet_ids_ascending(self.snippets, self.next_snippet_id)
    }

    /// Every snippet row references a category row.
    pub open spec fn references_intact(self) -> bool {
        references_in(self.categories, self.snippets)
    }

    /// A lookup by primary key, joined with the category.
    pub open spec fn get(self, id: i32) -> Result<SnippetModel, ErrorKind> {
        match find_snippet(self.snippets, id) {
            Some(e) => Ok(joined(self.categories, e)),
            None => Err(ErrorKind::NotFound),
        }
    }

    /// The snippets that reference a category, in order of insertion.
    pub open spec fn by_category(self, category_id: i32) -> Seq<SnippetModel> {
        join_all(self.categories, in_category(self.snippets, category_id))
    }

    /// Every snippet in order of insertion, joined with its category.
    pub open spec fn all(self) -> Seq<SnippetModel> {
        join_all(self.categories, self.snippets)
    }

    /// The snippet that a draw of `pick` selects: the one at `pick` modulo the count.
    pub open spec fn random(self, pick: u64) -> Result<SnippetModel, ErrorKind> {
        if self.snippets.len() == 0 {
            Err(ErrorKind::NotFound)
        } else {
            Ok(joined(self.categories, self.snippets[pick as int % self.snippets.len() as int]))
        }
    }

    /// An unconditional delete by primary key.
    pub open spec fn delete(self, id: i32) -> StoreModel {
        StoreModel { snippets: without_id(self.snippets, id), ..self }
    }

    /// Inserts a category row; fails when the id sequence is used up.
    pub open spec fn add_category(self, name: Seq<char>) -> (StoreModel, Result<i32, ErrorKind>) {
        if self.next_category_id == i32::MAX {
            (self, Err(ErrorKind::Internal))
        } else {
            let id = self.next_category_id;
            (
                StoreModel {
                    categories: self.categories.push(CategoryEntry { id, name }),
                    next_category_id: (id + 1) as i32,
                    ..self
                },
                Ok(id),
            )
        }
    }

    /// Inserts a snippet row and reads it back joined; fails when the id
    /// sequence is used up or no category row has the referenced id (the
    /// foreign key).
    pub open spec fn add_snippet(self, category_id: i32, description: Seq<char>, code: Seq<char>) -> (
        StoreModel,
        Result<SnippetModel, ErrorKind>,
    ) {
        if self.next_snippet_id == i32::MAX || category_name(self.categories, category_id) is None {
            (self, Err(ErrorKind::Internal))
        } else {
            let e = SnippetEntry { id: self.next_snippet_id, category_id, description, code };
            (
                StoreModel {
                    snippets: self.snippets.push(e),
                    next_snippet_id: (self.next_snippet_id + 1) as i32,
                    ..self
                },
                Ok(joined(self.categories, e)),
            )
        }
    }

    /// A create request: resolve the category reference, then insert the
    /// snippet. Both inserts form one transaction: where the snippet insert
    /// fails, a category inserted for it is rolled back.
    pub open spec fn create(self, p: CreateSnippetModel) -> (StoreModel, Result<SnippetModel, ErrorKind>) {
        match p.category.plan() {
            CategoryPlanModel::Existing(id) => self.add_snippet(id, p.description, p.code),
            CategoryPlanModel::CreateNamed(name) => {
                let (after, r) = self.add_category(name);
                match r {
                    Ok(id) => {
                        let (end, created) = after.add_snippet(id, p.description, p.code);
                        match created {
                            Ok(s) => (end, Ok(s)),
                            Err(e) => (self, Err(e)),
                        }
                    },
                    Err(e) => (self, Err(e)),
                }
            },
            CategoryPlanModel::Missing => (self, Err(ErrorKind::BadRequest)),
        }
    }
}

/// What a returned snippet or failure is in the model.
pub open spec fn result_view(r: Result<Snippet, DbError>) -> Result<SnippetModel, ErrorKind> {
    match r {
        Ok(s) => Ok(s@),
        Err(e) => Err(e@),
    }
}

/// What a returned id or failure is in the model.
pub open spec fn id_result_view(r: Result<i32, DbError>) -> Result<i32, ErrorKind> {
    match r {
        Ok(id) => Ok(id),
        Err(e) => Err(e@),
    }
}

/// A row of the categories table.
pub struct CategoryRecord {
    pub id: i32,
    pub name: String,
}

/// A row of the snippets table.
pub struct SnippetRecord {
    pub id: i32,
    pub category_id: i32,
    pub description: String,
    pub code: String,
}

impl View for CategoryRecord {
    type V = CategoryEntry;

    open spec fn view(&self) -> CategoryEntry {
        CategoryEntry { id: self.id, name: self.name@ }
    }
}

impl View for SnippetRecord {
    type V = SnippetEntry;

    open spec fn view(&self) -> SnippetEntry {
        SnippetEntry {
            id: self.id,
            category_id: self.category_id,
            description: self.description@,
            code: self.code@,
        }
    }
}

/// A relational store held in memory, with the tables of the database behind
/// the service: snippets reference existing categories (a foreign key), and a
/// create runs as one transaction.
pub struct MemoryStore {
    categories: Vec<CategoryRecord>,
    snippets: Vec<SnippetRecord>,
    next_category_id: i32,
    next_snippet_id: i32,
}

impl View for MemoryStore {
    type V = StoreModel;

    closed spec fn view(&self) -> StoreModel {
        StoreModel {
            categories: self.categories@.map_values(|c: CategoryRecord| c@),
            snippets: self.snippets@.map_values(|s: SnippetRecord| s@),
            next_category_id: self.next_category_id,
            next_snippet_id: self.next_snippet_id,
        }
    }
}

impl MemoryStore {
    /// An empty store whose sequences start at 1.
    pub fn new() -> (r: MemoryStore)
        ensures
            r@.categories.len() == 0,
            r@.snippets.len() == 0,
            r@.next_category_id == 1,
            r@.next_snippet_id == 1,
            r@.wf(),
    {
        let r = MemoryStore { categories: Vec::new(), snippets: Vec::new(), next_category_id: 1, next_snippet_id: 1 };
        proof {
            assert(r@.categories =~= Seq::<CategoryEntry>::empty());
            assert(r@.snippets =~= Seq::<SnippetEntry>::empty());
        }
        r
    }

    fn category_name_of(&self, id: i32) -> (r: Option<String>)
        ensures
            crate::datatypes::text_of(r) == category_name(self@.categories, id),
    {
        let mut i: usize = self.categories.len();
        assert(self@.categories.take(i as int) =~= self@.categories);
        while i > 0
            invariant
                i <= self.categories.len(),
                category_name(self@.categories, id) == category_name(self@.categories.take(i as int), id),
            decreases i,
        {
            let ghost cats = self@.categories.take(i as int);
            assert(cats.last() == self.categories[i - 1]@);
            assert(cats.drop_last() =~= self@.categories.take(i - 1));
            if self.categories[i - 1].id == id {
                return Some(self.categories[i - 1].name.clone());
            }
            i = i - 1;
        }
        None
    }

    fn joined_record(&self, e: &SnippetRecord) -> (r: Snippet)
        ensures
            r@ == joined(self@.categories, e@),
    {
        Snippet::from_row(SnippetRow {
            id: e.id,
            category_id: e.category_id,
            name: self.category_name_of(e.category_id),
            description: e.description.clone(),
            code: e.code.clone(),
        })
    }

    /// Looks a snippet up by id, joined with its category.
    pub fn get_snippet(&self, snippet_id: i32) -> (r: Result<Snippet, DbError>)
        ensures
            result_view(r) == self@.get(snippet_id),
    {
        let mut i: usize = self.snippets.len();
        assert(self@.snippets.take(i as int) =~= self@.snippets);
        while i > 0
            invariant
                i <= self.snippets.len(),
                find_snippet(self@.snippets, snippet_id) == find_snippet(self@.snippets.take(i as int), snippet_id),
            decreases i,
        {
            let ghost snips = self@.snippets.take(i as int);
            assert(snips.last() == self.snippets[i - 1]@);
            assert(snips.drop_last() =~= self@.snippets.take(i - 1));
            if self.snippets[i - 1].id == snippet_id {
                return Ok(self.joined_record(&self.snippets[i - 1]));
            }
            i = i - 1;
        }
        Err(DbError::NotFound)
    }

    /// The snippets of a category, in order of insertion; empty where none matches.
    pub fn get_snippets_by_category(&self, category_id: i32) -> (r: Vec<Snippet>)
        ensures
            r@.map_values(|s: Snippet| s@) == self@.by_category(category_id),
    {
        let mut r: Vec<Snippet> = Vec::new();
        let mut i: usize = 0;
        while i < self.snippets.len()
            invariant
                i <= self.snippets.len(),
                r@.map_values(|s: Snippet| s@) == join_all(
                    self@.categories,
                    in_category(self@.snippets.take(i as int), category_id),
                ),
            decreases self.snippets.len() - i,
        {
            let ghost before = r@;
            let ghost snips = self@.snippets.take(i + 1);
            assert(snips.last() == self.snippets[i as int]@);
            assert(snips.drop_last() =~= self@.snippets.take(i as int));
            if self.snippets[i].category_id == category_id {
                let s = self.joined_record(&self.snippets[i]);
                r.push(s);
                assert(r@.map_values(|s: Snippet| s@) =~= before.map_values(|s: Snippet| s@).push(s@));
                assert(join_all(self@.categories, in_category(snips, category_id)) =~= join_all(
                    self@.categories,
                    in_category(self@.snippets.take(i as int), category_id),
                ).push(s@));
            }
            i = i + 1;
        }
        assert(self@.snippets.take(i as int) =~= self@.snippets);
        r
    }

    /// Every snippet, in order of insertion, joined with its category.
    pub fn get_snippets(&self) -> (r: Vec<Snippet>)
        ensures
            r@.map_values(|s: Snippet| s@) == self@.all(),
    {
        let mut r: Vec<Snippet> = Vec::new();
        let mut i: usize = 0;
        while i < self.snippets.len()
            invariant
                i <= self.snippets.len(),
                r@.map_values(|s: Snippet| s@) =~= join_all(self@.categories, self@.snippets.take(i as int)),
            decreases self.snippets.len() - i,
        {
            let ghost before = r@;
            let s = self.joined_record(&self.snippets[i]);
            r.push(s);
            assert(r@.map_values(|s: Snippet| s@) =~= before.map_values(|s: Snippet| s@).push(s@));
            i = i + 1;
        }
        assert(self@.snippets.take(i as int) =~= self@.snippets);
        r
    }

    /// The snippet that the random draw `pick` selects; `NotFound` when there is none.
    pub fn get_random_snippet(&self, pick: u64) -> (r: Result<Snippet, DbError>)
        ensures
            result_view(r) == self@.random(pick),
    {
        let n = self.snippets.len();
        if n == 0 {
            return Err(DbError::NotFound);
        }
        let at = (pick % (n as u64)) as usize;
        Ok(self.joined_record(&self.snippets[at]))
    }

    /// Deletes the snippet with this id, whether or not there is one.
    pub fn delete_snippet(&mut self, snippet_id: i32)
        requires
            old(self)@.wf(),
        ensures
            final(self)@ == old(self)@.delete(snippet_id),
            final(self)@.wf(),
    {
        let mut kept: Vec<SnippetRecord> = Vec::new();
        let mut i: usize = 0;
        while i < self.snippets.len()
            invariant
                i <= self.snippets.len(),
                kept@.map_values(|s: SnippetRecord| s@) == without_id(self@.snippets.take(i as int), snippet_id),
            decreases self.snippets.len() - i,
        {
            let ghost before = kept@;
            let ghost snips = self@.snippets.take(i + 1);
            assert(snips.last() == self.snippets[i as int]@);
            assert(snips.drop_last() =~= self@.snippets.take(i as int));
            if self.snippets[i].id != snippet_id {
                let e = &self.snippets[i];
                let copy = SnippetRecord {
                    id: e.id,
                    category_id: e.category_id,
                    description: e.description.clone(),
                    code: e.code.clone(),
                };
                kept.push(copy);
                assert(kept@.map_values(|s: SnippetRecord| s@) =~= before.map_values(|s: SnippetRecord| s@).push(copy@));
            }
            i = i + 1;
        }
        assert(self@.snippets.take(i as int) =~= self@.snippets);
        self.snippets = kept;
        proof {
            lemma_without_id_ascending(old(self)@.snippets, snippet_id, old(self)@.next_snippet_id);
            lemma_without_id_references(old(self)@.categories, old(self)@.snippets, snippet_id);
        }
    }

    /// Inserts a category of this name (names need not be unique) and returns its new id.
    pub fn save_category(&mut self, name: String) -> (r: Result<i32, DbError>)
        requires
            old(self)@.wf(),
        ensures
            (final(self)@, id_result_view(r)) == old(self)@.add_category(name@),
            final(self)@.wf(),
    {
        if self.next_category_id == i32::MAX {
            return Err(DbError::Internal("category ids are used up".to_owned()));
        }
        let id = self.next_category_id;
        let ghost before = self.categories@;
        let entry = CategoryRecord { id, name };
        self.categories.push(entry);
        assert(self.categories@.map_values(|c: CategoryRecord| c@) =~= before.map_values(|c: CategoryRecord| c@).push(entry@));
        self.next_category_id = id + 1;
        proof {
            let cats = self@.categories;
            assert(cats == old(self)@.categories.push(entry@));
            assert forall|i: int| 0 <= i < cats.len() implies 0 < (#[trigger] cats[i]).id < self.next_category_id by {
                if i < cats.len() - 1 {
                    assert(cats[i] == old(self)@.categories[i]);
                }
            }
            assert forall|i: int, j: int| 0 <= i < j < cats.len() implies (#[trigger] cats[i]).id < (#[trigger] cats[j]).id by {
                assert(cats[i] == old(self)@.categories[i]);
                if j < cats.len() - 1 {
                    assert(cats[j] == old(self)@.categories[j]);
                }
            }
            lemma_push_keeps_references(old(self)@.categories, entry@, self@.snippets);
        }
        Ok(id)
    }

    fn insert_snippet(&mut self, category_id: i32, description: String, code: String) -> (r: Result<Snippet, DbError>)
        requires
            old(self)@.wf(),
        ensures
            (final(self)@, result_view(r)) == old(self)@.add_snippet(category_id, description@, code@),
            final(self)@.wf(),
    {
        if self.next_snippet_id == i32::MAX {
            return Err(DbError::Internal("snippet ids are used up".to_owned()));
        }
        let name = match self.category_name_of(category_id) {
            Some(name) => name,
            None => return Err(DbError::Internal("no category has this id".to_owned())),
        };
        let id = self.next_snippet_id;
        let ghost before = self.snippets@;
        let created = Snippet::from_row(SnippetRow {
            id,
            category_id,
            name: Some(name),
            description: description.clone(),
            code: code.clone(),
        });
        let entry = SnippetRecord { id, category_id, description, code };
        self.snippets.push(entry);
        assert(self.snippets@.map_values(|s: SnippetRecord| s@) =~= before.map_values(|s: SnippetRecord| s@).push(entry@));
        self.next_snippet_id = id + 1;
        proof {
            let snips = self@.snippets;
            assert(snips == old(self)@.snippets.push(entry@));
            assert forall|i: int| 0 <= i < snips.len() implies 0 < (#[trigger] snips[i]).id < self.next_snippet_id by {
                if i < snips.len() - 1 {
                    assert(snips[i] == old(self)@.snippets[i]);
                }
            }
            assert forall|i: int, j: int| 0 <= i < j < snips.len() implies (#[trigger] snips[i]).id < (#[trigger] snips[j]).id by {
                assert(snips[i] == old(self)@.snippets[i]);
                if j < snips.len() - 1 {
                    assert(snips[j] == old(self)@.snippets[j]);
                }
            }
            assert forall|i: int| 0 <= i < snips.len() implies category_name(self@.categories, (#[trigger] snips[i]).category_id) is Some by {
                if i < snips.len() - 1 {
                    assert(snips[i] == old(self)@.snippets[i]);
                }
            }
        }
        Ok(created)
    }

    /// Creates a snippet: resolves its category reference (inserting a new
    /// category for a bare name), inserts it, and returns it as stored.
    pub fn save_snippet(&mut self, payload: CreateSnippet) -> (r: Result<Snippet, DbError>)
        requires
            old(self)@.wf(),
        ensures
            final(self)@.wf(),
            (final(self)@, result_view(r)) == old(self)@.create(payload@),
            r matches Err(DbError::BadRequest(text)) ==> text@ == missing_category_text(),
    {
        let category_id = match resolve_category(payload.category) {
            CategoryPlan::Existing(id) => id,
            CategoryPlan::CreateNamed(name) => {
                // the snippet insert must not fail after the category insert
                if self.next_snippet_id == i32::MAX {
                    return Err(DbError::Internal("snippet ids are used up".to_owned()));
                }
                match self.save_category(name) {
                    Ok(id) => {
                        assert(self@.categories.drop_last() == old(self)@.categories);
                        id
                    },
                    Err(e) => return Err(e),
                }
            },
            CategoryPlan::Missing => return Err(missing_category()),
        };
        self.insert_snippet(category_id, payload.description, payload.code)
    }
}

} // verus!
