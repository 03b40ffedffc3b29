use vstd::prelude::*;

verus! {

/// The category embedded in a snippet: its id and, where the category row
/// exists, its name (a left join leaves the name null otherwise).
#[derive(Clone, Debug, PartialEq, Eq)]
pub struct Category {
    pub id: i32,
    pub name: Option<String>,
}

/// The category reference of a create request: an existing id, or a name
/// for a category to be created.
#[derive(Clone, Debug, PartialEq, Eq)]
pub struct CreateCategory {
    pub id: Option<i32>,
    pub name: Option<String>,
}

/// A snippet together with its category.
#[derive(Clone, Debug, PartialEq, Eq)]
pub struct Snippet {
    pub id: i32,
    pub category: Category,
    pub description: String,
    pub code: String,
}

/// The payload of a create request.
#[derive(Clone, Debug, PartialEq, Eq)]
pub struct CreateSnippet {
    pub category: CreateCategory,
    pub description: String,
    pub code: String,
}

/// One row of the query that joins snippets with categories, read by column
/// name: `id`, `category_id`, `name`, `description`, `code`.
#[derive(Clone, Debug, PartialEq, Eq)]
pub struct SnippetRow {
    pub id: i32,
    pub category_id: i32,
    pub name: Option<String>,
    pub description: String,
    pub code: String,
}

/// What a `Category` is: its id and the name's characters, if any.
pub struct CategoryModel {
    pub id: i32,
    pub name: Option<Seq<char>>,
}

/// What a `Snippet` is, with its text fields as characters.
pub struct SnippetModel {
    pub id: i32,
    pub category: CategoryModel,
    pub description: Seq<char>,
    pub code: Seq<char>,
}

/// What a `CreateCategory` is.
pub struct CreateCategoryModel {
    pub id: Option<i32>,
    pub name: Option<Seq<char>>,
}

/// What a `CreateSnippet` is.
pub struct CreateSnippetModel {
    pub category: CreateCategoryModel,
    pub description: Seq<char>,
    pub code: Seq<char>,
}

/// The characters of an optional text column.
pub open spec fn text_of(o: Option<String>) -> Option<Seq<char>> {
    match o {
        Some(s) => Some(s@),
        None => None,
    }
}

impl View for Category {
    type V = CategoryModel;

    open spec fn view(&self) -> CategoryModel {
        CategoryModel { id: self.id, name: text_of(self.name) }
    }
}

impl View for CreateCategory {
    type V = CreateCategoryModel;

    open spec fn view(&self) -> CreateCategoryModel {
        CreateCategoryModel { id: self.id, name: text_of(self.name) }
    }
}

impl View for Snippet {
    type V = SnippetModel;

    open spec fn view(&self) -> SnippetModel {
        SnippetModel {
            id: self.id,
            category: self.category@,
            description: self.description@,
            code: self.code@,
        }
    }
}

impl View for CreateSnippet {
    type V = CreateSnippetModel;

    open spec fn view(&self) -> CreateSnippetModel {
        CreateSnippetModel {
            category: self.category@,
            description: self.description@,
            code: self.code@,
        }
    }
}

impl View for SnippetRow {
    type V = SnippetModel;

    /// The record that a joined row denotes.
    open spec fn view(&self) -> SnippetModel {
        SnippetModel {
            id: self.id,
            category: CategoryModel { id: self.category_id, name: text_of(self.name) },
            description: self.description@,
            code: self.code@,
        }
    }
}

impl Snippet {
    /// Maps a joined row to the record it denotes.
    pub fn from_row(row: SnippetRow) -> (r: Snippet)
        ensures
            r@ == row@,
    {
        Snippet {
            id: row.id,
            category: Category { id: row.category_id, name: row.name },
            description: row.description,
            code: row.code,
        }
    }
}

} // verus!
