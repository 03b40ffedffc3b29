use snippet_store::datatypes::{Category, CreateCategory, CreateSnippet, Snippet, SnippetRow};
use snippet_store::error::DbError;
use snippet_store::resolver::{resolve_category, CategoryPlan};
use snippet_store::store::MemoryStore;

fn payload(id: Option<i32>, name: Option<&str>, description: &str, code: &str) -> CreateSnippet {
    CreateSnippet {
        category: CreateCategory { id, name: name.map(|n| n.to_string()) },
        description: description.to_string(),
        code: code.to_string(),
    }
}

#[test]
fn create_by_name_then_category_then_delete() {
    let mut store = MemoryStore::new();
    let created = store
        .save_snippet(payload(None, Some("strings"), "reverse a string", "s[::-1]"))
        .unwrap();
    let n = created.category.id;
    assert_eq!(n, 1);
    assert_eq!(created.category.name, Some("strings".to_string()));
    assert_eq!(created.description, "reverse a string");
    assert_eq!(created.code, "s[::-1]");

    let listed = store.get_snippets_by_category(n);
    assert_eq!(listed.len(), 1);
    assert_eq!(listed[0], created);

    store.delete_snippet(created.id);
    let missing = store.get_snippet(created.id);
    assert_eq!(missing, Err(DbError::NotFound));
    assert_eq!(missing.unwrap_err().status(), 404);
}

#[test]
fn round_trip_returns_the_created_snippet() {
    let mut store = MemoryStore::new();
    let a = store.save_snippet(payload(None, Some("lists"), "sort", "xs.sort()")).unwrap();
    let b = store.save_snippet(payload(Some(a.category.id), None, "len", "len(xs)")).unwrap();
    assert_eq!(store.get_snippet(a.id), Ok(a.clone()));
    assert_eq!(store.get_snippet(b.id), Ok(b.clone()));
    assert_ne!(a.id, b.id);
    assert_eq!(b.id, 2);
}

#[test]
fn create_by_id_adds_no_category() {
    let mut store = MemoryStore::new();
    let first = store.save_snippet(payload(None, Some("maths"), "square", "x * x")).unwrap();
    let second = store.save_snippet(payload(Some(first.category.id), Some("ignored"), "cube", "x ** 3")).unwrap();
    assert_eq!(second.category, Category { id: 1, name: Some("maths".to_string()) });
    let third = store.save_snippet(payload(None, Some("other"), "id", "x")).unwrap();
    // only one category row was added in between
    assert_eq!(third.category.id, 2);
}

#[test]
fn duplicate_names_make_distinct_categories() {
    let mut store = MemoryStore::new();
    let a = store.save_snippet(payload(None, Some("dup"), "a", "1")).unwrap();
    let b = store.save_snippet(payload(None, Some("dup"), "b", "2")).unwrap();
    assert_eq!(a.category.id, 1);
    assert_eq!(b.category.id, 2);
    assert_eq!(store.get_snippets_by_category(1), vec![a]);
}

#[test]
fn unknown_category_id_is_refused() {
    let mut store = MemoryStore::new();
    let e = store.save_snippet(payload(Some(42), None, "orphan", "pass")).unwrap_err();
    assert!(matches!(e, DbError::Internal(_)));
    assert_eq!(e.status(), 500);
    assert!(store.get_snippets().is_empty());
    let s = store.save_snippet(payload(None, Some("first"), "d", "c")).unwrap();
    assert_eq!(s.id, 1);
    assert_eq!(store.get_snippets(), vec![s]);
}

#[test]
fn missing_category_reference_is_bad_request() {
    let mut store = MemoryStore::new();
    let r = store.save_snippet(payload(None, None, "nothing", "none"));
    let e = r.unwrap_err();
    assert_eq!(e, DbError::BadRequest("Either id or name for category is needed.".to_string()));
    assert_eq!(e.status(), 400);
    assert_eq!(e.message(), "Either id or name for category is needed.");
    assert!(store.get_snippets().is_empty());
    // no category row was inserted either
    let s = store.save_snippet(payload(None, Some("first"), "d", "c")).unwrap();
    assert_eq!(s.category.id, 1);
    assert_eq!(s.id, 1);
}

#[test]
fn delete_twice_succeeds_both_times() {
    let mut store = MemoryStore::new();
    let a = store.save_snippet(payload(None, Some("x"), "a", "1")).unwrap();
    let b = store.save_snippet(payload(Some(1), None, "b", "2")).unwrap();
    store.delete_snippet(a.id);
    store.delete_snippet(a.id);
    assert_eq!(store.get_snippets(), vec![b]);
    store.delete_snippet(99);
    assert_eq!(store.get_snippets().len(), 1);
}

#[test]
fn lookup_misses() {
    let mut store = MemoryStore::new();
    assert_eq!(store.get_snippet(1), Err(DbError::NotFound));
    assert!(store.get_snippets_by_category(1).is_empty());
    store.save_snippet(payload(None, Some("x"), "a", "1")).unwrap();
    assert_eq!(store.get_snippet(7), Err(DbError::NotFound));
    assert!(store.get_snippets_by_category(7).is_empty());
}

#[test]
fn random_pick_wraps_around() {
    let mut store = MemoryStore::new();
    assert_eq!(store.get_random_snippet(5), Err(DbError::NotFound));
    let a = store.save_snippet(payload(None, Some("x"), "a", "1")).unwrap();
    let b = store.save_snippet(payload(Some(1), None, "b", "2")).unwrap();
    assert_eq!(store.get_random_snippet(0), Ok(a.clone()));
    assert_eq!(store.get_random_snippet(3), Ok(b));
    assert_eq!(store.get_random_snippet(u64::MAX - 1), Ok(a));
}

#[test]
fn save_category_hands_out_increasing_ids() {
    let mut store = MemoryStore::new();
    assert_eq!(store.save_category("a".to_string()), Ok(1));
    assert_eq!(store.save_category("a".to_string()), Ok(2));
    let s = store.save_snippet(payload(Some(2), None, "d", "c")).unwrap();
    assert_eq!(s.category.name, Some("a".to_string()));
}

#[test]
fn resolver_prefers_id_over_name() {
    assert_eq!(
        resolve_category(CreateCategory { id: Some(3), name: Some("n".to_string()) }),
        CategoryPlan::Existing(3)
    );
    assert_eq!(
        resolve_category(CreateCategory { id: None, name: Some("n".to_string()) }),
        CategoryPlan::CreateNamed("n".to_string())
    );
    assert_eq!(resolve_category(CreateCategory { id: None, name: None }), CategoryPlan::Missing);
}

#[test]
fn row_maps_by_column() {
    let row = SnippetRow {
        id: 5,
        category_id: 9,
        name: Some("io".to_string()),
        description: "print".to_string(),
        code: "print(x)".to_string(),
    };
    assert_eq!(
        Snippet::from_row(row),
        Snippet {
            id: 5,
            category: Category { id: 9, name: Some("io".to_string()) },
            description: "print".to_string(),
            code: "print(x)".to_string(),
        }
    );
}

#[test]
fn error_statuses_and_messages() {
    assert_eq!(DbError::NotFound.status(), 404);
    assert_eq!(DbError::Internal("boom".to_string()).status(), 500);
    assert_eq!(DbError::Internal("boom".to_string()).message(), "boom");
    assert_eq!(DbError::NotFound.message(), "not found");
}
