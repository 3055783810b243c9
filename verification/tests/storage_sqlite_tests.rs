use laravel_tips::model::Entity;
use laravel_tips::storage::sqlite::{entity_from_row, like_pattern, random_outcome};
use laravel_tips::storage::{SqliteStorage, Storage};

fn entity(title: &str, content: &str) -> Entity {
    Entity { id: String::new(), title: title.to_string(), content: content.to_string() }
}

fn storage() -> SqliteStorage {
    SqliteStorage::new(Some("/tmp".to_string()))
}

#[test]
fn test_sqlite_path() {
    assert_eq!(storage().path().unwrap(), "/tmp/.db3");
}

#[test]
fn test_search_finds_keyword_in_title() {
    let s = storage();
    s.store(&vec![entity("Using Eloquent", "a\n"), entity("Other", "b\n")])
        .expect("store failed");

    let found = s.search("Eloquent", None).expect("search failed");
    assert_eq!(found.len(), 1);
    assert_eq!(found[0].title, "Using Eloquent");
    assert_eq!(found[0].content, "a\n");
}

#[test]
fn test_search_finds_keyword_in_content() {
    let s = storage();
    s.store(&vec![entity("One", "talks about Artisan\n"), entity("Two", "not it\n")])
        .expect("store failed");

    let found = s.search("Artisan", None).expect("search failed");
    assert_eq!(found.len(), 1);
    assert_eq!(found[0].title, "One");
}

#[test]
fn test_search_is_case_sensitive_only_on_match_semantics() {
    let s = storage();
    s.store(&vec![entity("Using Eloquent", "a\n")]).expect("store failed");

    let found = s.search("Nothing like it", None).expect("search failed");
    assert!(found.is_empty());
}

#[test]
fn test_sqlite_store_then_random_returns_member() {
    let s = storage();
    let entities = vec![entity("first", "a\n"), entity("second", "b\n")];
    s.store(&entities).expect("store failed");

    let got = s.random().expect("random failed").expect("dataset is not empty");
    assert!(entities.iter().any(|e| e.title == got.title && e.content == got.content));
    // The id is the image of a table row: its auto-increment key as decimal text.
    got.id.parse::<i64>().expect("id is decimal text");
}

#[test]
fn test_store_replaces_previous_generation() {
    let s = storage();
    s.store(&vec![entity("old", "o\n")]).expect("store failed");
    s.store(&vec![entity("new", "n\n")]).expect("store failed");

    let found = s.search("old", None).expect("search failed");
    assert!(found.is_empty());
    let found = s.search("new", None).expect("search failed");
    assert_eq!(found.len(), 1);
}

#[test]
fn test_flush_then_random_is_empty_result() {
    let s = storage();
    s.store(&vec![entity("gone", "g\n")]).expect("store failed");
    s.flush().expect("flush failed");

    let got = s.random().expect("random failed");
    assert!(got.is_none());
}

#[test]
fn test_flush_on_fresh_store_succeeds() {
    let s = storage();
    s.flush().expect("flush failed");
    s.flush().expect("second flush failed");
}

#[test]
fn test_entity_from_row_formats_id() {
    let e = entity_from_row((42, "t".to_string(), "c".to_string()));
    assert_eq!(e.id, "42");
    assert_eq!(e.title, "t");
    assert_eq!(e.content, "c");

    let e = entity_from_row((-7, "t".to_string(), "c".to_string()));
    assert_eq!(e.id, "-7");
}

#[test]
fn test_random_outcome_of_no_row_is_none() {
    assert!(random_outcome(None).is_none());
    let got = random_outcome(Some((1, "t".to_string(), "c".to_string()))).unwrap();
    assert_eq!(got.id, "1");
}

#[test]
fn test_like_pattern_wraps_keyword() {
    assert_eq!(like_pattern("Eloquent"), "%Eloquent%");
    assert_eq!(like_pattern(""), "%%");
}
