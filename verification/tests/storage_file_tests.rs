use laravel_tips::model::{Entity, StorageError};
use laravel_tips::storage::file::decode_dataset;
use laravel_tips::storage::{FileStorage, Storage};

fn entity(id: &str, title: &str, content: &str) -> Entity {
    Entity { id: id.to_string(), title: title.to_string(), content: content.to_string() }
}

#[test]
fn test_search() {
    let storage = FileStorage::new(None, None);
    let result = storage.search("test", None);

    assert!(result.is_err());
}

#[test]
fn test_none_unwrap() {
    let a = None;
    let a = a.unwrap_or(1);

    assert_eq!(1, a);
}

#[test]
fn test_search_reports_unsupported() {
    let storage = FileStorage::new(None, None);
    match storage.search("anything", Some("group")) {
        Err(StorageError::Unsupported(m)) => {
            assert_eq!(m, "file storage does not support search, please use sqlite storage");
        }
        other => panic!("expected the unsupported error, got {:?}", other),
    }
}

#[test]
fn test_store_then_random_returns_member() {
    let storage = FileStorage::new(Some("/tmp".to_string()), None);
    let entities = vec![
        entity("", "first", "a\n"),
        entity("", "second", "b\n"),
        entity("", "third", "c\n"),
    ];
    let payload = storage.store_payload(&entities);

    for pick in [0usize, 1, 2, 3, 7, 1000] {
        let got = storage
            .random(Some(payload.clone()), pick)
            .expect("random failed")
            .expect("dataset is not empty");
        assert!(entities.iter().any(|e| e.title == got.title && e.content == got.content));
        assert_eq!(got.title, entities[pick % 3].title);
    }
}

#[test]
fn test_store_empty_then_random_is_empty_result() {
    let storage = FileStorage::new(None, None);
    let payload = storage.store_payload(&vec![]);
    let got = storage.random(Some(payload), 5).expect("random failed");
    assert!(got.is_none());
}

#[test]
fn test_random_without_file_is_not_synced() {
    let storage = FileStorage::new(None, None);
    match storage.random(None, 0) {
        Err(StorageError::NotSynced) => {}
        other => panic!("expected the not-synced error, got {:?}", other),
    }
}

#[test]
fn test_random_on_garbage_content_is_engine_error() {
    let storage = FileStorage::new(None, None);
    match storage.random(Some("not a dataset".to_string()), 0) {
        Err(StorageError::Engine(_)) => {}
        other => panic!("expected an engine error, got {:?}", other),
    }
}

#[test]
fn test_payload_round_trip_keeps_every_field() {
    let storage = FileStorage::new(None, None);
    let entities = vec![
        entity("7", "with \"quotes\"", "and \\ backslash\nand newline\n"),
        entity("", "unicode \u{1F980}", ""),
    ];
    let payload = storage.store_payload(&entities);
    let loaded = decode_dataset(&payload).expect("payload must decode");

    assert_eq!(loaded.len(), entities.len());
    for (a, b) in loaded.iter().zip(entities.iter()) {
        assert_eq!(a.id, b.id);
        assert_eq!(a.title, b.title);
        assert_eq!(a.content, b.content);
    }
}

#[test]
fn test_decode_rejects_wrong_shape() {
    // A JSON array of strings whose length is not a multiple of three.
    assert!(decode_dataset("[\"a\",\"b\"]").is_none());
    // Not JSON at all.
    assert!(decode_dataset("{").is_none());
}

#[test]
fn test_normalize_path_defaults_to_home_laravel() {
    let path = laravel_tips::storage::normalize_path(".test".to_string(), None).unwrap();
    let home = home::home_dir().unwrap().join(".laravel/.test");
    assert_eq!(path, home.to_string_lossy().to_string());
}

#[test]
fn test_path_joins_configured_directory() {
    let storage = FileStorage::new(Some("/tmp".to_string()), None);
    assert_eq!(storage.path().unwrap(), "/tmp/tips.json");

    let storage = FileStorage::new(Some("/tmp".to_string()), Some(".test".to_string()));
    assert_eq!(storage.path().unwrap(), "/tmp/.test");
}
