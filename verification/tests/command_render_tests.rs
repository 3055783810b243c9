use laravel_tips::command::{Args, Manager, OutputFormat, SearchEngine};
use laravel_tips::model::{Entity, StorageError};
use laravel_tips::render::{render_tip, render_tips};
use laravel_tips::storage::{new_storage, SelectedStorage, Storage};
use laravel_tips::text::{i64_to_string, u64_to_string};

fn entity(title: &str, content: &str) -> Entity {
    Entity { id: String::new(), title: title.to_string(), content: content.to_string() }
}

#[test]
fn test_search_engine_from_arg_text() {
    assert_eq!(SearchEngine::from_arg_text("sqlite"), Ok(SearchEngine::SQLite));
    assert_eq!(SearchEngine::from_arg_text("s"), Ok(SearchEngine::SQLite));
    assert_eq!(SearchEngine::from_arg_text("file"), Ok(SearchEngine::File));
    assert_eq!(SearchEngine::from_arg_text("f"), Ok(SearchEngine::File));
    assert_eq!(
        SearchEngine::from_arg_text("postgres"),
        Err("unknown search engine: postgres, only support [sqlite, file]".to_string())
    );
}

#[test]
fn test_output_format_from_arg_text() {
    assert_eq!(OutputFormat::from_arg_text("text"), Ok(OutputFormat::Text));
    assert_eq!(OutputFormat::from_arg_text("t"), Ok(OutputFormat::Text));
    assert_eq!(OutputFormat::from_arg_text("json"), Ok(OutputFormat::Json));
    assert_eq!(OutputFormat::from_arg_text("j"), Ok(OutputFormat::Json));
    assert_eq!(OutputFormat::from_arg_text("anything"), Ok(OutputFormat::Terminal));
}

#[test]
fn test_new_storage_selects_engine() {
    match new_storage(Some(SearchEngine::File), Some("/tmp".to_string())) {
        SelectedStorage::File(f) => assert_eq!(f.path.as_deref(), Some("/tmp")),
        SelectedStorage::Sqlite(_) => panic!("expected the flat-file engine"),
    }
    match new_storage(Some(SearchEngine::SQLite), None) {
        SelectedStorage::Sqlite(_) => {}
        SelectedStorage::File(_) => panic!("expected the relational engine"),
    }
    match new_storage(None, None) {
        SelectedStorage::Sqlite(_) => {}
        SelectedStorage::File(_) => panic!("expected the relational engine by default"),
    }
}

#[test]
fn test_supports_search_capability() {
    let file = new_storage(Some(SearchEngine::File), None);
    assert!(!file.supports_search());
    assert!(file.search("kw", None).is_err());

    let sqlite = new_storage(None, Some("/tmp".to_string()));
    assert!(sqlite.supports_search());
}

#[test]
fn test_manager_holds_args() {
    let args = Args {
        version: false,
        nested: None,
        engin: Some(SearchEngine::File),
        path: None,
        output: None,
        quiet: true,
    };
    let m = Manager::new(args);
    assert!(m.args.quiet);
    assert_eq!(m.output_format(), OutputFormat::Terminal);
}

#[test]
fn test_render_tip_block() {
    let r = render_tip(&entity("Title", "line1\nline2\n"));
    assert_eq!(r, "### Title\nline1\nline2\n\n");
}

#[test]
fn test_render_single_tip_has_no_header() {
    let r = render_tips(&vec![entity("Only", "c\n")]);
    assert_eq!(r, "### Only\nc\n\n");
}

#[test]
fn test_render_many_tips_has_count_header() {
    let r = render_tips(&vec![entity("A", "1\n"), entity("B", "2\n")]);
    assert_eq!(r, "## Found 2 tips\n\n\n\n### A\n1\n\n\n### B\n2\n\n");
}

#[test]
fn test_decimal_formatting() {
    assert_eq!(u64_to_string(0), "0");
    assert_eq!(u64_to_string(42), "42");
    assert_eq!(u64_to_string(18446744073709551615), "18446744073709551615");
    assert_eq!(i64_to_string(-1), "-1");
    assert_eq!(i64_to_string(-9223372036854775808), "-9223372036854775808");
    assert_eq!(i64_to_string(9223372036854775807), "9223372036854775807");
}

#[test]
fn test_storage_error_messages() {
    assert_eq!(
        StorageError::NotSynced.message(),
        "can't load tips from disk, try [sync] first"
    );
    assert_eq!(StorageError::Engine("boom".to_string()).message(), "boom");
    assert_eq!(
        StorageError::PathResolution("no home".to_string()).message(),
        "no home"
    );
    assert_eq!(StorageError::Unsupported("nope".to_string()).message(), "nope");
}
