use laravel_tips::codec::base64_encode;
use laravel_tips::github::{parse_all_laravel_tips, ClientConfig, Tree};
use laravel_tips::parser::parse;

fn tree(path: &str) -> Tree {
    Tree { path: path.to_string(), url: format!("https://example.invalid/{}", path) }
}

#[test]
fn test_is_readme_ignores_case() {
    assert!(tree("README.md").is_readme());
    assert!(tree("readme.MD").is_readme());
    assert!(tree("ReadMe.Md").is_readme());
    assert!(!tree("a.md").is_readme());
    assert!(!tree("README.markdown").is_readme());
}

#[test]
fn test_ingestion_skips_readme_and_absorbs_failures() {
    // Manifest: README.md, a.md, b.md. The README is filtered out before
    // fetching; a.md decodes to two tips; b.md fails to fetch.
    let manifest = vec![tree("README.md"), tree("a.md"), tree("b.md")];
    let to_fetch: Vec<&Tree> = manifest.iter().filter(|t| !t.is_readme()).collect();
    assert_eq!(to_fetch.len(), 2);

    let bodies = vec![Some(base64_encode("### T1\nC1\n### T2\nC2\n")), None];
    let entities = parse_all_laravel_tips(&bodies);

    assert_eq!(entities.len(), 2);
    assert_eq!(entities[0].title, "T1");
    assert_eq!(entities[0].content, "C1\n");
    assert_eq!(entities[1].title, "T2");
    assert_eq!(entities[1].content, "C2\n");
    assert_eq!(entities[0].id, "");
    assert_eq!(entities[1].id, "");
}

#[test]
fn test_ingestion_skips_undecodable_bodies() {
    let bodies = vec![Some("!!! not base64 !!!".to_string()), Some(base64_encode("### K\nv\n"))];
    let entities = parse_all_laravel_tips(&bodies);

    assert_eq!(entities.len(), 1);
    assert_eq!(entities[0].title, "K");
}

#[test]
fn test_parse_propagates_decode_failure() {
    let bodies = vec![base64_encode("### K\nv\n"), "!!! not base64 !!!".to_string()];
    assert!(parse(&bodies).is_err());
}

#[test]
fn test_parse_flattens_bodies_in_order() {
    let bodies = vec![base64_encode("### A\n1\n"), base64_encode("### B\n2\n")];
    let entities = parse(&bodies).expect("parse failed");

    assert_eq!(entities.len(), 2);
    assert_eq!(entities[0].title, "A");
    assert_eq!(entities[1].title, "B");
}

#[test]
fn test_client_config_defaults() {
    let c = ClientConfig::new(None, None, None);
    assert_eq!(c.user_agent, "laravel-tips");
    assert_eq!(c.accept, "application/vnd.github.v3+json");
    assert!(c.token.is_none());

    let c = ClientConfig::new(Some("agent".to_string()), None, Some("tok".to_string()));
    assert_eq!(c.user_agent, "agent");
    assert_eq!(c.token.as_deref(), Some("tok"));
}

#[test]
fn test_bearer_value() {
    assert_eq!(ClientConfig::bearer_value("abc123"), "Bearer abc123");
}
