use laravel_tips::codec::base64_encode;
use laravel_tips::parser::parse_tips;

#[test]
fn test_parse_two_tips() {
    let text = "### T1\nC1\n### T2\nC2\n";
    let encoded = base64_encode(text);
    let tips = parse_tips(encoded).expect("decode failed");

    assert_eq!(tips.len(), 2);
    assert_eq!(tips[0].title, "T1");
    assert_eq!(tips[0].content, "C1\n");
    assert_eq!(tips[1].title, "T2");
    assert_eq!(tips[1].content, "C2\n");
}

#[test]
fn test_parse_discards_text_before_first_heading() {
    let text = "intro line\nmore intro\n### Real\nbody\n";
    let encoded = base64_encode(text);
    let tips = parse_tips(encoded).expect("decode failed");

    assert_eq!(tips.len(), 1);
    assert_eq!(tips[0].title, "Real");
    assert_eq!(tips[0].content, "body\n");
}

#[test]
fn test_parse_no_heading_yields_nothing() {
    let text = "just some text\nwith lines\nbut no headings\n";
    let encoded = base64_encode(text);
    let tips = parse_tips(encoded).expect("decode failed");

    assert!(tips.is_empty());
}

#[test]
fn test_parse_trims_title() {
    let text = "###   Spaced Title   \ncontent\n";
    let encoded = base64_encode(text);
    let tips = parse_tips(encoded).expect("decode failed");

    assert_eq!(tips.len(), 1);
    assert_eq!(tips[0].title, "Spaced Title");
}

#[test]
fn test_parse_strips_repeated_marker_groups() {
    let text = "######Deep\ncontent\n";
    let encoded = base64_encode(text);
    let tips = parse_tips(encoded).expect("decode failed");

    assert_eq!(tips.len(), 1);
    assert_eq!(tips[0].title, "Deep");
}

#[test]
fn test_parse_handles_crlf_lines() {
    let text = "### T\r\nC\r\n";
    let encoded = base64_encode(text);
    let tips = parse_tips(encoded).expect("decode failed");

    assert_eq!(tips.len(), 1);
    assert_eq!(tips[0].title, "T");
    assert_eq!(tips[0].content, "C\n");
}

#[test]
fn test_parse_empty_content_between_headings() {
    let text = "### A\n### B\nb1\n";
    let encoded = base64_encode(text);
    let tips = parse_tips(encoded).expect("decode failed");

    assert_eq!(tips.len(), 2);
    assert_eq!(tips[0].title, "A");
    assert_eq!(tips[0].content, "");
    assert_eq!(tips[1].title, "B");
    assert_eq!(tips[1].content, "b1\n");
}

#[test]
fn test_parse_heading_count_matches_tip_count() {
    let text = "### One\na\nb\n### Two\n### Three\nc\n";
    let encoded = base64_encode(text);
    let tips = parse_tips(encoded).expect("decode failed");

    assert_eq!(tips.len(), 3);
}
