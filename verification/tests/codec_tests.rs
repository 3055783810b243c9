use base64::Engine;
use laravel_tips::codec::{base64_decode, base64_encode};
use laravel_tips::model::DecodeError;

#[test]
fn test_round_trip_plain_text() {
    let text = "hello world";
    let decoded = base64_decode(base64_encode(text)).expect("decode failed");
    assert_eq!(decoded, text);
}

#[test]
fn test_round_trip_unicode_text() {
    let text = "tips — häufig, \u{1F980}, newline\nand tab\t";
    let decoded = base64_decode(base64_encode(text)).expect("decode failed");
    assert_eq!(decoded, text);
}

#[test]
fn test_round_trip_empty_text() {
    let decoded = base64_decode(base64_encode("")).expect("decode failed");
    assert_eq!(decoded, "");
}

#[test]
fn test_decode_ignores_inserted_newlines() {
    let encoded = base64_encode("the payload survives line wrapping");
    let mut wrapped = String::new();
    for (i, c) in encoded.chars().enumerate() {
        if i > 0 && i % 8 == 0 {
            wrapped.push('\n');
        }
        wrapped.push(c);
    }
    let decoded = base64_decode(wrapped).expect("decode failed");
    assert_eq!(decoded, "the payload survives line wrapping");
}

#[test]
fn test_decode_ignores_escaped_newlines() {
    let encoded = base64_encode("escaped wrapping too");
    let mut wrapped = String::new();
    for (i, c) in encoded.chars().enumerate() {
        if i > 0 && i % 6 == 0 {
            wrapped.push('\\');
            wrapped.push('n');
        }
        wrapped.push(c);
    }
    let decoded = base64_decode(wrapped).expect("decode failed");
    assert_eq!(decoded, "escaped wrapping too");
}

#[test]
fn test_decode_rejects_invalid_base64() {
    let r = base64_decode("!!! not base64 !!!".to_string());
    assert_eq!(r.unwrap_err(), DecodeError::InvalidBase64);
}

#[test]
fn test_decode_rejects_invalid_utf8() {
    let not_utf8 = base64::engine::general_purpose::STANDARD.encode([0xffu8, 0xfe, 0x00, 0x80]);
    let r = base64_decode(not_utf8);
    assert_eq!(r.unwrap_err(), DecodeError::InvalidUtf8);
}
