use aaura_w3_strawb::encoding::{base64_encode, nonce, to_be_bytes};
use aaura_w3_strawb::etag::{apply_etag, etag_applies, is_quoted, xxh3_128, EtagOutcome};
use base64::Engine;

fn expected_tag(body: &[u8]) -> String {
    let hash = xxhash_rust::xxh3::xxh3_128(body);
    base64::engine::general_purpose::STANDARD_NO_PAD.encode(hash.to_be_bytes())
}

#[test]
fn base64_with_and_without_padding() {
    assert_eq!(base64_encode(b"hello", true), "aGVsbG8=");
    assert_eq!(base64_encode(b"hello", false), "aGVsbG8");
    assert_eq!(base64_encode(b"hel", true), "aGVs");
    assert_eq!(base64_encode(b"", true), "");
}

#[test]
fn big_endian_bytes() {
    let bytes = to_be_bytes(0x000102030405060708090a0b0c0d0e0f);
    assert_eq!(bytes, (0u8..16).collect::<Vec<u8>>());
}

#[test]
fn nonce_is_sixteen_random_bytes() {
    let n = nonce();
    assert_eq!(n.len(), 24);
    assert!(n.ends_with("=="));
    let decoded = base64::engine::general_purpose::STANDARD.decode(&n).unwrap();
    assert_eq!(decoded.len(), 16);
}

#[test]
fn hash_is_xxh3() {
    assert_eq!(xxh3_128(b"body"), xxhash_rust::xxh3::xxh3_128(b"body"));
    assert_ne!(xxh3_128(b"body"), xxh3_128(b"bodz"));
}

#[test]
fn tags_css_response() {
    let body = b"body { color: pink; }";
    match apply_etag(200, Some("text/css"), None, body) {
        EtagOutcome::Tagged { etag, not_modified } => {
            assert_eq!(etag, format!("\"{}\"", expected_tag(body)));
            assert!(!not_modified);
        }
        EtagOutcome::Untouched => panic!("a stylesheet is tagged"),
    }
}

#[test]
fn own_tag_means_not_modified() {
    let body = b"some bytes";
    let etag = match apply_etag(200, Some("image/png"), None, body) {
        EtagOutcome::Tagged { etag, .. } => etag,
        EtagOutcome::Untouched => panic!("an image is tagged"),
    };
    match apply_etag(200, Some("image/png"), Some(&etag), body) {
        EtagOutcome::Tagged { not_modified, .. } => assert!(not_modified),
        EtagOutcome::Untouched => panic!("an image is tagged"),
    }
}

#[test]
fn other_tag_means_modified() {
    let body = b"some bytes";
    match apply_etag(200, Some("image/png"), Some("\"AAAA\""), body) {
        EtagOutcome::Tagged { not_modified, .. } => assert!(!not_modified),
        EtagOutcome::Untouched => panic!("an image is tagged"),
    }
}

#[test]
fn html_and_errors_untouched() {
    assert!(matches!(apply_etag(200, Some("text/html; charset=utf-8"), None, b"<p>"), EtagOutcome::Untouched));
    assert!(matches!(apply_etag(404, None, None, b"missing"), EtagOutcome::Untouched));
    assert!(matches!(apply_etag(304, None, Some("\"x\""), b""), EtagOutcome::Untouched));
}

#[test]
fn which_responses_are_tagged() {
    assert!(etag_applies(200, Some("text/css")));
    assert!(etag_applies(299, Some("text/html")));
    assert!(!etag_applies(200, Some("text/html; charset=utf-8")));
    assert!(!etag_applies(199, Some("text/css")));
    assert!(!etag_applies(300, Some("text/css")));
    assert!(is_quoted("\"abc\""));
    assert!(is_quoted("\"\""));
    assert!(!is_quoted("\""));
    assert!(!is_quoted("abc"));
}
