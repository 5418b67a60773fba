use aaura_w3_strawb::text::{ends_with, escape_html, join, push_decimal, push_signed_decimal, starts_with, str_eq};

#[test]
fn escapes_markup_characters() {
    assert_eq!(escape_html("<a href=\"x\">&</a>"), "&lt;a href=&quot;x&quot;&gt;&amp;&lt;/a&gt;");
}

#[test]
fn escaping_keeps_other_text() {
    assert_eq!(escape_html("Anna Aurora's website – blå"), "Anna Aurora's website – blå");
}

#[test]
fn escaped_text_has_no_markup() {
    let escaped = escape_html("<<\">>&&");
    assert!(!escaped.contains('<') && !escaped.contains('>') && !escaped.contains('"'));
}

#[test]
fn ends_with_suffix() {
    assert!(ends_with("image.png", ".png"));
    assert!(!ends_with("png", ".png"));
    assert!(ends_with("x", ""));
}

#[test]
fn starts_with_prefix() {
    assert!(starts_with("/blog/", "/"));
    assert!(!starts_with("blog", "/"));
}

#[test]
fn string_equality() {
    assert!(str_eq("Index", "Index"));
    assert!(!str_eq("Index", "index"));
    assert!(!str_eq("Index", "Indexes"));
}

#[test]
fn decimal_forms() {
    let mut s = String::new();
    push_decimal(&mut s, 0);
    s.push(' ');
    push_decimal(&mut s, 1234567890);
    s.push(' ');
    push_signed_decimal(&mut s, -42);
    s.push(' ');
    push_signed_decimal(&mut s, i64::MIN);
    assert_eq!(s, "0 1234567890 -42 -9223372036854775808");
}

#[test]
fn join_with_commas() {
    let items = vec!["guide".to_string(), "linux".to_string(), "vpn".to_string()];
    assert_eq!(join(&items, ","), "guide,linux,vpn");
    assert_eq!(join(&Vec::new(), ","), "");
}
