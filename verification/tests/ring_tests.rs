use aaura_w3_strawb::templates::{footer, webring_self_url, FOOTER_END, FOOTER_LEFT, FOOTER_RIGHT, FOOTER_START};
use aaura_w3_strawb::webring::{ring_neighbours, ring_position};

fn ring() -> Vec<String> {
    vec!["https://a.example".to_string(), "https://annaaurora.eu".to_string(), "https://c.example".to_string()]
}

#[test]
fn position_in_ring() {
    let r = ring();
    assert_eq!(ring_position(&r, "https://annaaurora.eu"), Some(1));
    assert_eq!(ring_position(&r, "https://nowhere.example"), None);
}

#[test]
fn neighbours_in_middle_and_at_ends() {
    let r = ring();
    assert_eq!(ring_neighbours(&r, 1), ("https://a.example".to_string(), "https://c.example".to_string()));
    assert_eq!(ring_neighbours(&r, 0), ("https://c.example".to_string(), "https://annaaurora.eu".to_string()));
    assert_eq!(ring_neighbours(&r, 2), ("https://annaaurora.eu".to_string(), "https://a.example".to_string()));
}

#[test]
fn neighbours_undo_each_other() {
    let r = ring();
    for i in 0..r.len() {
        let (_, next) = ring_neighbours(&r, i);
        let j = ring_position(&r, &next).unwrap();
        let (back, _) = ring_neighbours(&r, j);
        assert_eq!(back, r[i]);
    }
}

#[test]
fn ring_of_two() {
    let r = vec!["https://annaaurora.eu".to_string(), "https://b.example".to_string()];
    assert_eq!(ring_neighbours(&r, 0), ("https://b.example".to_string(), "https://b.example".to_string()));
}

#[test]
fn self_url_without_slash() {
    assert_eq!(webring_self_url(), "https://annaaurora.eu");
}

#[test]
fn footer_links_neighbours() {
    let html = footer(&ring(), "/usr/bin/<server>");
    let expected = format!(
        "{}{}{}{}{}{}{}",
        FOOTER_START, "https://a.example", FOOTER_LEFT, "https://c.example", FOOTER_RIGHT, "/usr/bin/&lt;server&gt;", FOOTER_END
    );
    assert_eq!(html, expected);
    assert!(html.starts_with("<footer><div id=\"be_crime_do_gay\"><span>"));
    assert!(html.ends_with("for HTML templating.</p></div></footer>"));
}

#[test]
fn ring_list_from_json() {
    use_ring_json();
}

fn use_ring_json() {
    let ring = aaura_w3_strawb::webring::parse_ring("[\"https://a.example\", \"https://annaaurora.eu\"]").unwrap();
    assert_eq!(ring, vec!["https://a.example".to_string(), "https://annaaurora.eu".to_string()]);
    assert!(aaura_w3_strawb::webring::parse_ring("{\"a\": 1}").is_none());
    assert!(aaura_w3_strawb::webring::parse_ring("not json").is_none());
}
