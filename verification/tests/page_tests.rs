use aaura_w3_strawb::datetime::{CalendarDay, UtcTimestamp};
use aaura_w3_strawb::frontmatter::{AtomIdParts, MyFrontmatter};
use aaura_w3_strawb::listings::{
    dir_list_content, dir_list_frontmatter, linux_journey, linux_journey_content, linux_journey_frontmatter,
    md_page_list, md_page_response, media_relative_path, JourneyEntry, JOURNEY_OPEN,
};
use aaura_w3_strawb::pages::{ContentEntry, MdDir, MdPage, MdRoot};
use aaura_w3_strawb::templates::{
    base_with_nonce, header, index_frontmatter, index_page, redirect_to_dir, DOC_OPEN, HEADER_HTML, HEAD_CLOSE, INDEX_CONTENT,
};
use aaura_w3_strawb::{BASE_URL, COMMON_CSP};

fn page(title: &str, secs: Option<i64>, precise: Option<bool>) -> MdPage {
    MdPage {
        frontmatter: MyFrontmatter {
            atom_id_parts: Some(AtomIdParts { email: "anna@annaaurora.eu".to_string(), object: "0".to_string() }),
            title: title.to_string(),
            date_published: secs.map(|s| UtcTimestamp::new(s, 0).unwrap()),
            date_published_time_precision: precise,
            description: Some("Desc".to_string()),
            keywords: Some(vec!["guide".to_string(), "vpn".to_string()]),
        },
        html: "<p>x</p>".to_string(),
    }
}

#[test]
fn header_is_fixed() {
    let h = header("nonce");
    assert_eq!(h, HEADER_HTML);
    assert!(h.starts_with("<header><img id=\"banner\" src=\"/static/banner-text-to-path.svg\""));
    assert!(h.ends_with("<a href=\"/feed.json\">JSON Feed</a></nav></header>"));
}

#[test]
fn redirect_adds_slash() {
    let r = redirect_to_dir("/blog");
    assert_eq!(r.location, "https://annaaurora.eu/blog/");
    assert_eq!(
        r.html,
        "<!DOCTYPE html><html lang=\"en\"><body><a href=\"https://annaaurora.eu/blog/\">Moved permanently</a>.</body></html>"
    );
    assert_eq!(redirect_to_dir("/blog/post").location, "https://annaaurora.eu/blog/post/");
}

#[test]
fn page_frame_with_frontmatter() {
    let p = page("A <b> title", Some(1719324668), Some(false));
    let res = base_with_nonce(Some(&p.frontmatter), "<p>x</p>", "NONCE", "<footer></footer>");
    assert_eq!(res.content_security_policy, format!("{} style-src 'self' 'nonce-NONCE';", COMMON_CSP));
    let expected = format!(
        "{}<title>Anna Aurora's website - A &lt;b&gt; title</title><meta name=\"description\" content=\"Desc\"><meta name=\"keywords\" content=\"guide,vpn\">{}{}<main><h1>A &lt;b&gt; title</h1><p>Published at <time datetime=\"2024-06-25T14:11:08+00:00\">2024-06-25</time></p><p>x</p></main><footer></footer></body></html>",
        DOC_OPEN, HEAD_CLOSE, HEADER_HTML
    );
    assert_eq!(res.html, expected);
}

#[test]
fn page_frame_without_frontmatter() {
    let res = base_with_nonce(None, "c", "N", "f");
    assert_eq!(res.html, format!("{}<title>Anna Aurora's website</title>{}{}<main>c</main>f</body></html>", DOC_OPEN, HEAD_CLOSE, HEADER_HTML));
}

#[test]
fn start_page_has_no_heading() {
    let fm = index_frontmatter();
    let res = base_with_nonce(Some(&fm), INDEX_CONTENT, "N", "f");
    assert!(!res.html.contains("<h1>"));
    assert!(res.html.contains("<title>Anna Aurora's website - Index</title>"));
    let page = index_page("f");
    assert!(page.html.contains(INDEX_CONTENT));
    assert!(page.content_security_policy.starts_with(COMMON_CSP));
    assert_ne!(page.content_security_policy, index_page("f").content_security_policy);
}

#[test]
fn md_page_in_frame() {
    let p = page("Post", Some(1719324668), None);
    let res = md_page_response(&p, "F");
    assert!(res.html.contains("<h1>Post</h1><p>Published at <time datetime=\"2024-06-25T14:11:08+00:00\">2024-06-25 14:11:08+00:00</time></p><p>x</p></main>F</body></html>"));
}

#[test]
fn directory_list() {
    let mut dir = MdDir::new();
    dir.insert("a&b".to_string(), page("A", Some(1719324668), Some(false)));
    let html = dir_list_content(&dir).unwrap();
    assert_eq!(
        html,
        "<ol class=\"md_dir_list\"><li><time datetime=\"2024-06-25\">2024-06-25</time><a href=\"a&amp;b/\">A</a></li></ol>"
    );
    dir.insert("undated".to_string(), page("U", None, None));
    assert!(dir_list_content(&dir).is_none());
}

#[test]
fn directory_list_page() {
    let root = MdRoot::new(vec![
        ContentEntry::Page { name: "contact".to_string(), page: page("Contact", None, None) },
        ContentEntry::Dir {
            name: "blog".to_string(),
            pages: vec![
                ("p".to_string(), page("P", Some(1719324668), Some(false))),
                ("i-bought-a-thinkpad".to_string(), page("Thinkpad", Some(1500000000), None)),
                ("starship-velociraptor-an-amazing-album".to_string(), page("Starship", Some(1400000000), None)),
            ],
        },
    ])
    .unwrap();
    let res = md_page_list(&root, "blog", "F").unwrap();
    assert!(res.html.contains("<title>Anna Aurora's website - blog</title><meta name=\"description\" content=\"A list of all posts under /blog/.\">"));
    assert!(res.html.contains("<h1>blog</h1><ol class=\"md_dir_list\"><li>"));
    assert!(md_page_list(&root, "art", "F").is_none());
    let fm = dir_list_frontmatter("art");
    assert_eq!(fm.description.unwrap(), "A list of all posts under /art/.");
}

#[test]
fn journey_table() {
    let entries = vec![
        JourneyEntry { installed: CalendarDay::new(737425).unwrap(), approximate: true, distro_name: "Arch".to_string(), website_url: "https://archlinux.org".to_string() },
        JourneyEntry { installed: CalendarDay::new(739062).unwrap(), approximate: false, distro_name: "NixOS".to_string(), website_url: "https://nixos.org".to_string() },
    ];
    let today = CalendarDay::new(739072).unwrap();
    let html = linux_journey_content(&entries, today);
    let expected = format!(
        "{}<tr><td>≅2020-01-01</td><td>1637</td><td><a href=\"https://archlinux.org\">Arch</a></td></tr><tr><td>=2024-06-25</td><td>10</td><td><a href=\"https://nixos.org\">NixOS</a></td></tr></tbody></table>",
        JOURNEY_OPEN
    );
    assert_eq!(html, expected);
    assert_eq!(linux_journey_content(&Vec::new(), today), format!("{}</tbody></table>", JOURNEY_OPEN));
    let fm = linux_journey_frontmatter();
    assert_eq!(fm.keywords.unwrap(), vec!["linux-distros", "timeline", "personal-linux-journey"]);
    let page = linux_journey(&entries, today, "F");
    assert!(page.html.contains("<meta name=\"keywords\" content=\"linux-distros,timeline,personal-linux-journey\">"));
}

#[test]
fn media_path_is_decoded() {
    assert_eq!(media_relative_path("/blog/post/my%20cat.png").unwrap(), "blog/post/my cat.png");
    assert!(media_relative_path("").is_none());
    assert!(media_relative_path("/%FF").is_none());
    assert_eq!(BASE_URL, "https://annaaurora.eu/");
}
