use aaura_w3_strawb::datetime::UtcTimestamp;
use aaura_w3_strawb::frontmatter::{AtomIdParts, MyFrontmatter};
use aaura_w3_strawb::pages::{ContentEntry, MdDir, MdPage, MdRoot, TopLevelRoute};
use std::cmp::Ordering;

fn page(title: &str, secs: Option<i64>) -> MdPage {
    MdPage {
        frontmatter: MyFrontmatter {
            atom_id_parts: Some(AtomIdParts { email: "anna@annaaurora.eu".to_string(), object: title.to_string() }),
            title: title.to_string(),
            date_published: secs.map(|s| UtcTimestamp::new(s, 0).unwrap()),
            date_published_time_precision: None,
            description: Some(format!("about {}", title)),
            keywords: None,
        },
        html: format!("<p>{}</p>", title),
    }
}

fn titles(dir: &MdDir) -> Vec<String> {
    (0..dir.len()).map(|i| dir.entry(i).1.frontmatter.title.clone()).collect()
}

fn names(dir: &MdDir) -> Vec<String> {
    (0..dir.len()).map(|i| dir.entry(i).0).collect()
}

#[test]
fn newer_pages_come_first() {
    let old = page("old", Some(100));
    let new = page("new", Some(200));
    let undated = page("undated", None);
    assert_eq!(new.cmp(&old), Ordering::Less);
    assert_eq!(old.cmp(&new), Ordering::Greater);
    assert_eq!(old.cmp(&page("same", Some(100))), Ordering::Equal);
    assert_eq!(undated.cmp(&old), Ordering::Greater);
    assert_eq!(undated.cmp(&page("u2", None)), Ordering::Equal);
}

#[test]
fn directory_insert_replaces_in_place() {
    let mut dir = MdDir::new();
    dir.insert("a".to_string(), page("first a", Some(1)));
    dir.insert("b".to_string(), page("b", Some(2)));
    dir.insert("a".to_string(), page("second a", Some(3)));
    assert_eq!(names(&dir), vec!["a", "b"]);
    assert_eq!(titles(&dir), vec!["second a", "b"]);
    assert_eq!(dir.get("a").unwrap().frontmatter.title, "second a");
    assert!(dir.get("c").is_none());
}

#[test]
fn directory_sort_is_stable_newest_first() {
    let mut dir = MdDir::from_pages(vec![
        ("p1".to_string(), page("p1", Some(10))),
        ("p2".to_string(), page("p2", None)),
        ("p3".to_string(), page("p3", Some(30))),
        ("p4".to_string(), page("p4", Some(10))),
        ("p5".to_string(), page("p5", Some(20))),
    ]);
    dir.sort_newest_first();
    assert_eq!(names(&dir), vec!["p3", "p5", "p1", "p4", "p2"]);
    assert_eq!(dir.get("p4").unwrap().frontmatter.title, "p4");
}

fn contact() -> ContentEntry {
    ContentEntry::Page { name: "contact".to_string(), page: page("Contact", None) }
}

/// A blog directory holding the given pages and the two the site looks up
/// as it starts, both undated.
fn blog(mut pages: Vec<(String, MdPage)>) -> ContentEntry {
    pages.push(("i-bought-a-thinkpad".to_string(), page("Thinkpad", None)));
    pages.push(("starship-velociraptor-an-amazing-album".to_string(), page("Starship", None)));
    ContentEntry::Dir { name: "blog".to_string(), pages }
}

fn site() -> MdRoot {
    MdRoot::new(vec![
        contact(),
        blog(vec![
            ("older".to_string(), page("Older", Some(1_600_000_000))),
            ("newest".to_string(), page("Newest", Some(1_719_324_668))),
        ]),
        ContentEntry::Dir { name: "art".to_string(), pages: vec![("sketch".to_string(), page("Sketch", Some(1_700_000_000)))] },
    ])
    .unwrap()
}

#[test]
fn latest_date_is_newest_page() {
    let root = site();
    assert_eq!(root.latest_date(), UtcTimestamp::new(1_719_324_668, 0).unwrap());
}

#[test]
fn root_lookups() {
    let root = site();
    assert!(matches!(root.route_top_level("blog"), TopLevelRoute::DirectoryListing));
    match root.route_top_level("contact") {
        TopLevelRoute::Page(p) => assert_eq!(p.frontmatter.title, "Contact"),
        _ => panic!("contact is a page"),
    }
    assert!(matches!(root.route_top_level("nothing"), TopLevelRoute::Missing));
    assert_eq!(root.sub_page("blog", "older").unwrap().frontmatter.title, "Older");
    assert!(root.sub_page("blog", "contact").is_none());
    assert!(root.sub_page("nothing", "older").is_none());
    let blog = root.dir("blog").unwrap();
    assert_eq!(names(blog), vec!["newest", "older", "i-bought-a-thinkpad", "starship-velociraptor-an-amazing-album"]);
    assert_eq!(root.dir_count(), 2);
    assert_eq!(root.dir_name(0), "blog");
    assert_eq!(root.dir_name(1), "art");
}

#[test]
fn root_needs_a_dated_page() {
    assert!(MdRoot::new(vec![ContentEntry::Page { name: "contact".to_string(), page: page("Contact", Some(5)) }]).is_none());
    assert!(MdRoot::new(vec![
        contact(),
        blog(vec![("a".to_string(), page("A", Some(5)))]),
        ContentEntry::Dir { name: "drafts".to_string(), pages: vec![("b".to_string(), page("B", None))] },
    ])
    .is_none());
    assert!(MdRoot::new(vec![contact(), blog(vec![])]).is_none());
    let root = MdRoot::new(vec![
        contact(),
        ContentEntry::Dir { name: "empty".to_string(), pages: vec![] },
        blog(vec![("a".to_string(), page("A", None)), ("b".to_string(), page("B", Some(7)))]),
    ])
    .unwrap();
    assert_eq!(root.latest_date(), UtcTimestamp::new(7, 0).unwrap());
}

#[test]
fn root_needs_the_startup_pages() {
    let dated = || vec![("a".to_string(), page("A", Some(5)))];
    assert!(MdRoot::new(vec![contact(), blog(dated())]).is_some());
    assert!(MdRoot::new(vec![blog(dated())]).is_none());
    assert!(MdRoot::new(vec![
        contact(),
        ContentEntry::Dir { name: "art".to_string(), pages: dated() },
    ])
    .is_none());
    let without = |missing: &str| {
        let pages = vec![
            ("a".to_string(), page("A", Some(5))),
            ("i-bought-a-thinkpad".to_string(), page("Thinkpad", None)),
            ("starship-velociraptor-an-amazing-album".to_string(), page("Starship", None)),
        ];
        let pages = pages.into_iter().filter(|(n, _)| n != missing).collect();
        MdRoot::new(vec![contact(), ContentEntry::Dir { name: "blog".to_string(), pages }])
    };
    assert!(without("i-bought-a-thinkpad").is_none());
    assert!(without("starship-velociraptor-an-amazing-album").is_none());
    assert!(without("nothing").is_some());
    // the contact page must be a top-level page, not a directory
    assert!(MdRoot::new(vec![
        ContentEntry::Dir { name: "contact".to_string(), pages: dated() },
        blog(dated()),
    ])
    .is_none());
}

#[test]
fn later_directory_replaces_earlier() {
    let root = MdRoot::new(vec![
        contact(),
        ContentEntry::Dir { name: "blog".to_string(), pages: vec![("a".to_string(), page("A", Some(900)))] },
        blog(vec![("b".to_string(), page("B", Some(5)))]),
    ])
    .unwrap();
    assert_eq!(root.dir_count(), 1);
    assert!(root.sub_page("blog", "a").is_none());
    assert_eq!(root.latest_date(), UtcTimestamp::new(5, 0).unwrap());
}
