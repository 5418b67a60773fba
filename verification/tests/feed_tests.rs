use aaura_w3_strawb::datetime::UtcTimestamp;
use aaura_w3_strawb::feeds::{atom_feed, feed_item, feed_items, json_feed, page_entry, RenderedFeeds, FEED_OPEN};
use aaura_w3_strawb::frontmatter::{AtomIdParts, MyFrontmatter};
use aaura_w3_strawb::pages::{ContentEntry, MdPage, MdRoot};

fn page(title: &str, secs: i64, object: &str) -> MdPage {
    MdPage {
        frontmatter: MyFrontmatter {
            atom_id_parts: Some(AtomIdParts { email: "anna@annaaurora.eu".to_string(), object: object.to_string() }),
            title: title.to_string(),
            date_published: Some(UtcTimestamp::new(secs, 0).unwrap()),
            date_published_time_precision: None,
            description: Some("About it".to_string()),
            keywords: Some(vec!["a".to_string()]),
        },
        html: "<p>Hi</p>".to_string(),
    }
}

#[test]
fn short_entry() {
    let e = page_entry(false, "blog", "post", &page("Post", 1719324668, "0")).unwrap();
    assert_eq!(
        e,
        "<entry><id>tag:anna@annaaurora.eu,2024-06-25:0</id><title>Post</title><published>2024-06-25T14:11:08+00:00</published><updated>2024-06-25T14:11:08+00:00</updated><summary>About it</summary><content type=\"html\" src=\"https://annaaurora.eu/blog/post/\"></content></entry>"
    );
}

#[test]
fn full_entry() {
    let e = page_entry(true, "blog", "post", &page("Post", 1719324668, "0")).unwrap();
    assert!(e.ends_with("<summary>About it</summary><link rel=\"alternate\" type=\"html\" href=\"https://annaaurora.eu/blog/post/\"></link><content type=\"html\">&lt;p&gt;Hi&lt;/p&gt;</content></entry>"));
}

#[test]
fn entry_needs_id_parts_and_description() {
    let mut p = page("Post", 1719324668, "0");
    p.frontmatter.description = None;
    assert!(page_entry(false, "blog", "post", &p).is_none());
    let mut q = page("Post", 1719324668, "0");
    q.frontmatter.atom_id_parts = None;
    assert!(feed_item("blog", "post", &q).is_none());
}

fn site() -> MdRoot {
    MdRoot::new(vec![
        ContentEntry::Page { name: "contact".to_string(), page: page("Contact", 1500000000, "c") },
        ContentEntry::Dir {
            name: "blog".to_string(),
            pages: vec![
                ("old".to_string(), page("Old", 1600000000, "1")),
                ("new".to_string(), page("New", 1719324668, "2")),
                ("i-bought-a-thinkpad".to_string(), page("Thinkpad", 1500000000, "3")),
                ("starship-velociraptor-an-amazing-album".to_string(), page("Starship", 1400000000, "4")),
            ],
        },
    ])
    .unwrap()
}

#[test]
fn feed_of_site() {
    let root = site();
    let feed = atom_feed(&root, "0.26.0", false).unwrap();
    assert!(feed.starts_with(FEED_OPEN));
    assert!(feed.starts_with("<?xml version=\"1.0\" encoding=\"utf-8\"?><feed xmlns=\"http://www.w3.org/2005/Atom\" xml:lang=\"en\" xml:base=\"https://annaaurora.eu/\"><id>https://annaaurora.eu/</id><title>Anna Aurora</title><updated>2024-06-25T14:11:08+00:00</updated>"));
    assert!(feed.contains("<generator uri=\"https://maud.lambda.xyz/\" version=\"0.26.0\">Maud</generator>"));
    let new_at = feed.find("<title>New</title>").unwrap();
    let old_at = feed.find("<title>Old</title>").unwrap();
    let thinkpad_at = feed.find("<title>Thinkpad</title>").unwrap();
    let starship_at = feed.find("<title>Starship</title>").unwrap();
    assert!(new_at < old_at && old_at < thinkpad_at && thinkpad_at < starship_at);
    assert!(!feed.contains("<title>Contact</title>"));
    assert!(feed.ends_with("</entry></feed>"));
    let full = atom_feed(&root, "0.26.0", true).unwrap();
    assert!(full.contains("<title>Anna Aurora Kitsüne</title>"));
    assert!(full.contains("<subtitle>A feed for pages"));
}

#[test]
fn json_items_of_site() {
    let root = site();
    let items = feed_items(&root).unwrap();
    assert_eq!(items.len(), 4);
    assert_eq!(items[0].id, "tag:anna@annaaurora.eu,2024-06-25:2");
    assert_eq!(items[0].url, "https://annaaurora.eu/blog/new/");
    assert_eq!(items[0].date_published, "2024-06-25T14:11:08+00:00");
    assert_eq!(items[1].title, "Old");
    assert_eq!(items[1].tags.as_ref().unwrap(), &vec!["a".to_string()]);
    assert_eq!(items[3].title, "Starship");
    let feeds = RenderedFeeds::new("atom".to_string(), "json".to_string());
    assert_eq!(feeds.atom(), "atom");
    assert_eq!(feeds.json(), "json");
}

#[test]
fn json_feed_of_site() {
    let feed = json_feed(feed_items(&site()).unwrap());
    assert_eq!(feed.version, "https://jsonfeed.org/version/1.1");
    assert_eq!(feed.title, "Anna Aurora");
    assert_eq!(feed.home_page_url.as_deref(), Some("https://annaaurora.eu/"));
    assert_eq!(feed.feed_url.as_deref(), Some("https://annaaurora.eu/feed.json"));
    assert!(feed.description.as_deref().unwrap().starts_with("A feed for pages on Anna Aurora's website"));
    assert!(feed.user_comment.is_none() && feed.next_url.is_none());
    assert_eq!(feed.icon.as_deref(), Some("https://annaaurora.eu/static/favicons/512x512.png"));
    assert_eq!(feed.favicon.as_deref(), Some("https://annaaurora.eu/static/favicons/64x64.png"));
    let authors = feed.authors.unwrap();
    assert_eq!(authors.len(), 1);
    assert_eq!(authors[0].name.as_deref(), Some("Anna Aurora Kitsüne"));
    assert_eq!(authors[0].avatar.as_deref(), Some("https://annaaurora.eu/"));
    assert_eq!(feed.language.as_deref(), Some("en"));
    assert_eq!(feed.expired, Some(false));
    assert_eq!(feed.items.len(), 4);
    assert_eq!(feed.items[0].title, "New");
}
