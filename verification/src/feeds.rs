//! The site's feeds: the Atom feed of the pages in directories, the fuller
//! Atom feed with the pages' HTML, and the items of the JSON feed.
use vstd::prelude::*;
use crate::text::html_escape;
use crate::datetime::{rfc3339_text, formatted_text, to_rfc3339, format_timestamp, date_only_format};
use crate::pages::{MdPage, MdRoot, dir_order_names_dirs};
use crate::templates::push_escaped;
use crate::text::{views};
use crate::BASE_URL;

verus! {

/// A page can be in a feed: it is dated (with a date chrono can represent)
/// and its frontmatter has the parts of its Atom id and a description.
pub open spec fn feedable(page: MdPage) -> bool {
    &&& page.date() is Some
    &&& page.frontmatter.atom_id_parts is Some
    &&& page.frontmatter.description is Some
    &&& page.frontmatter.valid()
}

/// The address of a page in a directory.
pub open spec fn page_url(dir: Seq<char>, name: Seq<char>) -> Seq<char> {
    BASE_URL@ + dir + "/"@ + name + "/"@
}

/// The Atom id of a page: a `tag:` URI from the email address, the
/// publication day and the object part.
pub open spec fn page_tag_id(page: MdPage) -> Seq<char> {
    let parts = page.frontmatter.atom_id_parts->0;
    let d = page.date()->0;
    "tag:"@ + parts.email@ + ","@ + formatted_text(d.secs, d.nanos, date_only_format()) + ":"@ + parts.object@
}

/// The publication date of a page in RFC 3339 form.
pub open spec fn page_rfc3339(page: MdPage) -> Seq<char> {
    rfc3339_text(page.date()->0.secs, page.date()->0.nanos)
}

/// A page's Atom entry. The short form links to the page; the full form
/// also carries the page's HTML.
pub open spec fn entry_xml(full: bool, dir: Seq<char>, name: Seq<char>, page: MdPage) -> Seq<char> {
    "<entry><id>"@ + html_escape(page_tag_id(page)) + "</id><title>"@ + html_escape(page.frontmatter.title@)
        + "</title><published>"@ + html_escape(page_rfc3339(page)) + "</published><updated>"@
        + html_escape(page_rfc3339(page)) + "</updated><summary>"@
        + html_escape(page.frontmatter.description->0@) + "</summary>"@
        + (if full {
            "<link rel=\"alternate\" type=\"html\" href=\""@ + html_escape(page_url(dir, name))
                + "\"></link><content type=\"html\">"@ + html_escape(page.html@) + "</content>"@
        } else {
            "<content type=\"html\" src=\""@ + html_escape(page_url(dir, name)) + "\"></content>"@
        }) + "</entry>"@
}

/// The entries of the first `k` pages of a directory.
pub open spec fn dir_entries_xml(full: bool, dir: Seq<char>, pages: Seq<(Seq<char>, MdPage)>, k: int) -> Seq<char>
    decreases k,
{
    if k <= 0 {
        Seq::empty()
    } else {
        dir_entries_xml(full, dir, pages, k - 1) + entry_xml(full, dir, pages[k - 1].0, pages[k - 1].1)
    }
}

/// The entries of the pages of the first `k` directories, directory after
/// directory.
pub open spec fn entries_xml(full: bool, names: Seq<Seq<char>>, dirs: Map<Seq<char>, Seq<(Seq<char>, MdPage)>>, k: int) -> Seq<char>
    decreases k,
{
    if k <= 0 {
        Seq::empty()
    } else {
        entries_xml(full, names, dirs, k - 1)
            + dir_entries_xml(full, names[k - 1], dirs[names[k - 1]], dirs[names[k - 1]].len() as int)
    }
}

/// Every page of every directory can be in a feed.
pub open spec fn all_feedable(dirs: Map<Seq<char>, Seq<(Seq<char>, MdPage)>>) -> bool {
    forall|k: Seq<char>, i: int| dirs.contains_key(k) && 0 <= i < dirs[k].len() ==> feedable(#[trigger] dirs[k][i].1)
}

/// The feed's title.
pub open spec fn feed_title(full: bool) -> Seq<char> {
    if full { "Anna Aurora Kitsüne"@ } else { "Anna Aurora"@ }
}

/// The feed's subtitle.
pub open spec fn feed_subtitle(full: bool) -> Seq<char> {
    if full {
        "A feed for pages on Anna Aurora's website containing flow text or artwork that have an associated publication date, e.g. blog entries."@
    } else {
        "The feed for pages on Anna Aurora's website containing flow text or artwork that have an associated publication date, e.g. blog entries."@
    }
}

/// The start of the feed document.
pub const FEED_OPEN: &'static str = "<?xml version=\"1.0\" encoding=\"utf-8\"?><feed xmlns=\"http://www.w3.org/2005/Atom\" xml:lang=\"en\" xml:base=\"";

/// A whole Atom feed, the site's latest date as its update time.
pub open spec fn feed_xml(full: bool, latest: Seq<char>, maud_version: Seq<char>, entries: Seq<char>) -> Seq<char> {
    FEED_OPEN@ + html_escape(BASE_URL@) + "\"><id>"@ + html_escape(BASE_URL@) + "</id><title>"@ + feed_title(full)
        + "</title><updated>"@ + html_escape(latest)
        + "</updated><author><name>Anna Aurora</name><email>anna@annaaurora.eu</email><uri>"@ + html_escape(BASE_URL@)
        + "</uri></author><link rel=\"self\" href=\""@ + html_escape(BASE_URL@ + "atom.xml"@)
        + "\" type=\"application/atom+xml\" title=\"Atom feed for Anna Aurora's website\"></link><link rel=\"related\" href=\""@
        + html_escape(BASE_URL@) + "\" type=\"text/html\" title=\"Anna Aurora's website\"></link><generator uri=\"https://maud.lambda.xyz/\" version=\""@
        + html_escape(maud_version) + "\">Maud</generator><icon>/static/favicon.png</icon><subtitle>"@ + feed_subtitle(full)
        + "</subtitle>"@ + entries + "</feed>"@
}

/// The Atom feed of the root's pages in directories.
pub open spec fn root_feed_xml(full: bool, root: MdRoot, maud_version: Seq<char>) -> Seq<char> {
    feed_xml(full, rfc3339_text(root.latest().secs, root.latest().nanos), maud_version,
        entries_xml(full, root.dir_order(), root.dirs(), root.dir_order().len() as int))
}

/// The page's Atom entry, or `None` when it cannot be in a feed.
pub fn page_entry(full: bool, dir: &str, name: &str, page: &MdPage) -> (res: Option<String>)
    ensures
        res is Some <==> feedable(*page),
        res matches Some(x) ==> x@ == entry_xml(full, dir@, name@, *page),
{
    let parts = match &page.frontmatter.atom_id_parts {
        Some(p) => p,
        None => {
            return None;
        },
    };
    let desc = match &page.frontmatter.description {
        Some(d) => d,
        None => {
            return None;
        },
    };
    let date = match &page.frontmatter.date_published {
        Some(d) => d,
        None => {
            return None;
        },
    };
    if !date.valid_exec() {
        return None;
    }
    proof {
        reveal_strlit("%F");
    }
    assert("%F"@ =~= date_only_format());
    let day = format_timestamp(date, "%F");
    let mut id = String::from_str("tag:");
    id.append(parts.email.as_str());
    id.append(",");
    id.append(day.as_str());
    id.append(":");
    id.append(parts.object.as_str());
    assert(id@ =~= page_tag_id(*page));
    let stamp = to_rfc3339(date);
    let mut url = String::from_str(BASE_URL);
    url.append(dir);
    url.append("/");
    url.append(name);
    url.append("/");
    let mut out = String::from_str("<entry><id>");
    push_escaped(&mut out, id.as_str());
    out.append("</id><title>");
    push_escaped(&mut out, page.frontmatter.title.as_str());
    out.append("</title><published>");
    push_escaped(&mut out, stamp.as_str());
    out.append("</published><updated>");
    push_escaped(&mut out, stamp.as_str());
    out.append("</updated><summary>");
    push_escaped(&mut out, desc.as_str());
    out.append("</summary>");
    if full {
        out.append("<link rel=\"alternate\" type=\"html\" href=\"");
        push_escaped(&mut out, url.as_str());
        out.append("\"></link><content type=\"html\">");
        push_escaped(&mut out, page.html.as_str());
        out.append("</content>");
    } else {
        out.append("<content type=\"html\" src=\"");
        push_escaped(&mut out, url.as_str());
        out.append("\"></content>");
    }
    out.append("</entry>");
    assert(out@ =~= entry_xml(full, dir@, name@, *page));
    Some(out)
}

/// The Atom feed of the pages in directories, directory after directory,
/// each newest first; the full form carries each page's HTML. `None` when
/// a page cannot be in a feed (undated, or without id parts or description).
pub fn atom_feed(root: &MdRoot, maud_version: &str, full: bool) -> (res: Option<String>)
    requires
        root.wf(),
    ensures
        res is Some <==> all_feedable(root.dirs()),
        res is None <==> exists|k: Seq<char>, i: int| root.dirs().contains_key(k) && 0 <= i < root.dirs()[k].len()
            && !feedable(#[trigger] root.dirs()[k][i].1),
        res matches Some(x) ==> x@ == root_feed_xml(full, *root, maud_version@),
{
    proof {
        dir_order_names_dirs(*root);
    }
    let mut entries = String::new();
    let n = root.dir_count();
    let mut i: usize = 0;
    while i < n
        invariant
            root.wf(),
            n == root.dir_order().len(),
            i <= n,
            forall|j: int| 0 <= j < root.dir_order().len() ==> root.dirs().contains_key(#[trigger] root.dir_order()[j]),
            forall|j: int, x: int| 0 <= j < i && 0 <= x < root.dirs()[root.dir_order()[j]].len()
                ==> feedable(#[trigger] root.dirs()[root.dir_order()[j]][x].1),
            entries@ == entries_xml(full, root.dir_order(), root.dirs(), i as int),
        decreases n - i,
    {
        let name = root.dir_name(i);
        let ghost key = name@;
        assert(root.dirs().contains_key(key));
        let dir = match root.dir(name.as_str()) {
            Some(d) => d,
            None => {
                return None;
            },
        };
        let m = dir.len();
        let mut j: usize = 0;
        let ghost before = entries@;
        while j < m
            invariant
                dir.wf(),
                root.dirs().contains_key(key),
                name@ == key,
                dir@ == root.dirs()[key],
                m == dir@.len(),
                j <= m,
                forall|x: int| 0 <= x < j ==> feedable(#[trigger] dir@[x].1),
                entries@ == before + dir_entries_xml(full, key, dir@, j as int),
            decreases m - j,
        {
            let (page_name, page) = dir.entry(j);
            match page_entry(full, name.as_str(), page_name.as_str(), page) {
                Some(x) => {
                    assert(x@ == entry_xml(full, key, dir@[j as int].0, dir@[j as int].1));
                    let ghost mid = entries@;
                    entries.append(x.as_str());
                    assert(entries@ == mid + x@);
                    assert(dir_entries_xml(full, key, dir@, j + 1) == dir_entries_xml(full, key, dir@, j as int)
                        + entry_xml(full, key, dir@[j as int].0, dir@[j as int].1));
                    assert(entries@ =~= before + dir_entries_xml(full, key, dir@, j + 1));
                },
                None => {
                    proof {
                        assert(!all_feedable(root.dirs())) by {
                            assert(root.dirs()[key][j as int] == dir@[j as int]);
                        }
                    }
                    return None;
                },
            }
            j = j + 1;
        }
        assert(entries@ =~= entries_xml(full, root.dir_order(), root.dirs(), i + 1));
        i = i + 1;
    }
    proof {
        assert forall|k: Seq<char>, x: int| root.dirs().contains_key(k) && 0 <= x < root.dirs()[k].len()
            implies feedable(#[trigger] root.dirs()[k][x].1) by {
            assert(root.dir_order().contains(k));
            let j = choose|j: int| 0 <= j < root.dir_order().len() && root.dir_order()[j] == k;
            assert(feedable(root.dirs()[root.dir_order()[j]][x].1));
        }
    }
    let latest = root.latest_date();
    let stamp = to_rfc3339(&latest);
    let mut out = String::from_str(FEED_OPEN);
    push_escaped(&mut out, BASE_URL);
    out.append("\"><id>");
    push_escaped(&mut out, BASE_URL);
    out.append("</id><title>");
    if full {
        out.append("Anna Aurora Kitsüne");
    } else {
        out.append("Anna Aurora");
    }
    out.append("</title><updated>");
    push_escaped(&mut out, stamp.as_str());
    out.append("</updated><author><name>Anna Aurora</name><email>anna@annaaurora.eu</email><uri>");
    push_escaped(&mut out, BASE_URL);
    out.append("</uri></author><link rel=\"self\" href=\"");
    let mut self_href = String::from_str(BASE_URL);
    self_href.append("atom.xml");
    push_escaped(&mut out, self_href.as_str());
    out.append("\" type=\"application/atom+xml\" title=\"Atom feed for Anna Aurora's website\"></link><link rel=\"related\" href=\"");
    push_escaped(&mut out, BASE_URL);
    out.append("\" type=\"text/html\" title=\"Anna Aurora's website\"></link><generator uri=\"https://maud.lambda.xyz/\" version=\"");
    push_escaped(&mut out, maud_version);
    out.append("\">Maud</generator><icon>/static/favicon.png</icon><subtitle>");
    if full {
        out.append("A feed for pages on Anna Aurora's website containing flow text or artwork that have an associated publication date, e.g. blog entries.");
    } else {
        out.append("The feed for pages on Anna Aurora's website containing flow text or artwork that have an associated publication date, e.g. blog entries.");
    }
    out.append("</subtitle>");
    out.append(entries.as_str());
    out.append("</feed>");
    assert(out@ =~= root_feed_xml(full, *root, maud_version@));
    Some(out)
}

/// A JSON feed item: what the JSON feed says of one page.
pub struct FeedItem {
    pub id: String,
    pub url: String,
    pub title: String,
    pub content_html: String,
    pub summary: String,
    pub date_published: String,
    pub tags: Option<Vec<String>>,
}

/// The item describes the page `name` of the directory `dir`: its Atom id,
/// address, title, HTML, description, publication date and keywords.
pub open spec fn item_of(item: FeedItem, dir: Seq<char>, name: Seq<char>, page: MdPage) -> bool {
    &&& item.id@ == page_tag_id(page)
    &&& item.url@ == page_url(dir, name)
    &&& item.title@ == page.frontmatter.title@
    &&& item.content_html@ == page.html@
    &&& item.summary@ == page.frontmatter.description->0@
    &&& item.date_published@ == page_rfc3339(page)
    &&& match (item.tags, page.frontmatter.keywords) {
        (Some(t), Some(k)) => views(t@) == views(k@),
        (None, None) => true,
        _ => false,
    }
}

/// The pages of the first `k` directories, directory after directory, each
/// with its directory's name and its own.
pub open spec fn feed_pages(names: Seq<Seq<char>>, dirs: Map<Seq<char>, Seq<(Seq<char>, MdPage)>>, k: int) -> Seq<(Seq<char>, Seq<char>, MdPage)>
    decreases k,
{
    if k <= 0 {
        Seq::empty()
    } else {
        feed_pages(names, dirs, k - 1) + dirs[names[k - 1]].map_values(
            |e: (Seq<char>, MdPage)| (names[k - 1], e.0, e.1))
    }
}

fn copy_strings(v: &Vec<String>) -> (res: Vec<String>)
    ensures
        views(res@) == views(v@),
{
    let mut out: Vec<String> = Vec::new();
    let mut i: usize = 0;
    while i < v.len()
        invariant
            i <= v@.len(),
            out@.len() == i,
            forall|j: int| 0 <= j < i ==> out@[j]@ == v@[j]@,
        decreases v.len() - i,
    {
        out.push(v[i].clone());
        i = i + 1;
    }
    assert(views(out@) =~= views(v@));
    out
}

/// The JSON feed item of a page, or `None` when it cannot be in a feed.
pub fn feed_item(dir: &str, name: &str, page: &MdPage) -> (res: Option<FeedItem>)
    ensures
        res is Some <==> feedable(*page),
        res matches Some(item) ==> item_of(item, dir@, name@, *page),
{
    let parts = match &page.frontmatter.atom_id_parts {
        Some(p) => p,
        None => {
            return None;
        },
    };
    let desc = match &page.frontmatter.description {
        Some(d) => d,
        None => {
            return None;
        },
    };
    let date = match &page.frontmatter.date_published {
        Some(d) => d,
        None => {
            return None;
        },
    };
    if !date.valid_exec() {
        return None;
    }
    proof {
        reveal_strlit("%F");
    }
    assert("%F"@ =~= date_only_format());
    let day = format_timestamp(date, "%F");
    let mut id = String::from_str("tag:");
    id.append(parts.email.as_str());
    id.append(",");
    id.append(day.as_str());
    id.append(":");
    id.append(parts.object.as_str());
    assert(id@ =~= page_tag_id(*page));
    let mut url = String::from_str(BASE_URL);
    url.append(dir);
    url.append("/");
    url.append(name);
    url.append("/");
    assert(url@ =~= page_url(dir@, name@));
    let tags = match &page.frontmatter.keywords {
        Some(k) => Some(copy_strings(k)),
        None => None,
    };
    Some(FeedItem {
        id,
        url,
        title: page.frontmatter.title.clone(),
        content_html: page.html.clone(),
        summary: desc.clone(),
        date_published: to_rfc3339(date),
        tags,
    })
}

/// The JSON feed items of the pages in directories, directory after
/// directory, each newest first. `None` when a page cannot be in a feed.
pub fn feed_items(root: &MdRoot) -> (res: Option<Vec<FeedItem>>)
    requires
        root.wf(),
    ensures
        res is Some <==> all_feedable(root.dirs()),
        res matches Some(items) ==> {
            let pages = feed_pages(root.dir_order(), root.dirs(), root.dir_order().len() as int);
            &&& items@.len() == pages.len()
            &&& forall|i: int| 0 <= i < items@.len()
                ==> item_of(#[trigger] items@[i], pages[i].0, pages[i].1, pages[i].2)
        },
{
    proof {
        dir_order_names_dirs(*root);
    }
    let mut items: Vec<FeedItem> = Vec::new();
    let n = root.dir_count();
    let mut i: usize = 0;
    while i < n
        invariant
            root.wf(),
            n == root.dir_order().len(),
            i <= n,
            forall|j: int| 0 <= j < root.dir_order().len() ==> root.dirs().contains_key(#[trigger] root.dir_order()[j]),
            forall|j: int, x: int| 0 <= j < i && 0 <= x < root.dirs()[root.dir_order()[j]].len()
                ==> feedable(#[trigger] root.dirs()[root.dir_order()[j]][x].1),
            items@.len() == feed_pages(root.dir_order(), root.dirs(), i as int).len(),
            forall|x: int| 0 <= x < items@.len() ==> item_of(#[trigger] items@[x],
                feed_pages(root.dir_order(), root.dirs(), i as int)[x].0,
                feed_pages(root.dir_order(), root.dirs(), i as int)[x].1,
                feed_pages(root.dir_order(), root.dirs(), i as int)[x].2),
        decreases n - i,
    {
        let name = root.dir_name(i);
        let ghost key = name@;
        let ghost done = feed_pages(root.dir_order(), root.dirs(), i as int);
        assert(root.dirs().contains_key(key));
        let dir = match root.dir(name.as_str()) {
            Some(d) => d,
            None => {
                return None;
            },
        };
        let m = dir.len();
        let mut j: usize = 0;
        while j < m
            invariant
                dir.wf(),
                root.dirs().contains_key(key),
                name@ == key,
                dir@ == root.dirs()[key],
                m == dir@.len(),
                j <= m,
                forall|x: int| 0 <= x < j ==> feedable(#[trigger] dir@[x].1),
                items@.len() == done.len() + j,
                forall|x: int| 0 <= x < done.len() ==> item_of(#[trigger] items@[x], done[x].0, done[x].1, done[x].2),
                forall|x: int| 0 <= x < j ==> item_of(#[trigger] items@[done.len() + x], key, dir@[x].0, dir@[x].1),
            decreases m - j,
        {
            let (page_name, page) = dir.entry(j);
            match feed_item(name.as_str(), page_name.as_str(), page) {
                Some(item) => {
                    items.push(item);
                },
                None => {
                    proof {
                        assert(!all_feedable(root.dirs())) by {
                            assert(root.dirs()[key][j as int] == dir@[j as int]);
                        }
                    }
                    return None;
                },
            }
            j = j + 1;
        }
        proof {
            let next = feed_pages(root.dir_order(), root.dirs(), i + 1);
            assert(root.dir_order()[i as int] == key);
            assert(next == done + dir@.map_values(|e: (Seq<char>, MdPage)| (key, e.0, e.1)));
            assert forall|x: int| 0 <= x < items@.len() implies item_of(#[trigger] items@[x], next[x].0, next[x].1, next[x].2) by {
                if x >= done.len() {
                    assert(items@[done.len() + (x - done.len())] == items@[x]);
                }
            }
        }
        i = i + 1;
    }
    proof {
        assert forall|k: Seq<char>, x: int| root.dirs().contains_key(k) && 0 <= x < root.dirs()[k].len()
            implies feedable(#[trigger] root.dirs()[k][x].1) by {
            assert(root.dir_order().contains(k));
            let j = choose|j: int| 0 <= j < root.dir_order().len() && root.dir_order()[j] == k;
            assert(feedable(root.dirs()[root.dir_order()[j]][x].1));
        }
    }
    Some(items)
}

/// The version address of the JSON Feed format the feed follows.
pub const JSON_FEED_VERSION: &'static str = "https://jsonfeed.org/version/1.1";

/// The JSON feed's own address.
pub const JSON_FEED_URL: &'static str = "https://annaaurora.eu/feed.json";

/// What the JSON feed says it holds.
pub const JSON_FEED_DESCRIPTION: &'static str = "A feed for pages on Anna Aurora's website containing flow text or artwork that have an associated publication date, e.g. blog entries.";

/// The JSON feed's icon.
pub const JSON_FEED_ICON: &'static str = "https://annaaurora.eu/static/favicons/512x512.png";

/// The JSON feed's favicon.
pub const JSON_FEED_FAVICON: &'static str = "https://annaaurora.eu/static/favicons/64x64.png";

/// The name of the feed's author.
pub const JSON_FEED_AUTHOR: &'static str = "Anna Aurora Kitsüne";

/// An author of the JSON feed.
pub struct FeedAuthor {
    pub name: Option<String>,
    pub url: Option<String>,
    pub avatar: Option<String>,
}

/// The JSON feed: its fixed description of the site and its items. It
/// names no hubs.
pub struct JsonFeed {
    pub version: String,
    pub title: String,
    pub home_page_url: Option<String>,
    pub feed_url: Option<String>,
    pub description: Option<String>,
    pub user_comment: Option<String>,
    pub next_url: Option<String>,
    pub icon: Option<String>,
    pub favicon: Option<String>,
    pub authors: Option<Vec<FeedAuthor>>,
    pub language: Option<String>,
    pub expired: Option<bool>,
    pub items: Vec<FeedItem>,
}

/// The optional text is there and is `text`.
pub open spec fn holds_text(o: Option<String>, text: Seq<char>) -> bool {
    o matches Some(v) && v@ == text
}

/// The JSON feed of the given items: JSON Feed 1.1, titled "Anna Aurora",
/// with the site's and the feed's addresses, description, icons, its one
/// author, in English and not expired.
pub fn json_feed(items: Vec<FeedItem>) -> (res: JsonFeed)
    ensures
        res.version@ == JSON_FEED_VERSION@,
        res.title@ == "Anna Aurora"@,
        holds_text(res.home_page_url, BASE_URL@),
        holds_text(res.feed_url, JSON_FEED_URL@),
        holds_text(res.description, JSON_FEED_DESCRIPTION@),
        res.user_comment is None,
        res.next_url is None,
        holds_text(res.icon, JSON_FEED_ICON@),
        holds_text(res.favicon, JSON_FEED_FAVICON@),
        res.authors matches Some(a) && a@.len() == 1 && holds_text(a@[0].name, JSON_FEED_AUTHOR@)
            && holds_text(a@[0].url, BASE_URL@) && holds_text(a@[0].avatar, BASE_URL@),
        holds_text(res.language, "en"@),
        res.expired == Some(false),
        res.items@ == items@,
{
    let author = FeedAuthor {
        name: Some(String::from_str(JSON_FEED_AUTHOR)),
        url: Some(String::from_str(BASE_URL)),
        avatar: Some(String::from_str(BASE_URL)),
    };
    JsonFeed {
        version: String::from_str(JSON_FEED_VERSION),
        title: String::from_str("Anna Aurora"),
        home_page_url: Some(String::from_str(BASE_URL)),
        feed_url: Some(String::from_str(JSON_FEED_URL)),
        description: Some(String::from_str(JSON_FEED_DESCRIPTION)),
        user_comment: None,
        next_url: None,
        icon: Some(String::from_str(JSON_FEED_ICON)),
        favicon: Some(String::from_str(JSON_FEED_FAVICON)),
        authors: Some(vec![author]),
        language: Some(String::from_str("en")),
        expired: Some(false),
        items,
    }
}

/// The two rendered feeds: Atom and JSON.
#[derive(Clone)]
pub struct RenderedFeeds {
    atom: String,
    json: String,
}

impl RenderedFeeds {
    /// Holds the two feed documents.
    pub fn new(atom: String, json: String) -> (res: Self)
        ensures
            res.atom_text() == atom@,
            res.json_text() == json@,
    {
        RenderedFeeds { atom, json }
    }

    /// The Atom document.
    pub closed spec fn atom_text(self) -> Seq<char> {
        self.atom@
    }

    /// The JSON document.
    pub closed spec fn json_text(self) -> Seq<char> {
        self.json@
    }

    /// The Atom document.
    pub fn atom(&self) -> (res: &str)
        ensures
            res@ == self.atom_text(),
    {
        self.atom.as_str()
    }

    /// The JSON document.
    pub fn json(&self) -> (res: &str)
        ensures
            res@ == self.json_text(),
    {
        self.json.as_str()
    }
}

/// A page's JSON feed item says what its Atom entry says: the entry is
/// made of the item's id, title, publication date, summary, address and
/// HTML, so the item's summary is the entry's summary, the page's
/// description.
pub proof fn item_agrees_with_entry(full: bool, dir: Seq<char>, name: Seq<char>, page: MdPage, item: FeedItem)
    requires
        feedable(page),
        item_of(item, dir, name, page),
    ensures
        item.summary@ == page.frontmatter.description->0@,
        entry_xml(full, dir, name, page) == "<entry><id>"@ + html_escape(item.id@) + "</id><title>"@
            + html_escape(item.title@) + "</title><published>"@ + html_escape(item.date_published@)
            + "</published><updated>"@ + html_escape(item.date_published@) + "</updated><summary>"@
            + html_escape(item.summary@) + "</summary>"@
            + (if full {
                "<link rel=\"alternate\" type=\"html\" href=\""@ + html_escape(item.url@)
                    + "\"></link><content type=\"html\">"@ + html_escape(item.content_html@) + "</content>"@
            } else {
                "<content type=\"html\" src=\""@ + html_escape(item.url@) + "\"></content>"@
            }) + "</entry>"@,
{
}

/// `part` stands in `whole` from `at` on.
pub open spec fn stands_at(whole: Seq<char>, part: Seq<char>, at: int) -> bool {
    0 <= at && at + part.len() <= whole.len() && whole.subrange(at, at + part.len()) == part
}

proof fn lemma_dir_entries_grow(full: bool, dir: Seq<char>, pages: Seq<(Seq<char>, MdPage)>, k: int, j: int)
    requires
        0 <= k <= j,
    ensures
        stands_at(dir_entries_xml(full, dir, pages, j), dir_entries_xml(full, dir, pages, k), 0),
    decreases j,
{
    if j > k {
        lemma_dir_entries_grow(full, dir, pages, k, j - 1);
        let a = dir_entries_xml(full, dir, pages, j - 1);
        let x = entry_xml(full, dir, pages[j - 1].0, pages[j - 1].1);
        let p = dir_entries_xml(full, dir, pages, k);
        assert((a + x).subrange(0, p.len() as int) =~= a.subrange(0, p.len() as int));
    } else {
        assert(dir_entries_xml(full, dir, pages, j).subrange(0, dir_entries_xml(full, dir, pages, j).len() as int)
            =~= dir_entries_xml(full, dir, pages, j));
    }
}

/// The feed's entries keep the earlier directories' entries in front: the
/// entries of the first `k` directories begin the entries of the first `j`,
/// for every `k` up to `j`.
pub proof fn feed_keeps_earlier_directories(full: bool, names: Seq<Seq<char>>, dirs: Map<Seq<char>, Seq<(Seq<char>, MdPage)>>, k: int, j: int)
    requires
        0 <= k <= j,
    ensures
        stands_at(entries_xml(full, names, dirs, j), entries_xml(full, names, dirs, k), 0),
    decreases j,
{
    if j > k {
        feed_keeps_earlier_directories(full, names, dirs, k, j - 1);
        let a = entries_xml(full, names, dirs, j - 1);
        let x = dir_entries_xml(full, names[j - 1], dirs[names[j - 1]], dirs[names[j - 1]].len() as int);
        let p = entries_xml(full, names, dirs, k);
        assert((a + x).subrange(0, p.len() as int) =~= a.subrange(0, p.len() as int));
    } else {
        assert(entries_xml(full, names, dirs, j).subrange(0, entries_xml(full, names, dirs, j).len() as int)
            =~= entries_xml(full, names, dirs, j));
    }
}

/// Every page of every listed directory has its entry in the feed: the
/// `i`th page of the `k`th directory stands after the entries of the
/// earlier directories and of the earlier pages of its own.
pub proof fn every_page_has_an_entry(full: bool, names: Seq<Seq<char>>, dirs: Map<Seq<char>, Seq<(Seq<char>, MdPage)>>, k: int, i: int)
    requires
        0 <= k < names.len(),
        0 <= i < dirs[names[k]].len(),
    ensures
        stands_at(entries_xml(full, names, dirs, names.len() as int),
            entry_xml(full, names[k], dirs[names[k]][i].0, dirs[names[k]][i].1),
            entries_xml(full, names, dirs, k).len() as int + dir_entries_xml(full, names[k], dirs[names[k]], i).len()),
{
    let pages = dirs[names[k]];
    let m = pages.len() as int;
    let e = entry_xml(full, names[k], pages[i].0, pages[i].1);
    let before = entries_xml(full, names, dirs, k);
    let own = dir_entries_xml(full, names[k], pages, i);
    let whole_dir = dir_entries_xml(full, names[k], pages, m);
    let upto = entries_xml(full, names, dirs, k + 1);
    let all = entries_xml(full, names, dirs, names.len() as int);
    lemma_dir_entries_grow(full, names[k], pages, i + 1, m);
    assert(dir_entries_xml(full, names[k], pages, i + 1) == own + e);
    assert(upto == before + whole_dir);
    feed_keeps_earlier_directories(full, names, dirs, k + 1, names.len() as int);
    let at: int = before.len() as int + own.len() as int;
    let lo: int = own.len() as int;
    let hi: int = own.len() as int + e.len() as int;
    assert(all.subrange(at, at + e.len() as int) =~= upto.subrange(at, at + e.len() as int));
    assert(upto.subrange(at, at + e.len() as int) =~= whole_dir.subrange(lo, hi));
    assert(whole_dir.subrange(lo, hi)
        =~= (own + e).subrange(lo, hi));
    assert((own + e).subrange(lo, hi) =~= e);
}

} // verus!
