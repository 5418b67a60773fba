//! Pages made from data: the list of a directory's pages and the Linux
//! journey timeline.
use vstd::prelude::*;
use crate::text::{html_escape, push_signed_decimal, signed_decimal};
use crate::datetime::{CalendarDay, formatted_text, format_timestamp, day_text, format_day};
use crate::frontmatter::MyFrontmatter;
use crate::pages::{MdDir, MdPage, MdRoot};
use crate::templates::{push_escaped, base, page_html, page_csp, PageResponse};
use crate::encoding::base64_text;

verus! {

/// One line of a directory's list: the page's date, shown in its own
/// format, and a link to the page with its title.
pub open spec fn list_item_html(name: Seq<char>, page: MdPage) -> Seq<char> {
    let d = page.date()->0;
    let shown = formatted_text(d.secs, d.nanos, page.frontmatter.date_format());
    "<li><time datetime=\""@ + html_escape(shown) + "\">"@ + html_escape(shown) + "</time><a href=\""@
        + html_escape(name + "/"@) + "\">"@ + html_escape(page.frontmatter.title@) + "</a></li>"@
}

/// The lines of a directory's list, in the directory's order.
pub open spec fn list_items_html(entries: Seq<(Seq<char>, MdPage)>) -> Seq<char>
    decreases entries.len(),
{
    if entries.len() == 0 {
        Seq::empty()
    } else {
        list_items_html(entries.drop_last()) + list_item_html(entries.last().0, entries.last().1)
    }
}

/// The list of a directory's pages.
pub open spec fn list_html(entries: Seq<(Seq<char>, MdPage)>) -> Seq<char> {
    "<ol class=\"md_dir_list\">"@ + list_items_html(entries) + "</ol>"@
}

/// Every page is dated, with a date chrono can represent.
pub open spec fn all_dated(entries: Seq<(Seq<char>, MdPage)>) -> bool {
    forall|i: int| 0 <= i < entries.len() ==> (#[trigger] entries[i]).1.date() is Some
        && entries[i].1.frontmatter.valid()
}

/// The list of a directory's pages, newest first as the directory holds
/// them. `None` when a page has no publication date.
pub fn dir_list_content(dir: &MdDir) -> (res: Option<String>)
    requires
        dir.wf(),
        forall|i: int| 0 <= i < dir@.len() ==> (#[trigger] dir@[i]).1.frontmatter.valid(),
    ensures
        res is Some <==> all_dated(dir@),
        res matches Some(html) ==> html@ == list_html(dir@),
{
    let mut out = String::from_str("<ol class=\"md_dir_list\">");
    let n = dir.len();
    let mut i: usize = 0;
    while i < n
        invariant
            dir.wf(),
            n == dir@.len(),
            i <= n,
            forall|j: int| 0 <= j < dir@.len() ==> (#[trigger] dir@[j]).1.frontmatter.valid(),
            forall|j: int| 0 <= j < i ==> (#[trigger] dir@[j]).1.date() is Some,
            out@ == "<ol class=\"md_dir_list\">"@ + list_items_html(dir@.take(i as int)),
        decreases n - i,
    {
        let (name, page) = dir.entry(i);
        match &page.frontmatter.date_published {
            None => {
                return None;
            },
            Some(d) => {
                let ghost before = out@;
                let shown = format_timestamp(d, page.frontmatter.human_date_format_placeholder());
                out.append("<li><time datetime=\"");
                push_escaped(&mut out, shown.as_str());
                out.append("\">");
                push_escaped(&mut out, shown.as_str());
                out.append("</time><a href=\"");
                let mut href = name;
                href.append("/");
                push_escaped(&mut out, href.as_str());
                out.append("\">");
                push_escaped(&mut out, page.frontmatter.title.as_str());
                out.append("</a></li>");
                proof {
                    assert(dir@.take(i + 1).drop_last() =~= dir@.take(i as int));
                    assert(out@ =~= before + list_item_html(dir@[i as int].0, dir@[i as int].1));
                }
            },
        }
        i = i + 1;
    }
    out.append("</ol>");
    assert(dir@.take(n as int) =~= dir@);
    Some(out)
}

/// The frontmatter of a directory's list page.
pub open spec fn list_frontmatter_ok(name: Seq<char>, fm: MyFrontmatter) -> bool {
    &&& fm.title@ == name
    &&& fm.atom_id_parts is None
    &&& fm.date_published is None
    &&& fm.date_published_time_precision is None
    &&& fm.description matches Some(d) && d@ == "A list of all posts under /"@ + name + "/."@
    &&& fm.keywords is None
}

/// The frontmatter of a directory's list page: the directory's name as
/// title and a description naming its address.
pub fn dir_list_frontmatter(name: &str) -> (res: MyFrontmatter)
    ensures
        list_frontmatter_ok(name@, res),
{
    let mut desc = String::from_str("A list of all posts under /");
    desc.append(name);
    desc.append("/.");
    MyFrontmatter {
        atom_id_parts: None,
        title: String::from_str(name),
        date_published: None,
        date_published_time_precision: None,
        description: Some(desc),
        keywords: None,
    }
}

/// The page listing a directory's pages, framed with the given footer.
/// `None` when the directory does not exist or a page of it is undated.
pub fn md_page_list(root: &MdRoot, name: &str, footer: &str) -> (res: Option<PageResponse>)
    requires
        root.wf(),
    ensures
        res is Some <==> root.dirs().contains_key(name@) && all_dated(root.dirs()[name@]),
        res is None <==> !root.dirs().contains_key(name@) || exists|i: int| 0 <= i < root.dirs()[name@].len()
            && (#[trigger] root.dirs()[name@][i]).1.date() is None,
        res matches Some(page) ==> exists|fm: MyFrontmatter, bytes: Seq<u8>| {
            &&& list_frontmatter_ok(name@, fm)
            &&& bytes.len() == 16
            &&& page.html@ == page_html(Some(fm), list_html(root.dirs()[name@]), footer@)
            &&& page.content_security_policy@ == page_csp(base64_text(bytes, true))
        },
{
    match root.dir(name) {
        None => None,
        Some(dir) => {
            proof {
                crate::pages::dirs_are_valid(*root, name@);
            }
            match dir_list_content(dir) {
                None => None,
                Some(content) => {
                    let fm = dir_list_frontmatter(name);
                    let page = base(Some(&fm), content.as_str(), footer);
                    Some(page)
                },
            }
        },
    }
}

/// One distribution in the Linux journey: when it was installed (or about
/// when), and its name and website.
pub struct JourneyEntry {
    pub installed: CalendarDay,
    pub approximate: bool,
    pub distro_name: String,
    pub website_url: String,
}

/// The start of the journey table, up to its rows.
pub const JOURNEY_OPEN: &'static str = "<p>My personal timeline of Linux distributions that I've used.</p><table><thead><tr><th>Date intalled</th><th>Duration used (d)</th><th><abbr title=\"operating system\">OS</abbr></th></tr></thead><tbody>";

/// One row: the install date (marked `≅` when approximate, `=` when
/// exact), the days until the next distribution was installed, and the
/// distribution linked to its website.
pub open spec fn journey_row_html(e: JourneyEntry, until: CalendarDay) -> Seq<char> {
    "<tr><td>"@ + (if e.approximate { "≅"@ } else { "="@ }) + html_escape(day_text(e.installed.days_from_ce))
        + "</td><td>"@ + signed_decimal(until.days_from_ce - e.installed.days_from_ce) + "</td><td><a href=\""@
        + html_escape(e.website_url@) + "\">"@ + html_escape(e.distro_name@) + "</a></td></tr>"@
}

/// The day until which a distribution was used: the next one's install
/// day, or today for the last one.
pub open spec fn used_until(entries: Seq<JourneyEntry>, i: int, today: CalendarDay) -> CalendarDay {
    if i == entries.len() - 1 {
        today
    } else {
        entries[i + 1].installed
    }
}

/// The first `k` rows of the journey table.
pub open spec fn journey_rows_html(entries: Seq<JourneyEntry>, k: int, today: CalendarDay) -> Seq<char>
    decreases k,
{
    if k <= 0 {
        Seq::empty()
    } else {
        journey_rows_html(entries, k - 1, today) + journey_row_html(entries[k - 1], used_until(entries, k - 1, today))
    }
}

/// The Linux journey table.
pub open spec fn journey_html(entries: Seq<JourneyEntry>, today: CalendarDay) -> Seq<char> {
    JOURNEY_OPEN@ + journey_rows_html(entries, entries.len() as int, today) + "</tbody></table>"@
}

fn journey_row(e: &JourneyEntry, until: CalendarDay) -> (res: String)
    requires
        e.installed.valid(),
    ensures
        res@ == journey_row_html(*e, until),
{
    let mut out = String::from_str("<tr><td>");
    if e.approximate {
        out.append("≅");
    } else {
        out.append("=");
    }
    let day = format_day(&e.installed);
    push_escaped(&mut out, day.as_str());
    out.append("</td><td>");
    push_signed_decimal(&mut out, e.installed.days_until(&until));
    out.append("</td><td><a href=\"");
    push_escaped(&mut out, e.website_url.as_str());
    out.append("\">");
    push_escaped(&mut out, e.distro_name.as_str());
    out.append("</a></td></tr>");
    assert(out@ =~= journey_row_html(*e, until));
    out
}

/// The Linux journey table: each distribution with its install date and the
/// days it was used, until the next one was installed or until today.
pub fn linux_journey_content(entries: &Vec<JourneyEntry>, today: CalendarDay) -> (res: String)
    requires
        forall|i: int| 0 <= i < entries@.len() ==> (#[trigger] entries@[i]).installed.valid(),
    ensures
        res@ == journey_html(entries@, today),
{
    let mut out = String::from_str(JOURNEY_OPEN);
    let n = entries.len();
    let mut i: usize = 0;
    while i < n
        invariant
            n == entries@.len(),
            i <= n,
            forall|j: int| 0 <= j < entries@.len() ==> (#[trigger] entries@[j]).installed.valid(),
            out@ == JOURNEY_OPEN@ + journey_rows_html(entries@, i as int, today),
        decreases n - i,
    {
        let until = if i == n - 1 { today } else { entries[i + 1].installed };
        let row = journey_row(&entries[i], until);
        let ghost before = out@;
        out.append(row.as_str());
        assert(until == used_until(entries@, i as int, today));
        assert(journey_rows_html(entries@, i + 1, today) == journey_rows_html(entries@, i as int, today)
            + journey_row_html(entries@[i as int], until));
        assert(out@ =~= JOURNEY_OPEN@ + journey_rows_html(entries@, i + 1, today));
        i = i + 1;
    }
    out.append("</tbody></table>");
    out
}

/// The description of the Linux journey page.
pub const JOURNEY_DESCRIPTION: &'static str = "Anna Aurora's personal timeline of Linux distributions that she's used, including information on when she started using them and for how long she used them.";

/// The frontmatter of the Linux journey page: its title, description and
/// keywords.
pub fn linux_journey_frontmatter() -> (res: MyFrontmatter)
    ensures
        res.title@ == "Linux journey"@,
        res.atom_id_parts is None,
        res.date_published is None,
        res.date_published_time_precision is None,
        res.description matches Some(d) && d@ == JOURNEY_DESCRIPTION@,
        res.keywords matches Some(k) && k@.len() == 3 && k@[0]@ == "linux-distros"@
            && k@[1]@ == "timeline"@ && k@[2]@ == "personal-linux-journey"@,
{
    let mut keywords: Vec<String> = Vec::new();
    keywords.push(String::from_str("linux-distros"));
    keywords.push(String::from_str("timeline"));
    keywords.push(String::from_str("personal-linux-journey"));
    MyFrontmatter {
        atom_id_parts: None,
        title: String::from_str("Linux journey"),
        date_published: None,
        date_published_time_precision: None,
        description: Some(String::from_str(JOURNEY_DESCRIPTION)),
        keywords: Some(keywords),
    }
}

/// The Linux journey page, framed with the given footer.
pub fn linux_journey(entries: &Vec<JourneyEntry>, today: CalendarDay, footer: &str) -> (res: PageResponse)
    requires
        forall|i: int| 0 <= i < entries@.len() ==> (#[trigger] entries@[i]).installed.valid(),
    ensures
        exists|fm: MyFrontmatter, bytes: Seq<u8>| {
            &&& fm.title@ == "Linux journey"@
            &&& fm.description matches Some(d) && d@ == JOURNEY_DESCRIPTION@
            &&& fm.keywords matches Some(k) && k@.len() == 3 && k@[0]@ == "linux-distros"@
                && k@[1]@ == "timeline"@ && k@[2]@ == "personal-linux-journey"@
            &&& fm.atom_id_parts is None
            &&& fm.date_published_time_precision is None
            &&& fm.date_published is None
            &&& bytes.len() == 16
            &&& res.html@ == page_html(Some(fm), journey_html(entries@, today), footer@)
            &&& res.content_security_policy@ == page_csp(base64_text(bytes, true))
        },
{
    let content = linux_journey_content(entries, today);
    let fm = linux_journey_frontmatter();
    base(Some(&fm), content.as_str(), footer)
}

/// A markdown page in the site's frame, with the given footer.
pub fn md_page_response(page: &MdPage, footer: &str) -> (res: PageResponse)
    requires
        page.frontmatter.valid(),
    ensures
        exists|bytes: Seq<u8>| {
            &&& bytes.len() == 16
            &&& res.html@ == page_html(Some(page.frontmatter), page.html@, footer@)
            &&& res.content_security_policy@ == page_csp(base64_text(bytes, true))
        },
{
    base(Some(&page.frontmatter), page.html.as_str(), footer)
}

/// The text a percent-encoded string stands for, or `None` when its bytes
/// are not UTF-8, as `urlencoding::decode` decodes it.
pub uninterp spec fn percent_decoded(s: Seq<char>) -> Option<Seq<char>>;

/// `urlencoding::decode`. Trusted: the result is named after the input, of
/// which alone it depends; the error case is `None`.
#[verifier::external_body]
pub fn percent_decode(s: &str) -> (res: Option<String>)
    ensures
        match (res, percent_decoded(s@)) {
            (Some(d), Some(e)) => d@ == e,
            (None, None) => true,
            _ => false,
        },
{
    match urlencoding::decode(s) {
        Ok(d) => Some(d.into_owned()),
        Err(_) => None,
    }
}

/// The path of a media file of a page relative to the markdown folder:
/// the request's percent-decoded address without its leading character.
/// `None` when the address does not decode to text, or decodes to nothing.
pub fn media_relative_path(uri: &str) -> (res: Option<String>)
    ensures
        match percent_decoded(uri@) {
            Some(d) if d.len() > 0 => res matches Some(p) && p@ == d.drop_first(),
            _ => res is None,
        },
{
    match percent_decode(uri) {
        None => None,
        Some(d) => {
            let n = d.as_str().unicode_len();
            if n == 0 {
                None
            } else {
                let rest = d.as_str().substring_char(1, n);
                Some(String::from_str(rest))
            }
        },
    }
}

/// The list of two runs of pages is the list of the first run followed by
/// the list of the second: each page's line stands where the page stands.
pub proof fn list_of_joined_runs(a: Seq<(Seq<char>, MdPage)>, b: Seq<(Seq<char>, MdPage)>)
    ensures
        list_items_html(a + b) == list_items_html(a) + list_items_html(b),
    decreases b.len(),
{
    if b.len() == 0 {
        assert(a + b =~= a);
        assert(list_items_html(a) + list_items_html(b) =~= list_items_html(a));
    } else {
        assert((a + b).drop_last() =~= a + b.drop_last());
        assert((a + b).last() == b.last());
        list_of_joined_runs(a, b.drop_last());
        assert(list_items_html(a + b) =~= list_items_html(a) + list_items_html(b));
    }
}

/// A directory's list opens with the line of its first page, the newest,
/// followed by the lines of the others in order.
pub proof fn list_opens_with_first_page(entries: Seq<(Seq<char>, MdPage)>)
    requires
        entries.len() > 0,
    ensures
        list_items_html(entries) == list_item_html(entries[0].0, entries[0].1) + list_items_html(entries.drop_first()),
{
    let first = seq![entries[0]];
    assert(first + entries.drop_first() =~= entries);
    list_of_joined_runs(first, entries.drop_first());
    assert(first.drop_last() =~= Seq::<(Seq<char>, MdPage)>::empty());
    assert(list_items_html(first.drop_last()) == Seq::<char>::empty());
    assert(list_items_html(first) =~= list_item_html(entries[0].0, entries[0].1));
}

proof fn lemma_rows_of_longer_journey(entries: Seq<JourneyEntry>, e: JourneyEntry, k: int, today: CalendarDay)
    requires
        0 <= k < entries.len(),
    ensures
        journey_rows_html(entries.push(e), k, today) == journey_rows_html(entries, k, today),
    decreases k,
{
    if k > 0 {
        lemma_rows_of_longer_journey(entries, e, k - 1, today);
        assert(entries.push(e)[k - 1] == entries[k - 1]);
        assert(entries.push(e)[k] == entries[k]);
    }
}

/// Installing another distribution later changes only the row of the one
/// before it: the earlier rows stay as they were, the previous last one
/// now counts its days until the new one's install day, and the new one
/// counts its days until today.
pub proof fn next_install_ends_previous_row(entries: Seq<JourneyEntry>, e: JourneyEntry, today: CalendarDay)
    requires
        entries.len() > 0,
    ensures
        journey_rows_html(entries.push(e), entries.len() as int + 1, today)
            == journey_rows_html(entries, entries.len() - 1, today)
                + journey_row_html(entries.last(), e.installed) + journey_row_html(e, today),
{
    let n = entries.len() as int;
    lemma_rows_of_longer_journey(entries, e, n - 1, today);
    let longer = entries.push(e);
    assert(longer[n - 1] == entries.last());
    assert(longer[n] == e);
    assert(used_until(longer, n - 1, today) == e.installed);
    assert(used_until(longer, n, today) == today);
    assert(journey_rows_html(longer, n, today)
        == journey_rows_html(longer, n - 1, today) + journey_row_html(entries.last(), e.installed));
    assert(journey_rows_html(longer, n + 1, today)
        == journey_rows_html(longer, n, today) + journey_row_html(e, today));
}

} // verus!
