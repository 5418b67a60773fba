//! The page layout: header, footer, the frame around every page, the
//! start page and the redirect page. The markup is what the site's maud
//! templates produce: elements written out, text and attribute values
//! HTML-escaped.
use vstd::prelude::*;
use crate::text::{html_escape, escape_html, str_eq, joined, views};
use crate::datetime::{rfc3339_text, formatted_text, to_rfc3339, format_timestamp};
use crate::frontmatter::MyFrontmatter;
use crate::webring::{ring_position, ring_neighbours, ring_prev, ring_next};
use crate::encoding::{nonce, base64_text};
use crate::{BASE_URL, COMMON_CSP};

verus! {

/// The site header: the banner and the navigation links.
pub const HEADER_HTML: &'static str = "<header><img id=\"banner\" src=\"/static/banner-text-to-path.svg\" alt=\"The name “Anna Aurora” in the font Comic Neue, a font looking similar to Comic Sans. “Anna” rotated 2° counter-clockwise and is placed over “Aurora” which is rotated by 2° clockwise. Both words are colored in the same gradient, starting with a light purple at the top left and ending in a light pink at the bottom right.\"><nav><a href=\"/\"><picture><source srcset=\"/static/neofox_home.webp\"><img src=\"/static/neofox_home.png\" alt=\"\"></picture>Home</a><a href=\"/blog/\">Blog</a><a href=\"/art/\"><img src=\"/static/mutant-standard_sparkles.svg\" alt=\"\">Art portfolio</a><a href=\"/services/\">Services</a><a href=\"/contact/\"><picture><source srcset=\"/static/neofox/neofox_wink.avif\"><img src=\"/static/neofox/neofox_wink.png\" alt=\"\"></picture>Contact</a><a href=\"/find-billy/\"><picture><source srcset=\"/static/neobot.webp\"><img src=\"/static/neobot.png\" alt=\"a neobot\"></picture>Find Billy!</a><a href=\"/linux-journey/\"><picture><source srcset=\"/static/xenia_icon.avif\"><img src=\"/static/xenia_icon.png\" alt=\"\"></picture>Linux journey</a><a href=\"https://ring.annaaurora.eu/\"><picture><source srcset=\"/static/ring_0005.webp\"><img src=\"/static/ring_0005.png\" alt=\"a smooth, golden, thin toroid\"></picture>ring</a><a href=\"/license/\"><span aria-hidden=\"true\">©</span>License</a><a href=\"https://codeberg.org/annaaurora/aaura-w3-strawb\">Source code</a><a href=\"/atom.xml\">Atom feed</a><a href=\"/feed.json\">JSON Feed</a></nav></header>";

/// The footer up to the address of the webring neighbour to the left.
pub const FOOTER_START: &'static str = "<footer><div id=\"be_crime_do_gay\"><span>💸🔥 🏳\u{fe0f}\u{200d}🌈 Be crime do gay webring</span><nav><a href=\"";

/// The footer between the two webring neighbours.
pub const FOOTER_LEFT: &'static str = "\">Go left</a><a href=\"";

/// The footer between the right neighbour and the path of the server program.
pub const FOOTER_RIGHT: &'static str = "\">Go right</a></nav></div><a id=\"th50_kb_club\" href=\"https://250kb.club/annaaurora-eu\"><div><div><span>cute</span><br><span>member</span></div></div><div><span>250kB Club</span></div></a><a id=\"fh12_kb_club\" href=\"https://512kb.club\"><div><span>512KB Club</span></div><div><span>Green Team</span></div></a><a id=\"one_mb_club\" href=\"https://1mb.club/\">1MB Club</a><div id=\"footer_text\"><p>You were served by <code>";

/// The end of the footer.
pub const FOOTER_END: &'static str = "</code>.</p><p>Using <a href=\"https://maud.lambda.xyz/\">maud</a> for HTML templating.</p></div></footer>";

/// The body of the start page: the portrait, the list of interests and the shark.
pub const INDEX_CONTENT: &'static str = "<div id=\"portrait\"><img src=\"/static/portrait-srgb-lossier-downscaled.jpg\" alt=\"A photo of showing Anna Aurora outdoors from the top to her sholders. She is wearing fox ears, a choker and a grey tshirt. She is holding her right hand up to her shoulder in joy. She has her eyes closed and is smiling. The background contains the sky, mossy walls and trees.\"></img></div><ul class=\"bio\"><li>likes programming in Rust, Python, Javascript</li><li>using NixOS and maintainer for nixpkgs</li><li>certified kittyfoxgirl\u{200b}, likes cuddling, will hug a Blåhaj and hide her face with it sometimes</li><li>polyamorous <ruby><span class=\"pansexual\">&quot;gay&quot;</span><rp>(</rp><rt>pansexual</rt><rp>)</rp></ruby> <span class=\"trans\">trans</span> girl</li><li>does 3d art and drawing</li><li>experimenting with music with LMMS and a MIDI keyboard (need to repair)</li><li>interested in converting some of her devices to USB-C and designing her own hardware</li></ul><div id=\"shark\"><div>blå 🦈 🦈 haj</div></div>";


/// Appends the HTML-escaped form of a text.
pub fn push_escaped(out: &mut String, s: &str)
    ensures
        final(out)@ == old(out)@ + html_escape(s@),
{
    let e = escape_html(s);
    out.append(e.as_str());
}

/// The site header. The style nonce is not used in it.
pub fn header(nonce: &str) -> (res: String)
    ensures
        res@ == HEADER_HTML@,
{
    String::from_str(HEADER_HTML)
}

/// The footer, with the two webring neighbours and the path of the
/// running server program.
pub open spec fn footer_html(prev: Seq<char>, next: Seq<char>, served_by: Seq<char>) -> Seq<char> {
    FOOTER_START@ + html_escape(prev) + FOOTER_LEFT@ + html_escape(next) + FOOTER_RIGHT@
        + html_escape(served_by) + FOOTER_END@
}

/// The site's own address in the webring: its base address without the
/// trailing slash.
pub open spec fn ring_self_url() -> Seq<char> {
    BASE_URL@.subrange(0, BASE_URL@.len() - 1)
}

/// The site's own address in the webring.
pub fn webring_self_url() -> (res: String)
    ensures
        res@ == ring_self_url(),
{
    proof {
        reveal_strlit("https://annaaurora.eu/");
    }
    let base = BASE_URL;
    String::from_str(base.substring_char(0, base.unicode_len() - 1))
}

/// `i` is the first place of `url` in the ring.
pub open spec fn first_place(ring: Seq<String>, url: Seq<char>, i: int) -> bool {
    &&& 0 <= i < ring.len()
    &&& ring[i]@ == url
    &&& forall|j: int| 0 <= j < i ==> ring[j]@ != url
}

/// The footer for a webring list: the neighbours are those of the first
/// place of this site's address in the ring.
pub fn footer(ring: &Vec<String>, served_by: &str) -> (res: String)
    requires
        ring@.len() >= 2,
        exists|i: int| 0 <= i < ring@.len() && ring@[i]@ == ring_self_url(),
    ensures
        exists|i: int| first_place(ring@, ring_self_url(), i) && res@ == footer_html(
            ring@[ring_prev(ring@.len() as int, i)]@,
            ring@[ring_next(ring@.len() as int, i)]@,
            served_by@,
        ),
{
    proof {
        reveal_strlit("https://annaaurora.eu/");
    }
    let base = BASE_URL;
    let self_url = base.substring_char(0, base.unicode_len() - 1);
    let i = match ring_position(ring, self_url) {
        Some(i) => i,
        None => {
            proof {
                let j = choose|j: int| 0 <= j < ring@.len() && ring@[j]@ == ring_self_url();
                assert(ring@[j]@ != self_url@);
            }
            0
        },
    };
    let (prev, next) = ring_neighbours(ring, i);
    let mut out = String::from_str(FOOTER_START);
    push_escaped(&mut out, prev.as_str());
    out.append(FOOTER_LEFT);
    push_escaped(&mut out, next.as_str());
    out.append(FOOTER_RIGHT);
    push_escaped(&mut out, served_by);
    out.append(FOOTER_END);
    assert(first_place(ring@, ring_self_url(), i as int));
    assert(out@ =~= footer_html(prev@, next@, served_by@));
    out
}

/// The start of every page, up to the title.
pub const DOC_OPEN: &'static str = "<!DOCTYPE html><html lang=\"en\"><head><meta charset=\"utf8\"><meta author=\"Anna Aurora\"><meta generator=\"aaura-w3-strawb\">";

/// What a page's title follows in the window title.
pub const TITLE_PREFIX: &'static str = "Anna Aurora's website - ";

/// The window title of a page without frontmatter.
pub const PLAIN_TITLE: &'static str = "<title>Anna Aurora's website</title>";

/// The rest of the head and the start of the body.
pub const HEAD_CLOSE: &'static str = "<meta name=\"author\" content=\"Anna Aurora\"><meta name=\"viewport\" content=\"width=device-width, initial-scale=1.0, maximum-scale=5\"><link rel=\"stylesheet\" href=\"/static/global.css\"><link rel=\"icon\" type=\"image/png\" sizes=\"36x30\" href=\"/static/favicon.png\"></head><body>";

/// The start of the publication line.
pub const PUBLISHED_OPEN: &'static str = "<p>Published at <time datetime=\"";

/// The title that the start page has, which is not shown as a heading.
pub const INDEX_TITLE: &'static str = "Index";

/// The head part that comes from the frontmatter: window title, description
/// and keywords.
pub open spec fn head_html(fm: Option<MyFrontmatter>) -> Seq<char> {
    match fm {
        Some(f) => "<title>"@ + html_escape(TITLE_PREFIX@ + f.title@) + "</title>"@
            + (match f.description {
                Some(d) => "<meta name=\"description\" content=\""@ + html_escape(d@) + "\">"@,
                None => Seq::empty(),
            })
            + (match f.keywords {
                Some(k) => "<meta name=\"keywords\" content=\""@ + html_escape(joined(views(k@), ","@)) + "\">"@,
                None => Seq::empty(),
            }),
        None => PLAIN_TITLE@,
    }
}

/// The start of the main part that comes from the frontmatter: the title as
/// a heading (but on the start page) and the publication date.
pub open spec fn intro_html(fm: Option<MyFrontmatter>) -> Seq<char> {
    match fm {
        Some(f) => (if f.title@ != INDEX_TITLE@ {
                "<h1>"@ + html_escape(f.title@) + "</h1>"@
            } else {
                Seq::empty()
            })
            + (match f.date_published {
                Some(d) => PUBLISHED_OPEN@ + html_escape(rfc3339_text(d.secs, d.nanos)) + "\">"@
                    + html_escape(formatted_text(d.secs, d.nanos, f.date_format())) + "</time></p>"@,
                None => Seq::empty(),
            }),
        None => Seq::empty(),
    }
}

/// A whole page around its content.
pub open spec fn page_html(fm: Option<MyFrontmatter>, content: Seq<char>, footer: Seq<char>) -> Seq<char> {
    DOC_OPEN@ + head_html(fm) + HEAD_CLOSE@ + HEADER_HTML@ + "<main>"@ + intro_html(fm) + content
        + "</main>"@ + footer + "</body></html>"@
}

/// The content security policy of a page: the common policy, and inline
/// styles allowed from the page itself and with the page's nonce.
pub open spec fn page_csp(nonce: Seq<char>) -> Seq<char> {
    COMMON_CSP@ + " style-src 'self' 'nonce-"@ + nonce + "';"@
}

/// The frontmatter a page was given, if any.
pub open spec fn some_frontmatter(fm: Option<&MyFrontmatter>) -> Option<MyFrontmatter> {
    match fm {
        Some(f) => Some(*f),
        None => None,
    }
}

/// A page ready to be sent: its policy header and its HTML.
pub struct PageResponse {
    pub content_security_policy: String,
    pub html: String,
}

fn head_part(fm: Option<&MyFrontmatter>) -> (res: String)
    ensures
        res@ == head_html(some_frontmatter(fm)),
{
    match fm {
        Some(f) => {
            let mut out = String::from_str("<title>");
            let mut title = String::from_str(TITLE_PREFIX);
            title.append(f.title.as_str());
            push_escaped(&mut out, title.as_str());
            out.append("</title>");
            let ghost t = out@;
            match &f.description {
                Some(d) => {
                    out.append("<meta name=\"description\" content=\"");
                    push_escaped(&mut out, d.as_str());
                    out.append("\">");
                },
                None => {},
            }
            let ghost td = out@;
            match &f.keywords {
                Some(k) => {
                    let all = crate::text::join(k, ",");
                    out.append("<meta name=\"keywords\" content=\"");
                    push_escaped(&mut out, all.as_str());
                    out.append("\">");
                },
                None => {},
            }
            assert(out@ =~= head_html(some_frontmatter(fm)));
            out
        },
        None => String::from_str(PLAIN_TITLE),
    }
}

fn intro_part(fm: Option<&MyFrontmatter>) -> (res: String)
    requires
        fm matches Some(f) ==> f.valid(),
    ensures
        res@ == intro_html(some_frontmatter(fm)),
{
    match fm {
        Some(f) => {
            let mut out = String::new();
            if !str_eq(f.title.as_str(), INDEX_TITLE) {
                out.append("<h1>");
                push_escaped(&mut out, f.title.as_str());
                out.append("</h1>");
            }
            match &f.date_published {
                Some(d) => {
                    let stamp = to_rfc3339(d);
                    let shown = format_timestamp(d, f.human_date_format_placeholder());
                    out.append(PUBLISHED_OPEN);
                    push_escaped(&mut out, stamp.as_str());
                    out.append("\">");
                    push_escaped(&mut out, shown.as_str());
                    out.append("</time></p>");
                },
                None => {},
            }
            assert(out@ =~= intro_html(some_frontmatter(fm)));
            out
        },
        None => {
            let out = String::new();
            assert(out@ =~= intro_html(some_frontmatter(fm)));
            out
        },
    }
}

/// Puts content into the site's page frame with a given style nonce: head
/// with title, description and keywords from the frontmatter, header, title
/// heading and publication date, the content, and the given footer.
pub fn base_with_nonce(frontmatter: Option<&MyFrontmatter>, content: &str, nonce: &str, footer: &str) -> (res: PageResponse)
    requires
        frontmatter matches Some(f) ==> f.valid(),
    ensures
        res.html@ == page_html(some_frontmatter(frontmatter), content@, footer@),
        res.content_security_policy@ == page_csp(nonce@),
{
    let mut html = String::from_str(DOC_OPEN);
    let head = head_part(frontmatter);
    html.append(head.as_str());
    html.append(HEAD_CLOSE);
    let hd = header(nonce);
    html.append(hd.as_str());
    html.append("<main>");
    let intro = intro_part(frontmatter);
    html.append(intro.as_str());
    html.append(content);
    html.append("</main>");
    html.append(footer);
    html.append("</body></html>");
    assert(html@ =~= page_html(some_frontmatter(frontmatter), content@, footer@));
    let mut csp = String::from_str(COMMON_CSP);
    csp.append(" style-src 'self' 'nonce-");
    csp.append(nonce);
    csp.append("';");
    assert(csp@ =~= page_csp(nonce@));
    PageResponse { content_security_policy: csp, html }
}

/// Puts content into the site's page frame with a fresh random nonce.
pub fn base(frontmatter: Option<&MyFrontmatter>, content: &str, footer: &str) -> (res: PageResponse)
    requires
        frontmatter matches Some(f) ==> f.valid(),
    ensures
        exists|bytes: Seq<u8>| bytes.len() == 16 && {
            let n = base64_text(bytes, true);
            &&& res.html@ == page_html(some_frontmatter(frontmatter), content@, footer@)
            &&& res.content_security_policy@ == page_csp(n)
        },
{
    let n = nonce();
    base_with_nonce(frontmatter, content, n.as_str(), footer)
}

/// The address a directory-less request is sent on to: the same path with a
/// trailing slash, on the site's base address.
pub open spec fn redirect_target(path: Seq<char>) -> Seq<char> {
    BASE_URL@ + path.subrange(1, path.len() as int) + "/"@
}

/// The body of a permanent redirect, linking to the new address.
pub open spec fn redirect_html(target: Seq<char>) -> Seq<char> {
    "<!DOCTYPE html><html lang=\"en\"><body><a href=\""@ + html_escape(target) + "\">Moved permanently</a>.</body></html>"@
}

/// A permanent redirect: the new address and the page that links to it.
pub struct Redirect {
    pub location: String,
    pub html: String,
}

/// Redirects a request path (which starts with `/`) to the same path with
/// a trailing slash.
pub fn redirect_to_dir(path: &str) -> (res: Redirect)
    requires
        path@.len() >= 1,
        path@[0] == '/',
    ensures
        res.location@ == redirect_target(path@),
        res.html@ == redirect_html(redirect_target(path@)),
{
    let n = path.unicode_len();
    let mut url = String::from_str(BASE_URL);
    url.append(path.substring_char(1, n));
    url.append("/");
    assert(url@ =~= redirect_target(path@));
    let mut html = String::from_str("<!DOCTYPE html><html lang=\"en\"><body><a href=\"");
    push_escaped(&mut html, url.as_str());
    html.append("\">Moved permanently</a>.</body></html>");
    assert(html@ =~= redirect_html(url@));
    Redirect { location: url, html }
}

/// The frontmatter of the start page.
pub fn index_frontmatter() -> (res: MyFrontmatter)
    ensures
        res.title@ == INDEX_TITLE@,
        res.atom_id_parts is None,
        res.date_published is None,
        res.date_published_time_precision is None,
        res.description matches Some(d) && d@ == INDEX_DESCRIPTION@,
        res.keywords is None,
{
    MyFrontmatter {
        atom_id_parts: None,
        title: String::from_str(INDEX_TITLE),
        date_published: None,
        date_published_time_precision: None,
        description: Some(String::from_str(INDEX_DESCRIPTION)),
        keywords: None,
    }
}

/// The description of the start page.
pub const INDEX_DESCRIPTION: &'static str = "The start page of Anna Aurora's website describing her person and interests.";

/// What the `ads.txt` and `app-ads.txt` addresses answer.
pub const ADS_TXT: &'static str = "placeholder.example.com, placeholder, DIRECT, placeholder";

/// The start page, framed with the given footer.
pub fn index_page(footer: &str) -> (res: PageResponse)
    ensures
        exists|fm: MyFrontmatter, bytes: Seq<u8>| {
            &&& fm.title@ == INDEX_TITLE@
            &&& fm.description matches Some(d) && d@ == INDEX_DESCRIPTION@
            &&& fm.keywords is None && fm.date_published is None
            &&& bytes.len() == 16
            &&& res.html@ == page_html(Some(fm), INDEX_CONTENT@, footer@)
            &&& res.content_security_policy@ == page_csp(base64_text(bytes, true))
        },
{
    let fm = index_frontmatter();
    base(Some(&fm), INDEX_CONTENT, footer)
}

} // verus!
