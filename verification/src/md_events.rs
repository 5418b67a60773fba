//! Markdown events as the library holds them: every event pulldown-cmark
//! produces, with its full content as plain values, and the three outside
//! steps on them (parsing, taking out the frontmatter, writing HTML).
use vstd::prelude::*;
use pulldown_cmark::{Alignment, CodeBlockKind, CowStr, Event, HeadingLevel, LinkType, Options, Parser, Tag};
use pulldown_cmark_frontmatter::FrontmatterExtractor;
use crate::text::views;

verus! {

#[verifier::external_type_specification]
#[verifier::external_body]
pub struct ExAlignment(Alignment);

#[verifier::external_type_specification]
#[verifier::external_body]
pub struct ExLinkType(LinkType);

#[verifier::external_type_specification]
#[verifier::external_body]
pub struct ExHeadingLevel(HeadingLevel);

#[verifier::external_type_specification]
#[verifier::external_body]
pub struct ExTag<'a>(Tag<'a>);

#[verifier::external_type_specification]
#[verifier::external_body]
pub struct ExEvent<'a>(Event<'a>);

/// A tag of a markdown element, as pulldown-cmark's `Tag` has it.
pub enum MdTag {
    Paragraph,
    /// Level (1 to 6), fragment identifier, classes.
    Heading(u8, Option<String>, Vec<String>),
    BlockQuote,
    /// `None` for an indented code block, else a fenced one with its info text.
    CodeBlock(Option<String>),
    List(Option<u64>),
    Item,
    FootnoteDefinition(String),
    Table(Vec<Alignment>),
    TableHead,
    TableRow,
    TableCell,
    Emphasis,
    Strong,
    Strikethrough,
    /// Link type, destination, title.
    Link(LinkType, String, String),
    /// Link type, destination, title.
    Image(LinkType, String, String),
}

/// A markdown event, as pulldown-cmark's `Event` has it.
pub enum MdEvent {
    Start(MdTag),
    End(MdTag),
    Text(String),
    Code(String),
    Html(String),
    FootnoteReference(String),
    SoftBreak,
    HardBreak,
    Rule,
    TaskListMarker(bool),
}

/// A tag with its texts as sequences of characters.
pub enum MdTagModel {
    Paragraph,
    Heading(u8, Option<Seq<char>>, Seq<Seq<char>>),
    BlockQuote,
    CodeBlock(Option<Seq<char>>),
    List(Option<u64>),
    Item,
    FootnoteDefinition(Seq<char>),
    Table(Seq<Alignment>),
    TableHead,
    TableRow,
    TableCell,
    Emphasis,
    Strong,
    Strikethrough,
    Link(LinkType, Seq<char>, Seq<char>),
    Image(LinkType, Seq<char>, Seq<char>),
}

/// An event with its texts as sequences of characters.
pub enum MdEventModel {
    Start(MdTagModel),
    End(MdTagModel),
    Text(Seq<char>),
    Code(Seq<char>),
    Html(Seq<char>),
    FootnoteReference(Seq<char>),
    SoftBreak,
    HardBreak,
    Rule,
    TaskListMarker(bool),
}

/// An optional text as characters.
pub open spec fn opt_text(o: Option<String>) -> Option<Seq<char>> {
    match o {
        Some(s) => Some(s@),
        None => None,
    }
}

impl View for MdTag {
    type V = MdTagModel;

    open spec fn view(&self) -> MdTagModel {
        match self {
            MdTag::Paragraph => MdTagModel::Paragraph,
            MdTag::Heading(l, f, c) => MdTagModel::Heading(*l, opt_text(*f), views(c@)),
            MdTag::BlockQuote => MdTagModel::BlockQuote,
            MdTag::CodeBlock(k) => MdTagModel::CodeBlock(opt_text(*k)),
            MdTag::List(n) => MdTagModel::List(*n),
            MdTag::Item => MdTagModel::Item,
            MdTag::FootnoteDefinition(s) => MdTagModel::FootnoteDefinition(s@),
            MdTag::Table(a) => MdTagModel::Table(a@),
            MdTag::TableHead => MdTagModel::TableHead,
            MdTag::TableRow => MdTagModel::TableRow,
            MdTag::TableCell => MdTagModel::TableCell,
            MdTag::Emphasis => MdTagModel::Emphasis,
            MdTag::Strong => MdTagModel::Strong,
            MdTag::Strikethrough => MdTagModel::Strikethrough,
            MdTag::Link(k, d, t) => MdTagModel::Link(*k, d@, t@),
            MdTag::Image(k, d, t) => MdTagModel::Image(*k, d@, t@),
        }
    }
}

impl View for MdEvent {
    type V = MdEventModel;

    open spec fn view(&self) -> MdEventModel {
        match self {
            MdEvent::Start(t) => MdEventModel::Start(t@),
            MdEvent::End(t) => MdEventModel::End(t@),
            MdEvent::Text(s) => MdEventModel::Text(s@),
            MdEvent::Code(s) => MdEventModel::Code(s@),
            MdEvent::Html(s) => MdEventModel::Html(s@),
            MdEvent::FootnoteReference(s) => MdEventModel::FootnoteReference(s@),
            MdEvent::SoftBreak => MdEventModel::SoftBreak,
            MdEvent::HardBreak => MdEventModel::HardBreak,
            MdEvent::Rule => MdEventModel::Rule,
            MdEvent::TaskListMarker(b) => MdEventModel::TaskListMarker(*b),
        }
    }
}

/// The views of a vector of events.
pub open spec fn md_models(v: Seq<MdEvent>) -> Seq<MdEventModel> {
    v.map_values(|e: MdEvent| e@)
}

/// A tag's heading level, if it has one, is one that pulldown-cmark knows.
pub open spec fn tag_wf(t: MdTagModel) -> bool {
    t matches MdTagModel::Heading(l, _, _) ==> 1 <= l <= 6
}

/// Every heading level in the events is between 1 and 6.
pub open spec fn events_wf(evs: Seq<MdEventModel>) -> bool {
    forall|i: int| 0 <= i < evs.len() ==> match #[trigger] evs[i] {
        MdEventModel::Start(t) => tag_wf(t),
        MdEventModel::End(t) => tag_wf(t),
        _ => true,
    }
}

/// The events that pulldown-cmark's parser yields for a markdown text with
/// the given extensions (tables, footnotes, strikethrough, task lists).
pub uninterp spec fn markdown_events(md: Seq<char>, tables: bool, footnotes: bool, strikethrough: bool, tasklists: bool) -> Seq<MdEventModel>;

/// What `pulldown_cmark_frontmatter::FrontmatterExtractor` makes of events:
/// the text of the frontmatter code block, if the events start with one,
/// and the events it passes on.
pub uninterp spec fn frontmatter_split(evs: Seq<MdEventModel>) -> (Option<Seq<char>>, Seq<MdEventModel>);

/// The HTML that `pulldown_cmark::html::push_html` writes for events.
pub uninterp spec fn events_html(evs: Seq<MdEventModel>) -> Seq<char>;

/// Copies a pulldown-cmark tag into the library's tag, one variant for one;
/// the tags that hold no text are copied by `plain_tag_from_pulldown`.
#[verifier::external_body]
fn tag_from_pulldown(t: Tag) -> MdTag {
    match t {
        Tag::Heading(l, f, c) => MdTag::Heading(l as u8, f.map(String::from), c.into_iter().map(String::from).collect()),
        Tag::CodeBlock(CodeBlockKind::Indented) => MdTag::CodeBlock(None),
        Tag::CodeBlock(CodeBlockKind::Fenced(s)) => MdTag::CodeBlock(Some(s.to_string())),
        Tag::FootnoteDefinition(s) => MdTag::FootnoteDefinition(s.to_string()),
        Tag::Link(k, d, t) => MdTag::Link(k, d.to_string(), t.to_string()),
        Tag::Image(k, d, t) => MdTag::Image(k, d.to_string(), t.to_string()),
        plain => plain_tag_from_pulldown(plain),
    }
}

/// Copies a pulldown-cmark tag that holds no text into the library's tag,
/// one variant for one; the others go to `tag_from_pulldown`.
#[verifier::external_body]
fn plain_tag_from_pulldown(t: Tag) -> MdTag {
    match t {
        Tag::Paragraph => MdTag::Paragraph,
        Tag::BlockQuote => MdTag::BlockQuote,
        Tag::Item => MdTag::Item,
        Tag::List(n) => MdTag::List(n),
        Tag::Table(a) => MdTag::Table(a),
        Tag::TableHead => MdTag::TableHead,
        Tag::TableRow => MdTag::TableRow,
        Tag::TableCell => MdTag::TableCell,
        Tag::Emphasis => MdTag::Emphasis,
        Tag::Strong => MdTag::Strong,
        Tag::Strikethrough => MdTag::Strikethrough,
        with_content => tag_from_pulldown(with_content),
    }
}

/// Copies a pulldown-cmark event into the library's event, one variant for one.
#[verifier::external_body]
fn event_from_pulldown(e: Event) -> MdEvent {
    match e {
        Event::Start(t) => MdEvent::Start(tag_from_pulldown(t)),
        Event::End(t) => MdEvent::End(tag_from_pulldown(t)),
        Event::Text(s) => MdEvent::Text(s.to_string()),
        Event::Code(s) => MdEvent::Code(s.to_string()),
        Event::Html(s) => MdEvent::Html(s.to_string()),
        Event::FootnoteReference(s) => MdEvent::FootnoteReference(s.to_string()),
        Event::SoftBreak => MdEvent::SoftBreak,
        Event::HardBreak => MdEvent::HardBreak,
        Event::Rule => MdEvent::Rule,
        Event::TaskListMarker(b) => MdEvent::TaskListMarker(b),
    }
}

/// pulldown-cmark's `HeadingLevel` of a level from 1 to 6
/// (`HeadingLevel::try_from`, which accepts exactly those).
#[verifier::external_body]
fn heading_level(l: u8) -> HeadingLevel
    requires
        1 <= l <= 6,
{
    HeadingLevel::try_from(l as usize).expect("a heading level from 1 to 6")
}

/// The pulldown-cmark tag of the library's tag, borrowing its texts, one
/// variant for one; the tags that hold no text go to `plain_tag_to_pulldown`.
#[verifier::external_body]
fn tag_to_pulldown<'b>(t: &'b MdTag) -> Tag<'b> {
    match t {
        MdTag::Heading(l, f, c) => Tag::Heading(heading_level(*l), f.as_deref(), c.iter().map(String::as_str).collect()),
        MdTag::CodeBlock(None) => Tag::CodeBlock(CodeBlockKind::Indented),
        MdTag::CodeBlock(Some(s)) => Tag::CodeBlock(CodeBlockKind::Fenced(CowStr::Borrowed(s))),
        MdTag::FootnoteDefinition(s) => Tag::FootnoteDefinition(CowStr::Borrowed(s)),
        MdTag::Link(k, d, t) => Tag::Link(*k, CowStr::Borrowed(d), CowStr::Borrowed(t)),
        MdTag::Image(k, d, t) => Tag::Image(*k, CowStr::Borrowed(d), CowStr::Borrowed(t)),
        plain => plain_tag_to_pulldown(plain),
    }
}

/// The pulldown-cmark tag of a library tag that holds no text, one variant
/// for one; the others go to `tag_to_pulldown`.
#[verifier::external_body]
fn plain_tag_to_pulldown<'b>(t: &'b MdTag) -> Tag<'b> {
    match t {
        MdTag::Paragraph => Tag::Paragraph,
        MdTag::BlockQuote => Tag::BlockQuote,
        MdTag::Item => Tag::Item,
        MdTag::List(n) => Tag::List(*n),
        MdTag::Table(a) => Tag::Table(a.clone()),
        MdTag::TableHead => Tag::TableHead,
        MdTag::TableRow => Tag::TableRow,
        MdTag::TableCell => Tag::TableCell,
        MdTag::Emphasis => Tag::Emphasis,
        MdTag::Strong => Tag::Strong,
        MdTag::Strikethrough => Tag::Strikethrough,
        with_content => tag_to_pulldown(with_content),
    }
}

/// The pulldown-cmark event of the library's event, borrowing its texts,
/// one variant for one.
#[verifier::external_body]
fn event_to_pulldown<'b>(e: &'b MdEvent) -> Event<'b> {
    match e {
        MdEvent::Start(t) => Event::Start(tag_to_pulldown(t)),
        MdEvent::End(t) => Event::End(tag_to_pulldown(t)),
        MdEvent::Text(s) => Event::Text(CowStr::Borrowed(s)),
        MdEvent::Code(s) => Event::Code(CowStr::Borrowed(s)),
        MdEvent::Html(s) => Event::Html(CowStr::Borrowed(s)),
        MdEvent::FootnoteReference(s) => Event::FootnoteReference(CowStr::Borrowed(s)),
        MdEvent::SoftBreak => Event::SoftBreak,
        MdEvent::HardBreak => Event::HardBreak,
        MdEvent::Rule => Event::Rule,
        MdEvent::TaskListMarker(b) => Event::TaskListMarker(*b),
    }
}

/// Parses markdown with `pulldown_cmark::Parser::new_ext` and the given
/// extensions. Trusted: the events are named after the text and the
/// extensions, of which alone the parse depends; their heading levels are
/// those of pulldown-cmark's `HeadingLevel`, 1 to 6.
#[verifier::external_body]
pub fn parse_markdown(md: &str, tables: bool, footnotes: bool, strikethrough: bool, tasklists: bool) -> (res: Vec<MdEvent>)
    ensures
        md_models(res@) == markdown_events(md@, tables, footnotes, strikethrough, tasklists),
        events_wf(md_models(res@)),
{
    let mut options = Options::empty();
    options.set(Options::ENABLE_TABLES, tables);
    options.set(Options::ENABLE_FOOTNOTES, footnotes);
    options.set(Options::ENABLE_STRIKETHROUGH, strikethrough);
    options.set(Options::ENABLE_TASKLISTS, tasklists);
    Parser::new_ext(md, options).map(event_from_pulldown).collect()
}

/// Takes the frontmatter code block out of events with
/// `pulldown_cmark_frontmatter::FrontmatterExtractor` (`extract_buffered`,
/// then the extractor's own iteration). Trusted: the code block's text and
/// the events passed on are named after the events, of which alone they
/// depend; the events passed on are events given, so their heading levels
/// stay between 1 and 6.
#[verifier::external_body]
pub fn extract_frontmatter(events: &Vec<MdEvent>) -> (res: (Option<String>, Vec<MdEvent>))
    requires
        events_wf(md_models(events@)),
    ensures
        (opt_text(res.0), md_models(res.1@)) == frontmatter_split(md_models(events@)),
        events_wf(md_models(res.1@)),
{
    let mut extractor = FrontmatterExtractor::new(events.iter().map(event_to_pulldown));
    let source = extractor.extract_buffered().and_then(|f| f.code_block.as_ref()).map(|b| b.source.to_string());
    (source, extractor.map(event_from_pulldown).collect())
}

/// Writes events as HTML with `pulldown_cmark::html::push_html`. Trusted:
/// the HTML is named after the events, of which alone it depends.
#[verifier::external_body]
pub fn events_to_html(events: &Vec<MdEvent>) -> (res: String)
    requires
        events_wf(md_models(events@)),
    ensures
        res@ == events_html(md_models(events@)),
{
    let mut html = String::new();
    pulldown_cmark::html::push_html(&mut html, events.iter().map(event_to_pulldown));
    html
}

} // verus!
