use aaura_w3_strawb::md_events::{parse_markdown, MdEvent, MdTag};
use aaura_w3_strawb::md_render::{
    lossier_image_dest, render_events, render_markdown, rewrite_event, rewrite_events, slugify, EventAction, EventView, RewriteState,
};

fn html_of(a: &EventAction) -> Option<&str> {
    match a {
        EventAction::Html(h) => Some(h.as_str()),
        _ => None,
    }
}

#[test]
fn lossier_variants() {
    assert_eq!(lossier_image_dest("cat.png"), "cat-lossier.webp");
    assert_eq!(lossier_image_dest("cat.webp"), "cat-lossier.webp");
    assert_eq!(lossier_image_dest("cat.jpg"), "cat-lossier.jpg");
    assert_eq!(lossier_image_dest("cat.gif"), "cat.gif");
    assert_eq!(lossier_image_dest(".png"), "-lossier.webp");
}

#[test]
fn slugs() {
    assert_eq!(slugify("How to do it"), "how-to-do-it");
    assert_eq!(slugify("  --test_-_cool"), "test-cool");
}

#[test]
fn heading_text_becomes_anchored_heading() {
    let events = vec![EventView::HeadingStart(2), EventView::Text("How to do it".to_string()), EventView::Other, EventView::Text("body".to_string())];
    let actions = rewrite_events(&events).unwrap();
    assert_eq!(actions.len(), 4);
    assert!(matches!(actions[0], EventAction::Drop));
    assert_eq!(
        html_of(&actions[1]).unwrap(),
        "<h2 id=\"how-to-do-it\">How to do it<a href=\"#how-to-do-it\" aria-label=\"Anchor link for the heading: How to do it\">🔗</a></h2>"
    );
    assert!(matches!(actions[2], EventAction::Keep));
    assert!(matches!(actions[3], EventAction::Keep));
}

#[test]
fn images_point_to_lossier_variant() {
    let actions = rewrite_events(&vec![EventView::ImageStart("a/b.png".to_string())]).unwrap();
    match &actions[0] {
        EventAction::ImageDest(d) => assert_eq!(d, "a/b-lossier.webp"),
        _ => panic!("an image gets a new destination"),
    }
}

#[test]
fn audio_block_becomes_audio_element() {
    let events = vec![
        EventView::Html("<myaudio>\n".to_string()),
        EventView::Html("song.flac\n".to_string()),
        EventView::Html("</myaudio>\n".to_string()),
        EventView::Html("<br>\n".to_string()),
    ];
    let actions = rewrite_events(&events).unwrap();
    assert_eq!(html_of(&actions[0]).unwrap(), "");
    assert_eq!(html_of(&actions[1]).unwrap(), "<audio controls=\"\" src=\"song-lossier.opus\">");
    assert_eq!(html_of(&actions[2]).unwrap(), "</audio>\n");
    assert!(matches!(actions[3], EventAction::Keep));
}

#[test]
fn audio_block_without_flac_is_rejected() {
    let events = vec![EventView::Html("<myaudio>\n".to_string()), EventView::Html("song.mp3\n".to_string())];
    assert!(rewrite_events(&events).is_none());
}

#[test]
fn step_updates_state() {
    let mut st = RewriteState { heading_level: 0, inside_myaudio: false };
    assert!(matches!(rewrite_event(&mut st, &EventView::HeadingStart(3)), Some(EventAction::Drop)));
    assert_eq!(st.heading_level, 3);
    let a = rewrite_event(&mut st, &EventView::Text("X".to_string())).unwrap();
    assert_eq!(st.heading_level, 0);
    assert!(html_of(&a).unwrap().starts_with("<h3 id=\"x\">X<a"));
}

#[test]
fn renders_page_with_frontmatter() {
    let md = "```toml\ntitle = \"Hi\"\n```\n# Hello World\n\n![cat](cat.png)\n\n| a | b |\n|---|---|\n| 1 | 2 |\n";
    let rendered = render_markdown(md).unwrap();
    assert_eq!(rendered.frontmatter_source.as_deref(), Some("title = \"Hi\"\n"));
    assert!(rendered.html.contains("<h1 id=\"hello-world\">Hello World<a href=\"#hello-world\""));
    assert!(rendered.html.contains("src=\"cat-lossier.webp\""));
    assert!(rendered.html.contains("<table>"));
    assert!(!rendered.html.contains("title = "));
}

#[test]
fn renders_audio_block() {
    let md = "```toml\ntitle = \"Song\"\n```\n<myaudio>\nsong.flac\n</myaudio>\n";
    let rendered = render_markdown(md).unwrap();
    assert!(rendered.html.contains("<audio controls=\"\" src=\"song-lossier.opus\">"));
    assert!(rendered.html.contains("</audio>"));
}

#[test]
fn page_without_frontmatter() {
    let rendered = render_markdown("just text\n").unwrap();
    assert!(rendered.frontmatter_source.is_none());
    assert_eq!(rendered.html, "<p>just text</p>\n");
}

#[test]
fn document_without_audio_is_accepted() {
    let events = vec![
        EventView::Html("</myaudio>\n".to_string()),
        EventView::Html("song.mp3\n".to_string()),
        EventView::Text("t".to_string()),
        EventView::ImageStart("x".to_string()),
    ];
    let actions = rewrite_events(&events).unwrap();
    assert_eq!(actions.len(), events.len());
}

#[test]
fn rendered_image_points_to_lossier_variant() {
    let rendered = render_markdown("```toml\ntitle = 'T'\n```\n![a](pic.png)\n").unwrap();
    assert_eq!(rendered.frontmatter_source.as_deref(), Some("title = 'T'\n"));
    assert_eq!(rendered.html, "<p><img src=\"pic-lossier.webp\" alt=\"a\" /></p>\n");
}

#[test]
fn rendered_heading_is_anchored() {
    let rendered = render_markdown("```toml\ntitle = 'T'\n```\n# How to do it\n").unwrap();
    assert!(rendered.html.starts_with(
        "<h1 id=\"how-to-do-it\">How to do it<a href=\"#how-to-do-it\" aria-label=\"Anchor link for the heading: How to do it\">🔗</a></h1>"
    ));
}

#[test]
fn rendered_audio_block() {
    let rendered = render_markdown("```toml\ntitle = 'T'\n```\n<myaudio>\nsong.flac\n</myaudio>\n").unwrap();
    assert_eq!(rendered.html, "<audio controls=\"\" src=\"song-lossier.opus\"></audio>\n");
}

#[test]
fn untouched_document_renders_as_pulldown_does() {
    let md = "```toml\ntitle = 'T'\n```\nSome *text* with `code`, ~~strike~~[^1] and\n\n- [x] done\n- item\n\n> quote\n\n[^1]: note\n";
    let mut options = pulldown_cmark::Options::empty();
    options.insert(pulldown_cmark::Options::ENABLE_TABLES);
    options.insert(pulldown_cmark::Options::ENABLE_FOOTNOTES);
    options.insert(pulldown_cmark::Options::ENABLE_STRIKETHROUGH);
    options.insert(pulldown_cmark::Options::ENABLE_TASKLISTS);
    let mut extractor = pulldown_cmark_frontmatter::FrontmatterExtractor::new(pulldown_cmark::Parser::new_ext(md, options));
    let source = extractor.extract_buffered().unwrap().code_block.as_ref().unwrap().source.to_string();
    let mut expected = String::new();
    pulldown_cmark::html::push_html(&mut expected, extractor);
    let rendered = render_markdown(md).unwrap();
    assert_eq!(rendered.frontmatter_source.unwrap(), source);
    assert_eq!(rendered.html, expected);
}

#[test]
fn render_library_events() {
    let events = vec![
        MdEvent::Start(MdTag::Paragraph),
        MdEvent::Text("hi ".to_string()),
        MdEvent::Start(MdTag::Image(pulldown_cmark::LinkType::Inline, "x.jpg".to_string(), "t".to_string())),
        MdEvent::Text("alt".to_string()),
        MdEvent::End(MdTag::Image(pulldown_cmark::LinkType::Inline, "x.jpg".to_string(), "t".to_string())),
        MdEvent::End(MdTag::Paragraph),
    ];
    let rendered = render_events(events);
    assert!(rendered.frontmatter_source.is_none());
    assert_eq!(rendered.html, "<p>hi <img src=\"x-lossier.jpg\" alt=\"alt\" title=\"t\" /></p>\n");
}

#[test]
fn parse_gives_library_events() {
    let events = parse_markdown("# T\n", true, true, true, true);
    assert_eq!(events.len(), 3);
    assert!(matches!(&events[0], MdEvent::Start(MdTag::Heading(1, None, c)) if c.is_empty()));
    assert!(matches!(&events[1], MdEvent::Text(t) if t == "T"));
}
