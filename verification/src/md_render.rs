//! Turning a markdown file into HTML: pulldown-cmark parses it, the site's
//! rewriting rules adjust the events, the frontmatter block is taken out and
//! the rest is written as HTML.
//!
//! The rules: a heading's first text becomes the heading itself with an id
//! made from the text and an anchor link to it; images point to their lossier
//! variant (`.png` and `.webp` to `-lossier.webp`, `.jpg` to `-lossier.jpg`);
//! a `<myaudio>` block holding a `.flac` path becomes an `<audio>` element
//! playing the `-lossier.opus` variant.
use vstd::prelude::*;
use crate::md_events::{MdEvent, MdEventModel, MdTag, MdTagModel, events_html, events_wf, extract_frontmatter,
    events_to_html, frontmatter_split, markdown_events, md_models, opt_text, parse_markdown, tag_wf};
use crate::text::{decimal, ends_with, push_decimal, str_eq};

verus! {

/// What the rewriting rules read of a markdown event.
pub enum EventView {
    /// The start of a heading of this level (1 to 6).
    HeadingStart(u8),
    /// A text node.
    Text(String),
    /// The start of an image with this destination.
    ImageStart(String),
    /// A raw HTML node.
    Html(String),
    /// Any other event.
    Other,
}

/// An event as the rules see it.
pub enum EventModel {
    HeadingStart(u8),
    Text(Seq<char>),
    ImageStart(Seq<char>),
    Html(Seq<char>),
    Other,
}

impl View for EventView {
    type V = EventModel;

    open spec fn view(&self) -> EventModel {
        match self {
            EventView::HeadingStart(l) => EventModel::HeadingStart(*l),
            EventView::Text(t) => EventModel::Text(t@),
            EventView::ImageStart(d) => EventModel::ImageStart(d@),
            EventView::Html(h) => EventModel::Html(h@),
            EventView::Other => EventModel::Other,
        }
    }
}

/// What becomes of an event.
pub enum EventAction {
    /// It passes unchanged.
    Keep,
    /// It is left out.
    Drop,
    /// It is replaced by a raw HTML node with this text.
    Html(String),
    /// It is the same image start with this destination.
    ImageDest(String),
}

/// An action as the rules see it.
pub enum ActionModel {
    Keep,
    Drop,
    Html(Seq<char>),
    ImageDest(Seq<char>),
}

impl View for EventAction {
    type V = ActionModel;

    open spec fn view(&self) -> ActionModel {
        match self {
            EventAction::Keep => ActionModel::Keep,
            EventAction::Drop => ActionModel::Drop,
            EventAction::Html(h) => ActionModel::Html(h@),
            EventAction::ImageDest(d) => ActionModel::ImageDest(d@),
        }
    }
}

/// What the rules remember between events: the level of a heading whose
/// text has not come yet (0 for none), and whether a `<myaudio>` block is open.
#[derive(Clone, Copy, Debug, PartialEq, Eq, Structural)]
pub struct RewriteState {
    pub heading_level: u8,
    pub inside_myaudio: bool,
}

/// The state at the start of a document.
pub open spec fn initial_state() -> RewriteState {
    RewriteState { heading_level: 0, inside_myaudio: false }
}

/// The URL-friendly form of a text that `slug::slugify` gives.
pub uninterp spec fn slug_of(text: Seq<char>) -> Seq<char>;

/// `slug::slugify`. Trusted: the result is named after the text, of which
/// alone it depends.
#[verifier::external_body]
pub fn slugify(text: &str) -> (res: String)
    ensures
        res@ == slug_of(text@),
{
    slug::slugify(text)
}

/// The HTML that replaces a heading's text: the heading with an id made
/// from the text, and a link to that id.
pub open spec fn anchored_heading(level: u8, slug: Seq<char>, text: Seq<char>) -> Seq<char> {
    "<h"@ + decimal(level as nat) + " id=\""@ + slug + "\">"@ + text + "<a href=\"#"@ + slug
        + "\" aria-label=\"Anchor link for the heading: "@ + text + "\">🔗</a></h"@
        + decimal(level as nat) + ">"@
}

/// The destination of the lossier variant of an image.
pub open spec fn lossier_image(dest: Seq<char>) -> Seq<char> {
    if dest.len() >= 4 && dest.subrange(dest.len() - 4, dest.len() as int) == ".png"@ {
        dest.subrange(0, dest.len() - 4) + "-lossier.webp"@
    } else if dest.len() >= 5 && dest.subrange(dest.len() - 5, dest.len() as int) == ".webp"@ {
        dest.subrange(0, dest.len() - 5) + "-lossier.webp"@
    } else if dest.len() >= 4 && dest.subrange(dest.len() - 4, dest.len() as int) == ".jpg"@ {
        dest.subrange(0, dest.len() - 4) + "-lossier.jpg"@
    } else {
        dest
    }
}

/// The `<audio>` element for the `.flac` line inside a `<myaudio>` block.
pub open spec fn audio_element(node: Seq<char>) -> Seq<char> {
    "<audio controls=\"\" src=\""@ + node.subrange(0, node.len() - 6) + "-lossier.opus"@ + "\">"@
}

/// One step of the rules. `None` when the line inside a `<myaudio>` block
/// does not end in `.flac` and a newline.
pub open spec fn rewrite_step(st: RewriteState, ev: EventModel) -> Option<(RewriteState, ActionModel)> {
    match ev {
        EventModel::HeadingStart(level) => Some((RewriteState { heading_level: level, ..st }, ActionModel::Drop)),
        EventModel::Text(text) => if st.heading_level != 0 {
            Some((RewriteState { heading_level: 0, ..st },
                ActionModel::Html(anchored_heading(st.heading_level, slug_of(text), text))))
        } else {
            Some((st, ActionModel::Keep))
        },
        EventModel::ImageStart(dest) => Some((st, ActionModel::ImageDest(lossier_image(dest)))),
        EventModel::Html(node) => if node == "<myaudio>\n"@ {
            Some((RewriteState { inside_myaudio: true, ..st }, ActionModel::Html(Seq::empty())))
        } else if st.inside_myaudio {
            if node.len() >= 6 && node.subrange(node.len() - 6, node.len() as int) == ".flac\n"@ {
                Some((RewriteState { inside_myaudio: false, ..st }, ActionModel::Html(audio_element(node))))
            } else {
                None
            }
        } else if node == "</myaudio>\n"@ {
            Some((st, ActionModel::Html("</audio>\n"@)))
        } else {
            Some((st, ActionModel::Keep))
        },
        EventModel::Other => Some((st, ActionModel::Keep)),
    }
}

/// The rules applied to a run of events from a state.
pub open spec fn rewrite_run(st: RewriteState, evs: Seq<EventModel>) -> Option<Seq<ActionModel>>
    decreases evs.len(),
{
    if evs.len() == 0 {
        Some(Seq::empty())
    } else {
        match rewrite_step(st, evs[0]) {
            None => None,
            Some((next, action)) => match rewrite_run(next, evs.skip(1)) {
                None => None,
                Some(rest) => Some(seq![action] + rest),
            },
        }
    }
}

/// The destination of an image's lossier variant.
pub fn lossier_image_dest(dest: &str) -> (res: String)
    ensures
        res@ == lossier_image(dest@),
{
    proof {
        reveal_strlit(".png");
        reveal_strlit(".webp");
        reveal_strlit(".jpg");
    }
    let n = dest.unicode_len();
    if ends_with(dest, ".png") {
        let mut res = String::from_str(dest.substring_char(0, n - 4));
        res.append("-lossier.webp");
        res
    } else if ends_with(dest, ".webp") {
        let mut res = String::from_str(dest.substring_char(0, n - 5));
        res.append("-lossier.webp");
        res
    } else if ends_with(dest, ".jpg") {
        let mut res = String::from_str(dest.substring_char(0, n - 4));
        res.append("-lossier.jpg");
        res
    } else {
        String::from_str(dest)
    }
}

fn anchored_heading_html(level: u8, slug: &str, text: &str) -> (res: String)
    ensures
        res@ == anchored_heading(level, slug@, text@),
{
    let mut h = String::new();
    h.append("<h");
    push_decimal(&mut h, level as u64);
    h.append(" id=\"");
    h.append(slug);
    h.append("\">");
    h.append(text);
    h.append("<a href=\"#");
    h.append(slug);
    h.append("\" aria-label=\"Anchor link for the heading: ");
    h.append(text);
    h.append("\">🔗</a></h");
    push_decimal(&mut h, level as u64);
    h.append(">");
    assert(h@ =~= anchored_heading(level, slug@, text@));
    h
}

/// Applies the rules to one event.
pub fn rewrite_event(st: &mut RewriteState, ev: &EventView) -> (res: Option<EventAction>)
    ensures
        match rewrite_step(*old(st), ev@) {
            None => res is None,
            Some((next, action)) => res matches Some(a) && a@ == action && *final(st) == next,
        },
{
    proof {
        reveal_strlit("<myaudio>\n");
        reveal_strlit("</myaudio>\n");
        reveal_strlit(".flac\n");
    }
    match ev {
        EventView::HeadingStart(level) => {
            st.heading_level = *level;
            Some(EventAction::Drop)
        },
        EventView::Text(text) => {
            if st.heading_level != 0 {
                let slug = slugify(text.as_str());
                let html = anchored_heading_html(st.heading_level, slug.as_str(), text.as_str());
                st.heading_level = 0;
                Some(EventAction::Html(html))
            } else {
                Some(EventAction::Keep)
            }
        },
        EventView::ImageStart(dest) => Some(EventAction::ImageDest(lossier_image_dest(dest.as_str()))),
        EventView::Html(node) => {
            if str_eq(node.as_str(), "<myaudio>\n") {
                st.inside_myaudio = true;
                Some(EventAction::Html(String::new()))
            } else if st.inside_myaudio {
                if ends_with(node.as_str(), ".flac\n") {
                    let n = node.as_str().unicode_len();
                    let mut a = String::from_str("<audio controls=\"\" src=\"");
                    a.append(node.as_str().substring_char(0, n - 6));
                    a.append("-lossier.opus");
                    a.append("\">");
                    assert(a@ =~= audio_element(node@));
                    st.inside_myaudio = false;
                    Some(EventAction::Html(a))
                } else {
                    None
                }
            } else if str_eq(node.as_str(), "</myaudio>\n") {
                Some(EventAction::Html(String::from_str("</audio>\n")))
            } else {
                Some(EventAction::Keep)
            }
        },
        EventView::Other => Some(EventAction::Keep),
    }
}

/// The views of a vector of events.
pub open spec fn event_models(v: Seq<EventView>) -> Seq<EventModel> {
    v.map_values(|e: EventView| e@)
}

/// The views of a vector of actions.
pub open spec fn action_models(v: Seq<EventAction>) -> Seq<ActionModel> {
    v.map_values(|a: EventAction| a@)
}

/// Applies the rules to a whole document's events, from the start state.
/// `None` when a `<myaudio>` block's line does not end in `.flac`.
pub fn rewrite_events(events: &Vec<EventView>) -> (res: Option<Vec<EventAction>>)
    ensures
        match rewrite_run(initial_state(), event_models(events@)) {
            None => res is None,
            Some(actions) => res matches Some(v) && action_models(v@) == actions,
        },
{
    let ghost all = event_models(events@);
    let mut st = RewriteState { heading_level: 0, inside_myaudio: false };
    let mut out: Vec<EventAction> = Vec::new();
    let mut i: usize = 0;
    proof {
        assert(all.skip(0) =~= all);
        assert(action_models(out@) =~= Seq::<ActionModel>::empty());
        match rewrite_run(st, all) {
            None => {},
            Some(rest) => {
                assert(action_models(out@) + rest =~= rest);
            },
        }
    }
    while i < events.len()
        invariant
            i <= events@.len(),
            all == event_models(events@),
            all.len() == events@.len(),
            rewrite_run(initial_state(), all) == match rewrite_run(st, all.skip(i as int)) {
                None => None,
                Some(rest) => Some(action_models(out@) + rest),
            },
        decreases events.len() - i,
    {
        let ghost st0 = st;
        assert(all.skip(i as int)[0] == events@[i as int]@);
        assert(all.skip(i as int).skip(1) =~= all.skip(i + 1));
        match rewrite_event(&mut st, &events[i]) {
            None => {
                return None;
            },
            Some(a) => {
                let ghost before = out@;
                out.push(a);
                assert(action_models(out@) =~= action_models(before).push(a@));
                proof {
                    match rewrite_run(st, all.skip(i + 1)) {
                        None => {},
                        Some(rest) => {
                            assert(action_models(out@) + rest =~= action_models(before) + (seq![a@] + rest));
                        },
                    }
                }
            },
        }
        i = i + 1;
    }
    assert(all.skip(i as int) =~= Seq::<EventModel>::empty());
    assert(action_models(out@) + Seq::<ActionModel>::empty() =~= action_models(out@));
    Some(out)
}

/// The rules give one action for each event, whenever they accept the events.
pub proof fn one_action_per_event(st: RewriteState, evs: Seq<EventModel>)
    ensures
        rewrite_run(st, evs) matches Some(acts) ==> acts.len() == evs.len(),
    decreases evs.len(),
{
    if evs.len() > 0 {
        match rewrite_step(st, evs[0]) {
            None => {},
            Some((next, _)) => one_action_per_event(next, evs.skip(1)),
        }
    }
}

/// No `<myaudio>` block is opened by these events.
pub open spec fn opens_no_audio(evs: Seq<EventModel>) -> bool {
    forall|i: int| 0 <= i < evs.len() ==> (#[trigger] evs[i]) != EventModel::Html("<myaudio>\n"@)
}

/// The rules accept every document that opens no `<myaudio>` block.
pub proof fn documents_without_audio_are_accepted(st: RewriteState, evs: Seq<EventModel>)
    requires
        !st.inside_myaudio,
        opens_no_audio(evs),
    ensures
        rewrite_run(st, evs) is Some,
    decreases evs.len(),
{
    if evs.len() > 0 {
        assert(evs[0] != EventModel::Html("<myaudio>\n"@));
        match rewrite_step(st, evs[0]) {
            None => {},
            Some((next, _)) => {
                assert(!next.inside_myaudio);
                assert forall|i: int| 0 <= i < evs.skip(1).len() implies (#[trigger] evs.skip(1)[i]) != EventModel::Html("<myaudio>\n"@) by {
                    assert(evs.skip(1)[i] == evs[i + 1]);
                }
                documents_without_audio_are_accepted(next, evs.skip(1));
            },
        }
    }
}

/// What the rules read of an event: the level of a heading start, a text, an
/// image start's destination, a raw HTML node; nothing of any other event.
pub open spec fn rule_view(e: MdEventModel) -> EventModel {
    match e {
        MdEventModel::Start(MdTagModel::Heading(level, _, _)) => EventModel::HeadingStart(level),
        MdEventModel::Text(t) => EventModel::Text(t),
        MdEventModel::Start(MdTagModel::Image(_, dest, _)) => EventModel::ImageStart(dest),
        MdEventModel::Html(h) => EventModel::Html(h),
        _ => EventModel::Other,
    }
}

/// What the rules read of each event.
pub open spec fn rule_views(evs: Seq<MdEventModel>) -> Seq<EventModel> {
    evs.map_values(|e: MdEventModel| rule_view(e))
}

/// Reads what the rules look at in an event.
pub fn view_for_rules(e: &MdEvent) -> (res: EventView)
    ensures
        res@ == rule_view(e@),
{
    match e {
        MdEvent::Start(MdTag::Heading(level, _, _)) => EventView::HeadingStart(*level),
        MdEvent::Text(t) => EventView::Text(t.clone()),
        MdEvent::Start(MdTag::Image(_, dest, _)) => EventView::ImageStart(dest.clone()),
        MdEvent::Html(h) => EventView::Html(h.clone()),
        _ => EventView::Other,
    }
}

/// The events that an event becomes under an action: itself, nothing, a raw
/// HTML node, or the same image start with another destination.
pub open spec fn applied_event(e: MdEventModel, a: ActionModel) -> Seq<MdEventModel> {
    match a {
        ActionModel::Keep => seq![e],
        ActionModel::Drop => Seq::empty(),
        ActionModel::Html(h) => seq![MdEventModel::Html(h)],
        ActionModel::ImageDest(d) => match e {
            MdEventModel::Start(MdTagModel::Image(k, _, t)) => seq![MdEventModel::Start(MdTagModel::Image(k, d, t))],
            _ => seq![e],
        },
    }
}

/// The events after applying to each its action.
pub open spec fn applied_events(evs: Seq<MdEventModel>, acts: Seq<ActionModel>) -> Seq<MdEventModel>
    decreases evs.len(),
{
    if evs.len() == 0 {
        Seq::empty()
    } else {
        applied_events(evs.drop_last(), acts) + applied_event(evs.last(), acts[evs.len() - 1])
    }
}

/// A document's events after the rules, or `None` when the rules reject it.
pub open spec fn rewritten(evs: Seq<MdEventModel>) -> Option<Seq<MdEventModel>> {
    match rewrite_run(initial_state(), rule_views(evs)) {
        Some(acts) => Some(applied_events(evs, acts)),
        None => None,
    }
}

/// The frontmatter text and the HTML of rewritten events.
pub open spec fn rendered_parts(evs: Seq<MdEventModel>) -> (Option<Seq<char>>, Seq<char>) {
    let (source, rest) = frontmatter_split(evs);
    (source, events_html(rest))
}

proof fn lemma_applied_wf(evs: Seq<MdEventModel>, acts: Seq<ActionModel>)
    requires
        events_wf(evs),
    ensures
        events_wf(applied_events(evs, acts)),
    decreases evs.len(),
{
    if evs.len() > 0 {
        assert(events_wf(evs.drop_last())) by {
            assert forall|i: int| 0 <= i < evs.drop_last().len() implies match #[trigger] evs.drop_last()[i] {
                MdEventModel::Start(t) => tag_wf(t),
                MdEventModel::End(t) => tag_wf(t),
                _ => true,
            } by {
                assert(evs.drop_last()[i] == evs[i]);
            }
        }
        lemma_applied_wf(evs.drop_last(), acts);
        let pre = applied_events(evs.drop_last(), acts);
        let tail = applied_event(evs.last(), acts[evs.len() - 1]);
        assert(match evs[evs.len() - 1] {
            MdEventModel::Start(t) => tag_wf(t),
            MdEventModel::End(t) => tag_wf(t),
            _ => true,
        });
        assert forall|i: int| 0 <= i < (pre + tail).len() implies match #[trigger] (pre + tail)[i] {
            MdEventModel::Start(t) => tag_wf(t),
            MdEventModel::End(t) => tag_wf(t),
            _ => true,
        } by {
            if i < pre.len() {
                assert((pre + tail)[i] == pre[i]);
            } else {
                assert((pre + tail)[i] == tail[i - pre.len()]);
            }
        }
    }
}

/// The rules' action for each event does not depend on what came before
/// when the event starts a heading, starts an image or is none that the
/// rules read: a heading start is left out, an image start gets the lossier
/// destination, any other such event is kept.
proof fn lemma_run_actions(st: RewriteState, evs: Seq<EventModel>)
    ensures
        rewrite_run(st, evs) matches Some(acts) ==> acts.len() == evs.len() && forall|i: int| 0 <= i < evs.len() ==>
            match #[trigger] evs[i] {
                EventModel::HeadingStart(_) => acts[i] == ActionModel::Drop,
                EventModel::ImageStart(d) => acts[i] == ActionModel::ImageDest(lossier_image(d)),
                EventModel::Other => acts[i] == ActionModel::Keep,
                _ => true,
            },
    decreases evs.len(),
{
    if evs.len() > 0 {
        match rewrite_step(st, evs[0]) {
            None => {},
            Some((next, a)) => {
                lemma_run_actions(next, evs.skip(1));
                match rewrite_run(next, evs.skip(1)) {
                    None => {},
                    Some(rest) => {
                        let acts = seq![a] + rest;
                        assert forall|i: int| 0 <= i < evs.len() implies match #[trigger] evs[i] {
                            EventModel::HeadingStart(_) => acts[i] == ActionModel::Drop,
                            EventModel::ImageStart(d) => acts[i] == ActionModel::ImageDest(lossier_image(d)),
                            EventModel::Other => acts[i] == ActionModel::Keep,
                            _ => true,
                        } by {
                            if i > 0 {
                                assert(evs[i] == evs.skip(1)[i - 1]);
                                assert(acts[i] == rest[i - 1]);
                            }
                        }
                    },
                }
            },
        }
    }
}

/// How the rules treat the events they do not rewrite from state: in an
/// accepted document each heading start is left out, each image start
/// carries the lossier variant of its destination with the same link type
/// and title, and every event the rules do not read passes unchanged.
pub proof fn rewriting_keeps_structure(evs: Seq<MdEventModel>)
    ensures
        rewrite_run(initial_state(), rule_views(evs)) matches Some(acts) ==> forall|i: int| 0 <= i < evs.len() ==>
            match #[trigger] evs[i] {
                MdEventModel::Start(MdTagModel::Heading(..)) => applied_event(evs[i], acts[i]) == Seq::<MdEventModel>::empty(),
                MdEventModel::Start(MdTagModel::Image(k, d, t)) => applied_event(evs[i], acts[i])
                    == seq![MdEventModel::Start(MdTagModel::Image(k, lossier_image(d), t))],
                MdEventModel::Text(_) => true,
                MdEventModel::Html(_) => true,
                _ => applied_event(evs[i], acts[i]) == seq![evs[i]],
            },
{
    lemma_run_actions(initial_state(), rule_views(evs));
    match rewrite_run(initial_state(), rule_views(evs)) {
        None => {},
        Some(acts) => {
            assert forall|i: int| 0 <= i < evs.len() implies match #[trigger] evs[i] {
                MdEventModel::Start(MdTagModel::Heading(..)) => applied_event(evs[i], acts[i]) == Seq::<MdEventModel>::empty(),
                MdEventModel::Start(MdTagModel::Image(k, d, t)) => applied_event(evs[i], acts[i])
                    == seq![MdEventModel::Start(MdTagModel::Image(k, lossier_image(d), t))],
                MdEventModel::Text(_) => true,
                MdEventModel::Html(_) => true,
                _ => applied_event(evs[i], acts[i]) == seq![evs[i]],
            } by {
                assert(rule_views(evs)[i] == rule_view(evs[i]));
            }
        },
    }
}

/// A markdown page turned into HTML.
pub struct RenderedMarkdown {
    /// The text of the frontmatter code block at the top, if there is one.
    pub frontmatter_source: Option<String>,
    /// The page's HTML.
    pub html: String,
}

/// Applies the rules to a document's events, takes out the frontmatter and
/// writes the rest as HTML with pulldown-cmark.
pub fn render_events(events: Vec<MdEvent>) -> (res: RenderedMarkdown)
    requires
        events_wf(md_models(events@)),
        rewritten(md_models(events@)) is Some,
    ensures
        (opt_text(res.frontmatter_source), res.html@) == rendered_parts(rewritten(md_models(events@))->0),
{
    let ghost evs = md_models(events@);
    let mut views: Vec<EventView> = Vec::new();
    let mut j: usize = 0;
    while j < events.len()
        invariant
            j <= events@.len(),
            evs == md_models(events@),
            views@.len() == j,
            forall|x: int| 0 <= x < j ==> (#[trigger] views@[x])@ == rule_view(evs[x]),
        decreases events.len() - j,
    {
        let v = view_for_rules(&events[j]);
        views.push(v);
        j = j + 1;
    }
    assert(event_models(views@) =~= rule_views(evs));
    let actions = match rewrite_events(&views) {
        Some(a) => a,
        None => {
            assert(false);
            Vec::new()
        },
    };
    let ghost acts = action_models(actions@);
    proof {
        one_action_per_event(initial_state(), rule_views(evs));
        assert(acts.len() == actions@.len());
        lemma_applied_wf(evs, acts);
    }
    let n = actions.len();
    let mut out: Vec<MdEvent> = Vec::new();
    let mut i: usize = 0;
    for ev in it: events.into_iter()
        invariant
            n == actions@.len(),
            n == evs.len(),
            acts == action_models(actions@),
            i == it.index(),
            it.seq() == events@,
            evs == md_models(events@),
            md_models(out@) == applied_events(evs.take(i as int), acts),
    {
        assert(i < n);
        let ghost before = md_models(out@);
        assert(ev == events@[i as int]);
        match &actions[i] {
            EventAction::Keep => out.push(ev),
            EventAction::Drop => {},
            EventAction::Html(h) => out.push(MdEvent::Html(h.clone())),
            EventAction::ImageDest(d) => {
                let changed = match ev {
                    MdEvent::Start(MdTag::Image(k, _, t)) => MdEvent::Start(MdTag::Image(k, d.clone(), t)),
                    other => other,
                };
                out.push(changed);
            },
        }
        proof {
            assert(evs.take(i + 1).drop_last() =~= evs.take(i as int));
            assert(acts[i as int] == actions@[i as int]@);
            assert(md_models(out@) =~= before + applied_event(evs[i as int], acts[i as int]));
        }
        i = i + 1;
    }
    assert(evs.take(n as int) =~= evs);
    let (frontmatter_source, rest) = extract_frontmatter(&out);
    let html = events_to_html(&rest);
    RenderedMarkdown { frontmatter_source, html }
}

/// Parses a markdown page with tables, footnotes, strikethrough and task
/// lists, applies the rewriting rules to its events, takes out the
/// frontmatter and writes the rest as HTML. `None` when the rules reject
/// the page (a `<myaudio>` line that is not a `.flac` path).
pub fn render_markdown(md: &str) -> (res: Option<RenderedMarkdown>)
    ensures
        match rewritten(markdown_events(md@, true, true, true, true)) {
            None => res is None,
            Some(evs) => res matches Some(r) && (opt_text(r.frontmatter_source), r.html@) == rendered_parts(evs),
        },
{
    let events = parse_markdown(md, true, true, true, true);
    let mut views: Vec<EventView> = Vec::new();
    let mut j: usize = 0;
    while j < events.len()
        invariant
            j <= events@.len(),
            views@.len() == j,
            forall|x: int| 0 <= x < j ==> (#[trigger] views@[x])@ == rule_view(md_models(events@)[x]),
        decreases events.len() - j,
    {
        let v = view_for_rules(&events[j]);
        views.push(v);
        j = j + 1;
    }
    assert(event_models(views@) =~= rule_views(md_models(events@)));
    match rewrite_events(&views) {
        None => None,
        Some(_) => Some(render_events(events)),
    }
}

} // verus!
