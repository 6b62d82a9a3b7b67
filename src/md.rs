//! The markdown events of a chapter, as the parser gives them, and the events that
//! this library writes back.
use vstd::prelude::*;

use pulldown_cmark::{CodeBlockKind, Event, LinkType, Tag, TagEnd};

verus! {

#[verifier::external_type_specification]
#[verifier::external_body]
pub struct ExEvent<'a>(pulldown_cmark::Event<'a>);

/// What the extractor needs to know of one parsed event.
pub enum EventKind {
    /// The start of a fenced code block, with its info string.
    FencedCodeStart(String),
    Text(String),
    CodeBlockEnd,
    Other,
}

/// What kind an event is, with its text as characters.
pub enum KindView {
    FencedCodeStart(Seq<char>),
    Text(Seq<char>),
    CodeBlockEnd,
    Other,
}

pub open spec fn kind_view(k: EventKind) -> KindView {
    match k {
        EventKind::FencedCodeStart(info) => KindView::FencedCodeStart(info@),
        EventKind::Text(t) => KindView::Text(t@),
        EventKind::CodeBlockEnd => KindView::CodeBlockEnd,
        EventKind::Other => KindView::Other,
    }
}

/// The kinds and offsets of a list of parsed events.
pub open spec fn outline_of<'a>(items: Seq<MdItem<'a>>) -> Seq<(KindView, nat)> {
    items.map_values(|it: MdItem<'a>| (kind_view(item_kind(it)), item_offset(it) as nat))
}

/// Whether an event opens or closes one of the constructs that the markdown writer
/// keeps a stack for.
#[derive(PartialEq, Eq, Structural, Clone, Copy)]
pub enum Shape {
    LinkStart,
    LinkEnd,
    ImageStart,
    ImageEnd,
    HeadingStart,
    HeadingEnd,
    Other,
}

/// Open links, open images, and whether a heading is open, after some events; none
/// once an end comes without its start or a heading starts inside a heading.
pub open spec fn nesting(shapes: Seq<Shape>) -> Option<(nat, nat, bool)>
    decreases shapes.len(),
{
    if shapes.len() == 0 {
        Some((0, 0, false))
    } else {
        match nesting(shapes.drop_last()) {
            None => None,
            Some((links, images, heading)) => match shapes.last() {
                Shape::LinkStart => Some((links + 1, images, heading)),
                Shape::LinkEnd => if links > 0 { Some(((links - 1) as nat, images, heading)) } else { None },
                Shape::ImageStart => Some((links, images + 1, heading)),
                Shape::ImageEnd => if images > 0 { Some((links, (images - 1) as nat, heading)) } else { None },
                Shape::HeadingStart => if heading { None } else { Some((links, images, true)) },
                Shape::HeadingEnd => if heading { Some((links, images, false)) } else { None },
                Shape::Other => Some((links, images, heading)),
            },
        }
    }
}

/// Every end of a link, image or heading closes one that is open, and no heading
/// starts inside another.
pub open spec fn well_nested(shapes: Seq<Shape>) -> bool {
    nesting(shapes) is Some
}

pub open spec fn shapes_of<'a>(items: Seq<MdItem<'a>>) -> Seq<Shape> {
    items.map_values(|it: MdItem<'a>| item_shape(it))
}

/// The kind and first byte of each event that the markdown parser finds in a text.
pub uninterp spec fn markdown_outline(content: Seq<char>) -> Seq<(KindView, nat)>;

/// One event, what kind it is and what shape, and the byte of the chapter where it
/// starts. Only this library makes one, so its kind and shape are the event's own.
pub struct MdItem<'a> {
    event: Event<'a>,
    kind: EventKind,
    shape: Shape,
    offset: usize,
}

pub closed spec fn item_event<'a>(it: MdItem<'a>) -> Event<'a> {
    it.event
}

pub closed spec fn item_kind<'a>(it: MdItem<'a>) -> EventKind {
    it.kind
}

pub closed spec fn item_shape<'a>(it: MdItem<'a>) -> Shape {
    it.shape
}

pub closed spec fn item_offset<'a>(it: MdItem<'a>) -> usize {
    it.offset
}

impl<'a> MdItem<'a> {
    /// An event at `offset`, with the kind and shape it has.
    pub fn new(event: Event<'a>, offset: usize) -> (r: MdItem<'a>)
        ensures
            item_event(r) == event,
            item_offset(r) == offset,
    {
        let kind = event_kind(&event);
        let shape = event_shape(&event);
        MdItem { event, kind, shape, offset }
    }

    pub fn event(&self) -> (r: &Event<'a>)
        ensures
            *r == item_event(*self),
    {
        &self.event
    }

    pub fn kind(&self) -> (r: &EventKind)
        ensures
            *r == item_kind(*self),
    {
        &self.kind
    }

    pub fn offset(&self) -> (r: usize)
        ensures
            r == item_offset(*self),
    {
        self.offset
    }

    pub fn shape(&self) -> (r: Shape)
        ensures
            r == item_shape(*self),
    {
        self.shape
    }
}

/// Relies on pulldown-cmark's `Event`: what the extractor needs of an event.
#[verifier::external_body]
fn event_kind<'a>(e: &Event<'a>) -> (r: EventKind) {
    match e {
        Event::Start(Tag::CodeBlock(CodeBlockKind::Fenced(info))) => EventKind::FencedCodeStart(info.to_string()),
        Event::Text(text) => EventKind::Text(text.to_string()),
        Event::End(TagEnd::CodeBlock) => EventKind::CodeBlockEnd,
        _ => EventKind::Other,
    }
}

/// Relies on pulldown-cmark's `Event`: whether an event opens or closes a link, an
/// image or a heading.
#[verifier::external_body]
fn event_shape<'a>(e: &Event<'a>) -> (r: Shape) {
    match e {
        Event::Start(Tag::Link { .. }) => Shape::LinkStart,
        Event::End(TagEnd::Link) => Shape::LinkEnd,
        Event::Start(Tag::Image { .. }) => Shape::ImageStart,
        Event::End(TagEnd::Image) => Shape::ImageEnd,
        Event::Start(Tag::Heading { .. }) => Shape::HeadingStart,
        Event::End(TagEnd::Heading(_)) => Shape::HeadingEnd,
        _ => Shape::Other,
    }
}

/// Relies on `mdbook::utils::new_cmark_parser` (pulldown-cmark with mdBook's options)
/// and `Parser::into_offset_iter`: the chapter's events in order, each with the
/// first byte of its source range. Which events it finds depends on the text alone.
#[verifier::external_body]
pub(crate) fn parse_markdown<'a>(content: &'a str) -> (r: Vec<MdItem<'a>>)
    ensures
        outline_of(r@) == markdown_outline(content@),
{
    let parser = mdbook::utils::new_cmark_parser(content, false);
    parser.into_offset_iter().map(|(event, range)| MdItem {
        kind: event_kind(&event),
        shape: event_shape(&event),
        event,
        offset: range.start,
    }).collect()
}

/// How a link or an image is written in markdown.
pub enum LinkKind {
    /// `[text](url "title")`.
    Inline,
}

/// An event that this library puts into a chapter.
pub enum OutEvent {
    Text(String),
    Html(String),
    ImageStart { link_type: LinkKind, dest_url: String, title: String, id: String },
    ImageEnd,
    LinkStart { link_type: LinkKind, dest_url: String, title: String, id: String },
    LinkEnd,
}

/// An inline image or link to `dest_url` with `title` and no id.
pub fn image_start(dest_url: String, title: String) -> (r: OutEvent)
    ensures
        r matches OutEvent::ImageStart { link_type: LinkKind::Inline, dest_url: d, title: t, id: i }
            && d@ == dest_url@ && t@ == title@ && i@ == Seq::<char>::empty(),
{
    OutEvent::ImageStart { link_type: LinkKind::Inline, dest_url, title, id: String::new() }
}

pub fn link_start(dest_url: String, title: String) -> (r: OutEvent)
    ensures
        r matches OutEvent::LinkStart { link_type: LinkKind::Inline, dest_url: d, title: t, id: i }
            && d@ == dest_url@ && t@ == title@ && i@ == Seq::<char>::empty(),
{
    OutEvent::LinkStart { link_type: LinkKind::Inline, dest_url, title, id: String::new() }
}

/// Relies on pulldown-cmark's `Event`, `Tag`, `TagEnd` and `LinkType`: the parser
/// event for each of ours.
#[verifier::external_body]
fn to_event<'a>(e: OutEvent) -> (r: Event<'a>) {
    match e {
        OutEvent::Text(t) => Event::Text(t.into()),
        OutEvent::Html(h) => Event::Html(h.into()),
        OutEvent::ImageStart { link_type: LinkKind::Inline, dest_url, title, id } => Event::Start(Tag::Image { link_type: LinkType::Inline, dest_url: dest_url.into(), title: title.into(), id: id.into() }),
        OutEvent::ImageEnd => Event::End(TagEnd::Image),
        OutEvent::LinkStart { link_type: LinkKind::Inline, dest_url, title, id } => Event::Start(Tag::Link { link_type: LinkType::Inline, dest_url: dest_url.into(), title: title.into(), id: id.into() }),
        OutEvent::LinkEnd => Event::End(TagEnd::Link),
    }
}

/// Relies on `pulldown_cmark_to_cmark::cmark`: markdown text for a list of events,
/// or the formatter's error as text. The writer unwraps its stacks of open links,
/// images and headings, so the events must be well nested.
#[verifier::external_body]
fn write_markdown<'a>(items: &Vec<MdItem<'a>>) -> (r: Result<String, String>)
    requires
        well_nested(shapes_of(items@)),
{
    let mut buf = String::new();
    match pulldown_cmark_to_cmark::cmark(items.iter().map(|i| &i.event), &mut buf) {
        Ok(_) => Ok(buf),
        Err(e) => Err(e.to_string()),
    }
}

/// The shape of one of our events.
pub open spec fn out_shape(e: OutEvent) -> Shape {
    match e {
        OutEvent::ImageStart { .. } => Shape::ImageStart,
        OutEvent::ImageEnd => Shape::ImageEnd,
        OutEvent::LinkStart { .. } => Shape::LinkStart,
        OutEvent::LinkEnd => Shape::LinkEnd,
        _ => Shape::Other,
    }
}

/// Our event as a parser event, with its shape.
pub fn to_item<'a>(e: OutEvent) -> (r: MdItem<'a>)
    ensures
        item_shape(r) == out_shape(e),
        item_kind(r) is Other,
{
    let shape = match &e {
        OutEvent::ImageStart { .. } => Shape::ImageStart,
        OutEvent::ImageEnd => Shape::ImageEnd,
        OutEvent::LinkStart { .. } => Shape::LinkStart,
        OutEvent::LinkEnd => Shape::LinkEnd,
        _ => Shape::Other,
    };
    MdItem { event: to_event(e), kind: EventKind::Other, shape, offset: 0 }
}

/// The parser events for a list of ours, one for one, in order.
pub fn to_events<'a>(events: Vec<OutEvent>) -> (r: Vec<MdItem<'a>>)
    ensures
        shapes_of(r@) == events@.map_values(|e: OutEvent| out_shape(e)),
{
    let ghost orig = events@;
    let n = events.len();
    let mut rest = events;
    let mut rev: Vec<OutEvent> = Vec::new();
    while rest.len() > 0
        invariant
            rest@ == orig.subrange(0, rest@.len() as int),
            rev@.len() + rest@.len() == n,
            n == orig.len(),
            forall|j: int| 0 <= j < rev@.len() ==> #[trigger] rev@[j] == orig[n - 1 - j],
        decreases rest.len(),
    {
        let e = rest.pop().unwrap();
        rev.push(e);
        assert(rest@ =~= orig.subrange(0, rest@.len() as int));
    }
    let mut out: Vec<MdItem<'a>> = Vec::new();
    while rev.len() > 0
        invariant
            rev@.len() + out@.len() == n,
            n == orig.len(),
            forall|j: int| 0 <= j < rev@.len() ==> #[trigger] rev@[j] == orig[n - 1 - j],
            shapes_of(out@) == orig.subrange(0, out@.len() as int).map_values(|e: OutEvent| out_shape(e)),
        decreases rev.len(),
    {
        let ghost k = out@.len() as int;
        let e = rev.pop().unwrap();
        assert(e == orig[k]);
        let it = to_item(e);
        let ghost prev = out@;
        out.push(it);
        assert(shapes_of(out@) =~= shapes_of(prev).push(item_shape(it)));
        assert(orig.subrange(0, k + 1).map_values(|e: OutEvent| out_shape(e)) =~= orig.subrange(0, k).map_values(
            |e: OutEvent| out_shape(e),
        ).push(out_shape(orig[k])));
    }
    assert(orig.subrange(0, n as int) =~= orig);
    out
}

fn check_nesting<'a>(items: &Vec<MdItem<'a>>) -> (r: bool)
    ensures
        r == well_nested(shapes_of(items@)),
{
    let mut links: usize = 0;
    let mut images: usize = 0;
    let mut heading = false;
    let mut i: usize = 0;
    while i < items.len()
        invariant
            i <= items@.len(),
            links <= i && images <= i,
            nesting(shapes_of(items@.subrange(0, i as int))) == Some((links as nat, images as nat, heading)),
        decreases items.len() - i,
    {
        let ghost sub = items@.subrange(0, i + 1);
        assert(shapes_of(sub).drop_last() =~= shapes_of(items@.subrange(0, i as int)));
        assert(shapes_of(sub).last() == item_shape(items@[i as int]));
        let ghost good = nesting(shapes_of(sub)) is Some;
        let sh = items[i].shape();
        match sh {
            Shape::LinkStart => links = links + 1,
            Shape::LinkEnd => if links > 0 { links = links - 1 } else {
                proof { assert(shapes_of(items@).subrange(0, i + 1) =~= shapes_of(sub)); assert(nesting(shapes_of(sub)) is None); lemma_prefix_nesting(shapes_of(items@), i + 1); }
                return false;
            },
            Shape::ImageStart => images = images + 1,
            Shape::ImageEnd => if images > 0 { images = images - 1 } else {
                proof { assert(shapes_of(items@).subrange(0, i + 1) =~= shapes_of(sub)); assert(nesting(shapes_of(sub)) is None); lemma_prefix_nesting(shapes_of(items@), i + 1); }
                return false;
            },
            Shape::HeadingStart => if heading {
                proof { assert(shapes_of(items@).subrange(0, i + 1) =~= shapes_of(sub)); assert(nesting(shapes_of(sub)) is None); lemma_prefix_nesting(shapes_of(items@), i + 1); }
                return false;
            } else { heading = true },
            Shape::HeadingEnd => if heading { heading = false } else {
                proof { assert(shapes_of(items@).subrange(0, i + 1) =~= shapes_of(sub)); assert(nesting(shapes_of(sub)) is None); lemma_prefix_nesting(shapes_of(items@), i + 1); }
                return false;
            },
            Shape::Other => {},
        }
        i = i + 1;
    }
    assert(items@.subrange(0, items@.len() as int) =~= items@);
    true
}

/// Once the nesting fails it stays failed.
proof fn lemma_prefix_nesting(shapes: Seq<Shape>, k: int)
    requires
        0 <= k <= shapes.len(),
        nesting(shapes.subrange(0, k)) is None,
    ensures
        nesting(shapes) is None,
    decreases shapes.len() - k,
{
    if k < shapes.len() {
        assert(shapes.subrange(0, k + 1).drop_last() =~= shapes.subrange(0, k));
        lemma_prefix_nesting(shapes, k + 1);
    } else {
        assert(shapes.subrange(0, k) =~= shapes);
    }
}

/// The markdown text of a chapter whose events come in parts, the parts in order;
/// an error when its links, images or headings are not well nested.
pub fn serialize_chapter<'a>(parts: Vec<Vec<MdItem<'a>>>) -> (r: Result<String, String>)
    ensures
        !well_nested(shapes_of(crate::walker::flattened(parts@))) ==> r is Err && r->Err_0@
            == "links, images or headings are not well nested"@,
{
    let items = crate::walker::flatten(parts);
    if !check_nesting(&items) {
        return Err(String::from_str("links, images or headings are not well nested"));
    }
    write_markdown(&items)
}

} // verus!
