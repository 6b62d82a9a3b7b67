//! Splits a chapter's events into runs to pass through and diagram blocks to render.
use vstd::prelude::*;
use vstd::string::StringSliceAdditionalSpecFns;

use pulldown_cmark::Event;

use crate::block::{opt_view, SvgBlock, SvgBlockBuilder};
use crate::md::{item_kind, item_offset, kind_view, markdown_outline, outline_of, EventKind, MdItem};
use crate::text::{chars_of, string_of, trim_chars, trimmed};

verus! {

/// Where the blocks of one chapter come from; every block of the chapter carries it.
pub struct ChapterInfo {
    /// The chapter's title, trimmed.
    pub name: String,
    pub book_path: String,
    pub relative_path: String,
    pub preprocessor_name: String,
}

/// A block's own data while it is read: its source, the line of its fence, its name.
pub struct Draft {
    pub source: Seq<char>,
    pub line: nat,
    pub graph: Option<Seq<char>>,
}

/// One segment of the result: events to keep, or a block with its index.
pub enum Piece<'a> {
    Events(Seq<MdItem<'a>>),
    Block(Draft, nat),
}

/// The extractor's state after some events.
pub struct Scan<'a> {
    /// Segments completed so far.
    pub pieces: Seq<Piece<'a>>,
    /// Events waiting to be passed through, while no block is open.
    pub passing: Seq<MdItem<'a>>,
    /// The block being read, if one is open.
    pub building: Option<Draft>,
    /// The index that the next block will get.
    pub next: nat,
}

/// An info string selects a block when its leading characters are the prefix.
pub open spec fn fence_matches(info: Seq<char>, prefix: Seq<char>) -> bool {
    prefix.len() <= info.len() && info.subrange(0, prefix.len() as int) == prefix
}

/// The trimmed text after the prefix, if there is any.
pub open spec fn graph_name_of(info: Seq<char>, prefix: Seq<char>) -> Option<Seq<char>> {
    let t = trimmed(info.subrange(prefix.len() as int, info.len() as int));
    if t.len() == 0 {
        None
    } else {
        Some(t)
    }
}

pub open spec fn newlines(b: Seq<u8>) -> nat
    decreases b.len(),
{
    if b.len() == 0 {
        0
    } else {
        newlines(b.drop_last()) + if b.last() == 10u8 {
            1nat
        } else {
            0nat
        }
    }
}

/// The line shown for a fence at `offset`: the newlines before it, plus one because
/// lines count from 1 and one for the fence itself.
pub open spec fn fence_line(bytes: Seq<u8>, offset: nat) -> nat {
    newlines(bytes.subrange(0, if offset < bytes.len() { offset as int } else { bytes.len() as int }))
        + 2
}

pub open spec fn initial_scan<'a>() -> Scan<'a> {
    Scan { pieces: Seq::empty(), passing: Seq::empty(), building: None, next: 0 }
}

/// The extractor's transition on one event.
pub open spec fn scan_step<'a>(s: Scan<'a>, item: MdItem<'a>, bytes: Seq<u8>, prefix: Seq<char>) -> Scan<'a> {
    match s.building {
        Some(d) => match item_kind(item) {
            EventKind::Text(t) => Scan {
                building: Some(Draft { source: d.source + t@, ..d }),
                ..s
            },
            EventKind::CodeBlockEnd => Scan {
                pieces: s.pieces.push(Piece::Block(d, s.next)),
                passing: Seq::empty(),
                building: None,
                next: s.next + 1,
            },
            _ => s,
        },
        None => match item_kind(item) {
            EventKind::FencedCodeStart(info) => if fence_matches(info@, prefix) {
                Scan {
                    pieces: s.pieces.push(Piece::Events(s.passing)),
                    passing: Seq::empty(),
                    building: Some(
                        Draft {
                            source: Seq::empty(),
                            line: fence_line(bytes, item_offset(item) as nat),
                            graph: graph_name_of(info@, prefix),
                        },
                    ),
                    next: s.next,
                }
            } else {
                Scan { passing: s.passing.push(item), ..s }
            },
            _ => Scan { passing: s.passing.push(item), ..s },
        },
    }
}

pub open spec fn scan<'a>(items: Seq<MdItem<'a>>, bytes: Seq<u8>, prefix: Seq<char>) -> Scan<'a>
    decreases items.len(),
{
    if items.len() == 0 {
        initial_scan()
    } else {
        scan_step(scan(items.drop_last(), bytes, prefix), items.last(), bytes, prefix)
    }
}

/// The segments once the events run out: an open block is closed where the chapter
/// ends, and pending events become a last segment.
pub open spec fn finish<'a>(s: Scan<'a>) -> Seq<Piece<'a>> {
    match s.building {
        Some(d) => s.pieces.push(Piece::Block(d, s.next)),
        None => if s.passing.len() > 0 {
            s.pieces.push(Piece::Events(s.passing))
        } else {
            s.pieces
        },
    }
}

/// A segment of a chapter: events to re-emit as they are, or a block to render.
pub enum Segment<'a> {
    Events(Vec<MdItem<'a>>),
    Block(SvgBlock),
}

pub open spec fn draft_of_builder(b: SvgBlockBuilder) -> Draft {
    Draft { source: b.source_code@, line: b.source_code_initial_line as nat, graph: opt_view(b.graph_name) }
}

pub open spec fn piece_of<'a>(s: Segment<'a>) -> Piece<'a> {
    match s {
        Segment::Events(v) => Piece::Events(v@),
        Segment::Block(b) => Piece::Block(
            Draft { source: b.source_code@, line: b.source_code_initial_line as nat, graph: opt_view(b.graph_name) },
            b.index as nat,
        ),
    }
}

pub open spec fn pieces_of<'a>(v: Seq<Segment<'a>>) -> Seq<Piece<'a>> {
    v.map_values(|s: Segment<'a>| piece_of(s))
}

/// The block carries the chapter's data.
pub open spec fn block_in_chapter(b: SvgBlock, info: ChapterInfo) -> bool {
    &&& b.chapter_name@ == info.name@
    &&& b.book_path@ == info.book_path@
    &&& b.chapter_relative_path@ == info.relative_path@
    &&& b.preprocessor_name@ == info.preprocessor_name@
}

pub open spec fn builder_in_chapter(b: SvgBlockBuilder, info: ChapterInfo) -> bool {
    &&& b.chapter_name@ == info.name@
    &&& b.book_path@ == info.book_path@
    &&& b.chapter_relative_path@ == info.relative_path@
    &&& b.preprocessor_name@ == info.preprocessor_name@
}

pub open spec fn segments_in_chapter<'a>(v: Seq<Segment<'a>>, info: ChapterInfo) -> bool {
    forall|j: int| 0 <= j < v.len() ==> match #[trigger] v[j] {
        Segment::Block(b) => block_in_chapter(b, info),
        Segment::Events(_) => true,
    }
}

/// The segments of a chapter, and whether its last block was never closed.
pub struct Extraction<'a> {
    pub segments: Vec<Segment<'a>>,
    pub unclosed: bool,
}

enum ParsingState<'a> {
    BuildingBlock(SvgBlockBuilder),
    PassingEvents(Vec<MdItem<'a>>),
}

fn starts_with(s: &Vec<char>, p: &Vec<char>) -> (r: bool)
    ensures
        r == fence_matches(s@, p@),
{
    if p.len() > s.len() {
        return false;
    }
    let mut i: usize = 0;
    while i < p.len()
        invariant
            p@.len() <= s@.len(),
            i <= p@.len(),
            forall|j: int| 0 <= j < i ==> s@[j] == p@[j],
        decreases p.len() - i,
    {
        if s[i] != p[i] {
            assert(s@.subrange(0, p@.len() as int)[i as int] != p@[i as int]);
            return false;
        }
        i = i + 1;
    }
    assert(s@.subrange(0, p@.len() as int) =~= p@);
    true
}

fn count_fence_line(bytes: &[u8], offset: usize) -> (r: usize)
    requires
        bytes@.len() + 2 <= usize::MAX,
    ensures
        r == fence_line(bytes@, offset as nat),
{
    let end: usize = if offset < bytes.len() { offset } else { bytes.len() };
    let mut i: usize = 0;
    let mut n: usize = 0;
    while i < end
        invariant
            end <= bytes@.len(),
            bytes@.len() + 2 <= usize::MAX,
            i <= end,
            n <= i,
            n == newlines(bytes@.subrange(0, i as int)),
        decreases end - i,
    {
        assert(bytes@.subrange(0, i + 1).drop_last() =~= bytes@.subrange(0, i as int));
        if bytes[i] == 10u8 {
            n = n + 1;
        }
        i = i + 1;
    }
    n + 2
}

/// The trimmed text after the prefix of a matching info string, if there is any.
fn graph_name(info: &Vec<char>, prefix_len: usize) -> (r: Option<String>)
    requires
        prefix_len <= info@.len(),
    ensures
        opt_view(r) == graph_name_of(info@, info@.subrange(0, prefix_len as int)),
{
    let rest = crate::text::slice_chars(info, prefix_len, info.len());
    let t = trim_chars(&rest);
    if t.len() == 0 {
        None
    } else {
        Some(string_of(&t))
    }
}

/// Runs the block-extraction state machine over a chapter's events. A fenced code
/// block whose info string starts with `prefix` becomes a block; every other event is
/// passed through in order.
pub fn extract_blocks<'a>(items: Vec<MdItem<'a>>, content: &str, prefix: &str, info: &ChapterInfo) -> (r: Extraction<'a>)
    requires
        content.spec_bytes().len() + 2 <= usize::MAX,
    ensures
        pieces_of(r.segments@) == finish(scan(items@, content.spec_bytes(), prefix@)),
        r.unclosed == scan(items@, content.spec_bytes(), prefix@).building is Some,
        segments_in_chapter(r.segments@, *info),
{
    let ghost orig = items@;
    let ghost bytes = content.spec_bytes();
    let bs = content.as_bytes();
    let pre = chars_of(prefix);
    let n = items.len();
    let mut items = items;
    let mut rev: Vec<MdItem<'a>> = Vec::new();
    while items.len() > 0
        invariant
            items@ == orig.subrange(0, items@.len() as int),
            rev@.len() + items@.len() == orig.len(),
            forall|j: int| 0 <= j < rev@.len() ==> #[trigger] rev@[j] == orig[orig.len() - 1 - j],
        decreases items.len(),
    {
        let it = items.pop().unwrap();
        rev.push(it);
        assert(items@ =~= orig.subrange(0, items@.len() as int));
    }

    let mut segments: Vec<Segment<'a>> = Vec::new();
    let mut state: ParsingState<'a> = ParsingState::PassingEvents(Vec::new());
    let mut next: usize = 0;
    let mut i: usize = 0;
    while rev.len() > 0
        invariant
            n == orig.len(),
            i + rev@.len() == n,
            bytes == bs@,
            bytes.len() + 2 <= usize::MAX,
            pre@ == prefix@,
            forall|j: int| 0 <= j < rev@.len() ==> #[trigger] rev@[j] == orig[n - 1 - j],
            next <= i,
            pieces_of(segments@) == scan(orig.subrange(0, i as int), bytes, prefix@).pieces,
            next == scan(orig.subrange(0, i as int), bytes, prefix@).next,
            segments_in_chapter(segments@, *info),
            match state {
                ParsingState::BuildingBlock(b) => {
                    &&& scan(orig.subrange(0, i as int), bytes, prefix@).building == Some(draft_of_builder(b))
                    &&& builder_in_chapter(b, *info)
                },
                ParsingState::PassingEvents(v) => {
                    &&& scan(orig.subrange(0, i as int), bytes, prefix@).building is None
                    &&& scan(orig.subrange(0, i as int), bytes, prefix@).passing == v@
                },
            },
        decreases rev.len(),
    {
        let item = rev.pop().unwrap();
        let ghost before = scan(orig.subrange(0, i as int), bytes, prefix@);
        proof {
            assert(item == orig[i as int]);
            assert(orig.subrange(0, i + 1).drop_last() =~= orig.subrange(0, i as int));
            assert(orig.subrange(0, i + 1).last() == item);
        }
        let ghost after = scan_step(before, item, bytes, prefix@);
        let offset = item.offset();
        match state {
            ParsingState::BuildingBlock(mut builder) => {
                match item.kind() {
                    EventKind::Text(t) => {
                        builder.append_source_code(t.as_str());
                        state = ParsingState::BuildingBlock(builder);
                    },
                    EventKind::CodeBlockEnd => {
                        let block = builder.build(next);
                        segments.push(Segment::Block(block));
                        proof {
                            assert(pieces_of(segments@) =~= after.pieces);
                        }
                        next = next + 1;
                        state = ParsingState::PassingEvents(Vec::new());
                    },
                    _ => {
                        state = ParsingState::BuildingBlock(builder);
                    },
                }
            },
            ParsingState::PassingEvents(mut events) => {
                let fence: Option<Vec<char>> = match item.kind() {
                    EventKind::FencedCodeStart(info_string) => {
                        let chars = chars_of(info_string.as_str());
                        if starts_with(&chars, &pre) {
                            Some(chars)
                        } else {
                            None
                        }
                    },
                    _ => None,
                };
                match fence {
                    Some(chars) => {
                        proof {
                            assert(chars@.subrange(0, pre@.len() as int) == pre@);
                        }
                        let line = count_fence_line(bs, offset);
                        let graph = graph_name(&chars, pre.len());
                        let builder = SvgBlockBuilder::new(
                            string_of(&chars_of(info.name.as_str())),
                            string_of(&chars_of(info.book_path.as_str())),
                            string_of(&chars_of(info.relative_path.as_str())),
                            string_of(&chars_of(info.preprocessor_name.as_str())),
                            graph,
                            line,
                        );
                        segments.push(Segment::Events(events));
                        proof {
                            assert(pieces_of(segments@) =~= after.pieces);
                        }
                        state = ParsingState::BuildingBlock(builder);
                    },
                    None => {
                        events.push(item);
                        state = ParsingState::PassingEvents(events);
                    },
                }
            },
        }
        i = i + 1;
        proof {
            assert(scan(orig.subrange(0, i as int), bytes, prefix@) == after);
        }
    }
    proof {
        assert(orig.subrange(0, n as int) =~= orig);
    }
    let ghost last = scan(orig, bytes, prefix@);
    let unclosed = match state {
        ParsingState::BuildingBlock(builder) => {
            let block = builder.build(next);
            segments.push(Segment::Block(block));
            assert(pieces_of(segments@) =~= finish(last));
            true
        },
        ParsingState::PassingEvents(events) => {
            if events.len() > 0 {
                segments.push(Segment::Events(events));
                assert(pieces_of(segments@) =~= finish(last));
            }
            false
        },
    };
    Extraction { segments, unclosed }
}

/// Parses a chapter and runs the extractor over its events: the segments are those
/// that the state machine gives for the events the parser returned.
pub fn extract_chapter<'a>(content: &'a str, prefix: &str, info: &ChapterInfo) -> (r: Extraction<'a>)
    requires
        content.spec_bytes().len() + 2 <= usize::MAX,
    ensures
        exists|items: Seq<MdItem<'a>>|
            outline_of(items) == markdown_outline(content@) && pieces_of(r.segments@) == finish(
                #[trigger] scan(items, content.spec_bytes(), prefix@),
            ) && r.unclosed == scan(items, content.spec_bytes(), prefix@).building is Some,
        segments_in_chapter(r.segments@, *info),
{
    let items = crate::md::parse_markdown(content);
    let ghost parsed = items@;
    let r = extract_blocks(items, content, prefix, info);
    assert(pieces_of(r.segments@) == finish(scan(parsed, content.spec_bytes(), prefix@)));
    r
}

/// The event does not open a block for `prefix`.
pub open spec fn opens_no_block<'a>(item: MdItem<'a>, prefix: Seq<char>) -> bool {
    match item_kind(item) {
        EventKind::FencedCodeStart(info) => !fence_matches(info@, prefix),
        _ => true,
    }
}


proof fn lemma_scan_without_blocks<'a>(items: Seq<MdItem<'a>>, bytes: Seq<u8>, prefix: Seq<char>)
    requires
        forall|i: int| 0 <= i < items.len() ==> opens_no_block(#[trigger] items[i], prefix),
    ensures
        scan(items, bytes, prefix) == (Scan { pieces: Seq::empty(), passing: items, building: None, next: 0 }),
    decreases items.len(),
{
    if items.len() > 0 {
        let init = items.drop_last();
        assert forall|i: int| 0 <= i < init.len() implies opens_no_block(#[trigger] init[i], prefix) by {
            assert(init[i] == items[i]);
        }
        lemma_scan_without_blocks(init, bytes, prefix);
        assert(opens_no_block(items[items.len() - 1], prefix));
        assert(items =~= init.push(items.last()));
    } else {
        assert(items =~= Seq::<MdItem<'a>>::empty());
    }
}

/// A chapter with no block for `prefix` comes out as it went in: all of its events,
/// in order, in one segment (none when it has no events).
pub proof fn lemma_unmatched_chapter_unchanged<'a>(items: Seq<MdItem<'a>>, bytes: Seq<u8>, prefix: Seq<char>)
    requires
        forall|i: int| 0 <= i < items.len() ==> opens_no_block(#[trigger] items[i], prefix),
    ensures
        finish(scan(items, bytes, prefix)) == if items.len() == 0 {
            Seq::<Piece<'a>>::empty()
        } else {
            seq![Piece::Events(items)]
        },
{
    lemma_scan_without_blocks(items, bytes, prefix);
    if items.len() > 0 {
        assert(items.len() > 0);
        assert(finish(scan(items, bytes, prefix)) =~= seq![Piece::Events(items)]);
    }
}

/// The indices of the blocks among the segments, in order.
pub open spec fn block_indices<'a>(pieces: Seq<Piece<'a>>) -> Seq<nat>
    decreases pieces.len(),
{
    if pieces.len() == 0 {
        Seq::empty()
    } else {
        match pieces.last() {
            Piece::Block(_, k) => block_indices(pieces.drop_last()).push(k),
            Piece::Events(_) => block_indices(pieces.drop_last()),
        }
    }
}

pub open spec fn first_naturals(n: nat) -> Seq<nat> {
    Seq::new(n, |j: int| j as nat)
}

proof fn lemma_scan_indices<'a>(items: Seq<MdItem<'a>>, bytes: Seq<u8>, prefix: Seq<char>)
    ensures
        block_indices(scan(items, bytes, prefix).pieces) == first_naturals(scan(items, bytes, prefix).next),
    decreases items.len(),
{
    if items.len() == 0 {
        assert(first_naturals(0) =~= Seq::<nat>::empty());
    } else {
        let s = scan(items.drop_last(), bytes, prefix);
        lemma_scan_indices(items.drop_last(), bytes, prefix);
        let t = scan(items, bytes, prefix);
        assert(t == scan_step(s, items.last(), bytes, prefix));
        if t.pieces.len() > s.pieces.len() {
            assert(t.pieces.drop_last() =~= s.pieces);
            assert(block_indices(t.pieces) =~= first_naturals(t.next));
        } else {
            assert(t.pieces == s.pieces);
        }
    }
}

/// Blocks are numbered 0, 1, 2, ... in the order in which they stand in the chapter,
/// so the same chapter always gives the same indices (and the same file names).
pub proof fn lemma_block_indices_sequential<'a>(items: Seq<MdItem<'a>>, bytes: Seq<u8>, prefix: Seq<char>)
    ensures
        block_indices(finish(scan(items, bytes, prefix))) == first_naturals(
            block_indices(finish(scan(items, bytes, prefix))).len(),
        ),
{
    let s = scan(items, bytes, prefix);
    lemma_scan_indices(items, bytes, prefix);
    let f = finish(s);
    if f.len() > s.pieces.len() {
        assert(f.drop_last() =~= s.pieces);
    }
    assert(block_indices(f) =~= first_naturals(block_indices(f).len()));
}

/// The extractor's state after `items`, starting from `s`.
pub open spec fn scan_from<'a>(s: Scan<'a>, items: Seq<MdItem<'a>>, bytes: Seq<u8>, prefix: Seq<char>) -> Scan<'a>
    decreases items.len(),
{
    if items.len() == 0 {
        s
    } else {
        scan_step(scan_from(s, items.drop_last(), bytes, prefix), items.last(), bytes, prefix)
    }
}

proof fn lemma_scan_is_scan_from<'a>(items: Seq<MdItem<'a>>, bytes: Seq<u8>, prefix: Seq<char>)
    ensures
        scan(items, bytes, prefix) == scan_from(initial_scan(), items, bytes, prefix),
    decreases items.len(),
{
    if items.len() > 0 {
        lemma_scan_is_scan_from(items.drop_last(), bytes, prefix);
    }
}

proof fn lemma_scan_from_append<'a>(s: Scan<'a>, x: Seq<MdItem<'a>>, y: Seq<MdItem<'a>>, bytes: Seq<u8>, prefix: Seq<char>)
    ensures
        scan_from(s, x + y, bytes, prefix) == scan_from(scan_from(s, x, bytes, prefix), y, bytes, prefix),
    decreases y.len(),
{
    if y.len() == 0 {
        assert(x + y =~= x);
    } else {
        assert((x + y).drop_last() =~= x + y.drop_last());
        lemma_scan_from_append(s, x, y.drop_last(), bytes, prefix);
    }
}

proof fn lemma_passing_run<'a>(s: Scan<'a>, q: Seq<MdItem<'a>>, bytes: Seq<u8>, prefix: Seq<char>)
    requires
        s.building is None,
        forall|i: int| 0 <= i < q.len() ==> opens_no_block(#[trigger] q[i], prefix),
    ensures
        scan_from(s, q, bytes, prefix) == (Scan { passing: s.passing + q, ..s }),
    decreases q.len(),
{
    if q.len() == 0 {
        assert(s.passing + q =~= s.passing);
    } else {
        let init = q.drop_last();
        assert forall|i: int| 0 <= i < init.len() implies opens_no_block(#[trigger] init[i], prefix) by {
            assert(init[i] == q[i]);
        }
        lemma_passing_run(s, init, bytes, prefix);
        assert(opens_no_block(q[q.len() - 1], prefix));
        assert(s.passing + q =~= (s.passing + init).push(q.last()));
    }
}

/// The text that the events of a code block carry.
pub open spec fn block_text<'a>(body: Seq<MdItem<'a>>) -> Seq<char>
    decreases body.len(),
{
    if body.len() == 0 {
        Seq::empty()
    } else {
        block_text(body.drop_last()) + match item_kind(body.last()) {
            EventKind::Text(t) => t@,
            _ => Seq::empty(),
        }
    }
}

proof fn lemma_building_run<'a>(s: Scan<'a>, body: Seq<MdItem<'a>>, bytes: Seq<u8>, prefix: Seq<char>)
    requires
        s.building is Some,
        forall|i: int| 0 <= i < body.len() ==> !(item_kind(#[trigger] body[i]) is CodeBlockEnd),
    ensures
        scan_from(s, body, bytes, prefix) == (Scan {
            building: Some(Draft { source: s.building->0.source + block_text(body), ..s.building->0 }),
            ..s
        }),
    decreases body.len(),
{
    if body.len() == 0 {
        assert(s.building->0.source + block_text(body) =~= s.building->0.source);
    } else {
        let init = body.drop_last();
        assert forall|i: int| 0 <= i < init.len() implies !(item_kind(#[trigger] init[i]) is CodeBlockEnd) by {
            assert(init[i] == body[i]);
        }
        lemma_building_run(s, init, bytes, prefix);
        assert(!(item_kind(body[body.len() - 1]) is CodeBlockEnd));
        let t = match item_kind(body.last()) {
            EventKind::Text(t) => t@,
            _ => Seq::empty(),
        };
        assert(s.building->0.source + block_text(body) =~= (s.building->0.source + block_text(init)) + t);
    }
}

/// A chapter with one block for `prefix` and nothing else to render gives, in order:
/// the events before the fence, the block (its text, the fence's line, its name,
/// index 0), and the events after the fence's end when there are any. Every other
/// event is kept, in its place.
pub proof fn lemma_single_block_chapter<'a>(
    before: Seq<MdItem<'a>>,
    fence: MdItem<'a>,
    body: Seq<MdItem<'a>>,
    end: MdItem<'a>,
    after: Seq<MdItem<'a>>,
    bytes: Seq<u8>,
    prefix: Seq<char>,
)
    requires
        forall|i: int| 0 <= i < before.len() ==> opens_no_block(#[trigger] before[i], prefix),
        item_kind(fence) matches EventKind::FencedCodeStart(info) && fence_matches(info@, prefix),
        forall|i: int| 0 <= i < body.len() ==> !(item_kind(#[trigger] body[i]) is CodeBlockEnd),
        item_kind(end) is CodeBlockEnd,
        forall|i: int| 0 <= i < after.len() ==> opens_no_block(#[trigger] after[i], prefix),
    ensures
        finish(scan(before + seq![fence] + body + seq![end] + after, bytes, prefix)) == seq![
            Piece::Events(before),
            Piece::Block(
                Draft {
                    source: block_text(body),
                    line: fence_line(bytes, item_offset(fence) as nat),
                    graph: graph_name_of(item_kind(fence)->FencedCodeStart_0@, prefix),
                },
                0,
            ),
        ] + if after.len() > 0 {
            seq![Piece::Events(after)]
        } else {
            Seq::empty()
        },
{
    let items = before + seq![fence] + body + seq![end] + after;
    lemma_scan_is_scan_from(items, bytes, prefix);
    lemma_scan_from_append(initial_scan(), before + seq![fence] + body + seq![end], after, bytes, prefix);
    lemma_scan_from_append(initial_scan(), before + seq![fence] + body, seq![end], bytes, prefix);
    lemma_scan_from_append(initial_scan(), before + seq![fence], body, bytes, prefix);
    lemma_scan_from_append(initial_scan(), before, seq![fence], bytes, prefix);
    lemma_passing_run(initial_scan(), before, bytes, prefix);
    assert(Seq::<MdItem<'a>>::empty() + before =~= before);
    let s1 = scan_from(initial_scan(), before, bytes, prefix);
    let none = Seq::<MdItem<'a>>::empty();
    assert(seq![fence].drop_last() =~= none);
    assert(seq![fence].last() == fence);
    assert(scan_from(s1, none, bytes, prefix) == s1);
    let s2 = scan_from(s1, seq![fence], bytes, prefix);
    assert(s2 == scan_step(s1, fence, bytes, prefix));
    lemma_building_run(s2, body, bytes, prefix);
    let s3 = scan_from(s2, body, bytes, prefix);
    assert(Seq::<char>::empty() + block_text(body) =~= block_text(body));
    assert(seq![end].drop_last() =~= none);
    assert(seq![end].last() == end);
    assert(scan_from(s3, none, bytes, prefix) == s3);
    let s4 = scan_from(s3, seq![end], bytes, prefix);
    assert(s4 == scan_step(s3, end, bytes, prefix));
    lemma_passing_run(s4, after, bytes, prefix);
    let s5 = scan_from(s4, after, bytes, prefix);
    assert(Seq::<MdItem<'a>>::empty() + after =~= after);
    let expected = seq![
        Piece::Events(before),
        Piece::Block(
            Draft {
                source: block_text(body),
                line: fence_line(bytes, item_offset(fence) as nat),
                graph: graph_name_of(item_kind(fence)->FencedCodeStart_0@, prefix),
            },
            0,
        ),
    ];
    assert(s4.pieces =~= expected);
    if after.len() > 0 {
        assert(after.len() > 0);
        assert(finish(s5) =~= expected + seq![Piece::Events(after)]);
    } else {
        assert(after =~= Seq::<MdItem<'a>>::empty());
        assert(finish(s5) =~= expected + Seq::empty());
    }
}

/// The blocks among the segments, each with its index, in order.
pub open spec fn blocks_of<'a>(pieces: Seq<Piece<'a>>) -> Seq<(Draft, nat)>
    decreases pieces.len(),
{
    if pieces.len() == 0 {
        Seq::empty()
    } else {
        match pieces.last() {
            Piece::Block(d, k) => blocks_of(pieces.drop_last()).push((d, k)),
            Piece::Events(_) => blocks_of(pieces.drop_last()),
        }
    }
}

proof fn lemma_scan_blocks_follow_outline<'a>(x: Seq<MdItem<'a>>, y: Seq<MdItem<'a>>, bytes: Seq<u8>, prefix: Seq<char>)
    requires
        outline_of(x) == outline_of(y),
    ensures
        blocks_of(scan(x, bytes, prefix).pieces) == blocks_of(scan(y, bytes, prefix).pieces),
        scan(x, bytes, prefix).building == scan(y, bytes, prefix).building,
        scan(x, bytes, prefix).next == scan(y, bytes, prefix).next,
        scan(x, bytes, prefix).passing.len() == scan(y, bytes, prefix).passing.len(),
    decreases x.len(),
{
    assert(x.len() == outline_of(x).len() && y.len() == outline_of(y).len());
    if x.len() > 0 {
        assert(outline_of(x.drop_last()) =~= outline_of(x).drop_last());
        assert(outline_of(y.drop_last()) =~= outline_of(y).drop_last());
        lemma_scan_blocks_follow_outline(x.drop_last(), y.drop_last(), bytes, prefix);
        let a = x.last();
        let b = y.last();
        assert(outline_of(x)[x.len() - 1] == outline_of(y)[y.len() - 1]);
        assert(kind_view_eq(item_kind(a), item_kind(b))) by {
            assert(kind_view(item_kind(a)) == kind_view(item_kind(b)));
        }
        let sx = scan(x.drop_last(), bytes, prefix);
        let sy = scan(y.drop_last(), bytes, prefix);
        let tx = scan(x, bytes, prefix);
        let ty = scan(y, bytes, prefix);
        if tx.pieces.len() > sx.pieces.len() {
            assert(tx.pieces.drop_last() =~= sx.pieces);
        }
        if ty.pieces.len() > sy.pieces.len() {
            assert(ty.pieces.drop_last() =~= sy.pieces);
        }
    }
}

/// Two kinds with equal views carry the same text.
pub open spec fn kind_view_eq(a: EventKind, b: EventKind) -> bool {
    match (a, b) {
        (EventKind::FencedCodeStart(x), EventKind::FencedCodeStart(y)) => x@ == y@,
        (EventKind::Text(x), EventKind::Text(y)) => x@ == y@,
        (EventKind::CodeBlockEnd, EventKind::CodeBlockEnd) => true,
        (EventKind::Other, EventKind::Other) => true,
        _ => false,
    }
}

/// Extraction depends on the chapter's text alone: two runs over events with the
/// same outline (as two parses of one text have) give the same blocks, with the same
/// sources, lines, names and indices, and so the same file names.
pub proof fn lemma_extraction_deterministic<'a>(x: Seq<MdItem<'a>>, y: Seq<MdItem<'a>>, bytes: Seq<u8>, prefix: Seq<char>)
    requires
        outline_of(x) == outline_of(y),
    ensures
        blocks_of(finish(scan(x, bytes, prefix))) == blocks_of(finish(scan(y, bytes, prefix))),
{
    lemma_scan_blocks_follow_outline(x, y, bytes, prefix);
    let sx = scan(x, bytes, prefix);
    let sy = scan(y, bytes, prefix);
    let fx = finish(sx);
    let fy = finish(sy);
    if fx.len() > sx.pieces.len() {
        assert(fx.drop_last() =~= sx.pieces);
    }
    if fy.len() > sy.pieces.len() {
        assert(fy.drop_last() =~= sy.pieces);
    }
}

} // verus!
