use mdbook_svg_inline::extract::extract_chapter;
use mdbook_svg_inline::md::serialize_chapter;
use mdbook_svg_inline::{ChapterInfo, Extraction, GraphvizBlock, MdItem, Segment};
use pulldown_cmark::{CodeBlockKind, CowStr, Event, Tag};

fn info() -> ChapterInfo {
    ChapterInfo {
        name: "Test Chapter".to_string(),
        book_path: "".to_string(),
        relative_path: "./book/chapter.md".to_string(),
        preprocessor_name: "test".to_string(),
    }
}

fn extract<'a>(content: &'a str, prefix: &str) -> Extraction<'a> {
    extract_chapter(content, prefix, &info())
}

fn passed_events<'a>(ex: Extraction<'a>) -> Vec<MdItem<'a>> {
    let mut out = vec![];
    for s in ex.segments {
        match s {
            Segment::Events(v) => out.extend(v),
            Segment::Block(_) => panic!("no block expected"),
        }
    }
    out
}

#[test]
fn preprocessor_only_preprocess_flagged_blocks() {
    let expected = "# Chapter\n\n````svg\ndigraph Test {\n    a -> b\n}\n````";
    let ex = extract(expected, "svg process");
    assert!(!ex.unclosed);
    assert_eq!(ex.segments.len(), 1);
    let content = serialize_chapter(vec![passed_events(ex)]).unwrap();
    assert_eq!(content, expected);
}

#[test]
fn preprocessor_do_not_preprocess_flagged_blocks_without_custom_flag() {
    let expected = "# Chapter\n\n````dot\ndigraph Test {\n    a -> b\n}\n````";
    let ex = extract(expected, "graphviz");
    let content = serialize_chapter(vec![passed_events(ex)]).unwrap();
    assert_eq!(content, expected);
}

#[test]
fn chapter_without_events_has_no_segments() {
    let ex = extract("", "dot process");
    assert_eq!(ex.segments.len(), 0);
    assert!(!ex.unclosed);
}

#[test]
fn single_block_replaces_fence_and_keeps_the_rest_in_order() {
    let content = "# Title\n\npara\n\n```dot process\ncode\n```\n\nafter\n";
    let ex = extract(content, "dot process");
    assert_eq!(ex.segments.len(), 3);
    match &ex.segments[0] {
        Segment::Events(v) => {
            assert_eq!(*v[0].event(), Event::Start(Tag::Heading {
                level: pulldown_cmark::HeadingLevel::H1,
                id: None,
                classes: vec![],
                attrs: vec![],
            }));
            assert!(v.iter().any(|i| *i.event() == Event::Text(CowStr::from("para"))));
        }
        _ => panic!("events expected first"),
    }
    match &ex.segments[1] {
        Segment::Block(b) => {
            assert_eq!(b.source_code(), "code\n");
            assert_eq!(b.graph_name(), None);
            assert_eq!(b.index, 0);
            assert_eq!(b.source_code_initial_line, 6);
        }
        _ => panic!("block expected second"),
    }
    match &ex.segments[2] {
        Segment::Events(v) => assert!(v.iter().any(|i| *i.event() == Event::Text(CowStr::from("after")))),
        _ => panic!("events expected last"),
    }
}

#[test]
fn fence_line_counts_newlines_before_it() {
    let content = "# Chapter\n```dot process\ndigraph Test {\n    a -> b\n}\n```\n";
    let ex = extract(content, "dot process");
    match &ex.segments[1] {
        Segment::Block(b) => {
            assert_eq!(b.source_code_initial_line, 3);
            assert_eq!(b.location_string(None, None), "./book/chapter.md(3)");
            assert_eq!(b.location_string(Some(1), Some(2)), "./book/chapter.md(4:5)");
        }
        _ => panic!("block expected"),
    }
}

#[test]
fn block_names_and_sources() {
    let content = "# Chapter\n```dot process Graph Name\ndigraph Test {\n    a -> b\n}\n```\n";
    let ex = extract(content, "dot process");
    match &ex.segments[1] {
        Segment::Block(b) => {
            assert_eq!(b.graph_name(), Some("Graph Name".to_string()));
            assert_eq!(b.svg_file_name(None), "test_chapter_graph_name_test_0.generated.svg");
            assert_eq!(b.source_code(), "digraph Test {\n    a -> b\n}\n");
        }
        _ => panic!("block expected"),
    }
}

#[test]
fn unnamed_block() {
    let content = "# Chapter\n```dot process\ndigraph Test {\n    a -> b\n}\n```\n";
    let ex = extract(content, "dot process");
    match &ex.segments[1] {
        Segment::Block(b) => {
            assert_eq!(b.graph_name(), None);
            assert_eq!(b.svg_file_name(None), "test_chapter_test_0.generated.svg");
        }
        _ => panic!("block expected"),
    }
}

#[test]
fn prefix_is_matched_on_leading_characters() {
    let content = "```dot processing\nx\n```\n";
    let ex = extract(content, "dot process");
    match &ex.segments[1] {
        Segment::Block(b) => assert_eq!(b.graph_name(), Some("ing".to_string())),
        _ => panic!("block expected"),
    }
    let ex = extract("```dot\nx\n```\n", "dot process");
    assert_eq!(ex.segments.len(), 1);
}

#[test]
fn blocks_are_numbered_in_document_order() {
    let content = "# C\n\n```dot process Alpha\na\n```\n\ntext\n\n```dot process\nb\n```\n";
    let ex = extract(content, "dot process");
    let blocks: Vec<_> = ex
        .segments
        .iter()
        .filter_map(|s| match s {
            Segment::Block(b) => Some(b),
            _ => None,
        })
        .collect();
    assert_eq!(blocks.len(), 2);
    assert_eq!(blocks[0].index, 0);
    assert_eq!(blocks[1].index, 1);
    let again = extract(content, "dot process");
    let names: Vec<String> = again
        .segments
        .iter()
        .filter_map(|s| match s {
            Segment::Block(b) => Some(b.svg_file_name(None)),
            _ => None,
        })
        .collect();
    assert_eq!(names, vec![blocks[0].svg_file_name(None), blocks[1].svg_file_name(None)]);
}

#[test]
fn sibling_blocks_file_names() {
    let content = "# C\n\n```dot process Alpha\na\n```\n\n```dot process\nb\n```\n";
    let ex = extract(content, "dot process");
    let mut names = vec![];
    for s in &ex.segments {
        if let Segment::Block(b) = s {
            let g = GraphvizBlock {
                graph_name: b.graph_name().unwrap_or_default(),
                code: b.source_code().to_string(),
                chapter_name: b.chapter_name.clone(),
                chapter_path: "".to_string(),
                index: b.index,
            };
            names.push(g.file_name());
        }
    }
    assert_eq!(names, vec!["test_chapter_alpha_0.generated.svg", "test_chapter_1.generated.svg"]);
}

#[test]
fn unclosed_block_is_still_emitted() {

    let items = vec![
        MdItem::new(Event::Start(Tag::CodeBlock(CodeBlockKind::Fenced(CowStr::from("dot process")))), 0),
        MdItem::new(Event::Text(CowStr::from("a -> b")), 15),
    ];
    let ex = mdbook_svg_inline::extract::extract_blocks(items, "```dot process\na -> b", "dot process", &info());
    assert!(ex.unclosed);
    assert_eq!(ex.segments.len(), 2);
    match &ex.segments[1] {
        Segment::Block(b) => {
            assert_eq!(b.source_code(), "a -> b");
            assert_eq!(b.source_code_initial_line, 2);
        }
        _ => panic!("block expected"),
    }
}
