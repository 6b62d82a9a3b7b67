use mdbook_svg_inline::compose::{compose, compose_html, compose_md, render_outputs};
use mdbook_svg_inline::extract::extract_chapter;
use mdbook_svg_inline::md::{serialize_chapter, to_events};
use mdbook_svg_inline::{ChapterInfo, OutEvent, Segment, SvgBlock, SvgBlockBuilder, SvgOutput, SvgRendererSharedConfig};
use pulldown_cmark::{Event, Tag, TagEnd};


fn config(renderer: &str, output_to_file: bool, link_to_file: bool) -> SvgRendererSharedConfig {
    SvgRendererSharedConfig {
        info_string: "svg".to_string(),
        renderer: renderer.to_string(),
        copy_js: None,
        copy_css: None,
        output_to_file,
        link_to_file,
    }
}

fn test_block() -> SvgBlock {
    SvgBlockBuilder::new(
        "Name".to_string(),
        "test-output".to_string(),
        "chapter.md".to_string(),
        "svg".to_string(),
        Some("graph".to_string()),
        0,
    )
    .build(0)
}

fn outputs(n: usize, relative: bool) -> Vec<SvgOutput> {
    (0..n)
        .map(|i| SvgOutput {
            relative_id: if relative { Some(format!("{i}")) } else { None },
            title: format!("Test {i}"),
            source: String::new(),
        })
        .collect()
}

fn html_of(events: &[OutEvent]) -> String {
    assert_eq!(events.len(), 3);
    assert!(matches!(&events[0], OutEvent::Text(t) if t == "\n\n"));
    assert!(matches!(&events[2], OutEvent::Text(t) if t == "\n\n"));
    match &events[1] {
        OutEvent::Html(h) => h.clone(),
        _ => panic!("html expected"),
    }
}

#[test]
fn html_inline_events_single() {
    let block = test_block();
    let c = compose_html(&block, &outputs(1, true), &vec!["<svg/>".to_string()], false, false);
    let html = html_of(&c.events);
    assert_eq!(
        html,
        "<div class=\"svg-container\"><div><div id=\"svg-content-svg_0-0\" class=\"svg-content mdbook-graphviz-output\"><div><svg/></div></div></div></div>"
    );
    assert!(c.files.is_empty());
}

#[test]
fn html_file_events_single() {
    let block = test_block();
    let c = compose_html(&block, &outputs(1, false), &vec![String::new()], true, false);
    let html = html_of(&c.events);
    assert_eq!(
        html,
        "<div class=\"svg-container\"><div><div id=\"svg-content-svg_0\" class=\"svg-content mdbook-graphviz-output\"><img id=\"svg-content-svg_0\" src=\"name_graph_svg_0.generated.svg\" alt=\"graph\" title=\"graph\"></div></div></div>"
    );
    assert_eq!(c.files.len(), 1);
    assert_eq!(c.files[0].file_name, "name_graph_svg_0.generated.svg");
}

#[test]
fn html_inline_with_download_link() {
    let block = test_block();
    let c = compose_html(&block, &outputs(1, false), &vec!["<svg/>".to_string()], false, true);
    let html = html_of(&c.events);
    assert!(html.contains(
        "<div><svg/></div><a href=\"name_graph_svg_0.generated.svg\" title=\"graph\" target=\"_blank\">Download: graph</a>"
    ));
    assert_eq!(c.files.len(), 1);
}

#[test]
fn html_events_multiple() {
    let block = test_block();
    let c = compose_html(&block, &outputs(2, true), &vec![String::new(), String::new()], false, false);
    let html = html_of(&c.events);
    assert!(html.starts_with("<div class=\"svg-container\"><div><ul id=\"svg-tabs-svg_0\">"));
    assert!(html.contains(
        "<li><a data-tabby-default href=\"#svg-content-svg_0-0\">Test 0</a></li><li><a  href=\"#svg-content-svg_0-1\">Test 1</a></li></ul>"
    ));
    let first = html.find("<div id=\"svg-content-svg_0-0\"").unwrap();
    let second = html.find("<div id=\"svg-content-svg_0-1\"").unwrap();
    assert!(first < second);
}

#[test]
fn md_inline_events() {
    let block = test_block();
    let (c, errors) = render_outputs(&block, &outputs(1, true), &config("other", false, false));
    assert_eq!(errors.len(), 1);
    assert_eq!(c.events.len(), 3);
    assert!(matches!(&c.events[0], OutEvent::Text(t) if t == "\n\n"));
    assert!(matches!(&c.events[1], OutEvent::Html(h) if h.is_empty()));
    assert!(matches!(&c.events[2], OutEvent::Text(t) if t == "\n\n"));
}

#[test]
fn md_file_events() {
    let block = test_block();
    let c = compose_md(&block, &outputs(1, false), &vec![String::new()], true, false);
    let events: Vec<Event> = to_events(c.events).iter().map(|i| i.event().clone()).collect();
    assert_eq!(events.len(), 4);
    assert_eq!(events[0], Event::Text("\n\n".into()));
    assert!(matches!(&events[1], Event::Start(Tag::Image { dest_url, title, .. }) if dest_url.as_ref() == "name_graph_svg_0.generated.svg" && title.as_ref() == "Test 0"));
    assert_eq!(events[2], Event::End(TagEnd::Image));
    assert_eq!(events[3], Event::Text("\n\n".into()));
    assert_eq!(c.files.len(), 1);
}

#[test]
fn md_linked_file_events() {
    let block = test_block();
    let c = compose(&block, &outputs(1, false), &vec![String::new()], &config("other", true, true));
    let events: Vec<Event> = to_events(c.events).iter().map(|i| i.event().clone()).collect();
    assert_eq!(events.len(), 6);
    assert!(matches!(&events[1], Event::Start(Tag::Link { dest_url, .. }) if dest_url.as_ref() == "name_graph_svg_0.generated.svg"));
    assert!(matches!(&events[2], Event::Start(Tag::Image { dest_url, .. }) if dest_url.as_ref() == "name_graph_svg_0.generated.svg"));
    assert_eq!(events[3], Event::End(TagEnd::Image));
    assert_eq!(events[4], Event::End(TagEnd::Link));
    assert_eq!(events[5], Event::Text("\n\n".into()));
}

#[test]
fn dot_block_is_replaced_by_inline_container() {
    let content = "```dot process\n digraph { a -> b }\n```";
    let info = ChapterInfo {
        name: "Chapter".to_string(),
        book_path: "".to_string(),
        relative_path: "chapter.md".to_string(),
        preprocessor_name: "graphviz".to_string(),
    };
    let ex = extract_chapter(content, "dot process", &info);
    assert_eq!(ex.segments.len(), 2);
    let mut events = vec![];
    for seg in ex.segments {
        match seg {
            Segment::Events(v) => events.extend(v),
            Segment::Block(b) => {
                assert_eq!(b.source_code(), " digraph { a -> b }\n");
                let outs = vec![SvgOutput {
                    relative_id: None,
                    title: String::new(),
                    source: "<svg xmlns=\"http://www.w3.org/2000/svg\"><g id=\"a\"><title>a</title></g></svg>".to_string(),
                }];
                let (c, errors) = render_outputs(&b, &outs, &config("html", false, false));
                assert!(errors.is_empty());
                let html = html_of(&c.events);
                assert!(html.starts_with(
                    "<div class=\"svg-container\"><div><div id=\"svg-content-graphviz_0\" class=\"svg-content mdbook-graphviz-output\"><div><svg"
                ));
                assert!(html.contains("id=\"graphviz_0-a\""));
                assert!(html.ends_with("</svg></div></div></div></div>"));
                events.extend(to_events(c.events));
            }
        }
    }
    assert_eq!(events.len(), 3);
    let out = serialize_chapter(vec![events]).unwrap();
    assert!(out.contains("svg-container"));
    assert!(!out.contains("```"));
    assert!(!out.contains("digraph"));
}
