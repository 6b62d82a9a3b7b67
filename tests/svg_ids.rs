use mdbook_svg_inline::compose::render_outputs;
use mdbook_svg_inline::svg::{collect_ids, format_for_inline, format_for_inline_advanced, format_for_inline_simple, rewrite_references, rewritten_attributes, rewritten_text, XmlAttr};
use mdbook_svg_inline::{OutEvent, SvgBlockBuilder, SvgOutput, SvgRendererSharedConfig};
use xml::reader::{EventReader, XmlEvent};

fn chars(s: &str) -> Vec<char> {
    s.chars().collect()
}

fn attr(name: &str, value: &str) -> XmlAttr {
    XmlAttr { name: name.to_string(), value: value.to_string() }
}

#[test]
fn reference_to_shorter_id_does_not_touch_longer_one() {
    let ids = vec![chars("a"), chars("ab")];
    let out = rewrite_references(&chars("url(#a) #ab #abc href=#a"), &ids, &chars("p"));
    assert_eq!(out.iter().collect::<String>(), "url(#p-a) #p-ab #abc href=#p-a");
}

#[test]
fn ids_are_collected_from_plain_id_attributes_only() {
    let attrs = vec![attr("id", "a"), attr("class", "c"), attr("x:id", "q")];
    let mut ids = vec![];
    collect_ids(&attrs, &mut ids);
    assert_eq!(ids, vec![chars("a")]);
    let values: Vec<String> = rewritten_attributes(&vec![attr("id", "a"), attr("fill", "url(#a)")], &ids, "p")
        .into_iter()
        .map(|a| a.value)
        .collect();
    assert_eq!(values, vec!["p-a".to_string(), "url(#p-a)".to_string()]);
}

#[test]
fn text_references_are_rewritten_and_blank_lines_collapsed() {
    let ids = vec![chars("a")];
    assert_eq!(rewritten_text("#a {}\n\n\nx", &ids, "p"), "#p-a {}\nx");
}

#[test]
fn simple_cleanup_strips_declarations_and_whitespace() {
    let svg = "<?xml version=\"1.0\"?>\n<!DOCTYPE svg PUBLIC \"x\">\n<svg>\n  <g/>\n</svg>\n";
    assert_eq!(format_for_inline_simple(svg), "<svg><g/></svg>");
}

#[test]
fn inlined_svg_ids_are_prefixed_and_still_parse() {
    let svg = "<?xml version=\"1.0\" encoding=\"UTF-8\"?>\n<svg xmlns=\"http://www.w3.org/2000/svg\" xmlns:xlink=\"http://www.w3.org/1999/xlink\">\n<defs><path id=\"a\" d=\"M0 0\"/><path id=\"ab\" d=\"M1 1\"/></defs>\n<use xlink:href=\"#a\"/><use xlink:href=\"#ab\"/><g fill=\"url(#a)\"><text>see #ab</text></g>\n</svg>\n";
    let block = SvgBlockBuilder::new(
        "Name".to_string(),
        "".to_string(),
        "chapter.md".to_string(),
        "svg".to_string(),
        None,
        0,
    )
    .build(0);
    let outs = vec![SvgOutput { relative_id: None, title: String::new(), source: svg.to_string() }];
    let config = SvgRendererSharedConfig {
        info_string: "svg".to_string(),
        renderer: "html".to_string(),
        copy_js: None,
        copy_css: None,
        output_to_file: false,
        link_to_file: false,
    };
    let (c, errors) = render_outputs(&block, &outs, &config);
    assert!(errors.is_empty());
    let html = match &c.events[1] {
        OutEvent::Html(h) => h.clone(),
        _ => panic!("html expected"),
    };
    assert!(html.contains("id=\"svg_0-a\""));
    assert!(html.contains("id=\"svg_0-ab\""));
    assert!(html.contains("xlink:href=\"#svg_0-a\""));
    assert!(html.contains("xlink:href=\"#svg_0-ab\""));
    assert!(html.contains("url(#svg_0-a)"));
    assert!(html.contains("see #svg_0-ab"));
    assert!(!html.contains("svg_0-svg_0"));
    let mut ids = 0;
    for event in EventReader::new(html.as_bytes()) {
        match event.expect("rewritten markup parses") {
            XmlEvent::StartElement { attributes, .. } => {
                ids += attributes.iter().filter(|a| a.name.local_name == "id" && a.name.prefix.is_none()).count();
            }
            _ => {}
        }
    }
    assert_eq!(ids, 3);
}

#[test]
fn unparsable_svg_falls_back_to_cleanup() {
    let block = SvgBlockBuilder::new("N".to_string(), "".to_string(), "c.md".to_string(), "svg".to_string(), None, 0).build(0);
    let outs = vec![SvgOutput { relative_id: None, title: String::new(), source: "<svg>\n  <g>\n</svg>\n".to_string() }];
    let config = SvgRendererSharedConfig {
        info_string: "svg".to_string(),
        renderer: "other".to_string(),
        copy_js: None,
        copy_css: None,
        output_to_file: false,
        link_to_file: false,
    };
    let (c, errors) = render_outputs(&block, &outs, &config);
    assert_eq!(errors.len(), 1);
    assert!(errors[0].starts_with("Error parsing SVG"));
    assert!(matches!(&c.events[1], OutEvent::Html(h) if h == "<svg><g></svg>"));
}

#[test]
fn non_ascii_ids_are_rewritten() {
    let svg = "<svg xmlns=\"http://www.w3.org/2000/svg\"><g id=\"é\"/><use href=\"#é\"/></svg>";
    let out = format_for_inline_advanced(svg, "p").unwrap();
    assert!(out.contains("id=\"p-é\""));
    assert!(out.contains("href=\"#p-é\""));
}

#[test]
fn unreadable_svg_reports_the_parse_error() {
    assert!(format_for_inline_advanced("", "p").err().unwrap().starts_with("Error parsing SVG: "));
    assert!(format_for_inline_advanced("<svg>", "p").err().unwrap().starts_with("Error parsing SVG: "));
    let (markup, error) = format_for_inline("<svg>\n <g>\n", "p");
    assert_eq!(markup, "<svg><g>");
    assert!(error.is_some());
}

#[test]
fn test_inline_advanced() {
    // a D2-style diagram with a style sheet and markers that refer to ids
    let svg = "<?xml version=\"1.0\" encoding=\"utf-8\"?>\n<svg xmlns=\"http://www.w3.org/2000/svg\" xmlns:xlink=\"http://www.w3.org/1999/xlink\" d2Version=\"0.6\" viewBox=\"0 0 100 100\">\n<style type=\"text/css\"><![CDATA[.d2-1 .fill-N1{fill:#0A0F25;} #d2-1 { stroke: red; }]]></style>\n<defs><marker id=\"mk\"><path d=\"M0 0\"/></marker></defs>\n<g id=\"d2-1\" class=\"d2-1\"><path d=\"M1 1\" marker-end=\"url(#mk)\"/><text>Chicken's plan</text></g>\n</svg>\n";
    let inlined = format_for_inline_advanced(svg, "test").unwrap();
    assert!(inlined.contains("url(#test-mk)"));
    assert!(inlined.contains("#test-d2-1 { stroke: red; }"));
    let events = vec![mdbook_svg_inline::OutEvent::Html(format!("<div>{}</div>", inlined))];
    let serialized = mdbook_svg_inline::md::serialize_chapter(vec![mdbook_svg_inline::md::to_events(events)]).unwrap();
    let parsed: Vec<pulldown_cmark::Event> = pulldown_cmark::Parser::new(&serialized).collect();
    // one HTML block holding one HTML event
    assert_eq!(parsed.len(), 3);
    assert!(matches!(parsed[0], pulldown_cmark::Event::Start(pulldown_cmark::Tag::HtmlBlock)));
    assert!(matches!(parsed[1], pulldown_cmark::Event::Html(_)));
    assert!(matches!(parsed[2], pulldown_cmark::Event::End(pulldown_cmark::TagEnd::HtmlBlock)));
}

#[test]
fn unbalanced_events_are_refused() {
    let items = mdbook_svg_inline::md::to_events(vec![mdbook_svg_inline::OutEvent::LinkEnd]);
    assert_eq!(
        mdbook_svg_inline::md::serialize_chapter(vec![items]).err().unwrap(),
        "links, images or headings are not well nested"
    );
}
