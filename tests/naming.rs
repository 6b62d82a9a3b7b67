use mdbook_svg_inline::graphviz::{format_output, GraphvizBlockBuilder};
use mdbook_svg_inline::text::{normalize_id, sanitize_html_id};
use mdbook_svg_inline::walker::place_in_order;
use mdbook_svg_inline::{CLIGraphviz, CLIGraphvizToFile, GraphvizBlock, GraphvizConfig, OutEvent, SvgBlockBuilder};

#[test]
fn normalize_keeps_alphanumerics_and_joins_words() {
    assert_eq!(normalize_id("Test Chapter"), "test_chapter");
    assert_eq!(normalize_id("Graph-Name_2!?"), "graph_name_2");
    assert_eq!(normalize_id("Graph!"), normalize_id("Graph?"));
    assert_eq!(normalize_id("Graph!"), "graph");
    assert_eq!(normalize_id("Tab\tand\u{a0}space"), "tab_and_space");
    assert_eq!(normalize_id(&normalize_id("Graph Name")), "graph_name");
}

#[test]
fn html_ids_keep_only_safe_characters() {
    assert_eq!(sanitize_html_id("svg-content-svg_0-steps[1].layers[0]"), "svg-content-svg_0-steps_1_-layers_0_");
}

#[test]
fn svg_block_names() {
    let b = SvgBlockBuilder::new("Name".to_string(), "test-output".to_string(), "chapter.md".to_string(), "svg".to_string(), Some("graph".to_string()), 0).build(0);
    assert_eq!(b.uid_for_chapter(), "svg_0");
    assert_eq!(b.svg_file_name(None), "name_graph_svg_0.generated.svg");
    assert_eq!(b.svg_file_name(Some("steps[1]")), "name_graph_svg_0_steps1.generated.svg");
    assert_eq!(b.svg_id_prefix(Some("steps[1]")), "svg_0-steps_1_");
    assert_eq!(b.chapter_path(), "test-output");
    let nested = SvgBlockBuilder::new("N".to_string(), "book".to_string(), "part/chapter.md".to_string(), "svg".to_string(), None, 0).build(12);
    assert_eq!(nested.chapter_path(), "book/part");
    assert_eq!(nested.uid_for_chapter(), "svg_12");
}

#[test]
fn builder_appends_source() {
    let mut b = SvgBlockBuilder::new("N".to_string(), "".to_string(), "c.md".to_string(), "svg".to_string(), None, 4);
    b.append_source_code("a -> b\n");
    b.append_source_code("b -> c\n");
    let block = b.build(2);
    assert_eq!(block.source_code(), "a -> b\nb -> c\n");
    assert_eq!(block.index, 2);
}

#[test]
fn graphviz_file_names() {
    let named = GraphvizBlock { graph_name: "Alpha".to_string(), code: String::new(), chapter_name: "Test Chapter".to_string(), chapter_path: "/book".to_string(), index: 0 };
    assert_eq!(named.file_name(), "test_chapter_alpha_0.generated.svg");
    assert_eq!(named.output_path(), "/book/test_chapter_alpha_0.generated.svg");
    let unnamed = GraphvizBlock { graph_name: String::new(), code: String::new(), chapter_name: "Test Chapter".to_string(), chapter_path: "/book".to_string(), index: 1 };
    assert_eq!(unnamed.file_name(), "test_chapter_1.generated.svg");
}

#[test]
fn graphviz_builder_trims_code() {
    let mut b = GraphvizBlockBuilder::new("/book".to_string(), "C".to_string(), "G".to_string());
    b.append_code("\n  digraph { a -> b }\n\n");
    let block = b.build(3);
    assert_eq!(block.code, "digraph { a -> b }");
    assert_eq!(block.index, 3);
    assert_eq!(block.chapter_path, "/book");
}

#[test]
fn graphviz_defaults() {
    let c = GraphvizConfig::new();
    assert!(!c.output_to_file && !c.link_to_file && c.theme_colors.is_none());
    assert_eq!(c.info_string, "dot process");
    assert_eq!(c.arguments, vec!["-Tsvg".to_string()]);
}

#[test]
fn inline_events() {
    assert_eq!(
        format_output("<?xml version=\"1.0\"?>\n<svg>\n <g/>\n</svg>\n".to_string().as_str()),
        "<div class=\"mdbook-graphviz-output\"><svg><g/></svg></div>"
    );
    assert_eq!(CLIGraphviz::events(false, "").err().unwrap(), "Error response from Graphviz");
    let events = CLIGraphviz::events(true, "<svg/>").unwrap();
    assert_eq!(events.len(), 2);
    assert!(matches!(&events[0], OutEvent::Html(h) if h == "<div class=\"mdbook-graphviz-output\"><svg/></div>"));
    assert!(matches!(&events[1], OutEvent::Text(t) if t == "\n\n"));
}

#[test]
fn file_events_with_link() {
    let block = GraphvizBlock { graph_name: "Name".to_string(), code: String::new(), chapter_name: "".to_string(), chapter_path: "test-output".to_string(), index: 0 };
    let events = CLIGraphvizToFile::events(&block, true, true).unwrap();
    assert_eq!(events.len(), 5);
    assert!(matches!(&events[0], OutEvent::LinkStart { dest_url, title, .. } if dest_url == "_name_0.generated.svg" && title == "Name"));
    assert!(matches!(&events[1], OutEvent::ImageStart { dest_url, .. } if dest_url == "_name_0.generated.svg"));
    assert!(matches!(&events[2], OutEvent::ImageEnd));
    assert!(matches!(&events[3], OutEvent::LinkEnd));
    assert!(matches!(&events[4], OutEvent::Text(t) if t == "\n\n"));
}

#[test]
fn file_events() {
    let block = GraphvizBlock { graph_name: "Name".to_string(), code: "digraph Test { a -> b }".to_string(), chapter_name: "".to_string(), chapter_path: "test-output".to_string(), index: 0 };
    assert_eq!(CLIGraphvizToFile::events(&block, false, false).err().unwrap(), "Error response from Graphviz");
    let events = CLIGraphvizToFile::events(&block, false, true).unwrap();
    assert_eq!(events.len(), 3);
    assert!(matches!(&events[0], OutEvent::ImageStart { .. }));
    assert!(matches!(&events[1], OutEvent::ImageEnd));
    assert!(matches!(&events[2], OutEvent::Text(t) if t == "\n\n"));
}

#[test]
fn results_return_to_document_order() {
    let arrived = vec![(2usize, "third"), (0, "first"), (1, "second")];
    assert_eq!(place_in_order(3, arrived), vec!["first", "second", "third"]);
    let other = vec![(1usize, "second"), (2, "third"), (0, "first")];
    assert_eq!(place_in_order(3, other), vec!["first", "second", "third"]);
}


#[test]
fn graphviz_default_config() {
    let c = GraphvizConfig::default();
    assert_eq!(c.info_string, "dot process");
    assert_eq!(c.arguments, vec!["-Tsvg".to_string()]);
    assert!(!c.output_to_file && !c.link_to_file && c.theme_colors.is_none());
}
