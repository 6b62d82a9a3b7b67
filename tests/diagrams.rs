use mdbook_svg_inline::d2::{relative_id, sort_results, string_to_position, string_to_range, D2Result};
use mdbook_svg_inline::renderers::{D2Preprocessor, D2Renderer, GraphvizPreprocessor, GraphvizRenderer};
use mdbook_svg_inline::{AstError, Attributes, D2Error, GraphPath, GraphPathComponent, Object, ParseError, Position, Range, RenderResult, Scalar, SvgBlockBuilder, SvgRendererSharedConfig};
use std::cmp::Ordering;
use GraphPathComponent::{Index, Layers, Scenarios, Steps};

fn leaf(name: &str, content: &str) -> RenderResult {
    RenderResult {
        name: name.to_string(),
        is_folder_only: false,
        content: content.to_string(),
        root: None,
        layers: vec![],
        scenarios: vec![],
        steps: vec![],
    }
}

fn config() -> SvgRendererSharedConfig {
    SvgRendererSharedConfig {
        info_string: "d2".to_string(),
        renderer: "html".to_string(),
        copy_js: None,
        copy_css: None,
        output_to_file: false,
        link_to_file: false,
    }
}

#[test]
fn components_order_index_then_layers_scenarios_steps() {
    assert_eq!(Index { index: 2 }.compare(&Index { index: 10 }), Ordering::Less);
    assert_eq!(Index { index: 99 }.compare(&Layers), Ordering::Less);
    assert_eq!(Layers.compare(&Scenarios), Ordering::Less);
    assert_eq!(Steps.compare(&Scenarios), Ordering::Greater);
    assert_eq!(Steps.enum_index(), 3);
    let short = GraphPath(vec![Steps]);
    let long = GraphPath(vec![Steps, Index { index: 0 }]);
    assert_eq!(short.compare(&long), Ordering::Less);
    assert_eq!(long.compare(&long.clone()), Ordering::Equal);
}

#[test]
fn relative_ids_join_groups_with_dots() {
    let p = GraphPath(vec![Steps, Index { index: 1 }, Layers, Index { index: 0 }]);
    assert_eq!(relative_id(&p), "steps[1].layers[0]");
    assert_eq!(relative_id(&GraphPath(vec![])), "");
}

#[test]
fn render_tree_is_flattened_and_sorted() {
    let mut root = leaf("", "root");
    root.steps = vec![leaf("s0", "step 0"), leaf("s1", "step 1")];
    root.layers = vec![leaf("", "layer 0")];
    let all = D2Result::from_render(&root);
    assert_eq!(all.len(), 4);
    assert_eq!(all[3].relative_id(), "");
    let sorted = sort_results(all);
    let ids: Vec<String> = sorted.iter().map(|d| d.relative_id()).collect();
    assert_eq!(ids, vec!["", "layers[0]", "steps[0]", "steps[1]"]);
    let titles: Vec<&str> = sorted.iter().map(|d| d.title()).collect();
    assert_eq!(titles, vec!["index", "index", "s0", "s1"]);
    assert_eq!(sorted[3].content(), "step 1");
}

#[test]
fn title_prefers_label_then_name() {
    let mut r = leaf("Name", "");
    assert_eq!(r.title(), "Name");
    r.root = Some(Object {
        id: "x".to_string(),
        id_val: "x".to_string(),
        attributes: Attributes { label: Scalar { value: "Label".to_string() } },
    });
    assert_eq!(r.title(), "Label");
    assert_eq!(leaf("", "").title(), "index");
}

#[test]
fn positions_and_ranges_are_read() {
    let p = string_to_position("12:3:45").unwrap();
    assert_eq!((p.line, p.column, p.byte), (12, 3, 45));
    assert_eq!(string_to_position("1:2").err().unwrap(), "Invalid Position String");
    assert_eq!(string_to_position("1:x:2").err().unwrap(), "Invalid Position String");
    assert_eq!(string_to_position("1:2:99999999999999999999999").err().unwrap(), "Not a number");
    let r = string_to_range("index.d2,0:16:16-0:17:17").unwrap();
    assert_eq!(r.path, "index.d2");
    assert_eq!((r.start.line, r.start.column, r.start.byte), (0, 16, 16));
    assert_eq!((r.end.line, r.end.column, r.end.byte), (0, 17, 17));
    assert_eq!(string_to_range("index.d2 0:1:1-0:1:1").err().unwrap(), "Invalid Range String");
    assert_eq!(string_to_range("a,b,0:1:1-0:1:1").err().unwrap(), "Invalid Range String");
    assert_eq!(string_to_range("a,0:1-0:1:1").err().unwrap(), "Invalid Position String");
}

#[test]
fn d2_failures_become_messages() {
    let block = SvgBlockBuilder::new("C".to_string(), "".to_string(), "chapter.md".to_string(), "d2".to_string(), None, 3).build(0);
    let renderer = D2Renderer::new(config());
    let err = ParseError {
        errors: vec![AstError {
            range: Range {
                path: "index.d2".to_string(),
                start: Position { line: 0, column: 1, byte: 1 },
                end: Position { line: 1, column: 2, byte: 5 },
            },
            message: "unexpected end".to_string(),
        }],
    };
    assert_eq!(
        renderer.outputs(&block, Err(D2Error::Parse(err))).err().unwrap(),
        "Parse Error\nchapter.md(3:4): D2 unexpected end"
    );
    assert_eq!(renderer.outputs(&block, Err(D2Error::D2("bad".to_string()))).err().unwrap(), "bad");
    assert_eq!(renderer.outputs(&block, Err(D2Error::Internal("x".to_string()))).err().unwrap(), "Internal Error: x");
    let ok = renderer.outputs(&block, Ok(leaf("n", "<svg/>"))).ok().unwrap();
    assert_eq!(ok.len(), 1);
    assert_eq!(ok[0].relative_id, None);
    let mut nested = leaf("root", "<svg/>");
    nested.steps = vec![leaf("s", "<svg id=\"s\"/>")];
    let two = renderer.outputs(&block, Ok(nested)).ok().unwrap();
    let ids: Vec<Option<String>> = two.iter().map(|o| o.relative_id.clone()).collect();
    assert_eq!(ids, vec![Some(String::new()), Some("steps[0]".to_string())]);
    assert_eq!(ok[0].title, "n");
    assert_eq!(ok[0].source, "<svg/>");
}

#[test]
fn graphviz_results_become_outputs() {
    let block = SvgBlockBuilder::new("C".to_string(), "".to_string(), "chapter.md".to_string(), "graphviz".to_string(), Some("G".to_string()), 3).build(0);
    let renderer = GraphvizRenderer::new(config());
    assert_eq!(renderer.arguments, vec!["-Tsvg".to_string()]);
    let ok = renderer.outputs(&block, true, "<svg/>".to_string()).ok().unwrap();
    assert_eq!(ok.len(), 1);
    assert_eq!(ok[0].relative_id, None);
    assert_eq!(ok[0].title, "G");
    assert_eq!(
        renderer.outputs(&block, false, String::new()).err().unwrap(),
        "chapter.md(3): Error response from Graphviz"
    );
}

#[test]
fn preprocessor_names() {
    assert_eq!(D2Preprocessor.name(), "d2-interactive");
    assert_eq!(D2Preprocessor.default_info_string(), "d2");
    assert_eq!(GraphvizPreprocessor.name(), "graphviz");
    assert_eq!(GraphvizPreprocessor.default_info_string(), "dot process");
}
