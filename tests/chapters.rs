use mdbook_svg_inline::extract::extract_chapter;
use mdbook_svg_inline::graphviz::GraphvizBlockBuilder;
use mdbook_svg_inline::md::{serialize_chapter, to_events};
use mdbook_svg_inline::walker::place_in_order;
use mdbook_svg_inline::{ChapterInfo, OutEvent, Segment};

const CHAPTER_NAME: &str = "Test Chapter";
const NORMALIZED_CHAPTER_NAME: &str = "test_chapter";

/// Runs a chapter through extraction, standing in for the renderer with a text
/// event that names the block's file, path, name and index.
fn process(content: &str, prefix: &str) -> String {
    let info = ChapterInfo {
        name: CHAPTER_NAME.to_string(),
        book_path: "/".to_string(),
        relative_path: "./book/chapter.md".to_string(),
        preprocessor_name: "graphviz".to_string(),
    };
    let ex = extract_chapter(content, prefix, &info);
    let mut parts = vec![];
    for seg in ex.segments {
        match seg {
            Segment::Events(v) => parts.push(v),
            Segment::Block(b) => {
                let mut builder = GraphvizBlockBuilder::new(b.chapter_path(), b.chapter_name.clone(), b.graph_name().unwrap_or_default());
                builder.append_code(b.source_code());
                let block = builder.build(b.index);
                let text = format!("{}|{:?}|{}|{}", block.file_name(), block.output_path(), block.graph_name, block.index);
                parts.push(to_events(vec![OutEvent::Text(text)]));
            }
        }
    }
    serialize_chapter(parts).unwrap()
}

#[test]
fn preprocessor_preprocess_flagged_blocks_with_custom_flag() {
    let content = "# Chapter\n```graphviz\ndigraph Test {\n    a -> b\n}\n```\n";
    let expected = format!(
        "# Chapter\n\n{NORMALIZED_CHAPTER_NAME}_0.generated.svg|\"/./book/{NORMALIZED_CHAPTER_NAME}_0.generated.svg\"||0"
    );
    assert_eq!(process(content, "graphviz"), expected);
}

#[test]
fn preprocessor_no_name() {
    let content = "# Chapter\n```dot process\ndigraph Test {\n    a -> b\n}\n```\n";
    let expected = format!(
        "# Chapter\n\n{NORMALIZED_CHAPTER_NAME}_0.generated.svg|\"/./book/{NORMALIZED_CHAPTER_NAME}_0.generated.svg\"||0"
    );
    assert_eq!(process(content, "dot process"), expected);
}

#[test]
fn preprocessor_named_blocks() {
    let content = "# Chapter\n```dot process Graph Name\ndigraph Test {\n    a -> b\n}\n```\n";
    let expected = format!(
        "# Chapter\n\n{NORMALIZED_CHAPTER_NAME}_graph_name_0.generated.svg|\"/./book/{NORMALIZED_CHAPTER_NAME}_graph_name_0.generated.svg\"|Graph Name|0"
    );
    assert_eq!(process(content, "dot process"), expected);
}

#[test]
fn preserve_escaping() {
    let content = "# Chapter\n\n*asteriks*\n/*asteriks/*\n( \\int x dx = \\frac{x^2}{2} + C)\n\n```dot process Graph Name\ndigraph Test {\n    a -> b\n}\n```\n";
    let expected = format!(
        "# Chapter\n\n*asteriks*\n/*asteriks/*\n( \\int x dx = \\frac{{x^2}}{{2}} + C)\n\n{NORMALIZED_CHAPTER_NAME}_graph_name_0.generated.svg|\"/./book/{NORMALIZED_CHAPTER_NAME}_graph_name_0.generated.svg\"|Graph Name|0"
    );
    assert_eq!(process(content, "dot process"), expected);
}

#[test]
fn preserve_tables() {
    let content = "# Chapter\n\n|Tables|Are|Cool|\n|------|:-:|---:|\n|col 1 is|left-aligned|$1600|\n|col 2 is|centered|$12|\n|col 3 is|right-aligned|$1|\n\n```dot process Graph Name\ndigraph Test {\n    a -> b\n}\n```\n";
    let expected = format!(
        "# Chapter\n\n|Tables|Are|Cool|\n|------|:-:|---:|\n|col 1 is|left-aligned|$1600|\n|col 2 is|centered|$12|\n|col 3 is|right-aligned|$1|\n\n{NORMALIZED_CHAPTER_NAME}_graph_name_0.generated.svg|\"/./book/{NORMALIZED_CHAPTER_NAME}_graph_name_0.generated.svg\"|Graph Name|0"
    );
    assert_eq!(process(content, "dot process"), expected);
}

#[test]
fn concurrent_execution() {
    // ten chapters whose renders finish in reverse order come back in chapter order
    let finished: Vec<(usize, String)> = (0..10).rev().map(|i| (i, format!("chapter {i}"))).collect();
    let ordered = place_in_order(10, finished);
    let expected: Vec<String> = (0..10).map(|i| format!("chapter {i}")).collect();
    assert_eq!(ordered, expected);
}
