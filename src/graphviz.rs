//! The Graphviz preprocessor's own blocks: their names, and the events that show
//! the rendered graph.
use vstd::prelude::*;

use crate::block::{join_path, path_joined};
use crate::compose::OutView;
use crate::md::{image_start, link_start, OutEvent};
use crate::svg::{regex_replaced_all, regex_replaced_first, replace_all_matches, replace_first_match};
use crate::text::{chars_of, decimal, normalize_id, normalized, push_decimal, push_str, string_of, trim_chars, trimmed};

verus! {

pub struct ThemeColors {
    pub foreground: String,
}

pub struct GraphvizConfig {
    pub output_to_file: bool,
    pub link_to_file: bool,
    pub theme_colors: Option<ThemeColors>,
    pub info_string: String,
    pub arguments: Vec<String>,
}

impl GraphvizConfig {
    /// Inline output, `dot process` blocks, and `dot -Tsvg`.
    pub fn new() -> (r: GraphvizConfig)
        ensures
            !r.output_to_file,
            !r.link_to_file,
            r.theme_colors is None,
            r.info_string@ == "dot process"@,
            r.arguments@.len() == 1,
            r.arguments@[0]@ == "-Tsvg"@,
    {
        let mut arguments: Vec<String> = Vec::new();
        arguments.push(String::from_str("-Tsvg"));
        GraphvizConfig {
            output_to_file: false,
            link_to_file: false,
            theme_colors: None,
            info_string: String::from_str("dot process"),
            arguments,
        }
    }
}

impl Default for GraphvizConfig {
    fn default() -> (r: GraphvizConfig)
        ensures
            !r.output_to_file,
            !r.link_to_file,
            r.theme_colors is None,
            r.info_string@ == "dot process"@,
            r.arguments@.len() == 1,
            r.arguments@[0]@ == "-Tsvg"@,
    {
        GraphvizConfig::new()
    }
}

pub struct GraphvizBlock {
    pub graph_name: String,
    pub code: String,
    pub chapter_name: String,
    pub chapter_path: String,
    pub index: usize,
}

/// `{chapter}[_{graph}]_{index}.generated.svg`, the names normalised.
pub open spec fn graphviz_file_name(chapter: Seq<char>, graph: Seq<char>, index: nat) -> Seq<char> {
    normalized(chapter) + (if graph.len() > 0 { seq!['_'] + normalized(graph) } else { Seq::empty() })
        + seq!['_'] + decimal(index) + ".generated.svg"@
}

impl GraphvizBlock {
    pub fn file_name(&self) -> (r: String)
        ensures
            r@ == graphviz_file_name(self.chapter_name@, self.graph_name@, self.index as nat),
    {
        let mut out: Vec<char> = Vec::new();
        let c = normalize_id(self.chapter_name.as_str());
        push_str(&mut out, c.as_str());
        if !self.graph_name.as_str().is_empty() {
            out.push('_');
            let g = normalize_id(self.graph_name.as_str());
            push_str(&mut out, g.as_str());
        }
        out.push('_');
        push_decimal(&mut out, self.index);
        push_str(&mut out, ".generated.svg");
        assert(out@ =~= graphviz_file_name(self.chapter_name@, self.graph_name@, self.index as nat));
        string_of(&out)
    }

    pub fn output_path(&self) -> (r: String)
        ensures
            r@ == path_joined(self.chapter_path@, graphviz_file_name(self.chapter_name@, self.graph_name@, self.index as nat)),
    {
        let f = self.file_name();
        join_path(self.chapter_path.as_str(), f.as_str())
    }

    /// The events that show a graph written to its file: an image, inside a link to
    /// the file when asked, then a blank line.
    pub fn file_events(&self, link_to_file: bool) -> (r: Vec<OutEvent>)
        ensures
            crate::compose::events_view(r@) == {
                let f = graphviz_file_name(self.chapter_name@, self.graph_name@, self.index as nat);
                (if link_to_file { seq![OutView::LinkStart(f, self.graph_name@, Seq::empty())] } else { Seq::empty() })
                    + seq![OutView::ImageStart(f, self.graph_name@, Seq::empty()), OutView::ImageEnd]
                    + (if link_to_file { seq![OutView::LinkEnd] } else { Seq::empty() })
                    + seq![OutView::Text(seq!['\n', '\n'])]
            },
    {
        let f = self.file_name();
        let mut nodes: Vec<OutEvent> = Vec::new();
        if link_to_file {
            nodes.push(link_start(string_of(&chars_of(f.as_str())), string_of(&chars_of(self.graph_name.as_str()))));
        }
        nodes.push(image_start(string_of(&chars_of(f.as_str())), string_of(&chars_of(self.graph_name.as_str()))));
        nodes.push(OutEvent::ImageEnd);
        if link_to_file {
            nodes.push(OutEvent::LinkEnd);
        }
        nodes.push(OutEvent::Text(string_of(&vec!['\n', '\n'])));
        let ghost f = graphviz_file_name(self.chapter_name@, self.graph_name@, self.index as nat);
        assert(crate::compose::events_view(nodes@) =~= (if link_to_file { seq![OutView::LinkStart(f, self.graph_name@, Seq::empty())] } else { Seq::empty() })
            + seq![OutView::ImageStart(f, self.graph_name@, Seq::empty()), OutView::ImageEnd]
            + (if link_to_file { seq![OutView::LinkEnd] } else { Seq::empty() })
            + seq![OutView::Text(seq!['\n', '\n'])]);
        nodes
    }
}

/// A Graphviz block whose source is still being read.
pub struct GraphvizBlockBuilder {
    pub path: String,
    pub chapter_name: String,
    pub graph_name: String,
    pub code: String,
}

impl GraphvizBlockBuilder {
    pub fn new(path: String, chapter_name: String, graph_name: String) -> (r: GraphvizBlockBuilder)
        ensures
            r.path == path,
            r.chapter_name == chapter_name,
            r.graph_name == graph_name,
            r.code@ == Seq::<char>::empty(),
    {
        GraphvizBlockBuilder { path, chapter_name, graph_name, code: String::new() }
    }

    pub fn append_code(&mut self, code: &str)
        ensures
            final(self).code@ == old(self).code@ + code@,
            final(self).path == old(self).path,
            final(self).chapter_name == old(self).chapter_name,
            final(self).graph_name == old(self).graph_name,
    {
        self.code.append(code);
    }

    /// The finished block, its code trimmed.
    pub fn build(self, index: usize) -> (r: GraphvizBlock)
        ensures
            r.graph_name == self.graph_name,
            r.code@ == trimmed(self.code@),
            r.chapter_name == self.chapter_name,
            r.chapter_path == self.path,
            r.index == index,
    {
        let code = string_of(&trim_chars(&chars_of(self.code.as_str())));
        GraphvizBlock {
            graph_name: self.graph_name,
            code,
            chapter_name: self.chapter_name,
            chapter_path: self.path,
            index,
        }
    }
}

/// Graphviz's SVG made ready to inline: declarations removed, whitespace between
/// tags removed, line feeds removed, trimmed, and wrapped in an output container.
pub open spec fn graphviz_inline(s: Seq<char>) -> Seq<char> {
    "<div class=\"mdbook-graphviz-output\">"@ + trimmed(
        regex_replaced_all(
            "\\n"@,
            regex_replaced_all(
                ">\\s+<"@,
                regex_replaced_first("<\\?xml [^>]+\\?>"@, regex_replaced_first("<!DOCTYPE [^>]+>"@, s, ""@), ""@),
                "><"@,
            ),
            ""@,
        ),
    ) + "</div>"@
}

pub fn format_output(output: &str) -> (r: String)
    ensures
        r@ == graphviz_inline(output@),
{
    let a = replace_first_match("<!DOCTYPE [^>]+>", output, "");
    let b = replace_first_match("<\\?xml [^>]+\\?>", a.as_str(), "");
    let c = replace_all_matches(">\\s+<", b.as_str(), "><");
    let d = replace_all_matches("\\n", c.as_str(), "");
    let t = trim_chars(&chars_of(d.as_str()));
    let mut out: Vec<char> = Vec::new();
    push_str(&mut out, "<div class=\"mdbook-graphviz-output\">");
    crate::text::push_chars(&mut out, &t);
    push_str(&mut out, "</div>");
    string_of(&out)
}

/// The events that show a graph inlined: its markup, then a blank line.
pub fn inline_events(svg: &str) -> (r: Vec<OutEvent>)
    ensures
        crate::compose::events_view(r@) == seq![OutView::Html(graphviz_inline(svg@)), OutView::Text(seq!['\n', '\n'])],
{
    let mut nodes: Vec<OutEvent> = Vec::new();
    nodes.push(OutEvent::Html(format_output(svg)));
    nodes.push(OutEvent::Text(string_of(&vec!['\n', '\n'])));
    assert(crate::compose::events_view(nodes@) =~= seq![OutView::Html(graphviz_inline(svg@)), OutView::Text(seq!['\n', '\n'])]);
    nodes
}

} // verus!
