//! The concrete preprocessors and renderers: their names and options, and what they
//! make of what the diagram tools return.
use vstd::prelude::*;

use crate::block::{location_of, SvgBlock};
use crate::compose::{OutView, SvgOutput, SvgRendererSharedConfig};
use crate::d2::{diagnostics_fit, diagnostics_text, diagram_outputs, outputs_of_render, parse_error_message, D2Error, RenderResult};
use crate::graphviz::{graphviz_file_name, graphviz_inline, GraphvizBlock};
use crate::md::OutEvent;
use crate::text::{chars_of, push_str, string_of};

verus! {

/// The D2 preprocessor.
pub struct D2Preprocessor;

impl D2Preprocessor {
    pub fn name(&self) -> (r: &'static str)
        ensures
            r@ == "d2-interactive"@,
    {
        "d2-interactive"
    }

    pub fn default_info_string(&self) -> (r: &'static str)
        ensures
            r@ == "d2"@,
    {
        "d2"
    }
}

/// The Graphviz preprocessor.
pub struct GraphvizPreprocessor;

impl GraphvizPreprocessor {
    pub fn name(&self) -> (r: &'static str)
        ensures
            r@ == "graphviz"@,
    {
        "graphviz"
    }

    pub fn default_info_string(&self) -> (r: &'static str)
        ensures
            r@ == "dot process"@,
    {
        "dot process"
    }
}

/// Renders D2 blocks through the D2 library.
pub struct D2Renderer {
    pub config: SvgRendererSharedConfig,
}

/// The message for a failed D2 render.
pub open spec fn d2_error_text(b: SvgBlock, e: D2Error) -> Seq<char> {
    match e {
        D2Error::Parse(p) => "Parse Error"@ + diagnostics_text(b, p.errors@),
        D2Error::D2(m) => m@,
        D2Error::Internal(m) => "Internal Error: "@ + m@,
    }
}

pub open spec fn d2_error_fits(b: SvgBlock, e: D2Error) -> bool {
    match e {
        D2Error::Parse(p) => diagnostics_fit(b, p.errors@),
        _ => true,
    }
}

impl D2Renderer {
    pub fn new(config: SvgRendererSharedConfig) -> (r: D2Renderer)
        ensures
            r.config == config,
    {
        D2Renderer { config }
    }

    /// The outputs for what the D2 library returned: every diagram in path order,
    /// or the message that reports the failure.
    pub fn outputs(&self, block: &SvgBlock, rendered: Result<RenderResult, D2Error>) -> (r: Result<Vec<SvgOutput>, String>)
        requires
            rendered is Err ==> d2_error_fits(*block, rendered->Err_0),
        ensures
            rendered is Ok <==> r is Ok,
            rendered is Ok ==> outputs_of_render(rendered->Ok_0, r->Ok_0@),
            rendered is Err ==> r->Err_0@ == d2_error_text(*block, rendered->Err_0),
    {
        match rendered {
            Ok(result) => Ok(diagram_outputs(&result)),
            Err(D2Error::Parse(p)) => Err(parse_error_message(block, &p)),
            Err(D2Error::D2(m)) => Err(m),
            Err(D2Error::Internal(m)) => {
                let mut v: Vec<char> = Vec::new();
                push_str(&mut v, "Internal Error: ");
                push_str(&mut v, m.as_str());
                Err(string_of(&v))
            },
        }
    }
}

/// Renders Graphviz blocks with the `dot` command.
pub struct GraphvizRenderer {
    pub config: SvgRendererSharedConfig,
    pub arguments: Vec<String>,
}

impl GraphvizRenderer {
    /// A renderer that asks `dot` for SVG.
    pub fn new(config: SvgRendererSharedConfig) -> (r: GraphvizRenderer)
        ensures
            r.config == config,
            r.arguments@.len() == 1,
            r.arguments@[0]@ == "-Tsvg"@,
    {
        let mut arguments: Vec<String> = Vec::new();
        arguments.push(String::from_str("-Tsvg"));
        GraphvizRenderer { config, arguments }
    }

    /// The output for what `dot` returned: its SVG titled with the graph's name, or a
    /// message that names the block when `dot` failed.
    pub fn outputs(&self, block: &SvgBlock, succeeded: bool, svg: String) -> (r: Result<Vec<SvgOutput>, String>)
        ensures
            succeeded <==> r is Ok,
            r is Ok ==> r->Ok_0@.len() == 1 && r->Ok_0@[0].relative_id is None && r->Ok_0@[0].source@ == svg@
                && r->Ok_0@[0].title@ == crate::compose::graph_name_text(*block),
            r is Err ==> r->Err_0@ == location_of(block.chapter_relative_path@, block.source_code_initial_line as nat, None)
                + ": Error response from Graphviz"@,
    {
        if succeeded {
            let title = match &block.graph_name {
                Some(g) => string_of(&chars_of(g.as_str())),
                None => String::new(),
            };
            let mut v: Vec<SvgOutput> = Vec::new();
            v.push(SvgOutput { relative_id: None, title, source: svg });
            Ok(v)
        } else {
            let loc = block.location_string(None, None);
            let mut v: Vec<char> = chars_of(loc.as_str());
            push_str(&mut v, ": Error response from Graphviz");
            Err(string_of(&v))
        }
    }
}

/// Shows a Graphviz graph inline.
pub struct CLIGraphviz;

impl CLIGraphviz {
    /// The events for the SVG that `dot` printed, or the failure when it did not
    /// succeed.
    pub fn events(succeeded: bool, svg: &str) -> (r: Result<Vec<OutEvent>, String>)
        ensures
            succeeded <==> r is Ok,
            r is Ok ==> crate::compose::events_view(r->Ok_0@) == seq![OutView::Html(graphviz_inline(svg@)), OutView::Text(seq!['\n', '\n'])],
            r is Err ==> r->Err_0@ == "Error response from Graphviz"@,
    {
        if succeeded {
            Ok(crate::graphviz::inline_events(svg))
        } else {
            Err(String::from_str("Error response from Graphviz"))
        }
    }
}

/// Shows a Graphviz graph as an image of the file that `dot` wrote.
pub struct CLIGraphvizToFile;

impl CLIGraphvizToFile {
    /// The events for a graph that `dot` wrote to its file, or the failure when it
    /// did not succeed.
    pub fn events(block: &GraphvizBlock, link_to_file: bool, succeeded: bool) -> (r: Result<Vec<OutEvent>, String>)
        ensures
            succeeded <==> r is Ok,
            r is Err ==> r->Err_0@ == "Error response from Graphviz"@,
            r is Ok ==> crate::compose::events_view(r->Ok_0@) == {
                let f = graphviz_file_name(block.chapter_name@, block.graph_name@, block.index as nat);
                (if link_to_file { seq![OutView::LinkStart(f, block.graph_name@, Seq::empty())] } else { Seq::empty() })
                    + seq![OutView::ImageStart(f, block.graph_name@, Seq::empty()), OutView::ImageEnd]
                    + (if link_to_file { seq![OutView::LinkEnd] } else { Seq::empty() })
                    + seq![OutView::Text(seq!['\n', '\n'])]
            },
    {
        if succeeded {
            Ok(block.file_events(link_to_file))
        } else {
            Err(String::from_str("Error response from Graphviz"))
        }
    }
}

} // verus!
