//! Turns a block's rendered outputs into the events that replace it in the chapter.
use vstd::prelude::*;

use crate::block::{id_prefix_of, opt_view, svg_file_name_of, uid_of, SvgBlock};
use crate::md::{image_start, link_start, OutEvent};
use crate::svg::{format_for_inline, inline_svg};
use crate::text::{chars_of, html_id, push_str, sanitize_html_id, string_of, trim_chars, trimmed};

verus! {

/// One rendered diagram of a block.
pub struct SvgOutput {
    /// Tells apart the outputs of a block that gives several; none when it gives one.
    pub relative_id: Option<String>,
    pub title: String,
    pub source: String,
}

/// The options that every SVG renderer shares.
pub struct SvgRendererSharedConfig {
    pub info_string: String,
    /// The book renderer that the chapter is being prepared for.
    pub renderer: String,
    pub copy_js: Option<String>,
    pub copy_css: Option<String>,
    pub output_to_file: bool,
    pub link_to_file: bool,
}

/// A file that the composition asks to be written next to the chapter.
pub struct OutputFile {
    pub file_name: String,
    pub content: String,
}

/// The events that replace a block, and the files they refer to.
pub struct Composition {
    pub events: Vec<OutEvent>,
    pub files: Vec<OutputFile>,
}

/// An event, with its text as characters.
pub enum OutView {
    Text(Seq<char>),
    Html(Seq<char>),
    /// Destination, title and id of an inline image.
    ImageStart(Seq<char>, Seq<char>, Seq<char>),
    ImageEnd,
    /// Destination, title and id of an inline link.
    LinkStart(Seq<char>, Seq<char>, Seq<char>),
    LinkEnd,
}

impl View for OutEvent {
    type V = OutView;

    open spec fn view(&self) -> OutView {
        match self {
            OutEvent::Text(t) => OutView::Text(t@),
            OutEvent::Html(h) => OutView::Html(h@),
            OutEvent::ImageStart { dest_url, title, id, .. } => OutView::ImageStart(dest_url@, title@, id@),
            OutEvent::ImageEnd => OutView::ImageEnd,
            OutEvent::LinkStart { dest_url, title, id, .. } => OutView::LinkStart(dest_url@, title@, id@),
            OutEvent::LinkEnd => OutView::LinkEnd,
        }
    }
}

pub open spec fn events_view(v: Seq<OutEvent>) -> Seq<OutView> {
    v.map_values(|e: OutEvent| e@)
}

pub open spec fn files_view(v: Seq<OutputFile>) -> Seq<(Seq<char>, Seq<char>)> {
    v.map_values(|f: OutputFile| (f.file_name@, f.content@))
}

pub open spec fn blank_line() -> Seq<char> {
    seq!['\n', '\n']
}

pub open spec fn file_name_for(b: SvgBlock, o: SvgOutput) -> Seq<char> {
    svg_file_name_of(b.chapter_name@, opt_view(b.graph_name), b.preprocessor_name@, b.index as nat, opt_view(o.relative_id))
}

pub open spec fn graph_name_text(b: SvgBlock) -> Seq<char> {
    match b.graph_name {
        Some(g) => g@,
        None => Seq::empty(),
    }
}

pub open spec fn relative_suffix(o: SvgOutput) -> Seq<char> {
    match o.relative_id {
        Some(r) => seq!['-'] + r@,
        None => Seq::empty(),
    }
}

/// The id of the container that holds one output.
pub open spec fn content_id(b: SvgBlock, o: SvgOutput) -> Seq<char> {
    html_id("svg-content-"@ + uid_of(b.preprocessor_name@, b.index as nat) + relative_suffix(o))
}

/// The tab header that selects the container `id`.
pub open spec fn tab_header(id: Seq<char>, title: Seq<char>, first: bool) -> Seq<char> {
    "<li><a "@ + (if first { "data-tabby-default"@ } else { Seq::empty() }) + " href=\"#"@ + id
        + "\">"@ + title + "</a></li>"@
}

pub open spec fn tab_headers(b: SvgBlock, outs: Seq<SvgOutput>) -> Seq<char>
    decreases outs.len(),
{
    if outs.len() == 0 {
        Seq::empty()
    } else {
        tab_headers(b, outs.drop_last()) + tab_header(content_id(b, outs.last()), outs.last().title@, outs.len() == 1)
    }
}

pub open spec fn link_open(file: Seq<char>, graph: Seq<char>) -> Seq<char> {
    "<a href=\""@ + file + "\" title=\""@ + graph + "\" target=\"_blank\">"@
}

/// What a container holds: an image of the written file, or the inlined SVG.
pub open spec fn content_body(
    id: Seq<char>,
    file: Seq<char>,
    graph: Seq<char>,
    inlined: Seq<char>,
    output_to_file: bool,
    link_to_file: bool,
) -> Seq<char> {
    if output_to_file {
        (if link_to_file { link_open(file, graph) } else { Seq::empty() })
            + "<img id=\""@ + id + "\" src=\""@ + file + "\" alt=\""@ + graph + "\" title=\""@ + graph
            + "\">"@ + (if link_to_file { "</a>"@ } else { Seq::empty() })
    } else {
        "<div>"@ + inlined + "</div>"@ + if link_to_file {
            link_open(file, graph) + "Download"@ + (if trimmed(graph).len() > 0 {
                ": "@ + graph
            } else {
                Seq::empty()
            }) + "</a>"@
        } else {
            Seq::empty()
        }
    }
}

pub open spec fn content_node(
    b: SvgBlock,
    o: SvgOutput,
    inlined: Seq<char>,
    output_to_file: bool,
    link_to_file: bool,
) -> Seq<char> {
    "<div id=\""@ + content_id(b, o) + "\" class=\"svg-content mdbook-graphviz-output\">"@
        + content_body(content_id(b, o), file_name_for(b, o), graph_name_text(b), inlined, output_to_file, link_to_file)
        + "</div>"@
}

pub open spec fn content_nodes(
    b: SvgBlock,
    outs: Seq<SvgOutput>,
    inlined: Seq<Seq<char>>,
    output_to_file: bool,
    link_to_file: bool,
) -> Seq<char>
    decreases outs.len(),
{
    if outs.len() == 0 {
        Seq::empty()
    } else {
        content_nodes(b, outs.drop_last(), inlined, output_to_file, link_to_file)
            + content_node(b, outs.last(), inlined[outs.len() - 1], output_to_file, link_to_file)
    }
}

/// The tab list, present only when a block gives more than one output.
pub open spec fn tab_list(b: SvgBlock, outs: Seq<SvgOutput>) -> Seq<char> {
    if outs.len() > 1 {
        "<ul id=\""@ + html_id("svg-tabs-"@ + uid_of(b.preprocessor_name@, b.index as nat)) + "\">"@
            + tab_headers(b, outs) + "</ul>"@
    } else {
        Seq::empty()
    }
}

pub open spec fn html_markup(
    b: SvgBlock,
    outs: Seq<SvgOutput>,
    inlined: Seq<Seq<char>>,
    output_to_file: bool,
    link_to_file: bool,
) -> Seq<char> {
    "<div class=\"svg-container\"><div>"@ + tab_list(b, outs) + content_nodes(b, outs, inlined, output_to_file, link_to_file)
        + "</div></div>"@
}

/// The files that a composition asks for: one per output, holding its source.
pub open spec fn written_files(b: SvgBlock, outs: Seq<SvgOutput>) -> Seq<(Seq<char>, Seq<char>)>
    decreases outs.len(),
{
    if outs.len() == 0 {
        Seq::empty()
    } else {
        written_files(b, outs.drop_last()).push((file_name_for(b, outs.last()), outs.last().source@))
    }
}

/// The markdown events for one output.
pub open spec fn md_output(
    b: SvgBlock,
    o: SvgOutput,
    inlined: Seq<char>,
    output_to_file: bool,
    link_to_file: bool,
) -> Seq<OutView> {
    if output_to_file {
        let f = file_name_for(b, o);
        (if link_to_file { seq![OutView::LinkStart(f, o.title@, Seq::empty())] } else { Seq::empty() })
            + seq![OutView::ImageStart(f, o.title@, Seq::empty()), OutView::ImageEnd]
            + (if link_to_file { seq![OutView::LinkEnd] } else { Seq::empty() })
    } else {
        seq![OutView::Html(inlined)]
    }
}

pub open spec fn md_outputs(
    b: SvgBlock,
    outs: Seq<SvgOutput>,
    inlined: Seq<Seq<char>>,
    output_to_file: bool,
    link_to_file: bool,
) -> Seq<OutView>
    decreases outs.len(),
{
    if outs.len() == 0 {
        Seq::empty()
    } else {
        md_outputs(b, outs.drop_last(), inlined, output_to_file, link_to_file)
            + md_output(b, outs.last(), inlined[outs.len() - 1], output_to_file, link_to_file)
    }
}

fn content_id_of(block: &SvgBlock, o: &SvgOutput) -> (r: String)
    ensures
        r@ == content_id(*block, *o),
{
    let uid = block.uid_for_chapter();
    let mut v: Vec<char> = Vec::new();
    push_str(&mut v, "svg-content-");
    push_str(&mut v, uid.as_str());
    match &o.relative_id {
        Some(rel) => {
            v.push('-');
            push_str(&mut v, rel.as_str());
        },
        None => {},
    }
    assert(v@ =~= "svg-content-"@ + uid_of(block.preprocessor_name@, block.index as nat) + relative_suffix(*o));
    let s = string_of(&v);
    sanitize_html_id(s.as_str())
}

fn output_file_name(block: &SvgBlock, o: &SvgOutput) -> (r: String)
    ensures
        r@ == file_name_for(*block, *o),
{
    match &o.relative_id {
        Some(rel) => block.svg_file_name(Some(rel.as_str())),
        None => block.svg_file_name(None),
    }
}

fn graph_text(block: &SvgBlock) -> (r: String)
    ensures
        r@ == graph_name_text(*block),
{
    match &block.graph_name {
        Some(g) => string_of(&chars_of(g.as_str())),
        None => String::new(),
    }
}

fn push_link_open(v: &mut Vec<char>, file: &str, graph: &str)
    ensures
        final(v)@ == old(v)@ + link_open(file@, graph@),
{
    push_str(v, "<a href=\"");
    push_str(v, file);
    push_str(v, "\" title=\"");
    push_str(v, graph);
    push_str(v, "\" target=\"_blank\">");
    assert(final(v)@ =~= old(v)@ + link_open(file@, graph@));
}

fn push_content_body(
    v: &mut Vec<char>,
    id: &str,
    file: &str,
    graph: &str,
    inlined: &str,
    output_to_file: bool,
    link_to_file: bool,
)
    ensures
        final(v)@ == old(v)@ + content_body(id@, file@, graph@, inlined@, output_to_file, link_to_file),
{
    if output_to_file {
        if link_to_file {
            push_link_open(v, file, graph);
        }
        push_str(v, "<img id=\"");
        push_str(v, id);
        push_str(v, "\" src=\"");
        push_str(v, file);
        push_str(v, "\" alt=\"");
        push_str(v, graph);
        push_str(v, "\" title=\"");
        push_str(v, graph);
        push_str(v, "\">");
        if link_to_file {
            push_str(v, "</a>");
        }
    } else {
        push_str(v, "<div>");
        push_str(v, inlined);
        push_str(v, "</div>");
        if link_to_file {
            push_link_open(v, file, graph);
            push_str(v, "Download");
            let t = trim_chars(&chars_of(graph));
            if t.len() > 0 {
                push_str(v, ": ");
                push_str(v, graph);
            }
            push_str(v, "</a>");
        }
    }
    assert(final(v)@ =~= old(v)@ + content_body(id@, file@, graph@, inlined@, output_to_file, link_to_file));
}

fn push_tab_header(v: &mut Vec<char>, id: &str, title: &str, first: bool)
    ensures
        final(v)@ == old(v)@ + tab_header(id@, title@, first),
{
    push_str(v, "<li><a ");
    if first {
        push_str(v, "data-tabby-default");
    }
    push_str(v, " href=\"#");
    push_str(v, id);
    push_str(v, "\">");
    push_str(v, title);
    push_str(v, "</a></li>");
    assert(final(v)@ =~= old(v)@ + tab_header(id@, title@, first));
}

fn push_content_node(
    v: &mut Vec<char>,
    id: &str,
    file: &str,
    graph: &str,
    inlined: &str,
    output_to_file: bool,
    link_to_file: bool,
)
    ensures
        final(v)@ == old(v)@ + "<div id=\""@ + id@ + "\" class=\"svg-content mdbook-graphviz-output\">"@
            + content_body(id@, file@, graph@, inlined@, output_to_file, link_to_file) + "</div>"@,
{
    push_str(v, "<div id=\"");
    push_str(v, id);
    push_str(v, "\" class=\"svg-content mdbook-graphviz-output\">");
    push_content_body(v, id, file, graph, inlined, output_to_file, link_to_file);
    push_str(v, "</div>");
    assert(final(v)@ =~= old(v)@ + "<div id=\""@ + id@ + "\" class=\"svg-content mdbook-graphviz-output\">"@
        + content_body(id@, file@, graph@, inlined@, output_to_file, link_to_file) + "</div>"@);
}

/// Builds the HTML that replaces a block: a container with one inner container per
/// output, and a tab list in front of them when there are several. `inlined[i]` is
/// the markup used for output `i` when it is not written to a file.
#[verifier::rlimit(40)]
pub fn compose_html(
    block: &SvgBlock,
    outputs: &Vec<SvgOutput>,
    inlined: &Vec<String>,
    output_to_file: bool,
    link_to_file: bool,
) -> (r: Composition)
    requires
        inlined@.len() == outputs@.len(),
    ensures
        events_view(r.events@) == seq![
            OutView::Text(blank_line()),
            OutView::Html(html_markup(*block, outputs@, inlined@.map_values(|s: String| s@), output_to_file, link_to_file)),
            OutView::Text(blank_line()),
        ],
        files_view(r.files@) == if output_to_file || link_to_file {
            written_files(*block, outputs@)
        } else {
            Seq::empty()
        },
{
    let ghost ins = inlined@.map_values(|s: String| s@);
    let mut headers: Vec<char> = Vec::new();
    let mut contents: Vec<char> = Vec::new();
    let mut files: Vec<OutputFile> = Vec::new();
    let graph = graph_text(block);
    let mut i: usize = 0;
    while i < outputs.len()
        invariant
            i <= outputs@.len(),
            inlined@.len() == outputs@.len(),
            ins == inlined@.map_values(|s: String| s@),
            graph@ == graph_name_text(*block),
            headers@ == tab_headers(*block, outputs@.subrange(0, i as int)),
            contents@ == content_nodes(*block, outputs@.subrange(0, i as int), ins, output_to_file, link_to_file),
            files_view(files@) == if output_to_file || link_to_file {
                written_files(*block, outputs@.subrange(0, i as int))
            } else {
                Seq::empty()
            },
        decreases outputs.len() - i,
    {
        let o = &outputs[i];
        let ghost sub = outputs@.subrange(0, i + 1);
        assert(sub.drop_last() =~= outputs@.subrange(0, i as int));
        assert(sub.last() == *o);
        let id = content_id_of(block, o);
        let file = output_file_name(block, o);
        push_tab_header(&mut headers, id.as_str(), o.title.as_str(), i == 0);
        assert(headers@ =~= tab_headers(*block, sub));

        push_content_node(&mut contents, id.as_str(), file.as_str(), graph.as_str(), inlined[i].as_str(), output_to_file, link_to_file);
        assert(ins[i as int] == inlined@[i as int]@);
        assert(contents@ =~= content_nodes(*block, sub, ins, output_to_file, link_to_file));

        if output_to_file || link_to_file {
            files.push(OutputFile { file_name: file, content: string_of(&chars_of(o.source.as_str())) });
            assert(files_view(files@) =~= written_files(*block, sub));
        }
        i = i + 1;
    }
    assert(outputs@.subrange(0, outputs@.len() as int) =~= outputs@);

    let mut html: Vec<char> = Vec::new();
    push_str(&mut html, "<div class=\"svg-container\"><div>");
    if outputs.len() > 1 {
        let uid = block.uid_for_chapter();
        let mut tabs_id: Vec<char> = Vec::new();
        push_str(&mut tabs_id, "svg-tabs-");
        push_str(&mut tabs_id, uid.as_str());
        let list_id = sanitize_html_id(string_of(&tabs_id).as_str());
        push_str(&mut html, "<ul id=\"");
        push_str(&mut html, list_id.as_str());
        push_str(&mut html, "\">");
        crate::text::push_chars(&mut html, &headers);
        push_str(&mut html, "</ul>");
    }
    crate::text::push_chars(&mut html, &contents);
    push_str(&mut html, "</div></div>");
    assert(html@ =~= html_markup(*block, outputs@, ins, output_to_file, link_to_file));

    let mut events: Vec<OutEvent> = Vec::new();
    events.push(OutEvent::Text(string_of(&vec!['\n', '\n'])));
    events.push(OutEvent::Html(string_of(&html)));
    events.push(OutEvent::Text(string_of(&vec!['\n', '\n'])));
    assert(events_view(events@) =~= seq![
        OutView::Text(blank_line()),
        OutView::Html(html_markup(*block, outputs@, ins, output_to_file, link_to_file)),
        OutView::Text(blank_line()),
    ]);
    Composition { events, files }
}

fn push_md_output(
    events: &mut Vec<OutEvent>,
    block: &SvgBlock,
    o: &SvgOutput,
    inlined: &str,
    output_to_file: bool,
    link_to_file: bool,
)
    ensures
        events_view(final(events)@) == events_view(old(events)@) + md_output(*block, *o, inlined@, output_to_file, link_to_file),
{
    if output_to_file {
        let file = output_file_name(block, o);
        if link_to_file {
            events.push(link_start(string_of(&chars_of(file.as_str())), string_of(&chars_of(o.title.as_str()))));
        }
        events.push(image_start(string_of(&chars_of(file.as_str())), string_of(&chars_of(o.title.as_str()))));
        events.push(OutEvent::ImageEnd);
        if link_to_file {
            events.push(OutEvent::LinkEnd);
        }
    } else {
        events.push(OutEvent::Html(string_of(&chars_of(inlined))));
    }
    assert(events_view(final(events)@) =~= events_view(old(events)@) + md_output(*block, *o, inlined@, output_to_file, link_to_file));
}

/// Builds the markdown events that replace a block: for each output an image of the
/// written file (inside a link to it when asked), or the inlined markup.
pub fn compose_md(
    block: &SvgBlock,
    outputs: &Vec<SvgOutput>,
    inlined: &Vec<String>,
    output_to_file: bool,
    link_to_file: bool,
) -> (r: Composition)
    requires
        inlined@.len() == outputs@.len(),
    ensures
        events_view(r.events@) == seq![OutView::Text(blank_line())]
            + md_outputs(*block, outputs@, inlined@.map_values(|s: String| s@), output_to_file, link_to_file)
            + seq![OutView::Text(blank_line())],
        files_view(r.files@) == if output_to_file {
            written_files(*block, outputs@)
        } else {
            Seq::empty()
        },
{
    let ghost ins = inlined@.map_values(|s: String| s@);
    let mut events: Vec<OutEvent> = Vec::new();
    let mut files: Vec<OutputFile> = Vec::new();
    events.push(OutEvent::Text(string_of(&vec!['\n', '\n'])));
    let mut i: usize = 0;
    while i < outputs.len()
        invariant
            i <= outputs@.len(),
            inlined@.len() == outputs@.len(),
            ins == inlined@.map_values(|s: String| s@),
            events_view(events@) == seq![OutView::Text(blank_line())]
                + md_outputs(*block, outputs@.subrange(0, i as int), ins, output_to_file, link_to_file),
            files_view(files@) == if output_to_file {
                written_files(*block, outputs@.subrange(0, i as int))
            } else {
                Seq::empty()
            },
        decreases outputs.len() - i,
    {
        let o = &outputs[i];
        let ghost sub = outputs@.subrange(0, i + 1);
        assert(sub.drop_last() =~= outputs@.subrange(0, i as int));
        assert(sub.last() == *o);
        push_md_output(&mut events, block, o, inlined[i].as_str(), output_to_file, link_to_file);
        if output_to_file {
            let file = output_file_name(block, o);
            files.push(OutputFile { file_name: file, content: string_of(&chars_of(o.source.as_str())) });
            assert(files_view(files@) =~= written_files(*block, sub));
        }
        assert(ins[i as int] == inlined@[i as int]@);
        assert(events_view(events@) =~= seq![OutView::Text(blank_line())]
            + md_outputs(*block, sub, ins, output_to_file, link_to_file));
        i = i + 1;
    }
    assert(outputs@.subrange(0, outputs@.len() as int) =~= outputs@);
    events.push(OutEvent::Text(string_of(&vec!['\n', '\n'])));
    assert(events_view(events@) =~= seq![OutView::Text(blank_line())]
        + md_outputs(*block, outputs@, ins, output_to_file, link_to_file)
        + seq![OutView::Text(blank_line())]);
    Composition { events, files }
}

/// Whether the chapter is being prepared for the HTML renderer, the only one that
/// gets tabs and containers.
pub open spec fn is_html(renderer: Seq<char>) -> bool {
    renderer == "html"@
}

/// The replacement of a block, as the renderer in the configuration calls for.
pub open spec fn composition_spec(
    b: SvgBlock,
    outs: Seq<SvgOutput>,
    inlined: Seq<Seq<char>>,
    config: SvgRendererSharedConfig,
) -> (Seq<OutView>, Seq<(Seq<char>, Seq<char>)>) {
    if is_html(config.renderer@) {
        (
            seq![
                OutView::Text(blank_line()),
                OutView::Html(html_markup(b, outs, inlined, config.output_to_file, config.link_to_file)),
                OutView::Text(blank_line()),
            ],
            if config.output_to_file || config.link_to_file { written_files(b, outs) } else { Seq::empty() },
        )
    } else {
        (
            seq![OutView::Text(blank_line())] + md_outputs(b, outs, inlined, config.output_to_file, config.link_to_file)
                + seq![OutView::Text(blank_line())],
            if config.output_to_file { written_files(b, outs) } else { Seq::empty() },
        )
    }
}

fn is_html_renderer(renderer: &str) -> (r: bool)
    ensures
        r == is_html(renderer@),
{
    let cs = chars_of(renderer);
    proof {
        reveal_strlit("html");
    }
    let r = cs.len() == 4 && cs[0] == 'h' && cs[1] == 't' && cs[2] == 'm' && cs[3] == 'l';
    if r {
        assert(cs@ =~= "html"@);
    } else {
        assert(cs@ != "html"@);
    }
    r
}

/// The replacement of a block: containers for the HTML renderer, markdown events for
/// any other.
pub fn compose(
    block: &SvgBlock,
    outputs: &Vec<SvgOutput>,
    inlined: &Vec<String>,
    config: &SvgRendererSharedConfig,
) -> (r: Composition)
    requires
        inlined@.len() == outputs@.len(),
    ensures
        (events_view(r.events@), files_view(r.files@)) == composition_spec(
            *block,
            outputs@,
            inlined@.map_values(|s: String| s@),
            *config,
        ),
{
    if is_html_renderer(config.renderer.as_str()) {
        compose_html(block, outputs, inlined, config.output_to_file, config.link_to_file)
    } else {
        compose_md(block, outputs, inlined, config.output_to_file, config.link_to_file)
    }
}

/// The markup inlined for each output: nothing when outputs go to files, else the
/// output's SVG with its ids prefixed per block and output (or its clean-up).
pub open spec fn inlined_for(b: SvgBlock, outs: Seq<SvgOutput>, output_to_file: bool) -> Seq<Seq<char>> {
    Seq::new(
        outs.len(),
        |j: int|
            if output_to_file {
                Seq::empty()
            } else {
                inline_svg(outs[j].source@, id_prefix_of(b.preprocessor_name@, b.index as nat, opt_view(outs[j].relative_id)))
            },
    )
}

/// The replacement of a block for its rendered outputs, with the reasons any SVG
/// could not be rewritten (its clean-up was inlined instead).
pub fn render_outputs(block: &SvgBlock, outputs: &Vec<SvgOutput>, config: &SvgRendererSharedConfig) -> (r: (Composition, Vec<String>))
    ensures
        (events_view(r.0.events@), files_view(r.0.files@)) == composition_spec(
            *block,
            outputs@,
            inlined_for(*block, outputs@, config.output_to_file),
            *config,
        ),
{
    let ghost want = inlined_for(*block, outputs@, config.output_to_file);
    let mut inlined: Vec<String> = Vec::new();
    let mut errors: Vec<String> = Vec::new();
    let mut i: usize = 0;
    while i < outputs.len()
        invariant
            i <= outputs@.len(),
            inlined@.len() == i,
            want == inlined_for(*block, outputs@, config.output_to_file),
            forall|j: int| 0 <= j < i ==> (#[trigger] inlined@[j])@ == want[j],
        decreases outputs.len() - i,
    {
        let o = &outputs[i];
        if config.output_to_file {
            inlined.push(String::new());
        } else {
            let prefix = match &o.relative_id {
                Some(rel) => block.svg_id_prefix(Some(rel.as_str())),
                None => block.svg_id_prefix(None),
            };
            assert(prefix@ == id_prefix_of(block.preprocessor_name@, block.index as nat, opt_view(o.relative_id)));
            let (markup, error) = format_for_inline(o.source.as_str(), prefix.as_str());
            inlined.push(markup);
            match error {
                Some(e) => errors.push(e),
                None => {},
            }
        }
        i = i + 1;
    }
    assert(inlined@.map_values(|s: String| s@) =~= want);
    (compose(block, outputs, &inlined, config), errors)
}

} // verus!
