//! One extracted diagram block, and the names derived from it.
use vstd::prelude::*;

use crate::text::{decimal, html_id, normalized, push_decimal, push_str, normalize_id, string_of, chars_of};

verus! {

/// What `Path::join` gives for a base and a relative path.
pub uninterp spec fn path_joined(base: Seq<char>, relative: Seq<char>) -> Seq<char>;

/// What `PathBuf::pop` leaves of a path.
pub uninterp spec fn path_parent(path: Seq<char>) -> Seq<char>;

/// Relies on `Path::join`: `relative` resolved against `base`.
#[verifier::external_body]
pub(crate) fn join_path(base: &str, relative: &str) -> (r: String)
    ensures
        r@ == path_joined(base@, relative@),
{
    std::path::Path::new(base).join(relative).to_string_lossy().into_owned()
}

/// Relies on `PathBuf::pop`: the path without its last component.
#[verifier::external_body]
fn parent_path(path: &str) -> (r: String)
    ensures
        r@ == path_parent(path@),
{
    let mut p = std::path::PathBuf::from(path);
    p.pop();
    p.to_string_lossy().into_owned()
}

pub open spec fn generated_suffix() -> Seq<char> {
    seq!['.', 'g', 'e', 'n', 'e', 'r', 'a', 't', 'e', 'd', '.', 's', 'v', 'g']
}

/// `_` and the normalised text, or nothing.
pub open spec fn optional_part(s: Option<Seq<char>>) -> Seq<char> {
    match s {
        Some(t) => seq!['_'] + normalized(t),
        None => Seq::empty(),
    }
}

/// `{chapter}[_{graph}]_{renderer}_{index}[_{relative}].generated.svg`, every free-text
/// part normalised.
pub open spec fn svg_file_name_of(
    chapter: Seq<char>,
    graph: Option<Seq<char>>,
    renderer: Seq<char>,
    index: nat,
    relative: Option<Seq<char>>,
) -> Seq<char> {
    normalized(chapter) + optional_part(graph) + seq!['_'] + normalized(renderer) + seq!['_']
        + decimal(index) + optional_part(relative) + generated_suffix()
}

/// `{renderer}_{index}`: unique among the blocks of a chapter.
pub open spec fn uid_of(renderer: Seq<char>, index: nat) -> Seq<char> {
    normalized(renderer) + seq!['_'] + decimal(index)
}

/// The uid, with `-{relative}` after it when there is one, as an HTML id.
pub open spec fn id_prefix_of(renderer: Seq<char>, index: nat, relative: Option<Seq<char>>) -> Seq<char> {
    html_id(
        uid_of(renderer, index) + match relative {
            Some(r) => seq!['-'] + r,
            None => Seq::empty(),
        },
    )
}

/// `{path}({start})` or `{path}({start}:{end})`.
pub open spec fn location_of(path: Seq<char>, start: nat, end: Option<nat>) -> Seq<char> {
    path + seq!['('] + decimal(start) + match end {
        Some(e) => seq![':'] + decimal(e),
        None => Seq::empty(),
    } + seq![')']
}

pub open spec fn opt_view(s: Option<String>) -> Option<Seq<char>> {
    match s {
        Some(t) => Some(t@),
        None => None,
    }
}

pub open spec fn opt_str_view(s: Option<&str>) -> Option<Seq<char>> {
    match s {
        Some(t) => Some(t@),
        None => None,
    }
}

/// A diagram's source, where it was found, and what it is called.
pub struct SvgBlock {
    pub source_code: String,
    /// The line of the opening fence, as shown in diagnostics.
    pub source_code_initial_line: usize,
    pub book_path: String,
    pub chapter_relative_path: String,
    pub preprocessor_name: String,
    pub chapter_name: String,
    pub graph_name: Option<String>,
    /// Position among this preprocessor's blocks in the chapter, from 0.
    pub index: usize,
}

fn push_optional_part(out: &mut Vec<char>, s: Option<&str>)
    ensures
        final(out)@ == old(out)@ + optional_part(opt_str_view(s)),
{
    match s {
        Some(t) => {
            out.push('_');
            let n = normalize_id(t);
            push_str(out, n.as_str());
        },
        None => {
            assert(old(out)@ + optional_part(opt_str_view(s)) =~= old(out)@);
        },
    }
}

impl SvgBlock {
    pub fn source_code(&self) -> (r: &str)
        ensures
            r@ == self.source_code@,
    {
        self.source_code.as_str()
    }

    /// Unique across all graphs in the chapter for all svg preprocessors.
    pub fn uid_for_chapter(&self) -> (r: String)
        ensures
            r@ == uid_of(self.preprocessor_name@, self.index as nat),
    {
        let mut out: Vec<char> = Vec::new();
        let n = normalize_id(self.preprocessor_name.as_str());
        push_str(&mut out, n.as_str());
        out.push('_');
        push_decimal(&mut out, self.index);
        assert(out@ =~= uid_of(self.preprocessor_name@, self.index as nat));
        string_of(&out)
    }

    /// The prefix given to the ids inside one of this block's inlined SVGs.
    pub fn svg_id_prefix(&self, relative_id: Option<&str>) -> (r: String)
        ensures
            r@ == id_prefix_of(self.preprocessor_name@, self.index as nat, opt_str_view(relative_id)),
    {
        let uid = self.uid_for_chapter();
        let mut out: Vec<char> = chars_of(uid.as_str());
        match relative_id {
            Some(rel) => {
                out.push('-');
                push_str(&mut out, rel);
            },
            None => {},
        }
        let joined = string_of(&out);
        let r = crate::text::sanitize_html_id(joined.as_str());
        assert(joined@ =~= uid_of(self.preprocessor_name@, self.index as nat) + match opt_str_view(relative_id) {
            Some(r) => seq!['-'] + r,
            None => Seq::<char>::empty(),
        });
        r
    }

    /// Unique (and readable) across all graphs in the book for all svg preprocessors.
    pub fn svg_file_name(&self, relative_id: Option<&str>) -> (r: String)
        ensures
            r@ == svg_file_name_of(
                self.chapter_name@,
                opt_view(self.graph_name),
                self.preprocessor_name@,
                self.index as nat,
                opt_str_view(relative_id),
            ),
    {
        let mut out: Vec<char> = Vec::new();
        let c = normalize_id(self.chapter_name.as_str());
        push_str(&mut out, c.as_str());
        let g: Option<&str> = match &self.graph_name {
            Some(g) => Some(g.as_str()),
            None => None,
        };
        push_optional_part(&mut out, g);
        out.push('_');
        let p = normalize_id(self.preprocessor_name.as_str());
        push_str(&mut out, p.as_str());
        out.push('_');
        push_decimal(&mut out, self.index);
        push_optional_part(&mut out, relative_id);
        push_str(&mut out, ".generated.svg");
        proof {
            reveal_strlit(".generated.svg");
            assert(opt_str_view(g) == opt_view(self.graph_name));
        }
        assert(out@ =~= svg_file_name_of(
            self.chapter_name@,
            opt_view(self.graph_name),
            self.preprocessor_name@,
            self.index as nat,
            opt_str_view(relative_id),
        ));
        string_of(&out)
    }

    /// The directory of the chapter's source file, where generated files go.
    pub fn chapter_path(&self) -> (r: String)
        ensures
            r@ == path_parent(path_joined(self.book_path@, self.chapter_relative_path@)),
    {
        let joined = join_path(self.book_path.as_str(), self.chapter_relative_path.as_str());
        parent_path(joined.as_str())
    }

    pub fn graph_name(&self) -> (r: Option<String>)
        ensures
            opt_view(r) == opt_view(self.graph_name),
    {
        match &self.graph_name {
            Some(g) => Some(g.clone()),
            None => None,
        }
    }

    /// `{chapter path}({line})` or `{chapter path}({line}:{end line})`, the lines
    /// given relative to the opening fence.
    pub fn location_string(
        &self,
        inline_line_number_start: Option<usize>,
        inline_line_number_end: Option<usize>,
    ) -> (r: String)
        requires
            self.source_code_initial_line + match inline_line_number_start {
                Some(s) => s as int,
                None => 0,
            } <= usize::MAX,
            match inline_line_number_end {
                Some(e) => self.source_code_initial_line + e <= usize::MAX,
                None => true,
            },
        ensures
            r@ == location_of(
                self.chapter_relative_path@,
                (self.source_code_initial_line + match inline_line_number_start {
                    Some(s) => s as int,
                    None => 0,
                }) as nat,
                match inline_line_number_end {
                    Some(e) => Some((self.source_code_initial_line + e) as nat),
                    None => None,
                },
            ),
    {
        let start: usize = match inline_line_number_start {
            Some(s) => self.source_code_initial_line + s,
            None => self.source_code_initial_line,
        };
        let mut out: Vec<char> = chars_of(self.chapter_relative_path.as_str());
        out.push('(');
        push_decimal(&mut out, start);
        match inline_line_number_end {
            Some(e) => {
                out.push(':');
                push_decimal(&mut out, self.source_code_initial_line + e);
            },
            None => {},
        }
        out.push(')');
        assert(out@ =~= location_of(
            self.chapter_relative_path@,
            start as nat,
            match inline_line_number_end {
                Some(e) => Some((self.source_code_initial_line + e) as nat),
                None => None,
            },
        ));
        string_of(&out)
    }
}

/// A block whose source is still being read.
pub struct SvgBlockBuilder {
    pub source_code: String,
    pub source_code_initial_line: usize,
    pub book_path: String,
    pub chapter_relative_path: String,
    pub preprocessor_name: String,
    pub chapter_name: String,
    pub graph_name: Option<String>,
}

impl SvgBlockBuilder {
    pub fn new(
        chapter_name: String,
        book_path: String,
        chapter_relative_path: String,
        preprocessor_name: String,
        graph_name: Option<String>,
        source_code_initial_line: usize,
    ) -> (r: SvgBlockBuilder)
        ensures
            r.source_code@ == Seq::<char>::empty(),
            r.source_code_initial_line == source_code_initial_line,
            r.book_path == book_path,
            r.chapter_relative_path == chapter_relative_path,
            r.preprocessor_name == preprocessor_name,
            r.chapter_name == chapter_name,
            r.graph_name == graph_name,
    {
        SvgBlockBuilder {
            source_code: String::new(),
            source_code_initial_line,
            book_path,
            chapter_relative_path,
            preprocessor_name,
            chapter_name,
            graph_name,
        }
    }

    pub fn append_source_code(&mut self, code: &str)
        ensures
            final(self).source_code@ == old(self).source_code@ + code@,
            final(self).source_code_initial_line == old(self).source_code_initial_line,
            final(self).book_path == old(self).book_path,
            final(self).chapter_relative_path == old(self).chapter_relative_path,
            final(self).preprocessor_name == old(self).preprocessor_name,
            final(self).chapter_name == old(self).chapter_name,
            final(self).graph_name == old(self).graph_name,
    {
        self.source_code.append(code);
    }

    pub fn build(self, index: usize) -> (r: SvgBlock)
        ensures
            r.source_code == self.source_code,
            r.source_code_initial_line == self.source_code_initial_line,
            r.book_path == self.book_path,
            r.chapter_relative_path == self.chapter_relative_path,
            r.preprocessor_name == self.preprocessor_name,
            r.chapter_name == self.chapter_name,
            r.graph_name == self.graph_name,
            r.index == index,
    {
        SvgBlock {
            source_code: self.source_code,
            source_code_initial_line: self.source_code_initial_line,
            book_path: self.book_path,
            chapter_relative_path: self.chapter_relative_path,
            preprocessor_name: self.preprocessor_name,
            chapter_name: self.chapter_name,
            graph_name: self.graph_name,
            index,
        }
    }
}

} // verus!
