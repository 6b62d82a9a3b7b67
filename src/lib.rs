//! Finds diagram code blocks in a book's chapters, hands them to a renderer, and
//! weaves the rendered SVG back into the chapter as inline HTML, tabs or images.
use vstd::prelude::*;

pub mod block;
pub mod compose;
pub mod d2;
pub mod extract;
pub mod graphviz;
pub mod md;
pub mod options;
pub mod renderers;
pub mod svg;
pub mod text;
pub mod walker;

pub use block::{SvgBlock, SvgBlockBuilder};
pub use compose::{Composition, OutputFile, SvgOutput, SvgRendererSharedConfig};
pub use d2::{AstError, Attributes, D2Error, Edge, Graph, GraphPath, GraphPathComponent, Object, ParseError, Position, Range, RenderResult, Scalar};
pub use extract::{ChapterInfo, Extraction, Segment};
pub use graphviz::{GraphvizBlock, GraphvizConfig, ThemeColors};
pub use md::{MdItem, OutEvent};
pub use options::{ConfigValue, PreprocessorOptions};
pub use renderers::{CLIGraphviz, CLIGraphvizToFile, D2Preprocessor, D2Renderer, GraphvizPreprocessor, GraphvizRenderer};

verus! {

} // verus!
