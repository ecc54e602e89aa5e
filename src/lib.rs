//! A text layout engine: positions a stream of styled text runs and inline
//! blocks into lines of glyphs, with line wrapping, alignment and justification.
//! All lengths are whole pixels.
use vstd::prelude::*;

pub mod arith;
pub mod glyph;
pub mod layout;
pub mod laws;
pub mod settings;
pub mod span;

pub use glyph::{
    CharInput, CharacterData, Face, GlyphPosition, GlyphRasterConfig, LineMetrics, Linebreak,
    MAX_GLYPHS, MAX_METRIC,
};
pub use layout::{Layout, LinePosition};
pub use settings::{
    CoordinateSystem, HorizontalAlign, LayoutSettings, VerticalAlign, WrapStyle, UNBOUNDED,
};
pub use span::{Block, BlockAlign, Span, SpanParams};

verus! {

} // verus!
