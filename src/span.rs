use vstd::prelude::*;
use crate::glyph::{CharInput, Face, Linebreak, MAX_METRIC};

verus! {

/// Vertical alignment of an inline block.
#[derive(Debug, Clone, Copy, PartialEq, Eq, Structural)]
pub enum BlockAlign {
    /// The block stands on the baseline.
    Baseline,
    /// The block is centered between the font's ascent and descent.
    Middle,
}

/// A reserved inline rectangle, laid out as one opaque glyph.
#[derive(Debug, Clone, Copy, PartialEq, Eq, Structural)]
pub struct Block {
    pub width: usize,
    pub height: usize,
    pub align: BlockAlign,
    /// The break opportunity before the block, as the line-break classifier
    /// reports it for a letter at this place.
    pub linebreak: Linebreak,
}

impl Block {
    pub fn new(width: usize, height: usize) -> (r: Block)
        ensures
            r == (Block { width, height, align: BlockAlign::Middle, linebreak: Linebreak::NoBreak }),
    {
        Block { width, height, align: BlockAlign::Middle, linebreak: Linebreak::NoBreak }
    }

    pub fn with_align(self, align: BlockAlign) -> (r: Block)
        ensures
            r == (Block { align, ..self }),
    {
        Block { align, ..self }
    }

    pub fn with_linebreak(self, linebreak: Linebreak) -> (r: Block)
        ensures
            r == (Block { linebreak, ..self }),
    {
        Block { linebreak, ..self }
    }

    pub open spec fn wf(self) -> bool {
        self.width <= MAX_METRIC && self.height <= MAX_METRIC
    }
}

/// What a span lays out.
#[derive(Debug, Clone)]
pub enum SpanParams {
    /// Characters, each with what the font and line-break classifier report.
    Text(Vec<CharInput>),
    Block(Block),
}

/// A run of text, or an inline block, with its style.
#[derive(Debug, Clone)]
pub struct Span<U> {
    /// Overrides the layout's base font.
    pub font: Option<Face>,
    /// Overrides the layout's base size in pixels.
    pub px: Option<u32>,
    /// Vertical offset in pixels.
    pub rise: i32,
    /// Added to the advance of every glyph, in pixels.
    pub kerning: i32,
    /// Line height multiplier, in hundredths.
    pub line_height: Option<u16>,
    pub params: SpanParams,
    pub user_data: U,
}

impl<U: Copy> Span<U> {
    pub open spec fn wf(&self) -> bool {
        &&& -MAX_METRIC <= self.rise <= MAX_METRIC
        &&& -MAX_METRIC <= self.kerning <= MAX_METRIC
        &&& (self.font matches Some(f) ==> f.wf())
        &&& match self.params {
            SpanParams::Text(t) => forall|i: int| 0 <= i < t@.len() ==> (#[trigger] t@[i]).wf(),
            SpanParams::Block(b) => b.wf(),
        }
    }

    pub fn text(text: Vec<CharInput>, user_data: U) -> (r: Span<U>)
        ensures
            r.font is None,
            r.px is None,
            r.rise == 0,
            r.kerning == 0,
            r.line_height is None,
            r.params matches SpanParams::Text(t) && t@ == text@,
            r.user_data == user_data,
    {
        Span {
            font: None,
            px: None,
            rise: 0,
            kerning: 0,
            line_height: None,
            params: SpanParams::Text(text),
            user_data,
        }
    }

    pub fn block(block: Block, user_data: U) -> (r: Span<U>)
        ensures
            r.font is None,
            r.px is None,
            r.rise == 0,
            r.kerning == 0,
            r.line_height is None,
            r.params == SpanParams::Block(block),
            r.user_data == user_data,
    {
        Span {
            font: None,
            px: None,
            rise: 0,
            kerning: 0,
            line_height: None,
            params: SpanParams::Block(block),
            user_data,
        }
    }

    pub fn with_font(self, font: Face) -> (r: Span<U>)
        ensures
            r == (Span { font: Some(font), ..self }),
    {
        Span { font: Some(font), ..self }
    }

    pub fn with_px(self, px: u32) -> (r: Span<U>)
        ensures
            r == (Span { px: Some(px), ..self }),
    {
        Span { px: Some(px), ..self }
    }

    pub fn with_rise(self, rise: i32) -> (r: Span<U>)
        ensures
            r == (Span { rise, ..self }),
    {
        Span { rise, ..self }
    }

    pub fn with_kerning(self, kerning: i32) -> (r: Span<U>)
        ensures
            r == (Span { kerning, ..self }),
    {
        Span { kerning, ..self }
    }

    pub fn with_line_height(self, line_height: u16) -> (r: Span<U>)
        ensures
            r == (Span { line_height: Some(line_height), ..self }),
    {
        Span { line_height: Some(line_height), ..self }
    }
}

} // verus!
