use vstd::prelude::*;

verus! {

/// The largest magnitude, in pixels, of a font metric, a rise or a kerning.
pub const MAX_METRIC: i32 = 0x10_0000;

/// The largest number of glyphs one layout pass holds.
pub const MAX_GLYPHS: usize = 0x10_0000;

/// Strength of a break opportunity before a character, ordered `NoBreak < Soft < Hard`.
#[derive(Debug, Clone, Copy, PartialEq, Eq, Structural)]
pub enum Linebreak {
    NoBreak,
    Soft,
    Hard,
}

impl Linebreak {
    pub open spec fn rank(self) -> int {
        match self {
            Linebreak::NoBreak => 0,
            Linebreak::Soft => 1,
            Linebreak::Hard => 2,
        }
    }

    /// Whether `self` is at least as strong as `other`.
    pub fn at_least(self, other: Linebreak) -> (r: bool)
        ensures
            r == (self.rank() >= other.rank()),
    {
        match (self, other) {
            (_, Linebreak::NoBreak) => true,
            (Linebreak::NoBreak, _) => false,
            (_, Linebreak::Soft) => true,
            (Linebreak::Soft, Linebreak::Hard) => false,
            (Linebreak::Hard, Linebreak::Hard) => true,
        }
    }

    pub fn is_hard(self) -> (r: bool)
        ensures
            r == (self == Linebreak::Hard),
    {
        match self {
            Linebreak::Hard => true,
            _ => false,
        }
    }
}

/// Classification of the character that produced a glyph.
#[derive(Debug, Clone, Copy, PartialEq, Eq, Structural)]
pub struct CharacterData {
    pub whitespace: bool,
    pub control: bool,
    /// The font has no glyph for the character (glyph index 0).
    pub missing: bool,
}

/// Horizontal line metrics of a font at one size, in whole pixels (rounded up).
#[derive(Debug, Clone, Copy, PartialEq, Eq, Structural)]
pub struct LineMetrics {
    /// Extent above the baseline; not negative.
    pub ascent: i32,
    /// Extent below the baseline; not positive.
    pub descent: i32,
    pub line_gap: i32,
    pub new_line_size: i32,
}

impl LineMetrics {
    pub open spec fn wf(self) -> bool {
        &&& 0 <= self.ascent <= MAX_METRIC
        &&& -MAX_METRIC <= self.descent <= 0
        &&& 0 <= self.line_gap <= MAX_METRIC
        &&& 0 <= self.new_line_size <= 2 * MAX_METRIC
    }
}

/// A font at one size, as the layout sees it: a stable identifier and its
/// line metrics, if it has any.
#[derive(Debug, Clone, Copy, PartialEq, Eq, Structural)]
pub struct Face {
    pub hash: usize,
    pub line_metrics: Option<LineMetrics>,
}

impl Face {
    pub open spec fn wf(self) -> bool {
        self.line_metrics matches Some(m) ==> m.wf()
    }
}

/// One character of a text span, with what the font and the line-break
/// classifier report of it, in whole pixels.
#[derive(Debug, Clone, Copy, PartialEq, Eq, Structural)]
pub struct CharInput {
    pub parent: char,
    pub glyph_index: u16,
    pub char_data: CharacterData,
    /// The break opportunity before this character.
    pub linebreak: Linebreak,
    pub advance_width: i32,
    /// Left edge of the bounding box relative to the pen position.
    pub xmin: i32,
    /// Bottom edge of the bounding box relative to the baseline.
    pub ymin: i32,
    /// Height of the bounding box.
    pub bounds_height: i32,
    /// Raster width.
    pub width: usize,
    /// Raster height.
    pub height: usize,
}

impl CharInput {
    pub open spec fn wf(self) -> bool {
        &&& -MAX_METRIC <= self.advance_width <= MAX_METRIC
        &&& -MAX_METRIC <= self.xmin <= MAX_METRIC
        &&& -MAX_METRIC <= self.ymin <= MAX_METRIC
        &&& -MAX_METRIC <= self.bounds_height <= MAX_METRIC
    }
}

/// Key that identifies a rasterized glyph: glyph index, size and font.
#[derive(Debug, Clone, Copy, PartialEq, Eq, Hash, Structural)]
pub struct GlyphRasterConfig {
    pub glyph_index: u16,
    pub px: u32,
    pub font_hash: usize,
}

/// A positioned glyph or inline block. `(x, y)` is the corner of the bounding
/// box such that `(x + width, y + height)` is the opposite corner.
#[derive(Debug, Clone, Copy)]
pub struct GlyphPosition<U> {
    /// Absent for inline blocks.
    pub key: Option<GlyphRasterConfig>,
    pub font_hash: usize,
    pub parent: char,
    pub x: i64,
    pub y: i64,
    pub width: usize,
    pub height: usize,
    pub char_data: CharacterData,
    pub user_data: U,
}

} // verus!
