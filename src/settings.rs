use vstd::prelude::*;

verus! {

/// Horizontal alignment of text inside a region with a maximum width.
#[derive(Debug, Clone, Copy, PartialEq, Eq, Structural)]
pub enum HorizontalAlign {
    /// Lines start at the left edge of the region.
    Left,
    /// Lines are centered in the region.
    Center,
    /// Lines end at the right edge of the region.
    Right,
    /// Lines start at the left edge, and wrapped lines are stretched to the full width.
    Justify,
}

/// Vertical alignment of text inside a region with a maximum height.
#[derive(Debug, Clone, Copy, PartialEq, Eq, Structural)]
pub enum VerticalAlign {
    Top,
    Middle,
    Bottom,
}

/// Where lines may be wrapped when the maximum width is reached.
#[derive(Debug, Clone, Copy, PartialEq, Eq, Structural)]
pub enum WrapStyle {
    /// Wrap at the break opportunities that the line-break classifier reports.
    Word,
    /// Wrap after the nearest letter.
    Letter,
}

/// The direction in which the Y coordinate grows.
#[derive(Debug, Clone, Copy, PartialEq, Eq, Structural)]
pub enum CoordinateSystem {
    PositiveYUp,
    PositiveYDown,
}

/// Constraints of one layout pass. All lengths are whole pixels.
#[derive(Debug, Clone, Copy, PartialEq, Eq, Structural)]
pub struct LayoutSettings {
    /// The left edge of the region.
    pub x: i32,
    /// The top edge of the region.
    pub y: i32,
    /// An optional right boundary: lines that would cross it are wrapped.
    pub max_width: Option<u32>,
    /// An optional bottom boundary, used by vertical alignment.
    pub max_height: Option<u32>,
    /// Ignored without a maximum width.
    pub horizontal_align: HorizontalAlign,
    /// Ignored without a maximum height.
    pub vertical_align: VerticalAlign,
    pub wrap_style: WrapStyle,
    /// Whether hard breaks (new line characters) start a new line.
    pub wrap_hard_breaks: bool,
}

/// The width or height that stands for "no bound".
pub const UNBOUNDED: i64 = 0x4_0000_0000_0000;

impl LayoutSettings {
    pub open spec fn default_spec() -> LayoutSettings {
        LayoutSettings {
            x: 0,
            y: 0,
            max_width: None,
            max_height: None,
            horizontal_align: HorizontalAlign::Left,
            vertical_align: VerticalAlign::Top,
            wrap_style: WrapStyle::Word,
            wrap_hard_breaks: true,
        }
    }
}

impl Default for LayoutSettings {
    fn default() -> (r: LayoutSettings)
        ensures
            r == LayoutSettings::default_spec(),
    {
        LayoutSettings {
            x: 0,
            y: 0,
            max_width: None,
            max_height: None,
            horizontal_align: HorizontalAlign::Left,
            vertical_align: VerticalAlign::Top,
            wrap_style: WrapStyle::Word,
            wrap_hard_breaks: true,
        }
    }
}

/// The effective bound of an optional extent.
pub open spec fn extent_of(v: Option<u32>) -> int {
    match v {
        Some(w) => w as int,
        None => UNBOUNDED as int,
    }
}

/// Horizontal alignment as a multiple of one half of the free space:
/// 0 when there is no maximum width.
pub open spec fn horizontal_halves(s: LayoutSettings) -> int {
    if s.max_width is None {
        0
    } else {
        match s.horizontal_align {
            HorizontalAlign::Left | HorizontalAlign::Justify => 0,
            HorizontalAlign::Center => 1,
            HorizontalAlign::Right => 2,
        }
    }
}

/// Vertical alignment as a multiple of one half of the free space:
/// 0 when there is no maximum height.
pub open spec fn vertical_halves(s: LayoutSettings) -> int {
    if s.max_height is None {
        0
    } else {
        match s.vertical_align {
            VerticalAlign::Top => 0,
            VerticalAlign::Middle => 1,
            VerticalAlign::Bottom => 2,
        }
    }
}

/// Justification applies only within a maximum width.
pub open spec fn justifies(s: LayoutSettings) -> bool {
    s.horizontal_align == HorizontalAlign::Justify && s.max_width is Some
}

pub fn effective_extent(v: Option<u32>) -> (r: i64)
    ensures
        r == extent_of(v),
{
    match v {
        Some(w) => w as i64,
        None => UNBOUNDED,
    }
}

pub fn horizontal_factor(s: &LayoutSettings) -> (r: u8)
    ensures
        r == horizontal_halves(*s),
{
    match s.max_width {
        None => 0,
        Some(_) => match s.horizontal_align {
            HorizontalAlign::Left | HorizontalAlign::Justify => 0,
            HorizontalAlign::Center => 1,
            HorizontalAlign::Right => 2,
        },
    }
}

pub fn vertical_factor(s: &LayoutSettings) -> (r: u8)
    ensures
        r == vertical_halves(*s),
{
    match s.max_height {
        None => 0,
        Some(_) => match s.vertical_align {
            VerticalAlign::Top => 0,
            VerticalAlign::Middle => 1,
            VerticalAlign::Bottom => 2,
        },
    }
}

} // verus!
