use vstd::prelude::*;
use crate::arith::{ceil_div, ceil_div_i128, clamp, floor_half, floor_half_i64};
use crate::glyph::{
    CharInput, CharacterData, Face, GlyphPosition, GlyphRasterConfig, LineMetrics, Linebreak,
    MAX_GLYPHS, MAX_METRIC,
};
use crate::settings::{
    effective_extent, extent_of, horizontal_factor, horizontal_halves, justifies, vertical_factor,
    vertical_halves, CoordinateSystem, HorizontalAlign, LayoutSettings, WrapStyle, UNBOUNDED,
};
use crate::span::{Block, BlockAlign, Span, SpanParams};

verus! {

/// The largest advance of one glyph or block, in pixels.
pub const STEP: i64 = 0x20_0000;

/// The largest magnitude of a pen position.
pub const POS_LIMIT: i64 = 0x200_0000_0000;

/// The largest magnitude of a line's padding.
pub const PAD_LIMIT: i64 = 0x8_0000_0000_0000;

/// Glyph x coordinates before finalization stay within this magnitude.
pub const X_LIMIT: i64 = 0x10_0000_0000_0000;

/// Glyph y offsets before finalization stay within this magnitude.
pub const Y_LIMIT: i64 = 0x40_0000;

/// The largest vertical advance of one line.
pub const LINE_ADVANCE_LIMIT: i64 = 0x8000_0000;

/// Metrics of a laid out line.
#[derive(Debug, Clone, Copy, PartialEq, Eq, Structural)]
pub struct LinePosition {
    /// The y coordinate of the baseline, set by finalization.
    pub baseline_y: i64,
    /// Free horizontal space left at the end of the line before alignment;
    /// `UNBOUNDED` without a maximum width.
    pub padding: i64,
    /// The largest ascent of the styles on the line.
    pub max_ascent: i64,
    /// The smallest descent of the styles on the line.
    pub min_descent: i64,
    pub max_line_gap: i64,
    /// The largest `ascent - descent + line_gap` of the styles on the line.
    pub max_new_line_size: i64,
    /// The largest line height multiplier on the line, in hundredths.
    pub line_height: Option<u16>,
    /// Index of the first glyph of the line.
    pub glyph_start: usize,
    /// Index of the last glyph of the line.
    pub glyph_end: usize,
    /// The pen position at which the line starts in the first pass.
    pub tracking_x: i64,
}

impl LinePosition {
    pub open spec fn default_spec() -> LinePosition {
        LinePosition {
            baseline_y: 0,
            padding: 0,
            max_ascent: 0,
            min_descent: 0,
            max_line_gap: 0,
            max_new_line_size: 0,
            line_height: None,
            glyph_start: 0,
            glyph_end: 0,
            tracking_x: 0,
        }
    }

    /// The vertical space the line takes: its new line size times its multiplier,
    /// rounded up to a whole pixel.
    pub open spec fn advance(self) -> int {
        match self.line_height {
            None => self.max_new_line_size as int,
            Some(p) => ceil_div(self.max_new_line_size * p, 100),
        }
    }

    pub open spec fn bounded(self) -> bool {
        &&& 0 <= self.max_ascent <= MAX_METRIC
        &&& -MAX_METRIC <= self.min_descent <= 0
        &&& 0 <= self.max_line_gap <= MAX_METRIC
        &&& 0 <= self.max_new_line_size <= 2 * MAX_METRIC
        &&& -PAD_LIMIT <= self.padding <= PAD_LIMIT
        &&& -POS_LIMIT <= self.tracking_x <= POS_LIMIT
    }

    pub proof fn lemma_advance_bounds(self)
        requires
            self.bounded(),
        ensures
            0 <= self.advance() <= LINE_ADVANCE_LIMIT,
    {
        if let Some(p) = self.line_height {
            assert(0 <= self.max_new_line_size * p <= 0x20_0000 * 0x1_0000) by (nonlinear_arith)
                requires 0 <= self.max_new_line_size <= 0x20_0000, 0 <= p <= 0xffff;
            crate::arith::lemma_ceil_div_bounds(self.max_new_line_size * p, 100);
        }
    }

    fn advance_exec(&self) -> (r: i64)
        requires
            self.bounded(),
        ensures
            r == self.advance(),
            0 <= r <= LINE_ADVANCE_LIMIT,
    {
        match self.line_height {
            None => self.max_new_line_size,
            Some(p) => {
                proof {
                    assert(0 <= self.max_new_line_size * p <= 0x20_0000 * 0x1_0000) by (nonlinear_arith)
                        requires 0 <= self.max_new_line_size <= 0x20_0000, 0 <= p <= 0xffff;
                }
                let n: i128 = self.max_new_line_size as i128 * p as i128;
                proof {
                    crate::arith::lemma_ceil_div_bounds(n as int, 100);
                }
                ceil_div_i128(n, 100) as i64
            },
        }
    }
}

impl Default for LinePosition {
    fn default() -> (r: LinePosition)
        ensures
            r == LinePosition::default_spec(),
    {
        LinePosition {
            baseline_y: 0,
            padding: 0,
            max_ascent: 0,
            min_descent: 0,
            max_line_gap: 0,
            max_new_line_size: 0,
            line_height: None,
            glyph_start: 0,
            glyph_end: 0,
            tracking_x: 0,
        }
    }
}

/// The first-pass state of a layout: what `append` reads and changes.
pub struct Tracking<U> {
    pub glyphs: Seq<GlyphPosition<U>>,
    pub lines: Seq<LinePosition>,
    pub height: int,
    pub linebreak_prev: Linebreak,
    pub linebreak_pos: int,
    pub linebreak_idx: int,
    pub prev_not_whitespace: bool,
    pub line_end_pos: int,
    pub line_end_idx: int,
    pub current_pos: int,
    pub start_pos: int,
}

/// What the first pass reads of a layout's settings and current style.
pub struct Config {
    pub flip: bool,
    pub wrap_soft: bool,
    pub wrap_hard: bool,
    pub wrap_by_letter: bool,
    pub justify: bool,
    /// A maximum width is set.
    pub bounded: bool,
    pub max_width: i64,
    pub current_ascent: i64,
    pub current_descent: i64,
    pub current_line_gap: i64,
    pub current_new_line: i64,
    pub current_line_height: Option<u16>,
}

impl Config {
    /// The padding of a line that uses `used` pixels: what is left of the
    /// maximum width, or `UNBOUNDED` without one.
    pub open spec fn padding_for(self, used: int) -> int {
        if self.bounded {
            self.max_width - used
        } else {
            UNBOUNDED as int
        }
    }

    /// Before a glyph: a break at least as strong as the best one of the line
    /// becomes the candidate, at the pen, after the previous glyph; the end of
    /// a visible run (a visible glyph followed by whitespace, or any glyph when
    /// wrapping by letter) becomes the line end.
    pub open spec fn noted<U>(self, t: Tracking<U>, linebreak: Linebreak, whitespace: bool) -> Tracking<U> {
        let prev_idx: int = if t.glyphs.len() == 0 { 0 } else { t.glyphs.len() - 1 };
        let t1 = if linebreak.rank() >= t.linebreak_prev.rank() {
            Tracking { linebreak_prev: linebreak, linebreak_pos: t.current_pos, linebreak_idx: prev_idx, ..t }
        } else {
            t
        };
        if t1.prev_not_whitespace && (self.wrap_by_letter || whitespace) {
            Tracking { line_end_pos: t1.current_pos, line_end_idx: prev_idx, ..t1 }
        } else {
            t1
        }
    }

    /// A line break: the last line ends at the line end, with the width left
    /// there as padding (handed out to its whitespace when justifying a break
    /// that is not hard), and a line opens after the break candidate.
    pub open spec fn broken<U>(self, t: Tracking<U>, hard: bool) -> Tracking<U> {
        let last = t.lines.last();
        let k = ws_count(t.glyphs, last.glyph_start as int, t.line_end_idx);
        let padding = self.max_width - (t.line_end_pos - t.start_pos);
        let just = self.justify && !hard && k > 0;
        let closed = LinePosition {
            glyph_end: t.line_end_idx as usize,
            padding: if just { 0 } else { self.padding_for(t.line_end_pos - t.start_pos) as i64 },
            ..last
        };
        let opened = LinePosition {
            baseline_y: 0,
            padding: 0,
            max_ascent: self.current_ascent,
            min_descent: self.current_descent,
            max_line_gap: self.current_line_gap,
            max_new_line_size: self.current_new_line,
            line_height: self.current_line_height,
            glyph_start: (t.linebreak_idx + 1) as usize,
            glyph_end: 0,
            tracking_x: t.linebreak_pos as i64,
        };
        Tracking {
            glyphs: if just {
                Seq::new(t.glyphs.len(), |i: int|
                    if last.glyph_start <= i < t.line_end_idx {
                        justified(t.glyphs, last.glyph_start as int, i, padding, k)
                    } else {
                        t.glyphs[i]
                    })
            } else {
                t.glyphs
            },
            lines: t.lines.update(t.lines.len() - 1, closed).push(opened),
            height: t.height + closed.advance(),
            linebreak_prev: Linebreak::NoBreak,
            start_pos: t.linebreak_pos,
            ..t
        }
    }

    /// Whether placing a glyph breaks the line first: at a hard break (where
    /// honored), or when a visible glyph would cross the maximum width.
    pub open spec fn fires<U>(self, t: Tracking<U>, linebreak: Linebreak, advance: int, whitespace: bool, honor_hard: bool) -> bool {
        (honor_hard && linebreak == Linebreak::Hard)
            || (t.current_pos - t.start_pos + advance > self.max_width && !whitespace)
    }

    /// One glyph placed at the pen, which then advances.
    pub open spec fn placed<U>(self, t: Tracking<U>, linebreak: Linebreak, advance: int, g: GlyphPosition<U>, honor_hard: bool) -> Tracking<U> {
        let ws = g.char_data.whitespace;
        let t1 = self.noted(t, linebreak, ws);
        let t2 = if self.fires(t1, linebreak, advance, ws, honor_hard) {
            self.broken(t1, linebreak == Linebreak::Hard)
        } else {
            t1
        };
        Tracking { glyphs: t2.glyphs.push(g), current_pos: t2.current_pos + advance, prev_not_whitespace: !ws, ..t2 }
    }

    /// One character of a text span laid out.
    pub open spec fn char_step<U>(self, t: Tracking<U>, c: CharInput, font_hash: usize, px: u32, kerning: i32, rise: i32, user_data: U) -> Tracking<U> {
        self.placed(
            t,
            masked(c.linebreak, self.wrap_soft, self.wrap_hard),
            char_advance(c, kerning),
            text_glyph(c, font_hash, px, rise, self.flip, t.current_pos, user_data),
            true,
        )
    }

    /// The first `j` characters of `cs` laid out.
    pub open spec fn chars_run<U>(self, t: Tracking<U>, cs: Seq<CharInput>, j: int, font_hash: usize, px: u32, kerning: i32, rise: i32, user_data: U) -> Tracking<U>
        decreases j,
    {
        if j <= 0 {
            t
        } else {
            self.char_step(self.chars_run(t, cs, j - 1, font_hash, px, kerning, rise, user_data), cs[j - 1], font_hash, px, kerning, rise, user_data)
        }
    }

    /// After a span: the last line's padding is what is left of the width and
    /// it ends at the last glyph.
    pub open spec fn finished<U>(self, t: Tracking<U>) -> Tracking<U> {
        Tracking {
            lines: t.lines.update(t.lines.len() - 1, LinePosition {
                padding: self.padding_for(t.current_pos - t.start_pos) as i64,
                glyph_end: (t.glyphs.len() - 1) as usize,
                ..t.lines.last()
            }),
            ..t
        }
    }

    /// The last line with the current style folded in.
    pub open spec fn styled<U>(self, t: Tracking<U>) -> Tracking<U> {
        Tracking {
            lines: t.lines.update(t.lines.len() - 1, folded(
                t.lines.last(),
                self.current_ascent,
                self.current_descent,
                self.current_line_gap,
                self.current_new_line,
                self.current_line_height,
            )),
            ..t
        }
    }
}

/// The layout engine. It is reused across passes: `reset`, then `append`
/// spans, then `finalize`, then read `glyphs` and `lines`.
pub struct Layout<U> {
    /// Positive Y grows downwards.
    pub flip: bool,
    pub x: i64,
    pub y: i64,
    /// Soft breaks may wrap lines.
    pub wrap_soft: bool,
    /// Hard breaks start new lines.
    pub wrap_hard: bool,
    pub max_width: i64,
    pub max_height: i64,
    /// How text fills free vertical space, in halves.
    pub vertical_align: u8,
    /// How text fills free horizontal space, in halves.
    pub horizontal_align: u8,
    /// Height of all closed lines.
    pub height: i64,
    pub base_font: Face,
    pub base_px: u32,
    /// Finalized glyphs.
    pub output: Vec<GlyphPosition<U>>,
    /// Glyphs of the first pass, with x relative to the tracking position.
    pub glyphs: Vec<GlyphPosition<U>>,
    /// The strongest break opportunity seen on the current line.
    pub linebreak_prev: Linebreak,
    /// The pen position at that opportunity.
    pub linebreak_pos: i64,
    /// The index of the glyph before that opportunity.
    pub linebreak_idx: usize,
    pub prev_not_whitespace: bool,
    /// The pen position where the visible content of the line ends.
    pub line_end_pos: i64,
    /// The index of the last visible glyph of the line.
    pub line_end_idx: usize,
    /// Always holds at least one line.
    pub line_metrics: Vec<LinePosition>,
    /// The pen position of the next glyph.
    pub current_pos: i64,
    pub current_ascent: i64,
    pub current_descent: i64,
    pub current_line_gap: i64,
    pub current_new_line: i64,
    pub current_line_height: Option<u16>,
    /// The pen position at which the current line starts.
    pub start_pos: i64,
    pub justify: bool,
    pub wrap_by_letter: bool,
    pub settings: LayoutSettings,
}

/// A break of strength `b`, with the kinds that `soft` and `hard` disable taken out.
pub open spec fn masked(b: Linebreak, soft: bool, hard: bool) -> Linebreak {
    match b {
        Linebreak::Soft => if soft { Linebreak::Soft } else { Linebreak::NoBreak },
        Linebreak::Hard => if hard { Linebreak::Hard } else { Linebreak::NoBreak },
        Linebreak::NoBreak => Linebreak::NoBreak,
    }
}

fn mask(b: Linebreak, soft: bool, hard: bool) -> (r: Linebreak)
    ensures
        r == masked(b, soft, hard),
{
    match b {
        Linebreak::Soft => if soft { Linebreak::Soft } else { Linebreak::NoBreak },
        Linebreak::Hard => if hard { Linebreak::Hard } else { Linebreak::NoBreak },
        Linebreak::NoBreak => Linebreak::NoBreak,
    }
}

/// Sum of the advances of the lines before line `l`.
pub open spec fn offset_before(lines: Seq<LinePosition>, l: int) -> int
    decreases l,
{
    if l <= 0 {
        0
    } else {
        offset_before(lines, l - 1) + lines[l - 1].advance()
    }
}

/// Glyph `i` is emitted with line `l`: the first line whose range reaches it.
pub open spec fn emits(lines: Seq<LinePosition>, l: int, i: int) -> bool {
    &&& 0 <= l < lines.len()
    &&& i <= lines[l].glyph_end
    &&& forall|m: int| 0 <= m < l ==> lines[m].glyph_end < i
}

/// `g` moved by `(dx, dy)`.
pub open spec fn moved<U>(g: GlyphPosition<U>, dx: int, dy: int) -> GlyphPosition<U> {
    GlyphPosition { x: (g.x + dx) as i64, y: (g.y + dy) as i64, ..g }
}

/// `i` indexes one of `n` glyphs, or is 0 (where nothing was laid out yet).
pub open spec fn index_ok(i: usize, n: nat) -> bool {
    i == 0 || i < n
}


/// Line `l` with the metrics of one more style folded in: the largest ascent,
/// line gap, new line size and multiplier, the smallest descent.
pub open spec fn folded(
    l: LinePosition,
    ascent: i64,
    descent: i64,
    line_gap: i64,
    new_line: i64,
    line_height: Option<u16>,
) -> LinePosition {
    LinePosition {
        max_ascent: if ascent > l.max_ascent { ascent } else { l.max_ascent },
        min_descent: if descent < l.min_descent { descent } else { l.min_descent },
        max_line_gap: if line_gap > l.max_line_gap { line_gap } else { l.max_line_gap },
        max_new_line_size: if new_line > l.max_new_line_size { new_line } else { l.max_new_line_size },
        line_height: match line_height {
            None => l.line_height,
            Some(h) => match l.line_height {
                Some(o) => Some(if o > h { o } else { h }),
                None => Some(h),
            },
        },
        ..l
    }
}

/// The number of whitespace glyphs among `g[a..b]`.
pub open spec fn ws_count<U>(g: Seq<GlyphPosition<U>>, a: int, b: int) -> int
    decreases b - a,
{
    if b <= a {
        0
    } else {
        ws_count(g, a, b - 1) + if g[b - 1].char_data.whitespace { 1int } else { 0int }
    }
}

/// The shift that justification gives glyph `i` of a line starting at `start`:
/// `padding / k` for each whitespace glyph before it, rounded up.
pub open spec fn justify_shift<U>(g: Seq<GlyphPosition<U>>, start: int, i: int, padding: int, k: int) -> int {
    ceil_div(ws_count(g, start, i) * padding, k)
}

/// Glyph `i` of `g` after justification of a line that starts at `start`.
pub open spec fn justified<U>(g: Seq<GlyphPosition<U>>, start: int, i: int, padding: int, k: int) -> GlyphPosition<U> {
    GlyphPosition {
        x: clamp(g[i].x + justify_shift(g, start, i, padding, k), X_LIMIT as int) as i64,
        ..g[i]
    }
}

pub proof fn lemma_ws_count_bounds<U>(g: Seq<GlyphPosition<U>>, a: int, b: int)
    ensures
        0 <= ws_count(g, a, b),
        a <= b ==> ws_count(g, a, b) <= b - a,
    decreases b - a,
{
    if b > a {
        lemma_ws_count_bounds(g, a, b - 1);
    }
}

pub proof fn lemma_ws_count_mono<U>(g: Seq<GlyphPosition<U>>, a: int, b: int, c: int)
    requires
        a <= b <= c,
    ensures
        ws_count(g, a, b) <= ws_count(g, a, c),
    decreases c - b,
{
    if c > b {
        lemma_ws_count_mono(g, a, b, c - 1);
    }
}

/// `x` moved by `ceil_div(j * padding, k)`, held within `X_LIMIT`.
fn shifted_x(x: i64, j: usize, k: usize, padding: i64) -> (r: i64)
    requires
        0 <= j <= k <= MAX_GLYPHS,
        0 < k,
        -PAD_LIMIT <= padding <= PAD_LIMIT,
    ensures
        r == clamp(x + ceil_div(j * padding, k as int), X_LIMIT as int),
{
    proof {
        assert(-0x10_0000 * PAD_LIMIT <= j * padding <= 0x10_0000 * PAD_LIMIT) by (nonlinear_arith)
            requires 0 <= j <= 0x10_0000, -PAD_LIMIT <= padding <= PAD_LIMIT;
    }
    let shift = ceil_div_i128(j as i128 * padding as i128, k as i128);
    proof {
        crate::arith::lemma_ceil_div_bounds(j * padding, k as int);
        let b: int = 0x10_0000 * PAD_LIMIT + 1;
        if shift > b {
            assert(k * shift > k * b) by (nonlinear_arith)
                requires shift > b, k > 0;
            assert(k * b >= b) by (nonlinear_arith)
                requires k >= 1, b > 0;
        }
        if shift < -b {
            assert(k * shift < k * (-b)) by (nonlinear_arith)
                requires shift < -b, k > 0;
            assert(k * (-b) <= -b) by (nonlinear_arith)
                requires k >= 1, b > 0;
        }
    }
    let moved: i128 = x as i128 + shift;
    if moved > X_LIMIT as i128 {
        X_LIMIT
    } else if moved < -(X_LIMIT as i128) {
        -X_LIMIT
    } else {
        moved as i64
    }
}

/// Stretches the glyphs `g[start..end]` so that the line fills its padding:
/// each glyph moves by `justify_shift`. Returns the number of whitespace glyphs;
/// with none, nothing moves.
fn justify_line<U: Copy>(g: &mut Vec<GlyphPosition<U>>, start: usize, end: usize, padding: i64) -> (k: usize)
    requires
        end <= old(g)@.len() <= MAX_GLYPHS,
        -PAD_LIMIT <= padding <= PAD_LIMIT,
    ensures
        k == ws_count(old(g)@, start as int, end as int),
        final(g)@.len() == old(g)@.len(),
        forall|i: int| k > 0 && start <= i < end ==> #[trigger] final(g)@[i] == justified(old(g)@, start as int, i, padding as int, k as int),
        forall|i: int| 0 <= i < old(g)@.len() && !(k > 0 && start <= i < end) ==> #[trigger] final(g)@[i] == old(g)@[i],
{
    let ghost g0 = g@;
    let mut k: usize = 0;
    let mut i: usize = start;
    if start < end {
        while i < end
            invariant
                start <= i <= end <= g@.len() <= MAX_GLYPHS,
                g@ == g0,
                k == ws_count(g0, start as int, i as int),
                k <= i - start,
            decreases end - i,
        {
            if g[i].char_data.whitespace {
                k = k + 1;
            }
            i = i + 1;
        }
    }
    proof {
        if start >= end {
            assert(ws_count(g0, start as int, end as int) == 0);
        }
    }
    if k == 0 {
        return k;
    }
    let mut j: usize = 0;
    let mut i: usize = start;
    while i < end
        invariant
            start <= i <= end <= g@.len() <= MAX_GLYPHS,
            g@.len() == g0.len(),
            k == ws_count(g0, start as int, end as int),
            0 < k <= MAX_GLYPHS,
            j == ws_count(g0, start as int, i as int),
            j <= i - start,
            -PAD_LIMIT <= padding <= PAD_LIMIT,
            forall|m: int| start <= m < i ==> #[trigger] g@[m] == justified(g0, start as int, m, padding as int, k as int),
            forall|m: int| 0 <= m < g0.len() && !(start <= m < i) ==> #[trigger] g@[m] == g0[m],
        decreases end - i,
    {
        let o = g[i];
        proof {
            lemma_ws_count_mono(g0, start as int, i as int, end as int);
        }
        let x = shifted_x(o.x, j, k, padding);
        let w = o.char_data.whitespace;
        g.set(i, GlyphPosition { x, ..o });
        proof {
            assert(g@[i as int] == justified(g0, start as int, i as int, padding as int, k as int));
        }
        if w {
            j = j + 1;
        }
        i = i + 1;
        proof {
            lemma_ws_count_bounds(g0, start as int, end as int);
        }
    }
    k
}

/// `a` and `b` agree in everything but `x`.
pub open spec fn same_but_x<U>(a: GlyphPosition<U>, b: GlyphPosition<U>) -> bool {
    GlyphPosition { x: a.x, ..b } == a
}

/// What a character advances the pen by: its advance width (none for a
/// control character) plus the span's kerning.
pub open spec fn char_advance(c: CharInput, kerning: i32) -> int {
    (if c.char_data.control { 0int } else { c.advance_width as int }) + kerning
}

/// The pen advance of the first `j` characters of `t`.
pub open spec fn pen_after(t: Seq<CharInput>, kerning: i32, j: int) -> int
    decreases j,
{
    if j <= 0 {
        0
    } else {
        pen_after(t, kerning, j - 1) + char_advance(t[j - 1], kerning)
    }
}

/// The first-pass glyph of character `c` with its pen at `pen`. A control
/// character has no extent.
pub open spec fn text_glyph<U>(
    c: CharInput,
    font_hash: usize,
    px: u32,
    rise: i32,
    flip: bool,
    pen: int,
    user_data: U,
) -> GlyphPosition<U> {
    let control = c.char_data.control;
    let xmin: int = if control { 0 } else { c.xmin as int };
    let ymin: int = if control { 0 } else { c.ymin as int };
    let bh: int = if control { 0 } else { c.bounds_height as int };
    GlyphPosition {
        key: Some(GlyphRasterConfig { glyph_index: c.glyph_index, px, font_hash }),
        font_hash,
        parent: c.parent,
        x: (pen + xmin) as i64,
        y: (if flip { -bh - ymin - rise } else { ymin + rise }) as i64,
        width: if control { 0 } else { c.width },
        height: if control { 0 } else { c.height },
        char_data: c.char_data,
        user_data,
    }
}

/// Ascent, descent, line gap and new line size of an inline block. A block
/// aligned to the middle takes the font's ascent to descent ratio, scaled to
/// its height and rounded up, and the font's line gap; otherwise (or when the
/// font has no vertical extent) it stands on the baseline.
pub open spec fn block_metrics(b: Block, m: Option<LineMetrics>) -> (int, int, int, int) {
    let h = b.height as int;
    if b.align == BlockAlign::Middle && m is Some && m->0.ascent - m->0.descent > 0 {
        let lm = m->0;
        let fh = lm.ascent - lm.descent;
        (ceil_div(lm.ascent * h, fh), ceil_div(lm.descent * h, fh), lm.line_gap as int, h + lm.line_gap)
    } else {
        (h, 0, 0, h)
    }
}

/// The first-pass glyph of an inline block with its pen at `pen`.
pub open spec fn block_glyph<U>(
    b: Block,
    font_hash: usize,
    flip: bool,
    ascent: int,
    descent: int,
    pen: int,
    user_data: U,
) -> GlyphPosition<U> {
    GlyphPosition {
        key: None,
        font_hash,
        parent: 'x',
        x: pen as i64,
        y: (if flip { -ascent } else { descent }) as i64,
        width: b.width,
        height: b.height,
        char_data: CharacterData { whitespace: false, control: false, missing: true },
        user_data,
    }
}

/// The number of glyphs a span adds: one per character, one for a block of
/// nonzero size.
pub open spec fn span_len<U>(span: Span<U>) -> int {
    match span.params {
        SpanParams::Text(t) => t@.len() as int,
        SpanParams::Block(b) => if b.width == 0 || b.height == 0 { 0 } else { 1 },
    }
}

proof fn lemma_block_ratio(a: int, fh: int, h: int)
    requires
        0 <= a <= fh,
        0 < fh,
        0 <= h,
    ensures
        0 <= ceil_div(a * h, fh) <= h,
        -h <= ceil_div(-a * h, fh) <= 0,
{
    crate::arith::lemma_ceil_div_bounds(a * h, fh);
    crate::arith::lemma_ceil_div_bounds(-a * h, fh);
    let q = ceil_div(a * h, fh);
    let r = ceil_div(-a * h, fh);
    assert(0 <= a * h <= fh * h) by (nonlinear_arith)
        requires 0 <= a <= fh, 0 <= h;
    assert(-a * h == -(a * h)) by (nonlinear_arith);
    if q < 0 {
        assert(fh * q < 0) by (nonlinear_arith)
            requires q < 0, fh > 0;
    }
    if q > h {
        assert(fh * q >= fh * (h + 1)) by (nonlinear_arith)
            requires q >= h + 1, fh > 0;
        assert(fh * (h + 1) == fh * h + fh) by (nonlinear_arith);
    }
    if r > 0 {
        assert(fh * r >= fh) by (nonlinear_arith)
            requires r >= 1, fh > 0;
    }
    if r < -h {
        assert(fh * r <= fh * (-h - 1)) by (nonlinear_arith)
            requires r <= -h - 1, fh > 0;
        assert(fh * (-h - 1) == -(fh * h) - fh) by (nonlinear_arith);
    }
}

/// The offset before line `l` depends only on the advances of the lines before it.
pub proof fn lemma_offset_frame(a: Seq<LinePosition>, b: Seq<LinePosition>, l: int)
    requires
        0 <= l <= a.len(),
        l <= b.len(),
        forall|m: int| 0 <= m < l ==> (#[trigger] a[m]).advance() == b[m].advance(),
    ensures
        offset_before(a, l) == offset_before(b, l),
    decreases l,
{
    if l > 0 {
        lemma_offset_frame(a, b, l - 1);
    }
}

pub proof fn lemma_offset_bounds(lines: Seq<LinePosition>, l: int)
    requires
        0 <= l <= lines.len(),
        forall|m: int| 0 <= m < lines.len() ==> (#[trigger] lines[m]).bounded(),
    ensures
        0 <= offset_before(lines, l) <= l * LINE_ADVANCE_LIMIT,
    decreases l,
{
    if l > 0 {
        lemma_offset_bounds(lines, l - 1);
        lines[l - 1].lemma_advance_bounds();
    }
}

/// The y coordinate `v` pixels further down the text from `b`: Y grows
/// downwards when `flip` holds.
pub open spec fn down(flip: bool, b: int, v: int) -> int {
    if flip { b + v } else { b - v }
}

/// The characters that produced a sequence of glyphs.
pub open spec fn parents<U>(g: Seq<GlyphPosition<U>>) -> Seq<char> {
    g.map_values(|x: GlyphPosition<U>| x.parent)
}

/// The characters that a span lays out: its text, or `'x'` for a block of
/// nonzero size.
pub open spec fn span_chars<U>(span: Span<U>) -> Seq<char> {
    match span.params {
        SpanParams::Text(t) => t@.map_values(|c: CharInput| c.parent),
        SpanParams::Block(b) => if b.width == 0 || b.height == 0 { Seq::empty() } else { seq!['x'] },
    }
}

impl<U: Copy> Layout<U> {
    pub open spec fn settings_consistent(&self) -> bool {
        let s = self.settings;
        &&& self.x == s.x
        &&& self.y == s.y
        &&& self.wrap_soft == (s.wrap_style == WrapStyle::Word && s.max_width is Some)
        &&& self.wrap_hard == s.wrap_hard_breaks
        &&& self.max_width == extent_of(s.max_width)
        &&& self.max_height == extent_of(s.max_height)
        &&& self.vertical_align == vertical_halves(s)
        &&& self.horizontal_align == horizontal_halves(s)
        &&& self.justify == justifies(s)
        &&& self.wrap_by_letter == (s.wrap_style == WrapStyle::Letter)
    }

    /// What holds between characters.
    pub open spec fn inv(&self) -> bool {
        let n = self.glyphs@.len();
        let lines = self.line_metrics@;
        &&& self.settings_consistent()
        &&& self.base_font.wf()
        &&& n <= MAX_GLYPHS
        &&& 1 <= lines.len() <= n + 2
        &&& -(n * STEP) <= self.current_pos <= n * STEP
        &&& -POS_LIMIT <= self.start_pos <= POS_LIMIT
        &&& -POS_LIMIT <= self.linebreak_pos <= POS_LIMIT
        &&& -POS_LIMIT <= self.line_end_pos <= POS_LIMIT
        &&& index_ok(self.linebreak_idx, n)
        &&& index_ok(self.line_end_idx, n)
        &&& 0 <= self.current_ascent <= MAX_METRIC
        &&& -MAX_METRIC <= self.current_descent <= 0
        &&& 0 <= self.current_line_gap <= MAX_METRIC
        &&& 0 <= self.current_new_line <= 2 * MAX_METRIC
        &&& 0 <= self.height <= (lines.len() - 1) * LINE_ADVANCE_LIMIT
        &&& self.height == offset_before(lines, lines.len() - 1)
        &&& forall|l: int| 0 <= l < lines.len() ==> (#[trigger] lines[l]).bounded()
        &&& forall|l: int| 0 <= l < lines.len() ==> index_ok((#[trigger] lines[l]).glyph_end, n)
        &&& forall|i: int| 0 <= i < n ==> -X_LIMIT <= (#[trigger] self.glyphs@[i]).x <= X_LIMIT
        &&& forall|i: int| 0 <= i < n ==> -Y_LIMIT <= (#[trigger] self.glyphs@[i]).y <= Y_LIMIT
    }

    /// Well-formed between calls: the last line ends at the last glyph.
    pub open spec fn wf(&self) -> bool {
        &&& self.inv()
        &&& self.line_metrics@.len() <= self.glyphs@.len() + 1
        &&& self.glyphs@.len() > 0 ==> self.line_metrics@.last().glyph_end == self.glyphs@.len() - 1
    }

    /// `self` and `other` hold the same values, buffers compared by content.
    pub open spec fn same_state(&self, other: Layout<U>) -> bool {
        &&& self.glyphs@ == other.glyphs@
        &&& self.output@ == other.output@
        &&& self.line_metrics@ == other.line_metrics@
        &&& (Layout { glyphs: other.glyphs, output: other.output, line_metrics: other.line_metrics, ..*self }) == other
    }

    /// The state `clear` leaves: no glyphs, one default line, pen at the origin.
    pub open spec fn is_cleared(&self) -> bool {
        &&& self.glyphs@.len() == 0
        &&& self.output@.len() == 0
        &&& self.line_metrics@ == seq![LinePosition::default_spec()]
        &&& self.linebreak_prev == Linebreak::NoBreak
        &&& self.linebreak_pos == 0
        &&& self.linebreak_idx == 0
        &&& !self.prev_not_whitespace
        &&& self.line_end_pos == 0
        &&& self.line_end_idx == 0
        &&& self.current_pos == 0
        &&& self.current_ascent == 0
        &&& self.current_descent == 0
        &&& self.current_line_gap == 0
        &&& self.current_new_line == 0
        &&& self.current_line_height is None
        &&& self.start_pos == 0
        &&& self.height == 0
    }

    /// Height of the text: closed lines plus the new line size of the last line.
    pub open spec fn height_spec(&self) -> int {
        self.height + self.line_metrics@.last().max_new_line_size
    }

    pub fn new(font: Face, px: u32, coordinate_system: CoordinateSystem) -> (r: Layout<U>)
        requires
            font.wf(),
        ensures
            r.wf(),
            r.is_cleared(),
            r.settings == LayoutSettings::default_spec(),
            r.flip == (coordinate_system == CoordinateSystem::PositiveYDown),
            r.base_font == font,
            r.base_px == px,
    {
        let settings = LayoutSettings::default();
        let mut layout = Layout {
            flip: match coordinate_system {
                CoordinateSystem::PositiveYDown => true,
                CoordinateSystem::PositiveYUp => false,
            },
            x: 0,
            y: 0,
            wrap_soft: false,
            wrap_hard: false,
            max_width: 0,
            max_height: 0,
            vertical_align: 0,
            horizontal_align: 0,
            height: 0,
            base_font: font,
            base_px: px,
            output: Vec::new(),
            glyphs: Vec::new(),
            linebreak_prev: Linebreak::NoBreak,
            linebreak_pos: 0,
            linebreak_idx: 0,
            prev_not_whitespace: false,
            line_end_pos: 0,
            line_end_idx: 0,
            line_metrics: Vec::new(),
            current_pos: 0,
            current_ascent: 0,
            current_descent: 0,
            current_line_gap: 0,
            current_new_line: 0,
            current_line_height: None,
            start_pos: 0,
            justify: false,
            wrap_by_letter: false,
            settings,
        };
        layout.reset(&settings);
        layout
    }

    /// Changes the default font and size.
    pub fn set_base(&mut self, font: Face, px: u32)
        requires
            old(self).wf(),
            font.wf(),
        ensures
            final(self).wf(),
            *final(self) == (Layout { base_font: font, base_px: px, ..*old(self) }),
    {
        self.base_font = font;
        self.base_px = px;
    }

    /// Takes new settings and clears all appended text.
    pub fn reset(&mut self, settings: &LayoutSettings)
        requires
            old(self).base_font.wf(),
        ensures
            old(self).reset_to(*settings, *final(self)),
    {
        self.settings = *settings;
        self.x = settings.x as i64;
        self.y = settings.y as i64;
        self.wrap_soft = settings.wrap_style == WrapStyle::Word && settings.max_width.is_some();
        self.wrap_hard = settings.wrap_hard_breaks;
        self.max_width = effective_extent(settings.max_width);
        self.max_height = effective_extent(settings.max_height);
        self.vertical_align = vertical_factor(settings);
        self.horizontal_align = horizontal_factor(settings);
        self.justify = settings.horizontal_align == HorizontalAlign::Justify
            && settings.max_width.is_some();
        self.wrap_by_letter = settings.wrap_style == WrapStyle::Letter;
        self.clear();
    }

    /// Keeps the settings and clears all appended text.
    pub fn clear(&mut self)
        requires
            old(self).settings_consistent(),
            old(self).base_font.wf(),
        ensures
            final(self).wf(),
            final(self).is_cleared(),
            final(self).settings == old(self).settings,
            final(self).flip == old(self).flip,
            final(self).base_font == old(self).base_font,
            final(self).base_px == old(self).base_px,
    {
        self.glyphs.clear();
        self.output.clear();
        self.line_metrics.clear();
        self.line_metrics.push(LinePosition::default());
        self.linebreak_prev = Linebreak::NoBreak;
        self.linebreak_pos = 0;
        self.linebreak_idx = 0;
        self.prev_not_whitespace = false;
        self.line_end_pos = 0;
        self.line_end_idx = 0;
        self.current_pos = 0;
        self.current_ascent = 0;
        self.current_descent = 0;
        self.current_line_gap = 0;
        self.current_new_line = 0;
        self.current_line_height = None;
        self.start_pos = 0;
        self.height = 0;
        proof {
            assert(self.line_metrics@[0] == LinePosition::default_spec());
        }
    }

    /// Computes `padding_for`.
    fn padding_exec(&self, used: i64) -> (r: i64)
        requires
            self.inv(),
            -2 * POS_LIMIT <= used <= 2 * POS_LIMIT,
        ensures
            r == self.config().padding_for(used as int),
            -PAD_LIMIT <= r <= PAD_LIMIT,
    {
        match self.settings.max_width {
            Some(_) => self.max_width - used,
            None => UNBOUNDED,
        }
    }

    /// The line that a break closes: it ends at the last visible glyph, its
    /// padding is what is left of the width there, or 0 once justified.
    pub open spec fn closed_line(&self, hard: bool) -> LinePosition {
        let last = self.line_metrics@.last();
        let k = ws_count(self.glyphs@, last.glyph_start as int, self.line_end_idx as int);
        LinePosition {
            glyph_end: self.line_end_idx,
            padding: if self.justify && !hard && k > 0 {
                0
            } else {
                self.config().padding_for(self.line_end_pos - self.start_pos) as i64
            },
            ..last
        }
    }

    /// The line that a break opens, with the metrics of the current style.
    pub open spec fn opened_line(&self) -> LinePosition {
        LinePosition {
            baseline_y: 0,
            padding: 0,
            max_ascent: self.current_ascent,
            min_descent: self.current_descent,
            max_line_gap: self.current_line_gap,
            max_new_line_size: self.current_new_line,
            line_height: self.current_line_height,
            glyph_start: (self.linebreak_idx + 1) as usize,
            glyph_end: 0,
            tracking_x: self.linebreak_pos,
        }
    }

    /// Folds the current style's metrics into the last line.
    fn update_last_line_metrics(&mut self)
        requires
            old(self).inv(),
        ensures
            final(self).inv(),
            final(self).line_metrics@ == old(self).line_metrics@.update(
                old(self).line_metrics@.len() - 1,
                folded(
                    old(self).line_metrics@.last(),
                    old(self).current_ascent,
                    old(self).current_descent,
                    old(self).current_line_gap,
                    old(self).current_new_line,
                    old(self).current_line_height,
                ),
            ),
            *final(self) == (Layout { line_metrics: final(self).line_metrics, ..*old(self) }),
            final(self).tracking() == old(self).config().styled(old(self).tracking()),
    {
        let last = self.line_metrics.len() - 1;
        let mut line = self.line_metrics[last];
        if self.current_ascent > line.max_ascent {
            line.max_ascent = self.current_ascent;
        }
        if self.current_descent < line.min_descent {
            line.min_descent = self.current_descent;
        }
        if self.current_line_gap > line.max_line_gap {
            line.max_line_gap = self.current_line_gap;
        }
        if self.current_new_line > line.max_new_line_size {
            line.max_new_line_size = self.current_new_line;
        }
        match self.current_line_height {
            Some(h) => {
                line.line_height = match line.line_height {
                    Some(o) => Some(if o > h { o } else { h }),
                    None => Some(h),
                };
            },
            None => {},
        }
        self.line_metrics.set(last, line);
        proof {
            let lines = self.line_metrics@;
            assert forall|l: int| 0 <= l < lines.len() implies (#[trigger] lines[l]).bounded()
                && index_ok(lines[l].glyph_end, self.glyphs@.len()) by {
                if l != last {
                    assert(lines[l] == old(self).line_metrics@[l]);
                }
            }
            lemma_offset_frame(old(self).line_metrics@, lines, last as int);
        }
    }

    /// Closes the last line at the best break candidate and opens a new one.
    fn perform_linebreak(&mut self, linebreak: Linebreak)
        requires
            old(self).inv(),
            old(self).line_metrics@.len() <= old(self).glyphs@.len() + 1,
        ensures
            final(self).inv(),
            final(self).line_metrics@.len() <= final(self).glyphs@.len() + 2,
            final(self).tracking() == old(self).config().broken(old(self).tracking(), linebreak == Linebreak::Hard),
            final(self).line_metrics@ == old(self).line_metrics@.update(
                old(self).line_metrics@.len() - 1,
                old(self).closed_line(linebreak == Linebreak::Hard),
            ).push(old(self).opened_line()),
            final(self).height == old(self).height + old(self).closed_line(linebreak == Linebreak::Hard).advance(),
            final(self).glyphs@.len() == old(self).glyphs@.len(),
            ({
                let last = old(self).line_metrics@.last();
                let k = ws_count(old(self).glyphs@, last.glyph_start as int, old(self).line_end_idx as int);
                let padding = old(self).max_width - (old(self).line_end_pos - old(self).start_pos);
                &&& forall|i: int|
                    old(self).justify && linebreak != Linebreak::Hard && k > 0
                        && last.glyph_start <= i < old(self).line_end_idx
                        ==> #[trigger] final(self).glyphs@[i] == justified(old(self).glyphs@, last.glyph_start as int, i, padding, k)
                &&& forall|i: int|
                    0 <= i < old(self).glyphs@.len()
                        && !(old(self).justify && linebreak != Linebreak::Hard && k > 0
                        && last.glyph_start <= i < old(self).line_end_idx)
                        ==> #[trigger] final(self).glyphs@[i] == old(self).glyphs@[i]
            }),
            *final(self) == (Layout {
                glyphs: final(self).glyphs,
                line_metrics: final(self).line_metrics,
                height: final(self).height,
                linebreak_prev: Linebreak::NoBreak,
                start_pos: old(self).linebreak_pos,
                ..*old(self)
            }),
    {
        self.linebreak_prev = Linebreak::NoBreak;
        let last = self.line_metrics.len() - 1;
        let mut line = self.line_metrics[last];
        proof {
            assert(line.bounded());
        }
        line.glyph_end = self.line_end_idx;
        line.padding = self.padding_exec(self.line_end_pos - self.start_pos);
        let advance = line.advance_exec();
        proof {
            assert(self.height + advance <= self.line_metrics@.len() * LINE_ADVANCE_LIMIT) by (nonlinear_arith)
                requires self.height <= (self.line_metrics@.len() - 1) * LINE_ADVANCE_LIMIT,
                    advance <= LINE_ADVANCE_LIMIT;
            assert(self.line_metrics@.len() * LINE_ADVANCE_LIMIT <= 0x10_0002 * LINE_ADVANCE_LIMIT) by (nonlinear_arith)
                requires self.line_metrics@.len() <= 0x10_0002;
        }
        self.height = self.height + advance;
        let next_glyph_start = self.linebreak_idx + 1;
        if self.justify && !linebreak.is_hard() {
            let start = line.glyph_start;
            let end = self.line_end_idx;
            let k = justify_line(&mut self.glyphs, start, end, line.padding);
            if k > 0 {
                line.padding = 0;
            }
        }
        self.line_metrics.set(last, line);
        self.line_metrics.push(
            LinePosition {
                baseline_y: 0,
                padding: 0,
                max_ascent: self.current_ascent,
                min_descent: self.current_descent,
                max_line_gap: self.current_line_gap,
                max_new_line_size: self.current_new_line,
                line_height: self.current_line_height,
                glyph_start: next_glyph_start,
                glyph_end: 0,
                tracking_x: self.linebreak_pos,
            },
        );
        self.start_pos = self.linebreak_pos;
        proof {
            let t = old(self).tracking();
            let b = old(self).config().broken(t, linebreak == Linebreak::Hard);
            assert(self.glyphs@ =~= b.glyphs);
            assert(self.line_metrics@ =~= b.lines);
            let lines = self.line_metrics@;
            lemma_offset_frame(old(self).line_metrics@, lines, last as int);
            assert(lines[last as int].advance() == advance);
            assert(offset_before(lines, last + 1) == offset_before(lines, last as int) + lines[last as int].advance());
            assert forall|l: int| 0 <= l < lines.len() implies (#[trigger] lines[l]).bounded()
                && index_ok(lines[l].glyph_end, self.glyphs@.len()) by {
                if l < last {
                    assert(lines[l] == old(self).line_metrics@[l]);
                }
            }
        }
    }

    /// What every step leaves alone.
    pub open spec fn same_setup(&self, other: &Layout<U>) -> bool {
        &&& self.settings == other.settings
        &&& self.flip == other.flip
        &&& self.x == other.x
        &&& self.y == other.y
        &&& self.wrap_soft == other.wrap_soft
        &&& self.wrap_hard == other.wrap_hard
        &&& self.max_width == other.max_width
        &&& self.max_height == other.max_height
        &&& self.vertical_align == other.vertical_align
        &&& self.horizontal_align == other.horizontal_align
        &&& self.justify == other.justify
        &&& self.wrap_by_letter == other.wrap_by_letter
        &&& self.base_font == other.base_font
        &&& self.base_px == other.base_px
        &&& self.output == other.output
    }

    /// The settings and style the first pass reads.
    pub open spec fn config(&self) -> Config {
        Config {
            flip: self.flip,
            wrap_soft: self.wrap_soft,
            wrap_hard: self.wrap_hard,
            wrap_by_letter: self.wrap_by_letter,
            justify: self.justify,
            bounded: self.settings.max_width is Some,
            max_width: self.max_width,
            current_ascent: self.current_ascent,
            current_descent: self.current_descent,
            current_line_gap: self.current_line_gap,
            current_new_line: self.current_new_line,
            current_line_height: self.current_line_height,
        }
    }

    /// The first-pass state.
    pub open spec fn tracking(&self) -> Tracking<U> {
        Tracking {
            glyphs: self.glyphs@,
            lines: self.line_metrics@,
            height: self.height as int,
            linebreak_prev: self.linebreak_prev,
            linebreak_pos: self.linebreak_pos as int,
            linebreak_idx: self.linebreak_idx as int,
            prev_not_whitespace: self.prev_not_whitespace,
            line_end_pos: self.line_end_pos as int,
            line_end_idx: self.line_end_idx as int,
            current_pos: self.current_pos as int,
            start_pos: self.start_pos as int,
        }
    }

    /// The font a span is laid out in.
    pub open spec fn face_of(&self, span: Span<U>) -> Face {
        match span.font {
            Some(f) => f,
            None => self.base_font,
        }
    }

    /// The size a span is laid out at.
    pub open spec fn px_of(&self, span: Span<U>) -> u32 {
        match span.px {
            Some(p) => p,
            None => self.base_px,
        }
    }

    /// The style a span is laid out in: a text span takes its font's metrics
    /// (when it has any) and its multiplier, a block its own metrics.
    pub open spec fn span_config(&self, span: Span<U>) -> Config {
        let c = self.config();
        let face = self.face_of(span);
        match span.params {
            SpanParams::Text(_) => match face.line_metrics {
                Some(m) => Config {
                    current_ascent: m.ascent as i64,
                    current_descent: m.descent as i64,
                    current_line_gap: m.line_gap as i64,
                    current_new_line: m.new_line_size as i64,
                    current_line_height: span.line_height,
                    ..c
                },
                None => c,
            },
            SpanParams::Block(b) => {
                let bm = block_metrics(b, face.line_metrics);
                Config {
                    current_ascent: bm.0 as i64,
                    current_descent: bm.1 as i64,
                    current_line_gap: bm.2 as i64,
                    current_new_line: bm.3 as i64,
                    current_line_height: span.line_height,
                    ..c
                }
            },
        }
    }

    /// The first-pass state after laying out a span of nonzero length: the
    /// style folded into the last line, then each character (or the block)
    /// placed, then the last line finished.
    pub open spec fn appended_tracking(&self, span: Span<U>) -> Tracking<U> {
        let c = self.span_config(span);
        let face = self.face_of(span);
        match span.params {
            SpanParams::Text(t) => {
                let t0 = if face.line_metrics is Some { c.styled(self.tracking()) } else { self.tracking() };
                c.finished(c.chars_run(t0, t@, t@.len() as int, face.hash, self.px_of(span), span.kerning, span.rise, span.user_data))
            },
            SpanParams::Block(b) => {
                let bm = block_metrics(b, face.line_metrics);
                c.finished(c.placed(
                    c.styled(self.tracking()),
                    masked(b.linebreak, c.wrap_soft, c.wrap_hard),
                    b.width + span.kerning,
                    block_glyph(b, face.hash, c.flip, bm.0, bm.1, self.current_pos as int, span.user_data),
                    false,
                ))
            },
        }
    }

    /// `after` is what appending `span` to `self` leaves: one glyph per
    /// character (or block) after the earlier ones, in order; earlier glyphs
    /// and closed lines keep all but the horizontal moves of justification.
    pub open spec fn appended(&self, span: Span<U>, after: Layout<U>) -> bool {
        &&& after.wf()
        &&& after.same_setup(self)
        &&& after.glyphs@.len() == self.glyphs@.len() + span_len(span)
        &&& parents(after.glyphs@) == parents(self.glyphs@) + span_chars(span)
        &&& forall|i: int| 0 <= i < self.glyphs@.len() ==> same_but_x(#[trigger] after.glyphs@[i], self.glyphs@[i])
        &&& !self.justify ==> forall|i: int| 0 <= i < self.glyphs@.len() ==> #[trigger] after.glyphs@[i] == self.glyphs@[i]
        &&& span.params matches SpanParams::Text(t) ==> {
            &&& after.current_pos == self.current_pos + pen_after(t@, span.kerning, t@.len() as int)
            &&& forall|j: int| 0 <= j < t@.len() ==> same_but_x(
                #[trigger] after.glyphs@[self.glyphs@.len() + j],
                text_glyph(t@[j], self.face_of(span).hash, self.px_of(span), span.rise, self.flip, 0, span.user_data),
            )
            &&& !self.justify ==> forall|j: int| 0 <= j < t@.len() ==>
                #[trigger] after.glyphs@[self.glyphs@.len() + j] == text_glyph(
                    t@[j],
                    self.face_of(span).hash,
                    self.px_of(span),
                    span.rise,
                    self.flip,
                    self.current_pos + pen_after(t@, span.kerning, j),
                    span.user_data,
                )
        }
        &&& span.params matches SpanParams::Block(b) ==> (b.width != 0 && b.height != 0 ==> {
            let bm = block_metrics(b, self.face_of(span).line_metrics);
            &&& after.glyphs@.last() == block_glyph(
                b, self.face_of(span).hash, self.flip, bm.0, bm.1, self.current_pos as int, span.user_data)
            &&& after.current_pos == self.current_pos + b.width + span.kerning
        })
        &&& span_len(span) == 0 ==> after == *self
        &&& span_len(span) > 0 ==> after.tracking() == self.appended_tracking(span)
        &&& span_len(span) > 0 ==> after.config() == self.span_config(span)
        &&& after.line_metrics@.len() >= self.line_metrics@.len()
        &&& forall|l: int| 0 <= l < self.line_metrics@.len() - 1 ==> #[trigger] after.line_metrics@[l] == self.line_metrics@[l]
    }

    /// Records the position before the next glyph as the best break candidate
    /// when its break is at least as strong, and as the end of the visible
    /// content when a visible glyph precedes whitespace (or wrapping is by letter).
    fn note_candidates(&mut self, linebreak: Linebreak, whitespace: bool)
        requires
            old(self).inv(),
        ensures
            final(self).inv(),
            final(self).tracking() == old(self).config().noted(old(self).tracking(), linebreak, whitespace),
            *final(self) == (Layout {
                linebreak_prev: final(self).linebreak_prev,
                linebreak_pos: final(self).linebreak_pos,
                linebreak_idx: final(self).linebreak_idx,
                line_end_pos: final(self).line_end_pos,
                line_end_idx: final(self).line_end_idx,
                ..*old(self)
            }),
    {
        let n = self.glyphs.len();
        let prev_idx: usize = if n == 0 { 0 } else { n - 1 };
        proof {
            assert(n * STEP <= POS_LIMIT) by (nonlinear_arith)
                requires n <= 0x10_0000;
        }
        if linebreak.at_least(self.linebreak_prev) {
            self.linebreak_prev = linebreak;
            self.linebreak_pos = self.current_pos;
            self.linebreak_idx = prev_idx;
        }
        if self.prev_not_whitespace && (self.wrap_by_letter || whitespace) {
            self.line_end_pos = self.current_pos;
            self.line_end_idx = prev_idx;
        }
    }

    /// Performs a line break when `fire` holds.
    fn break_if(&mut self, fire: bool, linebreak: Linebreak)
        requires
            old(self).inv(),
            old(self).line_metrics@.len() <= old(self).glyphs@.len() + 1,
        ensures
            final(self).inv(),
            final(self).line_metrics@.len() <= final(self).glyphs@.len() + 2,
            final(self).same_setup(old(self)),
            final(self).glyphs@.len() == old(self).glyphs@.len(),
            forall|i: int| 0 <= i < old(self).glyphs@.len() ==> same_but_x(#[trigger] final(self).glyphs@[i], old(self).glyphs@[i]),
            !old(self).justify ==> forall|i: int| 0 <= i < old(self).glyphs@.len() ==> #[trigger] final(self).glyphs@[i] == old(self).glyphs@[i],
            final(self).current_pos == old(self).current_pos,
            final(self).prev_not_whitespace == old(self).prev_not_whitespace,
            fire ==> final(self).tracking() == old(self).config().broken(old(self).tracking(), linebreak == Linebreak::Hard),
            !fire ==> final(self).tracking() == old(self).tracking(),
            fire ==> final(self).line_metrics@.len() == old(self).line_metrics@.len() + 1,
            !fire ==> final(self).line_metrics@ == old(self).line_metrics@,
            forall|l: int| 0 <= l < old(self).line_metrics@.len() - 1 ==> #[trigger] final(self).line_metrics@[l] == old(self).line_metrics@[l],
            final(self).current_ascent == old(self).current_ascent,
            final(self).current_descent == old(self).current_descent,
            final(self).current_line_gap == old(self).current_line_gap,
            final(self).current_new_line == old(self).current_new_line,
            final(self).current_line_height == old(self).current_line_height,
    {
        if fire {
            self.perform_linebreak(linebreak);
            proof {
                assert forall|i: int| 0 <= i < old(self).glyphs@.len() implies same_but_x(#[trigger] self.glyphs@[i], old(self).glyphs@[i]) by {
                }
                assert forall|l: int| 0 <= l < old(self).line_metrics@.len() - 1 implies #[trigger] self.line_metrics@[l] == old(self).line_metrics@[l] by {
                }
            }
        }
    }

    /// Records break and line-end candidates, wraps the line if needed, and
    /// appends `g`, whose pen position is the current one.
    fn place_glyph(&mut self, linebreak: Linebreak, advance: i64, g: GlyphPosition<U>, honor_hard: bool)
        requires
            old(self).inv(),
            old(self).line_metrics@.len() <= old(self).glyphs@.len() + 1,
            old(self).glyphs@.len() < MAX_GLYPHS,
            -STEP <= advance <= STEP,
            -POS_LIMIT - MAX_METRIC <= g.x <= POS_LIMIT + MAX_METRIC,
            -Y_LIMIT <= g.y <= Y_LIMIT,
        ensures
            final(self).inv(),
            final(self).line_metrics@.len() <= final(self).glyphs@.len() + 1,
            final(self).same_setup(old(self)),
            final(self).glyphs@.len() == old(self).glyphs@.len() + 1,
            final(self).glyphs@.last() == g,
            final(self).tracking() == old(self).config().placed(old(self).tracking(), linebreak, advance as int, g, honor_hard),
            forall|i: int| 0 <= i < old(self).glyphs@.len() ==> same_but_x(#[trigger] final(self).glyphs@[i], old(self).glyphs@[i]),
            !old(self).justify ==> forall|i: int| 0 <= i < old(self).glyphs@.len() ==> #[trigger] final(self).glyphs@[i] == old(self).glyphs@[i],
            final(self).current_pos == old(self).current_pos + advance,
            final(self).prev_not_whitespace == !g.char_data.whitespace,
            final(self).line_metrics@.len() >= old(self).line_metrics@.len(),
            forall|l: int| 0 <= l < old(self).line_metrics@.len() - 1 ==> #[trigger] final(self).line_metrics@[l] == old(self).line_metrics@[l],
            final(self).current_ascent == old(self).current_ascent,
            final(self).current_descent == old(self).current_descent,
            final(self).current_line_gap == old(self).current_line_gap,
            final(self).current_new_line == old(self).current_new_line,
            final(self).current_line_height == old(self).current_line_height,
    {
        let whitespace = g.char_data.whitespace;
        let n = self.glyphs.len();
        self.note_candidates(linebreak, whitespace);
        proof {
            assert(n * STEP <= POS_LIMIT) by (nonlinear_arith)
                requires n <= 0x10_0000;
        }
        let fire = (honor_hard && linebreak.is_hard())
            || (self.current_pos - self.start_pos + advance > self.max_width && !whitespace);
        self.break_if(fire, linebreak);
        let ghost before = self.glyphs@;
        let ghost pos0 = self.current_pos as int;
        self.glyphs.push(g);
        self.current_pos = self.current_pos + advance;
        self.prev_not_whitespace = !whitespace;
        proof {
            assert(self.current_pos <= (n + 1) * STEP && self.current_pos >= -((n + 1) * STEP)) by (nonlinear_arith)
                requires self.current_pos == pos0 + advance,
                    -(n * STEP) <= pos0 <= n * STEP, -STEP <= advance <= STEP;
            assert forall|i: int| 0 <= i < n + 1 implies -X_LIMIT <= (#[trigger] self.glyphs@[i]).x <= X_LIMIT
                && -Y_LIMIT <= self.glyphs@[i].y <= Y_LIMIT by {
                if i < n {
                    assert(self.glyphs@[i] == before[i]);
                }
            }
            let lines = self.line_metrics@;
            assert forall|l: int| 0 <= l < lines.len() implies index_ok((#[trigger] lines[l]).glyph_end, (n + 1) as nat) by {
            }
        }
    }

    /// Lays out one character of a text span.
    fn push_char(&mut self, c: CharInput, font_hash: usize, px: u32, kerning: i32, rise: i32, user_data: U)
        requires
            old(self).inv(),
            old(self).line_metrics@.len() <= old(self).glyphs@.len() + 1,
            old(self).glyphs@.len() < MAX_GLYPHS,
            c.wf(),
            -MAX_METRIC <= kerning <= MAX_METRIC,
            -MAX_METRIC <= rise <= MAX_METRIC,
        ensures
            final(self).inv(),
            final(self).line_metrics@.len() <= final(self).glyphs@.len() + 1,
            final(self).same_setup(old(self)),
            final(self).glyphs@.len() == old(self).glyphs@.len() + 1,
            final(self).glyphs@.last() == text_glyph(c, font_hash, px, rise, old(self).flip, old(self).current_pos as int, user_data),
            final(self).tracking() == old(self).config().char_step(old(self).tracking(), c, font_hash, px, kerning, rise, user_data),
            forall|i: int| 0 <= i < old(self).glyphs@.len() ==> same_but_x(#[trigger] final(self).glyphs@[i], old(self).glyphs@[i]),
            !old(self).justify ==> forall|i: int| 0 <= i < old(self).glyphs@.len() ==> #[trigger] final(self).glyphs@[i] == old(self).glyphs@[i],
            final(self).current_pos == old(self).current_pos + char_advance(c, kerning),
            final(self).line_metrics@.len() >= old(self).line_metrics@.len(),
            forall|l: int| 0 <= l < old(self).line_metrics@.len() - 1 ==> #[trigger] final(self).line_metrics@[l] == old(self).line_metrics@[l],
            final(self).current_ascent == old(self).current_ascent,
            final(self).current_descent == old(self).current_descent,
            final(self).current_line_gap == old(self).current_line_gap,
            final(self).current_new_line == old(self).current_new_line,
            final(self).current_line_height == old(self).current_line_height,
    {
        let linebreak = mask(c.linebreak, self.wrap_soft, self.wrap_hard);
        let control = c.char_data.control;
        let advance_width: i64 = if control { 0 } else { c.advance_width as i64 };
        let xmin: i64 = if control { 0 } else { c.xmin as i64 };
        let ymin: i64 = if control { 0 } else { c.ymin as i64 };
        let bh: i64 = if control { 0 } else { c.bounds_height as i64 };
        let advance: i64 = advance_width + kerning as i64;
        proof {
            let n = self.glyphs@.len();
            assert(n * STEP <= POS_LIMIT) by (nonlinear_arith)
                requires n <= 0x10_0000;
        }
        let y: i64 = if self.flip { -bh - ymin - rise as i64 } else { ymin + rise as i64 };
        let g = GlyphPosition {
            key: Some(GlyphRasterConfig { glyph_index: c.glyph_index, px, font_hash }),
            font_hash,
            parent: c.parent,
            x: self.current_pos + xmin,
            y,
            width: if control { 0 } else { c.width },
            height: if control { 0 } else { c.height },
            char_data: c.char_data,
            user_data,
        };
        self.place_glyph(linebreak, advance, g, true);
    }

    /// Sets the last line's padding and its last glyph after a span.
    fn finish_span(&mut self)
        requires
            old(self).inv(),
            old(self).line_metrics@.len() <= old(self).glyphs@.len() + 1,
            old(self).glyphs@.len() > 0,
        ensures
            final(self).wf(),
            final(self).line_metrics@ == old(self).line_metrics@.update(
                old(self).line_metrics@.len() - 1,
                LinePosition {
                    padding: old(self).config().padding_for(old(self).current_pos - old(self).start_pos) as i64,
                    glyph_end: (old(self).glyphs@.len() - 1) as usize,
                    ..old(self).line_metrics@.last()
                },
            ),
            *final(self) == (Layout { line_metrics: final(self).line_metrics, ..*old(self) }),
            final(self).tracking() == old(self).config().finished(old(self).tracking()),
    {
        let last = self.line_metrics.len() - 1;
        let mut line = self.line_metrics[last];
        proof {
            let n = self.glyphs@.len();
            assert(n * STEP <= POS_LIMIT) by (nonlinear_arith)
                requires n <= 0x10_0000;
        }
        line.padding = self.padding_exec(self.current_pos - self.start_pos);
        line.glyph_end = self.glyphs.len() - 1;
        self.line_metrics.set(last, line);
        proof {
            let lines = self.line_metrics@;
            assert forall|l: int| 0 <= l < lines.len() implies (#[trigger] lines[l]).bounded()
                && index_ok(lines[l].glyph_end, self.glyphs@.len()) by {
                if l != last {
                    assert(lines[l] == old(self).line_metrics@[l]);
                }
            }
            lemma_offset_frame(old(self).line_metrics@, lines, last as int);
        }
    }

    fn append_text(&mut self, span: &Span<U>, text: &Vec<CharInput>)
        requires
            old(self).wf(),
            span.wf(),
            span.params == SpanParams::Text(*text),
            old(self).glyphs@.len() + text@.len() <= MAX_GLYPHS,
        ensures
            final(self).wf(),
            final(self).same_setup(old(self)),
            final(self).glyphs@.len() == old(self).glyphs@.len() + text@.len(),
            forall|i: int| 0 <= i < old(self).glyphs@.len() ==> same_but_x(#[trigger] final(self).glyphs@[i], old(self).glyphs@[i]),
            !old(self).justify ==> forall|i: int| 0 <= i < old(self).glyphs@.len() ==> #[trigger] final(self).glyphs@[i] == old(self).glyphs@[i],
            forall|j: int| 0 <= j < text@.len() ==> same_but_x(
                #[trigger] final(self).glyphs@[old(self).glyphs@.len() + j],
                text_glyph(
                    text@[j],
                    match span.font { Some(f) => f.hash, None => old(self).base_font.hash },
                    match span.px { Some(p) => p, None => old(self).base_px },
                    span.rise,
                    old(self).flip,
                    0,
                    span.user_data,
                ),
            ),
            forall|l: int| 0 <= l < old(self).line_metrics@.len() - 1 ==> #[trigger] final(self).line_metrics@[l] == old(self).line_metrics@[l],
            final(self).line_metrics@.len() >= old(self).line_metrics@.len(),
            text@.len() == 0 ==> *final(self) == *old(self),
            text@.len() > 0 ==> final(self).tracking() == old(self).appended_tracking(*span),
            text@.len() > 0 ==> final(self).config() == old(self).span_config(*span),
            final(self).current_pos == old(self).current_pos + pen_after(text@, span.kerning, text@.len() as int),
            !old(self).justify ==> forall|j: int| 0 <= j < text@.len() ==>
                #[trigger] final(self).glyphs@[old(self).glyphs@.len() + j] == text_glyph(
                    text@[j],
                    old(self).face_of(*span).hash,
                    old(self).px_of(*span),
                    span.rise,
                    old(self).flip,
                    old(self).current_pos + pen_after(text@, span.kerning, j),
                    span.user_data,
                ),
    {
        if text.len() == 0 {
            return;
        }
        let face = match span.font {
            Some(f) => f,
            None => self.base_font,
        };
        let px = match span.px {
            Some(p) => p,
            None => self.base_px,
        };
        match face.line_metrics {
            Some(m) => {
                self.current_ascent = m.ascent as i64;
                self.current_new_line = m.new_line_size as i64;
                self.current_descent = m.descent as i64;
                self.current_line_gap = m.line_gap as i64;
                self.current_line_height = span.line_height;
                self.update_last_line_metrics();
            },
            None => {},
        }
        let ghost s0 = *self;
        let n0 = self.glyphs.len();
        proof {
            assert(span.wf());
            assert(span.params->Text_0 == *text);
            assert(span.params->Text_0@ == text@);
            assert forall|k: int| 0 <= k < text@.len() implies (#[trigger] text@[k]).wf() by {
                assert(span.params->Text_0@[k].wf());
            }
        }
        let mut i: usize = 0;
        while i < text.len()
            invariant
                self.inv(),
                self.line_metrics@.len() <= self.glyphs@.len() + 1,
                self.same_setup(old(self)),
                s0.same_setup(old(self)),
                s0.line_metrics@.len() == old(self).line_metrics@.len(),
                forall|l: int| 0 <= l < old(self).line_metrics@.len() - 1 ==> #[trigger] s0.line_metrics@[l] == old(self).line_metrics@[l],
                s0.glyphs@ == old(self).glyphs@,
                n0 == old(self).glyphs@.len(),
                n0 + text@.len() <= MAX_GLYPHS,
                0 <= i <= text@.len(),
                span.wf(),
                span.params == SpanParams::Text(*text),
                forall|k: int| 0 <= k < text@.len() ==> (#[trigger] text@[k]).wf(),
                self.glyphs@.len() == n0 + i,
                forall|k: int| 0 <= k < n0 ==> same_but_x(#[trigger] self.glyphs@[k], old(self).glyphs@[k]),
                forall|j: int| 0 <= j < i ==> same_but_x(
                    #[trigger] self.glyphs@[n0 + j],
                    text_glyph(text@[j], face.hash, px, span.rise, old(self).flip, 0, span.user_data),
                ),
                self.line_metrics@.len() >= s0.line_metrics@.len(),
                forall|l: int| 0 <= l < s0.line_metrics@.len() - 1 ==> #[trigger] self.line_metrics@[l] == s0.line_metrics@[l],
                s0.current_pos == old(self).current_pos,
                s0.justify == old(self).justify,
                self.current_pos == old(self).current_pos + pen_after(text@, span.kerning, i as int),
                !old(self).justify ==> forall|k: int| 0 <= k < n0 ==> #[trigger] self.glyphs@[k] == old(self).glyphs@[k],
                !old(self).justify ==> forall|j: int| 0 <= j < i ==>
                    #[trigger] self.glyphs@[n0 + j] == text_glyph(text@[j], face.hash, px, span.rise, old(self).flip,
                        old(self).current_pos + pen_after(text@, span.kerning, j), span.user_data),
                face == old(self).face_of(*span),
                px == old(self).px_of(*span),
                self.config() == s0.config(),
                s0.config() == old(self).span_config(*span),
                s0.tracking() == (if face.line_metrics is Some {
                    old(self).span_config(*span).styled(old(self).tracking())
                } else {
                    old(self).tracking()
                }),
                self.tracking() == s0.config().chars_run(s0.tracking(), text@, i as int, face.hash, px, span.kerning, span.rise, span.user_data),
            decreases text@.len() - i,
        {
            let ghost before = self.glyphs@;
            self.push_char(text[i], face.hash, px, span.kerning, span.rise, span.user_data);
            proof {
                assert forall|j: int| 0 <= j < i + 1 implies same_but_x(
                    #[trigger] self.glyphs@[n0 + j],
                    text_glyph(text@[j], face.hash, px, span.rise, old(self).flip, 0, span.user_data),
                ) by {
                    if j < i {
                        assert(same_but_x(self.glyphs@[n0 + j], before[n0 + j]));
                    }
                }
                assert forall|k: int| 0 <= k < n0 implies same_but_x(#[trigger] self.glyphs@[k], old(self).glyphs@[k]) by {
                    assert(same_but_x(self.glyphs@[k], before[k]));
                }
                if !old(self).justify {
                    assert forall|j: int| 0 <= j < i + 1 implies #[trigger] self.glyphs@[n0 + j] == text_glyph(text@[j],
                        face.hash, px, span.rise, old(self).flip,
                        old(self).current_pos + pen_after(text@, span.kerning, j), span.user_data) by {
                        if j < i {
                            assert(self.glyphs@[n0 + j] == before[n0 + j]);
                        }
                    }
                    assert forall|k: int| 0 <= k < n0 implies #[trigger] self.glyphs@[k] == old(self).glyphs@[k] by {
                        assert(self.glyphs@[k] == before[k]);
                    }
                }
            }
            i = i + 1;
        }
        self.finish_span();
    }

    /// Makes the metrics of an inline block the current style.
    fn set_block_style(&mut self, block: Block, metrics: Option<LineMetrics>)
        requires
            old(self).inv(),
            block.wf(),
            metrics matches Some(m) ==> m.wf(),
        ensures
            final(self).inv(),
            final(self).current_ascent == block_metrics(block, metrics).0,
            final(self).current_descent == block_metrics(block, metrics).1,
            final(self).current_line_gap == block_metrics(block, metrics).2,
            final(self).current_new_line == block_metrics(block, metrics).3,
            *final(self) == (Layout {
                current_ascent: final(self).current_ascent,
                current_descent: final(self).current_descent,
                current_line_gap: final(self).current_line_gap,
                current_new_line: final(self).current_new_line,
                ..*old(self)
            }),
    {
        let h = block.height as i64;
        let mut middle = false;
        match metrics {
            Some(m) => {
                if block.align == BlockAlign::Middle && m.ascent - m.descent > 0 {
                    let fh = m.ascent as i64 - m.descent as i64;
                    proof {
                        lemma_block_ratio(m.ascent as int, fh as int, h as int);
                        lemma_block_ratio(-m.descent as int, fh as int, h as int);
                        assert(0 <= m.ascent * h <= 0x10_0000 * 0x10_0000) by (nonlinear_arith)
                            requires 0 <= m.ascent <= 0x10_0000, 0 <= h <= 0x10_0000;
                        assert(-0x10_0000 * 0x10_0000 <= m.descent * h <= 0) by (nonlinear_arith)
                            requires -0x10_0000 <= m.descent <= 0, 0 <= h <= 0x10_0000;
                        assert(-(-m.descent as int) * h == m.descent * h) by (nonlinear_arith);
                    }
                    let a = ceil_div_i128(m.ascent as i128 * h as i128, fh as i128);
                    let d = ceil_div_i128(m.descent as i128 * h as i128, fh as i128);
                    self.current_ascent = a as i64;
                    self.current_descent = d as i64;
                    self.current_new_line = h + m.line_gap as i64;
                    self.current_line_gap = m.line_gap as i64;
                    middle = true;
                }
            },
            None => {},
        }
        if !middle {
            self.current_ascent = h;
            self.current_descent = 0;
            self.current_new_line = h;
            self.current_line_gap = 0;
        }
    }

    #[verifier::rlimit(100)]
    fn append_block(&mut self, span: &Span<U>, block: Block)
        requires
            old(self).wf(),
            span.wf(),
            span.params == SpanParams::Block(block),
            block.width != 0 && block.height != 0 ==> old(self).glyphs@.len() < MAX_GLYPHS,
        ensures
            final(self).wf(),
            final(self).same_setup(old(self)),
            block.width == 0 || block.height == 0 ==> *final(self) == *old(self),
            block.width != 0 && block.height != 0 ==> {
                let face = match span.font { Some(f) => f, None => old(self).base_font };
                let bm = block_metrics(block, face.line_metrics);
                &&& final(self).glyphs@.len() == old(self).glyphs@.len() + 1
                &&& final(self).glyphs@.last() == block_glyph(block, face.hash, old(self).flip, bm.0, bm.1, old(self).current_pos as int, span.user_data)
                &&& final(self).current_pos == old(self).current_pos + block.width + span.kerning
                &&& final(self).current_ascent == bm.0
                &&& final(self).current_descent == bm.1
                &&& final(self).current_line_gap == bm.2
                &&& final(self).current_new_line == bm.3
                &&& final(self).tracking() == old(self).appended_tracking(*span)
                &&& final(self).config() == old(self).span_config(*span)
            },
            forall|i: int| 0 <= i < old(self).glyphs@.len() ==> same_but_x(#[trigger] final(self).glyphs@[i], old(self).glyphs@[i]),
            !old(self).justify ==> forall|i: int| 0 <= i < old(self).glyphs@.len() ==> #[trigger] final(self).glyphs@[i] == old(self).glyphs@[i],
            forall|l: int| 0 <= l < old(self).line_metrics@.len() - 1 ==> #[trigger] final(self).line_metrics@[l] == old(self).line_metrics@[l],
            final(self).line_metrics@.len() >= old(self).line_metrics@.len(),
    {
        if block.width == 0 || block.height == 0 {
            return;
        }
        let face = match span.font {
            Some(f) => f,
            None => self.base_font,
        };
        self.set_block_style(block, face.line_metrics);
        self.current_line_height = span.line_height;
        let ghost cfg = old(self).span_config(*span);
        proof {
            assert(self.config() == cfg);
            assert(self.tracking() == old(self).tracking());
        }
        self.update_last_line_metrics();
        let ghost t0 = cfg.styled(old(self).tracking());
        proof {
            assert(self.tracking() == t0);
        }
        let linebreak = mask(block.linebreak, self.wrap_soft, self.wrap_hard);
        let advance: i64 = block.width as i64 + span.kerning as i64;
        let y: i64 = if self.flip { -self.current_ascent } else { self.current_descent };
        proof {
            let n = self.glyphs@.len();
            assert(n * STEP <= POS_LIMIT) by (nonlinear_arith)
                requires n <= 0x10_0000;
        }
        let g = GlyphPosition {
            key: None,
            font_hash: face.hash,
            parent: 'x',
            x: self.current_pos,
            y,
            width: block.width,
            height: block.height,
            char_data: CharacterData { whitespace: false, control: false, missing: true },
            user_data: span.user_data,
        };
        let ghost before = self.glyphs@;
        proof {
            let bm = block_metrics(block, face.line_metrics);
            assert(g == block_glyph(block, face.hash, cfg.flip, bm.0, bm.1, old(self).current_pos as int, span.user_data));
        }
        self.place_glyph(linebreak, advance, g, false);
        let ghost t1 = cfg.placed(t0, linebreak, advance as int, g, false);
        proof {
            assert(self.tracking() == t1);
            assert(self.config() == cfg);
        }
        self.finish_span();
        proof {
            assert(self.tracking() == cfg.finished(t1));
            assert(self.tracking() == old(self).appended_tracking(*span));
            assert forall|k: int| 0 <= k < old(self).glyphs@.len() implies same_but_x(#[trigger] self.glyphs@[k], old(self).glyphs@[k]) by {
                assert(same_but_x(self.glyphs@[k], before[k]));
            }
        }
    }

    /// Lays out a span after what was appended so far. Characters are never
    /// reordered; glyphs already laid out only move horizontally (justification).
    pub fn append(&mut self, span: Span<U>)
        requires
            old(self).wf(),
            span.wf(),
            old(self).glyphs@.len() + span_len(span) <= MAX_GLYPHS,
        ensures
            old(self).appended(span, *final(self)),
    {
        match &span.params {
            SpanParams::Text(t) => {
                self.append_text(&span, t);
                proof {
                    if t@.len() > 0 {
                        assert(self.tracking() == old(self).appended_tracking(span));
                    }
                }
            },
            SpanParams::Block(b) => {
                self.append_block(&span, *b);
                proof {
                    if b.width != 0 && b.height != 0 {
                        assert(self.tracking() == old(self).appended_tracking(span));
                    }
                }
            },
        }
        proof {
            let n0 = old(self).glyphs@.len();
            assert forall|l: int| 0 <= l < old(self).line_metrics@.len() - 1 implies
                #[trigger] self.line_metrics@[l] == old(self).line_metrics@[l] by {}
            assert forall|i: int| 0 <= i < n0 implies #[trigger] parents(self.glyphs@)[i] == parents(old(self).glyphs@)[i] by {
                assert(same_but_x(self.glyphs@[i], old(self).glyphs@[i]));
            }
            match span.params {
                SpanParams::Text(t) => {
                    assert forall|j: int| 0 <= j < t@.len() implies #[trigger] parents(self.glyphs@)[n0 + j] == t@[j].parent by {
                        assert(same_but_x(self.glyphs@[n0 + j], text_glyph(
                            t@[j],
                            match span.font { Some(f) => f.hash, None => old(self).base_font.hash },
                            match span.px { Some(p) => p, None => old(self).base_px },
                            span.rise, old(self).flip, 0, span.user_data)));
                    }
                    let rhs = parents(old(self).glyphs@) + span_chars(span);
                    assert(rhs.len() == self.glyphs@.len());
                    assert forall|k: int| 0 <= k < rhs.len() implies #[trigger] parents(self.glyphs@)[k] == rhs[k] by {
                        if k >= n0 {
                            let j = k - n0;
                            assert(parents(self.glyphs@)[n0 + j] == t@[j].parent);
                        }
                    }
                    assert(parents(self.glyphs@) =~= rhs);
                },
                SpanParams::Block(b) => {
                    if b.width != 0 && b.height != 0 {
                        let bm = block_metrics(b, old(self).face_of(span).line_metrics);
                        assert(self.glyphs@.last() == block_glyph(b, old(self).face_of(span).hash,
                            old(self).flip, bm.0, bm.1, old(self).current_pos as int, span.user_data));
                        assert(parents(self.glyphs@)[n0 as int] == 'x');
                    }
                    assert(parents(self.glyphs@) =~= parents(old(self).glyphs@) + span_chars(span));
                },
            }
        }
    }

    /// The baseline above the first line: the region's top, moved down by the
    /// vertical alignment share of the free height.
    pub open spec fn first_baseline(&self) -> int {
        down(self.flip, self.y as int, floor_half((self.max_height - self.height_spec()) * self.vertical_align))
    }

    /// The baseline of line `l`: below all earlier lines and its own ascent.
    pub open spec fn baseline_of(&self, l: int) -> int {
        down(self.flip, self.first_baseline(), offset_before(self.line_metrics@, l) + self.line_metrics@[l].max_ascent)
    }

    /// What moves the glyphs of line `l` from tracking positions to the
    /// region, with the horizontal alignment share of the line's padding.
    pub open spec fn x_offset(&self, l: int) -> int {
        self.x - self.line_metrics@[l].tracking_x
            + floor_half(self.line_metrics@[l].padding * self.horizontal_align)
    }

    /// `after` is what finalizing `self` leaves: every glyph placed in the
    /// output, in order, moved by the offsets of the line that emits it, and
    /// every line's baseline set.
    pub open spec fn finalizes_to(&self, after: Layout<U>) -> bool {
        &&& after.wf()
        &&& self.glyphs@.len() == 0 ==> after == *self
        &&& self.glyphs@.len() > 0 ==> {
            &&& after.output@.len() == self.glyphs@.len()
            &&& parents(after.output@) == parents(self.glyphs@)
            &&& forall|i: int, l: int| 0 <= i < self.glyphs@.len() && emits(self.line_metrics@, l, i)
                ==> #[trigger] after.output@[i] == moved(self.glyphs@[i], self.x_offset(l), #[trigger] self.baseline_of(l))
            &&& after.line_metrics@.len() == self.line_metrics@.len()
            &&& forall|l: int| 0 <= l < self.line_metrics@.len() ==> #[trigger] after.line_metrics@[l]
                == (LinePosition { baseline_y: self.baseline_of(l) as i64, ..self.line_metrics@[l] })
            &&& after == (Layout { output: after.output, line_metrics: after.line_metrics, ..*self })
        }
    }

    /// `after` is what `reset(settings)` leaves of `self`: the new settings,
    /// nothing appended, the coordinate system and base font kept.
    pub open spec fn reset_to(&self, settings: LayoutSettings, after: Layout<U>) -> bool {
        &&& after.wf()
        &&& after.is_cleared()
        &&& after.settings == settings
        &&& after.flip == self.flip
        &&& after.base_font == self.base_font
        &&& after.base_px == self.base_px
    }

    /// Second pass: computes the absolute position of every glyph into the
    /// output and the baseline of every line.
    pub fn finalize(&mut self)
        requires
            old(self).wf(),
        ensures
            old(self).finalizes_to(*final(self)),
    {
        if self.glyphs.len() == 0 {
            return;
        }
        let ghost s0 = *self;
        let ghost lines0 = self.line_metrics@;
        let n = self.glyphs.len();
        self.output.clear();
        let height = self.height();
        proof {
            assert(self.line_metrics@[self.line_metrics@.len() - 1].bounded());
            assert(self.height <= 0x10_0000 * LINE_ADVANCE_LIMIT) by (nonlinear_arith)
                requires self.height <= (self.line_metrics@.len() - 1) * LINE_ADVANCE_LIMIT,
                    self.line_metrics@.len() - 1 <= 0x10_0000, self.height >= 0;
        }
        proof {
            let va = self.vertical_align as int;
            let v = self.max_height - height;
            assert(0 <= va <= 2);
            assert(-0x10_0000_0000_0000 <= v <= 0x10_0000_0000_0000);
            assert(-0x20_0000_0000_0000 <= v * va <= 0x20_0000_0000_0000) by (nonlinear_arith)
                requires 0 <= va <= 2, -0x10_0000_0000_0000 <= v <= 0x10_0000_0000_0000;
        }
        let vshift = floor_half_i64((self.max_height - height) * self.vertical_align as i64);
        proof {
            assert(-0x10_0000_0000_0001 <= vshift <= 0x10_0000_0000_0000);
        }
        let mut baseline: i64 = if self.flip { self.y + vshift } else { self.y - vshift };
        proof {
            assert(offset_before(lines0, 0) == 0);
        }
        let mut idx: usize = 0;
        let mut l: usize = 0;
        let ghost mut owners: Seq<int> = Seq::empty();
        let count = self.line_metrics.len();
        while l < count
            invariant
                s0.wf(),
                n == s0.glyphs@.len() > 0,
                count == lines0.len(),
                lines0 == s0.line_metrics@,
                self.line_metrics@.len() == count,
                *self == (Layout { output: self.output, line_metrics: self.line_metrics, ..s0 }),
                0 <= l <= count,
                idx <= n,
                baseline == down(s0.flip, s0.first_baseline(), offset_before(lines0, l as int)),
                forall|m: int| 0 <= m < l ==> #[trigger] lines0[m].glyph_end < idx,
                forall|m: int| 0 <= m < l ==> #[trigger] self.line_metrics@[m]
                    == (LinePosition { baseline_y: s0.baseline_of(m) as i64, ..lines0[m] }),
                forall|m: int| l <= m < count ==> #[trigger] self.line_metrics@[m] == lines0[m],
                owners.len() == idx,
                self.output@.len() == idx,
                forall|i: int| 0 <= i < idx ==> 0 <= #[trigger] owners[i] < l && emits(lines0, owners[i], i)
                    && self.output@[i] == moved(s0.glyphs@[i], s0.x_offset(owners[i]), s0.baseline_of(owners[i])),
            decreases count - l,
        {
            let mut line = self.line_metrics[l];
            proof {
                assert(lines0[l as int].bounded());
                lemma_offset_bounds(lines0, l as int);
                lemma_offset_bounds(lines0, l as int + 1);
                assert(l * LINE_ADVANCE_LIMIT <= 0x10_0002 * LINE_ADVANCE_LIMIT) by (nonlinear_arith)
                    requires l <= 0x10_0002;
                assert((l + 1) * LINE_ADVANCE_LIMIT <= 0x10_0002 * LINE_ADVANCE_LIMIT) by (nonlinear_arith)
                    requires l + 1 <= 0x10_0002;
                line.lemma_advance_bounds();
                assert(index_ok(lines0[l as int].glyph_end, n as nat));
            }
            proof {
                let ha = self.horizontal_align as int;
                assert(0 <= ha <= 2);
                assert(-2 * PAD_LIMIT <= line.padding * ha <= 2 * PAD_LIMIT) by (nonlinear_arith)
                    requires 0 <= ha <= 2, -PAD_LIMIT <= line.padding <= PAD_LIMIT;
            }
            let hshift = floor_half_i64(line.padding * self.horizontal_align as i64);
            proof {
                assert(-PAD_LIMIT - 1 <= hshift <= PAD_LIMIT);
            }
            let x_padding: i64 = self.x - line.tracking_x + hshift;
            baseline = if self.flip { baseline + line.max_ascent } else { baseline - line.max_ascent };
            line.baseline_y = baseline;
            self.line_metrics.set(l, line);
            let ghost lm = self.line_metrics@;
            while idx <= line.glyph_end
                invariant
                    s0.wf(),
                    n == s0.glyphs@.len() > 0,
                    count == lines0.len(),
                    lines0 == s0.line_metrics@,
                    0 <= l < count,
                    line.glyph_end == lines0[l as int].glyph_end,
                    line.glyph_end < n,
                    idx <= n,
                    x_padding == s0.x_offset(l as int),
                    -0x10_0000_0000_0000 <= x_padding <= 0x10_0000_0000_0000,
                    baseline == s0.baseline_of(l as int),
                    -0x40_0000_0000_0000 <= baseline <= 0x40_0000_0000_0000,
                    self.line_metrics@ == lm,
                    forall|m: int| 0 <= m < l ==> #[trigger] lines0[m].glyph_end < idx,
                    owners.len() == idx,
                    self.output@.len() == idx,
                    forall|i: int| 0 <= i < idx ==> 0 <= #[trigger] owners[i] <= l && emits(lines0, owners[i], i)
                        && self.output@[i] == moved(s0.glyphs@[i], s0.x_offset(owners[i]), s0.baseline_of(owners[i])),
                    *self == (Layout { output: self.output, line_metrics: self.line_metrics, ..s0 }),
                decreases n - idx,
            {
                let g = self.glyphs[idx];
                proof {
                    assert(-X_LIMIT <= g.x <= X_LIMIT);
                    assert(-Y_LIMIT <= g.y <= Y_LIMIT);
                }
                self.output.push(GlyphPosition { x: g.x + x_padding, y: g.y + baseline, ..g });
                proof {
                    owners = owners.push(l as int);
                }
                idx = idx + 1;
            }
            let advance = line.advance_exec();
            baseline = if self.flip {
                baseline + (advance - line.max_ascent)
            } else {
                baseline - (advance - line.max_ascent)
            };
            l = l + 1;
        }
        proof {
            assert(lines0[count - 1].glyph_end == n - 1);
            assert forall|i: int, m: int| 0 <= i < n && emits(lines0, m, i)
                implies #[trigger] self.output@[i] == moved(s0.glyphs@[i], s0.x_offset(m), #[trigger] s0.baseline_of(m)) by {
                let o = owners[i];
                assert(emits(lines0, o, i));
                if o < m {
                    assert(lines0[o].glyph_end < i);
                }
                if m < o {
                    assert(lines0[m].glyph_end < i);
                }
            }
            assert forall|i: int| 0 <= i < n implies #[trigger] parents(self.output@)[i] == parents(s0.glyphs@)[i] by {
                assert(emits(lines0, owners[i], i));
            }
            assert(parents(self.output@) =~= parents(s0.glyphs@));
            let lines = self.line_metrics@;
            assert forall|m: int| 0 <= m < lines.len() implies (#[trigger] lines[m]).bounded()
                && index_ok(lines[m].glyph_end, n as nat) by {
                assert(lines0[m].bounded());
                assert(index_ok(lines0[m].glyph_end, n as nat));
            }
            lemma_offset_frame(lines0, lines, lines.len() - 1);
        }
    }

    /// Height of the appended text: the advances of the closed lines and the
    /// new line size of the last one.
    pub fn height(&self) -> (r: i64)
        requires
            self.wf(),
        ensures
            r == self.height_spec(),
            r == offset_before(self.line_metrics@, self.line_metrics@.len() - 1)
                + self.line_metrics@.last().max_new_line_size,
    {
        let last = self.line_metrics.len() - 1;
        proof {
            assert(self.line_metrics@[last as int].bounded());
            assert(self.height <= 0x10_0000 * LINE_ADVANCE_LIMIT) by (nonlinear_arith)
                requires self.height <= (self.line_metrics@.len() - 1) * LINE_ADVANCE_LIMIT,
                    self.line_metrics@.len() - 1 <= 0x10_0000;
        }
        self.height + self.line_metrics[last].max_new_line_size
    }

    /// The lines laid out so far; `None` before any glyph was appended.
    pub fn lines(&self) -> (r: Option<&Vec<LinePosition>>)
        ensures
            self.glyphs@.len() == 0 ==> r is None,
            self.glyphs@.len() > 0 ==> (r matches Some(v) && v@ == self.line_metrics@),
    {
        if self.glyphs.len() == 0 {
            None
        } else {
            Some(&self.line_metrics)
        }
    }

    /// The finalized glyphs.
    pub fn glyphs(&self) -> (r: &Vec<GlyphPosition<U>>)
        ensures
            r@ == self.output@,
    {
        &self.output
    }

    /// The settings of the current pass.
    pub fn settings(&self) -> (r: &LayoutSettings)
        ensures
            *r == self.settings,
    {
        &self.settings
    }
}

} // verus!
