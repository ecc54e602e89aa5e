use glyph_layout::{
    Block, BlockAlign, CharInput, CharacterData, CoordinateSystem, Face, GlyphPosition,
    GlyphRasterConfig, HorizontalAlign, Layout, LayoutSettings, LineMetrics, Linebreak, Span,
    VerticalAlign, WrapStyle, UNBOUNDED,
};

const METRICS: LineMetrics = LineMetrics { ascent: 12, descent: -4, line_gap: 2, new_line_size: 18 };

fn face() -> Face {
    Face { hash: 7, line_metrics: Some(METRICS) }
}

/// A monospaced test font: letters advance 10 with a 1 pixel left bearing,
/// spaces advance 5, new lines have no extent. Breaks follow spaces (soft)
/// and new lines (hard).
fn chars(text: &str) -> Vec<CharInput> {
    let mut out = Vec::new();
    let mut prev: Option<char> = None;
    for c in text.chars() {
        let whitespace = c.is_whitespace();
        let control = c.is_control();
        let linebreak = match prev {
            Some('\n') => Linebreak::Hard,
            Some(' ') if c != ' ' => Linebreak::Soft,
            _ => Linebreak::NoBreak,
        };
        let (advance_width, xmin, bounds_height, width, height) = if whitespace {
            (5, 0, 0, 0, 0)
        } else {
            (10, 1, 12, 8, 12)
        };
        out.push(CharInput {
            parent: c,
            glyph_index: c as u16,
            char_data: CharacterData { whitespace, control, missing: false },
            linebreak,
            advance_width,
            xmin,
            ymin: 0,
            bounds_height,
            width,
            height,
        });
        prev = Some(c);
    }
    out
}

fn layout(cs: CoordinateSystem, settings: LayoutSettings) -> Layout<u8> {
    let mut l = Layout::new(face(), 16, cs);
    l.reset(&settings);
    l
}

fn xs(g: &[GlyphPosition<u8>]) -> Vec<i64> {
    g.iter().map(|g| g.x).collect()
}

#[test]
fn single_word_unbounded() {
    let mut l = layout(CoordinateSystem::PositiveYDown, LayoutSettings::default());
    assert!(l.lines().is_none());
    l.append(Span::text(chars("Hi"), 3u8));
    let lines = l.lines().unwrap().clone();
    assert_eq!(lines.len(), 1);
    assert_eq!(lines[0].padding, UNBOUNDED);
    assert_eq!((lines[0].glyph_start, lines[0].glyph_end), (0, 1));
    l.finalize();
    let g = l.glyphs();
    assert_eq!(g.len(), 2);
    assert_eq!(xs(g), vec![1, 11]);
    assert_eq!(g[0].y, 0);
    assert_eq!(g[0].key, Some(GlyphRasterConfig { glyph_index: 'H' as u16, px: 16, font_hash: 7 }));
    assert_eq!(g[1].user_data, 3);
    assert_eq!(l.lines().unwrap()[0].baseline_y, 12);
}

#[test]
fn single_word_positive_y_up() {
    let mut l = layout(CoordinateSystem::PositiveYUp, LayoutSettings::default());
    l.append(Span::text(chars("Hi"), 0u8));
    l.finalize();
    assert_eq!(l.lines().unwrap()[0].baseline_y, -12);
    assert_eq!(l.glyphs()[0].y, -12);
    assert_eq!(l.glyphs()[0].y + l.glyphs()[0].height as i64, 0);
}

#[test]
fn soft_wrap_at_space() {
    let settings = LayoutSettings { max_width: Some(50), ..LayoutSettings::default() };
    let mut l = layout(CoordinateSystem::PositiveYDown, settings);
    l.append(Span::text(chars("Hello world"), 0u8));
    let lines = l.lines().unwrap().clone();
    assert_eq!(lines.len(), 2);
    assert_eq!((lines[0].glyph_start, lines[0].glyph_end), (0, 4));
    assert_eq!((lines[1].glyph_start, lines[1].glyph_end), (6, 10));
    assert_eq!(lines[0].padding, 0);
    assert_eq!(lines[1].tracking_x, 55);
    assert_eq!(l.height(), 36);
    l.finalize();
    let g = l.glyphs();
    assert_eq!(g.len(), 11);
    assert_eq!(g[0].x, 1);
    assert_eq!(g[6].x, 1);
    assert_eq!(g[6].parent, 'w');
    let lines = l.lines().unwrap();
    assert_eq!(lines[0].baseline_y, 12);
    assert_eq!(lines[1].baseline_y, 30);
}

#[test]
fn hard_break() {
    let mut l = layout(CoordinateSystem::PositiveYUp, LayoutSettings::default());
    l.append(Span::text(chars("a\nb"), 0u8));
    let lines = l.lines().unwrap().clone();
    assert_eq!(lines.len(), 2);
    assert_eq!((lines[0].glyph_start, lines[0].glyph_end), (0, 0));
    assert_eq!((lines[1].glyph_start, lines[1].glyph_end), (2, 2));
    assert_eq!((lines[0].padding, lines[1].padding), (UNBOUNDED, UNBOUNDED));
    l.finalize();
    let g = l.glyphs();
    assert_eq!((g[0].x, g[0].y), (1, -12));
    assert_eq!((g[2].x, g[2].y), (1, -30));
    assert_eq!(g[1].width, 0);
}

#[test]
fn hard_break_ignored_when_disabled() {
    let settings = LayoutSettings { wrap_hard_breaks: false, ..LayoutSettings::default() };
    let mut l = layout(CoordinateSystem::PositiveYUp, settings);
    l.append(Span::text(chars("a\nb"), 0u8));
    assert_eq!(l.lines().unwrap().len(), 1);
}

#[test]
fn justify_last_line_untouched() {
    let settings = LayoutSettings {
        max_width: Some(100),
        horizontal_align: HorizontalAlign::Justify,
        ..LayoutSettings::default()
    };
    let mut l = layout(CoordinateSystem::PositiveYDown, settings);
    l.append(Span::text(chars("a b c"), 0u8));
    let lines = l.lines().unwrap().clone();
    assert_eq!(lines.len(), 1);
    assert_eq!(lines[0].padding, 60);
    l.finalize();
    assert_eq!(xs(l.glyphs()), vec![1, 10, 16, 25, 31]);
}

#[test]
fn justify_wrapped_line() {
    let settings = LayoutSettings {
        max_width: Some(75),
        horizontal_align: HorizontalAlign::Justify,
        ..LayoutSettings::default()
    };
    let mut l = layout(CoordinateSystem::PositiveYDown, settings);
    l.append(Span::text(chars("aa bb cc dd"), 0u8));
    let lines = l.lines().unwrap().clone();
    assert_eq!(lines.len(), 2);
    assert_eq!((lines[0].glyph_start, lines[0].glyph_end), (0, 7));
    assert_eq!(lines[0].padding, 0);
    assert_eq!(lines[1].padding, 55);
    l.finalize();
    let g = l.glyphs();
    assert_eq!(xs(&g[0..8]), vec![1, 11, 20, 29, 39, 48, 56, 61]);
    assert_eq!(g[9].x, 1);
    assert_eq!(g[10].x, 11);
}

#[test]
fn inline_block_middle() {
    let big = Face {
        hash: 9,
        line_metrics: Some(LineMetrics { ascent: 33, descent: -9, line_gap: 0, new_line_size: 42 }),
    };
    let mut l: Layout<u8> = Layout::new(big, 35, CoordinateSystem::PositiveYDown);
    l.append(Span::text(chars("a"), 0u8));
    l.append(Span::block(Block::new(30, 100), 180u8));
    assert_eq!(l.current_ascent, 79);
    assert_eq!(l.current_descent, -21);
    assert_eq!(l.current_new_line, 100);
    l.append(Span::text(chars("b"), 0u8));
    let lines = l.lines().unwrap().clone();
    assert_eq!(lines[0].max_ascent, 79);
    assert_eq!(lines[0].min_descent, -21);
    assert_eq!(lines[0].max_new_line_size, 100);
    l.finalize();
    let g = l.glyphs();
    assert_eq!(g.len(), 3);
    assert_eq!(g[1].key, None);
    assert_eq!(g[1].parent, 'x');
    assert_eq!((g[1].x, g[1].y), (10, 0));
    assert_eq!((g[1].width, g[1].height), (30, 100));
    assert_eq!(g[1].user_data, 180);
    assert_eq!(g[2].x, 41);
}

#[test]
fn inline_block_small_middle() {
    let big = Face {
        hash: 9,
        line_metrics: Some(LineMetrics { ascent: 33, descent: -9, line_gap: 0, new_line_size: 42 }),
    };
    let mut l: Layout<u8> = Layout::new(big, 35, CoordinateSystem::PositiveYUp);
    l.append(Span::text(chars("a"), 0u8));
    l.append(Span::block(Block::new(30, 20), 1u8));
    assert_eq!(l.current_ascent, 16);
    assert_eq!(l.current_descent, -4);
    assert_eq!(l.current_new_line, 20);
    assert_eq!(l.lines().unwrap()[0].max_ascent, 33);
    l.finalize();
    assert_eq!(l.glyphs()[1].y, -4 - 33);
}

#[test]
fn inline_block_baseline() {
    let mut l: Layout<u8> = Layout::new(face(), 16, CoordinateSystem::PositiveYDown);
    l.append(Span::block(Block::new(30, 40).with_align(BlockAlign::Baseline), 0u8));
    assert_eq!((l.current_ascent, l.current_descent, l.current_line_gap, l.current_new_line), (40, 0, 0, 40));
    l.finalize();
    assert_eq!(l.glyphs()[0].y, 0);
    assert_eq!(l.lines().unwrap()[0].baseline_y, 40);
}

#[test]
fn vertical_centering() {
    let tall = Face {
        hash: 1,
        line_metrics: Some(LineMetrics { ascent: 150, descent: -50, line_gap: 0, new_line_size: 200 }),
    };
    let settings = LayoutSettings {
        max_height: Some(600),
        vertical_align: VerticalAlign::Middle,
        ..LayoutSettings::default()
    };
    let mut l: Layout<u8> = Layout::new(tall, 16, CoordinateSystem::PositiveYDown);
    l.reset(&settings);
    l.append(Span::text(chars("a"), 0u8));
    assert_eq!(l.height(), 200);
    l.finalize();
    assert_eq!(l.lines().unwrap()[0].baseline_y, 200 + 150);
}

#[test]
fn vertical_bottom_positive_y_up() {
    let tall = Face {
        hash: 1,
        line_metrics: Some(LineMetrics { ascent: 150, descent: -50, line_gap: 0, new_line_size: 200 }),
    };
    let settings = LayoutSettings {
        y: 600,
        max_height: Some(600),
        vertical_align: VerticalAlign::Bottom,
        ..LayoutSettings::default()
    };
    let mut l: Layout<u8> = Layout::new(tall, 16, CoordinateSystem::PositiveYUp);
    l.reset(&settings);
    l.append(Span::text(chars("a"), 0u8));
    l.finalize();
    assert_eq!(l.lines().unwrap()[0].baseline_y, 600 - 400 - 150);
}

#[test]
fn center_and_right_alignment() {
    for (align, x) in [(HorizontalAlign::Center, 16), (HorizontalAlign::Right, 32), (HorizontalAlign::Left, 1)] {
        let settings = LayoutSettings { max_width: Some(51), horizontal_align: align, ..LayoutSettings::default() };
        let mut l = layout(CoordinateSystem::PositiveYDown, settings);
        l.append(Span::text(chars("ab"), 0u8));
        l.finalize();
        assert_eq!(l.glyphs()[0].x, x);
    }
}

#[test]
fn wrap_by_letter() {
    let settings = LayoutSettings { max_width: Some(25), wrap_style: WrapStyle::Letter, ..LayoutSettings::default() };
    let mut l = layout(CoordinateSystem::PositiveYDown, settings);
    l.append(Span::text(chars("abcde"), 0u8));
    let lines = l.lines().unwrap().clone();
    assert_eq!(lines.len(), 3);
    assert_eq!((lines[0].glyph_start, lines[0].glyph_end), (0, 1));
    assert_eq!((lines[1].glyph_start, lines[1].glyph_end), (2, 3));
    assert_eq!((lines[2].glyph_start, lines[2].glyph_end), (4, 4));
    assert_eq!(lines[0].padding, 5);
    l.finalize();
    assert_eq!(xs(l.glyphs()), vec![1, 11, 1, 11, 1]);
}

#[test]
fn line_height_multiplier() {
    let mut l = layout(CoordinateSystem::PositiveYDown, LayoutSettings::default());
    l.append(Span::text(chars("a\nb"), 0u8).with_line_height(150));
    assert_eq!(l.lines().unwrap()[0].line_height, Some(150));
    assert_eq!(l.height(), 27 + 18);
    l.finalize();
    let lines = l.lines().unwrap();
    assert_eq!(lines[0].baseline_y, 12);
    assert_eq!(lines[1].baseline_y, 27 + 12);
}

#[test]
fn span_overrides() {
    let other = Face { hash: 42, line_metrics: None };
    let mut l = layout(CoordinateSystem::PositiveYUp, LayoutSettings::default());
    l.append(Span::text(chars("ab"), 0u8).with_font(other).with_px(20).with_kerning(-3).with_rise(4));
    let before = l.lines().unwrap()[0];
    assert_eq!(before.max_ascent, 0);
    l.finalize();
    let g = l.glyphs();
    assert_eq!(g[0].key, Some(GlyphRasterConfig { glyph_index: 'a' as u16, px: 20, font_hash: 42 }));
    assert_eq!(g[0].font_hash, 42);
    assert_eq!(xs(g), vec![1, 8]);
    assert_eq!(g[0].y, 4);
}

#[test]
fn empty_text_and_empty_block_are_no_ops() {
    let mut l = layout(CoordinateSystem::PositiveYDown, LayoutSettings::default());
    l.append(Span::text(Vec::new(), 0u8));
    l.append(Span::block(Block::new(0, 10), 0u8));
    l.append(Span::block(Block::new(10, 0), 0u8));
    assert!(l.lines().is_none());
    l.finalize();
    assert!(l.glyphs().is_empty());
    assert_eq!(l.height(), 0);
}
