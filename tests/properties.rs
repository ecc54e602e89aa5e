use glyph_layout::{
    Block, CharInput, CharacterData, CoordinateSystem, Face, HorizontalAlign, Layout,
    LayoutSettings, LineMetrics, Linebreak, Span, WrapStyle,
};

fn face() -> Face {
    Face { hash: 5, line_metrics: Some(LineMetrics { ascent: 11, descent: -3, line_gap: 1, new_line_size: 15 }) }
}

fn chars(text: &str) -> Vec<CharInput> {
    let mut out = Vec::new();
    let mut prev: Option<char> = None;
    for c in text.chars() {
        let whitespace = c.is_whitespace();
        let linebreak = match prev {
            Some('\n') => Linebreak::Hard,
            Some(' ') if c != ' ' => Linebreak::Soft,
            _ => Linebreak::NoBreak,
        };
        out.push(CharInput {
            parent: c,
            glyph_index: c as u16,
            char_data: CharacterData { whitespace, control: c.is_control(), missing: false },
            linebreak,
            advance_width: if whitespace { 4 } else { 7 + (c as i32 % 3) },
            xmin: if whitespace { 0 } else { 1 },
            ymin: -2,
            bounds_height: 9,
            width: 6,
            height: 9,
        });
        prev = Some(c);
    }
    out
}

fn justified() -> LayoutSettings {
    LayoutSettings {
        max_width: Some(60),
        horizontal_align: HorizontalAlign::Justify,
        ..LayoutSettings::default()
    }
}

fn run(l: &mut Layout<u8>) -> Vec<(char, i64, i64)> {
    l.append(Span::text(chars("the quick brown fox\njumps over the lazy dog"), 1u8));
    l.append(Span::block(Block::new(12, 20), 2u8));
    l.append(Span::text(chars(" and more words"), 3u8).with_kerning(1));
    l.finalize();
    l.glyphs().iter().map(|g| (g.parent, g.x, g.y)).collect()
}

#[test]
fn reset_twice_equals_reset_once() {
    let mut a: Layout<u8> = Layout::new(face(), 12, CoordinateSystem::PositiveYDown);
    let mut b: Layout<u8> = Layout::new(face(), 12, CoordinateSystem::PositiveYDown);
    a.append(Span::text(chars("leftover text"), 0u8));
    a.reset(&justified());
    b.reset(&justified());
    b.reset(&justified());
    assert!(a.lines().is_none() && b.lines().is_none());
    assert_eq!(a.height(), b.height());
    assert_eq!(a.settings(), b.settings());
    assert_eq!(run(&mut a), run(&mut b));
}

#[test]
fn reused_layout_matches_fresh_one() {
    let mut reused: Layout<u8> = Layout::new(face(), 12, CoordinateSystem::PositiveYUp);
    reused.reset(&LayoutSettings { max_width: Some(30), wrap_style: WrapStyle::Letter, ..LayoutSettings::default() });
    run(&mut reused);
    reused.reset(&justified());
    let mut fresh: Layout<u8> = Layout::new(face(), 12, CoordinateSystem::PositiveYUp);
    fresh.reset(&justified());
    assert_eq!(run(&mut reused), run(&mut fresh));
    assert_eq!(reused.lines().unwrap(), fresh.lines().unwrap());
}

#[test]
fn output_keeps_input_order() {
    let mut l: Layout<u8> = Layout::new(face(), 12, CoordinateSystem::PositiveYDown);
    l.reset(&justified());
    let out: String = run(&mut l).iter().map(|g| g.0).collect();
    assert_eq!(out, "the quick brown fox\njumps over the lazy dogx and more words");
}

#[test]
fn lines_cover_glyphs_in_order() {
    let mut l: Layout<u8> = Layout::new(face(), 12, CoordinateSystem::PositiveYDown);
    l.reset(&justified());
    run(&mut l);
    let n = l.glyphs().len();
    let lines = l.lines().unwrap();
    assert!(lines.len() > 2);
    assert_eq!(lines.last().unwrap().glyph_end, n - 1);
    let mut next = 0;
    for line in lines.iter() {
        assert!(line.glyph_start >= next || line.glyph_start > line.glyph_end);
        for i in next..line.glyph_start.min(line.glyph_end + 1) {
            assert!(l.glyphs()[i].char_data.whitespace);
        }
        if line.glyph_end + 1 > next {
            next = line.glyph_end + 1;
        }
    }
    assert_eq!(next, n);
}

#[test]
fn lines_straddle_baseline() {
    let mut l: Layout<u8> = Layout::new(face(), 12, CoordinateSystem::PositiveYDown);
    l.reset(&justified());
    run(&mut l);
    for line in l.lines().unwrap().iter() {
        assert!(line.max_ascent >= 0 && line.min_descent <= 0);
    }
}

#[test]
fn justify_hands_out_the_padding() {
    let settings = LayoutSettings { max_width: Some(45), ..justified() };
    let mut plain: Layout<u8> = Layout::new(face(), 12, CoordinateSystem::PositiveYDown);
    plain.reset(&LayoutSettings { horizontal_align: HorizontalAlign::Left, ..settings });
    plain.append(Span::text(chars("ab cd ef gh ij"), 0u8));
    let mut just: Layout<u8> = Layout::new(face(), 12, CoordinateSystem::PositiveYDown);
    just.reset(&settings);
    just.append(Span::text(chars("ab cd ef gh ij"), 0u8));
    let pl = plain.lines().unwrap()[0];
    let jl = just.lines().unwrap()[0];
    assert_eq!(jl.padding, 0);
    assert!(pl.padding > 0);
    plain.finalize();
    just.finalize();
    let (p, j) = (plain.glyphs(), just.glyphs());
    // the last glyph before the line end moves by the whole padding
    let end = jl.glyph_end;
    let before_end = end - 1;
    assert_eq!(j[before_end].x - p[before_end].x, pl.padding);
    let spaces = (0..end).filter(|&i| p[i].char_data.whitespace).count() as i64;
    for i in 0..end {
        let seen = (0..i).filter(|&m| p[m].char_data.whitespace).count() as i64;
        let shift = j[i].x - p[i].x;
        assert!(seen * pl.padding <= spaces * shift && spaces * shift < seen * pl.padding + spaces);
    }
}

#[test]
fn coordinates_are_whole_pixels() {
    let mut l: Layout<u8> = Layout::new(face(), 12, CoordinateSystem::PositiveYDown);
    l.reset(&justified());
    let glyphs = run(&mut l);
    let as_float: Vec<f64> = glyphs.iter().map(|g| g.1 as f64).collect();
    assert!(as_float.iter().all(|x| x.fract() == 0.0));
}

#[test]
fn settings_and_builders() {
    let d = LayoutSettings::default();
    assert_eq!((d.x, d.y, d.max_width, d.max_height, d.wrap_hard_breaks), (0, 0, None, None, true));
    let b = Block::new(3, 4).with_linebreak(Linebreak::Soft);
    assert_eq!((b.width, b.height, b.linebreak), (3, 4, Linebreak::Soft));
    let mut l: Layout<u8> = Layout::new(face(), 12, CoordinateSystem::PositiveYDown);
    l.set_base(Face { hash: 77, line_metrics: None }, 30);
    l.append(Span::text(chars("a"), 0u8));
    l.clear();
    assert!(l.lines().is_none());
    l.append(Span::text(chars("a"), 0u8));
    l.finalize();
    assert_eq!(l.glyphs()[0].font_hash, 77);
    assert_eq!(l.glyphs()[0].key.unwrap().px, 30);
}
