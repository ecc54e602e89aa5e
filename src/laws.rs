use vstd::prelude::*;
use crate::arith::{lemma_ceil_div_bounds, lemma_ceil_div_exact};
use crate::glyph::GlyphPosition;
use crate::layout::{
    emits, justified, justify_shift, lemma_ws_count_bounds, lemma_ws_count_mono, moved, parents,
    span_chars, ws_count, Config, Layout, LinePosition, Tracking,
};
use crate::settings::LayoutSettings;
use crate::span::Span;

verus! {

/// Some line emits glyph `i`.
pub open spec fn emitted(lines: Seq<LinePosition>, i: int) -> bool {
    exists|l: int| emits(lines, l, i)
}

/// Every glyph of a well-formed layout is emitted by exactly one line, and
/// the emitting lines follow the glyph order: line ranges cover the glyphs
/// in order, whatever gaps trailing whitespace leaves between them.
pub proof fn law_lines_cover_glyphs<U: Copy>(layout: Layout<U>)
    requires
        layout.wf(),
    ensures
        forall|i: int| 0 <= i < layout.glyphs@.len() ==> #[trigger] emitted(layout.line_metrics@, i),
        forall|i: int, l: int, m: int|
            emits(layout.line_metrics@, l, i) && emits(layout.line_metrics@, m, i) ==> l == m,
        forall|i: int, j: int, l: int, m: int|
            i <= j && emits(layout.line_metrics@, l, i) && emits(layout.line_metrics@, m, j) ==> l <= m,
{
    let lines = layout.line_metrics@;
    let n = layout.glyphs@.len();
    assert forall|i: int| 0 <= i < n implies #[trigger] emitted(lines, i) by {
        lemma_first_line_reaching(lines, i, lines.len() - 1);
    }
    assert forall|i: int, l: int, m: int| emits(lines, l, i) && emits(lines, m, i) implies l == m by {
        if l < m {
            assert(lines[l].glyph_end < i);
        }
        if m < l {
            assert(lines[m].glyph_end < i);
        }
    }
    assert forall|i: int, j: int, l: int, m: int| i <= j && emits(lines, l, i) && emits(lines, m, j) implies l <= m by {
        if m < l {
            assert(lines[m].glyph_end < i);
        }
    }
}

/// Some line up to `top` is the first to reach glyph `i`, when `top` reaches it.
proof fn lemma_first_line_reaching(lines: Seq<LinePosition>, i: int, top: int)
    requires
        0 <= top < lines.len(),
        i <= lines[top].glyph_end,
    ensures
        emitted(lines, i),
    decreases top,
{
    if forall|m: int| 0 <= m < top ==> lines[m].glyph_end < i {
        assert(emits(lines, top, i));
    } else {
        let m = choose|m: int| 0 <= m < top && !(lines[m].glyph_end < i);
        lemma_first_line_reaching(lines, i, m);
    }
}

/// Every line extends from a baseline upwards by a non-negative ascent and
/// downwards by a non-positive descent.
pub proof fn law_lines_straddle_baseline<U: Copy>(layout: Layout<U>)
    requires
        layout.wf(),
    ensures
        forall|l: int| 0 <= l < layout.line_metrics@.len() ==>
            (#[trigger] layout.line_metrics@[l]).max_ascent >= 0 >= layout.line_metrics@[l].min_descent,
{
    assert forall|l: int| 0 <= l < layout.line_metrics@.len() implies
        (#[trigger] layout.line_metrics@[l]).max_ascent >= 0 >= layout.line_metrics@[l].min_descent by {
        assert(layout.line_metrics@[l].bounded());
    }
}

/// The characters of the first `k` spans, one after another.
pub open spec fn chars_of<U>(spans: Seq<Span<U>>, k: int) -> Seq<char>
    decreases k,
{
    if k <= 0 {
        Seq::empty()
    } else {
        chars_of(spans, k - 1) + span_chars(spans[k - 1])
    }
}

/// Appending spans to a cleared layout and finalizing it gives the glyphs of
/// their characters in the order they were appended: none is reordered.
pub proof fn law_output_keeps_input_order<U: Copy>(
    states: Seq<Layout<U>>,
    spans: Seq<Span<U>>,
    done: Layout<U>,
)
    requires
        states.len() == spans.len() + 1,
        states[0].is_cleared(),
        forall|k: int| 0 <= k < spans.len() ==> #[trigger] states[k].appended(spans[k], states[k + 1]),
        states.last().finalizes_to(done),
        states.last().glyphs@.len() > 0,
    ensures
        parents(done.output@) == chars_of(spans, spans.len() as int),
{
    lemma_appends_keep_order(states, spans, spans.len() as int);
}

proof fn lemma_appends_keep_order<U: Copy>(states: Seq<Layout<U>>, spans: Seq<Span<U>>, k: int)
    requires
        states.len() == spans.len() + 1,
        0 <= k <= spans.len(),
        states[0].is_cleared(),
        forall|m: int| 0 <= m < spans.len() ==> #[trigger] states[m].appended(spans[m], states[m + 1]),
    ensures
        parents(states[k].glyphs@) == chars_of(spans, k),
    decreases k,
{
    if k == 0 {
        assert(parents(states[0].glyphs@) =~= Seq::<char>::empty());
    } else {
        lemma_appends_keep_order(states, spans, k - 1);
        let m = k - 1;
        assert(states[m].appended(spans[m], states[m + 1]));
        assert(m + 1 == k);
    }
}

/// Resetting with the same settings twice leaves the state one reset leaves.
pub proof fn law_reset_idempotent<U: Copy>(
    start: Layout<U>,
    once: Layout<U>,
    twice: Layout<U>,
    settings: LayoutSettings,
)
    requires
        start.reset_to(settings, once),
        once.reset_to(settings, twice),
    ensures
        twice.same_state(once),
{
    lemma_reset_determined(once, twice);
}

proof fn lemma_reset_determined<U: Copy>(a: Layout<U>, b: Layout<U>)
    requires
        a.wf(),
        b.wf(),
        a.is_cleared(),
        b.is_cleared(),
        a.settings == b.settings,
        a.flip == b.flip,
        a.base_font == b.base_font,
        a.base_px == b.base_px,
    ensures
        b.same_state(a),
        agrees(a, b),
{
    assert(a.glyphs@ =~= b.glyphs@);
    assert(a.output@ =~= b.output@);
}

/// Glyph `i` moves by its exact share `j * padding / k` rounded up, where `j`
/// of the line's `k` whitespace glyphs precede it.
pub open spec fn shift_within_one<U>(g: Seq<GlyphPosition<U>>, start: int, end: int, i: int, padding: int) -> bool {
    let k = ws_count(g, start, end);
    let j = ws_count(g, start, i);
    &&& 0 <= j <= k
    &&& j * padding <= k * justify_shift(g, start, i, padding, k) < j * padding + k
}

/// `a` and `b` hold the same observable state: what `append` and `finalize`
/// read and what they produce.
pub open spec fn agrees<U: Copy>(a: Layout<U>, b: Layout<U>) -> bool {
    &&& a.tracking() == b.tracking()
    &&& a.config() == b.config()
    &&& a.output@ == b.output@
    &&& a.settings == b.settings
    &&& a.x == b.x
    &&& a.y == b.y
    &&& a.max_height == b.max_height
    &&& a.vertical_align == b.vertical_align
    &&& a.horizontal_align == b.horizontal_align
    &&& a.base_font == b.base_font
    &&& a.base_px == b.base_px
}

proof fn lemma_append_agrees<U: Copy>(a: Layout<U>, b: Layout<U>, span: Span<U>, a2: Layout<U>, b2: Layout<U>)
    requires
        agrees(a, b),
        a.appended(span, a2),
        b.appended(span, b2),
    ensures
        agrees(a2, b2),
{
    assert(a.face_of(span) == b.face_of(span));
    assert(a.px_of(span) == b.px_of(span));
    assert(a.span_config(span) == b.span_config(span));
    assert(a.appended_tracking(span) == b.appended_tracking(span));
}

proof fn lemma_finalize_agrees<U: Copy>(a: Layout<U>, b: Layout<U>, a2: Layout<U>, b2: Layout<U>)
    requires
        agrees(a, b),
        a.wf(),
        a.finalizes_to(a2),
        b.finalizes_to(b2),
    ensures
        a2.output@ == b2.output@,
        a2.line_metrics@ == b2.line_metrics@,
{
    let n = a.glyphs@.len();
    if n > 0 {
        law_lines_cover_glyphs(a);
        assert forall|l: int| 0 <= l < a.line_metrics@.len() implies
            a.x_offset(l) == b.x_offset(l) && a.baseline_of(l) == b.baseline_of(l) by {}
        assert forall|i: int| 0 <= i < n implies #[trigger] a2.output@[i] == b2.output@[i] by {
            assert(emitted(a.line_metrics@, i));
            let l = choose|l: int| emits(a.line_metrics@, l, i);
            assert(a2.output@[i] == moved(a.glyphs@[i], a.x_offset(l), a.baseline_of(l)));
            assert(b2.output@[i] == moved(b.glyphs@[i], b.x_offset(l), b.baseline_of(l)));
        }
        assert(a2.output@ =~= b2.output@);
        assert forall|l: int| 0 <= l < a.line_metrics@.len() implies #[trigger] a2.line_metrics@[l] == b2.line_metrics@[l] by {
            assert(a.baseline_of(l) == b.baseline_of(l));
        }
        assert(a2.line_metrics@ =~= b2.line_metrics@);
    }
}

/// A reused layout gives the output of a fresh one: after a reset with the
/// same settings, the same spans appended and finalized produce the same
/// glyphs and lines, whatever the reused layout held before.
pub proof fn law_reuse_matches_fresh<U: Copy>(
    fresh: Layout<U>,
    reused: Layout<U>,
    settings: LayoutSettings,
    spans: Seq<Span<U>>,
    fresh_states: Seq<Layout<U>>,
    reused_states: Seq<Layout<U>>,
    fresh_done: Layout<U>,
    reused_done: Layout<U>,
)
    requires
        fresh.flip == reused.flip,
        fresh.base_font == reused.base_font,
        fresh.base_px == reused.base_px,
        fresh_states.len() == spans.len() + 1,
        reused_states.len() == spans.len() + 1,
        fresh.reset_to(settings, fresh_states[0]),
        reused.reset_to(settings, reused_states[0]),
        forall|k: int| 0 <= k < spans.len() ==> #[trigger] fresh_states[k].appended(spans[k], fresh_states[k + 1]),
        forall|k: int| 0 <= k < spans.len() ==> #[trigger] reused_states[k].appended(spans[k], reused_states[k + 1]),
        fresh_states.last().finalizes_to(fresh_done),
        reused_states.last().finalizes_to(reused_done),
    ensures
        reused_done.output@ == fresh_done.output@,
        reused_done.line_metrics@ == fresh_done.line_metrics@,
        reused_done.height_spec() == fresh_done.height_spec(),
{
    lemma_reset_determined(fresh_states[0], reused_states[0]);
    lemma_runs_agree(spans, fresh_states, reused_states, spans.len() as int);
    lemma_finalize_agrees(fresh_states.last(), reused_states.last(), fresh_done, reused_done);
}

proof fn lemma_runs_agree<U: Copy>(spans: Seq<Span<U>>, f: Seq<Layout<U>>, r: Seq<Layout<U>>, k: int)
    requires
        f.len() == spans.len() + 1,
        r.len() == spans.len() + 1,
        0 <= k <= spans.len(),
        agrees(f[0], r[0]),
        f[0].wf(),
        forall|m: int| 0 <= m < spans.len() ==> #[trigger] f[m].appended(spans[m], f[m + 1]),
        forall|m: int| 0 <= m < spans.len() ==> #[trigger] r[m].appended(spans[m], r[m + 1]),
    ensures
        agrees(f[k], r[k]),
        f[k].wf(),
    decreases k,
{
    if k > 0 {
        let m = k - 1;
        lemma_runs_agree(spans, f, r, m);
        assert(f[m].appended(spans[m], f[m + 1]));
        assert(r[m].appended(spans[m], r[m + 1]));
        lemma_append_agrees(f[m], r[m], spans[m], f[m + 1], r[m + 1]);
        assert(m + 1 == k);
    }
}

/// Justifying a line with `k > 0` whitespace glyphs hands out exactly its
/// padding: a glyph after all of them moves by the whole padding, and a glyph
/// after `j` of them by `j / k` of it rounded up, so that each whitespace
/// glyph adds its share within less than one pixel.
pub proof fn law_justify_distributes_padding<U>(
    g: Seq<GlyphPosition<U>>,
    start: int,
    end: int,
    padding: int,
)
    requires
        0 <= start <= end <= g.len(),
        ws_count(g, start, end) > 0,
    ensures
        justify_shift(g, start, end, padding, ws_count(g, start, end)) == padding,
        forall|i: int| start <= i <= end ==> shift_within_one(g, start, end, i, padding),
{
    let k = ws_count(g, start, end);
    assert(k * padding == padding * k) by (nonlinear_arith);
    lemma_ceil_div_exact(padding, k);
    assert forall|i: int| start <= i <= end implies #[trigger] shift_within_one(g, start, end, i, padding) by {
        let j = ws_count(g, start, i);
        lemma_ws_count_bounds(g, start, i);
        lemma_ws_count_mono(g, start, i, end);
        lemma_ceil_div_bounds(j * padding, k);
    }
}

/// A soft break under justification hands out the closed line's padding:
/// the line's padding becomes 0, each of its glyphs moves by its rounded-up
/// share (`justified`), and a glyph after all its whitespace would move by
/// the whole padding.
pub proof fn law_justified_break<U>(cfg: Config, t: Tracking<U>)
    requires
        cfg.justify,
        t.lines.len() >= 1,
        0 <= t.lines.last().glyph_start <= t.line_end_idx <= t.glyphs.len(),
        ws_count(t.glyphs, t.lines.last().glyph_start as int, t.line_end_idx) > 0,
    ensures
        cfg.broken(t, false).lines[t.lines.len() - 1].padding == 0,
        forall|i: int| t.lines.last().glyph_start <= i < t.line_end_idx ==>
            #[trigger] cfg.broken(t, false).glyphs[i] == justified(
                t.glyphs,
                t.lines.last().glyph_start as int,
                i,
                cfg.max_width - (t.line_end_pos - t.start_pos),
                ws_count(t.glyphs, t.lines.last().glyph_start as int, t.line_end_idx),
            ),
        justify_shift(
            t.glyphs,
            t.lines.last().glyph_start as int,
            t.line_end_idx,
            cfg.max_width - (t.line_end_pos - t.start_pos),
            ws_count(t.glyphs, t.lines.last().glyph_start as int, t.line_end_idx),
        ) == cfg.max_width - (t.line_end_pos - t.start_pos),
{
    law_justify_distributes_padding(
        t.glyphs,
        t.lines.last().glyph_start as int,
        t.line_end_idx,
        cfg.max_width - (t.line_end_pos - t.start_pos),
    );
}

} // verus!
