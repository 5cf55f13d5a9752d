//! Utah-OS desktop manifold: taskbar, app panels and browser workspace, drawn in a theme.
use vstd::prelude::*;

use crate::ui::canvas::{
    in_canvas, lemma_paint_concat, lemma_painted_compose, lemma_painted_single_elim, lemma_painted_single_intro, paint, painted,
    pixel_of,
    span_fits, stroke_color, wrapped_i32, Rgba, Stroke,
};
use crate::ui::framebuffer::Framebuffer;
use crate::ui::glass::{label_fits, label_strokes, lemma_label_misses_other_rows};
use crate::ui::theme::{ColorRgb, SystemTheme};

verus! {

pub open spec fn opaque(c: ColorRgb, alpha: u8) -> Rgba {
    (c.red, c.green, c.blue, alpha)
}

/// Two boxes of one colour drawn together: rows `row_a` and `row_b` from `x0` to `x1`.
pub open spec fn row_pair(x0: int, x1: int, row_a: int, row_b: int, c: Rgba) -> Seq<Stroke> {
    seq![Stroke::Box(x0, row_a, x1, row_a, c), Stroke::Box(x0, row_b, x1, row_b, c)]
}

/// Two boxes of one colour drawn together: columns `col_a` and `col_b` from `y0` to `y1`.
pub open spec fn column_pair(y0: int, y1: int, col_a: int, col_b: int, c: Rgba) -> Seq<Stroke> {
    seq![Stroke::Box(col_a, y0, col_a, y1, c), Stroke::Box(col_b, y0, col_b, y1, c)]
}

/// For each `t` from `from` to `to`, writes the pixels (t, row_a) and (t, row_b).
fn draw_row_pair(fb: &mut Framebuffer, from: i32, to: i32, row_a: i32, row_b: i32, c: ColorRgb)
    requires
        old(fb).wf(),
    ensures
        final(fb).wf(),
        final(fb).is_ready() == old(fb).is_ready(),
        painted(old(fb).bytes(), final(fb).bytes(), row_pair(from as int, to as int, row_a as int, row_b as int, opaque(c, 255))),
{
    let ghost before = fb.bytes();
    let ghost col = opaque(c, 255);
    proof {
        fb.lemma_bytes_len();
    }
    let mut t: i64 = from as i64;
    while t <= to as i64
        invariant
            from <= t,
            t <= to as int + 1 || t == from,
            col == opaque(c, 255),
            fb.wf(),
            fb.is_ready() == old(fb).is_ready(),
            before == old(fb).bytes(),
            forall|qx: int, qy: int| in_canvas(qx, qy) ==> #[trigger] pixel_of(fb.bytes(), qx, qy) == if from <= qx < t && (qy
                == row_a || qy == row_b) {
                col
            } else {
                pixel_of(before, qx, qy)
            },
        decreases to as int + 1 - t,
    {
        let ghost m1 = fb.bytes();
        fb.write_pixel(t as i32, row_a, c.red, c.green, c.blue, 255);
        let ghost m2 = fb.bytes();
        fb.write_pixel(t as i32, row_b, c.red, c.green, c.blue, 255);
        proof {
            lemma_painted_single_elim(m1, m2, Stroke::Pixel(t as int, row_a as int, col));
            lemma_painted_single_elim(m2, fb.bytes(), Stroke::Pixel(t as int, row_b as int, col));
            assert forall|qx: int, qy: int| in_canvas(qx, qy) implies #[trigger] pixel_of(fb.bytes(), qx, qy) == if from <= qx < t
                + 1 && (qy == row_a || qy == row_b) {
                col
            } else {
                pixel_of(before, qx, qy)
            } by {
                assert(pixel_of(m1, qx, qy) == pixel_of(m1, qx, qy));
                assert(pixel_of(m2, qx, qy) == pixel_of(m2, qx, qy));
            }
        }
        t = t + 1;
    }
    proof {
        let s = row_pair(from as int, to as int, row_a as int, row_b as int, col);
        fb.lemma_bytes_len();
        assert forall|qx: int, qy: int| in_canvas(qx, qy) implies #[trigger] pixel_of(fb.bytes(), qx, qy)
            == crate::ui::canvas::paint(s, pixel_of(before, qx, qy), qx, qy) by {
            crate::ui::canvas::lemma_paint_two(s[0], s[1], pixel_of(before, qx, qy), qx, qy);
            assert(s == seq![s[0], s[1]]);
        }
    }
}

/// For each `t` from `from` to `to`, writes the pixels (col_a, t) and (col_b, t).
fn draw_column_pair(fb: &mut Framebuffer, from: i32, to: i32, col_a: i32, col_b: i32, c: ColorRgb)
    requires
        old(fb).wf(),
    ensures
        final(fb).wf(),
        final(fb).is_ready() == old(fb).is_ready(),
        painted(old(fb).bytes(), final(fb).bytes(), column_pair(from as int, to as int, col_a as int, col_b as int, opaque(c, 255))),
{
    let ghost before = fb.bytes();
    let ghost col = opaque(c, 255);
    proof {
        fb.lemma_bytes_len();
    }
    let mut t: i64 = from as i64;
    while t <= to as i64
        invariant
            from <= t,
            t <= to as int + 1 || t == from,
            col == opaque(c, 255),
            fb.wf(),
            fb.is_ready() == old(fb).is_ready(),
            before == old(fb).bytes(),
            forall|qx: int, qy: int| in_canvas(qx, qy) ==> #[trigger] pixel_of(fb.bytes(), qx, qy) == if from <= qy < t && (qx
                == col_a || qx == col_b) {
                col
            } else {
                pixel_of(before, qx, qy)
            },
        decreases to as int + 1 - t,
    {
        let ghost m1 = fb.bytes();
        fb.write_pixel(col_a, t as i32, c.red, c.green, c.blue, 255);
        let ghost m2 = fb.bytes();
        fb.write_pixel(col_b, t as i32, c.red, c.green, c.blue, 255);
        proof {
            lemma_painted_single_elim(m1, m2, Stroke::Pixel(col_a as int, t as int, col));
            lemma_painted_single_elim(m2, fb.bytes(), Stroke::Pixel(col_b as int, t as int, col));
            assert forall|qx: int, qy: int| in_canvas(qx, qy) implies #[trigger] pixel_of(fb.bytes(), qx, qy) == if from <= qy < t
                + 1 && (qx == col_a || qx == col_b) {
                col
            } else {
                pixel_of(before, qx, qy)
            } by {
                assert(pixel_of(m1, qx, qy) == pixel_of(m1, qx, qy));
                assert(pixel_of(m2, qx, qy) == pixel_of(m2, qx, qy));
            }
        }
        t = t + 1;
    }
    proof {
        let s = column_pair(from as int, to as int, col_a as int, col_b as int, col);
        fb.lemma_bytes_len();
        assert forall|qx: int, qy: int| in_canvas(qx, qy) implies #[trigger] pixel_of(fb.bytes(), qx, qy)
            == crate::ui::canvas::paint(s, pixel_of(before, qx, qy), qx, qy) by {
            crate::ui::canvas::lemma_paint_two(s[0], s[1], pixel_of(before, qx, qy), qx, qy);
            assert(s == seq![s[0], s[1]]);
        }
    }
}

/// A themed panel: the surface colour (alpha 220) with a one-pixel border in the
/// interactive-element colour.
pub open spec fn themed_panel_strokes(x: int, y: int, width: int, height: int, style: SystemTheme) -> Seq<Stroke> {
    let x1 = x + wrapped_i32(width) - 1;
    let y1 = y + wrapped_i32(height) - 1;
    seq![Stroke::Rect(x, y, width, height, opaque(style.surface, 220))] + row_pair(x, x1, y, y1, opaque(style.interactive_element, 255))
        + column_pair(y, y1, x, x1, opaque(style.interactive_element, 255))
}

/// What a themed panel's placement needs so that drawing it computes only `i32` values.
pub open spec fn themed_panel_fits(x: int, y: int, width: int, height: int) -> bool {
    &&& span_fits(x, width)
    &&& span_fits(y, height)
    &&& i32::MIN <= x + wrapped_i32(width) <= i32::MAX
    &&& i32::MIN <= x + wrapped_i32(width) - 1
    &&& i32::MIN <= y + wrapped_i32(height) <= i32::MAX
    &&& i32::MIN <= y + wrapped_i32(height) - 1
}

fn render_glass_panel_themed(fb: &mut Framebuffer, pos_x: i32, pos_y: i32, width: u32, height: u32, style: &SystemTheme)
    requires
        old(fb).wf(),
        themed_panel_fits(pos_x as int, pos_y as int, width as int, height as int),
    ensures
        final(fb).wf(),
        final(fb).is_ready() == old(fb).is_ready(),
        painted(old(fb).bytes(), final(fb).bytes(), themed_panel_strokes(pos_x as int, pos_y as int, width as int, height as int, *style)),
{
    let ghost b0 = fb.bytes();
    fb.fill_rect(pos_x, pos_y, width, height, style.surface.red, style.surface.green, style.surface.blue, 220);
    let ghost b1 = fb.bytes();
    let x0 = pos_x;
    let y0 = pos_y;
    let x1 = pos_x + crate::ui::framebuffer::counter_as_i32(width) - 1;
    let y1 = pos_y + crate::ui::framebuffer::counter_as_i32(height) - 1;
    let border = style.interactive_element;
    draw_row_pair(fb, x0, x1, y0, y1, border);
    let ghost b2 = fb.bytes();
    draw_column_pair(fb, y0, y1, x0, x1, border);
    proof {
        let r = seq![Stroke::Rect(pos_x as int, pos_y as int, width as int, height as int, opaque(style.surface, 220))];
        let rows = row_pair(x0 as int, x1 as int, y0 as int, y1 as int, opaque(border, 255));
        let cols = column_pair(y0 as int, y1 as int, x0 as int, x1 as int, opaque(border, 255));
        lemma_painted_compose(b0, b1, b2, r, rows);
        lemma_painted_compose(b0, b2, fb.bytes(), r + rows, cols);
    }
}

/// Text strips of the taskbar.
pub open spec fn manifold_title() -> Seq<u8> {
    seq![0x55u8, 0x74, 0x61, 0x68, 0x2d, 0x4f, 0x53]
}

pub open spec fn calculator_title() -> Seq<u8> {
    seq![0x43u8, 0x61, 0x6c, 0x63, 0x75, 0x6c, 0x61, 0x74, 0x6f, 0x72]
}

pub open spec fn explorer_title() -> Seq<u8> {
    seq![0x48u8, 0x46, 0x53, 0x20, 0x45, 0x78, 0x70, 0x6c, 0x6f, 0x72, 0x65, 0x72]
}

/// The whole desktop in a theme: background, taskbar with its accent line, the
/// calculator, explorer and browser panels, the calculator's accent bar and the taskbar
/// labels.
pub open spec fn manifold_strokes(style: SystemTheme) -> Seq<Stroke> {
    seq![
        Stroke::Rect(0, 0, 800, 600, opaque(style.background, 255)),
        Stroke::Rect(0, 0, 800, 45, opaque(style.surface, 255)),
        Stroke::Box(0, 44, 799, 44, opaque(style.primary_accent, 255)),
    ] + themed_panel_strokes(20, 70, 260, 400, style) + themed_panel_strokes(300, 70, 460, 400, style)
        + themed_panel_strokes(20, 490, 740, 270, style) + row_pair(22, 277, 71, 72, opaque(style.secondary_accent, 255))
        + label_strokes(28, 12, manifold_title(), opaque(style.text_primary, 255)) + label_strokes(
        120,
        12,
        calculator_title(),
        opaque(style.text_primary, 255),
    ) + label_strokes(320, 12, explorer_title(), opaque(style.text_primary, 255))
}

/// The desktop strokes without the taskbar labels, the panels written out.
pub open spec fn manifold_shapes(style: SystemTheme) -> Seq<Stroke> {
    let body = opaque(style.surface, 220);
    let edge = opaque(style.interactive_element, 255);
    seq![
        Stroke::Rect(0, 0, 800, 600, opaque(style.background, 255)),
        Stroke::Rect(0, 0, 800, 45, opaque(style.surface, 255)),
        Stroke::Box(0, 44, 799, 44, opaque(style.primary_accent, 255)),
        Stroke::Rect(20, 70, 260, 400, body),
        Stroke::Box(20, 70, 279, 70, edge),
        Stroke::Box(20, 469, 279, 469, edge),
        Stroke::Box(20, 70, 20, 469, edge),
        Stroke::Box(279, 70, 279, 469, edge),
        Stroke::Rect(300, 70, 460, 400, body),
        Stroke::Box(300, 70, 759, 70, edge),
        Stroke::Box(300, 469, 759, 469, edge),
        Stroke::Box(300, 70, 300, 469, edge),
        Stroke::Box(759, 70, 759, 469, edge),
        Stroke::Rect(20, 490, 740, 270, body),
        Stroke::Box(20, 490, 759, 490, edge),
        Stroke::Box(20, 759, 759, 759, edge),
        Stroke::Box(20, 490, 20, 759, edge),
        Stroke::Box(759, 490, 759, 759, edge),
        Stroke::Box(22, 71, 277, 71, opaque(style.secondary_accent, 255)),
        Stroke::Box(22, 72, 277, 72, opaque(style.secondary_accent, 255)),
    ]
}

/// Off the label rows (12 to 21), the desktop is its shapes alone.
proof fn lemma_manifold_off_labels(style: SystemTheme, base: Rgba, px: int, py: int)
    requires
        py < 12 || py >= 22,
    ensures
        paint(manifold_strokes(style), base, px, py) == paint(manifold_shapes(style), base, px, py),
{
    let text = opaque(style.text_primary, 255);
    let l1 = label_strokes(28, 12, manifold_title(), text);
    let l2 = label_strokes(120, 12, calculator_title(), text);
    let l3 = label_strokes(320, 12, explorer_title(), text);
    let shapes = manifold_shapes(style);
    assert(wrapped_i32(260) == 260 && wrapped_i32(400) == 400 && wrapped_i32(460) == 460);
    assert(wrapped_i32(740) == 740 && wrapped_i32(270) == 270);
    assert(manifold_strokes(style) =~= shapes + l1 + l2 + l3);
    lemma_paint_concat(shapes + l1 + l2, l3, base, px, py);
    lemma_paint_concat(shapes + l1, l2, base, px, py);
    lemma_paint_concat(shapes, l1, base, px, py);
    lemma_label_misses_other_rows(28, 12, manifold_title(), text, paint(shapes, base, px, py), px, py);
    lemma_label_misses_other_rows(120, 12, calculator_title(), text, paint(shapes, base, px, py), px, py);
    lemma_label_misses_other_rows(320, 12, explorer_title(), text, paint(shapes, base, px, py), px, py);
}

/// The colour of a point is that of the last stroke covering it.
proof fn lemma_paint_last_hit(strokes: Seq<Stroke>, k: int, base: Rgba, x: int, y: int)
    requires
        0 <= k < strokes.len(),
        stroke_color(strokes[k], x, y) is Some,
        forall|j: int| k < j < strokes.len() ==> stroke_color(#[trigger] strokes[j], x, y) is None,
    ensures
        paint(strokes, base, x, y) == stroke_color(strokes[k], x, y).unwrap(),
    decreases strokes.len(),
{
    if k < strokes.len() - 1 {
        assert(stroke_color(strokes[strokes.len() - 1], x, y) is None);
        assert forall|j: int| k < j < strokes.drop_last().len() implies stroke_color(#[trigger] strokes.drop_last()[j], x, y) is None by {
            assert(strokes.drop_last()[j] == strokes[j]);
        }
        lemma_paint_last_hit(strokes.drop_last(), k, base, x, y);
    }
}

proof fn lemma_shape_hits(style: SystemTheme, base: Rgba, k: int, x: int, y: int)
    requires
        0 <= k < 20,
        stroke_color(manifold_shapes(style)[k], x, y) is Some,
        forall|j: int| k < j < 20 ==> stroke_color(#[trigger] manifold_shapes(style)[j], x, y) is None,
        y < 12 || y >= 22,
    ensures
        paint(manifold_strokes(style), base, x, y) == stroke_color(manifold_shapes(style)[k], x, y).unwrap(),
{
    lemma_manifold_off_labels(style, base, x, y);
    lemma_paint_last_hit(manifold_shapes(style), k, base, x, y);
}

/// Law: the desktop shows, in the theme's colours, the background at the bottom-right
/// corner, the taskbar surface, the primary-accent line along row 44, a panel border, a
/// panel body at alpha 220 and the secondary-accent focus strip.
pub proof fn law_manifold_pixels(style: SystemTheme, base: Rgba, x: int)
    requires
        0 <= x < 800,
    ensures
        paint(manifold_strokes(style), base, 799, 599) == opaque(style.background, 255),
        paint(manifold_strokes(style), base, 10, 30) == opaque(style.surface, 255),
        paint(manifold_strokes(style), base, x, 44) == opaque(style.primary_accent, 255),
        paint(manifold_strokes(style), base, 20, 70) == opaque(style.interactive_element, 255),
        paint(manifold_strokes(style), base, 100, 200) == opaque(style.surface, 220),
        paint(manifold_strokes(style), base, 100, 71) == opaque(style.secondary_accent, 255),
{
    let shapes = manifold_shapes(style);
    assert(shapes.len() == 20);
    lemma_shape_hits(style, base, 0, 799, 599);
    lemma_shape_hits(style, base, 1, 10, 30);
    lemma_shape_hits(style, base, 2, x, 44);
    lemma_shape_hits(style, base, 6, 20, 70);
    lemma_shape_hits(style, base, 3, 100, 200);
    lemma_shape_hits(style, base, 18, 100, 71);
}

/// Renders the full Utah-OS visual workspace using the given theme.
pub fn render_total_os_manifold(active_style: &SystemTheme, fb: &mut Framebuffer)
    requires
        old(fb).wf(),
    ensures
        final(fb).wf(),
        final(fb).is_ready() == old(fb).is_ready(),
        painted(old(fb).bytes(), final(fb).bytes(), manifold_strokes(*active_style)),
{
    let ghost b0 = fb.bytes();
    let w: u32 = 800;
    let h: u32 = 600;
    let bg = active_style.background;
    fb.fill_rect(0, 0, w, h, bg.red, bg.green, bg.blue, 255);
    let ghost b1 = fb.bytes();
    let taskbar_h: u32 = if 45 <= h { 45 } else { h };
    let surface = active_style.surface;
    fb.fill_rect(0, 0, w, taskbar_h, surface.red, surface.green, surface.blue, 255);
    let ghost b2 = fb.bytes();
    let accent = active_style.primary_accent;
    draw_row_pair(fb, 0, (w - 1) as i32, (taskbar_h - 1) as i32, (taskbar_h - 1) as i32, accent);
    let ghost b3 = fb.bytes();
    proof {
        let line = Stroke::Box(0, 44, 799, 44, opaque(accent, 255));
        assert forall|qx: int, qy: int| in_canvas(qx, qy) implies #[trigger] pixel_of(b3, qx, qy) == match stroke_color(line, qx, qy) {
            Some(c) => c,
            None => pixel_of(b2, qx, qy),
        } by {
            crate::ui::canvas::lemma_paint_two(line, line, pixel_of(b2, qx, qy), qx, qy);
        }
        fb.lemma_bytes_len();
        lemma_painted_single_intro(b2, b3, line);
    }
    let panel_top = 70i32;
    let calc_w = 260u32;
    let calc_h = 400u32;
    let explorer_x = 300i32;
    let explorer_w = 460u32;
    let browser_y = 490i32;
    let browser_w: u32 = if 740 <= w - 40 { 740 } else { w - 40 };
    let browser_h = 270u32;
    render_glass_panel_themed(fb, 20, panel_top, calc_w, calc_h, active_style);
    let ghost b4 = fb.bytes();
    render_glass_panel_themed(fb, explorer_x, panel_top, explorer_w, calc_h, active_style);
    let ghost b5 = fb.bytes();
    render_glass_panel_themed(fb, 20, browser_y, browser_w, browser_h, active_style);
    let ghost b6 = fb.bytes();
    let secondary = active_style.secondary_accent;
    draw_row_pair(fb, 22, 277, panel_top + 1, panel_top + 2, secondary);
    let ghost b7 = fb.bytes();
    let text = active_style.text_primary;
    let title: [u8; 7] = [0x55, 0x74, 0x61, 0x68, 0x2d, 0x4f, 0x53];
    let calculator: [u8; 10] = [0x43, 0x61, 0x6c, 0x63, 0x75, 0x6c, 0x61, 0x74, 0x6f, 0x72];
    let explorer: [u8; 12] = [0x48, 0x46, 0x53, 0x20, 0x45, 0x78, 0x70, 0x6c, 0x6f, 0x72, 0x65, 0x72];
    proof {
        assert(title@ =~= manifold_title());
        assert(calculator@ =~= calculator_title());
        assert(explorer@ =~= explorer_title());
        reveal_with_fuel(crate::ui::glass::label_cursor, 13);
        assert(label_fits(28, 12, manifold_title()));
        assert(label_fits(120, 12, calculator_title()));
        assert(label_fits(320, 12, explorer_title()));
    }
    crate::ui::glass::draw_label_blocks(fb, 28, 12, title.as_slice(), text.red, text.green, text.blue);
    let ghost b8 = fb.bytes();
    crate::ui::glass::draw_label_blocks(fb, 120, 12, calculator.as_slice(), text.red, text.green, text.blue);
    let ghost b9 = fb.bytes();
    crate::ui::glass::draw_label_blocks(fb, 320, 12, explorer.as_slice(), text.red, text.green, text.blue);
    proof {
        let style = *active_style;
        let s1 = seq![Stroke::Rect(0, 0, 800, 600, opaque(style.background, 255))];
        let s2 = seq![Stroke::Rect(0, 0, 800, 45, opaque(style.surface, 255))];
        let s3 = seq![Stroke::Box(0, 44, 799, 44, opaque(style.primary_accent, 255))];
        let p1 = themed_panel_strokes(20, 70, 260, 400, style);
        let p2 = themed_panel_strokes(300, 70, 460, 400, style);
        let p3 = themed_panel_strokes(20, 490, 740, 270, style);
        let rp = row_pair(22, 277, 71, 72, opaque(style.secondary_accent, 255));
        let l1 = label_strokes(28, 12, manifold_title(), opaque(style.text_primary, 255));
        let l2 = label_strokes(120, 12, calculator_title(), opaque(style.text_primary, 255));
        let l3 = label_strokes(320, 12, explorer_title(), opaque(style.text_primary, 255));
        lemma_painted_compose(b0, b1, b2, s1, s2);
        lemma_painted_compose(b0, b2, b3, s1 + s2, s3);
        lemma_painted_compose(b0, b3, b4, s1 + s2 + s3, p1);
        lemma_painted_compose(b0, b4, b5, s1 + s2 + s3 + p1, p2);
        lemma_painted_compose(b0, b5, b6, s1 + s2 + s3 + p1 + p2, p3);
        lemma_painted_compose(b0, b6, b7, s1 + s2 + s3 + p1 + p2 + p3, rp);
        lemma_painted_compose(b0, b7, b8, s1 + s2 + s3 + p1 + p2 + p3 + rp, l1);
        lemma_painted_compose(b0, b8, b9, s1 + s2 + s3 + p1 + p2 + p3 + rp + l1, l2);
        lemma_painted_compose(b0, b9, fb.bytes(), s1 + s2 + s3 + p1 + p2 + p3 + rp + l1 + l2, l3);
        assert(s1 + s2 + s3 =~= seq![
            Stroke::Rect(0, 0, 800, 600, opaque(style.background, 255)),
            Stroke::Rect(0, 0, 800, 45, opaque(style.surface, 255)),
            Stroke::Box(0, 44, 799, 44, opaque(style.primary_accent, 255)),
        ]);
    }
}

} // verus!
