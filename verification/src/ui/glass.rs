//! Glass-morphic primitives: dithered glass nodes, particle discs, panels and labels.
use vstd::prelude::*;

use crate::ui::canvas::{
    glass_node_color, glass_tint, in_canvas, lemma_painted_compose, lemma_painted_single_elim,
    lemma_painted_single_intro, paint, painted, pixel_of, span_fits, span_hits, stroke_color, wrapped_i32, Rgba, Stroke,
};
use crate::ui::framebuffer::Framebuffer;

verus! {

/// Glass tint for an intensity.
pub fn glass_rgb(intensity: u8) -> (rgb: (u8, u8, u8))
    ensures
        rgb == glass_tint(intensity),
{
    let i = intensity as u32;
    let r = if 0x30 + i / 4 > 255 { 255 } else { 0x30 + i / 4 };
    let g = if 0x50 + i / 3 > 255 { 255 } else { 0x50 + i / 3 };
    let b = if 0x90 + i / 2 > 255 { 255 } else { 0x90 + i / 2 };
    (r as u8, g as u8, b as u8)
}

/// Direct framebuffer injection of a 4x4 glass node with dithering; pixels off the canvas
/// are skipped.
pub fn render_interface_node(target: &mut Framebuffer, node_x: i32, node_y: i32, intensity: u8)
    requires
        old(target).wf(),
        node_x + 3 <= i32::MAX,
        node_y + 3 <= i32::MAX,
    ensures
        final(target).wf(),
        final(target).is_ready() == old(target).is_ready(),
        painted(old(target).bytes(), final(target).bytes(), seq![Stroke::GlassNode(node_x as int, node_y as int, intensity)]),
{
    let ghost before = target.bytes();
    proof {
        target.lemma_bytes_len();
    }
    let (r, g, b) = glass_rgb(intensity);
    let mut dy: i32 = 0;
    while dy < 4
        invariant
            0 <= dy <= 4,
            node_x + 3 <= i32::MAX,
            node_y + 3 <= i32::MAX,
            (r, g, b) == glass_tint(intensity),
            target.wf(),
            target.is_ready() == old(target).is_ready(),
            before == old(target).bytes(),
            forall|qx: int, qy: int| in_canvas(qx, qy) ==> #[trigger] pixel_of(target.bytes(), qx, qy) == if 0 <= qx - node_x < 4
                && 0 <= qy - node_y < dy {
                glass_node_color(intensity, qx - node_x, qy - node_y)
            } else {
                pixel_of(before, qx, qy)
            },
        decreases 4 - dy,
    {
        let mut dx: i32 = 0;
        while dx < 4
            invariant
                0 <= dx <= 4,
                0 <= dy < 4,
                node_x + 3 <= i32::MAX,
                node_y + 3 <= i32::MAX,
                (r, g, b) == glass_tint(intensity),
                target.wf(),
                target.is_ready() == old(target).is_ready(),
                before == old(target).bytes(),
                forall|qx: int, qy: int| in_canvas(qx, qy) ==> #[trigger] pixel_of(target.bytes(), qx, qy) == if 0 <= qx - node_x
                    < 4 && (0 <= qy - node_y < dy || (qy - node_y == dy && 0 <= qx - node_x < dx)) {
                    glass_node_color(intensity, qx - node_x, qy - node_y)
                } else {
                    pixel_of(before, qx, qy)
                },
            decreases 4 - dx,
        {
            let px = node_x + dx;
            let py = node_y + dy;
            if px >= 0 && py >= 0 && (px as usize) < 800 && (py as usize) < 600 {
                let boost: u8 = if ((dx + dy) % 2) == 0 { 24 } else { 0 };
                let alpha = (intensity / 2).saturating_add(40);
                let ghost c: Rgba = (r.saturating_add(boost), g.saturating_add(boost), b.saturating_add(boost / 2), alpha);
                assert(c == glass_node_color(intensity, dx as int, dy as int));
                let ghost mid = target.bytes();
                target.write_pixel(px, py, r.saturating_add(boost), g.saturating_add(boost), b.saturating_add(boost / 2), alpha);
                proof {
                    lemma_painted_single_elim(mid, target.bytes(), Stroke::Pixel(px as int, py as int, c));
                    assert forall|qx: int, qy: int| in_canvas(qx, qy) implies #[trigger] pixel_of(target.bytes(), qx, qy) == if 0
                        <= qx - node_x < 4 && (0 <= qy - node_y < dy || (qy - node_y == dy && 0 <= qx - node_x < dx + 1)) {
                        glass_node_color(intensity, qx - node_x, qy - node_y)
                    } else {
                        pixel_of(before, qx, qy)
                    } by {
                        assert(pixel_of(mid, qx, qy) == pixel_of(mid, qx, qy));
                    }
                }
            } else {
                proof {
                    assert forall|qx: int, qy: int| in_canvas(qx, qy) implies #[trigger] pixel_of(target.bytes(), qx, qy) == if 0
                        <= qx - node_x < 4 && (0 <= qy - node_y < dy || (qy - node_y == dy && 0 <= qx - node_x < dx + 1)) {
                        glass_node_color(intensity, qx - node_x, qy - node_y)
                    } else {
                        pixel_of(before, qx, qy)
                    } by {
                        assert(pixel_of(target.bytes(), qx, qy) == pixel_of(target.bytes(), qx, qy));
                    }
                }
            }
            dx = dx + 1;
        }
        dy = dy + 1;
    }
    proof {
        target.lemma_bytes_len();
        lemma_painted_single_intro(before, target.bytes(), Stroke::GlassNode(node_x as int, node_y as int, intensity));
    }
}

/// What a disc radius needs so that drawing it computes only `i32` values.
pub open spec fn particle_node_fits(center_x: int, center_y: int, radius: int) -> bool {
    &&& radius * radius <= i32::MAX
    &&& radius >= 0 ==> {
        &&& radius * radius + radius * radius <= i32::MAX
        &&& i32::MIN <= center_x - radius
        &&& center_x + radius <= i32::MAX
        &&& i32::MIN <= center_y - radius
        &&& center_y + radius <= i32::MAX
    }
}

proof fn lemma_disc_bounds(a: int, b: int, r: int)
    requires
        r >= 0,
        a * a + b * b <= r * r,
    ensures
        -r <= a <= r,
        -r <= b <= r,
{
    assert(-r <= a <= r) by (nonlinear_arith)
        requires
            r >= 0,
            a * a + b * b <= r * r,
    ;
    assert(-r <= b <= r) by (nonlinear_arith)
        requires
            r >= 0,
            a * a + b * b <= r * r,
    ;
}

/// Particle-system node: a filled disc of the glass tint with alpha 220.
pub fn draw_particle_node(target: &mut Framebuffer, center_x: i32, center_y: i32, radius: i32, intensity: u8)
    requires
        old(target).wf(),
        particle_node_fits(center_x as int, center_y as int, radius as int),
    ensures
        final(target).wf(),
        final(target).is_ready() == old(target).is_ready(),
        painted(
            old(target).bytes(),
            final(target).bytes(),
            seq![Stroke::Disc(center_x as int, center_y as int, radius as int, (glass_tint(intensity).0, glass_tint(intensity).1, glass_tint(intensity).2, 220u8))],
        ),
{
    let ghost before = target.bytes();
    let (r, g, b) = glass_rgb(intensity);
    let ghost c: Rgba = (r, g, b, 220u8);
    let ghost rad = radius as int;
    proof {
        target.lemma_bytes_len();
        assert(radius * radius >= 0) by (nonlinear_arith);
    }
    let r_sq = radius * radius;
    if radius < 0 {
        proof {
            lemma_painted_single_intro(before, before, Stroke::Disc(center_x as int, center_y as int, rad, c));
        }
        return;
    }
    proof {
        assert(radius <= 46341) by (nonlinear_arith)
            requires
                radius >= 0,
                radius * radius <= i32::MAX,
        ;
        assert forall|qx: int, qy: int| in_canvas(qx, qy) implies #[trigger] pixel_of(target.bytes(), qx, qy) == if (qx - center_x)
            * (qx - center_x) + (qy - center_y) * (qy - center_y) <= radius * radius && qy - center_y < -radius {
            c
        } else {
            pixel_of(before, qx, qy)
        } by {
            if (qx - center_x) * (qx - center_x) + (qy - center_y) * (qy - center_y) <= radius * radius {
                lemma_disc_bounds(qx - center_x, qy - center_y, radius as int);
            }
        }
    }
    let mut dy: i32 = -radius;
    while dy <= radius
        invariant
            0 <= radius <= 46341,
            -radius <= dy <= radius + 1,
            r_sq == radius * radius,
            particle_node_fits(center_x as int, center_y as int, radius as int),
            c == (r, g, b, 220u8),
            target.wf(),
            target.is_ready() == old(target).is_ready(),
            before == old(target).bytes(),
            forall|qx: int, qy: int| in_canvas(qx, qy) ==> #[trigger] pixel_of(target.bytes(), qx, qy) == if (qx - center_x)
                * (qx - center_x) + (qy - center_y) * (qy - center_y) <= radius * radius && qy - center_y < dy {
                c
            } else {
                pixel_of(before, qx, qy)
            },
        decreases radius + 1 - dy,
    {
        proof {
            assert forall|qx: int, qy: int| in_canvas(qx, qy) implies #[trigger] pixel_of(target.bytes(), qx, qy) == if (qx
                - center_x) * (qx - center_x) + (qy - center_y) * (qy - center_y) <= radius * radius && (qy - center_y < dy || (qy
                - center_y == dy && qx - center_x < -radius)) {
                c
            } else {
                pixel_of(before, qx, qy)
            } by {
                if (qx - center_x) * (qx - center_x) + (qy - center_y) * (qy - center_y) <= radius * radius {
                    lemma_disc_bounds(qx - center_x, qy - center_y, radius as int);
                }
                assert(pixel_of(target.bytes(), qx, qy) == pixel_of(target.bytes(), qx, qy));
            }
        }
        let mut dx: i32 = -radius;
        while dx <= radius
            invariant
                0 <= radius <= 46341,
                -radius <= dy <= radius,
                -radius <= dx <= radius + 1,
                r_sq == radius * radius,
                particle_node_fits(center_x as int, center_y as int, radius as int),
                c == (r, g, b, 220u8),
                target.wf(),
                target.is_ready() == old(target).is_ready(),
                before == old(target).bytes(),
                forall|qx: int, qy: int| in_canvas(qx, qy) ==> #[trigger] pixel_of(target.bytes(), qx, qy) == if (qx - center_x)
                    * (qx - center_x) + (qy - center_y) * (qy - center_y) <= radius * radius && (qy - center_y < dy || (qy
                    - center_y == dy && qx - center_x < dx)) {
                    c
                } else {
                    pixel_of(before, qx, qy)
                },
            decreases radius + 1 - dx,
        {
            assert(0 <= dx * dx <= radius * radius && 0 <= dy * dy <= radius * radius) by (nonlinear_arith)
                requires
                    -radius <= dx <= radius,
                    -radius <= dy <= radius,
            ;
            if dx * dx + dy * dy <= r_sq {
                let ghost mid = target.bytes();
                target.write_pixel(center_x + dx, center_y + dy, r, g, b, 220);
                proof {
                    lemma_painted_single_elim(mid, target.bytes(), Stroke::Pixel((center_x + dx) as int, (center_y + dy) as int, c));
                    assert forall|qx: int, qy: int| in_canvas(qx, qy) implies #[trigger] pixel_of(target.bytes(), qx, qy) == if (qx
                        - center_x) * (qx - center_x) + (qy - center_y) * (qy - center_y) <= radius * radius && (qy - center_y < dy
                        || (qy - center_y == dy && qx - center_x < dx + 1)) {
                        c
                    } else {
                        pixel_of(before, qx, qy)
                    } by {
                        assert(pixel_of(mid, qx, qy) == pixel_of(mid, qx, qy));
                    }
                }
            } else {
                proof {
                    assert forall|qx: int, qy: int| in_canvas(qx, qy) implies #[trigger] pixel_of(target.bytes(), qx, qy) == if (qx
                        - center_x) * (qx - center_x) + (qy - center_y) * (qy - center_y) <= radius * radius && (qy - center_y < dy
                        || (qy - center_y == dy && qx - center_x < dx + 1)) {
                        c
                    } else {
                        pixel_of(before, qx, qy)
                    } by {
                        assert(pixel_of(target.bytes(), qx, qy) == pixel_of(target.bytes(), qx, qy));
                    }
                }
            }
            dx = dx + 1;
        }
        proof {
            assert forall|qx: int, qy: int| in_canvas(qx, qy) implies #[trigger] pixel_of(target.bytes(), qx, qy) == if (qx
                - center_x) * (qx - center_x) + (qy - center_y) * (qy - center_y) <= radius * radius && qy - center_y < dy + 1 {
                c
            } else {
                pixel_of(before, qx, qy)
            } by {
                if (qx - center_x) * (qx - center_x) + (qy - center_y) * (qy - center_y) <= radius * radius {
                    lemma_disc_bounds(qx - center_x, qy - center_y, radius as int);
                }
                assert(pixel_of(target.bytes(), qx, qy) == pixel_of(target.bytes(), qx, qy));
            }
        }
        dy = dy + 1;
    }
    proof {
        assert forall|qx: int, qy: int| in_canvas(qx, qy) implies #[trigger] pixel_of(target.bytes(), qx, qy) == match stroke_color(
            Stroke::Disc(center_x as int, center_y as int, rad, c),
            qx,
            qy,
        ) {
            Some(col) => col,
            None => pixel_of(before, qx, qy),
        } by {
            if (qx - center_x) * (qx - center_x) + (qy - center_y) * (qy - center_y) <= radius * radius {
                lemma_disc_bounds(qx - center_x, qy - center_y, radius as int);
            }
        }
        target.lemma_bytes_len();
        lemma_painted_single_intro(before, target.bytes(), Stroke::Disc(center_x as int, center_y as int, rad, c));
    }
}

/// Border colour of glass panels.
pub open spec fn panel_border() -> Rgba {
    (0x50u8, 0x90u8, 0xffu8, 255u8)
}

/// The value of `a - b` for `u32` values, saturating at zero.
pub open spec fn saturating_sub_u32(a: int, b: int) -> int {
    if a >= b {
        a - b
    } else {
        0
    }
}

/// A glass panel: a tinted body inset by one pixel (alpha 180), then a two-pixel border on
/// the top, bottom, left and right edges.
pub open spec fn glass_panel_strokes(x: int, y: int, width: int, height: int, intensity: u8) -> Seq<Stroke> {
    let (r, g, b) = glass_tint(intensity);
    seq![
        Stroke::Rect(x + 1, y + 1, saturating_sub_u32(width, 2), saturating_sub_u32(height, 2), (r, g, b, 180u8)),
        Stroke::Rect(x, y, width, 2, panel_border()),
        Stroke::Rect(x, y + wrapped_i32(height) - 2, width, 2, panel_border()),
        Stroke::Rect(x, y, 2, height, panel_border()),
        Stroke::Rect(x + wrapped_i32(width) - 2, y, 2, height, panel_border()),
    ]
}

/// Colour of a point after a glass panel of `width` x `height` at (x, y) is drawn over
/// `base`: the 2-pixel border ring in the border colour, the rest of the panel in the glass
/// tint at alpha 180, points outside the panel unchanged.
pub open spec fn glass_panel_pixel(x: int, y: int, width: int, height: int, intensity: u8, base: Rgba, px: int, py: int) -> Rgba {
    let (r, g, b) = glass_tint(intensity);
    if x <= px < x + width && y <= py < y + height {
        if px < x + 2 || px >= x + width - 2 || py < y + 2 || py >= y + height - 2 {
            panel_border()
        } else {
            (r, g, b, 180u8)
        }
    } else {
        base
    }
}

proof fn lemma_span_hits_plain(start: int, len: int, p: int)
    requires
        0 <= len <= i32::MAX,
    ensures
        span_hits(start, len, p) == (start <= p < start + len),
{
}

/// Law: a glass panel at least 2 pixels wide and high, placed within the `i32` range, draws
/// its 2-pixel border ring in the border colour and its inside in the glass tint at alpha
/// 180, and changes no point outside it.
pub proof fn law_glass_panel_pixels(x: int, y: int, width: int, height: int, intensity: u8, base: Rgba, px: int, py: int)
    requires
        2 <= width <= i32::MAX,
        2 <= height <= i32::MAX,
        x + width <= i32::MAX,
        y + height <= i32::MAX,
    ensures
        paint(glass_panel_strokes(x, y, width, height, intensity), base, px, py) == glass_panel_pixel(
            x,
            y,
            width,
            height,
            intensity,
            base,
            px,
            py,
        ),
{
    reveal_with_fuel(paint, 6);
    lemma_span_hits_plain(x + 1, width - 2, px);
    lemma_span_hits_plain(y + 1, height - 2, py);
    lemma_span_hits_plain(x, width, px);
    lemma_span_hits_plain(y, height, py);
    lemma_span_hits_plain(x, 2, px);
    lemma_span_hits_plain(y, 2, py);
    lemma_span_hits_plain(x + width - 2, 2, px);
    lemma_span_hits_plain(y + height - 2, 2, py);
    assert(wrapped_i32(width) == width);
    assert(wrapped_i32(height) == height);
    let strokes = glass_panel_strokes(x, y, width, height, intensity);
    assert(strokes.len() == 5);
}

/// What a panel's placement needs so that drawing it computes only `i32` values.
pub open spec fn glass_panel_fits(x: int, y: int, width: int, height: int) -> bool {
    &&& x + 1 <= i32::MAX
    &&& y + 1 <= i32::MAX
    &&& span_fits(x + 1, saturating_sub_u32(width, 2))
    &&& span_fits(y + 1, saturating_sub_u32(height, 2))
    &&& span_fits(x, width)
    &&& span_fits(y, height)
    &&& span_fits(x, 2)
    &&& span_fits(y, 2)
    &&& i32::MIN <= y + wrapped_i32(height) <= i32::MAX
    &&& i32::MIN <= y + wrapped_i32(height) - 2
    &&& span_fits(y + wrapped_i32(height) - 2, 2)
    &&& i32::MIN <= x + wrapped_i32(width) <= i32::MAX
    &&& i32::MIN <= x + wrapped_i32(width) - 2
    &&& span_fits(x + wrapped_i32(width) - 2, 2)
}

/// Glass-morphic panel with a soft border.
pub fn draw_glass_panel(target: &mut Framebuffer, x: i32, y: i32, width: u32, height: u32, intensity: u8)
    requires
        old(target).wf(),
        glass_panel_fits(x as int, y as int, width as int, height as int),
    ensures
        final(target).wf(),
        final(target).is_ready() == old(target).is_ready(),
        painted(old(target).bytes(), final(target).bytes(), glass_panel_strokes(x as int, y as int, width as int, height as int, intensity)),
{
    let ghost b0 = target.bytes();
    let (r, g, b) = glass_rgb(intensity);
    let inner_w = if width >= 2 { width - 2 } else { 0 };
    let inner_h = if height >= 2 { height - 2 } else { 0 };
    target.fill_rect(x + 1, y + 1, inner_w, inner_h, r, g, b, 180);
    let ghost b1 = target.bytes();
    target.fill_rect(x, y, width, 2, 0x50, 0x90, 0xFF, 255);
    let ghost b2 = target.bytes();
    let h_i32 = crate::ui::framebuffer::counter_as_i32(height);
    let w_i32 = crate::ui::framebuffer::counter_as_i32(width);
    target.fill_rect(x, y + h_i32 - 2, width, 2, 0x50, 0x90, 0xFF, 255);
    let ghost b3 = target.bytes();
    target.fill_rect(x, y, 2, height, 0x50, 0x90, 0xFF, 255);
    let ghost b4 = target.bytes();
    target.fill_rect(x + w_i32 - 2, y, 2, height, 0x50, 0x90, 0xFF, 255);
    proof {
        let s = glass_panel_strokes(x as int, y as int, width as int, height as int, intensity);
        lemma_painted_compose(b0, b1, b2, seq![s[0]], seq![s[1]]);
        lemma_painted_compose(b0, b2, b3, seq![s[0]] + seq![s[1]], seq![s[2]]);
        lemma_painted_compose(b0, b3, b4, seq![s[0]] + seq![s[1]] + seq![s[2]], seq![s[3]]);
        lemma_painted_compose(b0, b4, target.bytes(), seq![s[0]] + seq![s[1]] + seq![s[2]] + seq![s[3]], seq![s[4]]);
        assert(seq![s[0]] + seq![s[1]] + seq![s[2]] + seq![s[3]] + seq![s[4]] =~= s);
    }
}

/// Horizontal position of the next glyph after `text`, starting at `x`: spaces advance
/// 8 pixels and other bytes 7.
pub open spec fn label_cursor(x: int, text: Seq<u8>) -> int
    decreases text.len(),
{
    if text.len() == 0 {
        x
    } else {
        label_cursor(x, text.drop_last()) + if text.last() == 0x20 { 8int } else { 7int }
    }
}

/// A label: one 6x10 block per non-space byte.
pub open spec fn label_strokes(x: int, y: int, text: Seq<u8>, color: Rgba) -> Seq<Stroke>
    decreases text.len(),
{
    if text.len() == 0 {
        Seq::empty()
    } else if text.last() == 0x20 {
        label_strokes(x, y, text.drop_last(), color)
    } else {
        label_strokes(x, y, text.drop_last(), color).push(Stroke::Rect(label_cursor(x, text.drop_last()), y, 6, 10, color))
    }
}

/// A label changes no point outside its 10-pixel-high band of rows.
pub proof fn lemma_label_misses_other_rows(x: int, y: int, text: Seq<u8>, color: Rgba, base: Rgba, px: int, py: int)
    requires
        py < y || py >= y + 10,
    ensures
        paint(label_strokes(x, y, text, color), base, px, py) == base,
    decreases text.len(),
{
    lemma_span_hits_plain(y, 10, py);
    if text.len() > 0 {
        let prev = label_strokes(x, y, text.drop_last(), color);
        lemma_label_misses_other_rows(x, y, text.drop_last(), color, base, px, py);
        if text.last() != 0x20 {
            let glyph = Stroke::Rect(label_cursor(x, text.drop_last()), y, 6, 10, color);
            assert(prev.push(glyph).drop_last() =~= prev);
            assert(stroke_color(glyph, px, py) is None);
        }
    }
}

/// What a label needs so that drawing it computes only `i32` values.
pub open spec fn label_fits(x: int, y: int, text: Seq<u8>) -> bool {
    &&& label_cursor(x, text) <= i32::MAX
    &&& y + 9 <= i32::MAX
}

proof fn lemma_label_cursor_at_least(x: int, text: Seq<u8>)
    ensures
        label_cursor(x, text) >= x,
    decreases text.len(),
{
    if text.len() > 0 {
        lemma_label_cursor_at_least(x, text.drop_last());
    }
}

proof fn lemma_label_cursor_grows(x: int, text: Seq<u8>, k: int)
    requires
        0 <= k <= text.len(),
    ensures
        label_cursor(x, text.subrange(0, k)) <= label_cursor(x, text),
        label_cursor(x, text.subrange(0, k)) >= x,
    decreases text.len(),
{
    lemma_label_cursor_at_least(x, text.subrange(0, k));
    if k == text.len() {
        assert(text.subrange(0, k) =~= text);
    } else {
        lemma_label_cursor_grows(x, text.drop_last(), k);
        assert(text.drop_last().subrange(0, k) =~= text.subrange(0, k));
    }
}

/// Draws block glyphs for a label in `color`.
pub fn draw_label_blocks(target: &mut Framebuffer, x: i32, y: i32, text: &[u8], r: u8, g: u8, b: u8)
    requires
        old(target).wf(),
        label_fits(x as int, y as int, text@),
    ensures
        final(target).wf(),
        final(target).is_ready() == old(target).is_ready(),
        painted(old(target).bytes(), final(target).bytes(), label_strokes(x as int, y as int, text@, (r, g, b, 255u8))),
{
    let ghost before = target.bytes();
    let ghost color: Rgba = (r, g, b, 255u8);
    let mut cursor_x = x;
    let mut i: usize = 0;
    assert(text@.subrange(0, 0) =~= Seq::<u8>::empty());
    proof {
        target.lemma_bytes_len();
        crate::ui::canvas::lemma_painted_nothing(before);
    }
    while i < text.len()
        invariant
            i <= text@.len(),
            color == (r, g, b, 255u8),
            label_fits(x as int, y as int, text@),
            cursor_x == label_cursor(x as int, text@.subrange(0, i as int)),
            target.wf(),
            target.is_ready() == old(target).is_ready(),
            before == old(target).bytes(),
            painted(before, target.bytes(), label_strokes(x as int, y as int, text@.subrange(0, i as int), color)),
        decreases text.len() - i,
    {
        let ch = text[i];
        proof {
            lemma_label_cursor_grows(x as int, text@, i + 1);
            assert(text@.subrange(0, i + 1).drop_last() =~= text@.subrange(0, i as int));
        }
        if ch == 0x20 {
            cursor_x = cursor_x + 8;
        } else {
            let ghost mid = target.bytes();
            target.fill_rect(cursor_x, y, 6, 10, r, g, b, 255);
            proof {
                lemma_painted_compose(
                    before,
                    mid,
                    target.bytes(),
                    label_strokes(x as int, y as int, text@.subrange(0, i as int), color),
                    seq![Stroke::Rect(cursor_x as int, y as int, 6, 10, color)],
                );
                assert(label_strokes(x as int, y as int, text@.subrange(0, i as int), color) + seq![
                    Stroke::Rect(cursor_x as int, y as int, 6, 10, color),
                ] =~= label_strokes(x as int, y as int, text@.subrange(0, i as int), color).push(
                    Stroke::Rect(cursor_x as int, y as int, 6, 10, color),
                ));
            }
            cursor_x = cursor_x + 7;
        }
        i = i + 1;
    }
    assert(text@.subrange(0, text@.len() as int) =~= text@);
}

/// Draws a label in the light glass text colour.
pub fn draw_label(target: &mut Framebuffer, x: i32, y: i32, text: &[u8])
    requires
        old(target).wf(),
        label_fits(x as int, y as int, text@),
    ensures
        final(target).wf(),
        final(target).is_ready() == old(target).is_ready(),
        painted(old(target).bytes(), final(target).bytes(), label_strokes(x as int, y as int, text@, (0xe0u8, 0xf0u8, 0xffu8, 255u8))),
{
    draw_label_blocks(target, x, y, text, 0xE0, 0xF0, 0xFF);
}

/// The text of the boot splash label: `Utah-OS Glass-Forge`.
pub open spec fn splash_title() -> Seq<u8> {
    seq![0x55u8, 0x74, 0x61, 0x68, 0x2d, 0x4f, 0x53, 0x20, 0x47, 0x6c, 0x61, 0x73, 0x73, 0x2d, 0x46, 0x6f, 0x72, 0x67, 0x65]
}

/// The twelve glass nodes of the boot splash: node `k` at (80 + 55k, 200 + 18 (k mod 3))
/// with intensity 140 + 8k.
pub open spec fn splash_nodes(n: int) -> Seq<Stroke>
    decreases n,
{
    if n <= 0 {
        Seq::empty()
    } else {
        splash_nodes(n - 1).push(Stroke::GlassNode(80 + (n - 1) * 55, 200 + ((n - 1) % 3) * 18, (140 + (n - 1) * 8) as u8))
    }
}

pub open spec fn disc_stroke(cx: int, cy: int, radius: int, intensity: u8) -> Stroke {
    Stroke::Disc(cx, cy, radius, (glass_tint(intensity).0, glass_tint(intensity).1, glass_tint(intensity).2, 220u8))
}

/// The boot splash: three panels, three particle discs, twelve glass nodes and the title.
pub open spec fn boot_splash_strokes() -> Seq<Stroke> {
    glass_panel_strokes(40, 40, 720, 80, 180) + glass_panel_strokes(40, 140, 340, 400, 140) + glass_panel_strokes(
        420,
        140,
        340,
        400,
        160,
    ) + seq![disc_stroke(120, 480, 28, 220), disc_stroke(400, 480, 28, 200), disc_stroke(680, 480, 28, 240)]
        + splash_nodes(12) + label_strokes(56, 64, splash_title(), (0xe0u8, 0xf0u8, 0xffu8, 255u8))
}

proof fn lemma_label_cursor_after_glyph(x: int, text: Seq<u8>)
    requires
        text.len() >= 1,
    ensures
        label_cursor(x, text) >= x + 7,
    decreases text.len(),
{
    lemma_label_cursor_at_least(x, text.drop_last());
}

/// The first glyph of a label that starts with a non-space byte shows at the label's origin
/// column, on every row of its band.
proof fn lemma_label_first_glyph(x: int, y: int, text: Seq<u8>, color: Rgba, base: Rgba, py: int)
    requires
        text.len() >= 1,
        text[0] != 0x20,
        y <= py < y + 10,
    ensures
        paint(label_strokes(x, y, text, color), base, x, py) == color,
    decreases text.len(),
{
    lemma_span_hits_plain(x, 6, x);
    lemma_span_hits_plain(y, 10, py);
    let prev = label_strokes(x, y, text.drop_last(), color);
    let glyph = Stroke::Rect(label_cursor(x, text.drop_last()), y, 6, 10, color);
    assert(prev.push(glyph).drop_last() =~= prev);
    if text.len() > 1 {
        assert(text.drop_last()[0] == text[0]);
        lemma_label_first_glyph(x, y, text.drop_last(), color, base, py);
        lemma_label_cursor_after_glyph(x, text.drop_last());
        lemma_span_hits_plain(label_cursor(x, text.drop_last()), 6, x);
        assert(stroke_color(glyph, x, py) is None);
    } else {
        assert(text.drop_last().len() == 0);
        assert(label_cursor(x, text.drop_last()) == x);
        assert(prev.len() == 0);
        assert(stroke_color(glyph, x, py) == Some(color));
    }
}

/// The splash's glass nodes change no point above row 200.
proof fn lemma_splash_nodes_miss(n: int, base: Rgba, px: int, py: int)
    requires
        py < 200,
    ensures
        paint(splash_nodes(n), base, px, py) == base,
    decreases n,
{
    if n > 0 {
        lemma_splash_nodes_miss(n - 1, base, px, py);
        let prev = splash_nodes(n - 1);
        let node = Stroke::GlassNode(80 + (n - 1) * 55, 200 + ((n - 1) % 3) * 18, (140 + (n - 1) * 8) as u8);
        assert(prev.push(node).drop_last() =~= prev);
        assert(stroke_color(node, px, py) is None);
    }
}

/// Law: on the boot splash, the first panel's border shows at (40, 40) and the first glyph of
/// the title at (56, 64), whatever was below them.
pub proof fn law_boot_splash_pixels(base: Rgba)
    ensures
        paint(boot_splash_strokes(), base, 40, 40) == panel_border(),
        paint(boot_splash_strokes(), base, 56, 64) == (0xe0u8, 0xf0u8, 0xffu8, 255u8),
{
    let p1 = glass_panel_strokes(40, 40, 720, 80, 180);
    let p2 = glass_panel_strokes(40, 140, 340, 400, 140);
    let p3 = glass_panel_strokes(420, 140, 340, 400, 160);
    let discs = seq![disc_stroke(120, 480, 28, 220), disc_stroke(400, 480, 28, 200), disc_stroke(680, 480, 28, 240)];
    let nodes = splash_nodes(12);
    let text = (0xe0u8, 0xf0u8, 0xffu8, 255u8);
    let label = label_strokes(56, 64, splash_title(), text);
    let head = p1 + p2 + p3 + discs + nodes;
    assert(boot_splash_strokes() == head + label);
    // (56, 64): the title's first glyph is drawn last.
    crate::ui::canvas::lemma_paint_concat(head, label, base, 56, 64);
    lemma_label_first_glyph(56, 64, splash_title(), text, paint(head, base, 56, 64), 64);
    // (40, 40): the first panel's border; nothing after it reaches the point.
    crate::ui::canvas::lemma_paint_concat(head, label, base, 40, 40);
    lemma_label_misses_other_rows(56, 64, splash_title(), text, paint(head, base, 40, 40), 40, 40);
    crate::ui::canvas::lemma_paint_concat(p1 + p2 + p3 + discs, nodes, base, 40, 40);
    lemma_splash_nodes_miss(12, paint(p1 + p2 + p3 + discs, base, 40, 40), 40, 40);
    crate::ui::canvas::lemma_paint_concat(p1 + p2 + p3, discs, base, 40, 40);
    crate::ui::canvas::lemma_paint_concat(p1 + p2, p3, base, 40, 40);
    crate::ui::canvas::lemma_paint_concat(p1, p2, base, 40, 40);
    law_glass_panel_pixels(40, 40, 720, 80, 180, base, 40, 40);
    let b1 = paint(p1, base, 40, 40);
    lemma_span_hits_plain(41, 338, 40);
    lemma_span_hits_plain(40, 340, 40);
    lemma_span_hits_plain(40, 2, 40);
    lemma_span_hits_plain(378, 2, 40);
    lemma_span_hits_plain(421, 338, 40);
    lemma_span_hits_plain(420, 340, 40);
    lemma_span_hits_plain(420, 2, 40);
    lemma_span_hits_plain(758, 2, 40);
    lemma_span_hits_plain(141, 398, 40);
    lemma_span_hits_plain(140, 400, 40);
    lemma_span_hits_plain(140, 2, 40);
    lemma_span_hits_plain(538, 2, 40);
    assert(wrapped_i32(340) == 340 && wrapped_i32(400) == 400);
    reveal_with_fuel(paint, 6);
    assert(paint(p2, b1, 40, 40) == b1);
    assert(paint(p3, b1, 40, 40) == b1);
    assert forall|k: int| 0 <= k < discs.len() implies stroke_color(#[trigger] discs[k], 40, 40) is None by {
        assert((40 - 120) * (40 - 120) + (40 - 480) * (40 - 480) > 28 * 28);
        assert((40 - 400) * (40 - 400) + (40 - 480) * (40 - 480) > 28 * 28);
        assert((40 - 680) * (40 - 680) + (40 - 480) * (40 - 480) > 28 * 28);
    }
    crate::ui::canvas::law_missed_point_unchanged(discs, b1, 40, 40);
}

/// Utah-OS boot splash.
pub fn draw_boot_splash(target: &mut Framebuffer)
    requires
        old(target).wf(),
    ensures
        final(target).wf(),
        final(target).is_ready() == old(target).is_ready(),
        painted(old(target).bytes(), final(target).bytes(), boot_splash_strokes()),
{
    let ghost b0 = target.bytes();
    draw_glass_panel(target, 40, 40, 720, 80, 180);
    let ghost b1 = target.bytes();
    draw_glass_panel(target, 40, 140, 340, 400, 140);
    let ghost b2 = target.bytes();
    draw_glass_panel(target, 420, 140, 340, 400, 160);
    let ghost b3 = target.bytes();
    proof {
        lemma_painted_compose(b0, b1, b2, glass_panel_strokes(40, 40, 720, 80, 180), glass_panel_strokes(40, 140, 340, 400, 140));
        lemma_painted_compose(
            b0,
            b2,
            b3,
            glass_panel_strokes(40, 40, 720, 80, 180) + glass_panel_strokes(40, 140, 340, 400, 140),
            glass_panel_strokes(420, 140, 340, 400, 160),
        );
    }
    let ghost panels = glass_panel_strokes(40, 40, 720, 80, 180) + glass_panel_strokes(40, 140, 340, 400, 140)
        + glass_panel_strokes(420, 140, 340, 400, 160);
    draw_particle_node(target, 120, 480, 28, 220);
    let ghost b4 = target.bytes();
    draw_particle_node(target, 400, 480, 28, 200);
    let ghost b5 = target.bytes();
    draw_particle_node(target, 680, 480, 28, 240);
    let ghost b6 = target.bytes();
    proof {
        lemma_painted_compose(b0, b3, b4, panels, seq![disc_stroke(120, 480, 28, 220)]);
        lemma_painted_compose(b0, b4, b5, panels + seq![disc_stroke(120, 480, 28, 220)], seq![disc_stroke(400, 480, 28, 200)]);
        lemma_painted_compose(
            b0,
            b5,
            b6,
            panels + seq![disc_stroke(120, 480, 28, 220)] + seq![disc_stroke(400, 480, 28, 200)],
            seq![disc_stroke(680, 480, 28, 240)],
        );
        assert(panels + seq![disc_stroke(120, 480, 28, 220)] + seq![disc_stroke(400, 480, 28, 200)] + seq![
            disc_stroke(680, 480, 28, 240),
        ] =~= panels + seq![disc_stroke(120, 480, 28, 220), disc_stroke(400, 480, 28, 200), disc_stroke(680, 480, 28, 240)]);
    }
    let ghost discs = panels + seq![disc_stroke(120, 480, 28, 220), disc_stroke(400, 480, 28, 200), disc_stroke(680, 480, 28, 240)];
    let mut index: i32 = 0;
    while index < 12
        invariant
            0 <= index <= 12,
            target.wf(),
            target.is_ready() == old(target).is_ready(),
            painted(b0, target.bytes(), discs + splash_nodes(index as int)),
        decreases 12 - index,
    {
        let x = 80 + (index * 55);
        let y = 200 + ((index % 3) * 18);
        let ghost mid = target.bytes();
        render_interface_node(target, x, y, (140 + index * 8) as u8);
        proof {
            lemma_painted_compose(b0, mid, target.bytes(), discs + splash_nodes(index as int), seq![Stroke::GlassNode(x as int, y as int, (140 + index * 8) as u8)]);
            assert(discs + splash_nodes(index as int) + seq![Stroke::GlassNode(x as int, y as int, (140 + index * 8) as u8)]
                =~= discs + splash_nodes(index + 1));
        }
        index = index + 1;
    }
    let ghost b7 = target.bytes();
    let title: [u8; 19] = [0x55, 0x74, 0x61, 0x68, 0x2d, 0x4f, 0x53, 0x20, 0x47, 0x6c, 0x61, 0x73, 0x73, 0x2d, 0x46, 0x6f, 0x72, 0x67, 0x65];
    proof {
        assert(title@ =~= splash_title());
        reveal_with_fuel(label_cursor, 20);
        assert(label_cursor(56, splash_title()) <= i32::MAX);
    }
    draw_label(target, 56, 64, title.as_slice());
    proof {
        lemma_painted_compose(b0, b7, target.bytes(), discs + splash_nodes(12), label_strokes(56, 64, splash_title(), (0xe0u8, 0xf0u8, 0xffu8, 255u8)));
    }
}

} // verus!
