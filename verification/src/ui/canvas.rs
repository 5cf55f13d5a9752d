//! Pixel model of the Glass-Forge canvas: an 800x600 BGRA byte buffer, and the strokes
//! (pixels, rectangles, discs, glass nodes) drawing operations lay on it, last stroke on top.
use vstd::prelude::*;

verus! {

/// Canvas width in pixels.
pub const CANVAS_WIDTH: usize = 800;

/// Canvas height in pixels.
pub const CANVAS_HEIGHT: usize = 600;

/// Length of the canvas byte buffer (four bytes per pixel).
pub open spec fn canvas_bytes() -> int {
    1_920_000
}

/// An RGBA colour: red, green, blue, alpha.
pub type Rgba = (u8, u8, u8, u8);

pub open spec fn in_canvas(x: int, y: int) -> bool {
    0 <= x < 800 && 0 <= y < 600
}

/// Byte offset of a pixel in the buffer.
pub open spec fn pixel_offset(x: int, y: int) -> int {
    (y * 800 + x) * 4
}

/// The colour of a pixel; the buffer stores blue, green, red, alpha.
pub open spec fn pixel_of(bytes: Seq<u8>, x: int, y: int) -> Rgba {
    let o = pixel_offset(x, y);
    (bytes[o + 2], bytes[o + 1], bytes[o], bytes[o + 3])
}

/// The value of a `u32` counter read as an `i32` (two's complement).
pub open spec fn wrapped_i32(c: int) -> int {
    if c < 0x8000_0000 {
        c
    } else {
        c - 0x1_0000_0000
    }
}

/// Whether `p == start + wrapped_i32(c)` for some `c` in `0..len`.
pub open spec fn span_hits(start: int, len: int, p: int) -> bool {
    let d = p - start;
    &&& -0x8000_0000 <= d < 0x8000_0000
    &&& (if d >= 0 { d } else { d + 0x1_0000_0000 }) < len
}

/// Whether `start + wrapped_i32(c)` is an `i32` for every `c` in `0..len`.
pub open spec fn span_fits(start: int, len: int) -> bool {
    ||| len == 0
    ||| (len <= 0x8000_0000 && start + len - 1 <= i32::MAX)
    ||| (len > 0x8000_0000 && start == 0)
}

/// Glass tint for an intensity: blue-heavy, brighter with intensity, capped at 255.
pub open spec fn glass_tint(intensity: u8) -> (u8, u8, u8) {
    let i = intensity as int;
    (
        (if 0x30 + i / 4 > 255 { 255 } else { 0x30 + i / 4 }) as u8,
        (if 0x50 + i / 3 > 255 { 255 } else { 0x50 + i / 3 }) as u8,
        (if 0x90 + i / 2 > 255 { 255 } else { 0x90 + i / 2 }) as u8,
    )
}

pub open spec fn saturating_add_u8(a: int, b: int) -> u8 {
    if a + b > 255 {
        255
    } else {
        (a + b) as u8
    }
}

/// Colour of the glass node pixel at offset (dx, dy) from its corner: even cells are
/// brightened by 24 (12 on blue), alpha is half the intensity plus 40.
pub open spec fn glass_node_color(intensity: u8, dx: int, dy: int) -> Rgba {
    let (r, g, b) = glass_tint(intensity);
    let boost: int = if (dx + dy) % 2 == 0 { 24 } else { 0 };
    (saturating_add_u8(r as int, boost), saturating_add_u8(g as int, boost), saturating_add_u8(b as int, boost / 2), saturating_add_u8(intensity as int / 2, 40))
}

/// One drawing operation.
pub enum Stroke {
    /// A single pixel.
    Pixel(int, int, Rgba),
    /// Columns `x + wrapped_i32(c)` for `c < w` by rows `y + wrapped_i32(r)` for `r < h`.
    Rect(int, int, int, int, Rgba),
    /// Every point within `radius` of the centre (none for a negative radius).
    Disc(int, int, int, Rgba),
    /// A 4x4 dithered glass node with its top-left corner at (x, y).
    GlassNode(int, int, u8),
    /// Every point from (x0, y0) to (x1, y1), both corners included.
    Box(int, int, int, int, Rgba),
}

/// The colour a stroke puts on a point, if it covers it.
pub open spec fn stroke_color(s: Stroke, x: int, y: int) -> Option<Rgba> {
    match s {
        Stroke::Pixel(px, py, c) => if x == px && y == py { Some(c) } else { None },
        Stroke::Rect(rx, ry, w, h, c) => if span_hits(rx, w, x) && span_hits(ry, h, y) { Some(c) } else { None },
        Stroke::Disc(cx, cy, radius, c) => if radius >= 0 && (x - cx) * (x - cx) + (y - cy) * (y - cy) <= radius * radius {
            Some(c)
        } else {
            None
        },
        Stroke::GlassNode(nx, ny, intensity) => if 0 <= x - nx < 4 && 0 <= y - ny < 4 {
            Some(glass_node_color(intensity, x - nx, y - ny))
        } else {
            None
        },
        Stroke::Box(x0, y0, x1, y1, c) => if x0 <= x <= x1 && y0 <= y <= y1 { Some(c) } else { None },
    }
}

/// Colour of a point after the strokes are laid over `base`, the last stroke on top.
pub open spec fn paint(strokes: Seq<Stroke>, base: Rgba, x: int, y: int) -> Rgba
    decreases strokes.len(),
{
    if strokes.len() == 0 {
        base
    } else {
        match stroke_color(strokes.last(), x, y) {
            Some(c) => c,
            None => paint(strokes.drop_last(), base, x, y),
        }
    }
}

/// `after` is the canvas `before` with the strokes drawn on it (clipped to the canvas).
pub open spec fn painted(before: Seq<u8>, after: Seq<u8>, strokes: Seq<Stroke>) -> bool {
    &&& before.len() == canvas_bytes()
    &&& after.len() == canvas_bytes()
    &&& forall|x: int, y: int| in_canvas(x, y) ==> #[trigger] pixel_of(after, x, y) == paint(strokes, pixel_of(before, x, y), x, y)
}

/// Laying `s1` then `s2` is laying `s1 + s2`.
pub proof fn lemma_paint_concat(s1: Seq<Stroke>, s2: Seq<Stroke>, base: Rgba, x: int, y: int)
    ensures
        paint(s1 + s2, base, x, y) == paint(s2, paint(s1, base, x, y), x, y),
    decreases s2.len(),
{
    if s2.len() == 0 {
        assert(s1 + s2 =~= s1);
    } else {
        assert((s1 + s2).drop_last() =~= s1 + s2.drop_last());
        assert((s1 + s2).last() == s2.last());
        lemma_paint_concat(s1, s2.drop_last(), base, x, y);
    }
}

/// Drawing `s1` and then `s2` draws `s1 + s2`.
pub proof fn lemma_painted_compose(a: Seq<u8>, b: Seq<u8>, c: Seq<u8>, s1: Seq<Stroke>, s2: Seq<Stroke>)
    requires
        painted(a, b, s1),
        painted(b, c, s2),
    ensures
        painted(a, c, s1 + s2),
{
    assert forall|x: int, y: int| in_canvas(x, y) implies #[trigger] pixel_of(c, x, y) == paint(s1 + s2, pixel_of(a, x, y), x, y) by {
        assert(pixel_of(b, x, y) == paint(s1, pixel_of(a, x, y), x, y));
        lemma_paint_concat(s1, s2, pixel_of(a, x, y), x, y);
    }
}

/// A single stroke shows its own colour where it covers the point and the base elsewhere.
pub proof fn lemma_paint_single(s: Stroke, base: Rgba, x: int, y: int)
    ensures
        paint(seq![s], base, x, y) == match stroke_color(s, x, y) {
            Some(c) => c,
            None => base,
        },
{
    assert(seq![s].drop_last() =~= Seq::<Stroke>::empty());
    assert(seq![s].last() == s);
    assert(paint(Seq::<Stroke>::empty(), base, x, y) == base);
}

/// Two strokes: the second shows where it covers the point, else the first, else the base.
pub proof fn lemma_paint_two(s1: Stroke, s2: Stroke, base: Rgba, x: int, y: int)
    ensures
        paint(seq![s1, s2], base, x, y) == match stroke_color(s2, x, y) {
            Some(c) => c,
            None => match stroke_color(s1, x, y) {
                Some(c) => c,
                None => base,
            },
        },
{
    assert(seq![s1, s2].drop_last() =~= seq![s1]);
    lemma_paint_single(s1, base, x, y);
}

/// Establishes `painted` for a single stroke from its point-by-point effect.
pub proof fn lemma_painted_single_intro(before: Seq<u8>, after: Seq<u8>, s: Stroke)
    requires
        before.len() == canvas_bytes(),
        after.len() == canvas_bytes(),
        forall|x: int, y: int| in_canvas(x, y) ==> #[trigger] pixel_of(after, x, y) == match stroke_color(s, x, y) {
            Some(c) => c,
            None => pixel_of(before, x, y),
        },
    ensures
        painted(before, after, seq![s]),
{
    assert forall|x: int, y: int| in_canvas(x, y) implies #[trigger] pixel_of(after, x, y) == paint(seq![s], pixel_of(before, x, y), x, y) by {
        lemma_paint_single(s, pixel_of(before, x, y), x, y);
    }
}

/// The point-by-point effect of a single painted stroke.
pub proof fn lemma_painted_single_elim(before: Seq<u8>, after: Seq<u8>, s: Stroke)
    requires
        painted(before, after, seq![s]),
    ensures
        forall|x: int, y: int| in_canvas(x, y) ==> #[trigger] pixel_of(after, x, y) == match stroke_color(s, x, y) {
            Some(c) => c,
            None => pixel_of(before, x, y),
        },
{
    assert forall|x: int, y: int| in_canvas(x, y) implies #[trigger] pixel_of(after, x, y) == match stroke_color(s, x, y) {
        Some(c) => c,
        None => pixel_of(before, x, y),
    } by {
        lemma_paint_single(s, pixel_of(before, x, y), x, y);
    }
}

/// Drawing nothing leaves every pixel as it was.
pub proof fn lemma_painted_nothing(a: Seq<u8>)
    requires
        a.len() == canvas_bytes(),
    ensures
        painted(a, a, Seq::empty()),
{
}

/// Law: a stroke that covers the whole canvas hides everything drawn before it.
pub proof fn law_last_stroke_wins(strokes: Seq<Stroke>, top: Stroke, base: Rgba, x: int, y: int)
    requires
        stroke_color(top, x, y) is Some,
    ensures
        paint(strokes.push(top), base, x, y) == stroke_color(top, x, y).unwrap(),
{
    assert(strokes.push(top).last() == top);
}

/// Law: strokes that miss a point leave it as it was.
pub proof fn law_missed_point_unchanged(strokes: Seq<Stroke>, base: Rgba, x: int, y: int)
    requires
        forall|i: int| 0 <= i < strokes.len() ==> stroke_color(#[trigger] strokes[i], x, y) is None,
    ensures
        paint(strokes, base, x, y) == base,
    decreases strokes.len(),
{
    if strokes.len() > 0 {
        assert(stroke_color(strokes[strokes.len() - 1], x, y) is None);
        assert forall|i: int| 0 <= i < strokes.drop_last().len() implies stroke_color(#[trigger] strokes.drop_last()[i], x, y) is None by {
            assert(strokes.drop_last()[i] == strokes[i]);
        }
        law_missed_point_unchanged(strokes.drop_last(), base, x, y);
    }
}

/// Each step of a span: `0..n + 1` hits what `0..n` hits plus `start + wrapped_i32(n)`.
pub proof fn lemma_span_step(start: int, n: int, p: int)
    requires
        0 <= n < 0x1_0000_0000,
    ensures
        span_hits(start, n + 1, p) == (span_hits(start, n, p) || p == start + wrapped_i32(n)),
{
}

} // verus!
