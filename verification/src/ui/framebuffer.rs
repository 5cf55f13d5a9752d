//! Linear framebuffer: the in-RAM BGRA canvas Glass-Forge draws into.
use vstd::prelude::*;

use crate::ui::canvas::{canvas_bytes, in_canvas, painted, pixel_of, span_fits, span_hits, wrapped_i32, Stroke};

verus! {

/// Default holographic canvas width.
pub const FRAMEBUFFER_WIDTH: usize = 800;

/// Default holographic canvas height.
pub const FRAMEBUFFER_HEIGHT: usize = 600;

/// Bytes per pixel (BGRA).
pub const BYTES_PER_PIXEL: usize = 4;

#[derive(Clone, Copy, Debug)]
pub struct FramebufferConfig {
    pub width: usize,
    pub height: usize,
    pub stride: usize,
}

impl Default for FramebufferConfig {
    fn default() -> (config: Self)
        ensures
            config.width == FRAMEBUFFER_WIDTH,
            config.height == FRAMEBUFFER_HEIGHT,
            config.stride == FRAMEBUFFER_WIDTH,
    {
        FramebufferConfig { width: FRAMEBUFFER_WIDTH, height: FRAMEBUFFER_HEIGHT, stride: FRAMEBUFFER_WIDTH }
    }
}

/// The canvas: its layout, its BGRA bytes, and whether it has been initialized.
pub struct Framebuffer {
    config: FramebufferConfig,
    storage: Vec<u8>,
    ready: bool,
}

impl Framebuffer {
    /// The canvas bytes.
    pub closed spec fn bytes(&self) -> Seq<u8> {
        self.storage@
    }

    /// Whether the canvas has been initialized.
    pub closed spec fn is_ready(&self) -> bool {
        self.ready
    }

    /// The default 800x600 layout over a buffer of the matching size.
    pub closed spec fn wf(&self) -> bool {
        &&& self.config.width == FRAMEBUFFER_WIDTH
        &&& self.config.height == FRAMEBUFFER_HEIGHT
        &&& self.config.stride == FRAMEBUFFER_WIDTH
        &&& self.storage@.len() == canvas_bytes()
    }

    /// Marks the canvas initialized.
    pub fn set_ready(&mut self)
        ensures
            final(self).bytes() == old(self).bytes(),
            final(self).wf() == old(self).wf(),
            final(self).is_ready(),
    {
        self.ready = true;
    }

    /// The canvas bytes (BGRA, row after row), e.g. to copy them to a mapped display.
    pub fn as_bytes(&self) -> (bytes: &[u8])
        ensures
            bytes@ == self.bytes(),
    {
        self.storage.as_slice()
    }

    /// Whether the canvas has been initialized.
    pub fn ready(&self) -> (ready: bool)
        ensures
            ready == self.is_ready(),
    {
        self.ready
    }

    /// A well-formed canvas holds exactly the canvas bytes.
    pub proof fn lemma_bytes_len(&self)
        requires
            self.wf(),
        ensures
            self.bytes().len() == canvas_bytes(),
    {
    }

    /// A black, transparent, uninitialized canvas.
    pub fn new() -> (fb: Self)
        ensures
            fb.wf(),
            !fb.is_ready(),
            forall|i: int| 0 <= i < fb.bytes().len() ==> fb.bytes()[i] == 0,
    {
        let config = FramebufferConfig::default();
        let storage: Vec<u8> = vec![0u8; FRAMEBUFFER_WIDTH * FRAMEBUFFER_HEIGHT * BYTES_PER_PIXEL];
        Framebuffer { config, storage, ready: false }
    }

    /// Writes one pixel; points outside the canvas are ignored.
    pub fn write_pixel(&mut self, x: i32, y: i32, r: u8, g: u8, b: u8, a: u8)
        requires
            old(self).wf(),
        ensures
            final(self).wf(),
            final(self).is_ready() == old(self).is_ready(),
            painted(old(self).bytes(), final(self).bytes(), seq![Stroke::Pixel(x as int, y as int, (r, g, b, a))]),
    {
        let ghost before = self.storage@;
        if x < 0 || y < 0 {
            proof {
                crate::ui::canvas::lemma_painted_single_intro(before, before, Stroke::Pixel(x as int, y as int, (r, g, b, a)));
            }
            return;
        }
        let xu = x as usize;
        let yu = y as usize;
        if xu >= self.config.width || yu >= self.config.height {
            proof {
                crate::ui::canvas::lemma_painted_single_intro(before, before, Stroke::Pixel(x as int, y as int, (r, g, b, a)));
            }
            return;
        }
        let stride = self.config.stride;
        assert(stride == 800);
        let offset = (yu * stride + xu) * BYTES_PER_PIXEL;
        if offset + 3 >= self.storage.len() {
            return;
        }
        self.storage.set(offset, b);
        self.storage.set(offset + 1, g);
        self.storage.set(offset + 2, r);
        self.storage.set(offset + 3, a);
        proof {
            let after = self.storage@;
            let s = Stroke::Pixel(x as int, y as int, (r, g, b, a));
            assert forall|qx: int, qy: int| in_canvas(qx, qy) implies #[trigger] pixel_of(after, qx, qy)
                == match crate::ui::canvas::stroke_color(s, qx, qy) {
                Some(c) => c,
                None => pixel_of(before, qx, qy),
            } by {
                if qx == x && qy == y {
                } else {
                    assert(qy * 800 + qx != yu * 800 + xu);
                }
            }
            crate::ui::canvas::lemma_painted_single_intro(before, after, s);
        }
    }

    /// Fills the rectangle of columns `x + c` and rows `y + r` (`c < w`, `r < h`, counters
    /// read as `i32`), clipped to the canvas.
    pub fn fill_rect(&mut self, x: i32, y: i32, w: u32, h: u32, r: u8, g: u8, b: u8, a: u8)
        requires
            old(self).wf(),
            span_fits(x as int, w as int),
            span_fits(y as int, h as int),
        ensures
            final(self).wf(),
            final(self).is_ready() == old(self).is_ready(),
            painted(old(self).bytes(), final(self).bytes(), seq![Stroke::Rect(x as int, y as int, w as int, h as int, (r, g, b, a))]),
    {
        let ghost before = self.storage@;
        let ghost color = (r, g, b, a);
        let mut row: u32 = 0;
        while row < h
            invariant
                row <= h,
                color == (r, g, b, a),
                self.wf(),
                self.is_ready() == old(self).is_ready(),
                before == old(self).bytes(),
                span_fits(x as int, w as int),
                span_fits(y as int, h as int),
                forall|qx: int, qy: int| in_canvas(qx, qy) ==> #[trigger] pixel_of(self.bytes(), qx, qy) == if span_hits(
                    x as int,
                    w as int,
                    qx,
                ) && span_hits(y as int, row as int, qy) {
                    color
                } else {
                    pixel_of(before, qx, qy)
                },
            decreases h - row,
        {
            let py = offset_coordinate(y, row, h);
            let ghost row_start = self.bytes();
            let mut col: u32 = 0;
            while col < w
                invariant
                    col <= w,
                    row < h,
                    color == (r, g, b, a),
                    self.wf(),
                    self.is_ready() == old(self).is_ready(),
                    py == y + wrapped_i32(row as int),
                    span_fits(x as int, w as int),
                    forall|qx: int, qy: int| in_canvas(qx, qy) ==> #[trigger] pixel_of(self.bytes(), qx, qy) == if qy == py
                        && span_hits(x as int, col as int, qx) {
                        color
                    } else {
                        pixel_of(row_start, qx, qy)
                    },
                decreases w - col,
            {
                let px = offset_coordinate(x, col, w);
                let ghost mid = self.bytes();
                self.write_pixel(px, py, r, g, b, a);
                proof {
                    crate::ui::canvas::lemma_painted_single_elim(mid, self.bytes(), Stroke::Pixel(px as int, py as int, color));
                    assert forall|qx: int, qy: int| in_canvas(qx, qy) implies #[trigger] pixel_of(self.bytes(), qx, qy) == if qy == py
                        && span_hits(x as int, col + 1, qx) {
                        color
                    } else {
                        pixel_of(row_start, qx, qy)
                    } by {
                        crate::ui::canvas::lemma_span_step(x as int, col as int, qx);
                        assert(pixel_of(mid, qx, qy) == pixel_of(mid, qx, qy));
                    }
                }
                col = col + 1;
            }
            proof {
                assert forall|qx: int, qy: int| in_canvas(qx, qy) implies #[trigger] pixel_of(self.bytes(), qx, qy) == if span_hits(
                    x as int,
                    w as int,
                    qx,
                ) && span_hits(y as int, row + 1, qy) {
                    color
                } else {
                    pixel_of(before, qx, qy)
                } by {
                    crate::ui::canvas::lemma_span_step(y as int, row as int, qy);
                    assert(pixel_of(row_start, qx, qy) == pixel_of(row_start, qx, qy));
                }
            }
            row = row + 1;
        }
        proof {
            crate::ui::canvas::lemma_painted_single_intro(before, self.bytes(), Stroke::Rect(x as int, y as int, w as int, h as int, color));
        }
    }
}

/// Reads a `u32` counter as an `i32` (two's complement), as `c as i32` does.
pub fn counter_as_i32(c: u32) -> (v: i32)
    ensures
        v == wrapped_i32(c as int),
{
    if c <= 0x7fff_ffff {
        c as i32
    } else {
        ((c - 0x8000_0000) as i32) - 0x7fff_ffff - 1
    }
}

/// The coordinate `start + step` with the counter `step` read as an `i32`.
fn offset_coordinate(start: i32, step: u32, len: u32) -> (p: i32)
    requires
        step < len,
        span_fits(start as int, len as int),
    ensures
        p == start + wrapped_i32(step as int),
{
    start + counter_as_i32(step)
}

/// Paints the whole canvas one opaque colour.
pub fn clear_framebuffer(fb: &mut Framebuffer, r: u8, g: u8, b: u8)
    requires
        old(fb).wf(),
    ensures
        final(fb).wf(),
        final(fb).is_ready() == old(fb).is_ready(),
        painted(old(fb).bytes(), final(fb).bytes(), seq![Stroke::Rect(0, 0, 800, 600, (r, g, b, 255u8))]),
{
    fb.fill_rect(0, 0, FRAMEBUFFER_WIDTH as u32, FRAMEBUFFER_HEIGHT as u32, r, g, b, 255);
}

} // verus!
