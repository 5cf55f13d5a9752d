//! Glass-Forge: direct-to-VRAM holographic UI for Utah-OS.
pub mod canvas;
pub mod framebuffer;
pub mod theme;
pub mod glass;
pub mod manifold;
pub mod theme_runtime;
pub mod voxel;

use vstd::prelude::*;

use crate::ui::canvas::{painted, Stroke};
use crate::ui::framebuffer::Framebuffer;

verus! {

/// Initializes the linear framebuffer canvas: a dark slate fill, then marks it ready.
pub fn init_framebuffer(fb: &mut Framebuffer)
    requires
        old(fb).wf(),
    ensures
        final(fb).wf(),
        final(fb).is_ready(),
        painted(old(fb).bytes(), final(fb).bytes(), seq![Stroke::Rect(0, 0, 800, 600, (0x08u8, 0x0cu8, 0x18u8, 255u8))]),
{
    crate::ui::framebuffer::clear_framebuffer(fb, 0x08, 0x0C, 0x18);
    fb.set_ready();
}

/// Whether the canvas has been initialized.
pub fn framebuffer_ready(fb: &Framebuffer) -> (ready: bool)
    ensures
        ready == fb.is_ready(),
{
    fb.ready()
}

/// The canvas after the boot splash is redrawn on it: cleared to the boot colour first when it
/// was not initialized, then the splash strokes on top.
pub open spec fn splash_redrawn(before: Seq<u8>, was_ready: bool, after: Seq<u8>) -> bool {
    if was_ready {
        painted(before, after, crate::ui::glass::boot_splash_strokes())
    } else {
        painted(before, after, seq![Stroke::Rect(0, 0, 800, 600, (0x08u8, 0x0cu8, 0x18u8, 255u8))] + crate::ui::glass::boot_splash_strokes())
    }
}

/// Renders the boot splash, initializing the canvas first if needed.
pub fn render_boot_splash(fb: &mut Framebuffer)
    requires
        old(fb).wf(),
    ensures
        final(fb).wf(),
        final(fb).is_ready(),
        old(fb).is_ready() ==> painted(old(fb).bytes(), final(fb).bytes(), crate::ui::glass::boot_splash_strokes()),
        !old(fb).is_ready() ==> painted(
            old(fb).bytes(),
            final(fb).bytes(),
            seq![Stroke::Rect(0, 0, 800, 600, (0x08u8, 0x0cu8, 0x18u8, 255u8))] + crate::ui::glass::boot_splash_strokes(),
        ),
{
    let ghost b0 = fb.bytes();
    if !framebuffer_ready(fb) {
        init_framebuffer(fb);
    }
    let ghost b1 = fb.bytes();
    crate::ui::glass::draw_boot_splash(fb);
    proof {
        if !old(fb).is_ready() {
            crate::ui::canvas::lemma_painted_compose(
                b0,
                b1,
                fb.bytes(),
                seq![Stroke::Rect(0, 0, 800, 600, (0x08u8, 0x0cu8, 0x18u8, 255u8))],
                crate::ui::glass::boot_splash_strokes(),
            );
        } else {
            assert(Seq::<Stroke>::empty() + crate::ui::glass::boot_splash_strokes() =~= crate::ui::glass::boot_splash_strokes());
        }
    }
}

} // verus!
