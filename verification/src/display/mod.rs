//! Utah-OS display subsystem: unified topology, EDID optimization, intent pinning.
pub mod edid;
pub mod topology;
pub mod window_manager;

use vstd::prelude::*;

use crate::display::edid::MonitorCapabilitiesProfile;
use crate::display::topology::{
    head_bounds_fit, head_offsets_fit, registered_head, vram_words, zeroed_vram, GlobalDisplayTopology, PhysicalMonitorHead,
};
use crate::display::window_manager::{
    border_fits, borders_drawn, lemma_borders_compose, packed_rgb, placed, placement_fits, ApplicationPinRule,
    StructuralWindowFrame, WindowPinRegistry,
};
use crate::ui::canvas::{in_canvas, painted, pixel_of, Rgba};
use crate::ui::framebuffer::Framebuffer;
use crate::ui::theme::{rgb, ColorRgb};

verus! {

/// The two simulated heads the boot topology appends: an 800x600 panel at 60 Hz (the
/// ceiling of a blank EDID) and, to its right, a 640x480 auxiliary panel at 75 Hz.
pub open spec fn boot_heads(heads: Seq<PhysicalMonitorHead>, canvas_width: u32) -> Seq<PhysicalMonitorHead> {
    heads.push(registered_head(heads.len() as u32, None, 800, 600, 800, canvas_width, 60)).push(
        registered_head((heads.len() + 1) as u32, None, 640, 480, 640, (canvas_width + 800) as u32, 75),
    )
}

/// Probes EDID (simulated until GOP/DDC) and registers the two simulated heads.
pub fn initialize_unified_topology(topo: &mut GlobalDisplayTopology)
    requires
        old(topo).canvas_width() + 1440 <= u32::MAX,
    ensures
        final(topo).wf() == old(topo).wf(),
        final(topo).heads() == boot_heads(old(topo).heads(), old(topo).canvas_width()),
        final(topo).vram() == old(topo).vram().push(zeroed_vram(480_000)).push(zeroed_vram(307_200)),
        final(topo).canvas_width() == old(topo).canvas_width() + 1440,
        final(topo).canvas_height() == if old(topo).canvas_height() >= 600 { old(topo).canvas_height() } else { 600 },
{
    let blank_edid: [u8; 128] = [0; 128];
    let edid_primary = MonitorCapabilitiesProfile::parse_and_optimize_edid(&blank_edid);
    let edid_secondary = MonitorCapabilitiesProfile::simulated_secondary();
    assert(edid_primary.optimized_refresh_rate_ceiling_hz == 60);
    topo.register_monitor_head(800, 600, 800, edid_primary.optimized_refresh_rate_ceiling_hz);
    topo.register_monitor_head(640, 480, 640, edid_secondary.optimized_refresh_rate_ceiling_hz);
    assert(vram_words(registered_head(old(topo).heads().len() as u32, None, 800, 600, 800, old(topo).canvas_width(), 60)) == 480_000);
    assert(vram_words(registered_head((old(topo).heads().len() + 1) as u32, None, 640, 480, 640, (old(topo).canvas_width() + 800) as u32, 75)) == 307_200);
}

/// The three default pinned frames: the browser on monitor 1, the AI on the fastest head
/// and the HFS explorer on monitor 0.
pub open spec fn default_pinned_frames() -> Seq<StructuralWindowFrame> {
    seq![
        StructuralWindowFrame {
            application_title_id: "Utah-Browser-Core",
            workspace_position_x: 0,
            workspace_position_y: 0,
            frame_width_pixels: 400,
            frame_height_pixels: 300,
            primary_placement_rule: ApplicationPinRule::StrictMonitorIndex(1),
        },
        StructuralWindowFrame {
            application_title_id: "Sovereign-Prime-AI",
            workspace_position_x: 0,
            workspace_position_y: 0,
            frame_width_pixels: 320,
            frame_height_pixels: 240,
            primary_placement_rule: ApplicationPinRule::HighestPerformanceDisplay,
        },
        StructuralWindowFrame {
            application_title_id: "HFS-Explorer",
            workspace_position_x: 0,
            workspace_position_y: 0,
            frame_width_pixels: 360,
            frame_height_pixels: 280,
            primary_placement_rule: ApplicationPinRule::StrictMonitorIndex(0),
        },
    ]
}

/// Replaces the registry's frames with the default pinned frames.
pub fn register_default_pinned_windows(registry: &mut WindowPinRegistry)
    ensures
        final(registry).frames@ == default_pinned_frames(),
{
    registry.clear();
    registry.register(StructuralWindowFrame::new("Utah-Browser-Core", 400, 300, ApplicationPinRule::StrictMonitorIndex(1)));
    registry.register(StructuralWindowFrame::new("Sovereign-Prime-AI", 320, 240, ApplicationPinRule::HighestPerformanceDisplay));
    registry.register(StructuralWindowFrame::new("HFS-Explorer", 360, 280, ApplicationPinRule::StrictMonitorIndex(0)));
    assert(registry.frames@ =~= default_pinned_frames());
}

pub open spec fn cyan() -> ColorRgb {
    rgb(56, 189, 248)
}

pub open spec fn gold() -> ColorRgb {
    rgb(234, 179, 8)
}

pub open spec fn violet() -> ColorRgb {
    rgb(200, 120, 255)
}

/// The border colour of pinned frame `i`: gold for the second frame, cyan for every other.
pub open spec fn pin_colour(i: int) -> ColorRgb {
    if i == 1 {
        gold()
    } else {
        cyan()
    }
}

/// Borders of the pinned frames, each in its pin colour.
pub open spec fn pinned_borders(frames: Seq<StructuralWindowFrame>) -> Seq<(StructuralWindowFrame, u32)> {
    frames.map(|i: int, f: StructuralWindowFrame| (f, packed_rgb(pin_colour(i))))
}

/// Each frame placed on the topology.
pub open spec fn placed_frames(frames: Seq<StructuralWindowFrame>, topo: GlobalDisplayTopology) -> Seq<StructuralWindowFrame> {
    frames.map_values(|f: StructuralWindowFrame| placed(f, topo.heads(), topo.canvas_width(), topo.canvas_height()))
}

/// What rendering the pinned frames needs so that it computes only `i32` values.
pub open spec fn pins_fit(frames: Seq<StructuralWindowFrame>, topo: GlobalDisplayTopology) -> bool {
    &&& topo.coordinates_fit()
    &&& forall|i: int| 0 <= i < frames.len() ==> placement_fits(#[trigger] frames[i].primary_placement_rule, topo.heads())
    &&& forall|i: int| 0 <= i < frames.len() ==> border_fits(#[trigger] placed_frames(frames, topo)[i])
}

/// Places all pinned windows and draws their borders on the unified canvas.
pub fn render_pinned_windows(topo: &mut GlobalDisplayTopology, registry: &mut WindowPinRegistry)
    requires
        pins_fit(old(registry).frames@, *old(topo)),
    ensures
        final(registry).frames@ == placed_frames(old(registry).frames@, *old(topo)),
        final(topo).heads() == old(topo).heads(),
        final(topo).canvas_width() == old(topo).canvas_width(),
        final(topo).canvas_height() == old(topo).canvas_height(),
        final(topo).wf() == old(topo).wf(),
        borders_drawn(old(topo).heads(), old(topo).vram(), final(topo).vram(), pinned_borders(final(registry).frames@)),
{
    registry.place_all(topo);
    let ghost frames = registry.frames@;
    assert(frames =~= placed_frames(old(registry).frames@, *old(topo)));
    let ghost heads = topo.heads();
    let ghost before = topo.vram();
    let ghost all = pinned_borders(frames);
    assert(all.subrange(0, 0) =~= Seq::<(StructuralWindowFrame, u32)>::empty());
    let cyan_color = ColorRgb { red: 56, green: 189, blue: 248 };
    let gold_color = ColorRgb { red: 234, green: 179, blue: 8 };
    let mut i: usize = 0;
    while i < registry.frames.len()
        invariant
            i <= frames.len(),
            frames == registry.frames@,
            all == pinned_borders(frames),
            cyan_color == cyan(),
            gold_color == gold(),
            forall|j: int| 0 <= j < frames.len() ==> border_fits(#[trigger] frames[j]),
            topo.coordinates_fit(),
            topo.heads() == heads,
            heads == old(topo).heads(),
            before == old(topo).vram(),
            topo.canvas_width() == old(topo).canvas_width(),
            topo.canvas_height() == old(topo).canvas_height(),
            topo.wf() == old(topo).wf(),
            borders_drawn(heads, before, topo.vram(), all.subrange(0, i as int)),
        decreases frames.len() - i,
    {
        let color = if i == 1 { gold_color } else { cyan_color };
        assert(color == pin_colour(i as int));
        let ghost mid = topo.vram();
        registry.frames[i].commit_window_draw_pulses(topo, color);
        proof {
            lemma_borders_compose(heads, before, mid, topo.vram(), all.subrange(0, i as int), seq![(frames[i as int], packed_rgb(pin_colour(i as int)))]);
            assert(all.subrange(0, i as int) + seq![(frames[i as int], packed_rgb(pin_colour(i as int)))] =~= all.subrange(0, i + 1));
        }
        i = i + 1;
    }
    assert(all.subrange(0, frames.len() as int) =~= all);
}

/// The topology after boot registration, as a value (for stating what boot needs).
pub open spec fn boot_display_fits(topo: GlobalDisplayTopology) -> bool {
    &&& topo.canvas_width() + 1440 <= u32::MAX
    &&& topo.coordinates_fit()
    &&& {
        let heads = boot_heads(topo.heads(), topo.canvas_width());
        let w = (topo.canvas_width() + 1440) as u32;
        let h = if topo.canvas_height() >= 600 { topo.canvas_height() } else { 600u32 };
        &&& forall|i: int| 0 <= i < heads.len() ==> head_bounds_fit(#[trigger] heads[i]) && head_offsets_fit(heads[i])
        &&& forall|i: int|
            0 <= i < 3 ==> placement_fits(#[trigger] default_pinned_frames()[i].primary_placement_rule, heads)
                && border_fits(placed(default_pinned_frames()[i], heads, w, h))
    }
}

/// Full display stack init for boot: heads, default pins, and their borders.
pub fn boot_display_stack(topo: &mut GlobalDisplayTopology, registry: &mut WindowPinRegistry)
    requires
        boot_display_fits(*old(topo)),
    ensures
        final(topo).heads() == boot_heads(old(topo).heads(), old(topo).canvas_width()),
        final(topo).canvas_width() == old(topo).canvas_width() + 1440,
        final(topo).canvas_height() == if old(topo).canvas_height() >= 600 { old(topo).canvas_height() } else { 600 },
        final(registry).frames@.len() == 3,
        forall|i: int| 0 <= i < 3 ==> #[trigger] final(registry).frames@[i] == placed(
            default_pinned_frames()[i],
            final(topo).heads(),
            final(topo).canvas_width(),
            final(topo).canvas_height(),
        ),
        borders_drawn(
            final(topo).heads(),
            old(topo).vram().push(zeroed_vram(480_000)).push(zeroed_vram(307_200)),
            final(topo).vram(),
            pinned_borders(final(registry).frames@),
        ),
{
    initialize_unified_topology(topo);
    register_default_pinned_windows(registry);
    proof {
        assert(default_pinned_frames().len() == 3);
        assert forall|i: int| 0 <= i < topo.heads().len() implies head_bounds_fit(#[trigger] topo.heads()[i]) && head_offsets_fit(topo.heads()[i]) by {}
        assert forall|i: int| 0 <= i < 3 implies border_fits(#[trigger] placed_frames(registry.frames@, *topo)[i]) by {}
    }
    render_pinned_windows(topo, registry);
}

/// Pins a window by rule: places it, draws its border in violet and registers it.
pub fn pin_window(
    topo: &mut GlobalDisplayTopology,
    registry: &mut WindowPinRegistry,
    title: &'static str,
    width: u32,
    height: u32,
    rule: ApplicationPinRule,
)
    requires
        old(topo).coordinates_fit(),
        placement_fits(rule, old(topo).heads()),
        border_fits(placed(StructuralWindowFrame {
            application_title_id: title,
            workspace_position_x: 0,
            workspace_position_y: 0,
            frame_width_pixels: width,
            frame_height_pixels: height,
            primary_placement_rule: rule,
        }, old(topo).heads(), old(topo).canvas_width(), old(topo).canvas_height())),
    ensures
        final(topo).heads() == old(topo).heads(),
        final(topo).canvas_width() == old(topo).canvas_width(),
        final(topo).canvas_height() == old(topo).canvas_height(),
        final(topo).wf() == old(topo).wf(),
        final(registry).frames@ == old(registry).frames@.push(placed(StructuralWindowFrame {
            application_title_id: title,
            workspace_position_x: 0,
            workspace_position_y: 0,
            frame_width_pixels: width,
            frame_height_pixels: height,
            primary_placement_rule: rule,
        }, old(topo).heads(), old(topo).canvas_width(), old(topo).canvas_height())),
        borders_drawn(
            old(topo).heads(),
            old(topo).vram(),
            final(topo).vram(),
            seq![(final(registry).frames@.last(), packed_rgb(violet()))],
        ),
{
    let mut frame = StructuralWindowFrame::new(title, width, height, rule);
    frame.calculate_automated_placement(topo);
    frame.commit_window_draw_pulses(topo, ColorRgb { red: 200, green: 120, blue: 255 });
    registry.register(frame);
}

/// A VRAM word `0x..RRGGBB` as an opaque colour.
pub open spec fn unpacked_rgb(v: u32) -> Rgba {
    (((v / 65536) % 256) as u8, ((v / 256) % 256) as u8, (v % 256) as u8, 255u8)
}

/// The colour the primary head's VRAM gives framebuffer pixel (x, y): the head's visible
/// part is clipped to 800x600 and read with the head's stride; cells outside its
/// buffer give nothing, and so does a head mapped at the null address.
pub open spec fn composite_source(heads: Seq<PhysicalMonitorHead>, vram: Seq<Seq<u32>>, x: int, y: int) -> Option<Rgba> {
    if heads.len() == 0 || vram.len() == 0 || !crate::display::topology::head_has_vram(heads[0]) {
        None
    } else {
        let head = heads[0];
        let w = if head.resolution_width_pixels <= 800 { head.resolution_width_pixels as int } else { 800 };
        let h = if head.resolution_height_pixels <= 600 { head.resolution_height_pixels as int } else { 600 };
        let offset = y * crate::display::topology::head_stride(head) + x;
        if 0 <= x < w && 0 <= y < h && offset < vram[0].len() {
            Some(unpacked_rgb(vram[0][offset]))
        } else {
            None
        }
    }
}

/// Law: on a well-formed topology whose primary store is not saturated, every pixel of the
/// primary head inside the 800x600 canvas is composited from its VRAM word
/// `y * max(stride, width) + x`, as an opaque colour.
pub proof fn law_composite_copies_head(topo: GlobalDisplayTopology, x: int, y: int)
    requires
        topo.wf(),
        topo.heads().len() > 0,
        crate::display::topology::head_has_vram(topo.heads()[0]),
        crate::display::topology::head_stride(topo.heads()[0]) * topo.heads()[0].resolution_height_pixels <= usize::MAX,
        0 <= x < topo.heads()[0].resolution_width_pixels,
        0 <= y < topo.heads()[0].resolution_height_pixels,
        in_canvas(x, y),
    ensures
        composite_source(topo.heads(), topo.vram(), x, y) == Some(
            unpacked_rgb(topo.vram()[0][y * crate::display::topology::head_stride(topo.heads()[0]) + x]),
        ),
{
    crate::display::topology::law_vram_covers_head(topo, 0, x, y);
}

/// Blits the primary head's RGB VRAM into the Glass-Forge BGRA framebuffer.
pub fn composite_primary_head_to_framebuffer(topo: &GlobalDisplayTopology, fb: &mut Framebuffer)
    requires
        old(fb).wf(),
        topo.heads().len() > 0 ==> head_offsets_fit(topo.heads()[0]),
    ensures
        final(fb).wf(),
        final(fb).is_ready() == old(fb).is_ready(),
        final(fb).bytes().len() == old(fb).bytes().len(),
        forall|x: int, y: int| in_canvas(x, y) ==> #[trigger] pixel_of(final(fb).bytes(), x, y) == match composite_source(
            topo.heads(),
            topo.vram(),
            x,
            y,
        ) {
            Some(c) => c,
            None => pixel_of(old(fb).bytes(), x, y),
        },
{
    let ghost before = fb.bytes();
    proof {
        fb.lemma_bytes_len();
    }
    if topo.head_count() == 0 {
        return;
    }
    let head = topo.head_at(0);
    if let Some(0) = head.video_memory_base_address {
        return;
    }
    let w: i32 = if head.resolution_width_pixels <= 800 { head.resolution_width_pixels as i32 } else { 800 };
    let h: i32 = if head.resolution_height_pixels <= 600 { head.resolution_height_pixels as i32 } else { 600 };
    let stride = if head.pixels_per_scan_line >= head.resolution_width_pixels {
        head.pixels_per_scan_line
    } else {
        head.resolution_width_pixels
    };
    let mut y: i32 = 0;
    while y < h
        invariant
            0 <= y <= h,
            topo.heads().len() > 0,
            head == topo.heads()[0],
            crate::display::topology::head_has_vram(head),
            head_offsets_fit(head),
            w == if head.resolution_width_pixels <= 800 { head.resolution_width_pixels as int } else { 800 },
            h == if head.resolution_height_pixels <= 600 { head.resolution_height_pixels as int } else { 600 },
            stride == crate::display::topology::head_stride(head),
            fb.wf(),
            fb.is_ready() == old(fb).is_ready(),
            before == old(fb).bytes(),
            forall|qx: int, qy: int| in_canvas(qx, qy) ==> #[trigger] pixel_of(fb.bytes(), qx, qy) == if qy < y {
                match composite_source(topo.heads(), topo.vram(), qx, qy) {
                    Some(c) => c,
                    None => pixel_of(before, qx, qy),
                }
            } else {
                pixel_of(before, qx, qy)
            },
        decreases h - y,
    {
        let mut x: i32 = 0;
        while x < w
            invariant
                0 <= x <= w,
                0 <= y < h,
                topo.heads().len() > 0,
                head == topo.heads()[0],
                crate::display::topology::head_has_vram(head),
                head_offsets_fit(head),
                w == if head.resolution_width_pixels <= 800 { head.resolution_width_pixels as int } else { 800 },
                h == if head.resolution_height_pixels <= 600 { head.resolution_height_pixels as int } else { 600 },
                stride == crate::display::topology::head_stride(head),
                fb.wf(),
                fb.is_ready() == old(fb).is_ready(),
                before == old(fb).bytes(),
                forall|qx: int, qy: int| in_canvas(qx, qy) ==> #[trigger] pixel_of(fb.bytes(), qx, qy) == if qy < y || (qy == y
                    && qx < x) {
                    match composite_source(topo.heads(), topo.vram(), qx, qy) {
                        Some(c) => c,
                        None => pixel_of(before, qx, qy),
                    }
                } else {
                    pixel_of(before, qx, qy)
                },
            decreases w - x,
        {
            assert(y as int * stride as int + x <= u32::MAX) by (nonlinear_arith)
                requires
                    0 <= y < head.resolution_height_pixels,
                    0 <= x < head.resolution_width_pixels,
                    (head.resolution_height_pixels - 1) * stride + (head.resolution_width_pixels - 1) <= u32::MAX,
                    stride >= 0,
            ;
            let offset = (y as u32) * stride + (x as u32);
            let ghost mid = fb.bytes();
            match topo.read_vram(0, offset as usize) {
                Some(packed) => {
                    let r = ((packed >> 16) & 0xFF) as u8;
                    let g = ((packed >> 8) & 0xFF) as u8;
                    let b = (packed & 0xFF) as u8;
                    assert((packed >> 16) & 0xFF == (packed / 65536) % 256) by (bit_vector);
                    assert((packed >> 8) & 0xFF == (packed / 256) % 256) by (bit_vector);
                    assert(packed & 0xFF == packed % 256) by (bit_vector);
                    fb.write_pixel(x, y, r, g, b, 255);
                    proof {
                        crate::ui::canvas::lemma_painted_single_elim(
                            mid,
                            fb.bytes(),
                            crate::ui::canvas::Stroke::Pixel(x as int, y as int, (r, g, b, 255u8)),
                        );
                        assert forall|qx: int, qy: int| in_canvas(qx, qy) implies #[trigger] pixel_of(fb.bytes(), qx, qy) == if qy
                            < y || (qy == y && qx < x + 1) {
                            match composite_source(topo.heads(), topo.vram(), qx, qy) {
                                Some(c) => c,
                                None => pixel_of(before, qx, qy),
                            }
                        } else {
                            pixel_of(before, qx, qy)
                        } by {
                            assert(pixel_of(mid, qx, qy) == pixel_of(mid, qx, qy));
                        }
                    }
                },
                None => {
                    proof {
                        assert forall|qx: int, qy: int| in_canvas(qx, qy) implies #[trigger] pixel_of(fb.bytes(), qx, qy) == if qy
                            < y || (qy == y && qx < x + 1) {
                            match composite_source(topo.heads(), topo.vram(), qx, qy) {
                                Some(c) => c,
                                None => pixel_of(before, qx, qy),
                            }
                        } else {
                            pixel_of(before, qx, qy)
                        } by {
                            assert(pixel_of(mid, qx, qy) == pixel_of(mid, qx, qy));
                        }
                    }
                },
            }
            x = x + 1;
        }
        y = y + 1;
    }
    proof {
        fb.lemma_bytes_len();
    }
}

/// Global canvas size for unified pointer routing.
pub fn global_canvas_dimensions(topo: &GlobalDisplayTopology) -> (dimensions: (u32, u32))
    ensures
        dimensions == (topo.canvas_width(), topo.canvas_height()),
{
    topo.virtual_canvas()
}

} // verus!
