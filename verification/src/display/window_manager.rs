//! Intent-based application pinning across the unified virtual desktop.
use vstd::prelude::*;

use crate::display::topology::{
    head_bounds_fit, head_offsets_fit, head_stride, highest_refresh_index, law_highest_refresh_is_last_maximum,
    law_resolution_is_first_match, pixel_target, GlobalDisplayTopology, PhysicalMonitorHead,
};
use crate::ui::canvas::{span_fits, span_hits, wrapped_i32};
use crate::ui::theme::ColorRgb;

verus! {

/// Window placement rule.
#[derive(Clone, Copy, Debug)]
pub enum ApplicationPinRule {
    StrictMonitorIndex(u32),
    HighestPerformanceDisplay,
    SpanAllAvailableMonitors,
}

/// Application window frame in global coordinates.
#[derive(Clone, Copy, Debug)]
pub struct StructuralWindowFrame {
    pub application_title_id: &'static str,
    pub workspace_position_x: i32,
    pub workspace_position_y: i32,
    pub frame_width_pixels: u32,
    pub frame_height_pixels: u32,
    pub primary_placement_rule: ApplicationPinRule,
}

/// Position of the first head at or after `from` whose hardware index is `target`.
pub open spec fn first_head_with_index(heads: Seq<PhysicalMonitorHead>, target: u32, from: int) -> Option<int>
    decreases heads.len() - from,
{
    if from < 0 || from >= heads.len() {
        None
    } else if heads[from].monitor_hardware_index == target {
        Some(from)
    } else {
        first_head_with_index(heads, target, from + 1)
    }
}

pub open spec fn min_u32(a: u32, b: int) -> u32 {
    if a <= b {
        a
    } else {
        b as u32
    }
}

/// A frame placed by its rule on a topology of `heads` over a `canvas_width` x
/// `canvas_height` canvas:
/// - strict index: moved to the first head with that index and shrunk to fit it with an
///   8-pixel margin (left alone when no head has the index);
/// - highest performance: moved 16 pixels into the fastest head (left alone without heads);
/// - span all: covers the whole canvas.
pub open spec fn placed(frame: StructuralWindowFrame, heads: Seq<PhysicalMonitorHead>, canvas_width: u32, canvas_height: u32) -> StructuralWindowFrame {
    match frame.primary_placement_rule {
        ApplicationPinRule::StrictMonitorIndex(target) => match first_head_with_index(heads, target, 0) {
            Some(i) => StructuralWindowFrame {
                workspace_position_x: heads[i].global_coordinate_offset_x,
                workspace_position_y: heads[i].global_coordinate_offset_y,
                frame_width_pixels: min_u32(
                    frame.frame_width_pixels,
                    if heads[i].resolution_width_pixels >= 8 { heads[i].resolution_width_pixels - 8 } else { 0 },
                ),
                frame_height_pixels: min_u32(
                    frame.frame_height_pixels,
                    if heads[i].resolution_height_pixels >= 8 { heads[i].resolution_height_pixels - 8 } else { 0 },
                ),
                ..frame
            },
            None => frame,
        },
        ApplicationPinRule::HighestPerformanceDisplay => if heads.len() > 0 {
            let best = heads[highest_refresh_index(heads, heads.len() as int)];
            StructuralWindowFrame {
                workspace_position_x: (best.global_coordinate_offset_x + 16) as i32,
                workspace_position_y: (best.global_coordinate_offset_y + 16) as i32,
                ..frame
            }
        } else {
            frame
        },
        ApplicationPinRule::SpanAllAvailableMonitors => StructuralWindowFrame {
            workspace_position_x: 0,
            workspace_position_y: 0,
            frame_width_pixels: canvas_width,
            frame_height_pixels: canvas_height,
            ..frame
        },
    }
}

/// Whether placing by `rule` computes only `i32` values: the fastest head's offsets leave
/// room for the 16-pixel inset.
pub open spec fn placement_fits(rule: ApplicationPinRule, heads: Seq<PhysicalMonitorHead>) -> bool {
    rule is HighestPerformanceDisplay && heads.len() > 0 ==> {
        let best = heads[highest_refresh_index(heads, heads.len() as int)];
        &&& best.global_coordinate_offset_x + 16 <= i32::MAX
        &&& best.global_coordinate_offset_y + 16 <= i32::MAX
    }
}

/// Whether the global point lies on the frame's one-pixel edge.
pub open spec fn on_frame_ring(frame: StructuralWindowFrame, global_x: int, global_y: int) -> bool {
    let x = frame.workspace_position_x as int;
    let y = frame.workspace_position_y as int;
    let w = frame.frame_width_pixels as int;
    let h = frame.frame_height_pixels as int;
    &&& w > 0
    &&& h > 0
    &&& {
        ||| (span_hits(x, w, global_x) && (global_y == y || global_y == y + wrapped_i32(h) - 1))
        ||| (span_hits(y, h, global_y) && (global_x == x || global_x == x + wrapped_i32(w) - 1))
    }
}

/// Whether drawing the frame's one-pixel edge computes only `i32` values.
pub open spec fn ring_fits(frame: StructuralWindowFrame) -> bool {
    let x = frame.workspace_position_x as int;
    let y = frame.workspace_position_y as int;
    let w = frame.frame_width_pixels as int;
    let h = frame.frame_height_pixels as int;
    w > 0 && h > 0 ==> {
        &&& span_fits(x, w)
        &&& span_fits(y, h)
        &&& i32::MIN <= x + wrapped_i32(w) <= i32::MAX
        &&& i32::MIN <= x + wrapped_i32(w) - 1
        &&& i32::MIN <= y + wrapped_i32(h) <= i32::MAX
        &&& i32::MIN <= y + wrapped_i32(h) - 1
    }
}

/// The frame shrunk by one pixel on every side; an empty frame when it is 2 pixels wide or
/// high or less.
pub open spec fn inset_frame(frame: StructuralWindowFrame) -> StructuralWindowFrame {
    if frame.frame_width_pixels > 2 && frame.frame_height_pixels > 2 {
        StructuralWindowFrame {
            workspace_position_x: (frame.workspace_position_x + 1) as i32,
            workspace_position_y: (frame.workspace_position_y + 1) as i32,
            frame_width_pixels: (frame.frame_width_pixels - 2) as u32,
            frame_height_pixels: (frame.frame_height_pixels - 2) as u32,
            ..frame
        }
    } else {
        StructuralWindowFrame { frame_width_pixels: 0, ..frame }
    }
}

/// Whether the global point lies on the frame's 2-pixel accent border: the frame's edge or
/// the edge of the frame inset by one pixel, i.e. rows y, y+1, y+h-2, y+h-1 and columns x,
/// x+1, x+w-2, x+w-1 within the frame.
pub open spec fn on_frame_border(frame: StructuralWindowFrame, global_x: int, global_y: int) -> bool {
    on_frame_ring(frame, global_x, global_y) || on_frame_ring(inset_frame(frame), global_x, global_y)
}

/// Whether drawing the frame's 2-pixel border computes only `i32` values.
pub open spec fn border_fits(frame: StructuralWindowFrame) -> bool {
    ring_fits(frame) && ring_fits(inset_frame(frame))
}

/// The value a colour is stored as in VRAM: red in bits 23..16, green 15..8, blue 7..0.
pub open spec fn packed_rgb(c: ColorRgb) -> u32 {
    (c.red as int * 65536 + c.green as int * 256 + c.blue as int) as u32
}

/// Whether some border point of the frame lands on VRAM cell (i, o).
pub open spec fn border_hits_cell(heads: Seq<PhysicalMonitorHead>, frame: StructuralWindowFrame, i: int, o: int) -> bool {
    exists|gx: int, gy: int| on_frame_border(frame, gx, gy) && #[trigger] pixel_target(heads, gx, gy) == Some((i, o))
}

/// The value of VRAM cell (i, o) after the borders are drawn in order, last on top.
pub open spec fn cell_after_borders(
    heads: Seq<PhysicalMonitorHead>,
    base: u32,
    borders: Seq<(StructuralWindowFrame, u32)>,
    i: int,
    o: int,
) -> u32
    decreases borders.len(),
{
    if borders.len() == 0 {
        base
    } else if border_hits_cell(heads, borders.last().0, i, o) {
        borders.last().1
    } else {
        cell_after_borders(heads, base, borders.drop_last(), i, o)
    }
}

/// `after` is the VRAM `before` with the frame borders drawn on it.
pub open spec fn borders_drawn(
    heads: Seq<PhysicalMonitorHead>,
    before: Seq<Seq<u32>>,
    after: Seq<Seq<u32>>,
    borders: Seq<(StructuralWindowFrame, u32)>,
) -> bool {
    &&& after.len() == before.len()
    &&& forall|i: int| 0 <= i < before.len() ==> #[trigger] after[i].len() == before[i].len()
    &&& forall|i: int, o: int|
        0 <= i < before.len() && 0 <= o < before[i].len() ==> #[trigger] after[i][o] == cell_after_borders(
            heads,
            before[i][o],
            borders,
            i,
            o,
        )
}

/// Drawing borders `b1` then `b2` draws `b1 + b2`.
pub proof fn lemma_borders_compose(
    heads: Seq<PhysicalMonitorHead>,
    a: Seq<Seq<u32>>,
    b: Seq<Seq<u32>>,
    c: Seq<Seq<u32>>,
    b1: Seq<(StructuralWindowFrame, u32)>,
    b2: Seq<(StructuralWindowFrame, u32)>,
)
    requires
        borders_drawn(heads, a, b, b1),
        borders_drawn(heads, b, c, b2),
    ensures
        borders_drawn(heads, a, c, b1 + b2),
{
    assert forall|i: int, o: int| 0 <= i < a.len() && 0 <= o < a[i].len() implies #[trigger] c[i][o] == cell_after_borders(
        heads,
        a[i][o],
        b1 + b2,
        i,
        o,
    ) by {
        assert(b[i][o] == cell_after_borders(heads, a[i][o], b1, i, o));
        lemma_cell_after_concat(heads, a[i][o], b1, b2, i, o);
    }
}

proof fn lemma_cell_after_concat(
    heads: Seq<PhysicalMonitorHead>,
    base: u32,
    b1: Seq<(StructuralWindowFrame, u32)>,
    b2: Seq<(StructuralWindowFrame, u32)>,
    i: int,
    o: int,
)
    ensures
        cell_after_borders(heads, base, b1 + b2, i, o) == cell_after_borders(heads, cell_after_borders(heads, base, b1, i, o), b2, i, o),
    decreases b2.len(),
{
    if b2.len() == 0 {
        assert(b1 + b2 =~= b1);
    } else {
        assert((b1 + b2).drop_last() =~= b1 + b2.drop_last());
        lemma_cell_after_concat(heads, base, b1, b2.drop_last(), i, o);
    }
}

/// Cells hit so far by a set of global points.
spec fn hit_by(heads: Seq<PhysicalMonitorHead>, points: spec_fn(int, int) -> bool, i: int, o: int) -> bool {
    exists|gx: int, gy: int| points(gx, gy) && #[trigger] pixel_target(heads, gx, gy) == Some((i, o))
}

/// `after` is `before` with every cell hit by `points` set to `packed`.
spec fn points_painted(
    heads: Seq<PhysicalMonitorHead>,
    before: Seq<Seq<u32>>,
    after: Seq<Seq<u32>>,
    points: spec_fn(int, int) -> bool,
    packed: u32,
) -> bool {
    &&& after.len() == before.len()
    &&& forall|i: int| 0 <= i < before.len() ==> #[trigger] after[i].len() == before[i].len()
    &&& forall|i: int, o: int|
        0 <= i < before.len() && 0 <= o < before[i].len() ==> #[trigger] after[i][o] == if hit_by(heads, points, i, o) {
            packed
        } else {
            before[i][o]
        }
}

/// One more written point extends the painted set.
proof fn lemma_points_step(
    heads: Seq<PhysicalMonitorHead>,
    before: Seq<Seq<u32>>,
    cur: Seq<Seq<u32>>,
    next: Seq<Seq<u32>>,
    points: spec_fn(int, int) -> bool,
    more: spec_fn(int, int) -> bool,
    gx: int,
    gy: int,
    packed: u32,
)
    requires
        points_painted(heads, before, cur, points, packed),
        next.len() == cur.len(),
        forall|i: int| 0 <= i < cur.len() ==> #[trigger] next[i].len() == cur[i].len(),
        forall|i: int, o: int|
            0 <= i < cur.len() && 0 <= o < cur[i].len() ==> #[trigger] next[i][o] == if pixel_target(heads, gx, gy) == Some((i, o)) {
                packed
            } else {
                cur[i][o]
            },
        forall|a: int, b: int| #[trigger] more(a, b) == (points(a, b) || (a == gx && b == gy)),
    ensures
        points_painted(heads, before, next, more, packed),
{
    assert forall|i: int, o: int| 0 <= i < before.len() && 0 <= o < before[i].len() implies #[trigger] next[i][o] == if hit_by(
        heads,
        more,
        i,
        o,
    ) {
        packed
    } else {
        before[i][o]
    } by {
        if pixel_target(heads, gx, gy) == Some((i, o)) {
            assert(more(gx, gy));
            assert(hit_by(heads, more, i, o));
        } else {
            if hit_by(heads, more, i, o) {
                let (a, b) = choose|a: int, b: int| more(a, b) && #[trigger] pixel_target(heads, a, b) == Some((i, o));
                assert(points(a, b));
                assert(hit_by(heads, points, i, o));
            }
            if hit_by(heads, points, i, o) {
                let (a, b) = choose|a: int, b: int| points(a, b) && #[trigger] pixel_target(heads, a, b) == Some((i, o));
                assert(more(a, b));
            }
        }
    }
}

/// Painting two point sets in one colour paints their union.
proof fn lemma_points_union(
    heads: Seq<PhysicalMonitorHead>,
    a: Seq<Seq<u32>>,
    b: Seq<Seq<u32>>,
    c: Seq<Seq<u32>>,
    p: spec_fn(int, int) -> bool,
    q: spec_fn(int, int) -> bool,
    packed: u32,
)
    requires
        points_painted(heads, a, b, p, packed),
        points_painted(heads, b, c, q, packed),
    ensures
        points_painted(heads, a, c, |x: int, y: int| p(x, y) || q(x, y), packed),
{
    let u = |x: int, y: int| p(x, y) || q(x, y);
    assert forall|i: int, o: int| 0 <= i < a.len() && 0 <= o < a[i].len() implies #[trigger] c[i][o] == if hit_by(heads, u, i, o) {
        packed
    } else {
        a[i][o]
    } by {
        assert(b[i][o] == if hit_by(heads, p, i, o) { packed } else { a[i][o] });
        if hit_by(heads, p, i, o) {
            let (x, y) = choose|x: int, y: int| p(x, y) && #[trigger] pixel_target(heads, x, y) == Some((i, o));
            assert(u(x, y));
        }
        if hit_by(heads, q, i, o) {
            let (x, y) = choose|x: int, y: int| q(x, y) && #[trigger] pixel_target(heads, x, y) == Some((i, o));
            assert(u(x, y));
        }
        if hit_by(heads, u, i, o) {
            let (x, y) = choose|x: int, y: int| u(x, y) && #[trigger] pixel_target(heads, x, y) == Some((i, o));
            if p(x, y) {
                assert(hit_by(heads, p, i, o));
            } else {
                assert(hit_by(heads, q, i, o));
            }
        }
    }
}

/// Writes `packed` at the VRAM cell a global point addresses, if any.
fn write_global_pixel(topology: &mut GlobalDisplayTopology, global_x: i32, global_y: i32, packed: u32)
    requires
        old(topology).coordinates_fit(),
    ensures
        final(topology).heads() == old(topology).heads(),
        final(topology).canvas_width() == old(topology).canvas_width(),
        final(topology).canvas_height() == old(topology).canvas_height(),
        final(topology).wf() == old(topology).wf(),
        final(topology).vram().len() == old(topology).vram().len(),
        forall|i: int| 0 <= i < old(topology).vram().len() ==> #[trigger] final(topology).vram()[i].len() == old(topology).vram()[i].len(),
        forall|i: int, o: int|
            0 <= i < old(topology).vram().len() && 0 <= o < old(topology).vram()[i].len() ==> #[trigger] final(topology).vram()[i][o]
                == if pixel_target(old(topology).heads(), global_x as int, global_y as int) == Some((i, o)) {
                packed
            } else {
                old(topology).vram()[i][o]
            },
{
    if let Some((head, local_x, local_y)) = topology.resolve_physical_coordinates(global_x, global_y) {
        if let Some(0) = head.video_memory_base_address {
            return;
        }
        let ghost heads = topology.heads();
        proof {
            law_resolution_is_first_match(heads, global_x as int, global_y as int, 0);
        }
        let ghost index = crate::display::topology::first_head_containing(heads, global_x as int, global_y as int, 0)->0;
        assert(head_offsets_fit(heads[index]) && head_bounds_fit(heads[index]));
        let stride = if head.pixels_per_scan_line >= head.resolution_width_pixels {
            head.pixels_per_scan_line
        } else {
            head.resolution_width_pixels
        };
        assert(local_y as int * stride as int + local_x <= u32::MAX) by (nonlinear_arith)
            requires
                local_y < head.resolution_height_pixels,
                local_x < head.resolution_width_pixels,
                (head.resolution_height_pixels - 1) * stride + (head.resolution_width_pixels - 1) <= u32::MAX,
                stride >= 0,
        ;
        let offset = local_y * stride + local_x;
        let position = find_head_position(topology, global_x, global_y);
        topology.write_vram(position, offset as usize, packed);
    }
}

/// Position of the head a global point falls on (the point must fall on one).
fn find_head_position(topology: &GlobalDisplayTopology, global_x: i32, global_y: i32) -> (position: usize)
    requires
        topology.coordinates_fit(),
        crate::display::topology::first_head_containing(topology.heads(), global_x as int, global_y as int, 0) is Some,
    ensures
        crate::display::topology::first_head_containing(topology.heads(), global_x as int, global_y as int, 0) == Some(
            position as int,
        ),
{
    let mut i: usize = 0;
    proof {
        law_resolution_is_first_match(topology.heads(), global_x as int, global_y as int, 0);
    }
    while i < topology.head_count()
        invariant
            i <= topology.heads().len(),
            topology.coordinates_fit(),
            crate::display::topology::first_head_containing(topology.heads(), global_x as int, global_y as int, 0)
                == crate::display::topology::first_head_containing(topology.heads(), global_x as int, global_y as int, i as int),
            crate::display::topology::first_head_containing(topology.heads(), global_x as int, global_y as int, 0) is Some,
        decreases topology.heads().len() - i,
    {
        let monitor = topology.head_at(i);
        assert(head_bounds_fit(topology.heads()[i as int]));
        let left = monitor.global_coordinate_offset_x;
        let right = monitor.global_coordinate_offset_x + monitor.resolution_width_pixels as i32;
        let top = monitor.global_coordinate_offset_y;
        let bottom = monitor.global_coordinate_offset_y + monitor.resolution_height_pixels as i32;
        if global_x >= left && global_x < right && global_y >= top && global_y < bottom {
            return i;
        }
        i = i + 1;
    }
    proof {
        law_resolution_is_first_match(topology.heads(), global_x as int, global_y as int, i as int);
    }
    0
}

/// Packs a colour as `0x00RRGGBB`.
pub fn pack_rgb(color: ColorRgb) -> (packed: u32)
    ensures
        packed == packed_rgb(color),
{
    let r = color.red as u32;
    let g = color.green as u32;
    let b = color.blue as u32;
    assert(((r << 16) | (g << 8) | b) == r * 65536 + g * 256 + b) by (bit_vector)
        requires
            r < 256,
            g < 256,
            b < 256,
    ;
    ((r << 16) | (g << 8)) | b
}

impl StructuralWindowFrame {
    pub fn new(title: &'static str, width: u32, height: u32, rule: ApplicationPinRule) -> (frame: Self)
        ensures
            frame.application_title_id == title,
            frame.workspace_position_x == 0,
            frame.workspace_position_y == 0,
            frame.frame_width_pixels == width,
            frame.frame_height_pixels == height,
            frame.primary_placement_rule == rule,
    {
        StructuralWindowFrame {
            application_title_id: title,
            workspace_position_x: 0,
            workspace_position_y: 0,
            frame_width_pixels: width,
            frame_height_pixels: height,
            primary_placement_rule: rule,
        }
    }

    /// Places the frame on the topology according to its rule.
    pub fn calculate_automated_placement(&mut self, system_topology: &GlobalDisplayTopology)
        requires
            placement_fits(old(self).primary_placement_rule, system_topology.heads()),
        ensures
            *final(self) == placed(*old(self), system_topology.heads(), system_topology.canvas_width(), system_topology.canvas_height()),
    {
        match self.primary_placement_rule {
            ApplicationPinRule::StrictMonitorIndex(target_index) => {
                let mut i: usize = 0;
                while i < system_topology.head_count()
                    invariant
                        i <= system_topology.heads().len(),
                        *self == *old(self),
                        old(self).primary_placement_rule == ApplicationPinRule::StrictMonitorIndex(target_index),
                        first_head_with_index(system_topology.heads(), target_index, 0) == first_head_with_index(
                            system_topology.heads(),
                            target_index,
                            i as int,
                        ),
                    decreases system_topology.heads().len() - i,
                {
                    let target_screen = system_topology.head_at(i);
                    if target_screen.monitor_hardware_index == target_index {
                        assert(first_head_with_index(system_topology.heads(), target_index, i as int) == Some(i as int));
                        self.workspace_position_x = target_screen.global_coordinate_offset_x;
                        self.workspace_position_y = target_screen.global_coordinate_offset_y;
                        let room_w = target_screen.resolution_width_pixels.saturating_sub(8);
                        let room_h = target_screen.resolution_height_pixels.saturating_sub(8);
                        if room_w < self.frame_width_pixels {
                            self.frame_width_pixels = room_w;
                        }
                        if room_h < self.frame_height_pixels {
                            self.frame_height_pixels = room_h;
                        }
                        return;
                    }
                    i = i + 1;
                }
            },
            ApplicationPinRule::HighestPerformanceDisplay => {
                if let Some(fastest) = system_topology.highest_refresh_head() {
                    self.workspace_position_x = fastest.global_coordinate_offset_x + 16;
                    self.workspace_position_y = fastest.global_coordinate_offset_y + 16;
                }
            },
            ApplicationPinRule::SpanAllAvailableMonitors => {
                self.workspace_position_x = 0;
                self.workspace_position_y = 0;
                let (canvas_width, canvas_height) = system_topology.virtual_canvas();
                self.frame_width_pixels = canvas_width;
                self.frame_height_pixels = canvas_height;
            },
        }
    }

    /// Draws the frame's one-pixel edge into the VRAM of every head it crosses.
    fn draw_ring(&self, system_topology: &mut GlobalDisplayTopology, packed: u32)
        requires
            old(system_topology).coordinates_fit(),
            ring_fits(*self),
        ensures
            final(system_topology).heads() == old(system_topology).heads(),
            final(system_topology).canvas_width() == old(system_topology).canvas_width(),
            final(system_topology).canvas_height() == old(system_topology).canvas_height(),
            final(system_topology).wf() == old(system_topology).wf(),
            final(system_topology).coordinates_fit(),
            points_painted(
                old(system_topology).heads(),
                old(system_topology).vram(),
                final(system_topology).vram(),
                |a: int, b: int| on_frame_ring(*self, a, b),
                packed,
            ),
    {
        let w = self.frame_width_pixels;
        let h = self.frame_height_pixels;
        let ghost heads = system_topology.heads();
        let ghost before = system_topology.vram();
        let ghost frame = *self;
        let ghost ring = |a: int, b: int| on_frame_ring(frame, a, b);
        let x = self.workspace_position_x;
        let y = self.workspace_position_y;
        if w == 0 || h == 0 {
            proof {
                assert forall|i: int, o: int| 0 <= i < before.len() && 0 <= o < before[i].len() implies !hit_by(heads, ring, i, o) by {
                    if hit_by(heads, ring, i, o) {
                        let (a, b) = choose|a: int, b: int| ring(a, b) && #[trigger] pixel_target(heads, a, b) == Some((i, o));
                        assert(on_frame_ring(frame, a, b));
                    }
                }
            }
            return;
        }
        let w_i32 = crate::ui::framebuffer::counter_as_i32(w);
        let h_i32 = crate::ui::framebuffer::counter_as_i32(h);
        let bottom = y + h_i32 - 1;
        let right = x + w_i32 - 1;
        let ghost none = |a: int, b: int| false;
        assert(points_painted(heads, before, before, none, packed));
        let mut local_x: u32 = 0;
        while local_x < w
            invariant
                local_x <= w,
                w == frame.frame_width_pixels,
                h == frame.frame_height_pixels,
                w > 0 && h > 0,
                x == frame.workspace_position_x,
                y == frame.workspace_position_y,
                bottom == y + wrapped_i32(h as int) - 1,
                ring_fits(frame),
                system_topology.coordinates_fit(),
                system_topology.heads() == heads,
                system_topology.canvas_width() == old(system_topology).canvas_width(),
                system_topology.canvas_height() == old(system_topology).canvas_height(),
                system_topology.wf() == old(system_topology).wf(),
                before == old(system_topology).vram(),
                heads == old(system_topology).heads(),
                points_painted(
                    heads,
                    before,
                    system_topology.vram(),
                    |a: int, b: int| span_hits(x as int, local_x as int, a) && (b == y || b == bottom),
                    packed,
                ),
            decreases w - local_x,
        {
            let gx = x + crate::ui::framebuffer::counter_as_i32(local_x);
            let ghost p0 = |a: int, b: int| span_hits(x as int, local_x as int, a) && (b == y || b == bottom);
            let ghost p1 = |a: int, b: int| p0(a, b) || (a == gx && b == y);
            let ghost p2 = |a: int, b: int| span_hits(x as int, local_x + 1, a) && (b == y || b == bottom);
            let ghost v0 = system_topology.vram();
            write_global_pixel(system_topology, gx, y, packed);
            let ghost v1 = system_topology.vram();
            proof {
                lemma_points_step(heads, before, v0, v1, p0, p1, gx as int, y as int, packed);
            }
            write_global_pixel(system_topology, gx, bottom, packed);
            proof {
                assert forall|a: int, b: int| #[trigger] p2(a, b) == (p1(a, b) || (a == gx && b == bottom)) by {
                    crate::ui::canvas::lemma_span_step(x as int, local_x as int, a);
                }
                lemma_points_step(heads, before, v1, system_topology.vram(), p1, p2, gx as int, bottom as int, packed);
            }
            local_x = local_x + 1;
        }
        let mut local_y: u32 = 0;
        while local_y < h
            invariant
                local_y <= h,
                w == frame.frame_width_pixels,
                h == frame.frame_height_pixels,
                w > 0 && h > 0,
                x == frame.workspace_position_x,
                y == frame.workspace_position_y,
                bottom == y + wrapped_i32(h as int) - 1,
                right == x + wrapped_i32(w as int) - 1,
                ring_fits(frame),
                system_topology.coordinates_fit(),
                system_topology.heads() == heads,
                system_topology.canvas_width() == old(system_topology).canvas_width(),
                system_topology.canvas_height() == old(system_topology).canvas_height(),
                system_topology.wf() == old(system_topology).wf(),
                before == old(system_topology).vram(),
                heads == old(system_topology).heads(),
                points_painted(
                    heads,
                    before,
                    system_topology.vram(),
                    |a: int, b: int|
                        (span_hits(x as int, w as int, a) && (b == y || b == bottom)) || (span_hits(y as int, local_y as int, b) && (a
                            == x || a == right)),
                    packed,
                ),
            decreases h - local_y,
        {
            let gy = y + crate::ui::framebuffer::counter_as_i32(local_y);
            let ghost p0 = |a: int, b: int|
                (span_hits(x as int, w as int, a) && (b == y || b == bottom)) || (span_hits(y as int, local_y as int, b) && (a == x
                    || a == right));
            let ghost p1 = |a: int, b: int| p0(a, b) || (a == x && b == gy);
            let ghost p2 = |a: int, b: int|
                (span_hits(x as int, w as int, a) && (b == y || b == bottom)) || (span_hits(y as int, local_y + 1, b) && (a == x
                    || a == right));
            let ghost v0 = system_topology.vram();
            write_global_pixel(system_topology, x, gy, packed);
            let ghost v1 = system_topology.vram();
            proof {
                lemma_points_step(heads, before, v0, v1, p0, p1, x as int, gy as int, packed);
            }
            write_global_pixel(system_topology, right, gy, packed);
            proof {
                assert forall|a: int, b: int| #[trigger] p2(a, b) == (p1(a, b) || (a == right && b == gy)) by {
                    crate::ui::canvas::lemma_span_step(y as int, local_y as int, b);
                }
                lemma_points_step(heads, before, v1, system_topology.vram(), p1, p2, right as int, gy as int, packed);
            }
            local_y = local_y + 1;
        }
        proof {
            let done = |a: int, b: int|
                (span_hits(x as int, w as int, a) && (b == y || b == bottom)) || (span_hits(y as int, h as int, b) && (a == x || a
                    == right));
            assert forall|a: int, b: int| #[trigger] done(a, b) == ring(a, b) by {}
            assert(done =~= ring);
        }
    }

    /// Draws the 2-pixel accent border (`on_frame_border`) into the VRAM of every head it
    /// crosses.
    pub fn commit_window_draw_pulses(&self, system_topology: &mut GlobalDisplayTopology, boundary_color: ColorRgb)
        requires
            old(system_topology).coordinates_fit(),
            border_fits(*self),
        ensures
            final(system_topology).heads() == old(system_topology).heads(),
            final(system_topology).canvas_width() == old(system_topology).canvas_width(),
            final(system_topology).canvas_height() == old(system_topology).canvas_height(),
            final(system_topology).wf() == old(system_topology).wf(),
            borders_drawn(
                old(system_topology).heads(),
                old(system_topology).vram(),
                final(system_topology).vram(),
                seq![(*self, packed_rgb(boundary_color))],
            ),
    {
        let packed = pack_rgb(boundary_color);
        let ghost heads = system_topology.heads();
        let ghost before = system_topology.vram();
        let ghost frame = *self;
        self.draw_ring(system_topology, packed);
        let ghost mid = system_topology.vram();
        let w = self.frame_width_pixels;
        let h = self.frame_height_pixels;
        let inner = if w > 2 && h > 2 {
            StructuralWindowFrame {
                application_title_id: self.application_title_id,
                workspace_position_x: self.workspace_position_x + 1,
                workspace_position_y: self.workspace_position_y + 1,
                frame_width_pixels: w - 2,
                frame_height_pixels: h - 2,
                primary_placement_rule: self.primary_placement_rule,
            }
        } else {
            StructuralWindowFrame {
                application_title_id: self.application_title_id,
                workspace_position_x: self.workspace_position_x,
                workspace_position_y: self.workspace_position_y,
                frame_width_pixels: 0,
                frame_height_pixels: h,
                primary_placement_rule: self.primary_placement_rule,
            }
        };
        assert(inner == inset_frame(frame));
        inner.draw_ring(system_topology, packed);
        proof {
            let outer_ring = |a: int, b: int| on_frame_ring(frame, a, b);
            let inner_ring = |a: int, b: int| on_frame_ring(inner, a, b);
            lemma_points_union(heads, before, mid, system_topology.vram(), outer_ring, inner_ring, packed);
            let done = |a: int, b: int| outer_ring(a, b) || inner_ring(a, b);
            let after = system_topology.vram();
            assert forall|i: int, o: int| 0 <= i < before.len() && 0 <= o < before[i].len() implies #[trigger] after[i][o]
                == cell_after_borders(heads, before[i][o], seq![(frame, packed)], i, o) by {
                assert(seq![(frame, packed)].drop_last() =~= Seq::<(StructuralWindowFrame, u32)>::empty());
                assert(seq![(frame, packed)].last() == (frame, packed));
                assert(cell_after_borders(heads, before[i][o], Seq::<(StructuralWindowFrame, u32)>::empty(), i, o) == before[i][o]);
                assert(after[i][o] == if hit_by(heads, done, i, o) { packed } else { before[i][o] });
                if hit_by(heads, done, i, o) {
                    let (a, b) = choose|a: int, b: int| done(a, b) && #[trigger] pixel_target(heads, a, b) == Some((i, o));
                    assert(on_frame_border(frame, a, b));
                    assert(border_hits_cell(heads, frame, i, o));
                }
                if border_hits_cell(heads, frame, i, o) {
                    let (a, b) = choose|a: int, b: int| on_frame_border(frame, a, b) && #[trigger] pixel_target(heads, a, b) == Some((i, o));
                    assert(done(a, b));
                    assert(hit_by(heads, done, i, o));
                }
            }
        }
    }
}

/// Registry of pinned windows for the session.
pub struct WindowPinRegistry {
    pub frames: Vec<StructuralWindowFrame>,
}

impl WindowPinRegistry {
    pub fn new() -> (registry: Self)
        ensures
            registry.frames@ == Seq::<StructuralWindowFrame>::empty(),
    {
        WindowPinRegistry { frames: Vec::new() }
    }

    pub fn clear(&mut self)
        ensures
            final(self).frames@ == Seq::<StructuralWindowFrame>::empty(),
    {
        self.frames.clear();
    }

    pub fn register(&mut self, frame: StructuralWindowFrame)
        ensures
            final(self).frames@ == old(self).frames@.push(frame),
    {
        self.frames.push(frame);
    }

    /// Places every frame by its rule.
    pub fn place_all(&mut self, topology: &GlobalDisplayTopology)
        requires
            forall|i: int| 0 <= i < old(self).frames@.len() ==> placement_fits(#[trigger] old(self).frames@[i].primary_placement_rule, topology.heads()),
        ensures
            final(self).frames@.len() == old(self).frames@.len(),
            forall|i: int| 0 <= i < old(self).frames@.len() ==> #[trigger] final(self).frames@[i] == placed(
                old(self).frames@[i],
                topology.heads(),
                topology.canvas_width(),
                topology.canvas_height(),
            ),
    {
        let mut i: usize = 0;
        while i < self.frames.len()
            invariant
                i <= self.frames@.len(),
                self.frames@.len() == old(self).frames@.len(),
                forall|j: int| 0 <= j < old(self).frames@.len() ==> placement_fits(#[trigger] old(self).frames@[j].primary_placement_rule, topology.heads()),
                forall|j: int| i <= j < self.frames@.len() ==> #[trigger] self.frames@[j] == old(self).frames@[j],
                forall|j: int| 0 <= j < i ==> #[trigger] self.frames@[j] == placed(
                    old(self).frames@[j],
                    topology.heads(),
                    topology.canvas_width(),
                    topology.canvas_height(),
                ),
            decreases self.frames@.len() - i,
        {
            let mut frame = self.frames[i];
            frame.calculate_automated_placement(topology);
            self.frames.set(i, frame);
            i = i + 1;
        }
    }

    /// Draws the border of every frame in one colour, in registration order.
    pub fn commit_all(&self, topology: &mut GlobalDisplayTopology, color: ColorRgb)
        requires
            old(topology).coordinates_fit(),
            forall|i: int| 0 <= i < self.frames@.len() ==> border_fits(#[trigger] self.frames@[i]),
        ensures
            final(topology).heads() == old(topology).heads(),
            final(topology).canvas_width() == old(topology).canvas_width(),
            final(topology).canvas_height() == old(topology).canvas_height(),
            final(topology).wf() == old(topology).wf(),
            borders_drawn(
                old(topology).heads(),
                old(topology).vram(),
                final(topology).vram(),
                self.frames@.map_values(|f: StructuralWindowFrame| (f, packed_rgb(color))),
            ),
    {
        let ghost heads = topology.heads();
        let ghost before = topology.vram();
        let ghost all = self.frames@.map_values(|f: StructuralWindowFrame| (f, packed_rgb(color)));
        assert(all.subrange(0, 0) =~= Seq::<(StructuralWindowFrame, u32)>::empty());
        let mut i: usize = 0;
        while i < self.frames.len()
            invariant
                i <= self.frames@.len(),
                all == self.frames@.map_values(|f: StructuralWindowFrame| (f, packed_rgb(color))),
                forall|j: int| 0 <= j < self.frames@.len() ==> border_fits(#[trigger] self.frames@[j]),
                topology.coordinates_fit(),
                topology.heads() == heads,
                heads == old(topology).heads(),
                before == old(topology).vram(),
                topology.canvas_width() == old(topology).canvas_width(),
                topology.canvas_height() == old(topology).canvas_height(),
                topology.wf() == old(topology).wf(),
                borders_drawn(heads, before, topology.vram(), all.subrange(0, i as int)),
            decreases self.frames@.len() - i,
        {
            let ghost mid = topology.vram();
            self.frames[i].commit_window_draw_pulses(topology, color);
            proof {
                lemma_borders_compose(heads, before, mid, topology.vram(), all.subrange(0, i as int), seq![(self.frames@[i as int], packed_rgb(color))]);
                assert(all.subrange(0, i as int) + seq![(self.frames@[i as int], packed_rgb(color))] =~= all.subrange(0, i + 1));
            }
            i = i + 1;
        }
        assert(all.subrange(0, self.frames@.len() as int) =~= all);
    }
}

/// Law: placing twice by a strict monitor index gives the same frame as placing once.
pub proof fn law_strict_placement_idempotent(frame: StructuralWindowFrame, heads: Seq<PhysicalMonitorHead>, w: u32, h: u32)
    requires
        frame.primary_placement_rule is StrictMonitorIndex,
    ensures
        placed(placed(frame, heads, w, h), heads, w, h) == placed(frame, heads, w, h),
{
}

/// Law: a strictly pinned frame never exceeds its monitor less the 8-pixel margin.
pub proof fn law_strict_placement_fits_monitor(frame: StructuralWindowFrame, heads: Seq<PhysicalMonitorHead>, w: u32, h: u32, i: int)
    requires
        frame.primary_placement_rule matches ApplicationPinRule::StrictMonitorIndex(t) && first_head_with_index(heads, t, 0)
            == Some(i),
        0 <= i < heads.len(),
    ensures
        placed(frame, heads, w, h).frame_width_pixels <= frame.frame_width_pixels,
        placed(frame, heads, w, h).frame_width_pixels + 8 <= heads[i].resolution_width_pixels
            || placed(frame, heads, w, h).frame_width_pixels == 0,
        placed(frame, heads, w, h).workspace_position_x == heads[i].global_coordinate_offset_x,
{
}

proof fn lemma_first_head_with_index_found(heads: Seq<PhysicalMonitorHead>, target: u32, i: int, from: int)
    requires
        0 <= from <= i < heads.len(),
        heads[i].monitor_hardware_index == target,
        forall|j: int| 0 <= j < i ==> (#[trigger] heads[j]).monitor_hardware_index != target,
    ensures
        first_head_with_index(heads, target, from) == Some(i),
    decreases i - from,
{
    if from < i {
        lemma_first_head_with_index_found(heads, target, i, from + 1);
    }
}

proof fn lemma_first_head_with_index_absent(heads: Seq<PhysicalMonitorHead>, target: u32, from: int)
    requires
        0 <= from,
        forall|j: int| 0 <= j < heads.len() ==> (#[trigger] heads[j]).monitor_hardware_index != target,
    ensures
        first_head_with_index(heads, target, from) is None,
    decreases heads.len() - from,
{
    if from < heads.len() {
        lemma_first_head_with_index_absent(heads, target, from + 1);
    }
}

/// Law: a strict pin to monitor index `t` moves the frame to the top-left corner of the
/// first head with hardware index `t`, shrinks it to that head less an 8-pixel margin (a
/// frame that already fits keeps its size), and keeps its title and rule.
pub proof fn law_strict_placement_moves_to_monitor(
    frame: StructuralWindowFrame,
    heads: Seq<PhysicalMonitorHead>,
    w: u32,
    h: u32,
    t: u32,
    i: int,
)
    requires
        frame.primary_placement_rule == ApplicationPinRule::StrictMonitorIndex(t),
        0 <= i < heads.len(),
        heads[i].monitor_hardware_index == t,
        forall|j: int| 0 <= j < i ==> (#[trigger] heads[j]).monitor_hardware_index != t,
    ensures
        placed(frame, heads, w, h).workspace_position_x == heads[i].global_coordinate_offset_x,
        placed(frame, heads, w, h).workspace_position_y == heads[i].global_coordinate_offset_y,
        frame.frame_width_pixels + 8 <= heads[i].resolution_width_pixels ==> placed(frame, heads, w, h).frame_width_pixels
            == frame.frame_width_pixels,
        frame.frame_width_pixels + 8 > heads[i].resolution_width_pixels ==> placed(frame, heads, w, h).frame_width_pixels
            == if heads[i].resolution_width_pixels >= 8 { heads[i].resolution_width_pixels - 8 } else { 0 },
        frame.frame_height_pixels + 8 <= heads[i].resolution_height_pixels ==> placed(frame, heads, w, h).frame_height_pixels
            == frame.frame_height_pixels,
        frame.frame_height_pixels + 8 > heads[i].resolution_height_pixels ==> placed(frame, heads, w, h).frame_height_pixels
            == if heads[i].resolution_height_pixels >= 8 { heads[i].resolution_height_pixels - 8 } else { 0 },
        placed(frame, heads, w, h).application_title_id == frame.application_title_id,
        placed(frame, heads, w, h).primary_placement_rule == frame.primary_placement_rule,
{
    lemma_first_head_with_index_found(heads, t, i, 0);
}

/// Law: a strict pin to a monitor index that no head has leaves the frame as it was.
pub proof fn law_strict_placement_without_monitor(frame: StructuralWindowFrame, heads: Seq<PhysicalMonitorHead>, w: u32, h: u32, t: u32)
    requires
        frame.primary_placement_rule == ApplicationPinRule::StrictMonitorIndex(t),
        forall|j: int| 0 <= j < heads.len() ==> (#[trigger] heads[j]).monitor_hardware_index != t,
    ensures
        placed(frame, heads, w, h) == frame,
{
    lemma_first_head_with_index_absent(heads, t, 0);
}

/// Law: the fastest-display rule moves the frame 16 pixels into the head with the highest
/// refresh rate (the last of equals), keeping its size, title and rule.
pub proof fn law_fastest_placement_uses_fastest_head(
    frame: StructuralWindowFrame,
    heads: Seq<PhysicalMonitorHead>,
    w: u32,
    h: u32,
    k: int,
)
    requires
        frame.primary_placement_rule == ApplicationPinRule::HighestPerformanceDisplay,
        0 <= k < heads.len(),
        forall|j: int| 0 <= j < heads.len() ==> (#[trigger] heads[j]).hardware_refresh_rate_hz <= heads[k].hardware_refresh_rate_hz,
        forall|j: int| k < j < heads.len() ==> (#[trigger] heads[j]).hardware_refresh_rate_hz < heads[k].hardware_refresh_rate_hz,
        heads[k].global_coordinate_offset_x + 16 <= i32::MAX,
        heads[k].global_coordinate_offset_y + 16 <= i32::MAX,
    ensures
        placed(frame, heads, w, h).workspace_position_x == heads[k].global_coordinate_offset_x + 16,
        placed(frame, heads, w, h).workspace_position_y == heads[k].global_coordinate_offset_y + 16,
        placed(frame, heads, w, h).frame_width_pixels == frame.frame_width_pixels,
        placed(frame, heads, w, h).frame_height_pixels == frame.frame_height_pixels,
        placed(frame, heads, w, h).application_title_id == frame.application_title_id,
        placed(frame, heads, w, h).primary_placement_rule == frame.primary_placement_rule,
{
    let n = heads.len() as int;
    law_highest_refresh_is_last_maximum(heads, n);
    let b = highest_refresh_index(heads, n);
    if b < k {
        assert(heads[k].hardware_refresh_rate_hz < heads[b].hardware_refresh_rate_hz);
        assert(heads[b].hardware_refresh_rate_hz <= heads[k].hardware_refresh_rate_hz);
    } else if k < b {
        assert(heads[b].hardware_refresh_rate_hz < heads[k].hardware_refresh_rate_hz);
        assert(heads[k].hardware_refresh_rate_hz <= heads[b].hardware_refresh_rate_hz);
    }
}

/// Law: whenever there is a head, the fastest-display rule lands the frame 16 pixels into a
/// head whose refresh rate is the highest of all and that no later head matches.
pub proof fn law_fastest_placement_exists(frame: StructuralWindowFrame, heads: Seq<PhysicalMonitorHead>, w: u32, h: u32)
    requires
        frame.primary_placement_rule == ApplicationPinRule::HighestPerformanceDisplay,
        heads.len() > 0,
        forall|j: int| 0 <= j < heads.len() ==> (#[trigger] heads[j]).global_coordinate_offset_x + 16 <= i32::MAX
            && heads[j].global_coordinate_offset_y + 16 <= i32::MAX,
    ensures
        exists|k: int|
            0 <= k < heads.len() && (forall|j: int| 0 <= j < heads.len() ==> (#[trigger] heads[j]).hardware_refresh_rate_hz
                <= heads[k].hardware_refresh_rate_hz) && (forall|j: int| k < j < heads.len() ==> (#[trigger] heads[j]).hardware_refresh_rate_hz
                < heads[k].hardware_refresh_rate_hz) && #[trigger] heads[k].global_coordinate_offset_x + 16 == placed(frame, heads, w, h).workspace_position_x
                && heads[k].global_coordinate_offset_y + 16 == placed(frame, heads, w, h).workspace_position_y,
{
    let n = heads.len() as int;
    law_highest_refresh_is_last_maximum(heads, n);
    let b = highest_refresh_index(heads, n);
    law_fastest_placement_uses_fastest_head(frame, heads, w, h, b);
    assert(heads[b].global_coordinate_offset_x + 16 == placed(frame, heads, w, h).workspace_position_x);
}

} // verus!
