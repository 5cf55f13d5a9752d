//! Unified Virtual Coordinate Topology: all monitors stitched into one desktop canvas,
//! laid out left to right.
use vstd::prelude::*;

verus! {

/// Boundaries and VRAM layout of one physical display head.
#[derive(Clone, Copy, Debug)]
pub struct PhysicalMonitorHead {
    pub monitor_hardware_index: u32,
    /// Where the head's VRAM lives: `None` for a kernel store only; `Some(address)` for a
    /// firmware-mapped framebuffer that the kernel store is copied to. A mapping at the null
    /// address has no VRAM: nothing is drawn to or composited from it.
    pub video_memory_base_address: Option<usize>,
    pub resolution_width_pixels: u32,
    pub resolution_height_pixels: u32,
    pub pixels_per_scan_line: u32,
    pub global_coordinate_offset_x: i32,
    pub global_coordinate_offset_y: i32,
    pub hardware_refresh_rate_hz: u32,
}

/// Whether a head's right and bottom edges are representable as `i32` coordinates.
pub open spec fn head_bounds_fit(h: PhysicalMonitorHead) -> bool {
    &&& i32::MIN <= h.global_coordinate_offset_x + (h.resolution_width_pixels as i32) <= i32::MAX
    &&& i32::MIN <= h.global_coordinate_offset_y + (h.resolution_height_pixels as i32) <= i32::MAX
}

/// Row stride used to address a head's pixels: never less than its width.
pub open spec fn head_stride(h: PhysicalMonitorHead) -> int {
    if h.pixels_per_scan_line >= h.resolution_width_pixels {
        h.pixels_per_scan_line as int
    } else {
        h.resolution_width_pixels as int
    }
}

/// Whether every local pixel offset of the head fits in a `u32`.
pub open spec fn head_offsets_fit(h: PhysicalMonitorHead) -> bool {
    h.resolution_width_pixels > 0 && h.resolution_height_pixels > 0 ==> (h.resolution_height_pixels - 1) * head_stride(h)
        + (h.resolution_width_pixels - 1) <= u32::MAX
}

/// Whether the global point lies on the head (half-open on the right and bottom edges).
pub open spec fn head_contains(h: PhysicalMonitorHead, global_x: int, global_y: int) -> bool {
    &&& h.global_coordinate_offset_x <= global_x
    &&& global_x < h.global_coordinate_offset_x + (h.resolution_width_pixels as i32)
    &&& h.global_coordinate_offset_y <= global_y
    &&& global_y < h.global_coordinate_offset_y + (h.resolution_height_pixels as i32)
}

/// Position of the first head at or after `from` that contains the global point.
pub open spec fn first_head_containing(heads: Seq<PhysicalMonitorHead>, global_x: int, global_y: int, from: int) -> Option<int>
    decreases heads.len() - from,
{
    if from < 0 || from >= heads.len() {
        None
    } else if head_contains(heads[from], global_x, global_y) {
        Some(from)
    } else {
        first_head_containing(heads, global_x, global_y, from + 1)
    }
}

/// The head a global point falls on, with the point's local coordinates on it.
pub open spec fn resolved(heads: Seq<PhysicalMonitorHead>, global_x: int, global_y: int) -> Option<(PhysicalMonitorHead, u32, u32)> {
    match first_head_containing(heads, global_x, global_y, 0) {
        Some(i) => Some(
            (
                heads[i],
                (global_x - heads[i].global_coordinate_offset_x) as u32,
                (global_y - heads[i].global_coordinate_offset_y) as u32,
            ),
        ),
        None => None,
    }
}

/// Whether the head has VRAM to draw to: it is not a firmware mapping at the null address.
pub open spec fn head_has_vram(h: PhysicalMonitorHead) -> bool {
    h.video_memory_base_address != Some(0usize)
}

/// The head position and VRAM cell a global point addresses; none when the point is off
/// every head or its head has no VRAM.
pub open spec fn pixel_target(heads: Seq<PhysicalMonitorHead>, global_x: int, global_y: int) -> Option<(int, int)> {
    match first_head_containing(heads, global_x, global_y, 0) {
        Some(i) => if !head_has_vram(heads[i]) {
            None
        } else {
            Some(
                (
                    i,
                    (global_y - heads[i].global_coordinate_offset_y) * head_stride(heads[i]) + (global_x
                        - heads[i].global_coordinate_offset_x),
                ),
            )
        },
        None => None,
    }
}

/// Position of the last head with the highest refresh rate among the first `n` heads.
pub open spec fn highest_refresh_index(heads: Seq<PhysicalMonitorHead>, n: int) -> int
    decreases n,
{
    if n <= 1 {
        0
    } else {
        let best = highest_refresh_index(heads, n - 1);
        if heads[n - 1].hardware_refresh_rate_hz >= heads[best].hardware_refresh_rate_hz {
            n - 1
        } else {
            best
        }
    }
}

/// The head a new registration appends.
pub open spec fn registered_head(
    index: u32,
    address: Option<usize>,
    width: u32,
    height: u32,
    stride: u32,
    offset_x: u32,
    refresh_hz: u32,
) -> PhysicalMonitorHead {
    PhysicalMonitorHead {
        monitor_hardware_index: index,
        video_memory_base_address: address,
        resolution_width_pixels: width,
        resolution_height_pixels: height,
        pixels_per_scan_line: stride,
        global_coordinate_offset_x: offset_x as i32,
        global_coordinate_offset_y: 0,
        hardware_refresh_rate_hz: refresh_hz,
    }
}

/// Number of pixels in a `width` x `height` buffer, saturating at `usize::MAX`.
pub open spec fn saturating_pixel_count(width: u32, height: u32) -> usize {
    if width as int * height as int > usize::MAX {
        usize::MAX
    } else {
        (width as int * height as int) as usize
    }
}

/// Words in a head's VRAM store: a full stride for each of its rows (saturating).
pub open spec fn vram_words(h: PhysicalMonitorHead) -> usize {
    saturating_pixel_count(head_stride(h) as u32, h.resolution_height_pixels)
}

/// A zeroed VRAM store of `count` words.
pub open spec fn zeroed_vram(count: usize) -> Seq<u32> {
    Seq::new(count as nat, |i: int| 0u32)
}

/// Stitches every connected head into a single virtual canvas.
pub struct GlobalDisplayTopology {
    pub attached_monitor_heads: Vec<PhysicalMonitorHead>,
    /// VRAM stores, one per head, a full stride for each row.
    frame_buffers: Vec<Vec<u32>>,
    pub combined_virtual_width: u32,
    pub combined_virtual_height: u32,
}

impl GlobalDisplayTopology {
    pub closed spec fn heads(&self) -> Seq<PhysicalMonitorHead> {
        self.attached_monitor_heads@
    }

    /// VRAM contents, one store per head.
    pub closed spec fn vram(&self) -> Seq<Seq<u32>> {
        self.frame_buffers@.map_values(|b: Vec<u32>| b@)
    }

    pub closed spec fn canvas_width(&self) -> u32 {
        self.combined_virtual_width
    }

    pub closed spec fn canvas_height(&self) -> u32 {
        self.combined_virtual_height
    }


    /// One VRAM store per head, holding a full stride for each of the head's rows.
    pub closed spec fn wf(&self) -> bool {
        &&& self.frame_buffers@.len() == self.attached_monitor_heads@.len()
        &&& forall|i: int|
            0 <= i < self.frame_buffers@.len() ==> (#[trigger] self.frame_buffers@[i])@.len() == vram_words(
                self.attached_monitor_heads@[i],
            )
    }

    /// Whether every head's right and bottom edges are representable.
    pub open spec fn bounds_fit(&self) -> bool {
        forall|i: int| 0 <= i < self.heads().len() ==> head_bounds_fit(#[trigger] self.heads()[i])
    }

    /// Whether every head's edges and pixel offsets are representable.
    pub open spec fn coordinates_fit(&self) -> bool {
        forall|i: int| 0 <= i < self.heads().len() ==> head_bounds_fit(#[trigger] self.heads()[i])
            && head_offsets_fit(self.heads()[i])
    }

    pub fn new() -> (topology: Self)
        ensures
            topology.wf(),
            topology.heads() == Seq::<PhysicalMonitorHead>::empty(),
            topology.vram() == Seq::<Seq<u32>>::empty(),
            topology.canvas_width() == 0,
            topology.canvas_height() == 0,
    {
        let t = GlobalDisplayTopology {
            attached_monitor_heads: Vec::new(),
            frame_buffers: Vec::new(),
            combined_virtual_width: 0,
            combined_virtual_height: 0,
        };
        assert(t.vram() =~= Seq::<Seq<u32>>::empty());
        t
    }

    /// Appends a head and its zeroed VRAM store, laid out to the right of the canvas.
    fn append_head(&mut self, vram_address: Option<usize>, width: u32, height: u32, scan_line_stride: u32, refresh_hz: u32) -> (index: u32)
        requires
            old(self).canvas_width() + width <= u32::MAX,
        ensures
            final(self).wf() == old(self).wf(),
            index == old(self).heads().len() as u32,
            final(self).heads() == old(self).heads().push(
                registered_head(index, vram_address, width, height, scan_line_stride, old(self).canvas_width(), refresh_hz),
            ),
            final(self).vram() == old(self).vram().push(zeroed_vram(vram_words(final(self).heads().last()))),
            final(self).canvas_width() == old(self).canvas_width() + width,
            final(self).canvas_height() == if height > old(self).canvas_height() { height } else { old(self).canvas_height() },
    {
        let stride = if scan_line_stride >= width { scan_line_stride } else { width };
        let s = stride as usize;
        let h = height as usize;
        let pixel_count: usize = if h != 0 && s > usize::MAX / h {
            proof {
                vstd::arithmetic::div_mod::lemma_div_is_ordered_by_denominator(usize::MAX as int, 1, h as int);
                assert(s as int * h as int > usize::MAX) by (nonlinear_arith)
                    requires
                        h > 0,
                        s > usize::MAX / h,
                ;
            }
            usize::MAX
        } else {
            proof {
                if h != 0 {
                    assert(s as int * h as int <= usize::MAX) by (nonlinear_arith)
                        requires
                            h > 0,
                            s <= usize::MAX / h,
                    ;
                }
            }
            s * h
        };
        let buffer: Vec<u32> = vec![0u32; pixel_count];
        let ghost b = buffer;
        let unique_index = self.attached_monitor_heads.len() as u32;
        let offset_x = self.combined_virtual_width as i32;
        let head = PhysicalMonitorHead {
            monitor_hardware_index: unique_index,
            video_memory_base_address: vram_address,
            resolution_width_pixels: width,
            resolution_height_pixels: height,
            pixels_per_scan_line: scan_line_stride,
            global_coordinate_offset_x: offset_x,
            global_coordinate_offset_y: 0,
            hardware_refresh_rate_hz: refresh_hz,
        };
        assert(pixel_count == vram_words(head));
        self.frame_buffers.push(buffer);
        self.attached_monitor_heads.push(head);
        self.combined_virtual_width = self.combined_virtual_width + width;
        if height > self.combined_virtual_height {
            self.combined_virtual_height = height;
        }
        assert(b@ =~= zeroed_vram(vram_words(head)));
        assert(self.vram() =~= old(self).vram().push(b@));
        proof {
            if old(self).wf() {
                assert forall|i: int| 0 <= i < self.frame_buffers@.len() implies (#[trigger] self.frame_buffers@[i])@.len()
                    == vram_words(self.attached_monitor_heads@[i]) by {
                    if i < old(self).frame_buffers@.len() {
                        assert(self.frame_buffers@[i] == old(self).frame_buffers@[i]);
                        assert(self.attached_monitor_heads@[i] == old(self).attached_monitor_heads@[i]);
                    }
                }
            }
            if self.wf() {
                assert forall|i: int| 0 <= i < old(self).frame_buffers@.len() implies (#[trigger] old(self).frame_buffers@[i])@.len()
                    == vram_words(old(self).attached_monitor_heads@[i]) by {
                    assert(self.frame_buffers@[i] == old(self).frame_buffers@[i]);
                    assert(self.attached_monitor_heads@[i] == old(self).attached_monitor_heads@[i]);
                }
            }
        }
        unique_index
    }

    /// Registers a monitor with a zeroed kernel-owned VRAM store of a full stride
    /// (`max(scan_line_stride, width)` words) per row, laid out to the right of the canvas.
    /// Returns the new head's index.
    pub fn register_monitor_head(&mut self, width: u32, height: u32, scan_line_stride: u32, refresh_hz: u32) -> (index: u32)
        requires
            old(self).canvas_width() + width <= u32::MAX,
        ensures
            final(self).wf() == old(self).wf(),
            index == old(self).heads().len() as u32,
            final(self).heads() == old(self).heads().push(
                registered_head(index, None, width, height, scan_line_stride, old(self).canvas_width(), refresh_hz),
            ),
            final(self).vram() == old(self).vram().push(zeroed_vram(vram_words(final(self).heads().last()))),
            final(self).canvas_width() == old(self).canvas_width() + width,
            final(self).canvas_height() == if height > old(self).canvas_height() { height } else { old(self).canvas_height() },
    {
        self.append_head(None, width, height, scan_line_stride, refresh_hz)
    }

    /// Registers a head whose VRAM is mapped by firmware at `vram_address` (e.g. a GOP
    /// framebuffer). The topology keeps a zeroed store of the same layout for it, which the
    /// kernel copies to the mapped address.
    pub fn register_monitor_head_external(
        &mut self,
        vram_address: usize,
        width: u32,
        height: u32,
        scan_line_stride: u32,
        refresh_hz: u32,
    ) -> (index: u32)
        requires
            old(self).canvas_width() + width <= u32::MAX,
        ensures
            final(self).wf() == old(self).wf(),
            index == old(self).heads().len() as u32,
            final(self).heads() == old(self).heads().push(
                registered_head(index, Some(vram_address), width, height, scan_line_stride, old(self).canvas_width(), refresh_hz),
            ),
            final(self).vram() == old(self).vram().push(zeroed_vram(vram_words(final(self).heads().last()))),
            final(self).canvas_width() == old(self).canvas_width() + width,
            final(self).canvas_height() == if height > old(self).canvas_height() { height } else { old(self).canvas_height() },
    {
        self.append_head(Some(vram_address), width, height, scan_line_stride, refresh_hz)
    }

    /// Position of the first head containing the global point.
    fn resolve_index(&self, global_x: i32, global_y: i32) -> (found: Option<usize>)
        requires
            self.bounds_fit(),
        ensures
            found matches Some(i) ==> first_head_containing(self.heads(), global_x as int, global_y as int, 0) == Some(i as int),
            found is None ==> first_head_containing(self.heads(), global_x as int, global_y as int, 0) is None,
    {
        let mut i: usize = 0;
        while i < self.attached_monitor_heads.len()
            invariant
                i <= self.heads().len(),
                self.bounds_fit(),
                first_head_containing(self.heads(), global_x as int, global_y as int, 0)
                    == first_head_containing(self.heads(), global_x as int, global_y as int, i as int),
            decreases self.heads().len() - i,
        {
            let monitor = self.attached_monitor_heads[i];
            assert(head_bounds_fit(self.heads()[i as int]));
            let left = monitor.global_coordinate_offset_x;
            let right = monitor.global_coordinate_offset_x + monitor.resolution_width_pixels as i32;
            let top = monitor.global_coordinate_offset_y;
            let bottom = monitor.global_coordinate_offset_y + monitor.resolution_height_pixels as i32;
            if global_x >= left && global_x < right && global_y >= top && global_y < bottom {
                return Some(i);
            }
            i = i + 1;
        }
        None
    }

    /// Maps a global point to the head it falls on and the local coordinates on that head.
    pub fn resolve_physical_coordinates(&self, global_x: i32, global_y: i32) -> (found: Option<(PhysicalMonitorHead, u32, u32)>)
        requires
            self.bounds_fit(),
        ensures
            found == resolved(self.heads(), global_x as int, global_y as int),
    {
        match self.resolve_index(global_x, global_y) {
            Some(i) => {
                proof {
                    law_resolution_is_first_match(self.heads(), global_x as int, global_y as int, 0);
                }
                let monitor = self.attached_monitor_heads[i];
                let local_x = (global_x - monitor.global_coordinate_offset_x) as u32;
                let local_y = (global_y - monitor.global_coordinate_offset_y) as u32;
                Some((monitor, local_x, local_y))
            },
            None => None,
        }
    }

    /// Width and height of the unified canvas.
    pub fn virtual_canvas(&self) -> (dimensions: (u32, u32))
        ensures
            dimensions == (self.canvas_width(), self.canvas_height()),
    {
        (self.combined_virtual_width, self.combined_virtual_height)
    }

    pub fn head_count(&self) -> (count: usize)
        ensures
            count == self.heads().len(),
    {
        self.attached_monitor_heads.len()
    }

    /// The head with the highest refresh rate (the last one among equals).
    pub fn highest_refresh_head(&self) -> (best: Option<PhysicalMonitorHead>)
        ensures
            self.heads().len() == 0 ==> best is None,
            self.heads().len() > 0 ==> best == Some(self.heads()[highest_refresh_index(self.heads(), self.heads().len() as int)]),
    {
        let n = self.attached_monitor_heads.len();
        if n == 0 {
            return None;
        }
        let mut best: usize = 0;
        let mut i: usize = 1;
        while i < n
            invariant
                1 <= i <= n,
                best < i,
                n == self.heads().len(),
                best == highest_refresh_index(self.heads(), i as int),
            decreases n - i,
        {
            if self.attached_monitor_heads[i].hardware_refresh_rate_hz >= self.attached_monitor_heads[best].hardware_refresh_rate_hz {
                best = i;
            }
            i = i + 1;
        }
        Some(self.attached_monitor_heads[best])
    }

    /// Exec view of the head at a position.
    pub fn head_at(&self, i: usize) -> (head: PhysicalMonitorHead)
        requires
            i < self.heads().len(),
        ensures
            head == self.heads()[i as int],
    {
        self.attached_monitor_heads[i]
    }

    /// The VRAM store of a head, e.g. to copy it to a firmware-mapped framebuffer.
    pub fn head_vram(&self, head: usize) -> (store: Option<&[u32]>)
        ensures
            store is Some == (head < self.vram().len()),
            store matches Some(words) ==> words@ == self.vram()[head as int],
    {
        if head < self.frame_buffers.len() {
            Some(self.frame_buffers[head].as_slice())
        } else {
            None
        }
    }

    /// Reads a VRAM cell of a head's store; `None` outside it.
    pub fn read_vram(&self, head: usize, offset: usize) -> (value: Option<u32>)
        ensures
            (head < self.vram().len() && offset < self.vram()[head as int].len()) ==> value == Some(
                self.vram()[head as int][offset as int],
            ),
            !(head < self.vram().len() && offset < self.vram()[head as int].len()) ==> value is None,
    {
        if head < self.frame_buffers.len() && offset < self.frame_buffers[head].len() {
            Some(self.frame_buffers[head][offset])
        } else {
            None
        }
    }

    /// Writes a VRAM cell of a head's store; does nothing outside it.
    pub fn write_vram(&mut self, head: usize, offset: usize, value: u32)
        ensures
            final(self).heads() == old(self).heads(),
            final(self).canvas_width() == old(self).canvas_width(),
            final(self).canvas_height() == old(self).canvas_height(),
            final(self).wf() == old(self).wf(),
            final(self).vram().len() == old(self).vram().len(),
            forall|i: int| 0 <= i < old(self).vram().len() ==> #[trigger] final(self).vram()[i].len() == old(self).vram()[i].len(),
            forall|i: int, o: int|
                0 <= i < old(self).vram().len() && 0 <= o < old(self).vram()[i].len() ==> #[trigger] final(self).vram()[i][o]
                    == if i == head && o == offset { value } else { old(self).vram()[i][o] },
    {
        if head < self.frame_buffers.len() && offset < self.frame_buffers[head].len() {
            let mut buffer: Vec<u32> = Vec::new();
            core::mem::swap(&mut buffer, &mut self.frame_buffers[head]);
            buffer.set(offset, value);
            let ghost b = buffer;
            self.frame_buffers.set(head, buffer);
            assert(self.vram() =~= old(self).vram().update(head as int, old(self).vram()[head as int].update(offset as int, value)));
            proof {
                assert forall|i: int| 0 <= i < self.frame_buffers@.len() implies (#[trigger] self.frame_buffers@[i])@.len()
                    == old(self).frame_buffers@[i]@.len() by {
                    if i != head {
                        assert(self.frame_buffers@[i] == old(self).frame_buffers@[i]);
                    }
                }
                if old(self).wf() {
                    assert forall|i: int| 0 <= i < self.frame_buffers@.len() implies (#[trigger] self.frame_buffers@[i])@.len()
                        == vram_words(self.attached_monitor_heads@[i]) by {
                        assert(old(self).frame_buffers@[i]@.len() == vram_words(old(self).attached_monitor_heads@[i]));
                    }
                }
                if self.wf() {
                    assert forall|i: int| 0 <= i < old(self).frame_buffers@.len() implies (#[trigger] old(self).frame_buffers@[i])@.len()
                        == vram_words(old(self).attached_monitor_heads@[i]) by {
                        assert(self.frame_buffers@[i]@.len() == vram_words(self.attached_monitor_heads@[i]));
                    }
                }
            }
        }
    }
}

/// Total width of the first `n` heads.
pub open spec fn widths_sum(heads: Seq<PhysicalMonitorHead>, n: int) -> int
    decreases n,
{
    if n <= 0 {
        0
    } else {
        widths_sum(heads, n - 1) + heads[n - 1].resolution_width_pixels
    }
}

/// Heads stitched left to right: each head `i` has hardware index `i`, sits on the top edge,
/// starts where the heads before it end, and the canvas is exactly as wide as all of them.
pub open spec fn stitched(heads: Seq<PhysicalMonitorHead>, canvas_width: int) -> bool {
    &&& canvas_width == widths_sum(heads, heads.len() as int)
    &&& forall|i: int|
        0 <= i < heads.len() ==> (#[trigger] heads[i]).monitor_hardware_index == i && heads[i].global_coordinate_offset_y == 0
            && heads[i].global_coordinate_offset_x == widths_sum(heads, i)
}

/// Law: registering a head keeps the canvas stitched left to right, as long as the canvas
/// stays within the positive `i32` range.
pub proof fn law_registration_keeps_stitching(
    heads: Seq<PhysicalMonitorHead>,
    canvas_width: u32,
    address: Option<usize>,
    width: u32,
    height: u32,
    stride: u32,
    refresh_hz: u32,
)
    requires
        stitched(heads, canvas_width as int),
        canvas_width + width <= i32::MAX,
        heads.len() < u32::MAX,
    ensures
        stitched(
            heads.push(registered_head(heads.len() as u32, address, width, height, stride, canvas_width, refresh_hz)),
            canvas_width + width,
        ),
{
    let next = heads.push(registered_head(heads.len() as u32, address, width, height, stride, canvas_width, refresh_hz));
    assert forall|i: int| 0 <= i <= heads.len() implies #[trigger] widths_sum(next, i) == widths_sum(heads, i) by {
        lemma_widths_sum_prefix(heads, next, i);
    }
    assert(widths_sum(next, heads.len() as int) == widths_sum(heads, heads.len() as int));
    assert(next[heads.len() as int].resolution_width_pixels == width);
    assert(widths_sum(next, next.len() as int) == widths_sum(heads, heads.len() as int) + width);
    assert forall|i: int| 0 <= i < next.len() implies (#[trigger] next[i]).monitor_hardware_index == i
        && next[i].global_coordinate_offset_y == 0 && next[i].global_coordinate_offset_x == widths_sum(next, i) by {
        if i < heads.len() {
            assert(heads[i] == next[i]);
        }
    }
}

proof fn lemma_widths_sum_prefix(a: Seq<PhysicalMonitorHead>, b: Seq<PhysicalMonitorHead>, n: int)
    requires
        0 <= n <= a.len(),
        n <= b.len(),
        forall|i: int| 0 <= i < n ==> a[i] == b[i],
    ensures
        widths_sum(a, n) == widths_sum(b, n),
    decreases n,
{
    if n > 0 {
        lemma_widths_sum_prefix(a, b, n - 1);
    }
}

/// Law: the head chosen for the highest refresh rate has the maximum rate, and no later head
/// reaches it.
pub proof fn law_highest_refresh_is_last_maximum(heads: Seq<PhysicalMonitorHead>, n: int)
    requires
        1 <= n <= heads.len(),
    ensures
        0 <= highest_refresh_index(heads, n) < n,
        forall|j: int| 0 <= j < n ==> (#[trigger] heads[j]).hardware_refresh_rate_hz
            <= heads[highest_refresh_index(heads, n)].hardware_refresh_rate_hz,
        forall|j: int| highest_refresh_index(heads, n) < j < n ==> (#[trigger] heads[j]).hardware_refresh_rate_hz
            < heads[highest_refresh_index(heads, n)].hardware_refresh_rate_hz,
    decreases n,
{
    if n > 1 {
        law_highest_refresh_is_last_maximum(heads, n - 1);
    }
}

/// Law: a point resolved to a head lies on that head, and every earlier head misses it.
pub proof fn law_resolution_is_first_match(heads: Seq<PhysicalMonitorHead>, global_x: int, global_y: int, from: int)
    requires
        0 <= from,
    ensures
        first_head_containing(heads, global_x, global_y, from) matches Some(i) ==> from <= i < heads.len()
            && head_contains(heads[i], global_x, global_y)
            && forall|j: int| from <= j < i ==> !head_contains(#[trigger] heads[j], global_x, global_y),
        first_head_containing(heads, global_x, global_y, from) is None ==> forall|j: int|
            from <= j < heads.len() ==> !head_contains(#[trigger] heads[j], global_x, global_y),
    decreases heads.len() - from,
{
    if from < heads.len() {
        law_resolution_is_first_match(heads, global_x, global_y, from + 1);
    }
}

/// Law: every on-head pixel of a head whose store is not saturated lies inside that
/// head's VRAM store, at row offset `ly * stride + lx`.
pub proof fn law_vram_covers_head(topo: GlobalDisplayTopology, i: int, lx: int, ly: int)
    requires
        topo.wf(),
        0 <= i < topo.heads().len(),
        0 <= lx < topo.heads()[i].resolution_width_pixels,
        0 <= ly < topo.heads()[i].resolution_height_pixels,
        head_stride(topo.heads()[i]) * topo.heads()[i].resolution_height_pixels <= usize::MAX,
    ensures
        topo.vram().len() == topo.heads().len(),
        0 <= ly * head_stride(topo.heads()[i]) + lx < topo.vram()[i].len(),
{
    let h = topo.heads()[i];
    let s = head_stride(h);
    assert(topo.vram()[i].len() == vram_words(h));
    assert(ly * s + lx < s * h.resolution_height_pixels) by (nonlinear_arith)
        requires
            0 <= lx < h.resolution_width_pixels,
            h.resolution_width_pixels <= s,
            0 <= ly < h.resolution_height_pixels,
    ;
    assert(0 <= ly * s) by (nonlinear_arith)
        requires
            0 <= ly,
            0 <= s,
    ;
}

proof fn lemma_u32_as_i32(v: u32)
    requires
        v <= i32::MAX,
    ensures
        v as i32 == v,
{
    assert(v as i32 == v) by (bit_vector)
        requires
            v <= 0x7fff_ffffu32,
    ;
}

proof fn lemma_widths_sum_grows(heads: Seq<PhysicalMonitorHead>, m: int, n: int)
    requires
        0 <= m <= n,
    ensures
        widths_sum(heads, m) <= widths_sum(heads, n),
    decreases n - m,
{
    if m < n {
        lemma_widths_sum_grows(heads, m, n - 1);
    }
}

proof fn lemma_stitched_search(heads: Seq<PhysicalMonitorHead>, canvas_width: int, i: int, gx: int, gy: int, from: int)
    requires
        stitched(heads, canvas_width),
        canvas_width <= i32::MAX,
        0 <= from <= i < heads.len(),
        head_contains(heads[i], gx, gy),
        gx >= widths_sum(heads, i),
    ensures
        first_head_containing(heads, gx, gy, from) == Some(i),
    decreases i - from,
{
    if from < i {
        let h = heads[from];
        lemma_widths_sum_grows(heads, from + 1, i);
        lemma_widths_sum_grows(heads, from + 1, heads.len() as int);
        lemma_widths_sum_grows(heads, 0, from);
        assert(widths_sum(heads, from + 1) == widths_sum(heads, from) + h.resolution_width_pixels);
        lemma_u32_as_i32(h.resolution_width_pixels);
        assert(!head_contains(h, gx, gy));
        lemma_stitched_search(heads, canvas_width, i, gx, gy, from + 1);
    }
}

/// Law: on heads stitched left to right, the pixel at local (lx, ly) of head `i` resolves back
/// to head `i` at (lx, ly): registered heads never overlap.
pub proof fn law_stitched_head_resolves(heads: Seq<PhysicalMonitorHead>, canvas_width: int, i: int, lx: int, ly: int)
    requires
        stitched(heads, canvas_width),
        canvas_width <= i32::MAX,
        0 <= i < heads.len(),
        0 <= lx < heads[i].resolution_width_pixels,
        0 <= ly < heads[i].resolution_height_pixels,
        heads[i].resolution_height_pixels <= i32::MAX,
    ensures
        resolved(heads, heads[i].global_coordinate_offset_x + lx, heads[i].global_coordinate_offset_y + ly) == Some(
            (heads[i], lx as u32, ly as u32),
        ),
{
    let h = heads[i];
    lemma_widths_sum_grows(heads, i + 1, heads.len() as int);
    lemma_widths_sum_grows(heads, 0, i);
    assert(widths_sum(heads, i + 1) == widths_sum(heads, i) + h.resolution_width_pixels);
    lemma_u32_as_i32(h.resolution_width_pixels);
    lemma_u32_as_i32(h.resolution_height_pixels);
    let gx = h.global_coordinate_offset_x + lx;
    let gy = h.global_coordinate_offset_y + ly;
    assert(head_contains(h, gx, gy));
    lemma_stitched_search(heads, canvas_width, i, gx, gy, 0);
}

} // verus!
