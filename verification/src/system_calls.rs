//! The decisions behind the `utah_system` host calls that WebAssembly guests import:
//! argument validation and clamping, guest-buffer read planning, result packing, and the
//! kernel state each call reads or changes. Moving bytes in and out of guest memory is left
//! to the runtime that registers the calls.
use vstd::prelude::*;
use vstd::string::StringSliceAdditionalSpecFns;

use crate::chrono_scheduler::{predicted, recorded, ChronoScheduler};
use crate::display::topology::{resolved, GlobalDisplayTopology, PhysicalMonitorHead};
use crate::display::window_manager::{
    border_fits, placed, placement_fits, ApplicationPinRule, StructuralWindowFrame, WindowPinRegistry,
};
use crate::display::{pins_fit, placed_frames};
use crate::ghost_daemon::GhostDaemon;
use crate::hfs::{manifested, resonance_signature_of, HolographicFileSystem};
use crate::ui::framebuffer::Framebuffer;
use crate::ui::theme::{preset_for, preset_palette, split_on, vibe_applied, SystemTheme, ThemePreset};
use crate::zero_point_net::{ingested, IntentEther, ZeroPointNetwork};

verus! {

/// Largest single print the kernel copies from guest memory.
pub const MAX_PRINT_TEXT_BYTES: usize = 4096;

/// Largest blob the HFS accepts per save call.
pub const MAX_HOLOGRAM_BYTES: usize = 65536;

/// Largest intent the Zero-Point Network accepts per broadcast.
pub const MAX_BROADCAST_BYTES: usize = 65536;

/// Largest base or delta image per patch call.
pub const MAX_DELTA_BYTES: usize = 65536;

/// Largest ghost state or snapshot per call.
pub const MAX_GHOST_STATE_BYTES: usize = 262144;

/// Largest vibe-code string per call.
pub const MAX_VIBE_THEME_BYTES: usize = 512;

/// Largest ghost state restored into the guest per resume.
pub const MAX_GHOST_RESTORE_BYTES: usize = 65536;

/// Why guest memory could not be accessed.
#[derive(Clone, Copy, Debug, PartialEq, Eq, Structural)]
pub enum GuestAccessError {
    /// The guest exports no `memory`.
    NoMemoryExport,
    /// The guest passed a negative buffer length.
    NegativeLength,
    /// The guest passed a negative pointer.
    InvalidPointer,
    /// The guest memory could not be read.
    ReadFailed,
}

/// The screen message for an access error.
pub fn access_error_message(error: GuestAccessError) -> (message: &'static str)
    ensures
        error is NoMemoryExport ==> message@ == "[ERROR: WebAssembly program has no exported \"memory\"]"@,
        error is NegativeLength ==> message@ == "[ERROR: Negative buffer length]"@,
        error is InvalidPointer ==> message@ == "[ERROR: Invalid memory pointer]"@,
        error is ReadFailed ==> message@ == "[ERROR: Could not read guest memory]"@,
{
    match error {
        GuestAccessError::NoMemoryExport => "[ERROR: WebAssembly program has no exported \"memory\"]",
        GuestAccessError::NegativeLength => "[ERROR: Negative buffer length]",
        GuestAccessError::InvalidPointer => "[ERROR: Invalid memory pointer]",
        GuestAccessError::ReadFailed => "[ERROR: Could not read guest memory]",
    }
}

/// Which guest bytes a read copies.
#[derive(Clone, Copy, Debug, PartialEq, Eq, Structural)]
pub enum GuestRead {
    /// Nothing (a zero length); the pointer is not even looked at.
    Empty,
    /// `length` bytes from `offset`.
    Span(usize, usize),
}

/// Plans a guest read of `data_length` bytes at `memory_pointer`, capped at `max_bytes`.
pub fn plan_guest_read(memory_pointer: i32, data_length: i32, max_bytes: usize) -> (plan: Result<GuestRead, GuestAccessError>)
    ensures
        data_length < 0 ==> plan == Err::<GuestRead, GuestAccessError>(GuestAccessError::NegativeLength),
        data_length == 0 ==> plan == Ok::<GuestRead, GuestAccessError>(GuestRead::Empty),
        data_length > 0 && memory_pointer < 0 ==> plan == Err::<GuestRead, GuestAccessError>(GuestAccessError::InvalidPointer),
        data_length > 0 && memory_pointer >= 0 ==> plan == Ok::<GuestRead, GuestAccessError>(
            GuestRead::Span(memory_pointer as usize, if (data_length as int) <= max_bytes { data_length as usize } else { max_bytes }),
        ),
{
    if data_length < 0 {
        return Err(GuestAccessError::NegativeLength);
    }
    let length = data_length as usize;
    if length == 0 {
        return Ok(GuestRead::Empty);
    }
    let safe_length = if length <= max_bytes { length } else { max_bytes };
    if memory_pointer < 0 {
        return Err(GuestAccessError::InvalidPointer);
    }
    Ok(GuestRead::Span(memory_pointer as usize, safe_length))
}

/// A guest destination pointer as an offset; `None` when negative.
pub fn guest_offset(pointer: i32) -> (offset: Option<usize>)
    ensures
        pointer < 0 ==> offset is None,
        pointer >= 0 ==> offset == Some(pointer as usize),
{
    if pointer < 0 {
        None
    } else {
        Some(pointer as usize)
    }
}

/// A byte count as a guest `i32` result, saturating at `i32::MAX`.
pub fn guest_count(count: usize) -> (result: i32)
    ensures
        result == if count <= i32::MAX { count as int } else { i32::MAX as int },
{
    if count <= 0x7fff_ffff {
        count as i32
    } else {
        i32::MAX
    }
}

/// A guest intensity clamped to 0..=255.
pub fn clamp_intensity(intensity: i32) -> (level: u8)
    ensures
        level == if intensity < 0 { 0 } else if intensity > 255 { 255 } else { intensity as int },
{
    if intensity < 0 {
        0
    } else if intensity > 255 {
        255
    } else {
        intensity as u8
    }
}

/// A guest size or index with negatives read as zero.
pub fn non_negative(value: i32) -> (result: u32)
    ensures
        result == if value < 0 { 0 } else { value as int },
{
    if value < 0 {
        0
    } else {
        value as u32
    }
}

/// Reads a `u64` as an `i64` (two's complement), as `v as i64` does.
pub open spec fn u64_as_i64(v: int) -> int {
    if v < 0x8000_0000_0000_0000 {
        v
    } else {
        v - 0x1_0000_0000_0000_0000
    }
}

fn word_as_i64(v: u64) -> (r: i64)
    ensures
        r == u64_as_i64(v as int),
{
    if v <= 0x7fff_ffff_ffff_ffff {
        v as i64
    } else {
        ((v - 0x8000_0000_0000_0000) as i64) - 0x7fff_ffff_ffff_ffff - 1
    }
}

/// Canvas size packed for the guest: width in the high 32 bits, height in the low 32.
pub fn pack_canvas_dimensions(width: u32, height: u32) -> (packed: i64)
    ensures
        packed == u64_as_i64(width as int * 0x1_0000_0000 + height as int),
{
    let w = width as u64;
    let h = height as u64;
    assert(w * 0x1_0000_0000 <= 0xffff_ffff_0000_0000) by (nonlinear_arith)
        requires
            w <= 0xffff_ffff,
    ;
    word_as_i64(w * 0x1_0000_0000 + h)
}

/// A resolved point as one 64-bit word: monitor index shifted to bit 48, local x to bit 32,
/// local y in the low bits (OR-ed together, in 64 bits).
pub open spec fn resolution_word(head: PhysicalMonitorHead, local_x: u32, local_y: u32) -> u64 {
    ((head.monitor_hardware_index as u64) << 48u64) | ((local_x as u64) << 32u64) | (local_y as u64)
}

/// A resolved point packed for the guest: its word read as an `i64`; 0 when the point is off
/// every head. The one on-screen point whose word is 0 (local (0, 0) of monitor 0) is reported
/// as -1 (all bits set) instead, so that 0 always means off-screen.
pub open spec fn packed_resolution(found: Option<(PhysicalMonitorHead, u32, u32)>) -> int {
    match found {
        Some((head, local_x, local_y)) => {
            let word = resolution_word(head, local_x, local_y);
            if word == 0 {
                -1
            } else {
                u64_as_i64(word as int)
            }
        },
        None => 0,
    }
}

pub fn pack_resolved_pixel(found: Option<(PhysicalMonitorHead, u32, u32)>) -> (packed: i64)
    ensures
        packed == packed_resolution(found),
        packed == 0 <==> found is None,
{
    match found {
        Some((head, local_x, local_y)) => {
            let monitor = head.monitor_hardware_index as u64;
            let word = (monitor << 48u64) | ((local_x as u64) << 32u64) | (local_y as u64);
            if word == 0 {
                -1
            } else {
                word_as_i64(word)
            }
        },
        None => 0,
    }
}

/// `str::from_utf8` keeping only whether it succeeded. The contract takes
/// `vstd::utf8::valid_utf8` as the definition of what it accepts: UTF-8 well-formedness as
/// Rust's documentation states it (no overlong forms, no surrogates, scalars up to U+10FFFF).
#[verifier::external_body]
fn str_from_utf8(bytes: &[u8]) -> (text: Option<&str>)
    ensures
        text is Some == vstd::utf8::valid_utf8(bytes@),
        text matches Some(t) ==> t.spec_bytes() == bytes@,
{
    core::str::from_utf8(bytes).ok()
}

/// The guest bytes as text when they are valid UTF-8 (what a print shows); `None` when the
/// print must show the invalid-text error instead.
pub fn printable_text(buffer: &[u8]) -> (text: Option<&str>)
    ensures
        text is Some == vstd::utf8::valid_utf8(buffer@),
        text matches Some(t) ==> t.spec_bytes() == buffer@,
{
    str_from_utf8(buffer)
}

/// Host call `save_hologram`: stores the bytes read from the guest and returns their
/// signature; 0 when the read failed.
pub fn save_hologram_call(matrix: &mut HolographicFileSystem, read: Result<Vec<u8>, GuestAccessError>) -> (signature: u64)
    requires
        old(matrix).wf(),
    ensures
        final(matrix).wf(),
        read is Err ==> signature == 0 && final(matrix)@ == old(matrix)@,
        read matches Ok(data) ==> signature == resonance_signature_of(data@) && final(matrix)@ == manifested(
            old(matrix)@,
            data@,
        ),
{
    match read {
        Ok(buffer) => crate::hfs::manifest_data_global(matrix, buffer.as_slice()),
        Err(_) => 0,
    }
}

/// Host call `load_hologram`: the full stored bytes to inject into the guest, if the
/// signature is known.
pub fn load_hologram_call(matrix: &HolographicFileSystem, signature: u64) -> (payload: Option<Vec<u8>>)
    requires
        matrix.wf(),
    ensures
        payload.is_some() == matrix@.contains_key(signature),
        payload matches Some(bytes) ==> bytes@ == matrix@[signature],
{
    let payload_length = match crate::hfs::hologram_length_global(matrix, signature) {
        Some(length) => length,
        None => {
            return None;
        },
    };
    let mut staging_buffer: Vec<u8> = vec![0u8; payload_length];
    let ghost before = staging_buffer@;
    let bytes_read = match crate::hfs::retrieve_data_global(matrix, signature, staging_buffer.as_mut_slice()) {
        Some(n) => n,
        None => {
            return None;
        },
    };
    staging_buffer.truncate(bytes_read);
    assert(staging_buffer@ =~= matrix@[signature]);
    Some(staging_buffer)
}

/// Host call `broadcast`: sends the bytes read from the guest; a failed read sends nothing.
pub fn broadcast_call(network: &mut ZeroPointNetwork, ether: &mut IntentEther, target: u64, read: Result<Vec<u8>, GuestAccessError>)
    ensures
        final(network).resonance() == old(network).resonance(),
        read is Err ==> final(network).queue() == old(network).queue() && final(ether).contents() == old(ether).contents(),
        read matches Ok(data) ==> final(network).queue() == ingested(old(network).queue(), old(network).resonance(), target, data@)
            && final(ether).contents() == old(ether).contents().push((target, data@)),
{
    if let Ok(buffer) = read {
        crate::zero_point_net::broadcast_intent_global(network, ether, target, buffer.as_slice());
    }
}

/// Host call `record_and_predict`: records a non-negative action id and returns the predicted
/// next id (0 for none or for a negative id, which records nothing).
pub fn record_and_predict_call(scheduler: &mut ChronoScheduler, action_id: i32) -> (prediction: u64)
    requires
        old(scheduler).wf(),
    ensures
        final(scheduler).wf(),
        action_id < 0 ==> prediction == 0 && *final(scheduler) == *old(scheduler),
        action_id >= 0 ==> {
            &&& final(scheduler).history() == recorded(old(scheduler).history(), action_id as u32)
            &&& prediction == match predicted(final(scheduler).history(), action_id as u32) {
                Some(p) => p as int,
                None => 0,
            }
            &&& final(scheduler).staged() == match predicted(final(scheduler).history(), action_id as u32) {
                Some(p) => Some(p),
                None => old(scheduler).staged(),
            }
        },
{
    if action_id < 0 {
        return 0;
    }
    match crate::chrono_scheduler::record_and_predict_global(scheduler, action_id as u32) {
        Some(predicted) => predicted as u64,
        None => 0,
    }
}

/// Host call `take_staged_intent`: the staged intent id, or 0 for none.
pub fn take_staged_intent_call(scheduler: &mut ChronoScheduler) -> (staged: u64)
    ensures
        staged == match old(scheduler).staged() {
            Some(p) => p as int,
            None => 0,
        },
        final(scheduler).staged() is None,
        final(scheduler).history() == old(scheduler).history(),
        final(scheduler).wf() == old(scheduler).wf(),
{
    match crate::chrono_scheduler::take_staged_intent_global(scheduler) {
        Some(staged) => staged as u64,
        None => 0,
    }
}

/// Host call `apply_delta_patch` once both images were read: commits the patched image and
/// returns its signature.
pub fn apply_delta_patch_call(matrix: &mut HolographicFileSystem, base: &[u8], delta: &[u8]) -> (signature: u64)
    requires
        old(matrix).wf(),
    ensures
        final(matrix).wf(),
        signature == resonance_signature_of(crate::delta_wave_patch::patched(base@, delta@)),
        final(matrix)@ == manifested(old(matrix)@, crate::delta_wave_patch::patched(base@, delta@)),
{
    match crate::delta_wave_patch::commit_patched_image(matrix, base, delta) {
        Ok(signature) => signature,
        Err(()) => 0,
    }
}

/// Host call `ghost_suspend`: collapses the state read from the guest; 0 when the read failed.
pub fn ghost_suspend_call(ghost: &mut GhostDaemon, matrix: &mut HolographicFileSystem, read: Result<Vec<u8>, GuestAccessError>) -> (signature: u64)
    requires
        old(matrix).wf(),
    ensures
        final(matrix).wf(),
        read is Err ==> signature == 0 && final(matrix)@ == old(matrix)@ && *final(ghost) == *old(ghost),
        read matches Ok(state) ==> {
            &&& signature == resonance_signature_of(state@)
            &&& final(matrix)@ == manifested(old(matrix)@, state@)
            &&& final(ghost).signature() == Some(signature)
            &&& final(ghost).snapshots() == old(ghost).snapshots()
            &&& final(ghost).memory_resonance() == old(ghost).memory_resonance()
            &&& final(ghost).void_active() == old(ghost).void_active()
        },
{
    match read {
        Ok(state) => crate::ghost_daemon::suspend_guest_state(ghost, matrix, state.as_slice()),
        Err(_) => 0,
    }
}

/// Host call `ghost_resume`: the last suspended state, at most `MAX_GHOST_RESTORE_BYTES` of it,
/// to inject into the guest; `None` when nothing is available.
pub fn ghost_resume_call(ghost: &GhostDaemon, matrix: &HolographicFileSystem) -> (restored: Option<Vec<u8>>)
    requires
        matrix.wf(),
    ensures
        ghost.signature() is None ==> restored is None,
        ghost.signature() matches Some(signature) ==> {
            &&& restored.is_some() == matrix@.contains_key(signature)
            &&& restored matches Some(bytes) ==> bytes@ == matrix@[signature].subrange(
                0,
                if matrix@[signature].len() <= MAX_GHOST_RESTORE_BYTES { matrix@[signature].len() as int } else { MAX_GHOST_RESTORE_BYTES as int },
            )
        },
{
    let mut buffer: Vec<u8> = vec![0u8; MAX_GHOST_RESTORE_BYTES];
    let bytes_written = match crate::ghost_daemon::resume_guest_state(ghost, matrix, buffer.as_mut_slice()) {
        Some(n) => n,
        None => {
            return None;
        },
    };
    buffer.truncate(bytes_written);
    proof {
        let signature = ghost.signature()->0;
        let payload = matrix@[signature];
        assert(buffer@ =~= payload.subrange(0, bytes_written as int));
    }
    Some(buffer)
}

/// Host call `register_wasm_snapshot`: queues the bytes read from the guest; a failed read
/// queues nothing.
pub fn register_wasm_snapshot_call(ghost: &mut GhostDaemon, read: Result<Vec<u8>, GuestAccessError>)
    ensures
        read is Err ==> *final(ghost) == *old(ghost),
        read matches Ok(data) ==> final(ghost).snapshots() == (if data@.len() == 0 {
            old(ghost).snapshots()
        } else {
            old(ghost).snapshots().push(data@)
        }),
        final(ghost).signature() == old(ghost).signature(),
        final(ghost).memory_resonance() == old(ghost).memory_resonance(),
        final(ghost).void_active() == old(ghost).void_active(),
{
    if let Ok(buffer) = read {
        crate::ghost_daemon::register_wasm_linear_memory_snapshot(ghost, buffer.as_slice());
    }
}

/// Host call `set_theme_preset`: selects a preset (negative ids read as 0) and redraws the
/// boot splash.
pub fn set_theme_preset_call(active: &mut SystemTheme, fb: &mut Framebuffer, preset_id: i32)
    requires
        old(fb).wf(),
    ensures
        *final(active) == preset_palette(preset_for(if preset_id < 0 { 0 } else { preset_id as u32 })),
        final(fb).wf(),
        final(fb).is_ready(),
        crate::ui::splash_redrawn(old(fb).bytes(), old(fb).is_ready(), final(fb).bytes()),
{
    let preset = ThemePreset::from_u32(non_negative(preset_id));
    crate::ui::theme_runtime::set_preset(active, preset);
    crate::ui::render_boot_splash(fb);
}

/// Host call `apply_vibe_theme`: applies the bytes read from the guest when they are valid
/// UTF-8 and then redraws the boot splash; otherwise changes nothing.
pub fn apply_vibe_theme_call(active: &mut SystemTheme, fb: &mut Framebuffer, read: Result<Vec<u8>, GuestAccessError>)
    requires
        old(fb).wf(),
    ensures
        final(fb).wf(),
        read is Err ==> *final(active) == *old(active) && final(fb).bytes() == old(fb).bytes() && final(fb).is_ready() == old(fb).is_ready(),
        read matches Ok(intent) ==> {
            &&& !vstd::utf8::valid_utf8(intent@) ==> *final(active) == *old(active) && final(fb).bytes() == old(fb).bytes() && final(fb).is_ready() == old(fb).is_ready()
            &&& vstd::utf8::valid_utf8(intent@) ==> *final(active) == vibe_applied(*old(active), split_on(intent@, 0x3b))
                && final(fb).is_ready() && crate::ui::splash_redrawn(old(fb).bytes(), old(fb).is_ready(), final(fb).bytes())
        },
{
    if let Ok(intent) = read {
        if let Some(text) = str_from_utf8(intent.as_slice()) {
            crate::ui::theme_runtime::apply_vibe_modification(active, text);
            crate::ui::render_boot_splash(fb);
        }
    }
}

/// Host call `get_canvas_dimensions`.
pub fn get_canvas_dimensions_call(topo: &GlobalDisplayTopology) -> (packed: i64)
    ensures
        packed == u64_as_i64(topo.canvas_width() as int * 0x1_0000_0000 + topo.canvas_height() as int),
{
    let (w, h) = crate::display::global_canvas_dimensions(topo);
    pack_canvas_dimensions(w, h)
}

/// Host call `resolve_global_pixel`.
pub fn resolve_global_pixel_call(topo: &GlobalDisplayTopology, global_x: i32, global_y: i32) -> (packed: i64)
    requires
        topo.bounds_fit(),
    ensures
        packed == packed_resolution(resolved(topo.heads(), global_x as int, global_y as int)),
        packed == 0 <==> resolved(topo.heads(), global_x as int, global_y as int) is None,
{
    pack_resolved_pixel(topo.resolve_physical_coordinates(global_x, global_y))
}

/// Whether `span_fits(start, len)` holds.
fn span_fits_check(start: i64, len: i64) -> (fits: bool)
    requires
        i32::MIN <= start <= i32::MAX,
        0 <= len <= u32::MAX,
    ensures
        fits == crate::ui::canvas::span_fits(start as int, len as int),
{
    len == 0 || (len <= 0x8000_0000 && start + len - 1 <= i32::MAX as i64) || (len > 0x8000_0000 && start == 0)
}

/// `u32` counter read as an `i32`, widened.
fn wrapped(c: u32) -> (v: i64)
    ensures
        v == crate::ui::canvas::wrapped_i32(c as int),
{
    if c < 0x8000_0000 {
        c as i64
    } else {
        c as i64 - 0x1_0000_0000
    }
}

/// Checks `border_fits`.
pub fn border_fits_check(frame: &StructuralWindowFrame) -> (fits: bool)
    ensures
        fits == border_fits(*frame),
{
    if !ring_fits_check(frame.workspace_position_x as i64, frame.workspace_position_y as i64, frame.frame_width_pixels, frame.frame_height_pixels) {
        return false;
    }
    let w = frame.frame_width_pixels;
    let h = frame.frame_height_pixels;
    if w > 2 && h > 2 {
        proof {
            assert(frame.workspace_position_x + 1 <= i32::MAX);
            assert(frame.workspace_position_y + 1 <= i32::MAX);
        }
        ring_fits_check(frame.workspace_position_x as i64 + 1, frame.workspace_position_y as i64 + 1, w - 2, h - 2)
    } else {
        true
    }
}

/// Checks `ring_fits` of a frame at (x, y) of size w x h.
fn ring_fits_check(x: i64, y: i64, w: u32, h: u32) -> (fits: bool)
    requires
        i32::MIN <= x <= i32::MAX,
        i32::MIN <= y <= i32::MAX,
    ensures
        fits == crate::display::window_manager::ring_fits(StructuralWindowFrame {
            application_title_id: "",
            workspace_position_x: x as i32,
            workspace_position_y: y as i32,
            frame_width_pixels: w,
            frame_height_pixels: h,
            primary_placement_rule: ApplicationPinRule::SpanAllAvailableMonitors,
        }),
{
    if w == 0 || h == 0 {
        return true;
    }
    let right = x + wrapped(w);
    let bottom = y + wrapped(h);
    span_fits_check(x, w as i64) && span_fits_check(y, h as i64) && i32::MIN as i64 <= right && right <= i32::MAX as i64
        && i32::MIN as i64 <= right - 1 && i32::MIN as i64 <= bottom && bottom <= i32::MAX as i64 && i32::MIN as i64
        <= bottom - 1
}

/// Checks `bounds_fit`.
pub fn bounds_fit_check(topo: &GlobalDisplayTopology) -> (fits: bool)
    ensures
        fits == topo.bounds_fit(),
{
    let n = topo.head_count();
    let mut i: usize = 0;
    while i < n
        invariant
            i <= n,
            n == topo.heads().len(),
            forall|j: int| 0 <= j < i ==> crate::display::topology::head_bounds_fit(#[trigger] topo.heads()[j]),
        decreases n - i,
    {
        let h = topo.head_at(i);
        let right = h.global_coordinate_offset_x as i64 + (h.resolution_width_pixels as i32) as i64;
        let bottom = h.global_coordinate_offset_y as i64 + (h.resolution_height_pixels as i32) as i64;
        if right < i32::MIN as i64 || right > i32::MAX as i64 || bottom < i32::MIN as i64 || bottom > i32::MAX as i64 {
            return false;
        }
        i = i + 1;
    }
    true
}

/// Checks `coordinates_fit`.
pub fn coordinates_fit_check(topo: &GlobalDisplayTopology) -> (fits: bool)
    ensures
        fits == topo.coordinates_fit(),
{
    let n = topo.head_count();
    let mut i: usize = 0;
    while i < n
        invariant
            i <= n,
            n == topo.heads().len(),
            forall|j: int|
                0 <= j < i ==> crate::display::topology::head_bounds_fit(#[trigger] topo.heads()[j])
                    && crate::display::topology::head_offsets_fit(topo.heads()[j]),
        decreases n - i,
    {
        let h = topo.head_at(i);
        let right = h.global_coordinate_offset_x as i64 + (h.resolution_width_pixels as i32) as i64;
        let bottom = h.global_coordinate_offset_y as i64 + (h.resolution_height_pixels as i32) as i64;
        if right < i32::MIN as i64 || right > i32::MAX as i64 || bottom < i32::MIN as i64 || bottom > i32::MAX as i64 {
            return false;
        }
        let stride: u64 = if h.pixels_per_scan_line >= h.resolution_width_pixels {
            h.pixels_per_scan_line as u64
        } else {
            h.resolution_width_pixels as u64
        };
        if h.resolution_width_pixels > 0 && h.resolution_height_pixels > 0 {
            let rows = (h.resolution_height_pixels - 1) as u64;
            assert(rows * stride <= 0xffff_ffff * 0xffff_ffff) by (nonlinear_arith)
                requires
                    rows <= 0xffff_ffff,
                    stride <= 0xffff_ffff,
            ;
            let last = rows * stride + (h.resolution_width_pixels - 1) as u64;
            if last > u32::MAX as u64 {
                return false;
            }
        }
        i = i + 1;
    }
    true
}

/// Checks what `pin_window` needs for a strict pin of `width` x `height` to `monitor`.
pub fn pin_to_monitor_fits(topo: &GlobalDisplayTopology, width: u32, height: u32, monitor: u32) -> (fits: bool)
    ensures
        fits == (topo.coordinates_fit() && border_fits(placed(StructuralWindowFrame {
            application_title_id: "WASM-Pinned-Window",
            workspace_position_x: 0,
            workspace_position_y: 0,
            frame_width_pixels: width,
            frame_height_pixels: height,
            primary_placement_rule: ApplicationPinRule::StrictMonitorIndex(monitor),
        }, topo.heads(), topo.canvas_width(), topo.canvas_height()))),
{
    if !coordinates_fit_check(topo) {
        return false;
    }
    let mut frame = StructuralWindowFrame::new("WASM-Pinned-Window", width, height, ApplicationPinRule::StrictMonitorIndex(monitor));
    frame.calculate_automated_placement(topo);
    border_fits_check(&frame)
}

/// Checks `placement_fits` for a rule on the topology's heads.
pub fn placement_fits_check(rule: ApplicationPinRule, topo: &GlobalDisplayTopology) -> (fits: bool)
    ensures
        fits == placement_fits(rule, topo.heads()),
{
    match rule {
        ApplicationPinRule::HighestPerformanceDisplay => match topo.highest_refresh_head() {
            Some(best) => best.global_coordinate_offset_x <= i32::MAX - 16 && best.global_coordinate_offset_y <= i32::MAX - 16,
            None => true,
        },
        _ => true,
    }
}

/// Checks what redrawing the pinned windows needs (`pins_fit`): a representable topology,
/// rules that place without overflow, and borders of the placed frames that draw without
/// overflow.
pub fn pins_fit_check(registry: &WindowPinRegistry, topo: &GlobalDisplayTopology) -> (fits: bool)
    ensures
        fits == pins_fit(registry.frames@, *topo),
{
    if !coordinates_fit_check(topo) {
        return false;
    }
    let ghost frames = registry.frames@;
    let mut i: usize = 0;
    while i < registry.frames.len()
        invariant
            i <= frames.len(),
            frames == registry.frames@,
            forall|j: int| 0 <= j < i ==> placement_fits(#[trigger] frames[j].primary_placement_rule, topo.heads()),
            forall|j: int| 0 <= j < i ==> border_fits(#[trigger] placed_frames(frames, *topo)[j]),
        decreases frames.len() - i,
    {
        let mut frame = registry.frames[i];
        if !placement_fits_check(frame.primary_placement_rule, topo) {
            return false;
        }
        frame.calculate_automated_placement(topo);
        assert(frame == placed_frames(frames, *topo)[i as int]);
        if !border_fits_check(&frame) {
            return false;
        }
        i = i + 1;
    }
    true
}

} // verus!
