use utah_kernel::display::edid::MonitorCapabilitiesProfile;
use utah_kernel::display::topology::GlobalDisplayTopology;
use utah_kernel::display::window_manager::{pack_rgb, ApplicationPinRule, StructuralWindowFrame, WindowPinRegistry};
use utah_kernel::display::{
    boot_display_stack, composite_primary_head_to_framebuffer, global_canvas_dimensions, initialize_unified_topology,
    pin_window, register_default_pinned_windows, render_pinned_windows,
};
use utah_kernel::ui::framebuffer::Framebuffer;
use utah_kernel::ui::theme::ColorRgb;

const CYAN: u32 = 0x38BDF8;
const GOLD: u32 = 0xEAB308;
const VIOLET: u32 = 0xC878FF;

fn pixel(fb: &Framebuffer, x: usize, y: usize) -> [u8; 4] {
    let bytes = fb.as_bytes();
    let at = (y * 800 + x) * 4;
    [bytes[at], bytes[at + 1], bytes[at + 2], bytes[at + 3]]
}

fn two_head_topology() -> GlobalDisplayTopology {
    let mut topo = GlobalDisplayTopology::new();
    topo.register_monitor_head(800, 600, 800, 60);
    topo.register_monitor_head(640, 480, 640, 75);
    topo
}

#[test]
fn blank_edid_gives_sixty_hz_floor() {
    let profile = MonitorCapabilitiesProfile::parse_and_optimize_edid(&[0u8; 128]);
    assert_eq!(profile.manufacturer_id, [b'@', b'@', b'@']);
    assert_eq!(profile.product_code, 0);
    assert_eq!(profile.absolute_max_pixel_clock_megahertz, 0);
    assert!(!profile.supports_high_dynamic_range_hdr);
    assert_eq!(profile.optimized_refresh_rate_ceiling_hz, 60);
}

#[test]
fn edid_manufacturer_and_product_are_decoded() {
    let mut raw = [0u8; 128];
    raw[8] = 0x10;
    raw[9] = 0xAC;
    raw[10] = 0x34;
    raw[11] = 0x12;
    let profile = MonitorCapabilitiesProfile::parse_and_optimize_edid(&raw);
    assert_eq!(&profile.manufacturer_id, b"DEL");
    assert_eq!(profile.product_code, 0x1234);
}

#[test]
fn edid_refresh_ceiling_tiers() {
    let mut raw = [0u8; 128];
    raw[54] = 0x02;
    raw[55] = 0x3A;
    let profile = MonitorCapabilitiesProfile::parse_and_optimize_edid(&raw);
    assert_eq!(profile.absolute_max_pixel_clock_megahertz, 148);
    assert_eq!(profile.optimized_refresh_rate_ceiling_hz, 75);

    raw[54] = 0x98;
    raw[55] = 0x58;
    let profile = MonitorCapabilitiesProfile::parse_and_optimize_edid(&raw);
    assert_eq!(profile.absolute_max_pixel_clock_megahertz, 226);
    assert_eq!(profile.optimized_refresh_rate_ceiling_hz, 144);

    raw[54] = 0xFF;
    raw[55] = 0xFF;
    let profile = MonitorCapabilitiesProfile::parse_and_optimize_edid(&raw);
    assert_eq!(profile.absolute_max_pixel_clock_megahertz, 655);
    assert_eq!(profile.optimized_refresh_rate_ceiling_hz, 240);
}

#[test]
fn edid_hdr_bit_is_bit_seven_of_byte_twenty() {
    let mut raw = [0u8; 128];
    raw[20] = 0x80;
    assert!(MonitorCapabilitiesProfile::parse_and_optimize_edid(&raw).supports_high_dynamic_range_hdr);
    raw[20] = 0x7F;
    assert!(!MonitorCapabilitiesProfile::parse_and_optimize_edid(&raw).supports_high_dynamic_range_hdr);
}

#[test]
fn simulated_profiles() {
    let primary = MonitorCapabilitiesProfile::simulated_primary();
    assert_eq!(&primary.manufacturer_id, b"SIM");
    assert_eq!(primary.optimized_refresh_rate_ceiling_hz, 144);
    let secondary = MonitorCapabilitiesProfile::simulated_secondary();
    assert_eq!(&secondary.manufacturer_id, b"AUX");
    assert_eq!(secondary.absolute_max_pixel_clock_megahertz, 140);
    assert_eq!(secondary.optimized_refresh_rate_ceiling_hz, 75);
}

#[test]
fn heads_are_stitched_left_to_right() {
    let topo = two_head_topology();
    assert_eq!(topo.head_count(), 2);
    assert_eq!(topo.virtual_canvas(), (1440, 600));
    let second = topo.head_at(1);
    assert_eq!(second.monitor_hardware_index, 1);
    assert_eq!(second.global_coordinate_offset_x, 800);
    assert_eq!(second.global_coordinate_offset_y, 0);
    assert_eq!(second.video_memory_base_address, None);
    assert_eq!(topo.read_vram(0, 0), Some(0));
    assert_eq!(topo.read_vram(0, 479_999), Some(0));
    assert_eq!(topo.read_vram(0, 480_000), None);
    assert_eq!(topo.read_vram(1, 307_199), Some(0));
    assert_eq!(topo.read_vram(2, 0), None);
}

#[test]
fn vram_store_spans_full_stride() {
    let mut topo = GlobalDisplayTopology::new();
    topo.register_monitor_head(2, 2, 4, 60);
    assert_eq!(topo.read_vram(0, 7), Some(0));
    assert_eq!(topo.read_vram(0, 8), None);
    topo.write_vram(0, 5, 0x112233);
    let mut fb = Framebuffer::new();
    composite_primary_head_to_framebuffer(&topo, &mut fb);
    assert_eq!(pixel(&fb, 1, 1), [0x33, 0x22, 0x11, 255]);
    assert_eq!(pixel(&fb, 0, 1), [0, 0, 0, 255]);
    assert_eq!(pixel(&fb, 2, 1), [0, 0, 0, 0]);
}

#[test]
fn border_is_two_pixels_wide() {
    let mut topo = two_head_topology();
    let mut frame = StructuralWindowFrame::new("ring", 10, 10, ApplicationPinRule::SpanAllAvailableMonitors);
    frame.workspace_position_x = 10;
    frame.workspace_position_y = 10;
    frame.commit_window_draw_pulses(&mut topo, ColorRgb { red: 0, green: 0, blue: 5 });
    for (x, y) in [(10, 10), (15, 11), (11, 15), (18, 18), (19, 14), (14, 19), (15, 10)] {
        assert_eq!(topo.read_vram(0, y * 800 + x), Some(5), "({x}, {y})");
    }
    for (x, y) in [(12, 12), (17, 15), (15, 17), (9, 10), (20, 10), (10, 20)] {
        assert_eq!(topo.read_vram(0, y * 800 + x), Some(0), "({x}, {y})");
    }
}

#[test]
fn narrow_frames_fill_their_border() {
    let mut topo = two_head_topology();
    let mut frame = StructuralWindowFrame::new("thin", 3, 3, ApplicationPinRule::SpanAllAvailableMonitors);
    frame.workspace_position_x = 10;
    frame.workspace_position_y = 10;
    frame.commit_window_draw_pulses(&mut topo, ColorRgb { red: 0, green: 0, blue: 6 });
    assert_eq!(topo.read_vram(0, 11 * 800 + 11), Some(6));
    assert_eq!(topo.read_vram(0, 13 * 800 + 11), Some(0));
}

#[test]
fn every_pinned_window_is_drawn() {
    let mut topo = GlobalDisplayTopology::new();
    let mut registry = WindowPinRegistry::new();
    boot_display_stack(&mut topo, &mut registry);
    registry.register(StructuralWindowFrame::new("fourth", 50, 50, ApplicationPinRule::StrictMonitorIndex(0)));
    assert_eq!(topo.read_vram(0, 10 * 800 + 49), Some(0));
    render_pinned_windows(&mut topo, &mut registry);
    assert_eq!(topo.read_vram(0, 10 * 800 + 49), Some(CYAN));
    assert_eq!(topo.read_vram(0, 10 * 800 + 48), Some(CYAN));
    assert_eq!(topo.read_vram(0, 10 * 800 + 20), Some(0));
}

#[test]
fn boot_canvas_is_1440_by_600() {
    let mut topo = GlobalDisplayTopology::new();
    let mut registry = WindowPinRegistry::new();
    boot_display_stack(&mut topo, &mut registry);
    assert_eq!(global_canvas_dimensions(&topo), (1440, 600));
}

#[test]
fn vram_write_then_read() {
    let mut topo = two_head_topology();
    topo.write_vram(1, 42, 0xABCDEF);
    assert_eq!(topo.read_vram(1, 42), Some(0xABCDEF));
    assert_eq!(topo.read_vram(1, 43), Some(0));
    assert_eq!(topo.read_vram(0, 42), Some(0));
    topo.write_vram(5, 0, 7);
    assert_eq!(topo.read_vram(5, 0), None);
}

#[test]
fn external_head_gets_a_store_of_its_layout() {
    let mut topo = two_head_topology();
    let index = topo.register_monitor_head_external(0xFD00_0000, 1024, 768, 1024, 120);
    assert_eq!(index, 2);
    assert_eq!(topo.head_at(2).video_memory_base_address, Some(0xFD00_0000));
    assert_eq!(topo.head_at(2).global_coordinate_offset_x, 1440);
    assert_eq!(topo.virtual_canvas(), (2464, 768));
    assert_eq!(topo.read_vram(2, 0), Some(0));
    assert_eq!(topo.read_vram(2, 1024 * 768 - 1), Some(0));
    assert_eq!(topo.read_vram(2, 1024 * 768), None);
    assert_eq!(topo.head_vram(2).map(|words| words.len()), Some(1024 * 768));
    assert!(topo.head_vram(3).is_none());
}

#[test]
fn resolve_maps_global_points_to_heads() {
    let topo = two_head_topology();
    let (head, x, y) = topo.resolve_physical_coordinates(900, 100).unwrap();
    assert_eq!((head.monitor_hardware_index, x, y), (1, 100, 100));
    let (head, x, y) = topo.resolve_physical_coordinates(799, 599).unwrap();
    assert_eq!((head.monitor_hardware_index, x, y), (0, 799, 599));
    assert!(topo.resolve_physical_coordinates(-1, 0).is_none());
    assert!(topo.resolve_physical_coordinates(1440, 0).is_none());
    assert!(topo.resolve_physical_coordinates(900, 480).is_none());
}

#[test]
fn highest_refresh_prefers_the_last_of_equals() {
    let mut topo = two_head_topology();
    assert_eq!(topo.highest_refresh_head().unwrap().monitor_hardware_index, 1);
    topo.register_monitor_head(100, 100, 100, 75);
    assert_eq!(topo.highest_refresh_head().unwrap().monitor_hardware_index, 2);
    assert!(GlobalDisplayTopology::new().highest_refresh_head().is_none());
}

#[test]
fn strict_pin_moves_to_head_and_shrinks_with_margin() {
    let topo = two_head_topology();
    let mut frame = StructuralWindowFrame::new("big", 1000, 1000, ApplicationPinRule::StrictMonitorIndex(1));
    frame.calculate_automated_placement(&topo);
    assert_eq!(frame.workspace_position_x, 800);
    assert_eq!(frame.workspace_position_y, 0);
    assert_eq!(frame.frame_width_pixels, 632);
    assert_eq!(frame.frame_height_pixels, 472);

    let mut missing = StructuralWindowFrame::new("lost", 10, 20, ApplicationPinRule::StrictMonitorIndex(9));
    missing.calculate_automated_placement(&topo);
    assert_eq!(
        (missing.workspace_position_x, missing.workspace_position_y, missing.frame_width_pixels, missing.frame_height_pixels),
        (0, 0, 10, 20)
    );
}

#[test]
fn fastest_and_span_pins() {
    let topo = two_head_topology();
    let mut fast = StructuralWindowFrame::new("fast", 320, 240, ApplicationPinRule::HighestPerformanceDisplay);
    fast.calculate_automated_placement(&topo);
    assert_eq!((fast.workspace_position_x, fast.workspace_position_y), (816, 16));
    assert_eq!((fast.frame_width_pixels, fast.frame_height_pixels), (320, 240));

    let mut span = StructuralWindowFrame::new("span", 1, 1, ApplicationPinRule::SpanAllAvailableMonitors);
    span.calculate_automated_placement(&topo);
    assert_eq!(
        (span.workspace_position_x, span.workspace_position_y, span.frame_width_pixels, span.frame_height_pixels),
        (0, 0, 1440, 600)
    );
}

#[test]
fn border_crosses_every_head_it_touches() {
    let mut topo = two_head_topology();
    let mut span = StructuralWindowFrame::new("span", 1, 1, ApplicationPinRule::SpanAllAvailableMonitors);
    span.calculate_automated_placement(&topo);
    span.commit_window_draw_pulses(&mut topo, ColorRgb { red: 1, green: 2, blue: 3 });
    assert_eq!(topo.read_vram(0, 0), Some(0x010203));
    assert_eq!(topo.read_vram(0, 599 * 800 + 400), Some(0x010203));
    assert_eq!(topo.read_vram(1, 0), Some(0x010203));
    assert_eq!(topo.read_vram(1, 639), Some(0x010203));
    assert_eq!(topo.read_vram(1, 100 * 640 + 639), Some(0x010203));
    assert_eq!(topo.read_vram(1, 100 * 640 + 100), Some(0));
    assert_eq!(topo.read_vram(0, 100 * 800 + 100), Some(0));
}

#[test]
fn empty_frame_draws_nothing() {
    let mut topo = two_head_topology();
    let frame = StructuralWindowFrame::new("none", 0, 10, ApplicationPinRule::StrictMonitorIndex(0));
    frame.commit_window_draw_pulses(&mut topo, ColorRgb { red: 9, green: 9, blue: 9 });
    assert_eq!(topo.read_vram(0, 0), Some(0));
}

#[test]
fn pack_rgb_layout() {
    assert_eq!(pack_rgb(ColorRgb { red: 56, green: 189, blue: 248 }), CYAN);
    assert_eq!(pack_rgb(ColorRgb { red: 0, green: 0, blue: 0 }), 0);
    assert_eq!(pack_rgb(ColorRgb { red: 255, green: 255, blue: 255 }), 0xFFFFFF);
}

#[test]
fn boot_topology_has_two_simulated_heads() {
    let mut topo = GlobalDisplayTopology::new();
    initialize_unified_topology(&mut topo);
    assert_eq!(topo.head_count(), 2);
    assert_eq!(topo.head_at(0).hardware_refresh_rate_hz, 60);
    assert_eq!(topo.head_at(1).hardware_refresh_rate_hz, 75);
    assert_eq!(global_canvas_dimensions(&topo), (1440, 600));
}

#[test]
fn default_pins_follow_their_rules() {
    let mut topo = GlobalDisplayTopology::new();
    let mut registry = WindowPinRegistry::new();
    boot_display_stack(&mut topo, &mut registry);
    assert_eq!(registry.frames.len(), 3);
    let browser = registry.frames[0];
    assert_eq!(browser.application_title_id, "Utah-Browser-Core");
    assert_eq!(
        (browser.workspace_position_x, browser.workspace_position_y, browser.frame_width_pixels, browser.frame_height_pixels),
        (800, 0, 400, 300)
    );
    let ai = registry.frames[1];
    assert_eq!(ai.application_title_id, "Sovereign-Prime-AI");
    assert_eq!((ai.workspace_position_x, ai.workspace_position_y, ai.frame_width_pixels, ai.frame_height_pixels), (816, 16, 320, 240));
    let hfs = registry.frames[2];
    assert_eq!(hfs.application_title_id, "HFS-Explorer");
    assert_eq!((hfs.workspace_position_x, hfs.workspace_position_y, hfs.frame_width_pixels, hfs.frame_height_pixels), (0, 0, 360, 280));
}

#[test]
fn default_pin_borders_are_drawn_in_their_colours() {
    let mut topo = GlobalDisplayTopology::new();
    let mut registry = WindowPinRegistry::new();
    boot_display_stack(&mut topo, &mut registry);
    // HFS explorer (cyan) on head 0.
    assert_eq!(topo.read_vram(0, 0), Some(CYAN));
    assert_eq!(topo.read_vram(0, 279 * 800 + 359), Some(CYAN));
    assert_eq!(topo.read_vram(0, 10 * 800 + 50), Some(0));
    // Browser (cyan) and AI (gold) on head 1.
    assert_eq!(topo.read_vram(1, 0), Some(CYAN));
    assert_eq!(topo.read_vram(1, 299 * 640 + 399), Some(CYAN));
    assert_eq!(topo.read_vram(1, 16 * 640 + 16), Some(GOLD));
    assert_eq!(topo.read_vram(1, 255 * 640 + 335), Some(GOLD));
    assert_eq!(topo.read_vram(1, 100 * 640 + 100), Some(0));
}

#[test]
fn re_rendering_pins_keeps_the_same_placement() {
    let mut topo = GlobalDisplayTopology::new();
    let mut registry = WindowPinRegistry::new();
    boot_display_stack(&mut topo, &mut registry);
    let first: Vec<(i32, i32, u32, u32)> = registry
        .frames
        .iter()
        .map(|f| (f.workspace_position_x, f.workspace_position_y, f.frame_width_pixels, f.frame_height_pixels))
        .collect();
    render_pinned_windows(&mut topo, &mut registry);
    let second: Vec<(i32, i32, u32, u32)> = registry
        .frames
        .iter()
        .map(|f| (f.workspace_position_x, f.workspace_position_y, f.frame_width_pixels, f.frame_height_pixels))
        .collect();
    assert_eq!(first, second);
}

#[test]
fn register_default_pins_replaces_registry() {
    let mut registry = WindowPinRegistry::new();
    registry.register(StructuralWindowFrame::new("old", 1, 1, ApplicationPinRule::SpanAllAvailableMonitors));
    register_default_pinned_windows(&mut registry);
    assert_eq!(registry.frames.len(), 3);
    assert_eq!(registry.frames[0].application_title_id, "Utah-Browser-Core");
    assert_eq!(registry.frames[0].frame_width_pixels, 400);
}

#[test]
fn pin_window_places_draws_violet_and_registers() {
    let mut topo = GlobalDisplayTopology::new();
    let mut registry = WindowPinRegistry::new();
    boot_display_stack(&mut topo, &mut registry);
    pin_window(&mut topo, &mut registry, "WASM-Pinned-Window", 100, 50, ApplicationPinRule::StrictMonitorIndex(0));
    assert_eq!(registry.frames.len(), 4);
    let pinned = registry.frames[3];
    assert_eq!((pinned.workspace_position_x, pinned.workspace_position_y, pinned.frame_width_pixels, pinned.frame_height_pixels), (0, 0, 100, 50));
    assert_eq!(topo.read_vram(0, 0), Some(VIOLET));
    assert_eq!(topo.read_vram(0, 49 * 800 + 99), Some(VIOLET));
    assert_eq!(topo.read_vram(0, 10 * 800 + 50), Some(0));
    assert_eq!(topo.read_vram(0, 100 * 800), Some(CYAN));
}

#[test]
fn registry_commit_all_draws_every_frame() {
    let mut topo = two_head_topology();
    let mut registry = WindowPinRegistry::new();
    registry.register(StructuralWindowFrame::new("a", 10, 10, ApplicationPinRule::StrictMonitorIndex(0)));
    registry.register(StructuralWindowFrame::new("b", 10, 10, ApplicationPinRule::StrictMonitorIndex(1)));
    registry.place_all(&topo);
    registry.commit_all(&mut topo, ColorRgb { red: 0, green: 0, blue: 7 });
    assert_eq!(topo.read_vram(0, 9 * 800 + 9), Some(7));
    assert_eq!(topo.read_vram(1, 9 * 640 + 9), Some(7));
    registry.clear();
    assert!(registry.frames.is_empty());
}

#[test]
fn composite_copies_primary_head_as_bgra() {
    let mut topo = GlobalDisplayTopology::new();
    let mut registry = WindowPinRegistry::new();
    boot_display_stack(&mut topo, &mut registry);
    let mut fb = Framebuffer::new();
    composite_primary_head_to_framebuffer(&topo, &mut fb);
    assert_eq!(pixel(&fb, 0, 0), [248, 189, 56, 255]);
    assert_eq!(pixel(&fb, 359, 279), [248, 189, 56, 255]);
    assert_eq!(pixel(&fb, 10, 10), [0, 0, 0, 255]);
    assert!(!fb.ready());
}

#[test]
fn composite_without_heads_leaves_canvas() {
    let topo = GlobalDisplayTopology::new();
    let mut fb = Framebuffer::new();
    composite_primary_head_to_framebuffer(&topo, &mut fb);
    assert_eq!(pixel(&fb, 0, 0), [0, 0, 0, 0]);
}

#[test]
fn null_mapped_head_is_neither_drawn_nor_composited() {
    let mut topo = GlobalDisplayTopology::new();
    topo.register_monitor_head_external(0, 800, 600, 800, 60);
    let mut frame = StructuralWindowFrame::new("x", 10, 10, ApplicationPinRule::StrictMonitorIndex(0));
    frame.calculate_automated_placement(&topo);
    frame.commit_window_draw_pulses(&mut topo, ColorRgb { red: 1, green: 2, blue: 3 });
    assert_eq!(topo.read_vram(0, 0), Some(0));
    let mut fb = Framebuffer::new();
    composite_primary_head_to_framebuffer(&topo, &mut fb);
    assert_eq!(pixel(&fb, 0, 0), [0, 0, 0, 0]);
    assert!(fb.as_bytes().iter().all(|b| *b == 0));
}

#[test]
fn mapped_head_is_drawn_and_composited() {
    let mut topo = GlobalDisplayTopology::new();
    topo.register_monitor_head_external(0xFD00_0000, 800, 600, 800, 60);
    let mut frame = StructuralWindowFrame::new("x", 10, 10, ApplicationPinRule::StrictMonitorIndex(0));
    frame.calculate_automated_placement(&topo);
    frame.commit_window_draw_pulses(&mut topo, ColorRgb { red: 1, green: 2, blue: 3 });
    assert_eq!(topo.read_vram(0, 0), Some(0x010203));
    let mut fb = Framebuffer::new();
    composite_primary_head_to_framebuffer(&topo, &mut fb);
    assert_eq!(pixel(&fb, 0, 0), [3, 2, 1, 255]);
}
