use utah_kernel::chrono_scheduler::ChronoScheduler;
use utah_kernel::display::topology::GlobalDisplayTopology;
use utah_kernel::display::window_manager::{ApplicationPinRule, StructuralWindowFrame};
use utah_kernel::ghost_daemon::{pending_wasm_snapshot_count, GhostDaemon};
use utah_kernel::hfs::{calculate_resonance_signature, HolographicFileSystem};
use utah_kernel::system_calls::{
    access_error_message, apply_delta_patch_call, apply_vibe_theme_call, border_fits_check, bounds_fit_check, broadcast_call, clamp_intensity,
    coordinates_fit_check, get_canvas_dimensions_call, ghost_resume_call, ghost_suspend_call, guest_count, guest_offset,
    load_hologram_call, non_negative, pack_canvas_dimensions, pack_resolved_pixel, pin_to_monitor_fits, plan_guest_read,
    printable_text, record_and_predict_call, register_wasm_snapshot_call, resolve_global_pixel_call, save_hologram_call,
    set_theme_preset_call, take_staged_intent_call, GuestAccessError, GuestRead, MAX_GHOST_RESTORE_BYTES,
    MAX_PRINT_TEXT_BYTES,
};
use utah_kernel::ui::framebuffer::Framebuffer;
use utah_kernel::ui::theme::{ColorRgb, SystemTheme, ThemePreset};
use utah_kernel::zero_point_net::{IntentEther, ZeroPointNetwork, DEFAULT_LOCAL_RESONANCE};

fn two_head_topology() -> GlobalDisplayTopology {
    let mut topo = GlobalDisplayTopology::new();
    topo.register_monitor_head(800, 600, 800, 60);
    topo.register_monitor_head(640, 480, 640, 75);
    topo
}

#[test]
fn guest_read_plans() {
    assert_eq!(plan_guest_read(16, -1, 4096), Err(GuestAccessError::NegativeLength));
    assert_eq!(plan_guest_read(-5, -1, 4096), Err(GuestAccessError::NegativeLength));
    assert_eq!(plan_guest_read(-5, 0, 4096), Ok(GuestRead::Empty));
    assert_eq!(plan_guest_read(-5, 3, 4096), Err(GuestAccessError::InvalidPointer));
    assert_eq!(plan_guest_read(16, 3, 4096), Ok(GuestRead::Span(16, 3)));
    assert_eq!(plan_guest_read(16, 10_000, MAX_PRINT_TEXT_BYTES), Ok(GuestRead::Span(16, 4096)));
    assert_eq!(plan_guest_read(0, 4096, 4096), Ok(GuestRead::Span(0, 4096)));
}

#[test]
fn access_error_messages() {
    assert_eq!(access_error_message(GuestAccessError::NoMemoryExport), "[ERROR: WebAssembly program has no exported \"memory\"]");
    assert_eq!(access_error_message(GuestAccessError::NegativeLength), "[ERROR: Negative buffer length]");
    assert_eq!(access_error_message(GuestAccessError::InvalidPointer), "[ERROR: Invalid memory pointer]");
    assert_eq!(access_error_message(GuestAccessError::ReadFailed), "[ERROR: Could not read guest memory]");
}

#[test]
fn small_conversions() {
    assert_eq!(guest_offset(-1), None);
    assert_eq!(guest_offset(0), Some(0));
    assert_eq!(guest_offset(77), Some(77));
    assert_eq!(guest_count(12), 12);
    assert_eq!(guest_count(0x8000_0000), i32::MAX);
    assert_eq!(clamp_intensity(-7), 0);
    assert_eq!(clamp_intensity(128), 128);
    assert_eq!(clamp_intensity(1000), 255);
    assert_eq!(non_negative(-3), 0);
    assert_eq!(non_negative(42), 42);
}

#[test]
fn canvas_dimensions_pack_width_high() {
    assert_eq!(pack_canvas_dimensions(1440, 600), (1440i64 << 32) | 600);
    assert_eq!(pack_canvas_dimensions(0, 0), 0);
    assert_eq!(pack_canvas_dimensions(u32::MAX, u32::MAX), -1);
    assert_eq!(get_canvas_dimensions_call(&two_head_topology()), (1440i64 << 32) | 600);
}

#[test]
fn resolved_pixel_packing() {
    let topo = two_head_topology();
    assert_eq!(resolve_global_pixel_call(&topo, 900, 100), (1i64 << 48) | (100i64 << 32) | 100);
    assert_eq!(resolve_global_pixel_call(&topo, 900, 10), (1i64 << 48) | (100i64 << 32) | 10);
    assert_eq!(resolve_global_pixel_call(&topo, 800, 0), 1i64 << 48);
    assert_eq!(resolve_global_pixel_call(&topo, 5, 7), (5i64 << 32) | 7);
    assert_eq!(resolve_global_pixel_call(&topo, 0, 7), 7);
    assert_eq!(resolve_global_pixel_call(&topo, -1, 0), 0);
    assert_eq!(resolve_global_pixel_call(&topo, 2000, 0), 0);
    assert_eq!(pack_resolved_pixel(None), 0);
    let found = topo.resolve_physical_coordinates(0, 0);
    assert_eq!(pack_resolved_pixel(found), -1);
    assert_eq!(resolve_global_pixel_call(&topo, 0, 0), -1);
}

#[test]
fn printable_text_requires_utf8() {
    assert_eq!(printable_text(b"Hello, Utah"), Some("Hello, Utah"));
    assert_eq!(printable_text("caf\u{e9}".as_bytes()), Some("caf\u{e9}"));
    assert_eq!(printable_text(&[0xFF, 0x41]), None);
    assert_eq!(printable_text(&[0xC0, 0xAF]), None);
    assert_eq!(printable_text(b""), Some(""));
}

#[test]
fn save_and_load_hologram() {
    let mut fs = HolographicFileSystem::new();
    let sig = save_hologram_call(&mut fs, Ok(b"payload".to_vec()));
    assert_eq!(sig, calculate_resonance_signature(b"payload"));
    assert_eq!(load_hologram_call(&fs, sig), Some(b"payload".to_vec()));
    assert_eq!(load_hologram_call(&fs, sig ^ 1), None);
    assert_eq!(save_hologram_call(&mut fs, Err(GuestAccessError::ReadFailed)), 0);
    assert_eq!(load_hologram_call(&fs, sig), Some(b"payload".to_vec()));
}

#[test]
fn broadcast_call_sends_only_read_bytes() {
    let mut network = ZeroPointNetwork::new(DEFAULT_LOCAL_RESONANCE);
    let mut ether = IntentEther::new();
    broadcast_call(&mut network, &mut ether, 7, Err(GuestAccessError::InvalidPointer));
    assert_eq!(ether.len(), 0);
    broadcast_call(&mut network, &mut ether, 7, Ok(b"ping".to_vec()));
    assert_eq!(ether.len(), 1);
    broadcast_call(&mut network, &mut ether, DEFAULT_LOCAL_RESONANCE, Ok(b"self".to_vec()));
    assert_eq!(ether.len(), 2);
    assert_eq!(network.consume_intent(), Some(b"self".to_vec()));
    assert_eq!(network.consume_intent(), None);
}

#[test]
fn record_and_predict_host_call() {
    let mut s = ChronoScheduler::new();
    assert_eq!(record_and_predict_call(&mut s, -4), 0);
    assert_eq!(take_staged_intent_call(&mut s), 0);
    assert_eq!(record_and_predict_call(&mut s, 1), 2);
    assert_eq!(take_staged_intent_call(&mut s), 2);
    assert_eq!(take_staged_intent_call(&mut s), 0);
    assert_eq!(record_and_predict_call(&mut s, 10), 0);
    assert_eq!(record_and_predict_call(&mut s, 11), 12);
}

#[test]
fn delta_patch_call_commits_the_patched_image() {
    let mut fs = HolographicFileSystem::new();
    let sig = apply_delta_patch_call(&mut fs, b"ab", &[1, 1, 0x7A]);
    let expected = [b'a' ^ 1, b'b' ^ 1, 0x7A];
    assert_eq!(sig, calculate_resonance_signature(&expected));
    assert_eq!(load_hologram_call(&fs, sig), Some(expected.to_vec()));
}

#[test]
fn ghost_suspend_and_resume_calls() {
    let mut ghost = GhostDaemon::new();
    let mut fs = HolographicFileSystem::new();
    assert_eq!(ghost_resume_call(&ghost, &fs), None);
    assert_eq!(ghost_suspend_call(&mut ghost, &mut fs, Err(GuestAccessError::NoMemoryExport)), 0);
    assert_eq!(ghost_resume_call(&ghost, &fs), None);
    let sig = ghost_suspend_call(&mut ghost, &mut fs, Ok(b"state".to_vec()));
    assert_eq!(sig, calculate_resonance_signature(b"state"));
    assert_eq!(ghost_resume_call(&ghost, &fs), Some(b"state".to_vec()));
}

#[test]
fn ghost_resume_is_capped() {
    let mut ghost = GhostDaemon::new();
    let mut fs = HolographicFileSystem::new();
    let big: Vec<u8> = (0..70_000u32).map(|i| (i % 251) as u8).collect();
    ghost_suspend_call(&mut ghost, &mut fs, Ok(big.clone()));
    let restored = ghost_resume_call(&ghost, &fs).unwrap();
    assert_eq!(restored.len(), MAX_GHOST_RESTORE_BYTES);
    assert_eq!(&restored[..], &big[..MAX_GHOST_RESTORE_BYTES]);
}

#[test]
fn wasm_snapshot_call_queues_non_empty_reads() {
    let mut ghost = GhostDaemon::new();
    register_wasm_snapshot_call(&mut ghost, Err(GuestAccessError::ReadFailed));
    assert_eq!(pending_wasm_snapshot_count(&ghost), 0);
    register_wasm_snapshot_call(&mut ghost, Ok(Vec::new()));
    assert_eq!(pending_wasm_snapshot_count(&ghost), 0);
    register_wasm_snapshot_call(&mut ghost, Ok(vec![1, 2, 3]));
    assert_eq!(pending_wasm_snapshot_count(&ghost), 1);
}

#[test]
fn theme_preset_call_reads_negative_as_dark() {
    let mut active = SystemTheme::obtain_preset(ThemePreset::Golden);
    let mut fb = Framebuffer::new();
    set_theme_preset_call(&mut active, &mut fb, -9);
    assert_eq!(active.primary_accent, ColorRgb { red: 56, green: 189, blue: 248 });
    assert!(fb.ready());
    set_theme_preset_call(&mut active, &mut fb, 4);
    assert_eq!(active.primary_accent, ColorRgb { red: 220, green: 38, blue: 38 });
}

#[test]
fn vibe_theme_call_needs_valid_utf8() {
    let mut active = SystemTheme::obtain_preset(ThemePreset::Dark);
    let mut fb = Framebuffer::new();
    apply_vibe_theme_call(&mut active, &mut fb, Ok(vec![0xFF, b'b', b':', b'1']));
    assert_eq!(active.background, ColorRgb { red: 15, green: 23, blue: 42 });
    assert!(!fb.ready());
    apply_vibe_theme_call(&mut active, &mut fb, Err(GuestAccessError::NegativeLength));
    assert!(!fb.ready());
    apply_vibe_theme_call(&mut active, &mut fb, Ok(b"background: 1,2,3;".to_vec()));
    assert_eq!(active.background, ColorRgb { red: 1, green: 2, blue: 3 });
    assert!(fb.ready());
}

#[test]
fn fit_checks() {
    let topo = two_head_topology();
    assert!(coordinates_fit_check(&topo));
    assert!(pin_to_monitor_fits(&topo, 100, 50, 1));
    assert!(pin_to_monitor_fits(&topo, 100, 50, 9));
    let mut frame = StructuralWindowFrame::new("x", 10, 10, ApplicationPinRule::StrictMonitorIndex(0));
    assert!(border_fits_check(&frame));
    frame.workspace_position_x = i32::MAX - 5;
    assert!(!border_fits_check(&frame));
    frame.frame_width_pixels = 0;
    assert!(border_fits_check(&frame));
    let mut edge = StructuralWindowFrame::new("edge", 3, 3, ApplicationPinRule::StrictMonitorIndex(0));
    edge.workspace_position_x = i32::MAX - 3;
    assert!(border_fits_check(&edge));

    let mut far = GlobalDisplayTopology::new();
    let mut head = two_head_topology().head_at(0);
    head.resolution_width_pixels = 70_000;
    head.resolution_height_pixels = 70_000;
    head.pixels_per_scan_line = 70_000;
    far.attached_monitor_heads.push(head);
    assert!(!coordinates_fit_check(&far));
    assert!(bounds_fit_check(&far));
    assert!(!pin_to_monitor_fits(&far, 1, 1, 0));
    assert_eq!(resolve_global_pixel_call(&far, 5, 5), (5i64 << 32) | 5);

    let mut skewed = GlobalDisplayTopology::new();
    skewed.register_monitor_head(0x7FFF_FFF0, 0, 0, 60);
    skewed.register_monitor_head(100, 0, 0, 60);
    assert!(!bounds_fit_check(&skewed));
}
