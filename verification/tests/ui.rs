use utah_kernel::ui::framebuffer::{clear_framebuffer, counter_as_i32, Framebuffer};
use utah_kernel::ui::glass::{
    draw_boot_splash, draw_glass_panel, draw_label, draw_label_blocks, draw_particle_node, glass_rgb, render_interface_node,
};
use utah_kernel::ui::manifold::render_total_os_manifold;
use utah_kernel::ui::theme::{ColorRgb, SystemTheme, ThemePreset};
use utah_kernel::ui::theme_runtime::{active_theme, apply_vibe_modification, render_desktop, set_preset};
use utah_kernel::ui::voxel::{draw_dynamic_voxel_cloud, voxel_cloud_fits_check};
use utah_kernel::ui::{framebuffer_ready, init_framebuffer, render_boot_splash};

fn pixel(fb: &Framebuffer, x: usize, y: usize) -> [u8; 4] {
    let bytes = fb.as_bytes();
    let at = (y * 800 + x) * 4;
    [bytes[at], bytes[at + 1], bytes[at + 2], bytes[at + 3]]
}

fn rgb(red: u8, green: u8, blue: u8) -> ColorRgb {
    ColorRgb { red, green, blue }
}

fn colours(t: &SystemTheme) -> [ColorRgb; 6] {
    [t.background, t.surface, t.primary_accent, t.secondary_accent, t.interactive_element, t.text_primary]
}

#[test]
fn new_framebuffer_is_blank_and_not_ready() {
    let fb = Framebuffer::new();
    assert_eq!(fb.as_bytes().len(), 800 * 600 * 4);
    assert!(fb.as_bytes().iter().all(|b| *b == 0));
    assert!(!framebuffer_ready(&fb));
}

#[test]
fn write_pixel_stores_bgra_and_ignores_off_canvas() {
    let mut fb = Framebuffer::new();
    fb.write_pixel(3, 4, 10, 20, 30, 40);
    assert_eq!(pixel(&fb, 3, 4), [30, 20, 10, 40]);
    fb.write_pixel(-1, 0, 1, 1, 1, 1);
    fb.write_pixel(800, 0, 1, 1, 1, 1);
    fb.write_pixel(0, 600, 1, 1, 1, 1);
    assert_eq!(fb.as_bytes().iter().filter(|b| **b != 0).count(), 4);
}

#[test]
fn fill_rect_clips_to_canvas() {
    let mut fb = Framebuffer::new();
    fb.fill_rect(-5, -5, 10, 10, 1, 2, 3, 4);
    assert_eq!(pixel(&fb, 0, 0), [3, 2, 1, 4]);
    assert_eq!(pixel(&fb, 4, 4), [3, 2, 1, 4]);
    assert_eq!(pixel(&fb, 5, 5), [0, 0, 0, 0]);
    fb.fill_rect(795, 595, 100, 100, 9, 9, 9, 9);
    assert_eq!(pixel(&fb, 799, 599), [9, 9, 9, 9]);
    assert_eq!(pixel(&fb, 794, 599), [0, 0, 0, 0]);
}

#[test]
fn clear_and_init_framebuffer() {
    let mut fb = Framebuffer::new();
    clear_framebuffer(&mut fb, 1, 2, 3);
    assert_eq!(pixel(&fb, 0, 0), [3, 2, 1, 255]);
    assert_eq!(pixel(&fb, 799, 599), [3, 2, 1, 255]);
    assert!(!fb.ready());
    init_framebuffer(&mut fb);
    assert!(framebuffer_ready(&fb));
    assert_eq!(pixel(&fb, 400, 300), [0x18, 0x0C, 0x08, 255]);
}

#[test]
fn counter_reads_as_twos_complement() {
    assert_eq!(counter_as_i32(5), 5);
    assert_eq!(counter_as_i32(0x7FFF_FFFF), i32::MAX);
    assert_eq!(counter_as_i32(0x8000_0000), i32::MIN);
    assert_eq!(counter_as_i32(0xFFFF_FFFF), -1);
}

#[test]
fn glass_tint_grows_with_intensity_and_saturates() {
    assert_eq!(glass_rgb(0), (48, 80, 144));
    assert_eq!(glass_rgb(100), (73, 113, 194));
    assert_eq!(glass_rgb(255), (111, 165, 255));
}

#[test]
fn glass_node_is_dithered() {
    let mut fb = Framebuffer::new();
    render_interface_node(&mut fb, 10, 20, 100);
    assert_eq!(pixel(&fb, 10, 20), [206, 137, 97, 90]);
    assert_eq!(pixel(&fb, 11, 20), [194, 113, 73, 90]);
    assert_eq!(pixel(&fb, 13, 23), [206, 137, 97, 90]);
    assert_eq!(pixel(&fb, 14, 20), [0, 0, 0, 0]);
    assert_eq!(pixel(&fb, 10, 24), [0, 0, 0, 0]);
}

#[test]
fn glass_node_partly_off_canvas() {
    let mut fb = Framebuffer::new();
    render_interface_node(&mut fb, -2, -2, 0);
    assert_eq!(pixel(&fb, 0, 0), [156, 104, 72, 40]);
    assert_eq!(pixel(&fb, 1, 1), [156, 104, 72, 40]);
    assert_eq!(pixel(&fb, 2, 0), [0, 0, 0, 0]);
}

#[test]
fn particle_node_is_a_filled_disc() {
    let mut fb = Framebuffer::new();
    draw_particle_node(&mut fb, 100, 100, 5, 0);
    assert_eq!(pixel(&fb, 100, 100), [144, 80, 48, 220]);
    assert_eq!(pixel(&fb, 105, 100), [144, 80, 48, 220]);
    assert_eq!(pixel(&fb, 103, 104), [144, 80, 48, 220]);
    assert_eq!(pixel(&fb, 104, 104), [0, 0, 0, 0]);
    assert_eq!(pixel(&fb, 106, 100), [0, 0, 0, 0]);
}

#[test]
fn negative_radius_draws_nothing() {
    let mut fb = Framebuffer::new();
    draw_particle_node(&mut fb, 100, 100, -3, 0);
    assert!(fb.as_bytes().iter().all(|b| *b == 0));
}

#[test]
fn glass_panel_has_tinted_body_and_border() {
    let mut fb = Framebuffer::new();
    draw_glass_panel(&mut fb, 40, 40, 100, 50, 180);
    assert_eq!(pixel(&fb, 40, 40), [0xFF, 0x90, 0x50, 255]);
    assert_eq!(pixel(&fb, 41, 41), [0xFF, 0x90, 0x50, 255]);
    assert_eq!(pixel(&fb, 139, 89), [0xFF, 0x90, 0x50, 255]);
    assert_eq!(pixel(&fb, 50, 50), [234, 140, 93, 180]);
    assert_eq!(pixel(&fb, 140, 50), [0, 0, 0, 0]);
}

#[test]
fn labels_are_block_glyphs_with_space_advance() {
    let mut fb = Framebuffer::new();
    draw_label(&mut fb, 10, 10, b"A B");
    assert_eq!(pixel(&fb, 10, 10), [0xFF, 0xF0, 0xE0, 255]);
    assert_eq!(pixel(&fb, 15, 19), [0xFF, 0xF0, 0xE0, 255]);
    assert_eq!(pixel(&fb, 16, 10), [0, 0, 0, 0]);
    assert_eq!(pixel(&fb, 10, 20), [0, 0, 0, 0]);
    assert_eq!(pixel(&fb, 17, 10), [0, 0, 0, 0]);
    assert_eq!(pixel(&fb, 25, 10), [0xFF, 0xF0, 0xE0, 255]);
    assert_eq!(pixel(&fb, 24, 10), [0, 0, 0, 0]);

    let mut coloured = Framebuffer::new();
    draw_label_blocks(&mut coloured, 0, 0, b"xy", 1, 2, 3);
    assert_eq!(pixel(&coloured, 0, 0), [3, 2, 1, 255]);
    assert_eq!(pixel(&coloured, 7, 0), [3, 2, 1, 255]);
    assert_eq!(pixel(&coloured, 6, 0), [0, 0, 0, 0]);
}

#[test]
fn boot_splash_initializes_then_draws() {
    let mut fb = Framebuffer::new();
    render_boot_splash(&mut fb);
    assert!(fb.ready());
    assert_eq!(pixel(&fb, 0, 0), [0x18, 0x0C, 0x08, 255]);
    assert_eq!(pixel(&fb, 40, 40), [0xFF, 0x90, 0x50, 255]);
    assert_eq!(pixel(&fb, 56, 64), [0xFF, 0xF0, 0xE0, 255]);
    assert_eq!(pixel(&fb, 120, 480), [254, 153, 103, 220]);
}

#[test]
fn boot_splash_on_ready_canvas_keeps_background() {
    let mut fb = Framebuffer::new();
    clear_framebuffer(&mut fb, 1, 1, 1);
    fb.set_ready();
    render_boot_splash(&mut fb);
    assert_eq!(pixel(&fb, 0, 0), [1, 1, 1, 255]);
    let mut direct = Framebuffer::new();
    draw_boot_splash(&mut direct);
    assert!(!direct.ready());
    assert_eq!(pixel(&direct, 0, 0), [0, 0, 0, 0]);
    assert_eq!(pixel(&direct, 56, 64), [0xFF, 0xF0, 0xE0, 255]);
}

#[test]
fn preset_numbers() {
    assert_eq!(ThemePreset::from_u32(0), ThemePreset::Dark);
    assert_eq!(ThemePreset::from_u32(1), ThemePreset::Golden);
    assert_eq!(ThemePreset::from_u32(2), ThemePreset::Light);
    assert_eq!(ThemePreset::from_u32(3), ThemePreset::Linda);
    assert_eq!(ThemePreset::from_u32(4), ThemePreset::Occult);
    assert_eq!(ThemePreset::from_u32(5), ThemePreset::Dark);
    assert_eq!(ThemePreset::from_u32(u32::MAX), ThemePreset::Dark);
}

#[test]
fn preset_palettes() {
    let dark = SystemTheme::obtain_preset(ThemePreset::Dark);
    assert_eq!(colours(&dark), [rgb(15, 23, 42), rgb(30, 41, 59), rgb(56, 189, 248), rgb(99, 102, 241), rgb(51, 65, 85), rgb(248, 250, 252)]);
    let golden = SystemTheme::obtain_preset(ThemePreset::Golden);
    assert_eq!(golden.primary_accent, rgb(234, 179, 8));
    let occult = SystemTheme::obtain_preset(ThemePreset::Occult);
    assert_eq!(occult.text_primary, rgb(239, 68, 68));
    let light = SystemTheme::obtain_preset(ThemePreset::Light);
    assert_eq!(light.surface, rgb(255, 255, 255));
    let linda = SystemTheme::obtain_preset(ThemePreset::Linda);
    assert_eq!(linda.secondary_accent, rgb(168, 85, 247));
}

#[test]
fn vibe_string_from_the_docs() {
    let mut theme = SystemTheme::obtain_preset(ThemePreset::Dark);
    theme.execute_vibe_modification("primary_accent: 250,204,21; secondary_accent: 236,72,153;");
    assert_eq!(theme.primary_accent, rgb(250, 204, 21));
    assert_eq!(theme.secondary_accent, rgb(236, 72, 153));
    assert_eq!(theme.background, rgb(15, 23, 42));
    assert_eq!(theme.text_primary, rgb(248, 250, 252));
}

#[test]
fn vibe_rejects_bad_segments() {
    let dark = colours(&SystemTheme::obtain_preset(ThemePreset::Dark));
    for intent in [
        "primary_accent: 256,0,0",
        "bogus: 1,2,3",
        "text_primary 1,2,3",
        "background: 1,2",
        "background: +1,2,3",
        "background: 1,x,3",
        "",
        ";;;",
    ] {
        let mut theme = SystemTheme::obtain_preset(ThemePreset::Dark);
        theme.execute_vibe_modification(intent);
        assert_eq!(colours(&theme), dark, "{intent}");
    }
}

#[test]
fn vibe_parsing_details() {
    let mut theme = SystemTheme::obtain_preset(ThemePreset::Dark);
    theme.execute_vibe_modification("background: ,5,6");
    assert_eq!(theme.background, rgb(0, 5, 6));
    theme.execute_vibe_modification("background:1,2,3,4");
    assert_eq!(theme.background, rgb(1, 2, 3));
    theme.execute_vibe_modification("  surface :  7 , 8 ,9  ");
    assert_eq!(theme.surface, rgb(7, 8, 9));
    theme.execute_vibe_modification("\u{a0}interactive_element\u{a0}: 10,11,12");
    assert_eq!(theme.interactive_element, rgb(10, 11, 12));
    theme.execute_vibe_modification("text_primary: 1,1,1:ignored");
    assert_eq!(theme.text_primary, rgb(1, 1, 1));
    theme.execute_vibe_modification("background: 1,1,1; background: 2,2,2");
    assert_eq!(theme.background, rgb(2, 2, 2));
    theme.execute_vibe_modification("background: 255,000,0255");
    assert_eq!(theme.background, rgb(255, 0, 255));
}

#[test]
fn theme_runtime_roundtrip() {
    let mut active = SystemTheme::obtain_preset(ThemePreset::Dark);
    set_preset(&mut active, ThemePreset::Golden);
    assert_eq!(colours(&active_theme(&active)), colours(&SystemTheme::obtain_preset(ThemePreset::Golden)));
    apply_vibe_modification(&mut active, "primary_accent: 220,38,38;");
    assert_eq!(active_theme(&active).primary_accent, rgb(220, 38, 38));
    assert_eq!(active.surface, rgb(43, 34, 16));
}

#[test]
fn desktop_manifold_in_dark_theme() {
    let dark = SystemTheme::obtain_preset(ThemePreset::Dark);
    let mut fb = Framebuffer::new();
    render_desktop(&dark, &mut fb);
    assert_eq!(pixel(&fb, 10, 500), [42, 23, 15, 255]);
    assert_eq!(pixel(&fb, 10, 20), [59, 41, 30, 255]);
    assert_eq!(pixel(&fb, 5, 44), [248, 189, 56, 255]);
    assert_eq!(pixel(&fb, 400, 300), [59, 41, 30, 220]);
    assert_eq!(pixel(&fb, 20, 70), [85, 65, 51, 255]);
    assert_eq!(pixel(&fb, 100, 71), [241, 102, 99, 255]);
    assert_eq!(pixel(&fb, 28, 12), [252, 250, 248, 255]);

    let mut again = Framebuffer::new();
    render_total_os_manifold(&dark, &mut again);
    assert_eq!(fb.as_bytes(), again.as_bytes());
}

#[test]
fn voxel_cloud_fit_check() {
    assert!(voxel_cloud_fits_check(400, 300, 0, 0, 0));
    assert!(voxel_cloud_fits_check(400, 300, -48, 48, 255));
    assert!(!voxel_cloud_fits_check(400, 300, i32::MAX, 0, 0));
    assert!(!voxel_cloud_fits_check(i32::MAX, 300, 0, 0, 255));
}

#[test]
fn voxel_cloud_draws_nodes_near_origin() {
    let mut fb = Framebuffer::new();
    draw_dynamic_voxel_cloud(&mut fb, 400, 300, 0, 0, 0);
    assert_eq!(pixel(&fb, 398, 298), [156, 104, 72, 40]);
    assert_eq!(pixel(&fb, 390, 290), [0, 0, 0, 0]);
    assert_eq!(pixel(&fb, 410, 310), [0, 0, 0, 0]);

    let mut off = Framebuffer::new();
    draw_dynamic_voxel_cloud(&mut off, -100, -100, 0, 0, 0);
    assert!(off.as_bytes().iter().all(|b| *b == 0));
}
