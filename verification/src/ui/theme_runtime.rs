//! The active theme: preset selection, vibe-code overrides and desktop rendering.
use vstd::prelude::*;
use vstd::string::StringSliceAdditionalSpecFns;

use crate::ui::canvas::painted;
use crate::ui::framebuffer::Framebuffer;
use crate::ui::theme::{preset_palette, split_on, vibe_applied, SystemTheme, ThemePreset};

verus! {

/// Makes a preset's palette the active theme.
pub fn set_preset(active: &mut SystemTheme, preset: ThemePreset)
    ensures
        *final(active) == preset_palette(preset),
{
    *active = SystemTheme::obtain_preset(preset);
}

/// Applies a vibe-code string to the active theme.
pub fn apply_vibe_modification(active: &mut SystemTheme, intent: &str)
    ensures
        *final(active) == vibe_applied(*old(active), split_on(intent.spec_bytes(), 0x3b)),
{
    active.execute_vibe_modification(intent);
}

/// A copy of the active theme.
pub fn active_theme(active: &SystemTheme) -> (theme: SystemTheme)
    ensures
        theme == *active,
{
    *active
}

/// Renders the desktop manifold in the active theme.
pub fn render_desktop(active: &SystemTheme, fb: &mut Framebuffer)
    requires
        old(fb).wf(),
    ensures
        final(fb).wf(),
        final(fb).is_ready() == old(fb).is_ready(),
        painted(old(fb).bytes(), final(fb).bytes(), crate::ui::manifold::manifold_strokes(*active)),
{
    let theme = active_theme(active);
    crate::ui::manifold::render_total_os_manifold(&theme, fb);
}

} // verus!
