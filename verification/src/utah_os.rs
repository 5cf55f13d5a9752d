//! Utah-OS master boot orchestration.
use vstd::prelude::*;

use crate::ghost_daemon::GhostDaemon;
use crate::thermodynamic_virtualizer::{harvest_once, harvested_times, ThermodynamicVirtualizer};
use crate::ui::canvas::{painted, Stroke};
use crate::ui::framebuffer::Framebuffer;
use crate::zero_point_net::ZeroPointNetwork;

verus! {

/// Utah-OS product version string (also shown on the boot banner).
pub const UTAH_OS_VERSION: &'static str = "0.5.0-omega";

/// Initializes all Utah-OS subsystems from the master configuration: tunes the mesh,
/// enables and primes the thermodynamic virtualizer (eight idle passes), arms the ghost
/// daemon, and manifests the Glass-Forge canvas with its boot splash.
pub fn boot(
    network: &mut ZeroPointNetwork,
    virtualizer: &mut ThermodynamicVirtualizer,
    ghost: &mut GhostDaemon,
    fb: &mut Framebuffer,
)
    requires
        old(fb).wf(),
    ensures
        final(network).resonance() == crate::kernel_config::SCHUMANN_RESONANCE_FREQUENCY,
        final(network).queue() == old(network).queue(),
        final(virtualizer).enabled(),
        final(virtualizer).telemetry() == harvested_times(old(virtualizer).telemetry(), true, 8),
        final(ghost).initialized_from(*old(ghost)),
        final(fb).wf(),
        final(fb).is_ready(),
        painted(
            old(fb).bytes(),
            final(fb).bytes(),
            seq![Stroke::Rect(0, 0, 800, 600, (0x08u8, 0x0cu8, 0x18u8, 255u8))] + crate::ui::glass::boot_splash_strokes(),
        ),
{
    crate::kernel_config::apply_master_configuration(network, virtualizer, ghost);
    crate::thermodynamic_virtualizer::bootstrap(virtualizer);
    let ghost b0 = fb.bytes();
    crate::ui::init_framebuffer(fb);
    let ghost b1 = fb.bytes();
    crate::ui::render_boot_splash(fb);
    proof {
        crate::ui::canvas::lemma_painted_compose(
            b0,
            b1,
            fb.bytes(),
            seq![Stroke::Rect(0, 0, 800, 600, (0x08u8, 0x0cu8, 0x18u8, 255u8))],
            crate::ui::glass::boot_splash_strokes(),
        );
    }
}

/// Idle servicing hook: one thermodynamic harvest pass.
pub fn service_idle(virtualizer: &mut ThermodynamicVirtualizer)
    ensures
        final(virtualizer).enabled() == old(virtualizer).enabled(),
        final(virtualizer).telemetry() == harvest_once(old(virtualizer).telemetry(), old(virtualizer).enabled()),
{
    crate::thermodynamic_virtualizer::harvest_idle_cycle_global(virtualizer);
}

} // verus!
