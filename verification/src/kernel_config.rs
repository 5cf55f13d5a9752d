//! Utah-OS master configuration: unified parameters for all subsystems.
use vstd::prelude::*;

use crate::ghost_daemon::GhostDaemon;
use crate::thermodynamic_virtualizer::ThermodynamicVirtualizer;
use crate::zero_point_net::ZeroPointNetwork;

verus! {

/// Schumann-resonance-scale mesh identifier (7.83 Hz encoded as master tuning constant).
pub const SCHUMANN_RESONANCE_FREQUENCY: u64 = 7_830_000_000;

/// The "Omega" configuration: one operating system as a single unified state machine.
#[derive(Clone, Copy, Debug)]
pub struct OmegaConfiguration {
    /// Enables the Chrono-Scheduler probability manifold.
    pub temporal_sequencing_enabled: bool,
    /// Mesh resonance ID for this node.
    pub resonant_network_frequency: u64,
    /// Enables thermodynamic idle harvesting.
    pub thermodynamic_cooling_mode: bool,
}

/// The master configuration every subsystem is set up from.
pub open spec fn master_config_spec() -> OmegaConfiguration {
    OmegaConfiguration {
        temporal_sequencing_enabled: true,
        resonant_network_frequency: SCHUMANN_RESONANCE_FREQUENCY,
        thermodynamic_cooling_mode: true,
    }
}

/// Returns the master configuration.
pub fn utah_os_master_config() -> (config: OmegaConfiguration)
    ensures
        config == master_config_spec(),
{
    OmegaConfiguration {
        temporal_sequencing_enabled: true,
        resonant_network_frequency: SCHUMANN_RESONANCE_FREQUENCY,
        thermodynamic_cooling_mode: true,
    }
}

/// Applies the master configuration to the network, the virtualizer and the ghost daemon.
pub fn apply_master_configuration(
    network: &mut ZeroPointNetwork,
    virtualizer: &mut ThermodynamicVirtualizer,
    ghost: &mut GhostDaemon,
)
    ensures
        final(network).resonance() == SCHUMANN_RESONANCE_FREQUENCY,
        final(network).queue() == old(network).queue(),
        final(virtualizer).enabled() == true,
        final(virtualizer).telemetry() == old(virtualizer).telemetry(),
        final(ghost).initialized_from(*old(ghost)),
{
    let config = utah_os_master_config();
    crate::zero_point_net::tune_local_resonance(network, config.resonant_network_frequency);
    crate::thermodynamic_virtualizer::configure(virtualizer, config.thermodynamic_cooling_mode);
    crate::ghost_daemon::initialize(ghost);
}

/// Whether predictive temporal sequencing is active.
pub fn temporal_sequencing_enabled() -> (enabled: bool)
    ensures
        enabled == master_config_spec().temporal_sequencing_enabled,
{
    let config = utah_os_master_config();
    config.temporal_sequencing_enabled
}

} // verus!
