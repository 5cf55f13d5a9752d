use utah_kernel::chrono_scheduler::{record_and_predict_global, take_staged_intent_global, ChronoScheduler};
use utah_kernel::ghost_daemon::GhostDaemon;
use utah_kernel::kernel_config::{apply_master_configuration, temporal_sequencing_enabled, utah_os_master_config};
use utah_kernel::thermodynamic_virtualizer::{
    bootstrap, configure, harvest_idle_cycle_global, read_telemetry_global, telemetry_snapshot_global,
    ThermodynamicVirtualizer,
};
use utah_kernel::ui::framebuffer::Framebuffer;
use utah_kernel::utah_os::{boot, service_idle};
use utah_kernel::zero_point_net::{
    broadcast_intent_global, consume_intent_global, drain_intent_ether_global, ingest_ambient_intent_global,
    local_resonance_global, tune_local_resonance, IntentEther, IntentPayload, ZeroPointNetwork, DEFAULT_LOCAL_RESONANCE,
};

#[test]
fn loopback_broadcast_is_consumed() {
    let mut network = ZeroPointNetwork::new(DEFAULT_LOCAL_RESONANCE);
    let mut ether = IntentEther::new();
    broadcast_intent_global(&mut network, &mut ether, 12_345, b"hi");
    assert_eq!(ether.len(), 1);
    assert_eq!(consume_intent_global(&mut network), Some(b"hi".to_vec()));
    assert_eq!(consume_intent_global(&mut network), None);
}

#[test]
fn foreign_broadcast_only_reaches_the_ether() {
    let mut network = ZeroPointNetwork::new(5);
    let mut ether = IntentEther::new();
    broadcast_intent_global(&mut network, &mut ether, 6, b"elsewhere");
    assert_eq!(ether.len(), 1);
    assert_eq!(consume_intent_global(&mut network), None);
    drain_intent_ether_global(&mut ether);
    assert_eq!(ether.len(), 0);
}

#[test]
fn intents_are_consumed_oldest_first() {
    let mut network = ZeroPointNetwork::new(9);
    ingest_ambient_intent_global(&mut network, IntentPayload { target_resonance: 9, data: vec![1] });
    ingest_ambient_intent_global(&mut network, IntentPayload { target_resonance: 8, data: vec![2] });
    network.ingest_ambient_intent(IntentPayload { target_resonance: 9, data: vec![3] });
    assert_eq!(network.consume_intent(), Some(vec![1]));
    assert_eq!(network.consume_intent(), Some(vec![3]));
    assert_eq!(network.consume_intent(), None);
}

#[test]
fn retuning_changes_the_local_frequency() {
    let mut network = ZeroPointNetwork::new(1);
    tune_local_resonance(&mut network, 7_830_000_000);
    assert_eq!(local_resonance_global(&network), 7_830_000_000);
    assert_eq!(network.local_resonance, 7_830_000_000);
}

#[test]
fn first_order_chain_predictions() {
    let mut s = ChronoScheduler::new();
    assert_eq!(s.record_and_predict(1), Some(2));
    assert_eq!(s.record_and_predict(2), Some(3));
    assert_eq!(s.record_and_predict(3), Some(4));
    assert_eq!(s.record_and_predict(4), None);
    assert_eq!(s.take_staged_intent(), Some(4));
    assert_eq!(s.take_staged_intent(), None);
}

#[test]
fn workflow_chain_predicts_twelve() {
    let mut s = ChronoScheduler::new();
    assert_eq!(record_and_predict_global(&mut s, 10), None);
    assert_eq!(record_and_predict_global(&mut s, 11), Some(12));
    assert_eq!(take_staged_intent_global(&mut s), Some(12));
    assert_eq!(record_and_predict_global(&mut s, 11), None);
}

#[test]
fn workflow_chain_survives_history_cap() {
    let mut s = ChronoScheduler::new();
    for action in 100..160u32 {
        assert_eq!(s.record_and_predict(action), None);
    }
    assert_eq!(s.record_and_predict(10), None);
    assert_eq!(s.record_and_predict(11), Some(12));
}

#[test]
fn staged_intent_survives_unpredicted_actions() {
    let mut s = ChronoScheduler::new();
    s.record_and_predict(2);
    s.record_and_predict(50);
    assert_eq!(s.take_staged_intent(), Some(3));
}

#[test]
fn virtualizer_is_inert_until_enabled() {
    let mut v = ThermodynamicVirtualizer::new();
    harvest_idle_cycle_global(&mut v);
    assert_eq!(read_telemetry_global(&v).idle_ticks, 0);
    configure(&mut v, true);
    harvest_idle_cycle_global(&mut v);
    let t = read_telemetry_global(&v);
    assert_eq!(t.idle_ticks, 1);
    assert_eq!(t.thermal_noise_index, 833);
    assert_eq!(t.harvested_compute_units, 0);
    assert_eq!(telemetry_snapshot_global(&v), (1u64 << 32) | 833);
}

#[test]
fn bootstrap_runs_eight_passes() {
    let mut v = ThermodynamicVirtualizer::new();
    configure(&mut v, true);
    bootstrap(&mut v);
    let t = read_telemetry_global(&v);
    assert_eq!(t.idle_ticks, 8);
    assert_eq!(t.thermal_noise_index, 419);
    assert_eq!(t.harvested_compute_units, 4);
    service_idle(&mut v);
    assert_eq!(read_telemetry_global(&v).idle_ticks, 9);
}

#[test]
fn master_configuration_values() {
    assert!(temporal_sequencing_enabled());
    let c = utah_os_master_config();
    assert!(c.temporal_sequencing_enabled);
    assert!(c.thermodynamic_cooling_mode);
    assert_eq!(c.resonant_network_frequency, 7_830_000_000);
}

#[test]
fn applying_master_configuration_tunes_and_enables() {
    let mut network = ZeroPointNetwork::new(DEFAULT_LOCAL_RESONANCE);
    let mut v = ThermodynamicVirtualizer::new();
    let mut ghost = GhostDaemon::new();
    apply_master_configuration(&mut network, &mut v, &mut ghost);
    assert_eq!(local_resonance_global(&network), 7_830_000_000);
    harvest_idle_cycle_global(&mut v);
    assert_eq!(read_telemetry_global(&v).idle_ticks, 1);
}

#[test]
fn boot_brings_up_all_subsystems() {
    let mut network = ZeroPointNetwork::new(DEFAULT_LOCAL_RESONANCE);
    let mut v = ThermodynamicVirtualizer::new();
    let mut ghost = GhostDaemon::new();
    let mut fb = Framebuffer::new();
    boot(&mut network, &mut v, &mut ghost, &mut fb);
    assert_eq!(local_resonance_global(&network), 7_830_000_000);
    assert_eq!(read_telemetry_global(&v).idle_ticks, 8);
    assert!(fb.ready());
    let bytes = fb.as_bytes();
    // A splash panel border pixel at (40, 40): BGRA of (0x50, 0x90, 0xFF).
    let o = (40 * 800 + 40) * 4;
    assert_eq!(&bytes[o..o + 4], &[0xFF, 0x90, 0x50, 0xFF]);
    // The background at (5, 5) keeps the boot clear colour.
    let o = (5 * 800 + 5) * 4;
    assert_eq!(&bytes[o..o + 4], &[0x18, 0x0C, 0x08, 0xFF]);
}
