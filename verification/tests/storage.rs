use utah_kernel::chrono_scheduler::ChronoScheduler;
use utah_kernel::delta_wave_patch::{apply_delta_wave, commit_patched_image};
use utah_kernel::ghost_daemon::{
    commit_system_freeze, initialize, last_ghost_signature, memory_state_resonance, pending_wasm_snapshot_count,
    phantom_void_active, prepare_void_transition, register_wasm_linear_memory_snapshot, resume_guest_state,
    suspend_guest_state, wake_from_phantom, GhostDaemon,
};
use utah_kernel::hfs::{
    calculate_resonance_signature, hologram_length_global, manifest_data_global, retrieve_data_global,
    HolographicFileSystem,
};
use utah_kernel::zero_point_net::{broadcast_intent_global, IntentEther, ZeroPointNetwork};

#[test]
fn djb2_signatures_of_known_inputs() {
    assert_eq!(calculate_resonance_signature(b""), 5381);
    assert_eq!(calculate_resonance_signature(b"a"), 177670);
    assert_eq!(calculate_resonance_signature(b"ab"), 5863208);
    assert_eq!(calculate_resonance_signature(b"hello"), 210714636441);
}

#[test]
fn manifest_then_retrieve_returns_the_bytes() {
    let mut fs = HolographicFileSystem::new();
    let sig = fs.manifest_data(b"hello");
    assert_eq!(sig, 210714636441);
    assert_eq!(fs.retrieve_data(sig), Some(&b"hello"[..]));
    assert_eq!(fs.retrieve_data(sig + 1), None);
}

#[test]
fn manifest_is_deduplicated() {
    let mut fs = HolographicFileSystem::new();
    let a = manifest_data_global(&mut fs, b"same bytes");
    let b = manifest_data_global(&mut fs, b"same bytes");
    assert_eq!(a, b);
    assert_eq!(hologram_length_global(&fs, a), Some(10));
    let c = manifest_data_global(&mut fs, b"other");
    assert_ne!(a, c);
    assert_eq!(fs.retrieve_data(a), Some(&b"same bytes"[..]));
    assert_eq!(fs.retrieve_data(c), Some(&b"other"[..]));
}

#[test]
fn retrieve_global_copies_what_fits() {
    let mut fs = HolographicFileSystem::new();
    let sig = manifest_data_global(&mut fs, b"abcdef");
    let mut small = [9u8; 4];
    assert_eq!(retrieve_data_global(&fs, sig, &mut small), Some(4));
    assert_eq!(small, *b"abcd");
    let mut large = [9u8; 8];
    assert_eq!(retrieve_data_global(&fs, sig, &mut large), Some(6));
    assert_eq!(large, [b'a', b'b', b'c', b'd', b'e', b'f', 9, 9]);
    let mut untouched = [7u8; 3];
    assert_eq!(retrieve_data_global(&fs, 42, &mut untouched), None);
    assert_eq!(untouched, [7, 7, 7]);
    assert_eq!(hologram_length_global(&fs, 42), None);
}

#[test]
fn delta_xor_and_extension() {
    assert_eq!(apply_delta_wave(&[1, 2, 3], &[]), Ok(vec![1, 2, 3]));
    assert_eq!(apply_delta_wave(&[0xF0, 0x0F, 0xAA], &[0xFF, 0xFF]), Ok(vec![0x0F, 0xF0, 0xAA]));
    assert_eq!(apply_delta_wave(&[1], &[1, 7, 8]), Ok(vec![0, 7, 8]));
    assert_eq!(apply_delta_wave(&[], &[5]), Ok(vec![5]));
}

#[test]
fn delta_applied_twice_restores_image() {
    let base = [10u8, 20, 30, 40];
    let delta = [0x55u8, 0xAA];
    let once = apply_delta_wave(&base, &delta).unwrap();
    let twice = apply_delta_wave(&once, &delta).unwrap();
    assert_eq!(twice, base.to_vec());
}

#[test]
fn committed_patch_is_stored_in_hfs() {
    let mut fs = HolographicFileSystem::new();
    let sig = commit_patched_image(&mut fs, b"ab", &[0, 0, b'c']).unwrap();
    assert_eq!(sig, 193485963);
    assert_eq!(fs.retrieve_data(sig), Some(&b"abc"[..]));
}

#[test]
fn ghost_suspend_then_resume() {
    let mut ghost = GhostDaemon::new();
    let mut fs = HolographicFileSystem::new();
    let mut dest = [0u8; 8];
    assert_eq!(resume_guest_state(&ghost, &fs, &mut dest), None);
    assert_eq!(last_ghost_signature(&ghost), 0);
    let sig = suspend_guest_state(&mut ghost, &mut fs, b"state!");
    assert_eq!(sig, calculate_resonance_signature(b"state!"));
    assert_eq!(last_ghost_signature(&ghost), sig);
    assert_eq!(resume_guest_state(&ghost, &fs, &mut dest), Some(6));
    assert_eq!(&dest[..6], b"state!");
}

#[test]
fn snapshots_ignore_empty_segments() {
    let mut ghost = GhostDaemon::new();
    register_wasm_linear_memory_snapshot(&mut ghost, b"");
    assert_eq!(pending_wasm_snapshot_count(&ghost), 0);
    register_wasm_linear_memory_snapshot(&mut ghost, b"ab");
    register_wasm_linear_memory_snapshot(&mut ghost, b"c");
    assert_eq!(pending_wasm_snapshot_count(&ghost), 2);
}

#[test]
fn freeze_commits_segments_and_combined_state() {
    let mut ghost = GhostDaemon::new();
    let mut fs = HolographicFileSystem::new();
    let mut ether = IntentEther::new();
    let mut network = ZeroPointNetwork::new(1);
    let mut scheduler = ChronoScheduler::new();
    broadcast_intent_global(&mut network, &mut ether, 1, b"x");
    scheduler.record_and_predict(1);
    register_wasm_linear_memory_snapshot(&mut ghost, b"ab");
    register_wasm_linear_memory_snapshot(&mut ghost, b"c");
    assert!(commit_system_freeze(&mut ghost, &mut fs, &mut ether, &mut scheduler));
    assert_eq!(pending_wasm_snapshot_count(&ghost), 0);
    assert_eq!(memory_state_resonance(&ghost), calculate_resonance_signature(b"abc"));
    assert_eq!(last_ghost_signature(&ghost), calculate_resonance_signature(b"c"));
    assert_eq!(fs.retrieve_data(calculate_resonance_signature(b"ab")), Some(&b"ab"[..]));
    assert_eq!(fs.retrieve_data(calculate_resonance_signature(b"abc")), Some(&b"abc"[..]));
    assert!(phantom_void_active(&ghost));
    assert_eq!(ether.len(), 0);
    assert_eq!(scheduler.take_staged_intent(), None);
}

#[test]
fn freeze_without_snapshots_commits_nothing() {
    let mut ghost = GhostDaemon::new();
    let mut fs = HolographicFileSystem::new();
    let mut ether = IntentEther::new();
    let mut scheduler = ChronoScheduler::new();
    assert!(!commit_system_freeze(&mut ghost, &mut fs, &mut ether, &mut scheduler));
    assert_eq!(memory_state_resonance(&ghost), 0);
    assert_eq!(last_ghost_signature(&ghost), 0);
    assert!(phantom_void_active(&ghost));
}

#[test]
fn void_transition_and_wake() {
    let mut ghost = GhostDaemon::new();
    let mut ether = IntentEther::new();
    let mut scheduler = ChronoScheduler::new();
    assert!(!phantom_void_active(&ghost));
    prepare_void_transition(&mut ghost, &mut ether, &mut scheduler);
    assert!(phantom_void_active(&ghost));
    wake_from_phantom(&mut ghost);
    assert!(!phantom_void_active(&ghost));
}

#[test]
fn initialize_clears_control_block() {
    let mut ghost = GhostDaemon::new();
    let mut fs = HolographicFileSystem::new();
    suspend_guest_state(&mut ghost, &mut fs, b"s");
    register_wasm_linear_memory_snapshot(&mut ghost, b"m");
    initialize(&mut ghost);
    assert_eq!(last_ghost_signature(&ghost), 0);
    assert_eq!(pending_wasm_snapshot_count(&ghost), 0);
    assert!(!phantom_void_active(&ghost));
    assert_eq!(memory_state_resonance(&ghost), 0);
}
