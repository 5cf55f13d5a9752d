//! Ghost-Daemon: collapses volatile guest state into the Holographic File System, keeps the
//! snapshots queued for a final freeze, and tracks the phantom (void) sleep state.
//! Masking interrupts and halting the CPU is left to the platform layer.
use vstd::prelude::*;

use crate::chrono_scheduler::ChronoScheduler;
use crate::hfs::{manifested, resonance_signature_of, HolographicFileSystem};
use crate::zero_point_net::IntentEther;

verus! {

/// The store after each segment is manifested in turn.
pub open spec fn manifest_each(store: Map<u64, Seq<u8>>, segments: Seq<Seq<u8>>) -> Map<u64, Seq<u8>>
    decreases segments.len(),
{
    if segments.len() == 0 {
        store
    } else {
        manifested(manifest_each(store, segments.drop_last()), segments.last())
    }
}

/// All segments joined end to end.
pub open spec fn concat_segments(segments: Seq<Seq<u8>>) -> Seq<u8>
    decreases segments.len(),
{
    if segments.len() == 0 {
        Seq::empty()
    } else {
        concat_segments(segments.drop_last()) + segments.last()
    }
}

/// Control block of the ghost daemon.
pub struct GhostDaemon {
    /// Resonance signature of the last suspended ghost state (if any).
    ghost_state_signature: Option<u64>,
    /// Pending WASM linear-memory snapshots captured before a system freeze.
    wasm_linear_memory_snapshots: Vec<Vec<u8>>,
    /// Combined memory-state hash committed on the final freeze (if any).
    memory_state_resonance: Option<u64>,
    /// True while the CPU is in (or entering) phantom void state.
    phantom_void_active: bool,
    /// Counts void transitions (non-essential RAM releases).
    void_transition_counter: u32,
}

impl GhostDaemon {
    pub closed spec fn signature(&self) -> Option<u64> {
        self.ghost_state_signature
    }

    pub closed spec fn snapshots(&self) -> Seq<Seq<u8>> {
        self.wasm_linear_memory_snapshots@.map_values(|v: Vec<u8>| v@)
    }

    pub closed spec fn memory_resonance(&self) -> Option<u64> {
        self.memory_state_resonance
    }

    pub closed spec fn void_active(&self) -> bool {
        self.phantom_void_active
    }

    pub closed spec fn void_transitions(&self) -> u32 {
        self.void_transition_counter
    }

    /// The state `initialize` leaves behind: everything cleared but the transition counter.
    pub open spec fn initialized_from(&self, before: GhostDaemon) -> bool {
        &&& self.signature() is None
        &&& !self.void_active()
        &&& self.snapshots() == Seq::<Seq<u8>>::empty()
        &&& self.memory_resonance() is None
        &&& self.void_transitions() == before.void_transitions()
    }

    /// A control block in its power-on state.
    pub fn new() -> (ghost_daemon: Self)
        ensures
            ghost_daemon.signature() is None,
            !ghost_daemon.void_active(),
            ghost_daemon.snapshots() == Seq::<Seq<u8>>::empty(),
            ghost_daemon.memory_resonance() is None,
            ghost_daemon.void_transitions() == 0,
    {
        let g = GhostDaemon {
            ghost_state_signature: None,
            wasm_linear_memory_snapshots: Vec::new(),
            memory_state_resonance: None,
            phantom_void_active: false,
            void_transition_counter: 0,
        };
        assert(g.snapshots() =~= Seq::<Seq<u8>>::empty());
        g
    }
}

/// Initializes the ghost-daemon control block.
pub fn initialize(ghost: &mut GhostDaemon)
    ensures
        final(ghost).initialized_from(*old(ghost)),
{
    ghost.ghost_state_signature = None;
    ghost.phantom_void_active = false;
    ghost.wasm_linear_memory_snapshots.clear();
    ghost.memory_state_resonance = None;
    assert(ghost.snapshots() =~= Seq::<Seq<u8>>::empty());
}

/// Registers a WASM sandbox linear-memory segment for the final freeze snapshot; empty
/// segments are ignored.
pub fn register_wasm_linear_memory_snapshot(ghost: &mut GhostDaemon, data: &[u8])
    ensures
        final(ghost).snapshots() == (if data@.len() == 0 { old(ghost).snapshots() } else { old(ghost).snapshots().push(data@) }),
        final(ghost).signature() == old(ghost).signature(),
        final(ghost).memory_resonance() == old(ghost).memory_resonance(),
        final(ghost).void_active() == old(ghost).void_active(),
        final(ghost).void_transitions() == old(ghost).void_transitions(),
{
    if data.len() == 0 {
        return;
    }
    let segment = vstd::slice::slice_to_vec(data);
    let ghost seg = segment;
    ghost.wasm_linear_memory_snapshots.push(segment);
    assert(ghost.snapshots() =~= old(ghost).snapshots().push(seg@));
}

/// Collapses guest state into the HFS and records its resonance signature.
pub fn suspend_guest_state(ghost: &mut GhostDaemon, matrix: &mut HolographicFileSystem, state: &[u8]) -> (signature: u64)
    requires
        old(matrix).wf(),
    ensures
        final(matrix).wf(),
        signature == resonance_signature_of(state@),
        final(matrix)@ == manifested(old(matrix)@, state@),
        final(ghost).signature() == Some(signature),
        final(ghost).snapshots() == old(ghost).snapshots(),
        final(ghost).memory_resonance() == old(ghost).memory_resonance(),
        final(ghost).void_active() == old(ghost).void_active(),
        final(ghost).void_transitions() == old(ghost).void_transitions(),
{
    let signature = crate::hfs::manifest_data_global(matrix, state);
    ghost.ghost_state_signature = Some(signature);
    signature
}

/// Restores the last suspended ghost state into `destination` (as much as fits) and returns
/// the number of bytes written; `None` when nothing was suspended or the state is gone.
pub fn resume_guest_state(ghost: &GhostDaemon, matrix: &HolographicFileSystem, destination: &mut [u8]) -> (written: Option<usize>)
    requires
        matrix.wf(),
    ensures
        ghost.signature() is None ==> written is None && final(destination)@ == old(destination)@,
        ghost.signature() matches Some(signature) ==> {
            &&& written.is_some() == matrix@.contains_key(signature)
            &&& written is None ==> final(destination)@ == old(destination)@
            &&& written matches Some(n) ==> {
                let payload = matrix@[signature];
                &&& n as int == if payload.len() <= old(destination)@.len() { payload.len() as int } else { old(destination)@.len() as int }
                &&& final(destination)@ == payload.subrange(0, n as int) + old(destination)@.subrange(n as int, old(destination)@.len() as int)
            }
        },
{
    let signature = match ghost.ghost_state_signature {
        Some(s) => s,
        None => {
            return None;
        },
    };
    crate::hfs::retrieve_data_global(matrix, signature, destination)
}

/// Returns the resonance signature of the last ghost snapshot (0 if none).
pub fn last_ghost_signature(ghost: &GhostDaemon) -> (signature: u64)
    ensures
        signature == match ghost.signature() {
            Some(s) => s,
            None => 0,
        },
{
    match ghost.ghost_state_signature {
        Some(signature) => signature,
        None => 0,
    }
}

/// Returns whether the system is in phantom void state.
pub fn phantom_void_active(ghost: &GhostDaemon) -> (active: bool)
    ensures
        active == ghost.void_active(),
{
    ghost.phantom_void_active
}

/// Drops non-essential volatile buffers: the simulated intent ether and any staged intent.
/// The HFS and the ghost signature stay intact.
fn clear_nonessential_ram_segments(ghost: &mut GhostDaemon, ether: &mut IntentEther, scheduler: &mut ChronoScheduler)
    ensures
        final(ether).contents() == Seq::<(u64, Seq<u8>)>::empty(),
        final(scheduler).staged() is None,
        final(scheduler).history() == old(scheduler).history(),
        final(scheduler).wf() == old(scheduler).wf(),
        final(ghost).void_transitions() == (old(ghost).void_transitions() + 1) % 0x1_0000_0000,
        final(ghost).signature() == old(ghost).signature(),
        final(ghost).snapshots() == old(ghost).snapshots(),
        final(ghost).memory_resonance() == old(ghost).memory_resonance(),
        final(ghost).void_active() == old(ghost).void_active(),
{
    crate::zero_point_net::drain_intent_ether_global(ether);
    let _ = crate::chrono_scheduler::take_staged_intent_global(scheduler);
    ghost.void_transition_counter = ghost.void_transition_counter.wrapping_add(1);
}

/// Prepares memory before the irreversible void transition: clears non-essential RAM and
/// marks the phantom void state active.
pub fn prepare_void_transition(ghost: &mut GhostDaemon, ether: &mut IntentEther, scheduler: &mut ChronoScheduler)
    ensures
        final(ether).contents() == Seq::<(u64, Seq<u8>)>::empty(),
        final(scheduler).staged() is None,
        final(scheduler).history() == old(scheduler).history(),
        final(scheduler).wf() == old(scheduler).wf(),
        final(ghost).void_active(),
        final(ghost).void_transitions() == (old(ghost).void_transitions() + 1) % 0x1_0000_0000,
        final(ghost).signature() == old(ghost).signature(),
        final(ghost).snapshots() == old(ghost).snapshots(),
        final(ghost).memory_resonance() == old(ghost).memory_resonance(),
{
    clear_nonessential_ram_segments(ghost, ether, scheduler);
    ghost.phantom_void_active = true;
}

/// Clears the phantom void flag after a heartbeat wake.
pub fn wake_from_phantom(ghost: &mut GhostDaemon)
    ensures
        !final(ghost).void_active(),
        final(ghost).signature() == old(ghost).signature(),
        final(ghost).snapshots() == old(ghost).snapshots(),
        final(ghost).memory_resonance() == old(ghost).memory_resonance(),
        final(ghost).void_transitions() == old(ghost).void_transitions(),
{
    ghost.phantom_void_active = false;
}

/// Number of registered WASM segments awaiting freeze.
pub fn pending_wasm_snapshot_count(ghost: &GhostDaemon) -> (count: usize)
    ensures
        count == ghost.snapshots().len(),
{
    ghost.wasm_linear_memory_snapshots.len()
}

/// Last committed memory-state resonance signature (0 if none).
pub fn memory_state_resonance(ghost: &GhostDaemon) -> (signature: u64)
    ensures
        signature == match ghost.memory_resonance() {
            Some(s) => s,
            None => 0,
        },
{
    match ghost.memory_state_resonance {
        Some(s) => s,
        None => 0,
    }
}

/// Everything the final freeze does before the CPU halts: each pending WASM snapshot is
/// committed to the HFS (the ghost signature ends on the last one), the snapshots joined end
/// to end are committed as the memory state, the queue is emptied, and the void transition is
/// prepared. Returns whether there were snapshots to commit.
pub fn commit_system_freeze(
    ghost: &mut GhostDaemon,
    matrix: &mut HolographicFileSystem,
    ether: &mut IntentEther,
    scheduler: &mut ChronoScheduler,
) -> (committed: bool)
    requires
        old(matrix).wf(),
    ensures
        final(matrix).wf(),
        committed == (old(ghost).snapshots().len() > 0),
        final(ghost).snapshots() == Seq::<Seq<u8>>::empty(),
        !committed ==> {
            &&& final(matrix)@ == old(matrix)@
            &&& final(ghost).signature() == old(ghost).signature()
            &&& final(ghost).memory_resonance() == old(ghost).memory_resonance()
        },
        committed ==> {
            let segments = old(ghost).snapshots();
            &&& final(matrix)@ == manifested(manifest_each(old(matrix)@, segments), concat_segments(segments))
            &&& final(ghost).signature() == Some(resonance_signature_of(segments.last()))
            &&& final(ghost).memory_resonance() == Some(resonance_signature_of(concat_segments(segments)))
        },
        final(ghost).void_active(),
        final(ghost).void_transitions() == (old(ghost).void_transitions() + 1) % 0x1_0000_0000,
        final(ether).contents() == Seq::<(u64, Seq<u8>)>::empty(),
        final(scheduler).staged() is None,
        final(scheduler).history() == old(scheduler).history(),
        final(scheduler).wf() == old(scheduler).wf(),
{
    let mut snapshots: Vec<Vec<u8>> = Vec::new();
    core::mem::swap(&mut snapshots, &mut ghost.wasm_linear_memory_snapshots);
    let ghost segments = snapshots@.map_values(|v: Vec<u8>| v@);
    assert(segments == old(ghost).snapshots());
    assert(ghost.snapshots() =~= Seq::<Seq<u8>>::empty());
    let committed = snapshots.len() > 0;
    if committed {
        let mut combined: Vec<u8> = Vec::new();
        let mut k: usize = 0;
        while k < snapshots.len()
            invariant
                k <= snapshots@.len(),
                segments == snapshots@.map_values(|v: Vec<u8>| v@),
                matrix.wf(),
                matrix@ == manifest_each(old(matrix)@, segments.subrange(0, k as int)),
                combined@ == concat_segments(segments.subrange(0, k as int)),
                k > 0 ==> ghost.ghost_state_signature == Some(resonance_signature_of(segments[k - 1])),
                ghost.snapshots() == Seq::<Seq<u8>>::empty(),
                ghost.memory_state_resonance == old(ghost).memory_resonance(),
                ghost.phantom_void_active == old(ghost).void_active(),
                ghost.void_transition_counter == old(ghost).void_transitions(),
            decreases snapshots.len() - k,
        {
            let segment = &snapshots[k];
            let ghost before = combined@;
            let mut j: usize = 0;
            while j < segment.len()
                invariant
                    j <= segment@.len(),
                    combined@ == before + segment@.subrange(0, j as int),
                decreases segment.len() - j,
            {
                combined.push(segment[j]);
                j = j + 1;
                assert(combined@ =~= before + segment@.subrange(0, j as int));
            }
            assert(segment@.subrange(0, segment@.len() as int) =~= segment@);
            let segment_signature = crate::hfs::manifest_data_global(matrix, segment.as_slice());
            ghost.ghost_state_signature = Some(segment_signature);
            assert(segments.subrange(0, k + 1).drop_last() =~= segments.subrange(0, k as int));
            k = k + 1;
        }
        assert(segments.subrange(0, segments.len() as int) =~= segments);
        let master_signature = crate::hfs::manifest_data_global(matrix, combined.as_slice());
        ghost.memory_state_resonance = Some(master_signature);
    }
    prepare_void_transition(ghost, ether, scheduler);
    committed
}

/// Law: a suspended state is found again by `resume_guest_state` under the recorded signature,
/// byte for byte unless a different state with the same signature was stored before.
pub proof fn law_suspend_then_resume(store: Map<u64, Seq<u8>>, state: Seq<u8>)
    ensures
        manifested(store, state).contains_key(resonance_signature_of(state)),
        !store.contains_key(resonance_signature_of(state)) || store[resonance_signature_of(state)] == state
            ==> manifested(store, state)[resonance_signature_of(state)] == state,
{
}

/// Law: the memory-state signature of a freeze covers every snapshot in registration order.
pub proof fn law_freeze_concatenates_in_order(segments: Seq<Seq<u8>>, last: Seq<u8>)
    ensures
        concat_segments(segments.push(last)) == concat_segments(segments) + last,
        concat_segments(segments.push(last)).len() == concat_segments(segments).len() + last.len(),
{
    assert(segments.push(last).drop_last() =~= segments);
}

} // verus!
