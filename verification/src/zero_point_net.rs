//! Zero-Point Network: resonance-frequency messaging without TCP/IP headers.
//! A node is identified by a frequency; intents addressed to the local frequency are
//! queued and consumed oldest first.
use vstd::prelude::*;

verus! {

/// A node is identified by vibrational frequency, not an IP address.
pub type ResonanceFrequency = u64;

/// Default frequency this kernel listens on until re-tuned.
pub const DEFAULT_LOCAL_RESONANCE: u64 = 12_345;

/// A raw, headerless block of intent. No TCP. No IP.
#[derive(Clone)]
pub struct IntentPayload {
    pub target_resonance: u64,
    pub data: Vec<u8>,
}

/// An intent as plain values: its target frequency and its bytes.
pub open spec fn intent_view(p: IntentPayload) -> (u64, Seq<u8>) {
    (p.target_resonance, p.data@)
}

/// The queue after an intent for `target` reaches a node tuned to `local`: it is appended
/// when the frequencies match and ignored otherwise.
pub open spec fn ingested(queue: Seq<(u64, Seq<u8>)>, local: u64, target: u64, data: Seq<u8>) -> Seq<(u64, Seq<u8>)> {
    if target == local {
        queue.push((target, data))
    } else {
        queue
    }
}

pub struct ZeroPointNetwork {
    pub local_resonance: u64,
    intent_buffer: Vec<IntentPayload>,
}

impl ZeroPointNetwork {
    /// The frequency this node is tuned to.
    pub closed spec fn resonance(&self) -> u64 {
        self.local_resonance
    }


    /// Waiting intents, oldest first.
    pub closed spec fn queue(&self) -> Seq<(u64, Seq<u8>)> {
        self.intent_buffer@.map_values(|p: IntentPayload| intent_view(p))
    }

    pub fn new(frequency: u64) -> (network: Self)
        ensures
            network.resonance() == frequency,
            network.queue() == Seq::<(u64, Seq<u8>)>::empty(),
    {
        let network = ZeroPointNetwork { local_resonance: frequency, intent_buffer: Vec::new() };
        assert(network.queue() =~= Seq::<(u64, Seq<u8>)>::empty());
        network
    }

    /// Queues an incoming wave-state when it is destined for this node's frequency.
    pub fn ingest_ambient_intent(&mut self, incoming: IntentPayload)
        ensures
            final(self).resonance() == old(self).resonance(),
            final(self).queue() == ingested(
                old(self).queue(),
                old(self).resonance(),
                incoming.target_resonance,
                incoming.data@,
            ),
    {
        if incoming.target_resonance == self.local_resonance {
            let ghost item = incoming;
            self.intent_buffer.push(incoming);
            assert(self.queue() =~= old(self).queue().push(intent_view(item)));
        }
    }

    /// Returns the oldest intent payload waiting for this node.
    pub fn consume_intent(&mut self) -> (data: Option<Vec<u8>>)
        ensures
            final(self).resonance() == old(self).resonance(),
            old(self).queue().len() == 0 ==> data is None && final(self).queue() == old(self).queue(),
            old(self).queue().len() > 0 ==> (data matches Some(d) && d@ == old(self).queue()[0].1
                && final(self).queue() == old(self).queue().drop_first()),
    {
        if self.intent_buffer.len() == 0 {
            return None;
        }
        let payload = self.intent_buffer.remove(0);
        assert(self.queue() =~= old(self).queue().drop_first());
        Some(payload.data)
    }
}

/// The simulated ether: every broadcast lands here until a NIC driver drains or injects it.
pub struct IntentEther {
    intents: Vec<IntentPayload>,
}

impl IntentEther {
    /// Broadcast intents in the order they were sent.
    pub closed spec fn contents(&self) -> Seq<(u64, Seq<u8>)> {
        self.intents@.map_values(|p: IntentPayload| intent_view(p))
    }

    pub fn new() -> (ether: Self)
        ensures
            ether.contents() == Seq::<(u64, Seq<u8>)>::empty(),
    {
        let ether = IntentEther { intents: Vec::new() };
        assert(ether.contents() =~= Seq::<(u64, Seq<u8>)>::empty());
        ether
    }

    /// Number of intents currently in the ether.
    pub fn len(&self) -> (n: usize)
        ensures
            n == self.contents().len(),
    {
        self.intents.len()
    }
}

fn copy_bytes(data: &[u8]) -> (copy: Vec<u8>)
    ensures
        copy@ == data@,
{
    vstd::slice::slice_to_vec(data)
}

/// Broadcasts intent to the ether, looping it back to this node when `target` matches the
/// local resonance.
pub fn broadcast_intent_global(network: &mut ZeroPointNetwork, ether: &mut IntentEther, target: u64, data: &[u8])
    ensures
        final(network).resonance() == old(network).resonance(),
        final(network).queue() == ingested(old(network).queue(), old(network).resonance(), target, data@),
        final(ether).contents() == old(ether).contents().push((target, data@)),
{
    let payload = IntentPayload { target_resonance: target, data: copy_bytes(data) };
    let loopback = IntentPayload { target_resonance: target, data: copy_bytes(data) };
    network.ingest_ambient_intent(loopback);
    let ghost item = payload;
    ether.intents.push(payload);
    assert(ether.contents() =~= old(ether).contents().push(intent_view(item)));
}

/// Delivers the next intent tuned to this node's local resonance frequency.
pub fn consume_intent_global(network: &mut ZeroPointNetwork) -> (data: Option<Vec<u8>>)
    ensures
        final(network).resonance() == old(network).resonance(),
        old(network).queue().len() == 0 ==> data is None && final(network).queue() == old(network).queue(),
        old(network).queue().len() > 0 ==> (data matches Some(d) && d@ == old(network).queue()[0].1
            && final(network).queue() == old(network).queue().drop_first()),
{
    network.consume_intent()
}

/// Retunes this node to a new mesh resonance frequency; queued intents stay.
pub fn tune_local_resonance(network: &mut ZeroPointNetwork, frequency: u64)
    ensures
        final(network).resonance() == frequency,
        final(network).queue() == old(network).queue(),
{
    network.local_resonance = frequency;
}

/// Returns the active local mesh frequency.
pub fn local_resonance_global(network: &ZeroPointNetwork) -> (frequency: u64)
    ensures
        frequency == network.resonance(),
{
    network.local_resonance
}

/// Clears the simulated intent ether.
pub fn drain_intent_ether_global(ether: &mut IntentEther)
    ensures
        final(ether).contents() == Seq::<(u64, Seq<u8>)>::empty(),
{
    ether.intents.clear();
    assert(ether.contents() =~= Seq::<(u64, Seq<u8>)>::empty());
}

/// Injects an intent as if it arrived from another node.
pub fn ingest_ambient_intent_global(network: &mut ZeroPointNetwork, incoming: IntentPayload)
    ensures
        final(network).resonance() == old(network).resonance(),
        final(network).queue() == ingested(
            old(network).queue(),
            old(network).resonance(),
            incoming.target_resonance,
            incoming.data@,
        ),
{
    network.ingest_ambient_intent(incoming);
}

/// Law (loopback): an intent addressed to the local frequency is queued behind everything
/// that was already waiting, so it is consumed right after them.
pub proof fn law_loopback_is_fifo(queue: Seq<(u64, Seq<u8>)>, local: u64, data: Seq<u8>)
    ensures
        ingested(queue, local, local, data).len() == queue.len() + 1,
        ingested(queue, local, local, data).subrange(0, queue.len() as int) == queue,
        ingested(queue, local, local, data)[queue.len() as int] == (local, data),
{
    assert(ingested(queue, local, local, data).subrange(0, queue.len() as int) =~= queue);
}

/// Law: an intent addressed to any other frequency never reaches this node.
pub proof fn law_foreign_intent_ignored(queue: Seq<(u64, Seq<u8>)>, local: u64, target: u64, data: Seq<u8>)
    requires
        target != local,
    ensures
        ingested(queue, local, target, data) == queue,
{
}

} // verus!
