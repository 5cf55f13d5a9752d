//! Holographic File System: content-addressable in-kernel storage keyed by a DJB2 hash
//! of the stored bytes (the "resonance signature").
use vstd::prelude::*;

verus! {

/// DJB2 over a byte sequence, in 64-bit wrapping arithmetic: start at 5381 and, for each
/// byte `c`, replace `h` by `h * 33 + c` modulo 2^64.
pub open spec fn resonance_signature_of(data: Seq<u8>) -> u64
    decreases data.len(),
{
    if data.len() == 0 {
        5381
    } else {
        ((resonance_signature_of(data.drop_last()) * 33 + data.last()) % 0x1_0000_0000_0000_0000) as u64
    }
}

/// The store after `data` is manifested into `store`: a new entry under its signature,
/// unless that signature is already present (absolute deduplication).
pub open spec fn manifested(store: Map<u64, Seq<u8>>, data: Seq<u8>) -> Map<u64, Seq<u8>> {
    let signature = resonance_signature_of(data);
    if store.contains_key(signature) {
        store
    } else {
        store.insert(signature, data)
    }
}

/// Every key of the store is the signature of the payload it maps to.
pub open spec fn content_addressed(store: Map<u64, Seq<u8>>) -> bool {
    &&& store.dom().finite()
    &&& forall|k: u64| #[trigger] store.contains_key(k) ==> k == resonance_signature_of(store[k])
}

/// Computes the resonance signature (DJB2 hash) of raw bytes.
pub fn calculate_resonance_signature(data: &[u8]) -> (signature: u64)
    ensures
        signature == resonance_signature_of(data@),
{
    let mut hash: u64 = 5381;
    let mut i: usize = 0;
    while i < data.len()
        invariant
            i <= data@.len(),
            hash == resonance_signature_of(data@.subrange(0, i as int)),
        decreases data.len() - i,
    {
        assert(data@.subrange(0, i + 1).drop_last() =~= data@.subrange(0, i as int));
        hash = hash.wrapping_mul(33).wrapping_add(data[i] as u64);
        i = i + 1;
    }
    assert(data@.subrange(0, data@.len() as int) =~= data@);
    hash
}

/// A stored blob has no path or filename, only its content hash (resonance signature).
pub struct Hologram {
    pub resonance_signature: u64,
    pub payload: Vec<u8>,
}

pub struct HolographicFileSystem {
    matrix: Vec<Hologram>,
}

impl View for HolographicFileSystem {
    type V = Map<u64, Seq<u8>>;

    /// Each stored signature mapped to its payload.
    closed spec fn view(&self) -> Map<u64, Seq<u8>> {
        Map::new(
            |k: u64| exists|i: int| 0 <= i < self.matrix@.len() && self.matrix@[i].resonance_signature == k,
            |k: u64|
                self.matrix@[choose|i: int|
                    0 <= i < self.matrix@.len() && self.matrix@[i].resonance_signature == k].payload@,
        )
    }
}

impl HolographicFileSystem {
    /// Internal invariant: signatures are unique and each one is the hash of its payload.
    pub closed spec fn wf(&self) -> bool {
        &&& forall|i: int, j: int|
            0 <= i < j < self.matrix@.len() ==> #[trigger] self.matrix@[i].resonance_signature
                != #[trigger] self.matrix@[j].resonance_signature
        &&& forall|i: int|
            0 <= i < self.matrix@.len() ==> #[trigger] self.matrix@[i].resonance_signature
                == resonance_signature_of(self.matrix@[i].payload@)
    }

    proof fn lemma_view_at(&self, i: int)
        requires
            self.wf(),
            0 <= i < self.matrix@.len(),
        ensures
            self@.contains_key(self.matrix@[i].resonance_signature),
            self@[self.matrix@[i].resonance_signature] == self.matrix@[i].payload@,
    {
        let k = self.matrix@[i].resonance_signature;
        assert(self@.contains_key(k));
        let j = choose|j: int| 0 <= j < self.matrix@.len() && self.matrix@[j].resonance_signature == k;
        if j != i {
            if j < i {
                assert(self.matrix@[j].resonance_signature != self.matrix@[i].resonance_signature);
            } else {
                assert(self.matrix@[i].resonance_signature != self.matrix@[j].resonance_signature);
            }
        }
    }

    /// The view of a well-formed store is content addressed.
    pub proof fn lemma_wf_content_addressed(&self)
        requires
            self.wf(),
        ensures
            content_addressed(self@),
    {
        let dom = self@.dom();
        let sigs = Set::new(|k: u64| exists|i: int| 0 <= i < self.matrix@.len() && self.matrix@[i].resonance_signature == k);
        let idx = Set::new(|i: int| 0 <= i < self.matrix@.len());
        assert(idx =~= vstd::set_lib::set_int_range(0, self.matrix@.len() as int));
        vstd::set_lib::lemma_int_range(0, self.matrix@.len() as int);
        let f = |i: int| self.matrix@[i].resonance_signature;
        assert(dom =~= idx.map(f)) by {
            assert forall|k: u64| dom.contains(k) implies idx.map(f).contains(k) by {
                let i = choose|i: int| 0 <= i < self.matrix@.len() && self.matrix@[i].resonance_signature == k;
                assert(idx.contains(i) && f(i) == k);
            }
        }
        idx.lemma_map_finite(f);
        assert forall|k: u64| #[trigger] self@.contains_key(k) implies k == resonance_signature_of(self@[k]) by {
            let i = choose|i: int| 0 <= i < self.matrix@.len() && self.matrix@[i].resonance_signature == k;
            self.lemma_view_at(i);
        }
    }

    /// Creates an empty store.
    pub fn new() -> (fs: Self)
        ensures
            fs.wf(),
            fs@ == Map::<u64, Seq<u8>>::empty(),
    {
        let fs = HolographicFileSystem { matrix: Vec::new() };
        assert(fs@ =~= Map::<u64, Seq<u8>>::empty());
        fs
    }

    /// Ingests raw data, computes its resonance signature, and stores it if no blob with
    /// that signature is already present. Returns the signature.
    pub fn manifest_data(&mut self, data: &[u8]) -> (signature: u64)
        requires
            old(self).wf(),
        ensures
            final(self).wf(),
            signature == resonance_signature_of(data@),
            final(self)@ == manifested(old(self)@, data@),
    {
        let signature = calculate_resonance_signature(data);
        let found = self.retrieve_data(signature).is_none();
        if found {
            let ghost old_matrix = self.matrix@;
            let payload = vstd::slice::slice_to_vec(data);
            self.matrix.push(Hologram { resonance_signature: signature, payload });
            proof {
                let n = old_matrix.len() as int;
                assert forall|i: int| 0 <= i < n implies #[trigger] self.matrix@[i] == old_matrix[i] by {}
                assert forall|i: int, j: int|
                    0 <= i < j < self.matrix@.len() implies #[trigger] self.matrix@[i].resonance_signature
                        != #[trigger] self.matrix@[j].resonance_signature by {
                    if j == n {
                        assert(old_matrix[i].resonance_signature != signature);
                    }
                }
                let expected = old(self)@.insert(signature, data@);
                assert forall|k: u64| #[trigger] self@.contains_key(k) == expected.contains_key(k) by {
                    if self@.contains_key(k) {
                        let i = choose|i: int| 0 <= i < self.matrix@.len() && self.matrix@[i].resonance_signature == k;
                        if i < n {
                            assert(old(self)@.contains_key(k));
                        }
                    }
                    if old(self)@.contains_key(k) {
                        let i = choose|i: int| 0 <= i < old_matrix.len() && old_matrix[i].resonance_signature == k;
                        assert(self.matrix@[i].resonance_signature == k);
                    }
                    if k == signature {
                        assert(self.matrix@[n].resonance_signature == k);
                    }
                }
                assert forall|k: u64| #[trigger] self@.contains_key(k) implies self@[k] == expected[k] by {
                    let i = choose|i: int| 0 <= i < self.matrix@.len() && self.matrix@[i].resonance_signature == k;
                    self.lemma_view_at(i);
                    if i < n {
                        old(self).lemma_view_at(i);
                    }
                }
                assert(self@ =~= expected);
            }
        }
        signature
    }

    /// Returns a view of the stored bytes for the given resonance signature, if any.
    pub fn retrieve_data(&self, signature: u64) -> (found: Option<&[u8]>)
        requires
            self.wf(),
        ensures
            found.is_some() == self@.contains_key(signature),
            found matches Some(bytes) ==> bytes@ == self@[signature],
    {
        let mut i: usize = 0;
        while i < self.matrix.len()
            invariant
                self.wf(),
                i <= self.matrix@.len(),
                forall|j: int| 0 <= j < i ==> self.matrix@[j].resonance_signature != signature,
            decreases self.matrix.len() - i,
        {
            if self.matrix[i].resonance_signature == signature {
                proof {
                    self.lemma_view_at(i as int);
                }
                return Some(self.matrix[i].payload.as_slice());
            }
            i = i + 1;
        }
        None
    }
}

/// Stores data in the matrix and returns its resonance signature.
pub fn manifest_data_global(matrix: &mut HolographicFileSystem, data: &[u8]) -> (signature: u64)
    requires
        old(matrix).wf(),
    ensures
        final(matrix).wf(),
        signature == resonance_signature_of(data@),
        final(matrix)@ == manifested(old(matrix)@, data@),
{
    matrix.manifest_data(data)
}

/// Copies the stored data for a signature into `out` (as much as fits) and returns the
/// number of bytes written; `None` when the signature is unknown.
pub fn retrieve_data_global(matrix: &HolographicFileSystem, signature: u64, out: &mut [u8]) -> (written: Option<usize>)
    requires
        matrix.wf(),
    ensures
        written.is_some() == matrix@.contains_key(signature),
        written is None ==> final(out)@ == old(out)@,
        written matches Some(n) ==> {
            let payload = matrix@[signature];
            &&& n as int == if payload.len() <= old(out)@.len() { payload.len() as int } else { old(out)@.len() as int }
            &&& final(out)@ == payload.subrange(0, n as int) + old(out)@.subrange(n as int, old(out)@.len() as int)
        },
{
    match matrix.retrieve_data(signature) {
        None => None,
        Some(payload) => {
            let length = if payload.len() <= out.len() { payload.len() } else { out.len() };
            let mut i: usize = 0;
            while i < length
                invariant
                    i <= length,
                    length <= payload@.len(),
                    length <= old(out)@.len(),
                    out@.len() == old(out)@.len(),
                    forall|j: int| 0 <= j < i ==> out@[j] == payload@[j],
                    forall|j: int| i <= j < out@.len() ==> out@[j] == old(out)@[j],
                decreases length - i,
            {
                out[i] = payload[i];
                i = i + 1;
            }
            assert(out@ =~= payload@.subrange(0, length as int) + old(out)@.subrange(length as int, old(out)@.len() as int));
            Some(length)
        },
    }
}

/// Returns the full byte length of a stored hologram (for sizing guest buffers).
pub fn hologram_length_global(matrix: &HolographicFileSystem, signature: u64) -> (length: Option<usize>)
    requires
        matrix.wf(),
    ensures
        length.is_some() == matrix@.contains_key(signature),
        length matches Some(n) ==> n == matrix@[signature].len(),
{
    match matrix.retrieve_data(signature) {
        Some(data) => Some(data.len()),
        None => None,
    }
}

/// Law: a manifested blob can always be found again under its signature, and it reads back
/// exactly the bytes written unless a different blob with the same signature was stored first.
pub proof fn law_manifest_then_retrieve(store: Map<u64, Seq<u8>>, data: Seq<u8>)
    ensures
        manifested(store, data).contains_key(resonance_signature_of(data)),
        !store.contains_key(resonance_signature_of(data)) ==> manifested(store, data)[resonance_signature_of(data)] == data,
        store.contains_key(resonance_signature_of(data)) ==> manifested(store, data)[resonance_signature_of(data)]
            == store[resonance_signature_of(data)],
{
}

/// Law: manifesting the same bytes twice stores them once (absolute deduplication).
pub proof fn law_manifest_idempotent(store: Map<u64, Seq<u8>>, data: Seq<u8>)
    ensures
        manifested(manifested(store, data), data) == manifested(store, data),
{
}

/// Law: manifesting never changes or removes what was stored before.
pub proof fn law_manifest_preserves_existing(store: Map<u64, Seq<u8>>, data: Seq<u8>, k: u64)
    requires
        store.contains_key(k),
    ensures
        manifested(store, data).contains_key(k),
        manifested(store, data)[k] == store[k],
{
}

/// Law: the store stays content addressed: every key is the signature of its payload.
pub proof fn law_manifest_keeps_content_addressing(store: Map<u64, Seq<u8>>, data: Seq<u8>)
    requires
        content_addressed(store),
    ensures
        content_addressed(manifested(store, data)),
{
}

} // verus!
