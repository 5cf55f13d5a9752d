//! Delta-Wave in-place patching: apply XOR deltas to binary images without a full reinstall.
use vstd::prelude::*;

use crate::hfs::{manifested, HolographicFileSystem};

verus! {

/// The image after a delta: each byte of `base` covered by the delta is XOR-ed with the
/// delta byte at the same index, and delta bytes past the end of `base` are appended.
pub open spec fn patched(base: Seq<u8>, delta: Seq<u8>) -> Seq<u8> {
    let len = if base.len() >= delta.len() { base.len() } else { delta.len() };
    Seq::new(
        len,
        |i: int|
            if i < base.len() && i < delta.len() {
                base[i] ^ delta[i]
            } else if i < base.len() {
                base[i]
            } else {
                delta[i]
            },
    )
}

/// Applies a simple XOR delta stream to `base` and returns the patched image.
/// It never fails; the `Result` leaves room for signature checks.
pub fn apply_delta_wave(base: &[u8], delta: &[u8]) -> (result: Result<Vec<u8>, ()>)
    ensures
        result matches Ok(image) && image@ == patched(base@, delta@),
{
    if delta.len() == 0 {
        let image = vstd::slice::slice_to_vec(base);
        assert(image@ =~= patched(base@, delta@));
        return Ok(image);
    }
    let mut output = vstd::slice::slice_to_vec(base);
    let mut index: usize = 0;
    while index < delta.len()
        invariant
            index <= delta@.len(),
            output@.len() == if base@.len() >= index { base@.len() as int } else { index as int },
            forall|i: int|
                0 <= i < output@.len() ==> #[trigger] output@[i] == (if i < base@.len() && i < index {
                    base@[i] ^ delta@[i]
                } else if i < base@.len() {
                    base@[i]
                } else {
                    delta@[i]
                }),
        decreases delta.len() - index,
    {
        let patch_byte = delta[index];
        if index >= output.len() {
            output.push(patch_byte);
        } else {
            let patched_byte = output[index] ^ patch_byte;
            output.set(index, patched_byte);
        }
        index = index + 1;
    }
    assert(output@ =~= patched(base@, delta@));
    Ok(output)
}

/// Stores a patched image in the Holographic File System and returns its resonance signature.
pub fn commit_patched_image(matrix: &mut HolographicFileSystem, base: &[u8], delta: &[u8]) -> (result: Result<u64, ()>)
    requires
        old(matrix).wf(),
    ensures
        final(matrix).wf(),
        result matches Ok(signature) && signature == crate::hfs::resonance_signature_of(patched(base@, delta@))
            && final(matrix)@ == manifested(old(matrix)@, patched(base@, delta@)),
{
    let patched_image = match apply_delta_wave(base, delta) {
        Ok(image) => image,
        Err(e) => {
            return Err(e);
        },
    };
    Ok(crate::hfs::manifest_data_global(matrix, patched_image.as_slice()))
}

/// Law: an empty delta leaves the image unchanged.
pub proof fn law_empty_delta_is_identity(base: Seq<u8>)
    ensures
        patched(base, Seq::empty()) == base,
{
    assert(patched(base, Seq::empty()) =~= base);
}

/// Law: applying the same delta twice restores the base image when the delta is no longer
/// than the image (XOR is its own inverse).
pub proof fn law_delta_is_involution(base: Seq<u8>, delta: Seq<u8>)
    requires
        delta.len() <= base.len(),
    ensures
        patched(patched(base, delta), delta) == base,
{
    let once = patched(base, delta);
    assert forall|i: int| 0 <= i < base.len() implies #[trigger] patched(once, delta)[i] == base[i] by {
        if i < delta.len() {
            let b = base[i];
            let d = delta[i];
            assert((b ^ d) ^ d == b) by (bit_vector);
        }
    }
    assert(patched(once, delta) =~= base);
}

/// Law: a delta longer than the image appends its tail unchanged.
pub proof fn law_delta_extends_image(base: Seq<u8>, delta: Seq<u8>)
    requires
        delta.len() > base.len(),
    ensures
        patched(base, delta).len() == delta.len(),
        patched(base, delta).subrange(base.len() as int, delta.len() as int) == delta.subrange(base.len() as int, delta.len() as int),
{
    assert(patched(base, delta).subrange(base.len() as int, delta.len() as int) =~= delta.subrange(base.len() as int, delta.len() as int));
}

} // verus!
