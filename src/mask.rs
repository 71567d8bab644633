//! Masking keys and the masking transform.

use vstd::prelude::*;

verus! {

/// The masking transform: byte `i` is XORed with byte `i mod 4` of the key.
pub open spec fn masked(data: Seq<u8>, key: Seq<u8>) -> Seq<u8> {
    Seq::new(data.len(), |i: int| data[i] ^ key[i % 4])
}

/// Applying the masking transform twice with one key gives back the payload.
pub proof fn lemma_mask_involution(data: Seq<u8>, key: Seq<u8>)
    ensures
        masked(masked(data, key), key) == data,
{
    assert forall|i: int| 0 <= i < data.len() implies #[trigger] masked(masked(data, key), key)[i]
        == data[i] by {
        let a = data[i];
        let k = key[i % 4];
        assert(a ^ k ^ k == a) by (bit_vector);
    }
    assert(masked(masked(data, key), key) =~= data);
}

/// Masks (or unmasks) the given data with the given key.
pub fn mask_data(mask: [u8; 4], data: &[u8]) -> (r: Vec<u8>)
    ensures
        r@ == masked(data@, mask@),
{
    let mut out: Vec<u8> = Vec::with_capacity(data.len());
    let mut i: usize = 0;
    while i < data.len()
        invariant
            i <= data@.len(),
            out@ == masked(data@.subrange(0, i as int), mask@),
        decreases data@.len() - i,
    {
        let b = data[i] ^ mask[i % 4];
        out.push(b);
        i += 1;
        assert(out@ =~= masked(data@.subrange(0, i as int), mask@));
    }
    assert(data@.subrange(0, i as int) =~= data@);
    out
}

/// Relies on rand::random: a value drawn from the thread-local generator.
/// Nothing is promised of it.
pub assume_specification<T>[ rand::random::<T> ]() -> (r: T)
    where
        rand::distributions::Standard: rand::distributions::Distribution<T>,
;

/// Generates a random masking key.
pub fn gen_mask() -> (r: [u8; 4]) {
    rand::random::<[u8; 4]>()
}

} // verus!
