//! The fingerprint of watched content.
//!
//! The fingerprint is the 64-bit FNV-1a hash of the bytes, written in
//! decimal. Equal content has equal fingerprints; the policy reloads an
//! entry when the fingerprint of what it watches differs from the recorded
//! one.

use vstd::prelude::*;
use crate::text::{decimal, to_decimal};

verus! {

/// The value that the hash starts from.
pub const BASIS: u64 = 0xcbf29ce484222325;

/// The factor of each round of the hash.
pub const PRIME: u64 = 0x100000001b3;

/// One round of the hash: the byte is mixed in, then the whole is
/// multiplied, dropping what does not fit in 64 bits.
pub open spec fn mixed(hash: u64, byte: u8) -> u64 {
    (hash ^ (byte as u64)).wrapping_mul(PRIME)
}

/// The hash of the bytes, the first of them mixed in first.
pub open spec fn hashed(bytes: Seq<u8>) -> u64
    decreases bytes.len(),
{
    if bytes.len() == 0 {
        BASIS
    } else {
        mixed(hashed(bytes.drop_last()), bytes.last())
    }
}

/// The fingerprint of the bytes.
pub open spec fn fingerprint_of(bytes: Seq<u8>) -> Seq<char> {
    decimal(hashed(bytes) as nat)
}

/// Computes the fingerprint of some content.
pub fn fingerprint(content: &[u8]) -> (text: String)
    ensures
        text@ == fingerprint_of(content@),
{
    let mut hash: u64 = BASIS;
    let mut i: usize = 0;
    assert(content@.take(0).len() == 0);
    while i < content.len()
        invariant
            i <= content.len(),
            hash == hashed(content@.take(i as int)),
        decreases content.len() - i,
    {
        assert(content@.take(i + 1).drop_last() == content@.take(i as int));
        assert(content@.take(i + 1).last() == content@[i as int]);
        hash = (hash ^ (content[i] as u64)).wrapping_mul(PRIME);
        i += 1;
    }
    assert(content@.take(content@.len() as int) == content@);
    to_decimal(hash)
}

} // verus!
