//! Fixed-size digests and account addresses.
//!
//! A digest is kept as little-endian machine words rather than as a byte
//! array: two digests are then equal exactly when their words are, and a
//! total order on them is plain integer comparison.

use vstd::bytes::*;
use vstd::prelude::*;
use vstd::slice::slice_subrange;

verus! {

/// The byte string that two little-endian 128-bit words stand for, low word first.
pub open spec fn words_bytes(hi: u128, lo: u128) -> Seq<u8> {
    spec_u128_to_le_bytes(lo) + spec_u128_to_le_bytes(hi)
}

/// `words_bytes` is 32 bytes long and determines both of its words.
pub proof fn lemma_words_bytes(hi: u128, lo: u128)
    ensures
        words_bytes(hi, lo).len() == 32,
        spec_u128_from_le_bytes(words_bytes(hi, lo).subrange(0, 16)) == lo,
        spec_u128_from_le_bytes(words_bytes(hi, lo).subrange(16, 32)) == hi,
{
    lemma_auto_spec_u128_to_from_le_bytes();
    let l = spec_u128_to_le_bytes(lo);
    let h = spec_u128_to_le_bytes(hi);
    assert((l + h).subrange(0, 16) =~= l);
    assert((l + h).subrange(16, 32) =~= h);
}

/// Reads two words from 32 bytes.
fn words_from_bytes(bytes: &[u8]) -> (words: (u128, u128))
    requires
        bytes@.len() == 32,
    ensures
        words_bytes(words.0, words.1) == bytes@,
{
    let lo = u128_from_le_bytes(slice_subrange(bytes, 0, 16));
    let hi = u128_from_le_bytes(slice_subrange(bytes, 16, 32));
    proof {
        lemma_auto_spec_u128_to_from_le_bytes();
        assert(words_bytes(hi, lo) =~= bytes@.subrange(0, 16) + bytes@.subrange(16, 32));
        assert(bytes@.subrange(0, 16) + bytes@.subrange(16, 32) =~= bytes@);
    }
    (hi, lo)
}

/// Writes two words as 32 bytes.
fn words_to_bytes(hi: u128, lo: u128) -> (bytes: Vec<u8>)
    ensures
        bytes@ == words_bytes(hi, lo),
        bytes@.len() == 32,
{
    let mut bytes = u128_to_le_bytes(lo);
    let mut high = u128_to_le_bytes(hi);
    bytes.append(&mut high);
    proof {
        lemma_words_bytes(hi, lo);
    }
    bytes
}

/// A 256-bit Blake2b digest, as used for block and transaction hashes.
/// `lo` holds the first sixteen bytes and `hi` the last sixteen, each as
/// a little-endian number.
#[derive(Clone, Copy, Debug, PartialEq, Eq, Structural)]
pub struct Blake2bHash {
    pub hi: u128,
    pub lo: u128,
}

impl Blake2bHash {
    /// The 32 bytes of the digest.
    pub open spec fn bytes(self) -> Seq<u8> {
        words_bytes(self.hi, self.lo)
    }

    /// Reads a digest from exactly 32 bytes.
    pub fn from_bytes(bytes: &[u8]) -> (hash: Option<Blake2bHash>)
        ensures
            hash is Some <==> bytes@.len() == 32,
            hash is Some ==> hash->0.bytes() == bytes@,
    {
        if bytes.len() != 32 {
            return None;
        }
        let (hi, lo) = words_from_bytes(bytes);
        Some(Blake2bHash { hi, lo })
    }

    /// The digest as 32 bytes.
    pub fn to_bytes(&self) -> (bytes: Vec<u8>)
        ensures
            bytes@ == self.bytes(),
            bytes@.len() == 32,
    {
        words_to_bytes(self.hi, self.lo)
    }
}

/// A 256-bit Blake2s digest, as used for proposal hashes and signed
/// messages. `lo` holds the first sixteen bytes and `hi` the last
/// sixteen, each as a little-endian number.
#[derive(Clone, Copy, Debug, PartialEq, Eq, Structural)]
pub struct Blake2sHash {
    pub hi: u128,
    pub lo: u128,
}

impl Blake2sHash {
    /// The 32 bytes of the digest.
    pub open spec fn bytes(self) -> Seq<u8> {
        words_bytes(self.hi, self.lo)
    }

    /// Reads a digest from exactly 32 bytes.
    pub fn from_bytes(bytes: &[u8]) -> (hash: Option<Blake2sHash>)
        ensures
            hash is Some <==> bytes@.len() == 32,
            hash is Some ==> hash->0.bytes() == bytes@,
    {
        if bytes.len() != 32 {
            return None;
        }
        let (hi, lo) = words_from_bytes(bytes);
        Some(Blake2sHash { hi, lo })
    }

    /// The digest as 32 bytes.
    pub fn to_bytes(&self) -> (bytes: Vec<u8>)
        ensures
            bytes@ == self.bytes(),
            bytes@.len() == 32,
    {
        words_to_bytes(self.hi, self.lo)
    }
}

/// Two digests with the same bytes are the same digest.
pub proof fn lemma_blake2s_bytes_injective(a: Blake2sHash, b: Blake2sHash)
    requires
        a.bytes() == b.bytes(),
    ensures
        a == b,
{
    lemma_words_bytes(a.hi, a.lo);
    lemma_words_bytes(b.hi, b.lo);
}

/// Two digests with the same bytes are the same digest.
pub proof fn lemma_blake2b_bytes_injective(a: Blake2bHash, b: Blake2bHash)
    requires
        a.bytes() == b.bytes(),
    ensures
        a == b,
{
    lemma_words_bytes(a.hi, a.lo);
    lemma_words_bytes(b.hi, b.lo);
}

/// The Blake2s-256 digest of a byte string.
pub uninterp spec fn blake2s_256(data: Seq<u8>) -> Seq<u8>;

/// Calls `blake2::Blake2s256::digest` (the `Digest` trait's one-shot
/// function). The digest depends on the input bytes alone, so it is named
/// `blake2s_256`; its length of 32 bytes is the output size of the hasher.
#[verifier::external_body]
fn blake2s_digest(data: &[u8]) -> (digest: [u8; 32])
    ensures
        digest@ == blake2s_256(data@),
{
    <blake2::Blake2s256 as blake2::Digest>::digest(data).into()
}

/// Hashes a byte string with Blake2s-256.
pub fn blake2s(data: &[u8]) -> (hash: Blake2sHash)
    ensures
        hash.bytes() == blake2s_256(data@),
{
    let digest = blake2s_digest(data);
    let (hi, lo) = words_from_bytes(vstd::array::array_as_slice(&digest));
    Blake2sHash { hi, lo }
}

/// A 20-byte account identifier. `lo` holds the first sixteen bytes and
/// `hi` the last four, each as a little-endian number.
#[derive(Clone, Copy, Debug, PartialEq, Eq, Structural)]
pub struct Address {
    pub hi: u32,
    pub lo: u128,
}

impl Address {
    /// The 20 bytes of the address.
    pub open spec fn bytes(self) -> Seq<u8> {
        spec_u128_to_le_bytes(self.lo) + spec_u32_to_le_bytes(self.hi)
    }

    /// Reads an address from exactly 20 bytes.
    pub fn from_bytes(bytes: &[u8]) -> (address: Option<Address>)
        ensures
            address is Some <==> bytes@.len() == 20,
            address is Some ==> address->0.bytes() == bytes@,
    {
        if bytes.len() != 20 {
            return None;
        }
        let lo = u128_from_le_bytes(slice_subrange(bytes, 0, 16));
        let hi = u32_from_le_bytes(slice_subrange(bytes, 16, 20));
        proof {
            lemma_auto_spec_u128_to_from_le_bytes();
            lemma_auto_spec_u32_to_from_le_bytes();
            assert(bytes@.subrange(0, 16) + bytes@.subrange(16, 20) =~= bytes@);
        }
        Some(Address { hi, lo })
    }

    /// The address as 20 bytes.
    pub fn to_bytes(&self) -> (bytes: Vec<u8>)
        ensures
            bytes@ == self.bytes(),
            bytes@.len() == 20,
    {
        let mut bytes = u128_to_le_bytes(self.lo);
        let mut high = u32_to_le_bytes(self.hi);
        bytes.append(&mut high);
        proof {
            lemma_auto_spec_u128_to_from_le_bytes();
            lemma_auto_spec_u32_to_from_le_bytes();
        }
        bytes
    }

    /// Whether this address comes strictly before `other` in the order on addresses.
    pub open spec fn spec_lt(self, other: Address) -> bool {
        self.hi < other.hi || (self.hi == other.hi && self.lo < other.lo)
    }
}

} // verus!
