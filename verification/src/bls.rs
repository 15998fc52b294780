//! BLS signatures with signatures in G1 and public keys in G2.
//!
//! The curve arithmetic is done by the `blst` crate; this module keeps keys
//! and signatures as byte strings and states what each operation returns.

use crate::arrays::{array_eq, array_from_slice};
use crate::hash::{blake2s, blake2s_256, Blake2sHash};
use vstd::array::array_as_slice;
use vstd::pervasive::unreached;
use vstd::prelude::*;

verus! {

/// The digest that is signed.
pub type SigHash = Blake2sHash;

/// Length of a secret key in bytes.
pub const SECRET_KEY_SIZE: usize = 32;

/// Length of a compressed public key in bytes.
pub const PUBLIC_KEY_SIZE: usize = 96;

/// Length of a compressed signature in bytes.
pub const SIGNATURE_SIZE: usize = 48;

/// The domain separation tag under which every message is hashed to the
/// curve: the text `BLS_SIG_BLS12381G1_XMD:SHA-256_SSWU_RO_NUL_`.
pub const SIGNATURE_DOMAIN: [u8; 43] = [
    66u8, 76u8, 83u8, 95u8, 83u8, 73u8, 71u8, 95u8, 66u8, 76u8, 83u8, 49u8, 50u8, 51u8, 56u8,
    49u8, 71u8, 49u8, 95u8, 88u8, 77u8, 68u8, 58u8, 83u8, 72u8, 65u8, 45u8, 50u8, 53u8, 54u8,
    95u8, 83u8, 83u8, 87u8, 85u8, 95u8, 82u8, 79u8, 95u8, 78u8, 85u8, 76u8, 95u8,
];

/// Whether 32 bytes are the big-endian form of a usable secret scalar.
pub uninterp spec fn bls_secret_valid(secret: Seq<u8>) -> bool;

/// The compressed public key that belongs to a secret key.
pub uninterp spec fn bls_public_key(secret: Seq<u8>) -> Seq<u8>;

/// The compressed signature of a secret key on a message under a domain tag.
pub uninterp spec fn bls_signature(secret: Seq<u8>, message: Seq<u8>, domain: Seq<u8>) -> Seq<u8>;

/// Whether a compressed signature is a valid signature of a public key on a
/// message under a domain tag.
pub uninterp spec fn bls_verifies(
    public: Seq<u8>,
    message: Seq<u8>,
    domain: Seq<u8>,
    signature: Seq<u8>,
) -> bool;

/// Calls `blst::min_sig::SecretKey::from_bytes` and reports whether it
/// accepted the bytes. Acceptance depends on the bytes alone and is named
/// `bls_secret_valid`.
#[verifier::external_body]
fn secret_key_check(secret: &[u8; 32]) -> (valid: bool)
    ensures
        valid == bls_secret_valid(secret@),
{
    blst::min_sig::SecretKey::from_bytes(secret).is_ok()
}

/// Calls `blst::min_sig::SecretKey::sk_to_pk` on the key that the bytes
/// encode and compresses the result. Parsing the bytes is the only step
/// that can fail, and it fails exactly for the bytes that are no valid
/// secret key. The result is named `bls_public_key`.
#[verifier::external_body]
fn secret_key_to_public(secret: &[u8; 32]) -> (public: Option<[u8; 96]>)
    ensures
        public is Some <==> bls_secret_valid(secret@),
        public is Some ==> public->0@ == bls_public_key(secret@),
{
    match blst::min_sig::SecretKey::from_bytes(secret) {
        Ok(key) => Some(key.sk_to_pk().compress()),
        Err(_) => None,
    }
}

/// Calls `blst::min_sig::SecretKey::sign` with an empty augmentation on the
/// key that the bytes encode and compresses the signature. Parsing the
/// bytes is the only step that can fail. Signing is deterministic; the
/// result is named `bls_signature`.
#[verifier::external_body]
fn secret_key_sign(secret: &[u8; 32], message: &[u8], domain: &[u8]) -> (signature: Option<
    [u8; 48],
>)
    ensures
        signature is Some <==> bls_secret_valid(secret@),
        signature is Some ==> signature->0@ == bls_signature(secret@, message@, domain@),
{
    match blst::min_sig::SecretKey::from_bytes(secret) {
        Ok(key) => Some(key.sign(message, domain, &[]).compress()),
        Err(_) => None,
    }
}

/// Calls `blst::min_sig::Signature::verify` with group checks on both the
/// signature and the key and an empty augmentation. Bytes that do not parse
/// as a key or as a signature do not verify. The outcome depends on the
/// arguments alone and is named `bls_verifies`.
#[verifier::external_body]
fn signature_verify(public: &[u8; 96], message: &[u8], domain: &[u8], signature: &[u8; 48]) -> (ok:
    bool)
    ensures
        ok == bls_verifies(public@, message@, domain@, signature@),
{
    match (
        blst::min_sig::PublicKey::from_bytes(public),
        blst::min_sig::Signature::from_bytes(signature),
    ) {
        (Ok(key), Ok(sig)) => {
            sig.verify(true, message, domain, &[], &key, true) == blst::BLST_ERROR::BLST_SUCCESS
        },
        _ => false,
    }
}

/// The compressed sum of two compressed signatures; `None` when one of
/// them is no point of the signature group.
pub uninterp spec fn bls_sum(first: Seq<u8>, second: Seq<u8>) -> Option<Seq<u8>>;

/// Calls `blst::min_sig::AggregateSignature::aggregate` with group checks
/// on the two signatures that the bytes encode, and compresses the sum.
/// Bytes that do not parse, and points outside the group, give `None`.
/// The result depends on the arguments alone and is named `bls_sum`.
#[verifier::external_body]
fn signature_add(first: &[u8; 48], second: &[u8; 48]) -> (sum: Option<[u8; 48]>)
    ensures
        sum is Some <==> bls_sum(first@, second@) is Some,
        sum is Some ==> sum->0@ == bls_sum(first@, second@)->0,
{
    match (
        blst::min_sig::Signature::from_bytes(first),
        blst::min_sig::Signature::from_bytes(second),
    ) {
        (Ok(a), Ok(b)) => match blst::min_sig::AggregateSignature::aggregate(&[&a, &b], true) {
            Ok(sum) => Some(sum.to_signature().compress()),
            Err(_) => None,
        },
        _ => None,
    }
}

/// Something that has a canonical byte form to be hashed and signed.
pub trait SerializeContent {
    /// The canonical byte form.
    spec fn content(&self) -> Seq<u8>;

    /// Writes the canonical byte form.
    fn serialize_content(&self) -> (bytes: Vec<u8>)
        ensures
            bytes@ == self.content(),
    ;
}

/// The digest of a value's canonical byte form.
pub open spec fn content_hash<M: SerializeContent>(msg: &M) -> Seq<u8> {
    blake2s_256(msg.content())
}

/// The signature of a secret key on a message under the signature domain.
pub open spec fn signature_of(secret: Seq<u8>, message: Seq<u8>) -> Signature {
    choose|signature: Signature|
        (#[trigger] signature@) == bls_signature(secret, message, SIGNATURE_DOMAIN@)
}

/// A signature with the bytes that signing returns is the signature.
pub proof fn lemma_signature_of(signature: Signature, secret: Seq<u8>, message: Seq<u8>)
    requires
        signature@ == bls_signature(secret, message, SIGNATURE_DOMAIN@),
    ensures
        signature == signature_of(secret, message),
{
    let chosen = signature_of(secret, message);
    assert(chosen@ == bls_signature(secret, message, SIGNATURE_DOMAIN@));
    assert(chosen.bytes =~= signature.bytes);
}

/// A secret signing key: 32 bytes that encode a usable scalar.
#[derive(Clone, Copy, Debug)]
pub struct SecretKey {
    bytes: [u8; 32],
}

impl View for SecretKey {
    type V = Seq<u8>;

    closed spec fn view(&self) -> Seq<u8> {
        self.bytes@
    }
}

impl SecretKey {
    #[verifier::type_invariant]
    closed spec fn valid(self) -> bool {
        bls_secret_valid(self.bytes@)
    }

    /// Reads a secret key; fails unless the bytes are 32 long and a usable scalar.
    pub fn from_bytes(bytes: &[u8]) -> (key: Option<SecretKey>)
        ensures
            key is Some <==> bytes@.len() == 32 && bls_secret_valid(bytes@),
            key is Some ==> key->0@ == bytes@,
    {
        if bytes.len() != 32 {
            return None;
        }
        let array: [u8; 32] = array_from_slice(bytes);
        if secret_key_check(&array) {
            Some(SecretKey { bytes: array })
        } else {
            None
        }
    }

    /// The 32 bytes of the key.
    pub fn to_bytes(&self) -> (bytes: [u8; 32])
        ensures
            bytes@ == self@,
    {
        self.bytes
    }

    /// Signs a digest.
    pub fn sign_hash(&self, hash: SigHash) -> (signature: Signature)
        ensures
            signature@ == bls_signature(self@, hash.bytes(), SIGNATURE_DOMAIN@),
            signature == signature_of(self@, hash.bytes()),
    {
        proof {
            use_type_invariant(self);
        }
        let message = hash.to_bytes();
        let domain = SIGNATURE_DOMAIN;
        let bytes = match secret_key_sign(
            &self.bytes,
            message.as_slice(),
            array_as_slice(&domain),
        ) {
            Some(bytes) => bytes,
            None => unreached(),
        };
        let signature = Signature { bytes };
        proof {
            lemma_signature_of(signature, self@, hash.bytes());
        }
        signature
    }

    /// Signs the digest of a message's canonical byte form.
    pub fn sign<M: SerializeContent>(&self, msg: &M) -> (signature: Signature)
        ensures
            signature@ == bls_signature(self@, content_hash(msg), SIGNATURE_DOMAIN@),
            signature == signature_of(self@, content_hash(msg)),
    {
        let content = msg.serialize_content();
        self.sign_hash(blake2s(content.as_slice()))
    }

    /// Whether both keys have the same bytes.
    pub fn same_as(&self, other: &SecretKey) -> (same: bool)
        ensures
            same == (self@ == other@),
    {
        array_eq(&self.bytes, &other.bytes)
    }
}

/// A public verification key in compressed form.
#[derive(Clone, Copy, Debug)]
pub struct PublicKey {
    pub bytes: [u8; 96],
}

impl View for PublicKey {
    type V = Seq<u8>;

    open spec fn view(&self) -> Seq<u8> {
        self.bytes@
    }
}

impl PublicKey {
    /// The public key that belongs to a secret key.
    pub fn from_secret(secret: &SecretKey) -> (public: PublicKey)
        ensures
            public@ == bls_public_key(secret@),
    {
        proof {
            use_type_invariant(secret);
        }
        match secret_key_to_public(&secret.bytes) {
            Some(bytes) => PublicKey { bytes },
            None => unreached(),
        }
    }

    /// The compressed form of the key.
    pub fn compress(&self) -> (bytes: [u8; 96])
        ensures
            bytes@ == self@,
    {
        self.bytes
    }

    /// Checks a signature on a digest.
    pub fn verify_hash(&self, hash: SigHash, signature: &Signature) -> (ok: bool)
        ensures
            ok == bls_verifies(self@, hash.bytes(), SIGNATURE_DOMAIN@, signature@),
    {
        let message = hash.to_bytes();
        let domain = SIGNATURE_DOMAIN;
        signature_verify(
            &self.bytes,
            message.as_slice(),
            array_as_slice(&domain),
            &signature.bytes,
        )
    }

    /// Checks a signature on the digest of a message's canonical byte form.
    pub fn verify<M: SerializeContent>(&self, msg: &M, signature: &Signature) -> (ok: bool)
        ensures
            ok == bls_verifies(self@, content_hash(msg), SIGNATURE_DOMAIN@, signature@),
    {
        let content = msg.serialize_content();
        self.verify_hash(blake2s(content.as_slice()), signature)
    }

    /// Whether both keys have the same bytes.
    pub fn same_as(&self, other: &PublicKey) -> (same: bool)
        ensures
            same == (self@ == other@),
    {
        array_eq(&self.bytes, &other.bytes)
    }
}

/// A signature in compressed form.
#[derive(Clone, Copy, Debug)]
pub struct Signature {
    pub bytes: [u8; 48],
}

impl View for Signature {
    type V = Seq<u8>;

    open spec fn view(&self) -> Seq<u8> {
        self.bytes@
    }
}

/// The sum of two signatures, as a value.
pub open spec fn signature_sum(first: Signature, second: Signature) -> Option<Signature> {
    match bls_sum(first@, second@) {
        Some(bytes) => Some(choose|sum: Signature| (#[trigger] sum@) == bytes),
        None => None,
    }
}

impl Signature {
    /// Adds another signature to this one. The sum is a signature of all
    /// that signed either; there is none when one of the two is no point
    /// of the signature group.
    pub fn add_signature(&self, other: &Signature) -> (sum: Option<Signature>)
        ensures
            sum == signature_sum(*self, *other),
    {
        match signature_add(&self.bytes, &other.bytes) {
            Some(bytes) => {
                let sum = Signature { bytes };
                proof {
                    assert(sum@ == bls_sum(self@, other@)->0);
                    let chosen = signature_sum(*self, *other)->0;
                    assert(chosen@ == sum@);
                    assert(chosen.bytes =~= sum.bytes);
                }
                Some(sum)
            },
            None => None,
        }
    }

    /// Whether both signatures have the same bytes.
    pub fn same_as(&self, other: &Signature) -> (same: bool)
        ensures
            same == (self@ == other@),
    {
        array_eq(&self.bytes, &other.bytes)
    }
}

} // verus!
