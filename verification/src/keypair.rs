//! A secret signing key together with its public key.

use crate::bls::{
    bls_public_key, bls_signature, bls_verifies, content_hash, PublicKey, SecretKey,
    SerializeContent, SigHash, Signature, SIGNATURE_DOMAIN,
};
use vstd::prelude::*;

verus! {

/// A secret key and the public key that belongs to it.
#[derive(Clone, Copy, Debug)]
pub struct KeyPair {
    pub secret_key: SecretKey,
    pub public_key: PublicKey,
}

impl KeyPair {
    /// Whether the public key is the one that belongs to the secret key.
    pub open spec fn matched(self) -> bool {
        self.public_key@ == bls_public_key(self.secret_key@)
    }

    /// The key pair of a secret key.
    pub fn from_secret(secret: &SecretKey) -> (pair: KeyPair)
        ensures
            pair.secret_key == *secret,
            pair.public_key@ == bls_public_key(secret@),
            pair.matched(),
    {
        let public = PublicKey::from_secret(secret);
        KeyPair { secret_key: *secret, public_key: public }
    }

    /// Signs the digest of a message's canonical byte form with the secret key.
    pub fn sign<M: SerializeContent>(&self, msg: &M) -> (signature: Signature)
        ensures
            signature@ == bls_signature(self.secret_key@, content_hash(msg), SIGNATURE_DOMAIN@),
    {
        self.secret_key.sign::<M>(msg)
    }

    /// Signs a digest with the secret key.
    pub fn sign_hash(&self, hash: SigHash) -> (signature: Signature)
        ensures
            signature@ == bls_signature(self.secret_key@, hash.bytes(), SIGNATURE_DOMAIN@),
    {
        self.secret_key.sign_hash(hash)
    }

    /// Checks a signature on a message against the public key.
    pub fn verify<M: SerializeContent>(&self, msg: &M, signature: &Signature) -> (ok: bool)
        ensures
            ok == bls_verifies(
                self.public_key@,
                content_hash(msg),
                SIGNATURE_DOMAIN@,
                signature@,
            ),
    {
        self.public_key.verify::<M>(msg, signature)
    }

    /// Checks a signature on a digest against the public key.
    pub fn verify_hash(&self, hash: SigHash, signature: &Signature) -> (ok: bool)
        ensures
            ok == bls_verifies(self.public_key@, hash.bytes(), SIGNATURE_DOMAIN@, signature@),
    {
        self.public_key.verify_hash(hash, signature)
    }
}

impl From<SecretKey> for KeyPair {
    fn from(secret: SecretKey) -> (pair: KeyPair) {
        let pair = KeyPair::from_secret(&secret);
        proof {
            let chosen = choose|bytes: [u8; 96]| bytes@ == bls_public_key(secret@);
            assert(pair.public_key.bytes@ == bls_public_key(secret@));
            assert(chosen =~= pair.public_key.bytes);
        }
        pair
    }
}

impl vstd::std_specs::convert::FromSpecImpl<SecretKey> for KeyPair {
    open spec fn obeys_from_spec() -> bool {
        true
    }

    open spec fn from_spec(secret: SecretKey) -> KeyPair {
        KeyPair {
            secret_key: secret,
            public_key: PublicKey {
                bytes: choose|bytes: [u8; 96]| bytes@ == bls_public_key(secret@),
            },
        }
    }
}

impl PartialEq for KeyPair {
    fn eq(&self, other: &KeyPair) -> (same: bool) {
        self.secret_key.same_as(&other.secret_key) && self.public_key.same_as(&other.public_key)
    }
}

impl Eq for KeyPair {

}

impl vstd::std_specs::cmp::PartialEqSpecImpl for KeyPair {
    open spec fn obeys_eq_spec() -> bool {
        true
    }

    open spec fn eq_spec(&self, other: &KeyPair) -> bool {
        self.secret_key@ == other.secret_key@ && self.public_key@ == other.public_key@
    }
}

} // verus!
