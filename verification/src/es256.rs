//! Public keys of ECDSA over the curve P-256, in their SEC1 encoding.
//!
//! Parsing of points and verification of signatures are done by the
//! `p256` crate, hexadecimal text by the `hex` crate.

use vstd::prelude::*;

verus! {

/// Why a key could not be made from bytes.
#[derive(Clone, Copy, Debug, PartialEq, Eq, Structural)]
pub enum KeysError {
    /// The bytes are no encoding of a point.
    MalformedPublicKey,
}

/// Why a key could not be made from text.
#[derive(Clone, Copy, Debug, PartialEq, Eq, Structural)]
pub enum ParseError {
    /// The text is not hexadecimal, or has an odd number of digits.
    InvalidHex,
    /// The bytes that the text stands for are no key.
    Keys(KeysError),
}

/// Whether bytes have the form of a SEC1 encoding of a point on a curve
/// with 32-byte coordinates: the identity, a compressed or compact point,
/// or an uncompressed point.
pub open spec fn sec1_valid(bytes: Seq<u8>) -> bool {
    &&& bytes.len() >= 1
    &&& {
        ||| bytes[0] == 0 && bytes.len() == 1
        ||| (bytes[0] == 2 || bytes[0] == 3 || bytes[0] == 5) && bytes.len() == 33
        ||| bytes[0] == 4 && bytes.len() == 65
    }
}

/// The lower-case hexadecimal digit for a value below sixteen.
pub open spec fn hex_digit(value: int) -> char {
    if value < 10 {
        ((value + 48) as u8) as char
    } else {
        ((value + 87) as u8) as char
    }
}

/// The lower-case hexadecimal text of a byte string.
pub open spec fn hex_encoded(bytes: Seq<u8>) -> Seq<char> {
    Seq::new(
        2 * bytes.len(),
        |i: int|
            if i % 2 == 0 {
                hex_digit(bytes[i / 2] as int / 16)
            } else {
                hex_digit(bytes[i / 2] as int % 16)
            },
    )
}

/// The value of a hexadecimal digit in either case.
pub open spec fn hex_value(digit: char) -> Option<int> {
    let code = digit as u32 as int;
    if 48 <= code <= 57 {
        Some(code - 48)
    } else if 97 <= code <= 102 {
        Some(code - 87)
    } else if 65 <= code <= 70 {
        Some(code - 55)
    } else {
        None
    }
}

/// Whether a text is hexadecimal with an even number of digits.
pub open spec fn is_hex(text: Seq<char>) -> bool {
    &&& text.len() % 2 == 0
    &&& forall|i: int| 0 <= i < text.len() ==> hex_value(#[trigger] text[i]) is Some
}

/// The byte string that a hexadecimal text stands for.
pub open spec fn hex_decoded(text: Seq<char>) -> Seq<u8> {
    Seq::new(
        text.len() / 2,
        |i: int| (16 * hex_value(text[2 * i])->0 + hex_value(text[2 * i + 1])->0) as u8,
    )
}

/// Hexadecimal text stands for the bytes it was made of: the text of a
/// byte string is hexadecimal, and decoding it gives the byte string back.
pub proof fn lemma_hex_round_trip(bytes: Seq<u8>)
    ensures
        is_hex(hex_encoded(bytes)),
        hex_decoded(hex_encoded(bytes)) == bytes,
{
    let text = hex_encoded(bytes);
    assert forall|value: int| 0 <= value < 16 implies hex_value(#[trigger] hex_digit(value))
        == Some(value) by {
        if value < 10 {
            assert(((value + 48) as u8) as char as u32 as int == value + 48);
        } else {
            assert(((value + 87) as u8) as char as u32 as int == value + 87);
        }
    }
    assert forall|i: int| 0 <= i < text.len() implies hex_value(#[trigger] text[i]) is Some by {
        let byte = bytes[i / 2] as int;
        assert(0 <= byte / 16 < 16 && 0 <= byte % 16 < 16);
    }
    assert forall|i: int| 0 <= i < bytes.len() implies hex_decoded(text)[i] == bytes[i] by {
        let byte = bytes[i] as int;
        assert((2 * i) / 2 == i && (2 * i + 1) / 2 == i);
        assert((2 * i) % 2 == 0 && (2 * i + 1) % 2 == 1);
        assert(0 <= byte / 16 < 16 && 0 <= byte % 16 < 16);
        assert(text[2 * i] == hex_digit(byte / 16));
        assert(text[2 * i + 1] == hex_digit(byte % 16));
        assert(16 * (byte / 16) + byte % 16 == byte);
    }
    assert(hex_decoded(text) =~= bytes);
}

/// Whether a signature is a valid ECDSA signature with SHA-256 of a key
/// on a message; a key that encodes no point of the curve and a signature
/// with a component out of range verify nothing.
pub uninterp spec fn es256_verifies(public: Seq<u8>, data: Seq<u8>, signature: Seq<u8>) -> bool;

/// Calls `p256::EncodedPoint::from_bytes` and reports whether it accepted
/// the bytes. The function checks the tag byte and the length that goes
/// with the tag, and nothing else.
#[verifier::external_body]
fn encoded_point_parses(bytes: &[u8]) -> (ok: bool)
    ensures
        ok == sec1_valid(bytes@),
{
    p256::EncodedPoint::from_bytes(bytes).is_ok()
}

/// Calls the `verify` method that `p256::ecdsa::VerifyingKey` has from the
/// `Verifier` trait, on the key that `VerifyingKey::from_encoded_point`
/// makes of the encoded point and the signature that
/// `Signature::from_slice` makes of the 64 bytes. Whatever fails to parse
/// verifies nothing. The outcome depends on the arguments alone and is
/// named `es256_verifies`.
#[verifier::external_body]
fn ecdsa_verify(public: &[u8], data: &[u8], signature: &[u8; 64]) -> (ok: bool)
    ensures
        ok == es256_verifies(public@, data@, signature@),
{
    match (p256::EncodedPoint::from_bytes(public), p256::ecdsa::Signature::from_slice(signature)) {
        (Ok(point), Ok(parsed)) => match p256::ecdsa::VerifyingKey::from_encoded_point(&point) {
            Ok(key) => p256::ecdsa::signature::Verifier::verify(&key, data, &parsed).is_ok(),
            Err(_) => false,
        },
        _ => false,
    }
}

/// Calls `hex::encode`, which writes two lower-case digits for every
/// byte, the high half first.
#[verifier::external_body]
fn hex_encode(bytes: &[u8]) -> (text: String)
    ensures
        text@ == hex_encoded(bytes@),
{
    hex::encode(bytes)
}

/// Calls `hex::decode`, which accepts an even number of digits in either
/// case and returns the bytes they stand for.
#[verifier::external_body]
fn hex_decode(text: &str) -> (bytes: Option<Vec<u8>>)
    ensures
        bytes is Some <==> is_hex(text@),
        bytes is Some ==> bytes->0@ == hex_decoded(text@),
{
    match hex::decode(text) {
        Ok(bytes) => Some(bytes),
        Err(_) => None,
    }
}

/// An ECDSA signature: the two components, 32 bytes each, big-endian.
#[derive(Clone, Copy, Debug)]
pub struct ES256Signature {
    pub bytes: [u8; 64],
}

/// A public key: the SEC1 encoding of a point.
#[derive(Debug, Hash)]
pub struct ES256PublicKey {
    encoded: Vec<u8>,
}

impl View for ES256PublicKey {
    type V = Seq<u8>;

    /// The bytes of the encoding.
    closed spec fn view(&self) -> Seq<u8> {
        self.encoded@
    }
}

impl Clone for ES256PublicKey {
    fn clone(&self) -> (copy: ES256PublicKey)
        ensures
            copy@ == self@,
    {
        let encoded = self.encoded.clone();
        assert(encoded@ =~= self.encoded@);
        ES256PublicKey { encoded }
    }
}

impl Default for ES256PublicKey {
    /// The encoding of the identity.
    fn default() -> (key: ES256PublicKey)
        ensures
            key@ == seq![0u8],
    {
        let mut encoded: Vec<u8> = Vec::new();
        encoded.push(0u8);
        assert(encoded@ =~= seq![0u8]);
        ES256PublicKey { encoded }
    }
}

impl ES256PublicKey {
    /// Length of a compressed key in bytes.
    pub const SIZE: usize = 33;

    /// Makes a key from the SEC1 encoding of a point.
    pub fn from_bytes(bytes: &[u8]) -> (key: Result<ES256PublicKey, KeysError>)
        ensures
            key is Ok <==> sec1_valid(bytes@),
            key is Ok ==> key->Ok_0@ == bytes@,
            key is Err ==> key->Err_0 == KeysError::MalformedPublicKey,
    {
        if encoded_point_parses(bytes) {
            Ok(ES256PublicKey { encoded: vstd::slice::slice_to_vec(bytes) })
        } else {
            Err(KeysError::MalformedPublicKey)
        }
    }

    /// Whether the key is in compressed form, and so has 33 bytes.
    pub fn is_compressed(&self) -> (compressed: bool)
        ensures
            compressed == (self@.len() == 33),
    {
        self.encoded.len() == 33
    }

    /// The bytes of a compressed key.
    pub fn as_bytes(&self) -> (bytes: [u8; 33])
        requires
            self@.len() == 33,
        ensures
            bytes@ == self@,
    {
        crate::arrays::array_from_slice(self.encoded.as_slice())
    }

    /// The bytes of the encoding, whatever its form.
    pub fn to_vec(&self) -> (bytes: Vec<u8>)
        ensures
            bytes@ == self@,
    {
        let bytes = self.encoded.clone();
        assert(bytes@ =~= self.encoded@);
        bytes
    }

    /// The key as lower-case hexadecimal text.
    pub fn to_hex(&self) -> (text: String)
        ensures
            text@ == hex_encoded(self@),
    {
        hex_encode(self.encoded.as_slice())
    }

    /// Makes a key from hexadecimal text in either case.
    pub fn from_hex(hex: &str) -> (key: Result<ES256PublicKey, ParseError>)
        ensures
            key is Ok <==> is_hex(hex@) && sec1_valid(hex_decoded(hex@)),
            key is Ok ==> key->Ok_0@ == hex_decoded(hex@),
            key is Err ==> key->Err_0 == (if is_hex(hex@) {
                ParseError::Keys(KeysError::MalformedPublicKey)
            } else {
                ParseError::InvalidHex
            }),
    {
        match hex_decode(hex) {
            Some(bytes) => match ES256PublicKey::from_bytes(bytes.as_slice()) {
                Ok(key) => Ok(key),
                Err(error) => Err(ParseError::Keys(error)),
            },
            None => Err(ParseError::InvalidHex),
        }
    }

    /// Checks a signature on a message against the key.
    pub fn verify(&self, signature: &ES256Signature, data: &[u8]) -> (ok: bool)
        ensures
            ok == es256_verifies(self@, data@, signature.bytes@),
    {
        ecdsa_verify(self.encoded.as_slice(), data, &signature.bytes)
    }

    /// Whether both keys have the same encoding.
    pub fn same_as(&self, other: &ES256PublicKey) -> (same: bool)
        ensures
            same == (self@ == other@),
    {
        if self.encoded.len() != other.encoded.len() {
            return false;
        }
        let mut i: usize = 0;
        while i < self.encoded.len()
            invariant
                i <= self.encoded@.len(),
                self.encoded@.len() == other.encoded@.len(),
                forall|j: int| 0 <= j < i ==> self.encoded@[j] == other.encoded@[j],
            decreases self.encoded@.len() - i,
        {
            if self.encoded[i] != other.encoded[i] {
                return false;
            }
            i += 1;
        }
        assert(self.encoded@ =~= other.encoded@);
        true
    }
}

} // verus!
