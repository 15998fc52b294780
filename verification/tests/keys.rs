use nimiq_validator::bls::{PublicKey, SecretKey, Signature};
use nimiq_validator::hash::{blake2s, Blake2sHash};
use nimiq_validator::keypair::KeyPair;
use nimiq_validator::multisig::AggregateSignature;

fn secret(last: u8) -> SecretKey {
    let mut bytes = [0u8; 32];
    bytes[31] = last;
    SecretKey::from_bytes(&bytes).expect("a small non-zero scalar is a valid secret key")
}

#[test]
fn secret_key_rejects_zero_and_wrong_length() {
    assert!(SecretKey::from_bytes(&[0u8; 32]).is_none());
    assert!(SecretKey::from_bytes(&[1u8; 31]).is_none());
    assert!(SecretKey::from_bytes(&[0xffu8; 32]).is_none());
    assert_eq!(secret(7).to_bytes()[31], 7);
}

#[test]
fn key_pair_signs_and_verifies() {
    let pair = KeyPair::from_secret(&secret(1));
    let hash = blake2s(b"message");
    let signature = pair.sign_hash(hash);
    assert!(pair.verify_hash(hash, &signature));
    assert!(!pair.verify_hash(blake2s(b"other"), &signature));
    let other = KeyPair::from_secret(&secret(2));
    assert!(!other.verify_hash(hash, &signature));
    assert!(pair == KeyPair::from(secret(1)));
    assert!(pair != other);
}

#[test]
fn public_key_of_one_is_the_generator() {
    let public = PublicKey::from_secret(&secret(1));
    assert_eq!(public.compress()[0], 0x93);
    assert_eq!(public.compress()[1], 0xe0);
}

#[test]
fn blake2s_of_empty_input() {
    let digest = blake2s(b"").to_bytes();
    assert_eq!(digest[0], 0x69);
    assert_eq!(digest[1], 0x21);
    assert_eq!(digest[31], 0xf9);
    assert_eq!(Blake2sHash::from_bytes(&digest), Some(blake2s(b"")));
}

#[test]
fn signatures_add_up_like_their_keys() {
    let hash = blake2s(b"message");
    let one = secret(1).sign_hash(hash);
    let two = secret(2).sign_hash(hash);
    let three = secret(3).sign_hash(hash);
    let sum = one.add_signature(&two).expect("both are signatures");
    assert!(sum.same_as(&three));
    assert!(!sum.same_as(&one));
    assert!(KeyPair::from_secret(&secret(3)).verify_hash(hash, &sum));
    let garbage = Signature { bytes: [0x55; 48] };
    assert!(one.add_signature(&garbage).is_none());
}

#[test]
fn aggregate_sums_its_signatures() {
    let hash = blake2s(b"message");
    let parts = [secret(1).sign_hash(hash), secret(2).sign_hash(hash), secret(4).sign_hash(hash)];
    let aggregate = AggregateSignature::from_signatures(&parts);
    let sum = aggregate.to_signature().expect("three signatures");
    assert!(sum.same_as(&secret(7).sign_hash(hash)));
    assert!(AggregateSignature::new().to_signature().is_none());
    let single = AggregateSignature::from_signatures(&parts[..1]);
    assert!(single.to_signature().expect("one signature").same_as(&parts[0]));
}
