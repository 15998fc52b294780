use nimiq_validator::bitset::BitSet;
use nimiq_validator::circuit_bits::{
    byte_from_le_bits, pack_inputs, pad_point_bits, reverse_inner_byte_order, unpack_inputs,
};
use nimiq_validator::database_value::{
    AsDatabaseBytes, DatabaseValueError, FromDatabaseValue, IntoDatabaseValue,
};
use nimiq_validator::es256::{ES256PublicKey, ES256Signature, KeysError, ParseError};
use nimiq_validator::hash::{Address, Blake2bHash};
use nimiq_validator::peer_info::{NodeType, PlainPeerInfo};
use nimiq_validator::policy::{BlockType, Policy};

#[test]
fn policy_formulas() {
    assert!(Policy::new(0, 3, 1).is_none());
    let policy = Policy::new(60, 720, 8).expect("batches are not empty");
    assert_eq!(policy.blocks_per_epoch(), 43200);
    assert_eq!(policy.block_after_jail(1000), 1000 + 8 * 43200 + 1);
    assert_eq!(policy.block_type_of(0), BlockType::Macro);
    assert_eq!(policy.block_type_of(59), BlockType::Micro);
    assert_eq!(policy.block_type_of(60), BlockType::Macro);
    assert_eq!(policy.block_type_of(61), BlockType::Micro);
    let huge = Policy::new(u32::MAX, u16::MAX, u32::MAX).expect("batches are not empty");
    assert_eq!(huge.blocks_per_epoch(), 4294967295u64 * 65535);
    assert_eq!(
        huge.block_after_jail(u32::MAX),
        u32::MAX as u128 + 4294967295u128 * 65535 * 4294967295 + 1
    );
}

#[test]
fn bit_set_operations() {
    let mut a = BitSet::new();
    assert!(a.is_empty());
    a.insert(3);
    a.insert(70);
    a.insert(3);
    assert_eq!(a.to_vec(), vec![3, 70]);
    assert!(a.contains(70) && !a.contains(4) && !a.contains(1000));
    let mut b = BitSet::new();
    b.insert(70);
    b.insert(1);
    assert_eq!(a.intersection(&b).to_vec(), vec![70]);
    assert_eq!(a.union(&b).to_vec(), vec![1, 3, 70]);
    assert!(!a.same_as(&b));
    let mut c = BitSet::new();
    c.insert(70);
    c.insert(200);
    assert!(a.intersection(&c).same_as(&b.intersection(&c)));
    assert!(a.clone().same_as(&a));
    let mut disjoint = BitSet::new();
    disjoint.insert(2);
    assert!(a.intersection(&disjoint).is_empty());
}

#[test]
fn hashes_and_addresses_go_through_bytes() {
    let bytes: Vec<u8> = (0u8..32).collect();
    let hash = Blake2bHash::from_bytes(&bytes).expect("32 bytes");
    assert_eq!(hash.to_bytes(), bytes);
    assert_eq!(hash.lo, u128::from_le_bytes(bytes[..16].try_into().expect("16 bytes")));
    assert!(Blake2bHash::from_bytes(&bytes[..31]).is_none());
    let address = Address::from_bytes(&bytes[..20]).expect("20 bytes");
    assert_eq!(address.to_bytes(), bytes[..20].to_vec());
    assert!(Address::from_bytes(&bytes[..21]).is_none());
}

#[test]
fn byte_from_little_endian_bits() {
    assert_eq!(byte_from_le_bits(&[]), 0);
    assert_eq!(byte_from_le_bits(&[true]), 1);
    assert_eq!(byte_from_le_bits(&[false, true, true]), 6);
    assert_eq!(byte_from_le_bits(&[true; 8]), 255);
    assert_eq!(byte_from_le_bits(&[false, false, false, false, false, false, false, true]), 128);
}

#[test]
fn bits_within_bytes_are_turned_around() {
    let data: Vec<u8> = (0..16).collect();
    assert_eq!(
        reverse_inner_byte_order(&data),
        vec![7, 6, 5, 4, 3, 2, 1, 0, 15, 14, 13, 12, 11, 10, 9, 8]
    );
    assert!(reverse_inner_byte_order::<bool>(&[]).is_empty());
}

#[test]
fn inputs_are_packed_and_unpacked() {
    let input: Vec<u8> = (1..=7).collect();
    let packed = pack_inputs(input.clone(), 4, &0);
    assert_eq!(packed, vec![vec![1, 2, 3, 0], vec![4, 5, 6, 0], vec![7, 0, 0, 0]]);
    assert_eq!(pack_inputs((1..=6).collect::<Vec<u8>>(), 4, &0).len(), 2);
    assert!(pack_inputs(Vec::<u8>::new(), 4, &0).is_empty());
    assert_eq!(unpack_inputs(packed), vec![1, 2, 3, 4, 5, 6, 7, 0, 0]);
    assert_eq!(unpack_inputs(vec![vec![1u8], vec![], vec![2, 3]]), vec![2]);
}

#[test]
fn point_bits_are_padded_to_whole_bytes() {
    let bits: Vec<u8> = (1..=6).collect();
    assert_eq!(
        pad_point_bits(bits, 9, 3, &0),
        vec![9, 0, 0, 0, 0, 1, 2, 3, 0, 0, 0, 0, 0, 4, 5, 6]
    );
    assert_eq!(pad_point_bits(Vec::<u8>::new(), 9, 3, &0), vec![9]);
    let whole: Vec<u8> = (1..=8).collect();
    let padded = pad_point_bits(whole, 9, 8, &0);
    assert_eq!(padded.len(), 16);
    assert_eq!(&padded[..8], &[9, 0, 0, 0, 0, 0, 0, 0]);
}

#[test]
fn values_go_into_and_out_of_records() {
    let value: &[u8] = &[1, 2, 3];
    assert_eq!(value.database_byte_size(), 3);
    let mut buffer = [9u8; 5];
    assert_eq!(value.copy_into_database(&mut buffer), Ok(()));
    assert_eq!(buffer, [1, 2, 3, 9, 9]);
    let mut short = [9u8; 2];
    assert_eq!(value.copy_into_database(&mut short), Err(DatabaseValueError::InsufficientSpace));
    assert_eq!(short, [9, 9]);
    assert_eq!("héllo".database_byte_size(), 6);
    let mut text = [0u8; 6];
    assert_eq!("héllo".copy_into_database(&mut text), Ok(()));
    assert_eq!(&text, "héllo".as_bytes());
    assert_eq!(
        "héllo".copy_into_database(&mut [0u8; 5]),
        Err(DatabaseValueError::InsufficientSpace)
    );
    assert_eq!(String::copy_from_database(&text), Ok("héllo".to_string()));
    assert_eq!(String::copy_from_database(&[0xff, 0xfe]), Err(DatabaseValueError::InvalidUtf8));
    assert_eq!(u32::copy_from_database(&7u32.to_ne_bytes()), Ok(7));
    assert_eq!(u32::copy_from_database(&[1, 2, 3]), Err(DatabaseValueError::IncorrectSize));
    assert_eq!(u64::copy_from_database(&0x0102030405060708u64.to_ne_bytes()), Ok(0x0102030405060708));
    assert_eq!(u64::copy_from_database(&[0; 4]), Err(DatabaseValueError::IncorrectSize));
    assert_eq!(Vec::<u8>::copy_from_database(&[4, 5]), Ok(vec![4, 5]));
    assert_eq!(DatabaseValueError::InsufficientSpace.message(), "Insufficient space in buffer");
    assert_eq!(DatabaseValueError::IncorrectSize.message(), "Incorrect byte size for type");
}

#[test]
fn keys_of_records_are_their_bytes() {
    assert_eq!(vec![1u8, 2].as_database_bytes().as_ref(), &[1, 2]);
    assert_eq!("validatorState".as_database_bytes().as_ref(), b"validatorState");
    assert_eq!(7u8.as_database_bytes().as_ref(), &[7]);
    assert_eq!(0x0102u16.as_database_bytes().as_ref(), &0x0102u16.to_ne_bytes());
    assert_eq!((-2i16).as_database_bytes().as_ref(), &(-2i16).to_ne_bytes());
    assert_eq!(0x01020304i32.as_database_bytes().as_ref(), &0x01020304i32.to_ne_bytes());
    assert_eq!((-5i64).as_database_bytes().as_ref(), &(-5i64).to_ne_bytes());
    assert_eq!('é'.as_database_bytes().as_ref(), &('é' as u32).to_ne_bytes());
    let words: &[u16] = &[1, 0x0203];
    let mut expected = 1u16.to_ne_bytes().to_vec();
    expected.extend_from_slice(&0x0203u16.to_ne_bytes());
    assert_eq!(words.as_database_bytes().as_ref(), &expected[..]);
    let longs: &[i64] = &[-1, 2];
    assert_eq!(longs.as_database_bytes().len(), 16);
    let none: &[u64] = &[];
    assert!(none.as_database_bytes().is_empty());
    assert_eq!(5u64.as_database_bytes().as_ref(), &5u64.to_ne_bytes());
    let slice: &[u8] = &[3, 4];
    assert_eq!(slice.as_database_bytes().as_ref(), &[3, 4]);
}

const GENERATOR: &str = "036b17d1f2e12c4247f8bce6e563a440f277037d812deb33a0f4a13945d898c296";

#[test]
fn es256_keys_parse_from_bytes_and_hex() {
    let key = ES256PublicKey::from_hex(GENERATOR).expect("the generator is a key");
    assert!(key.is_compressed());
    assert_eq!(key.to_hex(), GENERATOR);
    assert_eq!(key.as_bytes()[0], 3);
    assert_eq!(key.as_bytes()[32], 0x96);
    assert_eq!(ES256PublicKey::SIZE, 33);
    let upper = ES256PublicKey::from_hex(&GENERATOR.to_uppercase()).expect("case does not matter");
    assert!(upper.same_as(&key));
    assert!(ES256PublicKey::from_bytes(&key.as_bytes()).expect("same bytes").same_as(&key));
    assert_eq!(ES256PublicKey::from_hex("0g").err(), Some(ParseError::InvalidHex));
    assert_eq!(ES256PublicKey::from_hex("abc").err(), Some(ParseError::InvalidHex));
    assert_eq!(
        ES256PublicKey::from_hex("abcd").err(),
        Some(ParseError::Keys(KeysError::MalformedPublicKey))
    );
    assert_eq!(ES256PublicKey::from_bytes(&[]).err(), Some(KeysError::MalformedPublicKey));
    assert_eq!(ES256PublicKey::from_bytes(&[2; 32]).err(), Some(KeysError::MalformedPublicKey));
    assert_eq!(ES256PublicKey::from_bytes(&[1; 33]).err(), Some(KeysError::MalformedPublicKey));
    assert!(ES256PublicKey::from_bytes(&[4; 65]).is_ok());
    assert!(ES256PublicKey::from_bytes(&[5; 33]).is_ok());
    assert_eq!(ES256PublicKey::default().to_vec(), vec![0]);
    assert_eq!(ES256PublicKey::default().to_hex(), "00");
    assert!(!ES256PublicKey::default().is_compressed());
    assert!(key.clone().same_as(&key));
}

#[test]
fn es256_verification_rejects_what_is_not_a_signature() {
    let key = ES256PublicKey::from_hex(GENERATOR).expect("the generator is a key");
    assert!(!key.verify(&ES256Signature { bytes: [0; 64] }, b"message"));
    assert!(!key.verify(&ES256Signature { bytes: [1; 64] }, b"message"));
    let off_curve = ES256PublicKey::from_bytes(&[2; 33]).expect("well-formed encoding");
    assert!(!off_curve.verify(&ES256Signature { bytes: [1; 64] }, b"message"));
}

#[test]
fn es256_verifies_a_known_signature() {
    // RFC 6979, A.2.5, P-256 with SHA-256, message "sample".
    let key = ES256PublicKey::from_hex(
        "0360fed4ba255a9d31c961eb74c6356d68c049b8923b61fa6ce669622e60f29fb6",
    )
    .expect("the test key");
    let mut bytes = [0u8; 64];
    let r = "efd48b2aacb6a8fd1140dd9cd45e81d69d2c877b56aaf991c34d0ea84eaf3716";
    let s = "f7cb1c942d657c41d436c7a1b6e29f65f3e900dbb9aff4064dc4ab2f843acda8";
    for i in 0..32 {
        bytes[i] = u8::from_str_radix(&r[2 * i..2 * i + 2], 16).expect("hex");
        bytes[32 + i] = u8::from_str_radix(&s[2 * i..2 * i + 2], 16).expect("hex");
    }
    assert!(key.verify(&ES256Signature { bytes }, b"sample"));
    assert!(!key.verify(&ES256Signature { bytes }, b"samples"));
}

#[test]
fn peers_are_named_by_what_they_provide() {
    let info = PlainPeerInfo::new("/dns4/seed/tcp/443".to_string(), true, true);
    assert_eq!(info.address, "/dns4/seed/tcp/443");
    assert_eq!(info.node_type, "history");
    assert_eq!(PlainPeerInfo::new(String::new(), true, false).node_type, "history");
    assert_eq!(PlainPeerInfo::new(String::new(), false, true).node_type, "full");
    assert_eq!(PlainPeerInfo::new(String::new(), false, false).node_type, "light");
    assert_eq!(NodeType::of(false, true), NodeType::Full);
    assert_eq!(NodeType::Light.name(), "light");
}
