use heapswap::hash::{hash, verify, verify_hash};
use heapswap::u256::{U256, U256Error};

fn key(first: u8, last: u8) -> U256 {
    let mut bytes = [0u8; 32];
    bytes[0] = first;
    bytes[31] = last;
    U256::new(bytes)
}

#[test]
fn hash_is_blake3() {
    let data = b"subfield";
    assert_eq!(&hash(data), blake3::hash(data).as_bytes());
    assert_eq!(U256::hash(data).unpacked(), blake3::hash(data).as_bytes());
    // The digest is not the input handed back.
    let mut padded = [0u8; 32];
    padded[..8].copy_from_slice(data);
    assert_ne!(hash(data), padded);
}

#[test]
fn verify_checks_the_digest() {
    let data = b"entry";
    assert!(verify(data, hash(data)));
    assert!(!verify(b"other", hash(data)));
    assert!(U256::verify(data, U256::hash(data)));
    assert!(!U256::verify(data, U256::zero()));
}

#[test]
fn pack_and_unpack_are_little_endian_words() {
    let mut bytes = [0u8; 32];
    for i in 0..32 {
        bytes[i] = i as u8;
    }
    let packed = U256::pack(&bytes);
    assert_eq!(packed[0], u64::from_le_bytes([0, 1, 2, 3, 4, 5, 6, 7]));
    assert_eq!(packed[3], u64::from_le_bytes([24, 25, 26, 27, 28, 29, 30, 31]));
    assert_eq!(U256::unpack(&packed), bytes);
    let k = U256::new_from_packed(&packed);
    assert_eq!(k.unpacked(), &bytes);
    assert_eq!(k.packed(), packed);
}

#[test]
fn key_bit_counts() {
    let a = key(0b1011, 0xff);
    let b = key(0b0110, 0x0f);
    assert_eq!(a.popcount(), 3 + 8);
    assert_eq!(a.andcount(&b), 1 + 4);
    assert_eq!(a.hamming(&b), 3 + 4);
    assert_eq!(a.hamming(&a), 0);
    assert_eq!(U256::zero().popcount(), 0);
}

#[test]
fn xor_and_leading_zeroes() {
    let a = key(0b1000_0000, 1);
    let b = key(0, 1);
    let x = a.xor(&b);
    assert_eq!(x.unpacked(), key(0b1000_0000, 0).unpacked());
    assert_eq!(a.xor_leading_zeroes(&b), 0);
    assert_eq!(a.xor_leading_zeroes(&a), 256);
    let c = key(0, 0);
    let d = key(0, 1);
    assert_eq!(c.xor_leading_zeroes(&d), 255);
    assert_eq!(key(0b0001_0000, 0).xor_leading_zeroes(&U256::zero()), 3);
}

#[test]
fn xor_is_its_own_inverse() {
    let a = key(17, 99);
    let b = key(200, 3);
    assert!(a.xor(&b).xor(&b) == a);
    assert!(a.xor(&b) == b.xor(&a));
    assert!(a.xor(&a) == U256::zero());
}

#[test]
fn equality_and_bytes() {
    let a = key(1, 2);
    assert!(a.equals(&key(1, 2)));
    assert!(!a.equals(&key(1, 3)));
    assert!(a == key(1, 2));
    assert_eq!(a.to_bytes().len(), 32);
    assert!(U256::from_bytes(&a.to_bytes()).unwrap() == a);
    assert_eq!(a.data_u8(), a.unpacked());
}

#[test]
fn from_bytes_refuses_other_lengths() {
    assert!(matches!(U256::from_bytes(&[0u8; 31]), Err(U256Error::InvalidLength)));
    assert!(matches!(U256::from_bytes(&[0u8; 33]), Err(U256Error::InvalidLength)));
}

#[test]
fn random_keys_differ() {
    assert!(U256::random().unwrap() != U256::random().unwrap());
}

#[test]
fn verify_hash_takes_a_key() {
    assert!(verify_hash(b"abc", U256::hash(b"abc")));
    assert!(!verify_hash(b"abd", U256::hash(b"abc")));
}
