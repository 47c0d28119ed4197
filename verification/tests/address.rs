use heapswap::address::{pack, unpack, Address, AddressError, PackedOrder};
use std::cmp::Ordering;

fn seed(first: u8) -> [u8; 32] {
    let mut s = [0u8; 32];
    s[0] = first;
    s
}

#[test]
fn address_is_seed_then_digest() {
    let s = seed(42);
    let a = Address::new(s);
    assert_eq!(&a.unpacked()[..32], &s[..]);
    assert_eq!(&a.unpacked()[32..], blake3::hash(&s).as_bytes());
    assert_eq!(a.seed(), &s);
    assert_eq!(a.to_seed(), s);
    assert_eq!(a.to_arr(), s);
    assert!(Address::from_seed(s) == a);
}

#[test]
fn zero_and_default_are_the_zero_seed() {
    let z = Address::zero();
    assert_eq!(z.seed(), &[0u8; 32]);
    assert!(Address::default() == z);
    assert_eq!(&z.unpacked()[32..], blake3::hash(&[0u8; 32]).as_bytes());
}

#[test]
fn packed_view_round_trip() {
    let a = Address::new(seed(7));
    let p = a.packed();
    assert_eq!(p, pack(a.unpacked()));
    assert_eq!(&unpack(p), a.unpacked());
    assert!(Address::from_packed(p) == a);
    assert!(Address::from_unpacked(*a.unpacked()) == a);
    assert_eq!(p[0], u64::from_le_bytes(a.unpacked()[..8].try_into().unwrap()));
}

#[test]
fn address_bit_counts() {
    let mut bytes = [0u8; 64];
    bytes[0] = 0b111;
    bytes[63] = 0b1000_0001;
    let a = Address::from_unpacked(bytes);
    assert_eq!(a.popcnt(), 5);
    let mut other = [0u8; 64];
    other[0] = 0b010;
    other[63] = 0b1000_0000;
    let b = Address::from_unpacked(other);
    assert_eq!(a.andcount(&b), 2);
}

#[test]
fn bitxor_is_bytewise() {
    let a = Address::new(seed(1));
    let b = Address::new(seed(2));
    let x = a.bitxor(b);
    for i in 0..64 {
        assert_eq!(x.unpacked()[i], a.unpacked()[i] ^ b.unpacked()[i]);
    }
    assert!(x.bitxor(b) == a);
}

#[test]
fn order_follows_packed_words() {
    let mut low = [0u8; 64];
    low[8] = 1;
    let mut high = [0u8; 64];
    high[7] = 1;
    let a = Address::from_unpacked(low);
    let b = Address::from_unpacked(high);
    // Word 0 decides: b has a nonzero first word.
    assert_eq!(a.compare_packed(&b), PackedOrder::Less);
    assert_eq!(b.compare_packed(&a), PackedOrder::Greater);
    assert_eq!(a.compare_packed(&a), PackedOrder::Equal);
    assert_eq!(a.partial_cmp(&b), Some(Ordering::Less));
    assert!(a < b);
}

#[test]
fn bytes_round_trip_is_refused() {
    let a = Address::new(seed(9));
    let buffer = a.to_bytes();
    assert_eq!(buffer.as_ref(), &seed(9)[..]);
    assert_eq!(Address::from_bytes(&buffer), Err(AddressError::InvalidLength));
    assert!(Address::from_arr(&seed(9)).unwrap() == a);
}

#[test]
fn random_addresses_differ() {
    assert!(Address::random().unwrap() != Address::random().unwrap());
}
