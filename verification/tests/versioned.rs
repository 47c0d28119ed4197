use heapswap::buffer::buffer_len;
use heapswap::versioned::{validate_bytes, V256, V512};

#[test]
fn v256_test_v256() {
    let vec256 = V256::random().unwrap();
    let vec256_serialized = vec256.to_vec();
    assert_eq!(vec256_serialized.len(), 32 + 2);
    assert!(vec256 == V256::from_arr(&vec256_serialized).unwrap());
}

#[test]
fn test_v512() {
    let vec512 = V512::random().unwrap();
    let vec512_serialized = vec512.to_vec();
    assert_eq!(vec512_serialized.len(), 64 + 2);
    assert!(vec512 == V512::from_arr(&vec512_serialized).unwrap());
}

#[test]
fn wire_form_is_bytes_then_little_endian_version() {
    let mut bytes = [0u8; 32];
    bytes[0] = 9;
    bytes[31] = 4;
    let v = V256::new(0x0201, bytes);
    let wire = v.to_vec();
    assert_eq!(&wire[..32], &bytes[..]);
    assert_eq!(wire[32], 0x01);
    assert_eq!(wire[33], 0x02);
    let back = V256::from_arr(&wire).unwrap();
    assert_eq!(*back.version(), 0x0201);
    assert_eq!(back.bytes(), &bytes);
}

#[test]
fn bytes_buffer_round_trip() {
    let v = V512::new(7, [5u8; 64]);
    let buffer = v.to_bytes();
    assert_eq!(buffer.len(), 66);
    let back = V512::from_bytes(buffer).unwrap();
    assert!(back == v);
    let w = V256::new(65535, [1u8; 32]);
    let back = V256::from_bytes(w.to_bytes()).unwrap();
    assert_eq!(*back.version(), 65535);
}

#[test]
fn equality_compares_version_and_bytes() {
    let a = V256::new(1, [3u8; 32]);
    assert!(a == V256::new(1, [3u8; 32]));
    assert!(a != V256::new(2, [3u8; 32]));
    let mut other = [3u8; 32];
    other[17] = 4;
    assert!(a != V256::new(1, other));
}

#[test]
fn random_values_have_version_zero() {
    assert_eq!(*V256::random().unwrap().version(), 0);
    assert_eq!(*V512::random().unwrap().version(), 0);
}

#[test]
fn validate_bytes_keeps_32_bytes() {
    let bytes: Vec<u8> = (0..32).collect();
    let arr = validate_bytes(bytes.clone());
    assert_eq!(arr.to_vec(), bytes);
}

#[test]
fn js_accessors() {
    let v = V256::_js_new(12, (0..32).collect());
    assert_eq!(v._js_version(), 12);
    assert_eq!(v._js_bytes(), (0..32).collect::<Vec<u8>>());
}

#[test]
fn buffer_length_is_tested_before_reading() {
    let w = V256::new(9, [4u8; 32]);
    let buffer = w.to_bytes();
    assert_eq!(buffer_len(&buffer), 34);
    if buffer_len(&buffer) == 34 {
        assert!(V256::from_bytes(buffer).unwrap() == w);
    }
    let short = bytes::Bytes::from(vec![1u8, 2, 3]);
    assert_eq!(buffer_len(&short), 3);
}
