use heapswap::topic::{Subfield, SubfieldError, SubfieldTopic, SubfieldTopicError, SubfieldTopicPart};
use heapswap::u256::U256;

fn key(b: u8) -> U256 {
    U256::new([b; 32])
}

fn digest(parts: [[u8; 32]; 3]) -> [u8; 32] {
    let mut data = Vec::new();
    for p in parts.iter() {
        data.extend_from_slice(p);
    }
    *blake3::hash(&data).as_bytes()
}

#[test]
fn empty_topic() {
    let topic = SubfieldTopic::new();
    assert!(topic.is_empty());
    assert!(!topic.is_some());
    assert_eq!(topic.is_complete(), Err(SubfieldTopicError::NoSigner));
    assert!(topic.hashes().is_empty());
    assert_eq!(topic.hash().unpacked(), &digest([[0u8; 32]; 3]));
}

#[test]
fn builder_sets_fields_and_completeness_reports_the_first_missing() {
    let mut topic = SubfieldTopic::new();
    topic.with_signer(key(1));
    assert!(topic.is_some());
    assert_eq!(topic.is_complete(), Err(SubfieldTopicError::NoCosigner));
    topic.with_tangent(key(3));
    assert_eq!(topic.is_complete(), Err(SubfieldTopicError::NoCosigner));
    topic.with_cosigner(key(2));
    assert_eq!(topic.is_complete(), Ok(()));
    assert!(topic.signer().unwrap() == key(1));
    assert!(topic.cosigner().unwrap() == key(2));
    assert!(topic.tangent().unwrap() == key(3));
}

#[test]
fn hashes_cover_every_combination() {
    let mut topic = SubfieldTopic::new();
    topic.with_signer(key(1)).with_cosigner(key(2)).with_tangent(key(3));
    let z = [0u8; 32];
    let (s, c, t) = ([1u8; 32], [2u8; 32], [3u8; 32]);
    let expected = vec![
        digest([s, z, z]),
        digest([z, c, z]),
        digest([z, z, t]),
        digest([s, c, z]),
        digest([s, z, t]),
        digest([z, c, t]),
        digest([s, c, t]),
    ];
    let hashes: Vec<[u8; 32]> = topic.hashes().iter().map(|h| *h.unpacked()).collect();
    assert_eq!(hashes, expected);
    assert_eq!(topic.hash().unpacked(), &digest([s, c, t]));
}

#[test]
fn hashes_skip_missing_fields() {
    let mut topic = SubfieldTopic::new();
    topic.with_cosigner(key(2));
    let z = [0u8; 32];
    let hashes: Vec<[u8; 32]> = topic.hashes().iter().map(|h| *h.unpacked()).collect();
    assert_eq!(hashes, vec![digest([z, [2u8; 32], z])]);
}

#[test]
fn parts_name_each_field() {
    let mut topic = SubfieldTopic::new();
    topic.with_tangent(key(9));
    let parts = topic.parts();
    assert_eq!(parts.len(), 3);
    assert_eq!(parts[0].0, SubfieldTopicPart::Signer);
    assert!(parts[0].1.is_none());
    assert_eq!(parts[1].0, SubfieldTopicPart::Cosigner);
    assert_eq!(parts[2].0, SubfieldTopicPart::Tangent);
    assert!(parts[2].1.unwrap() == key(9));
}

#[test]
fn subfield_checks() {
    let subfield = Subfield { signer: Some(key(1)), cosigner: None, tangent: Some(key(3)) };
    assert!(subfield.is_some());
    assert!(!subfield.is_empty());
    assert_eq!(subfield.is_complete(), Err(SubfieldError::NoCosigner));
    assert_eq!(subfield.hashes().len(), 3);
    assert_eq!(subfield.hash().unpacked(), &digest([[1u8; 32], [0u8; 32], [3u8; 32]]));
    let empty = Subfield { signer: None, cosigner: None, tangent: None };
    assert!(empty.is_empty());
    assert_eq!(empty.is_complete(), Err(SubfieldError::NoSigner));
    let tangentless = Subfield { signer: Some(key(1)), cosigner: Some(key(2)), tangent: None };
    assert_eq!(tangentless.is_complete(), Err(SubfieldError::NoTangent));
}
