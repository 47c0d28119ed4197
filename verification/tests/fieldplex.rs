use heapswap::entry::{Entry, PrivateEntryData, PublicEntryData, SubfieldEntry, SubfieldEntryError};
use heapswap::fieldplex::{publish_topics, try_publish_topics, FieldplexError};
use heapswap::keys::Keypair;
use heapswap::topic::{Subfield, SubfieldError};
use heapswap::u256::U256;

fn make_entry(subfield: Subfield, signature: [u8; 64]) -> SubfieldEntry {
    SubfieldEntry {
        subfield,
        entry: Entry {
            public_data: PublicEntryData {
                signer_signature: signature,
                cosigner_signature: None,
                private_is_private: true,
                created_ts: 1_700_000_000_000,
                updated_ts: 1_700_000_000_000,
            },
            private_data: PrivateEntryData { seed_plaintext: None, datatype: None, data: None },
        },
    }
}

#[test]
fn complete_signed_entries_go_to_seven_topics() {
    let signer = Keypair::random().unwrap();
    let subfield = Subfield {
        signer: Some(*signer.public_key().u256()),
        cosigner: Some(U256::new([2u8; 32])),
        tangent: Some(U256::new([3u8; 32])),
    };
    let signature = signer.sign(subfield.hash().unpacked());
    let topics = publish_topics(&make_entry(subfield, signature)).unwrap();
    assert_eq!(topics.len(), 7);
    let expected = subfield.hashes();
    for (a, b) in topics.iter().zip(expected.iter()) {
        assert!(a == b);
    }
    assert!(topics[6] == subfield.hash());
}

#[test]
fn incomplete_or_unsigned_entries_are_refused() {
    let signer = Keypair::random().unwrap();
    let partial = Subfield { signer: Some(*signer.public_key().u256()), cosigner: None, tangent: None };
    let signature = signer.sign(partial.hash().unpacked());
    assert_eq!(
        publish_topics(&make_entry(partial, signature)),
        Err(FieldplexError::SubfieldError(SubfieldError::NoCosigner))
    );
    let complete = Subfield {
        signer: Some(*signer.public_key().u256()),
        cosigner: Some(U256::new([2u8; 32])),
        tangent: Some(U256::new([3u8; 32])),
    };
    // A signature of the partial subfield does not sign the complete one.
    assert_eq!(
        publish_topics(&make_entry(complete, signature)),
        Err(FieldplexError::SubfieldEntryError(SubfieldEntryError::InvalidSignerSignature))
    );
}

#[test]
fn try_publish_refuses_a_signer_off_the_curve() {
    let mut bytes = [0u8; 32];
    for y in 2u8..=255 {
        bytes[0] = y;
        if ed25519_dalek::VerifyingKey::from_bytes(&bytes).is_err() {
            break;
        }
    }
    let subfield = Subfield {
        signer: Some(U256::new(bytes)),
        cosigner: Some(U256::new([2u8; 32])),
        tangent: Some(U256::new([3u8; 32])),
    };
    assert_eq!(
        try_publish_topics(&make_entry(subfield, [0u8; 64])),
        Err(FieldplexError::SubfieldEntryError(SubfieldEntryError::FailedToParseSignerSignature))
    );
    let signer = Keypair::random().unwrap();
    let good = Subfield { signer: Some(*signer.public_key().u256()), ..subfield };
    let signature = signer.sign(good.hash().unpacked());
    assert_eq!(try_publish_topics(&make_entry(good, signature)).unwrap().len(), 7);
    // An incomplete subfield is refused for its missing field first.
    let partial = Subfield { tangent: None, ..subfield };
    assert_eq!(
        try_publish_topics(&make_entry(partial, [0u8; 64])),
        Err(FieldplexError::SubfieldError(SubfieldError::NoTangent))
    );
}
