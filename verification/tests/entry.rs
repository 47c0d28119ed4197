use heapswap::entry::{
    Entry, PrivateEntryData, PublicEntryData, SubfieldEntry, SubfieldEntryError,
};
use heapswap::keys::Keypair;
use heapswap::topic::Subfield;
use heapswap::u256::U256;

fn entry(signer_signature: [u8; 64], cosigner_signature: Option<[u8; 64]>) -> Entry {
    Entry {
        public_data: PublicEntryData {
            signer_signature,
            cosigner_signature,
            private_is_private: false,
            created_ts: 0,
            updated_ts: 0,
        },
        private_data: PrivateEntryData { seed_plaintext: None, datatype: Some(1), data: None },
    }
}

fn signed(signer: &Keypair, cosigner: &Keypair, cosign: bool) -> SubfieldEntry {
    let subfield = Subfield {
        signer: Some(*signer.public_key().u256()),
        cosigner: Some(*cosigner.public_key().u256()),
        tangent: Some(U256::new([3u8; 32])),
    };
    let message = subfield.hash();
    let signature = signer.sign(message.unpacked());
    let cosignature = if cosign { Some(cosigner.sign(message.unpacked())) } else { None };
    SubfieldEntry { subfield, entry: entry(signature, cosignature) }
}

#[test]
fn valid_signatures() {
    let signer = Keypair::random().unwrap();
    let cosigner = Keypair::random().unwrap();
    let e = signed(&signer, &cosigner, true);
    assert_eq!(e.signer_signature_is_valid(), Ok(true));
    assert_eq!(e.cosigner_signature_is_valid(), Ok(true));
    assert_eq!(e.validate(), Ok(()));
    let without = signed(&signer, &cosigner, false);
    assert_eq!(without.cosigner_signature_is_valid(), Ok(true));
    assert_eq!(without.validate(), Ok(()));
}

#[test]
fn wrong_signatures() {
    let signer = Keypair::random().unwrap();
    let cosigner = Keypair::random().unwrap();
    let mut e = signed(&signer, &cosigner, true);
    // Signed by the wrong key.
    e.entry.public_data.signer_signature = cosigner.sign(e.subfield.hash().unpacked());
    assert_eq!(e.signer_signature_is_valid(), Err(SubfieldEntryError::InvalidSignerSignature));
    assert_eq!(e.validate(), Err(SubfieldEntryError::InvalidSignerSignature));

    let mut e = signed(&signer, &cosigner, true);
    e.entry.public_data.cosigner_signature = Some(signer.sign(e.subfield.hash().unpacked()));
    assert_eq!(e.cosigner_signature_is_valid(), Err(SubfieldEntryError::InvalidCosignerSignature));
    assert_eq!(e.validate(), Err(SubfieldEntryError::InvalidCosignerSignature));

    // A signature of another subfield.
    let mut e = signed(&signer, &cosigner, false);
    e.subfield.tangent = None;
    assert_eq!(e.signer_signature_is_valid(), Err(SubfieldEntryError::InvalidSignerSignature));
}

#[test]
fn missing_or_unreadable_keys() {
    let signer = Keypair::random().unwrap();
    let cosigner = Keypair::random().unwrap();
    let mut e = signed(&signer, &cosigner, true);
    e.subfield.signer = None;
    assert_eq!(e.validate(), Err(SubfieldEntryError::NoSignerSignature));

    let mut bytes = [0u8; 32];
    for y in 2u8..=255 {
        bytes[0] = y;
        if ed25519_dalek::VerifyingKey::from_bytes(&bytes).is_err() {
            break;
        }
    }
    let mut e = signed(&signer, &cosigner, true);
    e.subfield.signer = Some(U256::new(bytes));
    assert_eq!(e.validate(), Err(SubfieldEntryError::FailedToParseSignerSignature));

    // A cosignature with no cosigner to check it against.
    let mut e = signed(&signer, &cosigner, true);
    e.subfield.cosigner = None;
    e.entry.public_data.signer_signature = signer.sign(e.subfield.hash().unpacked());
    assert_eq!(e.signer_signature_is_valid(), Ok(true));
    assert_eq!(e.validate(), Err(SubfieldEntryError::FailedToParseCosignerSignature));
}
