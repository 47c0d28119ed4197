//! Entries published under a subfield, and the checks of their signatures.
//!
//! The signer signs the hash of the subfield an entry is published under;
//! a cosigner, when the entry carries a cosignature, signs the same hash.
use vstd::prelude::*;
use crate::keys::{ed25519_point_valid, ed25519_verifies, PublicKey, SignatureArr};
use crate::topic::{topic_digest, Field, Subfield};

verus! {

/// Data of an entry that is never encrypted.
#[derive(Debug, Clone)]
pub struct PublicEntryData {
    pub signer_signature: SignatureArr,
    pub cosigner_signature: Option<SignatureArr>,
    pub private_is_private: bool,
    /// Creation time, in milliseconds since the Unix epoch (UTC).
    pub created_ts: i64,
    /// Time of the last update, in milliseconds since the Unix epoch (UTC).
    pub updated_ts: i64,
}

/// Data of an entry that is encrypted when `private_is_private` is set.
#[derive(Debug, Clone)]
pub struct PrivateEntryData {
    pub seed_plaintext: Option<bytes::Bytes>,
    pub datatype: Option<u32>,
    pub data: Option<bytes::Bytes>,
}

/// An entry in the store.
#[derive(Debug, Clone)]
pub struct Entry {
    pub public_data: PublicEntryData,
    pub private_data: PrivateEntryData,
}

#[derive(Debug, Clone, Copy, PartialEq, Eq, Structural)]
pub enum SubfieldEntryError {
    InvalidSignerSignature,
    FailedToParseSignerSignature,
    NoSignerSignature,
    InvalidCosignerSignature,
    FailedToParseCosignerSignature,
}

/// A field and an encoded entry, as sent to subscribers.
#[derive(Debug, Clone)]
pub struct FieldEntry {
    pub field: Field,
    pub entry: Vec<u8>,
}

/// An entry with the subfield it is published under.
#[derive(Debug, Clone)]
pub struct SubfieldEntry {
    pub subfield: Subfield,
    pub entry: Entry,
}

/// What the signatures of an entry sign: the hash of its subfield.
pub open spec fn signed_message(s: Subfield) -> Seq<u8> {
    topic_digest(s.signer, s.cosigner, s.tangent)
}

/// Whether `signature` signs the subfield's hash under `key`.
pub open spec fn signs_subfield(key: Field, s: Subfield, signature: SignatureArr) -> bool {
    match key {
        Some(k) => ed25519_verifies(k@, signed_message(s), signature@),
        None => false,
    }
}

/// Whether the cosignature, if the entry carries one, signs the subfield's
/// hash under the cosigner's key.
pub open spec fn cosignature_holds(e: SubfieldEntry) -> bool {
    match e.entry.public_data.cosigner_signature {
        Some(sig) => signs_subfield(e.subfield.cosigner, e.subfield, sig),
        None => true,
    }
}

/// Whether a field holds a key that is a curve point.
pub open spec fn field_is_point(f: Field) -> bool {
    match f {
        Some(k) => ed25519_point_valid(k@),
        None => false,
    }
}

impl SubfieldEntry {
    /// `Ok(true)` when the signer signature signs the subfield's hash under
    /// the signer's key, else `InvalidSignerSignature`.  The subfield must
    /// have a signer, and its key must be a curve point.
    pub fn signer_signature_is_valid(&self) -> (r: Result<bool, SubfieldEntryError>)
        requires
            field_is_point(self.subfield.signer),
        ensures
            r == (if signs_subfield(
                self.subfield.signer,
                self.subfield,
                self.entry.public_data.signer_signature,
            ) {
                Ok::<bool, SubfieldEntryError>(true)
            } else {
                Err(SubfieldEntryError::InvalidSignerSignature)
            }),
    {
        let signer = PublicKey::from_u256(*self.subfield.signer.as_ref().unwrap());
        let message = self.subfield.hash();
        let verified = signer.verify(
            message.data_u8(),
            self.entry.public_data.signer_signature.as_slice(),
        );
        match verified {
            Ok(res) => {
                if !res {
                    return Err(SubfieldEntryError::InvalidSignerSignature);
                }
            },
            Err(_) => {
                return Err(SubfieldEntryError::FailedToParseSignerSignature);
            },
        }
        Ok(true)
    }

    /// `Ok(true)` when the entry carries no cosignature, or when it signs the
    /// subfield's hash under the cosigner's key; else
    /// `InvalidCosignerSignature`.  An entry with a cosignature must have a
    /// cosigner whose key is a curve point.
    pub fn cosigner_signature_is_valid(&self) -> (r: Result<bool, SubfieldEntryError>)
        requires
            self.entry.public_data.cosigner_signature is Some ==> field_is_point(
                self.subfield.cosigner,
            ),
        ensures
            r == (if cosignature_holds(*self) {
                Ok::<bool, SubfieldEntryError>(true)
            } else {
                Err(SubfieldEntryError::InvalidCosignerSignature)
            }),
    {
        if self.entry.public_data.cosigner_signature.is_none() {
            return Ok(true);
        }
        let cosigner = PublicKey::from_u256(*self.subfield.cosigner.as_ref().unwrap());
        let message = self.subfield.hash();
        let signature = self.entry.public_data.cosigner_signature.as_ref().unwrap();
        let verified = cosigner.verify(message.data_u8(), signature.as_slice());
        match verified {
            Ok(res) => {
                if !res {
                    return Err(SubfieldEntryError::InvalidCosignerSignature);
                }
            },
            Err(_) => {
                return Err(SubfieldEntryError::FailedToParseCosignerSignature);
            },
        }
        Ok(true)
    }

    /// Checks both signatures: a missing signer gives `NoSignerSignature`, a
    /// signer or cosigner key that is not a curve point gives the matching
    /// `FailedToParse...` error; otherwise the signer signature is checked,
    /// then the cosignature.
    pub fn validate(&self) -> (r: Result<(), SubfieldEntryError>)
        ensures
            r == (if self.subfield.signer is None {
                Err(SubfieldEntryError::NoSignerSignature)
            } else if !field_is_point(self.subfield.signer) {
                Err(SubfieldEntryError::FailedToParseSignerSignature)
            } else if !signs_subfield(
                self.subfield.signer,
                self.subfield,
                self.entry.public_data.signer_signature,
            ) {
                Err(SubfieldEntryError::InvalidSignerSignature)
            } else if self.entry.public_data.cosigner_signature is Some && !field_is_point(
                self.subfield.cosigner,
            ) {
                Err(SubfieldEntryError::FailedToParseCosignerSignature)
            } else if !cosignature_holds(*self) {
                Err(SubfieldEntryError::InvalidCosignerSignature)
            } else {
                Ok::<(), SubfieldEntryError>(())
            }),
    {
        match &self.subfield.signer {
            None => {
                return Err(SubfieldEntryError::NoSignerSignature);
            },
            Some(k) => {
                if !PublicKey::from_u256(*k).is_valid() {
                    return Err(SubfieldEntryError::FailedToParseSignerSignature);
                }
            },
        }
        if let Err(e) = self.signer_signature_is_valid() {
            return Err(e);
        }
        if self.entry.public_data.cosigner_signature.is_some() {
            match &self.subfield.cosigner {
                None => {
                    return Err(SubfieldEntryError::FailedToParseCosignerSignature);
                },
                Some(k) => {
                    if !PublicKey::from_u256(*k).is_valid() {
                        return Err(SubfieldEntryError::FailedToParseCosignerSignature);
                    }
                },
            }
        }
        if let Err(e) = self.cosigner_signature_is_valid() {
            return Err(e);
        }
        Ok(())
    }
}

} // verus!
