//! Publishing entries: an entry goes out under every topic hash of its
//! subfield, once its subfield is complete and its signer signature holds.
use vstd::prelude::*;
use crate::entry::{field_is_point, signs_subfield, SubfieldEntry, SubfieldEntryError};
use crate::keys::PublicKey;
use crate::topic::{keys_view, topic_digests, SubfieldError};
use crate::u256::U256;

verus! {

#[derive(Debug, Clone, Copy, PartialEq, Eq, Structural)]
pub enum FieldplexError {
    InvalidCallback,
    SubfieldCreateSwarmError,
    SubfieldError(SubfieldError),
    SubfieldEntryError(SubfieldEntryError),
    FailedToSend,
}

/// Whether an entry may be published: its subfield is complete, and its
/// signer signature signs the subfield's hash under the signer's key, which
/// is a curve point.
pub open spec fn publishable(entry: SubfieldEntry) -> bool {
    let s = entry.subfield;
    &&& s.signer is Some && s.cosigner is Some && s.tangent is Some
    &&& field_is_point(s.signer)
    &&& signs_subfield(s.signer, s, entry.entry.public_data.signer_signature)
}

/// Why an entry may not be published: the first missing field of its
/// subfield, else a signer key that is not a curve point, else a signer
/// signature that does not hold.
pub open spec fn publish_error(entry: SubfieldEntry) -> FieldplexError {
    let s = entry.subfield;
    if s.signer is None {
        FieldplexError::SubfieldError(SubfieldError::NoSigner)
    } else if s.cosigner is None {
        FieldplexError::SubfieldError(SubfieldError::NoCosigner)
    } else if s.tangent is None {
        FieldplexError::SubfieldError(SubfieldError::NoTangent)
    } else if !field_is_point(s.signer) {
        FieldplexError::SubfieldEntryError(SubfieldEntryError::FailedToParseSignerSignature)
    } else {
        FieldplexError::SubfieldEntryError(SubfieldEntryError::InvalidSignerSignature)
    }
}

/// Whether all three fields of an entry's subfield are set.
pub open spec fn complete(entry: SubfieldEntry) -> bool {
    entry.subfield.signer is Some && entry.subfield.cosigner is Some && entry.subfield.tangent is Some
}

/// The topic hashes an entry is published under: those of every combination
/// of its subfield's fields, once the entry passes the checks.  The signer
/// key of a complete subfield must be a curve point: reading any other key
/// panics.
pub fn publish_topics(entry: &SubfieldEntry) -> (r: Result<Vec<U256>, FieldplexError>)
    requires
        complete(*entry) ==> field_is_point(entry.subfield.signer),
    ensures
        r is Ok <==> publishable(*entry),
        r matches Ok(hashes) ==> keys_view(hashes@) == topic_digests(
            entry.subfield.signer,
            entry.subfield.cosigner,
            entry.subfield.tangent,
        ),
        r matches Err(e) ==> e == publish_error(*entry),
{
    if let Err(e) = entry.subfield.is_complete() {
        return Err(FieldplexError::SubfieldError(e));
    }
    if let Err(e) = entry.signer_signature_is_valid() {
        return Err(FieldplexError::SubfieldEntryError(e));
    }
    Ok(entry.subfield.hashes())
}

/// As `publish_topics`, but a complete subfield whose signer key is not a
/// curve point is first refused with `FailedToParseSignerSignature`.
pub fn try_publish_topics(entry: &SubfieldEntry) -> (r: Result<Vec<U256>, FieldplexError>)
    ensures
        r is Ok <==> publishable(*entry),
        r matches Ok(hashes) ==> keys_view(hashes@) == topic_digests(
            entry.subfield.signer,
            entry.subfield.cosigner,
            entry.subfield.tangent,
        ),
        r matches Err(e) ==> e == publish_error(*entry),
{
    if let Some(signer) = &entry.subfield.signer {
        if entry.subfield.cosigner.is_some() && entry.subfield.tangent.is_some()
            && !PublicKey::from_u256(*signer).is_valid() {
            return Err(
                FieldplexError::SubfieldEntryError(
                    SubfieldEntryError::FailedToParseSignerSignature,
                ),
            );
        }
    }
    publish_topics(entry)
}

} // verus!
