//! Subfield topics: up to three keys (signer, cosigner, tangent) whose
//! combinations are hashed into the topics an entry is published under.
use vstd::prelude::*;
use crate::hash::blake3_digest;
use crate::u256::U256;

verus! {

/// The 32 zero bytes that stand for an absent field.
pub open spec fn zero_key() -> Seq<u8> {
    Seq::new(32, |i: int| 0u8)
}

/// The bytes a field contributes to a hash: its key, or 32 zero bytes.
pub open spec fn field_bytes(f: Option<U256>) -> Seq<u8> {
    match f {
        Some(k) => k@,
        None => zero_key(),
    }
}

/// The digest of a whole topic: its three fields in order, absent ones as zeros.
pub open spec fn topic_digest(s: Option<U256>, c: Option<U256>, t: Option<U256>) -> Seq<u8> {
    blake3_digest(field_bytes(s) + field_bytes(c) + field_bytes(t))
}

/// The digests of every combination of the present fields, the others
/// zeroed: singles (signer, cosigner, tangent), then pairs (signer+cosigner,
/// signer+tangent, cosigner+tangent), then all three; a combination is
/// listed only when each field it uses is present.
pub open spec fn topic_digests(s: Option<U256>, c: Option<U256>, t: Option<U256>) -> Seq<
    Seq<u8>,
> {
    let z = zero_key();
    let r0 = Seq::<Seq<u8>>::empty();
    let r1 = if s is Some {
        r0.push(blake3_digest(field_bytes(s) + z + z))
    } else {
        r0
    };
    let r2 = if c is Some {
        r1.push(blake3_digest(z + field_bytes(c) + z))
    } else {
        r1
    };
    let r3 = if t is Some {
        r2.push(blake3_digest(z + z + field_bytes(t)))
    } else {
        r2
    };
    let r4 = if s is Some && c is Some {
        r3.push(blake3_digest(field_bytes(s) + field_bytes(c) + z))
    } else {
        r3
    };
    let r5 = if s is Some && t is Some {
        r4.push(blake3_digest(field_bytes(s) + z + field_bytes(t)))
    } else {
        r4
    };
    let r6 = if c is Some && t is Some {
        r5.push(blake3_digest(z + field_bytes(c) + field_bytes(t)))
    } else {
        r5
    };
    if s is Some && c is Some && t is Some {
        r6.push(blake3_digest(field_bytes(s) + field_bytes(c) + field_bytes(t)))
    } else {
        r6
    }
}

/// The keys of a list of hashes.
pub open spec fn keys_view(v: Seq<U256>) -> Seq<Seq<u8>> {
    Seq::new(v.len(), |i: int| v[i]@)
}

/// The 96 bytes of three fields, absent ones as zeros.
fn concat_fields(a: &Option<U256>, b: &Option<U256>, c: &Option<U256>) -> (r: Vec<u8>)
    ensures
        r@ == field_bytes(*a) + field_bytes(*b) + field_bytes(*c),
{
    let mut v: Vec<u8> = Vec::new();
    push_field(&mut v, a);
    push_field(&mut v, b);
    push_field(&mut v, c);
    proof {
        assert(v@ =~= field_bytes(*a) + field_bytes(*b) + field_bytes(*c));
    }
    v
}

fn push_field(v: &mut Vec<u8>, f: &Option<U256>)
    ensures
        final(v)@ == old(v)@ + field_bytes(*f),
{
    let ghost start = v@;
    match f {
        Some(k) => {
            let bytes = k.data_u8();
            proof {
                k.lemma_len();
            }
            let mut i: usize = 0;
            while i < 32
                invariant
                    0 <= i <= 32,
                    bytes@ == k@,
                    k@.len() == 32,
                    v@ == start + k@.subrange(0, i as int),
                decreases 32 - i,
            {
                v.push(bytes[i]);
                i += 1;
                proof {
                    assert(v@ =~= start + k@.subrange(0, i as int));
                }
            }
            proof {
                assert(k@.subrange(0, 32) =~= k@);
            }
        },
        None => {
            let mut i: usize = 0;
            while i < 32
                invariant
                    0 <= i <= 32,
                    v@ == start + zero_key().subrange(0, i as int),
                decreases 32 - i,
            {
                v.push(0u8);
                i += 1;
                proof {
                    assert(v@ =~= start + zero_key().subrange(0, i as int));
                }
            }
            proof {
                assert(zero_key().subrange(0, 32) =~= zero_key());
            }
        },
    }
}

/// Hash of three fields, absent ones as zeros.
fn hash_fields(a: &Option<U256>, b: &Option<U256>, c: &Option<U256>) -> (r: U256)
    ensures
        r@ == blake3_digest(field_bytes(*a) + field_bytes(*b) + field_bytes(*c)),
{
    let bytes = concat_fields(a, b, c);
    U256::hash(bytes.as_slice())
}

/// The digests of every combination of present fields, as in `topic_digests`.
fn combination_hashes(s: &Option<U256>, c: &Option<U256>, t: &Option<U256>) -> (r: Vec<U256>)
    ensures
        keys_view(r@) == topic_digests(*s, *c, *t),
{
    let zero: Option<U256> = Some(U256::zero());
    let none: Option<U256> = None;
    proof {
        assert(field_bytes(zero) =~= zero_key());
    }
    let mut result: Vec<U256> = Vec::new();
    let ghost z = zero_key();
    if s.is_some() {
        result.push(hash_fields(s, &zero, &zero));
    }
    if c.is_some() {
        result.push(hash_fields(&zero, c, &zero));
    }
    if t.is_some() {
        result.push(hash_fields(&zero, &zero, t));
    }
    if s.is_some() && c.is_some() {
        result.push(hash_fields(s, c, &zero));
    }
    if s.is_some() && t.is_some() {
        result.push(hash_fields(s, &zero, t));
    }
    if c.is_some() && t.is_some() {
        result.push(hash_fields(&zero, c, t));
    }
    if s.is_some() && c.is_some() && t.is_some() {
        result.push(hash_fields(s, c, t));
    }
    proof {
        assert(keys_view(result@) =~= topic_digests(*s, *c, *t));
    }
    result
}

#[derive(Debug, Clone, Copy, PartialEq, Eq, Structural)]
pub enum SubfieldTopicError {
    NoSigner,
    NoCosigner,
    NoTangent,
}

#[derive(Debug, Clone, Copy, PartialEq, Eq, Structural)]
pub enum SubfieldTopicPart {
    Signer,
    Cosigner,
    Tangent,
}

/// One of the three fields of a topic.
pub type Subtopic = Option<U256>;

/// A topic: an optional signer, cosigner and tangent.
#[derive(Debug, Clone, Copy)]
pub struct SubfieldTopic {
    signer: Subtopic,
    cosigner: Subtopic,
    tangent: Subtopic,
}

impl View for SubfieldTopic {
    type V = (Subtopic, Subtopic, Subtopic);

    closed spec fn view(&self) -> (Subtopic, Subtopic, Subtopic) {
        (self.signer, self.cosigner, self.tangent)
    }
}

impl SubfieldTopic {
    /// The topic with no field set.
    pub fn new() -> (r: SubfieldTopic)
        ensures
            r@ == (None::<U256>, None::<U256>, None::<U256>),
    {
        SubfieldTopic { signer: None, cosigner: None, tangent: None }
    }

    pub fn with_signer(&mut self, signer: U256) -> (r: &mut SubfieldTopic)
        ensures
            (*r)@ == (Some(signer), old(self)@.1, old(self)@.2),
            *final(self) == *final(r),
    {
        self.signer = Some(signer);
        self
    }

    pub fn with_cosigner(&mut self, cosigner: U256) -> (r: &mut SubfieldTopic)
        ensures
            (*r)@ == (old(self)@.0, Some(cosigner), old(self)@.2),
            *final(self) == *final(r),
    {
        self.cosigner = Some(cosigner);
        self
    }

    pub fn with_tangent(&mut self, tangent: U256) -> (r: &mut SubfieldTopic)
        ensures
            (*r)@ == (old(self)@.0, old(self)@.1, Some(tangent)),
            *final(self) == *final(r),
    {
        self.tangent = Some(tangent);
        self
    }

    pub fn signer(&self) -> (r: &Subtopic)
        ensures
            *r == self@.0,
    {
        &self.signer
    }

    pub fn cosigner(&self) -> (r: &Subtopic)
        ensures
            *r == self@.1,
    {
        &self.cosigner
    }

    pub fn tangent(&self) -> (r: &Subtopic)
        ensures
            *r == self@.2,
    {
        &self.tangent
    }

    /// Whether no field is set.
    pub fn is_empty(&self) -> (r: bool)
        ensures
            r == (self@.0 is None && self@.1 is None && self@.2 is None),
    {
        self.signer.is_none() && self.cosigner.is_none() && self.tangent.is_none()
    }

    /// Whether at least one field is set.
    pub fn is_some(&self) -> (r: bool)
        ensures
            r == !(self@.0 is None && self@.1 is None && self@.2 is None),
    {
        !self.is_empty()
    }

    /// `Ok` when all three fields are set; otherwise the first missing one,
    /// in the order signer, cosigner, tangent.
    pub fn is_complete(&self) -> (r: Result<(), SubfieldTopicError>)
        ensures
            r == (if self@.0 is None {
                Err(SubfieldTopicError::NoSigner)
            } else if self@.1 is None {
                Err(SubfieldTopicError::NoCosigner)
            } else if self@.2 is None {
                Err(SubfieldTopicError::NoTangent)
            } else {
                Ok(())
            }),
    {
        if self.signer.is_none() {
            return Err(SubfieldTopicError::NoSigner);
        }
        if self.cosigner.is_none() {
            return Err(SubfieldTopicError::NoCosigner);
        }
        if self.tangent.is_none() {
            return Err(SubfieldTopicError::NoTangent);
        }
        Ok(())
    }

    /// The hash of the whole topic.
    pub fn hash(&self) -> (r: U256)
        ensures
            r@ == topic_digest(self@.0, self@.1, self@.2),
    {
        hash_fields(&self.signer, &self.cosigner, &self.tangent)
    }

    /// The hashes of every combination of the set fields.
    pub fn hashes(&self) -> (r: Vec<U256>)
        ensures
            keys_view(r@) == topic_digests(self@.0, self@.1, self@.2),
    {
        combination_hashes(&self.signer, &self.cosigner, &self.tangent)
    }

    /// The three fields, each with its name.
    pub fn parts(&self) -> (r: Vec<(SubfieldTopicPart, Subtopic)>)
        ensures
            r@ == seq![
                (SubfieldTopicPart::Signer, self@.0),
                (SubfieldTopicPart::Cosigner, self@.1),
                (SubfieldTopicPart::Tangent, self@.2),
            ],
    {
        let mut v: Vec<(SubfieldTopicPart, Subtopic)> = Vec::new();
        v.push((SubfieldTopicPart::Signer, self.signer));
        v.push((SubfieldTopicPart::Cosigner, self.cosigner));
        v.push((SubfieldTopicPart::Tangent, self.tangent));
        proof {
            assert(v@ =~= seq![
                (SubfieldTopicPart::Signer, self@.0),
                (SubfieldTopicPart::Cosigner, self@.1),
                (SubfieldTopicPart::Tangent, self@.2),
            ]);
        }
        v
    }
}

#[derive(Debug, Clone, Copy, PartialEq, Eq, Structural)]
pub enum SubfieldError {
    NoSigner,
    NoCosigner,
    NoTangent,
}

/// One of the three fields of a subfield.
pub type Field = Option<U256>;

/// A subfield: an optional signer, cosigner and tangent.
#[derive(Debug, Clone, Copy)]
pub struct Subfield {
    pub signer: Field,
    pub cosigner: Field,
    pub tangent: Field,
}

impl Subfield {
    pub fn signer(&self) -> (r: &Field)
        ensures
            *r == self.signer,
    {
        &self.signer
    }

    pub fn cosigner(&self) -> (r: &Field)
        ensures
            *r == self.cosigner,
    {
        &self.cosigner
    }

    pub fn tangent(&self) -> (r: &Field)
        ensures
            *r == self.tangent,
    {
        &self.tangent
    }

    /// Whether no field is set.
    pub fn is_empty(&self) -> (r: bool)
        ensures
            r == (self.signer is None && self.cosigner is None && self.tangent is None),
    {
        self.signer.is_none() && self.cosigner.is_none() && self.tangent.is_none()
    }

    /// Whether at least one field is set.
    pub fn is_some(&self) -> (r: bool)
        ensures
            r == !(self.signer is None && self.cosigner is None && self.tangent is None),
    {
        !self.is_empty()
    }

    /// `Ok` when all three fields are set; otherwise the first missing one.
    pub fn is_complete(&self) -> (r: Result<(), SubfieldError>)
        ensures
            r == (if self.signer is None {
                Err(SubfieldError::NoSigner)
            } else if self.cosigner is None {
                Err(SubfieldError::NoCosigner)
            } else if self.tangent is None {
                Err(SubfieldError::NoTangent)
            } else {
                Ok(())
            }),
    {
        if self.signer.is_none() {
            return Err(SubfieldError::NoSigner);
        }
        if self.cosigner.is_none() {
            return Err(SubfieldError::NoCosigner);
        }
        if self.tangent.is_none() {
            return Err(SubfieldError::NoTangent);
        }
        Ok(())
    }

    /// The hash of the whole subfield.
    pub fn hash(&self) -> (r: U256)
        ensures
            r@ == topic_digest(self.signer, self.cosigner, self.tangent),
    {
        hash_fields(&self.signer, &self.cosigner, &self.tangent)
    }

    /// The hashes of every combination of the set fields.
    pub fn hashes(&self) -> (r: Vec<U256>)
        ensures
            keys_view(r@) == topic_digests(self.signer, self.cosigner, self.tangent),
    {
        combination_hashes(&self.signer, &self.cosigner, &self.tangent)
    }
}

/// The digest of a combination: the fields it uses, the others as zeros.
pub open spec fn combination_digest(s: Option<U256>, c: Option<U256>, t: Option<U256>) -> Seq<u8> {
    blake3_digest(field_bytes(s) + field_bytes(c) + field_bytes(t))
}

/// Number of fields set.
pub open spec fn present_count(s: Option<U256>, c: Option<U256>, t: Option<U256>) -> nat {
    (if s is Some { 1nat } else { 0nat }) + (if c is Some { 1nat } else { 0nat }) + (if t is Some {
        1nat
    } else {
        0nat
    })
}

/// Every combination of the fields that are set is hashed, each field alone
/// whatever the others are, and nothing else: there is one hash per
/// non-empty combination of set fields, `2^n - 1` for `n` fields set.
pub proof fn law_topic_hashes_cover_present_combinations(
    s: Option<U256>,
    c: Option<U256>,
    t: Option<U256>,
)
    ensures
        ({
            let h = topic_digests(s, c, t);
            let z: Option<U256> = None;
            &&& s is Some ==> h.contains(combination_digest(s, z, z))
            &&& c is Some ==> h.contains(combination_digest(z, c, z))
            &&& t is Some ==> h.contains(combination_digest(z, z, t))
            &&& s is Some && c is Some ==> h.contains(combination_digest(s, c, z))
            &&& s is Some && t is Some ==> h.contains(combination_digest(s, z, t))
            &&& c is Some && t is Some ==> h.contains(combination_digest(z, c, t))
            &&& s is Some && c is Some && t is Some ==> h.contains(combination_digest(s, c, t))
            &&& h.len() + 1 == (if present_count(s, c, t) == 0 {
                1nat
            } else if present_count(s, c, t) == 1 {
                2nat
            } else if present_count(s, c, t) == 2 {
                4nat
            } else {
                8nat
            })
        }),
{
    broadcast use vstd::seq_lib::group_seq_properties;

    let z: Option<U256> = None;
    assert(field_bytes(z) == zero_key());
}

/// A complete topic has one hash per combination: seven.
pub proof fn law_complete_topic_has_seven_hashes(s: U256, c: U256, t: U256)
    ensures
        topic_digests(Some(s), Some(c), Some(t)).len() == 7,
        topic_digests(Some(s), Some(c), Some(t)).last() == topic_digest(Some(s), Some(c), Some(t)),
{
}

/// An empty topic has no combination hash.
pub proof fn law_empty_topic_has_no_hashes()
    ensures
        topic_digests(None, None, None).len() == 0,
{
}

} // verus!
