//! Ed25519 signing keys and the X25519 shared secrets derived from them.
//!
//! A private key is the 32-byte Ed25519 secret; its public key is the
//! compressed Edwards point derived from it.  Signing and verifying are
//! Ed25519; the shared secret of two parties is X25519 between the scalar
//! bytes of one secret and the Montgomery form of the other public key.
use vstd::prelude::*;
use ed25519_dalek::{Signer, Verifier};
use crate::arrays::array64_from_slice;
use crate::random::RandError;
use crate::u256::U256;

verus! {

pub const SECRET_KEY_LENGTH: usize = 32;

pub const PUBLIC_KEY_LENGTH: usize = 32;

pub const SIGNATURE_LENGTH: usize = 64;

/// The 64 bytes of an Ed25519 signature.
pub type SignatureArr = [u8; 64];

/// The public key of the Ed25519 secret `secret`, compressed.
pub uninterp spec fn ed25519_public_key(secret: Seq<u8>) -> Seq<u8>;

/// The Ed25519 signature of `message` under the secret `secret`.
pub uninterp spec fn ed25519_signature(secret: Seq<u8>, message: Seq<u8>) -> Seq<u8>;

/// Whether `public` decompresses to a point of the Edwards curve.
pub uninterp spec fn ed25519_point_valid(public: Seq<u8>) -> bool;

/// Whether `signature` is a valid Ed25519 signature of `message` under `public`.
pub uninterp spec fn ed25519_verifies(public: Seq<u8>, message: Seq<u8>, signature: Seq<u8>) -> bool;

/// The unclamped scalar bytes of the Ed25519 secret `secret`.
pub uninterp spec fn ed25519_scalar_bytes(secret: Seq<u8>) -> Seq<u8>;

/// The Montgomery form of the Edwards point `public`.
pub uninterp spec fn ed25519_montgomery(public: Seq<u8>) -> Seq<u8>;

/// The X25519 function of a secret and a Montgomery public key.
pub uninterp spec fn x25519_shared(secret: Seq<u8>, public: Seq<u8>) -> Seq<u8>;

/// Calls `SigningKey::from_bytes(secret).verifying_key().to_bytes()` of
/// ed25519-dalek.  Trusted: the bytes are the public key of `secret` (named
/// `ed25519_public_key`), and they decompress to a curve point, as every
/// verifying key derived from a secret does.
#[verifier::external_body]
fn ed25519_verifying_key(secret: &[u8; 32]) -> (r: [u8; 32])
    ensures
        r@ == ed25519_public_key(secret@),
        ed25519_point_valid(r@),
{
    ed25519_dalek::SigningKey::from_bytes(secret).verifying_key().to_bytes()
}

/// Calls `Signer::sign` of ed25519-dalek on `SigningKey::from_bytes(secret)`.
/// Trusted: the signature is a function of the secret and the message
/// (Ed25519 signing is deterministic; named `ed25519_signature`), and it
/// verifies under the public key of the same secret.
#[verifier::external_body]
fn ed25519_sign(secret: &[u8; 32], message: &[u8]) -> (r: [u8; 64])
    ensures
        r@ == ed25519_signature(secret@, message@),
        ed25519_verifies(ed25519_public_key(secret@), message@, r@),
{
    ed25519_dalek::SigningKey::from_bytes(secret).sign(message).to_bytes()
}

/// Calls `VerifyingKey::from_bytes` of ed25519-dalek, which fails exactly
/// when the bytes do not decompress to a curve point.  Trusted: the result
/// is named `ed25519_point_valid`.
#[verifier::external_body]
fn ed25519_is_point(public: &[u8; 32]) -> (r: bool)
    ensures
        r == ed25519_point_valid(public@),
{
    ed25519_dalek::VerifyingKey::from_bytes(public).is_ok()
}

/// Calls `Verifier::verify` of ed25519-dalek on
/// `VerifyingKey::from_bytes(public)`, which only succeeds on a curve point.
/// Trusted: the answer is a function of its three arguments, named
/// `ed25519_verifies`.
#[verifier::external_body]
fn ed25519_verify(public: &[u8; 32], message: &[u8], signature: &[u8; 64]) -> (r: bool)
    requires
        ed25519_point_valid(public@),
    ensures
        r == ed25519_verifies(public@, message@, signature@),
{
    let key = ed25519_dalek::VerifyingKey::from_bytes(public).unwrap();
    key.verify(message, &ed25519_dalek::Signature::from_bytes(signature)).is_ok()
}

/// Calls `SigningKey::to_scalar_bytes` of ed25519-dalek.  Trusted: the bytes
/// are a function of the secret, named `ed25519_scalar_bytes`.
#[verifier::external_body]
fn ed25519_scalar(secret: &[u8; 32]) -> (r: [u8; 32])
    ensures
        r@ == ed25519_scalar_bytes(secret@),
{
    ed25519_dalek::SigningKey::from_bytes(secret).to_scalar_bytes()
}

/// Calls `VerifyingKey::to_montgomery` of ed25519-dalek on the point that
/// `public` decompresses to.  Trusted: the bytes are a function of `public`,
/// named `ed25519_montgomery`.
#[verifier::external_body]
fn ed25519_to_montgomery(public: &[u8; 32]) -> (r: [u8; 32])
    requires
        ed25519_point_valid(public@),
    ensures
        r@ == ed25519_montgomery(public@),
{
    ed25519_dalek::VerifyingKey::from_bytes(public).unwrap().to_montgomery().to_bytes()
}

/// Calls `StaticSecret::diffie_hellman` of x25519-dalek.  Trusted: the
/// shared secret is a function of both arguments, named `x25519_shared`; and
/// the two parties of an exchange agree.  The second clause joins two
/// documented facts: the X25519 exchange gives both parties the same secret
/// (x25519-dalek), and the Montgomery form of an Ed25519 public key is the
/// X25519 public key whose secret is the scalar bytes of the same Ed25519
/// secret (`VerifyingKey::to_montgomery` and `SigningKey::to_scalar_bytes`;
/// ed25519-dalek's own test `ed25519_to_x25519_dh` checks both together).
#[verifier::external_body]
fn x25519_diffie_hellman(secret: &[u8; 32], public: &[u8; 32]) -> (r: [u8; 32])
    ensures
        r@ == x25519_shared(secret@, public@),
        forall|a: Seq<u8>, b: Seq<u8>|
            #![trigger ed25519_scalar_bytes(a), ed25519_public_key(b)]
            a.len() == 32 && b.len() == 32 && secret@ == ed25519_scalar_bytes(a) && public@
                == ed25519_montgomery(ed25519_public_key(b)) ==> r@ == x25519_shared(
                ed25519_scalar_bytes(b),
                ed25519_montgomery(ed25519_public_key(a)),
            ),
{
    let ours = x25519_dalek::StaticSecret::from(*secret);
    ours.diffie_hellman(&x25519_dalek::PublicKey::from(*public)).to_bytes()
}

/// The secret that `secret` shares with the owner of `public`.
pub open spec fn shared_secret_of(secret: Seq<u8>, public: Seq<u8>) -> Seq<u8> {
    x25519_shared(ed25519_scalar_bytes(secret), ed25519_montgomery(public))
}

#[derive(Debug, Clone, Copy, PartialEq, Eq, Structural)]
pub enum KeyError {
    InvalidYCoordinate,
    InvalidSignature,
    InvalidPublicKey,
    InvalidPrivateKey,
    InvalidKeypair,
    InvalidVanityPrefix,
    FailedToDecompress,
    FailedToCreateDalekEdPublicKey,
    FailedToCreateDalekEdPrivateKey,
}

/// An Ed25519 public key: 32 bytes, which need not be a curve point.
#[derive(Debug, Clone, Copy)]
pub struct PublicKey {
    u256: U256,
}

impl View for PublicKey {
    type V = Seq<u8>;

    closed spec fn view(&self) -> Seq<u8> {
        self.u256@
    }
}

impl PublicKey {
    /// A public key has exactly 32 bytes.
    pub proof fn lemma_len(&self)
        ensures
            self@.len() == 32,
    {
        self.u256.lemma_len();
    }

    /// The public key of exactly 32 bytes; any other length is refused.
    pub fn new(ed: Vec<u8>) -> (r: Result<PublicKey, KeyError>)
        ensures
            ed@.len() == 32 <==> r is Ok,
            r matches Ok(k) ==> k@ == ed@,
            r matches Err(e) ==> e == KeyError::InvalidPublicKey,
    {
        PublicKey::from_bytes(ed.as_slice())
    }

    pub fn from_u256(u256: U256) -> (r: PublicKey)
        ensures
            r@ == u256@,
    {
        PublicKey { u256 }
    }

    pub fn u256(&self) -> (r: &U256)
        ensures
            r@ == self@,
    {
        &self.u256
    }

    /// Whether the key decompresses to a curve point, which verifying and
    /// key exchange need.
    pub fn is_valid(&self) -> (r: bool)
        ensures
            r == ed25519_point_valid(self@),
    {
        ed25519_is_point(self.u256.unpacked())
    }

    /// The key in Edwards form: its own bytes.
    pub fn edwards(&self) -> (r: U256)
        ensures
            r@ == self@,
    {
        self.u256
    }

    /// The key in Montgomery form.
    pub fn montgomery(&self) -> (r: U256)
        requires
            ed25519_point_valid(self@),
        ensures
            r@ == ed25519_montgomery(self@),
    {
        U256::new(ed25519_to_montgomery(self.u256.unpacked()))
    }

    /// Whether `signature` signs `message` under this key.  A signature that
    /// is not 64 bytes long is refused.
    pub fn verify(&self, message: &[u8], signature: &[u8]) -> (r: Result<bool, KeyError>)
        requires
            ed25519_point_valid(self@),
        ensures
            signature@.len() == SIGNATURE_LENGTH <==> r is Ok,
            r matches Ok(b) ==> b == ed25519_verifies(self@, message@, signature@),
            r matches Err(e) ==> e == KeyError::InvalidSignature,
    {
        if signature.len() != SIGNATURE_LENGTH {
            return Err(KeyError::InvalidSignature);
        }
        let sig = array64_from_slice(signature);
        Ok(ed25519_verify(self.u256.unpacked(), message, &sig))
    }

    /// As `verify`, but first refuses a key that is not a curve point.
    pub fn try_verify(&self, message: &[u8], signature: &[u8]) -> (r: Result<bool, KeyError>)
        ensures
            !ed25519_point_valid(self@) ==> r == Err::<bool, KeyError>(KeyError::FailedToDecompress),
            ed25519_point_valid(self@) ==> {
                &&& signature@.len() == SIGNATURE_LENGTH <==> r is Ok
                &&& r matches Ok(b) ==> b == ed25519_verifies(self@, message@, signature@)
                &&& r matches Err(e) ==> e == KeyError::InvalidSignature
            },
    {
        if !self.is_valid() {
            return Err(KeyError::FailedToDecompress);
        }
        self.verify(message, signature)
    }

    pub fn to_bytes(&self) -> (r: Vec<u8>)
        ensures
            r@ == self@,
    {
        self.u256.to_bytes()
    }

    /// The public key of exactly 32 bytes; any other length is refused.
    pub fn from_bytes(bytes: &[u8]) -> (r: Result<PublicKey, KeyError>)
        ensures
            bytes@.len() == 32 <==> r is Ok,
            r matches Ok(k) ==> k@ == bytes@,
            r matches Err(e) ==> e == KeyError::InvalidPublicKey,
    {
        match U256::from_bytes(bytes) {
            Ok(u256) => Ok(PublicKey { u256 }),
            Err(_) => Err(KeyError::InvalidPublicKey),
        }
    }
}


/// An Ed25519 private key: its 32-byte secret.
#[derive(Debug, Clone, Copy)]
pub struct PrivateKey {
    u256: U256,
}

impl View for PrivateKey {
    type V = Seq<u8>;

    closed spec fn view(&self) -> Seq<u8> {
        self.u256@
    }
}

impl PrivateKey {
    /// A private key has exactly 32 bytes.
    pub proof fn lemma_len(&self)
        ensures
            self@.len() == 32,
    {
        self.u256.lemma_len();
    }

    /// The private key of exactly 32 bytes; any other length is refused.
    pub fn new(ed: Vec<u8>) -> (r: Result<PrivateKey, KeyError>)
        ensures
            ed@.len() == 32 <==> r is Ok,
            r matches Ok(k) ==> k@ == ed@,
            r matches Err(e) ==> e == KeyError::InvalidPrivateKey,
    {
        PrivateKey::from_bytes(ed.as_slice())
    }

    pub fn from_u256(u256: U256) -> (r: PrivateKey)
        ensures
            r@ == u256@,
    {
        PrivateKey { u256 }
    }

    pub fn u256(&self) -> (r: &U256)
        ensures
            r@ == self@,
    {
        &self.u256
    }

    /// A private key of 32 random bytes, or the error of a system without
    /// randomness.
    pub fn random() -> (r: Result<PrivateKey, RandError>) {
        let u256 = U256::random()?;
        Ok(PrivateKey { u256 })
    }

    /// The secret in Edwards form: its own bytes.
    pub fn edwards(&self) -> (r: U256)
        ensures
            r@ == self@,
    {
        self.u256
    }

    /// The secret in Montgomery form: its scalar bytes, the X25519 secret
    /// that matches the Montgomery form of the public key.
    pub fn montgomery(&self) -> (r: U256)
        ensures
            r@ == ed25519_scalar_bytes(self@),
    {
        U256::new(ed25519_scalar(self.u256.unpacked()))
    }

    /// The public key of this secret; it is always a curve point.
    pub fn public_key(&self) -> (r: PublicKey)
        ensures
            r@ == ed25519_public_key(self@),
            ed25519_point_valid(r@),
    {
        PublicKey::from_u256(U256::new(ed25519_verifying_key(self.u256.unpacked())))
    }

    /// The signature of `message`; it verifies under this key's public key.
    pub fn sign(&self, message: &[u8]) -> (r: SignatureArr)
        ensures
            r@ == ed25519_signature(self@, message@),
            ed25519_verifies(ed25519_public_key(self@), message@, r@),
    {
        ed25519_sign(self.u256.unpacked(), message)
    }

    /// The secret shared with the owner of `public_key`.  Both parties of an
    /// exchange compute the same secret.
    pub fn shared_secret(&self, public_key: &PublicKey) -> (r: U256)
        requires
            ed25519_point_valid(public_key@),
        ensures
            r@ == shared_secret_of(self@, public_key@),
            forall|other: Seq<u8>|
                other.len() == 32 && #[trigger] ed25519_public_key(other) == public_key@ ==> r@
                    == shared_secret_of(other, ed25519_public_key(self@)),
    {
        let scalar = ed25519_scalar(self.u256.unpacked());
        let theirs = public_key.montgomery();
        let shared = x25519_diffie_hellman(&scalar, theirs.unpacked());
        proof {
            self.lemma_len();
            assert forall|other: Seq<u8>|
                other.len() == 32 && #[trigger] ed25519_public_key(other) == public_key@ implies shared@
                    == shared_secret_of(other, ed25519_public_key(self@)) by {
                assert(scalar@ == ed25519_scalar_bytes(self@));
                assert(theirs@ == ed25519_montgomery(ed25519_public_key(other)));
            }
        }
        U256::new(shared)
    }

    /// As `shared_secret`, but first refuses a public key that is not a
    /// curve point.
    pub fn try_shared_secret(&self, public_key: &PublicKey) -> (r: Result<U256, KeyError>)
        ensures
            !ed25519_point_valid(public_key@) ==> r is Err && r->Err_0 == KeyError::FailedToDecompress,
            ed25519_point_valid(public_key@) ==> r is Ok && r->Ok_0@ == shared_secret_of(
                self@,
                public_key@,
            ),
    {
        if !public_key.is_valid() {
            return Err(KeyError::FailedToDecompress);
        }
        Ok(self.shared_secret(public_key))
    }

    pub fn to_bytes(&self) -> (r: Vec<u8>)
        ensures
            r@ == self@,
    {
        self.u256.to_bytes()
    }

    /// The private key of exactly 32 bytes; any other length is refused.
    pub fn from_bytes(bytes: &[u8]) -> (r: Result<PrivateKey, KeyError>)
        ensures
            bytes@.len() == 32 <==> r is Ok,
            r matches Ok(k) ==> k@ == bytes@,
            r matches Err(e) ==> e == KeyError::InvalidPrivateKey,
    {
        match U256::from_bytes(bytes) {
            Ok(u256) => Ok(PrivateKey { u256 }),
            Err(_) => Err(KeyError::InvalidPrivateKey),
        }
    }
}


/// The 64 bytes of a key pair: the secret, then the public key.
pub open spec fn keypair_bytes(v: (Seq<u8>, Seq<u8>)) -> Seq<u8> {
    v.0 + v.1
}

/// The key pair that 64 bytes hold: the first 32 are the secret, and the
/// public key is derived from it (the last 32 are not read).  Any other
/// length holds none.
pub open spec fn keypair_of_bytes(b: Seq<u8>) -> Option<(Seq<u8>, Seq<u8>)> {
    if b.len() == 64 {
        Some((b.subrange(0, 32), ed25519_public_key(b.subrange(0, 32))))
    } else {
        None
    }
}

/// A private key with the public key derived from it.
#[derive(Debug, Clone, Copy)]
pub struct Keypair {
    private_key: PrivateKey,
    public_key: PublicKey,
}

impl View for Keypair {
    /// The secret and the public key.
    type V = (Seq<u8>, Seq<u8>);

    closed spec fn view(&self) -> (Seq<u8>, Seq<u8>) {
        (self.private_key@, self.public_key@)
    }
}

impl Keypair {
    #[verifier::type_invariant]
    closed spec fn derived(self) -> bool {
        &&& self.public_key@ == ed25519_public_key(self.private_key@)
        &&& ed25519_point_valid(self.public_key@)
    }

    /// The secret and the public key have 32 bytes each.
    pub proof fn lemma_len(&self)
        ensures
            self@.0.len() == 32,
            self@.1.len() == 32,
    {
        self.private_key.lemma_len();
        self.public_key.lemma_len();
    }

    /// The key pair of `private_key`; it always succeeds.
    pub fn new(private_key: PrivateKey) -> (r: Result<Keypair, KeyError>)
        ensures
            r is Ok,
            r matches Ok(k) ==> k@ == (private_key@, ed25519_public_key(private_key@)),
    {
        let public_key = private_key.public_key();
        Ok(Keypair { private_key, public_key })
    }

    /// The key pair of a random secret, or the error of a system without
    /// randomness.
    pub fn random() -> (r: Result<Keypair, RandError>)
        ensures
            r matches Ok(k) ==> k@.1 == ed25519_public_key(k@.0),
    {
        let private_key = PrivateKey::random()?;
        let public_key = private_key.public_key();
        Ok(Keypair { private_key, public_key })
    }

    pub fn public_key(&self) -> (r: PublicKey)
        ensures
            r@ == self@.1,
            ed25519_point_valid(r@),
    {
        proof {
            use_type_invariant(self);
        }
        self.public_key
    }

    pub fn private_key(&self) -> (r: PrivateKey)
        ensures
            r@ == self@.0,
    {
        self.private_key
    }

    /// The signature of `message`; it verifies under this pair's public key.
    pub fn sign(&self, message: &[u8]) -> (r: SignatureArr)
        ensures
            r@ == ed25519_signature(self@.0, message@),
            ed25519_verifies(self@.1, message@, r@),
    {
        proof {
            use_type_invariant(self);
        }
        self.private_key.sign(message)
    }

    /// Whether `signature` signs `message` under this pair's public key.  A
    /// signature that is not 64 bytes long is refused.
    pub fn verify(&self, message: &[u8], signature: &[u8]) -> (r: Result<bool, KeyError>)
        ensures
            signature@.len() == SIGNATURE_LENGTH <==> r is Ok,
            r matches Ok(b) ==> b == ed25519_verifies(self@.1, message@, signature@),
            r matches Err(e) ==> e == KeyError::InvalidSignature,
    {
        proof {
            use_type_invariant(self);
        }
        self.public_key.verify(message, signature)
    }

    /// The secret shared with the owner of `public_key`.
    pub fn shared_secret(&self, public_key: &PublicKey) -> (r: U256)
        requires
            ed25519_point_valid(public_key@),
        ensures
            r@ == shared_secret_of(self@.0, public_key@),
            forall|other: Seq<u8>|
                other.len() == 32 && #[trigger] ed25519_public_key(other) == public_key@ ==> r@
                    == shared_secret_of(other, self@.1),
    {
        proof {
            use_type_invariant(self);
        }
        self.private_key.shared_secret(public_key)
    }

    /// The secret followed by the public key.
    pub fn to_bytes(&self) -> (r: Vec<u8>)
        ensures
            r@ == keypair_bytes(self@),
    {
        let mut bytes = self.private_key.to_bytes();
        let mut public = self.public_key.to_bytes();
        bytes.append(&mut public);
        bytes
    }

    /// The key pair of the secret in the first 32 bytes.  The slice must
    /// hold at least those; one that is not exactly 64 bytes long is refused
    /// as holding no public key.
    pub fn from_bytes(bytes: &[u8]) -> (r: Result<Keypair, KeyError>)
        requires
            bytes@.len() >= 32,
        ensures
            r is Ok <==> keypair_of_bytes(bytes@) is Some,
            r matches Ok(k) ==> keypair_of_bytes(bytes@) == Some(k@),
            r matches Err(e) ==> e == KeyError::InvalidPublicKey,
    {
        let secret = crate::arrays::vec_from_range(bytes, 0, 32);
        let rest = crate::arrays::vec_from_range(bytes, 32, bytes.len());
        let private_key = match PrivateKey::from_bytes(secret.as_slice()) {
            Ok(k) => k,
            Err(e) => {
                return Err(e);
            },
        };
        if PublicKey::from_bytes(rest.as_slice()).is_err() {
            return Err(KeyError::InvalidPublicKey);
        }
        let public_key = private_key.public_key();
        Ok(Keypair { private_key, public_key })
    }
}

/// Writing a key pair to bytes and reading them back gives the same pair.
pub proof fn law_keypair_bytes_roundtrip(v: (Seq<u8>, Seq<u8>))
    requires
        v.0.len() == 32,
        v.1.len() == 32,
        v.1 == ed25519_public_key(v.0),
    ensures
        keypair_of_bytes(keypair_bytes(v)) == Some(v),
{
    assert(keypair_bytes(v).subrange(0, 32) =~= v.0);
}

} // verus!
