//! Versioned identifiers: a byte array tagged with a 16-bit version.
//!
//! The wire form is the bytes followed by the version, little-endian.
use vstd::prelude::*;
use crate::arrays::{array32_from_slice, array64_from_slice, vec_from_range, vec_from_slice};
use crate::buffer::{bytes_as_slice, bytes_contents, bytes_from_vec};
use crate::random::{fill_random, RandError};

verus! {

#[derive(Debug, Clone, Copy, PartialEq, Eq, Structural)]
pub enum VersionedBytesError {
    InvalidBase32,
    InvalidVersion,
}

/// The two little-endian bytes of a version.
pub open spec fn version_le(v: u16) -> Seq<u8> {
    seq![(v % 256) as u8, (v / 256) as u8]
}

/// The wire form of a versioned identifier.
pub open spec fn encode_versioned(version: u16, bytes: Seq<u8>) -> Seq<u8> {
    bytes + version_le(version)
}

/// Reads a wire form: all but the last two bytes, and the version in the
/// last two.
pub open spec fn decode_versioned(s: Seq<u8>) -> (u16, Seq<u8>) {
    (
        (s[s.len() - 2] as nat + 256 * (s[s.len() - 1] as nat)) as u16,
        s.subrange(0, s.len() - 2),
    )
}

/// Decoding the wire form of any versioned identifier gives it back.
pub proof fn law_versioned_roundtrip(version: u16, bytes: Seq<u8>)
    ensures
        decode_versioned(encode_versioned(version, bytes)) == (version, bytes),
{
    let s = encode_versioned(version, bytes);
    assert(s.subrange(0, s.len() - 2) =~= bytes);
    assert(s[s.len() - 2] == (version % 256) as u8);
    assert(s[s.len() - 1] == (version / 256) as u8);
}

/// Checks that a byte vector holds exactly 32 bytes and returns them.  Any
/// other length panics.
pub fn validate_bytes(bytes: Vec<u8>) -> (r: [u8; 32])
    requires
        bytes@.len() == 32,
    ensures
        r@ == bytes@,
{
    array32_from_slice(bytes.as_slice())
}

/// A versioned identifier of 32 bytes.
#[derive(Debug, Clone, Copy, Hash)]
pub struct V256 {
    version: u16,
    bytes: [u8; 32],
}

impl View for V256 {
    type V = (u16, Seq<u8>);

    closed spec fn view(&self) -> (u16, Seq<u8>) {
        (self.version, self.bytes@)
    }
}

impl PartialEq for V256 {
    fn eq(&self, other: &Self) -> (r: bool) {
        if self.version != other.version {
            return false;
        }
        let mut i: usize = 0;
        while i < 32
            invariant
                0 <= i <= 32,
                forall|j: int| 0 <= j < i ==> self.bytes@[j] == other.bytes@[j],
            decreases 32 - i,
        {
            if self.bytes[i] != other.bytes[i] {
                return false;
            }
            i += 1;
        }
        proof {
            assert(self.bytes@ =~= other.bytes@);
        }
        true
    }
}

impl Eq for V256 {

}

impl vstd::std_specs::cmp::PartialEqSpecImpl for V256 {
    open spec fn obeys_eq_spec() -> bool {
        true
    }

    open spec fn eq_spec(&self, other: &V256) -> bool {
        self@ == other@
    }
}

impl V256 {
    /// A value has exactly 32 bytes.
    pub proof fn lemma_len(&self)
        ensures
            self@.1.len() == 32,
    {
    }

    pub fn new(version: u16, bytes: [u8; 32]) -> (r: V256)
        ensures
            r@ == (version, bytes@),
    {
        V256 { version, bytes }
    }

    pub fn version(&self) -> (r: &u16)
        ensures
            *r == self@.0,
    {
        &self.version
    }

    pub fn bytes(&self) -> (r: &[u8; 32])
        ensures
            r@ == self@.1,
    {
        &self.bytes
    }

    /// Random bytes under version 0, or the error of a system without
    /// randomness.
    pub fn random() -> (r: Result<V256, RandError>)
        ensures
            r matches Ok(v) ==> v@.0 == 0,
    {
        let mut bytes: [u8; 32] = [0u8; 32];
        fill_random(&mut bytes)?;
        Ok(V256::new(0, bytes))
    }

    /// The bytes followed by the version, little-endian.
    pub fn to_vec(&self) -> (r: Vec<u8>)
        ensures
            r@ == encode_versioned(self@.0, self@.1),
    {
        let mut v = vec_from_slice(self.bytes.as_slice());
        v.push((self.version % 256) as u8);
        v.push((self.version / 256) as u8);
        proof {
            assert(v@ =~= encode_versioned(self@.0, self@.1));
        }
        v
    }

    /// Reads the bytes followed by a little-endian version.  The input must
    /// hold exactly 32 + 2 bytes: on any other length the split panics.
    pub fn from_arr(arr: &[u8]) -> (r: Result<V256, VersionedBytesError>)
        requires
            arr@.len() == 32 + 2,
        ensures
            r matches Ok(v) && v@ == decode_versioned(arr@),
    {
        let bytes = array32_from_slice(&vec_from_range(arr, 0, 32));
        let version: u16 = arr[32] as u16 + 256 * (arr[32 + 1] as u16);
        Ok(V256::new(version, bytes))
    }

    /// `to_vec` as a `bytes::Bytes` buffer.
    pub fn to_bytes(&self) -> (r: bytes::Bytes)
        ensures
            bytes_contents(r) == encode_versioned(self@.0, self@.1),
    {
        bytes_from_vec(self.to_vec())
    }

    /// `from_arr` on the contents of a `bytes::Bytes` buffer.
    pub fn from_bytes(bytes: bytes::Bytes) -> (r: Result<V256, VersionedBytesError>)
        requires
            bytes_contents(bytes).len() == 32 + 2,
        ensures
            r matches Ok(v) && v@ == decode_versioned(bytes_contents(bytes)),
    {
        V256::from_arr(bytes_as_slice(&bytes))
    }
}

/// A versioned identifier of 64 bytes.
#[derive(Debug, Clone, Copy, Hash)]
pub struct V512 {
    version: u16,
    bytes: [u8; 64],
}

impl View for V512 {
    type V = (u16, Seq<u8>);

    closed spec fn view(&self) -> (u16, Seq<u8>) {
        (self.version, self.bytes@)
    }
}

impl PartialEq for V512 {
    fn eq(&self, other: &Self) -> (r: bool) {
        if self.version != other.version {
            return false;
        }
        let mut i: usize = 0;
        while i < 64
            invariant
                0 <= i <= 64,
                forall|j: int| 0 <= j < i ==> self.bytes@[j] == other.bytes@[j],
            decreases 64 - i,
        {
            if self.bytes[i] != other.bytes[i] {
                return false;
            }
            i += 1;
        }
        proof {
            assert(self.bytes@ =~= other.bytes@);
        }
        true
    }
}

impl Eq for V512 {

}

impl vstd::std_specs::cmp::PartialEqSpecImpl for V512 {
    open spec fn obeys_eq_spec() -> bool {
        true
    }

    open spec fn eq_spec(&self, other: &V512) -> bool {
        self@ == other@
    }
}

impl V512 {
    /// A value has exactly 64 bytes.
    pub proof fn lemma_len(&self)
        ensures
            self@.1.len() == 64,
    {
    }

    pub fn new(version: u16, bytes: [u8; 64]) -> (r: V512)
        ensures
            r@ == (version, bytes@),
    {
        V512 { version, bytes }
    }

    pub fn version(&self) -> (r: &u16)
        ensures
            *r == self@.0,
    {
        &self.version
    }

    pub fn bytes(&self) -> (r: &[u8; 64])
        ensures
            r@ == self@.1,
    {
        &self.bytes
    }

    /// Random bytes under version 0, or the error of a system without
    /// randomness.
    pub fn random() -> (r: Result<V512, RandError>)
        ensures
            r matches Ok(v) ==> v@.0 == 0,
    {
        let mut bytes: [u8; 64] = [0u8; 64];
        fill_random(&mut bytes)?;
        Ok(V512::new(0, bytes))
    }

    /// The bytes followed by the version, little-endian.
    pub fn to_vec(&self) -> (r: Vec<u8>)
        ensures
            r@ == encode_versioned(self@.0, self@.1),
    {
        let mut v = vec_from_slice(self.bytes.as_slice());
        v.push((self.version % 256) as u8);
        v.push((self.version / 256) as u8);
        proof {
            assert(v@ =~= encode_versioned(self@.0, self@.1));
        }
        v
    }

    /// Reads the bytes followed by a little-endian version.  The input must
    /// hold exactly 64 + 2 bytes: on any other length the split panics.
    pub fn from_arr(arr: &[u8]) -> (r: Result<V512, VersionedBytesError>)
        requires
            arr@.len() == 64 + 2,
        ensures
            r matches Ok(v) && v@ == decode_versioned(arr@),
    {
        let bytes = array64_from_slice(&vec_from_range(arr, 0, 64));
        let version: u16 = arr[64] as u16 + 256 * (arr[64 + 1] as u16);
        Ok(V512::new(version, bytes))
    }

    /// `to_vec` as a `bytes::Bytes` buffer.
    pub fn to_bytes(&self) -> (r: bytes::Bytes)
        ensures
            bytes_contents(r) == encode_versioned(self@.0, self@.1),
    {
        bytes_from_vec(self.to_vec())
    }

    /// `from_arr` on the contents of a `bytes::Bytes` buffer.
    pub fn from_bytes(bytes: bytes::Bytes) -> (r: Result<V512, VersionedBytesError>)
        requires
            bytes_contents(bytes).len() == 64 + 2,
        ensures
            r matches Ok(v) && v@ == decode_versioned(bytes_contents(bytes)),
    {
        V512::from_arr(bytes_as_slice(&bytes))
    }
}

impl V256 {
    /// Builds a value from a version and a byte vector of exactly 32 bytes.
    pub fn _js_new(version: u16, bytes: Vec<u8>) -> (r: V256)
        requires
            bytes@.len() == 32,
        ensures
            r@ == (version, bytes@),
    {
        V256::new(version, validate_bytes(bytes))
    }

    pub fn _js_version(&self) -> (r: u16)
        ensures
            r == self@.0,
    {
        self.version
    }

    pub fn _js_bytes(&self) -> (r: Vec<u8>)
        ensures
            r@ == self@.1,
    {
        vec_from_slice(self.bytes.as_slice())
    }
}

} // verus!
