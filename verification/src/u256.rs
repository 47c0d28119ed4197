//! A 256-bit key kept as 32 bytes, with a packed view of four little-endian
//! 64-bit words, bit counts, XOR distance and hashing.
use vstd::prelude::*;
use vstd::std_specs::bits::u8_leading_zeros;
use crate::hash::{blake3_digest, blake3_hash};
use crate::random::{fill_random, RandError};

verus! {

pub const UNPACKED_LENGTH: usize = 32;

pub const PACKED_LENGTH: usize = 4;

pub const PACKED_CHUNKS: usize = 8;

#[derive(Debug, Clone, Copy, PartialEq, Eq, Structural)]
pub enum U256Error {
    UnableToSerialize,
    UnableToDeserialize,
    InvalidBase32,
    InvalidLength,
}

/// The little-endian 64-bit word made of eight bytes.
pub open spec fn compose8(b0: u8, b1: u8, b2: u8, b3: u8, b4: u8, b5: u8, b6: u8, b7: u8) -> u64 {
    (b0 as u64) | ((b1 as u64) << 8u64) | ((b2 as u64) << 16u64) | ((b3 as u64) << 24u64) | ((
    b4 as u64) << 32u64) | ((b5 as u64) << 40u64) | ((b6 as u64) << 48u64) | ((b7 as u64)
        << 56u64)
}

/// Byte `j` (0 = least significant) of a 64-bit word.
pub open spec fn le_byte(w: u64, j: u64) -> u8 {
    ((w >> (8u64 * j)) & 0xffu64) as u8
}

/// Word `i` of the packed view of a byte string.
pub open spec fn le_word(s: Seq<u8>, i: int) -> u64 {
    compose8(
        s[8 * i],
        s[8 * i + 1],
        s[8 * i + 2],
        s[8 * i + 3],
        s[8 * i + 4],
        s[8 * i + 5],
        s[8 * i + 6],
        s[8 * i + 7],
    )
}

/// Packed view of a byte string: consecutive little-endian words of eight
/// bytes each.
pub open spec fn packed_of(s: Seq<u8>) -> Seq<u64> {
    Seq::new(s.len() / 8, |i: int| le_word(s, i))
}

/// The bytes of a sequence of little-endian words.
pub open spec fn unpacked_of(p: Seq<u64>) -> Seq<u8> {
    Seq::new(8 * p.len(), |k: int| le_byte(p[k / 8], (k % 8) as u64))
}

/// Number of one bits of a natural number.
pub open spec fn bit_count(x: nat) -> nat
    decreases x,
{
    if x == 0 {
        0
    } else {
        x % 2 + bit_count(x / 2)
    }
}

/// Number of one bits in a byte string.
pub open spec fn bytes_bit_count(s: Seq<u8>) -> nat
    decreases s.len(),
{
    if s.len() == 0 {
        0
    } else {
        bit_count(s[0] as nat) + bytes_bit_count(s.drop_first())
    }
}

/// Byte-wise XOR of two strings of equal length.
pub open spec fn xor_bytes(a: Seq<u8>, b: Seq<u8>) -> Seq<u8> {
    Seq::new(a.len(), |i: int| a[i] ^ b[i])
}

/// Number of leading zero bits of a big-endian byte string.
pub open spec fn leading_zero_bits(s: Seq<u8>) -> nat
    decreases s.len(),
{
    if s.len() == 0 {
        0
    } else if s[0] == 0 {
        8 + leading_zero_bits(s.drop_first())
    } else {
        u8_leading_zeros(s[0]) as nat
    }
}

proof fn lemma_compose_bytes(b0: u8, b1: u8, b2: u8, b3: u8, b4: u8, b5: u8, b6: u8, b7: u8)
    ensures
        le_byte(compose8(b0, b1, b2, b3, b4, b5, b6, b7), 0) == b0,
        le_byte(compose8(b0, b1, b2, b3, b4, b5, b6, b7), 1) == b1,
        le_byte(compose8(b0, b1, b2, b3, b4, b5, b6, b7), 2) == b2,
        le_byte(compose8(b0, b1, b2, b3, b4, b5, b6, b7), 3) == b3,
        le_byte(compose8(b0, b1, b2, b3, b4, b5, b6, b7), 4) == b4,
        le_byte(compose8(b0, b1, b2, b3, b4, b5, b6, b7), 5) == b5,
        le_byte(compose8(b0, b1, b2, b3, b4, b5, b6, b7), 6) == b6,
        le_byte(compose8(b0, b1, b2, b3, b4, b5, b6, b7), 7) == b7,
{
    let w = compose8(b0, b1, b2, b3, b4, b5, b6, b7);
    assert(w == (b0 as u64) | ((b1 as u64) << 8u64) | ((b2 as u64) << 16u64) | ((b3 as u64)
        << 24u64) | ((b4 as u64) << 32u64) | ((b5 as u64) << 40u64) | ((b6 as u64) << 48u64) | ((
    b7 as u64) << 56u64));
    assert(((w >> 0u64) & 0xffu64) as u8 == b0) by (bit_vector)
        requires
            w == (b0 as u64) | ((b1 as u64) << 8u64) | ((b2 as u64) << 16u64) | ((b3 as u64)
                << 24u64) | ((b4 as u64) << 32u64) | ((b5 as u64) << 40u64) | ((b6 as u64)
                << 48u64) | ((b7 as u64) << 56u64),
    ;
    assert(((w >> 8u64) & 0xffu64) as u8 == b1) by (bit_vector)
        requires
            w == (b0 as u64) | ((b1 as u64) << 8u64) | ((b2 as u64) << 16u64) | ((b3 as u64)
                << 24u64) | ((b4 as u64) << 32u64) | ((b5 as u64) << 40u64) | ((b6 as u64)
                << 48u64) | ((b7 as u64) << 56u64),
    ;
    assert(((w >> 16u64) & 0xffu64) as u8 == b2) by (bit_vector)
        requires
            w == (b0 as u64) | ((b1 as u64) << 8u64) | ((b2 as u64) << 16u64) | ((b3 as u64)
                << 24u64) | ((b4 as u64) << 32u64) | ((b5 as u64) << 40u64) | ((b6 as u64)
                << 48u64) | ((b7 as u64) << 56u64),
    ;
    assert(((w >> 24u64) & 0xffu64) as u8 == b3) by (bit_vector)
        requires
            w == (b0 as u64) | ((b1 as u64) << 8u64) | ((b2 as u64) << 16u64) | ((b3 as u64)
                << 24u64) | ((b4 as u64) << 32u64) | ((b5 as u64) << 40u64) | ((b6 as u64)
                << 48u64) | ((b7 as u64) << 56u64),
    ;
    assert(((w >> 32u64) & 0xffu64) as u8 == b4) by (bit_vector)
        requires
            w == (b0 as u64) | ((b1 as u64) << 8u64) | ((b2 as u64) << 16u64) | ((b3 as u64)
                << 24u64) | ((b4 as u64) << 32u64) | ((b5 as u64) << 40u64) | ((b6 as u64)
                << 48u64) | ((b7 as u64) << 56u64),
    ;
    assert(((w >> 40u64) & 0xffu64) as u8 == b5) by (bit_vector)
        requires
            w == (b0 as u64) | ((b1 as u64) << 8u64) | ((b2 as u64) << 16u64) | ((b3 as u64)
                << 24u64) | ((b4 as u64) << 32u64) | ((b5 as u64) << 40u64) | ((b6 as u64)
                << 48u64) | ((b7 as u64) << 56u64),
    ;
    assert(((w >> 48u64) & 0xffu64) as u8 == b6) by (bit_vector)
        requires
            w == (b0 as u64) | ((b1 as u64) << 8u64) | ((b2 as u64) << 16u64) | ((b3 as u64)
                << 24u64) | ((b4 as u64) << 32u64) | ((b5 as u64) << 40u64) | ((b6 as u64)
                << 48u64) | ((b7 as u64) << 56u64),
    ;
    assert(((w >> 56u64) & 0xffu64) as u8 == b7) by (bit_vector)
        requires
            w == (b0 as u64) | ((b1 as u64) << 8u64) | ((b2 as u64) << 16u64) | ((b3 as u64)
                << 24u64) | ((b4 as u64) << 32u64) | ((b5 as u64) << 40u64) | ((b6 as u64)
                << 48u64) | ((b7 as u64) << 56u64),
    ;
}

proof fn lemma_bytes_compose(w: u64)
    ensures
        compose8(
            le_byte(w, 0),
            le_byte(w, 1),
            le_byte(w, 2),
            le_byte(w, 3),
            le_byte(w, 4),
            le_byte(w, 5),
            le_byte(w, 6),
            le_byte(w, 7),
        ) == w,
{
    assert(((((w >> 0u64) & 0xffu64) as u8) as u64) | (((((w >> 8u64) & 0xffu64) as u8) as u64)
        << 8u64) | (((((w >> 16u64) & 0xffu64) as u8) as u64) << 16u64) | (((((w >> 24u64)
        & 0xffu64) as u8) as u64) << 24u64) | (((((w >> 32u64) & 0xffu64) as u8) as u64)
        << 32u64) | (((((w >> 40u64) & 0xffu64) as u8) as u64) << 40u64) | (((((w >> 48u64)
        & 0xffu64) as u8) as u64) << 48u64) | (((((w >> 56u64) & 0xffu64) as u8) as u64)
        << 56u64) == w) by (bit_vector);
    assert(le_byte(w, 0) == ((w >> 0u64) & 0xffu64) as u8);
    assert(le_byte(w, 7) == ((w >> 56u64) & 0xffu64) as u8);
}

/// Unpacking the packed view of a whole number of words gives the bytes back.
pub proof fn law_unpack_pack(s: Seq<u8>)
    requires
        s.len() % 8 == 0,
    ensures
        unpacked_of(packed_of(s)) == s,
{
    assert forall|k: int| 0 <= k < s.len() implies #[trigger] unpacked_of(packed_of(s))[k] == s[k] by {
        let i = k / 8;
        lemma_compose_bytes(
            s[8 * i],
            s[8 * i + 1],
            s[8 * i + 2],
            s[8 * i + 3],
            s[8 * i + 4],
            s[8 * i + 5],
            s[8 * i + 6],
            s[8 * i + 7],
        );
        assert(k == 8 * i + k % 8);
    }
    assert(unpacked_of(packed_of(s)) =~= s);
}

/// Packing the bytes of a sequence of words gives the words back.
pub proof fn law_pack_unpack(p: Seq<u64>)
    ensures
        packed_of(unpacked_of(p)) == p,
{
    assert forall|i: int| 0 <= i < p.len() implies #[trigger] packed_of(unpacked_of(p))[i] == p[i] by {
        lemma_bytes_compose(p[i]);
        let u = unpacked_of(p);
        assert((8 * i + 0) / 8 == i && (8 * i + 0) % 8 == 0);
        assert((8 * i + 1) / 8 == i && (8 * i + 1) % 8 == 1);
        assert((8 * i + 2) / 8 == i && (8 * i + 2) % 8 == 2);
        assert((8 * i + 3) / 8 == i && (8 * i + 3) % 8 == 3);
        assert((8 * i + 4) / 8 == i && (8 * i + 4) % 8 == 4);
        assert((8 * i + 5) / 8 == i && (8 * i + 5) % 8 == 5);
        assert((8 * i + 6) / 8 == i && (8 * i + 6) % 8 == 6);
        assert((8 * i + 7) / 8 == i && (8 * i + 7) % 8 == 7);
        assert(u[8 * i] == le_byte(p[i], 0));
        assert(u[8 * i + 1] == le_byte(p[i], 1));
        assert(u[8 * i + 2] == le_byte(p[i], 2));
        assert(u[8 * i + 3] == le_byte(p[i], 3));
        assert(u[8 * i + 4] == le_byte(p[i], 4));
        assert(u[8 * i + 5] == le_byte(p[i], 5));
        assert(u[8 * i + 6] == le_byte(p[i], 6));
        assert(u[8 * i + 7] == le_byte(p[i], 7));
    }
    assert(packed_of(unpacked_of(p)) =~= p);
}

/// Packs 32 bytes into four little-endian words.
pub fn pack_bytes(unpacked: &[u8; 32]) -> (r: [u64; 4])
    ensures
        r@ == packed_of(unpacked@),
{
    let mut packed: [u64; 4] = [0u64; 4];
    let mut i: usize = 0;
    while i < 4
        invariant
            0 <= i <= 4,
            packed@.len() == 4,
            forall|j: int| 0 <= j < i ==> packed@[j] == le_word(unpacked@, j),
        decreases 4 - i,
    {
        let b = 8 * i;
        let w: u64 = (unpacked[b] as u64) | ((unpacked[b + 1] as u64) << 8u64) | ((unpacked[b
            + 2] as u64) << 16u64) | ((unpacked[b + 3] as u64) << 24u64) | ((unpacked[b + 4] as u64)
            << 32u64) | ((unpacked[b + 5] as u64) << 40u64) | ((unpacked[b + 6] as u64) << 48u64)
            | ((unpacked[b + 7] as u64) << 56u64);
        packed[i] = w;
        i += 1;
    }
    proof {
        assert(packed@ =~= packed_of(unpacked@));
    }
    packed
}

/// Unpacks four little-endian words into their 32 bytes.
pub fn unpack_words(packed: &[u64; 4]) -> (r: [u8; 32])
    ensures
        r@ == unpacked_of(packed@),
{
    let mut unpacked: [u8; 32] = [0u8; 32];
    let mut k: usize = 0;
    while k < 32
        invariant
            0 <= k <= 32,
            unpacked@.len() == 32,
            forall|j: int| 0 <= j < k ==> unpacked@[j] == le_byte(packed@[j / 8], (j % 8) as u64),
        decreases 32 - k,
    {
        let w = packed[k / 8];
        let shift: u64 = 8 * (k % 8) as u64;
        unpacked[k] = ((w >> shift) & 0xffu64) as u8;
        k += 1;
    }
    proof {
        assert(unpacked@ =~= unpacked_of(packed@));
    }
    unpacked
}

proof fn lemma_bit_count_bound(x: nat, n: nat)
    requires
        x < crate::keyspace::two_pow(n),
    ensures
        bit_count(x) <= n,
    decreases n,
{
    if x > 0 {
        assert(n > 0);
        assert(crate::keyspace::two_pow(n) == 2 * crate::keyspace::two_pow((n - 1) as nat));
        lemma_bit_count_bound(x / 2, (n - 1) as nat);
    }
}

/// Number of one bits of a byte.
pub fn byte_popcount(b: u8) -> (r: u32)
    ensures
        r == bit_count(b as nat),
        r <= 8,
{
    proof {
        reveal_with_fuel(crate::keyspace::two_pow, 9);
        lemma_bit_count_bound(b as nat, 8);
    }
    let mut x: u8 = b;
    let mut c: u32 = 0;
    while x > 0
        invariant
            c + bit_count(x as nat) == bit_count(b as nat),
            bit_count(b as nat) <= 8,
        decreases x,
    {
        c = c + (x % 2) as u32;
        x = x / 2;
    }
    c
}

/// Number of one bits in 32 bytes.
pub fn bytes_popcount(s: &[u8; 32]) -> (r: u32)
    ensures
        r == bytes_bit_count(s@),
        r <= 256,
{
    let mut i: usize = 32;
    let mut c: u32 = 0;
    proof {
        assert(s@.subrange(32, 32) =~= Seq::<u8>::empty());
    }
    while i > 0
        invariant
            0 <= i <= 32,
            c == bytes_bit_count(s@.subrange(i as int, 32)),
            c <= 8 * (32 - i),
        decreases i,
    {
        i -= 1;
        let p = byte_popcount(s[i]);
        proof {
            assert(s@.subrange(i as int, 32).drop_first() =~= s@.subrange(i + 1, 32));
        }
        c = c + p;
    }
    proof {
        assert(s@.subrange(0, 32) =~= s@);
    }
    c
}

/// Number of one bits in a byte slice.
pub fn slice_popcount(s: &[u8]) -> (r: u32)
    requires
        s@.len() <= 0x1000_0000,
    ensures
        r == bytes_bit_count(s@),
        r <= 8 * s@.len(),
{
    let n = s.len();
    let mut i: usize = n;
    let mut c: u32 = 0;
    proof {
        assert(s@.subrange(n as int, n as int) =~= Seq::<u8>::empty());
    }
    while i > 0
        invariant
            0 <= i <= n,
            n == s@.len(),
            n <= 0x1000_0000,
            c == bytes_bit_count(s@.subrange(i as int, n as int)),
            c <= 8 * (n - i),
        decreases i,
    {
        i -= 1;
        let p = byte_popcount(s[i]);
        proof {
            assert(s@.subrange(i as int, n as int).drop_first() =~= s@.subrange(i + 1, n as int));
        }
        c = c + p;
    }
    proof {
        assert(s@.subrange(0, n as int) =~= s@);
    }
    c
}

/// Byte-wise XOR of two 32-byte strings.
pub fn xor_arrays(a: &[u8; 32], b: &[u8; 32]) -> (r: [u8; 32])
    ensures
        r@ == xor_bytes(a@, b@),
{
    let mut r: [u8; 32] = [0u8; 32];
    let mut i: usize = 0;
    while i < 32
        invariant
            0 <= i <= 32,
            r@.len() == 32,
            forall|j: int| 0 <= j < i ==> r@[j] == a@[j] ^ b@[j],
        decreases 32 - i,
    {
        r[i] = a[i] ^ b[i];
        i += 1;
    }
    proof {
        assert(r@ =~= xor_bytes(a@, b@));
    }
    r
}

/// Number of leading zero bits of 32 big-endian bytes.
pub fn bytes_leading_zeros(s: &[u8; 32]) -> (r: u32)
    ensures
        r == leading_zero_bits(s@),
        r <= 256,
{
    let mut i: usize = 0;
    proof {
        assert(s@.subrange(0, 32) =~= s@);
    }
    while i < 32
        invariant
            0 <= i <= 32,
            leading_zero_bits(s@) == 8 * i + leading_zero_bits(s@.subrange(i as int, 32)),
        decreases 32 - i,
    {
        proof {
            assert(s@.subrange(i as int, 32).drop_first() =~= s@.subrange(i + 1, 32));
        }
        if s[i] != 0 {
            let z = s[i].leading_zeros();
            proof {
                vstd::std_specs::bits::axiom_u8_leading_zeros(s@[i as int]);
            }
            return (8 * i) as u32 + z;
        }
        i += 1;
    }
    proof {
        assert(s@.subrange(32, 32) =~= Seq::<u8>::empty());
    }
    256
}

/// A 256-bit key.
#[derive(Debug, Clone, Copy, Hash)]
pub struct U256 {
    unpacked: [u8; 32],
}

impl PartialEq for U256 {
    fn eq(&self, other: &Self) -> (r: bool) {
        crate::keyspace::bytes32_eq(&self.unpacked, &other.unpacked)
    }
}

impl Eq for U256 {

}

impl vstd::std_specs::cmp::PartialEqSpecImpl for U256 {
    open spec fn obeys_eq_spec() -> bool {
        true
    }

    open spec fn eq_spec(&self, other: &U256) -> bool {
        self@ == other@
    }
}

impl View for U256 {
    type V = Seq<u8>;

    closed spec fn view(&self) -> Seq<u8> {
        self.unpacked@
    }
}

impl U256 {
    /// A key has exactly 32 bytes.
    pub proof fn lemma_len(&self)
        ensures
            self@.len() == 32,
    {
    }

    /// The key whose bytes are the BLAKE3 digest of `data`.
    pub fn hash(data: &[u8]) -> (r: U256)
        ensures
            r@ == blake3_digest(data@),
    {
        U256 { unpacked: blake3_hash(data) }
    }

    /// Whether `data_hash` is the hash of `data`.
    pub fn verify(data: &[u8], data_hash: U256) -> (r: bool)
        ensures
            r == (blake3_digest(data@) == data_hash@),
    {
        U256::hash(data).equals(&data_hash)
    }

    pub fn new(unpacked: [u8; 32]) -> (r: U256)
        ensures
            r@ == unpacked@,
    {
        U256 { unpacked }
    }

    /// The key whose packed view is `packed`, which must hold four words.
    pub fn new_from_packed(packed: &[u64]) -> (r: U256)
        requires
            packed@.len() == PACKED_LENGTH,
        ensures
            r@ == unpacked_of(packed@),
            r.packed_spec() == packed@,
    {
        let words: [u64; 4] = [packed[0], packed[1], packed[2], packed[3]];
        proof {
            assert(words@ =~= packed@);
            law_pack_unpack(packed@);
        }
        U256 { unpacked: U256::unpack(&words) }
    }

    pub fn zero() -> (r: U256)
        ensures
            r@ == Seq::new(32, |i: int| 0u8),
    {
        let r = U256 { unpacked: [0u8; 32] };
        proof {
            assert(r@ =~= Seq::new(32, |i: int| 0u8));
        }
        r
    }

    /// A key of 32 random bytes, or the error of a system without
    /// randomness.
    pub fn random() -> (r: Result<U256, RandError>) {
        let mut unpacked: [u8; 32] = [0u8; 32];
        fill_random(&mut unpacked)?;
        Ok(U256 { unpacked })
    }

    pub fn unpack(packed: &[u64; 4]) -> (r: [u8; 32])
        ensures
            r@ == unpacked_of(packed@),
    {
        unpack_words(packed)
    }

    pub fn pack(unpacked: &[u8; 32]) -> (r: [u64; 4])
        ensures
            r@ == packed_of(unpacked@),
    {
        pack_bytes(unpacked)
    }

    /// The packed view of this key.
    pub open spec fn packed_spec(&self) -> Seq<u64> {
        packed_of(self@)
    }

    pub fn unpacked(&self) -> (r: &[u8; 32])
        ensures
            r@ == self@,
    {
        &self.unpacked
    }

    /// The bytes of this key.
    pub fn data_u8(&self) -> (r: &[u8; 32])
        ensures
            r@ == self@,
    {
        &self.unpacked
    }

    pub fn packed(&self) -> (r: [u64; 4])
        ensures
            r@ == self.packed_spec(),
    {
        pack_bytes(&self.unpacked)
    }

    /// Number of one bits of the key.
    pub fn popcount(&self) -> (r: u32)
        ensures
            r == bytes_bit_count(self@),
    {
        bytes_popcount(&self.unpacked)
    }

    pub fn xor(&self, other: &U256) -> (r: U256)
        ensures
            r@ == xor_bytes(self@, other@),
    {
        U256 { unpacked: xor_arrays(&self.unpacked, &other.unpacked) }
    }

    /// Number of leading zero bits of the XOR of two keys: the length of their
    /// common prefix.
    pub fn xor_leading_zeroes(&self, other: &U256) -> (r: u32)
        ensures
            r == leading_zero_bits(xor_bytes(self@, other@)),
            r <= 256,
    {
        let x = xor_arrays(&self.unpacked, &other.unpacked);
        bytes_leading_zeros(&x)
    }

    /// Number of bits in which two keys differ.
    pub fn hamming(&self, other: &U256) -> (r: u32)
        ensures
            r == bytes_bit_count(xor_bytes(self@, other@)),
    {
        let x = xor_arrays(&self.unpacked, &other.unpacked);
        bytes_popcount(&x)
    }

    /// Number of bits set in both keys.
    pub fn andcount(&self, other: &U256) -> (r: u32)
        ensures
            r == bytes_bit_count(Seq::new(32, |i: int| self@[i] & other@[i])),
    {
        let mut r: [u8; 32] = [0u8; 32];
        let mut i: usize = 0;
        while i < 32
            invariant
                0 <= i <= 32,
                r@.len() == 32,
                forall|j: int| 0 <= j < i ==> r@[j] == self.unpacked@[j] & other.unpacked@[j],
            decreases 32 - i,
        {
            r[i] = self.unpacked[i] & other.unpacked[i];
            i += 1;
        }
        proof {
            assert(r@ =~= Seq::new(32, |i: int| self@[i] & other@[i]));
        }
        bytes_popcount(&r)
    }

    pub fn equals(&self, other: &U256) -> (r: bool)
        ensures
            r == (self@ == other@),
    {
        crate::keyspace::bytes32_eq(&self.unpacked, &other.unpacked)
    }

    pub fn to_bytes(&self) -> (r: Vec<u8>)
        ensures
            r@ == self@,
    {
        let mut v: Vec<u8> = Vec::new();
        let mut i: usize = 0;
        while i < 32
            invariant
                0 <= i <= 32,
                v@ == self.unpacked@.subrange(0, i as int),
            decreases 32 - i,
        {
            v.push(self.unpacked[i]);
            i += 1;
            proof {
                assert(v@ =~= self.unpacked@.subrange(0, i as int));
            }
        }
        proof {
            assert(self.unpacked@.subrange(0, 32) =~= self.unpacked@);
        }
        v
    }

    /// The key made of exactly 32 bytes; any other length is refused.
    pub fn from_bytes(bytes: &[u8]) -> (r: Result<U256, U256Error>)
        ensures
            bytes@.len() == 32 <==> r is Ok,
            r matches Ok(k) ==> k@ == bytes@,
            r matches Err(e) ==> e == U256Error::InvalidLength,
    {
        if bytes.len() != 32 {
            return Err(U256Error::InvalidLength);
        }
        let mut unpacked: [u8; 32] = [0u8; 32];
        let mut i: usize = 0;
        while i < 32
            invariant
                0 <= i <= 32,
                bytes@.len() == 32,
                unpacked@.len() == 32,
                forall|j: int| 0 <= j < i ==> unpacked@[j] == bytes@[j],
            decreases 32 - i,
        {
            unpacked[i] = bytes[i];
            i += 1;
        }
        proof {
            assert(unpacked@ =~= bytes@);
        }
        Ok(U256 { unpacked })
    }
}

/// XOR with itself gives the zero key, so a key's distance to itself has all
/// 256 leading zeros and no differing bits.
pub proof fn law_xor_self(a: U256)
    ensures
        xor_bytes(a@, a@) == Seq::new(32, |i: int| 0u8),
        leading_zero_bits(xor_bytes(a@, a@)) == 256,
        bytes_bit_count(xor_bytes(a@, a@)) == 0,
{
    a.lemma_len();
    assert forall|i: int| 0 <= i < 32 implies #[trigger] xor_bytes(a@, a@)[i] == 0u8 by {
        let x = a@[i];
        assert(x ^ x == 0u8) by (bit_vector);
    }
    let z = xor_bytes(a@, a@);
    assert(z =~= Seq::new(32, |i: int| 0u8));
    lemma_zeros_counts(z);
}

proof fn lemma_zeros_counts(z: Seq<u8>)
    requires
        forall|i: int| 0 <= i < z.len() ==> z[i] == 0u8,
    ensures
        leading_zero_bits(z) == 8 * z.len(),
        bytes_bit_count(z) == 0,
    decreases z.len(),
{
    if z.len() > 0 {
        lemma_zeros_counts(z.drop_first());
    }
}

/// XOR distance is symmetric, so are its leading zeros and its bit count.
pub proof fn law_xor_symmetric(a: U256, b: U256)
    ensures
        xor_bytes(a@, b@) == xor_bytes(b@, a@),
        leading_zero_bits(xor_bytes(a@, b@)) == leading_zero_bits(xor_bytes(b@, a@)),
        bytes_bit_count(xor_bytes(a@, b@)) == bytes_bit_count(xor_bytes(b@, a@)),
{
    a.lemma_len();
    b.lemma_len();
    assert forall|i: int| 0 <= i < 32 implies #[trigger] xor_bytes(a@, b@)[i] == xor_bytes(
        b@,
        a@,
    )[i] by {
        let x = a@[i];
        let y = b@[i];
        assert(x ^ y == y ^ x) by (bit_vector);
    }
    assert(xor_bytes(a@, b@) =~= xor_bytes(b@, a@));
}

/// XOR-ing twice with the same bytes gives the first operand back; this
/// holds of keys and of addresses alike.
pub proof fn law_xor_involutive(a: Seq<u8>, b: Seq<u8>)
    requires
        a.len() == b.len(),
    ensures
        xor_bytes(xor_bytes(a, b), b) == a,
{
    assert forall|i: int| 0 <= i < a.len() implies #[trigger] xor_bytes(xor_bytes(a, b), b)[i]
        == a[i] by {
        let x = a[i];
        let y = b[i];
        assert((x ^ y) ^ y == x) by (bit_vector);
    }
    assert(xor_bytes(xor_bytes(a, b), b) =~= a);
}

} // verus!
