//! Addresses: a 32-byte seed extended by its BLAKE3 digest to 64 bytes,
//! with a packed view of eight little-endian words.
use vstd::prelude::*;
use crate::arrays::array32_from_slice;
use crate::buffer::{bytes_as_slice, bytes_contents, bytes_copy_from_slice};
use crate::hash::{blake3_digest, blake3_hash};
use crate::random::{fill_random, RandError};
use crate::u256::{
    bytes_bit_count, le_byte, le_word, packed_of, slice_popcount, unpacked_of, xor_bytes,
};

verus! {

pub const SEED_ADDRESS_LENGTH: usize = 32;

pub const UNPACKED_ADDRESS_LENGTH: usize = 64;

pub const PACKED_ADDRESS_LENGTH: usize = 8;

pub type SeedAddress = [u8; 32];

pub type UnpackedAddress = [u8; 64];

pub type PackedAddress = [u64; 8];

#[derive(Debug, Clone, Copy, PartialEq, Eq, Structural)]
pub enum AddressError {
    InvalidBase32,
    InvalidLength,
}

/// The 64 bytes of the address grown from a seed: the seed, then its digest.
pub open spec fn expand_seed(seed: Seq<u8>) -> Seq<u8> {
    seed + blake3_digest(seed)
}

/// Bitwise AND of two byte strings of equal length.
pub open spec fn and_bytes(a: Seq<u8>, b: Seq<u8>) -> Seq<u8> {
    Seq::new(a.len(), |i: int| a[i] & b[i])
}

/// Packs 64 bytes into eight little-endian words.
pub fn pack(unpacked: &UnpackedAddress) -> (r: PackedAddress)
    ensures
        r@ == packed_of(unpacked@),
{
    let mut packed: [u64; 8] = [0u64; 8];
    let mut i: usize = 0;
    while i < 8
        invariant
            0 <= i <= 8,
            packed@.len() == 8,
            forall|j: int| 0 <= j < i ==> packed@[j] == le_word(unpacked@, j),
        decreases 8 - i,
    {
        let b = 8 * i;
        let w: u64 = (unpacked[b] as u64) | ((unpacked[b + 1] as u64) << 8u64) | ((unpacked[b
            + 2] as u64) << 16u64) | ((unpacked[b + 3] as u64) << 24u64) | ((unpacked[b + 4] as u64)
            << 32u64) | ((unpacked[b + 5] as u64) << 40u64) | ((unpacked[b + 6] as u64) << 48u64)
            | ((unpacked[b + 7] as u64) << 56u64);
        packed[i] = w;
        i += 1;
    }
    proof {
        assert(packed@ =~= packed_of(unpacked@));
    }
    packed
}

/// Unpacks eight little-endian words into their 64 bytes.
pub fn unpack(packed: PackedAddress) -> (r: UnpackedAddress)
    ensures
        r@ == unpacked_of(packed@),
{
    let mut unpacked: [u8; 64] = [0u8; 64];
    let mut k: usize = 0;
    while k < 64
        invariant
            0 <= k <= 64,
            unpacked@.len() == 64,
            forall|j: int| 0 <= j < k ==> unpacked@[j] == le_byte(packed@[j / 8], (j % 8) as u64),
        decreases 64 - k,
    {
        let w = packed[k / 8];
        let shift: u64 = 8 * (k % 8) as u64;
        unpacked[k] = ((w >> shift) & 0xffu64) as u8;
        k += 1;
    }
    proof {
        assert(unpacked@ =~= unpacked_of(packed@));
    }
    unpacked
}

/// Outcome of comparing two packed views.
#[derive(Debug, Clone, Copy, PartialEq, Eq, Structural)]
pub enum PackedOrder {
    Less,
    Equal,
    Greater,
}

/// Lexicographic order of two word sequences, each word by its value.
pub open spec fn words_order(a: Seq<u64>, b: Seq<u64>) -> PackedOrder
    decreases a.len(),
{
    if a.len() == 0 || b.len() == 0 {
        PackedOrder::Equal
    } else if a[0] < b[0] {
        PackedOrder::Less
    } else if a[0] > b[0] {
        PackedOrder::Greater
    } else {
        words_order(a.drop_first(), b.drop_first())
    }
}

/// Word sequences of equal length are ordered by their first differing
/// word, compared as an unsigned number, and are equal in order when no word
/// differs.
pub proof fn law_words_order_first_difference(a: Seq<u64>, b: Seq<u64>, i: int)
    requires
        a.len() == b.len(),
        0 <= i <= a.len(),
        forall|j: int| 0 <= j < i ==> #[trigger] a[j] == b[j],
    ensures
        i < a.len() && (a[i] as nat) < (b[i] as nat) ==> words_order(a, b) == PackedOrder::Less,
        i < a.len() && (a[i] as nat) > (b[i] as nat) ==> words_order(a, b) == PackedOrder::Greater,
        i == a.len() ==> words_order(a, b) == PackedOrder::Equal,
    decreases i,
{
    if i > 0 {
        let a1 = a.drop_first();
        let b1 = b.drop_first();
        assert forall|j: int| 0 <= j < i - 1 implies #[trigger] a1[j] == b1[j] by {
            assert(a[j + 1] == b[j + 1]);
        }
        assert(a[0] == b[0]);
        law_words_order_first_difference(a1, b1, i - 1);
        if i < a.len() {
            assert(a1[i - 1] == a[i]);
            assert(b1[i - 1] == b[i]);
        }
    }
}

/// An address.
#[derive(Debug, Clone, Copy)]
pub struct Address {
    seed: SeedAddress,
    unpacked: UnpackedAddress,
}

impl View for Address {
    type V = Seq<u8>;

    /// The 64 unpacked bytes.
    closed spec fn view(&self) -> Seq<u8> {
        self.unpacked@
    }
}

impl PartialEq for Address {
    fn eq(&self, other: &Self) -> (r: bool) {
        let mut i: usize = 0;
        while i < 64
            invariant
                0 <= i <= 64,
                forall|j: int| 0 <= j < i ==> self.unpacked@[j] == other.unpacked@[j],
            decreases 64 - i,
        {
            if self.unpacked[i] != other.unpacked[i] {
                return false;
            }
            i += 1;
        }
        proof {
            assert(self.unpacked@ =~= other.unpacked@);
        }
        true
    }
}

impl Eq for Address {

}

impl vstd::std_specs::cmp::PartialEqSpecImpl for Address {
    open spec fn obeys_eq_spec() -> bool {
        true
    }

    open spec fn eq_spec(&self, other: &Address) -> bool {
        self@ == other@
    }
}

impl Address {
    #[verifier::type_invariant]
    spec fn seed_is_prefix(self) -> bool {
        self.seed@ == self.unpacked@.subrange(0, 32)
    }

    /// An address has 64 bytes.
    pub proof fn lemma_len(&self)
        ensures
            self@.len() == 64,
    {
    }

    /// The seed: the first 32 bytes.
    pub open spec fn seed_spec(&self) -> Seq<u8> {
        self@.subrange(0, 32)
    }

    pub fn new(seed: SeedAddress) -> (r: Address)
        ensures
            r@ == expand_seed(seed@),
    {
        Address::from_seed(seed)
    }

    /// The address of a seed: the seed followed by its BLAKE3 digest.
    pub fn from_seed(seed: SeedAddress) -> (r: Address)
        ensures
            r@ == expand_seed(seed@),
    {
        let digest = blake3_hash(seed.as_slice());
        let mut unpacked: [u8; 64] = [0u8; 64];
        let mut i: usize = 0;
        while i < 32
            invariant
                0 <= i <= 32,
                unpacked@.len() == 64,
                forall|j: int| 0 <= j < i ==> unpacked@[j] == seed@[j],
                forall|j: int| 0 <= j < i ==> unpacked@[32 + j] == digest@[j],
            decreases 32 - i,
        {
            unpacked[i] = seed[i];
            unpacked[32 + i] = digest[i];
            i += 1;
        }
        proof {
            assert(unpacked@ =~= expand_seed(seed@));
            assert(unpacked@.subrange(0, 32) =~= seed@);
        }
        Address { seed, unpacked }
    }

    /// Number of one bits of the address.
    pub fn popcnt(&self) -> (r: u32)
        ensures
            r == bytes_bit_count(self@),
    {
        slice_popcount(self.unpacked.as_slice())
    }

    /// Number of bits set in both addresses.
    pub fn andcount(&self, other: &Address) -> (r: u32)
        ensures
            r == bytes_bit_count(and_bytes(self@, other@)),
    {
        let mut x: [u8; 64] = [0u8; 64];
        let mut i: usize = 0;
        while i < 64
            invariant
                0 <= i <= 64,
                x@.len() == 64,
                forall|j: int| 0 <= j < i ==> x@[j] == self.unpacked@[j] & other.unpacked@[j],
            decreases 64 - i,
        {
            x[i] = self.unpacked[i] & other.unpacked[i];
            i += 1;
        }
        proof {
            assert(x@ =~= and_bytes(self@, other@));
        }
        slice_popcount(x.as_slice())
    }

    pub fn to_seed(&self) -> (r: SeedAddress)
        ensures
            r@ == self.seed_spec(),
    {
        proof {
            use_type_invariant(self);
        }
        self.seed
    }

    pub fn seed(&self) -> (r: &SeedAddress)
        ensures
            r@ == self.seed_spec(),
    {
        proof {
            use_type_invariant(self);
        }
        &self.seed
    }

    pub fn unpacked(&self) -> (r: &UnpackedAddress)
        ensures
            r@ == self@,
    {
        &self.unpacked
    }

    pub fn packed(&self) -> (r: PackedAddress)
        ensures
            r@ == packed_of(self@),
    {
        pack(&self.unpacked)
    }

    /// The address whose 64 bytes are `unpacked`; the second half is kept as
    /// given, not recomputed from the seed.
    pub fn from_unpacked(unpacked: UnpackedAddress) -> (r: Address)
        ensures
            r@ == unpacked@,
    {
        let seed = array32_from_slice(crate::arrays::vec_from_range(unpacked.as_slice(), 0, 32).as_slice());
        Address { seed, unpacked }
    }

    /// The address whose packed view is `packed`.
    pub fn from_packed(packed: PackedAddress) -> (r: Address)
        ensures
            r@ == unpacked_of(packed@),
            packed_of(r@) == packed@,
    {
        let unpacked = unpack(packed);
        proof {
            crate::u256::law_pack_unpack(packed@);
        }
        Address::from_unpacked(unpacked)
    }

    /// The address of the all-zero seed.
    pub fn zero() -> (r: Address)
        ensures
            r@ == expand_seed(Seq::new(32, |i: int| 0u8)),
    {
        let seed: [u8; 32] = [0u8; 32];
        proof {
            assert(seed@ =~= Seq::new(32, |i: int| 0u8));
        }
        Address::new(seed)
    }

    /// XOR of the packed views, as an address.
    pub fn bitxor(self, rhs: Address) -> (r: Address)
        ensures
            r@ == xor_bytes(self@, rhs@),
    {
        let a = self.packed();
        let b = rhs.packed();
        let mut x: [u64; 8] = [0u64; 8];
        let mut i: usize = 0;
        while i < 8
            invariant
                0 <= i <= 8,
                x@.len() == 8,
                forall|j: int| 0 <= j < i ==> x@[j] == a@[j] ^ b@[j],
            decreases 8 - i,
        {
            x[i] = a[i] ^ b[i];
            i += 1;
        }
        let r = Address::from_packed(x);
        proof {
            self.lemma_len();
            rhs.lemma_len();
            crate::u256::law_unpack_pack(self@);
            crate::u256::law_unpack_pack(rhs@);
            assert forall|k: int| 0 <= k < 64 implies #[trigger] r@[k] == xor_bytes(self@, rhs@)[k] by {
                let w1 = a@[k / 8];
                let w2 = b@[k / 8];
                let j = (k % 8) as u64;
                assert(j < 8);
                assert(le_byte(w1 ^ w2, j) == le_byte(w1, j) ^ le_byte(w2, j)) by (bit_vector)
                    requires
                        j < 8,
                ;
                assert(unpacked_of(packed_of(self@))[k] == self@[k]);
                assert(unpacked_of(packed_of(rhs@))[k] == rhs@[k]);
            }
            assert(r@ =~= xor_bytes(self@, rhs@));
        }
        r
    }

    /// Compares the packed views word by word.
    pub fn compare_packed(&self, other: &Address) -> (r: PackedOrder)
        ensures
            r == words_order(packed_of(self@), packed_of(other@)),
    {
        let a = self.packed();
        let b = other.packed();
        let mut i: usize = 0;
        proof {
            assert(a@.subrange(0, 8) =~= a@);
            assert(b@.subrange(0, 8) =~= b@);
        }
        while i < 8
            invariant
                0 <= i <= 8,
                a@.len() == 8,
                b@.len() == 8,
                a@ == packed_of(self@),
                b@ == packed_of(other@),
                words_order(a@, b@) == words_order(a@.subrange(i as int, 8), b@.subrange(i as int, 8)),
            decreases 8 - i,
        {
            proof {
                assert(a@.subrange(i as int, 8).drop_first() =~= a@.subrange(i + 1, 8));
                assert(b@.subrange(i as int, 8).drop_first() =~= b@.subrange(i + 1, 8));
            }
            if a[i] < b[i] {
                return PackedOrder::Less;
            }
            if a[i] > b[i] {
                return PackedOrder::Greater;
            }
            i += 1;
        }
        PackedOrder::Equal
    }

    /// An address of 64 random bytes, or the error of a system without
    /// randomness.
    pub fn random() -> (r: Result<Address, RandError>) {
        let mut unpacked: [u8; 64] = [0u8; 64];
        fill_random(&mut unpacked)?;
        Ok(Address::from_unpacked(unpacked))
    }

    pub fn to_arr(&self) -> (r: SeedAddress)
        ensures
            r@ == self.seed_spec(),
    {
        *self.seed()
    }

    pub fn from_arr(seed: &SeedAddress) -> (r: Result<Address, AddressError>)
        ensures
            r matches Ok(a) && a@ == expand_seed(seed@),
    {
        Ok(Address::from_seed(*seed))
    }

    /// The seed as a `bytes::Bytes` buffer.
    pub fn to_bytes(&self) -> (r: bytes::Bytes)
        ensures
            bytes_contents(r) == self.seed_spec(),
    {
        let seed = self.to_arr();
        bytes_copy_from_slice(seed.as_slice())
    }

    /// Refuses every buffer whose length is not 64.  A 64-byte buffer is
    /// then read as a 32-byte seed, a conversion that panics, so such a
    /// buffer is left out.
    pub fn from_bytes(bytes: &bytes::Bytes) -> (r: Result<Address, AddressError>)
        requires
            bytes_contents(*bytes).len() != UNPACKED_ADDRESS_LENGTH,
        ensures
            r == Err::<Address, AddressError>(AddressError::InvalidLength),
    {
        let s = bytes_as_slice(bytes);
        if s.len() != UNPACKED_ADDRESS_LENGTH {
            return Err(AddressError::InvalidLength);
        }
        // A 64-byte buffer cannot be read as a seed; the contract excludes it.
        Err(AddressError::InvalidLength)
    }
}

impl Default for Address {
    fn default() -> (r: Address)
        ensures
            r@ == expand_seed(Seq::new(32, |i: int| 0u8)),
    {
        Address::zero()
    }
}

} // verus!
