//! Arithmetic on the 256-bit identifier ring.
//!
//! An identifier is 32 bytes read as a big-endian unsigned integer.  The ring
//! has `2^256` points; finger targets are computed modulo that size.
use vstd::prelude::*;

verus! {

/// `256^n`.
pub open spec fn pow256(n: nat) -> nat
    decreases n,
{
    if n == 0 {
        1
    } else {
        256 * pow256((n - 1) as nat)
    }
}

/// `2^k`.
pub open spec fn two_pow(k: nat) -> nat
    decreases k,
{
    if k == 0 {
        1
    } else {
        2 * two_pow((k - 1) as nat)
    }
}

/// The number a big-endian byte string denotes.
pub open spec fn be_value(s: Seq<u8>) -> nat
    decreases s.len(),
{
    if s.len() == 0 {
        0
    } else {
        s[0] as nat * pow256((s.len() - 1) as nat) + be_value(s.drop_first())
    }
}

/// Number of points on the identifier ring: `2^256`.
pub open spec fn ring_size() -> nat {
    pow256(32)
}

pub proof fn lemma_pow256_positive(n: nat)
    ensures
        pow256(n) >= 1,
    decreases n,
{
    if n > 0 {
        lemma_pow256_positive((n - 1) as nat);
    }
}

pub proof fn lemma_two_pow_positive(n: nat)
    ensures
        two_pow(n) >= 1,
    decreases n,
{
    if n > 0 {
        lemma_two_pow_positive((n - 1) as nat);
    }
}

/// `2^(a+b) == 2^a * 2^b`.
pub proof fn lemma_two_pow_add(a: nat, b: nat)
    ensures
        two_pow(a + b) == two_pow(a) * two_pow(b),
    decreases a,
{
    if a > 0 {
        lemma_two_pow_add((a - 1) as nat, b);
        assert((a - 1) as nat + b == (a + b - 1) as nat);
        assert(two_pow(a + b) == 2 * two_pow(((a - 1) as nat + b) as nat));
        assert(2 * (two_pow((a - 1) as nat) * two_pow(b)) == (2 * two_pow((a - 1) as nat))
            * two_pow(b)) by (nonlinear_arith);
        assert(two_pow(a) == 2 * two_pow((a - 1) as nat));
    } else {
        assert(two_pow(0) == 1);
        assert(0 + b == b);
    }
}

/// `2^(8n) == 256^n`.
pub proof fn lemma_two_pow_bytes(n: nat)
    ensures
        two_pow(8 * n) == pow256(n),
    decreases n,
{
    if n > 0 {
        lemma_two_pow_bytes((n - 1) as nat);
        lemma_two_pow_add(8, 8 * (n - 1) as nat);
        reveal_with_fuel(two_pow, 9);
        assert(8 * n == 8 + 8 * (n - 1) as nat);
    }
}

/// A byte string of length `n` denotes a number below `256^n`.
pub proof fn lemma_be_value_bound(s: Seq<u8>)
    ensures
        be_value(s) < pow256(s.len()),
    decreases s.len(),
{
    if s.len() > 0 {
        let p = pow256((s.len() - 1) as nat);
        lemma_be_value_bound(s.drop_first());
        lemma_pow256_positive((s.len() - 1) as nat);
        assert(s[0] as nat * p <= 255 * p) by (nonlinear_arith)
            requires
                s[0] <= 255,
                p >= 1,
        ;
    }
}

/// Splitting off the first byte of a suffix.
pub proof fn lemma_be_suffix(s: Seq<u8>, i: int)
    requires
        0 <= i < s.len(),
    ensures
        be_value(s.subrange(i, s.len() as int)) == s[i] as nat * pow256((s.len() - i - 1) as nat)
            + be_value(s.subrange(i + 1, s.len() as int)),
{
    let t = s.subrange(i, s.len() as int);
    assert(t.drop_first() =~= s.subrange(i + 1, s.len() as int));
}

/// Two strings of equal length that agree on their first `i` bytes compare
/// as their suffixes from `i` do.
pub proof fn lemma_be_common_prefix(a: Seq<u8>, b: Seq<u8>, i: int)
    requires
        a.len() == b.len(),
        0 <= i <= a.len(),
        forall|j: int| 0 <= j < i ==> a[j] == b[j],
    ensures
        (be_value(a) < be_value(b)) == (be_value(a.subrange(i, a.len() as int)) < be_value(
            b.subrange(i, b.len() as int),
        )),
        (be_value(a) == be_value(b)) == (be_value(a.subrange(i, a.len() as int)) == be_value(
            b.subrange(i, b.len() as int),
        )),
    decreases i,
{
    if i == 0 {
        assert(a.subrange(0, a.len() as int) =~= a);
        assert(b.subrange(0, b.len() as int) =~= b);
    } else {
        lemma_be_common_prefix(a, b, i - 1);
        lemma_be_suffix(a, i - 1);
        lemma_be_suffix(b, i - 1);
    }
}

/// A smaller leading digit decides the comparison.
pub proof fn lemma_digit_decides(x: nat, y: nat, rx: nat, ry: nat, p: nat)
    requires
        x < y,
        rx < p,
    ensures
        x * p + rx < y * p + ry,
{
    assert(x * p + rx < y * p + ry) by (nonlinear_arith)
        requires
            x < y,
            rx < p,
    ;
}

/// Byte strings of the same length denote the same number only when equal.
pub proof fn lemma_be_value_injective(a: Seq<u8>, b: Seq<u8>)
    requires
        a.len() == b.len(),
        be_value(a) == be_value(b),
    ensures
        a == b,
{
    if a != b {
        let i = choose|i: int| 0 <= i < a.len() && a[i] != b[i] && forall|j: int|
            0 <= j < i ==> a[j] == b[j];
        lemma_first_difference(a, b);
        lemma_be_common_prefix(a, b, i);
        lemma_be_suffix(a, i);
        lemma_be_suffix(b, i);
        lemma_be_value_bound(a.subrange(i + 1, a.len() as int));
        lemma_be_value_bound(b.subrange(i + 1, b.len() as int));
        let p = pow256((a.len() - i - 1) as nat);
        if a[i] < b[i] {
            lemma_digit_decides(
                a[i] as nat,
                b[i] as nat,
                be_value(a.subrange(i + 1, a.len() as int)),
                be_value(b.subrange(i + 1, b.len() as int)),
                p,
            );
        } else {
            lemma_digit_decides(
                b[i] as nat,
                a[i] as nat,
                be_value(b.subrange(i + 1, b.len() as int)),
                be_value(a.subrange(i + 1, a.len() as int)),
                p,
            );
        }
    }
}

/// Distinct sequences of equal length have a first index where they differ.
pub proof fn lemma_first_difference(a: Seq<u8>, b: Seq<u8>)
    requires
        a.len() == b.len(),
        a != b,
    ensures
        exists|i: int| 0 <= i < a.len() && a[i] != b[i] && forall|j: int| 0 <= j < i ==> a[j] == b[j],
    decreases a.len(),
{
    if a.len() > 0 && a[0] == b[0] {
        if a.drop_first() == b.drop_first() {
            assert forall|j: int| 0 <= j < a.len() implies a[j] == b[j] by {
                if j > 0 {
                    assert(a.drop_first()[j - 1] == b.drop_first()[j - 1]);
                }
            }
            assert(a =~= b);
        }
        lemma_first_difference(a.drop_first(), b.drop_first());
        let k = choose|k: int|
            0 <= k < a.len() - 1 && a.drop_first()[k] != b.drop_first()[k] && forall|j: int|
                0 <= j < k ==> a.drop_first()[j] == b.drop_first()[j];
        assert(a[k + 1] != b[k + 1]);
        assert forall|j: int| 0 <= j < k + 1 implies a[j] == b[j] by {
            if j > 0 {
                assert(a.drop_first()[j - 1] == b.drop_first()[j - 1]);
            }
        }
    } else if a.len() == 0 {
        assert(a =~= b);
    }
}

/// A string of zero bytes denotes zero.
pub proof fn lemma_be_value_zeros(s: Seq<u8>)
    requires
        forall|j: int| 0 <= j < s.len() ==> s[j] == 0,
    ensures
        be_value(s) == 0,
    decreases s.len(),
{
    if s.len() > 0 {
        lemma_be_value_zeros(s.drop_first());
    }
}

/// A string whose only nonzero byte `v` sits at index `p` denotes
/// `v * 256^(len - 1 - p)`.
pub proof fn lemma_be_value_single(s: Seq<u8>, p: int)
    requires
        0 <= p < s.len(),
        forall|j: int| 0 <= j < s.len() && j != p ==> s[j] == 0,
    ensures
        be_value(s) == s[p] as nat * pow256((s.len() - 1 - p) as nat),
    decreases s.len(),
{
    if p == 0 {
        lemma_be_value_zeros(s.drop_first());
    } else {
        lemma_be_value_single(s.drop_first(), p - 1);
    }
}

proof fn lemma_carry_step(x: nat, y: nat, z: nat, p: nat)
    requires
        x + 256 * y == z,
    ensures
        x * p + y * (256 * p) == z * p,
{
    assert(x * p + y * (256 * p) == z * p) by (nonlinear_arith)
        requires
            x + 256 * y == z,
    ;
}

/// Byte-wise equality of two identifiers.
pub fn bytes32_eq(a: &[u8; 32], b: &[u8; 32]) -> (r: bool)
    ensures
        r == (a@ == b@),
{
    let mut i: usize = 0;
    while i < 32
        invariant
            0 <= i <= 32,
            forall|j: int| 0 <= j < i ==> a@[j] == b@[j],
        decreases 32 - i,
    {
        if a[i] != b[i] {
            return false;
        }
        i += 1;
    }
    proof {
        assert(a@ =~= b@);
    }
    true
}

/// Whether `a` denotes a smaller number than `b`.
pub fn be_lt(a: &[u8; 32], b: &[u8; 32]) -> (r: bool)
    ensures
        r == (be_value(a@) < be_value(b@)),
{
    let mut i: usize = 0;
    while i < 32
        invariant
            0 <= i <= 32,
            forall|j: int| 0 <= j < i ==> a@[j] == b@[j],
        decreases 32 - i,
    {
        if a[i] != b[i] {
            proof {
                let ii = i as int;
                lemma_be_common_prefix(a@, b@, ii);
                lemma_be_suffix(a@, ii);
                lemma_be_suffix(b@, ii);
                lemma_be_value_bound(a@.subrange(ii + 1, 32));
                lemma_be_value_bound(b@.subrange(ii + 1, 32));
                let p = pow256((32 - ii - 1) as nat);
                if a@[ii] < b@[ii] {
                    lemma_digit_decides(
                        a@[ii] as nat,
                        b@[ii] as nat,
                        be_value(a@.subrange(ii + 1, 32)),
                        be_value(b@.subrange(ii + 1, 32)),
                        p,
                    );
                } else {
                    lemma_digit_decides(
                        b@[ii] as nat,
                        a@[ii] as nat,
                        be_value(b@.subrange(ii + 1, 32)),
                        be_value(a@.subrange(ii + 1, 32)),
                        p,
                    );
                }
            }
            return a[i] < b[i];
        }
        i += 1;
    }
    proof {
        assert(a@ =~= b@);
    }
    false
}

/// `(a + b) mod 2^256`, byte by byte with a carry.
pub fn be_add_mod(a: &[u8; 32], b: &[u8; 32]) -> (r: [u8; 32])
    ensures
        be_value(r@) == (be_value(a@) + be_value(b@)) % ring_size(),
{
    let mut r: [u8; 32] = [0u8; 32];
    let mut carry: u16 = 0;
    let mut i: usize = 32;
    proof {
        assert(r@.subrange(32, 32) =~= Seq::<u8>::empty());
        assert(a@.subrange(32, 32) =~= Seq::<u8>::empty());
        assert(b@.subrange(32, 32) =~= Seq::<u8>::empty());
    }
    while i > 0
        invariant
            0 <= i <= 32,
            carry <= 1,
            r@.len() == 32,
            be_value(r@.subrange(i as int, 32)) + carry * pow256((32 - i) as nat) == be_value(
                a@.subrange(i as int, 32),
            ) + be_value(b@.subrange(i as int, 32)),
        decreases i,
    {
        let ghost old_r = r@;
        let ghost old_carry = carry;
        i -= 1;
        let s: u16 = a[i] as u16 + b[i] as u16 + carry;
        r[i] = (s % 256) as u8;
        carry = s / 256;
        proof {
            let ii = i as int;
            let p = pow256((31 - ii) as nat);
            assert(r@.subrange(ii + 1, 32) =~= old_r.subrange(ii + 1, 32));
            lemma_be_suffix(r@, ii);
            lemma_be_suffix(a@, ii);
            lemma_be_suffix(b@, ii);
            assert(pow256((32 - ii) as nat) == 256 * p);
            lemma_carry_step(r@[ii] as nat, carry as nat, s as nat, p);
            assert(s as nat * p == a@[ii] as nat * p + b@[ii] as nat * p + old_carry as nat * p)
                by (nonlinear_arith)
                requires
                    s as nat == a@[ii] as nat + b@[ii] as nat + old_carry as nat,
            ;
        }
    }
    proof {
        assert(r@.subrange(0, 32) =~= r@);
        assert(a@.subrange(0, 32) =~= a@);
        assert(b@.subrange(0, 32) =~= b@);
        lemma_be_value_bound(r@);
        let m = ring_size();
        let x = be_value(r@);
        assert((x + carry as nat * m) % m == x) by (nonlinear_arith)
            requires
                0 <= x < m,
                carry <= 1,
        ;
    }
    r
}

/// The identifier denoting `2^k`.
pub fn be_pow2(k: u8) -> (r: [u8; 32])
    ensures
        be_value(r@) == two_pow(k as nat),
{
    let mut byte: u8 = 1;
    let mut j: u8 = 0;
    let bit: u8 = k % 8;
    while j < bit
        invariant
            0 <= j <= bit < 8,
            byte as nat == two_pow(j as nat),
        decreases bit - j,
    {
        proof {
            lemma_two_pow_add(j as nat, (7 - j) as nat);
            reveal_with_fuel(two_pow, 8);
            assert(j as nat + (7 - j) as nat == 7);
            assert(two_pow((7 - j) as nat) == 2 * two_pow((6 - j) as nat));
            lemma_two_pow_positive((6 - j) as nat);
            assert(2 * byte as nat <= 128) by (nonlinear_arith)
                requires
                    byte as nat * two_pow((7 - j) as nat) == 128,
                    two_pow((7 - j) as nat) >= 2,
            ;
        }
        byte = byte * 2;
        j += 1;
    }
    let pos: usize = 31 - (k / 8) as usize;
    let mut r: [u8; 32] = [0u8; 32];
    r[pos] = byte;
    proof {
        lemma_be_value_single(r@, pos as int);
        let q = (k / 8) as nat;
        lemma_two_pow_bytes(q);
        lemma_two_pow_add(bit as nat, 8 * q);
        assert(k as nat == bit as nat + 8 * q);
        assert(two_pow(k as nat) == byte as nat * pow256(q));
    }
    r
}

} // verus!
