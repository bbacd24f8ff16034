//! Population count of natural numbers and of the 64-bit words that are
//! assembled from eight bytes.
use vstd::prelude::*;

verus! {

use vstd::endian::{endianness, Endian};

/// The number of ones in the binary representation of `n`.
pub open spec fn bit_count(n: nat) -> nat
    decreases n,
{
    if n == 0 {
        0
    } else {
        n % 2 + bit_count(n / 2)
    }
}

/// One step of `bit_count`, valid for every `n` (zero included).
pub proof fn lemma_bit_count_step(n: nat)
    ensures
        bit_count(n) == n % 2 + bit_count(n / 2),
{
}

/// Placing `c` above the `k` low bits that hold `a` adds their counts.
pub proof fn lemma_bit_count_split(a: nat, c: nat, k: nat)
    requires
        a < vstd::arithmetic::power2::pow2(k),
    ensures
        bit_count(a + vstd::arithmetic::power2::pow2(k) * c) == bit_count(a) + bit_count(c),
    decreases k,
{
    let p = vstd::arithmetic::power2::pow2(k);
    if k == 0 {
        vstd::arithmetic::power2::lemma2_to64();
        assert(a == 0);
        assert(p * c == c) by (nonlinear_arith) requires p == 1;
    } else {
        let q = vstd::arithmetic::power2::pow2((k - 1) as nat);
        vstd::arithmetic::power2::lemma_pow2_unfold(k);
        assert(p == 2 * q);
        let n = a + p * c;
        let lo = a % 2;
        let hi = a / 2;
        assert(a == 2 * hi + lo);
        assert(hi < q);
        assert(n == lo + 2 * (hi + q * c)) by (nonlinear_arith)
            requires n == a + p * c, p == 2 * q, a == 2 * hi + lo;
        assert(n % 2 == lo && n / 2 == hi + q * c) by (nonlinear_arith)
            requires n == lo + 2 * (hi + q * c), lo < 2, hi + q * c >= 0;
        lemma_bit_count_step(n);
        lemma_bit_count_step(a);
        lemma_bit_count_split(hi, c, (k - 1) as nat);
    }
}


/// The 64-bit word whose bytes, from the least significant up, are `b0` to `b7`.
pub open spec fn word_of(b0: u8, b1: u8, b2: u8, b3: u8, b4: u8, b5: u8, b6: u8, b7: u8) -> u64 {
    (b0 as u64) | (b1 as u64) << 8u64 | (b2 as u64) << 16u64 | (b3 as u64) << 24u64 | (b4 as u64)
        << 32u64 | (b5 as u64) << 40u64 | (b6 as u64) << 48u64 | (b7 as u64) << 56u64
}

/// XOR of two assembled words is the word assembled from the bytewise XOR.
pub proof fn lemma_word_of_xor(
    a0: u8, a1: u8, a2: u8, a3: u8, a4: u8, a5: u8, a6: u8, a7: u8,
    c0: u8, c1: u8, c2: u8, c3: u8, c4: u8, c5: u8, c6: u8, c7: u8,
)
    ensures
        word_of(a0, a1, a2, a3, a4, a5, a6, a7) ^ word_of(c0, c1, c2, c3, c4, c5, c6, c7)
            == word_of(a0 ^ c0, a1 ^ c1, a2 ^ c2, a3 ^ c3, a4 ^ c4, a5 ^ c5, a6 ^ c6, a7 ^ c7),
{
    assert(word_of(a0, a1, a2, a3, a4, a5, a6, a7) ^ word_of(c0, c1, c2, c3, c4, c5, c6, c7)
        == word_of(a0 ^ c0, a1 ^ c1, a2 ^ c2, a3 ^ c3, a4 ^ c4, a5 ^ c5, a6 ^ c6, a7 ^ c7))
        by (bit_vector);
}

/// An assembled word, read as a number, is its low byte plus 256 times the rest.
proof fn lemma_word_of_value(b0: u8, b1: u8, b2: u8, b3: u8, b4: u8, b5: u8, b6: u8, b7: u8)
    ensures
        word_of(b0, b1, b2, b3, b4, b5, b6, b7) as int == b0 + 256 * (b1 + 256 * (b2 + 256 * (b3
            + 256 * (b4 + 256 * (b5 + 256 * (b6 + 256 * b7)))))),
{
    assert(word_of(b0, b1, b2, b3, b4, b5, b6, b7) as int == b0 + 256 * (b1 + 256 * (b2 + 256 * (b3
        + 256 * (b4 + 256 * (b5 + 256 * (b6 + 256 * b7))))))) by (bit_vector);
}

/// The population count of an assembled word is the sum of those of its bytes.
pub proof fn lemma_word_of_bit_count(b0: u8, b1: u8, b2: u8, b3: u8, b4: u8, b5: u8, b6: u8, b7: u8)
    ensures
        bit_count(word_of(b0, b1, b2, b3, b4, b5, b6, b7) as nat) == bit_count(b0 as nat) + bit_count(
            b1 as nat,
        ) + bit_count(b2 as nat) + bit_count(b3 as nat) + bit_count(b4 as nat) + bit_count(b5 as nat)
            + bit_count(b6 as nat) + bit_count(b7 as nat),
{
    lemma_word_of_value(b0, b1, b2, b3, b4, b5, b6, b7);
    let p = vstd::arithmetic::power2::pow2(8);
    assert(p == 256) by {
        vstd::arithmetic::power2::lemma2_to64();
    }
    let r7: nat = b7 as nat;
    let r6: nat = b6 as nat + 256 * r7;
    let r5: nat = b5 as nat + 256 * r6;
    let r4: nat = b4 as nat + 256 * r5;
    let r3: nat = b3 as nat + 256 * r4;
    let r2: nat = b2 as nat + 256 * r3;
    let r1: nat = b1 as nat + 256 * r2;
    let r0: nat = b0 as nat + 256 * r1;
    assert(word_of(b0, b1, b2, b3, b4, b5, b6, b7) as nat == r0);
    lemma_bit_count_split(b0 as nat, r1, 8);
    lemma_bit_count_split(b1 as nat, r2, 8);
    lemma_bit_count_split(b2 as nat, r3, 8);
    lemma_bit_count_split(b3 as nat, r4, 8);
    lemma_bit_count_split(b4 as nat, r5, 8);
    lemma_bit_count_split(b5 as nat, r6, 8);
    lemma_bit_count_split(b6 as nat, r7, 8);
}

/// The word that eight consecutive bytes of memory hold on this machine: the
/// first byte is the least significant one on a little-endian machine and the
/// most significant one on a big-endian machine.
pub open spec fn native_word(b0: u8, b1: u8, b2: u8, b3: u8, b4: u8, b5: u8, b6: u8, b7: u8) -> u64 {
    match endianness() {
        Endian::Little => word_of(b0, b1, b2, b3, b4, b5, b6, b7),
        Endian::Big => word_of(b7, b6, b5, b4, b3, b2, b1, b0),
    }
}

/// Whatever the byte order, the population count of the XOR of two native words
/// is the sum of the population counts of the XORs of their bytes.
pub proof fn lemma_native_word_xor_bit_count(
    a0: u8, a1: u8, a2: u8, a3: u8, a4: u8, a5: u8, a6: u8, a7: u8,
    c0: u8, c1: u8, c2: u8, c3: u8, c4: u8, c5: u8, c6: u8, c7: u8,
)
    ensures
        bit_count((native_word(a0, a1, a2, a3, a4, a5, a6, a7) ^ native_word(c0, c1, c2, c3, c4, c5, c6, c7)) as nat)
            == bit_count((a0 ^ c0) as nat) + bit_count((a1 ^ c1) as nat) + bit_count((a2 ^ c2) as nat)
            + bit_count((a3 ^ c3) as nat) + bit_count((a4 ^ c4) as nat) + bit_count((a5 ^ c5) as nat)
            + bit_count((a6 ^ c6) as nat) + bit_count((a7 ^ c7) as nat),
{
    match endianness() {
        Endian::Little => {
            lemma_word_of_xor(a0, a1, a2, a3, a4, a5, a6, a7, c0, c1, c2, c3, c4, c5, c6, c7);
            lemma_word_of_bit_count(a0 ^ c0, a1 ^ c1, a2 ^ c2, a3 ^ c3, a4 ^ c4, a5 ^ c5, a6 ^ c6, a7 ^ c7);
        },
        Endian::Big => {
            lemma_word_of_xor(a7, a6, a5, a4, a3, a2, a1, a0, c7, c6, c5, c4, c3, c2, c1, c0);
            lemma_word_of_bit_count(a7 ^ c7, a6 ^ c6, a5 ^ c5, a4 ^ c4, a3 ^ c3, a2 ^ c2, a1 ^ c1, a0 ^ c0);
        },
    }
}

/// Only zero has no bit set.
pub proof fn lemma_bit_count_zero(n: nat)
    ensures
        bit_count(n) == 0 <==> n == 0,
    decreases n,
{
    if n > 0 {
        lemma_bit_count_zero(n / 2);
    }
}

/// A number below `2^k` has at most `k` bits set.
pub proof fn lemma_bit_count_bound(n: nat, k: nat)
    requires
        n < vstd::arithmetic::power2::pow2(k),
    ensures
        bit_count(n) <= k,
    decreases k,
{
    if k == 0 {
        vstd::arithmetic::power2::lemma2_to64();
    } else {
        vstd::arithmetic::power2::lemma_pow2_unfold(k);
        lemma_bit_count_bound(n / 2, (k - 1) as nat);
    }
}

/// A byte has at most eight bits set.
pub proof fn lemma_byte_bit_count_bound(x: u8)
    ensures
        bit_count(x as nat) <= 8,
{
    vstd::arithmetic::power2::lemma2_to64();
    lemma_bit_count_bound(x as nat, 8);
}

/// The byte with every bit set has eight of them.
pub proof fn lemma_bit_count_all_ones()
    ensures
        bit_count(0xffnat) == 8,
{
    reveal_with_fuel(bit_count, 9);
}

/// The low bit and the rest of an XOR of bytes.
proof fn lemma_xor_halves(x: u8, z: u8)
    ensures
        (x ^ z) % 2 == (if x % 2 == z % 2 { 0u8 } else { 1u8 }),
        (x ^ z) / 2 == (x / 2) ^ (z / 2),
{
    assert((x ^ z) % 2 == (if x % 2 == z % 2 { 0u8 } else { 1u8 })) by (bit_vector);
    assert((x ^ z) / 2 == (x / 2) ^ (z / 2)) by (bit_vector);
}

/// The bits in which `x` and `z` differ are among those in which `x` differs
/// from `y` or `y` from `z`.
pub proof fn lemma_byte_xor_triangle(x: u8, y: u8, z: u8)
    ensures
        bit_count((x ^ z) as nat) <= bit_count((x ^ y) as nat) + bit_count((y ^ z) as nat),
    decreases x + y + z,
{
    if x == 0 && y == 0 && z == 0 {
        assert(0u8 ^ 0u8 == 0u8) by (bit_vector);
    } else {
        lemma_xor_halves(x, z);
        lemma_xor_halves(x, y);
        lemma_xor_halves(y, z);
        lemma_bit_count_step((x ^ z) as nat);
        lemma_bit_count_step((x ^ y) as nat);
        lemma_bit_count_step((y ^ z) as nat);
        lemma_byte_xor_triangle(x / 2, y / 2, z / 2);
    }
}

} // verus!
