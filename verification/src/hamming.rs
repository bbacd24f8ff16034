//! The bitwise Hamming distance of two byte sequences, as a mathematical
//! function, and the facts about it that the implementations rest on.
use vstd::prelude::*;

verus! {

use crate::popcount::{
    bit_count, native_word, lemma_native_word_xor_bit_count, lemma_bit_count_zero,
    lemma_byte_bit_count_bound, lemma_bit_count_all_ones, lemma_byte_xor_triangle,
};

/// The number of bit positions in which two bytes differ.
pub open spec fn byte_distance(x: u8, y: u8) -> nat {
    bit_count((x ^ y) as nat)
}

/// The number of differing bits among the first `n` bytes of `a` and `b`.
pub open spec fn hamming_prefix(a: Seq<u8>, b: Seq<u8>, n: nat) -> nat
    decreases n,
{
    if n == 0 {
        0
    } else {
        hamming_prefix(a, b, (n - 1) as nat) + byte_distance(a[n - 1], b[n - 1])
    }
}

/// The bitwise Hamming distance: the number of bit positions in which `a`
/// and `b` differ, over the bytes of `a` (both have that length where it is
/// used).
pub open spec fn hamming(a: Seq<u8>, b: Seq<u8>) -> nat {
    hamming_prefix(a, b, a.len())
}

/// A longer prefix never has a smaller distance.
pub proof fn lemma_hamming_prefix_monotonic(a: Seq<u8>, b: Seq<u8>, i: nat, j: nat)
    requires
        i <= j,
    ensures
        hamming_prefix(a, b, i) <= hamming_prefix(a, b, j),
    decreases j,
{
    if i < j {
        lemma_hamming_prefix_monotonic(a, b, i, (j - 1) as nat);
    }
}

/// The word-at-a-time step: the population count of the XOR of the native
/// words at offset `i` is the distance that the eight bytes from `i` add.
pub proof fn lemma_chunk_distance(a: Seq<u8>, b: Seq<u8>, i: int)
    requires
        0 <= i,
        i + 8 <= a.len(),
        i + 8 <= b.len(),
    ensures
        bit_count(
            (native_word(a[i + 0], a[i + 1], a[i + 2], a[i + 3], a[i + 4], a[i + 5], a[i + 6], a[i + 7])
                ^ native_word(b[i + 0], b[i + 1], b[i + 2], b[i + 3], b[i + 4], b[i + 5], b[i + 6], b[i + 7])) as nat,
        ) + hamming_prefix(a, b, i as nat) == hamming_prefix(a, b, (i + 8) as nat),
{
    lemma_native_word_xor_bit_count(
        a[i + 0], a[i + 1], a[i + 2], a[i + 3], a[i + 4], a[i + 5], a[i + 6], a[i + 7],
        b[i + 0], b[i + 1], b[i + 2], b[i + 3], b[i + 4], b[i + 5], b[i + 6], b[i + 7],
    );
    reveal_with_fuel(hamming_prefix, 9);
}

/// Two bytes are at distance zero exactly when they are equal, and the
/// distance between bytes does not depend on their order.
pub proof fn lemma_byte_distance_basics(x: u8, y: u8)
    ensures
        byte_distance(x, y) == byte_distance(y, x),
        byte_distance(x, y) == 0 <==> x == y,
        byte_distance(x, y) <= 8,
{
    assert(x ^ y == y ^ x) by (bit_vector);
    assert((x ^ y == 0) <==> x == y) by (bit_vector);
    lemma_bit_count_zero((x ^ y) as nat);
    lemma_byte_bit_count_bound(x ^ y);
}

/// Symmetry: the distance from `a` to `b` is the distance from `b` to `a`.
pub proof fn lemma_hamming_symmetric(a: Seq<u8>, b: Seq<u8>)
    requires
        a.len() == b.len(),
    ensures
        hamming(a, b) == hamming(b, a),
{
    lemma_prefix_symmetric(a, b, a.len());
}

proof fn lemma_prefix_symmetric(a: Seq<u8>, b: Seq<u8>, n: nat)
    ensures
        hamming_prefix(a, b, n) == hamming_prefix(b, a, n),
    decreases n,
{
    if n > 0 {
        lemma_prefix_symmetric(a, b, (n - 1) as nat);
        lemma_byte_distance_basics(a[n - 1], b[n - 1]);
    }
}

/// A sequence is at distance zero from another of its length exactly when the
/// two are equal; in particular every sequence is at distance zero from itself.
pub proof fn lemma_hamming_zero_iff_equal(a: Seq<u8>, b: Seq<u8>)
    requires
        a.len() == b.len(),
    ensures
        hamming(a, b) == 0 <==> a == b,
        hamming(a, a) == 0,
{
    lemma_prefix_zero(a, b, a.len());
    lemma_prefix_zero(a, a, a.len());
    if a == b {
    } else if hamming(a, b) == 0 {
        assert(a =~= b);
    }
}

proof fn lemma_prefix_zero(a: Seq<u8>, b: Seq<u8>, n: nat)
    requires
        n <= a.len(),
        n <= b.len(),
    ensures
        hamming_prefix(a, b, n) == 0 <==> forall|i: int| 0 <= i < n ==> a[i] == b[i],
    decreases n,
{
    if n > 0 {
        lemma_prefix_zero(a, b, (n - 1) as nat);
        lemma_byte_distance_basics(a[n - 1], b[n - 1]);
        if hamming_prefix(a, b, n) == 0 {
            assert forall|i: int| 0 <= i < n implies a[i] == b[i] by {
                if i < n - 1 {
                } else {
                    assert(i == n - 1);
                }
            }
        }
    }
}

/// Two sequences of `n` bytes differ in at most `8 * n` bits.
pub proof fn lemma_hamming_upper_bound(a: Seq<u8>, b: Seq<u8>)
    requires
        a.len() == b.len(),
    ensures
        hamming(a, b) <= 8 * a.len(),
{
    lemma_prefix_upper_bound(a, b, a.len());
}

proof fn lemma_prefix_upper_bound(a: Seq<u8>, b: Seq<u8>, n: nat)
    ensures
        hamming_prefix(a, b, n) <= 8 * n,
    decreases n,
{
    if n > 0 {
        lemma_prefix_upper_bound(a, b, (n - 1) as nat);
        lemma_byte_distance_basics(a[n - 1], b[n - 1]);
    }
}

/// Where every bit of each byte differs, the distance is `8 * n`: the bound
/// above is reached.
pub proof fn lemma_hamming_complement(a: Seq<u8>, b: Seq<u8>)
    requires
        a.len() == b.len(),
        forall|i: int| 0 <= i < a.len() ==> #[trigger] a[i] ^ b[i] == 0xffu8,
    ensures
        hamming(a, b) == 8 * a.len(),
{
    lemma_bit_count_all_ones();
    lemma_prefix_complement(a, b, a.len());
}

proof fn lemma_prefix_complement(a: Seq<u8>, b: Seq<u8>, n: nat)
    requires
        n <= a.len(),
        n <= b.len(),
        bit_count(0xffnat) == 8,
        forall|i: int| 0 <= i < a.len() ==> #[trigger] a[i] ^ b[i] == 0xffu8,
    ensures
        hamming_prefix(a, b, n) == 8 * n,
    decreases n,
{
    if n > 0 {
        lemma_prefix_complement(a, b, (n - 1) as nat);
        assert(a[n - 1] ^ b[n - 1] == 0xffu8);
    }
}

/// Triangle inequality: going from `a` to `c` through `b` never takes fewer
/// bit flips than going directly.
pub proof fn lemma_hamming_triangle(a: Seq<u8>, b: Seq<u8>, c: Seq<u8>)
    requires
        a.len() == b.len(),
        b.len() == c.len(),
    ensures
        hamming(a, c) <= hamming(a, b) + hamming(b, c),
{
    lemma_prefix_triangle(a, b, c, a.len());
}

proof fn lemma_prefix_triangle(a: Seq<u8>, b: Seq<u8>, c: Seq<u8>, n: nat)
    ensures
        hamming_prefix(a, c, n) <= hamming_prefix(a, b, n) + hamming_prefix(b, c, n),
    decreases n,
{
    if n > 0 {
        lemma_prefix_triangle(a, b, c, (n - 1) as nat);
        lemma_byte_xor_triangle(a[n - 1], b[n - 1], c[n - 1]);
    }
}

/// The distance splits over concatenation: that of two joined pairs of equally
/// long pieces is the sum of the distances of the pieces.
pub proof fn lemma_hamming_concat(a1: Seq<u8>, b1: Seq<u8>, a2: Seq<u8>, b2: Seq<u8>)
    requires
        a1.len() == b1.len(),
        a2.len() == b2.len(),
    ensures
        hamming(a1 + a2, b1 + b2) == hamming(a1, b1) + hamming(a2, b2),
{
    lemma_prefix_concat(a1, b1, a2, b2, a2.len());
}

proof fn lemma_prefix_concat(a1: Seq<u8>, b1: Seq<u8>, a2: Seq<u8>, b2: Seq<u8>, n: nat)
    requires
        a1.len() == b1.len(),
        n <= a2.len(),
        n <= b2.len(),
    ensures
        hamming_prefix(a1 + a2, b1 + b2, a1.len() + n) == hamming(a1, b1) + hamming_prefix(a2, b2, n),
    decreases n,
{
    if n == 0 {
        lemma_prefix_agree(a1 + a2, b1 + b2, a1, b1, a1.len());
    } else {
        lemma_prefix_concat(a1, b1, a2, b2, (n - 1) as nat);
        assert((a1 + a2)[a1.len() + n - 1] == a2[n - 1]);
        assert((b1 + b2)[a1.len() + n - 1] == b2[n - 1]);
    }
}

/// A prefix distance only reads the bytes below its length.
proof fn lemma_prefix_agree(a: Seq<u8>, b: Seq<u8>, c: Seq<u8>, d: Seq<u8>, n: nat)
    requires
        n <= a.len(),
        n <= b.len(),
        n <= c.len(),
        n <= d.len(),
        forall|i: int| 0 <= i < n ==> a[i] == c[i] && b[i] == d[i],
    ensures
        hamming_prefix(a, b, n) == hamming_prefix(c, d, n),
    decreases n,
{
    if n > 0 {
        lemma_prefix_agree(a, b, c, d, (n - 1) as nat);
        assert(a[n - 1] == c[n - 1] && b[n - 1] == d[n - 1]);
    }
}

} // verus!
