//! Reference implementations of the distance, kept for comparison with the
//! word-at-a-time one: byte by byte, as a fold, and eight bytes at a time with
//! one accumulator.
use vstd::prelude::*;

verus! {

use crate::hamming::{hamming, hamming_prefix, lemma_chunk_distance, lemma_hamming_prefix_monotonic};

/// The bitwise Hamming distance, one byte at a time.
pub fn naive_hamming_distance(x: &[u8], y: &[u8]) -> (d: u64)
    requires
        x@.len() == y@.len(),
        hamming(x@, y@) <= u32::MAX,
    ensures
        d == hamming(x@, y@),
{
    let mut distance: u32 = 0;
    for i in 0..x.len()
        invariant
            x@.len() == y@.len(),
            distance == hamming_prefix(x@, y@, i as nat),
            hamming(x@, y@) <= u32::MAX,
    {
        proof {
            lemma_hamming_prefix_monotonic(x@, y@, (i + 1) as nat, x@.len());
        }
        distance += (x[i] ^ y[i]).count_ones();
    }
    distance as u64
}

/// The bitwise Hamming distance, as a left fold over the pairs of bytes.
pub fn naive_hamming_distance_iter(x: &[u8], y: &[u8]) -> (d: u64)
    requires
        x@.len() == y@.len(),
        hamming(x@, y@) <= u32::MAX,
    ensures
        d == hamming(x@, y@),
{
    let n = x.len();
    let mut acc: u32 = 0;
    let mut i: usize = 0;
    while i < n
        invariant
            n == x@.len(),
            n == y@.len(),
            i <= n,
            acc == hamming_prefix(x@, y@, i as nat),
            hamming(x@, y@) <= u32::MAX,
        decreases n - i,
    {
        proof {
            lemma_hamming_prefix_monotonic(x@, y@, (i + 1) as nat, n as nat);
        }
        acc = acc + (x[i] ^ y[i]).count_ones();
        i = i + 1;
    }
    acc as u64
}

/// The bitwise Hamming distance, eight bytes at a time read as native words,
/// then the remaining bytes one by one, all into one accumulator.
pub fn hamming_distance_auto_vectorized(x: &[u8], y: &[u8]) -> (d: u64)
    requires
        x@.len() == y@.len(),
        hamming(x@, y@) <= u32::MAX,
    ensures
        d == hamming(x@, y@),
{
    let n = x.len();
    let full: usize = n - n % 8;
    let mut distance: u32 = 0;
    let mut i: usize = 0;
    while i < full
        invariant
            n == x@.len(),
            n == y@.len(),
            full <= n,
            full % 8 == 0,
            i % 8 == 0,
            i <= full,
            distance == hamming_prefix(x@, y@, i as nat),
            hamming(x@, y@) <= u32::MAX,
        decreases full - i,
    {
        let x_val = crate::load_word(x, i);
        let y_val = crate::load_word(y, i);
        proof {
            lemma_chunk_distance(x@, y@, i as int);
            lemma_hamming_prefix_monotonic(x@, y@, (i + 8) as nat, n as nat);
        }
        distance += (x_val ^ y_val).count_ones();
        i = i + 8;
    }
    while i < n
        invariant
            n == x@.len(),
            n == y@.len(),
            i <= n,
            distance == hamming_prefix(x@, y@, i as nat),
            hamming(x@, y@) <= u32::MAX,
        decreases n - i,
    {
        proof {
            lemma_hamming_prefix_monotonic(x@, y@, (i + 1) as nat, n as nat);
        }
        distance += (x[i] ^ y[i]).count_ones();
        i = i + 1;
    }
    distance as u64
}

} // verus!
