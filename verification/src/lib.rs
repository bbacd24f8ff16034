//! Bitwise Hamming distance between byte vectors, computed eight bytes at a
//! time and proved equal to the sum of the per-byte population counts.
use vstd::prelude::*;

pub mod array;
pub mod hamming;
pub mod naive;
pub mod slice;
pub mod popcount;
mod native;

verus! {

use crate::hamming::{hamming, hamming_prefix, lemma_chunk_distance, lemma_hamming_prefix_monotonic};
use crate::native::u64_from_ne_bytes;
use crate::popcount::native_word;

/// The word held by the eight bytes of `s` from offset `i`, in the machine's
/// byte order.
pub(crate) fn load_word(s: &[u8], i: usize) -> (w: u64)
    requires
        i + 8 <= s@.len(),
    ensures
        w == native_word(
            s@[i + 0], s@[i + 1], s@[i + 2], s@[i + 3], s@[i + 4], s@[i + 5], s@[i + 6], s@[i + 7],
        ),
{
    let bytes: [u8; 8] = [s[i], s[i + 1], s[i + 2], s[i + 3], s[i + 4], s[i + 5], s[i + 6], s[i + 7]];
    u64_from_ne_bytes(bytes)
}

/// Distance of two equally long byte slices: whole eight-byte words first,
/// each as the population count of the XOR of the two words, then the bytes
/// that remain one at a time.
pub(crate) fn distance_impl(a: &[u8], b: &[u8]) -> (d: u32)
    requires
        a@.len() == b@.len(),
        hamming(a@, b@) <= u32::MAX,
    ensures
        d == hamming(a@, b@),
{
    let n = a.len();
    let full: usize = n - n % 8;
    let mut main: u32 = 0;
    let mut i: usize = 0;
    while i < full
        invariant
            n == a@.len(),
            n == b@.len(),
            full <= n,
            full % 8 == 0,
            i % 8 == 0,
            i <= full,
            main == hamming_prefix(a@, b@, i as nat),
            hamming(a@, b@) <= u32::MAX,
        decreases full - i,
    {
        let x = load_word(a, i);
        let y = load_word(b, i);
        proof {
            lemma_chunk_distance(a@, b@, i as int);
            lemma_hamming_prefix_monotonic(a@, b@, (i + 8) as nat, n as nat);
        }
        main = main + (x ^ y).count_ones();
        i = i + 8;
    }
    let mut rem: u32 = 0;
    while i < n
        invariant
            n == a@.len(),
            n == b@.len(),
            full <= i <= n,
            main == hamming_prefix(a@, b@, full as nat),
            main + rem == hamming_prefix(a@, b@, i as nat),
            hamming(a@, b@) <= u32::MAX,
        decreases n - i,
    {
        proof {
            lemma_hamming_prefix_monotonic(a@, b@, (i + 1) as nat, n as nat);
        }
        rem = rem + (a[i] ^ b[i]).count_ones();
        i = i + 1;
    }
    main + rem
}

/// The bitwise Hamming distance between two byte slices of equal length; the
/// same function as `slice::distance`, under the crate's name.
pub fn hamming_bitwise_fast(x: &[u8], y: &[u8]) -> (d: u32)
    requires
        x@.len() == y@.len(),
        hamming(x@, y@) <= u32::MAX,
    ensures
        d == hamming(x@, y@),
{
    slice::distance(x, y)
}

} // verus!
