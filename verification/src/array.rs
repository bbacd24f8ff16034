//! Hamming distance over byte arrays whose length is fixed at compile time.
use vstd::prelude::*;

verus! {

use crate::hamming::hamming;

/// The bitwise Hamming distance between two byte arrays of the same length.
pub fn distance<const N: usize>(a: &[u8; N], b: &[u8; N]) -> (d: u32)
    requires
        hamming(a@, b@) <= u32::MAX,
    ensures
        d == hamming(a@, b@),
{
    crate::distance_impl(a, b)
}

/// The distance from one source array to each of many target arrays: entry
/// `i` of `out` becomes the distance from `source` to `targets[i]`.
pub fn batch<const N: usize>(source: &[u8; N], targets: &[[u8; N]], out: &mut [u32])
    requires
        targets@.len() == old(out)@.len(),
        forall|i: int| 0 <= i < targets@.len() ==> hamming(source@, (#[trigger] targets@[i])@) <= u32::MAX,
    ensures
        final(out)@.len() == old(out)@.len(),
        forall|i: int| 0 <= i < targets@.len() ==> final(out)@[i] == hamming(source@, (#[trigger] targets@[i])@),
{
    let n = targets.len();
    let mut i: usize = 0;
    while i < n
        invariant
            n == targets@.len(),
            out@.len() == n,
            i <= n,
            forall|k: int| 0 <= k < n ==> hamming(source@, (#[trigger] targets@[k])@) <= u32::MAX,
            forall|k: int| 0 <= k < i ==> out@[k] == hamming(source@, (#[trigger] targets@[k])@),
        decreases n - i,
    {
        let target: &[u8; N] = &targets[i];
        out[i] = crate::distance_impl(source, target);
        i = i + 1;
    }
}

} // verus!
