//! Hamming distance over byte slices whose length is known only at run time.
use vstd::prelude::*;

verus! {

use crate::hamming::hamming;

/// The bitwise Hamming distance between two byte slices of equal length: the
/// number of bit positions in which they differ.
pub fn distance(a: &[u8], b: &[u8]) -> (d: u32)
    requires
        a@.len() == b@.len(),
        hamming(a@, b@) <= u32::MAX,
    ensures
        d == hamming(a@, b@),
{
    crate::distance_impl(a, b)
}

/// The distance from one source to each of many targets: entry `i` of `out`
/// becomes the distance from `source` to `targets[i]`.
pub fn batch(source: &[u8], targets: &[&[u8]], out: &mut [u32])
    requires
        targets@.len() == old(out)@.len(),
        forall|i: int| 0 <= i < targets@.len() ==> (#[trigger] targets@[i])@.len() == source@.len(),
        forall|i: int| 0 <= i < targets@.len() ==> hamming(source@, (#[trigger] targets@[i])@) <= u32::MAX,
    ensures
        final(out)@.len() == old(out)@.len(),
        forall|i: int| 0 <= i < targets@.len() ==> final(out)@[i] == hamming(source@, (#[trigger] targets@[i])@),
{
    let n = targets.len();
    let mut i: usize = 0;
    while i < n
        invariant
            n == targets@.len(),
            out@.len() == n,
            i <= n,
            forall|k: int| 0 <= k < n ==> (#[trigger] targets@[k])@.len() == source@.len(),
            forall|k: int| 0 <= k < n ==> hamming(source@, (#[trigger] targets@[k])@) <= u32::MAX,
            forall|k: int| 0 <= k < i ==> out@[k] == hamming(source@, (#[trigger] targets@[k])@),
        decreases n - i,
    {
        let target: &[u8] = targets[i];
        out[i] = crate::distance_impl(source, target);
        i = i + 1;
    }
}

} // verus!
