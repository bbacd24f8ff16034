//! What the library takes from std without proof: population counts and the
//! native-endian reading of eight bytes as one word.
use vstd::prelude::*;

verus! {

use crate::popcount::{bit_count, native_word};

/// `u8::count_ones`: std documents it as the number of ones in the binary
/// representation of the byte, which is `bit_count` of its value.
pub assume_specification[ u8::count_ones ](i: u8) -> (r: u32)
    ensures
        r == bit_count(i as nat),
;

/// `u64::count_ones`: std documents it as the number of ones in the binary
/// representation of the word, which is `bit_count` of its value.
pub assume_specification[ u64::count_ones ](i: u64) -> (r: u32)
    ensures
        r == bit_count(i as nat),
;

/// Reads eight bytes as one word through `u64::from_ne_bytes`.
///
/// std documents that call as `from_le_bytes` on a little-endian target and
/// `from_be_bytes` on a big-endian one. The contract states it through
/// `native_word`, which picks between the two by vstd's `endianness()`, the
/// byte order of the machine that runs the code. It leaves unsaid which of
/// the two orders the machine has.
#[verifier::external_body]
pub(crate) fn u64_from_ne_bytes(bytes: [u8; 8]) -> (r: u64)
    ensures
        r == native_word(
            bytes@[0], bytes@[1], bytes@[2], bytes@[3], bytes@[4], bytes@[5], bytes@[6], bytes@[7],
        ),
{
    u64::from_ne_bytes(bytes)
}

} // verus!
