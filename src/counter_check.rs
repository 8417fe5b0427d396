//! Checking that a stream of little-endian 32-bit words counts up without a gap.

use crate::byte_order::{le32_at, read_le_u32};
use vstd::prelude::*;

verus! {

/// Word `i` of a stream read as little-endian 32-bit numbers.
pub open spec fn word(b: Seq<u8>, i: int) -> u32 {
    le32_at(b, 4 * i) as u32
}

/// The number after `x`, wrapping at the top.
pub open spec fn successor(x: u32) -> u32 {
    if x == u32::MAX {
        0
    } else {
        (x + 1) as u32
    }
}

/// The word before word `i`: the last word of the previous buffer for the first one.
pub open spec fn previous(b: Seq<u8>, last: u32, i: int) -> u32 {
    if i == 0 {
        last
    } else {
        word(b, i - 1)
    }
}

/// Among the first `n` words, how many do not follow the word before them.
pub open spec fn gaps(b: Seq<u8>, last: u32, n: nat) -> nat
    decreases n,
{
    if n == 0 {
        0
    } else {
        gaps(b, last, (n - 1) as nat) + if word(b, n - 1) != successor(previous(b, last, n - 1)) {
            1nat
        } else {
            0nat
        }
    }
}

/// Checks a buffer of an incrementing counter, whose previous word was `last`: counts the
/// words that do not follow the one before them, and gives the buffer's last word. Bytes past
/// the last whole word are not looked at.
pub fn count_counter_gaps(buf: &[u8], last: u32) -> (r: (usize, u32))
    ensures
        r.0 == gaps(buf@, last, buf@.len() / 4),
        r.1 == previous(buf@, last, (buf@.len() / 4) as int),
{
    let len = buf.len();
    let n = len / 4;
    let mut count: usize = 0;
    let mut prev = last;
    let mut i: usize = 0;
    while i < n
        invariant
            len == buf@.len(),
            n == len / 4,
            i <= n,
            count <= i,
            count == gaps(buf@, last, i as nat),
            prev == previous(buf@, last, i as int),
        decreases n - i,
    {
        assert(4 * i + 4 <= len) by (nonlinear_arith)
            requires
                i < n,
                n == len / 4,
        ;
        let w = read_le_u32(buf, 4 * i);
        let expected = prev.wrapping_add(1);
        if w != expected {
            count = count + 1;
        }
        prev = w;
        i = i + 1;
    }
    (count, prev)
}

} // verus!
