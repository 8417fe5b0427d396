//! Little-endian integers, read and written through byteorder.

use byteorder::{ByteOrder, LittleEndian};
use vstd::prelude::*;

verus! {

/// The two bytes of `n`, least significant first.
pub open spec fn le16(n: u16) -> Seq<u8> {
    seq![(n % 256) as u8, (n / 256) as u8]
}

/// The four bytes of `n`, least significant first.
pub open spec fn le32(n: u32) -> Seq<u8> {
    seq![
        (n % 256) as u8,
        ((n / 256) % 256) as u8,
        ((n / 65536) % 256) as u8,
        (n / 16777216) as u8,
    ]
}

/// The number that two bytes at `at` encode, least significant first.
pub open spec fn le16_at(b: Seq<u8>, at: int) -> int {
    b[at] as int + 256 * b[at + 1] as int
}

/// The number that four bytes at `at` encode, least significant first.
pub open spec fn le32_at(b: Seq<u8>, at: int) -> int {
    b[at] as int + 256 * b[at + 1] as int + 65536 * b[at + 2] as int + 16777216 * b[at + 3] as int
}

/// Relies on `LittleEndian::read_u16` of byteorder: the first two bytes of the slice, least
/// significant first (it panics on a shorter slice).
#[verifier::external_body]
pub(crate) fn read_le_u16(b: &[u8], at: usize) -> (r: u16)
    requires
        at + 2 <= b@.len(),
    ensures
        r as int == le16_at(b@, at as int),
{
    LittleEndian::read_u16(&b[at..])
}

/// Relies on `LittleEndian::read_u32` of byteorder: the first four bytes of the slice, least
/// significant first (it panics on a shorter slice).
#[verifier::external_body]
pub(crate) fn read_le_u32(b: &[u8], at: usize) -> (r: u32)
    requires
        at + 4 <= b@.len(),
    ensures
        r as int == le32_at(b@, at as int),
{
    LittleEndian::read_u32(&b[at..])
}

/// Relies on `LittleEndian::write_u16` of byteorder: it stores `n` in two bytes, least
/// significant first.
#[verifier::external_body]
fn le_bytes_u16(n: u16) -> (r: [u8; 2])
    ensures
        r@ == le16(n),
{
    let mut b = [0u8; 2];
    LittleEndian::write_u16(&mut b, n);
    b
}

/// Relies on `LittleEndian::write_u32` of byteorder: it stores `n` in four bytes, least
/// significant first.
#[verifier::external_body]
fn le_bytes_u32(n: u32) -> (r: [u8; 4])
    ensures
        r@ == le32(n),
{
    let mut b = [0u8; 4];
    LittleEndian::write_u32(&mut b, n);
    b
}

/// Appends the two bytes of `n` to `out`, least significant first.
pub(crate) fn push_le_u16(out: &mut Vec<u8>, n: u16)
    ensures
        final(out)@ == old(out)@ + le16(n),
{
    let b = le_bytes_u16(n);
    out.push(b[0]);
    out.push(b[1]);
    assert(out@ =~= old(out)@ + le16(n));
}

/// Appends the four bytes of `n` to `out`, least significant first.
pub(crate) fn push_le_u32(out: &mut Vec<u8>, n: u32)
    ensures
        final(out)@ == old(out)@ + le32(n),
{
    let b = le_bytes_u32(n);
    out.push(b[0]);
    out.push(b[1]);
    out.push(b[2]);
    out.push(b[3]);
    assert(out@ =~= old(out)@ + le32(n));
}

/// Reading back what was written gives the number again.
pub proof fn lemma_le16_round_trip(n: u16)
    ensures
        le16_at(le16(n), 0) == n as int,
{
}

/// Reading back what was written gives the number again.
pub proof fn lemma_le32_round_trip(n: u32)
    ensures
        le32_at(le32(n), 0) == n as int,
{
}

} // verus!
