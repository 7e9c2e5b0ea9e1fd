//! Numbers of the record format: 32 bits, least significant byte first.

use vstd::prelude::*;

verus! {

/// The number of bytes that a number of the format takes.
pub const NUMBER_SIZE: usize = 4;

/// The number that the first four bytes of `s` spell, least significant byte
/// first.
#[verifier::opaque]
pub open spec fn le_u32(s: Seq<u8>) -> int
    recommends
        s.len() >= 4,
{
    s[0] as int + s[1] as int * 0x100 + s[2] as int * 0x1_0000 + s[3] as int * 0x100_0000
}

/// The four bytes that spell `n`, least significant byte first.
#[verifier::opaque]
pub open spec fn le_bytes(n: u32) -> Seq<u8> {
    seq![
        (n % 0x100) as u8,
        (n / 0x100 % 0x100) as u8,
        (n / 0x1_0000 % 0x100) as u8,
        (n / 0x100_0000) as u8,
    ]
}

/// Four bytes spell a number below 2^32, and it is the number they were made
/// from.
pub proof fn lemma_le_round_trip(n: u32)
    ensures
        le_bytes(n).len() == 4,
        le_u32(le_bytes(n)) == n,
{
    reveal(le_u32);
    reveal(le_bytes);
}

/// Only the first four bytes count.
pub proof fn lemma_le_prefix(s: Seq<u8>, t: Seq<u8>)
    requires
        s.len() >= 4,
        t.len() >= 4,
        s.subrange(0, 4) == t.subrange(0, 4),
    ensures
        le_u32(s) == le_u32(t),
        0 <= le_u32(s) <= u32::MAX,
{
    reveal(le_u32);
    assert(s[0] == s.subrange(0, 4)[0] && s[1] == s.subrange(0, 4)[1] && s[2] == s.subrange(0, 4)[2]
        && s[3] == s.subrange(0, 4)[3]);
    assert(t[0] == t.subrange(0, 4)[0] && t[1] == t.subrange(0, 4)[1] && t[2] == t.subrange(0, 4)[2]
        && t[3] == t.subrange(0, 4)[3]);
}

/// Reads the number at the start of `slice` with `molecule::unpack_number`.
///
/// Taken on trust of that function: it reads the first four bytes, least
/// significant byte first. It panics on a shorter slice, which is ruled out.
#[verifier::external_body]
pub(crate) fn unpack_number(slice: &[u8]) -> (n: u32)
    requires
        slice@.len() >= 4,
    ensures
        n == le_u32(slice@),
{
    molecule::unpack_number(slice)
}

/// Spells `num` as four bytes with `molecule::pack_number`.
///
/// Taken on trust of that function: the bytes are those of the number, least
/// significant byte first.
#[verifier::external_body]
pub(crate) fn pack_number(num: u32) -> (bytes: [u8; 4])
    ensures
        bytes@ == le_bytes(num),
{
    molecule::pack_number(num)
}

} // verus!
