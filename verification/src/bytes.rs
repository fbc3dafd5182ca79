//! Numbers as bytes, the low one first.

use vstd::prelude::*;

verus! {

/// The number that two bytes write, the low one first.
pub open spec fn le16(bytes: Seq<u8>, at: int) -> int {
    bytes[at] + 256 * bytes[at + 1]
}

/// The number that four bytes write, the low one first.
pub open spec fn le32(bytes: Seq<u8>, at: int) -> int {
    le16(bytes, at) + 65536 * le16(bytes, at + 2)
}

/// The two bytes of a number, the low one first.
pub open spec fn le16_bytes(n: int) -> Seq<u8> {
    seq![(n % 256) as u8, (n / 256 % 256) as u8]
}

pub open spec fn le32_bytes(n: int) -> Seq<u8> {
    le16_bytes(n % 65536) + le16_bytes(n / 65536)
}

/// The number that eight bytes write, the low one first.
#[verifier::opaque]
pub open spec fn le64(bytes: Seq<u8>, at: int) -> int {
    le32(bytes, at) + 0x1_0000_0000 * le32(bytes, at + 4)
}

#[verifier::opaque]
pub open spec fn le64_bytes(n: int) -> Seq<u8> {
    le32_bytes(n % 0x1_0000_0000) + le32_bytes(n / 0x1_0000_0000)
}

/// Writing a number and reading it gives it back.
pub proof fn law_le_round_trip(n: int)
    ensures
        0 <= n < 65536 ==> le16(le16_bytes(n), 0) == n,
        0 <= n < 0x1_0000_0000 ==> le32(le32_bytes(n), 0) == n,
{
    if 0 <= n < 0x1_0000_0000 {
        let low = le16_bytes(n % 65536);
        let high = le16_bytes(n / 65536);
        assert(le32_bytes(n)[0] == low[0]);
        assert(le32_bytes(n)[1] == low[1]);
        assert(le32_bytes(n)[2] == high[0]);
        assert(le32_bytes(n)[3] == high[1]);
    }
}

/// Writing a number of eight bytes and reading it gives it back.
pub proof fn law_le64_round_trip(n: int)
    requires
        0 <= n < 0x1_0000_0000_0000_0000,
    ensures
        le64(le64_bytes(n), 0) == n,
        le64_bytes(n).len() == 8,
{
    reveal(le64);
    reveal(le64_bytes);
    let low = le32_bytes(n % 0x1_0000_0000);
    let high = le32_bytes(n / 0x1_0000_0000);
    let all = le64_bytes(n);
    law_le_round_trip(n % 0x1_0000_0000);
    law_le_round_trip(n / 0x1_0000_0000);
    assert(low.len() == 4 && high.len() == 4);
    assert(all[0] == low[0] && all[1] == low[1] && all[2] == low[2] && all[3] == low[3]);
    assert(all[4] == high[0] && all[5] == high[1] && all[6] == high[2] && all[7] == high[3]);
}

pub fn read_u16(bytes: &[u8], at: usize) -> (r: u16)
    requires
        at + 2 <= bytes.len(),
    ensures
        r == le16(bytes@, at as int),
{
    bytes[at] as u16 + 256 * bytes[at + 1] as u16
}

pub fn push_u16(out: &mut Vec<u8>, n: u16)
    ensures
        final(out)@ == old(out)@ + le16_bytes(n as int),
{
    let ghost before = out@;
    out.push((n % 256) as u8);
    out.push((n / 256) as u8);
    assert(out@ =~= before + le16_bytes(n as int));
}

pub fn push_u32(out: &mut Vec<u8>, n: u32)
    ensures
        final(out)@ == old(out)@ + le32_bytes(n as int),
{
    let ghost before = out@;
    push_u16(out, (n % 65536) as u16);
    push_u16(out, (n / 65536) as u16);
    assert(out@ =~= before + le32_bytes(n as int));
}

pub fn read_u64(bytes: &[u8], at: usize) -> (r: u64)
    requires
        at + 8 <= bytes.len(),
    ensures
        r == le64(bytes@, at as int),
{
    reveal(le64);
    let a: u64 = read_u16(bytes, at) as u64;
    let b: u64 = read_u16(bytes, at + 2) as u64;
    let c: u64 = read_u16(bytes, at + 4) as u64;
    let d: u64 = read_u16(bytes, at + 6) as u64;
    (a + 65536 * b) + 0x1_0000_0000 * (c + 65536 * d)
}

pub fn push_u64(out: &mut Vec<u8>, n: u64)
    ensures
        final(out)@ == old(out)@ + le64_bytes(n as int),
{
    let ghost before = out@;
    push_u32(out, (n % 0x1_0000_0000) as u32);
    push_u32(out, (n / 0x1_0000_0000) as u32);
    reveal(le64_bytes);
    assert(out@ =~= before + le64_bytes(n as int));
}

/// A number stands where it was written, whatever is around it.
pub proof fn law_le64_in_place(before: Seq<u8>, n: int, after: Seq<u8>)
    requires
        0 <= n < 0x1_0000_0000_0000_0000,
    ensures
        le64(before + le64_bytes(n) + after, before.len() as int) == n,
{
    let all = before + le64_bytes(n) + after;
    let at = before.len() as int;
    law_le64_round_trip(n);
    assert(all.subrange(at, at + 8) =~= le64_bytes(n));
    law_le64_is_local(all, at);
}

/// A number depends on its own bytes alone.
pub proof fn law_le64_is_local(bytes: Seq<u8>, at: int)
    requires
        0 <= at,
        at + 8 <= bytes.len(),
    ensures
        le64(bytes, at) == le64(bytes.subrange(at, at + 8), 0),
{
    reveal(le64);
}

/// The byte at each place counts 256 times what the one before it counts.
pub proof fn law_low_bytes_come_first(bytes: Seq<u8>, at: int)
    ensures
        le16(bytes, at) == bytes[at] + 256 * bytes[at + 1],
        le32(bytes, at) == bytes[at] + 256 * bytes[at + 1] + 65536 * bytes[at + 2] + 16777216
            * bytes[at + 3],
        le64(bytes, at) == bytes[at] + 256 * bytes[at + 1] + 65536 * bytes[at + 2] + 16777216
            * bytes[at + 3] + 4294967296 * (bytes[at + 4] + 256 * bytes[at + 5] + 65536 * bytes[at
            + 6] + 16777216 * bytes[at + 7]),
{
    reveal(le64);
}

/// The first byte that is written is what is left over 256, for every width.
pub proof fn law_low_byte_is_written_first(n: int)
    requires
        0 <= n,
    ensures
        le16_bytes(n)[0] == n % 256,
        n < 65536 ==> le16_bytes(n)[1] == n / 256,
        le32_bytes(n)[0] == n % 256,
        le64_bytes(n)[0] == n % 256,
        le16_bytes(n).len() == 2,
        le32_bytes(n).len() == 4,
        le64_bytes(n).len() == 8,
{
    reveal(le64_bytes);
    assert((n % 65536) % 256 == n % 256);
    assert((n % 0x1_0000_0000) % 65536 % 256 == n % 256);
}

} // verus!
