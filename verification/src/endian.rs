//! Numbers as bytes, in the two byte orders that the protocol uses: low byte
//! first inside a message, high byte first in a frame's length prefix.

use vstd::arithmetic::div_mod::lemma_fundamental_div_mod_converse;
use vstd::prelude::*;

verus! {

/// The two bytes of `v`, low byte first.
pub open spec fn u16_le(v: u16) -> Seq<u8> {
    seq![(v % 256) as u8, (v / 256) as u8]
}

/// The four bytes of `v`, low byte first.
pub open spec fn u32_le(v: u32) -> Seq<u8> {
    seq![
        (v % 256) as u8,
        (v / 0x100 % 256) as u8,
        (v / 0x1_0000 % 256) as u8,
        (v / 0x100_0000) as u8,
    ]
}

/// The eight bytes of `v`, low byte first: its low half, then its high half.
pub open spec fn u64_le(v: u64) -> Seq<u8> {
    u32_le((v % 0x1_0000_0000) as u32) + u32_le((v / 0x1_0000_0000) as u32)
}

/// The number that the two bytes of `b` from `at` on spell, low byte first.
pub open spec fn le_u16(b: Seq<u8>, at: int) -> int {
    b[at] + b[at + 1] * 0x100
}

/// The number that the four bytes of `b` from `at` on spell, low byte first.
pub open spec fn le_u32(b: Seq<u8>, at: int) -> int {
    b[at] + b[at + 1] * 0x100 + b[at + 2] * 0x1_0000 + b[at + 3] * 0x100_0000
}

/// The number that the eight bytes of `b` from `at` on spell, low byte first.
pub open spec fn le_u64(b: Seq<u8>, at: int) -> int {
    le_u32(b, at) + le_u32(b, at + 4) * 0x1_0000_0000
}

/// The four bytes of `v`, high byte first.
pub open spec fn u32_be(v: u32) -> Seq<u8> {
    seq![
        (v / 0x100_0000) as u8,
        (v / 0x1_0000 % 256) as u8,
        (v / 0x100 % 256) as u8,
        (v % 256) as u8,
    ]
}

/// The number that the first four bytes of `b` spell, high byte first.
pub open spec fn be_u32(b: Seq<u8>) -> int {
    b[0] * 0x100_0000 + b[1] * 0x1_0000 + b[2] * 0x100 + b[3]
}

/// Appends the two bytes of `v`, low byte first.
pub(crate) fn push_u16_le(out: &mut Vec<u8>, v: u16)
    ensures
        final(out)@ == old(out)@ + u16_le(v),
{
    out.push((v % 256) as u8);
    out.push((v / 256) as u8);
    assert(out@ =~= old(out)@ + u16_le(v));
}

/// Appends the four bytes of `v`, low byte first.
pub(crate) fn push_u32_le(out: &mut Vec<u8>, v: u32)
    ensures
        final(out)@ == old(out)@ + u32_le(v),
{
    out.push((v % 256) as u8);
    out.push((v / 0x100 % 256) as u8);
    out.push((v / 0x1_0000 % 256) as u8);
    out.push((v / 0x100_0000) as u8);
    assert(out@ =~= old(out)@ + u32_le(v));
}

/// Appends the eight bytes of `v`, low byte first.
pub(crate) fn push_u64_le(out: &mut Vec<u8>, v: u64)
    ensures
        final(out)@ == old(out)@ + u64_le(v),
{
    push_u32_le(out, (v % 0x1_0000_0000) as u32);
    push_u32_le(out, (v / 0x1_0000_0000) as u32);
    assert(out@ =~= old(out)@ + u64_le(v));
}

/// Appends the four bytes of `v`, high byte first.
pub(crate) fn push_u32_be(out: &mut Vec<u8>, v: u32)
    ensures
        final(out)@ == old(out)@ + u32_be(v),
{
    out.push((v / 0x100_0000) as u8);
    out.push((v / 0x1_0000 % 256) as u8);
    out.push((v / 0x100 % 256) as u8);
    out.push((v % 256) as u8);
    assert(out@ =~= old(out)@ + u32_be(v));
}

/// Reads two bytes of `b` from `at` on as a number, low byte first.
pub(crate) fn read_u16_le(b: &[u8], at: usize) -> (v: u16)
    requires
        at + 2 <= b.len(),
    ensures
        v == le_u16(b@, at as int),
{
    b[at] as u16 + b[at + 1] as u16 * 0x100
}

/// Reads four bytes of `b` from `at` on as a number, low byte first.
pub(crate) fn read_u32_le(b: &[u8], at: usize) -> (v: u32)
    requires
        at + 4 <= b.len(),
    ensures
        v == le_u32(b@, at as int),
{
    b[at] as u32 + b[at + 1] as u32 * 0x100 + b[at + 2] as u32 * 0x1_0000 + b[at + 3] as u32
        * 0x100_0000
}

/// Reads eight bytes of `b` from `at` on as a number, low byte first.
pub(crate) fn read_u64_le(b: &[u8], at: usize) -> (v: u64)
    requires
        at + 8 <= b.len(),
    ensures
        v == le_u64(b@, at as int),
{
    read_u32_le(b, at) as u64 + read_u32_le(b, at + 4) as u64 * 0x1_0000_0000
}

/// The bytes written for a 16-bit number spell that number, wherever they
/// stand in `b`.
pub proof fn lemma_le_u16_reads_back(b: Seq<u8>, at: int, v: u16)
    requires
        0 <= at,
        at + 2 <= b.len(),
        b.subrange(at, at + 2) == u16_le(v),
    ensures
        le_u16(b, at) == v,
{
    let w = b.subrange(at, at + 2);
    assert(b[at] == w[0] && b[at + 1] == w[1]);
}

/// The bytes written for a 32-bit number spell that number, wherever they
/// stand in `b`.
pub proof fn lemma_le_u32_reads_back(b: Seq<u8>, at: int, v: u32)
    requires
        0 <= at,
        at + 4 <= b.len(),
        b.subrange(at, at + 4) == u32_le(v),
    ensures
        le_u32(b, at) == v,
{
    let w = b.subrange(at, at + 4);
    assert(b[at] == w[0] && b[at + 1] == w[1] && b[at + 2] == w[2] && b[at + 3] == w[3]);
}

/// The bytes written for a 64-bit number spell that number, wherever they
/// stand in `b`.
pub proof fn lemma_le_u64_reads_back(b: Seq<u8>, at: int, v: u64)
    requires
        0 <= at,
        at + 8 <= b.len(),
        b.subrange(at, at + 8) == u64_le(v),
    ensures
        le_u64(b, at) == v,
{
    let lo = (v % 0x1_0000_0000) as u32;
    let hi = (v / 0x1_0000_0000) as u32;
    assert(b.subrange(at, at + 4) =~= u32_le(lo)) by {
        assert(b.subrange(at, at + 4) =~= b.subrange(at, at + 8).subrange(0, 4));
    }
    assert(b.subrange(at + 4, at + 8) =~= u32_le(hi)) by {
        assert(b.subrange(at + 4, at + 8) =~= b.subrange(at, at + 8).subrange(4, 8));
    }
    lemma_le_u32_reads_back(b, at, lo);
    lemma_le_u32_reads_back(b, at + 4, hi);
}

/// The four bytes written high byte first spell the number they were
/// written for.
pub proof fn lemma_be_u32_reads_back(b: Seq<u8>, v: u32)
    requires
        4 <= b.len(),
        b.subrange(0, 4) == u32_be(v),
    ensures
        be_u32(b) == v,
{
    let w = b.subrange(0, 4);
    assert(b[0] == w[0] && b[1] == w[1] && b[2] == w[2] && b[3] == w[3]);
}

/// The digits of a number in base 256 are found again by dividing.
proof fn lemma_base_256_digits(b0: int, b1: int, b2: int, b3: int)
    requires
        0 <= b0 < 256,
        0 <= b1 < 256,
        0 <= b2 < 256,
        0 <= b3 < 256,
    ensures
        ({
            let v = b0 + b1 * 0x100 + b2 * 0x1_0000 + b3 * 0x100_0000;
            &&& 0 <= v <= u32::MAX
            &&& v % 256 == b0
            &&& v / 0x100 % 256 == b1
            &&& v / 0x1_0000 % 256 == b2
            &&& v / 0x100_0000 == b3
        }),
{
    let v = b0 + b1 * 0x100 + b2 * 0x1_0000 + b3 * 0x100_0000;
    let w1 = b1 + b2 * 0x100 + b3 * 0x1_0000;
    let w2 = b2 + b3 * 0x100;
    lemma_fundamental_div_mod_converse(v, 0x100, w1, b0);
    lemma_fundamental_div_mod_converse(w1, 0x100, w2, b1);
    lemma_fundamental_div_mod_converse(v, 0x1_0000, w2, b0 + b1 * 0x100);
    lemma_fundamental_div_mod_converse(w2, 0x100, b3, b2);
    lemma_fundamental_div_mod_converse(v, 0x100_0000, b3, b0 + b1 * 0x100 + b2 * 0x1_0000);
}

/// Writing out the number that four bytes spell gives those bytes.
pub proof fn lemma_u32_le_writes_back(b: Seq<u8>, at: int)
    requires
        0 <= at,
        at + 4 <= b.len(),
    ensures
        0 <= le_u32(b, at) <= u32::MAX,
        u32_le(le_u32(b, at) as u32) == b.subrange(at, at + 4),
{
    lemma_base_256_digits(b[at] as int, b[at + 1] as int, b[at + 2] as int, b[at + 3] as int);
    assert(u32_le(le_u32(b, at) as u32) =~= b.subrange(at, at + 4));
}

/// Writing out the number that two bytes spell gives those bytes.
pub proof fn lemma_u16_le_writes_back(b: Seq<u8>, at: int)
    requires
        0 <= at,
        at + 2 <= b.len(),
    ensures
        0 <= le_u16(b, at) <= u16::MAX,
        u16_le(le_u16(b, at) as u16) == b.subrange(at, at + 2),
{
    assert(u16_le(le_u16(b, at) as u16) =~= b.subrange(at, at + 2));
}

/// Writing out the number that eight bytes spell gives those bytes.
pub proof fn lemma_u64_le_writes_back(b: Seq<u8>, at: int)
    requires
        0 <= at,
        at + 8 <= b.len(),
    ensures
        0 <= le_u64(b, at) <= u64::MAX,
        u64_le(le_u64(b, at) as u64) == b.subrange(at, at + 8),
{
    lemma_u32_le_writes_back(b, at);
    lemma_u32_le_writes_back(b, at + 4);
    let v = le_u64(b, at) as u64;
    lemma_fundamental_div_mod_converse(
        le_u64(b, at),
        0x1_0000_0000,
        le_u32(b, at + 4),
        le_u32(b, at),
    );
    assert(u64_le(v) =~= b.subrange(at, at + 4) + b.subrange(at + 4, at + 8));
    assert(b.subrange(at, at + 4) + b.subrange(at + 4, at + 8) =~= b.subrange(at, at + 8));
}

} // verus!
