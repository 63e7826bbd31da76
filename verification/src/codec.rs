//! Little-endian byte encodings of the fixed-width integers used by the
//! wire protocol, with round-trip proofs.
//!
//! Every multi-byte integer on the wire is little-endian. A signed 64-bit
//! value travels as the two's-complement bit pattern of its unsigned cast.

use vstd::prelude::*;

verus! {

pub open spec fn u16_le(v: u16) -> Seq<u8> {
    seq![(v % 256) as u8, (v / 256) as u8]
}

pub open spec fn u16_from_le(s: Seq<u8>) -> u16
    recommends
        s.len() == 2,
{
    (s[0] + s[1] * 256) as u16
}

pub open spec fn u32_le(v: u32) -> Seq<u8> {
    seq![
        (v % 256) as u8,
        ((v / 256) % 256) as u8,
        ((v / 0x1_0000) % 256) as u8,
        (v / 0x100_0000) as u8,
    ]
}

pub open spec fn u32_from_le(s: Seq<u8>) -> u32
    recommends
        s.len() == 4,
{
    (s[0] + s[1] * 256 + s[2] * 0x1_0000 + s[3] * 0x100_0000) as u32
}

pub open spec fn u64_le(v: u64) -> Seq<u8> {
    seq![
        (v % 256) as u8,
        ((v / 256) % 256) as u8,
        ((v / 0x1_0000) % 256) as u8,
        ((v / 0x100_0000) % 256) as u8,
        ((v / 0x1_0000_0000) % 256) as u8,
        ((v / 0x100_0000_0000) % 256) as u8,
        ((v / 0x1_0000_0000_0000) % 256) as u8,
        (v / 0x100_0000_0000_0000) as u8,
    ]
}

pub open spec fn u64_from_le(s: Seq<u8>) -> u64
    recommends
        s.len() == 8,
{
    (s[0] + s[1] * 256 + s[2] * 0x1_0000 + s[3] * 0x100_0000 + s[4] * 0x1_0000_0000 + s[5]
        * 0x100_0000_0000 + s[6] * 0x1_0000_0000_0000 + s[7] * 0x100_0000_0000_0000) as u64
}

pub open spec fn i64_le(v: i64) -> Seq<u8> {
    u64_le(v as u64)
}

pub open spec fn i64_from_le(s: Seq<u8>) -> i64
    recommends
        s.len() == 8,
{
    u64_from_le(s) as i64
}

pub proof fn lemma_u16_le_roundtrip(v: u16)
    ensures
        u16_le(v).len() == 2,
        u16_from_le(u16_le(v)) == v,
{
    assert((v % 256) + (v / 256) * 256 == v) by (nonlinear_arith);
}

pub proof fn lemma_u32_le_roundtrip(v: u32)
    ensures
        u32_le(v).len() == 4,
        u32_from_le(u32_le(v)) == v,
{
    assert((v % 256) + ((v / 256) % 256) * 256 + ((v / 0x1_0000) % 256) * 0x1_0000 + (v
        / 0x100_0000) * 0x100_0000 == v) by (bit_vector);
}

pub proof fn lemma_u64_le_roundtrip(v: u64)
    ensures
        u64_le(v).len() == 8,
        u64_from_le(u64_le(v)) == v,
{
    assert((v % 256) + ((v / 256) % 256) * 256 + ((v / 0x1_0000) % 256) * 0x1_0000 + ((v
        / 0x100_0000) % 256) * 0x100_0000 + ((v / 0x1_0000_0000) % 256) * 0x1_0000_0000 + ((v
        / 0x100_0000_0000) % 256) * 0x100_0000_0000 + ((v / 0x1_0000_0000_0000) % 256)
        * 0x1_0000_0000_0000 + (v / 0x100_0000_0000_0000) * 0x100_0000_0000_0000 == v)
        by (bit_vector);
}

pub proof fn lemma_i64_le_roundtrip(v: i64)
    ensures
        i64_le(v).len() == 8,
        i64_from_le(i64_le(v)) == v,
{
    lemma_u64_le_roundtrip(v as u64);
    assert((v as u64) as i64 == v) by (bit_vector);
}

/// Appends the two little-endian bytes of `v`.
pub fn write_u16_le(out: &mut Vec<u8>, v: u16)
    ensures
        final(out)@ == old(out)@ + u16_le(v),
{
    out.push((v % 256) as u8);
    out.push((v / 256) as u8);
    assert(final(out)@ =~= old(out)@ + u16_le(v));
}

/// Appends the four little-endian bytes of `v`.
pub fn write_u32_le(out: &mut Vec<u8>, v: u32)
    ensures
        final(out)@ == old(out)@ + u32_le(v),
{
    out.push((v % 256) as u8);
    out.push(((v / 256) % 256) as u8);
    out.push(((v / 0x1_0000) % 256) as u8);
    out.push((v / 0x100_0000) as u8);
    assert(final(out)@ =~= old(out)@ + u32_le(v));
}

/// Appends the eight little-endian bytes of `v`.
pub fn write_u64_le(out: &mut Vec<u8>, v: u64)
    ensures
        final(out)@ == old(out)@ + u64_le(v),
{
    out.push((v % 256) as u8);
    out.push(((v / 256) % 256) as u8);
    out.push(((v / 0x1_0000) % 256) as u8);
    out.push(((v / 0x100_0000) % 256) as u8);
    out.push(((v / 0x1_0000_0000) % 256) as u8);
    out.push(((v / 0x100_0000_0000) % 256) as u8);
    out.push(((v / 0x1_0000_0000_0000) % 256) as u8);
    out.push((v / 0x100_0000_0000_0000) as u8);
    assert(final(out)@ =~= old(out)@ + u64_le(v));
}

/// Appends the eight little-endian bytes of the two's-complement image of
/// `v`.
pub fn write_i64_le(out: &mut Vec<u8>, v: i64)
    ensures
        final(out)@ == old(out)@ + i64_le(v),
{
    write_u64_le(out, v as u64);
}

/// Reads two little-endian bytes starting at `off`.
pub fn read_u16_le(b: &Vec<u8>, off: usize) -> (r: u16)
    requires
        off + 2 <= b@.len(),
    ensures
        r == u16_from_le(b@.subrange(off as int, off + 2)),
{
    let n = b.len();
    assert(off + 2 <= n);
    let r: u16 = (b[off] as u16) + (b[off + 1] as u16) * 256;
    proof {
        let s = b@.subrange(off as int, off + 2);
        assert(s[0] == b@[off as int] && s[1] == b@[off as int + 1]);
    }
    r
}

/// Reads four little-endian bytes starting at `off`.
pub fn read_u32_le(b: &Vec<u8>, off: usize) -> (r: u32)
    requires
        off + 4 <= b@.len(),
    ensures
        r == u32_from_le(b@.subrange(off as int, off + 4)),
{
    let n = b.len();
    assert(off + 4 <= n);
    let r: u32 = (b[off] as u32) + (b[off + 1] as u32) * 256 + (b[off + 2] as u32) * 0x1_0000 + (
    b[off + 3] as u32) * 0x100_0000;
    proof {
        let s = b@.subrange(off as int, off + 4);
        assert(s[0] == b@[off as int] && s[1] == b@[off as int + 1] && s[2] == b@[off as int + 2]
            && s[3] == b@[off as int + 3]);
    }
    r
}

/// Reads eight little-endian bytes starting at `off`.
pub fn read_u64_le(b: &Vec<u8>, off: usize) -> (r: u64)
    requires
        off + 8 <= b@.len(),
    ensures
        r == u64_from_le(b@.subrange(off as int, off + 8)),
{
    let n = b.len();
    assert(off + 8 <= n);
    let r: u64 = (b[off] as u64) + (b[off + 1] as u64) * 256 + (b[off + 2] as u64) * 0x1_0000 + (
    b[off + 3] as u64) * 0x100_0000 + (b[off + 4] as u64) * 0x1_0000_0000 + (b[off + 5] as u64)
        * 0x100_0000_0000 + (b[off + 6] as u64) * 0x1_0000_0000_0000 + (b[off + 7] as u64)
        * 0x100_0000_0000_0000;
    proof {
        let s = b@.subrange(off as int, off + 8);
        assert(s[0] == b@[off as int] && s[1] == b@[off as int + 1] && s[2] == b@[off as int + 2]
            && s[3] == b@[off as int + 3] && s[4] == b@[off as int + 4] && s[5] == b@[off as int
            + 5] && s[6] == b@[off as int + 6] && s[7] == b@[off as int + 7]);
    }
    r
}

/// Reads eight little-endian bytes starting at `off` as a signed value.
pub fn read_i64_le(b: &Vec<u8>, off: usize) -> (r: i64)
    requires
        off + 8 <= b@.len(),
    ensures
        r == i64_from_le(b@.subrange(off as int, off + 8)),
{
    let v = read_u64_le(b, off);
    #[verifier::truncate] let r = v as i64;
    r
}

} // verus!
