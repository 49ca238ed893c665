//! Little-endian integer framing: spec-level parsers that take a value
//! off the front of a byte sequence, executable counterparts, and the
//! lemmas that peel an encoded value back off a longer buffer.

use vstd::bytes::*;
use vstd::prelude::*;
use vstd::slice::*;

verus! {

/// Parse an 8-byte little-endian unsigned integer from the front.
pub open spec fn take_u64(d: Seq<u8>) -> Option<(u64, Seq<u8>)> {
    if d.len() >= 8 {
        Some((spec_u64_from_le_bytes(d.take(8)), d.skip(8)))
    } else {
        None
    }
}

/// Parse a 4-byte little-endian unsigned integer from the front.
pub open spec fn take_u32(d: Seq<u8>) -> Option<(u32, Seq<u8>)> {
    if d.len() >= 4 {
        Some((spec_u32_from_le_bytes(d.take(4)), d.skip(4)))
    } else {
        None
    }
}

/// Parse a 2-byte little-endian unsigned integer from the front.
pub open spec fn take_u16(d: Seq<u8>) -> Option<(u16, Seq<u8>)> {
    if d.len() >= 2 {
        Some((spec_u16_from_le_bytes(d.take(2)), d.skip(2)))
    } else {
        None
    }
}

/// Parse a single byte from the front.
pub open spec fn take_u8(d: Seq<u8>) -> Option<(u8, Seq<u8>)> {
    if d.len() >= 1 {
        Some((d[0], d.skip(1)))
    } else {
        None
    }
}

/// An encoded integer at the front of a buffer parses back to itself,
/// leaving the trailing bytes untouched.
pub proof fn lemma_take_u64(v: u64, t: Seq<u8>)
    ensures
        take_u64(spec_u64_to_le_bytes(v) + t) == Some((v, t)),
{
    lemma_auto_spec_u64_to_from_le_bytes();
    let d = spec_u64_to_le_bytes(v) + t;
    assert(d.take(8) =~= spec_u64_to_le_bytes(v));
    assert(d.skip(8) =~= t);
}

/// As `lemma_take_u64`, for 4-byte integers.
pub proof fn lemma_take_u32(v: u32, t: Seq<u8>)
    ensures
        take_u32(spec_u32_to_le_bytes(v) + t) == Some((v, t)),
{
    lemma_auto_spec_u32_to_from_le_bytes();
    let d = spec_u32_to_le_bytes(v) + t;
    assert(d.take(4) =~= spec_u32_to_le_bytes(v));
    assert(d.skip(4) =~= t);
}

/// As `lemma_take_u64`, for 2-byte integers.
pub proof fn lemma_take_u16(v: u16, t: Seq<u8>)
    ensures
        take_u16(spec_u16_to_le_bytes(v) + t) == Some((v, t)),
{
    lemma_auto_spec_u16_to_from_le_bytes();
    let d = spec_u16_to_le_bytes(v) + t;
    assert(d.take(2) =~= spec_u16_to_le_bytes(v));
    assert(d.skip(2) =~= t);
}

/// As `lemma_take_u64`, for single bytes.
pub proof fn lemma_take_u8(v: u8, t: Seq<u8>)
    ensures
        take_u8(seq![v] + t) == Some((v, t)),
{
    let d = seq![v] + t;
    assert(d.skip(1) =~= t);
}

/// Append the little-endian bytes of `v`.
pub fn push_u64(out: &mut Vec<u8>, v: u64)
    ensures
        final(out)@ == old(out)@ + spec_u64_to_le_bytes(v),
{
    let mut b = u64_to_le_bytes(v);
    out.append(&mut b);
}

/// Append the little-endian bytes of `v`.
pub fn push_u32(out: &mut Vec<u8>, v: u32)
    ensures
        final(out)@ == old(out)@ + spec_u32_to_le_bytes(v),
{
    let mut b = u32_to_le_bytes(v);
    out.append(&mut b);
}

/// Append the little-endian bytes of `v`.
pub fn push_u16(out: &mut Vec<u8>, v: u16)
    ensures
        final(out)@ == old(out)@ + spec_u16_to_le_bytes(v),
{
    let mut b = u16_to_le_bytes(v);
    out.append(&mut b);
}

/// Append one byte.
pub fn push_u8(out: &mut Vec<u8>, v: u8)
    ensures
        final(out)@ == old(out)@ + seq![v],
{
    out.push(v);
    proof {
        assert(out@ =~= old(out)@ + seq![v]);
    }
}

/// Append all bytes of `s`.
pub fn push_bytes(out: &mut Vec<u8>, s: &[u8])
    ensures
        final(out)@ == old(out)@ + s@,
{
    out.extend_from_slice(s);
}

/// Executable counterpart of `take_u64`.
pub fn take_u64_exec<'a>(d: &'a [u8]) -> (r: Option<(u64, &'a [u8])>)
    ensures
        match r {
            Some((v, rest)) => take_u64(d@) == Some((v, rest@)),
            None => take_u64(d@) is None,
        },
{
    if d.len() >= 8 {
        let v = u64_from_le_bytes(slice_subrange(d, 0, 8));
        let rest = slice_subrange(d, 8, d.len());
        proof {
            assert(d@.subrange(0, 8) =~= d@.take(8));
            assert(d@.subrange(8, d@.len() as int) =~= d@.skip(8));
        }
        Some((v, rest))
    } else {
        None
    }
}

/// Executable counterpart of `take_u32`.
pub fn take_u32_exec<'a>(d: &'a [u8]) -> (r: Option<(u32, &'a [u8])>)
    ensures
        match r {
            Some((v, rest)) => take_u32(d@) == Some((v, rest@)),
            None => take_u32(d@) is None,
        },
{
    if d.len() >= 4 {
        let v = u32_from_le_bytes(slice_subrange(d, 0, 4));
        let rest = slice_subrange(d, 4, d.len());
        proof {
            assert(d@.subrange(0, 4) =~= d@.take(4));
            assert(d@.subrange(4, d@.len() as int) =~= d@.skip(4));
        }
        Some((v, rest))
    } else {
        None
    }
}

/// Executable counterpart of `take_u16`.
pub fn take_u16_exec<'a>(d: &'a [u8]) -> (r: Option<(u16, &'a [u8])>)
    ensures
        match r {
            Some((v, rest)) => take_u16(d@) == Some((v, rest@)),
            None => take_u16(d@) is None,
        },
{
    if d.len() >= 2 {
        let v = u16_from_le_bytes(slice_subrange(d, 0, 2));
        let rest = slice_subrange(d, 2, d.len());
        proof {
            assert(d@.subrange(0, 2) =~= d@.take(2));
            assert(d@.subrange(2, d@.len() as int) =~= d@.skip(2));
        }
        Some((v, rest))
    } else {
        None
    }
}

/// Executable counterpart of `take_u8`.
pub fn take_u8_exec<'a>(d: &'a [u8]) -> (r: Option<(u8, &'a [u8])>)
    ensures
        match r {
            Some((v, rest)) => take_u8(d@) == Some((v, rest@)),
            None => take_u8(d@) is None,
        },
{
    if d.len() >= 1 {
        let v = *slice_index_get(d, 0);
        let rest = slice_subrange(d, 1, d.len());
        proof {
            assert(d@.subrange(1, d@.len() as int) =~= d@.skip(1));
        }
        Some((v, rest))
    } else {
        None
    }
}

/// Two's-complement wire image of a signed value.
pub open spec fn u64_of_i64(x: i64) -> u64 {
    if x >= 0 {
        x as u64
    } else {
        (x + 0x1_0000_0000_0000_0000) as u64
    }
}

/// Signed value of a two's-complement wire image.
pub open spec fn i64_of_u64(v: u64) -> i64 {
    if v < 0x8000_0000_0000_0000 {
        v as i64
    } else {
        (v - 0x1_0000_0000_0000_0000) as i64
    }
}

/// The two's-complement images of signed values decode back to them.
pub proof fn lemma_i64_roundtrip(x: i64)
    ensures
        i64_of_u64(u64_of_i64(x)) == x,
{
}

/// Parse an 8-byte little-endian two's-complement signed integer.
pub open spec fn take_i64(d: Seq<u8>) -> Option<(i64, Seq<u8>)> {
    match take_u64(d) {
        Some((v, rest)) => Some((i64_of_u64(v), rest)),
        None => None,
    }
}

/// As `lemma_take_u64`, for signed integers.
pub proof fn lemma_take_i64(x: i64, t: Seq<u8>)
    ensures
        take_i64(spec_u64_to_le_bytes(u64_of_i64(x)) + t) == Some((x, t)),
{
    lemma_take_u64(u64_of_i64(x), t);
}

/// The unsigned wire image of a signed value.
pub fn i64_wire_bits(x: i64) -> (r: u64)
    ensures
        r == u64_of_i64(x),
{
    if x >= 0 {
        x as u64
    } else {
        0xffff_ffff_ffff_ffffu64 - ((-(x + 1)) as u64)
    }
}

/// The signed value of an unsigned wire image.
pub fn i64_from_wire_bits(v: u64) -> (r: i64)
    ensures
        r == i64_of_u64(v),
{
    if v < 0x8000_0000_0000_0000 {
        v as i64
    } else {
        -((0xffff_ffff_ffff_ffffu64 - v) as i64) - 1
    }
}

/// Append the little-endian two's-complement bytes of `x`.
pub fn push_i64(out: &mut Vec<u8>, x: i64)
    ensures
        final(out)@ == old(out)@ + spec_u64_to_le_bytes(u64_of_i64(x)),
{
    let bits = i64_wire_bits(x);
    push_u64(out, bits);
}

/// Executable counterpart of `take_i64`.
pub fn take_i64_exec<'a>(d: &'a [u8]) -> (r: Option<(i64, &'a [u8])>)
    ensures
        match r {
            Some((v, rest)) => take_i64(d@) == Some((v, rest@)),
            None => take_i64(d@) is None,
        },
{
    match take_u64_exec(d) {
        Some((v, rest)) => Some((i64_from_wire_bits(v), rest)),
        None => None,
    }
}

} // verus!
