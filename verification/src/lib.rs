//! Wire protocol and ABI layout layer for kernel-style operations.
//!
//! Two independently compiled parties — one issuing operations, one
//! decoding and acting on them — agree only on a byte encoding.  This
//! crate provides that encoding: command framing with stable numeric
//! identifiers, a capacity-bounded path string, bit-flag families that
//! travel as raw unsigned integers, and byte-faithful views of the
//! libc directory-entry and stat layouts.

use vstd::prelude::*;

pub mod fs;
pub mod mem;
pub mod wire;

verus! {

/// Errors this layer can raise: a bounded container was asked to hold
/// more than its fixed maximum, or a decode ran on bytes that do not
/// form a record of the requested type.
#[derive(Debug, Clone, Copy, PartialEq, Eq, Structural)]
pub enum CodecError {
    CapacityExceeded,
    MalformedInput,
}

/// Serialize a command id.
pub fn id_to_bytes(id: usize) -> (r: Vec<u8>)
    ensures
        r@ == vstd::bytes::spec_u64_to_le_bytes(id as u64),
{
    vstd::bytes::u64_to_le_bytes(id as u64)
}

/// Deserialize a command id, return the id and the remaining data.
pub fn id_from_bytes(data: &[u8]) -> (r: (usize, &[u8]))
    requires
        data@.len() >= 8,
    ensures
        r.0 == vstd::bytes::spec_u64_from_le_bytes(data@.take(8)) as usize,
        r.1@ == data@.skip(8),
{
    let id = vstd::bytes::u64_from_le_bytes(vstd::slice::slice_subrange(data, 0, 8));
    let rest = vstd::slice::slice_subrange(data, 8, data.len());
    proof {
        assert(data@.subrange(0, 8) =~= data@.take(8));
        assert(data@.subrange(8, data@.len() as int) =~= data@.skip(8));
    }
    (id as usize, rest)
}

} // verus!
