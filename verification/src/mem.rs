//! Memory-related commands and the flag families they carry.

use crate::wire::{
    lemma_take_i64, lemma_take_u32, lemma_take_u64, lemma_take_u8, push_i64, push_u32, push_u64,
    push_u8, take_i64, take_i64_exec, take_u32, take_u32_exec, take_u64, take_u64_exec, take_u8,
    take_u8_exec, u64_of_i64,
};
use crate::CodecError;
use vstd::bytes::{spec_u32_to_le_bytes, spec_u64_to_le_bytes};
use vstd::prelude::*;

verus! {

/// Generic page table entry flags that indicate the corresponding
/// mapped memory region permissions, carried on the wire as a raw u8.
#[derive(Debug, Clone, Copy, PartialEq, Eq, Structural)]
pub struct ProtFlags {
    bits: u8,
}

impl View for ProtFlags {
    type V = u8;

    closed spec fn view(&self) -> u8 {
        self.bits
    }
}

impl ProtFlags {
    /// The memory is readable.
    pub const READ: u8 = 1 << 0;

    /// The memory is writable.
    pub const WRITE: u8 = 1 << 1;

    /// The memory is executable.
    pub const EXECUTE: u8 = 1 << 2;

    /// Every bit this family knows.
    pub const KNOWN: u8 = (1 << 0) | (1 << 1) | (1 << 2);

    /// No flags set.
    pub fn empty() -> (r: Self)
        ensures
            r@ == 0u8,
    {
        ProtFlags { bits: 0 }
    }

    /// Keep the known bits of a raw value and drop the rest.
    pub fn from_bits_truncate(b: u8) -> (r: Self)
        ensures
            r@ == b & Self::KNOWN,
    {
        ProtFlags { bits: b & Self::KNOWN }
    }

    /// Raw wire value: exactly the stored bit pattern.
    pub fn bits(&self) -> (r: u8)
        ensures
            r == self@,
    {
        self.bits
    }

    /// Whether every bit of `m` is set.
    pub fn contains(&self, m: u8) -> (r: bool)
        ensures
            r == (self@ & m == m),
    {
        self.bits & m == m
    }
}

/// Mapping flags: whether updates to the mapping are visible to other
/// processes and whether they reach the underlying file; carried on
/// the wire as a raw u32.
#[derive(Debug, Clone, Copy, PartialEq, Eq, Structural)]
pub struct MmapFlags {
    bits: u32,
}

impl View for MmapFlags {
    type V = u32;

    closed spec fn view(&self) -> u32 {
        self.bits
    }
}

impl MmapFlags {
    /// Modifications to this memory are shared.
    pub const MAP_SHARED: u32 = 1 << 0;

    /// Modifications to this memory are private.
    pub const MAP_PRIVATE: u32 = 1 << 1;

    /// Don't interpret addr as a hint: place the mapping at exactly
    /// that address.
    pub const MAP_FIXED: u32 = 1 << 4;

    /// Every bit this family knows.
    pub const KNOWN: u32 = (1 << 0) | (1 << 1) | (1 << 4);

    /// No flags set.
    pub fn empty() -> (r: Self)
        ensures
            r@ == 0u32,
    {
        MmapFlags { bits: 0 }
    }

    /// Keep the known bits of a raw value and drop the rest.
    pub fn from_bits_truncate(b: u32) -> (r: Self)
        ensures
            r@ == b & Self::KNOWN,
    {
        MmapFlags { bits: b & Self::KNOWN }
    }

    /// Raw wire value: exactly the stored bit pattern.
    pub fn bits(&self) -> (r: u32)
        ensures
            r == self@,
    {
        self.bits
    }

    /// Whether every bit of `m` is set.
    pub fn contains(&self, m: u32) -> (r: bool)
        ensures
            r == (self@ & m == m),
    {
        self.bits & m == m
    }
}

/// Change the location of the program break, which defines the
/// end of the process's data segment.
#[derive(Debug, Clone, Copy, PartialEq, Eq, Structural)]
pub struct Brk {
    /// The new program break.
    pub addr: usize,
}

/// Wire image of the command: the identifier, then each field in
/// declaration order.
pub open spec fn brk_wire(addr: u64) -> Seq<u8> {
    spec_u64_to_le_bytes(214) + spec_u64_to_le_bytes(addr)
}

/// Parse the command from the front of a buffer.
pub open spec fn brk_parse(d: Seq<u8>) -> Option<(u64, Seq<u8>)> {
    match take_u64(d) {
        None => None,
        Some((id, d1)) => if id != 214 {
            None
        } else {
            match take_u64(d1) {
                None => None,
                Some((addr, d2)) => Some((addr, d2)),
            }
        },
    }
}

/// Encoding then decoding the command yields the same fields, leaves
/// exactly the trailing bytes, and the identifier peeked off the
/// encoding is the declared one.
pub proof fn lemma_brk_roundtrip(c: Brk, rest: Seq<u8>)
    ensures
        brk_parse(brk_wire(c.addr as u64) + rest) == Some((c.addr as u64, rest)),
        (c.addr as u64) as usize == c.addr,
        take_u64(brk_wire(c.addr as u64) + rest)->Some_0.0 == Brk::ID as u64,
{
    let w = brk_wire(c.addr as u64) + rest;
    assert(w =~= spec_u64_to_le_bytes(214) + (spec_u64_to_le_bytes(c.addr as u64) + (rest)));
    lemma_take_u64(214, spec_u64_to_le_bytes(c.addr as u64) + (rest));
    lemma_take_u64(c.addr as u64, rest);
}

impl Brk {
    /// Command id.
    pub const ID: usize = 214;

    /// Create a new command.
    pub fn new(addr: usize) -> (r: Self)
        ensures
            r.addr == addr,
    {
        Brk { addr }
    }

    /// Serialize the command into a byte array.
    pub fn to_bytes(&self) -> (r: Vec<u8>)
        ensures
            r@ == brk_wire(self.addr as u64),
    {
        let mut out: Vec<u8> = Vec::new();
        push_u64(&mut out, 214);
        push_u64(&mut out, self.addr as u64);
        proof {
            assert(out@ =~= brk_wire(self.addr as u64));
        }
        out
    }

    /// Deserialize the command from a byte array, return the command
    /// and the remaining data.
    pub fn from_bytes<'a>(data: &'a [u8]) -> (r: Result<(Self, &'a [u8]), CodecError>)
        ensures
            match brk_parse(data@) {
                Some(p) => match r {
                    Ok((c, rem)) => {
                        let (addr, rest) = p;
                        &&& c.addr == addr as usize
                        &&& rem@ == rest
                    },
                    Err(_) => false,
                },
                None => r matches Err(CodecError::MalformedInput),
            },
    {
        let (id, d1) = match take_u64_exec(data) {
            Some(x) => x,
            None => {
                return Err(CodecError::MalformedInput);
            },
        };
        if id != 214 {
            return Err(CodecError::MalformedInput);
        }
        let (addr, d2) = match take_u64_exec(d1) {
            Some(x) => x,
            None => {
                return Err(CodecError::MalformedInput);
            },
        };
        Ok((Brk { addr: addr as usize }, d2))
    }
}

/// Like a plain break change, but framed by the increment to the
/// program break.
#[derive(Debug, Clone, Copy, PartialEq, Eq, Structural)]
pub struct Sbrk {
    /// The increment to the program break.
    pub increment: isize,
}

/// Wire image of the command: the identifier, then each field in
/// declaration order.
pub open spec fn sbrk_wire(increment: i64) -> Seq<u8> {
    spec_u64_to_le_bytes(214) + spec_u64_to_le_bytes(u64_of_i64(increment))
}

/// Parse the command from the front of a buffer.
pub open spec fn sbrk_parse(d: Seq<u8>) -> Option<(i64, Seq<u8>)> {
    match take_u64(d) {
        None => None,
        Some((id, d1)) => if id != 214 {
            None
        } else {
            match take_i64(d1) {
                None => None,
                Some((increment, d2)) => Some((increment, d2)),
            }
        },
    }
}

/// Encoding then decoding the command yields the same fields, leaves
/// exactly the trailing bytes, and the identifier peeked off the
/// encoding is the declared one.
pub proof fn lemma_sbrk_roundtrip(c: Sbrk, rest: Seq<u8>)
    ensures
        sbrk_parse(sbrk_wire(c.increment as i64) + rest) == Some((c.increment as i64, rest)),
        (c.increment as i64) as isize == c.increment,
        take_u64(sbrk_wire(c.increment as i64) + rest)->Some_0.0 == Sbrk::ID as u64,
{
    let w = sbrk_wire(c.increment as i64) + rest;
    assert(w =~= spec_u64_to_le_bytes(214) + (spec_u64_to_le_bytes(u64_of_i64(c.increment as i64)) + (rest)));
    lemma_take_u64(214, spec_u64_to_le_bytes(u64_of_i64(c.increment as i64)) + (rest));
    lemma_take_i64(c.increment as i64, rest);
}

impl Sbrk {
    /// Command id.
    pub const ID: usize = 214;

    /// Create a new command.
    pub fn new(increment: isize) -> (r: Self)
        ensures
            r.increment == increment,
    {
        Sbrk { increment }
    }

    /// Serialize the command into a byte array.
    pub fn to_bytes(&self) -> (r: Vec<u8>)
        ensures
            r@ == sbrk_wire(self.increment as i64),
    {
        let mut out: Vec<u8> = Vec::new();
        push_u64(&mut out, 214);
        push_i64(&mut out, self.increment as i64);
        proof {
            assert(out@ =~= sbrk_wire(self.increment as i64));
        }
        out
    }

    /// Deserialize the command from a byte array, return the command
    /// and the remaining data.
    pub fn from_bytes<'a>(data: &'a [u8]) -> (r: Result<(Self, &'a [u8]), CodecError>)
        ensures
            match sbrk_parse(data@) {
                Some(p) => match r {
                    Ok((c, rem)) => {
                        let (increment, rest) = p;
                        &&& c.increment == increment as isize
                        &&& rem@ == rest
                    },
                    Err(_) => false,
                },
                None => r matches Err(CodecError::MalformedInput),
            },
    {
        let (id, d1) = match take_u64_exec(data) {
            Some(x) => x,
            None => {
                return Err(CodecError::MalformedInput);
            },
        };
        if id != 214 {
            return Err(CodecError::MalformedInput);
        }
        let (increment, d2) = match take_i64_exec(d1) {
            Some(x) => x,
            None => {
                return Err(CodecError::MalformedInput);
            },
        };
        Ok((Sbrk { increment: increment as isize }, d2))
    }
}

/// Create a new mapping in the virtual address space of the
/// calling process.
#[derive(Debug, Clone, Copy, PartialEq, Eq, Structural)]
pub struct Mmap {
    /// The starting address of the mapping.
    pub addr: usize,
    /// The length of the mapping.
    pub len: usize,
    /// Memory protection of the mapping.
    pub prot: ProtFlags,
    /// Mapping flags.
    pub flags: MmapFlags,
}

/// Wire image of the command: the identifier, then each field in
/// declaration order.
pub open spec fn mmap_wire(addr: u64, len: u64, prot: u8, flags: u32) -> Seq<u8> {
    spec_u64_to_le_bytes(222) + spec_u64_to_le_bytes(addr) + spec_u64_to_le_bytes(len) + seq![prot] + spec_u32_to_le_bytes(flags)
}

/// Parse the command from the front of a buffer.
pub open spec fn mmap_parse(d: Seq<u8>) -> Option<((u64, u64, u8, u32), Seq<u8>)> {
    match take_u64(d) {
        None => None,
        Some((id, d1)) => if id != 222 {
            None
        } else {
            match take_u64(d1) {
                None => None,
                Some((addr, d2)) => match take_u64(d2) {
                    None => None,
                    Some((len, d3)) => match take_u8(d3) {
                        None => None,
                        Some((prot, d4)) => match take_u32(d4) {
                            None => None,
                            Some((flags, d5)) => Some(((addr, len, prot, flags), d5)),
                        },
                    },
                },
            }
        },
    }
}

/// Encoding then decoding the command yields the same fields, leaves
/// exactly the trailing bytes, and the identifier peeked off the
/// encoding is the declared one.
pub proof fn lemma_mmap_roundtrip(c: Mmap, rest: Seq<u8>)
    requires
        c.prot@ & ProtFlags::KNOWN == c.prot@,
        c.flags@ & MmapFlags::KNOWN == c.flags@,
    ensures
        mmap_parse(mmap_wire(c.addr as u64, c.len as u64, c.prot@, c.flags@) + rest) == Some(((c.addr as u64, c.len as u64, c.prot@, c.flags@), rest)),
        (c.addr as u64) as usize == c.addr,
        (c.len as u64) as usize == c.len,
        take_u64(mmap_wire(c.addr as u64, c.len as u64, c.prot@, c.flags@) + rest)->Some_0.0 == Mmap::ID as u64,
{
    let w = mmap_wire(c.addr as u64, c.len as u64, c.prot@, c.flags@) + rest;
    assert(w =~= spec_u64_to_le_bytes(222) + (spec_u64_to_le_bytes(c.addr as u64) + (spec_u64_to_le_bytes(c.len as u64) + (seq![c.prot@] + (spec_u32_to_le_bytes(c.flags@) + (rest))))));
    lemma_take_u64(222, spec_u64_to_le_bytes(c.addr as u64) + (spec_u64_to_le_bytes(c.len as u64) + (seq![c.prot@] + (spec_u32_to_le_bytes(c.flags@) + (rest)))));
    lemma_take_u64(c.addr as u64, spec_u64_to_le_bytes(c.len as u64) + (seq![c.prot@] + (spec_u32_to_le_bytes(c.flags@) + (rest))));
    lemma_take_u64(c.len as u64, seq![c.prot@] + (spec_u32_to_le_bytes(c.flags@) + (rest)));
    lemma_take_u8(c.prot@, spec_u32_to_le_bytes(c.flags@) + (rest));
    lemma_take_u32(c.flags@, rest);
}

impl Mmap {
    /// Command id.
    pub const ID: usize = 222;

    /// Create a new command.
    pub fn new(addr: usize, len: usize, prot: ProtFlags, flags: MmapFlags) -> (r: Self)
        ensures
            r.addr == addr,
            r.len == len,
            r.prot == prot,
            r.flags == flags,
    {
        Mmap { addr, len, prot, flags }
    }

    /// Serialize the command into a byte array.
    pub fn to_bytes(&self) -> (r: Vec<u8>)
        ensures
            r@ == mmap_wire(self.addr as u64, self.len as u64, self.prot@, self.flags@),
    {
        let mut out: Vec<u8> = Vec::new();
        push_u64(&mut out, 222);
        push_u64(&mut out, self.addr as u64);
        push_u64(&mut out, self.len as u64);
        push_u8(&mut out, self.prot.bits());
        push_u32(&mut out, self.flags.bits());
        proof {
            assert(out@ =~= mmap_wire(self.addr as u64, self.len as u64, self.prot@, self.flags@));
        }
        out
    }

    /// Deserialize the command from a byte array, return the command
    /// and the remaining data; raw flag values are masked to the
    /// bits the family knows.
    pub fn from_bytes<'a>(data: &'a [u8]) -> (r: Result<(Self, &'a [u8]), CodecError>)
        ensures
            match mmap_parse(data@) {
                Some(p) => match r {
                    Ok((c, rem)) => {
                        let ((addr, len, prot, flags), rest) = p;
                        &&& c.addr == addr as usize
                        &&& c.len == len as usize
                        &&& c.prot@ == prot & ProtFlags::KNOWN
                        &&& c.flags@ == flags & MmapFlags::KNOWN
                        &&& rem@ == rest
                    },
                    Err(_) => false,
                },
                None => r matches Err(CodecError::MalformedInput),
            },
    {
        let (id, d1) = match take_u64_exec(data) {
            Some(x) => x,
            None => {
                return Err(CodecError::MalformedInput);
            },
        };
        if id != 222 {
            return Err(CodecError::MalformedInput);
        }
        let (addr, d2) = match take_u64_exec(d1) {
            Some(x) => x,
            None => {
                return Err(CodecError::MalformedInput);
            },
        };
        let (len, d3) = match take_u64_exec(d2) {
            Some(x) => x,
            None => {
                return Err(CodecError::MalformedInput);
            },
        };
        let (prot, d4) = match take_u8_exec(d3) {
            Some(x) => x,
            None => {
                return Err(CodecError::MalformedInput);
            },
        };
        let (flags, d5) = match take_u32_exec(d4) {
            Some(x) => x,
            None => {
                return Err(CodecError::MalformedInput);
            },
        };
        Ok((Mmap { addr: addr as usize, len: len as usize, prot: ProtFlags::from_bits_truncate(prot), flags: MmapFlags::from_bits_truncate(flags) }, d5))
    }
}

/// Remove a mapping from the virtual address space of the calling
/// process.
#[derive(Debug, Clone, Copy, PartialEq, Eq, Structural)]
pub struct Munmap {
    /// The starting address of unmapping.
    pub addr: usize,
    /// The length of unmapping.
    pub len: usize,
}

/// Wire image of the command: the identifier, then each field in
/// declaration order.
pub open spec fn munmap_wire(addr: u64, len: u64) -> Seq<u8> {
    spec_u64_to_le_bytes(215) + spec_u64_to_le_bytes(addr) + spec_u64_to_le_bytes(len)
}

/// Parse the command from the front of a buffer.
pub open spec fn munmap_parse(d: Seq<u8>) -> Option<((u64, u64), Seq<u8>)> {
    match take_u64(d) {
        None => None,
        Some((id, d1)) => if id != 215 {
            None
        } else {
            match take_u64(d1) {
                None => None,
                Some((addr, d2)) => match take_u64(d2) {
                    None => None,
                    Some((len, d3)) => Some(((addr, len), d3)),
                },
            }
        },
    }
}

/// Encoding then decoding the command yields the same fields, leaves
/// exactly the trailing bytes, and the identifier peeked off the
/// encoding is the declared one.
pub proof fn lemma_munmap_roundtrip(c: Munmap, rest: Seq<u8>)
    ensures
        munmap_parse(munmap_wire(c.addr as u64, c.len as u64) + rest) == Some(((c.addr as u64, c.len as u64), rest)),
        (c.addr as u64) as usize == c.addr,
        (c.len as u64) as usize == c.len,
        take_u64(munmap_wire(c.addr as u64, c.len as u64) + rest)->Some_0.0 == Munmap::ID as u64,
{
    let w = munmap_wire(c.addr as u64, c.len as u64) + rest;
    assert(w =~= spec_u64_to_le_bytes(215) + (spec_u64_to_le_bytes(c.addr as u64) + (spec_u64_to_le_bytes(c.len as u64) + (rest))));
    lemma_take_u64(215, spec_u64_to_le_bytes(c.addr as u64) + (spec_u64_to_le_bytes(c.len as u64) + (rest)));
    lemma_take_u64(c.addr as u64, spec_u64_to_le_bytes(c.len as u64) + (rest));
    lemma_take_u64(c.len as u64, rest);
}

impl Munmap {
    /// Command id.
    pub const ID: usize = 215;

    /// Create a new command.
    pub fn new(addr: usize, len: usize) -> (r: Self)
        ensures
            r.addr == addr,
            r.len == len,
    {
        Munmap { addr, len }
    }

    /// Serialize the command into a byte array.
    pub fn to_bytes(&self) -> (r: Vec<u8>)
        ensures
            r@ == munmap_wire(self.addr as u64, self.len as u64),
    {
        let mut out: Vec<u8> = Vec::new();
        push_u64(&mut out, 215);
        push_u64(&mut out, self.addr as u64);
        push_u64(&mut out, self.len as u64);
        proof {
            assert(out@ =~= munmap_wire(self.addr as u64, self.len as u64));
        }
        out
    }

    /// Deserialize the command from a byte array, return the command
    /// and the remaining data.
    pub fn from_bytes<'a>(data: &'a [u8]) -> (r: Result<(Self, &'a [u8]), CodecError>)
        ensures
            match munmap_parse(data@) {
                Some(p) => match r {
                    Ok((c, rem)) => {
                        let ((addr, len), rest) = p;
                        &&& c.addr == addr as usize
                        &&& c.len == len as usize
                        &&& rem@ == rest
                    },
                    Err(_) => false,
                },
                None => r matches Err(CodecError::MalformedInput),
            },
    {
        let (id, d1) = match take_u64_exec(data) {
            Some(x) => x,
            None => {
                return Err(CodecError::MalformedInput);
            },
        };
        if id != 215 {
            return Err(CodecError::MalformedInput);
        }
        let (addr, d2) = match take_u64_exec(d1) {
            Some(x) => x,
            None => {
                return Err(CodecError::MalformedInput);
            },
        };
        let (len, d3) = match take_u64_exec(d2) {
            Some(x) => x,
            None => {
                return Err(CodecError::MalformedInput);
            },
        };
        Ok((Munmap { addr: addr as usize, len: len as usize }, d3))
    }
}

/// Change the access protections for the calling process's
/// memory pages containing any part of the given address range.
#[derive(Debug, Clone, Copy, PartialEq, Eq, Structural)]
pub struct Mprotect {
    /// The starting address of protection.
    pub start: usize,
    /// The length of protection.
    pub len: usize,
    /// The protection flags.
    pub flags: ProtFlags,
}

/// Wire image of the command: the identifier, then each field in
/// declaration order.
pub open spec fn mprotect_wire(start: u64, len: u64, flags: u8) -> Seq<u8> {
    spec_u64_to_le_bytes(5) + spec_u64_to_le_bytes(start) + spec_u64_to_le_bytes(len) + seq![flags]
}

/// Parse the command from the front of a buffer.
pub open spec fn mprotect_parse(d: Seq<u8>) -> Option<((u64, u64, u8), Seq<u8>)> {
    match take_u64(d) {
        None => None,
        Some((id, d1)) => if id != 5 {
            None
        } else {
            match take_u64(d1) {
                None => None,
                Some((start, d2)) => match take_u64(d2) {
                    None => None,
                    Some((len, d3)) => match take_u8(d3) {
                        None => None,
                        Some((flags, d4)) => Some(((start, len, flags), d4)),
                    },
                },
            }
        },
    }
}

/// Encoding then decoding the command yields the same fields, leaves
/// exactly the trailing bytes, and the identifier peeked off the
/// encoding is the declared one.
pub proof fn lemma_mprotect_roundtrip(c: Mprotect, rest: Seq<u8>)
    requires
        c.flags@ & ProtFlags::KNOWN == c.flags@,
    ensures
        mprotect_parse(mprotect_wire(c.start as u64, c.len as u64, c.flags@) + rest) == Some(((c.start as u64, c.len as u64, c.flags@), rest)),
        (c.start as u64) as usize == c.start,
        (c.len as u64) as usize == c.len,
        take_u64(mprotect_wire(c.start as u64, c.len as u64, c.flags@) + rest)->Some_0.0 == Mprotect::ID as u64,
{
    let w = mprotect_wire(c.start as u64, c.len as u64, c.flags@) + rest;
    assert(w =~= spec_u64_to_le_bytes(5) + (spec_u64_to_le_bytes(c.start as u64) + (spec_u64_to_le_bytes(c.len as u64) + (seq![c.flags@] + (rest)))));
    lemma_take_u64(5, spec_u64_to_le_bytes(c.start as u64) + (spec_u64_to_le_bytes(c.len as u64) + (seq![c.flags@] + (rest))));
    lemma_take_u64(c.start as u64, spec_u64_to_le_bytes(c.len as u64) + (seq![c.flags@] + (rest)));
    lemma_take_u64(c.len as u64, seq![c.flags@] + (rest));
    lemma_take_u8(c.flags@, rest);
}

impl Mprotect {
    /// Command id.
    pub const ID: usize = 5;

    /// Create a new command.
    pub fn new(start: usize, len: usize, flags: ProtFlags) -> (r: Self)
        ensures
            r.start == start,
            r.len == len,
            r.flags == flags,
    {
        Mprotect { start, len, flags }
    }

    /// Serialize the command into a byte array.
    pub fn to_bytes(&self) -> (r: Vec<u8>)
        ensures
            r@ == mprotect_wire(self.start as u64, self.len as u64, self.flags@),
    {
        let mut out: Vec<u8> = Vec::new();
        push_u64(&mut out, 5);
        push_u64(&mut out, self.start as u64);
        push_u64(&mut out, self.len as u64);
        push_u8(&mut out, self.flags.bits());
        proof {
            assert(out@ =~= mprotect_wire(self.start as u64, self.len as u64, self.flags@));
        }
        out
    }

    /// Deserialize the command from a byte array, return the command
    /// and the remaining data; raw flag values are masked to the
    /// bits the family knows.
    pub fn from_bytes<'a>(data: &'a [u8]) -> (r: Result<(Self, &'a [u8]), CodecError>)
        ensures
            match mprotect_parse(data@) {
                Some(p) => match r {
                    Ok((c, rem)) => {
                        let ((start, len, flags), rest) = p;
                        &&& c.start == start as usize
                        &&& c.len == len as usize
                        &&& c.flags@ == flags & ProtFlags::KNOWN
                        &&& rem@ == rest
                    },
                    Err(_) => false,
                },
                None => r matches Err(CodecError::MalformedInput),
            },
    {
        let (id, d1) = match take_u64_exec(data) {
            Some(x) => x,
            None => {
                return Err(CodecError::MalformedInput);
            },
        };
        if id != 5 {
            return Err(CodecError::MalformedInput);
        }
        let (start, d2) = match take_u64_exec(d1) {
            Some(x) => x,
            None => {
                return Err(CodecError::MalformedInput);
            },
        };
        let (len, d3) = match take_u64_exec(d2) {
            Some(x) => x,
            None => {
                return Err(CodecError::MalformedInput);
            },
        };
        let (flags, d4) = match take_u8_exec(d3) {
            Some(x) => x,
            None => {
                return Err(CodecError::MalformedInput);
            },
        };
        Ok((Mprotect { start: start as usize, len: len as usize, flags: ProtFlags::from_bits_truncate(flags) }, d4))
    }
}


} // verus!
