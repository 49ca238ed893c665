//! Filesystem-related commands, the bounded path type, the flag
//! families they carry, and the libc directory-entry and stat layouts.

use crate::wire::{
    i64_of_u64, lemma_take_i64, lemma_take_u16, lemma_take_u32, lemma_take_u64, lemma_take_u8,
    push_bytes, push_i64, push_u16, push_u32, push_u64, push_u8, take_i64, take_i64_exec,
    take_u16, take_u16_exec, take_u32, take_u32_exec, take_u64, take_u64_exec, take_u8,
    take_u8_exec, u64_of_i64,
};
use crate::CodecError;
use vstd::bytes::*;
use vstd::prelude::*;
use vstd::slice::*;

verus! {

/// Max file path length.
pub const MAX_PATH_LEN: usize = 256;

#[verifier::external_type_specification]
#[verifier::external_body]
#[verifier::reject_recursive_types(T)]
pub struct ExHeaplessVec<T, const N: usize>(heapless::Vec<T, N>);

/// The bytes a fixed-capacity vector holds.
pub uninterp spec fn hvec_bytes(v: heapless::Vec<u8, 256>) -> Seq<u8>;

/// Relies on heapless::Vec::from_slice: when the slice fits within the
/// capacity it is copied verbatim; when it is longer, nothing is built.
#[verifier::external_body]
fn hvec_from_slice(s: &[u8]) -> (r: Option<heapless::Vec<u8, 256>>)
    ensures
        r is Some <==> s@.len() <= 256,
        r is Some ==> hvec_bytes(r->Some_0) == s@,
{
    heapless::Vec::from_slice(s).ok()
}

/// Relies on heapless::Vec::as_slice: returns exactly the initialized
/// prefix, which is everything the vector holds.
#[verifier::external_body]
fn hvec_as_slice(v: &heapless::Vec<u8, 256>) -> (r: &[u8])
    ensures
        r@ == hvec_bytes(*v),
{
    v.as_slice()
}

/// Relies on heapless::Vec's Clone impl: it clones every element in
/// order, so the contents are unchanged.
#[verifier::external_body]
fn hvec_clone(v: &heapless::Vec<u8, 256>) -> (r: heapless::Vec<u8, 256>)
    ensures
        hvec_bytes(r) == hvec_bytes(*v),
{
    v.clone()
}

/// Path type - a fixed capacity byte string.
#[derive(Debug)]
pub struct Path {
    buf: heapless::Vec<u8, 256>,
}

impl View for Path {
    type V = Seq<u8>;

    closed spec fn view(&self) -> Seq<u8> {
        hvec_bytes(self.buf)
    }
}

/// A path is absolute exactly when its first byte is the separator.
pub open spec fn spec_absolute(p: Seq<u8>) -> bool {
    p.len() > 0 && p[0] == 47u8
}

impl Path {
    #[verifier::type_invariant]
    spec fn inv(self) -> bool {
        hvec_bytes(self.buf).len() <= 256
    }

    /// Construct a path from bytes, stored verbatim; an input longer
    /// than the maximum is rejected rather than truncated.
    pub fn new(s: &[u8]) -> (r: Result<Path, CodecError>)
        ensures
            r is Ok <==> s@.len() <= MAX_PATH_LEN,
            r is Ok ==> r->Ok_0@ == s@,
            r is Err ==> r->Err_0 == CodecError::CapacityExceeded,
    {
        match hvec_from_slice(s) {
            Some(v) => Ok(Path { buf: v }),
            None => Err(CodecError::CapacityExceeded),
        }
    }

    /// The stored bytes.
    pub fn as_bytes(&self) -> (r: &[u8])
        ensures
            r@ == self@,
    {
        hvec_as_slice(&self.buf)
    }

    /// Number of stored bytes, never more than the maximum.
    pub fn len(&self) -> (r: usize)
        ensures
            r == self@.len(),
            r <= MAX_PATH_LEN,
    {
        proof {
            use_type_invariant(self);
        }
        hvec_as_slice(&self.buf).len()
    }

    /// Check if the path is absolute.
    pub fn absolute(&self) -> (r: bool)
        ensures
            r == spec_absolute(self@),
    {
        let s = hvec_as_slice(&self.buf);
        s.len() > 0 && *slice_index_get(s, 0) == 47
    }

    /// Check if the path is relative.
    pub fn relative(&self) -> (r: bool)
        ensures
            r == !spec_absolute(self@),
    {
        !self.absolute()
    }
}

impl Clone for Path {
    fn clone(&self) -> (r: Self)
        ensures
            r@ == self@,
    {
        proof {
            use_type_invariant(self);
        }
        Path { buf: hvec_clone(&self.buf) }
    }
}

impl PartialEq for Path {
    fn eq(&self, other: &Self) -> (r: bool) {
        let a = self.as_bytes();
        let b = other.as_bytes();
        if a.len() != b.len() {
            proof {
                assert(self@ != other@);
            }
            return false;
        }
        let n = a.len();
        let mut i: usize = 0;
        while i < n
            invariant
                n == a@.len() == b@.len(),
                a@ == self@,
                b@ == other@,
                i <= n,
                forall|j: int| 0 <= j < i ==> a@[j] == b@[j],
            decreases n - i,
        {
            if *slice_index_get(a, i) != *slice_index_get(b, i) {
                return false;
            }
            i += 1;
        }
        proof {
            assert(self@ =~= other@);
        }
        true
    }
}

impl vstd::std_specs::cmp::PartialEqSpecImpl for Path {
    open spec fn obeys_eq_spec() -> bool {
        true
    }

    open spec fn eq_spec(&self, other: &Self) -> bool {
        self@ == other@
    }
}

/// Wire form of a path: a two-byte length prefix, then the bytes.
pub open spec fn path_wire(p: Seq<u8>) -> Seq<u8> {
    spec_u16_to_le_bytes(p.len() as u16) + p
}

/// Parse a length-prefixed path from the front of a buffer; a declared
/// length over the path capacity is malformed, never truncated.
pub open spec fn take_path(d: Seq<u8>) -> Option<(Seq<u8>, Seq<u8>)> {
    match take_u16(d) {
        Some((n, rest)) => if n <= MAX_PATH_LEN && rest.len() >= n {
            Some((rest.take(n as int), rest.skip(n as int)))
        } else {
            None
        },
        None => None,
    }
}

/// An encoded path at the front of a buffer parses back to itself,
/// leaving the trailing bytes untouched.
pub proof fn lemma_take_path(p: Seq<u8>, t: Seq<u8>)
    requires
        p.len() <= MAX_PATH_LEN,
    ensures
        take_path(path_wire(p) + t) == Some((p, t)),
{
    let n = p.len() as u16;
    assert(path_wire(p) + t =~= spec_u16_to_le_bytes(n) + (p + t));
    lemma_take_u16(n, p + t);
    assert((p + t).take(n as int) =~= p);
    assert((p + t).skip(n as int) =~= t);
}

/// Append the wire form of a path.
pub fn push_path(out: &mut Vec<u8>, p: &Path)
    ensures
        final(out)@ == old(out)@ + path_wire(p@),
{
    proof {
        use_type_invariant(p);
    }
    push_u16(out, p.len() as u16);
    push_bytes(out, p.as_bytes());
}

/// Executable counterpart of `take_path`.
pub fn take_path_exec<'a>(d: &'a [u8]) -> (r: Option<(Path, &'a [u8])>)
    ensures
        match r {
            Some((p, rest)) => take_path(d@) == Some((p@, rest@)),
            None => take_path(d@) is None,
        },
{
    let (n, rest) = match take_u16_exec(d) {
        Some(x) => x,
        None => {
            return None;
        },
    };
    if n as usize > MAX_PATH_LEN || rest.len() < n as usize {
        return None;
    }
    let bytes = slice_subrange(rest, 0, n as usize);
    let tail = slice_subrange(rest, n as usize, rest.len());
    proof {
        assert(rest@.subrange(0, n as int) =~= rest@.take(n as int));
        assert(rest@.subrange(n as int, rest@.len() as int) =~= rest@.skip(n as int));
    }
    match Path::new(bytes) {
        Ok(p) => Some((p, tail)),
        Err(_) => {
            proof {
                assert(false);
            }
            None
        },
    }
}

/// Flags for the `Open` command, carried on the wire as a raw u32.
#[derive(Debug, Clone, Copy, PartialEq, Eq, Structural)]
pub struct OpenFlags {
    bits: u32,
}

impl View for OpenFlags {
    type V = u32;

    closed spec fn view(&self) -> u32 {
        self.bits
    }
}

impl OpenFlags {
    /// Open for reading only.
    pub const RDONLY: u32 = 0o00000000;

    /// Open for writing only.
    pub const WRONLY: u32 = 0o00000001;

    /// Open for reading and writing.
    pub const RDWR: u32 = 0o00000002;

    /// Create file if it does not exist.
    pub const CREAT: u32 = 0o00000100;

    /// Append data to the file.
    pub const APPEND: u32 = 0o00000200;

    /// Truncate file to size 0.
    pub const TRUNC: u32 = 0o00000400;

    /// Expect to open a directory.
    pub const DIRECTORY: u32 = 0o01000000;

    /// Every bit this family knows.
    pub const KNOWN: u32 = 0o00000001 | 0o00000002 | 0o00000100 | 0o00000200 | 0o00000400
        | 0o01000000;

    /// No flags set.
    pub fn empty() -> (r: Self)
        ensures
            r@ == 0u32,
    {
        OpenFlags { bits: 0 }
    }

    /// Keep the known bits of a raw value and drop the rest.
    pub fn from_bits_truncate(b: u32) -> (r: Self)
        ensures
            r@ == b & Self::KNOWN,
    {
        OpenFlags { bits: b & Self::KNOWN }
    }

    /// Raw wire value: exactly the stored bit pattern.
    pub fn bits(&self) -> (r: u32)
        ensures
            r == self@,
    {
        self.bits
    }

    /// Whether every bit of `m` is set.
    pub fn contains(&self, m: u32) -> (r: bool)
        ensures
            r == (self@ & m == m),
    {
        self.bits & m == m
    }
}

impl Default for OpenFlags {
    fn default() -> (r: Self)
        ensures
            r@ == 0u32,
    {
        OpenFlags { bits: 0 }
    }
}

/// File mode, carried on the wire as a raw u32.
#[derive(Debug, Clone, Copy, PartialEq, Eq, Structural)]
pub struct FileMode {
    bits: u32,
}

impl View for FileMode {
    type V = u32;

    closed spec fn view(&self) -> u32 {
        self.bits
    }
}

impl FileMode {
    /// User readable.
    pub const USER_READ: u32 = 0o400;

    /// User writable.
    pub const USER_WRITE: u32 = 0o200;

    /// User executable.
    pub const USER_EXEC: u32 = 0o100;

    /// Group readable.
    pub const GROUP_READ: u32 = 0o040;

    /// Group writable.
    pub const GROUP_WRITE: u32 = 0o020;

    /// Group executable.
    pub const GROUP_EXEC: u32 = 0o010;

    /// Other readable.
    pub const OTHER_READ: u32 = 0o004;

    /// Other writable.
    pub const OTHER_WRITE: u32 = 0o002;

    /// Other executable.
    pub const OTHER_EXEC: u32 = 0o001;

    /// Every bit this family knows: all permission bits.
    pub const KNOWN: u32 = 0o777;

    /// No bits set.
    pub fn empty() -> (r: Self)
        ensures
            r@ == 0u32,
    {
        FileMode { bits: 0 }
    }

    /// Keep the known bits of a raw value and drop the rest.
    pub fn from_bits_truncate(b: u32) -> (r: Self)
        ensures
            r@ == b & Self::KNOWN,
    {
        FileMode { bits: b & Self::KNOWN }
    }

    /// Raw wire value: exactly the stored bit pattern.
    pub fn bits(&self) -> (r: u32)
        ensures
            r == self@,
    {
        self.bits
    }

    /// Whether every bit of `m` is set.
    pub fn contains(&self, m: u32) -> (r: bool)
        ensures
            r == (self@ & m == m),
    {
        self.bits & m == m
    }
}

/// Unlink flags, carried on the wire as a raw u32.
#[derive(Debug, Clone, Copy, PartialEq, Eq, Structural)]
pub struct UnlinkatFlags {
    bits: u32,
}

impl View for UnlinkatFlags {
    type V = u32;

    closed spec fn view(&self) -> u32 {
        self.bits
    }
}

impl UnlinkatFlags {
    /// Directory is to be deleted.
    pub const REMOVEDIR: u32 = 0x200;

    /// Every bit this family knows.
    pub const KNOWN: u32 = 0x200;

    /// No flags set.
    pub fn empty() -> (r: Self)
        ensures
            r@ == 0u32,
    {
        UnlinkatFlags { bits: 0 }
    }

    /// Keep the known bits of a raw value and drop the rest.
    pub fn from_bits_truncate(b: u32) -> (r: Self)
        ensures
            r@ == b & Self::KNOWN,
    {
        UnlinkatFlags { bits: b & Self::KNOWN }
    }

    /// Raw wire value: exactly the stored bit pattern.
    pub fn bits(&self) -> (r: u32)
        ensures
            r == self@,
    {
        self.bits
    }

    /// Whether every bit of `m` is set.
    pub fn contains(&self, m: u32) -> (r: bool)
        ensures
            r == (self@ & m == m),
    {
        self.bits & m == m
    }
}

/// File kind.
#[derive(Debug, Clone, Copy, PartialEq, Eq, Structural)]
pub enum FileKind {
    Unknown,
    Fifo,
    CharDevice,
    Directory,
    BlockDevice,
    File,
    Symlink,
    Sockect,
}

/// Classification of a directory-entry type tag; tags outside the
/// fixed table are Unknown, never an error.
pub open spec fn kind_of_tag(t: u8) -> FileKind {
    if t == 1 {
        FileKind::Fifo
    } else if t == 2 {
        FileKind::CharDevice
    } else if t == 4 {
        FileKind::Directory
    } else if t == 6 {
        FileKind::BlockDevice
    } else if t == 8 {
        FileKind::File
    } else if t == 10 {
        FileKind::Symlink
    } else if t == 12 {
        FileKind::Sockect
    } else {
        FileKind::Unknown
    }
}

/// Classification of a stat mode: its type bits are masked out and
/// matched against the same table; unknown patterns are Unknown.
pub open spec fn kind_of_mode(m: u32) -> FileKind {
    let k = m & 0o170000;
    if k == 0o010000 {
        FileKind::Fifo
    } else if k == 0o020000 {
        FileKind::CharDevice
    } else if k == 0o040000 {
        FileKind::Directory
    } else if k == 0o060000 {
        FileKind::BlockDevice
    } else if k == 0o100000 {
        FileKind::File
    } else if k == 0o120000 {
        FileKind::Symlink
    } else if k == 0o140000 {
        FileKind::Sockect
    } else {
        FileKind::Unknown
    }
}

/// The two classification paths agree: a type tag and a mode whose
/// type bits stand for the same kind classify to the same kind.
pub proof fn lemma_kind_agreement(t: u8, m: u32)
    requires
        m & 0o170000 == (t as u32) << 12,
    ensures
        kind_of_tag(t) == kind_of_mode(m),
{
    let tv = t as u32;
    assert(forall|x: u32| x <= 255 ==> #[trigger] (x << 12) == x * 0o010000) by (bit_vector);
    assert(m & 0o170000 == tv * 0o010000);
}

/// libc directory entry defination.
#[derive(Debug, Clone, Copy)]
pub struct LibcDirent {
    /// 64-bit inode number
    pub ino: usize,
    /// 64-bit offset to next dirent
    pub off: usize,
    /// Size of this dirent
    pub reclen: u16,
    /// Filekind
    pub type_: u8,
    /// File name
    pub name: [u8; 256],
}

/// Byte image of a directory entry: the fixed header fields at their
/// fixed offsets, then exactly the declared name bytes.
pub open spec fn dirent_wire(ino: u64, off: u64, reclen: u16, t: u8, name: Seq<u8>) -> Seq<u8> {
    spec_u64_to_le_bytes(ino) + spec_u64_to_le_bytes(off) + spec_u16_to_le_bytes(reclen) + seq![t]
        + name
}

/// Parse a directory entry from the front of a buffer: the header,
/// then the `reclen - MIN_SIZE` name bytes the header declares.
pub open spec fn dirent_parse(b: Seq<u8>) -> Option<((u64, u64, u16, u8, Seq<u8>), Seq<u8>)> {
    match take_u64(b) {
        None => None,
        Some((ino, b1)) => match take_u64(b1) {
            None => None,
            Some((off, b2)) => match take_u16(b2) {
                None => None,
                Some((reclen, b3)) => match take_u8(b3) {
                    None => None,
                    Some((t, b4)) => if LibcDirent::MIN_SIZE <= reclen
                        && reclen <= LibcDirent::MAX_SIZE && b4.len() >= reclen
                        - LibcDirent::MIN_SIZE {
                        Some(
                            (
                                (ino, off, reclen, t, b4.take(reclen - LibcDirent::MIN_SIZE)),
                                b4.skip(reclen - LibcDirent::MIN_SIZE),
                            ),
                        )
                    } else {
                        None
                    },
                },
            },
        },
    }
}

/// An encoded directory entry parses back to its fields, leaving the
/// trailing bytes untouched.
pub proof fn lemma_dirent_roundtrip(
    ino: u64,
    off: u64,
    reclen: u16,
    t: u8,
    name: Seq<u8>,
    rest: Seq<u8>,
)
    requires
        LibcDirent::MIN_SIZE <= reclen <= LibcDirent::MAX_SIZE,
        name.len() == reclen - LibcDirent::MIN_SIZE,
    ensures
        dirent_parse(dirent_wire(ino, off, reclen, t, name) + rest) == Some(
            ((ino, off, reclen, t, name), rest),
        ),
{
    let n = reclen - LibcDirent::MIN_SIZE;
    let w = dirent_wire(ino, off, reclen, t, name) + rest;
    assert(w =~= spec_u64_to_le_bytes(ino) + (spec_u64_to_le_bytes(off) + (spec_u16_to_le_bytes(
        reclen,
    ) + (seq![t] + (name + rest)))));
    lemma_take_u64(ino, spec_u64_to_le_bytes(off) + (spec_u16_to_le_bytes(reclen) + (seq![t]
        + (name + rest))));
    lemma_take_u64(off, spec_u16_to_le_bytes(reclen) + (seq![t] + (name + rest)));
    lemma_take_u16(reclen, seq![t] + (name + rest));
    lemma_take_u8(t, name + rest);
    assert((name + rest).take(n) =~= name);
    assert((name + rest).skip(n) =~= rest);
}

/// A buffer that parses as a directory entry is reproduced, byte for
/// byte, by re-encoding what was parsed.
pub proof fn lemma_dirent_bytes_roundtrip(b: Seq<u8>)
    requires
        dirent_parse(b) is Some,
    ensures
        ({
            let ((ino, off, reclen, t, name), rest) = dirent_parse(b)->Some_0;
            dirent_wire(ino, off, reclen, t, name) + rest == b
        }),
{
    lemma_auto_spec_u64_to_from_le_bytes();
    lemma_auto_spec_u16_to_from_le_bytes();
    let ((ino, off, reclen, t, name), rest) = dirent_parse(b)->Some_0;
    assert(b.take(8).take(8) =~= b.take(8));
    assert(spec_u64_to_le_bytes(ino) =~= b.take(8));
    assert(spec_u64_to_le_bytes(off) =~= b.skip(8).take(8));
    assert(spec_u16_to_le_bytes(reclen) =~= b.skip(8).skip(8).take(2));
    assert(dirent_wire(ino, off, reclen, t, name) + rest =~= b);
}

impl LibcDirent {
    /// The minimum size of a dirent i.e. name is empty.
    pub const MIN_SIZE: usize = 8 * 2 + 2 + 1;

    /// The maximum size of a dirent.
    pub const MAX_SIZE: usize = 8 * 2 + 2 + 1 + 256;

    /// Maximum buffer size which can only contain one dirent.
    pub const ONE_DIRENT_BUF_SIZE: usize = (8 * 2 + 2 + 1) * 2;

    /// A record length that fits the fixed header and the name buffer.
    pub open spec fn wf(self) -> bool {
        Self::MIN_SIZE <= self.reclen <= Self::MAX_SIZE
    }

    /// Get the file kind of the directory entry.
    pub fn kind(&self) -> (r: FileKind)
        ensures
            r == kind_of_tag(self.type_),
    {
        match self.type_ {
            1 => FileKind::Fifo,
            2 => FileKind::CharDevice,
            4 => FileKind::Directory,
            6 => FileKind::BlockDevice,
            8 => FileKind::File,
            10 => FileKind::Symlink,
            12 => FileKind::Sockect,
            _ => FileKind::Unknown,
        }
    }

    /// Get the name of the directory entry: exactly the declared
    /// `reclen - MIN_SIZE` bytes, never the rest of the buffer.
    pub fn name(&self) -> (r: &[u8])
        requires
            self.wf(),
        ensures
            r@ == self.name@.take(self.reclen - Self::MIN_SIZE),
    {
        let n = self.reclen as usize - Self::MIN_SIZE;
        slice_subrange(self.name.as_slice(), 0, n)
    }

    /// Serialize the directory entry into its fixed byte layout.
    pub fn to_bytes(&self) -> (r: Vec<u8>)
        requires
            self.wf(),
        ensures
            r@ == dirent_wire(
                self.ino as u64,
                self.off as u64,
                self.reclen,
                self.type_,
                self.name@.take(self.reclen - Self::MIN_SIZE),
            ),
    {
        let mut out: Vec<u8> = Vec::new();
        push_u64(&mut out, self.ino as u64);
        push_u64(&mut out, self.off as u64);
        push_u16(&mut out, self.reclen);
        push_u8(&mut out, self.type_);
        let n = self.reclen as usize - Self::MIN_SIZE;
        push_bytes(&mut out, slice_subrange(self.name.as_slice(), 0, n));
        proof {
            assert(out@ =~= dirent_wire(
                self.ino as u64,
                self.off as u64,
                self.reclen,
                self.type_,
                self.name@.take(self.reclen - Self::MIN_SIZE),
            ));
        }
        out
    }

    /// Deserialize a directory entry from a buffer, returning it and
    /// the remaining data; the name buffer is zero-filled past the
    /// declared name length.
    pub fn from_bytes<'a>(buf: &'a [u8]) -> (r: Result<(LibcDirent, &'a [u8]), CodecError>)
        ensures
            match dirent_parse(buf@) {
                Some(p) => match r {
                    Ok((d, rem)) => {
                        let ((ino, off, reclen, t, name), rest) = p;
                        &&& d.ino == ino as usize
                        &&& d.off == off as usize
                        &&& d.reclen == reclen
                        &&& d.type_ == t
                        &&& d.wf()
                        &&& d.name@.take(reclen - Self::MIN_SIZE) == name
                        &&& (forall|j: int|
                            reclen - Self::MIN_SIZE <= j < 256 ==> d.name@[j] == 0u8)
                        &&& rem@ == rest
                    },
                    Err(_) => false,
                },
                None => r matches Err(CodecError::MalformedInput),
            },
    {
        let (ino, b1) = match take_u64_exec(buf) {
            Some(x) => x,
            None => {
                return Err(CodecError::MalformedInput);
            },
        };
        let (off, b2) = match take_u64_exec(b1) {
            Some(x) => x,
            None => {
                return Err(CodecError::MalformedInput);
            },
        };
        let (reclen, b3) = match take_u16_exec(b2) {
            Some(x) => x,
            None => {
                return Err(CodecError::MalformedInput);
            },
        };
        let (t, b4) = match take_u8_exec(b3) {
            Some(x) => x,
            None => {
                return Err(CodecError::MalformedInput);
            },
        };
        if !(Self::MIN_SIZE <= reclen as usize && reclen as usize <= Self::MAX_SIZE && b4.len()
            >= reclen as usize - Self::MIN_SIZE) {
            return Err(CodecError::MalformedInput);
        }
        let n = reclen as usize - Self::MIN_SIZE;
        let mut name: [u8; 256] = [0u8; 256];
        let mut i: usize = 0;
        while i < n
            invariant
                i <= n <= 256,
                n <= b4@.len(),
                forall|j: int| 0 <= j < i ==> name@[j] == b4@[j],
                forall|j: int| i <= j < 256 ==> name@[j] == 0u8,
            decreases n - i,
        {
            name[i] = *slice_index_get(b4, i);
            i += 1;
        }
        let rem = slice_subrange(b4, n, b4.len());
        proof {
            assert(name@.take(n as int) =~= b4@.take(n as int));
            assert(rem@ =~= b4@.skip(n as int));
        }
        Ok((LibcDirent { ino: ino as usize, off: off as usize, reclen, type_: t, name }, rem))
    }
}

/// libc file stat defination.  Field order, widths and the two padding
/// fields reproduce the native layout; the padding carries no meaning.
#[derive(Debug, Clone, Copy)]
pub struct LibcStat {
    pub dev: u64,
    pub ino: u64,
    pub mode: u32,
    pub nlink: u32,
    pub uid: u32,
    pub gid: u32,
    pub rdev: u64,
    pub _pad1: u64,
    pub size: u64,
    pub blksize: u32,
    pub _pad2: u32,
    pub blocks: u64,
    pub atime_sec: u64,
    pub atime_nsec: u64,
    pub mtime_sec: u64,
    pub mtime_nsec: u64,
    pub ctime_sec: u64,
    pub ctime_nsec: u64,
}

/// Byte image of a stat record: every field, padding included, at its
/// fixed offset, little-endian.
pub open spec fn stat_wire(s: LibcStat) -> Seq<u8> {
    spec_u64_to_le_bytes(s.dev) + spec_u64_to_le_bytes(s.ino) + spec_u32_to_le_bytes(s.mode)
        + spec_u32_to_le_bytes(s.nlink) + spec_u32_to_le_bytes(s.uid) + spec_u32_to_le_bytes(s.gid)
        + spec_u64_to_le_bytes(s.rdev) + spec_u64_to_le_bytes(s._pad1) + spec_u64_to_le_bytes(
        s.size,
    ) + spec_u32_to_le_bytes(s.blksize) + spec_u32_to_le_bytes(s._pad2) + spec_u64_to_le_bytes(
        s.blocks,
    ) + spec_u64_to_le_bytes(s.atime_sec) + spec_u64_to_le_bytes(s.atime_nsec)
        + spec_u64_to_le_bytes(s.mtime_sec) + spec_u64_to_le_bytes(s.mtime_nsec)
        + spec_u64_to_le_bytes(s.ctime_sec) + spec_u64_to_le_bytes(s.ctime_nsec)
}

/// The stat record read off a full-size byte image, each field from
/// its fixed offset.
pub open spec fn stat_of_bytes(b: Seq<u8>) -> LibcStat
    recommends
        b.len() == LibcStat::SIZE,
{
    LibcStat {
        dev: spec_u64_from_le_bytes(b.subrange(0, 8)),
        ino: spec_u64_from_le_bytes(b.subrange(8, 16)),
        mode: spec_u32_from_le_bytes(b.subrange(16, 20)),
        nlink: spec_u32_from_le_bytes(b.subrange(20, 24)),
        uid: spec_u32_from_le_bytes(b.subrange(24, 28)),
        gid: spec_u32_from_le_bytes(b.subrange(28, 32)),
        rdev: spec_u64_from_le_bytes(b.subrange(32, 40)),
        _pad1: spec_u64_from_le_bytes(b.subrange(40, 48)),
        size: spec_u64_from_le_bytes(b.subrange(48, 56)),
        blksize: spec_u32_from_le_bytes(b.subrange(56, 60)),
        _pad2: spec_u32_from_le_bytes(b.subrange(60, 64)),
        blocks: spec_u64_from_le_bytes(b.subrange(64, 72)),
        atime_sec: spec_u64_from_le_bytes(b.subrange(72, 80)),
        atime_nsec: spec_u64_from_le_bytes(b.subrange(80, 88)),
        mtime_sec: spec_u64_from_le_bytes(b.subrange(88, 96)),
        mtime_nsec: spec_u64_from_le_bytes(b.subrange(96, 104)),
        ctime_sec: spec_u64_from_le_bytes(b.subrange(104, 112)),
        ctime_nsec: spec_u64_from_le_bytes(b.subrange(112, 120)),
    }
}

/// Parse a stat record from the front of a buffer.
pub open spec fn stat_parse(b: Seq<u8>) -> Option<(LibcStat, Seq<u8>)> {
    if b.len() >= LibcStat::SIZE {
        Some((stat_of_bytes(b.take(LibcStat::SIZE as int)), b.skip(LibcStat::SIZE as int)))
    } else {
        None
    }
}

/// An encoded stat record parses back to itself, leaving the trailing
/// bytes untouched.
pub proof fn lemma_stat_roundtrip(s: LibcStat, rest: Seq<u8>)
    ensures
        stat_parse(stat_wire(s) + rest) == Some((s, rest)),
{
    lemma_auto_spec_u64_to_from_le_bytes();
    lemma_auto_spec_u32_to_from_le_bytes();
    let w = stat_wire(s) + rest;
    assert(w.take(120).subrange(0, 8) =~= spec_u64_to_le_bytes(s.dev));
    assert(w.take(120).subrange(8, 16) =~= spec_u64_to_le_bytes(s.ino));
    assert(w.take(120).subrange(16, 20) =~= spec_u32_to_le_bytes(s.mode));
    assert(w.take(120).subrange(20, 24) =~= spec_u32_to_le_bytes(s.nlink));
    assert(w.take(120).subrange(24, 28) =~= spec_u32_to_le_bytes(s.uid));
    assert(w.take(120).subrange(28, 32) =~= spec_u32_to_le_bytes(s.gid));
    assert(w.take(120).subrange(32, 40) =~= spec_u64_to_le_bytes(s.rdev));
    assert(w.take(120).subrange(40, 48) =~= spec_u64_to_le_bytes(s._pad1));
    assert(w.take(120).subrange(48, 56) =~= spec_u64_to_le_bytes(s.size));
    assert(w.take(120).subrange(56, 60) =~= spec_u32_to_le_bytes(s.blksize));
    assert(w.take(120).subrange(60, 64) =~= spec_u32_to_le_bytes(s._pad2));
    assert(w.take(120).subrange(64, 72) =~= spec_u64_to_le_bytes(s.blocks));
    assert(w.take(120).subrange(72, 80) =~= spec_u64_to_le_bytes(s.atime_sec));
    assert(w.take(120).subrange(80, 88) =~= spec_u64_to_le_bytes(s.atime_nsec));
    assert(w.take(120).subrange(88, 96) =~= spec_u64_to_le_bytes(s.mtime_sec));
    assert(w.take(120).subrange(96, 104) =~= spec_u64_to_le_bytes(s.mtime_nsec));
    assert(w.take(120).subrange(104, 112) =~= spec_u64_to_le_bytes(s.ctime_sec));
    assert(w.take(120).subrange(112, 120) =~= spec_u64_to_le_bytes(s.ctime_nsec));
    assert(w.skip(120) =~= rest);
}

/// A full-size byte image is reproduced, byte for byte, by re-encoding
/// the stat record read off it.
pub proof fn lemma_stat_bytes_roundtrip(b: Seq<u8>)
    requires
        b.len() == LibcStat::SIZE,
    ensures
        stat_wire(stat_of_bytes(b)) == b,
{
    lemma_auto_spec_u64_to_from_le_bytes();
    lemma_auto_spec_u32_to_from_le_bytes();
    assert(stat_wire(stat_of_bytes(b)) =~= b);
}

impl LibcStat {
    /// Size of the byte image of a stat record.
    pub const SIZE: usize = 120;

    /// Permission bits of the file.
    pub fn mode(&self) -> (r: FileMode)
        ensures
            r@ == self.mode & FileMode::KNOWN,
    {
        FileMode::from_bits_truncate(self.mode)
    }

    /// Kind of the file.
    pub fn kind(&self) -> (r: FileKind)
        ensures
            r == kind_of_mode(self.mode),
    {
        let kind_bits = self.mode & 0o170000;
        if kind_bits == 0o010000 {
            FileKind::Fifo
        } else if kind_bits == 0o020000 {
            FileKind::CharDevice
        } else if kind_bits == 0o040000 {
            FileKind::Directory
        } else if kind_bits == 0o060000 {
            FileKind::BlockDevice
        } else if kind_bits == 0o100000 {
            FileKind::File
        } else if kind_bits == 0o120000 {
            FileKind::Symlink
        } else if kind_bits == 0o140000 {
            FileKind::Sockect
        } else {
            FileKind::Unknown
        }
    }

    /// Serialize the stat record into its fixed byte layout.
    pub fn to_bytes(&self) -> (r: Vec<u8>)
        ensures
            r@ == stat_wire(*self),
    {
        let mut out: Vec<u8> = Vec::new();
        push_u64(&mut out, self.dev);
        push_u64(&mut out, self.ino);
        push_u32(&mut out, self.mode);
        push_u32(&mut out, self.nlink);
        push_u32(&mut out, self.uid);
        push_u32(&mut out, self.gid);
        push_u64(&mut out, self.rdev);
        push_u64(&mut out, self._pad1);
        push_u64(&mut out, self.size);
        push_u32(&mut out, self.blksize);
        push_u32(&mut out, self._pad2);
        push_u64(&mut out, self.blocks);
        push_u64(&mut out, self.atime_sec);
        push_u64(&mut out, self.atime_nsec);
        push_u64(&mut out, self.mtime_sec);
        push_u64(&mut out, self.mtime_nsec);
        push_u64(&mut out, self.ctime_sec);
        push_u64(&mut out, self.ctime_nsec);
        proof {
            assert(out@ =~= stat_wire(*self));
        }
        out
    }

    /// Deserialize a stat record from a buffer, returning it and the
    /// remaining data.
    pub fn from_bytes<'a>(buf: &'a [u8]) -> (r: Result<(LibcStat, &'a [u8]), CodecError>)
        ensures
            match stat_parse(buf@) {
                Some((s, rest)) => match r {
                    Ok((d, rem)) => d == s && rem@ == rest,
                    Err(_) => false,
                },
                None => r matches Err(CodecError::MalformedInput),
            },
    {
        if buf.len() < Self::SIZE {
            return Err(CodecError::MalformedInput);
        }
        let d = LibcStat {
            dev: u64_from_le_bytes(slice_subrange(buf, 0, 8)),
            ino: u64_from_le_bytes(slice_subrange(buf, 8, 16)),
            mode: u32_from_le_bytes(slice_subrange(buf, 16, 20)),
            nlink: u32_from_le_bytes(slice_subrange(buf, 20, 24)),
            uid: u32_from_le_bytes(slice_subrange(buf, 24, 28)),
            gid: u32_from_le_bytes(slice_subrange(buf, 28, 32)),
            rdev: u64_from_le_bytes(slice_subrange(buf, 32, 40)),
            _pad1: u64_from_le_bytes(slice_subrange(buf, 40, 48)),
            size: u64_from_le_bytes(slice_subrange(buf, 48, 56)),
            blksize: u32_from_le_bytes(slice_subrange(buf, 56, 60)),
            _pad2: u32_from_le_bytes(slice_subrange(buf, 60, 64)),
            blocks: u64_from_le_bytes(slice_subrange(buf, 64, 72)),
            atime_sec: u64_from_le_bytes(slice_subrange(buf, 72, 80)),
            atime_nsec: u64_from_le_bytes(slice_subrange(buf, 80, 88)),
            mtime_sec: u64_from_le_bytes(slice_subrange(buf, 88, 96)),
            mtime_nsec: u64_from_le_bytes(slice_subrange(buf, 96, 104)),
            ctime_sec: u64_from_le_bytes(slice_subrange(buf, 104, 112)),
            ctime_nsec: u64_from_le_bytes(slice_subrange(buf, 112, 120)),
        };
        let rem = slice_subrange(buf, Self::SIZE, buf.len());
        proof {
            let w = buf@.take(120);
            assert(buf@.subrange(0, 8) =~= w.subrange(0, 8));
            assert(buf@.subrange(8, 16) =~= w.subrange(8, 16));
            assert(buf@.subrange(16, 20) =~= w.subrange(16, 20));
            assert(buf@.subrange(20, 24) =~= w.subrange(20, 24));
            assert(buf@.subrange(24, 28) =~= w.subrange(24, 28));
            assert(buf@.subrange(28, 32) =~= w.subrange(28, 32));
            assert(buf@.subrange(32, 40) =~= w.subrange(32, 40));
            assert(buf@.subrange(40, 48) =~= w.subrange(40, 48));
            assert(buf@.subrange(48, 56) =~= w.subrange(48, 56));
            assert(buf@.subrange(56, 60) =~= w.subrange(56, 60));
            assert(buf@.subrange(60, 64) =~= w.subrange(60, 64));
            assert(buf@.subrange(64, 72) =~= w.subrange(64, 72));
            assert(buf@.subrange(72, 80) =~= w.subrange(72, 80));
            assert(buf@.subrange(80, 88) =~= w.subrange(80, 88));
            assert(buf@.subrange(88, 96) =~= w.subrange(88, 96));
            assert(buf@.subrange(96, 104) =~= w.subrange(96, 104));
            assert(buf@.subrange(104, 112) =~= w.subrange(104, 112));
            assert(buf@.subrange(112, 120) =~= w.subrange(112, 120));
            assert(rem@ =~= buf@.skip(120));
        }
        Ok((d, rem))
    }
}

/// Decoded, layout-independent counterpart of a directory entry, safe
/// to copy, compare and retain.
#[derive(Debug, Clone, Copy)]
pub struct DirEntry {
    /// Inode number.
    pub ino: usize,
    /// Number of meaningful leading bytes of `name`.
    pub name_len: usize,
    /// Name buffer; only the first `name_len` bytes carry meaning.
    pub name: [u8; 256],
}

/// Decoded, layout-independent counterpart of a stat record, safe to
/// copy, compare and retain.
#[derive(Debug, Clone, Copy, PartialEq, Eq, Structural)]
pub struct FileStat {
    /// Inode number.
    pub ino: u64,
    /// Permission bits, masked to the known set.
    pub mode: FileMode,
    /// Owner id.
    pub uid: u32,
    /// Group id.
    pub gid: u32,
    /// Kind of the file.
    pub kind: FileKind,
    /// Number of hard links.
    pub nlink: u32,
}

impl LibcDirent {
    /// Decode into the safe counterpart, with the name length made
    /// explicit instead of derived from the record length.
    pub fn decode(&self) -> (r: DirEntry)
        requires
            self.wf(),
        ensures
            r.ino == self.ino,
            r.name_len == self.reclen - Self::MIN_SIZE,
            r.name@ == self.name@,
    {
        DirEntry { ino: self.ino, name_len: self.reclen as usize - Self::MIN_SIZE, name: self.name }
    }
}

/// Open and possibly create a file.
#[derive(Debug)]
pub struct Openat {
    /// The file descriptor of the directory to open the file in.
    pub dirfd: isize,
    /// The path to the file to open.
    pub path: Path,
    /// The flags to use when opening the file.
    pub flags: OpenFlags,
    /// The mode to use when creating the file.
    pub mode: FileMode,
}

/// Wire image of an open command: the identifier, then each field in
/// declaration order.
pub open spec fn openat_wire(dirfd: i64, path: Seq<u8>, flags: u32, mode: u32) -> Seq<u8> {
    spec_u64_to_le_bytes(56) + spec_u64_to_le_bytes(u64_of_i64(dirfd)) + path_wire(path)
        + spec_u32_to_le_bytes(flags) + spec_u32_to_le_bytes(mode)
}

/// Parse an open command from the front of a buffer.
pub open spec fn openat_parse(d: Seq<u8>) -> Option<((i64, Seq<u8>, u32, u32), Seq<u8>)> {
    match take_u64(d) {
        None => None,
        Some((id, d1)) => if id != 56 {
            None
        } else {
            match take_i64(d1) {
                None => None,
                Some((dirfd, d2)) => match take_path(d2) {
                    None => None,
                    Some((path, d3)) => match take_u32(d3) {
                        None => None,
                        Some((flags, d4)) => match take_u32(d4) {
                            None => None,
                            Some((mode, d5)) => Some(((dirfd, path, flags, mode), d5)),
                        },
                    },
                },
            }
        },
    }
}

/// Encoding then decoding an open command yields the same fields (the
/// descriptor cast is lossless), leaves exactly the trailing bytes,
/// and the identifier peeked off the encoding is the declared one.
pub proof fn lemma_openat_roundtrip(c: Openat, rest: Seq<u8>)
    requires
        c.path@.len() <= MAX_PATH_LEN,
        c.flags@ & OpenFlags::KNOWN == c.flags@,
        c.mode@ & FileMode::KNOWN == c.mode@,
    ensures
        openat_parse(openat_wire(c.dirfd as i64, c.path@, c.flags@, c.mode@) + rest) == Some(
            ((c.dirfd as i64, c.path@, c.flags@, c.mode@), rest),
        ),
        (c.dirfd as i64) as isize == c.dirfd,
        take_u64(openat_wire(c.dirfd as i64, c.path@, c.flags@, c.mode@) + rest)->Some_0.0
            == Openat::ID as u64,
{
    let w = openat_wire(c.dirfd as i64, c.path@, c.flags@, c.mode@) + rest;
    let t1 = spec_u64_to_le_bytes(u64_of_i64(c.dirfd as i64)) + (path_wire(c.path@)
        + (spec_u32_to_le_bytes(c.flags@) + (spec_u32_to_le_bytes(c.mode@) + rest)));
    assert(w =~= spec_u64_to_le_bytes(56) + t1);
    lemma_take_u64(56, t1);
    lemma_take_i64(c.dirfd as i64, path_wire(c.path@) + (spec_u32_to_le_bytes(c.flags@)
        + (spec_u32_to_le_bytes(c.mode@) + rest)));
    lemma_take_path(c.path@, spec_u32_to_le_bytes(c.flags@) + (spec_u32_to_le_bytes(c.mode@)
        + rest));
    lemma_take_u32(c.flags@, spec_u32_to_le_bytes(c.mode@) + rest);
    lemma_take_u32(c.mode@, rest);
}

impl Openat {
    /// Command id.
    pub const ID: usize = 56;

    /// Create a new command.
    pub fn new(dirfd: isize, path: Path, flags: OpenFlags, mode: FileMode) -> (r: Self)
        ensures
            r.dirfd == dirfd,
            r.path@ == path@,
            r.flags == flags,
            r.mode == mode,
    {
        Openat { dirfd, path, flags, mode }
    }

    /// Serialize the command into a byte array.
    pub fn to_bytes(&self) -> (r: Vec<u8>)
        ensures
            r@ == openat_wire(self.dirfd as i64, self.path@, self.flags@, self.mode@),
    {
        let mut out: Vec<u8> = Vec::new();
        push_u64(&mut out, 56);
        push_i64(&mut out, self.dirfd as i64);
        push_path(&mut out, &self.path);
        push_u32(&mut out, self.flags.bits());
        push_u32(&mut out, self.mode.bits());
        proof {
            assert(out@ =~= openat_wire(self.dirfd as i64, self.path@, self.flags@, self.mode@));
        }
        out
    }

    /// Deserialize the command from a byte array, return the command
    /// and the remaining data; raw flag values are masked to the bits
    /// the family knows.
    pub fn from_bytes<'a>(data: &'a [u8]) -> (r: Result<(Self, &'a [u8]), CodecError>)
        ensures
            match openat_parse(data@) {
                Some(p) => match r {
                    Ok((c, rem)) => {
                        let ((dirfd, path, flags, mode), rest) = p;
                        &&& c.dirfd == dirfd as isize
                        &&& c.path@ == path
                        &&& c.flags@ == flags & OpenFlags::KNOWN
                        &&& c.mode@ == mode & FileMode::KNOWN
                        &&& rem@ == rest
                    },
                    Err(_) => false,
                },
                None => r matches Err(CodecError::MalformedInput),
            },
    {
        let (id, d1) = match take_u64_exec(data) {
            Some(x) => x,
            None => {
                return Err(CodecError::MalformedInput);
            },
        };
        if id != 56 {
            return Err(CodecError::MalformedInput);
        }
        let (dirfd, d2) = match take_i64_exec(d1) {
            Some(x) => x,
            None => {
                return Err(CodecError::MalformedInput);
            },
        };
        let (path, d3) = match take_path_exec(d2) {
            Some(x) => x,
            None => {
                return Err(CodecError::MalformedInput);
            },
        };
        let (flags, d4) = match take_u32_exec(d3) {
            Some(x) => x,
            None => {
                return Err(CodecError::MalformedInput);
            },
        };
        let (mode, d5) = match take_u32_exec(d4) {
            Some(x) => x,
            None => {
                return Err(CodecError::MalformedInput);
            },
        };
        Ok(
            (
                Openat {
                    dirfd: dirfd as isize,
                    path,
                    flags: OpenFlags::from_bits_truncate(flags),
                    mode: FileMode::from_bits_truncate(mode),
                },
                d5,
            ),
        )
    }
}

impl PartialEq for Openat {
    fn eq(&self, other: &Self) -> (r: bool) {
        self.dirfd == other.dirfd && self.path == other.path && self.flags == other.flags
            && self.mode == other.mode
    }
}

impl vstd::std_specs::cmp::PartialEqSpecImpl for Openat {
    open spec fn obeys_eq_spec() -> bool {
        true
    }

    open spec fn eq_spec(&self, other: &Self) -> bool {
        self.dirfd == other.dirfd && self.path@ == other.path@ && self.flags == other.flags
            && self.mode == other.mode
    }
}

impl LibcStat {
    /// Decode into the safe counterpart.
    pub fn decode(&self) -> (r: FileStat)
        ensures
            r.ino == self.ino,
            r.mode@ == self.mode & FileMode::KNOWN,
            r.uid == self.uid,
            r.gid == self.gid,
            r.kind == kind_of_mode(self.mode),
            r.nlink == self.nlink,
    {
        FileStat {
            ino: self.ino,
            mode: self.mode(),
            uid: self.uid,
            gid: self.gid,
            kind: self.kind(),
            nlink: self.nlink,
        }
    }
}

/// Close a file descriptor.
#[derive(Debug, Clone, Copy, PartialEq, Eq, Structural)]
pub struct Close {
    /// The file descriptor to close.
    pub fd: isize,
}

/// Wire image of the command: the identifier, then each field in
/// declaration order.
pub open spec fn close_wire(fd: i64) -> Seq<u8> {
    spec_u64_to_le_bytes(57) + spec_u64_to_le_bytes(u64_of_i64(fd))
}

/// Parse the command from the front of a buffer.
pub open spec fn close_parse(d: Seq<u8>) -> Option<(i64, Seq<u8>)> {
    match take_u64(d) {
        None => None,
        Some((id, d1)) => if id != 57 {
            None
        } else {
            match take_i64(d1) {
                None => None,
                Some((fd, d2)) => Some((fd, d2)),
            }
        },
    }
}

/// Encoding then decoding the command yields the same fields, leaves
/// exactly the trailing bytes, and the identifier peeked off the
/// encoding is the declared one.
pub proof fn lemma_close_roundtrip(c: Close, rest: Seq<u8>)
    ensures
        close_parse(close_wire(c.fd as i64) + rest) == Some((c.fd as i64, rest)),
        (c.fd as i64) as isize == c.fd,
        take_u64(close_wire(c.fd as i64) + rest)->Some_0.0 == Close::ID as u64,
{
    let w = close_wire(c.fd as i64) + rest;
    assert(w =~= spec_u64_to_le_bytes(57) + (spec_u64_to_le_bytes(u64_of_i64(c.fd as i64)) + (rest)));
    lemma_take_u64(57, spec_u64_to_le_bytes(u64_of_i64(c.fd as i64)) + (rest));
    lemma_take_i64(c.fd as i64, rest);
}

impl Close {
    /// Command id.
    pub const ID: usize = 57;

    /// Create a new command.
    pub fn new(fd: isize) -> (r: Self)
        ensures
            r.fd == fd,
    {
        Close { fd }
    }

    /// Serialize the command into a byte array.
    pub fn to_bytes(&self) -> (r: Vec<u8>)
        ensures
            r@ == close_wire(self.fd as i64),
    {
        let mut out: Vec<u8> = Vec::new();
        push_u64(&mut out, 57);
        push_i64(&mut out, self.fd as i64);
        proof {
            assert(out@ =~= close_wire(self.fd as i64));
        }
        out
    }

    /// Deserialize the command from a byte array, return the command
    /// and the remaining data.
    pub fn from_bytes<'a>(data: &'a [u8]) -> (r: Result<(Self, &'a [u8]), CodecError>)
        ensures
            match close_parse(data@) {
                Some(p) => match r {
                    Ok((c, rem)) => {
                        let (fd, rest) = p;
                        &&& c.fd == fd as isize
                        &&& rem@ == rest
                    },
                    Err(_) => false,
                },
                None => r matches Err(CodecError::MalformedInput),
            },
    {
        let (id, d1) = match take_u64_exec(data) {
            Some(x) => x,
            None => {
                return Err(CodecError::MalformedInput);
            },
        };
        if id != 57 {
            return Err(CodecError::MalformedInput);
        }
        let (fd, d2) = match take_i64_exec(d1) {
            Some(x) => x,
            None => {
                return Err(CodecError::MalformedInput);
            },
        };
        Ok((Close { fd: fd as isize }, d2))
    }
}

/// Get file status.
#[derive(Debug, Clone, Copy, PartialEq, Eq, Structural)]
pub struct Fstat {
    /// The file descriptor to get the status of.
    pub fd: isize,
}

/// Wire image of the command: the identifier, then each field in
/// declaration order.
pub open spec fn fstat_wire(fd: i64) -> Seq<u8> {
    spec_u64_to_le_bytes(80) + spec_u64_to_le_bytes(u64_of_i64(fd))
}

/// Parse the command from the front of a buffer.
pub open spec fn fstat_parse(d: Seq<u8>) -> Option<(i64, Seq<u8>)> {
    match take_u64(d) {
        None => None,
        Some((id, d1)) => if id != 80 {
            None
        } else {
            match take_i64(d1) {
                None => None,
                Some((fd, d2)) => Some((fd, d2)),
            }
        },
    }
}

/// Encoding then decoding the command yields the same fields, leaves
/// exactly the trailing bytes, and the identifier peeked off the
/// encoding is the declared one.
pub proof fn lemma_fstat_roundtrip(c: Fstat, rest: Seq<u8>)
    ensures
        fstat_parse(fstat_wire(c.fd as i64) + rest) == Some((c.fd as i64, rest)),
        (c.fd as i64) as isize == c.fd,
        take_u64(fstat_wire(c.fd as i64) + rest)->Some_0.0 == Fstat::ID as u64,
{
    let w = fstat_wire(c.fd as i64) + rest;
    assert(w =~= spec_u64_to_le_bytes(80) + (spec_u64_to_le_bytes(u64_of_i64(c.fd as i64)) + (rest)));
    lemma_take_u64(80, spec_u64_to_le_bytes(u64_of_i64(c.fd as i64)) + (rest));
    lemma_take_i64(c.fd as i64, rest);
}

impl Fstat {
    /// Command id.
    pub const ID: usize = 80;

    /// Create a new command.
    pub fn new(fd: isize) -> (r: Self)
        ensures
            r.fd == fd,
    {
        Fstat { fd }
    }

    /// Serialize the command into a byte array.
    pub fn to_bytes(&self) -> (r: Vec<u8>)
        ensures
            r@ == fstat_wire(self.fd as i64),
    {
        let mut out: Vec<u8> = Vec::new();
        push_u64(&mut out, 80);
        push_i64(&mut out, self.fd as i64);
        proof {
            assert(out@ =~= fstat_wire(self.fd as i64));
        }
        out
    }

    /// Deserialize the command from a byte array, return the command
    /// and the remaining data.
    pub fn from_bytes<'a>(data: &'a [u8]) -> (r: Result<(Self, &'a [u8]), CodecError>)
        ensures
            match fstat_parse(data@) {
                Some(p) => match r {
                    Ok((c, rem)) => {
                        let (fd, rest) = p;
                        &&& c.fd == fd as isize
                        &&& rem@ == rest
                    },
                    Err(_) => false,
                },
                None => r matches Err(CodecError::MalformedInput),
            },
    {
        let (id, d1) = match take_u64_exec(data) {
            Some(x) => x,
            None => {
                return Err(CodecError::MalformedInput);
            },
        };
        if id != 80 {
            return Err(CodecError::MalformedInput);
        }
        let (fd, d2) = match take_i64_exec(d1) {
            Some(x) => x,
            None => {
                return Err(CodecError::MalformedInput);
            },
        };
        Ok((Fstat { fd: fd as isize }, d2))
    }
}

/// Get directory entries; the receiver may be asked repeatedly
/// until the directory is exhausted.
#[derive(Debug, Clone, Copy, PartialEq, Eq, Structural)]
pub struct Getdents {
    /// The file descriptor to get directory entries from.
    pub fd: isize,
    /// The expected number of dentries to get.
    pub count: usize,
}

/// Wire image of the command: the identifier, then each field in
/// declaration order.
pub open spec fn getdents_wire(fd: i64, count: u64) -> Seq<u8> {
    spec_u64_to_le_bytes(61) + spec_u64_to_le_bytes(u64_of_i64(fd)) + spec_u64_to_le_bytes(count)
}

/// Parse the command from the front of a buffer.
pub open spec fn getdents_parse(d: Seq<u8>) -> Option<((i64, u64), Seq<u8>)> {
    match take_u64(d) {
        None => None,
        Some((id, d1)) => if id != 61 {
            None
        } else {
            match take_i64(d1) {
                None => None,
                Some((fd, d2)) => match take_u64(d2) {
                    None => None,
                    Some((count, d3)) => Some(((fd, count), d3)),
                },
            }
        },
    }
}

/// Encoding then decoding the command yields the same fields, leaves
/// exactly the trailing bytes, and the identifier peeked off the
/// encoding is the declared one.
pub proof fn lemma_getdents_roundtrip(c: Getdents, rest: Seq<u8>)
    ensures
        getdents_parse(getdents_wire(c.fd as i64, c.count as u64) + rest) == Some(((c.fd as i64, c.count as u64), rest)),
        (c.fd as i64) as isize == c.fd,
        (c.count as u64) as usize == c.count,
        take_u64(getdents_wire(c.fd as i64, c.count as u64) + rest)->Some_0.0 == Getdents::ID as u64,
{
    let w = getdents_wire(c.fd as i64, c.count as u64) + rest;
    assert(w =~= spec_u64_to_le_bytes(61) + (spec_u64_to_le_bytes(u64_of_i64(c.fd as i64)) + (spec_u64_to_le_bytes(c.count as u64) + (rest))));
    lemma_take_u64(61, spec_u64_to_le_bytes(u64_of_i64(c.fd as i64)) + (spec_u64_to_le_bytes(c.count as u64) + (rest)));
    lemma_take_i64(c.fd as i64, spec_u64_to_le_bytes(c.count as u64) + (rest));
    lemma_take_u64(c.count as u64, rest);
}

impl Getdents {
    /// Command id.
    pub const ID: usize = 61;

    /// Create a new command.
    pub fn new(fd: isize, count: usize) -> (r: Self)
        ensures
            r.fd == fd,
            r.count == count,
    {
        Getdents { fd, count }
    }

    /// Serialize the command into a byte array.
    pub fn to_bytes(&self) -> (r: Vec<u8>)
        ensures
            r@ == getdents_wire(self.fd as i64, self.count as u64),
    {
        let mut out: Vec<u8> = Vec::new();
        push_u64(&mut out, 61);
        push_i64(&mut out, self.fd as i64);
        push_u64(&mut out, self.count as u64);
        proof {
            assert(out@ =~= getdents_wire(self.fd as i64, self.count as u64));
        }
        out
    }

    /// Deserialize the command from a byte array, return the command
    /// and the remaining data.
    pub fn from_bytes<'a>(data: &'a [u8]) -> (r: Result<(Self, &'a [u8]), CodecError>)
        ensures
            match getdents_parse(data@) {
                Some(p) => match r {
                    Ok((c, rem)) => {
                        let ((fd, count), rest) = p;
                        &&& c.fd == fd as isize
                        &&& c.count == count as usize
                        &&& rem@ == rest
                    },
                    Err(_) => false,
                },
                None => r matches Err(CodecError::MalformedInput),
            },
    {
        let (id, d1) = match take_u64_exec(data) {
            Some(x) => x,
            None => {
                return Err(CodecError::MalformedInput);
            },
        };
        if id != 61 {
            return Err(CodecError::MalformedInput);
        }
        let (fd, d2) = match take_i64_exec(d1) {
            Some(x) => x,
            None => {
                return Err(CodecError::MalformedInput);
            },
        };
        let (count, d3) = match take_u64_exec(d2) {
            Some(x) => x,
            None => {
                return Err(CodecError::MalformedInput);
            },
        };
        Ok((Getdents { fd: fd as isize, count: count as usize }, d3))
    }
}

/// Make a new name for a file.
#[derive(Debug)]
pub struct Linkat {
    /// File descriptor of the old directory.
    pub olddirfd: isize,
    /// The old path.
    pub oldpath: Path,
    /// File descriptor of the new directory.
    pub newdirfd: isize,
    /// The new path.
    pub newpath: Path,
}

/// Wire image of the command: the identifier, then each field in
/// declaration order.
pub open spec fn linkat_wire(olddirfd: i64, oldpath: Seq<u8>, newdirfd: i64, newpath: Seq<u8>) -> Seq<u8> {
    spec_u64_to_le_bytes(37) + spec_u64_to_le_bytes(u64_of_i64(olddirfd)) + path_wire(oldpath) + spec_u64_to_le_bytes(u64_of_i64(newdirfd)) + path_wire(newpath)
}

/// Parse the command from the front of a buffer.
pub open spec fn linkat_parse(d: Seq<u8>) -> Option<((i64, Seq<u8>, i64, Seq<u8>), Seq<u8>)> {
    match take_u64(d) {
        None => None,
        Some((id, d1)) => if id != 37 {
            None
        } else {
            match take_i64(d1) {
                None => None,
                Some((olddirfd, d2)) => match take_path(d2) {
                    None => None,
                    Some((oldpath, d3)) => match take_i64(d3) {
                        None => None,
                        Some((newdirfd, d4)) => match take_path(d4) {
                            None => None,
                            Some((newpath, d5)) => Some(((olddirfd, oldpath, newdirfd, newpath), d5)),
                        },
                    },
                },
            }
        },
    }
}

/// Encoding then decoding the command yields the same fields, leaves
/// exactly the trailing bytes, and the identifier peeked off the
/// encoding is the declared one.
pub proof fn lemma_linkat_roundtrip(c: Linkat, rest: Seq<u8>)
    requires
        c.oldpath@.len() <= MAX_PATH_LEN,
        c.newpath@.len() <= MAX_PATH_LEN,
    ensures
        linkat_parse(linkat_wire(c.olddirfd as i64, c.oldpath@, c.newdirfd as i64, c.newpath@) + rest) == Some(((c.olddirfd as i64, c.oldpath@, c.newdirfd as i64, c.newpath@), rest)),
        (c.olddirfd as i64) as isize == c.olddirfd,
        (c.newdirfd as i64) as isize == c.newdirfd,
        take_u64(linkat_wire(c.olddirfd as i64, c.oldpath@, c.newdirfd as i64, c.newpath@) + rest)->Some_0.0 == Linkat::ID as u64,
{
    let w = linkat_wire(c.olddirfd as i64, c.oldpath@, c.newdirfd as i64, c.newpath@) + rest;
    assert(w =~= spec_u64_to_le_bytes(37) + (spec_u64_to_le_bytes(u64_of_i64(c.olddirfd as i64)) + (path_wire(c.oldpath@) + (spec_u64_to_le_bytes(u64_of_i64(c.newdirfd as i64)) + (path_wire(c.newpath@) + (rest))))));
    lemma_take_u64(37, spec_u64_to_le_bytes(u64_of_i64(c.olddirfd as i64)) + (path_wire(c.oldpath@) + (spec_u64_to_le_bytes(u64_of_i64(c.newdirfd as i64)) + (path_wire(c.newpath@) + (rest)))));
    lemma_take_i64(c.olddirfd as i64, path_wire(c.oldpath@) + (spec_u64_to_le_bytes(u64_of_i64(c.newdirfd as i64)) + (path_wire(c.newpath@) + (rest))));
    lemma_take_path(c.oldpath@, spec_u64_to_le_bytes(u64_of_i64(c.newdirfd as i64)) + (path_wire(c.newpath@) + (rest)));
    lemma_take_i64(c.newdirfd as i64, path_wire(c.newpath@) + (rest));
    lemma_take_path(c.newpath@, rest);
}

impl Linkat {
    /// Command id.
    pub const ID: usize = 37;

    /// Create a new command.
    pub fn new(olddirfd: isize, oldpath: Path, newdirfd: isize, newpath: Path) -> (r: Self)
        ensures
            r.olddirfd == olddirfd,
            r.oldpath@ == oldpath@,
            r.newdirfd == newdirfd,
            r.newpath@ == newpath@,
    {
        Linkat { olddirfd, oldpath, newdirfd, newpath }
    }

    /// Serialize the command into a byte array.
    pub fn to_bytes(&self) -> (r: Vec<u8>)
        ensures
            r@ == linkat_wire(self.olddirfd as i64, self.oldpath@, self.newdirfd as i64, self.newpath@),
    {
        let mut out: Vec<u8> = Vec::new();
        push_u64(&mut out, 37);
        push_i64(&mut out, self.olddirfd as i64);
        push_path(&mut out, &self.oldpath);
        push_i64(&mut out, self.newdirfd as i64);
        push_path(&mut out, &self.newpath);
        proof {
            assert(out@ =~= linkat_wire(self.olddirfd as i64, self.oldpath@, self.newdirfd as i64, self.newpath@));
        }
        out
    }

    /// Deserialize the command from a byte array, return the command
    /// and the remaining data.
    pub fn from_bytes<'a>(data: &'a [u8]) -> (r: Result<(Self, &'a [u8]), CodecError>)
        ensures
            match linkat_parse(data@) {
                Some(p) => match r {
                    Ok((c, rem)) => {
                        let ((olddirfd, oldpath, newdirfd, newpath), rest) = p;
                        &&& c.olddirfd == olddirfd as isize
                        &&& c.oldpath@ == oldpath
                        &&& c.newdirfd == newdirfd as isize
                        &&& c.newpath@ == newpath
                        &&& rem@ == rest
                    },
                    Err(_) => false,
                },
                None => r matches Err(CodecError::MalformedInput),
            },
    {
        let (id, d1) = match take_u64_exec(data) {
            Some(x) => x,
            None => {
                return Err(CodecError::MalformedInput);
            },
        };
        if id != 37 {
            return Err(CodecError::MalformedInput);
        }
        let (olddirfd, d2) = match take_i64_exec(d1) {
            Some(x) => x,
            None => {
                return Err(CodecError::MalformedInput);
            },
        };
        let (oldpath, d3) = match take_path_exec(d2) {
            Some(x) => x,
            None => {
                return Err(CodecError::MalformedInput);
            },
        };
        let (newdirfd, d4) = match take_i64_exec(d3) {
            Some(x) => x,
            None => {
                return Err(CodecError::MalformedInput);
            },
        };
        let (newpath, d5) = match take_path_exec(d4) {
            Some(x) => x,
            None => {
                return Err(CodecError::MalformedInput);
            },
        };
        Ok((Linkat { olddirfd: olddirfd as isize, oldpath, newdirfd: newdirfd as isize, newpath }, d5))
    }
}

impl PartialEq for Linkat {
    fn eq(&self, other: &Self) -> (r: bool) {
        self.olddirfd == other.olddirfd && self.oldpath == other.oldpath && self.newdirfd == other.newdirfd && self.newpath == other.newpath
    }
}

impl vstd::std_specs::cmp::PartialEqSpecImpl for Linkat {
    open spec fn obeys_eq_spec() -> bool {
        true
    }

    open spec fn eq_spec(&self, other: &Self) -> bool {
        self.olddirfd == other.olddirfd && self.oldpath@ == other.oldpath@ && self.newdirfd == other.newdirfd && self.newpath@ == other.newpath@
    }
}

/// Delete a name and possibly the file it refers to.
#[derive(Debug)]
pub struct Unlinkat {
    /// File descriptor of the directory.
    pub dirfd: isize,
    /// The path of the file to delete.
    pub path: Path,
    /// Unlink directory.
    pub flags: UnlinkatFlags,
}

/// Wire image of the command: the identifier, then each field in
/// declaration order.
pub open spec fn unlinkat_wire(dirfd: i64, path: Seq<u8>, flags: u32) -> Seq<u8> {
    spec_u64_to_le_bytes(35) + spec_u64_to_le_bytes(u64_of_i64(dirfd)) + path_wire(path) + spec_u32_to_le_bytes(flags)
}

/// Parse the command from the front of a buffer.
pub open spec fn unlinkat_parse(d: Seq<u8>) -> Option<((i64, Seq<u8>, u32), Seq<u8>)> {
    match take_u64(d) {
        None => None,
        Some((id, d1)) => if id != 35 {
            None
        } else {
            match take_i64(d1) {
                None => None,
                Some((dirfd, d2)) => match take_path(d2) {
                    None => None,
                    Some((path, d3)) => match take_u32(d3) {
                        None => None,
                        Some((flags, d4)) => Some(((dirfd, path, flags), d4)),
                    },
                },
            }
        },
    }
}

/// Encoding then decoding the command yields the same fields, leaves
/// exactly the trailing bytes, and the identifier peeked off the
/// encoding is the declared one.
pub proof fn lemma_unlinkat_roundtrip(c: Unlinkat, rest: Seq<u8>)
    requires
        c.path@.len() <= MAX_PATH_LEN,
        c.flags@ & UnlinkatFlags::KNOWN == c.flags@,
    ensures
        unlinkat_parse(unlinkat_wire(c.dirfd as i64, c.path@, c.flags@) + rest) == Some(((c.dirfd as i64, c.path@, c.flags@), rest)),
        (c.dirfd as i64) as isize == c.dirfd,
        take_u64(unlinkat_wire(c.dirfd as i64, c.path@, c.flags@) + rest)->Some_0.0 == Unlinkat::ID as u64,
{
    let w = unlinkat_wire(c.dirfd as i64, c.path@, c.flags@) + rest;
    assert(w =~= spec_u64_to_le_bytes(35) + (spec_u64_to_le_bytes(u64_of_i64(c.dirfd as i64)) + (path_wire(c.path@) + (spec_u32_to_le_bytes(c.flags@) + (rest)))));
    lemma_take_u64(35, spec_u64_to_le_bytes(u64_of_i64(c.dirfd as i64)) + (path_wire(c.path@) + (spec_u32_to_le_bytes(c.flags@) + (rest))));
    lemma_take_i64(c.dirfd as i64, path_wire(c.path@) + (spec_u32_to_le_bytes(c.flags@) + (rest)));
    lemma_take_path(c.path@, spec_u32_to_le_bytes(c.flags@) + (rest));
    lemma_take_u32(c.flags@, rest);
}

impl Unlinkat {
    /// Command id.
    pub const ID: usize = 35;

    /// Create a new command.
    pub fn new(dirfd: isize, path: Path, flags: UnlinkatFlags) -> (r: Self)
        ensures
            r.dirfd == dirfd,
            r.path@ == path@,
            r.flags == flags,
    {
        Unlinkat { dirfd, path, flags }
    }

    /// Serialize the command into a byte array.
    pub fn to_bytes(&self) -> (r: Vec<u8>)
        ensures
            r@ == unlinkat_wire(self.dirfd as i64, self.path@, self.flags@),
    {
        let mut out: Vec<u8> = Vec::new();
        push_u64(&mut out, 35);
        push_i64(&mut out, self.dirfd as i64);
        push_path(&mut out, &self.path);
        push_u32(&mut out, self.flags.bits());
        proof {
            assert(out@ =~= unlinkat_wire(self.dirfd as i64, self.path@, self.flags@));
        }
        out
    }

    /// Deserialize the command from a byte array, return the command
    /// and the remaining data; raw flag values are masked to the
    /// bits the family knows.
    pub fn from_bytes<'a>(data: &'a [u8]) -> (r: Result<(Self, &'a [u8]), CodecError>)
        ensures
            match unlinkat_parse(data@) {
                Some(p) => match r {
                    Ok((c, rem)) => {
                        let ((dirfd, path, flags), rest) = p;
                        &&& c.dirfd == dirfd as isize
                        &&& c.path@ == path
                        &&& c.flags@ == flags & UnlinkatFlags::KNOWN
                        &&& rem@ == rest
                    },
                    Err(_) => false,
                },
                None => r matches Err(CodecError::MalformedInput),
            },
    {
        let (id, d1) = match take_u64_exec(data) {
            Some(x) => x,
            None => {
                return Err(CodecError::MalformedInput);
            },
        };
        if id != 35 {
            return Err(CodecError::MalformedInput);
        }
        let (dirfd, d2) = match take_i64_exec(d1) {
            Some(x) => x,
            None => {
                return Err(CodecError::MalformedInput);
            },
        };
        let (path, d3) = match take_path_exec(d2) {
            Some(x) => x,
            None => {
                return Err(CodecError::MalformedInput);
            },
        };
        let (flags, d4) = match take_u32_exec(d3) {
            Some(x) => x,
            None => {
                return Err(CodecError::MalformedInput);
            },
        };
        Ok((Unlinkat { dirfd: dirfd as isize, path, flags: UnlinkatFlags::from_bits_truncate(flags) }, d4))
    }
}

impl PartialEq for Unlinkat {
    fn eq(&self, other: &Self) -> (r: bool) {
        self.dirfd == other.dirfd && self.path == other.path && self.flags == other.flags
    }
}

impl vstd::std_specs::cmp::PartialEqSpecImpl for Unlinkat {
    open spec fn obeys_eq_spec() -> bool {
        true
    }

    open spec fn eq_spec(&self, other: &Self) -> bool {
        self.dirfd == other.dirfd && self.path@ == other.path@ && self.flags == other.flags
    }
}

/// Create a directory.
#[derive(Debug)]
pub struct Mkdirat {
    /// File descriptor of the directory in which the new
    /// directory is to be created.
    pub dirfd: isize,
    /// The path of the new directory.
    pub path: Path,
    /// The mode of the new directory.
    pub mode: FileMode,
}

/// Wire image of the command: the identifier, then each field in
/// declaration order.
pub open spec fn mkdirat_wire(dirfd: i64, path: Seq<u8>, mode: u32) -> Seq<u8> {
    spec_u64_to_le_bytes(34) + spec_u64_to_le_bytes(u64_of_i64(dirfd)) + path_wire(path) + spec_u32_to_le_bytes(mode)
}

/// Parse the command from the front of a buffer.
pub open spec fn mkdirat_parse(d: Seq<u8>) -> Option<((i64, Seq<u8>, u32), Seq<u8>)> {
    match take_u64(d) {
        None => None,
        Some((id, d1)) => if id != 34 {
            None
        } else {
            match take_i64(d1) {
                None => None,
                Some((dirfd, d2)) => match take_path(d2) {
                    None => None,
                    Some((path, d3)) => match take_u32(d3) {
                        None => None,
                        Some((mode, d4)) => Some(((dirfd, path, mode), d4)),
                    },
                },
            }
        },
    }
}

/// Encoding then decoding the command yields the same fields, leaves
/// exactly the trailing bytes, and the identifier peeked off the
/// encoding is the declared one.
pub proof fn lemma_mkdirat_roundtrip(c: Mkdirat, rest: Seq<u8>)
    requires
        c.path@.len() <= MAX_PATH_LEN,
        c.mode@ & FileMode::KNOWN == c.mode@,
    ensures
        mkdirat_parse(mkdirat_wire(c.dirfd as i64, c.path@, c.mode@) + rest) == Some(((c.dirfd as i64, c.path@, c.mode@), rest)),
        (c.dirfd as i64) as isize == c.dirfd,
        take_u64(mkdirat_wire(c.dirfd as i64, c.path@, c.mode@) + rest)->Some_0.0 == Mkdirat::ID as u64,
{
    let w = mkdirat_wire(c.dirfd as i64, c.path@, c.mode@) + rest;
    assert(w =~= spec_u64_to_le_bytes(34) + (spec_u64_to_le_bytes(u64_of_i64(c.dirfd as i64)) + (path_wire(c.path@) + (spec_u32_to_le_bytes(c.mode@) + (rest)))));
    lemma_take_u64(34, spec_u64_to_le_bytes(u64_of_i64(c.dirfd as i64)) + (path_wire(c.path@) + (spec_u32_to_le_bytes(c.mode@) + (rest))));
    lemma_take_i64(c.dirfd as i64, path_wire(c.path@) + (spec_u32_to_le_bytes(c.mode@) + (rest)));
    lemma_take_path(c.path@, spec_u32_to_le_bytes(c.mode@) + (rest));
    lemma_take_u32(c.mode@, rest);
}

impl Mkdirat {
    /// Command id.
    pub const ID: usize = 34;

    /// Create a new command.
    pub fn new(dirfd: isize, path: Path, mode: FileMode) -> (r: Self)
        ensures
            r.dirfd == dirfd,
            r.path@ == path@,
            r.mode == mode,
    {
        Mkdirat { dirfd, path, mode }
    }

    /// Serialize the command into a byte array.
    pub fn to_bytes(&self) -> (r: Vec<u8>)
        ensures
            r@ == mkdirat_wire(self.dirfd as i64, self.path@, self.mode@),
    {
        let mut out: Vec<u8> = Vec::new();
        push_u64(&mut out, 34);
        push_i64(&mut out, self.dirfd as i64);
        push_path(&mut out, &self.path);
        push_u32(&mut out, self.mode.bits());
        proof {
            assert(out@ =~= mkdirat_wire(self.dirfd as i64, self.path@, self.mode@));
        }
        out
    }

    /// Deserialize the command from a byte array, return the command
    /// and the remaining data; raw flag values are masked to the
    /// bits the family knows.
    pub fn from_bytes<'a>(data: &'a [u8]) -> (r: Result<(Self, &'a [u8]), CodecError>)
        ensures
            match mkdirat_parse(data@) {
                Some(p) => match r {
                    Ok((c, rem)) => {
                        let ((dirfd, path, mode), rest) = p;
                        &&& c.dirfd == dirfd as isize
                        &&& c.path@ == path
                        &&& c.mode@ == mode & FileMode::KNOWN
                        &&& rem@ == rest
                    },
                    Err(_) => false,
                },
                None => r matches Err(CodecError::MalformedInput),
            },
    {
        let (id, d1) = match take_u64_exec(data) {
            Some(x) => x,
            None => {
                return Err(CodecError::MalformedInput);
            },
        };
        if id != 34 {
            return Err(CodecError::MalformedInput);
        }
        let (dirfd, d2) = match take_i64_exec(d1) {
            Some(x) => x,
            None => {
                return Err(CodecError::MalformedInput);
            },
        };
        let (path, d3) = match take_path_exec(d2) {
            Some(x) => x,
            None => {
                return Err(CodecError::MalformedInput);
            },
        };
        let (mode, d4) = match take_u32_exec(d3) {
            Some(x) => x,
            None => {
                return Err(CodecError::MalformedInput);
            },
        };
        Ok((Mkdirat { dirfd: dirfd as isize, path, mode: FileMode::from_bits_truncate(mode) }, d4))
    }
}

impl PartialEq for Mkdirat {
    fn eq(&self, other: &Self) -> (r: bool) {
        self.dirfd == other.dirfd && self.path == other.path && self.mode == other.mode
    }
}

impl vstd::std_specs::cmp::PartialEqSpecImpl for Mkdirat {
    open spec fn obeys_eq_spec() -> bool {
        true
    }

    open spec fn eq_spec(&self, other: &Self) -> bool {
        self.dirfd == other.dirfd && self.path@ == other.path@ && self.mode == other.mode
    }
}

/// Get current working directory.
#[derive(Debug, Clone, Copy, PartialEq, Eq, Structural)]
pub struct Getcwd {}

/// Wire image of the command: the identifier, then each field in
/// declaration order.
pub open spec fn getcwd_wire() -> Seq<u8> {
    spec_u64_to_le_bytes(17)
}

/// Parse the command from the front of a buffer.
pub open spec fn getcwd_parse(d: Seq<u8>) -> Option<Seq<u8>> {
    match take_u64(d) {
        None => None,
        Some((id, d1)) => if id != 17 {
            None
        } else {
            Some(d1)
        },
    }
}

/// Encoding then decoding the command yields the same fields, leaves
/// exactly the trailing bytes, and the identifier peeked off the
/// encoding is the declared one.
pub proof fn lemma_getcwd_roundtrip(c: Getcwd, rest: Seq<u8>)
    ensures
        getcwd_parse(getcwd_wire() + rest) == Some(rest),
        take_u64(getcwd_wire() + rest)->Some_0.0 == Getcwd::ID as u64,
{
    let w = getcwd_wire() + rest;
    assert(w =~= spec_u64_to_le_bytes(17) + (rest));
    lemma_take_u64(17, rest);
}

impl Getcwd {
    /// Command id.
    pub const ID: usize = 17;

    /// Create a new command.
    pub fn new() -> (r: Self) {
        Getcwd {  }
    }

    /// Serialize the command into a byte array.
    pub fn to_bytes(&self) -> (r: Vec<u8>)
        ensures
            r@ == getcwd_wire(),
    {
        let mut out: Vec<u8> = Vec::new();
        push_u64(&mut out, 17);
        proof {
            assert(out@ =~= getcwd_wire());
        }
        out
    }

    /// Deserialize the command from a byte array, return the command
    /// and the remaining data.
    pub fn from_bytes<'a>(data: &'a [u8]) -> (r: Result<(Self, &'a [u8]), CodecError>)
        ensures
            match getcwd_parse(data@) {
                Some(p) => match r {
                    Ok((c, rem)) => {
                        rem@ == p
                    },
                    Err(_) => false,
                },
                None => r matches Err(CodecError::MalformedInput),
            },
    {
        let (id, d1) = match take_u64_exec(data) {
            Some(x) => x,
            None => {
                return Err(CodecError::MalformedInput);
            },
        };
        if id != 17 {
            return Err(CodecError::MalformedInput);
        }
        Ok((Getcwd {  }, d1))
    }
}

/// Duplicate a file descriptor.
#[derive(Debug, Clone, Copy, PartialEq, Eq, Structural)]
pub struct Dup {
    /// The file descriptor to be duplicated.
    pub oldfd: isize,
}

/// Wire image of the command: the identifier, then each field in
/// declaration order.
pub open spec fn dup_wire(oldfd: i64) -> Seq<u8> {
    spec_u64_to_le_bytes(23) + spec_u64_to_le_bytes(u64_of_i64(oldfd))
}

/// Parse the command from the front of a buffer.
pub open spec fn dup_parse(d: Seq<u8>) -> Option<(i64, Seq<u8>)> {
    match take_u64(d) {
        None => None,
        Some((id, d1)) => if id != 23 {
            None
        } else {
            match take_i64(d1) {
                None => None,
                Some((oldfd, d2)) => Some((oldfd, d2)),
            }
        },
    }
}

/// Encoding then decoding the command yields the same fields, leaves
/// exactly the trailing bytes, and the identifier peeked off the
/// encoding is the declared one.
pub proof fn lemma_dup_roundtrip(c: Dup, rest: Seq<u8>)
    ensures
        dup_parse(dup_wire(c.oldfd as i64) + rest) == Some((c.oldfd as i64, rest)),
        (c.oldfd as i64) as isize == c.oldfd,
        take_u64(dup_wire(c.oldfd as i64) + rest)->Some_0.0 == Dup::ID as u64,
{
    let w = dup_wire(c.oldfd as i64) + rest;
    assert(w =~= spec_u64_to_le_bytes(23) + (spec_u64_to_le_bytes(u64_of_i64(c.oldfd as i64)) + (rest)));
    lemma_take_u64(23, spec_u64_to_le_bytes(u64_of_i64(c.oldfd as i64)) + (rest));
    lemma_take_i64(c.oldfd as i64, rest);
}

impl Dup {
    /// Command id.
    pub const ID: usize = 23;

    /// Create a new command.
    pub fn new(oldfd: isize) -> (r: Self)
        ensures
            r.oldfd == oldfd,
    {
        Dup { oldfd }
    }

    /// Serialize the command into a byte array.
    pub fn to_bytes(&self) -> (r: Vec<u8>)
        ensures
            r@ == dup_wire(self.oldfd as i64),
    {
        let mut out: Vec<u8> = Vec::new();
        push_u64(&mut out, 23);
        push_i64(&mut out, self.oldfd as i64);
        proof {
            assert(out@ =~= dup_wire(self.oldfd as i64));
        }
        out
    }

    /// Deserialize the command from a byte array, return the command
    /// and the remaining data.
    pub fn from_bytes<'a>(data: &'a [u8]) -> (r: Result<(Self, &'a [u8]), CodecError>)
        ensures
            match dup_parse(data@) {
                Some(p) => match r {
                    Ok((c, rem)) => {
                        let (oldfd, rest) = p;
                        &&& c.oldfd == oldfd as isize
                        &&& rem@ == rest
                    },
                    Err(_) => false,
                },
                None => r matches Err(CodecError::MalformedInput),
            },
    {
        let (id, d1) = match take_u64_exec(data) {
            Some(x) => x,
            None => {
                return Err(CodecError::MalformedInput);
            },
        };
        if id != 23 {
            return Err(CodecError::MalformedInput);
        }
        let (oldfd, d2) = match take_i64_exec(d1) {
            Some(x) => x,
            None => {
                return Err(CodecError::MalformedInput);
            },
        };
        Ok((Dup { oldfd: oldfd as isize }, d2))
    }
}

/// Change the current working directory of the calling process
/// to the directory specified in path.
#[derive(Debug)]
pub struct Chdir {
    /// The path to the directory to change to.
    pub path: Path,
}

/// Wire image of the command: the identifier, then each field in
/// declaration order.
pub open spec fn chdir_wire(path: Seq<u8>) -> Seq<u8> {
    spec_u64_to_le_bytes(49) + path_wire(path)
}

/// Parse the command from the front of a buffer.
pub open spec fn chdir_parse(d: Seq<u8>) -> Option<(Seq<u8>, Seq<u8>)> {
    match take_u64(d) {
        None => None,
        Some((id, d1)) => if id != 49 {
            None
        } else {
            match take_path(d1) {
                None => None,
                Some((path, d2)) => Some((path, d2)),
            }
        },
    }
}

/// Encoding then decoding the command yields the same fields, leaves
/// exactly the trailing bytes, and the identifier peeked off the
/// encoding is the declared one.
pub proof fn lemma_chdir_roundtrip(c: Chdir, rest: Seq<u8>)
    requires
        c.path@.len() <= MAX_PATH_LEN,
    ensures
        chdir_parse(chdir_wire(c.path@) + rest) == Some((c.path@, rest)),
        take_u64(chdir_wire(c.path@) + rest)->Some_0.0 == Chdir::ID as u64,
{
    let w = chdir_wire(c.path@) + rest;
    assert(w =~= spec_u64_to_le_bytes(49) + (path_wire(c.path@) + (rest)));
    lemma_take_u64(49, path_wire(c.path@) + (rest));
    lemma_take_path(c.path@, rest);
}

impl Chdir {
    /// Command id.
    pub const ID: usize = 49;

    /// Create a new command.
    pub fn new(path: Path) -> (r: Self)
        ensures
            r.path@ == path@,
    {
        Chdir { path }
    }

    /// Serialize the command into a byte array.
    pub fn to_bytes(&self) -> (r: Vec<u8>)
        ensures
            r@ == chdir_wire(self.path@),
    {
        let mut out: Vec<u8> = Vec::new();
        push_u64(&mut out, 49);
        push_path(&mut out, &self.path);
        proof {
            assert(out@ =~= chdir_wire(self.path@));
        }
        out
    }

    /// Deserialize the command from a byte array, return the command
    /// and the remaining data.
    pub fn from_bytes<'a>(data: &'a [u8]) -> (r: Result<(Self, &'a [u8]), CodecError>)
        ensures
            match chdir_parse(data@) {
                Some(p) => match r {
                    Ok((c, rem)) => {
                        let (path, rest) = p;
                        &&& c.path@ == path
                        &&& rem@ == rest
                    },
                    Err(_) => false,
                },
                None => r matches Err(CodecError::MalformedInput),
            },
    {
        let (id, d1) = match take_u64_exec(data) {
            Some(x) => x,
            None => {
                return Err(CodecError::MalformedInput);
            },
        };
        if id != 49 {
            return Err(CodecError::MalformedInput);
        }
        let (path, d2) = match take_path_exec(d1) {
            Some(x) => x,
            None => {
                return Err(CodecError::MalformedInput);
            },
        };
        Ok((Chdir { path }, d2))
    }
}

impl PartialEq for Chdir {
    fn eq(&self, other: &Self) -> (r: bool) {
        self.path == other.path
    }
}

impl vstd::std_specs::cmp::PartialEqSpecImpl for Chdir {
    open spec fn obeys_eq_spec() -> bool {
        true
    }

    open spec fn eq_spec(&self, other: &Self) -> bool {
        self.path@ == other.path@
    }
}


} // verus!
