use kmc_wire::fs::{
    Chdir, Close, Dup, FileMode, Fstat, Getcwd, Getdents, Linkat, Mkdirat, OpenFlags, Openat,
    Path, Unlinkat, UnlinkatFlags,
};
use kmc_wire::mem::{Brk, Mmap, MmapFlags, Mprotect, Munmap, ProtFlags, Sbrk};
use kmc_wire::{id_from_bytes, id_to_bytes, CodecError};

fn path(s: &[u8]) -> Path {
    Path::new(s).unwrap()
}

#[test]
fn id_bytes_roundtrip() {
    let b = id_to_bytes(56);
    assert_eq!(b, vec![56, 0, 0, 0, 0, 0, 0, 0]);
    let (id, rest) = id_from_bytes(&b);
    assert_eq!(id, 56);
    assert!(rest.is_empty());
}

#[test]
fn id_from_bytes_leaves_remainder() {
    let mut b = id_to_bytes(214);
    b.extend_from_slice(&[9, 8, 7]);
    let (id, rest) = id_from_bytes(&b);
    assert_eq!(id, 214);
    assert_eq!(rest, &[9, 8, 7]);
}

#[test]
fn openat_concrete_scenario() {
    let flags = OpenFlags::from_bits_truncate(OpenFlags::CREAT | OpenFlags::WRONLY);
    let mode = FileMode::from_bits_truncate(FileMode::USER_READ | FileMode::USER_WRITE);
    let cmd = Openat::new(3, path(b"/tmp/x"), flags, mode);
    let bytes = cmd.to_bytes();
    let (id, _) = id_from_bytes(&bytes);
    assert_eq!(id, Openat::ID);
    let (decoded, rest) = Openat::from_bytes(&bytes).unwrap();
    assert!(rest.is_empty());
    assert_eq!(decoded.dirfd, 3);
    assert_eq!(decoded.path.as_bytes(), b"/tmp/x");
    assert_eq!(decoded.flags.bits(), OpenFlags::CREAT | OpenFlags::WRONLY);
    assert_eq!(decoded.mode.bits(), FileMode::USER_READ | FileMode::USER_WRITE);
    assert_eq!(decoded, cmd);
}

#[test]
fn openat_roundtrip_max_path_and_extreme_flags() {
    let long = [b'a'; 256];
    let cmd = Openat::new(
        -1,
        path(&long),
        OpenFlags::from_bits_truncate(u32::MAX),
        FileMode::from_bits_truncate(u32::MAX),
    );
    let bytes = cmd.to_bytes();
    let (decoded, rest) = Openat::from_bytes(&bytes).unwrap();
    assert!(rest.is_empty());
    assert_eq!(decoded, cmd);
    assert_eq!(decoded.flags.bits(), OpenFlags::KNOWN);
    assert_eq!(decoded.mode.bits(), FileMode::KNOWN);

    let empty = Openat::new(
        isize::MIN,
        path(b""),
        OpenFlags::empty(),
        FileMode::empty(),
    );
    let bytes = empty.to_bytes();
    let (decoded, _) = Openat::from_bytes(&bytes).unwrap();
    assert_eq!(decoded, empty);
}

#[test]
fn close_roundtrip() {
    let cmd = Close::new(-17);
    let bytes = cmd.to_bytes();
    let (decoded, rest) = Close::from_bytes(&bytes).unwrap();
    assert!(rest.is_empty());
    assert_eq!(decoded, cmd);
    let (id, _) = id_from_bytes(&bytes);
    assert_eq!(id, Close::ID);
}

#[test]
fn fstat_roundtrip() {
    let cmd = Fstat::new(5);
    let bytes = cmd.to_bytes();
    let (decoded, rest) = Fstat::from_bytes(&bytes).unwrap();
    assert!(rest.is_empty());
    assert_eq!(decoded, cmd);
}

#[test]
fn getdents_roundtrip() {
    let cmd = Getdents::new(4, usize::MAX);
    let bytes = cmd.to_bytes();
    let (decoded, rest) = Getdents::from_bytes(&bytes).unwrap();
    assert!(rest.is_empty());
    assert_eq!(decoded, cmd);
}

#[test]
fn linkat_roundtrip() {
    let cmd = Linkat::new(1, path(b"old/name"), 2, path(b"new/name"));
    let bytes = cmd.to_bytes();
    let (decoded, rest) = Linkat::from_bytes(&bytes).unwrap();
    assert!(rest.is_empty());
    assert_eq!(decoded, cmd);
}

#[test]
fn unlinkat_roundtrip() {
    let cmd = Unlinkat::new(
        -100,
        path(b"/tmp/dir"),
        UnlinkatFlags::from_bits_truncate(UnlinkatFlags::REMOVEDIR),
    );
    let bytes = cmd.to_bytes();
    let (decoded, rest) = Unlinkat::from_bytes(&bytes).unwrap();
    assert!(rest.is_empty());
    assert_eq!(decoded, cmd);
    assert!(decoded.flags.contains(UnlinkatFlags::REMOVEDIR));
}

#[test]
fn mkdirat_roundtrip() {
    let cmd = Mkdirat::new(7, path(b"sub"), FileMode::from_bits_truncate(0o755));
    let bytes = cmd.to_bytes();
    let (decoded, rest) = Mkdirat::from_bytes(&bytes).unwrap();
    assert!(rest.is_empty());
    assert_eq!(decoded, cmd);
    assert_eq!(decoded.mode.bits(), 0o755);
}

#[test]
fn getcwd_roundtrip() {
    let cmd = Getcwd::new();
    let bytes = cmd.to_bytes();
    let (id, rest) = id_from_bytes(&bytes);
    assert_eq!(id, Getcwd::ID);
    assert!(rest.is_empty());
    let (decoded, rest) = Getcwd::from_bytes(&bytes).unwrap();
    assert!(rest.is_empty());
    assert_eq!(decoded, cmd);
}

#[test]
fn dup_roundtrip() {
    let cmd = Dup::new(0);
    let bytes = cmd.to_bytes();
    let (decoded, rest) = Dup::from_bytes(&bytes).unwrap();
    assert!(rest.is_empty());
    assert_eq!(decoded, cmd);
}

#[test]
fn chdir_roundtrip() {
    let cmd = Chdir::new(path(b"/home"));
    let bytes = cmd.to_bytes();
    let (decoded, rest) = Chdir::from_bytes(&bytes).unwrap();
    assert!(rest.is_empty());
    assert_eq!(decoded, cmd);
}

#[test]
fn brk_roundtrip() {
    let cmd = Brk::new(0x4000_0000);
    let bytes = cmd.to_bytes();
    let (decoded, rest) = Brk::from_bytes(&bytes).unwrap();
    assert!(rest.is_empty());
    assert_eq!(decoded, cmd);
    let (id, _) = id_from_bytes(&bytes);
    assert_eq!(id, Brk::ID);
}

#[test]
fn sbrk_roundtrip() {
    let cmd = Sbrk::new(-4096);
    let bytes = cmd.to_bytes();
    let (decoded, rest) = Sbrk::from_bytes(&bytes).unwrap();
    assert!(rest.is_empty());
    assert_eq!(decoded, cmd);
    // Brk and Sbrk are alternate framings of the same action.
    assert_eq!(Brk::ID, Sbrk::ID);
}

#[test]
fn mmap_roundtrip() {
    let cmd = Mmap::new(
        0,
        8192,
        ProtFlags::from_bits_truncate(ProtFlags::READ | ProtFlags::WRITE),
        MmapFlags::from_bits_truncate(MmapFlags::MAP_PRIVATE | MmapFlags::MAP_FIXED),
    );
    let bytes = cmd.to_bytes();
    let (decoded, rest) = Mmap::from_bytes(&bytes).unwrap();
    assert!(rest.is_empty());
    assert_eq!(decoded, cmd);
    assert!(decoded.prot.contains(ProtFlags::READ));
    assert!(!decoded.prot.contains(ProtFlags::EXECUTE));
}

#[test]
fn munmap_roundtrip() {
    let cmd = Munmap::new(0x1000, 4096);
    let bytes = cmd.to_bytes();
    let (decoded, rest) = Munmap::from_bytes(&bytes).unwrap();
    assert!(rest.is_empty());
    assert_eq!(decoded, cmd);
}

#[test]
fn mprotect_roundtrip() {
    let cmd = Mprotect::new(0x2000, 4096, ProtFlags::from_bits_truncate(ProtFlags::READ));
    let bytes = cmd.to_bytes();
    let (decoded, rest) = Mprotect::from_bytes(&bytes).unwrap();
    assert!(rest.is_empty());
    assert_eq!(decoded, cmd);
}

#[test]
fn two_records_back_to_back() {
    let first = Openat::new(
        3,
        path(b"/etc/hosts"),
        OpenFlags::empty(),
        FileMode::empty(),
    );
    let second = Close::new(3);
    let mut buf = first.to_bytes();
    let second_bytes = second.to_bytes();
    buf.extend_from_slice(&second_bytes);

    let (d1, rest) = Openat::from_bytes(&buf).unwrap();
    assert_eq!(d1, first);
    // The remainder is exactly the second operation's bytes.
    assert_eq!(rest, second_bytes.as_slice());
    // Decoding the remainder matches decoding the standalone buffer.
    let (d2, rest2) = Close::from_bytes(rest).unwrap();
    assert!(rest2.is_empty());
    let (d2_alone, _) = Close::from_bytes(&second_bytes).unwrap();
    assert_eq!(d2, second);
    assert_eq!(d2, d2_alone);
}

#[test]
fn decode_rejects_short_buffer() {
    let bytes = Close::new(1).to_bytes();
    let r = Close::from_bytes(&bytes[..bytes.len() - 1]);
    assert_eq!(r.unwrap_err(), CodecError::MalformedInput);
    let r = Close::from_bytes(&[]);
    assert_eq!(r.unwrap_err(), CodecError::MalformedInput);
}

#[test]
fn decode_rejects_wrong_identifier() {
    let bytes = Close::new(1).to_bytes();
    let r = Openat::from_bytes(&bytes);
    assert_eq!(r.unwrap_err(), CodecError::MalformedInput);
}

#[test]
fn decode_rejects_oversized_path() {
    // An identifier, then a declared path length past the maximum.
    let mut buf = id_to_bytes(Chdir::ID);
    buf.extend_from_slice(&300u16.to_le_bytes());
    buf.extend_from_slice(&[b'x'; 300]);
    let r = Chdir::from_bytes(&buf);
    assert_eq!(r.unwrap_err(), CodecError::MalformedInput);
}

#[test]
fn decode_rejects_truncated_path_bytes() {
    // A declared length longer than what follows.
    let mut buf = id_to_bytes(Chdir::ID);
    buf.extend_from_slice(&5u16.to_le_bytes());
    buf.extend_from_slice(b"ab");
    let r = Chdir::from_bytes(&buf);
    assert_eq!(r.unwrap_err(), CodecError::MalformedInput);
}

#[test]
fn decode_masks_unknown_flag_bits() {
    // Encode raw flag bytes by hand with every bit set.
    let mut buf = id_to_bytes(Unlinkat::ID);
    buf.extend_from_slice(&3i64.to_le_bytes());
    buf.extend_from_slice(&2u16.to_le_bytes());
    buf.extend_from_slice(b"ab");
    buf.extend_from_slice(&u32::MAX.to_le_bytes());
    let (decoded, rest) = Unlinkat::from_bytes(&buf).unwrap();
    assert!(rest.is_empty());
    assert_eq!(decoded.flags.bits(), UnlinkatFlags::KNOWN);
}
