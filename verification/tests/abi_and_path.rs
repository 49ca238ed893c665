use kmc_wire::fs::{
    FileKind, FileMode, LibcDirent, LibcStat, OpenFlags, Path, UnlinkatFlags,
};
use kmc_wire::mem::{MmapFlags, ProtFlags};
use kmc_wire::CodecError;

fn sample_stat(mode: u32) -> LibcStat {
    LibcStat {
        dev: 0x12,
        ino: 77,
        mode,
        nlink: 2,
        uid: 1000,
        gid: 100,
        rdev: 0,
        _pad1: 0,
        size: 4096,
        blksize: 512,
        _pad2: 0,
        blocks: 8,
        atime_sec: 1,
        atime_nsec: 2,
        mtime_sec: 3,
        mtime_nsec: 4,
        ctime_sec: 5,
        ctime_nsec: 6,
    }
}

#[test]
fn path_capacity_boundary() {
    let exact = [b'p'; 256];
    let p = Path::new(&exact).unwrap();
    assert_eq!(p.len(), 256);
    assert_eq!(p.as_bytes(), &exact[..]);

    let over = [b'p'; 257];
    let e = Path::new(&over).unwrap_err();
    assert_eq!(e, CodecError::CapacityExceeded);
}

#[test]
fn path_absolute_relative() {
    assert!(Path::new(b"/tmp/x").unwrap().absolute());
    assert!(!Path::new(b"/tmp/x").unwrap().relative());
    assert!(Path::new(b"tmp/x").unwrap().relative());
    assert!(Path::new(b"").unwrap().relative());
}

#[test]
fn path_stored_verbatim() {
    // No normalization: dots and doubled separators stay.
    let p = Path::new(b"a//b/./../c").unwrap();
    assert_eq!(p.as_bytes(), b"a//b/./../c");
    let q = p.clone();
    assert_eq!(p, q);
    assert!(Path::new(b"a").unwrap() != Path::new(b"b").unwrap());
}

#[test]
fn flag_masking_preserves_known_bits_only() {
    assert_eq!(OpenFlags::from_bits_truncate(u32::MAX).bits(), OpenFlags::KNOWN);
    assert_eq!(FileMode::from_bits_truncate(u32::MAX).bits(), FileMode::KNOWN);
    assert_eq!(
        UnlinkatFlags::from_bits_truncate(u32::MAX).bits(),
        UnlinkatFlags::KNOWN
    );
    assert_eq!(ProtFlags::from_bits_truncate(u8::MAX).bits(), ProtFlags::KNOWN);
    assert_eq!(MmapFlags::from_bits_truncate(u32::MAX).bits(), MmapFlags::KNOWN);
    // Known bits pass through unchanged; a single unknown bit is dropped.
    assert_eq!(
        OpenFlags::from_bits_truncate(OpenFlags::CREAT | 0o10000).bits(),
        OpenFlags::CREAT
    );
    assert_eq!(OpenFlags::empty().bits(), 0);
}

#[test]
fn dirent_name_reads_declared_length_only() {
    let mut name = [0xAAu8; 256];
    name[..5].copy_from_slice(b"hello");
    let d = LibcDirent {
        ino: 9,
        off: 32,
        reclen: (LibcDirent::MIN_SIZE + 5) as u16,
        type_: 8,
        name,
    };
    // Exactly the five declared bytes, whatever follows in the buffer.
    assert_eq!(d.name(), b"hello");
}

#[test]
fn dirent_kind_table() {
    let mut d = LibcDirent {
        ino: 1,
        off: 0,
        reclen: LibcDirent::MIN_SIZE as u16,
        type_: 4,
        name: [0u8; 256],
    };
    assert_eq!(d.kind(), FileKind::Directory);
    d.type_ = 1;
    assert_eq!(d.kind(), FileKind::Fifo);
    d.type_ = 2;
    assert_eq!(d.kind(), FileKind::CharDevice);
    d.type_ = 6;
    assert_eq!(d.kind(), FileKind::BlockDevice);
    d.type_ = 8;
    assert_eq!(d.kind(), FileKind::File);
    d.type_ = 10;
    assert_eq!(d.kind(), FileKind::Symlink);
    d.type_ = 12;
    assert_eq!(d.kind(), FileKind::Sockect);
    d.type_ = 3;
    assert_eq!(d.kind(), FileKind::Unknown);
    d.type_ = 255;
    assert_eq!(d.kind(), FileKind::Unknown);
}

#[test]
fn dirent_bytes_roundtrip() {
    let mut name = [0u8; 256];
    name[..3].copy_from_slice(b"dir");
    let d = LibcDirent {
        ino: 42,
        off: 64,
        reclen: (LibcDirent::MIN_SIZE + 3) as u16,
        type_: 4,
        name,
    };
    let mut bytes = d.to_bytes();
    assert_eq!(bytes.len(), LibcDirent::MIN_SIZE + 3);
    bytes.extend_from_slice(&[7, 7]);
    let (back, rest) = LibcDirent::from_bytes(&bytes).unwrap();
    assert_eq!(rest, &[7, 7]);
    assert_eq!(back.ino, 42);
    assert_eq!(back.off, 64);
    assert_eq!(back.reclen, d.reclen);
    assert_eq!(back.type_, 4);
    assert_eq!(back.name(), b"dir");
    let entry = back.decode();
    assert_eq!(entry.ino, 42);
    assert_eq!(entry.name_len, 3);
    assert_eq!(&entry.name[..3], b"dir");
}

#[test]
fn dirent_from_bytes_rejects_bad_reclen() {
    let d = LibcDirent {
        ino: 1,
        off: 0,
        reclen: (LibcDirent::MIN_SIZE - 1) as u16,
        type_: 0,
        name: [0u8; 256],
    };
    // Header with a declared size smaller than the header itself.
    let mut bytes = Vec::new();
    bytes.extend_from_slice(&1u64.to_le_bytes());
    bytes.extend_from_slice(&0u64.to_le_bytes());
    bytes.extend_from_slice(&d.reclen.to_le_bytes());
    bytes.push(0);
    let r = LibcDirent::from_bytes(&bytes);
    assert_eq!(r.unwrap_err(), CodecError::MalformedInput);
}

#[test]
fn dirent_sizing_constants() {
    assert_eq!(LibcDirent::MIN_SIZE, 19);
    assert_eq!(LibcDirent::MAX_SIZE, LibcDirent::MIN_SIZE + 256);
    assert_eq!(LibcDirent::ONE_DIRENT_BUF_SIZE, 2 * LibcDirent::MIN_SIZE);
}

#[test]
fn stat_mode_masks_permission_bits() {
    // Regular file with permissions 0644 plus a set-id bit outside the
    // known permission set.
    let s = sample_stat(0o104644);
    assert_eq!(s.mode().bits(), 0o644);
    assert_eq!(s.kind(), FileKind::File);
}

#[test]
fn stat_kind_table() {
    assert_eq!(sample_stat(0o010000).kind(), FileKind::Fifo);
    assert_eq!(sample_stat(0o020666).kind(), FileKind::CharDevice);
    assert_eq!(sample_stat(0o040755).kind(), FileKind::Directory);
    assert_eq!(sample_stat(0o060000).kind(), FileKind::BlockDevice);
    assert_eq!(sample_stat(0o100644).kind(), FileKind::File);
    assert_eq!(sample_stat(0o120777).kind(), FileKind::Symlink);
    assert_eq!(sample_stat(0o140000).kind(), FileKind::Sockect);
    assert_eq!(sample_stat(0o030000).kind(), FileKind::Unknown);
    assert_eq!(sample_stat(0).kind(), FileKind::Unknown);
}

#[test]
fn classification_paths_agree() {
    // (tag, mode type bits) pairs naming the same kind.
    let pairs: [(u8, u32); 7] = [
        (1, 0o010000),
        (2, 0o020000),
        (4, 0o040000),
        (6, 0o060000),
        (8, 0o100000),
        (10, 0o120000),
        (12, 0o140000),
    ];
    for (tag, bits) in pairs {
        let d = LibcDirent {
            ino: 0,
            off: 0,
            reclen: LibcDirent::MIN_SIZE as u16,
            type_: tag,
            name: [0u8; 256],
        };
        let s = sample_stat(bits | 0o644);
        assert_eq!(d.kind(), s.kind());
    }
}

#[test]
fn stat_bytes_roundtrip() {
    let s = sample_stat(0o100600);
    let mut bytes = s.to_bytes();
    assert_eq!(bytes.len(), LibcStat::SIZE);
    bytes.push(0xEE);
    let (back, rest) = LibcStat::from_bytes(&bytes).unwrap();
    assert_eq!(rest, &[0xEE]);
    assert_eq!(back.to_bytes(), &bytes[..LibcStat::SIZE]);
    assert_eq!(back.ino, 77);
    assert_eq!(back.size, 4096);
    assert_eq!(back.ctime_nsec, 6);
    let fs = back.decode();
    assert_eq!(fs.ino, 77);
    assert_eq!(fs.mode.bits(), 0o600);
    assert_eq!(fs.kind, FileKind::File);
    assert_eq!(fs.uid, 1000);
    assert_eq!(fs.gid, 100);
    assert_eq!(fs.nlink, 2);
}

#[test]
fn stat_from_bytes_rejects_short_buffer() {
    let bytes = vec![0u8; LibcStat::SIZE - 1];
    let r = LibcStat::from_bytes(&bytes);
    assert_eq!(r.unwrap_err(), CodecError::MalformedInput);
}

#[test]
fn stat_layout_offsets() {
    // The byte image places each field at its fixed offset.
    let s = sample_stat(0o100644);
    let b = s.to_bytes();
    assert_eq!(u64::from_le_bytes(b[0..8].try_into().unwrap()), 0x12);
    assert_eq!(u64::from_le_bytes(b[8..16].try_into().unwrap()), 77);
    assert_eq!(u32::from_le_bytes(b[16..20].try_into().unwrap()), 0o100644);
    assert_eq!(u32::from_le_bytes(b[20..24].try_into().unwrap()), 2);
    assert_eq!(u32::from_le_bytes(b[24..28].try_into().unwrap()), 1000);
    assert_eq!(u32::from_le_bytes(b[28..32].try_into().unwrap()), 100);
    assert_eq!(u64::from_le_bytes(b[48..56].try_into().unwrap()), 4096);
    assert_eq!(u32::from_le_bytes(b[56..60].try_into().unwrap()), 512);
    assert_eq!(u64::from_le_bytes(b[64..72].try_into().unwrap()), 8);
    assert_eq!(u64::from_le_bytes(b[112..120].try_into().unwrap()), 6);
}
