use core_storage::error::{Codes, ErrorKind, ErrorSeverity};
use core_storage::header::{loaded_or_blank, reads_store_header, Header, LoadStep};
use core_storage::{StorageState, HEADER_SIZE, SEGMENT_SIZE, VERSION};

fn sample_uuid() -> [u8; 16] {
    [0x01, 0x8f, 0x2a, 0x3b, 0x4c, 0x5d, 0x7e, 0x6f, 0x80, 0x91, 0xa2, 0xb3, 0xc4, 0xd5, 0xe6, 0xf7]
}

#[test]
fn new_header_is_blank() {
    let h = Header::new();
    assert_eq!(h.version, VERSION);
    assert_eq!(h.uuid, [0u8; 16]);
    assert_eq!(h.state, StorageState::Uninitialized);
    assert_eq!(h.segment_count, 0);
    assert_eq!(h.total_bytes, 0);
}

#[test]
fn create_refuses_small_capacity() {
    let e = Header::create_with(HEADER_SIZE * 2 + SEGMENT_SIZE, 512, sample_uuid(), 7).err().unwrap();
    assert_eq!(e.message, "Capacity too small");
    assert_eq!(e.code, 2001);
    assert!(matches!(e.kind, ErrorKind::System));
    assert!(matches!(e.severity, ErrorSeverity::Error));
    let e = Header::create(1024, 512).err().unwrap();
    assert_eq!(e.message, "Capacity too small");
}

#[test]
fn create_lays_out_one_segment() {
    let capacity = HEADER_SIZE * 2 + SEGMENT_SIZE + 1;
    let h = Header::create_with(capacity, 512, sample_uuid(), 42).unwrap();
    // one segment: bitmap of one byte rounded to a 512-byte sector
    assert_eq!(h.segment_count, 1);
    assert_eq!(h.bitmap_offset, HEADER_SIZE);
    assert_eq!(h.bitmap_size_bytes, 512);
    assert_eq!(h.segment_offset, 4608);
    assert_eq!(h.mirror_offset, capacity - HEADER_SIZE);
    assert_eq!(h.last_segment_size_bytes, h.mirror_offset - h.segment_offset);
    assert_eq!(h.state, StorageState::Active);
    assert_eq!(h.created_at_ms, 42);
    assert_eq!(h.uuid, sample_uuid());
}

#[test]
fn create_lays_out_one_terabyte_disk() {
    let capacity: u64 = 1_000_204_886_016; // a typical 1 TB disk
    let h = Header::create_with(capacity, 4096, sample_uuid(), 1).unwrap();
    let available = h.mirror_offset - h.segment_offset;
    assert_eq!(h.segment_count, (available + SEGMENT_SIZE - 1) / SEGMENT_SIZE);
    assert_eq!(h.segment_count, 15);
    assert_eq!(h.bitmap_size_bytes, 4096);
    assert_eq!(h.segment_offset, 8192);
    assert!(h.bitmap_size_bytes * 8 >= h.segment_count);
    assert_eq!(h.segment_offset % 4096, 0);
    assert_eq!(
        h.segment_offset + (h.segment_count - 1) * SEGMENT_SIZE + h.last_segment_size_bytes,
        h.mirror_offset
    );
    assert!(h.last_segment_size_bytes > 0 && h.last_segment_size_bytes <= SEGMENT_SIZE);
}

#[test]
fn create_treats_zero_sector_as_one() {
    let capacity = HEADER_SIZE * 2 + SEGMENT_SIZE * 3;
    let h = Header::create_with(capacity, 0, sample_uuid(), 0).unwrap();
    assert_eq!(h.segment_count, 3);
    assert_eq!(h.bitmap_size_bytes, 1);
    assert_eq!(h.segment_offset, HEADER_SIZE + 1);
}

#[test]
fn create_stamps_version_seven_uuid() {
    let h = Header::create(HEADER_SIZE * 2 + SEGMENT_SIZE * 2, 512).unwrap();
    assert_eq!(h.uuid[6] >> 4, 7);
    assert_eq!(h.uuid[8] >> 6, 2);
    assert!(h.created_at_ms > 1_600_000_000_000);
    let stamp = h.created_at_ms.to_be_bytes();
    assert_eq!(&h.uuid[0..6], &stamp[2..8]);
    let id = uuid::Uuid::from_bytes(h.uuid);
    assert_eq!(id.get_version_num(), 7);
}

#[test]
fn header_bytes_layout_and_checksum() {
    let h = Header::create_with(HEADER_SIZE * 2 + SEGMENT_SIZE + 1, 512, sample_uuid(), 0x0102030405060708).unwrap();
    let b = h.to_bytes();
    assert_eq!(b.len() as u64, HEADER_SIZE);
    assert_eq!(&b[0..12], b"CORE STORAGE");
    assert_eq!(&b[12..28], &sample_uuid());
    assert_eq!(&b[28..32], &1u32.to_le_bytes());
    assert_eq!(&b[32..36], &2u32.to_le_bytes());
    assert_eq!(&b[36..44], &1u64.to_le_bytes());
    assert_eq!(&b[100..108], &0x0102030405060708u64.to_le_bytes());
    let crc = crc32c::crc32c(&b[..108]);
    assert_eq!(&b[108..112], &crc.to_le_bytes());
    assert!(b[112..].iter().all(|&x| x == 0));
}

#[test]
fn header_roundtrip() {
    let h = Header::create_with(1_000_204_886_016, 4096, sample_uuid(), 99).unwrap();
    let back = Header::from_bytes(&h.to_bytes()).unwrap();
    assert_eq!(back.uuid, h.uuid);
    assert_eq!(back.segment_count, h.segment_count);
    assert_eq!(back.total_bytes, h.total_bytes);
    assert_eq!(back.bitmap_size_bytes, h.bitmap_size_bytes);
    assert_eq!(back.last_segment_size_bytes, h.last_segment_size_bytes);
    assert_eq!(back.mirror_offset, h.mirror_offset);
    assert_eq!(back.segment_offset, h.segment_offset);
    assert_eq!(back.created_at_ms, 99);
    assert_eq!(back.state, StorageState::Active);
}

#[test]
fn from_bytes_refuses_wrong_magic() {
    let h = Header::create_with(HEADER_SIZE * 2 + SEGMENT_SIZE + 1, 512, sample_uuid(), 0).unwrap();
    let mut b = h.to_bytes();
    b[0] = b'X';
    let e = Header::from_bytes(&b).err().unwrap();
    assert_eq!(e.message, "Wrong magic");
    assert_eq!(e.code, Codes::Corrupt.value());
}

#[test]
fn from_bytes_refuses_bad_checksum() {
    let h = Header::create_with(HEADER_SIZE * 2 + SEGMENT_SIZE + 1, 512, sample_uuid(), 0).unwrap();
    let mut b = h.to_bytes();
    b[40] ^= 0xff;
    let e = Header::from_bytes(&b).err().unwrap();
    assert_eq!(e.message, "Crc32c not match");
}

#[test]
fn unknown_state_reads_as_uninitialized() {
    let h = Header::create_with(HEADER_SIZE * 2 + SEGMENT_SIZE + 1, 512, sample_uuid(), 0).unwrap();
    let mut b = h.to_bytes();
    b[32..36].copy_from_slice(&7u32.to_le_bytes());
    let crc = crc32c::crc32c(&b[..108]);
    b[108..112].copy_from_slice(&crc.to_le_bytes());
    let back = Header::from_bytes(&b).unwrap();
    assert_eq!(back.state, StorageState::Uninitialized);
}

#[test]
fn load_uses_primary_when_intact() {
    let h = Header::create_with(HEADER_SIZE * 2 + SEGMENT_SIZE + 1, 512, sample_uuid(), 5).unwrap();
    match Header::load_primary(Ok(h.to_bytes())) {
        LoadStep::Loaded(back) => assert_eq!(back.created_at_ms, 5),
        _ => panic!("primary header not loaded"),
    }
}

#[test]
fn load_recovers_from_mirror() {
    let h = Header::create_with(HEADER_SIZE * 2 + SEGMENT_SIZE + 1, 512, sample_uuid(), 5).unwrap();
    let mut damaged = h.to_bytes();
    damaged[3] = 0;
    let err = match Header::load_primary(Ok(damaged)) {
        LoadStep::ReadMirror(e) => e,
        _ => panic!("damaged primary accepted"),
    };
    assert_eq!(err.message, "Wrong magic");
    match Header::load_mirror(err, Ok(h.to_bytes())) {
        LoadStep::RestorePrimary(back, bytes) => {
            assert_eq!(back.created_at_ms, 5);
            assert_eq!(bytes, h.to_bytes());
        }
        _ => panic!("mirror not used"),
    }
}

#[test]
fn load_fails_when_both_copies_are_damaged() {
    let zero = vec![0u8; HEADER_SIZE as usize];
    let err = match Header::load_primary(Ok(zero.clone())) {
        LoadStep::ReadMirror(e) => e,
        _ => panic!(),
    };
    match Header::load_mirror(err, Ok(zero)) {
        LoadStep::Failed(e) => {
            assert_eq!(
                e.message,
                "Both primary and mirror headers corrupt. \n primary: Error: [2001] From System \n └─ Wrong magic \n mirror: Error: [2001] From System \n └─ Wrong magic"
            );
            assert_eq!(e.code, 2001);
        }
        _ => panic!(),
    }
}

#[test]
fn format_writes_place_header_bitmap_and_mirror() {
    let capacity = HEADER_SIZE * 2 + SEGMENT_SIZE * 2;
    let h = Header::create_with(capacity, 512, sample_uuid(), 1).unwrap();
    let writes = h.format_writes();
    assert_eq!(writes.len(), 3);
    assert_eq!(writes[0].offset, 0);
    assert_eq!(writes[0].bytes, h.to_bytes());
    assert_eq!(writes[1].offset, HEADER_SIZE);
    assert_eq!(writes[1].bytes.len() as u64, h.bitmap_size_bytes);
    assert!(writes[1].bytes.iter().all(|&b| b == 0));
    assert_eq!(writes[2].offset, capacity - HEADER_SIZE);
    assert_eq!(writes[2].bytes, h.to_bytes());
}

#[test]
fn is_magic_checks_the_first_twelve_bytes() {
    assert!(Header::is_magic(b"CORE STORAGE"));
    assert!(!Header::is_magic(b"CORE STORAGX"));
}

#[test]
fn align_up_rounds_to_multiple() {
    assert_eq!(Header::align_up(0, 512), 0);
    assert_eq!(Header::align_up(1, 512), 512);
    assert_eq!(Header::align_up(512, 512), 512);
    assert_eq!(Header::align_up(4097, 4096), 8192);
    assert_eq!(Header::align_up(u64::MAX - 511, 512), u64::MAX - 511);
    assert_eq!(Header::align_up(u64::MAX - 1022, 512), u64::MAX - 511);
}

#[test]
fn store_header_is_read_only_without_volumes_and_falls_back_to_blank() {
    assert!(reads_store_header(0));
    assert!(!reads_store_header(2));
    let h = Header::create_with(HEADER_SIZE * 2 + SEGMENT_SIZE + 1, 512, [7u8; 16], 5).unwrap();
    assert_eq!(loaded_or_blank(Ok(h)).uuid, [7u8; 16]);
    let blank = loaded_or_blank(Err(core_storage::error::BaseError::from_cause("io".to_string())));
    assert_eq!(blank.uuid, [0u8; 16]);
    assert_eq!(blank.state, StorageState::Uninitialized);
    assert_eq!(blank.total_bytes, 0);
}
