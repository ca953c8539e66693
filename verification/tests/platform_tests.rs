use core_storage::device::{has_boot_signature, is_boot_disk, physical_drive_path, Guid, PartitionEntry, TempMount};
use core_storage::disk::{storage_headings_row, storage_row, try_format_date, try_storage_row, DiskInfo};
use core_storage::error::{BaseError, BaseResultExt, Codes, ErrorKind, ErrorSeverity};
use core_storage::format::{existing_store_check, physical_volume_check, require_root, volume_check, zero_fill_len, FormatMode, VolumeProbe};
use core_storage::header::Header;
use core_storage::{format_date, StorageInfo, StorageState, HEADER_SIZE, SEGMENT_SIZE};

fn disk() -> DiskInfo {
    DiskInfo::new(
        "S1".into(),
        "Model X".into(),
        "/sys/block/sdb".into(),
        "/dev/sdb".into(),
        vec!["/dev/sdb1".into(), "/dev/sdb2".into()],
        false,
        true,
        500_107_862_016,
        512,
        4096,
    )
}

#[test]
fn disk_table() {
    let d = disk();
    assert_eq!(
        d.to_vec(),
        vec!["S1", "Model X", "/sys/block/sdb", "/dev/sdb", "/dev/sdb1, /dev/sdb2", "false", "true", "500107862016", "512", "4096"]
    );
    let t = DiskInfo::to_table(vec![disk()]);
    assert_eq!(t.len(), 2);
    assert_eq!(t[0], vec!["SERIAL", "MODULE", "SP", "DP", "VOLS", "REMOVE", "RO", "TOTAL", "LS", "PS"]);
    let info = StorageInfo::new(disk(), Header::new());
    assert_eq!(info.disk.serial, "S1");
}

#[test]
fn dates_and_store_rows() {
    assert_eq!(format_date(0), "1970-01-01 00:00:00 UTC");
    assert_eq!(format_date(947638923004), "2000-01-12 01:02:03.004 UTC");
    assert_eq!(try_format_date(u64::MAX), Some("1969-12-31 23:59:59.999 UTC".to_string()));
    assert_eq!(try_format_date(i64::MAX as u64), None);
    let uuid = [0x01, 0x8f, 0x2a, 0x3b, 0x4c, 0x5d, 0x7e, 0x6f, 0x80, 0x91, 0xa2, 0xb3, 0xc4, 0xd5, 0xe6, 0xf7];
    let h = Header::create_with(HEADER_SIZE * 2 + SEGMENT_SIZE + 1, 512, uuid, 0).unwrap();
    let row = storage_row("sdb".into(), &h);
    assert_eq!(row[0], "sdb");
    assert_eq!(row[1], uuid::Uuid::from_bytes(uuid).to_string());
    assert_eq!(row[1], "018f2a3b-4c5d-7e6f-8091-a2b3c4d5e6f7");
    assert_eq!(row[2], "1");
    assert_eq!(row[3], "Active");
    assert_eq!(row[4], "1");
    assert_eq!(row[5], "64.00 GB");
    assert_eq!(row[6], "1970-01-01 00:00:00 UTC");
    assert_eq!(storage_headings_row(), vec!["NAME", "UUID", "VERS", "STATE", "SEG_COUNT", "TOTAL", "CREATE_AT"]);
    let mut late = h;
    late.created_at_ms = i64::MAX as u64;
    assert!(try_storage_row("sdb".into(), &late).is_none());
}

#[test]
fn storage_state_numbers() {
    assert_eq!(StorageState::from_u32(1), StorageState::Initialized);
    assert_eq!(StorageState::from_u32(2), StorageState::Active);
    assert_eq!(StorageState::from_u32(3), StorageState::Corrupt);
    assert_eq!(StorageState::from_u32(9), StorageState::Uninitialized);
    assert_eq!(StorageState::Corrupt.as_u32(), 3);
    assert_eq!(StorageState::Active.name(), "Active");
}

#[test]
fn format_mode_words() {
    assert_eq!(FormatMode::from_str("zerofill"), FormatMode::ZeroFill);
    assert_eq!(FormatMode::from_str("  Zero-Fill\n"), FormatMode::ZeroFill);
    assert_eq!(FormatMode::from_str("ZERO_FILL"), FormatMode::ZeroFill);
    assert_eq!(FormatMode::from_str("zero"), FormatMode::ZeroFill);
    assert_eq!(FormatMode::from_str(" ZERO "), FormatMode::ZeroFill);
    assert_eq!(FormatMode::from_str("zeros"), FormatMode::Quick);
    assert_eq!(FormatMode::from_str("quick"), FormatMode::Quick);
    assert_eq!(FormatMode::from_str("\u{3000}zerofill"), FormatMode::ZeroFill);
}

#[test]
fn format_checks() {
    assert!(require_root(0).is_ok());
    let e = require_root(1000).err().unwrap();
    assert_eq!(e.message, "This operation requires root privileges.");
    assert_eq!(e.code, Codes::PermissionDenied.value());
    assert!(matches!(e.severity, ErrorSeverity::Warning));
    let sys = VolumeProbe::Mounted { has_system_directory: true, has_directory_entries: true };
    assert_eq!(volume_check(true, "/dev/sdb", sys).err().unwrap().message, "[/dev/sdb] Contains system directory.");
    let full = VolumeProbe::Mounted { has_system_directory: false, has_directory_entries: true };
    assert_eq!(
        volume_check(false, "/dev/sdb", full).err().unwrap().message,
        "[/dev/sdb] Contains directory entries. Try --forced"
    );
    assert!(volume_check(true, "/dev/sdb", full).is_ok());
    assert_eq!(
        volume_check(false, "/dev/sdb", VolumeProbe::Unmountable).err().unwrap().message,
        "[/dev/sdb] Cannot mount volume. Try --forced"
    );
    assert!(volume_check(true, "/dev/sdb", VolumeProbe::Unmountable).is_ok());
    assert_eq!(
        physical_volume_check(false, "sdb", full).err().unwrap().message,
        "[sdb] Has directory entries. Try --forced"
    );
    assert_eq!(
        existing_store_check(false, "/dev/sdb", true).err().unwrap().message,
        "[/dev/sdb] Contains core format. Try --forced"
    );
    assert!(existing_store_check(true, "/dev/sdb", true).is_ok());
    assert!(existing_store_check(false, "/dev/sdb", false).is_ok());
}

#[test]
fn zero_fill_chunks() {
    assert_eq!(zero_fill_len(0, 10), 10);
    assert_eq!(zero_fill_len(0, 10 << 20), 4 << 20);
    assert_eq!(zero_fill_len(9 << 20, 10 << 20), 1 << 20);
}

#[test]
fn errors_render() {
    let e = BaseError::system_error("disk gone".into(), Codes::Raw);
    assert_eq!(e.code, 2002);
    assert_eq!(e.to_text(), "Error: [2002] From System \n └─ disk gone");
    let e = BaseError::user_error("bad".into(), Codes::InvalidInput);
    assert_eq!(e.to_text(), "Error: [1000] From User \n └─ bad");
    let e = BaseError::software_warning("w".into(), Codes::Timeout).with_err("io".into());
    assert_eq!(e.source, Some("io".to_string()));
    assert!(matches!(e.kind, ErrorKind::Software));
    let e = BaseError::from_cause("broken pipe".into());
    assert_eq!(e.to_text(), "Fatal: [1003] From Software \n └─ broken pipe");
    let r: Result<u8, BaseError> = Err(BaseError::external_error("x".into(), Codes::NotFound));
    let r = r.message("y".into()).code(-1).kind(ErrorKind::User);
    let e = r.err().unwrap();
    assert_eq!(e.message, "y");
    assert_eq!(e.code, u32::MAX);
    assert!(matches!(e.kind, ErrorKind::User));
    let ok: Result<u8, BaseError> = Ok(3);
    assert_eq!(ok.message("z".into()).unwrap(), 3);
    assert_eq!(BaseError::software_error("s".into(), Codes::Command).code, 2000);
    assert_eq!(BaseError::system_warning("s".into(), Codes::Internal).code, 1003);
}

#[test]
fn raw_device_checks() {
    let mut sector = [0u8; 512];
    assert!(!has_boot_signature(&sector));
    sector[510] = 0x55;
    sector[511] = 0xAA;
    assert!(has_boot_signature(&sector));
    assert_eq!(physical_drive_path(3), r"\\.\PhysicalDrive3");
    let esp = Guid { data1: 0xC12A7328, data2: 0xF81F, data3: 0x11D2, data4: [0xBA, 0x4B, 0x00, 0xA0, 0xC9, 0x3E, 0xC9, 0x3B] };
    let other = Guid { data1: 0xEBD0A0A2, data2: 0xB9E5, data3: 0x4433, data4: [0x87, 0xC0, 0x68, 0xB6, 0xB7, 0x26, 0x99, 0xC7] };
    assert!(is_boot_disk(&[PartitionEntry::Raw, PartitionEntry::Gpt { partition_type: esp }]));
    assert!(!is_boot_disk(&[PartitionEntry::Gpt { partition_type: other }, PartitionEntry::Mbr { boot_indicator: false }]));
    assert!(is_boot_disk(&[PartitionEntry::Mbr { boot_indicator: true }]));
    let m = TempMount { mount_point: "/tmp/core-storage-1".into() };
    assert_eq!(
        m.system_directory_paths(),
        vec!["/tmp/core-storage-1/boot", "/tmp/core-storage-1/etc", "/tmp/core-storage-1/bin", "/tmp/core-storage-1/usr", "/tmp/core-storage-1/var"]
    );
    assert!(TempMount::has_system_directory(&[false, true]));
    assert!(!TempMount::has_system_directory(&[false, false]));
}
