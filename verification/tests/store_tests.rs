use core_storage::store::disks::Disks;
use core_storage::store::error::{codes, BaseError};
use core_storage::store::models::{ChunkStatus, ObjectStatus, SegmentStatus};
use core_storage::store::{is_storage_candidate, Store};

fn disk(name: &str) -> Disks {
    Disks::new(name.into(), format!("/mnt/{name}"), 1000, 400, "SSD".into(), "ext4".into())
}

#[test]
fn statuses_roundtrip() {
    for s in [ChunkStatus::Temp, ChunkStatus::Committed, ChunkStatus::Trash, ChunkStatus::Deleted] {
        assert_eq!(ChunkStatus::from_str(s.as_str()), Some(s));
    }
    for s in [ObjectStatus::Pending, ObjectStatus::Committed, ObjectStatus::Deleted] {
        assert_eq!(ObjectStatus::from_str(s.as_str()), Some(s));
    }
    for s in [SegmentStatus::Open, SegmentStatus::Sealed, SegmentStatus::Compacting, SegmentStatus::Deleted] {
        assert_eq!(SegmentStatus::from_str(s.as_str()), Some(s));
    }
    assert_eq!(ChunkStatus::from_str("Temp"), None);
    assert_eq!(ObjectStatus::from_str("trash"), None);
    assert_eq!(SegmentStatus::Compacting.as_str(), "compacting");
}

#[test]
fn disks_activation() {
    let mut d = disk("sda");
    assert_eq!(d.uuid, "");
    assert!(d.needs_uuid());
    assert!(!d.active);
    assert!(d.active());
    assert!(!d.active());
    assert!(d.active);
    assert!(d.deactive());
    assert!(!d.deactive());
}

#[test]
fn store_activates_by_index() {
    let mut s = Store::new();
    s.push(disk("a"));
    s.push(disk("b"));
    s.push(disk("c"));
    assert_eq!(s.active_disks(1).ok(), Some(true));
    assert_eq!(s.active_disks(1).ok(), Some(false));
    assert_eq!(s.get_active_disks(), vec![1]);
    let e = s.active_disks(5).err().unwrap();
    assert_eq!(e.message, "not found disk from index 5");
    assert_eq!(e.code, codes::NOT_FOUND);
    assert_eq!(s.get_disks().len(), 3);
    s.clear();
    assert!(s.get_disks().is_empty());
}

#[test]
fn store_candidates_and_errors() {
    assert!(is_storage_candidate(false, false, "/data"));
    assert!(!is_storage_candidate(true, false, "/data"));
    assert!(!is_storage_candidate(false, true, "/data"));
    assert!(!is_storage_candidate(false, false, ""));
    assert_eq!(BaseError::internal("i".into()).code, codes::INTERNAL);
    assert_eq!(BaseError::bad_response("b".into()).code, codes::INTERNAL);
    assert_eq!(BaseError::timeout("t".into()).code, codes::TIMEOUT);
    assert_eq!(BaseError::new(7, core_storage::error::ErrorKind::User, core_storage::error::ErrorSeverity::Info, "m".into(), "e".into()).source, Some("e".to_string()));
}
