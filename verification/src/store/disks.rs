//! A mounted disk in the catalogue.

use vstd::prelude::*;

verus! {

/// A mounted disk the store writes to, as the catalogue records it.
pub struct Disks {
    pub disk_id: i64,
    pub name: String,
    pub uuid: String,
    pub mount_path: String,
    pub active: bool,
    pub capacity_bytes: u64,
    pub available_bytes: u64,
    pub kind: String,
    pub fs: String,
    pub created_at: i64,
    pub updated_at: i64,
}

/// The file at the root of a disk that holds its identifier.
pub const UUID_FILE: &'static str = ".uuid";

impl Disks {
    /// A disk found by a scan, not yet recorded: no identifier, inactive.
    pub fn new(
        name: String,
        mount_path: String,
        capacity_bytes: u64,
        available_bytes: u64,
        kind: String,
        fs: String,
    ) -> (d: Self)
        ensures
            d.disk_id == 0,
            d.active == false,
            d.created_at == 0,
            d.updated_at == 0,
            d.uuid@ == Seq::<char>::empty(),
            d.name == name,
            d.mount_path == mount_path,
            d.capacity_bytes == capacity_bytes,
            d.available_bytes == available_bytes,
            d.kind == kind,
            d.fs == fs,
    {
        Disks {
            disk_id: 0,
            active: false,
            created_at: 0,
            updated_at: 0,
            uuid: String::new(),
            name,
            mount_path,
            capacity_bytes,
            available_bytes,
            kind,
            fs,
        }
    }

    /// Marks the disk active; says whether that changed it (and so whether
    /// its record must be updated).
    pub fn active(&mut self) -> (changed: bool)
        ensures
            changed == !old(self).active,
            *final(self) == (Disks { active: true, ..*old(self) }),
    {
        if self.active {
            return false;
        }
        self.active = true;
        true
    }

    /// Marks the disk inactive; says whether that changed it.
    pub fn deactive(&mut self) -> (changed: bool)
        ensures
            changed == old(self).active,
            *final(self) == (Disks { active: false, ..*old(self) }),
    {
        if !self.active {
            return false;
        }
        self.active = false;
        true
    }

    /// Whether the disk needs a new identifier: none was read from its
    /// identifier file.
    pub fn needs_uuid(&self) -> (b: bool)
        ensures
            b == (self.uuid@.len() == 0),
    {
        vstd::string::StrSliceExecFns::unicode_len(self.uuid.as_str()) == 0
    }
}

} // verus!
