//! Verified core of a raw-device object store: on-disk header layout and
//! codec, byte readers and writers, the command-line front end, the transfer
//! protocol and the catalogue models.

use vstd::prelude::*;

pub mod cli;
pub mod console;
pub mod device;
pub mod disk;
pub mod error;
pub mod format;
pub mod header;
pub mod layout;
pub mod raw;
pub mod size;
pub mod store;
pub mod tcp;
pub mod text;

pub use size::format_size;
pub use disk::format_date;

verus! {

pub const KB: u64 = 1024;
pub const MB: u64 = 1048576;
pub const GB: u64 = 1073741824;
pub const TB: u64 = 1099511627776;

/// Size of one header copy on the device.
pub const HEADER_SIZE: u64 = 4096;
/// Size of every segment but the last.
pub const SEGMENT_SIZE: u64 = 68719476736;
/// Format version written into new headers.
pub const VERSION: u32 = 1;

/// Lifecycle state of a formatted device.
#[derive(Debug, Clone, Copy, PartialEq, Eq, Structural)]
pub enum StorageState {
    Uninitialized,
    Initialized,
    Active,
    Corrupt,
}

impl StorageState {
    /// The number stored for a state on disk.
    pub open spec fn code(self) -> u32 {
        match self {
            StorageState::Uninitialized => 0,
            StorageState::Initialized => 1,
            StorageState::Active => 2,
            StorageState::Corrupt => 3,
        }
    }

    /// The state a stored number stands for; unknown numbers read as `Uninitialized`.
    pub open spec fn spec_from_u32(v: u32) -> StorageState {
        if v == 1 {
            StorageState::Initialized
        } else if v == 2 {
            StorageState::Active
        } else if v == 3 {
            StorageState::Corrupt
        } else {
            StorageState::Uninitialized
        }
    }

    pub fn from_u32(v: u32) -> (s: StorageState)
        ensures
            s == Self::spec_from_u32(v),
    {
        match v {
            1 => StorageState::Initialized,
            2 => StorageState::Active,
            3 => StorageState::Corrupt,
            _ => StorageState::Uninitialized,
        }
    }

    pub fn as_u32(&self) -> (v: u32)
        ensures
            v == self.code(),
    {
        match self {
            StorageState::Uninitialized => 0,
            StorageState::Initialized => 1,
            StorageState::Active => 2,
            StorageState::Corrupt => 3,
        }
    }

    /// The display name of the state.
    pub fn name(&self) -> (s: &'static str)
        ensures
            s@ == (match *self {
                StorageState::Uninitialized => "Uninitialized"@,
                StorageState::Initialized => "Initialized"@,
                StorageState::Active => "Active"@,
                StorageState::Corrupt => "Corrupt"@,
            }),
    {
        match self {
            StorageState::Uninitialized => "Uninitialized",
            StorageState::Initialized => "Initialized",
            StorageState::Active => "Active",
            StorageState::Corrupt => "Corrupt",
        }
    }
}

/// Reading back the stored number of a state gives the state again.
pub proof fn lemma_state_code_roundtrip(s: StorageState)
    ensures
        StorageState::spec_from_u32(s.code()) == s,
{
}

/// A device together with the header read from it.
pub struct StorageInfo {
    pub disk: disk::DiskInfo,
    pub header: header::Header,
}

impl StorageInfo {
    pub fn new(disk: disk::DiskInfo, header: header::Header) -> (s: Self)
        ensures
            s.disk == disk,
            s.header == header,
    {
        StorageInfo { disk, header }
    }
}

} // verus!
