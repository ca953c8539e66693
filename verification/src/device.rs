//! What is read from raw devices: the boot signature of a first sector, the
//! partition table entries that mark a boot disk, and device paths.

use vstd::prelude::*;
use vstd::string::StrSliceExecFns;
use crate::format::{system_directories, system_directory_names};
use crate::text::{decimal, u64_to_decimal};

verus! {

broadcast use vstd::array::group_array_axioms;

/// Whether a first sector ends with the MBR/GPT boot signature `55 AA`.
pub fn has_boot_signature(sector: &[u8; 512]) -> (b: bool)
    ensures
        b == (sector@[510] == 0x55 && sector@[511] == 0xAA),
{
    sector[510] == 0x55 && sector[511] == 0xAA
}

/// The path of a physical drive by its number.
pub fn physical_drive_path(disk_number: u32) -> (p: String)
    ensures
        p@ == "\\\\.\\PhysicalDrive"@ + decimal(disk_number as nat),
{
    let mut p = String::from_str("\\\\.\\PhysicalDrive");
    let n = u64_to_decimal(disk_number as u64);
    p.append(n.as_str());
    p
}

/// A GUID as its four fields.
#[derive(Debug, Clone, Copy)]
pub struct Guid {
    pub data1: u32,
    pub data2: u16,
    pub data3: u16,
    pub data4: [u8; 8],
}

/// The partition type of an EFI system partition,
/// c12a7328-f81f-11d2-ba4b-00a0c93ec93b.
pub open spec fn is_efi_system_type(g: Guid) -> bool {
    g.data1 == 0xC12A7328 && g.data2 == 0xF81F && g.data3 == 0x11D2 && g.data4@ == seq![
        0xBAu8,
        0x4Bu8,
        0x00u8,
        0xA0u8,
        0xC9u8,
        0x3Eu8,
        0xC9u8,
        0x3Bu8,
    ]
}

/// An entry of a partition table.
#[derive(Debug, Clone, Copy)]
pub enum PartitionEntry {
    /// A partition of an MBR table, with its boot flag.
    Mbr { boot_indicator: bool },
    /// A partition of a GPT table, with its type.
    Gpt { partition_type: Guid },
    /// A partition of a disk without a partition table.
    Raw,
}

/// A partition the system boots from: flagged bootable in an MBR table, or
/// an EFI system partition in a GPT table.
pub open spec fn is_boot_partition(e: PartitionEntry) -> bool {
    match e {
        PartitionEntry::Mbr { boot_indicator } => boot_indicator,
        PartitionEntry::Gpt { partition_type } => is_efi_system_type(partition_type),
        PartitionEntry::Raw => false,
    }
}

fn efi_system_type(g: &Guid) -> (b: bool)
    ensures
        b == is_efi_system_type(*g),
{
    let ok = g.data1 == 0xC12A7328 && g.data2 == 0xF81F && g.data3 == 0x11D2 && g.data4[0] == 0xBA
        && g.data4[1] == 0x4B && g.data4[2] == 0x00 && g.data4[3] == 0xA0 && g.data4[4] == 0xC9
        && g.data4[5] == 0x3E && g.data4[6] == 0xC9 && g.data4[7] == 0x3B;
    proof {
        if ok {
            assert(g.data4@ =~= seq![0xBAu8, 0x4Bu8, 0x00u8, 0xA0u8, 0xC9u8, 0x3Eu8, 0xC9u8, 0x3Bu8]);
        }
    }
    ok
}

/// Whether a disk is the boot disk: some entry of its partition table is a
/// boot partition.
pub fn is_boot_disk(entries: &[PartitionEntry]) -> (b: bool)
    ensures
        b == exists|i: int| 0 <= i < entries@.len() && is_boot_partition(#[trigger] entries@[i]),
{
    let mut i: usize = 0;
    while i < entries.len()
        invariant
            0 <= i <= entries@.len(),
            forall|k: int| 0 <= k < i ==> !is_boot_partition(#[trigger] entries@[k]),
        decreases entries@.len() - i,
    {
        let boot = match &entries[i] {
            PartitionEntry::Mbr { boot_indicator } => *boot_indicator,
            PartitionEntry::Gpt { partition_type } => efi_system_type(partition_type),
            PartitionEntry::Raw => false,
        };
        if boot {
            return true;
        }
        i = i + 1;
    }
    false
}

/// `base` joined with the relative path `name`.
pub open spec fn path_join(base: Seq<char>, name: Seq<char>) -> Seq<char> {
    if base.len() == 0 || base.last() == '/' { base + name } else { base + "/"@ + name }
}

/// A volume mounted at a temporary mount point.
pub struct TempMount {
    pub mount_point: String,
}

impl TempMount {
    /// The paths whose presence shows the volume holds an installed system.
    pub fn system_directory_paths(&self) -> (paths: Vec<String>)
        ensures
            paths@.len() == 5,
            forall|i: int| 0 <= i < 5 ==> (#[trigger] paths@[i])@ == path_join(
                self.mount_point@,
                system_directories()[i],
            ),
    {
        let names = system_directory_names();
        let mut paths: Vec<String> = Vec::new();
        let mut i: usize = 0;
        while i < names.len()
            invariant
                names@.len() == 5,
                forall|k: int| 0 <= k < 5 ==> (#[trigger] names@[k])@ == system_directories()[k],
                0 <= i <= 5,
                paths@.len() == i,
                forall|k: int| 0 <= k < i ==> (#[trigger] paths@[k])@ == path_join(
                    self.mount_point@,
                    system_directories()[k],
                ),
            decreases 5 - i,
        {
            let mut p = String::from_str(self.mount_point.as_str());
            let n = p.as_str().unicode_len();
            if !(n == 0 || p.as_str().get_char(n - 1) == '/') {
                p.append("/");
            }
            p.append(names[i]);
            paths.push(p);
            i = i + 1;
        }
        paths
    }

    /// Whether any of the system directories is present, given which of
    /// `system_directory_paths` exist.
    pub fn has_system_directory(exists: &[bool]) -> (b: bool)
        ensures
            b == exists|i: int| 0 <= i < exists@.len() && #[trigger] exists@[i],
    {
        let mut i: usize = 0;
        while i < exists.len()
            invariant
                0 <= i <= exists@.len(),
                forall|k: int| 0 <= k < i ==> !#[trigger] exists@[k],
            decreases exists@.len() - i,
        {
            if exists[i] {
                return true;
            }
            i = i + 1;
        }
        false
    }
}

} // verus!
