//! Descriptions of physical devices and of the stores on them, as tables.

use vstd::prelude::*;
use crate::cli::context::strings_view;
use crate::header::Header;
use crate::size::{format_size, size_text};
use crate::text::{decimal, digit_char, u64_to_decimal};
use crate::StorageState;

verus! {

/// A physical device as the system describes it.
pub struct DiskInfo {
    pub serial: String,
    pub model: String,
    pub sysfs_path: String,
    pub device_path: String,
    pub volume_paths: Vec<String>,
    pub removable: bool,
    pub read_only: bool,
    pub capacity_bytes: u64,
    pub logical_sector_size: u32,
    pub physical_sector_size: u32,
}

/// `true` or `false`.
pub open spec fn bool_text(b: bool) -> Seq<char> {
    if b { "true"@ } else { "false"@ }
}

fn bool_string(b: bool) -> (s: String)
    ensures
        s@ == bool_text(b),
{
    if b { String::from_str("true") } else { String::from_str("false") }
}

/// The items with `sep` between each two.
pub open spec fn join(items: Seq<Seq<char>>, sep: Seq<char>) -> Seq<char>
    decreases items.len(),
{
    if items.len() == 0 {
        Seq::empty()
    } else if items.len() == 1 {
        items[0]
    } else {
        join(items.drop_last(), sep) + sep + items.last()
    }
}

fn join_strings(items: &Vec<String>, sep: &str) -> (s: String)
    ensures
        s@ == join(strings_view(items@), sep@),
{
    let ghost v = strings_view(items@);
    let mut s = String::new();
    let mut i: usize = 0;
    while i < items.len()
        invariant
            v == strings_view(items@),
            0 <= i <= items@.len(),
            s@ == join(v.subrange(0, i as int), sep@),
        decreases items@.len() - i,
    {
        if i > 0 {
            s.append(sep);
        }
        s.append(items[i].as_str());
        assert(v.subrange(0, i + 1).drop_last() =~= v.subrange(0, i as int));
        i = i + 1;
    }
    assert(v.subrange(0, items@.len() as int) =~= v);
    s
}

/// The cells of a device's table row.
pub open spec fn disk_row(d: DiskInfo) -> Seq<Seq<char>> {
    seq![
        d.serial@,
        d.model@,
        d.sysfs_path@,
        d.device_path@,
        join(strings_view(d.volume_paths@), ", "@),
        bool_text(d.removable),
        bool_text(d.read_only),
        decimal(d.capacity_bytes as nat),
        decimal(d.logical_sector_size as nat),
        decimal(d.physical_sector_size as nat),
    ]
}

/// The headings of the device table.
pub open spec fn disk_headings() -> Seq<Seq<char>> {
    seq!["SERIAL"@, "MODULE"@, "SP"@, "DP"@, "VOLS"@, "REMOVE"@, "RO"@, "TOTAL"@, "LS"@, "PS"@]
}

impl DiskInfo {
    pub fn new(
        serial: String,
        model: String,
        sysfs_path: String,
        device_path: String,
        volume_paths: Vec<String>,
        removable: bool,
        read_only: bool,
        capacity_bytes: u64,
        logical_sector_size: u32,
        physical_sector_size: u32,
    ) -> (d: Self)
        ensures
            d.serial == serial,
            d.model == model,
            d.sysfs_path == sysfs_path,
            d.device_path == device_path,
            d.volume_paths == volume_paths,
            d.removable == removable,
            d.read_only == read_only,
            d.capacity_bytes == capacity_bytes,
            d.logical_sector_size == logical_sector_size,
            d.physical_sector_size == physical_sector_size,
    {
        DiskInfo {
            serial,
            model,
            sysfs_path,
            device_path,
            volume_paths,
            removable,
            read_only,
            capacity_bytes,
            logical_sector_size,
            physical_sector_size,
        }
    }

    /// The device's table row.
    pub fn to_vec(&self) -> (row: Vec<String>)
        ensures
            strings_view(row@) == disk_row(*self),
    {
        let mut row: Vec<String> = Vec::new();
        row.push(self.serial.clone());
        row.push(self.model.clone());
        row.push(self.sysfs_path.clone());
        row.push(self.device_path.clone());
        row.push(join_strings(&self.volume_paths, ", "));
        row.push(bool_string(self.removable));
        row.push(bool_string(self.read_only));
        row.push(u64_to_decimal(self.capacity_bytes));
        row.push(u64_to_decimal(self.logical_sector_size as u64));
        row.push(u64_to_decimal(self.physical_sector_size as u64));
        assert(strings_view(row@) =~= disk_row(*self));
        row
    }

    /// The device table: the headings, then a row per device in order.
    pub fn to_table(disks: Vec<Self>) -> (rows: Vec<Vec<String>>)
        ensures
            rows@.len() == disks@.len() + 1,
            strings_view(rows@[0]@) == disk_headings(),
            forall|i: int| 0 <= i < disks@.len() ==> strings_view(#[trigger] rows@[i + 1]@) == disk_row(disks@[i]),
    {
        let mut rows: Vec<Vec<String>> = Vec::new();
        let mut head: Vec<String> = Vec::new();
        head.push(String::from_str("SERIAL"));
        head.push(String::from_str("MODULE"));
        head.push(String::from_str("SP"));
        head.push(String::from_str("DP"));
        head.push(String::from_str("VOLS"));
        head.push(String::from_str("REMOVE"));
        head.push(String::from_str("RO"));
        head.push(String::from_str("TOTAL"));
        head.push(String::from_str("LS"));
        head.push(String::from_str("PS"));
        assert(strings_view(head@) =~= disk_headings());
        rows.push(head);
        let mut i: usize = 0;
        while i < disks.len()
            invariant
                0 <= i <= disks@.len(),
                rows@.len() == i + 1,
                strings_view(rows@[0]@) == disk_headings(),
                forall|k: int| 0 <= k < i ==> strings_view(#[trigger] rows@[k + 1]@) == disk_row(disks@[k]),
            decreases disks@.len() - i,
        {
            let row = disks[i].to_vec();
            rows.push(row);
            i = i + 1;
        }
        rows
    }
}

/// The two hexadecimal digits of a byte.
pub open spec fn hex_byte(b: u8) -> Seq<char> {
    seq![digit_char((b / 16) as int), digit_char((b % 16) as int)]
}

pub open spec fn hex_bytes(b: Seq<u8>) -> Seq<char>
    decreases b.len(),
{
    if b.len() == 0 { Seq::empty() } else { hex_bytes(b.drop_last()) + hex_byte(b.last()) }
}

/// The hyphenated lowercase form of a UUID: 8-4-4-4-12 hexadecimal digits.
pub open spec fn uuid_text(b: Seq<u8>) -> Seq<char> {
    hex_bytes(b.subrange(0, 4)) + "-"@ + hex_bytes(b.subrange(4, 6)) + "-"@ + hex_bytes(b.subrange(6, 8))
        + "-"@ + hex_bytes(b.subrange(8, 10)) + "-"@ + hex_bytes(b.subrange(10, 16))
}

/// Calls `uuid::Uuid::from_bytes` and renders the UUID with `to_string`,
/// which the crate documents as the hyphenated lowercase form.
#[verifier::external_body]
fn uuid_string(bytes: [u8; 16]) -> (s: String)
    ensures
        s@ == uuid_text(bytes@),
{
    uuid::Uuid::from_bytes(bytes).to_string()
}

/// The rendering `chrono` gives of a UTC timestamp in milliseconds, when
/// the timestamp is within its range.
pub uninterp spec fn utc_timestamp_text(millis: i64) -> Option<Seq<char>>;

/// Calls `chrono::DateTime::from_timestamp_millis` and renders the date with
/// `to_string`; the contract names the result and states nothing of the
/// calendar arithmetic behind it.
#[verifier::external_body]
fn utc_timestamp_string(millis: i64) -> (r: Option<String>)
    ensures
        r is None ==> utc_timestamp_text(millis) is None,
        r matches Some(s) ==> utc_timestamp_text(millis) == Some(s@),
{
    match chrono::DateTime::from_timestamp_millis(millis) {
        Some(d) => Some(d.to_string()),
        None => None,
    }
}

/// The creation time of a store as a UTC date; the milliseconds are read as
/// a signed number.
pub fn format_date(ms: u64) -> (s: String)
    requires
        utc_timestamp_text(ms as i64) is Some,
    ensures
        Some(s@) == utc_timestamp_text(ms as i64),
{
    match utc_timestamp_string(ms as i64) {
        Some(s) => s,
        None => String::new(),
    }
}

/// The date of `ms`, or nothing when it is outside the calendar's range.
pub fn try_format_date(ms: u64) -> (r: Option<String>)
    ensures
        r is None ==> utc_timestamp_text(ms as i64) is None,
        r matches Some(s) ==> utc_timestamp_text(ms as i64) == Some(s@),
{
    match utc_timestamp_string(ms as i64) {
        Some(_) => Some(format_date(ms)),
        None => None,
    }
}

/// The headings of the store table.
pub open spec fn storage_headings() -> Seq<Seq<char>> {
    seq!["NAME"@, "UUID"@, "VERS"@, "STATE"@, "SEG_COUNT"@, "TOTAL"@, "CREATE_AT"@]
}

pub fn storage_headings_row() -> (row: Vec<String>)
    ensures
        strings_view(row@) == storage_headings(),
{
    let mut row: Vec<String> = Vec::new();
    row.push(String::from_str("NAME"));
    row.push(String::from_str("UUID"));
    row.push(String::from_str("VERS"));
    row.push(String::from_str("STATE"));
    row.push(String::from_str("SEG_COUNT"));
    row.push(String::from_str("TOTAL"));
    row.push(String::from_str("CREATE_AT"));
    assert(strings_view(row@) =~= storage_headings());
    row
}

pub open spec fn state_text(s: StorageState) -> Seq<char> {
    match s {
        StorageState::Uninitialized => "Uninitialized"@,
        StorageState::Initialized => "Initialized"@,
        StorageState::Active => "Active"@,
        StorageState::Corrupt => "Corrupt"@,
    }
}

/// The cells of a store's table row.
pub open spec fn storage_row_text(name: Seq<char>, h: Header, date: Seq<char>) -> Seq<Seq<char>> {
    seq![
        name,
        uuid_text(h.uuid@),
        decimal(h.version as nat),
        state_text(h.state),
        decimal(h.segment_count as nat),
        size_text(h.total_bytes),
        date,
    ]
}

/// A store's table row: device name, identifier, version, state, segment
/// count, size and creation date.
pub fn storage_row(name: String, header: &Header) -> (row: Vec<String>)
    requires
        utc_timestamp_text(header.created_at_ms as i64) is Some,
    ensures
        Some(strings_view(row@)) == (match utc_timestamp_text(header.created_at_ms as i64) {
            Some(d) => Some(storage_row_text(name@, *header, d)),
            None => None,
        }),
{
    let mut row: Vec<String> = Vec::new();
    let ghost n = name@;
    row.push(name);
    row.push(uuid_string(header.uuid));
    row.push(u64_to_decimal(header.version as u64));
    row.push(String::from_str(header.state.name()));
    row.push(u64_to_decimal(header.segment_count));
    row.push(format_size(header.total_bytes));
    row.push(format_date(header.created_at_ms));
    assert(strings_view(row@) =~= storage_row_text(
        n,
        *header,
        utc_timestamp_text(header.created_at_ms as i64)->Some_0,
    ));
    row
}

/// A store's table row, or nothing when its creation time is outside the
/// calendar's range.
pub fn try_storage_row(name: String, header: &Header) -> (row: Option<Vec<String>>)
    ensures
        row is None ==> utc_timestamp_text(header.created_at_ms as i64) is None,
        row matches Some(r) ==> utc_timestamp_text(header.created_at_ms as i64) matches Some(d)
            && strings_view(r@) == storage_row_text(name@, *header, d),
{
    match try_format_date(header.created_at_ms) {
        Some(_) => Some(storage_row(name, header)),
        None => None,
    }
}

} // verus!
