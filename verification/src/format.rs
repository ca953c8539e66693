//! The checks before a device is formatted, and the modes of formatting.

use vstd::prelude::*;
use vstd::string::StrSliceExecFns;
use crate::error::{BaseError, Codes, ErrorKind, ErrorSeverity};

verus! {

/// How a device is formatted.
#[derive(Debug, Clone, Copy, PartialEq, Eq, Structural)]
pub enum FormatMode {
    /// Write the header and the bitmap only.
    Quick,
    /// Zero the whole device first.
    ZeroFill,
}

/// Unicode white space, as `char::is_whitespace` defines it.
pub open spec fn is_white_space(c: char) -> bool {
    let u = c as u32;
    (0x09 <= u <= 0x0d) || u == 0x20 || u == 0x85 || u == 0xa0 || u == 0x1680 || (0x2000 <= u <= 0x200a)
        || u == 0x2028 || u == 0x2029 || u == 0x202f || u == 0x205f || u == 0x3000
}

fn white_space(c: char) -> (b: bool)
    ensures
        b == is_white_space(c),
{
    let u = c as u32;
    (0x09 <= u && u <= 0x0d) || u == 0x20 || u == 0x85 || u == 0xa0 || u == 0x1680 || (0x2000 <= u && u <= 0x200a)
        || u == 0x2028 || u == 0x2029 || u == 0x202f || u == 0x205f || u == 0x3000
}

/// `s` without leading white space.
pub open spec fn trim_start(s: Seq<char>) -> Seq<char>
    decreases s.len(),
{
    if s.len() > 0 && is_white_space(s[0]) { trim_start(s.drop_first()) } else { s }
}

/// `s` without trailing white space.
pub open spec fn trim_end(s: Seq<char>) -> Seq<char>
    decreases s.len(),
{
    if s.len() > 0 && is_white_space(s.last()) { trim_end(s.drop_last()) } else { s }
}

/// `s` without white space at either end.
pub open spec fn trim(s: Seq<char>) -> Seq<char> {
    trim_end(trim_start(s))
}

fn trim_start_str(s: &str) -> (t: &str)
    ensures
        t@ == trim_start(s@),
    decreases s@.len(),
{
    let n = s.unicode_len();
    if n > 0 && white_space(s.get_char(0)) {
        let rest = s.substring_char(1, n);
        assert(rest@ =~= s@.drop_first());
        trim_start_str(rest)
    } else {
        s
    }
}

fn trim_end_str(s: &str) -> (t: &str)
    ensures
        t@ == trim_end(s@),
    decreases s@.len(),
{
    let n = s.unicode_len();
    if n > 0 && white_space(s.get_char(n - 1)) {
        let rest = s.substring_char(0, n - 1);
        assert(rest@ =~= s@.drop_last());
        trim_end_str(rest)
    } else {
        s
    }
}

/// `c` with ASCII capitals made small, as `to_ascii_lowercase` does.
pub open spec fn ascii_lower(c: char) -> int {
    if 65 <= (c as u32) <= 90 { (c as u32) + 32 } else { c as u32 as int }
}

/// Whether `s`, lowercased in ASCII, is `word` (a lowercase ASCII word).
pub open spec fn lower_equals(s: Seq<char>, word: Seq<char>) -> bool {
    s.len() == word.len() && forall|i: int| 0 <= i < s.len() ==> ascii_lower(s[i]) == word[i] as u32 as int
}

fn lower_eq(s: &str, word: &str) -> (b: bool)
    ensures
        b == lower_equals(s@, word@),
{
    let n = s.unicode_len();
    if n != word.unicode_len() {
        return false;
    }
    let mut i: usize = 0;
    while i < n
        invariant
            n == s@.len(),
            n == word@.len(),
            0 <= i <= n,
            forall|k: int| 0 <= k < i ==> ascii_lower(s@[k]) == word@[k] as u32 as int,
        decreases n - i,
    {
        let c = s.get_char(i);
        let w = word.get_char(i);
        let cu = c as u32;
        let lc: u32 = if 65 <= cu && cu <= 90 { cu + 32 } else { cu };
        if lc != w as u32 {
            return false;
        }
        i = i + 1;
    }
    true
}

/// The mode a word names: "zero" and the spellings of zero-fill, in any
/// ASCII case and with white space around, name `ZeroFill`; every other word
/// names `Quick`.
pub open spec fn mode_of(s: Seq<char>) -> FormatMode {
    let t = trim(s);
    if lower_equals(t, "zero"@) || lower_equals(t, "zerofill"@) || lower_equals(t, "zero-fill"@) || lower_equals(t, "zero_fill"@) {
        FormatMode::ZeroFill
    } else {
        FormatMode::Quick
    }
}

impl FormatMode {
    pub fn from_str(s: &str) -> (m: Self)
        ensures
            m == mode_of(s@),
    {
        let t = trim_end_str(trim_start_str(s));
        if lower_eq(t, "zero") || lower_eq(t, "zerofill") || lower_eq(t, "zero-fill") || lower_eq(t, "zero_fill") {
            FormatMode::ZeroFill
        } else {
            FormatMode::Quick
        }
    }
}

/// The error of a refused format: a system warning with the permission code.
pub open spec fn refusal(e: BaseError, message: Seq<char>) -> bool {
    &&& e.code == Codes::PermissionDenied.spec_value()
    &&& e.kind == ErrorKind::System
    &&& e.severity == ErrorSeverity::Warning
    &&& e.source is None
    &&& e.message@ == message
}

fn refuse(device: &str, reason: &str) -> (e: BaseError)
    ensures
        refusal(e, "["@ + device@ + "] "@ + reason@),
{
    let mut m = String::from_str("[");
    m.append(device);
    m.append("] ");
    m.append(reason);
    BaseError::system_warning(m, Codes::PermissionDenied)
}

/// Formatting needs root privileges.
pub fn require_root(euid: u32) -> (r: Result<(), BaseError>)
    ensures
        euid == 0 ==> r is Ok,
        euid != 0 ==> (r matches Err(e) && refusal(e, "This operation requires root privileges."@)),
{
    if euid != 0 {
        return Err(BaseError::system_warning(
            String::from_str("This operation requires root privileges."),
            Codes::PermissionDenied,
        ));
    }
    Ok(())
}

/// What mounting a volume of the device showed.
#[derive(Debug, Clone, Copy, PartialEq, Eq, Structural)]
pub enum VolumeProbe {
    /// The volume could not be mounted.
    Unmountable,
    /// The volume mounted; whether it holds a system directory and whether
    /// it holds any entry at all.
    Mounted { has_system_directory: bool, has_directory_entries: bool },
}

/// Whether a volume may be formatted over: never one that holds a system
/// directory; one that holds entries, or that cannot be mounted, only when
/// forced.
pub open spec fn volume_allowed(forced: bool, probe: VolumeProbe) -> bool {
    match probe {
        VolumeProbe::Mounted { has_system_directory, has_directory_entries } => !has_system_directory && (
        forced || !has_directory_entries),
        VolumeProbe::Unmountable => forced,
    }
}

/// Whether a device without volumes may be formatted: one that already holds
/// a store only when forced.
pub open spec fn store_allowed(forced: bool, has_magic: bool) -> bool {
    !has_magic || forced
}

/// Whether a format is allowed: only for root, and then when every volume
/// of the device may be formatted over or, for a device without volumes,
/// when the device may be.
pub open spec fn format_allowed(forced: bool, euid: u32, probes: Seq<VolumeProbe>, has_magic: bool) -> bool {
    &&& euid == 0
    &&& if probes.len() > 0 {
        forall|i: int| 0 <= i < probes.len() ==> volume_allowed(forced, #[trigger] probes[i])
    } else {
        store_allowed(forced, has_magic)
    }
}

/// Forcing a format never turns an allowed format into a refusal: not for a
/// single volume, not for a device without volumes, and not for a whole
/// device whatever its volumes showed.
pub proof fn lemma_forcing_keeps_allowed(euid: u32, probes: Seq<VolumeProbe>, has_magic: bool)
    ensures
        forall|p: VolumeProbe| volume_allowed(false, p) ==> #[trigger] volume_allowed(true, p),
        store_allowed(false, has_magic) ==> store_allowed(true, has_magic),
        format_allowed(false, euid, probes, has_magic) ==> format_allowed(true, euid, probes, has_magic),
{
    if format_allowed(false, euid, probes, has_magic) && probes.len() > 0 {
        assert forall|i: int| 0 <= i < probes.len() implies volume_allowed(true, #[trigger] probes[i]) by {
            assert(volume_allowed(false, probes[i]));
        }
    }
}

/// Checks one volume of the device named `device`.
pub fn volume_check(forced: bool, device: &str, probe: VolumeProbe) -> (r: Result<(), BaseError>)
    ensures
        r is Ok <==> volume_allowed(forced, probe),
        probe matches VolumeProbe::Mounted { has_system_directory: true, .. } ==> (r matches Err(e)
            && refusal(e, "["@ + device@ + "] "@ + "Contains system directory."@)),
        probe == (VolumeProbe::Mounted { has_system_directory: false, has_directory_entries: true })
            ==> (if forced { r is Ok } else { r matches Err(e) && refusal(
            e,
            "["@ + device@ + "] "@ + "Contains directory entries. Try --forced"@,
        ) }),
        probe == (VolumeProbe::Mounted { has_system_directory: false, has_directory_entries: false })
            ==> r is Ok,
        probe == VolumeProbe::Unmountable ==> (if forced { r is Ok } else { r matches Err(e) && refusal(
            e,
            "["@ + device@ + "] "@ + "Cannot mount volume. Try --forced"@,
        ) }),
{
    match probe {
        VolumeProbe::Mounted { has_system_directory, has_directory_entries } => {
            if has_system_directory {
                return Err(refuse(device, "Contains system directory."));
            }
            if has_directory_entries && !forced {
                return Err(refuse(device, "Contains directory entries. Try --forced"));
            }
            Ok(())
        },
        VolumeProbe::Unmountable => {
            if !forced {
                return Err(refuse(device, "Cannot mount volume. Try --forced"));
            }
            Ok(())
        },
    }
}

/// The same check for a volume of a listed physical disk, named by the disk.
pub fn physical_volume_check(forced: bool, disk_name: &str, probe: VolumeProbe) -> (r: Result<(), BaseError>)
    ensures
        r is Ok <==> volume_allowed(forced, probe),
        probe matches VolumeProbe::Mounted { has_system_directory: true, .. } ==> (r matches Err(e)
            && refusal(e, "["@ + disk_name@ + "] "@ + "Contains system directory."@)),
        probe == (VolumeProbe::Mounted { has_system_directory: false, has_directory_entries: true })
            ==> (if forced { r is Ok } else { r matches Err(e) && refusal(
            e,
            "["@ + disk_name@ + "] "@ + "Has directory entries. Try --forced"@,
        ) }),
        probe == (VolumeProbe::Mounted { has_system_directory: false, has_directory_entries: false })
            ==> r is Ok,
        probe == VolumeProbe::Unmountable ==> (if forced { r is Ok } else { r matches Err(e) && refusal(
            e,
            "["@ + disk_name@ + "] "@ + "Cannot mount volume. Try --forced"@,
        ) }),
{
    match probe {
        VolumeProbe::Mounted { has_system_directory, has_directory_entries } => {
            if has_system_directory {
                return Err(refuse(disk_name, "Contains system directory."));
            }
            if has_directory_entries && !forced {
                return Err(refuse(disk_name, "Has directory entries. Try --forced"));
            }
            Ok(())
        },
        VolumeProbe::Unmountable => {
            if !forced {
                return Err(refuse(disk_name, "Cannot mount volume. Try --forced"));
            }
            Ok(())
        },
    }
}

/// Whether a device without volumes may be formatted: one that already
/// holds a store only when forced.
pub fn existing_store_check(forced: bool, device: &str, has_magic: bool) -> (r: Result<(), BaseError>)
    ensures
        r is Ok <==> store_allowed(forced, has_magic),
        has_magic && !forced ==> (r matches Err(e) && refusal(
            e,
            "["@ + device@ + "] "@ + "Contains core format. Try --forced"@,
        )),
        !(has_magic && !forced) ==> r is Ok,
{
    if has_magic && !forced {
        return Err(refuse(device, "Contains core format. Try --forced"));
    }
    Ok(())
}

/// The directories at the root of a volume that mark an installed system.
pub open spec fn system_directories() -> Seq<Seq<char>> {
    seq!["boot"@, "etc"@, "bin"@, "usr"@, "var"@]
}

/// The directories whose presence marks a system volume.
pub fn system_directory_names() -> (names: Vec<&'static str>)
    ensures
        names@.len() == 5,
        forall|i: int| 0 <= i < 5 ==> (#[trigger] names@[i])@ == system_directories()[i],
{
    let mut names: Vec<&'static str> = Vec::new();
    names.push("boot");
    names.push("etc");
    names.push("bin");
    names.push("usr");
    names.push("var");
    names
}

/// The size of each write when zeroing a device.
pub const ZERO_FILL_CHUNK: u64 = 4194304;

/// How many zero bytes to write next when `written` of `capacity` bytes are done.
pub fn zero_fill_len(written: u64, capacity: u64) -> (n: usize)
    requires
        written < capacity,
    ensures
        n == (if capacity - written < ZERO_FILL_CHUNK { (capacity - written) as int } else { ZERO_FILL_CHUNK as int }),
        0 < n <= ZERO_FILL_CHUNK,
        written + n <= capacity,
{
    let remaining = capacity - written;
    if remaining < ZERO_FILL_CHUNK {
        remaining as usize
    } else {
        ZERO_FILL_CHUNK as usize
    }
}

} // verus!
