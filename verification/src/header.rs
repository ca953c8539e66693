//! The device header: how a formatted device is laid out, how the header is
//! written to bytes, and how it is read back from the primary copy or, when
//! that is damaged, from the mirror copy.

use vstd::prelude::*;
use vstd::bytes::*;
use crate::{HEADER_SIZE, SEGMENT_SIZE, VERSION, StorageState};
use crate::error::{BaseError, Codes, ErrorKind, ErrorSeverity};
use crate::layout::{align_up, align_up_u64, ceil_div, ceil_div_u64, effective_sector, lemma_ceil_div, layout_rounds, plan_layout, LayoutOutcome};
use crate::raw::{Reader, Writer, zeros};

verus! {

broadcast use vstd::array::group_array_axioms;

/// The twelve bytes every header starts with: "CORE STORAGE".
pub open spec fn magic() -> Seq<u8> {
    seq![67u8, 79u8, 82u8, 69u8, 32u8, 83u8, 84u8, 79u8, 82u8, 65u8, 71u8, 69u8]
}

pub fn magic_bytes() -> (m: [u8; 12])
    ensures
        m@ == magic(),
{
    let m: [u8; 12] = [67u8, 79u8, 82u8, 69u8, 32u8, 83u8, 84u8, 79u8, 82u8, 65u8, 71u8, 69u8];
    assert(m@ =~= magic());
    m
}

/// Length of the checksummed part of a header.
pub const HEADER_BODY_LEN: usize = 108;
/// Length of the header up to and including its checksum.
pub const HEADER_RECORD_LEN: usize = 112;

/// One bit step of CRC-32C: shift right, folding in the Castagnoli
/// polynomial in reversed bit order when the bit shifted out was set.
pub open spec fn crc_shift(c: u32) -> u32 {
    if c % 2 == 0 { c / 2 } else { (c / 2) ^ 0x82F6_3B78u32 }
}

/// `k` bit steps of CRC-32C.
pub open spec fn crc_shifts(c: u32, k: nat) -> u32
    decreases k,
{
    if k == 0 { c } else { crc_shift(crc_shifts(c, (k - 1) as nat)) }
}

/// The CRC-32C register after the bytes of `data`, least significant bit
/// first, starting from `c`.
pub open spec fn crc_update(c: u32, data: Seq<u8>) -> u32
    decreases data.len(),
{
    if data.len() == 0 { c } else { crc_update(crc_shifts(c ^ (data[0] as u32), 8), data.drop_first()) }
}

/// The CRC-32C (Castagnoli) checksum of `data`: the register starts with
/// all bits set and is inverted at the end.
pub open spec fn crc32c_of(data: Seq<u8>) -> u32 {
    !crc_update(0xFFFF_FFFFu32, data)
}

/// Calls `crc32c::crc32c`, which computes the CRC-32C checksum of its
/// argument (the crate's software path starts from all bits set, works a
/// byte at a time through a table built from the reversed polynomial
/// 0x82F63B78, and inverts the result; its hardware paths compute the same).
#[verifier::external_body]
fn crc32c(data: &[u8]) -> (c: u32)
    ensures
        c == crc32c_of(data@),
{
    crc32c::crc32c(data)
}

/// The bytes of a version-7 UUID built from a Unix time in milliseconds and
/// ten further bytes: the low 48 bits of the time, big-endian; the version
/// nibble 7 over the low nibble of the first further byte; the second
/// further byte; the variant bits 10 over the low six bits of the third; and
/// the remaining seven further bytes.
pub open spec fn uuid_v7_layout(millis: u64, r: Seq<u8>) -> Seq<u8> {
    seq![
        ((millis / 0x100_0000_0000) % 256) as u8,
        ((millis / 0x1_0000_0000) % 256) as u8,
        ((millis / 0x100_0000) % 256) as u8,
        ((millis / 0x1_0000) % 256) as u8,
        ((millis / 0x100) % 256) as u8,
        (millis % 256) as u8,
        (0x70 + r[0] % 16) as u8,
        r[1],
        (0x80 + r[2] % 64) as u8,
        r[3],
        r[4],
        r[5],
        r[6],
        r[7],
        r[8],
        r[9],
    ]
}

/// Calls `uuid::Builder::from_unix_timestamp_millis` and takes the bytes of
/// the UUID it builds; the crate's source lays them out as `uuid_v7_layout`
/// says.
#[verifier::external_body]
fn uuid_v7_from(millis: u64, random: [u8; 10]) -> (id: [u8; 16])
    ensures
        id@ == uuid_v7_layout(millis, random@),
{
    *uuid::Builder::from_unix_timestamp_millis(millis, &random).as_uuid().as_bytes()
}

/// Calls `getrandom::fill` on ten bytes: bytes from the system's random
/// source, or the text of the error when that source fails. Nothing is
/// stated of the bytes: they are chance.
#[verifier::external_body]
fn random_ten_bytes() -> (r: Result<[u8; 10], String>) {
    let mut bytes = [0u8; 10];
    match getrandom::fill(&mut bytes) {
        Ok(()) => Ok(bytes),
        Err(e) => Err(e.to_string()),
    }
}

#[verifier::external_type_specification]
#[verifier::external_body]
pub struct ExSystemTime(std::time::SystemTime);

/// Calls `SystemTime::now`. Nothing is stated of the time: it is the clock's.
#[verifier::external_body]
fn system_now() -> (t: std::time::SystemTime) {
    std::time::SystemTime::now()
}

/// Calls `SystemTime::duration_since(UNIX_EPOCH)` on `t`: the time elapsed
/// since the epoch, or the text of the error when `t` lies before it.
/// Nothing is stated of which: a `SystemTime` is opaque here.
#[verifier::external_body]
fn since_unix_epoch(t: std::time::SystemTime) -> (r: Result<std::time::Duration, String>) {
    match t.duration_since(std::time::UNIX_EPOCH) {
        Ok(d) => Ok(d),
        Err(e) => Err(e.to_string()),
    }
}

/// Calls `Duration::as_millis`: the whole milliseconds of `d`. Nothing is
/// stated of the number: a `Duration` is opaque here.
#[verifier::external_body]
fn duration_millis(d: std::time::Duration) -> (m: u128) {
    d.as_millis()
}

/// The current Unix time in whole milliseconds, cut to 64 bits, or the text
/// of the error when the clock stands before the epoch.
fn unix_time_millis() -> (r: Result<u64, String>) {
    let now = system_now();
    match since_unix_epoch(now) {
        Ok(d) => {
            let m = duration_millis(d);
            Ok(#[verifier::truncate] (m as u64))
        },
        Err(e) => Err(e),
    }
}

/// Whether two byte slices hold the same bytes.
pub fn bytes_equal(a: &[u8], b: &[u8]) -> (eq: bool)
    ensures
        eq == (a@ == b@),
{
    if a.len() != b.len() {
        return false;
    }
    let mut i: usize = 0;
    while i < a.len()
        invariant
            a@.len() == b@.len(),
            0 <= i <= a@.len(),
            forall|k: int| 0 <= k < i ==> a@[k] == b@[k],
        decreases a@.len() - i,
    {
        if a[i] != b[i] {
            return false;
        }
        i = i + 1;
    }
    assert(a@ =~= b@);
    true
}

/// What to do next while loading a header from a device.
pub enum LoadStep {
    /// The header was read.
    Loaded(Header),
    /// The primary copy could not be used, for this reason; read the mirror.
    ReadMirror(BaseError),
    /// The mirror copy held this header; write these bytes over the primary
    /// copy and use the header.
    RestorePrimary(Header, Vec<u8>),
    /// Neither copy could be used.
    Failed(BaseError),
}

/// One write of the formatting of a device: bytes and where they go.
pub struct FormatWrite {
    pub offset: u64,
    pub bytes: Vec<u8>,
}

/// The header of a formatted device.
#[derive(Debug, Clone, Copy)]
pub struct Header {
    pub uuid: [u8; 16],
    pub version: u32,
    pub state: StorageState,
    pub segment_count: u64,
    pub total_bytes: u64,
    pub bitmap_size_bytes: u64,
    pub segment_size_bytes: u64,
    pub last_segment_size_bytes: u64,
    pub mirror_offset: u64,
    pub bitmap_offset: u64,
    pub segment_offset: u64,
    pub created_at_ms: u64,
}

/// The contents of a header, with its identifier as a byte sequence.
pub struct HeaderView {
    pub uuid: Seq<u8>,
    pub version: u32,
    pub state: StorageState,
    pub segment_count: u64,
    pub total_bytes: u64,
    pub bitmap_size_bytes: u64,
    pub segment_size_bytes: u64,
    pub last_segment_size_bytes: u64,
    pub mirror_offset: u64,
    pub bitmap_offset: u64,
    pub segment_offset: u64,
    pub created_at_ms: u64,
}

impl View for Header {
    type V = HeaderView;

    open spec fn view(&self) -> HeaderView {
        HeaderView {
            uuid: self.uuid@,
            version: self.version,
            state: self.state,
            segment_count: self.segment_count,
            total_bytes: self.total_bytes,
            bitmap_size_bytes: self.bitmap_size_bytes,
            segment_size_bytes: self.segment_size_bytes,
            last_segment_size_bytes: self.last_segment_size_bytes,
            mirror_offset: self.mirror_offset,
            bitmap_offset: self.bitmap_offset,
            segment_offset: self.segment_offset,
            created_at_ms: self.created_at_ms,
        }
    }
}

/// The checksummed part of the on-disk header: magic, identifier, version,
/// state, then the nine 64-bit fields, all little-endian.
pub open spec fn header_body(h: HeaderView) -> Seq<u8> {
    magic() + h.uuid + spec_u32_to_le_bytes(h.version) + spec_u32_to_le_bytes(h.state.code())
        + spec_u64_to_le_bytes(h.segment_count) + spec_u64_to_le_bytes(h.total_bytes)
        + spec_u64_to_le_bytes(h.bitmap_size_bytes) + spec_u64_to_le_bytes(h.segment_size_bytes)
        + spec_u64_to_le_bytes(h.last_segment_size_bytes) + spec_u64_to_le_bytes(h.mirror_offset)
        + spec_u64_to_le_bytes(h.bitmap_offset) + spec_u64_to_le_bytes(h.segment_offset)
        + spec_u64_to_le_bytes(h.created_at_ms)
}

/// The full on-disk header: body, the CRC-32C of the body, and zero padding
/// up to `HEADER_SIZE` bytes.
pub open spec fn header_image(h: HeaderView) -> Seq<u8> {
    header_body(h) + spec_u32_to_le_bytes(crc32c_of(header_body(h))) + zeros(
        (HEADER_SIZE - HEADER_RECORD_LEN) as nat,
    )
}

/// Where each field of a header stands in its on-disk image: the magic at
/// 0, the identifier at 12, then, little-endian, the version at 28, the state
/// number at 32, the segment count at 36, the device size at 44, the bitmap
/// size at 52, the segment size at 60, the last segment's size at 68, the
/// mirror offset at 76, the bitmap offset at 84, the segment offset at 92,
/// the creation time at 100, the CRC-32C of the first 108 bytes at 108, and
/// zeros up to `HEADER_SIZE` bytes.
pub open spec fn fields_at_offsets(img: Seq<u8>, h: HeaderView) -> bool {
    &&& img.len() == HEADER_SIZE
    &&& img.subrange(0, 12) == magic()
    &&& img.subrange(12, 28) == h.uuid
    &&& spec_u32_from_le_bytes(img.subrange(28, 32)) == h.version
    &&& spec_u32_from_le_bytes(img.subrange(32, 36)) == h.state.code()
    &&& spec_u64_from_le_bytes(img.subrange(36, 44)) == h.segment_count
    &&& spec_u64_from_le_bytes(img.subrange(44, 52)) == h.total_bytes
    &&& spec_u64_from_le_bytes(img.subrange(52, 60)) == h.bitmap_size_bytes
    &&& spec_u64_from_le_bytes(img.subrange(60, 68)) == h.segment_size_bytes
    &&& spec_u64_from_le_bytes(img.subrange(68, 76)) == h.last_segment_size_bytes
    &&& spec_u64_from_le_bytes(img.subrange(76, 84)) == h.mirror_offset
    &&& spec_u64_from_le_bytes(img.subrange(84, 92)) == h.bitmap_offset
    &&& spec_u64_from_le_bytes(img.subrange(92, 100)) == h.segment_offset
    &&& spec_u64_from_le_bytes(img.subrange(100, 108)) == h.created_at_ms
    &&& spec_u32_from_le_bytes(img.subrange(108, 112)) == crc32c_of(img.subrange(0, 108))
    &&& forall|i: int| 112 <= i < HEADER_SIZE ==> img[i] == 0
}

/// The on-disk image of a header has its fixed layout: every field at its
/// own offset, the checksum over the first 108 bytes after them, and zeros
/// to the end.
pub proof fn lemma_header_image_layout(h: HeaderView)
    requires
        h.uuid.len() == 16,
    ensures
        fields_at_offsets(header_image(h), h),
{
    lemma_auto_spec_u32_to_from_le_bytes();
    lemma_auto_spec_u64_to_from_le_bytes();
    let body = header_body(h);
    let img = header_image(h);
    assert(body.len() == 108);
    assert(img.subrange(0, 108) =~= body);
    assert(img.subrange(0, 12) =~= magic());
    assert(img.subrange(108, 112) =~= spec_u32_to_le_bytes(crc32c_of(body)));
    assert(img.subrange(12, 28) =~= h.uuid);
    assert(img.subrange(28, 32) =~= spec_u32_to_le_bytes(h.version));
    assert(img.subrange(32, 36) =~= spec_u32_to_le_bytes(h.state.code()));
    assert(img.subrange(36, 44) =~= spec_u64_to_le_bytes(h.segment_count));
    assert(img.subrange(44, 52) =~= spec_u64_to_le_bytes(h.total_bytes));
    assert(img.subrange(52, 60) =~= spec_u64_to_le_bytes(h.bitmap_size_bytes));
    assert(img.subrange(60, 68) =~= spec_u64_to_le_bytes(h.segment_size_bytes));
    assert(img.subrange(68, 76) =~= spec_u64_to_le_bytes(h.last_segment_size_bytes));
    assert(img.subrange(76, 84) =~= spec_u64_to_le_bytes(h.mirror_offset));
    assert(img.subrange(84, 92) =~= spec_u64_to_le_bytes(h.bitmap_offset));
    assert(img.subrange(92, 100) =~= spec_u64_to_le_bytes(h.segment_offset));
    assert(img.subrange(100, 108) =~= spec_u64_to_le_bytes(h.created_at_ms));
    assert forall|i: int| 112 <= i < HEADER_SIZE implies img[i] == 0 by {
        assert(img[i] == zeros((HEADER_SIZE - HEADER_RECORD_LEN) as nat)[i - 112]);
    }
}

/// Why stored bytes are not a header.
#[derive(Debug, Clone, Copy, PartialEq, Eq, Structural)]
pub enum HeaderFault {
    WrongMagic,
    ChecksumMismatch,
}

pub open spec fn le32_at(buf: Seq<u8>, at: int) -> u32 {
    spec_u32_from_le_bytes(buf.subrange(at, at + 4))
}

pub open spec fn le64_at(buf: Seq<u8>, at: int) -> u64 {
    spec_u64_from_le_bytes(buf.subrange(at, at + 8))
}

/// What the stored bytes say: a wrong start is refused first; then the
/// stored checksum must be that of the body; unknown state numbers read as
/// `Uninitialized`.
pub open spec fn decode_header(buf: Seq<u8>) -> Result<HeaderView, HeaderFault> {
    if buf.subrange(0, 12) != magic() {
        Err(HeaderFault::WrongMagic)
    } else if le32_at(buf, 108) != crc32c_of(buf.subrange(0, 108)) {
        Err(HeaderFault::ChecksumMismatch)
    } else {
        Ok(
            HeaderView {
                uuid: buf.subrange(12, 28),
                version: le32_at(buf, 28),
                state: StorageState::spec_from_u32(le32_at(buf, 32)),
                segment_count: le64_at(buf, 36),
                total_bytes: le64_at(buf, 44),
                bitmap_size_bytes: le64_at(buf, 52),
                segment_size_bytes: le64_at(buf, 60),
                last_segment_size_bytes: le64_at(buf, 68),
                mirror_offset: le64_at(buf, 76),
                bitmap_offset: le64_at(buf, 84),
                segment_offset: le64_at(buf, 92),
                created_at_ms: le64_at(buf, 100),
            },
        )
    }
}

/// The error a refused header is reported with.
pub open spec fn fault_error(e: BaseError, fault: HeaderFault) -> bool {
    &&& e.code == Codes::Corrupt.spec_value()
    &&& e.kind == ErrorKind::System
    &&& e.severity == ErrorSeverity::Error
    &&& e.source is None
    &&& e.message@ == match fault {
        HeaderFault::WrongMagic => "Wrong magic"@,
        HeaderFault::ChecksumMismatch => "Crc32c not match"@,
    }
}

/// `step` fails loading with both errors named in its message.
pub open spec fn both_failed(step: LoadStep, primary: BaseError, mirror: BaseError) -> bool {
    step matches LoadStep::Failed(e) && e.code == Codes::Corrupt.spec_value() && e.kind
        == ErrorKind::System && e.severity == ErrorSeverity::Error && e.source is None && e.message@
        == "Both primary and mirror headers corrupt. \n primary: "@ + primary.spec_text()
        + " \n mirror: "@ + mirror.spec_text()
}

/// The error a device too small for the layout is reported with.
pub open spec fn too_small_error(e: BaseError) -> bool {
    &&& e.code == Codes::Corrupt.spec_value()
    &&& e.kind == ErrorKind::System
    &&& e.severity == ErrorSeverity::Error
    &&& e.source is None
    &&& e.message@ == "Capacity too small"@
}

/// An error that an outside call (the clock, the random source) ended in:
/// internal, from the software, fatal.
pub open spec fn outside_failure(e: BaseError) -> bool {
    &&& e.code == Codes::Internal.spec_value()
    &&& e.kind == ErrorKind::Software
    &&& e.severity == ErrorSeverity::Fatal
}

/// The header a layout gives: segment count, bitmap size and segment offset
/// from the layout, the mirror at the last `HEADER_SIZE` bytes, the bitmap
/// right after the primary header, and the last segment taking what is left.
pub open spec fn laid_out(
    capacity: u64,
    segment_count: nat,
    bitmap_size: nat,
    segment_offset: nat,
    uuid: Seq<u8>,
    created_at_ms: u64,
) -> HeaderView {
    let mirror = (capacity - HEADER_SIZE) as nat;
    HeaderView {
        uuid,
        version: VERSION,
        state: StorageState::Active,
        segment_count: segment_count as u64,
        total_bytes: capacity,
        bitmap_size_bytes: bitmap_size as u64,
        segment_size_bytes: SEGMENT_SIZE,
        last_segment_size_bytes: ((mirror - segment_offset) - (segment_count - 1) * SEGMENT_SIZE) as u64,
        mirror_offset: mirror as u64,
        bitmap_offset: HEADER_SIZE,
        segment_offset: segment_offset as u64,
        created_at_ms,
    }
}

/// The segments of a header laid out for a settled layout: every segment
/// but the last holds `SEGMENT_SIZE` bytes, the last is non-empty and no
/// larger, and together they fill the space from the segment offset to the
/// mirror header, which is the last `HEADER_SIZE` bytes of the device; the
/// bitmap starts right after the primary header, has a bit for every
/// segment, and ends before the segments start.
pub proof fn lemma_laid_out_segments(capacity: u64, physical_sector_size: u32, uuid: Seq<u8>, created_at_ms: u64)
    ensures
        plan_layout(capacity as nat, physical_sector_size) matches LayoutOutcome::Settled {
            segment_count,
            bitmap_size,
            segment_offset,
        } ==> header_segments_fit(
            laid_out(capacity, segment_count, bitmap_size, segment_offset, uuid, created_at_ms),
        ),
        forall|c: nat, b: nat, o: nat| #![trigger laid_out(capacity, c, b, o, uuid, created_at_ms)] {
            let h = laid_out(capacity, c, b, o, uuid, created_at_ms);
            &&& h.total_bytes == capacity
            &&& h.uuid == uuid
            &&& h.created_at_ms == created_at_ms
            &&& h.version == VERSION
            &&& h.state == StorageState::Active
        },
{
    crate::layout::lemma_settled_layout_fits(capacity as nat, physical_sector_size);
    if let LayoutOutcome::Settled { segment_count, bitmap_size, segment_offset } = plan_layout(
        capacity as nat,
        physical_sector_size,
    ) {
        let mirror = (capacity - HEADER_SIZE) as nat;
        let last = ((mirror - segment_offset) - (segment_count - 1) * SEGMENT_SIZE) as nat;
        assert(segment_offset + (segment_count - 1) * SEGMENT_SIZE + last == mirror);
        assert(segment_count <= u64::MAX) by (nonlinear_arith)
            requires
                segment_count >= 1,
                (segment_count - 1) * SEGMENT_SIZE <= mirror,
                mirror <= u64::MAX,
                SEGMENT_SIZE == 68719476736u64,
        ;
        assert(bitmap_size <= u64::MAX);
    }
}

/// What every store header says of its segments: all but the last hold
/// `SEGMENT_SIZE` bytes, the last is non-empty and no larger, and together
/// they fill the space between the segment offset and the mirror header at
/// the end of the device; the bitmap follows the primary header, has a bit
/// per segment, and ends before the segments.
pub open spec fn header_segments_fit(h: HeaderView) -> bool {
    &&& h.segment_size_bytes == SEGMENT_SIZE
    &&& h.segment_count >= 1
    &&& 0 < h.last_segment_size_bytes <= h.segment_size_bytes
    &&& h.segment_offset + (h.segment_count - 1) * h.segment_size_bytes + h.last_segment_size_bytes
        == h.mirror_offset
    &&& h.mirror_offset + HEADER_SIZE == h.total_bytes
    &&& h.bitmap_offset == HEADER_SIZE
    &&& h.bitmap_offset + h.bitmap_size_bytes <= h.segment_offset
    &&& h.bitmap_size_bytes * 8 >= h.segment_count
}

fn too_small() -> (e: BaseError)
    ensures
        too_small_error(e),
{
    BaseError::system_error(String::from_str("Capacity too small"), Codes::Corrupt)
}

fn fault(f: HeaderFault) -> (e: BaseError)
    ensures
        fault_error(e, f),
{
    match f {
        HeaderFault::WrongMagic => BaseError::system_error(String::from_str("Wrong magic"), Codes::Corrupt),
        HeaderFault::ChecksumMismatch => BaseError::system_error(
            String::from_str("Crc32c not match"),
            Codes::Corrupt,
        ),
    }
}

/// The header of a device that holds no store: a zero identifier, the
/// current version, uninitialized, and every size and offset zero.
pub open spec fn blank_header() -> HeaderView {
    HeaderView {
        uuid: Seq::new(16, |i: int| 0u8),
        version: VERSION,
        state: StorageState::Uninitialized,
        segment_count: 0,
        total_bytes: 0,
        bitmap_size_bytes: 0,
        segment_size_bytes: 0,
        last_segment_size_bytes: 0,
        mirror_offset: 0,
        bitmap_offset: 0,
        segment_offset: 0,
        created_at_ms: 0,
    }
}

/// Whether the header of a device is read when listing stores: only when
/// the device has no volumes, since one with volumes holds no store.
pub fn reads_store_header(volume_count: usize) -> (b: bool)
    ensures
        b == (volume_count == 0),
{
    volume_count == 0
}

/// The header a load gave, or the blank header when the load failed.
pub fn loaded_or_blank(loaded: Result<Header, BaseError>) -> (h: Header)
    ensures
        loaded matches Ok(x) ==> h@ == x@,
        loaded is Err ==> h@ == blank_header(),
{
    match loaded {
        Ok(h) => h,
        Err(_) => Header::new(),
    }
}

impl Header {
    /// The blank header of a device that holds no store.
    pub fn new() -> (h: Self)
        ensures
            h@ == blank_header(),
    {
        let h = Header {
            version: VERSION,
            uuid: [0u8; 16],
            created_at_ms: 0,
            state: StorageState::Uninitialized,
            total_bytes: 0,
            segment_size_bytes: 0,
            last_segment_size_bytes: 0,
            segment_count: 0,
            bitmap_offset: 0,
            bitmap_size_bytes: 0,
            segment_offset: 0,
            mirror_offset: 0,
        };
        assert(h.uuid@ =~= Seq::new(16, |i: int| 0u8));
        h
    }

    /// Rounds `value` up to a multiple of `align`.
    pub fn align_up(value: u64, align: u64) -> (r: u64)
        requires
            align > 0,
            value + align - 1 <= u64::MAX,
        ensures
            r == align_up(value as nat, align as nat),
            r % align == 0,
            value <= r < value + align,
    {
        align_up_u64(value, align)
    }

    /// Lays out a device of `capacity_bytes` bytes and builds its header with
    /// the given identifier and creation time.
    pub fn create_with(
        capacity_bytes: u64,
        physical_sector_size: u32,
        uuid: [u8; 16],
        created_at_ms: u64,
    ) -> (r: Result<Header, BaseError>)
        ensures
            match plan_layout(capacity_bytes as nat, physical_sector_size) {
                LayoutOutcome::Settled { segment_count, bitmap_size, segment_offset } => r matches Ok(h)
                    && h@ == laid_out(
                    capacity_bytes,
                    segment_count,
                    bitmap_size,
                    segment_offset,
                    uuid@,
                    created_at_ms,
                ),
                _ => r matches Err(e) && too_small_error(e),
            },
            r matches Ok(h) ==> header_segments_fit(h@),
            r matches Ok(h) ==> h.total_bytes == capacity_bytes && h.uuid@ == uuid@ && h.created_at_ms
                == created_at_ms && h.version == VERSION && h.state == StorageState::Active,
    {
        if capacity_bytes <= HEADER_SIZE * 2 + SEGMENT_SIZE {
            return Err(too_small());
        }
        let mirror_offset = capacity_bytes - HEADER_SIZE;
        let sector_size: u64 = if physical_sector_size == 0 { 1 } else { physical_sector_size as u64 };
        let mut segment_count = ceil_div_u64(mirror_offset - HEADER_SIZE, SEGMENT_SIZE);
        let ghost start = segment_count as nat;
        proof {
            lemma_ceil_div((mirror_offset - HEADER_SIZE) as nat, SEGMENT_SIZE as nat);
            assert(start * SEGMENT_SIZE < mirror_offset + SEGMENT_SIZE);
            assert(start <= 0x1000_0001) by (nonlinear_arith)
                requires
                    start * SEGMENT_SIZE < mirror_offset + SEGMENT_SIZE,
                    mirror_offset <= u64::MAX,
                    SEGMENT_SIZE == 68719476736u64,
            ;
        }
        let mut round: u64 = 0;
        while round < 8
            invariant
                capacity_bytes > HEADER_SIZE * 2 + SEGMENT_SIZE,
                mirror_offset == capacity_bytes - HEADER_SIZE,
                sector_size == effective_sector(physical_sector_size),
                round <= 8,
                segment_count <= 0x1000_0001,
                plan_layout(capacity_bytes as nat, physical_sector_size) == layout_rounds(
                    mirror_offset as nat,
                    sector_size as nat,
                    segment_count as nat,
                    (8 - round) as nat,
                ),
            decreases 8 - round,
        {
            let bitmap_bytes_needed = ceil_div_u64(segment_count, 8);
            proof {
                lemma_ceil_div(segment_count as nat, 8);
            }
            let bitmap_size_bytes = align_up_u64(bitmap_bytes_needed, sector_size);
            let segment_offset = align_up_u64(HEADER_SIZE + bitmap_size_bytes, sector_size);
            if segment_offset >= mirror_offset {
                return Err(too_small());
            }
            let available = mirror_offset - segment_offset;
            let new_count = ceil_div_u64(available, SEGMENT_SIZE);
            if new_count == segment_count {
                proof {
                    lemma_ceil_div(available as nat, SEGMENT_SIZE as nat);
                    assert((segment_count - 1) * SEGMENT_SIZE < available) by (nonlinear_arith)
                        requires
                            available > 0,
                            segment_count == ceil_div(available as nat, SEGMENT_SIZE as nat),
                            available > 0 ==> (ceil_div(available as nat, SEGMENT_SIZE as nat) - 1) * SEGMENT_SIZE < available,
                    ;
                }
                let last_segment_size_bytes = available - (segment_count - 1) * SEGMENT_SIZE;
                let h = Header {
                    version: VERSION,
                    uuid,
                    created_at_ms,
                    state: StorageState::Active,
                    total_bytes: capacity_bytes,
                    segment_size_bytes: SEGMENT_SIZE,
                    last_segment_size_bytes,
                    segment_count,
                    bitmap_offset: HEADER_SIZE,
                    bitmap_size_bytes,
                    segment_offset,
                    mirror_offset,
                };
                proof {
                    lemma_laid_out_segments(capacity_bytes, physical_sector_size, uuid@, created_at_ms);
                }
                return Ok(h);
            }
            if new_count == 0 {
                return Err(too_small());
            }
            proof {
                lemma_ceil_div(available as nat, SEGMENT_SIZE as nat);
                assert(new_count <= 0x1000_0001) by (nonlinear_arith)
                    requires
                        new_count * SEGMENT_SIZE < available + SEGMENT_SIZE,
                        available <= u64::MAX,
                        SEGMENT_SIZE == 68719476736u64,
                ;
            }
            segment_count = new_count;
            round = round + 1;
        }
        Err(too_small())
    }

    /// Lays out a device of `capacity_bytes` bytes and builds its header,
    /// stamped with the current time and a version-7 identifier made of that
    /// time and ten random bytes. The clock is read once the capacity passes
    /// the first size check, and the random bytes once the layout has
    /// settled; a failure of either is an internal error.
    pub fn create(capacity_bytes: u64, physical_sector_size: u32) -> (r: Result<Header, BaseError>)
        ensures
            capacity_bytes <= 2 * HEADER_SIZE + SEGMENT_SIZE ==> (r matches Err(e) && too_small_error(e)),
            r matches Ok(h) ==> (match plan_layout(capacity_bytes as nat, physical_sector_size) {
                LayoutOutcome::Settled { segment_count, bitmap_size, segment_offset } => h@
                    == laid_out(
                    capacity_bytes,
                    segment_count,
                    bitmap_size,
                    segment_offset,
                    h.uuid@,
                    h.created_at_ms,
                ),
                _ => false,
            }),
            r matches Ok(h) ==> exists|random: Seq<u8>|
                random.len() == 10 && h.uuid@ == #[trigger] uuid_v7_layout(h.created_at_ms, random),
            r matches Ok(h) ==> h.uuid@[6] / 16 == 7 && h.uuid@[8] / 64 == 2,
            !(plan_layout(capacity_bytes as nat, physical_sector_size) is Settled) ==> (r matches Err(e) && (
            too_small_error(e) || outside_failure(e))),
            plan_layout(capacity_bytes as nat, physical_sector_size) is Settled ==> (r matches Err(e)
                ==> outside_failure(e)),
            r matches Ok(h) ==> header_segments_fit(h@),
    {
        if capacity_bytes <= HEADER_SIZE * 2 + SEGMENT_SIZE {
            return Err(too_small());
        }
        let created_at_ms = match unix_time_millis() {
            Ok(ms) => ms,
            Err(text) => {
                return Err(BaseError::from_cause(text));
            },
        };
        let mut h = match Self::create_with(capacity_bytes, physical_sector_size, [0u8; 16], created_at_ms) {
            Ok(h) => h,
            Err(e) => {
                return Err(e);
            },
        };
        let random = match random_ten_bytes() {
            Ok(bytes) => bytes,
            Err(text) => {
                return Err(BaseError::from_cause(text));
            },
        };
        h.uuid = uuid_v7_from(created_at_ms, random);
        proof {
            assert(h.uuid@ == uuid_v7_layout(created_at_ms, random@));
        }
        Ok(h)
    }

    /// The full `HEADER_SIZE`-byte image of the header, checksum included.
    pub fn to_bytes(&self) -> (bytes: Vec<u8>)
        ensures
            bytes@ == header_image(self@),
            fields_at_offsets(bytes@, self@),
    {
        let mut w = Writer::with_capacity(HEADER_SIZE as usize);
        let m = magic_bytes();
        w.write_bytes(m.as_slice());
        w.write_bytes(self.uuid.as_slice());
        w.write_u32(self.version);
        w.write_u32(self.state.as_u32());
        w.write_u64(self.segment_count);
        w.write_u64(self.total_bytes);
        w.write_u64(self.bitmap_size_bytes);
        w.write_u64(self.segment_size_bytes);
        w.write_u64(self.last_segment_size_bytes);
        w.write_u64(self.mirror_offset);
        w.write_u64(self.bitmap_offset);
        w.write_u64(self.segment_offset);
        w.write_u64(self.created_at_ms);
        assert(w@ =~= header_body(self@));
        let crc = crc32c(w.as_slice());
        w.write_u32(crc);
        proof {
            lemma_auto_spec_u32_to_from_le_bytes();
            lemma_auto_spec_u64_to_from_le_bytes();
        }
        w.seek(HEADER_SIZE as usize);
        proof {
            lemma_header_image_layout(self@);
        }
        w.into_bytes()
    }

    /// Reads a header from stored bytes, checking the magic and the checksum.
    pub fn from_bytes(buf: &[u8]) -> (r: Result<Header, BaseError>)
        requires
            buf@.len() >= HEADER_RECORD_LEN,
        ensures
            match decode_header(buf@) {
                Ok(v) => r matches Ok(h) && h@ == v,
                Err(f) => r matches Err(e) && fault_error(e, f),
            },
    {
        let mut r = Reader::new(buf);
        let magic = r.read_bytes(12);
        if !bytes_equal(magic.as_slice(), magic_bytes().as_slice()) {
            return Err(fault(HeaderFault::WrongMagic));
        }
        let id = r.read_bytes(16);
        let uuid: [u8; 16] = [
            id[0], id[1], id[2], id[3], id[4], id[5], id[6], id[7],
            id[8], id[9], id[10], id[11], id[12], id[13], id[14], id[15],
        ];
        assert(uuid@ =~= buf@.subrange(12, 28));
        let version = r.read_u32();
        let state = StorageState::from_u32(r.read_u32());
        let segment_count = r.read_u64();
        let total_bytes = r.read_u64();
        let bitmap_size_bytes = r.read_u64();
        let segment_size_bytes = r.read_u64();
        let last_segment_size_bytes = r.read_u64();
        let mirror_offset = r.read_u64();
        let bitmap_offset = r.read_u64();
        let segment_offset = r.read_u64();
        let created_at_ms = r.read_u64();
        let body_len_before_crc = r.position();
        let header_crc32 = r.read_u32();
        let computed_crc = crc32c(vstd::slice::slice_subrange(buf, 0, body_len_before_crc));
        if header_crc32 != computed_crc {
            return Err(fault(HeaderFault::ChecksumMismatch));
        }
        Ok(Header {
            version,
            uuid,
            created_at_ms,
            state,
            total_bytes,
            segment_size_bytes,
            last_segment_size_bytes,
            segment_count,
            bitmap_offset,
            bitmap_size_bytes,
            segment_offset,
            mirror_offset,
        })
    }

    /// Whether the first twelve bytes of a device are the header magic.
    pub fn is_magic(start: &[u8]) -> (b: bool)
        requires
            start@.len() == 12,
        ensures
            b == (start@ == magic()),
    {
        bytes_equal(start, magic_bytes().as_slice())
    }

    /// First step of loading: the bytes read from the start of the device,
    /// or the error reading them gave.
    pub fn load_primary(read: Result<Vec<u8>, BaseError>) -> (step: LoadStep)
        requires
            read matches Ok(b) ==> b@.len() == HEADER_SIZE,
        ensures
            match read {
                Err(e) => step matches LoadStep::ReadMirror(p) && p == e,
                Ok(b) => match decode_header(b@) {
                    Ok(v) => step matches LoadStep::Loaded(h) && h@ == v,
                    Err(f) => step matches LoadStep::ReadMirror(p) && fault_error(p, f),
                },
            },
    {
        match read {
            Err(e) => LoadStep::ReadMirror(e),
            Ok(bytes) => match Self::from_bytes(bytes.as_slice()) {
                Ok(h) => LoadStep::Loaded(h),
                Err(e) => LoadStep::ReadMirror(e),
            },
        }
    }

    /// Second step of loading, after the primary copy failed with
    /// `primary_err`: the bytes read from the last `HEADER_SIZE` bytes of the
    /// device, or the error reading them gave.
    pub fn load_mirror(primary_err: BaseError, read: Result<Vec<u8>, BaseError>) -> (step: LoadStep)
        requires
            read matches Ok(b) ==> b@.len() == HEADER_SIZE,
        ensures
            match read {
                Ok(b) => match decode_header(b@) {
                    Ok(v) => step matches LoadStep::RestorePrimary(h, bytes) && h@ == v && bytes@
                        == header_image(v),
                    Err(f) => exists|m: BaseError| fault_error(m, f) && both_failed(step, primary_err, m),
                },
                Err(m) => both_failed(step, primary_err, m),
            },
    {
        let mirror_err = match read {
            Err(e) => e,
            Ok(bytes) => match Self::from_bytes(bytes.as_slice()) {
                Ok(h) => {
                    let image = h.to_bytes();
                    return LoadStep::RestorePrimary(h, image);
                },
                Err(e) => e,
            },
        };
        let mut msg = String::from_str("Both primary and mirror headers corrupt. \n primary: ");
        let p = primary_err.to_text();
        msg.append(p.as_str());
        msg.append(" \n mirror: ");
        let m = mirror_err.to_text();
        msg.append(m.as_str());
        LoadStep::Failed(BaseError::system_error(msg, Codes::Corrupt))
    }

    /// The writes that format a device with this header: the header at the
    /// start, a zeroed segment bitmap, and the mirror copy of the header.
    pub fn format_writes(&self) -> (writes: Vec<FormatWrite>)
        requires
            self.bitmap_size_bytes <= usize::MAX,
        ensures
            writes@.len() == 3,
            writes@[0].offset == 0 && writes@[0].bytes@ == header_image(self@),
            writes@[1].offset == self.bitmap_offset && writes@[1].bytes@ == zeros(
                self.bitmap_size_bytes as nat,
            ),
            writes@[2].offset == self.mirror_offset && writes@[2].bytes@ == header_image(self@),
    {
        let image = self.to_bytes();
        let mirror = self.to_bytes();
        let mut bitmap: Vec<u8> = Vec::new();
        bitmap.resize(self.bitmap_size_bytes as usize, 0u8);
        assert(bitmap@ =~= zeros(self.bitmap_size_bytes as nat));
        let mut writes: Vec<FormatWrite> = Vec::new();
        writes.push(FormatWrite { offset: 0, bytes: image });
        writes.push(FormatWrite { offset: self.bitmap_offset, bytes: bitmap });
        writes.push(FormatWrite { offset: self.mirror_offset, bytes: mirror });
        writes
    }
}

/// A header written to bytes reads back as the same header.
pub proof fn lemma_header_roundtrip(h: HeaderView)
    requires
        h.uuid.len() == 16,
    ensures
        decode_header(header_image(h)) == Ok::<HeaderView, HeaderFault>(h),
{
    lemma_auto_spec_u32_to_from_le_bytes();
    lemma_auto_spec_u64_to_from_le_bytes();
    let body = header_body(h);
    let img = header_image(h);
    assert(body.len() == 108);
    assert(img.subrange(0, 108) =~= body);
    assert(img.subrange(0, 12) =~= magic());
    assert(img.subrange(108, 112) =~= spec_u32_to_le_bytes(crc32c_of(body)));
    assert(img.subrange(12, 28) =~= h.uuid);
    assert(img.subrange(28, 32) =~= spec_u32_to_le_bytes(h.version));
    assert(img.subrange(32, 36) =~= spec_u32_to_le_bytes(h.state.code()));
    assert(img.subrange(36, 44) =~= spec_u64_to_le_bytes(h.segment_count));
    assert(img.subrange(44, 52) =~= spec_u64_to_le_bytes(h.total_bytes));
    assert(img.subrange(52, 60) =~= spec_u64_to_le_bytes(h.bitmap_size_bytes));
    assert(img.subrange(60, 68) =~= spec_u64_to_le_bytes(h.segment_size_bytes));
    assert(img.subrange(68, 76) =~= spec_u64_to_le_bytes(h.last_segment_size_bytes));
    assert(img.subrange(76, 84) =~= spec_u64_to_le_bytes(h.mirror_offset));
    assert(img.subrange(84, 92) =~= spec_u64_to_le_bytes(h.bitmap_offset));
    assert(img.subrange(92, 100) =~= spec_u64_to_le_bytes(h.segment_offset));
    assert(img.subrange(100, 108) =~= spec_u64_to_le_bytes(h.created_at_ms));
    crate::lemma_state_code_roundtrip(h.state);
}

/// Bytes that read as a header, and whose stored state number is a known
/// one, are what writing that header gives, up to the end of the checksum.
pub proof fn lemma_decoded_header_reencodes(buf: Seq<u8>)
    requires
        buf.len() >= HEADER_RECORD_LEN,
        decode_header(buf) is Ok,
        le32_at(buf, 32) <= 3,
    ensures
        header_image(decode_header(buf)->Ok_0).subrange(0, HEADER_RECORD_LEN as int)
            == buf.subrange(0, HEADER_RECORD_LEN as int),
{
    lemma_auto_spec_u32_to_from_le_bytes();
    lemma_auto_spec_u64_to_from_le_bytes();
    let v = decode_header(buf)->Ok_0;
    let x = le32_at(buf, 32);
    assert(StorageState::spec_from_u32(x).code() == x);
    let body = buf.subrange(0, 108);
    assert(spec_u32_to_le_bytes(le32_at(buf, 32)) =~= buf.subrange(32, 36));
    assert(spec_u32_to_le_bytes(le32_at(buf, 28)) =~= buf.subrange(28, 32));
    assert(spec_u32_to_le_bytes(le32_at(buf, 108)) =~= buf.subrange(108, 112));
    assert(spec_u64_to_le_bytes(le64_at(buf, 36)) =~= buf.subrange(36, 44));
    assert(spec_u64_to_le_bytes(le64_at(buf, 44)) =~= buf.subrange(44, 52));
    assert(spec_u64_to_le_bytes(le64_at(buf, 52)) =~= buf.subrange(52, 60));
    assert(spec_u64_to_le_bytes(le64_at(buf, 60)) =~= buf.subrange(60, 68));
    assert(spec_u64_to_le_bytes(le64_at(buf, 68)) =~= buf.subrange(68, 76));
    assert(spec_u64_to_le_bytes(le64_at(buf, 76)) =~= buf.subrange(76, 84));
    assert(spec_u64_to_le_bytes(le64_at(buf, 84)) =~= buf.subrange(84, 92));
    assert(spec_u64_to_le_bytes(le64_at(buf, 92)) =~= buf.subrange(92, 100));
    assert(spec_u64_to_le_bytes(le64_at(buf, 100)) =~= buf.subrange(100, 108));
    assert(header_body(v) =~= body);
    assert(header_image(v).subrange(0, 112) =~= buf.subrange(0, 112));
}

/// `dev` with `bytes` written at `offset`.
pub open spec fn write_at(dev: Seq<u8>, offset: int, bytes: Seq<u8>) -> Seq<u8> {
    dev.subrange(0, offset) + bytes + dev.subrange(offset + bytes.len(), dev.len() as int)
}

/// `dev` after the three writes that format it with header `h`, in order.
pub open spec fn formatted(dev: Seq<u8>, h: HeaderView) -> Seq<u8> {
    write_at(
        write_at(write_at(dev, 0, header_image(h)), h.bitmap_offset as int, zeros(h.bitmap_size_bytes as nat)),
        h.mirror_offset as int,
        header_image(h),
    )
}

/// A device formatted with the header that the layout of its capacity
/// gives reads that header back from the primary copy and from the mirror
/// copy, and holds a zeroed bitmap, whatever it held before.
pub proof fn lemma_formatted_device_reads_back(
    capacity: u64,
    physical_sector_size: u32,
    uuid: Seq<u8>,
    created_at_ms: u64,
    dev: Seq<u8>,
)
    requires
        uuid.len() == 16,
        dev.len() == capacity,
    ensures
        plan_layout(capacity as nat, physical_sector_size) matches LayoutOutcome::Settled {
            segment_count,
            bitmap_size,
            segment_offset,
        } ==> ({
            let h = laid_out(capacity, segment_count, bitmap_size, segment_offset, uuid, created_at_ms);
            let after = formatted(dev, h);
            &&& after.len() == dev.len()
            &&& decode_header(after.subrange(0, HEADER_SIZE as int)) == Ok::<HeaderView, HeaderFault>(h)
            &&& decode_header(after.subrange(h.mirror_offset as int, capacity as int))
                == Ok::<HeaderView, HeaderFault>(h)
            &&& after.subrange(HEADER_SIZE as int, HEADER_SIZE + bitmap_size) == zeros(bitmap_size)
        }),
{
    if let LayoutOutcome::Settled { segment_count, bitmap_size, segment_offset } = plan_layout(
        capacity as nat,
        physical_sector_size,
    ) {
        crate::layout::lemma_settled_layout_fits(capacity as nat, physical_sector_size);
        let h = laid_out(capacity, segment_count, bitmap_size, segment_offset, uuid, created_at_ms);
        let img = header_image(h);
        lemma_auto_spec_u32_to_from_le_bytes();
        lemma_auto_spec_u64_to_from_le_bytes();
        assert(header_body(h).len() == 108);
        assert(img.len() == HEADER_SIZE);
        let d1 = write_at(dev, 0, img);
        let d2 = write_at(d1, h.bitmap_offset as int, zeros(h.bitmap_size_bytes as nat));
        let d3 = write_at(d2, h.mirror_offset as int, img);
        assert(d1.len() == dev.len());
        assert(d2.len() == dev.len());
        assert(d3.len() == dev.len());
        assert(d3.subrange(0, HEADER_SIZE as int) =~= img);
        assert(d3.subrange(h.mirror_offset as int, capacity as int) =~= img);
        assert(d3.subrange(HEADER_SIZE as int, HEADER_SIZE + bitmap_size) =~= zeros(bitmap_size));
        lemma_header_roundtrip(h);
    }
}

} // verus!
