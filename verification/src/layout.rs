//! Placement of the regions of a formatted device: primary header, segment
//! bitmap, segments, and the mirror header at the end.

use vstd::prelude::*;
use vstd::arithmetic::div_mod::*;
use crate::{HEADER_SIZE, SEGMENT_SIZE};

verus! {

/// `a / b` rounded up.
pub open spec fn ceil_div(a: nat, b: nat) -> nat {
    ((a + b - 1) as nat) / b
}

/// The least multiple of `align` that is at least `value`.
pub open spec fn align_up(value: nat, align: nat) -> nat {
    ceil_div(value, align) * align
}

pub proof fn lemma_ceil_div(a: nat, b: nat)
    requires
        b > 0,
    ensures
        ceil_div(a, b) == a / b + (if a % b == 0 { 0nat } else { 1nat }),
        ceil_div(a, b) * b >= a,
        ceil_div(a, b) * b < a + b,
        a > 0 ==> ceil_div(a, b) >= 1,
        a > 0 ==> (ceil_div(a, b) - 1) * b < a,
        ceil_div(a, b) <= a,
{
    let q = a / b;
    let r = a % b;
    lemma_fundamental_div_mod(a as int, b as int);
    assert(a == b * q + r);
    assert(0 <= r < b);
    if r == 0 {
        assert((a + b - 1) as nat == b * q + (b - 1));
        lemma_div_multiples_vanish_fancy(q as int, (b - 1) as int, b as int);
        assert(ceil_div(a, b) == q);
    } else {
        assert((a + b - 1) as nat == b * (q + 1) + (r - 1)) by (nonlinear_arith)
            requires
                a == b * q + r,
                r >= 1,
        ;
        lemma_div_multiples_vanish_fancy((q + 1) as int, (r - 1) as int, b as int);
        assert(ceil_div(a, b) == q + 1);
    }
    let c = ceil_div(a, b);
    assert(c * b >= a && c * b < a + b) by (nonlinear_arith)
        requires
            a == b * q + r,
            0 <= r < b,
            r == 0 ==> c == q,
            r != 0 ==> c == q + 1,
    ;
    assert(a > 0 ==> c >= 1) by (nonlinear_arith)
        requires
            a == b * q + r,
            0 <= r < b,
            r == 0 ==> c == q,
            r != 0 ==> c == q + 1,
    ;
    assert(a > 0 ==> (c - 1) * b < a) by (nonlinear_arith)
        requires
            a == b * q + r,
            0 <= r < b,
            r == 0 ==> c == q,
            r != 0 ==> c == q + 1,
            b > 0,
    ;
    assert(c <= a) by (nonlinear_arith)
        requires
            a == b * q + r,
            0 <= r < b,
            r == 0 ==> c == q,
            r != 0 ==> c == q + 1,
            b > 0,
    ;
}

/// `a / b` rounded up, computed without overflow.
pub fn ceil_div_u64(a: u64, b: u64) -> (c: u64)
    requires
        b > 0,
    ensures
        c == ceil_div(a as nat, b as nat),
{
    proof {
        lemma_ceil_div(a as nat, b as nat);
    }
    if a % b == 0 {
        a / b
    } else {
        a / b + 1
    }
}

/// Rounds `value` up to a multiple of `align`.
pub fn align_up_u64(value: u64, align: u64) -> (r: u64)
    requires
        align > 0,
        value + align - 1 <= u64::MAX,
    ensures
        r == align_up(value as nat, align as nat),
        r >= value,
        r < value + align,
        r % align == 0,
{
    proof {
        lemma_ceil_div(value as nat, align as nat);
        vstd::arithmetic::div_mod::lemma_mod_multiples_basic(ceil_div(value as nat, align as nat) as int, align as int);
    }
    let c = ceil_div_u64(value, align);
    c * align
}

/// How the fixed-point search for the segment count ends.
pub enum LayoutOutcome {
    /// The count is stable: with this many segments, the bitmap and the
    /// segment region that follow it leave room for exactly this many.
    Settled { segment_count: nat, bitmap_size: nat, segment_offset: nat },
    /// The regions do not fit on the device.
    TooSmall,
    /// The count was still changing when the rounds ran out.
    Unsettled,
}

/// One round of the search and the rounds after it, from the estimate `count`.
pub open spec fn layout_rounds(mirror: nat, sector: nat, count: nat, rounds: nat) -> LayoutOutcome
    decreases rounds,
{
    if rounds == 0 {
        LayoutOutcome::Unsettled
    } else {
        let bitmap = align_up(ceil_div(count, 8), sector);
        let seg_off = align_up((HEADER_SIZE + bitmap) as nat, sector);
        if seg_off >= mirror {
            LayoutOutcome::TooSmall
        } else {
            let next = ceil_div((mirror - seg_off) as nat, SEGMENT_SIZE as nat);
            if next == count {
                LayoutOutcome::Settled { segment_count: count, bitmap_size: bitmap, segment_offset: seg_off }
            } else if next == 0 {
                LayoutOutcome::TooSmall
            } else {
                layout_rounds(mirror, sector, next, (rounds - 1) as nat)
            }
        }
    }
}

/// The sector size the layout aligns to: the physical sector size, at least 1.
pub open spec fn effective_sector(physical_sector_size: u32) -> nat {
    if physical_sector_size == 0 { 1 } else { physical_sector_size as nat }
}

/// The layout of a device of `capacity` bytes: the mirror header takes the
/// last `HEADER_SIZE` bytes; the first estimate of the segment count covers
/// everything between the two headers; at most eight rounds settle it.
pub open spec fn plan_layout(capacity: nat, physical_sector_size: u32) -> LayoutOutcome {
    if capacity <= 2 * HEADER_SIZE + SEGMENT_SIZE {
        LayoutOutcome::TooSmall
    } else {
        let mirror = (capacity - HEADER_SIZE) as nat;
        layout_rounds(
            mirror,
            effective_sector(physical_sector_size),
            ceil_div((mirror - HEADER_SIZE) as nat, SEGMENT_SIZE as nat),
            8,
        )
    }
}

/// A settled layout: the regions in order, none overlapping, the bitmap with
/// a bit per segment, the last segment non-empty and no larger than the
/// others, and the segment region ending where the mirror header starts.
pub open spec fn layout_fits(
    capacity: nat,
    sector: nat,
    segment_count: nat,
    bitmap_size: nat,
    segment_offset: nat,
    last_segment_size: nat,
) -> bool {
    &&& capacity > 2 * HEADER_SIZE + SEGMENT_SIZE
    &&& segment_count >= 1
    &&& bitmap_size * 8 >= segment_count
    &&& HEADER_SIZE + bitmap_size <= segment_offset
    &&& 0 < last_segment_size <= SEGMENT_SIZE
    &&& segment_offset + (segment_count - 1) * SEGMENT_SIZE + last_segment_size == capacity - HEADER_SIZE
    &&& segment_offset % sector == 0
    &&& bitmap_size % sector == 0
}

/// Every settled layout fits.
pub proof fn lemma_settled_layout_fits(capacity: nat, physical_sector_size: u32)
    ensures
        plan_layout(capacity, physical_sector_size) matches LayoutOutcome::Settled {
            segment_count,
            bitmap_size,
            segment_offset,
        } ==> ({
            let available = (capacity - HEADER_SIZE - segment_offset) as nat;
            layout_fits(
                capacity,
                effective_sector(physical_sector_size),
                segment_count,
                bitmap_size,
                segment_offset,
                (available - (segment_count - 1) * SEGMENT_SIZE) as nat,
            )
        }),
{
    if capacity <= 2 * HEADER_SIZE + SEGMENT_SIZE {
        return;
    }
    let mirror = (capacity - HEADER_SIZE) as nat;
    let sector = effective_sector(physical_sector_size);
    lemma_settled_rounds(
        mirror,
        sector,
        ceil_div((mirror - HEADER_SIZE) as nat, SEGMENT_SIZE as nat),
        8,
    );
}

proof fn lemma_settled_rounds(mirror: nat, sector: nat, count: nat, rounds: nat)
    requires
        sector > 0,
    ensures
        layout_rounds(mirror, sector, count, rounds) matches LayoutOutcome::Settled {
            segment_count,
            bitmap_size,
            segment_offset,
        } ==> ({
            let available = (mirror - segment_offset) as nat;
            &&& segment_offset < mirror
            &&& segment_count == ceil_div(available, SEGMENT_SIZE as nat)
            &&& segment_count >= 1
            &&& bitmap_size * 8 >= segment_count
            &&& HEADER_SIZE + bitmap_size <= segment_offset
            &&& 0 < available - (segment_count - 1) * SEGMENT_SIZE <= SEGMENT_SIZE
            &&& segment_offset % sector == 0
            &&& bitmap_size % sector == 0
        }),
    decreases rounds,
{
    if rounds == 0 {
        return;
    }
    let bitmap = align_up(ceil_div(count, 8), sector);
    let seg_off = align_up((HEADER_SIZE + bitmap) as nat, sector);
    if seg_off >= mirror {
        return;
    }
    let next = ceil_div((mirror - seg_off) as nat, SEGMENT_SIZE as nat);
    if next == count {
        let available = (mirror - seg_off) as nat;
        lemma_ceil_div(count, 8);
        lemma_ceil_div(ceil_div(count, 8), sector);
        lemma_ceil_div((HEADER_SIZE + bitmap) as nat, sector);
        lemma_ceil_div(available, SEGMENT_SIZE as nat);
        lemma_mod_multiples_basic(ceil_div(ceil_div(count, 8), sector) as int, sector as int);
        lemma_mod_multiples_basic(ceil_div((HEADER_SIZE + bitmap) as nat, sector) as int, sector as int);
        assert(bitmap * 8 >= count) by (nonlinear_arith)
            requires
                bitmap >= ceil_div(count, 8),
                ceil_div(count, 8) * 8 >= count,
        ;
    } else if next != 0 {
        lemma_settled_rounds(mirror, sector, next, (rounds - 1) as nat);
    }
}

} // verus!
