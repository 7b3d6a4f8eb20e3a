//! Time-zone offsets: normalising a local-minus-UTC reading into the zone
//! range, and the minute offset the clock displays.

use vstd::prelude::*;

use crate::utils::format::trunc_div;

verus! {

/// The instant a scripted run starts from: 2026-01-01T00:00:00Z.
pub const SCRIPT_EPOCH_SECS: u64 = 1_767_225_600;

/// The local-minus-UTC offset from the two clocks' seconds into their day,
/// moved by a day where the two clocks straddle midnight: above +14 h is a
/// day too far east, below −12 h a day too far west.
pub open spec fn offset_from_clocks(local_secs_of_day: int, gm_secs_of_day: int) -> int {
    let diff = local_secs_of_day - gm_secs_of_day;
    let d1 = if diff > 14 * 3600 {
        diff - 24 * 3600
    } else {
        diff
    };
    if d1 < -12 * 3600 {
        d1 + 24 * 3600
    } else {
        d1
    }
}

/// The UTC offset in seconds given the local and UTC clocks' seconds into
/// their day.
pub fn utc_offset_from_clocks(local_secs_of_day: i64, gm_secs_of_day: i64) -> (r: i64)
    requires
        -1_000_000 <= local_secs_of_day <= 1_000_000,
        -1_000_000 <= gm_secs_of_day <= 1_000_000,
    ensures
        r == offset_from_clocks(local_secs_of_day as int, gm_secs_of_day as int),
{
    let mut diff = local_secs_of_day - gm_secs_of_day;
    if diff > 14 * 3600 {
        diff -= 24 * 3600;
    }
    if diff < -12 * 3600 {
        diff += 24 * 3600;
    }
    diff
}

/// The offset in whole minutes (toward zero, narrowed to 32 bits), clamped
/// to the display range `[-12 h, +14 h]`.
pub open spec fn offset_min_of(secs: int) -> int {
    let m = (trunc_div(secs, 60) as i32) as int;
    if m < -720 {
        -720
    } else if m > 840 {
        840
    } else {
        m
    }
}

/// Local UTC offset in minutes from one in seconds, clamped to the display
/// range.
pub fn offset_min_from_secs(secs: i64) -> (m: i32)
    ensures
        m == offset_min_of(secs as int),
        -720 <= m <= 840,
{
    let q = secs.checked_div(60).unwrap();
    let m = q as i32;
    if m < -720 {
        -720
    } else if m > 840 {
        840
    } else {
        m
    }
}

} // verus!
