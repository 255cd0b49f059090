//! The wall clock and the reference time zone (US Mountain time).
use chrono::LocalResult;
use chrono::Offset;
use chrono::TimeZone;
use vstd::prelude::*;

verus! {

/// Largest instant, in seconds since the Unix epoch, that the time-zone
/// lookups are asked about (about the year 5138).
pub const MAX_INSTANT: i64 = 100_000_000_000;

/// Mountain standard time, in seconds east of UTC.
pub const STANDARD_OFFSET: i32 = -25_200;

/// Mountain daylight time, in seconds east of UTC.
pub const DAYLIGHT_OFFSET: i32 = -21_600;

/// Offset of Mountain time from UTC, in seconds east, at the instant
/// `utc_secs` (seconds since the Unix epoch).
pub uninterp spec fn mountain_utc_offset(utc_secs: int) -> int;

/// Offsets of Mountain time from UTC, in seconds east, under which the
/// wall clock shows the reading `local_secs` (seconds since 1970-01-01
/// 00:00:00 on the local calendar): none where the clocks skipped the
/// reading, one as a rule, two where the clocks were set back over it,
/// the earlier instant's offset first.
pub uninterp spec fn mountain_local_offsets(local_secs: int) -> Seq<int>;

/// Whether an offset is one of the two that Mountain time has had since
/// 1970.
pub open spec fn is_mountain_offset(off: int) -> bool {
    off == STANDARD_OFFSET || off == DAYLIGHT_OFFSET
}

/// `chrono::Utc::now`, as whole seconds since the Unix epoch and the
/// nanoseconds into that second. Which instant it is, the system clock
/// decides; all that is claimed is that the nanoseconds stay below one
/// second, as chrono takes them from the sub-second part of the system
/// time.
#[verifier::external_body]
pub(crate) fn utc_now() -> (now: (i64, u32))
    ensures
        now.1 < 1_000_000_000,
{
    let now = chrono::Utc::now();
    (now.timestamp(), now.timestamp_subsec_nanos())
}

/// `chrono_tz::US::Mountain.offset_from_utc_datetime`: the offset in force
/// at a UTC instant. The result is a function of the instant alone (the
/// time-zone table compiled into chrono-tz). From 1970 on every entry of
/// that table is standard time (seven hours west) or daylight time (six
/// hours west).
#[verifier::external_body]
pub(crate) fn mountain_offset_at(utc_secs: i64) -> (off: i32)
    requires
        0 <= utc_secs <= MAX_INSTANT,
    ensures
        off == mountain_utc_offset(utc_secs as int),
        is_mountain_offset(off as int),
{
    let utc = chrono::DateTime::from_timestamp(utc_secs, 0).unwrap().naive_utc();
    chrono_tz::US::Mountain.offset_from_utc_datetime(&utc).fix().local_minus_utc()
}

/// `chrono_tz::US::Mountain.offset_from_local_datetime`: the offsets under
/// which the wall clock shows a reading, the earlier instant's first. The
/// result is a function of the reading alone. For a reading from 1970 on
/// each offset is standard or daylight time. Each offset found belongs to
/// a span of the table that holds the reading less the offset, so the
/// lookup by instant gives the same offset there.
#[verifier::external_body]
pub(crate) fn mountain_offsets_for_local(local_secs: i64) -> (offs: (Option<i32>, Option<i32>))
    requires
        0 <= local_secs <= MAX_INSTANT,
    ensures
        match offs {
            (None, None) => mountain_local_offsets(local_secs as int) == Seq::<int>::empty(),
            (Some(a), None) => mountain_local_offsets(local_secs as int) == seq![a as int],
            (Some(a), Some(b)) => mountain_local_offsets(local_secs as int) == seq![
                a as int,
                b as int,
            ],
            (None, Some(_)) => false,
        },
        offs.0 matches Some(a) ==> is_mountain_offset(a as int) && mountain_utc_offset(
            local_secs - a,
        ) == a,
        offs.1 matches Some(b) ==> is_mountain_offset(b as int) && mountain_utc_offset(
            local_secs - b,
        ) == b,
{
    let local = chrono::DateTime::from_timestamp(local_secs, 0).unwrap().naive_utc();
    match chrono_tz::US::Mountain.offset_from_local_datetime(&local) {
        LocalResult::Single(o) => (Some(o.fix().local_minus_utc()), None),
        LocalResult::Ambiguous(a, b) => {
            (Some(a.fix().local_minus_utc()), Some(b.fix().local_minus_utc()))
        },
        LocalResult::None => (None, None),
    }
}

} // verus!
