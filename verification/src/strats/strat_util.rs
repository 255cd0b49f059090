//! Amount arithmetic and the weekly schedule.
use crate::strats::clock::mountain_local_offsets;
use crate::strats::clock::mountain_offset_at;
use crate::strats::clock::mountain_offsets_for_local;
use crate::strats::clock::mountain_utc_offset;
use crate::strats::clock::utc_now;
use crate::strats::clock::MAX_INSTANT;
use crate::strats::gateway::OrderHandle;
use crate::strats::gateway::Progress;
use crate::strats::gateway::SymbolDetail;
use crate::strats::gateway::Ticker;
use crate::strats::order_util::cancel_orders_if_open;
use crate::strats::order_util::sweep_step;
use crate::strats::order_util::CancelSweep;
use crate::strats::order_util::SweepStage;
use vstd::prelude::*;

verus! {

/// Money, prices and base amounts are fixed-point numbers with eight
/// decimal places: the integer `v` stands for `v / SCALE`.
pub const SCALE: u64 = 100_000_000;

/// Seconds in one civil day.
pub const DAY_SECS: i64 = 86_400;

/// Seconds in one week.
pub const WEEK_SECS: i64 = 604_800;

/// First instant, in seconds since the Unix epoch, from which the schedule
/// is worked out: the second day of 1970, so that every wall-clock reading
/// counts from 1970 on.
pub const FIRST_NOW: i64 = 86_400;

/// Last instant from which the schedule is worked out: so far before the
/// last instant of the time-zone lookups that every target lies within
/// them.
pub const LAST_NOW: i64 = 99_999_000_000;

/// USD value of `amount` base units at `price`, rounded down.
pub open spec fn usd_value(amount: int, price: int) -> int {
    amount * price / (SCALE as int)
}

/// Base amount that `usd` buys at `price`, rounded down.
pub open spec fn amount_bought(price: int, usd: int) -> int {
    usd * (SCALE as int) / price
}

/// The base amount that `usd` buys at `price`: `None` where the price is
/// zero or the amount is beyond `u64`.
pub fn get_amount(price: u64, usd: u64) -> (r: Option<u64>)
    ensures
        r == (if price > 0 && amount_bought(price as int, usd as int) <= u64::MAX {
            Some(amount_bought(price as int, usd as int) as u64)
        } else {
            None
        }),
{
    if price == 0 {
        return None;
    }
    assert((usd as int) * (SCALE as int) <= u64::MAX * 100_000_000) by (nonlinear_arith)
        requires
            usd <= u64::MAX,
            SCALE == 100_000_000,
    ;
    let scaled: u128 = (usd as u128) * (SCALE as u128);
    let q: u128 = scaled / (price as u128);
    if q <= u64::MAX as u128 {
        Some(q as u64)
    } else {
        None
    }
}

/// The USD value of `amount` base units at `price`: `None` where it is
/// beyond `u64`.
pub fn get_usd(amount: u64, price: u64) -> (r: Option<u64>)
    ensures
        r == (if usd_value(amount as int, price as int) <= u64::MAX {
            Some(usd_value(amount as int, price as int) as u64)
        } else {
            None
        }),
{
    assert((amount as int) * (price as int) <= u64::MAX * u64::MAX) by (nonlinear_arith)
        requires
            amount <= u64::MAX,
            price <= u64::MAX,
    ;
    let prod: u128 = (amount as u128) * (price as u128);
    let q: u128 = prod / (SCALE as u128);
    if q <= u64::MAX as u128 {
        Some(q as u64)
    } else {
        None
    }
}

/// An order sized from a budget never costs more than the budget.
pub proof fn lemma_amount_within_budget(price: int, usd: int)
    requires
        price > 0,
        usd >= 0,
    ensures
        0 <= usd_value(amount_bought(price, usd), price) <= usd,
{
    let s = SCALE as int;
    let a = amount_bought(price, usd);
    assert(a * price <= usd * s && a >= 0) by (nonlinear_arith)
        requires
            a == usd * s / price,
            price > 0,
            usd >= 0,
            s > 0,
    ;
    assert(0 <= a * price / s <= usd) by (nonlinear_arith)
        requires
            a * price <= usd * s,
            a >= 0,
            price > 0,
            s > 0,
    ;
}

/// A span of time: whole seconds and the nanoseconds beyond them.
#[derive(Clone, Copy, Debug, PartialEq, Eq)]
pub struct WaitTime {
    pub secs: u64,
    pub nanos: u32,
}

impl WaitTime {
    /// The span in nanoseconds.
    pub open spec fn total_nanos(self) -> int {
        self.secs * 1_000_000_000 + self.nanos
    }

    pub open spec fn wf(self) -> bool {
        self.nanos < 1_000_000_000
    }
}

/// Weekday of a wall-clock reading, Monday = 1 .. Sunday = 7. The reading
/// counts seconds from a Thursday (1970-01-01).
pub open spec fn weekday_of(local_secs: int) -> int {
    (local_secs / 86_400 + 3) % 7 + 1
}

/// Seconds since midnight of a wall-clock reading.
pub open spec fn second_of_day(local_secs: int) -> int {
    local_secs % 86_400
}

/// Seconds since midnight of the time `hrs:mins:secs`.
pub open spec fn time_of_day(hrs: int, mins: int, secs: int) -> int {
    hrs * 3600 + mins * 60 + secs
}

/// Whether (weekday, time of day) names a moment of the week.
pub open spec fn valid_target(day: int, hrs: int, mins: int, secs: int) -> bool {
    1 <= day <= 7 && 0 <= hrs < 24 && 0 <= mins < 60 && 0 <= secs < 60
}

/// Whether the wall-clock reading `t` falls on weekday `day` at `tod`
/// seconds after midnight.
pub open spec fn is_occurrence(t: int, day: int, tod: int) -> bool {
    weekday_of(t) == day && second_of_day(t) == tod
}

/// The first wall-clock reading at or after `from` that falls on the
/// target: today at the target time if today is the target weekday and
/// that time has not passed, else the target weekday's next turn, one to
/// seven days on.
pub open spec fn next_occurrence(from: int, day: int, tod: int) -> int {
    let midnight = from - second_of_day(from);
    let ahead = (day - weekday_of(from)) % 7;
    let candidate = midnight + ahead * 86_400 + tod;
    if candidate >= from {
        candidate
    } else {
        candidate + 604_800
    }
}

/// A reading made of whole days and a time of day splits back into them.
proof fn lemma_reading_parts(days: int, tod: int)
    requires
        0 <= tod < 86_400,
    ensures
        (days * 86_400 + tod) / 86_400 == days,
        (days * 86_400 + tod) % 86_400 == tod,
{
    vstd::arithmetic::div_mod::lemma_fundamental_div_mod_converse(
        days * 86_400 + tod,
        86_400,
        days,
        tod,
    );
}

/// Adding to a day count the days that the target weekday lies ahead
/// gives a day of the target weekday.
proof fn lemma_days_ahead(days: int, day: int)
    requires
        1 <= day <= 7,
    ensures
        ({
            let weekday = (days + 3) % 7 + 1;
            let ahead = (day - weekday) % 7;
            &&& 0 <= ahead < 7
            &&& (days + ahead + 3) % 7 + 1 == day
            &&& (days + ahead + 7 + 3) % 7 + 1 == day
        }),
{
}

/// Two days of one weekday are the same day or at least a week apart.
proof fn lemma_same_weekday_apart(d1: int, d2: int)
    requires
        (d1 + 3) % 7 == (d2 + 3) % 7,
        d1 < d2,
    ensures
        d2 - d1 >= 7,
{
}

/// The target of a wall-clock reading is the first occurrence of (weekday,
/// time of day) at or after it: the reading itself where it is an
/// occurrence, and less than a week away in any case.
pub proof fn lemma_next_occurrence_is_first(from: int, day: int, tod: int)
    requires
        1 <= day <= 7,
        0 <= tod < 86_400,
    ensures
        is_occurrence(next_occurrence(from, day, tod), day, tod),
        from <= next_occurrence(from, day, tod) < from + 604_800,
        is_occurrence(from, day, tod) ==> next_occurrence(from, day, tod) == from,
        weekday_of(from) == day && second_of_day(from) <= tod ==> next_occurrence(from, day, tod)
            < from + 86_400,
        forall|t: int| from <= t < next_occurrence(from, day, tod) ==> !is_occurrence(t, day, tod),
{
    let r = next_occurrence(from, day, tod);
    let days = from / 86_400;
    let ahead = (day - weekday_of(from)) % 7;
    let candidate = (days + ahead) * 86_400 + tod;
    vstd::arithmetic::div_mod::lemma_fundamental_div_mod(from, 86_400);
    assert(from - second_of_day(from) == days * 86_400);
    assert(from - second_of_day(from) + ahead * 86_400 + tod == candidate) by (nonlinear_arith)
        requires
            from - second_of_day(from) == days * 86_400,
            candidate == (days + ahead) * 86_400 + tod,
    ;
    lemma_days_ahead(days, day);
    lemma_reading_parts(days + ahead, tod);
    lemma_reading_parts(days + ahead + 7, tod);
    assert((days + ahead + 7) * 86_400 + tod == candidate + 604_800) by (nonlinear_arith)
        requires
            candidate == (days + ahead) * 86_400 + tod,
    ;
    assert(ahead * 86_400 <= 6 * 86_400) by (nonlinear_arith)
        requires
            ahead <= 6,
    ;
    assert(weekday_of(from) == day ==> ahead == 0);
    let rdays = if candidate >= from {
        days + ahead
    } else {
        days + ahead + 7
    };
    assert(r == rdays * 86_400 + tod);
    assert(r / 86_400 == rdays && r % 86_400 == tod);
    assert(is_occurrence(r, day, tod));
    assert(from <= r < from + 604_800);
    assert forall|t: int| from <= t < r implies !is_occurrence(t, day, tod) by {
        if is_occurrence(t, day, tod) {
            let tdays = t / 86_400;
            vstd::arithmetic::div_mod::lemma_fundamental_div_mod(t, 86_400);
            assert(t == tdays * 86_400 + tod);
            assert(tdays < rdays);
            lemma_same_weekday_apart(tdays, rdays);
            assert(r - t >= 604_800) by (nonlinear_arith)
                requires
                    r == rdays * 86_400 + tod,
                    t == tdays * 86_400 + tod,
                    rdays - tdays >= 7,
            ;
        }
    }
}

/// The first wall-clock reading at or after `from` that falls on the
/// target.
pub fn next_target_local(from: i64, day: i64, hrs: u32, mins: u32, secs: u32) -> (r: i64)
    requires
        0 <= from <= MAX_INSTANT,
        valid_target(day as int, hrs as int, mins as int, secs as int),
    ensures
        r == next_occurrence(
            from as int,
            day as int,
            time_of_day(hrs as int, mins as int, secs as int),
        ),
{
    let tod: i64 = (hrs as i64) * 3600 + (mins as i64) * 60 + (secs as i64);
    let days: i64 = from / DAY_SECS;
    let weekday: i64 = (days + 3) % 7 + 1;
    let ahead: i64 = (day + 7 - weekday) % 7;
    assert(ahead == (day - weekday) % 7);
    let candidate: i64 = (days + ahead) * DAY_SECS + tod;
    if candidate >= from {
        candidate
    } else {
        candidate + WEEK_SECS
    }
}

/// The span from the instant (`now_secs`, `now_nanos`) to the instant
/// `target_secs`, where the target is not in the past.
pub open spec fn span_between(now_secs: int, now_nanos: int, target_secs: int) -> Option<WaitTime> {
    let total = (target_secs - now_secs) * 1_000_000_000 - now_nanos;
    if 0 <= total && total / 1_000_000_000 <= u64::MAX {
        Some(WaitTime { secs: (total / 1_000_000_000) as u64, nanos: (total % 1_000_000_000) as u32 })
    } else {
        None
    }
}

/// The wall-clock reading in Mountain time at the instant `utc_secs`.
pub open spec fn local_reading(utc_secs: int) -> int {
    utc_secs + mountain_utc_offset(utc_secs)
}

/// The first whole second at or after the instant (`now_secs`,
/// `now_nanos`).
pub open spec fn whole_second(now_secs: int, now_nanos: int) -> int {
    if now_nanos > 0 {
        now_secs + 1
    } else {
        now_secs
    }
}

/// Whether some instant not before `first` shows the wall-clock reading
/// `reading` under one of `offsets`.
pub open spec fn resolves(first: int, reading: int, offsets: Seq<int>) -> bool {
    (offsets.len() >= 1 && reading - offsets[0] >= first) || (offsets.len() >= 2 && reading
        - offsets[1] >= first)
}

/// The instant at which the wall clock shows `reading`: the earliest one
/// not before `first` among those that `offsets` give. Where they give
/// none (the clocks skip the reading) it is the instant at which the
/// reading would be shown under `off_now`, the offset in force at `first`.
pub open spec fn pick_instant(first: int, reading: int, off_now: int, offsets: Seq<int>) -> int {
    let one = reading - offsets[0];
    let two = reading - offsets[1];
    if offsets.len() >= 2 && one >= first && two >= first {
        if one <= two {
            one
        } else {
            two
        }
    } else if offsets.len() >= 1 && one >= first {
        one
    } else if offsets.len() >= 2 && two >= first {
        two
    } else {
        reading - off_now
    }
}

/// Whether the schedule is worked out from this instant: from the second
/// day of 1970 to about the year 5138.
pub open spec fn supported_instant(now_secs: int, now_nanos: int) -> bool {
    FIRST_NOW <= now_secs <= LAST_NOW && 0 <= now_nanos < 1_000_000_000
}

/// The instant of the target that follows (`now_secs`, `now_nanos`): the
/// first whole second at or after now where the wall clock shows an
/// occurrence of (weekday, time of day) there, else the instant at which
/// the wall clock shows the first occurrence after that reading.
pub open spec fn target_instant(now_secs: int, now_nanos: int, day: int, tod: int) -> int {
    let first = whole_second(now_secs, now_nanos);
    let from = local_reading(first);
    let reading = next_occurrence(from, day, tod);
    if reading == from {
        first
    } else {
        pick_instant(first, reading, mountain_utc_offset(first), mountain_local_offsets(reading))
    }
}

/// The wait from the instant (`now_secs`, `now_nanos`) until the target
/// (weekday, time of day) comes round on the Mountain-time wall clock, at
/// or after that instant. The wait is the true elapsed time between the
/// two instants, so a change of offset inside the window lengthens or
/// shortens it. `None` only where the target is no moment of the week or
/// the instant is outside the supported range.
pub open spec fn wait_until_target(
    now_secs: int,
    now_nanos: int,
    day: int,
    hrs: int,
    mins: int,
    secs: int,
) -> Option<WaitTime> {
    if valid_target(day, hrs, mins, secs) && supported_instant(now_secs, now_nanos) {
        span_between(
            now_secs,
            now_nanos,
            target_instant(now_secs, now_nanos, day, time_of_day(hrs, mins, secs)),
        )
    } else {
        None
    }
}

/// A wait is never negative and ends on the target instant; that instant
/// is not before now; and the reading aimed at is the first occurrence of
/// (weekday, time of day) on the wall clock at or after the reading at
/// now. Where the wall clock shows an occurrence at now itself (to the
/// second, with no fraction gone), the wait is zero.
pub proof fn lemma_wait_lands_on_target(
    now_secs: int,
    now_nanos: int,
    day: int,
    hrs: int,
    mins: int,
    secs: int,
)
    requires
        valid_target(day, hrs, mins, secs),
        supported_instant(now_secs, now_nanos),
    ensures
        ({
            let tod = time_of_day(hrs, mins, secs);
            let first = whole_second(now_secs, now_nanos);
            let from = local_reading(first);
            let reading = next_occurrence(from, day, tod);
            let target = target_instant(now_secs, now_nanos, day, tod);
            let w = wait_until_target(now_secs, now_nanos, day, hrs, mins, secs);
            &&& w is Some ==> w->0.wf() && w->0.total_nanos() >= 0 && now_secs * 1_000_000_000
                + now_nanos + w->0.total_nanos() == target * 1_000_000_000
            &&& target >= first
            &&& is_occurrence(reading, day, tod)
            &&& from <= reading < from + 604_800
            &&& forall|t: int| from <= t < reading ==> !is_occurrence(t, day, tod)
            &&& is_occurrence(from, day, tod) ==> target == first
            &&& is_occurrence(from, day, tod) && now_nanos == 0 ==> w == Some(
                WaitTime { secs: 0, nanos: 0 },
            )
        }),
{
    let tod = time_of_day(hrs, mins, secs);
    lemma_next_occurrence_is_first(local_reading(whole_second(now_secs, now_nanos)), day, tod);
}

/// Where the offset in force is the same at now and at the target, the
/// wait is the difference of the two wall-clock readings: a retry that
/// succeeds fifteen seconds after the target waits a week less fifteen
/// seconds, and ends on the target's time of day.
pub proof fn lemma_wait_is_wall_clock_difference(
    now_secs: int,
    now_nanos: int,
    day: int,
    hrs: int,
    mins: int,
    secs: int,
)
    requires
        valid_target(day, hrs, mins, secs),
        supported_instant(now_secs, now_nanos),
        mountain_utc_offset(whole_second(now_secs, now_nanos)) == mountain_utc_offset(now_secs),
        mountain_local_offsets(
            next_occurrence(
                local_reading(whole_second(now_secs, now_nanos)),
                day,
                time_of_day(hrs, mins, secs),
            ),
        ) == seq![mountain_utc_offset(now_secs)],
    ensures
        ({
            let w = wait_until_target(now_secs, now_nanos, day, hrs, mins, secs);
            let reading = next_occurrence(
                local_reading(whole_second(now_secs, now_nanos)),
                day,
                time_of_day(hrs, mins, secs),
            );
            &&& w is Some ==> w->0.total_nanos() == (reading - local_reading(now_secs))
                * 1_000_000_000 - now_nanos
        }),
{
    lemma_wait_lands_on_target(now_secs, now_nanos, day, hrs, mins, secs);
}

/// The span from (`now_secs`, `now_nanos`) to `target_secs`.
pub fn span_until(now_secs: i64, now_nanos: u32, target_secs: i64) -> (r: Option<WaitTime>)
    requires
        0 <= now_secs <= MAX_INSTANT,
        now_nanos < 1_000_000_000,
        -DAY_SECS <= target_secs <= MAX_INSTANT + DAY_SECS,
    ensures
        r == span_between(now_secs as int, now_nanos as int, target_secs as int),
{
    if target_secs < now_secs || (target_secs == now_secs && now_nanos > 0) {
        return None;
    }
    let whole: i64 = target_secs - now_secs;
    if now_nanos == 0 {
        Some(WaitTime { secs: whole as u64, nanos: 0 })
    } else {
        Some(WaitTime { secs: (whole - 1) as u64, nanos: 1_000_000_000 - now_nanos })
    }
}

/// The instant at which the wall clock shows `reading`, not before
/// `first`.
pub fn choose_instant(first: i64, reading: i64, off_now: i32, offs: (Option<i32>, Option<i32>)) -> (r: i64)
    requires
        0 <= first <= MAX_INSTANT,
        0 <= reading <= MAX_INSTANT,
        -86_400 < off_now < 86_400,
        offs.0 matches Some(a) ==> -86_400 < a < 86_400,
        offs.1 matches Some(b) ==> -86_400 < b < 86_400,
        offs.0 is None ==> offs.1 is None,
    ensures
        r == pick_instant(
            first as int,
            reading as int,
            off_now as int,
            match offs {
                (Some(a), Some(b)) => seq![a as int, b as int],
                (Some(a), None) => seq![a as int],
                _ => Seq::<int>::empty(),
            },
        ),
{
    let fallback: i64 = reading - off_now as i64;
    match offs {
        (Some(a), Some(b)) => {
            let one: i64 = reading - a as i64;
            let two: i64 = reading - b as i64;
            if one >= first && two >= first {
                if one <= two {
                    one
                } else {
                    two
                }
            } else if one >= first {
                one
            } else if two >= first {
                two
            } else {
                fallback
            }
        },
        (Some(a), None) => {
            let one: i64 = reading - a as i64;
            if one >= first {
                one
            } else {
                fallback
            }
        },
        _ => fallback,
    }
}

/// Whether the instant `target` shows the wall-clock reading `reading`.
pub open spec fn reads_as(target: int, reading: int) -> bool {
    local_reading(target) == reading
}

/// The wait from a given instant until the target comes round, at or
/// after that instant.
///
/// A wait is owed for every moment of the week from every supported
/// instant. It is at most seven days and one hour, and less than
/// twenty-five hours where the wall clock at now shows the target weekday
/// before the target time. The instant it ends on shows the target
/// reading on the wall clock, unless the clocks skip that reading.
pub fn dur_until_target_from(
    now_secs: i64,
    now_nanos: u32,
    day: i64,
    hrs: u32,
    mins: u32,
    secs: u32,
) -> (r: Option<WaitTime>)
    ensures
        r == wait_until_target(
            now_secs as int,
            now_nanos as int,
            day as int,
            hrs as int,
            mins as int,
            secs as int,
        ),
        r is Some <==> valid_target(day as int, hrs as int, mins as int, secs as int)
            && supported_instant(now_secs as int, now_nanos as int),
        r is Some ==> r->0.wf() && r->0.total_nanos() <= 608_400 * 1_000_000_000,
        r is Some ==> ({
            let tod = time_of_day(hrs as int, mins as int, secs as int);
            let from = local_reading(whole_second(now_secs as int, now_nanos as int));
            let reading = next_occurrence(from, day as int, tod);
            let target = target_instant(now_secs as int, now_nanos as int, day as int, tod);
            &&& weekday_of(from) == day && second_of_day(from) <= tod ==> r->0.total_nanos() < 90_000
                * 1_000_000_000
            &&& reading == from || resolves(
                whole_second(now_secs as int, now_nanos as int),
                reading,
                mountain_local_offsets(reading),
            ) ==> reads_as(target, reading)
        }),
{
    if day < 1 || day > 7 || hrs >= 24 || mins >= 60 || secs >= 60 {
        return None;
    }
    if now_secs < FIRST_NOW || now_secs > LAST_NOW || now_nanos >= 1_000_000_000 {
        return None;
    }
    let first: i64 = if now_nanos > 0 {
        now_secs + 1
    } else {
        now_secs
    };
    let off: i32 = mountain_offset_at(first);
    let from: i64 = first + off as i64;
    let reading: i64 = next_target_local(from, day, hrs, mins, secs);
    proof {
        lemma_next_occurrence_is_first(
            from as int,
            day as int,
            time_of_day(hrs as int, mins as int, secs as int),
        );
    }
    let target: i64 = if reading == from {
        first
    } else {
        let offs = mountain_offsets_for_local(reading);
        choose_instant(first, reading, off, offs)
    };
    span_until(now_secs, now_nanos, target)
}

/// The wait from the present instant until the target comes round. The
/// clock decides the instant; whatever it reads, the result is the wait
/// owed from that instant, and it is at most seven days and one hour.
pub fn get_dur_until_next_target_date(day: i64, hrs: u32, mins: u32, secs: u32) -> (r: Option<
    WaitTime,
>)
    ensures
        exists|now_secs: int, now_nanos: int|
            0 <= now_nanos < 1_000_000_000 && r == #[trigger] wait_until_target(
                now_secs,
                now_nanos,
                day as int,
                hrs as int,
                mins as int,
                secs as int,
            ),
        !valid_target(day as int, hrs as int, mins as int, secs as int) ==> r is None,
        r is Some ==> r->0.wf() && r->0.total_nanos() <= 608_400 * 1_000_000_000,
{
    let now = utc_now();
    dur_until_target_from(now.0, now.1, day, hrs, mins, secs)
}

/// The market snapshot of a cycle, where there is one: the symbol is open
/// for trading and the quote carries an ask above zero.
pub open spec fn snapshot(detail: Option<SymbolDetail>, ticker: Option<Ticker>) -> Option<
    (SymbolDetail, Ticker),
> {
    match (detail, ticker) {
        (Some(d), Some(t)) => if d.is_open && (t.ask matches Some(a) && a > 0) {
            Some((d, t))
        } else {
            None
        },
        _ => None,
    }
}

/// Whether the symbol's status was fetched and says that it trades.
pub fn symbol_open(detail: &Option<SymbolDetail>) -> (open: bool)
    ensures
        open == (*detail matches Some(d) && d.is_open),
{
    match detail {
        Some(d) => d.is_open,
        None => false,
    }
}

/// The market snapshot that a cycle works on. A status or a quote that
/// could not be fetched, a symbol that does not trade, and a quote without
/// a usable ask all give `None`: the cycle fails and is retried.
pub fn get_info(detail: Option<SymbolDetail>, ticker: Option<Ticker>) -> (r: Option<
    (SymbolDetail, Ticker),
>)
    ensures
        r == snapshot(detail, ticker),
{
    if !symbol_open(&detail) {
        return None;
    }
    match (detail, ticker) {
        (Some(d), Some(t)) => match t.ask {
            Some(a) => if a > 0 {
                Some((d, t))
            } else {
                None
            },
            None => None,
        },
        _ => None,
    }
}

/// What follows a wait. Without a shutdown request the worker runs on:
/// `Done(true)`, and the sweep is left alone. With one, a fresh sweep over
/// the ledger begins: the result is its first request, or `Done(false)`
/// where the ledger is empty and the worker can stop at once.
pub open spec fn after_wait(die: bool, sweep: CancelSweep, ids: Seq<OrderHandle>) -> (CancelSweep, Progress) {
    if die {
        let begun = sweep_step(CancelSweep { stage: SweepStage::Start, ..sweep }, ids, None);
        match begun.1 {
            Progress::Ask(r) => begun,
            Progress::Done(_) => (begun.0, Progress::Done(false)),
        }
    } else {
        (sweep, Progress::Done(true))
    }
}

/// Decides what follows a wait: `die` says whether shutdown was requested
/// while the worker waited.
pub fn sleep_or_die(die: bool, sweep: &mut CancelSweep, order_ids: &Vec<OrderHandle>) -> (p: Progress)
    ensures
        (*final(sweep), p) == after_wait(die, *old(sweep), order_ids@),
{
    if !die {
        return Progress::Done(true);
    }
    sweep.stage = SweepStage::Start;
    match cancel_orders_if_open(sweep, order_ids, None) {
        Progress::Ask(r) => Progress::Ask(r),
        Progress::Done(_) => Progress::Done(false),
    }
}

} // verus!
