//! Time keeping: calendar arithmetic for the real-time clock, the choice of
//! time source, and one-shot and repeating timers.
//!
//! Reading the clock hardware and calling timer callbacks is done by the
//! embedding code; the timer table says which timers are due and takes back
//! what their callbacks answered.

use vstd::prelude::*;

verus! {

/// Nanoseconds per second.
pub const NANOS_PER_SECOND: u64 = 1_000_000_000;

/// Frequency taken for the TSC when the platform does not report one.
pub const DEFAULT_TSC_FREQUENCY: u64 = 2_400_000_000;

/// Frequency taken for the HPET when the platform does not report one.
pub const DEFAULT_HPET_FREQUENCY: u64 = 10_000_000;

/// Frequency of the PIT.
pub const PIT_FREQUENCY: u64 = 1_193_182;

/// Whether `year` is a leap year of the Gregorian calendar.
pub open spec fn leap(year: int) -> bool {
    (year % 4 == 0 && year % 100 != 0) || year % 400 == 0
}

/// Days in `year`.
pub open spec fn year_length(year: int) -> int {
    if leap(year) {
        366
    } else {
        365
    }
}

/// Days from 1970-01-01 to the first day of `year`, for years from 1970 on;
/// none for an earlier year.
pub open spec fn days_before_year(year: int) -> int
    decreases year - 1970,
{
    if year <= 1970 {
        0
    } else {
        days_before_year(year - 1) + year_length(year - 1)
    }
}

/// Days of a common year before the first day of month `m` (1 to 12).
pub open spec fn cumulative_days(m: int) -> int {
    if m == 1 {
        0
    } else if m == 2 {
        31
    } else if m == 3 {
        59
    } else if m == 4 {
        90
    } else if m == 5 {
        120
    } else if m == 6 {
        151
    } else if m == 7 {
        181
    } else if m == 8 {
        212
    } else if m == 9 {
        243
    } else if m == 10 {
        273
    } else if m == 11 {
        304
    } else {
        334
    }
}

/// Days of `year` before the first day of `month`; 0 for a month outside
/// 1 to 12.
pub open spec fn month_offset(year: int, month: int) -> int {
    if 1 <= month <= 12 {
        cumulative_days(month) + if month > 2 && leap(year) {
            1int
        } else {
            0int
        }
    } else {
        0
    }
}

/// Days from 1970-01-01 to the given date.
pub open spec fn days_since_epoch(year: int, month: int, day: int) -> int {
    days_before_year(year) + month_offset(year, month) + day - 1
}

/// The value of a binary-coded decimal byte.
pub open spec fn bcd_value(bcd: u8) -> int {
    (bcd / 16) * 10 + bcd % 16
}

/// Converts a binary-coded decimal byte.
pub fn bcd_to_binary(bcd: u8) -> (b: u8)
    ensures
        b == bcd_value(bcd),
{
    proof {
        assert((bcd >> 4u8) == bcd / 16) by (bit_vector);
        assert((bcd & 0x0Fu8) == bcd % 16) by (bit_vector);
    }
    ((bcd >> 4u8) * 10) + (bcd & 0x0F)
}

/// Whether `year` is a leap year.
pub fn is_leap_year(year: u16) -> (r: bool)
    ensures
        r == leap(year as int),
{
    (year % 4 == 0 && year % 100 != 0) || (year % 400 == 0)
}

proof fn lemma_days_before_year_bound(year: int)
    ensures
        0 <= days_before_year(year),
        1970 <= year ==> days_before_year(year) <= 366 * (year - 1970),
        year <= 1970 ==> days_before_year(year) == 0,
    decreases year - 1970,
{
    if year > 1970 {
        lemma_days_before_year_bound(year - 1);
    }
}

/// Days from 1970-01-01 to the given date; the month table counts a leap
/// day after February of a leap year. The years before 1970 count for
/// nothing.
pub fn days_since_1970(year: u16, month: u8, day: u8) -> (d: u64)
    requires
        day >= 1,
    ensures
        d == days_since_epoch(year as int, month as int, day as int),
{
    let mut days: u64 = 0;
    let mut y: u16 = 1970;
    while y < year
        invariant
            1970 <= y,
            y <= year || y == 1970,
            days == days_before_year(y as int),
            days <= 366 * (y - 1970),
        decreases year - y,
    {
        proof {
            lemma_days_before_year_bound(y as int);
        }
        days = days + if is_leap_year(y) {
            366
        } else {
            365
        };
        y = y + 1;
    }
    proof {
        lemma_days_before_year_bound(year as int);
        lemma_days_before_year_bound(y as int);
    }
    let month_days: [u64; 12] = [0, 31, 59, 90, 120, 151, 181, 212, 243, 273, 304, 334];
    let month_offset: u64 = if month > 0 && month <= 12 {
        let offset = month_days[(month - 1) as usize];
        if month > 2 && is_leap_year(year) {
            offset + 1
        } else {
            offset
        }
    } else {
        0
    };
    days + month_offset + (day - 1) as u64
}

/// Seconds from 1970-01-01 00:00:00 to the given moment.
pub fn calculate_aios_timestamp(year: u16, month: u8, day: u8, hour: u8, minute: u8, second: u8) -> (s:
    u64)
    requires
        day >= 1,
    ensures
        s == days_since_epoch(year as int, month as int, day as int) * 86400 + hour * 3600 + minute
            * 60 + second,
{
    let days = days_since_1970(year, month, day);
    proof {
        lemma_days_before_year_bound(year as int);
    }
    days * 86400 + (hour as u64 * 3600) + (minute as u64 * 60) + (second as u64)
}

/// Nanoseconds since the epoch for the raw real-time-clock registers: each
/// in binary-coded decimal, the year counted from 2000.
pub fn wall_clock_from_rtc(seconds: u8, minutes: u8, hours: u8, day: u8, month: u8, year: u8) -> (r:
    Option<u64>)
    ensures
        r == if bcd_value(day) >= 1 {
            Some(
                ((days_since_epoch(
                    bcd_value(year) + 2000,
                    bcd_value(month),
                    bcd_value(day),
                ) * 86400 + bcd_value(hours) * 3600 + bcd_value(minutes) * 60 + bcd_value(seconds))
                    * NANOS_PER_SECOND) as u64,
            )
        } else {
            None
        },
{
    let d = bcd_to_binary(day);
    if d == 0 {
        return None;
    }
    let y: u16 = bcd_to_binary(year) as u16 + 2000;
    let secs = calculate_aios_timestamp(
        y,
        bcd_to_binary(month),
        d,
        bcd_to_binary(hours),
        bcd_to_binary(minutes),
        bcd_to_binary(seconds),
    );
    proof {
        lemma_days_before_year_bound(y as int);
        assert(secs <= 400 * 366 * 86400 + 400 * 86400);
    }
    Some(secs * NANOS_PER_SECOND)
}

/// The hardware clock behind the time manager.
#[derive(Clone, Copy, PartialEq, Eq, Structural, Debug)]
pub enum TimeSource {
    Tsc,
    Hpet,
    Pit,
}

/// The best source available: the HPET, else the TSC, else the PIT.
pub fn detect_time_source(has_hpet: bool, has_tsc: bool) -> (s: TimeSource)
    ensures
        s == if has_hpet {
            TimeSource::Hpet
        } else if has_tsc {
            TimeSource::Tsc
        } else {
            TimeSource::Pit
        },
{
    if has_hpet {
        return TimeSource::Hpet;
    }
    if has_tsc {
        return TimeSource::Tsc;
    }
    TimeSource::Pit
}

/// The tick frequency of `source`, from what the platform reports or the
/// usual default.
pub fn get_frequency(source: TimeSource, tsc_frequency: Option<u64>, hpet_frequency: Option<u64>) -> (f:
    u64)
    ensures
        f == match source {
            TimeSource::Tsc => match tsc_frequency {
                Some(x) => x,
                None => DEFAULT_TSC_FREQUENCY,
            },
            TimeSource::Hpet => match hpet_frequency {
                Some(x) => x,
                None => DEFAULT_HPET_FREQUENCY,
            },
            TimeSource::Pit => PIT_FREQUENCY,
        },
{
    match source {
        TimeSource::Tsc => match tsc_frequency {
            Some(x) => x,
            None => DEFAULT_TSC_FREQUENCY,
        },
        TimeSource::Hpet => match hpet_frequency {
            Some(x) => x,
            None => DEFAULT_HPET_FREQUENCY,
        },
        TimeSource::Pit => PIT_FREQUENCY,
    }
}

/// Nanoseconds since boot: the platform timer's reading `timer_nanos`
/// once time keeping is set up, 0 before.
pub fn now(manager: &Option<TimeManager>, timer_nanos: u64) -> (t: u64)
    ensures
        t == if manager is Some {
            timer_nanos
        } else {
            0
        },
{
    match manager {
        Some(_) => timer_nanos,
        None => 0,
    }
}

/// Whether a sleep of `nanos` begun at `start` is over at `now`.
pub fn sleep_over(start: u64, now: u64, nanos: u64) -> (over: bool)
    requires
        start <= now,
    ensures
        over == (now - start >= nanos),
{
    now - start >= nanos
}

/// Nanoseconds to wait for a sleep of `millis` milliseconds.
pub fn sleep_ms(millis: u64) -> (n: u64)
    requires
        millis * 1_000_000 <= u64::MAX,
    ensures
        n == millis * 1_000_000,
{
    millis * 1_000_000
}

/// A timer. The callback is a handle that the embedding code maps to the
/// function it stands for; it answers whether a repeating timer goes on.
#[derive(Clone, Copy, PartialEq, Eq, Structural, Debug)]
pub struct Timer {
    pub id: u64,
    pub expires_at: u64,
    pub callback: u64,
    pub repeat: bool,
    pub interval: u64,
}

/// Whether `t` is due at `now`.
pub open spec fn due(t: Timer, now: u64) -> bool {
    now >= t.expires_at
}

/// Identifiers and callbacks of the timers of `ts` due at `now`, in order.
pub open spec fn due_list(ts: Seq<Timer>, now: u64) -> Seq<(u64, u64)>
    decreases ts.len(),
{
    if ts.len() == 0 {
        Seq::empty()
    } else if due(ts.last(), now) {
        due_list(ts.drop_last(), now).push((ts.last().id, ts.last().callback))
    } else {
        due_list(ts.drop_last(), now)
    }
}

/// What the callback of timer `id` answered, per `outcomes`; no answer
/// counts as not repeating.
pub open spec fn answer(outcomes: Seq<(u64, bool)>, id: u64) -> bool
    decreases outcomes.len(),
{
    if outcomes.len() == 0 {
        false
    } else if outcomes.last().0 == id {
        answer(outcomes.drop_last(), id) || outcomes.last().1
    } else {
        answer(outcomes.drop_last(), id)
    }
}

/// The timers after the due ones ran at `now`: a repeating timer whose
/// callback asked to go on is due again one interval later; the other due
/// timers are gone.
pub open spec fn settled(ts: Seq<Timer>, now: u64, outcomes: Seq<(u64, bool)>) -> Seq<Timer>
    decreases ts.len(),
{
    if ts.len() == 0 {
        Seq::empty()
    } else {
        let t = ts.last();
        let rest = settled(ts.drop_last(), now, outcomes);
        if !due(t, now) {
            rest.push(t)
        } else if t.repeat && answer(outcomes, t.id) {
            rest.push(Timer { expires_at: (now + t.interval) as u64, ..t })
        } else {
            rest
        }
    }
}

/// Whether rescheduling any due repeating timer of `ts` stays within `u64`.
pub open spec fn reschedule_fits(ts: Seq<Timer>, now: u64) -> bool {
    forall|i: int|
        0 <= i < ts.len() && due(#[trigger] ts[i], now) && ts[i].repeat ==> now + ts[i].interval
            <= u64::MAX
}

/// `ts` without the timer `id`.
pub open spec fn timers_without(ts: Seq<Timer>, id: u64) -> Seq<Timer>
    decreases ts.len(),
{
    if ts.len() == 0 {
        Seq::empty()
    } else if ts.last().id == id {
        timers_without(ts.drop_last(), id)
    } else {
        timers_without(ts.drop_last(), id).push(ts.last())
    }
}

/// The time manager: its source, the wall-clock time at boot, and timers.
pub struct TimeManager {
    source: TimeSource,
    boot_time: u64,
    frequency: u64,
    timers: Vec<Timer>,
    next_timer_id: u64,
}

impl TimeManager {
    /// The timers, oldest first.
    pub closed spec fn timers(&self) -> Seq<Timer> {
        self.timers@
    }

    /// The identifier of the next timer.
    pub closed spec fn next_id(&self) -> u64 {
        self.next_timer_id
    }

    /// Nanoseconds since the epoch at boot.
    pub closed spec fn boot(&self) -> u64 {
        self.boot_time
    }

    /// Ticks per second of the time source.
    pub closed spec fn ticks_per_second(&self) -> u64 {
        self.frequency
    }

    /// Identifiers are handed out fresh: the next one is not 0, and every
    /// timer's is below it.
    pub open spec fn ids_fresh(&self) -> bool {
        &&& self.next_id() >= 1
        &&& forall|k: int| 0 <= k < self.timers().len() ==> #[trigger] self.timers()[k].id < self.next_id()
    }

    /// The identifier the next timer gets.
    pub fn next_timer_id(&self) -> (id: u64)
        ensures
            id == self.next_id(),
    {
        self.next_timer_id
    }

    /// Ticks per second of the time source.
    pub fn frequency(&self) -> (f: u64)
        ensures
            f == self.ticks_per_second(),
    {
        self.frequency
    }

    /// A manager for `source` at `frequency`, booted at `boot_time`, with no
    /// timers.
    pub fn init(source: TimeSource, frequency: u64, boot_time: u64) -> (m: Self)
        ensures
            m.timers() == Seq::<Timer>::empty(),
            m.next_id() == 1,
            m.boot() == boot_time,
            m.ticks_per_second() == frequency,
            m.ids_fresh(),
    {
        TimeManager { source, boot_time, frequency, timers: Vec::new(), next_timer_id: 1 }
    }

    /// Wall-clock time: the boot time plus `now` nanoseconds since boot.
    pub fn system_time(&self, now: u64) -> (t: u64)
        requires
            self.boot() + now <= u64::MAX,
        ensures
            t == self.boot() + now,
    {
        self.boot_time + now
    }

    /// Creates a timer due `delay_ns` after `now`; a repeating timer keeps
    /// that delay as its interval. Returns its identifier.
    pub fn create_timer(&mut self, callback: u64, delay_ns: u64, repeat: bool, now: u64) -> (id: u64)
        requires
            old(self).next_id() < u64::MAX,
            now + delay_ns <= u64::MAX,
        ensures
            id == old(self).next_id(),
            final(self).next_id() == id + 1,
            old(self).ids_fresh() ==> final(self).ids_fresh() && id >= 1 && forall|k: int|
                0 <= k < old(self).timers().len() ==> #[trigger] old(self).timers()[k].id != id,
            final(self).boot() == old(self).boot(),
            final(self).timers() == old(self).timers().push(
                Timer {
                    id,
                    expires_at: (now + delay_ns) as u64,
                    callback,
                    repeat,
                    interval: if repeat {
                        delay_ns
                    } else {
                        0
                    },
                },
            ),
    {
        let id = self.next_timer_id;
        self.next_timer_id = id + 1;
        let interval = if repeat {
            delay_ns
        } else {
            0
        };
        self.timers.push(Timer { id, expires_at: now + delay_ns, callback, repeat, interval });
        proof {
            if old(self).ids_fresh() {
                assert forall|k: int| 0 <= k < self.timers().len() implies #[trigger] self.timers()[k].id
                    < self.next_id() by {
                    if k < old(self).timers().len() {
                        assert(self.timers()[k] == old(self).timers()[k]);
                    }
                }
            }
        }
        id
    }

    /// Cancels timer `id`.
    pub fn cancel_timer(&mut self, id: u64)
        ensures
            final(self).timers() == timers_without(old(self).timers(), id),
            final(self).next_id() == old(self).next_id(),
            old(self).ids_fresh() ==> final(self).ids_fresh(),
            final(self).boot() == old(self).boot(),
    {
        let mut kept: Vec<Timer> = Vec::new();
        let mut i: usize = 0;
        while i < self.timers.len()
            invariant
                i <= self.timers@.len(),
                kept@ == timers_without(self.timers@.subrange(0, i as int), id),
            decreases self.timers.len() - i,
        {
            proof {
                assert(self.timers@.subrange(0, i as int + 1).drop_last() =~= self.timers@.subrange(
                    0,
                    i as int,
                ));
            }
            if self.timers[i].id != id {
                kept.push(self.timers[i]);
            }
            i = i + 1;
        }
        proof {
            assert(self.timers@.subrange(0, self.timers@.len() as int) =~= self.timers@);
        }
        self.timers = kept;
        proof {
            if old(self).ids_fresh() {
                assert forall|k: int| 0 <= k < self.timers().len() implies #[trigger] self.timers()[k].id
                    < self.next_id() by {
                    lemma_without_from(old(self).timers(), id, k);
                }
            }
        }
    }

    /// The timers due at `now`, oldest first, with their callbacks: the
    /// embedding code calls each callback with the timer's identifier.
    pub fn due_timers(&self, now: u64) -> (r: Vec<(u64, u64)>)
        ensures
            r@ == due_list(self.timers(), now),
    {
        let mut r: Vec<(u64, u64)> = Vec::new();
        let mut i: usize = 0;
        while i < self.timers.len()
            invariant
                i <= self.timers@.len(),
                r@ == due_list(self.timers@.subrange(0, i as int), now),
            decreases self.timers.len() - i,
        {
            proof {
                assert(self.timers@.subrange(0, i as int + 1).drop_last() =~= self.timers@.subrange(
                    0,
                    i as int,
                ));
            }
            let t = self.timers[i];
            if now >= t.expires_at {
                r.push((t.id, t.callback));
            }
            i = i + 1;
        }
        proof {
            assert(self.timers@.subrange(0, self.timers@.len() as int) =~= self.timers@);
        }
        r
    }

    /// Whether every repeating timer due at `now` can be moved on by its
    /// interval.
    pub fn can_reschedule(&self, now: u64) -> (r: bool)
        ensures
            r == reschedule_fits(self.timers(), now),
    {
        let mut i: usize = 0;
        while i < self.timers.len()
            invariant
                i <= self.timers@.len(),
                forall|k: int|
                    0 <= k < i && due(#[trigger] self.timers@[k], now) && self.timers@[k].repeat
                        ==> now + self.timers@[k].interval <= u64::MAX,
            decreases self.timers.len() - i,
        {
            let t = self.timers[i];
            if now >= t.expires_at && t.repeat && t.interval > u64::MAX - now {
                return false;
            }
            i = i + 1;
        }
        true
    }

    /// Takes what the callbacks of the due timers answered and reschedules
    /// or drops those timers.
    pub fn process_timers(&mut self, now: u64, outcomes: &Vec<(u64, bool)>)
        requires
            reschedule_fits(old(self).timers(), now),
        ensures
            final(self).timers() == settled(old(self).timers(), now, outcomes@),
            final(self).next_id() == old(self).next_id(),
            old(self).ids_fresh() ==> final(self).ids_fresh(),
            final(self).boot() == old(self).boot(),
    {
        let mut kept: Vec<Timer> = Vec::new();
        let mut i: usize = 0;
        while i < self.timers.len()
            invariant
                i <= self.timers@.len(),
                reschedule_fits(self.timers@, now),
                kept@ == settled(self.timers@.subrange(0, i as int), now, outcomes@),
            decreases self.timers.len() - i,
        {
            proof {
                assert(self.timers@.subrange(0, i as int + 1).drop_last() =~= self.timers@.subrange(
                    0,
                    i as int,
                ));
            }
            let t = self.timers[i];
            if now < t.expires_at {
                kept.push(t);
            } else if t.repeat && lookup_answer(outcomes, t.id) {
                assert(due(self.timers@[i as int], now));
                kept.push(Timer { expires_at: now + t.interval, ..t });
            }
            i = i + 1;
        }
        proof {
            assert(self.timers@.subrange(0, self.timers@.len() as int) =~= self.timers@);
        }
        self.timers = kept;
        proof {
            if old(self).ids_fresh() {
                assert forall|k: int| 0 <= k < self.timers().len() implies #[trigger] self.timers()[k].id
                    < self.next_id() by {
                    lemma_settled_from(old(self).timers(), now, outcomes@, k);
                }
            }
        }
    }
}

/// What the callback of timer `id` answered.
fn lookup_answer(outcomes: &Vec<(u64, bool)>, id: u64) -> (r: bool)
    ensures
        r == answer(outcomes@, id),
{
    let mut r = false;
    let mut i: usize = 0;
    while i < outcomes.len()
        invariant
            i <= outcomes@.len(),
            r == answer(outcomes@.subrange(0, i as int), id),
        decreases outcomes.len() - i,
    {
        proof {
            assert(outcomes@.subrange(0, i as int + 1).drop_last() =~= outcomes@.subrange(
                0,
                i as int,
            ));
        }
        if outcomes[i].0 == id {
            r = r || outcomes[i].1;
        }
        i = i + 1;
    }
    proof {
        assert(outcomes@.subrange(0, outcomes@.len() as int) =~= outcomes@);
    }
    r
}

/// 1 January 1970 is day zero, and each further year adds its length.
pub proof fn law_days_add_up(year: int)
    requires
        year >= 1970,
    ensures
        days_since_epoch(year, 1, 1) == days_before_year(year),
        days_since_epoch(year + 1, 1, 1) == days_since_epoch(year, 1, 1) + year_length(year),
        days_since_epoch(year, 3, 1) == days_since_epoch(year, 1, 1) + 59 + if leap(year) {
            1int
        } else {
            0int
        },
{
}

/// A cancelled timer never fires: no due timer of what is left after
/// cancelling `id` has that identifier, at any time.
pub proof fn law_cancelled_timer_never_fires(ts: Seq<Timer>, id: u64, now: u64)
    ensures
        forall|k: int|
            0 <= k < due_list(timers_without(ts, id), now).len() ==> #[trigger] due_list(
                timers_without(ts, id),
                now,
            )[k].0 != id,
    decreases ts.len(),
{
    if ts.len() > 0 {
        law_cancelled_timer_never_fires(ts.drop_last(), id, now);
        let rest = timers_without(ts.drop_last(), id);
        let w = timers_without(ts, id);
        let t = ts.last();
        if t.id != id {
            assert(w == rest.push(t));
            assert(w.drop_last() =~= rest);
            assert(w.last() == t);
            let d0 = due_list(rest, now);
            assert forall|k: int| 0 <= k < due_list(w, now).len() implies #[trigger] due_list(w, now)[k].0
                != id by {
                if due(t, now) {
                    assert(due_list(w, now) == d0.push((t.id, t.callback)));
                    if k < d0.len() {
                        assert(due_list(w, now)[k] == d0[k]);
                    }
                } else {
                    assert(due_list(w, now) == d0);
                }
            }
        }
    }
}

/// A due timer that does not repeat fires once: it is gone once the due
/// timers have run, whatever the callbacks answered.
pub proof fn law_one_shot_timer_runs_once(ts: Seq<Timer>, now: u64, outcomes: Seq<(u64, bool)>, i: int)
    requires
        0 <= i < ts.len(),
        due(ts[i], now),
        !ts[i].repeat,
        forall|a: int, b: int| 0 <= a < b < ts.len() ==> ts[a].id != ts[b].id,
    ensures
        forall|k: int| 0 <= k < settled(ts, now, outcomes).len() ==> #[trigger] settled(
            ts,
            now,
            outcomes,
        )[k].id != ts[i].id,
    decreases ts.len(),
{
    let t = ts.last();
    let rest = settled(ts.drop_last(), now, outcomes);
    if i < ts.len() - 1 {
        assert(ts.drop_last()[i] == ts[i]);
        law_one_shot_timer_runs_once(ts.drop_last(), now, outcomes, i);
        assert(t.id != ts[i].id);
    } else {
        assert forall|k: int| 0 <= k < rest.len() implies #[trigger] rest[k].id != ts[i].id by {
            lemma_settled_from(ts.drop_last(), now, outcomes, k);
            let j = choose|j: int| 0 <= j < ts.drop_last().len() && ts.drop_last()[j].id == rest[k].id;
            assert(ts[j].id != ts[i].id);
        }
    }
}

/// Every timer left after the due ones ran was one of `ts`.
proof fn lemma_settled_from(ts: Seq<Timer>, now: u64, outcomes: Seq<(u64, bool)>, k: int)
    requires
        0 <= k < settled(ts, now, outcomes).len(),
    ensures
        exists|j: int| 0 <= j < ts.len() && ts[j].id == settled(ts, now, outcomes)[k].id,
    decreases ts.len(),
{
    let t = ts.last();
    let rest = settled(ts.drop_last(), now, outcomes);
    if k < rest.len() {
        lemma_settled_from(ts.drop_last(), now, outcomes, k);
        let j = choose|j: int| 0 <= j < ts.drop_last().len() && ts.drop_last()[j].id == rest[k].id;
        assert(ts[j] == ts.drop_last()[j]);
        assert(settled(ts, now, outcomes)[k] == rest[k]);
    } else {
        assert(ts[ts.len() - 1] == t);
    }
}

/// A cancelled timer stays cancelled: once no timer has identifier `id`,
/// running the due timers at any later time keeps it so, and so does
/// creating a timer, whose identifier is a fresh one.
pub proof fn law_cancelled_timer_stays_cancelled(
    ts: Seq<Timer>,
    id: u64,
    now: u64,
    outcomes: Seq<(u64, bool)>,
    created: Timer,
)
    requires
        forall|k: int| 0 <= k < ts.len() ==> #[trigger] ts[k].id != id,
        created.id != id,
    ensures
        forall|k: int|
            0 <= k < settled(ts, now, outcomes).len() ==> #[trigger] settled(ts, now, outcomes)[k].id != id,
        forall|k: int| 0 <= k < ts.push(created).len() ==> #[trigger] ts.push(created)[k].id != id,
{
    assert forall|k: int| 0 <= k < settled(ts, now, outcomes).len() implies #[trigger] settled(
        ts,
        now,
        outcomes,
    )[k].id != id by {
        lemma_settled_from(ts, now, outcomes, k);
    }
    assert forall|k: int| 0 <= k < ts.push(created).len() implies #[trigger] ts.push(created)[k].id != id by {
        if k < ts.len() {
            assert(ts.push(created)[k] == ts[k]);
        }
    }
}

/// Every timer left after cancelling `id` was one of `ts`.
proof fn lemma_without_from(ts: Seq<Timer>, id: u64, k: int)
    requires
        0 <= k < timers_without(ts, id).len(),
    ensures
        exists|j: int| 0 <= j < ts.len() && ts[j] == timers_without(ts, id)[k],
    decreases ts.len(),
{
    let rest = timers_without(ts.drop_last(), id);
    if ts.last().id == id || k < rest.len() {
        lemma_without_from(ts.drop_last(), id, k);
        let j = choose|j: int| 0 <= j < ts.drop_last().len() && ts.drop_last()[j] == rest[k];
        assert(ts[j] == ts.drop_last()[j]);
    } else {
        assert(ts[ts.len() - 1] == ts.last());
    }
}

/// Wall-clock time: the boot time plus `timer_nanos` nanoseconds since
/// boot once time keeping is set up, 0 before.
pub fn system_time(manager: &Option<TimeManager>, timer_nanos: u64) -> (t: u64)
    requires
        manager matches Some(m) ==> m.boot() + timer_nanos <= u64::MAX,
    ensures
        t == match manager {
            Some(m) => (m.boot() + timer_nanos) as u64,
            None => 0,
        },
{
    match manager {
        Some(m) => m.system_time(timer_nanos),
        None => 0,
    }
}

/// Creates a timer on the time manager, if time keeping is set up; see
/// [`TimeManager::create_timer`]. Returns its identifier, or 0 when time
/// keeping is not set up and nothing is registered.
pub fn create_timer(
    manager: &mut Option<TimeManager>,
    callback: u64,
    delay_ns: u64,
    repeat: bool,
    now: u64,
) -> (id: u64)
    requires
        (*old(manager)) matches Some(m) ==> m.next_id() < u64::MAX && now + delay_ns <= u64::MAX,
    ensures
        (*final(manager)) is Some == (*old(manager)) is Some,
        (*old(manager)) is None ==> id == 0,
        (*old(manager)) matches Some(m0) ==> {
            let m1 = (*final(manager))->0;
            &&& id == m0.next_id()
            &&& m1.next_id() == id + 1
            &&& m1.boot() == m0.boot()
            &&& m1.timers() == m0.timers().push(
                Timer {
                    id,
                    expires_at: (now + delay_ns) as u64,
                    callback,
                    repeat,
                    interval: if repeat {
                        delay_ns
                    } else {
                        0
                    },
                },
            )
            &&& m0.ids_fresh() ==> m1.ids_fresh() && id >= 1
        },
{
    match manager {
        Some(m) => m.create_timer(callback, delay_ns, repeat, now),
        None => 0,
    }
}

/// Cancels timer `id` on the time manager, if time keeping is set up; see
/// [`TimeManager::cancel_timer`].
pub fn cancel_timer(manager: &mut Option<TimeManager>, id: u64)
    ensures
        (*final(manager)) is Some == (*old(manager)) is Some,
        (*old(manager)) matches Some(m0) ==> {
            let m1 = (*final(manager))->0;
            &&& m1.timers() == timers_without(m0.timers(), id)
            &&& m1.next_id() == m0.next_id()
            &&& m1.boot() == m0.boot()
            &&& m0.ids_fresh() ==> m1.ids_fresh()
        },
{
    match manager {
        Some(m) => m.cancel_timer(id),
        None => {},
    }
}

/// Two timers created one after the other, whatever was cancelled or run
/// between, get different identifiers, neither of them 0: the second
/// creation starts from a next identifier past the first one.
pub proof fn law_timer_ids_are_fresh(m0: TimeManager, m1: TimeManager, id1: u64, id2: u64)
    requires
        m0.ids_fresh(),
        id1 == m0.next_id(),
        m1.next_id() >= id1 + 1,
        id2 == m1.next_id(),
    ensures
        id1 != 0,
        id2 != 0,
        id1 != id2,
{
}

/// The calendar adds up month by month: the first of month `m + 1` comes
/// as many days after the first of month `m` as month `m` is long (31 days
/// for January, March, May, July, August, October; 30 for April, June,
/// September, November; 29 for February of a leap year, 28 otherwise); and
/// the day after the 31st of December is the first of January of the next
/// year.
pub proof fn law_months_add_up(year: int, m: int)
    requires
        year >= 1970,
        1 <= m < 12,
    ensures
        days_since_epoch(year, m + 1, 1) == days_since_epoch(year, m, 1) + if m == 2 {
            if (year % 4 == 0 && year % 100 != 0) || year % 400 == 0 {
                29int
            } else {
                28int
            }
        } else if m == 4 || m == 6 || m == 9 || m == 11 {
            30int
        } else {
            31int
        },
        days_since_epoch(year, 12, 31) + 1 == days_since_epoch(year + 1, 1, 1),
{
}

} // verus!
