//! Workload analytics in whole numbers: the hour and weekday of a
//! timestamp, activity per hour, typical memory use, the access pattern
//! read from memory use, and the bounded history of snapshots. Usage
//! fractions and the predictions made from them are computed by the
//! embedding code.

use vstd::prelude::*;

verus! {

/// Nanoseconds in an hour.
pub const NANOS_PER_HOUR: u64 = 3_600_000_000_000;

/// Nanoseconds in a day.
pub const NANOS_PER_DAY: u64 = 86_400_000_000_000;

/// Snapshots kept per agent.
pub const MAX_HISTORY: usize = 1000;

/// Snapshots needed before a pattern is derived.
pub const PATTERN_THRESHOLD: usize = 10;

/// How an agent's workload comes.
#[derive(Clone, Copy, PartialEq, Eq, Structural, Debug)]
pub enum BurstPattern {
    Steady,
    Periodic,
    Sporadic,
    Growing,
}

/// How an agent's memory is accessed.
#[derive(Clone, Copy, PartialEq, Eq, Structural, Debug)]
pub enum AccessPattern {
    Sequential,
    Random,
    Temporal,
    Spatial,
}

/// The hour of the day, 0 to 23, of a timestamp in nanoseconds.
pub fn hour_of_day(timestamp: u64) -> (h: u8)
    ensures
        h == (timestamp / NANOS_PER_HOUR) % 24,
{
    ((timestamp / NANOS_PER_HOUR) % 24) as u8
}

/// The day of the week, 0 to 6, of a timestamp in nanoseconds.
pub fn day_of_week(timestamp: u64) -> (d: u8)
    ensures
        d == (timestamp / NANOS_PER_DAY) % 7,
{
    ((timestamp / NANOS_PER_DAY) % 7) as u8
}

/// How many of `timestamps` fall in hour `h` of the day.
pub open spec fn count_in_hour(timestamps: Seq<u64>, h: int) -> nat
    decreases timestamps.len(),
{
    if timestamps.len() == 0 {
        0
    } else {
        count_in_hour(timestamps.drop_last(), h) + if (timestamps.last() / NANOS_PER_HOUR) % 24
            == h {
            1nat
        } else {
            0nat
        }
    }
}

proof fn lemma_count_bound(timestamps: Seq<u64>, h: int)
    ensures
        count_in_hour(timestamps, h) <= timestamps.len(),
    decreases timestamps.len(),
{
    if timestamps.len() > 0 {
        lemma_count_bound(timestamps.drop_last(), h);
    }
}

/// Activity per hour of the day: entry `h` counts the timestamps in hour
/// `h`.
pub fn hour_counts(timestamps: &Vec<u64>) -> (counts: Vec<u32>)
    requires
        timestamps@.len() <= u32::MAX,
    ensures
        counts@.len() == 24,
        forall|h: int| 0 <= h < 24 ==> #[trigger] counts@[h] == count_in_hour(timestamps@, h),
{
    let mut counts: Vec<u32> = Vec::new();
    let mut h: usize = 0;
    while h < 24
        invariant
            h <= 24,
            counts@.len() == h,
            forall|j: int| 0 <= j < h ==> #[trigger] counts@[j] == 0,
        decreases 24 - h,
    {
        counts.push(0);
        h = h + 1;
    }
    let mut i: usize = 0;
    while i < timestamps.len()
        invariant
            i <= timestamps@.len(),
            timestamps@.len() <= u32::MAX,
            counts@.len() == 24,
            forall|j: int|
                0 <= j < 24 ==> #[trigger] counts@[j] == count_in_hour(
                    timestamps@.subrange(0, i as int),
                    j,
                ),
        decreases timestamps.len() - i,
    {
        let hour = ((timestamps[i] / NANOS_PER_HOUR) % 24) as usize;
        proof {
            assert(timestamps@.subrange(0, i as int + 1).drop_last() =~= timestamps@.subrange(
                0,
                i as int,
            ));
            lemma_count_bound(timestamps@.subrange(0, i as int), hour as int);
        }
        let c = counts[hour];
        counts.set(hour, c + 1);
        i = i + 1;
    }
    proof {
        assert(timestamps@.subrange(0, timestamps@.len() as int) =~= timestamps@);
    }
    counts
}

/// The sum of `values`.
pub open spec fn total(values: Seq<u64>) -> int
    decreases values.len(),
{
    if values.len() == 0 {
        0
    } else {
        total(values.drop_last()) + values.last()
    }
}

proof fn lemma_total_grows(values: Seq<u64>, n: int)
    requires
        0 <= n <= values.len(),
    ensures
        total(values.subrange(0, n)) <= total(values),
    decreases values.len() - n,
{
    if n < values.len() {
        lemma_total_grows(values, n + 1);
        assert(values.subrange(0, n + 1).drop_last() =~= values.subrange(0, n));
    } else {
        assert(values.subrange(0, n) =~= values);
    }
}

/// The typical memory use of an agent: the mean of `memory`, rounded
/// down.
pub fn typical_memory(memory: &Vec<u64>) -> (m: u64)
    requires
        memory@.len() > 0,
        total(memory@) <= u64::MAX,
    ensures
        m == total(memory@) / (memory@.len() as int),
{
    let mut sum: u64 = 0;
    let mut i: usize = 0;
    while i < memory.len()
        invariant
            i <= memory@.len(),
            total(memory@) <= u64::MAX,
            sum == total(memory@.subrange(0, i as int)),
        decreases memory.len() - i,
    {
        proof {
            assert(memory@.subrange(0, i as int + 1).drop_last() =~= memory@.subrange(0, i as int));
            lemma_total_grows(memory@, i as int + 1);
        }
        sum = sum + memory[i];
        i = i + 1;
    }
    proof {
        assert(memory@.subrange(0, memory@.len() as int) =~= memory@);
    }
    sum / (memory.len() as u64)
}

/// How many of the first ten values rise from the value before.
pub open spec fn rises(memory: Seq<u64>, n: int) -> int
    decreases n,
{
    if n <= 1 {
        0
    } else {
        rises(memory, n - 1) + if memory[n - 1] > memory[n - 2] {
            1int
        } else {
            0int
        }
    }
}

/// The access pattern read from memory use: sequential when, with at
/// least ten snapshots, more than five of the first ten rise from the one
/// before; temporal otherwise.
pub open spec fn access_pattern_of(memory: Seq<u64>) -> AccessPattern {
    if memory.len() >= 10 && rises(memory, 10) > 5 {
        AccessPattern::Sequential
    } else {
        AccessPattern::Temporal
    }
}

/// The access pattern of an agent; see [`access_pattern_of`].
pub fn detect_access_pattern(memory: &Vec<u64>) -> (p: AccessPattern)
    ensures
        p == access_pattern_of(memory@),
{
    if memory.len() < 10 {
        return AccessPattern::Temporal;
    }
    let mut count: u32 = 0;
    let mut i: usize = 1;
    while i < 10
        invariant
            1 <= i <= 10,
            memory@.len() >= 10,
            count == rises(memory@, i as int),
            count < i,
        decreases 10 - i,
    {
        if memory[i] > memory[i - 1] {
            count = count + 1;
        }
        i = i + 1;
    }
    if count > 5 {
        AccessPattern::Sequential
    } else {
        AccessPattern::Temporal
    }
}

/// `history` with `item` added at the end and, past `max` items, the
/// oldest dropped.
pub open spec fn bounded_push<T>(history: Seq<T>, item: T, max: int) -> Seq<T> {
    let h = history.push(item);
    if h.len() > max {
        h.drop_first()
    } else {
        h
    }
}

/// Adds `item` to `history`, dropping the oldest past `max` items.
pub fn push_bounded<T>(history: &mut Vec<T>, item: T, max: usize)
    ensures
        final(history)@ == bounded_push(old(history)@, item, max as int),
{
    history.push(item);
    let ghost pushed = history@;
    if history.len() > max {
        history.remove(0);
        assert(history@ =~= pushed.drop_first());
    }
}

/// A bounded history never grows past its bound, keeps the newest item
/// last, and keeps the items before it in order.
pub proof fn law_bounded_history<T>(history: Seq<T>, item: T, max: int)
    requires
        max > 0,
        history.len() <= max,
    ensures
        bounded_push(history, item, max).len() <= max,
        bounded_push(history, item, max).last() == item,
        history.len() < max ==> bounded_push(history, item, max) == history.push(item),
        history.len() == max ==> bounded_push(history, item, max) == history.drop_first().push(item),
{
    if history.len() == max {
        assert(history.push(item).drop_first() =~= history.drop_first().push(item));
    }
}

} // verus!
