//! How the task list shows time: a rough Hungarian phrase for how far away a
//! firing is, and how soon the list should be fetched again.

use vstd::prelude::*;
use crate::clock::digit_char;
use crate::task::{all_times_wf, Task};

verus! {

/// A number in decimal, without leading zeros.
pub open spec fn decimal(n: nat) -> Seq<char>
    decreases n,
{
    if n < 10 {
        seq![digit_char(n as int)]
    } else {
        decimal(n / 10) + seq![digit_char((n % 10) as int)]
    }
}

fn digit_str(d: u32) -> (r: &'static str)
    requires
        d < 10,
    ensures
        r@ == seq![digit_char(d as int)],
{
    proof {
        reveal_strlit("0");
        reveal_strlit("1");
        reveal_strlit("2");
        reveal_strlit("3");
        reveal_strlit("4");
        reveal_strlit("5");
        reveal_strlit("6");
        reveal_strlit("7");
        reveal_strlit("8");
        reveal_strlit("9");
    }
    let r = match d {
        0 => "0",
        1 => "1",
        2 => "2",
        3 => "3",
        4 => "4",
        5 => "5",
        6 => "6",
        7 => "7",
        8 => "8",
        _ => "9",
    };
    assert(r@ =~= seq![digit_char(d as int)]);
    r
}

/// Appends `n` in decimal.
pub fn push_decimal(out: &mut String, n: u32)
    ensures
        final(out)@ == old(out)@ + decimal(n as nat),
    decreases n,
{
    if n >= 10 {
        push_decimal(out, n / 10);
    }
    out.append(digit_str(n % 10));
    assert(final(out)@ =~= old(out)@ + decimal(n as nat));
}

/// Seconds in each unit: second, minute, hour, day, week, month, year.
pub open spec fn unit_seconds(i: int) -> u32 {
    if i == 0 {
        1
    } else if i == 1 {
        60
    } else if i == 2 {
        3600
    } else if i == 3 {
        86400
    } else if i == 4 {
        604800
    } else if i == 5 {
        2592000
    } else {
        31536000
    }
}

/// The unit a span of `s` seconds is told in: the first whose next unit is
/// not exceeded (a span of exactly 60 seconds is still told in seconds).
pub open spec fn unit_of(s: u32) -> int {
    if s <= 60 {
        0
    } else if s <= 3600 {
        1
    } else if s <= 86400 {
        2
    } else if s <= 604800 {
        3
    } else if s <= 2592000 {
        4
    } else if s <= 31536000 {
        5
    } else {
        6
    }
}

pub open spec fn future_word(i: int) -> Seq<char> {
    if i == 0 {
        "másodperc múlva"@
    } else if i == 1 {
        "perc múlva"@
    } else if i == 2 {
        "óra múlva"@
    } else if i == 3 {
        "nap múlva"@
    } else if i == 4 {
        "hét múlva"@
    } else if i == 5 {
        "hónap múlva"@
    } else {
        "év múlva"@
    }
}

pub open spec fn past_word(i: int) -> Seq<char> {
    if i == 0 {
        "másodperce"@
    } else if i == 1 {
        "perce"@
    } else if i == 2 {
        "órája"@
    } else if i == 3 {
        "napja"@
    } else if i == 4 {
        "hete"@
    } else if i == 5 {
        "hónapja"@
    } else {
        "éve"@
    }
}

/// The size of a span in whole seconds, capped at `u32::MAX`.
pub open spec fn magnitude(secs: i64) -> u32 {
    let a: int = if secs < 0 { -secs } else { secs as int };
    if a > u32::MAX { u32::MAX } else { a as u32 }
}

fn unit_index(s: u32) -> (r: usize)
    ensures
        r as int == unit_of(s),
{
    if s <= 60 {
        0
    } else if s <= 3600 {
        1
    } else if s <= 86400 {
        2
    } else if s <= 604800 {
        3
    } else if s <= 2592000 {
        4
    } else if s <= 31536000 {
        5
    } else {
        6
    }
}

fn unit_secs(i: usize) -> (r: u32)
    ensures
        r == unit_seconds(i as int),
        r > 0,
{
    if i == 0 {
        1
    } else if i == 1 {
        60
    } else if i == 2 {
        3600
    } else if i == 3 {
        86400
    } else if i == 4 {
        604800
    } else if i == 5 {
        2592000
    } else {
        31536000
    }
}

fn unit_word(i: usize, future: bool) -> (r: &'static str)
    ensures
        r@ == if future { future_word(i as int) } else { past_word(i as int) },
{
    if future {
        if i == 0 { "másodperc múlva" } else if i == 1 { "perc múlva" } else if i == 2 { "óra múlva" }
        else if i == 3 { "nap múlva" } else if i == 4 { "hét múlva" } else if i == 5 { "hónap múlva" }
        else { "év múlva" }
    } else {
        if i == 0 { "másodperce" } else if i == 1 { "perce" } else if i == 2 { "órája" }
        else if i == 3 { "napja" } else if i == 4 { "hete" } else if i == 5 { "hónapja" }
        else { "éve" }
    }
}

/// `r` tells a span of `secs` seconds: see `dur_human`.
pub open spec fn is_human(secs: i64, r: (String, u32)) -> bool {
    &&& secs == 0 ==> r.0@ == "most"@ && r.1 == 1
    &&& secs != 0 ==> {
        let s = magnitude(secs);
        let i = unit_of(s);
        &&& r.1 == unit_seconds(i)
        &&& r.0@ == decimal((s / unit_seconds(i)) as nat) + seq![' '] + if secs > 0 {
            future_word(i)
        } else {
            past_word(i)
        }
    }
}

/// A span of `secs` seconds told in its largest fitting unit (ahead for a
/// positive span, past for a negative one), with the unit's length in
/// seconds, the interval at which the phrase can change. A zero span is
/// "most" (now), to be refreshed in a second.
pub fn dur_human(secs: i64) -> (r: (String, u32))
    ensures
        is_human(secs, r),
{
    if secs == 0 {
        proof {
            reveal_strlit("most");
        }
        return (String::from_str("most"), 1);
    }
    let a: u64 = if secs < 0 { ((0i128 - secs as i128) as u64) } else { secs as u64 };
    let s: u32 = if a > 0xffff_ffff { 0xffff_ffff } else { a as u32 };
    let i = unit_index(s);
    let div = unit_secs(i);
    let mut out = String::new();
    push_decimal(&mut out, s / div);
    out.append(" ");
    out.append(unit_word(i, secs > 0));
    proof {
        reveal_strlit(" ");
        assert(out@ =~= decimal((s / div) as nat) + seq![' '] + if secs > 0 {
            future_word(i as int)
        } else {
            past_word(i as int)
        });
    }
    (out, div)
}

/// Seconds from the time of day `now_of_day` until the next time the clock
/// shows `t_of_day`, within a day.
pub open spec fn until_time_of_day(t_of_day: int, now_of_day: int) -> int {
    if t_of_day - now_of_day < 0 {
        t_of_day - now_of_day + 86400
    } else {
        t_of_day - now_of_day
    }
}

/// The span shown for a task: none for an immediate task, the time to its
/// instant for a scheduled one, and for a recurring one the shortest wait
/// until one of its times comes round on the clock.
pub open spec fn shown_span(task: Task, now: i64, now_of_day: int) -> int {
    match task {
        Task::Now { .. } => 0,
        Task::Scheduled { time, .. } => time - now,
        Task::Recurring { time, .. } => min_until(time@, now_of_day),
    }
}

pub open spec fn min_until(ts: Seq<crate::task::TimeOfDay>, now_of_day: int) -> int
    decreases ts.len(),
{
    if ts.len() <= 1 {
        if ts.len() == 0 { 0 } else { until_time_of_day(ts[0].seconds(), now_of_day) }
    } else {
        let r = min_until(ts.drop_last(), now_of_day);
        let u = until_time_of_day(ts.last().seconds(), now_of_day);
        if u < r { u } else { r }
    }
}

/// The phrase for how far away a task's next firing is, and when to refresh
/// it; `now_of_day` is the local time of day of `now`, in seconds.
pub fn task_elapsed(task: &Task, now: i64, now_of_day: u32) -> (r: (String, u32))
    requires
        task.wf(),
        now_of_day < 86400,
        -0x7fff_ffff_ffff_ffff <= shown_span(*task, now, now_of_day as int) <= 0x7fff_ffff_ffff_ffff,
    ensures
        task is Now ==> r.0@.len() == 0 && r.1 == 0,
        !(task is Now) ==> is_human(shown_span(*task, now, now_of_day as int) as i64, r),
{
    match task {
        Task::Now { .. } => (String::new(), 0),
        Task::Scheduled { time, .. } => dur_human(*time - now),
        Task::Recurring { time, .. } => {
            let mut best: i64 = 0;
            let mut k: usize = 0;
            while k < time.len()
                invariant
                    k <= time@.len(),
                    all_times_wf(time@),
                    now_of_day < 86400,
                    k > 0 ==> best == min_until(time@.subrange(0, k as int), now_of_day as int),
                    -86400 < best < 86400,
                decreases time@.len() - k,
            {
                let t = time[k].seconds_from_midnight() as i64;
                let mut u = t - now_of_day as i64;
                if u < 0 {
                    u = u + 86400;
                }
                assert(time@.subrange(0, k + 1).drop_last() =~= time@.subrange(0, k as int));
                if k == 0 || u < best {
                    best = u;
                }
                k = k + 1;
            }
            assert(time@.subrange(0, k as int) =~= time@);
            dur_human(best)
        },
    }
}

/// The smallest positive refresh interval, or 0 where none is positive.
pub open spec fn min_positive(v: Seq<u32>) -> u32
    decreases v.len(),
{
    if v.len() == 0 {
        0
    } else {
        let r = min_positive(v.drop_last());
        let x = v.last();
        if x > 0 && (r == 0 || x < r) {
            x
        } else {
            r
        }
    }
}

/// How often the task list refreshes itself: as often as its fastest-changing
/// entry needs, or never where no entry changes.
pub fn refresh_interval(intervals: &Vec<u32>) -> (r: u32)
    ensures
        r == min_positive(intervals@),
        r == 0 <==> forall|i: int| 0 <= i < intervals@.len() ==> #[trigger] intervals@[i] == 0,
        forall|i: int| 0 <= i < intervals@.len() && #[trigger] intervals@[i] > 0 ==> r <= intervals@[i],
{
    let mut best: u32 = 0;
    let mut k: usize = 0;
    while k < intervals.len()
        invariant
            k <= intervals@.len(),
            best == min_positive(intervals@.subrange(0, k as int)),
            best == 0 <==> forall|i: int| 0 <= i < k ==> #[trigger] intervals@[i] == 0,
            forall|i: int| 0 <= i < k && #[trigger] intervals@[i] > 0 ==> best <= intervals@[i],
        decreases intervals@.len() - k,
    {
        assert(intervals@.subrange(0, k + 1).drop_last() =~= intervals@.subrange(0, k as int));
        let x = intervals[k];
        if x > 0 && (best == 0 || x < best) {
            best = x;
        }
        k = k + 1;
    }
    assert(intervals@.subrange(0, k as int) =~= intervals@);
    best
}

} // verus!
