//! The task form: which submitted fields make a valid task, and which error
//! each invalid submission gets.

use vstd::prelude::*;
use crate::clock::{form_datetime_of, instant_near, local_instant, parse_form_datetime, CivilDateTime};
use crate::task::{lemma_kind_texts_distinct, all_times_wf, instant_in_range, Task, TimeOfDay, MAX_INSTANT, MIN_INSTANT};
use crate::text::{all_white, chars_eq, has_prefix, is_blank, parse_usize, starts_with, usize_of};

verus! {

/// Why a submitted task form was refused.
#[derive(Debug, Clone, Copy, PartialEq, Eq, Structural)]
pub enum FormError {
    /// No `name` field.
    MissingName,
    /// No `priority` field, or one that is not on/off/true/false/1/0.
    InvalidPriority,
    /// No `file_name` field.
    MissingFileName,
    /// A scheduled or recurring task with a blank name.
    EmptyName,
    /// A scheduled task whose `time` is missing, malformed, or not a single
    /// local instant.
    InvalidTime,
    /// A scheduled task whose instant is not in the future.
    PastTime,
    /// A recurring task without a readable `recurring-n`.
    MissingCount,
    /// The `time-{i}` fields do not fill the slots from 0 up.
    InvalidTimes,
    /// The number of times differs from `recurring-n`.
    CountMismatch,
    /// A recurring task with no time at all.
    NoTimes,
    /// A `type` other than now, scheduled or recurring.
    InvalidType,
}

/// The value of the last field named `key`, as a form decoded into a map keeps it.
pub open spec fn field(fields: Seq<(String, String)>, key: Seq<char>) -> Option<Seq<char>>
    decreases fields.len(),
{
    if fields.len() == 0 {
        None
    } else if fields.last().0@ == key {
        Some(fields.last().1@)
    } else {
        field(fields.drop_last(), key)
    }
}

fn lookup(fields: &Vec<(String, String)>, key: &str) -> (r: Option<usize>)
    ensures
        r is None <==> field(fields@, key@) is None,
        r matches Some(i) ==> i < fields@.len() && field(fields@, key@) == Some(fields@[i as int].1@),
{
    let mut k = fields.len();
    assert(fields@.subrange(0, k as int) =~= fields@);
    while k > 0
        invariant
            k <= fields@.len(),
            field(fields@, key@) == field(fields@.subrange(0, k as int), key@),
        decreases k,
    {
        let ghost pre = fields@.subrange(0, k as int);
        assert(pre.drop_last() =~= fields@.subrange(0, k - 1));
        assert(pre.last() == fields@[k - 1]);
        if chars_eq(fields[k - 1].0.as_str(), key) {
            return Some(k - 1);
        }
        k = k - 1;
    }
    None
}

pub open spec fn priority_of(s: Seq<char>) -> Option<bool> {
    if s == "false"@ || s == "0"@ || s == "off"@ {
        Some(false)
    } else if s == "true"@ || s == "1"@ || s == "on"@ {
        Some(true)
    } else {
        None
    }
}

fn parse_priority(s: &str) -> (r: Option<bool>)
    ensures
        r == priority_of(s@),
{
    if chars_eq(s, "false") || chars_eq(s, "0") || chars_eq(s, "off") {
        Some(false)
    } else if chars_eq(s, "true") || chars_eq(s, "1") || chars_eq(s, "on") {
        Some(true)
    } else {
        None
    }
}

/// A `time-{i}` field: its slot and the date and time it holds.
pub open spec fn slot_of(p: (String, String)) -> Option<(usize, CivilDateTime)> {
    let k = p.0@;
    if has_prefix(k, "time-"@) {
        match (usize_of(k.subrange(5, k.len() as int)), form_datetime_of(p.1@)) {
            (Some(i), Some(d)) => Some((i, d)),
            _ => None,
        }
    } else {
        None
    }
}

/// What slot `j` holds: the last readable `time-{j}` field.
pub open spec fn slot(fields: Seq<(String, String)>, j: int) -> Option<CivilDateTime>
    decreases fields.len(),
{
    if fields.len() == 0 {
        None
    } else {
        match slot_of(fields.last()) {
            Some((i, d)) if i == j => Some(d),
            _ => slot(fields.drop_last(), j),
        }
    }
}

/// One past the highest filled slot.
pub open spec fn slot_span(fields: Seq<(String, String)>) -> nat
    decreases fields.len(),
{
    if fields.len() == 0 {
        0
    } else {
        let r = slot_span(fields.drop_last());
        match slot_of(fields.last()) {
            Some((i, _)) => if i + 1 > r {
                (i + 1) as nat
            } else {
                r
            },
            None => r,
        }
    }
}

/// Every slot below the span is filled.
pub open spec fn slots_complete(fields: Seq<(String, String)>) -> bool {
    slot_span(fields) <= fields.len() && forall|j: int| 0 <= j < slot_span(fields) ==> (#[trigger] slot(
        fields,
        j,
    )) is Some
}

/// Reads the `time-{i}` fields into their slots: the times of day of slots
/// 0 up to the span, or `None` where a slot below the span is empty.
fn collect_times(fields: &Vec<(String, String)>) -> (r: Option<Vec<TimeOfDay>>)
    ensures
        r is Some <==> slots_complete(fields@),
        r matches Some(v) ==> v@.len() == slot_span(fields@) && all_times_wf(v@) && forall|j: int|
            0 <= j < v@.len() ==> (slot(fields@, j) matches Some(d) && #[trigger] v@[j] == d.time),
{
    let len = fields.len();
    let mut slots: Vec<Option<CivilDateTime>> = Vec::new();
    while slots.len() < len
        invariant
            slots@.len() <= len,
            forall|j: int| 0 <= j < slots@.len() ==> (#[trigger] slots@[j]) is None,
        decreases len - slots@.len(),
    {
        slots.push(None);
    }
    let mut span: usize = 0;
    let mut big = false;
    let mut k: usize = 0;
    while k < len
        invariant
            len == fields@.len(),
            slots@.len() == len,
            k <= len,
            !big ==> span == slot_span(fields@.subrange(0, k as int)) && span <= len,
            big ==> slot_span(fields@.subrange(0, k as int)) > len,
            forall|j: int| 0 <= j < len ==> (#[trigger] slots@[j]) == slot(fields@.subrange(0, k as int), j),
            forall|j: int| 0 <= j < len ==> ((#[trigger] slots@[j]) matches Some(d) ==> d.time.wf()),
        decreases len - k,
    {
        let ghost pre = fields@.subrange(0, k as int);
        let ghost next = fields@.subrange(0, k + 1);
        assert(next.drop_last() =~= pre);
        assert(next.last() == fields@[k as int]);
        let key = fields[k].0.as_str();
        proof {
            reveal_strlit("time-");
        }
        let mut entry: Option<(usize, CivilDateTime)> = None;
        if starts_with(key, "time-") {
            let rest = key.substring_char(5, key.unicode_len());
            match (parse_usize(rest), parse_form_datetime(fields[k].1.as_str())) {
                (Some(i), Some(d)) => {
                    entry = Some((i, d));
                },
                _ => {},
            }
        }
        assert(entry == slot_of(fields@[k as int]));
        match entry {
            Some((i, d)) => {
                if i < len {
                    slots.set(i, Some(d));
                    if !big && i + 1 > span {
                        span = i + 1;
                    }
                } else {
                    big = true;
                }
            },
            None => {},
        }
        k = k + 1;
    }
    assert(fields@.subrange(0, len as int) =~= fields@);
    if big {
        return None;
    }
    let mut out: Vec<TimeOfDay> = Vec::new();
    let mut j: usize = 0;
    while j < span
        invariant
            !big,
            span == slot_span(fields@),
            span <= len == slots@.len() == fields@.len(),
            j <= span,
            out@.len() == j,
            forall|m: int| 0 <= m < len ==> (#[trigger] slots@[m]) == slot(fields@, m),
            forall|m: int| 0 <= m < len ==> ((#[trigger] slots@[m]) matches Some(d) ==> d.time.wf()),
            forall|m: int| 0 <= m < j ==> slot(fields@, m) is Some,
            forall|m: int| 0 <= m < j ==> (slot(fields@, m) matches Some(d) && #[trigger] out@[m] == d.time),
            all_times_wf(out@),
        decreases span - j,
    {
        match slots[j] {
            Some(d) => {
                out.push(d.time);
            },
            None => {
                assert(slot(fields@, j as int) is None);
                return None;
            },
        }
        j = j + 1;
    }
    Some(out)
}

/// The first reason the form is refused, given the current instant and the
/// local instant of its `time` field; `None` where it is accepted.
pub open spec fn form_error(fields: Seq<(String, String)>, now: i64, instant: Option<i64>) -> Option<
    FormError,
> {
    let ty = match field(fields, "type"@) {
        Some(t) => t,
        None => "now"@,
    };
    if field(fields, "name"@) is None {
        Some(FormError::MissingName)
    } else if field(fields, "priority"@) is None || priority_of(field(fields, "priority"@).unwrap())
        is None {
        Some(FormError::InvalidPriority)
    } else if field(fields, "file_name"@) is None {
        Some(FormError::MissingFileName)
    } else if ty == "now"@ {
        None
    } else if ty == "scheduled"@ {
        if all_white(field(fields, "name"@).unwrap()) {
            Some(FormError::EmptyName)
        } else if instant is None || !instant_in_range(instant.unwrap() as int) {
            Some(FormError::InvalidTime)
        } else if instant.unwrap() <= now {
            Some(FormError::PastTime)
        } else {
            None
        }
    } else if ty == "recurring"@ {
        if all_white(field(fields, "name"@).unwrap()) {
            Some(FormError::EmptyName)
        } else if field(fields, "recurring-n"@) is None || usize_of(field(fields, "recurring-n"@).unwrap())
            is None {
            Some(FormError::MissingCount)
        } else if !slots_complete(fields) {
            Some(FormError::InvalidTimes)
        } else if slot_span(fields) != usize_of(field(fields, "recurring-n"@).unwrap()).unwrap() {
            Some(FormError::CountMismatch)
        } else if slot_span(fields) == 0 {
            Some(FormError::NoTimes)
        } else {
            None
        }
    } else {
        Some(FormError::InvalidType)
    }
}

/// The task that an accepted form describes.
pub open spec fn form_task(fields: Seq<(String, String)>, instant: Option<i64>, t: Task) -> bool {
    let ty = match field(fields, "type"@) {
        Some(t) => t,
        None => "now"@,
    };
    &&& Some(t.name_view()) == field(fields, "name"@)
    &&& Some(t.file_name_view()) == field(fields, "file_name"@)
    &&& Some(t.priority_view()) == priority_of(field(fields, "priority"@).unwrap())
    &&& (ty == "now"@ ==> t is Now)
    &&& (ty == "scheduled"@ ==> (t matches Task::Scheduled { time, .. } && instant == Some(time)))
    &&& (ty == "recurring"@ ==> (t matches Task::Recurring { time, .. } && time@.len() == slot_span(
        fields,
    ) && forall|j: int|
        0 <= j < time@.len() ==> (slot(fields, j) matches Some(d) && #[trigger] time@[j] == d.time)))
}

/// Builds the task that a submitted form describes, where `instant` is the
/// local instant of its `time` field.
pub fn task_from_form_at(fields: &Vec<(String, String)>, now: i64, instant: Option<i64>) -> (r: Result<
    Task,
    FormError,
>)
    ensures
        r is Err <==> form_error(fields@, now, instant) is Some,
        r matches Err(e) ==> form_error(fields@, now, instant) == Some(e),
        r matches Ok(t) ==> t.wf() && form_task(fields@, instant, t),
{
    proof {
        lemma_kind_texts_distinct();
    }
    let name = match lookup(fields, "name") {
        Some(i) => &fields[i].1,
        None => {
            return Err(FormError::MissingName);
        },
    };
    let priority = match lookup(fields, "priority") {
        Some(i) => match parse_priority(fields[i].1.as_str()) {
            Some(p) => p,
            None => {
                return Err(FormError::InvalidPriority);
            },
        },
        None => {
            return Err(FormError::InvalidPriority);
        },
    };
    let file_name = match lookup(fields, "file_name") {
        Some(i) => &fields[i].1,
        None => {
            return Err(FormError::MissingFileName);
        },
    };
    let ty: &str = match lookup(fields, "type") {
        Some(i) => fields[i].1.as_str(),
        None => "now",
    };
    if chars_eq(ty, "now") {
        Ok(Task::Now { name: name.clone(), priority, file_name: file_name.clone() })
    } else if chars_eq(ty, "scheduled") {
        if is_blank(name.as_str()) {
            return Err(FormError::EmptyName);
        }
        let time = match instant {
            Some(t) => t,
            None => {
                return Err(FormError::InvalidTime);
            },
        };
        if time < MIN_INSTANT || time > MAX_INSTANT {
            return Err(FormError::InvalidTime);
        }
        if time <= now {
            return Err(FormError::PastTime);
        }
        Ok(Task::Scheduled { name: name.clone(), file_name: file_name.clone(), priority, time })
    } else if chars_eq(ty, "recurring") {
        if is_blank(name.as_str()) {
            return Err(FormError::EmptyName);
        }
        let n = match lookup(fields, "recurring-n") {
            Some(i) => match parse_usize(fields[i].1.as_str()) {
                Some(n) => n,
                None => {
                    return Err(FormError::MissingCount);
                },
            },
            None => {
                return Err(FormError::MissingCount);
            },
        };
        let times = match collect_times(fields) {
            Some(v) => v,
            None => {
                return Err(FormError::InvalidTimes);
            },
        };
        if times.len() != n {
            return Err(FormError::CountMismatch);
        }
        if n == 0 {
            return Err(FormError::NoTimes);
        }
        Ok(Task::Recurring { name: name.clone(), file_name: file_name.clone(), priority, time: times })
    } else {
        Err(FormError::InvalidType)
    }
}

/// `instant` is what the local clock made of the form's `time` field: nothing
/// unless the field reads as a date and time, and then an instant less than a
/// day off that date and time read as UTC.
pub open spec fn resolved_time(fields: Seq<(String, String)>, instant: Option<i64>) -> bool {
    instant matches Some(x) ==> (field(fields, "time"@) matches Some(s) && form_datetime_of(s) matches Some(
        dt,
    ) && instant_near(x as int, dt))
}

/// Builds the task that a submitted form describes at `now`. A scheduled
/// task's `time` is read as `%Y-%m-%dT%H:%M` on the local clock; a wall-clock
/// time that the local zone skips or repeats, or one outside the years 0 to
/// 9999, is refused.
pub fn task_from_form(fields: &Vec<(String, String)>, now: i64) -> (r: Result<Task, FormError>)
    ensures
        exists|instant: Option<i64>|
            {
                &&& #[trigger] resolved_time(fields@, instant)
                &&& (r is Err <==> form_error(fields@, now, instant) is Some)
                &&& (r matches Err(e) ==> form_error(fields@, now, instant) == Some(e))
                &&& (r matches Ok(t) ==> t.wf() && form_task(fields@, instant, t))
            },
{
    let instant = match lookup(fields, "time") {
        Some(i) => match parse_form_datetime(fields[i].1.as_str()) {
            Some(d) => if 0 <= d.date.year && d.date.year <= 9999 {
                local_instant(d)
            } else {
                None
            },
            None => None,
        },
        None => None,
    };
    assert(resolved_time(fields@, instant));
    task_from_form_at(fields, now, instant)
}

/// A scheduled task whose time is the current instant is refused as past,
/// whatever else the form holds, once its name, priority and file name pass.
pub proof fn lemma_time_now_is_past(fields: Seq<(String, String)>, now: i64)
    requires
        field(fields, "type"@) == Some("scheduled"@),
        field(fields, "name"@) matches Some(n) && !all_white(n),
        field(fields, "priority"@) matches Some(p) && priority_of(p) is Some,
        field(fields, "file_name"@) is Some,
        instant_in_range(now as int),
    ensures
        form_error(fields, now, Some(now)) == Some(FormError::PastTime),
{
    lemma_kind_texts_distinct();
}

} // verus!
