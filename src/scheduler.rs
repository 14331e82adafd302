//! The scheduler's decisions: when a recurring task fires next, whether a
//! one-shot task can still be scheduled, what a timer does on each event, and
//! which persisted tasks the startup loader schedules again.

use vstd::prelude::*;
use crate::clock::{date_near, instant_near, local_date_of, local_instant, CivilDate, CivilDateTime};
use crate::task::{instant_in_range, Task, TaskKind, TimeOfDay, MAX_INSTANT, MIN_INSTANT};

verus! {

/// Seconds in a day.
pub const DAY_SECONDS: i64 = 86400;

/// For one time of day: the instant at which the local clock shows it today
/// and tomorrow, where that instant is unique.
#[derive(Debug, Clone, Copy, PartialEq, Eq, Structural)]
pub struct FireCandidate {
    pub today: Option<i64>,
    pub tomorrow: Option<i64>,
}

/// Today's instant if it is still ahead, else tomorrow's if that is ahead.
pub open spec fn candidate_instant(c: FireCandidate, now: i64) -> Option<i64> {
    match c.today {
        Some(t) if t > now => Some(t),
        _ => match c.tomorrow {
            Some(u) if u > now => Some(u),
            _ => None,
        },
    }
}

/// `r` is the earliest of the candidates' instants with the index of its time,
/// the first one on a tie, or `None` where no candidate has an instant.
pub open spec fn is_next_fire(now: i64, cands: Seq<FireCandidate>, r: Option<(usize, i64)>) -> bool {
    match r {
        None => forall|j: int| 0 <= j < cands.len() ==> candidate_instant(#[trigger] cands[j], now) is None,
        Some((i, t)) => {
            &&& i < cands.len()
            &&& candidate_instant(cands[i as int], now) == Some(t)
            &&& forall|j: int|
                0 <= j < cands.len() ==> match candidate_instant(#[trigger] cands[j], now) {
                    Some(u) => t <= u && (j < i ==> t < u),
                    None => true,
                }
        },
    }
}

/// Picks the next firing among the candidates of a recurring task's times.
pub fn pick_next_fire(now: i64, cands: &Vec<FireCandidate>) -> (r: Option<(usize, i64)>)
    ensures
        is_next_fire(now, cands@, r),
{
    let mut best: Option<(usize, i64)> = None;
    let mut k: usize = 0;
    while k < cands.len()
        invariant
            k <= cands@.len(),
            is_next_fire(now, cands@.subrange(0, k as int), best),
        decreases cands@.len() - k,
    {
        let c = cands[k];
        let inst: Option<i64> = match c.today {
            Some(t) if t > now => Some(t),
            _ => match c.tomorrow {
                Some(u) if u > now => Some(u),
                _ => None,
            },
        };
        assert(inst == candidate_instant(cands@[k as int], now));
        let ghost old_best = best;
        match inst {
            Some(u) => {
                match best {
                    Some((_, t)) => {
                        if u < t {
                            best = Some((k, u));
                        }
                    },
                    None => {
                        best = Some((k, u));
                    },
                }
            },
            None => {},
        }
        assert forall|j: int| 0 <= j < k + 1 implies #[trigger] cands@.subrange(0, k + 1)[j]
            == cands@[j] by {}
        assert forall|j: int| 0 <= j < k implies #[trigger] cands@.subrange(0, k as int)[j]
            == cands@[j] by {}
        k = k + 1;
    }
    assert(cands@.subrange(0, cands@.len() as int) =~= cands@);
    best
}

/// `x` is an instant at which a clock less than a day off UTC shows `tod` on
/// the date such a clock shows at instant `at`.
pub open spec fn shows_at(x: i64, at: int, tod: TimeOfDay) -> bool {
    exists|d: CivilDate| #[trigger] date_near(d, at) && instant_near(x as int, CivilDateTime { date: d, time: tod })
}

/// A candidate's instants are those of `tod` on the local dates of `now` and
/// of a day later.
pub open spec fn candidate_fits(c: FireCandidate, now: i64, tod: TimeOfDay) -> bool {
    &&& (c.today matches Some(x) ==> shows_at(x, now as int, tod))
    &&& (c.tomorrow matches Some(x) ==> shows_at(x, now + DAY_SECONDS, tod))
}

/// The next firing of a recurring task: for each of its times, the instants
/// at which the local clock shows it today and tomorrow are looked up, and the
/// earliest one still ahead wins. A time that falls into a daylight-saving gap
/// has no instant that day. Instants outside the years 0 to 9999, and a day
/// after them, have no firing.
pub fn next_fire(times: &Vec<TimeOfDay>, now: i64) -> (r: Option<(usize, i64)>)
    ensures
        exists|c: Seq<FireCandidate>|
            {
                &&& c.len() == times@.len()
                &&& forall|k: int| 0 <= k < c.len() ==> candidate_fits(#[trigger] c[k], now, times@[k])
                &&& is_next_fire(now, c, r)
            },
        r matches Some((i, t)) ==> i < times@.len() && t > now && (shows_at(t, now as int, times@[i as int])
            || shows_at(t, now + DAY_SECONDS, times@[i as int])),
        !(instant_in_range(now as int) && instant_in_range(now + DAY_SECONDS)) ==> r is None,
{
    if now < MIN_INSTANT || now > MAX_INSTANT - DAY_SECONDS {
        let ghost c = Seq::<FireCandidate>::empty().add(Seq::new(times@.len(), |k: int| FireCandidate { today: None, tomorrow: None }));
        assert(forall|k: int| 0 <= k < c.len() ==> candidate_fits(#[trigger] c[k], now, times@[k]));
        assert(is_next_fire(now, c, None));
        return None;
    }
    let today = local_date_of(now);
    let tomorrow = local_date_of(now + DAY_SECONDS);
    let mut cands: Vec<FireCandidate> = Vec::new();
    let mut k: usize = 0;
    while k < times.len()
        invariant
            k <= times@.len(),
            cands@.len() == k,
            today matches Some(d) ==> date_near(d, now as int),
            tomorrow matches Some(d) ==> date_near(d, now + DAY_SECONDS),
            forall|j: int| 0 <= j < k ==> candidate_fits(#[trigger] cands@[j], now, times@[j]),
        decreases times@.len() - k,
    {
        let t = times[k];
        let at_today = match today {
            Some(d) => if 0 <= d.year && d.year <= 9999 {
                let x = local_instant(CivilDateTime::on(d, t));
                proof {
                    if let Some(i) = x {
                        assert(date_near(d, now as int));
                        assert(shows_at(i, now as int, t));
                    }
                }
                x
            } else {
                None
            },
            None => None,
        };
        let at_tomorrow = match tomorrow {
            Some(d) => if 0 <= d.year && d.year <= 9999 {
                let x = local_instant(CivilDateTime::on(d, t));
                proof {
                    if let Some(i) = x {
                        assert(date_near(d, now + DAY_SECONDS));
                        assert(shows_at(i, now + DAY_SECONDS, t));
                    }
                }
                x
            } else {
                None
            },
            None => None,
        };
        cands.push(FireCandidate { today: at_today, tomorrow: at_tomorrow });
        assert(candidate_fits(cands@[k as int], now, times@[k as int]));
        k = k + 1;
    }
    let r = pick_next_fire(now, &cands);
    assert(is_next_fire(now, cands@, r));
    proof {
        if let Some((i, t)) = r {
            assert(candidate_fits(cands@[i as int], now, times@[i as int]));
            assert(candidate_instant(cands@[i as int], now) == Some(t));
        }
    }
    r
}

/// Seconds to sleep until `target`; none where it has already passed.
pub fn sleep_seconds(target: i64, now: i64) -> (r: u64)
    ensures
        r as int == if target > now { target - now } else { 0 },
{
    if target > now {
        ((target as i128) - (now as i128)) as u64
    } else {
        0
    }
}

/// How far a timer woke from the instant it aimed at, in seconds.
pub fn drift_seconds(expected: i64, woke: i64) -> (r: u64)
    ensures
        r as int == if woke >= expected { woke - expected } else { expected - woke },
{
    if woke >= expected {
        ((woke as i128) - (expected as i128)) as u64
    } else {
        ((expected as i128) - (woke as i128)) as u64
    }
}

/// Why a task could not be scheduled.
#[derive(Debug, Clone, Copy, PartialEq, Eq, Structural)]
pub enum ScheduleError {
    /// A one-shot task's instant has already passed.
    Past,
}

/// A one-shot task due at `time` may be scheduled at `now` unless its instant
/// lies before `now`; the result is the time left to wait, in seconds.
pub fn check_schedulable(time: i64, now: i64) -> (r: Result<u64, ScheduleError>)
    ensures
        r is Err <==> time < now,
        r matches Ok(d) ==> d as int == time - now,
        r matches Err(e) ==> e == ScheduleError::Past,
{
    if time < now {
        Err(ScheduleError::Past)
    } else {
        Ok(sleep_seconds(time, now))
    }
}

/// What the startup loader does with a persisted task.
#[derive(Debug, Clone, Copy, PartialEq, Eq, Structural)]
pub enum RecoveryAction {
    /// The task's one firing was missed: its row is deleted and no timer starts.
    Delete,
    /// A timer is started for the task.
    Schedule,
}

/// A one-shot task whose instant passed while the process was down is missed.
pub open spec fn recovery_of(task: Task, now: i64) -> RecoveryAction {
    match task {
        Task::Scheduled { time, .. } if time < now => RecoveryAction::Delete,
        _ => RecoveryAction::Schedule,
    }
}

pub fn recovery_action(task: &Task, now: i64) -> (r: RecoveryAction)
    ensures
        r == recovery_of(*task, now),
{
    match task {
        Task::Scheduled { time, .. } => {
            if *time < now {
                RecoveryAction::Delete
            } else {
                RecoveryAction::Schedule
            }
        },
        _ => RecoveryAction::Schedule,
    }
}

/// The loader's decision for each persisted task, in order.
pub fn plan_recovery(tasks: &Vec<Task>, now: i64) -> (r: Vec<RecoveryAction>)
    ensures
        r@.len() == tasks@.len(),
        forall|i: int| 0 <= i < tasks@.len() ==> r@[i] == recovery_of(#[trigger] tasks@[i], now),
{
    let mut out: Vec<RecoveryAction> = Vec::new();
    let mut k: usize = 0;
    while k < tasks.len()
        invariant
            k <= tasks@.len(),
            out@.len() == k,
            forall|i: int| 0 <= i < k ==> out@[i] == recovery_of(#[trigger] tasks@[i], now),
        decreases tasks@.len() - k,
    {
        out.push(recovery_action(&tasks[k], now));
        k = k + 1;
    }
    out
}

/// How many of the planned tasks were scheduled: those planned for a timer
/// whose scheduling succeeded.
pub open spec fn scheduled_count(plan: Seq<RecoveryAction>, ok: Seq<bool>) -> nat
    decreases plan.len(),
{
    if plan.len() == 0 || ok.len() == 0 {
        0
    } else {
        scheduled_count(plan.drop_last(), ok.drop_last()) + if plan.last()
            == RecoveryAction::Schedule && ok.last() {
            1nat
        } else {
            0nat
        }
    }
}

/// The loader's result: the number of tasks that were scheduled again.
pub fn recovered_count(plan: &Vec<RecoveryAction>, ok: &Vec<bool>) -> (r: usize)
    requires
        plan@.len() == ok@.len(),
    ensures
        r == scheduled_count(plan@, ok@),
{
    let mut n: usize = 0;
    let mut k: usize = 0;
    while k < plan.len()
        invariant
            k <= plan@.len() == ok@.len(),
            n == scheduled_count(plan@.subrange(0, k as int), ok@.subrange(0, k as int)),
            n <= k,
        decreases plan@.len() - k,
    {
        assert(plan@.subrange(0, k + 1).drop_last() =~= plan@.subrange(0, k as int));
        assert(ok@.subrange(0, k + 1).drop_last() =~= ok@.subrange(0, k as int));
        if plan[k] == RecoveryAction::Schedule && ok[k] {
            n = n + 1;
        }
        k = k + 1;
    }
    assert(plan@.subrange(0, k as int) =~= plan@);
    assert(ok@.subrange(0, k as int) =~= ok@);
    n
}

/// The next firing lies strictly ahead and is the instant of one of the
/// task's times, today or tomorrow, wherever at least one time has an
/// instant ahead today or tomorrow.
pub proof fn lemma_next_fire_ahead(now: i64, cands: Seq<FireCandidate>, r: Option<(usize, i64)>)
    requires
        is_next_fire(now, cands, r),
        exists|j: int| 0 <= j < cands.len() && (#[trigger] candidate_instant(cands[j], now)) is Some,
    ensures
        r matches Some((i, t)) && t > now && i < cands.len() && (cands[i as int].today == Some(t)
            || cands[i as int].tomorrow == Some(t)),
{
    let j = choose|j: int| 0 <= j < cands.len() && (#[trigger] candidate_instant(cands[j], now)) is Some;
    if let Some((i, t)) = r {
        let c = cands[i as int];
        assert(candidate_instant(c, now) == Some(t));
    }
}

/// A one-shot task found at startup with its instant already passed is
/// deleted, and no timer is started for it.
pub proof fn lemma_missed_task_deleted(task: Task, now: i64)
    requires
        task matches Task::Scheduled { time, .. } && time < now,
    ensures
        recovery_of(task, now) == RecoveryAction::Delete,
{
}

/// Where every persisted task is a missed one-shot task, the loader schedules
/// none of them, whatever the scheduling outcomes.
pub proof fn lemma_missed_tasks_count_zero(tasks: Seq<Task>, now: i64, ok: Seq<bool>)
    requires
        forall|i: int|
            0 <= i < tasks.len() ==> ((#[trigger] tasks[i]) matches Task::Scheduled { time, .. }
                && time < now),
    ensures
        scheduled_count(tasks.map_values(|t: Task| recovery_of(t, now)), ok) == 0,
    decreases tasks.len(),
{
    let plan = tasks.map_values(|t: Task| recovery_of(t, now));
    if tasks.len() > 0 && ok.len() > 0 {
        lemma_missed_tasks_count_zero(tasks.drop_last(), now, ok.drop_last());
        assert(tasks.drop_last().map_values(|t: Task| recovery_of(t, now)) =~= plan.drop_last());
        assert(tasks[tasks.len() - 1] == tasks.last());
    }
}

/// Whether a timer fires once or every day.
#[derive(Debug, Clone, Copy, PartialEq, Eq, Structural)]
pub enum Repeat {
    Once,
    Daily,
}

/// Where a task's timer stands.
#[derive(Debug, Clone, Copy, PartialEq, Eq, Structural)]
pub enum TimerState {
    /// Sleeping until the next firing, or until a cancel arrives.
    Waiting,
    /// The clip has been handed to the player.
    Firing,
    /// The timer has ended.
    Done,
}

/// What wakes a timer.
#[derive(Debug, Clone, Copy, PartialEq, Eq, Structural)]
pub enum TimerEvent {
    /// A cancel arrived; it wins over an elapsed sleep.
    Cancelled,
    /// The sleep ran out.
    Elapsed,
    /// The player answered.
    Played { ok: bool },
}

/// What the timer asks its runner to do, in order.
#[derive(Debug, Clone, Copy, PartialEq, Eq, Structural)]
pub enum TimerAction {
    /// Play the task's file.
    Play,
    /// Count a successful play.
    RecordSuccess,
    /// Count a failed play.
    RecordFailure,
    /// Tell the mail collaborator that the task was played.
    SendMail,
    /// Delete the task's row from the store.
    DeleteRow,
    /// Drop the task's entry from the cancel registry.
    RemoveCancel,
    /// Lower the gauge of active timers.
    DecrementGauge,
    /// Compute the next firing and sleep until it.
    Sleep,
}

pub open spec fn step_state(repeat: Repeat, state: TimerState, ev: TimerEvent) -> TimerState {
    match (state, ev) {
        (TimerState::Waiting, TimerEvent::Cancelled) => TimerState::Done,
        (TimerState::Waiting, TimerEvent::Elapsed) => TimerState::Firing,
        (TimerState::Firing, TimerEvent::Played { .. }) => if repeat == Repeat::Once {
            TimerState::Done
        } else {
            TimerState::Waiting
        },
        _ => state,
    }
}

pub open spec fn record_of(ok: bool) -> TimerAction {
    if ok {
        TimerAction::RecordSuccess
    } else {
        TimerAction::RecordFailure
    }
}

/// A cancel ends the timer; an elapsed sleep plays; after the play a one-shot
/// timer mails on success, then deletes its row and registry entry whatever
/// the outcome, while a daily timer goes back to sleep. Events that do not fit
/// the state change nothing.
pub open spec fn step_actions(repeat: Repeat, state: TimerState, ev: TimerEvent) -> Seq<TimerAction> {
    match (state, ev) {
        (TimerState::Waiting, TimerEvent::Cancelled) => seq![TimerAction::DecrementGauge],
        (TimerState::Waiting, TimerEvent::Elapsed) => seq![TimerAction::Play],
        (TimerState::Firing, TimerEvent::Played { ok }) => if repeat == Repeat::Once {
            if ok {
                seq![
                    TimerAction::RecordSuccess,
                    TimerAction::SendMail,
                    TimerAction::DeleteRow,
                    TimerAction::RemoveCancel,
                    TimerAction::DecrementGauge,
                ]
            } else {
                seq![
                    TimerAction::RecordFailure,
                    TimerAction::DeleteRow,
                    TimerAction::RemoveCancel,
                    TimerAction::DecrementGauge,
                ]
            }
        } else {
            seq![record_of(ok), TimerAction::Sleep]
        },
        _ => seq![],
    }
}

/// The timer of one scheduled or recurring task.
#[derive(Debug, Clone, Copy, PartialEq, Eq, Structural)]
pub struct Timer {
    pub repeat: Repeat,
    pub state: TimerState,
}

impl Timer {
    /// A timer for a task of the given kind, waiting for its first firing.
    pub fn for_kind(kind: TaskKind) -> (r: Option<Timer>)
        ensures
            r is None <==> kind == TaskKind::Now,
            r matches Some(t) ==> t.state == TimerState::Waiting && (t.repeat == Repeat::Once
                <==> kind == TaskKind::Scheduled),
    {
        match kind {
            TaskKind::Now => None,
            TaskKind::Scheduled => Some(Timer { repeat: Repeat::Once, state: TimerState::Waiting }),
            TaskKind::Recurring => Some(Timer { repeat: Repeat::Daily, state: TimerState::Waiting }),
        }
    }

    pub fn step(&mut self, ev: TimerEvent) -> (r: Vec<TimerAction>)
        ensures
            final(self).repeat == old(self).repeat,
            final(self).state == step_state(old(self).repeat, old(self).state, ev),
            r@ == step_actions(old(self).repeat, old(self).state, ev),
    {
        let mut out: Vec<TimerAction> = Vec::new();
        match (self.state, ev) {
            (TimerState::Waiting, TimerEvent::Cancelled) => {
                self.state = TimerState::Done;
                out.push(TimerAction::DecrementGauge);
            },
            (TimerState::Waiting, TimerEvent::Elapsed) => {
                self.state = TimerState::Firing;
                out.push(TimerAction::Play);
            },
            (TimerState::Firing, TimerEvent::Played { ok }) => {
                out.push(if ok { TimerAction::RecordSuccess } else { TimerAction::RecordFailure });
                match self.repeat {
                    Repeat::Once => {
                        self.state = TimerState::Done;
                        if ok {
                            out.push(TimerAction::SendMail);
                        }
                        out.push(TimerAction::DeleteRow);
                        out.push(TimerAction::RemoveCancel);
                        out.push(TimerAction::DecrementGauge);
                    },
                    Repeat::Daily => {
                        self.state = TimerState::Waiting;
                        out.push(TimerAction::Sleep);
                    },
                }
            },
            _ => {},
        }
        proof {
            let a = step_actions(old(self).repeat, old(self).state, ev);
            assert(out@ =~= a);
        }
        out
    }
}

} // verus!
