use csengo::scheduler::{
    check_schedulable, drift_seconds, next_fire, pick_next_fire, plan_recovery, recovered_count,
    recovery_action, sleep_seconds, FireCandidate, RecoveryAction, ScheduleError, Timer,
    TimerAction, TimerEvent, TimerState, Repeat,
};
use csengo::task::{Task, TaskKind, TimeOfDay};

const NOW: i64 = 1_700_000_000;

fn cand(today: Option<i64>, tomorrow: Option<i64>) -> FireCandidate {
    FireCandidate { today, tomorrow }
}

fn scheduled(name: &str, time: i64) -> Task {
    Task::Scheduled { name: name.to_string(), file_name: "a.mp3".to_string(), priority: false, time }
}

#[test]
fn recurring_time_one_second_ahead_fires_in_one_second() {
    let c = vec![cand(Some(NOW + 1), Some(NOW + 1 + 86400))];
    let r = pick_next_fire(NOW, &c);
    assert_eq!(r, Some((0, NOW + 1)));
    assert_eq!(sleep_seconds(NOW + 1, NOW), 1);
}

#[test]
fn time_in_daylight_saving_gap_fires_next_day() {
    let c = vec![cand(None, Some(NOW + 50_000))];
    assert_eq!(pick_next_fire(NOW, &c), Some((0, NOW + 50_000)));
}

#[test]
fn passed_time_today_moves_to_tomorrow() {
    let c = vec![cand(Some(NOW - 10), Some(NOW - 10 + 86400)), cand(Some(NOW), Some(NOW + 86400))];
    assert_eq!(pick_next_fire(NOW, &c), Some((0, NOW - 10 + 86400)));
}

#[test]
fn earliest_candidate_wins_and_first_on_tie() {
    let c = vec![
        cand(Some(NOW + 300), None),
        cand(Some(NOW + 100), None),
        cand(Some(NOW + 100), None),
    ];
    assert_eq!(pick_next_fire(NOW, &c), Some((1, NOW + 100)));
}

#[test]
fn no_candidate_gives_none() {
    assert_eq!(pick_next_fire(NOW, &vec![cand(None, None)]), None);
    assert_eq!(pick_next_fire(NOW, &vec![]), None);
}

#[test]
fn recurring_daily_next_fire_is_a_day_later() {
    // 23:58:30 with a time of 23:59: fires in 30 s, then a day after that.
    let first = vec![cand(Some(NOW + 30), Some(NOW + 30 + 86400))];
    assert_eq!(pick_next_fire(NOW, &first), Some((0, NOW + 30)));
    let after = NOW + 30;
    let second = vec![cand(Some(NOW + 30), Some(NOW + 30 + 86400))];
    let (_, t) = pick_next_fire(after, &second).unwrap();
    assert_eq!(t - (NOW + 30), 86400);
}

#[test]
fn next_fire_with_local_zone_lies_ahead() {
    let times = vec![TimeOfDay::new(7, 45, 0).unwrap(), TimeOfDay::new(12, 0, 0).unwrap()];
    let (i, t) = next_fire(&times, NOW).unwrap();
    assert!(i < 2);
    assert!(t > NOW);
    assert!(t <= NOW + 2 * 86400);
}

#[test]
fn sleep_and_drift() {
    assert_eq!(sleep_seconds(NOW - 5, NOW), 0);
    assert_eq!(sleep_seconds(NOW + 60, NOW), 60);
    assert_eq!(drift_seconds(NOW, NOW + 1), 1);
    assert_eq!(drift_seconds(NOW + 3, NOW), 3);
}

#[test]
fn schedulable_only_when_not_past() {
    assert_eq!(check_schedulable(NOW - 1, NOW), Err(ScheduleError::Past));
    assert_eq!(check_schedulable(NOW, NOW), Ok(0));
    assert_eq!(check_schedulable(NOW + 2, NOW), Ok(2));
}

#[test]
fn restart_recovery_deletes_past_and_counts_future() {
    let tasks = vec![scheduled("past", NOW - 100), scheduled("future", NOW + 100)];
    let plan = plan_recovery(&tasks, NOW);
    assert_eq!(plan, vec![RecoveryAction::Delete, RecoveryAction::Schedule]);
    assert_eq!(recovered_count(&plan, &vec![true, true]), 1);
}

#[test]
fn recovery_schedules_recurring_and_counts_failures_out() {
    let rec = Task::Recurring {
        name: "r".to_string(),
        file_name: "a.mp3".to_string(),
        priority: true,
        time: vec![TimeOfDay::new(8, 0, 0).unwrap()],
    };
    assert_eq!(recovery_action(&rec, NOW), RecoveryAction::Schedule);
    let plan = plan_recovery(&vec![rec, scheduled("s", NOW + 5)], NOW);
    assert_eq!(recovered_count(&plan, &vec![true, false]), 1);
}

#[test]
fn scheduled_timer_fires_mails_and_deletes() {
    let mut t = Timer::for_kind(TaskKind::Scheduled).unwrap();
    assert_eq!(t.repeat, Repeat::Once);
    assert_eq!(t.step(TimerEvent::Elapsed), vec![TimerAction::Play]);
    assert_eq!(t.state, TimerState::Firing);
    assert_eq!(
        t.step(TimerEvent::Played { ok: true }),
        vec![
            TimerAction::RecordSuccess,
            TimerAction::SendMail,
            TimerAction::DeleteRow,
            TimerAction::RemoveCancel,
            TimerAction::DecrementGauge
        ]
    );
    assert_eq!(t.state, TimerState::Done);
}

#[test]
fn scheduled_timer_play_failure_still_deletes() {
    let mut t = Timer::for_kind(TaskKind::Scheduled).unwrap();
    t.step(TimerEvent::Elapsed);
    assert_eq!(
        t.step(TimerEvent::Played { ok: false }),
        vec![
            TimerAction::RecordFailure,
            TimerAction::DeleteRow,
            TimerAction::RemoveCancel,
            TimerAction::DecrementGauge
        ]
    );
}

#[test]
fn cancelled_timer_ends_without_playing() {
    let mut t = Timer::for_kind(TaskKind::Scheduled).unwrap();
    assert_eq!(t.step(TimerEvent::Cancelled), vec![TimerAction::DecrementGauge]);
    assert_eq!(t.state, TimerState::Done);
    assert_eq!(t.step(TimerEvent::Elapsed), vec![]);
}

#[test]
fn recurring_timer_loops() {
    assert!(Timer::for_kind(TaskKind::Now).is_none());
    let mut t = Timer::for_kind(TaskKind::Recurring).unwrap();
    t.step(TimerEvent::Elapsed);
    assert_eq!(
        t.step(TimerEvent::Played { ok: true }),
        vec![TimerAction::RecordSuccess, TimerAction::Sleep]
    );
    assert_eq!(t.state, TimerState::Waiting);
    assert_eq!(t.step(TimerEvent::Cancelled), vec![TimerAction::DecrementGauge]);
}

#[test]
fn tomorrow_instant_not_ahead_is_no_candidate() {
    let c = vec![cand(Some(NOW - 10), Some(NOW - 5))];
    assert_eq!(pick_next_fire(NOW, &c), None);
}

#[test]
fn next_fire_outside_supported_years_is_none() {
    let times = vec![TimeOfDay::new(7, 45, 0).unwrap()];
    assert_eq!(next_fire(&times, i64::MAX), None);
    assert_eq!(next_fire(&times, i64::MIN), None);
    assert_eq!(next_fire(&times, 253_402_300_799), None);
}

