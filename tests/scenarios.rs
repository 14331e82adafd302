use csengo::cancel::CancelRegistry;
use csengo::form::task_from_form_at;
use csengo::scheduler::{check_schedulable, Timer, TimerAction, TimerEvent, TimerState};
use csengo::sink::{now_playing_change, SinkState};
use csengo::task::{NowPlaying, Task, TaskKind};

const NOW: i64 = 1_700_000_000;

fn form(pairs: &[(&str, &str)]) -> Vec<(String, String)> {
    pairs.iter().map(|(k, v)| (k.to_string(), v.to_string())).collect()
}

#[test]
fn immediate_play_reaches_now_playing() {
    let f = form(&[("type", "now"), ("name", "t1"), ("priority", "true"), ("file_name", "a.mp3")]);
    let task = task_from_form_at(&f, NOW, None).unwrap();
    assert!(task.is_now());
    let mut sink: SinkState<String> = SinkState::new();
    sink.append(task.get_file_name().clone());
    let next = sink.next_track();
    assert_eq!(next.as_deref(), Some("a.mp3"));
    assert_eq!(
        now_playing_change(&None, &next),
        Some(Some(NowPlaying { name: "a.mp3".to_string() }))
    );
}

#[test]
fn scheduled_fire_deletes_row_and_mails_once() {
    let task = Task::Scheduled { name: "s1".into(), file_name: "a.mp3".into(), priority: false, time: NOW + 2 };
    assert_eq!(check_schedulable(NOW + 2, NOW), Ok(2));
    let mut t = Timer::for_kind(task.kind_of()).unwrap();
    let mut all = t.step(TimerEvent::Elapsed);
    all.extend(t.step(TimerEvent::Played { ok: true }));
    assert_eq!(all.iter().filter(|a| **a == TimerAction::SendMail).count(), 1);
    assert!(all.contains(&TimerAction::DeleteRow));
    assert_eq!(t.state, TimerState::Done);
}

#[test]
fn cancellation_before_fire_plays_nothing() {
    let mut reg = CancelRegistry::new();
    let mut rx = reg.create_cancel("s2".to_string());
    let mut t = Timer::for_kind(TaskKind::Scheduled).unwrap();
    assert_eq!(reg.cancel("s2"), Ok(()));
    assert!(rx.try_recv().is_ok());
    let actions = t.step(TimerEvent::Cancelled);
    assert!(!actions.contains(&TimerAction::Play));
    assert_eq!(actions, vec![TimerAction::DecrementGauge]);
    assert!(!reg.contains("s2"));
}

#[test]
fn stop_mid_play_then_append_resumes() {
    let mut sink: SinkState<&str> = SinkState::new();
    sink.append("thirty-seconds");
    assert_eq!(sink.next_track(), Some("thirty-seconds"));
    sink.stop();
    assert!(sink.is_stopped());
    assert_eq!(now_playing_change(&Some(NowPlaying { name: "thirty-seconds".into() }), &None), Some(None));
    assert_eq!(sink.queue_len(), 0);
    sink.append("next");
    assert!(!sink.is_stopped());
    assert_eq!(sink.next_track(), Some("next"));
}
