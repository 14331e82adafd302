use csengo::display::{dur_human, push_decimal, refresh_interval, task_elapsed};
use csengo::task::{Task, TimeOfDay};

#[test]
fn human_durations() {
    assert_eq!(dur_human(0), ("most".to_string(), 1));
    assert_eq!(dur_human(45), ("45 másodperc múlva".to_string(), 1));
    assert_eq!(dur_human(60), ("60 másodperc múlva".to_string(), 1));
    assert_eq!(dur_human(61), ("1 perc múlva".to_string(), 60));
    assert_eq!(dur_human(-7200), ("2 órája".to_string(), 3600));
    assert_eq!(dur_human(3 * 86400), ("3 nap múlva".to_string(), 86400));
    assert_eq!(dur_human(-14 * 86400), ("2 hete".to_string(), 604800));
    assert_eq!(dur_human(60 * 86400), ("2 hónap múlva".to_string(), 2592000));
    assert_eq!(dur_human(-800 * 86400), ("2 éve".to_string(), 31536000));
}

#[test]
fn decimal_text() {
    let mut s = String::from("n=");
    push_decimal(&mut s, 4_294_967_295);
    assert_eq!(s, "n=4294967295");
    let mut z = String::new();
    push_decimal(&mut z, 0);
    assert_eq!(z, "0");
}

#[test]
fn elapsed_per_task_kind() {
    let now = 1_700_000_000;
    let n = Task::Now { name: "n".into(), priority: false, file_name: "a".into() };
    assert_eq!(task_elapsed(&n, now, 0), (String::new(), 0));
    let s = Task::Scheduled { name: "s".into(), file_name: "a".into(), priority: false, time: now + 120 };
    assert_eq!(task_elapsed(&s, now, 0), ("2 perc múlva".to_string(), 60));
    // 10:00:00 now; times 09:00 (23 h away) and 10:30 (30 min away)
    let r = Task::Recurring {
        name: "r".into(),
        file_name: "a".into(),
        priority: false,
        time: vec![TimeOfDay::new(9, 0, 0).unwrap(), TimeOfDay::new(10, 30, 0).unwrap()],
    };
    assert_eq!(task_elapsed(&r, now, 36000), ("30 perc múlva".to_string(), 60));
}

#[test]
fn refresh_is_smallest_positive() {
    assert_eq!(refresh_interval(&vec![]), 0);
    assert_eq!(refresh_interval(&vec![0, 0]), 0);
    assert_eq!(refresh_interval(&vec![0, 3600, 60, 0, 86400]), 60);
}
