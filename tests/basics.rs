use csengo::metrics::{
    dec_active_tasks, inc_active_tasks, normalize_path, record_audio_error, record_email,
    record_playback_failure, record_playback_success, record_task_created, set_file_stats,
    set_playback_active, set_queue_size,
};
use csengo::task::{kind_str, Task, TaskKind, TimeOfDay};
use csengo::text::{chars_eq, is_blank, parse_usize, starts_with};

#[test]
fn paths_are_normalized() {
    assert_eq!(normalize_path("/htmx/task/abc"), "/htmx/task/:id");
    assert_eq!(normalize_path("/htmx/task/"), "/htmx/task/");
    assert_eq!(normalize_path("/htmx/file/x.mp3"), "/htmx/file/:fname");
    assert_eq!(normalize_path("/api/file/x.mp3"), "/api/file/:fname");
    assert_eq!(normalize_path("/api/file/"), "/api/file/");
    assert_eq!(normalize_path("/static/js/app.js"), "/static/*path");
    assert_eq!(normalize_path("/api/stop"), "/api/stop");
}

#[test]
fn metrics_record_without_a_recorder() {
    record_playback_success("now", "t1");
    record_playback_failure("scheduled", "s1");
    set_playback_active(true);
    set_queue_size(3);
    record_task_created("recurring");
    inc_active_tasks("scheduled");
    dec_active_tasks("scheduled");
    set_file_stats(2, -1);
    record_email(false);
    record_audio_error();
}

#[test]
fn task_accessors() {
    let t = Task::Recurring {
        name: "bell".into(),
        file_name: "b.mp3".into(),
        priority: true,
        time: vec![TimeOfDay::new(8, 0, 0).unwrap()],
    };
    assert!(!t.is_now());
    assert_eq!(t.get_type(), "recurring");
    assert_eq!(t.get_name(), "bell");
    assert!(t.get_priority());
    assert_eq!(t.get_file_name(), "b.mp3");
    assert_eq!(t.kind_of(), TaskKind::Recurring);
    assert_eq!(kind_str(TaskKind::Scheduled), "scheduled");
    let n = Task::Now { name: "n".into(), priority: false, file_name: "a".into() };
    assert!(n.is_now());
    assert_eq!(n.get_type(), "now");
}

#[test]
fn time_of_day_bounds() {
    assert!(TimeOfDay::new(24, 0, 0).is_none());
    assert!(TimeOfDay::new(23, 60, 0).is_none());
    assert_eq!(TimeOfDay::new(1, 2, 3).unwrap().seconds_from_midnight(), 3723);
}

#[test]
fn text_helpers() {
    assert_eq!(parse_usize("42"), Some(42));
    assert_eq!(parse_usize("+7"), Some(7));
    assert_eq!(parse_usize(""), None);
    assert_eq!(parse_usize("+"), None);
    assert_eq!(parse_usize("-1"), None);
    assert_eq!(parse_usize("18446744073709551615"), Some(usize::MAX));
    assert_eq!(parse_usize("18446744073709551616"), None);
    assert!(is_blank(" \t\n\u{3000}"));
    assert!(!is_blank(" a "));
    assert!(starts_with("time-3", "time-"));
    assert!(!starts_with("tim", "time-"));
    assert!(chars_eq("árvíz", "árvíz"));
    assert!(!chars_eq("a", "ab"));
}
