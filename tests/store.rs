use csengo::store::{db_err, existed, migrations_from, parse_task, task_row, DbFailure, StoreError, TaskRow, DB_VERSION};
use csengo::task::{Task, TimeOfDay};

fn row(kind: &str, time: Option<&str>) -> TaskRow {
    TaskRow {
        kind: kind.to_string(),
        name: "t".to_string(),
        priority: true,
        file_name: "a.mp3".to_string(),
        time: time.map(|s| s.to_string()),
    }
}

#[test]
fn scheduled_row_uses_rfc3339_utc() {
    let t = Task::Scheduled { name: "s1".into(), file_name: "a.mp3".into(), priority: false, time: 0 };
    let r = task_row(&t);
    assert_eq!(r.kind, "scheduled");
    assert_eq!(r.name, "s1");
    assert!(!r.priority);
    assert_eq!(r.file_name, "a.mp3");
    assert_eq!(r.time.as_deref(), Some("1970-01-01T00:00:00Z"));
    assert_eq!(t.time_to_str().as_deref(), Some("1970-01-01T00:00:00Z"));
}

#[test]
fn recurring_row_joins_times() {
    let t = Task::Recurring {
        name: "r".into(),
        file_name: "b.mp3".into(),
        priority: true,
        time: vec![TimeOfDay::new(7, 5, 0).unwrap(), TimeOfDay::new(23, 59, 30).unwrap()],
    };
    assert_eq!(task_row(&t).time.as_deref(), Some("07:05;23:59"));
    assert_eq!(task_row(&t).kind, "recurring");
}

#[test]
fn now_row_has_no_time() {
    let t = Task::Now { name: "n".into(), priority: true, file_name: "a.mp3".into() };
    let r = task_row(&t);
    assert_eq!(r.kind, "now");
    assert_eq!(r.time, None);
    assert!(t.time_to_str().is_none());
}

#[test]
fn rows_round_trip() {
    let tasks = vec![
        Task::Now { name: "n".into(), priority: false, file_name: "a.mp3".into() },
        Task::Scheduled { name: "s".into(), file_name: "a.mp3".into(), priority: true, time: 1_700_000_000 },
        Task::Recurring {
            name: "r".into(),
            file_name: "a.mp3".into(),
            priority: false,
            time: vec![TimeOfDay::new(8, 0, 0).unwrap(), TimeOfDay::new(12, 30, 0).unwrap()],
        },
    ];
    for t in tasks {
        assert_eq!(parse_task(&task_row(&t)), Ok(t));
    }
}

#[test]
fn recurring_seconds_are_dropped_in_store() {
    let t = Task::Recurring {
        name: "r".into(),
        file_name: "a.mp3".into(),
        priority: false,
        time: vec![TimeOfDay::new(8, 0, 45).unwrap()],
    };
    match parse_task(&task_row(&t)).unwrap() {
        Task::Recurring { time, .. } => assert_eq!(time, vec![TimeOfDay::new(8, 0, 0).unwrap()]),
        other => panic!("unexpected {other:?}"),
    }
}

#[test]
fn scheduled_row_with_offset_parses() {
    let t = parse_task(&row("scheduled", Some("2024-01-01T01:00:00+01:00"))).unwrap();
    match t {
        Task::Scheduled { time, name, priority, .. } => {
            assert_eq!(time, 1_704_067_200);
            assert_eq!(name, "t");
            assert!(priority);
        }
        other => panic!("unexpected {other:?}"),
    }
}

#[test]
fn bad_rows_are_storage_errors() {
    assert_eq!(parse_task(&row("weekly", None)), Err(StoreError::Storage));
    assert_eq!(parse_task(&row("scheduled", None)), Err(StoreError::Storage));
    assert_eq!(parse_task(&row("scheduled", Some("yesterday"))), Err(StoreError::Storage));
    assert_eq!(parse_task(&row("recurring", Some("08:00;25:00"))), Err(StoreError::Storage));
    assert_eq!(parse_task(&row("recurring", None)), Err(StoreError::Storage));
    assert_eq!(parse_task(&row("recurring", Some("08:00;garbage"))), Err(StoreError::Storage));
    assert_eq!(parse_task(&row("recurring", Some("08:00;"))), Err(StoreError::Storage));
}

#[test]
fn db_errors_map() {
    assert_eq!(db_err(DbFailure::ConstraintViolation), StoreError::NameConflict);
    assert_eq!(db_err(DbFailure::NoRows), StoreError::NotFound);
    assert_eq!(db_err(DbFailure::Other), StoreError::Storage);
}

#[test]
fn delete_reports_existence() {
    assert!(existed(1));
    assert!(!existed(0));
}

#[test]
fn migrations_run_forward_only() {
    assert_eq!(DB_VERSION, 1);
    assert_eq!(migrations_from(0), vec![0]);
    assert_eq!(migrations_from(1), Vec::<u32>::new());
    assert_eq!(migrations_from(5), Vec::<u32>::new());
}
