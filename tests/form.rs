use csengo::form::{task_from_form, task_from_form_at, FormError};
use csengo::task::{Task, TimeOfDay};

const NOW: i64 = 1_700_000_000;

fn form(pairs: &[(&str, &str)]) -> Vec<(String, String)> {
    pairs.iter().map(|(k, v)| (k.to_string(), v.to_string())).collect()
}

#[test]
fn immediate_task_from_form() {
    let f = form(&[("type", "now"), ("name", "t1"), ("priority", "true"), ("file_name", "a.mp3")]);
    assert_eq!(
        task_from_form_at(&f, NOW, None),
        Ok(Task::Now { name: "t1".into(), priority: true, file_name: "a.mp3".into() })
    );
}

#[test]
fn type_defaults_to_now() {
    let f = form(&[("name", ""), ("priority", "off"), ("file_name", "a.mp3")]);
    assert_eq!(
        task_from_form_at(&f, NOW, None),
        Ok(Task::Now { name: "".into(), priority: false, file_name: "a.mp3".into() })
    );
}

#[test]
fn scheduled_task_from_form() {
    let f = form(&[
        ("type", "scheduled"),
        ("name", "s1"),
        ("priority", "0"),
        ("file_name", "a.mp3"),
        ("time", "2030-01-01T08:00"),
    ]);
    assert_eq!(
        task_from_form_at(&f, NOW, Some(NOW + 2)),
        Ok(Task::Scheduled { name: "s1".into(), file_name: "a.mp3".into(), priority: false, time: NOW + 2 })
    );
}

#[test]
fn scheduled_time_equal_to_now_is_past() {
    let f = form(&[("type", "scheduled"), ("name", "s"), ("priority", "1"), ("file_name", "a"), ("time", "x")]);
    assert_eq!(task_from_form_at(&f, NOW, Some(NOW)), Err(FormError::PastTime));
    assert_eq!(task_from_form_at(&f, NOW, Some(NOW - 60)), Err(FormError::PastTime));
    assert_eq!(task_from_form_at(&f, NOW, None), Err(FormError::InvalidTime));
}

#[test]
fn scheduled_form_with_local_zone() {
    let f = form(&[
        ("type", "scheduled"),
        ("name", "s"),
        ("priority", "on"),
        ("file_name", "a"),
        ("time", "2999-06-01T10:00"),
    ]);
    match task_from_form(&f, NOW) {
        Ok(Task::Scheduled { time, .. }) => assert!(time > NOW),
        other => panic!("unexpected {other:?}"),
    }
    let bad = form(&[("type", "scheduled"), ("name", "s"), ("priority", "on"), ("file_name", "a"), ("time", "soon")]);
    assert_eq!(task_from_form(&bad, NOW), Err(FormError::InvalidTime));
    let missing = form(&[("type", "scheduled"), ("name", "s"), ("priority", "on"), ("file_name", "a")]);
    assert_eq!(task_from_form(&missing, NOW), Err(FormError::InvalidTime));
}

#[test]
fn recurring_task_from_form() {
    let f = form(&[
        ("type", "recurring"),
        ("name", "r"),
        ("priority", "false"),
        ("file_name", "a.mp3"),
        ("recurring-n", "2"),
        ("time-1", "2024-01-01T12:30"),
        ("time-0", "2024-01-01T07:45"),
    ]);
    assert_eq!(
        task_from_form_at(&f, NOW, None),
        Ok(Task::Recurring {
            name: "r".into(),
            file_name: "a.mp3".into(),
            priority: false,
            time: vec![TimeOfDay::new(7, 45, 0).unwrap(), TimeOfDay::new(12, 30, 0).unwrap()],
        })
    );
}

#[test]
fn form_errors() {
    let base = [("priority", "true"), ("file_name", "a")];
    let mut f = form(&base);
    assert_eq!(task_from_form_at(&f, NOW, None), Err(FormError::MissingName));
    f = form(&[("name", "n"), ("file_name", "a")]);
    assert_eq!(task_from_form_at(&f, NOW, None), Err(FormError::InvalidPriority));
    f = form(&[("name", "n"), ("priority", "yes"), ("file_name", "a")]);
    assert_eq!(task_from_form_at(&f, NOW, None), Err(FormError::InvalidPriority));
    f = form(&[("name", "n"), ("priority", "true")]);
    assert_eq!(task_from_form_at(&f, NOW, None), Err(FormError::MissingFileName));
    f = form(&[("name", "n"), ("priority", "true"), ("file_name", "a"), ("type", "weekly")]);
    assert_eq!(task_from_form_at(&f, NOW, None), Err(FormError::InvalidType));
    f = form(&[("name", "  \t"), ("priority", "true"), ("file_name", "a"), ("type", "scheduled")]);
    assert_eq!(task_from_form_at(&f, NOW, Some(NOW + 5)), Err(FormError::EmptyName));
    f = form(&[("name", " "), ("priority", "true"), ("file_name", "a"), ("type", "recurring")]);
    assert_eq!(task_from_form_at(&f, NOW, None), Err(FormError::EmptyName));
    f = form(&[("name", "r"), ("priority", "true"), ("file_name", "a"), ("type", "recurring")]);
    assert_eq!(task_from_form_at(&f, NOW, None), Err(FormError::MissingCount));
    f = form(&[("name", "r"), ("priority", "true"), ("file_name", "a"), ("type", "recurring"), ("recurring-n", "x")]);
    assert_eq!(task_from_form_at(&f, NOW, None), Err(FormError::MissingCount));
}

#[test]
fn recurring_time_slot_errors() {
    let head = [("name", "r"), ("priority", "true"), ("file_name", "a"), ("type", "recurring")];
    let mut f = form(&head);
    f.extend(form(&[("recurring-n", "2"), ("time-1", "2024-01-01T12:30")]));
    assert_eq!(task_from_form_at(&f, NOW, None), Err(FormError::InvalidTimes));
    let mut f = form(&head);
    f.extend(form(&[("recurring-n", "2"), ("time-0", "2024-01-01T12:30")]));
    assert_eq!(task_from_form_at(&f, NOW, None), Err(FormError::CountMismatch));
    let mut f = form(&head);
    f.extend(form(&[("recurring-n", "0")]));
    assert_eq!(task_from_form_at(&f, NOW, None), Err(FormError::NoTimes));
    let mut f = form(&head);
    f.extend(form(&[("recurring-n", "1"), ("time-99", "2024-01-01T12:30")]));
    assert_eq!(task_from_form_at(&f, NOW, None), Err(FormError::InvalidTimes));
    let mut f = form(&head);
    f.extend(form(&[("recurring-n", "1"), ("time-0", "2024-01-01T12:30"), ("time-x", "2024-01-01T01:00")]));
    assert!(task_from_form_at(&f, NOW, None).is_ok());
}
