//! The counters and gauges that the server exports, recorded through the
//! `metrics` facade into whatever recorder the process installed.

use vstd::prelude::*;
use crate::text::{has_prefix, starts_with};

verus! {

pub const PLAYBACK_TOTAL: &'static str = "csengo_playback_total";
pub const PLAYBACK_SECONDS: &'static str = "csengo_playback_seconds_total";
pub const PLAYBACK_ACTIVE: &'static str = "csengo_playback_active";
pub const PLAYBACK_QUEUE_SIZE: &'static str = "csengo_playback_queue_size";
pub const AUDIO_ERRORS: &'static str = "csengo_audio_device_errors_total";
pub const TASKS_CREATED: &'static str = "csengo_tasks_created_total";
pub const TASKS_FAILED: &'static str = "csengo_tasks_failed_total";
pub const TASKS_ACTIVE: &'static str = "csengo_tasks_active";
pub const TASK_DRIFT: &'static str = "csengo_task_schedule_drift_seconds";
pub const DB_OPS_TOTAL: &'static str = "csengo_db_operations_total";
pub const DB_OPS_DURATION: &'static str = "csengo_db_operation_duration_seconds";
pub const DB_FILES_COUNT: &'static str = "csengo_db_files_count";
pub const DB_FILES_BYTES: &'static str = "csengo_db_files_bytes";
pub const EMAIL_SENT: &'static str = "csengo_email_sent_total";
pub const HTTP_REQUESTS: &'static str = "csengo_http_requests_total";
pub const HTTP_DURATION: &'static str = "csengo_http_request_duration_seconds";
pub const BUILD_INFO: &'static str = "csengo_build_info";

/// Relies on metrics' `with_recorder`, `Recorder::register_counter` and
/// `Counter::increment`: adds `by` to the named, labelled counter of the
/// installed recorder. It only records, so nothing is stated.
#[verifier::external_body]
fn counter_add(name: &str, labels: &Vec<(String, String)>, by: u64) {
    let labels: Vec<metrics::Label> = labels.iter().map(
        |(k, v)| metrics::Label::new(k.clone(), v.clone()),
    ).collect();
    let key = metrics::Key::from_parts(name.to_string(), labels);
    let meta = metrics::Metadata::new("csengo", metrics::Level::INFO, None);
    metrics::with_recorder(|r| r.register_counter(&key, &meta)).increment(by);
}

/// Relies on metrics' `with_recorder`, `Recorder::register_gauge` and
/// `Gauge::set`: sets the named, labelled gauge to `value`. The gauge takes any
/// `IntoF64`; a `Duration` of `value` whole seconds converts to `value`.
#[verifier::external_body]
fn gauge_set(name: &str, labels: &Vec<(String, String)>, value: u64) {
    let labels: Vec<metrics::Label> = labels.iter().map(
        |(k, v)| metrics::Label::new(k.clone(), v.clone()),
    ).collect();
    let key = metrics::Key::from_parts(name.to_string(), labels);
    let meta = metrics::Metadata::new("csengo", metrics::Level::INFO, None);
    metrics::with_recorder(|r| r.register_gauge(&key, &meta)).set(std::time::Duration::from_secs(value));
}

/// Relies on metrics' `Gauge::increment`: raises the named, labelled gauge by one.
#[verifier::external_body]
fn gauge_increment(name: &str, labels: &Vec<(String, String)>) {
    let labels: Vec<metrics::Label> = labels.iter().map(
        |(k, v)| metrics::Label::new(k.clone(), v.clone()),
    ).collect();
    let key = metrics::Key::from_parts(name.to_string(), labels);
    let meta = metrics::Metadata::new("csengo", metrics::Level::INFO, None);
    metrics::with_recorder(|r| r.register_gauge(&key, &meta)).increment(1u32);
}

/// Relies on metrics' `Gauge::decrement`: lowers the named, labelled gauge by one.
#[verifier::external_body]
fn gauge_decrement(name: &str, labels: &Vec<(String, String)>) {
    let labels: Vec<metrics::Label> = labels.iter().map(
        |(k, v)| metrics::Label::new(k.clone(), v.clone()),
    ).collect();
    let key = metrics::Key::from_parts(name.to_string(), labels);
    let meta = metrics::Metadata::new("csengo", metrics::Level::INFO, None);
    metrics::with_recorder(|r| r.register_gauge(&key, &meta)).decrement(1u32);
}

fn label(k: &str, v: &str) -> (r: (String, String))
    ensures
        r.0@ == k@,
        r.1@ == v@,
{
    (String::from_str(k), String::from_str(v))
}

/// Counts a successful play of a task.
pub fn record_playback_success(task_type: &str, task_name: &str) {
    let labels = vec![label("status", "success"), label("task_type", task_type), label("task_name", task_name)];
    counter_add(PLAYBACK_TOTAL, &labels, 1);
}

/// Counts a failed play of a task, as a play and as a task failure.
pub fn record_playback_failure(task_type: &str, task_name: &str) {
    let labels = vec![label("status", "error"), label("task_type", task_type), label("task_name", task_name)];
    counter_add(PLAYBACK_TOTAL, &labels, 1);
    let labels = vec![label("task_type", task_type), label("task_name", task_name)];
    counter_add(TASKS_FAILED, &labels, 1);
}

/// Whether a named track is playing: the gauge reads 1 or 0.
pub fn set_playback_active(active: bool) {
    gauge_set(PLAYBACK_ACTIVE, &Vec::new(), if active { 1 } else { 0 });
}

pub fn set_queue_size(size: usize) {
    gauge_set(PLAYBACK_QUEUE_SIZE, &Vec::new(), size as u64);
}

pub fn record_task_created(task_type: &str) {
    let labels = vec![label("type", task_type)];
    counter_add(TASKS_CREATED, &labels, 1);
}

pub fn inc_active_tasks(task_type: &str) {
    let labels = vec![label("type", task_type)];
    gauge_increment(TASKS_ACTIVE, &labels);
}

pub fn dec_active_tasks(task_type: &str) {
    let labels = vec![label("type", task_type)];
    gauge_decrement(TASKS_ACTIVE, &labels);
}

/// Publishes the number of stored files and their total size; the database
/// reports both as signed integers, and a negative one reads as zero.
pub fn set_file_stats(count: i64, bytes: i64) {
    gauge_set(DB_FILES_COUNT, &Vec::new(), if count < 0 { 0 } else { count as u64 });
    gauge_set(DB_FILES_BYTES, &Vec::new(), if bytes < 0 { 0 } else { bytes as u64 });
}

pub fn record_email(success: bool) {
    let labels = vec![label("status", if success { "success" } else { "error" })];
    counter_add(EMAIL_SENT, &labels, 1);
}

pub fn record_audio_error() {
    counter_add(AUDIO_ERRORS, &Vec::new(), 1);
}

/// The label under which a request path is counted: paths that carry a task
/// or file name collapse to their route, so that names do not multiply the
/// series.
pub open spec fn normalized_path(p: Seq<char>) -> Seq<char> {
    if has_prefix(p, "/htmx/task/"@) && p.len() > 11 {
        "/htmx/task/:id"@
    } else if has_prefix(p, "/htmx/file/"@) && p.len() > 11 {
        "/htmx/file/:fname"@
    } else if has_prefix(p, "/api/file/"@) && p.len() > 10 {
        "/api/file/:fname"@
    } else if has_prefix(p, "/static/"@) {
        "/static/*path"@
    } else {
        p
    }
}

pub fn normalize_path(path: &str) -> (r: String)
    ensures
        r@ == normalized_path(path@),
{
    proof {
        reveal_strlit("/htmx/task/");
        reveal_strlit("/htmx/file/");
        reveal_strlit("/api/file/");
    }
    let n = path.unicode_len();
    if starts_with(path, "/htmx/task/") && n > 11 {
        return String::from_str("/htmx/task/:id");
    }
    if starts_with(path, "/htmx/file/") && n > 11 {
        return String::from_str("/htmx/file/:fname");
    }
    if starts_with(path, "/api/file/") && n > 10 {
        return String::from_str("/api/file/:fname");
    }
    if starts_with(path, "/static/") {
        return String::from_str("/static/*path");
    }
    String::from_str(path)
}

} // verus!
