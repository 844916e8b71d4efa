use tofupilot_studio::completion::{convert_error_to_result, format_error_message, JobStatusResolver};
use tofupilot_studio::job::{Job, JobResult, Outcome, PhaseResult};
use tofupilot_studio::schema::StageScope;
use tofupilot_studio::id_map::JobIdMap;
use tofupilot_studio::ui::UiConfig;

fn job(timeout_ms: Option<u64>) -> Job {
    Job::new(
        Some("s1".to_string()),
        "p".to_string(),
        "P".to_string(),
        StageScope::Main,
        "m".to_string(),
        "f".to_string(),
        vec!["setup".to_string()],
        vec![],
        UiConfig::empty(),
        timeout_ms,
        None,
        None,
        &JobIdMap::new(),
        vec![],
    )
}

#[test]
fn error_message_priority() {
    let mut r = JobResult::bare(PhaseResult::Continue, Outcome::Pass, 0);
    assert_eq!(format_error_message(false, &r), None);
    r.timeout_secs = Some(60);
    assert_eq!(format_error_message(false, &r).as_deref(), Some("Phase timed out after 60 seconds"));
    r.error = Some("boom".to_string());
    assert_eq!(format_error_message(false, &r).as_deref(), Some("boom"));
    assert_eq!(format_error_message(true, &r).as_deref(), Some("Phase exceeded retry limit (3 retries)"));
}

#[test]
fn status_resolution() {
    let r = JobResult::bare(PhaseResult::Skip, Outcome::Skip, 0);
    assert_eq!(JobStatusResolver::resolve(&r, false), ("completed".to_string(), "skip".to_string(), None));
    let r = JobResult::bare(PhaseResult::Continue, Outcome::Pass, 0);
    assert_eq!(JobStatusResolver::resolve(&r, false).1, "pass");
    let mut t = JobResult::bare(PhaseResult::Continue, Outcome::Timeout, 0);
    t.timeout_secs = Some(5);
    assert_eq!(
        JobStatusResolver::resolve(&t, false),
        ("failed".to_string(), "timeout".to_string(), Some("Phase timed out after 5 seconds".to_string()))
    );
    assert_eq!(JobStatusResolver::resolve(&t, true).1, "error");
}

#[test]
fn execution_errors_are_converted() {
    let j = job(Some(7000));
    let r = convert_error_to_result("process died".to_string(), &j, j.id);
    assert_eq!(r.phase_outcome, Outcome::Error);
    assert_eq!(r.error.as_deref(), Some("process died"));
    assert_eq!(r.logs.len(), 1);
    assert_eq!(r.logs[0].level, "ERROR");
    assert_eq!(r.logs[0].message, "process died");
    let r = convert_error_to_result("Phase timed out after 12 seconds".to_string(), &j, j.id);
    assert_eq!(r.phase_outcome, Outcome::Timeout);
    assert_eq!(r.timeout_secs, Some(12));
    assert!(r.error.is_none());
    let r = convert_error_to_result("timeout".to_string(), &j, j.id);
    assert_eq!(r.timeout_secs, Some(7000));
    let r = convert_error_to_result("timeout".to_string(), &job(None), 1);
    assert_eq!(r.timeout_secs, Some(0));
}

#[test]
fn job_helpers() {
    let j = job(None);
    assert!(!j.is_shared());
    assert_eq!(j.get_slot_display(), "s1");
    assert!(j.can_retry());
    let retry = j.create_retry_job();
    assert_eq!(retry.retry_count, 1);
    assert_eq!(retry.dependency_id, j.id);
    assert_ne!(retry.id, j.id);
    assert_eq!(retry.phase_key, j.phase_key);
    let mut shared = job(None);
    shared.slot_id = None;
    assert!(shared.is_shared());
    assert_eq!(shared.get_slot_display(), "<shared>");
}

#[test]
fn job_dependencies_resolve_in_the_slot_context() {
    let mut map = JobIdMap::new();
    map.insert("s1:setup".to_string(), 42);
    map.insert("s2:setup".to_string(), 43);
    let j = Job::new(
        Some("s1".to_string()),
        "p".to_string(),
        "P".to_string(),
        StageScope::Main,
        "m".to_string(),
        "f".to_string(),
        vec!["setup".to_string(), "unknown".to_string()],
        vec![],
        UiConfig::empty(),
        None,
        Some(5),
        Some(100),
        &map,
        vec![],
    );
    assert_eq!(j.depends_on, vec![42]);
    assert_eq!(j.retry_limit, 5);
    assert_eq!(j.retry_delay_ms, Some(100));
    assert_eq!(j.dependency_id, j.id);
}
