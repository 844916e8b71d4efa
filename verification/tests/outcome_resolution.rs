use tofupilot_studio::completion::resolve_outcome;
use tofupilot_studio::job::{Job, JobResult, JobStatus, Outcome, PhaseResult, RuntimeType};
use tofupilot_studio::measurements::{Measurement, ValidatorSpec};
use tofupilot_studio::schema::{StageScope, ValidatorOutcome};
use tofupilot_studio::string_map::StringMap;
use tofupilot_studio::ui::UiConfig;
use uuid::Uuid;

fn create_test_job(retry_count: usize, retry_limit: usize) -> Job {
    let id = Uuid::new_v4().as_u128();
    Job {
        id,
        slot_id: None,
        phase_key: "test_phase".to_string(),
        phase_name: "Test Phase".to_string(),
        stage_scope: StageScope::Main,
        module: "phases.test".to_string(),
        function: "test".to_string(),
        depends_on: vec![],
        required_plugs: vec![],
        ui_config: UiConfig::empty(),
        status: JobStatus::Running,
        result: None,
        retry_count,
        retry_limit,
        retry_delay_ms: None,
        timeout_ms: None,
        runtime_type: RuntimeType::Python,
        command: None,
        shell_type: None,
        working_directory: None,
        procedure_dir: None,
        phase_measurements: vec![],
        initial_unit_info: None,
        phase_results: StringMap::new(),
        dependency_id: id,
    }
}

fn create_measurement_with_validator(outcome: ValidatorOutcome) -> Measurement {
    Measurement {
        name: "voltage".to_string(),
        unit: Some("V".to_string()),
        timestamp: chrono::Utc::now().to_rfc3339(),
        description: None,
        validators: Some(vec![ValidatorSpec {
            outcome: Some(outcome),
            operator: Some("less_than".to_string()),
            expression: None,
        }]),
    }
}

fn create_basic_job_result(phase_result: PhaseResult, measurements: Vec<Measurement>) -> JobResult {
    let now = chrono::Utc::now().timestamp_millis();
    JobResult {
        phase_result,
        phase_outcome: Outcome::Pass,
        next_action: None,
        timeout_secs: None,
        error: None,
        exit_code: None,
        measurements,
        logs: vec![],
        started_at: now,
        completed_at: now,
        unit: None,
        input_unit_info: None,
        retry_count: 0,
    }
}

#[test]
fn test_happy_path_continue_pass() {
    let job = create_test_job(0, 3);
    let job_result = create_basic_job_result(
        PhaseResult::Continue,
        vec![create_measurement_with_validator(ValidatorOutcome::Pass)],
    );

    let (outcome, is_retry_exceeded) = resolve_outcome(&job_result, &job, false);

    assert_eq!(outcome, Outcome::Pass);
    assert!(!is_retry_exceeded);
}

#[test]
fn test_timeout_overrides_user_intent() {
    let job = create_test_job(0, 3);
    let mut job_result = create_basic_job_result(PhaseResult::Continue, vec![]);
    job_result.timeout_secs = Some(60);

    let (outcome, is_retry_exceeded) = resolve_outcome(&job_result, &job, false);

    assert_eq!(outcome, Outcome::Timeout);
    assert!(!is_retry_exceeded);
}

#[test]
fn test_error_overrides_user_intent() {
    let job = create_test_job(0, 3);
    let mut job_result = create_basic_job_result(PhaseResult::Continue, vec![]);
    job_result.error = Some("Division by zero".to_string());

    let (outcome, is_retry_exceeded) = resolve_outcome(&job_result, &job, false);

    assert_eq!(outcome, Outcome::Error);
    assert!(!is_retry_exceeded);
}

#[test]
fn test_shutdown_produces_stop_outcome() {
    let job = create_test_job(0, 3);
    let job_result = create_basic_job_result(PhaseResult::Continue, vec![]);

    let (outcome, is_retry_exceeded) = resolve_outcome(&job_result, &job, true);

    assert_eq!(outcome, Outcome::Stop);
    assert!(!is_retry_exceeded);
}

#[test]
fn test_explicit_stop() {
    let job = create_test_job(0, 3);
    let job_result = create_basic_job_result(PhaseResult::Stop, vec![]);

    let (outcome, is_retry_exceeded) = resolve_outcome(&job_result, &job, false);

    assert_eq!(outcome, Outcome::Stop);
    assert!(!is_retry_exceeded);
}

#[test]
fn test_explicit_skip() {
    let job = create_test_job(0, 3);
    let job_result = create_basic_job_result(PhaseResult::Skip, vec![]);

    let (outcome, is_retry_exceeded) = resolve_outcome(&job_result, &job, false);

    assert_eq!(outcome, Outcome::Skip);
    assert!(!is_retry_exceeded);
}

#[test]
fn test_explicit_fail() {
    let job = create_test_job(0, 3);
    let job_result = create_basic_job_result(PhaseResult::Fail, vec![]);

    let (outcome, is_retry_exceeded) = resolve_outcome(&job_result, &job, false);

    assert_eq!(outcome, Outcome::Fail);
    assert!(!is_retry_exceeded);
}

#[test]
fn test_measurement_validation_failure() {
    let job = create_test_job(0, 3);
    let job_result = create_basic_job_result(
        PhaseResult::Continue,
        vec![create_measurement_with_validator(ValidatorOutcome::Fail)],
    );

    let (outcome, is_retry_exceeded) = resolve_outcome(&job_result, &job, false);

    assert_eq!(outcome, Outcome::Fail);
    assert!(!is_retry_exceeded);
}

#[test]
fn test_retry_within_limit() {
    let job = create_test_job(1, 3);
    let job_result = create_basic_job_result(PhaseResult::Retry, vec![]);

    let (outcome, is_retry_exceeded) = resolve_outcome(&job_result, &job, false);

    assert_eq!(outcome, Outcome::Retry);
    assert!(!is_retry_exceeded);
}

#[test]
fn test_retry_limit_exceeded() {
    let job = create_test_job(3, 3);
    let job_result = create_basic_job_result(PhaseResult::Retry, vec![]);

    let (outcome, is_retry_exceeded) = resolve_outcome(&job_result, &job, false);

    assert_eq!(outcome, Outcome::Fail);
    assert!(is_retry_exceeded);
}

#[test]
fn test_priority_error_over_timeout() {
    let job = create_test_job(0, 3);
    let mut job_result = create_basic_job_result(PhaseResult::Continue, vec![]);
    job_result.timeout_secs = Some(60);
    job_result.error = Some("Some error".to_string());

    let (outcome, _) = resolve_outcome(&job_result, &job, false);

    assert_eq!(outcome, Outcome::Error);
}

#[test]
fn test_priority_error_over_shutdown() {
    let job = create_test_job(0, 3);
    let mut job_result = create_basic_job_result(PhaseResult::Continue, vec![]);
    job_result.error = Some("Some error".to_string());

    let (outcome, _) = resolve_outcome(&job_result, &job, true);

    assert_eq!(outcome, Outcome::Error);
}

#[test]
fn test_priority_shutdown_over_measurement() {
    let job = create_test_job(0, 3);
    let job_result = create_basic_job_result(
        PhaseResult::Continue,
        vec![create_measurement_with_validator(ValidatorOutcome::Fail)],
    );

    let (outcome, _) = resolve_outcome(&job_result, &job, true);

    assert_eq!(outcome, Outcome::Stop);
}

#[test]
fn test_priority_measurement_over_phase_result() {
    let job = create_test_job(0, 3);
    let job_result = create_basic_job_result(
        PhaseResult::Continue,
        vec![create_measurement_with_validator(ValidatorOutcome::Fail)],
    );

    let (outcome, _) = resolve_outcome(&job_result, &job, false);

    assert_eq!(outcome, Outcome::Fail);
}

#[test]
fn test_retry_at_exact_limit_boundary() {
    let job = create_test_job(2, 3);
    let job_result = create_basic_job_result(PhaseResult::Retry, vec![]);

    let (outcome, is_retry_exceeded) = resolve_outcome(&job_result, &job, false);

    assert_eq!(outcome, Outcome::Retry);
    assert!(!is_retry_exceeded);
}

#[test]
fn test_retry_overrides_measurement_failure_when_authorized() {
    let job = create_test_job(1, 3);
    let job_result = create_basic_job_result(
        PhaseResult::Retry,
        vec![create_measurement_with_validator(ValidatorOutcome::Fail)],
    );

    let (outcome, is_retry_exceeded) = resolve_outcome(&job_result, &job, false);

    assert_eq!(outcome, Outcome::Retry);
    assert!(!is_retry_exceeded);
}

#[test]
fn test_measurement_failure_applies_when_retry_not_authorized() {
    let job = create_test_job(3, 3);
    let job_result = create_basic_job_result(
        PhaseResult::Retry,
        vec![create_measurement_with_validator(ValidatorOutcome::Fail)],
    );

    let (outcome, is_retry_exceeded) = resolve_outcome(&job_result, &job, false);

    assert_eq!(outcome, Outcome::Fail);
    assert!(is_retry_exceeded);
}

#[test]
fn test_multiple_measurements_one_fails() {
    let job = create_test_job(0, 3);
    let job_result = create_basic_job_result(
        PhaseResult::Continue,
        vec![
            create_measurement_with_validator(ValidatorOutcome::Pass),
            create_measurement_with_validator(ValidatorOutcome::Fail),
            create_measurement_with_validator(ValidatorOutcome::Pass),
        ],
    );

    let (outcome, _) = resolve_outcome(&job_result, &job, false);

    assert_eq!(outcome, Outcome::Fail);
}

#[test]
fn test_complex_priority_error_timeout_shutdown() {
    let job = create_test_job(0, 3);
    let mut job_result = create_basic_job_result(PhaseResult::Continue, vec![]);
    job_result.error = Some("Error".to_string());
    job_result.timeout_secs = Some(60);

    let (outcome, _) = resolve_outcome(&job_result, &job, true);

    assert_eq!(outcome, Outcome::Error);
}

#[test]
fn test_priority_timeout_over_shutdown() {
    let job = create_test_job(0, 3);
    let mut job_result = create_basic_job_result(PhaseResult::Continue, vec![]);
    job_result.timeout_secs = Some(60);

    let (outcome, _) = resolve_outcome(&job_result, &job, true);

    assert_eq!(outcome, Outcome::Timeout);
}

#[test]
fn test_priority_shutdown_over_retry() {
    let job = create_test_job(1, 3);
    let job_result = create_basic_job_result(PhaseResult::Retry, vec![]);

    let (outcome, _) = resolve_outcome(&job_result, &job, true);

    assert_eq!(outcome, Outcome::Stop);
}

#[test]
fn test_priority_shutdown_over_skip() {
    let job = create_test_job(0, 3);
    let job_result = create_basic_job_result(PhaseResult::Skip, vec![]);

    let (outcome, _) = resolve_outcome(&job_result, &job, true);

    assert_eq!(outcome, Outcome::Stop);
}

#[test]
fn test_priority_shutdown_over_explicit_fail() {
    let job = create_test_job(0, 3);
    let job_result = create_basic_job_result(PhaseResult::Fail, vec![]);

    let (outcome, _) = resolve_outcome(&job_result, &job, true);

    assert_eq!(outcome, Outcome::Stop);
}
