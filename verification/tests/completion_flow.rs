use tofupilot_studio::completion::{determine_next_action, resolve_outcome};
use tofupilot_studio::job::{Job, JobResult, JobStatus, Outcome, PhaseResult, RuntimeType};
use tofupilot_studio::measurements::{Measurement, ValidatorSpec};
use tofupilot_studio::schema::{PhaseDefinition, PhaseNextAction, StageScope, ThenConfig, ValidatorOutcome};
use tofupilot_studio::string_map::StringMap;
use tofupilot_studio::ui::UiConfig;
use uuid::Uuid;

fn create_test_job(retry_count: usize, retry_limit: usize) -> Job {
    let id = Uuid::new_v4().as_u128();
    Job {
        id,
        slot_id: None,
        phase_key: "test_phase".to_string(),
        phase_name: "Test Phase".to_string(),
        stage_scope: StageScope::Main,
        module: "phases.test".to_string(),
        function: "test".to_string(),
        depends_on: vec![],
        required_plugs: vec![],
        ui_config: UiConfig::empty(),
        status: JobStatus::Running,
        result: None,
        retry_count,
        retry_limit,
        retry_delay_ms: None,
        timeout_ms: None,
        runtime_type: RuntimeType::Python,
        command: None,
        shell_type: None,
        working_directory: None,
        procedure_dir: None,
        phase_measurements: vec![],
        initial_unit_info: None,
        phase_results: StringMap::new(),
        dependency_id: id,
    }
}

fn create_phase_def(then_config: Option<ThenConfig>) -> PhaseDefinition {
    PhaseDefinition {
        key: "test_phase".to_string(),
        name: "Test Phase".to_string(),
        python: None,
        executable: None,
        description: None,
        measurements: vec![],
        ui: None,
        enabled: true,
        depends_on: vec![],
        timeout: None,
        retry: None,
        then_config,
    }
}

fn create_basic_job_result(phase_result: PhaseResult, measurements: Vec<Measurement>) -> JobResult {
    let now = chrono::Utc::now().timestamp_millis();
    JobResult {
        phase_result,
        phase_outcome: Outcome::Pass,
        next_action: None,
        timeout_secs: None,
        error: None,
        exit_code: None,
        measurements,
        logs: vec![],
        started_at: now,
        completed_at: now,
        unit: None,
        input_unit_info: None,
        retry_count: 0,
    }
}

fn create_measurement_with_validator(outcome: ValidatorOutcome) -> Measurement {
    Measurement {
        name: "voltage".to_string(),
        unit: Some("V".to_string()),
        timestamp: chrono::Utc::now().to_rfc3339(),
        description: None,
        validators: Some(vec![ValidatorSpec {
            outcome: Some(outcome),
            operator: Some("less_than".to_string()),
            expression: None,
        }]),
    }
}

#[test]
fn test_example1_happy_path() {
    let job = create_test_job(0, 3);
    let job_result = create_basic_job_result(
        PhaseResult::Continue,
        vec![create_measurement_with_validator(ValidatorOutcome::Pass)],
    );

    let (outcome, _) = resolve_outcome(&job_result, &job, false);
    let next_action = determine_next_action(&job_result, &outcome, None, false);

    assert_eq!(outcome, Outcome::Pass);
    assert_eq!(next_action, PhaseNextAction::Continue);
}

#[test]
fn test_example2_timeout_overrides_user() {
    let job = create_test_job(0, 3);
    let mut job_result = create_basic_job_result(PhaseResult::Continue, vec![]);
    job_result.timeout_secs = Some(60);

    let (outcome, _) = resolve_outcome(&job_result, &job, false);
    let next_action = determine_next_action(&job_result, &outcome, None, false);

    assert_eq!(outcome, Outcome::Timeout);
    assert_eq!(next_action, PhaseNextAction::Stop);
}

#[test]
fn test_retry_flow() {
    let job = create_test_job(1, 3);
    let job_result = create_basic_job_result(PhaseResult::Retry, vec![]);

    let (outcome, _) = resolve_outcome(&job_result, &job, false);
    let next_action = determine_next_action(&job_result, &outcome, None, false);

    assert_eq!(outcome, Outcome::Retry);
    assert_eq!(next_action, PhaseNextAction::Retry);
}

#[test]
fn test_measurement_failure_with_on_first_failure() {
    let job = create_test_job(0, 3);
    let job_result = create_basic_job_result(
        PhaseResult::Continue,
        vec![create_measurement_with_validator(ValidatorOutcome::Fail)],
    );

    let (outcome, _) = resolve_outcome(&job_result, &job, false);
    let next_action = determine_next_action(&job_result, &outcome, None, true);

    assert_eq!(outcome, Outcome::Fail);
    assert_eq!(next_action, PhaseNextAction::Stop);
}

#[test]
fn test_explicit_fail_with_on_first_failure() {
    let job = create_test_job(0, 3);
    let job_result = create_basic_job_result(PhaseResult::Fail, vec![]);

    let (outcome, _) = resolve_outcome(&job_result, &job, false);
    let next_action = determine_next_action(&job_result, &outcome, None, true);

    assert_eq!(outcome, Outcome::Fail);
    assert_eq!(next_action, PhaseNextAction::Stop);
}

#[test]
fn test_error_always_stops() {
    let job = create_test_job(0, 3);
    let mut job_result = create_basic_job_result(PhaseResult::Continue, vec![]);
    job_result.error = Some("Exception occurred".to_string());

    let (outcome, _) = resolve_outcome(&job_result, &job, false);
    let next_action = determine_next_action(&job_result, &outcome, None, false);

    assert_eq!(outcome, Outcome::Error);
    assert_eq!(next_action, PhaseNextAction::Stop);
}

#[test]
fn test_timeout_always_stops() {
    let job = create_test_job(0, 3);
    let mut job_result = create_basic_job_result(PhaseResult::Continue, vec![]);
    job_result.timeout_secs = Some(60);
    let phase_def = create_phase_def(Some(ThenConfig {
        pass: None,
        fail: None,
        error: None,
        timeout: Some(PhaseNextAction::Continue),
    }));

    let (outcome, _) = resolve_outcome(&job_result, &job, false);
    let next_action = determine_next_action(&job_result, &outcome, Some(&phase_def), false);

    assert_eq!(outcome, Outcome::Timeout);
    assert_eq!(next_action, PhaseNextAction::Stop);
}

#[test]
fn test_shutdown_during_execution() {
    let job = create_test_job(0, 3);
    let job_result = create_basic_job_result(PhaseResult::Continue, vec![]);

    let (outcome, _) = resolve_outcome(&job_result, &job, true);
    let next_action = determine_next_action(&job_result, &outcome, None, false);

    assert_eq!(outcome, Outcome::Stop);
    assert_eq!(next_action, PhaseNextAction::Stop);
}
