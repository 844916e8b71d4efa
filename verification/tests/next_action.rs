use tofupilot_studio::completion::determine_next_action;
use tofupilot_studio::job::{JobResult, Outcome, PhaseResult};
use tofupilot_studio::schema::{PhaseDefinition, PhaseNextAction, ThenConfig};

fn create_basic_job_result(phase_result: PhaseResult) -> JobResult {
    let now = chrono::Utc::now().timestamp_millis();
    JobResult {
        phase_result,
        phase_outcome: Outcome::Pass,
        next_action: None,
        timeout_secs: None,
        error: None,
        exit_code: None,
        measurements: vec![],
        logs: vec![],
        started_at: now,
        completed_at: now,
        unit: None,
        input_unit_info: None,
        retry_count: 0,
    }
}

fn create_phase_def(then_config: Option<ThenConfig>) -> PhaseDefinition {
    PhaseDefinition {
        key: "test_phase".to_string(),
        name: "Test Phase".to_string(),
        python: None,
        executable: None,
        description: None,
        measurements: vec![],
        ui: None,
        enabled: true,
        depends_on: vec![],
        timeout: None,
        retry: None,
        then_config,
    }
}

#[test]
fn test_outcome_pass_continues() {
    let job_result = create_basic_job_result(PhaseResult::Continue);
    let outcome = Outcome::Pass;

    let next_action = determine_next_action(&job_result, &outcome, None, false);

    assert_eq!(next_action, PhaseNextAction::Continue);
}

#[test]
fn test_outcome_skip_continues() {
    let job_result = create_basic_job_result(PhaseResult::Skip);
    let outcome = Outcome::Skip;

    let next_action = determine_next_action(&job_result, &outcome, None, false);

    assert_eq!(next_action, PhaseNextAction::Continue);
}

#[test]
fn test_outcome_retry_retries() {
    let job_result = create_basic_job_result(PhaseResult::Retry);
    let outcome = Outcome::Retry;

    let next_action = determine_next_action(&job_result, &outcome, None, false);

    assert_eq!(next_action, PhaseNextAction::Retry);
}

#[test]
fn test_outcome_error_stops() {
    let job_result = create_basic_job_result(PhaseResult::Continue);
    let outcome = Outcome::Error;

    let next_action = determine_next_action(&job_result, &outcome, None, false);

    assert_eq!(next_action, PhaseNextAction::Stop);
}

#[test]
fn test_outcome_timeout_stops() {
    let job_result = create_basic_job_result(PhaseResult::Continue);
    let outcome = Outcome::Timeout;

    let next_action = determine_next_action(&job_result, &outcome, None, false);

    assert_eq!(next_action, PhaseNextAction::Stop);
}

#[test]
fn test_outcome_stop_stops() {
    let job_result = create_basic_job_result(PhaseResult::Stop);
    let outcome = Outcome::Stop;

    let next_action = determine_next_action(&job_result, &outcome, None, false);

    assert_eq!(next_action, PhaseNextAction::Stop);
}

#[test]
fn test_fail_without_on_first_failure_continues() {
    let job_result = create_basic_job_result(PhaseResult::Fail);
    let outcome = Outcome::Fail;

    let next_action = determine_next_action(&job_result, &outcome, None, false);

    assert_eq!(next_action, PhaseNextAction::Continue);
}

#[test]
fn test_fail_with_on_first_failure_stops() {
    let job_result = create_basic_job_result(PhaseResult::Fail);
    let outcome = Outcome::Fail;

    let next_action = determine_next_action(&job_result, &outcome, None, true);

    assert_eq!(next_action, PhaseNextAction::Stop);
}

#[test]
fn test_then_pass_override() {
    let job_result = create_basic_job_result(PhaseResult::Continue);
    let outcome = Outcome::Pass;
    let phase_def = create_phase_def(Some(ThenConfig {
        pass: Some(PhaseNextAction::Stop),
        fail: None,
        error: None,
        timeout: None,
    }));

    let next_action = determine_next_action(&job_result, &outcome, Some(&phase_def), false);

    assert_eq!(next_action, PhaseNextAction::Stop);
}

#[test]
fn test_then_fail_override() {
    let job_result = create_basic_job_result(PhaseResult::Fail);
    let outcome = Outcome::Fail;
    let phase_def = create_phase_def(Some(ThenConfig {
        pass: None,
        fail: Some(PhaseNextAction::Continue),
        error: None,
        timeout: None,
    }));

    let next_action = determine_next_action(&job_result, &outcome, Some(&phase_def), true);

    assert_eq!(next_action, PhaseNextAction::Continue);
}

#[test]
fn test_then_fail_continue_overrides_on_first_failure_stop() {
    let job_result = create_basic_job_result(PhaseResult::Fail);
    let outcome = Outcome::Fail;
    let phase_def = create_phase_def(Some(ThenConfig {
        pass: None,
        fail: Some(PhaseNextAction::Continue),
        error: None,
        timeout: None,
    }));

    let next_action = determine_next_action(&job_result, &outcome, Some(&phase_def), true);

    assert_eq!(next_action, PhaseNextAction::Continue);
}

#[test]
fn test_timeout_always_stops_despite_then_config() {
    let job_result = create_basic_job_result(PhaseResult::Continue);
    let outcome = Outcome::Timeout;
    let phase_def = create_phase_def(Some(ThenConfig {
        pass: None,
        fail: None,
        error: None,
        timeout: Some(PhaseNextAction::Continue),
    }));

    let next_action = determine_next_action(&job_result, &outcome, Some(&phase_def), false);

    assert_eq!(next_action, PhaseNextAction::Stop);
}

#[test]
fn test_error_always_stops_despite_then_config() {
    let job_result = create_basic_job_result(PhaseResult::Continue);
    let outcome = Outcome::Error;
    let phase_def = create_phase_def(Some(ThenConfig {
        pass: None,
        fail: None,
        error: Some(PhaseNextAction::Continue),
        timeout: None,
    }));

    let next_action = determine_next_action(&job_result, &outcome, Some(&phase_def), false);

    assert_eq!(next_action, PhaseNextAction::Stop);
}

#[test]
fn test_on_first_failure_respected_when_no_then_config() {
    let job_result = create_basic_job_result(PhaseResult::Fail);
    let outcome = Outcome::Fail;
    let phase_def = create_phase_def(None);

    let next_action = determine_next_action(&job_result, &outcome, Some(&phase_def), true);

    assert_eq!(next_action, PhaseNextAction::Stop);
}

#[test]
fn test_phase_result_retry_when_limit_exceeded_fails() {
    let job_result = create_basic_job_result(PhaseResult::Retry);
    let outcome = Outcome::Fail;

    let next_action = determine_next_action(&job_result, &outcome, None, true);

    assert_eq!(next_action, PhaseNextAction::Stop);
}
