use tofupilot_studio::id_map::JobIdMap;
use tofupilot_studio::job::{Job, JobResult, Outcome, PhaseResult, PythonPhaseResult};
use tofupilot_studio::measurements::Measurement;
use tofupilot_studio::phase_run::{
    apply_operator_submission, convert_job_result, is_terminal_result, make_request_id, merge_bound_measurements,
    native_phase_result, plug_address, resolve_phase_result, shell_job_result, ui_mode, ui_wait_action,
    unit_info_from_fields, OperatorReply, PhaseReport, SubmissionState, UiMode, UiWaitAction,
};
use tofupilot_studio::schema::StageScope;
use tofupilot_studio::string_map::StringMap;
use tofupilot_studio::ui::{ComponentType, UiComponent, UiConfig};
use tofupilot_studio::unit_merge::{merge_phase_unit, merge_unit_info, merge_unit_reports, UnitReport};
use tofupilot_studio::unit::UnitInfo;

fn job() -> Job {
    Job::new(
        Some("s1".to_string()),
        "p".to_string(),
        "P".to_string(),
        StageScope::Main,
        "m".to_string(),
        "f".to_string(),
        vec![],
        vec![],
        UiConfig::empty(),
        None,
        None,
        None,
        &JobIdMap::new(),
        vec![],
    )
}

fn measurement(name: &str) -> Measurement {
    Measurement { name: name.to_string(), unit: None, timestamp: String::new(), validators: None, description: None }
}

fn unit(sn: Option<&str>, status: &str, subs: &[(&str, &str)]) -> UnitInfo {
    let sub_units = if subs.is_empty() {
        None
    } else {
        let mut m = StringMap::new();
        for (k, v) in subs {
            m.insert(k.to_string(), v.to_string());
        }
        Some(m)
    };
    UnitInfo {
        serial_number: sn.map(|s| s.to_string()),
        part_number: None,
        revision_number: None,
        batch_number: None,
        sub_units,
        status: status.to_string(),
        metadata: None,
    }
}

fn component(kind: ComponentType) -> UiComponent {
    UiComponent {
        key: "k".to_string(),
        label: None,
        component_type: kind,
        is_input: kind.is_input(),
        description: None,
        required: false,
        placeholder: None,
        options: None,
        columns: None,
        default_value: None,
        value: None,
        width: None,
        height: None,
        aspect: None,
        fit: None,
        bind: None,
        min_length: None,
        max_length: None,
        pattern: None,
        prefix: None,
        suffix: None,
        trim: false,
        rows: None,
        size: None,
        color: None,
        font: None,
    }
}

#[test]
fn python_answers_become_phase_results() {
    let r = |v: PythonPhaseResult| PhaseResult::from_python_result(&v);
    assert_eq!(r(PythonPhaseResult::Bool(true)).ok(), Some(PhaseResult::Continue));
    assert_eq!(r(PythonPhaseResult::Bool(false)).ok(), Some(PhaseResult::Fail));
    assert_eq!(r(PythonPhaseResult::Null).ok(), Some(PhaseResult::Continue));
    assert_eq!(r(PythonPhaseResult::String("retry".to_string())).ok(), Some(PhaseResult::Retry));
    assert_eq!(r(PythonPhaseResult::String("Skip".to_string())).ok(), Some(PhaseResult::Skip));
    assert_eq!(r(PythonPhaseResult::String("STOP".to_string())).ok(), Some(PhaseResult::Stop));
    assert_eq!(r(PythonPhaseResult::String("later".to_string())).err(), Some("Unknown phase result: later".to_string()));
    assert_eq!(resolve_phase_result(&Some(PythonPhaseResult::String("bogus".to_string()))), PhaseResult::Continue);
    assert_eq!(resolve_phase_result(&None), PhaseResult::Continue);
    assert_eq!(resolve_phase_result(&Some(PythonPhaseResult::String("fail".to_string()))), PhaseResult::Fail);
}

#[test]
fn terminal_answers_and_ui_waiting() {
    assert!(is_terminal_result(PhaseResult::Skip, false));
    assert!(!is_terminal_result(PhaseResult::Continue, false));
    assert!(is_terminal_result(PhaseResult::Continue, true));
    assert_eq!(ui_wait_action(SubmissionState::Submitted, true), UiWaitAction::UseSubmission);
    assert_eq!(ui_wait_action(SubmissionState::Pending, true), UiWaitAction::Dismiss);
    assert_eq!(ui_wait_action(SubmissionState::Pending, false), UiWaitAction::Wait);
    assert_eq!(ui_wait_action(SubmissionState::Closed, false), UiWaitAction::Ignore);
    assert_eq!(native_phase_result(false, OperatorReply::Cancelled), (PhaseResult::Continue, None));
    assert_eq!(native_phase_result(true, OperatorReply::Cancelled), (PhaseResult::Stop, None));
    assert_eq!(
        native_phase_result(true, OperatorReply::NoChannel),
        (PhaseResult::Continue, Some("No UI response channel available".to_string()))
    );
}

#[test]
fn ui_modes() {
    assert_eq!(ui_mode(&UiConfig::empty()), UiMode::NoUi);
    let display = UiConfig { components: vec![component(ComponentType::Text)], requires_input: None };
    assert_eq!(ui_mode(&display), UiMode::DisplayOnly);
    let input = UiConfig { components: vec![component(ComponentType::TextInput)], requires_input: None };
    assert_eq!(ui_mode(&input), UiMode::AwaitInput);
    let confirm = UiConfig { components: vec![component(ComponentType::Text)], requires_input: Some(true) };
    assert_eq!(ui_mode(&confirm), UiMode::AwaitInput);
}

#[test]
fn request_ids_and_addresses() {
    let id = make_request_id(0x1234, 42);
    assert_eq!(id, "00000000-0000-0000-0000-000000001234_42");
    assert_eq!(make_request_id(0, -5), "00000000-0000-0000-0000-000000000000_-5");
    assert_eq!(plug_address(8080), "127.0.0.1:8080");
}

#[test]
fn bound_measurements_do_not_replace_phase_ones() {
    let mut ms = vec![measurement("voltage")];
    merge_bound_measurements(&mut ms, vec![measurement("voltage"), measurement("current")]);
    let names: Vec<&str> = ms.iter().map(|m| m.name.as_str()).collect();
    assert_eq!(names, vec!["voltage", "current"]);
}

#[test]
fn shell_results_log_the_run() {
    let j = job();
    let r = shell_job_result(&j, "bash", "echo hi", "/tmp", "hi\nthere", "warn", false, Some(2), 1, 2);
    assert_eq!(r.phase_result, PhaseResult::Fail);
    assert_eq!(r.exit_code, Some(2));
    let logs: Vec<(&str, &str)> = r.logs.iter().map(|l| (l.level.as_str(), l.message.as_str())).collect();
    assert_eq!(
        logs,
        vec![
            ("INFO", "🐚 Executing command with bash: echo hi"),
            ("INFO", "📁 Working directory: /tmp"),
            ("INFO", "hi"),
            ("INFO", "there"),
            ("ERROR", "warn"),
            ("ERROR", "❌ Command failed with exit code 2"),
        ]
    );
    let ok = shell_job_result(&j, "sh", "true", "/", "", "", true, Some(0), 1, 2);
    assert_eq!(ok.phase_result, PhaseResult::Continue);
    assert_eq!(ok.logs.last().map(|l| l.message.as_str()), Some("✅ Command succeeded with exit code 0"));
    let killed = shell_job_result(&j, "sh", "x", "/", "", "", false, None, 1, 2);
    assert_eq!(killed.logs.last().map(|l| l.message.as_str()), Some("❌ Command failed with exit code -1"));
}

#[test]
fn python_reports_become_results() {
    let j = job();
    let report = PhaseReport {
        answer: Some(PythonPhaseResult::String("retry".to_string())),
        error: Some("bad".to_string()),
        exit_code: Some(1),
        measurements: vec![measurement("v")],
        logs: vec![],
        unit: None,
    };
    let r = convert_job_result(report, 10, 20, &j);
    assert_eq!(r.phase_result, PhaseResult::Retry);
    assert_eq!(r.error.as_deref(), Some("bad"));
    assert_eq!(r.started_at, 10);
    assert_eq!(r.completed_at, 20);
    assert_eq!(r.measurements.len(), 1);
}

#[test]
fn operator_submission_adds_measurements_and_unit() {
    let mut r = JobResult::bare(PhaseResult::Continue, Outcome::Pass, 0);
    r.measurements = vec![measurement("a")];
    r.unit = Some(unit(Some("SN-1"), "tested", &[("battery", "B1")]));
    apply_operator_submission(&mut r, vec![measurement("b")], Some(unit(None, "tested", &[("motor", "M1")])));
    assert_eq!(r.measurements.len(), 2);
    let u = r.unit.expect("unit");
    assert_eq!(u.serial_number.as_deref(), Some("SN-1"));
    let subs = u.sub_units.expect("subs");
    assert_eq!(subs.get("battery").map(|s| s.as_str()), Some("B1"));
    assert_eq!(subs.get("motor").map(|s| s.as_str()), Some("M1"));
}

#[test]
fn form_fields_become_a_unit() {
    let u = unit_info_from_fields(Some("SN".to_string()), None, Some("PN".to_string()), None, StringMap::new());
    assert_eq!(u.status, "tested");
    assert!(u.sub_units.is_none());
    assert_eq!(u.part_number.as_deref(), Some("PN"));
}

#[test]
fn operator_entry_overrides_known_fields() {
    let known = unit(Some("OLD"), "complete", &[("battery", "B1"), ("motor", "M1")]);
    let entered = unit(Some("NEW"), "tested", &[("motor", "M2")]);
    let u = merge_unit_info(Some(known), entered);
    assert_eq!(u.serial_number.as_deref(), Some("NEW"));
    assert_eq!(u.status, "complete");
    let subs = u.sub_units.expect("subs");
    assert_eq!(subs.get("battery").map(|s| s.as_str()), Some("B1"));
    assert_eq!(subs.get("motor").map(|s| s.as_str()), Some("M2"));
    let alone = merge_unit_info(None, unit(Some("X"), "tested", &[]));
    assert_eq!(alone.serial_number.as_deref(), Some("X"));
}

#[test]
fn phase_reports_count_only_changes() {
    let base = unit(Some("SN-1"), "complete", &[("battery", "B1")]);
    let given = unit(Some("SN-1"), "complete", &[("battery", "B1")]);
    // The phase hands back what it was given, with one new sub-unit.
    let reported = unit(Some("SN-1"), "tested", &[("battery", "B1"), ("motor", "M9")]);
    let u = merge_phase_unit(Some(base), &reported, Some(&given));
    assert_eq!(u.serial_number.as_deref(), Some("SN-1"));
    assert_eq!(u.status, "tested");
    let subs = u.sub_units.expect("subs");
    assert_eq!(subs.len(), 2);
    assert_eq!(subs.get("motor").map(|s| s.as_str()), Some("M9"));
    // A later phase changing the serial number wins.
    let reports = vec![
        UnitReport { unit: unit(Some("SN-2"), "tested", &[]), input: Some(unit(Some("SN-1"), "complete", &[])) },
    ];
    let merged = merge_unit_reports(Some(unit(Some("SN-1"), "complete", &[])), &reports).expect("merged");
    assert_eq!(merged.serial_number.as_deref(), Some("SN-2"));
    assert!(merge_unit_reports(None, &vec![]).is_none());
}
