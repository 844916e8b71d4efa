use tofupilot_studio::completion::apply_completion;
use tofupilot_studio::cli_text::MessageType;
use tofupilot_studio::id_map::JobIdMap;
use tofupilot_studio::job::{match_result_word, JobResult, Outcome, PhaseResult};
use tofupilot_studio::measurements::MeasurementSpec;
use tofupilot_studio::phase_run::make_request_id;
use tofupilot_studio::planning::create_job_for_phase;
use tofupilot_studio::schema::{
    ExecutableSpec, FirstFailureAction, PhaseDefinition, ProcedureDefinition, ProcedureUiComponent, ProcedureUiConfig,
    PythonSpec, StageScope, UIComponentType,
};
use tofupilot_studio::shell::{resolve_working_directory, working_directory_for, WorkingDirectory};
use tofupilot_studio::shutdown::expire_teardown_jobs;
use tofupilot_studio::state::OrchestratorState;
use tofupilot_studio::ui::ComponentType;

fn ui_component(key: &str) -> ProcedureUiComponent {
    ProcedureUiComponent {
        key: key.to_string(),
        label: Some("Serial".to_string()),
        component_type: UIComponentType::TextInput,
        description: None,
        required: true,
        placeholder: None,
        options: None,
        columns: None,
        default_value: None,
        width: None,
        height: None,
        aspect: None,
        fit: None,
        bind: None,
        min_length: None,
        max_length: None,
        pattern: None,
        prefix: None,
        suffix: None,
        trim: false,
        rows: None,
        size: None,
        color: None,
        font: None,
    }
}

fn phase(python: bool, shell: bool) -> PhaseDefinition {
    PhaseDefinition {
        key: "scan".to_string(),
        name: "Scan".to_string(),
        python: if python { Some(PythonSpec { module: "phases".to_string(), function: "scan".to_string() }) } else { None },
        executable: if shell {
            Some(ExecutableSpec { command: "echo hi".to_string(), shell: None, working_directory: None })
        } else {
            None
        },
        description: None,
        measurements: vec![MeasurementSpec {
            name: "voltage".to_string(),
            unit: Some("V".to_string()),
            description: Some("Rail".to_string()),
        }],
        ui: Some(ProcedureUiConfig { components: Some(vec![ui_component("sn")]), requires_input: Some(true) }),
        enabled: true,
        depends_on: vec![],
        timeout: None,
        retry: None,
        then_config: None,
    }
}

fn procedure() -> ProcedureDefinition {
    ProcedureDefinition {
        name: "Board test".to_string(),
        version: "1.0".to_string(),
        description: String::new(),
        setup_all: vec![],
        setup_each: vec![],
        main: vec![],
        teardown_each: vec![],
        teardown_all: vec![],
        plugs: vec![],
        on_first_failure: FirstFailureAction::Continue,
        unit: None,
        execution: None,
    }
}

#[test]
fn phase_job_carries_ui_and_measurements() {
    let p = phase(true, false);
    let j = create_job_for_phase(&p, Some("s1".to_string()), StageScope::Main, vec![], &JobIdMap::new(), "/tmp", &procedure());
    assert_eq!(j.ui_config.components.len(), 1);
    assert_eq!(j.ui_config.components[0].key, "sn");
    assert_eq!(j.ui_config.components[0].component_type, ComponentType::TextInput);
    assert_eq!(j.ui_config.requires_input, Some(true));
    assert_eq!(j.phase_measurements.len(), 1);
    assert_eq!(j.phase_measurements[0].name, "voltage");
    assert_eq!(j.phase_measurements[0].unit.as_deref(), Some("V"));

    let native = create_job_for_phase(&phase(false, false), None, StageScope::Main, vec![], &JobIdMap::new(), "/tmp", &procedure());
    assert_eq!(native.phase_measurements.len(), 1);

    let shell = create_job_for_phase(&phase(false, true), None, StageScope::Main, vec![], &JobIdMap::new(), "/tmp", &procedure());
    assert!(shell.phase_measurements.is_empty());
    assert_eq!(shell.ui_config.components.len(), 1);

    let mut no_ui = phase(true, false);
    no_ui.ui = None;
    let j = create_job_for_phase(&no_ui, None, StageScope::Main, vec![], &JobIdMap::new(), "/tmp", &procedure());
    assert!(j.ui_config.components.is_empty());
    assert_eq!(j.ui_config.requires_input, None);
}

#[test]
fn retry_keeps_ui_and_measurements() {
    let j = create_job_for_phase(&phase(true, false), Some("s1".to_string()), StageScope::Main, vec![], &JobIdMap::new(), "/tmp", &procedure());
    let r = j.create_retry_job();
    assert_eq!(r.retry_count, 1);
    assert_eq!(r.ui_config.components.len(), 1);
    assert_eq!(r.ui_config.components[0].key, "sn");
    assert_eq!(r.ui_config.components[0].label.as_deref(), Some("Serial"));
    assert_eq!(r.ui_config.requires_input, Some(true));
    assert_eq!(r.phase_measurements.len(), 1);
    assert_eq!(r.phase_measurements[0].description.as_deref(), Some("Rail"));
}

#[test]
fn result_words_are_matched_exactly() {
    assert_eq!(match_result_word(&"CONTINUE".to_string()), Some(PhaseResult::Continue));
    assert_eq!(match_result_word(&"RETRY".to_string()), Some(PhaseResult::Retry));
    assert_eq!(match_result_word(&"SKIP".to_string()), Some(PhaseResult::Skip));
    assert_eq!(match_result_word(&"STOP".to_string()), Some(PhaseResult::Stop));
    assert_eq!(match_result_word(&"FAIL".to_string()), Some(PhaseResult::Fail));
    assert_eq!(match_result_word(&"continue".to_string()), None);
    assert_eq!(match_result_word(&"PASS".to_string()), None);
}

#[test]
fn request_id_uses_hyphenated_hex() {
    assert_eq!(
        make_request_id(0x0123456789abcdef0011223344556677, 3),
        "01234567-89ab-cdef-0011-223344556677_3"
    );
}

#[test]
fn component_type_names_list_inputs_first() {
    let names = ComponentType::all_valid_types();
    assert_eq!(names.len(), 15);
    for (i, n) in names.iter().enumerate() {
        let t = ComponentType::from_str(n).expect("known kind");
        assert_eq!(t.as_str(), *n);
        assert_eq!(t.is_input(), i < 11);
    }
    assert!(ComponentType::from_str("button").is_none());
    assert!(ComponentType::ImageChecklist.is_input());
    assert!(ComponentType::Select.is_input());
    assert!(!ComponentType::Text.is_input());
    assert!(!ComponentType::ArtificialHorizon.is_input());
}

#[test]
fn completing_a_first_attempt_counts_it_once() {
    let mut state = OrchestratorState::new(1);
    let j = create_job_for_phase(&phase(true, false), Some("s1".to_string()), StageScope::Main, vec![], &JobIdMap::new(), "/tmp", &procedure());
    let id = j.id;
    let r = JobResult::bare(PhaseResult::Continue, Outcome::Pass, 0);
    apply_completion(&mut state, id, j, r, None);
    assert_eq!(state.original_jobs_completed, 1);
}

#[test]
fn progress_with_no_steps_renders_zero_percent() {
    let line = MessageType::Progress("Loading".to_string(), usize::MAX, 0).render();
    assert!(line.text.ends_with("(0%)"));
}

#[test]
fn working_directory_choice() {
    assert!(matches!(working_directory_for(Some("/abs"), Some("/proc"), true), WorkingDirectory::Given(d) if d == "/abs"));
    assert!(matches!(
        working_directory_for(Some("sub"), Some("/proc"), false),
        WorkingDirectory::UnderProcedure(p, d) if p == "/proc" && d == "sub"
    ));
    assert!(matches!(working_directory_for(Some("sub"), None, false), WorkingDirectory::Given(d) if d == "sub"));
    assert!(matches!(working_directory_for(None, Some("/proc"), false), WorkingDirectory::Procedure(p) if p == "/proc"));
    assert!(matches!(working_directory_for(None, None, false), WorkingDirectory::Current));
    assert!(matches!(resolve_working_directory(Some("/abs"), Some("/proc")), WorkingDirectory::Given(d) if d == "/abs"));
    assert!(matches!(
        resolve_working_directory(Some("sub"), Some("/proc")),
        WorkingDirectory::UnderProcedure(p, d) if p == "/proc" && d == "sub"
    ));
}

#[test]
fn expired_teardown_jobs_are_completed_with_an_error() {
    let mut state = OrchestratorState::new(1);
    let j = create_job_for_phase(&phase(true, false), None, StageScope::TeardownAll, vec![], &JobIdMap::new(), "/tmp", &procedure());
    let id = j.id;
    state.enqueue_job(j);
    let expired = expire_teardown_jobs(&mut state);
    assert_eq!(expired.len(), 1);
    assert_eq!(expired[0].id, id);
    assert!(state.job_queue.is_empty());
    assert!(state.completed_jobs.contains(&id));
    let r = &state.job_results[&id];
    assert_eq!(r.phase_outcome, Outcome::Error);
    assert_eq!(r.error.as_deref(), Some("Teardown timeout during shutdown"));
}

#[test]
fn filtered_jobs_keep_their_results() {
    let mut j = create_job_for_phase(&phase(true, false), Some("s1".to_string()), StageScope::Main, vec![], &JobIdMap::new(), "/tmp", &procedure());
    let mut r = JobResult::bare(PhaseResult::Fail, Outcome::Fail, 7);
    r.error = Some("boom".to_string());
    j.result = Some(r);
    let other = create_job_for_phase(&phase(true, false), Some("s2".to_string()), StageScope::Main, vec![], &JobIdMap::new(), "/tmp", &procedure());
    let jobs = vec![j, other];
    let f = tofupilot_studio::planning::filter_jobs_by_slot_and_type(&jobs, Some("s1"), StageScope::Main);
    assert_eq!(f.len(), 1);
    let kept = f[0].result.as_ref().expect("result kept");
    assert_eq!(kept.error.as_deref(), Some("boom"));
    assert_eq!(kept.started_at, 7);
    assert_eq!(f[0].id, jobs[0].id);
}

#[test]
fn plainly_relative_directory_goes_under_the_procedure() {
    assert!(matches!(
        resolve_working_directory(Some("scripts"), Some("/proc")),
        WorkingDirectory::UnderProcedure(p, d) if p == "/proc" && d == "scripts"
    ));
}

#[test]
fn stop_on_first_failure_stops_the_failed_slot() {
    let mut state = OrchestratorState::new(2);
    state.should_stop_on_first_failure = true;
    let a = create_job_for_phase(&phase(true, false), Some("s1".to_string()), StageScope::Main, vec![], &JobIdMap::new(), "/tmp", &procedure());
    let b = create_job_for_phase(&phase(true, false), Some("s2".to_string()), StageScope::Main, vec![], &JobIdMap::new(), "/tmp", &procedure());
    let b_id = b.id;
    state.enqueue_job(b);
    let id = a.id;
    let r = JobResult::bare(PhaseResult::Fail, Outcome::Fail, 0);
    let step = apply_completion(&mut state, id, a, r, None);
    // Under stop-on-first-failure a failure stops the job's slot.
    assert_eq!(step.next_action, tofupilot_studio::schema::PhaseNextAction::Stop);
    assert_eq!(step.cancellations.len(), 1);
    assert_eq!(step.cancellations[0].message, "Skipped because slot s1 stopped");
    assert!(step.cancellations[0].jobs.is_empty());
    assert_eq!(state.job_queue.len(), 1);
    assert_eq!(state.job_queue[0].id, b_id);
}
