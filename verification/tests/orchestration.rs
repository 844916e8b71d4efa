use tofupilot_studio::completion::{apply_completion, get_phase_definition, handle_job_completion, JobCompletionEvent};
use tofupilot_studio::job::{Job, JobResult, Outcome, PhaseResult};
use tofupilot_studio::planning::{build_jobs, submit_procedure};
use tofupilot_studio::plugs::{get_plug_configs_for_job, plugs_to_create, plugs_to_destroy, PlugCreation, PlugTeardown};
use tofupilot_studio::procedure_check::check_phase_keys;
use tofupilot_studio::run_loop::{jobs_to_skip, next_loop_step, LoopStep};
use tofupilot_studio::scheduling::{assign_teardown_jobs, next_assignment};
use tofupilot_studio::shutdown::{collect_and_complete_jobs, stop_slot};
use tofupilot_studio::schema::{
    ExecutionStrategy, FirstFailureAction, PhaseDefinition, PhaseNextAction, PlugDefinition, ProcedureDefinition,
    PythonSpec, RetryConfig, Scope, StageScope,
};
use tofupilot_studio::state::OrchestratorState;
use tofupilot_studio::statistics::{count_failures, determine_aggregate_outcome, get_stats};

fn phase(key: &str) -> PhaseDefinition {
    PhaseDefinition {
        key: key.to_string(),
        name: key.to_uppercase(),
        python: Some(PythonSpec { module: "phases".to_string(), function: key.to_string() }),
        executable: None,
        description: None,
        measurements: vec![],
        ui: None,
        enabled: true,
        depends_on: vec![],
        timeout: None,
        retry: None,
        then_config: None,
    }
}

fn procedure(on_first_failure: FirstFailureAction) -> ProcedureDefinition {
    ProcedureDefinition {
        name: "Board test".to_string(),
        version: "1.0".to_string(),
        description: String::new(),
        setup_all: vec![phase("init")],
        setup_each: vec![],
        main: vec![phase("a"), phase("b")],
        teardown_each: vec![],
        teardown_all: vec![phase("cleanup")],
        plugs: vec![],
        on_first_failure,
        unit: None,
        execution: None,
    }
}

fn slots() -> Vec<String> {
    vec!["s1".to_string(), "s2".to_string()]
}

fn result(phase_result: PhaseResult) -> JobResult {
    JobResult::bare(phase_result, Outcome::Pass, 0)
}

fn keys(q: &[Job]) -> Vec<(String, Option<String>)> {
    q.iter().map(|j| (j.phase_key.clone(), j.slot_id.clone())).collect()
}

fn find(jobs: &[Job], key: &str, slot: Option<&str>) -> u128 {
    jobs.iter().find(|j| j.phase_key == key && j.slot_id.as_deref() == slot).expect("job").id
}

#[test]
fn build_jobs_plans_shared_then_slot_jobs() {
    let jobs = build_jobs(&procedure(FirstFailureAction::Continue), &slots(), "/tmp/proc");
    assert_eq!(
        keys(&jobs),
        vec![
            ("init".to_string(), None),
            ("cleanup".to_string(), None),
            ("a".to_string(), Some("s1".to_string())),
            ("b".to_string(), Some("s1".to_string())),
            ("a".to_string(), Some("s2".to_string())),
            ("b".to_string(), Some("s2".to_string())),
        ]
    );
    let init = find(&jobs, "init", None);
    for j in &jobs {
        assert_eq!(j.retry_count, 0);
        assert!(j.result.is_none());
        if j.stage_scope == StageScope::Main {
            assert!(j.depends_on.contains(&init));
        }
    }
}

#[test]
fn phase_first_submission_queues_stage_by_stage() {
    let mut state = OrchestratorState::new(2);
    let proc_def = procedure(FirstFailureAction::Stop);
    submit_procedure(&mut state, &proc_def, &slots(), ExecutionStrategy::PhaseFirst, "/tmp/proc").expect("submitted");
    assert!(state.should_stop_on_first_failure);
    assert_eq!(state.total_jobs_submitted, 6);
    assert_eq!(
        keys(&state.job_queue),
        vec![
            ("init".to_string(), None),
            ("a".to_string(), Some("s1".to_string())),
            ("a".to_string(), Some("s2".to_string())),
            ("b".to_string(), Some("s1".to_string())),
            ("b".to_string(), Some("s2".to_string())),
            ("cleanup".to_string(), None),
        ]
    );
}

#[test]
fn slot_first_submission_keeps_later_slots_pending() {
    let mut state = OrchestratorState::new(1);
    let proc_def = procedure(FirstFailureAction::Continue);
    submit_procedure(&mut state, &proc_def, &slots(), ExecutionStrategy::SlotFirst, "/tmp/proc").expect("submitted");
    assert_eq!(
        keys(&state.job_queue),
        vec![
            ("init".to_string(), None),
            ("a".to_string(), Some("s1".to_string())),
            ("b".to_string(), Some("s1".to_string())),
        ]
    );
    assert_eq!(state.pending_slot_jobs.len(), 1);
    assert_eq!(state.pending_slot_jobs[0].0, "s2");
    assert_eq!(state.teardown_procedure_jobs.len(), 1);
}

#[test]
fn ready_jobs_wait_for_their_dependencies() {
    let mut state = OrchestratorState::new(2);
    let proc_def = procedure(FirstFailureAction::Continue);
    submit_procedure(&mut state, &proc_def, &slots(), ExecutionStrategy::PhaseFirst, "/tmp/proc").expect("submitted");
    let first = state.pop_ready_job(|_| true).expect("setup is ready");
    assert_eq!(first.phase_key, "init");
    // Main phases wait for the shared setup; the shared teardown waits only
    // for per-slot teardowns, of which this procedure has none.
    let teardown = state.pop_ready_job(|_| true).expect("teardown has no dependency");
    assert_eq!(teardown.phase_key, "cleanup");
    assert!(state.pop_ready_job(|_| true).is_none());
    state.mark_job_active(first.id, 0).expect("idle worker");
    assert!(state.mark_job_active(first.id, 0).is_err());
    state.complete_original_job(first.id, result(PhaseResult::Continue));
    let next = state.pop_ready_job(|_| true).expect("main is ready");
    assert_eq!(next.phase_key, "a");
    assert_eq!(next.slot_id.as_deref(), Some("s1"));
}

#[test]
fn cancelling_a_slot_keeps_teardown() {
    let mut state = OrchestratorState::new(2);
    let proc_def = procedure(FirstFailureAction::Continue);
    submit_procedure(&mut state, &proc_def, &slots(), ExecutionStrategy::PhaseFirst, "/tmp/proc").expect("submitted");
    let cancelled = state.cancel_slot_jobs("s1");
    assert_eq!(cancelled.len(), 2);
    assert!(cancelled.iter().all(|j| j.slot_id.as_deref() == Some("s1")));
    assert_eq!(state.job_queue.len(), 4);
    let cancelled = state.cancel_all_jobs("stop");
    assert_eq!(cancelled.len(), 3);
    assert_eq!(keys(&state.job_queue), vec![("cleanup".to_string(), None)]);
}

#[test]
fn failed_phase_with_stop_on_first_failure_stops_its_slot() {
    let mut state = OrchestratorState::new(2);
    let proc_def = procedure(FirstFailureAction::Stop);
    submit_procedure(&mut state, &proc_def, &slots(), ExecutionStrategy::PhaseFirst, "/tmp/proc").expect("submitted");
    let init = state.pop_ready_job(|_| true).expect("setup");
    state.mark_job_active(init.id, 0).expect("idle");
    let step = apply_completion(&mut state, init.id, init, result(PhaseResult::Continue), None);
    assert_eq!(step.phase_outcome, Outcome::Pass);
    assert!(step.should_continue);
    let a1 = state.pop_ready_job(|_| true).expect("a/s1");
    let def = get_phase_definition(&proc_def, StageScope::Main, "a");
    assert_eq!(def.map(|d| d.key.as_str()), Some("a"));
    let id = a1.id;
    let step = apply_completion(&mut state, id, a1, result(PhaseResult::Fail), def);
    assert_eq!(step.phase_outcome, Outcome::Fail);
    // Under stop-on-first-failure a failure stops: the slot's other jobs go.
    assert_eq!(step.next_action, PhaseNextAction::Stop);
    assert!(!step.should_continue);
    assert!(state.shutdown_requested);
    assert_eq!(step.cancellations.len(), 1);
    assert_eq!(step.cancellations[0].message, "Skipped because slot s1 stopped");
    assert_eq!(
        keys(&state.job_queue),
        vec![("a".to_string(), Some("s2".to_string())), ("b".to_string(), Some("s2".to_string())), ("cleanup".to_string(), None)]
    );
    assert_eq!(count_failures(&state, None), 1);
    assert_eq!(determine_aggregate_outcome(&state, None), Outcome::Stop);
}

#[test]
fn retry_is_queued_first_within_its_budget() {
    let mut proc_def = procedure(FirstFailureAction::Continue);
    proc_def.setup_all[0].retry = Some(RetryConfig { limit: 1, delay: None });
    let mut state = OrchestratorState::new(1);
    submit_procedure(&mut state, &proc_def, &slots(), ExecutionStrategy::PhaseFirst, "/tmp/proc").expect("submitted");
    let init = state.pop_ready_job(|_| true).expect("setup");
    let id = init.id;
    let step = apply_completion(&mut state, id, init, result(PhaseResult::Retry), None);
    assert_eq!(step.phase_outcome, Outcome::Retry);
    assert!(step.delayed_retry.is_none());
    let retry = &state.job_queue[0];
    assert_eq!(retry.phase_key, "init");
    assert_eq!(retry.retry_count, 1);
    assert_eq!(retry.dependency_id, id);
    assert_ne!(retry.id, id);
    // The retry asks again: the budget of one retry is spent.
    let retry = state.job_queue.remove(0);
    let rid = retry.id;
    let step = apply_completion(&mut state, rid, retry, result(PhaseResult::Retry), None);
    assert_eq!(step.phase_outcome, Outcome::Fail);
    assert!(step.retry_limit_exceeded);
    assert_eq!(step.error_message.as_deref(), Some("Phase exceeded retry limit (3 retries)"));
}

#[test]
fn execution_error_becomes_error_result_and_stops() {
    let mut state = OrchestratorState::new(1);
    let proc_def = procedure(FirstFailureAction::Continue);
    submit_procedure(&mut state, &proc_def, &slots(), ExecutionStrategy::PhaseFirst, "/tmp/proc").expect("submitted");
    let init = state.pop_ready_job(|_| true).expect("setup");
    let id = init.id;
    let event = JobCompletionEvent { job_id: id, result: Err("worker crashed".to_string()), original_job: init, worker_id: 0 };
    let step = handle_job_completion(&mut state, event, None);
    assert_eq!(step.phase_outcome, Outcome::Error);
    assert_eq!(step.next_action, PhaseNextAction::Stop);
    assert!(!step.should_continue);
    assert_eq!(step.error_message.as_deref(), Some("worker crashed"));
    assert_eq!(determine_aggregate_outcome(&state, None), Outcome::Error);
}

#[test]
fn loop_and_statistics_follow_the_state() {
    let mut state = OrchestratorState::new(2);
    let proc_def = procedure(FirstFailureAction::Continue);
    submit_procedure(&mut state, &proc_def, &slots(), ExecutionStrategy::PhaseFirst, "/tmp/proc").expect("submitted");
    let d = next_loop_step(&state, false);
    assert_eq!(d.step, LoopStep::Continue);
    assert!(!d.announce_stop);
    let stats = get_stats(&state, 2, &slots());
    assert_eq!(stats.total_jobs, 6);
    assert_eq!(stats.queued_jobs, 6);
    assert!(stats.run_outcome.is_none());
    // Every queued job but the teardown is skipped by a stop.
    assert_eq!(jobs_to_skip(&state), vec![0, 1, 2, 3, 4]);
    state.shutdown_requested = true;
    let d = next_loop_step(&state, false);
    assert!(d.announce_stop);
    assert_eq!(d.step, LoopStep::Finished);
    state.force_kill_requested = true;
    assert_eq!(next_loop_step(&state, true).step, LoopStep::ForceKilled);
    let stats = get_stats(&state, 2, &slots());
    assert_eq!(stats.run_outcome, Some(Outcome::Stop));
    assert_eq!(stats.slot_outcomes.len(), 2);
}

#[test]
fn failed_shared_setup_cancels_everything() {
    let mut state = OrchestratorState::new(1);
    let proc_def = procedure(FirstFailureAction::Continue);
    submit_procedure(&mut state, &proc_def, &slots(), ExecutionStrategy::PhaseFirst, "/tmp/proc").expect("submitted");
    let init = state.pop_ready_job(|_| true).expect("setup");
    let id = init.id;
    let step = apply_completion(&mut state, id, init, result(PhaseResult::Fail), None);
    assert_eq!(step.phase_outcome, Outcome::Fail);
    assert_eq!(step.cancellations[0].message, "Cancelled due to setup procedure failure");
    assert_eq!(keys(&state.job_queue), vec![("cleanup".to_string(), None)]);
}

#[test]
fn timeout_message_becomes_timeout_result() {
    let mut state = OrchestratorState::new(1);
    let proc_def = procedure(FirstFailureAction::Continue);
    submit_procedure(&mut state, &proc_def, &slots(), ExecutionStrategy::PhaseFirst, "/tmp/proc").expect("submitted");
    let init = state.pop_ready_job(|_| true).expect("setup");
    let id = init.id;
    let event = JobCompletionEvent {
        job_id: id,
        result: Err("Phase timed out after 30 seconds".to_string()),
        original_job: init,
        worker_id: 0,
    };
    let step = handle_job_completion(&mut state, event, None);
    assert_eq!(step.phase_outcome, Outcome::Timeout);
    assert_eq!(step.error_message.as_deref(), Some("Phase timed out after 30 seconds"));
    assert_eq!(state.job_results[&id].timeout_secs, Some(30));
}

#[test]
fn stop_completes_running_and_waiting_jobs_and_keeps_teardown() {
    let mut state = OrchestratorState::new(2);
    let proc_def = procedure(FirstFailureAction::Continue);
    submit_procedure(&mut state, &proc_def, &slots(), ExecutionStrategy::SlotFirst, "/tmp/proc").expect("submitted");
    let init = state.pop_ready_job(|_| true).expect("setup");
    state.complete_job_with_info(init.id, init.phase_key.clone(), init.phase_name.clone(), None, result(PhaseResult::Continue));
    let a1 = state.pop_ready_job(|_| true).expect("a/s1");
    state.job_info.insert(
        a1.id,
        tofupilot_studio::state::JobInfo { phase_key: "a".to_string(), phase_name: "A".to_string(), slot_id: Some("s1".to_string()) },
    );
    state.mark_job_active(a1.id, 1).expect("idle");
    let (running, queued, teardown) =
        collect_and_complete_jobs(&mut state, "Execution stopped by user".to_string(), None, true);
    assert_eq!(running, vec![(1, a1.id, "a".to_string(), "A".to_string(), "s1".to_string())]);
    // b/s1 from the queue, then the waiting slot s2.
    let skipped: Vec<(String, String)> = queued.iter().map(|q| (q.1.clone(), q.3.clone())).collect();
    assert_eq!(
        skipped,
        vec![("b".to_string(), "s1".to_string()), ("a".to_string(), "s2".to_string()), ("b".to_string(), "s2".to_string())]
    );
    assert_eq!(keys(&teardown), vec![("cleanup".to_string(), None)]);
    assert!(state.job_queue.is_empty());
    assert!(state.pending_slot_jobs.is_empty());
    assert_eq!(state.worker_state.count_busy(), 0);
    let r = &state.job_results[&a1.id];
    assert_eq!(r.phase_outcome, Outcome::Error);
    assert_eq!(r.error.as_deref(), Some("Execution stopped by user"));
    assert_eq!(state.job_results[&queued[0].0].phase_outcome, Outcome::Skip);
}

#[test]
fn stop_without_keeping_teardown_skips_it_first() {
    let mut state = OrchestratorState::new(1);
    let proc_def = procedure(FirstFailureAction::Continue);
    submit_procedure(&mut state, &proc_def, &slots(), ExecutionStrategy::SlotFirst, "/tmp/proc").expect("submitted");
    let (running, queued, teardown) = collect_and_complete_jobs(&mut state, "killed".to_string(), Some("x".to_string()), false);
    assert!(running.is_empty());
    assert!(teardown.is_empty());
    let names: Vec<&str> = queued.iter().map(|q| q.1.as_str()).collect();
    assert_eq!(names, vec!["cleanup", "init", "a", "b", "a", "b"]);
    assert_eq!(queued[0].3, "<shared>");
    assert_eq!(state.completed_jobs.len(), 6);
}

#[test]
fn scheduling_takes_lowest_idle_worker_and_first_ready_job() {
    let mut state = OrchestratorState::new(2);
    let proc_def = procedure(FirstFailureAction::Continue);
    submit_procedure(&mut state, &proc_def, &slots(), ExecutionStrategy::PhaseFirst, "/tmp/proc").expect("submitted");
    assert!(next_assignment(&mut state, false, |_| true).is_none());
    let (w, job) = next_assignment(&mut state, true, |_| true).expect("setup starts");
    assert_eq!((w, job.phase_key.as_str()), (0, "init"));
    state.mark_job_active(job.id, w).expect("idle");
    let (w, job) = next_assignment(&mut state, true, |_| true).expect("teardown without dependencies");
    assert_eq!((w, job.phase_key.as_str()), (1, "cleanup"));
    state.mark_job_active(job.id, w).expect("idle");
    assert!(next_assignment(&mut state, true, |_| true).is_none());
    state.shutdown_requested = true;
    state.complete_job(job.id, result(PhaseResult::Continue));
    assert!(next_assignment(&mut state, true, |_| true).is_none());
}

#[test]
fn duplicate_phase_keys_are_refused() {
    let mut proc_def = procedure(FirstFailureAction::Continue);
    assert!(check_phase_keys(&proc_def).is_ok());
    let mut dup = phase("a");
    dup.name = "Again".to_string();
    proc_def.teardown_all.push(dup);
    assert_eq!(
        check_phase_keys(&proc_def).err(),
        Some("Duplicate phase key detected: 'Again' (key: 'a' conflicts with another phase)".to_string())
    );
}

#[test]
fn stopping_a_slot_cancels_its_queue_and_its_running_job() {
    let mut state = OrchestratorState::new(2);
    let proc_def = procedure(FirstFailureAction::Continue);
    submit_procedure(&mut state, &proc_def, &slots(), ExecutionStrategy::PhaseFirst, "/tmp/proc").expect("submitted");
    let init = state.pop_ready_job(|_| true).expect("setup");
    state.complete_original_job(init.id, result(PhaseResult::Continue));
    let a1 = state.pop_ready_job(|_| true).expect("a/s1");
    assert_eq!(a1.slot_id.as_deref(), Some("s1"));
    state.mark_job_active(a1.id, 1).expect("idle");
    let (cancelled, workers) = stop_slot(&mut state, "s1");
    assert_eq!(keys(&cancelled), vec![("b".to_string(), Some("s1".to_string()))]);
    assert_eq!(workers, vec![1]);
    assert_eq!(state.worker_state.count_busy(), 0);
    let r = &state.job_results[&a1.id];
    assert_eq!(r.phase_outcome, Outcome::Error);
    assert_eq!(r.error.as_deref(), Some("Slot s1 cancelled by user"));
    assert_eq!(state.job_results[&cancelled[0].id].phase_outcome, Outcome::Skip);
    assert_eq!(
        keys(&state.job_queue),
        vec![("a".to_string(), Some("s2".to_string())), ("b".to_string(), Some("s2".to_string())), ("cleanup".to_string(), None)]
    );
}

#[test]
fn teardown_jobs_go_to_idle_workers_in_order() {
    let mut state = OrchestratorState::new(3);
    let proc_def = procedure(FirstFailureAction::Continue);
    submit_procedure(&mut state, &proc_def, &slots(), ExecutionStrategy::PhaseFirst, "/tmp/proc").expect("submitted");
    let busy = state.pop_ready_job(|_| true).expect("setup");
    state.mark_job_active(busy.id, 1).expect("idle");
    // Only the shared teardown is ready: the main phases wait for the setup.
    let assigned = assign_teardown_jobs(&mut state);
    let got: Vec<(String, usize)> = assigned.iter().map(|(j, w)| (j.phase_key.clone(), *w)).collect();
    assert_eq!(got, vec![("cleanup".to_string(), 0)]);
    assert_eq!(state.worker_state.count_busy(), 2);
    state.complete_original_job(busy.id, result(PhaseResult::Continue));
    let assigned = assign_teardown_jobs(&mut state);
    let got: Vec<(String, Option<String>, usize)> =
        assigned.iter().map(|(j, w)| (j.phase_key.clone(), j.slot_id.clone(), *w)).collect();
    assert_eq!(got, vec![("a".to_string(), Some("s1".to_string()), 1), ("a".to_string(), Some("s2".to_string()), 2)]);
    assert!(assign_teardown_jobs(&mut state).is_empty());
}

#[test]
fn plugs_are_created_before_and_destroyed_after_their_stages() {
    let mut proc_def = procedure(FirstFailureAction::Continue);
    proc_def.setup_each.push(phase("prep"));
    proc_def.teardown_each.push(phase("park"));
    proc_def.plugs = vec![
        PlugDefinition { key: "psu".to_string(), name: "Power".to_string(), scope: Some(Scope::All) },
        PlugDefinition { key: "dmm".to_string(), name: "Meter".to_string(), scope: Some(Scope::Each) },
    ];
    let jobs = build_jobs(&proc_def, &slots(), "/tmp/proc");
    let init = jobs.iter().find(|j| j.phase_key == "init").expect("init");
    let prep = jobs.iter().find(|j| j.phase_key == "prep" && j.slot_id.as_deref() == Some("s2")).expect("prep");
    let park = jobs.iter().find(|j| j.phase_key == "park" && j.slot_id.as_deref() == Some("s1")).expect("park");
    let cleanup = jobs.iter().find(|j| j.phase_key == "cleanup").expect("cleanup");
    let main = jobs.iter().find(|j| j.phase_key == "a").expect("a");
    assert!(matches!(plugs_to_create(init, false, &vec![]), PlugCreation::Shared));
    assert!(matches!(plugs_to_create(init, true, &vec![]), PlugCreation::Nothing));
    assert!(matches!(plugs_to_create(prep, true, &vec!["s1".to_string()]), PlugCreation::ForSlot(s) if s == "s2"));
    assert!(matches!(plugs_to_create(prep, true, &vec!["s2".to_string()]), PlugCreation::Nothing));
    assert!(matches!(plugs_to_create(main, false, &vec![]), PlugCreation::Nothing));
    assert!(matches!(plugs_to_destroy(park), PlugTeardown::ForSlot(s) if s == "s1"));
    assert!(matches!(plugs_to_destroy(cleanup), PlugTeardown::Shared));
    assert!(matches!(plugs_to_destroy(main), PlugTeardown::Nothing));
    // Jobs may use every plug of the procedure, in its order.
    assert_eq!(get_plug_configs_for_job(&proc_def, main), vec![0, 1]);
    let mut j = Job::new(
        None,
        "x".to_string(),
        "X".to_string(),
        StageScope::Main,
        "m".to_string(),
        "f".to_string(),
        vec![],
        vec!["dmm".to_string(), "scope".to_string(), "psu".to_string()],
        tofupilot_studio::ui::UiConfig::empty(),
        None,
        None,
        None,
        &tofupilot_studio::id_map::JobIdMap::new(),
        vec![],
    );
    assert_eq!(get_plug_configs_for_job(&proc_def, &j), vec![1, 0]);
    j.required_plugs.clear();
    assert!(get_plug_configs_for_job(&proc_def, &j).is_empty());
}
