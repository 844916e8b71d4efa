//! What a finished job amounts to: its outcome, the message shown for it, and
//! the next action that execution takes.

use vstd::prelude::*;
use crate::ids::{now_rfc3339, JobId};
use crate::job::{
    outcome_spec, Job, JobResult, LogEntry, Outcome, PhaseResult, DEFAULT_RETRY_LIMIT,
};
use crate::measurements::{all_measurements_pass, check_all_measurements_pass};
use crate::schema::{PhaseDefinition, PhaseNextAction, ProcedureDefinition, StageScope, ThenConfig};
use crate::state::{
    cancelled_part, first_attempts, info_of, kept_part, records_cancelled, JobInfo, OrchestratorState,
};
use crate::string_map::str_eq;
use crate::job::same_plan;
use crate::job::JobStatus;
use crate::worker_state::released;
use crate::text::{copy_opt_text, contains_text, decimal, first_number, first_number_from, push_decimal, push_str, text_contains, text_of};

verus! {

broadcast use vstd::std_specs::hash::group_hash_axioms;

/// Whether a result asked for a retry that the job may no longer make.
pub open spec fn retry_limit_exceeded(r: JobResult, job: Job) -> bool {
    r.phase_result == PhaseResult::Retry && !(job.retry_count < job.retry_limit)
}

/// The outcome of a finished job, from its result, the job's retry budget
/// and whether a shutdown was requested.
pub open spec fn resolved_outcome(r: JobResult, job: Job, shutdown_requested: bool) -> Outcome {
    outcome_spec(
        r.phase_result,
        r.timeout_secs is Some,
        r.error is Some,
        all_measurements_pass(r.measurements@),
        shutdown_requested,
        job.retry_count < job.retry_limit,
    )
}

/// Resolves a finished job's outcome, and whether it asked for a retry beyond
/// its limit.
pub fn resolve_outcome(job_result: &JobResult, job: &Job, shutdown_requested: bool) -> (r: (
    Outcome,
    bool,
))
    ensures
        r.0 == resolved_outcome(*job_result, *job, shutdown_requested),
        r.1 == retry_limit_exceeded(*job_result, *job),
{
    let is_retry_limit_exceeded = matches!(job_result.phase_result, PhaseResult::Retry)
        && !job.can_retry();
    let measurements_pass = check_all_measurements_pass(&job_result.measurements);
    let phase_outcome = Outcome::from_execution(
        &job_result.phase_result,
        job_result.timeout_secs,
        job_result.error.as_ref(),
        measurements_pass,
        shutdown_requested,
        job.can_retry(),
    );
    (phase_outcome, is_retry_limit_exceeded)
}

/// The message shown for a finished phase: the retry limit when it was
/// exceeded, else the error, else the timeout, else none.
pub open spec fn error_message_spec(exceeded: bool, r: JobResult) -> Option<Seq<char>> {
    if exceeded {
        Some("Phase exceeded retry limit ("@ + decimal(DEFAULT_RETRY_LIMIT as nat) + " retries)"@)
    } else if r.error is Some {
        Some(r.error->0@)
    } else if r.timeout_secs is Some {
        Some("Phase timed out after "@ + decimal(r.timeout_secs->0 as nat) + " seconds"@)
    } else {
        None
    }
}

/// Formats the message shown for a finished phase.
pub fn format_error_message(is_retry_limit_exceeded: bool, job_result: &JobResult) -> (m: Option<
    String,
>)
    ensures
        m is Some == error_message_spec(is_retry_limit_exceeded, *job_result) is Some,
        m is Some ==> m->0@ == error_message_spec(is_retry_limit_exceeded, *job_result)->0,
{
    if is_retry_limit_exceeded {
        let mut s = text_of("Phase exceeded retry limit (");
        push_decimal(&mut s, DEFAULT_RETRY_LIMIT as u128);
        push_str(&mut s, " retries)");
        Some(s)
    } else {
        match &job_result.error {
            Some(e) => Some(e.clone()),
            None => match job_result.timeout_secs {
                Some(secs) => {
                    let mut s = text_of("Phase timed out after ");
                    push_decimal(&mut s, secs as u128);
                    push_str(&mut s, " seconds");
                    Some(s)
                },
                None => None,
            },
        }
    }
}

/// Whether an outcome ends the test whatever the phase configures: an error,
/// a timeout or a stop.
pub open spec fn is_terminal(o: Outcome) -> bool {
    o == Outcome::Error || o == Outcome::Timeout || o == Outcome::Stop
}

/// The next action a phase takes by default for an outcome.
pub open spec fn default_action(o: Outcome, stop_on_first_failure: bool) -> PhaseNextAction {
    match o {
        Outcome::Pass | Outcome::Skip => PhaseNextAction::Continue,
        Outcome::Fail => if stop_on_first_failure {
            PhaseNextAction::Stop
        } else {
            PhaseNextAction::Continue
        },
        Outcome::Retry => PhaseNextAction::Retry,
        Outcome::Error | Outcome::Timeout | Outcome::Stop => PhaseNextAction::Stop,
    }
}

/// The next action that a phase's `then:` block sets for an outcome, if any
/// (a timeout falls back to the error setting).
pub open spec fn configured_action(o: Outcome, cfg: ThenConfig) -> Option<PhaseNextAction> {
    match o {
        Outcome::Pass => cfg.pass,
        Outcome::Fail => cfg.fail,
        Outcome::Timeout => if cfg.timeout is Some {
            cfg.timeout
        } else {
            cfg.error
        },
        _ => None,
    }
}

/// The next action of a phase with a definition: its configured action,
/// else the default.
pub open spec fn phase_action(o: Outcome, cfg: Option<ThenConfig>, stop_on_first_failure: bool) -> PhaseNextAction {
    match cfg {
        Some(t) => match configured_action(o, t) {
            Some(a) => a,
            None => default_action(o, stop_on_first_failure),
        },
        None => default_action(o, stop_on_first_failure),
    }
}

/// The next action of a phase whose definition was not found.
pub open spec fn undefined_phase_action(o: Outcome, stop_on_first_failure: bool) -> PhaseNextAction {
    match o {
        Outcome::Pass | Outcome::Skip | Outcome::Retry => PhaseNextAction::Continue,
        Outcome::Fail => if stop_on_first_failure {
            PhaseNextAction::Stop
        } else {
            PhaseNextAction::Continue
        },
        Outcome::Error | Outcome::Timeout | Outcome::Stop => PhaseNextAction::Stop,
    }
}

/// The next action after a phase: terminal outcomes stop; a retry that the
/// outcome allows retries; otherwise the phase's configuration decides (the
/// `then` of its definition, `None` when no definition was found).
pub open spec fn next_action_spec(
    result: PhaseResult,
    o: Outcome,
    def_then: Option<Option<ThenConfig>>,
    stop_on_first_failure: bool,
) -> PhaseNextAction {
    if is_terminal(o) {
        PhaseNextAction::Stop
    } else if result == PhaseResult::Retry && o == Outcome::Retry {
        PhaseNextAction::Retry
    } else {
        match def_then {
            Some(cfg) => phase_action(o, cfg, stop_on_first_failure),
            None => undefined_phase_action(o, stop_on_first_failure),
        }
    }
}

/// The `then` block of an optional phase definition.
pub open spec fn def_then(d: Option<&PhaseDefinition>) -> Option<Option<ThenConfig>> {
    match d {
        Some(def) => Some(def.then_config),
        None => None,
    }
}

/// Decides what execution does after a phase.
pub fn determine_next_action(
    job_result: &JobResult,
    phase_outcome: &Outcome,
    phase_def: Option<&PhaseDefinition>,
    should_stop_on_first_failure: bool,
) -> (a: PhaseNextAction)
    ensures
        a == next_action_spec(
            job_result.phase_result,
            *phase_outcome,
            def_then(phase_def),
            should_stop_on_first_failure,
        ),
{
    if matches!(phase_outcome, Outcome::Error | Outcome::Timeout | Outcome::Stop) {
        return PhaseNextAction::Stop;
    }
    if matches!(job_result.phase_result, PhaseResult::Retry) && matches!(phase_outcome, Outcome::Retry) {
        return PhaseNextAction::Retry;
    }
    match phase_def {
        Some(def) => get_next_action_for_phase(phase_outcome, def, should_stop_on_first_failure),
        None => match phase_outcome {
            Outcome::Pass | Outcome::Skip | Outcome::Retry => PhaseNextAction::Continue,
            Outcome::Fail => if should_stop_on_first_failure {
                PhaseNextAction::Stop
            } else {
                PhaseNextAction::Continue
            },
            Outcome::Error | Outcome::Timeout | Outcome::Stop => PhaseNextAction::Stop,
        },
    }
}

/// The next action of a defined phase: its `then:` setting for the outcome,
/// else the default (which honours stop-on-first-failure).
fn get_next_action_for_phase(
    outcome: &Outcome,
    phase_def: &PhaseDefinition,
    should_stop_on_first_failure: bool,
) -> (a: PhaseNextAction)
    ensures
        a == phase_action(*outcome, phase_def.then_config, should_stop_on_first_failure),
{
    if let Some(then_config) = &phase_def.then_config {
        let configured = match outcome {
            Outcome::Pass => then_config.pass,
            Outcome::Fail => then_config.fail,
            Outcome::Timeout => match then_config.timeout {
                Some(t) => Some(t),
                None => then_config.error,
            },
            _ => None,
        };
        if let Some(next_action) = configured {
            return next_action;
        }
    }
    match outcome {
        Outcome::Pass | Outcome::Skip => PhaseNextAction::Continue,
        Outcome::Fail => if should_stop_on_first_failure {
            PhaseNextAction::Stop
        } else {
            PhaseNextAction::Continue
        },
        Outcome::Retry => PhaseNextAction::Retry,
        Outcome::Error | Outcome::Timeout | Outcome::Stop => PhaseNextAction::Stop,
    }
}

/// Whether an execution error message reports a timeout.
pub open spec fn reports_timeout(e: Seq<char>) -> bool {
    contains_text(e, "timed out"@) || contains_text(e, "timeout"@)
}

/// The timeout a timeout message stands for: the first number in it, else
/// the job's timeout, else zero.
pub open spec fn reported_timeout(e: Seq<char>, job_timeout: Option<u64>) -> u64 {
    match first_number_from(e, 0) {
        Some(v) => v,
        None => match job_timeout {
            Some(t) => t,
            None => 0,
        },
    }
}

/// The result that stands for an execution error: a timeout when the
/// message says so (for the number it gives, else the job's timeout), an
/// error carrying the message otherwise; either way the message is its one
/// error log line, and the phase's intent is to continue.
pub open spec fn converted_error(r: JobResult, error: Seq<char>, job: Job) -> bool {
    &&& r.phase_result == PhaseResult::Continue
    &&& r.logs@.len() == 1
    &&& r.logs@[0].level@ == "ERROR"@
    &&& r.logs@[0].message@ == error
    &&& r.logs@[0].file is None
    &&& r.logs@[0].line is None
    &&& r.measurements@.len() == 0
    &&& r.next_action is None
    &&& r.exit_code is None
    &&& r.unit is None
    &&& r.retry_count == 0
    &&& if reports_timeout(error) {
        &&& r.phase_outcome == Outcome::Timeout
        &&& r.timeout_secs == Some(reported_timeout(error, job.timeout_ms))
        &&& r.error is None
    } else {
        &&& r.phase_outcome == Outcome::Error
        &&& r.timeout_secs is None
        &&& r.error matches Some(e) && e@ == error
    }
}

/// Turns an execution error (the job could not run or report) into a result:
/// a timeout when the message says so, an error otherwise; either way the
/// message is kept as one error log line.
pub fn convert_error_to_result(error: String, job: &Job, job_id: JobId) -> (r: JobResult)
    ensures
        converted_error(r, error@, *job),
{
    let entry = LogEntry {
        timestamp: now_rfc3339(),
        level: text_of("ERROR"),
        message: error.clone(),
        file: None,
        line: None,
    };
    let is_timeout = text_contains(error.as_str(), "timed out") || text_contains(error.as_str(), "timeout");
    let mut result = if is_timeout {
        let secs = match first_number(error.as_str()) {
            Some(v) => v,
            None => match job.timeout_ms {
                Some(t) => t,
                None => 0,
            },
        };
        JobResult::new_timeout(secs)
    } else {
        JobResult::new_error(error)
    };
    let mut logs: Vec<LogEntry> = Vec::new();
    logs.push(entry);
    result.logs = logs;
    result
}

/// How a finished job is shown: its status, its result label, and its
/// message, if any.
pub open spec fn status_view(r: JobResult, exceeded: bool) -> (Seq<char>, Seq<char>, Option<Seq<char>>) {
    if exceeded {
        ("failed"@, "error"@, Some("Phase exceeded retry limit ("@ + decimal(DEFAULT_RETRY_LIMIT as nat) + " retries)"@))
    } else if r.error is Some {
        ("failed"@, "error"@, Some(r.error->0@))
    } else if r.timeout_secs is Some {
        ("failed"@, "timeout"@, Some("Phase timed out after "@ + decimal(r.timeout_secs->0 as nat) + " seconds"@))
    } else {
        ("completed"@, match r.phase_result {
            PhaseResult::Continue => "pass"@,
            PhaseResult::Retry => "retry"@,
            PhaseResult::Skip => "skip"@,
            PhaseResult::Stop => "stop"@,
            PhaseResult::Fail => "fail"@,
        }, None)
    }
}

/// Tells how a finished job is shown.
pub struct JobStatusResolver;

impl JobStatusResolver {
    /// The status, result label and message of a finished job: a retry
    /// beyond the limit or an execution error is a failed error, a timeout a
    /// failed timeout; otherwise the job completed with its phase result.
    pub fn resolve(job_result: &JobResult, is_retry_limit_exceeded: bool) -> (r: (String, String, Option<String>))
        ensures
            r.0@ == status_view(*job_result, is_retry_limit_exceeded).0,
            r.1@ == status_view(*job_result, is_retry_limit_exceeded).1,
            crate::unit::opt_text(r.2) == status_view(*job_result, is_retry_limit_exceeded).2,
    {
        if is_retry_limit_exceeded || job_result.error.is_some() || job_result.timeout_secs.is_some() {
            let label = if is_retry_limit_exceeded || job_result.error.is_some() {
                text_of("error")
            } else {
                text_of("timeout")
            };
            let message = format_error_message(is_retry_limit_exceeded, job_result);
            return (text_of("failed"), label, message);
        }
        let label = match job_result.phase_result {
            PhaseResult::Continue => text_of("pass"),
            PhaseResult::Retry => text_of("retry"),
            PhaseResult::Skip => text_of("skip"),
            PhaseResult::Stop => text_of("stop"),
            PhaseResult::Fail => text_of("fail"),
        };
        (text_of("completed"), label, None)
    }
}

/// The phase timeout that applies: none in debug mode (a paused breakpoint
/// is not killed), the phase's otherwise.
pub fn effective_timeout_ms(timeout_ms: Option<u64>, debug: bool) -> (t: Option<u64>)
    ensures
        t == (if debug { None } else { timeout_ms }),
{
    if debug {
        None
    } else {
        timeout_ms
    }
}

/// A finished job as the worker reports it: its result, or why it could
/// not run.
pub struct JobCompletionEvent {
    pub job_id: JobId,
    pub result: Result<JobResult, String>,
    pub original_job: Job,
    pub worker_id: usize,
}

/// Jobs cancelled while handling a completion, and the message shown for them.
pub struct Cancellation {
    pub jobs: Vec<Job>,
    pub message: String,
}

/// What handling a completion decided, for the caller to announce and carry
/// out.
pub struct CompletionStep {
    /// Whether execution goes on scheduling jobs.
    pub should_continue: bool,
    pub phase_outcome: Outcome,
    pub retry_limit_exceeded: bool,
    pub error_message: Option<String>,
    pub next_action: PhaseNextAction,
    /// Jobs cancelled by a failed setup, a stop or stop-on-first-failure.
    pub cancellations: Vec<Cancellation>,
    /// A retry that waits out its delay (in milliseconds) before it is
    /// queued; a retry without delay is already queued.
    pub delayed_retry: Option<(Job, u64)>,
}

/// The phases of one stage of a procedure.
pub open spec fn stage_phases(p: ProcedureDefinition, stage: StageScope) -> Seq<PhaseDefinition> {
    match stage {
        StageScope::SetupAll => p.setup_all@,
        StageScope::SetupEach => p.setup_each@,
        StageScope::Main => p.main@,
        StageScope::TeardownEach => p.teardown_each@,
        StageScope::TeardownAll => p.teardown_all@,
    }
}

/// Finds the definition of a job's phase: the first phase of its stage with
/// its key.
pub fn get_phase_definition<'a>(procedure: &'a ProcedureDefinition, stage: StageScope, phase_key: &str) -> (r: Option<&'a PhaseDefinition>)
    ensures
        match r {
            Some(d) => exists|i: int| 0 <= i < stage_phases(*procedure, stage).len()
                && stage_phases(*procedure, stage)[i] == *d && d.key@ == phase_key@
                && forall|k: int| 0 <= k < i ==> (#[trigger] stage_phases(*procedure, stage)[k]).key@ != phase_key@,
            None => forall|k: int| 0 <= k < stage_phases(*procedure, stage).len() ==> (#[trigger] stage_phases(*procedure, stage)[k]).key@ != phase_key@,
        },
{
    let phases = match stage {
        StageScope::SetupAll => &procedure.setup_all,
        StageScope::SetupEach => &procedure.setup_each,
        StageScope::Main => &procedure.main,
        StageScope::TeardownEach => &procedure.teardown_each,
        StageScope::TeardownAll => &procedure.teardown_all,
    };
    let mut i: usize = 0;
    while i < phases.len()
        invariant
            phases@ == stage_phases(*procedure, stage),
            i <= phases@.len(),
            forall|k: int| 0 <= k < i ==> (#[trigger] phases@[k]).key@ != phase_key@,
        decreases phases@.len() - i,
    {
        if str_eq(phases[i].key.as_str(), phase_key) {
            return Some(&phases[i]);
        }
        i = i + 1;
    }
    None
}

/// Whether a phase counts as failed for setup handling.
pub open spec fn phase_failed(o: Outcome, exceeded: bool) -> bool {
    o == Outcome::Fail || o == Outcome::Error || o == Outcome::Timeout || exceeded
}

/// What a failed setup cancels: everything after a shared setup, the slot
/// after a slot setup (`None` when nothing is cancelled).
pub open spec fn failure_cancel_scope(job: Job, failed: bool) -> Option<Option<Seq<char>>> {
    if failed && job.stage_scope == StageScope::SetupAll {
        Some(None)
    } else if failed && job.stage_scope == StageScope::SetupEach && job.slot_id is Some {
        Some(Some(job.slot_id->0@))
    } else {
        None
    }
}

/// The queue after an optional cancellation.
pub open spec fn queue_after_cancel(q: Seq<Job>, scope: Option<Option<Seq<char>>>) -> Seq<Job> {
    match scope {
        Some(slot) => kept_part(q, slot),
        None => q,
    }
}

/// What the next action cancels: a stop cancels the job's slot, a failure
/// under stop-on-first-failure cancels everything.
pub open spec fn action_cancel_scope(a: PhaseNextAction, job: Job, stop_on_first_failure: bool) -> Option<Option<Seq<char>>> {
    if a == PhaseNextAction::Stop && job.slot_id is Some {
        Some(Some(job.slot_id->0@))
    } else if a == PhaseNextAction::Fail && stop_on_first_failure {
        Some(None)
    } else {
        None
    }
}

/// The jobs that an optional cancellation takes from the queue.
pub open spec fn cancelled_in(q: Seq<Job>, scope: Option<Option<Seq<char>>>) -> Seq<Job> {
    match scope {
        Some(slot) => cancelled_part(q, slot),
        None => Seq::empty(),
    }
}

/// What a cancellation after a failed setup reports: the whole run's setup
/// (no slot) or one slot's.
pub open spec fn failure_cancel_message(slot: Option<Seq<char>>) -> Seq<char> {
    match slot {
        None => "Cancelled due to setup procedure failure"@,
        Some(_) => "Cancelled due to setup slot failure"@,
    }
}

/// What a cancellation by the next action reports: a slot's stop, or a
/// stop on the first failure (no slot).
pub open spec fn action_cancel_message(slot: Option<Seq<char>>) -> Seq<char> {
    match slot {
        Some(s) => "Skipped because slot "@ + s + " stopped"@,
        None => "Stopped due to on_first_failure: stop"@,
    }
}

/// The jobs and the message of a cancellation.
pub open spec fn cancellation_view(c: Cancellation) -> (Seq<Job>, Seq<char>) {
    (c.jobs@, c.message@)
}

/// The cancellations reported, in order: the one a failed setup makes
/// (from the queue `q0`), then the one the next action makes (from the
/// queue `q1` that is left), each only where its scope is set.
pub open spec fn reported_cancellations(
    q0: Seq<Job>,
    fscope: Option<Option<Seq<char>>>,
    q1: Seq<Job>,
    ascope: Option<Option<Seq<char>>>,
) -> Seq<(Seq<Job>, Seq<char>)> {
    let first = match fscope {
        Some(slot) => seq![(cancelled_part(q0, slot), failure_cancel_message(slot))],
        None => Seq::empty(),
    };
    let second = match ascope {
        Some(slot) => seq![(cancelled_part(q1, slot), action_cancel_message(slot))],
        None => Seq::empty(),
    };
    first + second
}

/// Whether the next action retries the job now (its budget allows it).
pub open spec fn retries(a: PhaseNextAction, job: Job) -> bool {
    a == PhaseNextAction::Retry && job.retry_count < job.retry_limit
}

/// A result with its computed outcome and next action.
pub open spec fn finished_result(r: JobResult, o: Outcome, a: PhaseNextAction) -> JobResult {
    JobResult { phase_outcome: o, next_action: Some(a), ..r }
}

/// The retry of `job`: same plan, one more attempt, pending, no result.
pub open spec fn is_retry_of(rj: Job, job: Job) -> bool {
    same_plan(rj, job) && rj.retry_count == job.retry_count + 1 && rj.status == JobStatus::Pending
        && rj.result is None
}

/// What handling the completion of `job` with result `r` does, given the
/// `then:` block of its phase definition (`None` when none was found).
pub open spec fn completion_applied(
    before: OrchestratorState,
    after: OrchestratorState,
    job_id: JobId,
    job: Job,
    r: JobResult,
    def_then: Option<Option<ThenConfig>>,
    step: CompletionStep,
) -> bool {
    let o = resolved_outcome(r, job, before.shutdown_requested);
    let exceeded = retry_limit_exceeded(r, job);
    let a = next_action_spec(r.phase_result, o, def_then, before.should_stop_on_first_failure);
    let fscope = failure_cancel_scope(job, phase_failed(o, exceeded));
    let q1 = queue_after_cancel(before.job_queue@, fscope);
    let ascope = action_cancel_scope(a, job, before.should_stop_on_first_failure);
    let q2 = queue_after_cancel(q1, ascope);
    &&& step.phase_outcome == o
    &&& step.retry_limit_exceeded == exceeded
    &&& step.next_action == a
    &&& (step.error_message is Some) == (error_message_spec(exceeded, r) is Some)
    &&& step.error_message is Some ==> step.error_message->0@ == error_message_spec(exceeded, r)->0
    &&& step.should_continue == (a != PhaseNextAction::Stop)
    &&& step.cancellations@.map_values(|c: Cancellation| cancellation_view(c)) == reported_cancellations(
        before.job_queue@,
        fscope,
        q1,
        ascope,
    )
    &&& after.job_results@.contains_key(job_id)
    &&& after.job_results@[job_id] == finished_result(r, o, a)
    &&& after.completed_jobs@.contains(job_id)
    &&& after.job_info@.contains_key(job_id)
    &&& after.job_info@[job_id]@ == info_of(job)
    &&& after.shutdown_requested == (before.shutdown_requested || (fscope == Some(None::<Seq<char>>) && q1.len() == 0)
        || a == PhaseNextAction::Stop || (a == PhaseNextAction::Fail && before.should_stop_on_first_failure))
    &&& if retries(a, job) && job.retry_delay_ms is None {
        &&& after.job_queue@.len() == q2.len() + 1
        &&& after.job_queue@ == q2.insert(0, after.job_queue@[0])
        &&& is_retry_of(after.job_queue@[0], job)
        &&& step.delayed_retry is None
    } else if retries(a, job) {
        &&& after.job_queue@ == q2
        &&& step.delayed_retry matches Some((rj, d)) && is_retry_of(rj, job) && d == job.retry_delay_ms->0
    } else {
        &&& after.job_queue@ == q2
        &&& step.delayed_retry is None
    }
    &&& after.original_jobs_completed == before.original_jobs_completed + first_attempts(
        cancelled_in(before.job_queue@, fscope),
    ) + first_attempts(cancelled_in(q1, ascope)) + if retries(a, job) {
        0nat
    } else {
        1nat
    }
    &&& after.total_jobs_submitted == before.total_jobs_submitted
}

/// Applies a finished job's result to the state: resolves its outcome and
/// next action, cancels what a failed setup, a stop or stop-on-first-failure
/// cancels, records the result, and queues (or hands back, when it must
/// wait) the retry.
#[verifier::rlimit(50)]
pub fn apply_completion(
    state: &mut OrchestratorState,
    job_id: JobId,
    job: Job,
    job_result: JobResult,
    phase_def: Option<&PhaseDefinition>,
) -> (step: CompletionStep)
    requires
        old(state).original_jobs_completed + 2 * old(state).job_queue@.len() + 1 <= usize::MAX,
    ensures
        completion_applied(*old(state), *final(state), job_id, job, job_result, def_then(phase_def), step),
{
    let (phase_outcome, is_retry_limit_exceeded) = resolve_outcome(&job_result, &job, state.shutdown_requested);
    let error_message = format_error_message(is_retry_limit_exceeded, &job_result);
    let next_action = determine_next_action(&job_result, &phase_outcome, phase_def, state.should_stop_on_first_failure);
    let mut job_result = job_result;
    job_result.phase_outcome = phase_outcome;
    job_result.next_action = Some(next_action);
    let mut cancellations: Vec<Cancellation> = Vec::new();
    let ghost s0 = *state;
    let failed = matches!(phase_outcome, Outcome::Fail | Outcome::Error | Outcome::Timeout)
        || is_retry_limit_exceeded;
    if failed {
        match job.stage_scope {
            StageScope::SetupAll => {
                let jobs = state.cancel_all_jobs("Setup procedure failed");
                cancellations.push(Cancellation { jobs, message: text_of("Cancelled due to setup procedure failure") });
            },
            StageScope::SetupEach => {
                if let Some(slot) = &job.slot_id {
                    let jobs = state.cancel_slot_jobs(slot.as_str());
                    cancellations.push(Cancellation { jobs, message: text_of("Cancelled due to setup slot failure") });
                }
            },
            _ => {},
        }
    }
    let ghost s1 = *state;
    let ghost fscope = failure_cancel_scope(job, phase_failed(phase_outcome, is_retry_limit_exceeded));
    let ghost first_reported = match fscope {
        Some(slot) => seq![(cancelled_part(s0.job_queue@, slot), failure_cancel_message(slot))],
        None => Seq::<(Seq<Job>, Seq<char>)>::empty(),
    };
    assert(cancellations@.map_values(|c: Cancellation| cancellation_view(c)) =~= first_reported);
    proof {
        crate::state::lemma_cancel_partition(s0.job_queue@, None);
        if job.slot_id is Some {
            crate::state::lemma_cancel_partition(s0.job_queue@, Some(job.slot_id->0@));
        }
    }
    assert(s1.job_queue@ == queue_after_cancel(s0.job_queue@, failure_cancel_scope(job, phase_failed(phase_outcome, is_retry_limit_exceeded))));
    assert(s1.job_queue@.len() <= s0.job_queue@.len());
    assert(s1.original_jobs_completed <= s0.original_jobs_completed + (s0.job_queue@.len() - s1.job_queue@.len())) by {
        crate::state::lemma_first_attempts_bound(cancelled_part(s0.job_queue@, None));
        if job.slot_id is Some {
            crate::state::lemma_first_attempts_bound(cancelled_part(s0.job_queue@, Some(job.slot_id->0@)));
        }
    }
    let info = JobInfo {
        phase_key: job.phase_key.clone(),
        phase_name: job.phase_name.clone(),
        slot_id: copy_opt_text(&job.slot_id),
    };
    assert(info@ == info_of(job));
    match next_action {
        PhaseNextAction::Retry => {
            if job.can_retry() {
                let retry_job = job.create_retry_job();
                state.job_info.insert(job_id, info);
                state.complete_job(job_id, job_result);
                let delayed = match retry_job.retry_delay_ms {
                    Some(ms) => Some((retry_job, ms)),
                    None => {
                        state.enqueue_retry_job(retry_job);
                        None
                    },
                };
                assert(cancellations@.map_values(|c: Cancellation| cancellation_view(c)) =~= reported_cancellations(
                    s0.job_queue@,
                    fscope,
                    s1.job_queue@,
                    action_cancel_scope(next_action, job, s0.should_stop_on_first_failure),
                ));
                return CompletionStep {
                    should_continue: true,
                    phase_outcome,
                    retry_limit_exceeded: is_retry_limit_exceeded,
                    error_message,
                    next_action,
                    cancellations,
                    delayed_retry: delayed,
                };
            }
            state.job_info.insert(job_id, info);
            state.complete_original_job(job_id, job_result);
        },
        PhaseNextAction::Stop => {
            if let Some(slot) = &job.slot_id {
                proof {
                    crate::state::lemma_cancel_partition(s1.job_queue@, Some(slot@));
                    crate::state::lemma_first_attempts_bound(cancelled_part(s1.job_queue@, Some(slot@)));
                }
                let jobs = state.cancel_slot_jobs(slot.as_str());
                let mut message = text_of("Skipped because slot ");
                push_str(&mut message, slot.as_str());
                push_str(&mut message, " stopped");
                let ghost before_c = cancellations@;
                cancellations.push(Cancellation { jobs, message });
                proof {
                    assert(cancellations@.map_values(|c: Cancellation| cancellation_view(c)) =~= before_c.map_values(
                        |c: Cancellation| cancellation_view(c),
                    ).push((cancelled_part(s1.job_queue@, Some(slot@)), action_cancel_message(Some(slot@)))));
                }
            }
            state.job_info.insert(job_id, info);
            state.complete_original_job(job_id, job_result);
            state.shutdown_requested = true;
        },
        PhaseNextAction::Continue | PhaseNextAction::Skip => {
            state.job_info.insert(job_id, info);
            state.complete_original_job(job_id, job_result);
        },
        PhaseNextAction::Fail => {
            if state.should_stop_on_first_failure {
                proof {
                    crate::state::lemma_cancel_partition(s1.job_queue@, None);
                    crate::state::lemma_first_attempts_bound(cancelled_part(s1.job_queue@, None));
                }
                let jobs = state.cancel_all_jobs("Stopped due to on_first_failure: stop after phase failure");
                let ghost before_c = cancellations@;
                cancellations.push(Cancellation { jobs, message: text_of("Stopped due to on_first_failure: stop") });
                proof {
                    assert(cancellations@.map_values(|c: Cancellation| cancellation_view(c)) =~= before_c.map_values(
                        |c: Cancellation| cancellation_view(c),
                    ).push((cancelled_part(s1.job_queue@, None), action_cancel_message(None))));
                }
                state.shutdown_requested = true;
            }
            state.job_info.insert(job_id, info);
            state.complete_original_job(job_id, job_result);
        },
    }
    assert(cancellations@.map_values(|c: Cancellation| cancellation_view(c)) =~= reported_cancellations(
        s0.job_queue@,
        fscope,
        s1.job_queue@,
        action_cancel_scope(next_action, job, s0.should_stop_on_first_failure),
    ));
    CompletionStep {
        should_continue: !matches!(next_action, PhaseNextAction::Stop),
        phase_outcome,
        retry_limit_exceeded: is_retry_limit_exceeded,
        error_message,
        next_action,
        cancellations,
        delayed_retry: None,
    }
}

/// Handles a finished job: an execution error is first turned into a
/// result (see `convert_error_to_result`), then the result is applied (see
/// `apply_completion`).
pub fn handle_job_completion(
    state: &mut OrchestratorState,
    event: JobCompletionEvent,
    phase_def: Option<&PhaseDefinition>,
) -> (step: CompletionStep)
    requires
        old(state).original_jobs_completed + 2 * old(state).job_queue@.len() + 1 <= usize::MAX,
    ensures
        match event.result {
            Ok(r) => completion_applied(
                *old(state),
                *final(state),
                event.job_id,
                event.original_job,
                r,
                def_then(phase_def),
                step,
            ),
            Err(e) => exists|r: JobResult| #[trigger] converted_error(r, e@, event.original_job)
                && completion_applied(
                *old(state),
                *final(state),
                event.job_id,
                event.original_job,
                r,
                def_then(phase_def),
                step,
            ),
        },
{
    let JobCompletionEvent { job_id, result, original_job, worker_id: _ } = event;
    match result {
        Ok(r) => apply_completion(state, job_id, original_job, r, phase_def),
        Err(e) => {
            let ghost msg = e@;
            let r = convert_error_to_result(e, &original_job, job_id);
            let ghost g = r;
            let step = apply_completion(state, job_id, original_job, r, phase_def);
            assert(converted_error(g, msg, original_job));
            step
        },
    }
}

/// An error, a timeout or a stop always stops execution, whatever the
/// phase's result, its `then:` block or the stop-on-first-failure setting.
pub proof fn lemma_terminal_outcome_stops(
    result: PhaseResult,
    o: Outcome,
    def_then: Option<Option<ThenConfig>>,
    stop_on_first_failure: bool,
)
    requires
        is_terminal(o),
    ensures
        next_action_spec(result, o, def_then, stop_on_first_failure) == PhaseNextAction::Stop,
{
}

/// Outcome priority: an error wins over everything; a timeout over
/// everything but an error; a shutdown or an explicit stop over the phase's
/// own result and its measurements.
pub proof fn lemma_outcome_priority(r: JobResult, job: Job, shutdown_requested: bool)
    ensures
        r.error is Some ==> resolved_outcome(r, job, shutdown_requested) == Outcome::Error,
        r.error is None && r.timeout_secs is Some ==> resolved_outcome(r, job, shutdown_requested)
            == Outcome::Timeout,
        r.error is None && r.timeout_secs is None && (shutdown_requested || r.phase_result
            == PhaseResult::Stop) ==> resolved_outcome(r, job, shutdown_requested) == Outcome::Stop,
{
}

/// A retry asked for beyond the job's limit is a failure (unless an error, a
/// timeout or a stop came first), and a retry within the limit overrides
/// failed measurements.
pub proof fn lemma_retry_budget(r: JobResult, job: Job)
    requires
        r.error is None,
        r.timeout_secs is None,
        r.phase_result == PhaseResult::Retry,
    ensures
        retry_limit_exceeded(r, job) ==> resolved_outcome(r, job, false) == Outcome::Fail,
        !retry_limit_exceeded(r, job) ==> resolved_outcome(r, job, false) == Outcome::Retry,
{
}

/// A passing phase continues unless its `then` block names an action for a
/// pass, and a skipped phase always continues: for every phase result,
/// whether the phase is defined or not, and either stop-on-first-failure
/// setting.
pub proof fn lemma_pass_continues(result: PhaseResult, def_then: Option<Option<ThenConfig>>, stop_on_first_failure: bool)
    requires
        def_then matches Some(Some(t)) ==> t.pass is None,
    ensures
        next_action_spec(result, Outcome::Pass, def_then, stop_on_first_failure) == PhaseNextAction::Continue,
        next_action_spec(result, Outcome::Skip, def_then, stop_on_first_failure) == PhaseNextAction::Continue,
{
}

/// A failing phase without a `then` action for a failure stops when
/// stop-on-first-failure is on, and continues otherwise.
pub proof fn lemma_fail_follows_first_failure_setting(
    result: PhaseResult,
    def_then: Option<Option<ThenConfig>>,
    stop_on_first_failure: bool,
)
    requires
        def_then matches Some(Some(t)) ==> t.fail is None,
    ensures
        next_action_spec(result, Outcome::Fail, def_then, stop_on_first_failure) == (if stop_on_first_failure {
            PhaseNextAction::Stop
        } else {
            PhaseNextAction::Continue
        }),
{
}

/// A phase's `then:` setting for a pass or a failure is the action taken, and
/// it overrides the stop-on-first-failure setting.
pub proof fn lemma_then_overrides_default(
    result: PhaseResult,
    o: Outcome,
    cfg: ThenConfig,
    stop_on_first_failure: bool,
)
    requires
        o == Outcome::Pass || o == Outcome::Fail,
        configured_action(o, cfg) is Some,
    ensures
        next_action_spec(result, o, Some(Some(cfg)), stop_on_first_failure) == configured_action(
            o,
            cfg,
        )->0,
{
}

/// Without a `then:` setting, a failure stops exactly when stop-on-first-failure is set.
pub proof fn lemma_first_failure_policy(result: PhaseResult, def_then: Option<Option<ThenConfig>>, stop_on_first_failure: bool)
    requires
        def_then matches Some(c) ==> (c matches Some(t) ==> t.fail is None),
    ensures
        (next_action_spec(result, Outcome::Fail, def_then, stop_on_first_failure) == PhaseNextAction::Stop)
            == stop_on_first_failure,
        next_action_spec(result, Outcome::Fail, def_then, stop_on_first_failure) == PhaseNextAction::Stop
            || next_action_spec(result, Outcome::Fail, def_then, stop_on_first_failure) == PhaseNextAction::Continue,
{
}

} // verus!
