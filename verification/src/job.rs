//! Phase results, job outcomes and lifecycle states.

use vstd::prelude::*;
use std::collections::HashSet;
use crate::id_map::JobIdMap;
use crate::ids::{new_job_id, now_millis, JobId};
use crate::measurements::{
    copy_measurement_specs, copy_measurements, same_measurement_specs, same_measurements, Measurement, MeasurementSpec,
};
use crate::schema::{PhaseNextAction, StageScope};
use crate::string_map::StringMap;
use crate::text::{copy_opt_text, copy_texts, push_str, text_of};
use crate::ui::{same_ui, UiConfig};
use crate::unit::{copy_opt_unit, opt_text, opt_unit, UnitInfo};

verus! {

/// How a finished job ended (completion outcome; lifecycle is `JobStatus`).
#[derive(Clone, Copy, Debug, PartialEq, Eq, Structural)]
pub enum Outcome {
    Pass,
    Fail,
    Error,
    Timeout,
    Stop,
    Skip,
    Retry,
}

/// Where a job is in its lifecycle.
#[derive(Clone, Copy, Debug, PartialEq, Eq, Structural)]
pub enum JobStatus {
    Idle,
    Pending,
    Running,
    Stopping,
    Completed,
    Skipped,
}

/// Which runtime executes a phase.
#[derive(Clone, Copy, Debug, PartialEq, Eq, Structural)]
pub enum RuntimeType {
    /// Built-in phases (operator UI only, or empty).
    Native,
    /// External Python runtime (the default).
    Python,
    /// Shell commands.
    Shell,
}

impl RuntimeType {
    /// The default runtime: Python.
    pub fn default_runtime() -> (r: RuntimeType)
        ensures
            r == RuntimeType::Python,
    {
        RuntimeType::Python
    }
}

/// What the phase function returned: the user's decision about the flow.
#[derive(Clone, Copy, Debug, PartialEq, Eq, Structural)]
pub enum PhaseResult {
    /// Proceed to the next phase (the default).
    Continue,
    /// Run this phase again (within the retry limit).
    Retry,
    /// Skip to the next phase, ignoring measurements.
    Skip,
    /// Stop the test (intentional).
    Stop,
    /// Mark the phase as failed.
    Fail,
}

/// The raw value a Python phase returned.
#[derive(Debug)]
pub enum PythonPhaseResult {
    Bool(bool),
    String(String),
    Null,
}

/// Upper-case form of a string, as `str::to_uppercase` computes it.
pub uninterp spec fn upper_case(s: Seq<char>) -> Seq<char>;

/// Upper-cases a string.
///
/// Calls `str::to_uppercase` (Unicode upper-case mapping); the contract only
/// names the result as a function of the input.
#[verifier::external_body]
fn to_upper(s: &str) -> (r: String)
    ensures
        r@ == upper_case(s@),
{
    s.to_uppercase()
}

/// The phase result that a Python return value stands for, or the error text.
pub open spec fn python_result_spec(v: PythonPhaseResult) -> Result<PhaseResult, Seq<char>> {
    match v {
        PythonPhaseResult::Bool(b) => if b {
            Ok(PhaseResult::Continue)
        } else {
            Ok(PhaseResult::Fail)
        },
        PythonPhaseResult::String(s) => {
            let u = upper_case(s@);
            if u == "CONTINUE"@ {
                Ok(PhaseResult::Continue)
            } else if u == "RETRY"@ {
                Ok(PhaseResult::Retry)
            } else if u == "SKIP"@ {
                Ok(PhaseResult::Skip)
            } else if u == "STOP"@ {
                Ok(PhaseResult::Stop)
            } else if u == "FAIL"@ {
                Ok(PhaseResult::Fail)
            } else {
                Err("Unknown phase result: "@ + s@)
            }
        },
        PythonPhaseResult::Null => Ok(PhaseResult::Continue),
    }
}

/// Decides which spelling of a phase result an upper-cased string is.
pub fn match_result_word(u: &String) -> (r: Option<PhaseResult>)
    ensures
        r == (if u@ == "CONTINUE"@ {
            Some(PhaseResult::Continue)
        } else if u@ == "RETRY"@ {
            Some(PhaseResult::Retry)
        } else if u@ == "SKIP"@ {
            Some(PhaseResult::Skip)
        } else if u@ == "STOP"@ {
            Some(PhaseResult::Stop)
        } else if u@ == "FAIL"@ {
            Some(PhaseResult::Fail)
        } else {
            None::<PhaseResult>
        }),
{
    let continue_word = String::from_str("CONTINUE");
    let retry_word = String::from_str("RETRY");
    let skip_word = String::from_str("SKIP");
    let stop_word = String::from_str("STOP");
    let fail_word = String::from_str("FAIL");
    if *u == continue_word {
        Some(PhaseResult::Continue)
    } else if *u == retry_word {
        Some(PhaseResult::Retry)
    } else if *u == skip_word {
        Some(PhaseResult::Skip)
    } else if *u == stop_word {
        Some(PhaseResult::Stop)
    } else if *u == fail_word {
        Some(PhaseResult::Fail)
    } else {
        None
    }
}

impl PhaseResult {
    /// Interprets what a Python phase returned: `True`/`None` continue,
    /// `False` fails, and a string names a result case-insensitively.
    pub fn from_python_result(value: &PythonPhaseResult) -> (r: Result<PhaseResult, String>)
        ensures
            match (r, python_result_spec(*value)) {
                (Ok(a), Ok(b)) => a == b,
                (Err(e), Err(m)) => e@ == m,
                _ => false,
            },
    {
        match value {
            PythonPhaseResult::Bool(b) => {
                if *b {
                    Ok(PhaseResult::Continue)
                } else {
                    Ok(PhaseResult::Fail)
                }
            },
            PythonPhaseResult::String(s) => {
                let u = to_upper(s.as_str());
                match match_result_word(&u) {
                    Some(p) => Ok(p),
                    None => {
                        let mut msg = String::from_str("Unknown phase result: ");
                        msg.append(s.as_str());
                        Err(msg)
                    },
                }
            },
            PythonPhaseResult::Null => Ok(PhaseResult::Continue),
        }
    }
}

/// The outcome that a phase's result and execution context amount to, in
/// priority order: error, timeout, stop (shutdown or explicit), retry (or fail
/// when no retry is left), failed measurements, skip, explicit fail, pass.
pub open spec fn outcome_spec(
    result: PhaseResult,
    timed_out: bool,
    errored: bool,
    measurements_pass: bool,
    shutdown_requested: bool,
    can_retry: bool,
) -> Outcome {
    if errored {
        Outcome::Error
    } else if timed_out {
        Outcome::Timeout
    } else if shutdown_requested || result == PhaseResult::Stop {
        Outcome::Stop
    } else if result == PhaseResult::Retry {
        if can_retry {
            Outcome::Retry
        } else {
            Outcome::Fail
        }
    } else if !measurements_pass {
        Outcome::Fail
    } else if result == PhaseResult::Skip {
        Outcome::Skip
    } else if result == PhaseResult::Fail {
        Outcome::Fail
    } else {
        Outcome::Pass
    }
}

impl Outcome {
    /// Placeholder outcome set by workers before the completion handler
    /// computes the real one.
    pub fn pending_completion() -> (o: Outcome)
        ensures
            o == Outcome::Pass,
    {
        Outcome::Pass
    }

    /// Computes the outcome of a finished phase from its result and context.
    pub fn from_execution(
        result: &PhaseResult,
        timeout_secs: Option<u64>,
        error: Option<&String>,
        measurements_pass: bool,
        shutdown_requested: bool,
        can_retry: bool,
    ) -> (o: Outcome)
        ensures
            o == outcome_spec(
                *result,
                timeout_secs is Some,
                error is Some,
                measurements_pass,
                shutdown_requested,
                can_retry,
            ),
    {
        if error.is_some() {
            return Outcome::Error;
        }
        if timeout_secs.is_some() {
            return Outcome::Timeout;
        }
        if shutdown_requested || matches!(result, PhaseResult::Stop) {
            return Outcome::Stop;
        }
        if matches!(result, PhaseResult::Retry) {
            return if can_retry {
                Outcome::Retry
            } else {
                Outcome::Fail
            };
        }
        if !measurements_pass {
            return Outcome::Fail;
        }
        if matches!(result, PhaseResult::Skip) {
            return Outcome::Skip;
        }
        if matches!(result, PhaseResult::Fail) {
            return Outcome::Fail;
        }
        Outcome::Pass
    }
}


/// Default number of retries of a phase (attempts after the first).
pub const DEFAULT_RETRY_LIMIT: usize = 3;

/// One log line of a phase.
#[derive(Clone, Debug)]
pub struct LogEntry {
    pub timestamp: String,
    pub level: String,
    pub message: String,
    pub file: Option<String>,
    pub line: Option<u32>,
}

/// The result of running a job.
#[derive(Debug)]
pub struct JobResult {
    /// What the phase returned (its intent).
    pub phase_result: PhaseResult,
    /// The outcome computed by the completion handler.
    pub phase_outcome: Outcome,
    /// The next action, once the completion handler has applied `then:`.
    pub next_action: Option<PhaseNextAction>,
    /// Set when the phase timed out.
    pub timeout_secs: Option<u64>,
    /// Set when execution failed.
    pub error: Option<String>,
    /// Exit code, when the phase called `sys.exit()` or ran a command.
    pub exit_code: Option<i32>,
    pub measurements: Vec<Measurement>,
    pub logs: Vec<LogEntry>,
    /// Start, in milliseconds since the Unix epoch.
    pub started_at: i64,
    /// End, in milliseconds since the Unix epoch.
    pub completed_at: i64,
    /// Unit identification reported by the phase.
    pub unit: Option<UnitInfo>,
    /// Unit identification the phase was given.
    pub input_unit_info: Option<UnitInfo>,
    pub retry_count: usize,
}

/// Two log lines with the same texts and place.
pub open spec fn same_log(a: LogEntry, b: LogEntry) -> bool {
    &&& a.timestamp@ == b.timestamp@
    &&& a.level@ == b.level@
    &&& a.message@ == b.message@
    &&& opt_text(a.file) == opt_text(b.file)
    &&& a.line == b.line
}

/// Two results that agree in every field.
pub open spec fn same_result(a: JobResult, b: JobResult) -> bool {
    &&& a.phase_result == b.phase_result
    &&& a.phase_outcome == b.phase_outcome
    &&& a.next_action == b.next_action
    &&& a.timeout_secs == b.timeout_secs
    &&& opt_text(a.error) == opt_text(b.error)
    &&& a.exit_code == b.exit_code
    &&& same_measurements(a.measurements@, b.measurements@)
    &&& a.logs@.len() == b.logs@.len()
    &&& forall|i: int| 0 <= i < a.logs@.len() ==> same_log(#[trigger] a.logs@[i], b.logs@[i])
    &&& a.started_at == b.started_at
    &&& a.completed_at == b.completed_at
    &&& opt_unit(a.unit) == opt_unit(b.unit)
    &&& opt_unit(a.input_unit_info) == opt_unit(b.input_unit_info)
    &&& a.retry_count == b.retry_count
}

/// Two optional results that agree.
pub open spec fn same_opt_result(a: Option<JobResult>, b: Option<JobResult>) -> bool {
    match (a, b) {
        (None, None) => true,
        (Some(x), Some(y)) => same_result(x, y),
        _ => false,
    }
}

impl JobResult {
    /// A copy of this result.
    pub fn duplicate(&self) -> (r: JobResult)
        ensures
            same_result(r, *self),
    {
        let mut logs: Vec<LogEntry> = Vec::new();
        let mut i: usize = 0;
        while i < self.logs.len()
            invariant
                i <= self.logs@.len(),
                logs@.len() == i,
                forall|j: int| 0 <= j < i ==> same_log(#[trigger] logs@[j], self.logs@[j]),
            decreases self.logs@.len() - i,
        {
            let l = &self.logs[i];
            logs.push(LogEntry {
                timestamp: l.timestamp.clone(),
                level: l.level.clone(),
                message: l.message.clone(),
                file: copy_opt_text(&l.file),
                line: l.line,
            });
            i = i + 1;
        }
        JobResult {
            phase_result: self.phase_result,
            phase_outcome: self.phase_outcome,
            next_action: self.next_action,
            timeout_secs: self.timeout_secs,
            error: copy_opt_text(&self.error),
            exit_code: self.exit_code,
            measurements: copy_measurements(&self.measurements),
            logs,
            started_at: self.started_at,
            completed_at: self.completed_at,
            unit: copy_opt_unit(&self.unit),
            input_unit_info: copy_opt_unit(&self.input_unit_info),
            retry_count: self.retry_count,
        }
    }
}

/// Whether a result counts as a failure for retry logic: an error, a
/// timeout, or an explicit stop or fail.
pub open spec fn result_is_failure(r: JobResult) -> bool {
    r.error is Some || r.timeout_secs is Some || r.phase_result == PhaseResult::Stop
        || r.phase_result == PhaseResult::Fail
}

/// Whether a result stops the test: by its next action once computed,
/// otherwise by an error, a timeout or an explicit stop.
pub open spec fn result_stops_test(r: JobResult) -> bool {
    match r.next_action {
        Some(a) => a == PhaseNextAction::Stop,
        None => r.error is Some || r.timeout_secs is Some || r.phase_result == PhaseResult::Stop,
    }
}

/// A result with the given intent and outcome and nothing else, started and
/// completed at `now`.
pub open spec fn bare_result(r: JobResult, phase_result: PhaseResult, outcome: Outcome, now: i64) -> bool {
    &&& r.phase_result == phase_result
    &&& r.phase_outcome == outcome
    &&& r.next_action is None
    &&& r.exit_code is None
    &&& r.measurements@.len() == 0
    &&& r.logs@.len() == 0
    &&& r.started_at == now
    &&& r.completed_at == now
    &&& r.unit is None
    &&& r.input_unit_info is None
    &&& r.retry_count == 0
}

impl JobResult {
    /// A result with the given intent and outcome at time `now`.
    pub fn bare(phase_result: PhaseResult, outcome: Outcome, now: i64) -> (r: JobResult)
        ensures
            bare_result(r, phase_result, outcome, now),
            r.timeout_secs is None,
            r.error is None,
    {
        JobResult {
            phase_result,
            phase_outcome: outcome,
            next_action: None,
            timeout_secs: None,
            error: None,
            exit_code: None,
            measurements: Vec::new(),
            logs: Vec::new(),
            started_at: now,
            completed_at: now,
            unit: None,
            input_unit_info: None,
            retry_count: 0,
        }
    }

    /// An error result carrying `error_msg`, stamped with the current time.
    pub fn new_error(error_msg: String) -> (r: JobResult)
        ensures
            bare_result(r, PhaseResult::Continue, Outcome::Error, r.started_at),
            r.timeout_secs is None,
            r.error matches Some(e) && e@ == error_msg@,
    {
        let now = now_millis();
        let mut r = JobResult::bare(PhaseResult::Continue, Outcome::Error, now);
        r.error = Some(error_msg);
        r
    }

    /// A timeout result after `secs` seconds, stamped with the current time.
    pub fn new_timeout(secs: u64) -> (r: JobResult)
        ensures
            bare_result(r, PhaseResult::Continue, Outcome::Timeout, r.started_at),
            r.timeout_secs == Some(secs),
            r.error is None,
    {
        let now = now_millis();
        let mut r = JobResult::bare(PhaseResult::Continue, Outcome::Timeout, now);
        r.timeout_secs = Some(secs);
        r
    }

    /// A skipped result, stamped with the current time.
    pub fn new_skip() -> (r: JobResult)
        ensures
            bare_result(r, PhaseResult::Skip, Outcome::Skip, r.started_at),
            r.timeout_secs is None,
            r.error is None,
    {
        let now = now_millis();
        JobResult::bare(PhaseResult::Skip, Outcome::Skip, now)
    }

    /// Whether this result is a failure (for retry logic).
    pub fn is_failure(&self) -> (b: bool)
        ensures
            b == result_is_failure(*self),
    {
        self.error.is_some() || self.timeout_secs.is_some()
            || matches!(self.phase_result, PhaseResult::Stop | PhaseResult::Fail)
    }

    /// Whether this result stops the test (by the final next action when
    /// computed, by the raw conditions before).
    pub fn should_stop_test(&self) -> (b: bool)
        ensures
            b == result_stops_test(*self),
    {
        match self.next_action {
            Some(a) => matches!(a, PhaseNextAction::Stop),
            None => self.error.is_some() || self.timeout_secs.is_some()
                || matches!(self.phase_result, PhaseResult::Stop),
        }
    }
}

/// A job: one phase to run, for one slot or shared by all slots.
#[derive(Debug)]
pub struct Job {
    pub id: JobId,
    /// `None` for a phase shared by all slots.
    pub slot_id: Option<String>,
    pub phase_key: String,
    pub phase_name: String,
    pub stage_scope: StageScope,
    /// Python module path of the phase.
    pub module: String,
    /// Python function name of the phase.
    pub function: String,
    /// Jobs that must have completed first.
    pub depends_on: Vec<JobId>,
    pub required_plugs: Vec<String>,
    pub ui_config: UiConfig,
    pub status: JobStatus,
    pub result: Option<JobResult>,
    pub retry_count: usize,
    pub retry_limit: usize,
    pub retry_delay_ms: Option<u64>,
    /// Phase timeout in milliseconds (`None`: no timeout).
    pub timeout_ms: Option<u64>,
    pub runtime_type: RuntimeType,
    /// Shell phases: the command.
    pub command: Option<String>,
    /// Shell phases: which shell.
    pub shell_type: Option<String>,
    /// Shell phases: the working directory.
    pub working_directory: Option<String>,
    /// Directory of the procedure, for relative paths.
    pub procedure_dir: Option<String>,
    pub phase_measurements: Vec<MeasurementSpec>,
    /// Unit identification handed to the phase.
    pub initial_unit_info: Option<UnitInfo>,
    /// Results of completed phases, by phase key (JSON text).
    pub phase_results: StringMap,
    /// The identifier dependents wait on: the job's own for an original job,
    /// the original's for a retry.
    pub dependency_id: JobId,
}

/// The key under which a phase's job is registered: `slot:phase`, or
/// `SHARED:phase` for shared jobs.
pub open spec fn job_key(slot_id: Option<Seq<char>>, phase: Seq<char>) -> Seq<char> {
    match slot_id {
        Some(s) => s + ":"@ + phase,
        None => "SHARED:"@ + phase,
    }
}

/// The identifiers of the dependencies that are registered, in order.
pub open spec fn resolved_deps(slot_id: Option<Seq<char>>, deps: Seq<Seq<char>>, map: Map<Seq<char>, JobId>) -> Seq<JobId>
    decreases deps.len(),
{
    if deps.len() == 0 {
        Seq::empty()
    } else {
        let rest = resolved_deps(slot_id, deps.drop_last(), map);
        let k = job_key(slot_id, deps.last());
        if map.contains_key(k) {
            rest.push(map[k])
        } else {
            rest
        }
    }
}

/// A copy of a list of job identifiers.
pub fn copy_ids(v: &Vec<JobId>) -> (r: Vec<JobId>)
    ensures
        r@ == v@,
{
    let mut r: Vec<JobId> = Vec::new();
    let mut i: usize = 0;
    while i < v.len()
        invariant
            i <= v@.len(),
            r@ == v@.subrange(0, i as int),
        decreases v@.len() - i,
    {
        r.push(v[i]);
        i = i + 1;
    }
    assert(v@.subrange(0, v@.len() as int) =~= v@);
    r
}

/// Builds the registration key of a phase.
pub fn make_job_key(slot_id: &Option<String>, phase: &str) -> (k: String)
    ensures
        k@ == job_key(opt_text(*slot_id), phase@),
{
    let mut k = match slot_id {
        Some(s) => {
            let mut k = s.clone();
            push_str(&mut k, ":");
            k
        },
        None => text_of("SHARED:"),
    };
    push_str(&mut k, phase);
    k
}

/// Whether every identifier in `deps` is in `completed`.
pub open spec fn deps_satisfied(deps: Seq<JobId>, completed: Set<JobId>) -> bool {
    forall|k: int| 0 <= k < deps.len() ==> completed.contains(#[trigger] deps[k])
}

/// Everything about a job except its identity, lifecycle and attempt count:
/// what it runs, where, under which limits, with which UI and declared
/// measurements, and what it depends on.
pub open spec fn same_plan(a: Job, b: Job) -> bool {
    &&& opt_text(a.slot_id) == opt_text(b.slot_id)
    &&& a.phase_key@ == b.phase_key@
    &&& a.phase_name@ == b.phase_name@
    &&& a.stage_scope == b.stage_scope
    &&& a.module@ == b.module@
    &&& a.function@ == b.function@
    &&& a.depends_on@ == b.depends_on@
    &&& a.required_plugs@.map_values(|s: String| s@) == b.required_plugs@.map_values(|s: String| s@)
    &&& a.retry_limit == b.retry_limit
    &&& a.retry_delay_ms == b.retry_delay_ms
    &&& a.timeout_ms == b.timeout_ms
    &&& a.runtime_type == b.runtime_type
    &&& opt_text(a.command) == opt_text(b.command)
    &&& opt_text(a.shell_type) == opt_text(b.shell_type)
    &&& opt_text(a.working_directory) == opt_text(b.working_directory)
    &&& opt_text(a.procedure_dir) == opt_text(b.procedure_dir)
    &&& opt_unit(a.initial_unit_info) == opt_unit(b.initial_unit_info)
    &&& a.phase_results@ == b.phase_results@
    &&& a.dependency_id == b.dependency_id
    &&& same_ui(a.ui_config, b.ui_config)
    &&& same_measurement_specs(a.phase_measurements@, b.phase_measurements@)
}

impl Job {
    /// Creates a pending job for a Python phase, with a fresh identifier.
    /// Dependencies are phase keys, resolved in the job's own context
    /// (`slot:key`, or `SHARED:key` for a shared job); unknown keys are dropped.
    pub fn new(
        slot_id: Option<String>,
        phase_key: String,
        phase_name: String,
        stage_scope: StageScope,
        module: String,
        function: String,
        depends_on: Vec<String>,
        required_plugs: Vec<String>,
        ui_config: UiConfig,
        timeout_ms: Option<u64>,
        retry_limit: Option<usize>,
        retry_delay_ms: Option<u64>,
        job_map: &JobIdMap,
        phase_measurements: Vec<MeasurementSpec>,
    ) -> (job: Job)
        ensures
            opt_text(job.slot_id) == opt_text(slot_id),
            job.phase_key@ == phase_key@,
            job.phase_name@ == phase_name@,
            job.stage_scope == stage_scope,
            job.module@ == module@,
            job.function@ == function@,
            job.depends_on@ == resolved_deps(opt_text(slot_id), depends_on@.map_values(|s: String| s@), job_map@),
            job.required_plugs@ == required_plugs@,
            job.ui_config == ui_config,
            job.status == JobStatus::Pending,
            job.result is None,
            job.retry_count == 0,
            job.retry_limit == (match retry_limit { Some(l) => l, None => DEFAULT_RETRY_LIMIT }),
            job.retry_delay_ms == retry_delay_ms,
            job.timeout_ms == timeout_ms,
            job.runtime_type == RuntimeType::Python,
            job.command is None,
            job.shell_type is None,
            job.working_directory is None,
            job.procedure_dir is None,
            job.phase_measurements@ == phase_measurements@,
            job.initial_unit_info is None,
            job.phase_results@.len() == 0,
            job.dependency_id == job.id,
    {
        let id = new_job_id();
        let mut deps: Vec<JobId> = Vec::new();
        let mut i: usize = 0;
        let ghost names = depends_on@.map_values(|s: String| s@);
        while i < depends_on.len()
            invariant
                i <= depends_on@.len(),
                names == depends_on@.map_values(|s: String| s@),
                deps@ == resolved_deps(opt_text(slot_id), names.subrange(0, i as int), job_map@),
            decreases depends_on@.len() - i,
        {
            let key = make_job_key(&slot_id, depends_on[i].as_str());
            proof {
                let p = names.subrange(0, i + 1);
                assert(p.drop_last() =~= names.subrange(0, i as int));
                assert(p.last() == depends_on@[i as int]@);
            }
            match job_map.get(key.as_str()) {
                Some(dep) => deps.push(dep),
                None => {},
            }
            i = i + 1;
        }
        assert(names.subrange(0, depends_on@.len() as int) =~= names);
        let retry_limit = match retry_limit {
            Some(l) => l,
            None => DEFAULT_RETRY_LIMIT,
        };
        Job {
            id,
            slot_id,
            phase_key,
            phase_name,
            stage_scope,
            module,
            function,
            depends_on: deps,
            required_plugs,
            ui_config,
            status: JobStatus::Pending,
            result: None,
            retry_count: 0,
            retry_limit,
            retry_delay_ms,
            timeout_ms,
            runtime_type: RuntimeType::Python,
            command: None,
            shell_type: None,
            working_directory: None,
            procedure_dir: None,
            phase_measurements,
            initial_unit_info: None,
            phase_results: StringMap::new(),
            dependency_id: id,
        }
    }

    /// Creates a pending job for a built-in phase (operator UI only, or
    /// empty): no module or function.
    pub fn new_native(
        slot_id: Option<String>,
        phase_key: String,
        phase_name: String,
        stage_scope: StageScope,
        depends_on: Vec<String>,
        required_plugs: Vec<String>,
        ui_config: UiConfig,
        timeout_ms: Option<u64>,
        retry_limit: Option<usize>,
        retry_delay_ms: Option<u64>,
        job_map: &JobIdMap,
        phase_measurements: Vec<MeasurementSpec>,
    ) -> (job: Job)
        ensures
            opt_text(job.slot_id) == opt_text(slot_id),
            job.phase_key@ == phase_key@,
            job.phase_name@ == phase_name@,
            job.stage_scope == stage_scope,
            job.module@.len() == 0,
            job.function@.len() == 0,
            job.depends_on@ == resolved_deps(opt_text(slot_id), depends_on@.map_values(|s: String| s@), job_map@),
            job.required_plugs@ == required_plugs@,
            job.ui_config == ui_config,
            job.status == JobStatus::Pending,
            job.result is None,
            job.retry_count == 0,
            job.retry_limit == (match retry_limit { Some(l) => l, None => DEFAULT_RETRY_LIMIT }),
            job.retry_delay_ms == retry_delay_ms,
            job.timeout_ms == timeout_ms,
            job.runtime_type == RuntimeType::Native,
            job.command is None,
            job.shell_type is None,
            job.working_directory is None,
            job.procedure_dir is None,
            job.phase_measurements@ == phase_measurements@,
            job.initial_unit_info is None,
            job.phase_results@.len() == 0,
            job.dependency_id == job.id,
    {
        let mut job = Job::new(
            slot_id,
            phase_key,
            phase_name,
            stage_scope,
            String::new(),
            String::new(),
            depends_on,
            required_plugs,
            ui_config,
            timeout_ms,
            retry_limit,
            retry_delay_ms,
            job_map,
            phase_measurements,
        );
        job.runtime_type = RuntimeType::Native;
        job
    }

    /// Creates a pending job for a shell phase: the command, its shell and
    /// working directory, and the procedure's directory; no measurements.
    pub fn new_shell(
        slot_id: Option<String>,
        phase_key: String,
        phase_name: String,
        stage_scope: StageScope,
        command: String,
        depends_on: Vec<String>,
        required_plugs: Vec<String>,
        ui_config: UiConfig,
        timeout_ms: Option<u64>,
        retry_limit: Option<usize>,
        retry_delay_ms: Option<u64>,
        job_map: &JobIdMap,
        shell_type: Option<String>,
        working_directory: Option<String>,
        procedure_dir: Option<String>,
    ) -> (job: Job)
        ensures
            opt_text(job.slot_id) == opt_text(slot_id),
            job.phase_key@ == phase_key@,
            job.phase_name@ == phase_name@,
            job.stage_scope == stage_scope,
            job.module@.len() == 0,
            job.function@.len() == 0,
            job.depends_on@ == resolved_deps(opt_text(slot_id), depends_on@.map_values(|s: String| s@), job_map@),
            job.required_plugs@ == required_plugs@,
            job.ui_config == ui_config,
            job.status == JobStatus::Pending,
            job.result is None,
            job.retry_count == 0,
            job.retry_limit == (match retry_limit { Some(l) => l, None => DEFAULT_RETRY_LIMIT }),
            job.retry_delay_ms == retry_delay_ms,
            job.timeout_ms == timeout_ms,
            job.runtime_type == RuntimeType::Shell,
            job.command == Some(command),
            job.shell_type == shell_type,
            job.working_directory == working_directory,
            job.procedure_dir == procedure_dir,
            job.phase_measurements@.len() == 0,
            job.initial_unit_info is None,
            job.phase_results@.len() == 0,
            job.dependency_id == job.id,
    {
        let mut job = Job::new(
            slot_id,
            phase_key,
            phase_name,
            stage_scope,
            String::new(),
            String::new(),
            depends_on,
            required_plugs,
            ui_config,
            timeout_ms,
            retry_limit,
            retry_delay_ms,
            job_map,
            Vec::new(),
        );
        job.runtime_type = RuntimeType::Shell;
        job.command = Some(command);
        job.shell_type = shell_type;
        job.working_directory = working_directory;
        job.procedure_dir = procedure_dir;
        job
    }

    /// Whether this job is shared by all slots.
    pub fn is_shared(&self) -> (b: bool)
        ensures
            b == (self.slot_id is None),
    {
        self.slot_id.is_none()
    }

    /// The slot, or `<shared>` for a shared job.
    pub fn get_slot_display(&self) -> (s: String)
        ensures
            s@ == (match self.slot_id {
                Some(id) => id@,
                None => "<shared>"@,
            }),
    {
        match &self.slot_id {
            Some(id) => id.clone(),
            None => text_of("<shared>"),
        }
    }

    /// Whether every dependency of the job has completed.
    pub fn dependencies_satisfied(&self, completed: &HashSet<JobId>) -> (b: bool)
        ensures
            b == deps_satisfied(self.depends_on@, completed@),
    {
        broadcast use vstd::std_specs::hash::group_hash_axioms;
        let mut i: usize = 0;
        while i < self.depends_on.len()
            invariant
                i <= self.depends_on@.len(),
                forall|k: int| 0 <= k < i ==> completed@.contains(#[trigger] self.depends_on@[k]),
            decreases self.depends_on@.len() - i,
        {
            if !completed.contains(&self.depends_on[i]) {
                return false;
            }
            i = i + 1;
        }
        true
    }

    /// Whether another attempt is allowed.
    pub fn can_retry(&self) -> (b: bool)
        ensures
            b == (self.retry_count < self.retry_limit),
    {
        self.retry_count < self.retry_limit
    }

    /// Whether the job's result is a failure (no result: no).
    pub fn is_failure(&self) -> (b: bool)
        ensures
            b == (self.result matches Some(r) && result_is_failure(r)),
    {
        match &self.result {
            Some(r) => r.is_failure(),
            None => false,
        }
    }

    /// Whether the job's result stops the test (no result: no).
    pub fn should_stop_test(&self) -> (b: bool)
        ensures
            b == (self.result matches Some(r) && result_stops_test(r)),
    {
        match &self.result {
            Some(r) => r.should_stop_test(),
            None => false,
        }
    }

    /// Whether the phase asked to skip (its measurements are then ignored).
    pub fn should_skip_measurements(&self) -> (b: bool)
        ensures
            b == (self.result matches Some(r) && r.phase_result == PhaseResult::Skip),
    {
        match &self.result {
            Some(r) => matches!(r.phase_result, PhaseResult::Skip),
            None => false,
        }
    }

    /// The next attempt of this job: same plan, a fresh identifier, one more
    /// attempt counted, pending, and no result. It resolves the same
    /// dependency as the original.
    pub fn create_retry_job(&self) -> (r: Job)
        requires
            self.retry_count < usize::MAX,
        ensures
            same_plan(r, *self),
            r.retry_count == self.retry_count + 1,
            r.status == JobStatus::Pending,
            r.result is None,
    {
        let id = new_job_id();
        let required_plugs = copy_texts(&self.required_plugs);
        assert(required_plugs@.map_values(|s: String| s@) =~= self.required_plugs@.map_values(|s: String| s@));
        Job {
            id,
            slot_id: copy_opt_text(&self.slot_id),
            phase_key: self.phase_key.clone(),
            phase_name: self.phase_name.clone(),
            stage_scope: self.stage_scope,
            module: self.module.clone(),
            function: self.function.clone(),
            depends_on: copy_ids(&self.depends_on),
            required_plugs,
            ui_config: self.ui_config.duplicate(),
            status: JobStatus::Pending,
            result: None,
            retry_count: self.retry_count + 1,
            retry_limit: self.retry_limit,
            retry_delay_ms: self.retry_delay_ms,
            timeout_ms: self.timeout_ms,
            runtime_type: self.runtime_type,
            command: copy_opt_text(&self.command),
            shell_type: copy_opt_text(&self.shell_type),
            working_directory: copy_opt_text(&self.working_directory),
            procedure_dir: copy_opt_text(&self.procedure_dir),
            phase_measurements: copy_measurement_specs(&self.phase_measurements),
            initial_unit_info: copy_opt_unit(&self.initial_unit_info),
            phase_results: self.phase_results.duplicate(),
            dependency_id: self.dependency_id,
        }
    }
}

} // verus!
