//! What a worker decides while running a phase: whether to show the operator
//! UI and wait for it, what a phase's answer means, and the result it builds
//! from what the runtime reported.

use vstd::prelude::*;
use crate::ids::{job_id_text, now_rfc3339, uuid_text, JobId};
use crate::job::{python_result_spec, Job, JobResult, LogEntry, Outcome, PhaseResult, PythonPhaseResult};
use crate::measurements::Measurement;
use crate::string_map::{str_eq, StringMap};
use crate::text::{decimal, lines_from, push_decimal, push_signed_decimal, push_str, signed_decimal, text_lines, text_of};
use crate::ui::{needs_user_input, UiConfig};
use crate::unit::{copy_opt_unit, opt_unit, UnitInfo};
use crate::unit_merge::{merge_unit_info, ui_merged};

verus! {

/// How a phase uses the operator UI.
#[derive(Clone, Copy, Debug, PartialEq, Eq, Structural)]
pub enum UiMode {
    /// Show the UI and wait for the operator's submission.
    AwaitInput,
    /// Show the UI without waiting.
    DisplayOnly,
    /// The phase has no UI.
    NoUi,
}

/// The UI mode of a phase: none without components; otherwise waiting
/// exactly when the configuration requires input.
pub open spec fn ui_mode_spec(c: UiConfig) -> UiMode {
    if c.components@.len() == 0 {
        UiMode::NoUi
    } else if needs_user_input(c) {
        UiMode::AwaitInput
    } else {
        UiMode::DisplayOnly
    }
}

/// Decides how a phase uses the operator UI.
pub fn ui_mode(config: &UiConfig) -> (m: UiMode)
    ensures
        m == ui_mode_spec(*config),
{
    if config.components.len() == 0 {
        UiMode::NoUi
    } else if config.requires_user_input() {
        UiMode::AwaitInput
    } else {
        UiMode::DisplayOnly
    }
}

/// The identifier of a UI request: the job's identifier and the time in
/// milliseconds, joined by `_`.
pub fn make_request_id(job_id: JobId, now_millis: i64) -> (r: String)
    ensures
        r@ == uuid_text(job_id) + "_"@ + signed_decimal(now_millis as int),
{
    let mut r = job_id_text(job_id);
    push_str(&mut r, "_");
    push_signed_decimal(&mut r, now_millis);
    r
}

/// The address of a plug served on a local port.
pub fn plug_address(port: u16) -> (r: String)
    ensures
        r@ == "127.0.0.1:"@ + decimal(port as nat),
{
    let mut r = text_of("127.0.0.1:");
    push_decimal(&mut r, port as u128);
    r
}

/// The phase result a Python phase's answer stands for: what it returned,
/// when that could be read and is a known result; continue otherwise.
pub open spec fn answered_result(parsed: Option<PythonPhaseResult>) -> PhaseResult {
    match parsed {
        Some(v) => match python_result_spec(v) {
            Ok(p) => p,
            Err(_) => PhaseResult::Continue,
        },
        None => PhaseResult::Continue,
    }
}

/// Reads a Python phase's answer (`None` when it gave none or it could not
/// be read).
pub fn resolve_phase_result(parsed: &Option<PythonPhaseResult>) -> (p: PhaseResult)
    ensures
        p == answered_result(*parsed),
{
    match parsed {
        Some(v) => match PhaseResult::from_python_result(v) {
            Ok(p) => p,
            Err(_) => PhaseResult::Continue,
        },
        None => PhaseResult::Continue,
    }
}

/// Whether a phase's answer ends it without the operator: a skip, a stop,
/// a failure, or an error.
pub open spec fn ends_without_operator(p: PhaseResult, has_error: bool) -> bool {
    p == PhaseResult::Skip || p == PhaseResult::Stop || p == PhaseResult::Fail || has_error
}

/// Decides whether a phase's answer ends it without the operator.
pub fn is_terminal_result(p: PhaseResult, has_error: bool) -> (b: bool)
    ensures
        b == ends_without_operator(p, has_error),
{
    matches!(p, PhaseResult::Skip | PhaseResult::Stop | PhaseResult::Fail) || has_error
}

/// Where the operator's submission stands when the phase has answered.
#[derive(Clone, Copy, Debug, PartialEq, Eq, Structural)]
pub enum SubmissionState {
    Submitted,
    Pending,
    Closed,
}

/// What the worker does about the operator UI once the phase answered.
#[derive(Clone, Copy, Debug, PartialEq, Eq, Structural)]
pub enum UiWaitAction {
    /// Use what the operator submitted.
    UseSubmission,
    /// Withdraw the UI: the answer ends the phase.
    Dismiss,
    /// Wait for the operator's submission.
    Wait,
    /// Nothing to wait for.
    Ignore,
}

/// A submission already made is used; a pending one is withdrawn when the
/// answer ends the phase and awaited otherwise; a closed channel is ignored.
pub open spec fn ui_wait_spec(s: SubmissionState, terminal: bool) -> UiWaitAction {
    match s {
        SubmissionState::Submitted => UiWaitAction::UseSubmission,
        SubmissionState::Pending => if terminal {
            UiWaitAction::Dismiss
        } else {
            UiWaitAction::Wait
        },
        SubmissionState::Closed => UiWaitAction::Ignore,
    }
}

/// Decides what to do about the operator UI once the phase answered.
pub fn ui_wait_action(s: SubmissionState, terminal: bool) -> (a: UiWaitAction)
    ensures
        a == ui_wait_spec(s, terminal),
{
    match s {
        SubmissionState::Submitted => UiWaitAction::UseSubmission,
        SubmissionState::Pending => if terminal {
            UiWaitAction::Dismiss
        } else {
            UiWaitAction::Wait
        },
        SubmissionState::Closed => UiWaitAction::Ignore,
    }
}

/// What became of a built-in phase's wait for the operator.
#[derive(Clone, Copy, Debug, PartialEq, Eq, Structural)]
pub enum OperatorReply {
    /// The operator submitted.
    Submitted,
    /// The channel closed: the phase was cancelled.
    Cancelled,
    /// No channel was available to wait on.
    NoChannel,
}

/// A built-in phase that waits continues once the operator submits and
/// stops when cancelled; without a channel it continues with an error. A
/// phase that does not wait continues.
pub fn native_phase_result(waits: bool, reply: OperatorReply) -> (r: (PhaseResult, Option<String>))
    ensures
        !waits ==> r.0 == PhaseResult::Continue && r.1 is None,
        waits && reply == OperatorReply::Submitted ==> r.0 == PhaseResult::Continue && r.1 is None,
        waits && reply == OperatorReply::Cancelled ==> r.0 == PhaseResult::Stop && r.1 is None,
        waits && reply == OperatorReply::NoChannel ==> r.0 == PhaseResult::Continue && (r.1 matches Some(e)
            && e@ == "No UI response channel available"@),
{
    if !waits {
        return (PhaseResult::Continue, None);
    }
    match reply {
        OperatorReply::Submitted => (PhaseResult::Continue, None),
        OperatorReply::Cancelled => (PhaseResult::Stop, None),
        OperatorReply::NoChannel => (PhaseResult::Continue, Some(text_of("No UI response channel available"))),
    }
}

/// The names of a list of measurements, in order.
pub open spec fn names(ms: Seq<Measurement>) -> Seq<Seq<char>> {
    ms.map_values(|m: Measurement| m.name@)
}

/// The measurements of `extra` whose name none of `existing` has, in order.
pub open spec fn new_by_name(existing: Seq<Seq<char>>, extra: Seq<Measurement>) -> Seq<Measurement>
    decreases extra.len(),
{
    if extra.len() == 0 {
        Seq::empty()
    } else if existing.contains(extra.last().name@) {
        new_by_name(existing, extra.drop_last())
    } else {
        new_by_name(existing, extra.drop_last()).push(extra.last())
    }
}

/// Adds the measurements bound in the operator UI that the phase did not
/// set itself (the phase wins on a shared name).
pub fn merge_bound_measurements(measurements: &mut Vec<Measurement>, bound: Vec<Measurement>)
    ensures
        final(measurements)@ == old(measurements)@ + new_by_name(names(old(measurements)@), bound@),
{
    let ghost existing = names(measurements@);
    let ghost start = measurements@;
    let count = measurements.len();
    let mut rest = bound;
    let ghost all = rest@;
    let total = rest.len();
    let mut i: usize = 0;
    while rest.len() > 0
        invariant
            all.len() == total,
            all == all.subrange(0, i as int) + rest@,
            i + rest@.len() == total,
            count == start.len(),
            existing == names(start),
            measurements@.len() >= count,
            measurements@.subrange(0, count as int) == start,
            measurements@ == start + new_by_name(existing, all.subrange(0, i as int)),
        decreases rest@.len(),
    {
        let m = rest.remove(0);
        proof {
            assert(all.subrange(0, i + 1).drop_last() =~= all.subrange(0, i as int));
            assert(all.subrange(0, i + 1).last() == m);
            assert(all =~= all.subrange(0, i + 1) + rest@);
        }
        let mut taken = false;
        let mut k: usize = 0;
        while k < count
            invariant
                k <= count,
                count == start.len(),
                existing == names(start),
                measurements@.subrange(0, count as int) == start,
                measurements@.len() >= count,
                taken == exists|x: int| 0 <= x < k && existing[x] == m.name@,
            decreases count - k,
        {
            assert(measurements@[k as int] == start[k as int]);
            assert(existing[k as int] == measurements@[k as int].name@);
            if str_eq(measurements[k].name.as_str(), m.name.as_str()) {
                taken = true;
            }
            k = k + 1;
        }
        assert(taken == existing.contains(m.name@));
        if !taken {
            let ghost before = measurements@;
            measurements.push(m);
            proof {
                assert(measurements@.subrange(0, count as int) =~= start);
            }
        }
        i = i + 1;
    }
    assert(all.subrange(0, i as int) =~= all);
}

/// The identification a UI form reports: its fields, its non-empty
/// sub-units, and the status `tested`.
pub fn unit_info_from_fields(
    serial_number: Option<String>,
    batch_number: Option<String>,
    part_number: Option<String>,
    revision_number: Option<String>,
    sub_units: StringMap,
) -> (u: UnitInfo)
    ensures
        u@.serial_number == crate::unit::opt_text(serial_number),
        u@.batch_number == crate::unit::opt_text(batch_number),
        u@.part_number == crate::unit::opt_text(part_number),
        u@.revision_number == crate::unit::opt_text(revision_number),
        u@.sub_units == (if sub_units@.len() == 0 { None } else { Some(sub_units@) }),
        u@.status == "tested"@,
        u@.metadata is None,
{
    let subs = if sub_units.is_empty() {
        None
    } else {
        Some(sub_units)
    };
    UnitInfo {
        serial_number,
        part_number,
        revision_number,
        batch_number,
        sub_units: subs,
        status: text_of("tested"),
        metadata: None,
    }
}

/// One log line at the current time.
fn log_line(level: &str, message: String) -> (e: LogEntry)
    ensures
        e.level@ == level@,
        e.message@ == message@,
        e.file is None,
        e.line is None,
{
    LogEntry { timestamp: now_rfc3339(), level: text_of(level), message, file: None, line: None }
}

/// The texts and levels of a list of log lines.
pub open spec fn log_texts(logs: Seq<LogEntry>) -> Seq<(Seq<char>, Seq<char>)> {
    logs.map_values(|e: LogEntry| (e.level@, e.message@))
}

/// The log lines, at a level, of the lines of a text.
pub open spec fn lines_at(level: Seq<char>, lines: Seq<Seq<char>>) -> Seq<(Seq<char>, Seq<char>)> {
    lines.map_values(|l: Seq<char>| (level, l))
}

/// Appends one log line per line of `text`, at `level`.
fn push_text_lines(logs: &mut Vec<LogEntry>, level: &str, text: &str)
    ensures
        log_texts(final(logs)@) == log_texts(old(logs)@) + lines_at(level@, lines_from(text@, 0)),
        forall|k: int| 0 <= k < final(logs)@.len() ==> ((#[trigger] final(logs)@[k]).file is None && final(logs)@[k].line is None) || k < old(logs)@.len(),
        forall|k: int| 0 <= k < old(logs)@.len() ==> #[trigger] final(logs)@[k] == old(logs)@[k],
{
    let lines = text_lines(text);
    let ghost ls = lines@.map_values(|l: String| l@);
    let ghost start = logs@;
    let mut i: usize = 0;
    while i < lines.len()
        invariant
            i <= lines@.len(),
            ls == lines@.map_values(|l: String| l@),
            ls == lines_from(text@, 0),
            logs@.len() == start.len() + i,
            forall|k: int| 0 <= k < start.len() ==> #[trigger] logs@[k] == start[k],
            forall|k: int| start.len() <= k < logs@.len() ==> (#[trigger] logs@[k]).file is None && logs@[k].line is None,
            log_texts(logs@) == log_texts(start) + lines_at(level@, ls.subrange(0, i as int)),
        decreases lines@.len() - i,
    {
        let e = log_line(level, lines[i].clone());
        let ghost before = logs@;
        logs.push(e);
        proof {
            assert(log_texts(logs@) =~= log_texts(before).push((level@, ls[i as int])));
            assert(lines_at(level@, ls.subrange(0, i + 1)) =~= lines_at(level@, ls.subrange(0, i as int)).push((level@, ls[i as int])));
            assert(log_texts(start) + lines_at(level@, ls.subrange(0, i + 1)) =~= (log_texts(start) + lines_at(level@, ls.subrange(0, i as int))).push((level@, ls[i as int])));
        }
        i = i + 1;
    }
    assert(ls.subrange(0, i as int) =~= ls);
}

/// The log of a shell phase: the command and its shell, the working
/// directory, the output lines, the error output lines, then the verdict.
pub open spec fn shell_log(
    shell: Seq<char>,
    command: Seq<char>,
    working_dir: Seq<char>,
    stdout: Seq<char>,
    stderr: Seq<char>,
    success: bool,
    exit_code: Option<i32>,
) -> Seq<(Seq<char>, Seq<char>)> {
    seq![("INFO"@, "🐚 Executing command with "@ + shell + ": "@ + command), ("INFO"@, "📁 Working directory: "@ + working_dir)]
        + lines_at("INFO"@, lines_from(stdout, 0)) + lines_at("ERROR"@, lines_from(stderr, 0)) + seq![
        if success {
            ("INFO"@, "✅ Command succeeded with exit code 0"@)
        } else {
            ("ERROR"@, "❌ Command failed with exit code "@ + signed_decimal(match exit_code {
                Some(c) => c as int,
                None => -1,
            }))
        },
    ]
}

/// The result of a shell phase that ran: it continues when the command
/// succeeded and fails otherwise; its log tells the command, the directory,
/// the output and the verdict; it carries the exit code.
pub fn shell_job_result(
    job: &Job,
    shell_type: &str,
    command: &str,
    working_dir: &str,
    stdout: &str,
    stderr: &str,
    success: bool,
    exit_code: Option<i32>,
    started_at: i64,
    completed_at: i64,
) -> (r: JobResult)
    ensures
        r.phase_result == (if success { PhaseResult::Continue } else { PhaseResult::Fail }),
        r.phase_outcome == Outcome::Pass,
        r.next_action is None,
        r.timeout_secs is None,
        r.error is None,
        r.exit_code == exit_code,
        r.measurements@.len() == 0,
        log_texts(r.logs@) == shell_log(shell_type@, command@, working_dir@, stdout@, stderr@, success, exit_code),
        r.started_at == started_at,
        r.completed_at == completed_at,
        r.unit is None,
        opt_unit(r.input_unit_info) == opt_unit(job.initial_unit_info),
        r.retry_count == job.retry_count,
{
    let mut logs: Vec<LogEntry> = Vec::new();
    let mut first = text_of("🐚 Executing command with ");
    push_str(&mut first, shell_type);
    push_str(&mut first, ": ");
    push_str(&mut first, command);
    logs.push(log_line("INFO", first));
    let mut second = text_of("📁 Working directory: ");
    push_str(&mut second, working_dir);
    logs.push(log_line("INFO", second));
    let ghost head = logs@;
    push_text_lines(&mut logs, "INFO", stdout);
    push_text_lines(&mut logs, "ERROR", stderr);
    let ghost body = logs@;
    let phase_result = if success {
        logs.push(log_line("INFO", text_of("✅ Command succeeded with exit code 0")));
        PhaseResult::Continue
    } else {
        let code: i64 = match exit_code {
            Some(c) => c as i64,
            None => -1,
        };
        let mut m = text_of("❌ Command failed with exit code ");
        push_signed_decimal(&mut m, code);
        logs.push(log_line("ERROR", m));
        PhaseResult::Fail
    };
    proof {
        assert(log_texts(head) =~= seq![("INFO"@, "🐚 Executing command with "@ + shell_type@ + ": "@ + command@), ("INFO"@, "📁 Working directory: "@ + working_dir@)]);
        assert(log_texts(logs@) =~= log_texts(body).push(log_texts(logs@).last()));
        assert(log_texts(logs@) =~= shell_log(shell_type@, command@, working_dir@, stdout@, stderr@, success, exit_code));
    }
    JobResult {
        phase_result,
        phase_outcome: Outcome::pending_completion(),
        next_action: None,
        timeout_secs: None,
        error: None,
        exit_code,
        measurements: Vec::new(),
        logs,
        started_at,
        completed_at,
        unit: None,
        input_unit_info: copy_opt_unit(&job.initial_unit_info),
        retry_count: job.retry_count,
    }
}

/// What a Python runtime reported for a phase.
pub struct PhaseReport {
    /// The phase's answer, when it gave one that could be read.
    pub answer: Option<PythonPhaseResult>,
    pub error: Option<String>,
    pub exit_code: Option<i32>,
    pub measurements: Vec<Measurement>,
    pub logs: Vec<LogEntry>,
    /// The identification the phase reported, when it could be read.
    pub unit: Option<UnitInfo>,
}

/// The result of a Python phase from what the runtime reported: its answer
/// (continue when there is none), its error, exit code, measurements, logs
/// and reported identification, what it was given, and its attempt.
pub fn convert_job_result(report: PhaseReport, started_at: i64, completed_at: i64, job: &Job) -> (r: JobResult)
    ensures
        r.phase_result == answered_result(report.answer),
        r.phase_outcome == Outcome::Pass,
        r.next_action is None,
        r.timeout_secs is None,
        r.error == report.error,
        r.exit_code == report.exit_code,
        r.measurements == report.measurements,
        r.logs == report.logs,
        r.started_at == started_at,
        r.completed_at == completed_at,
        r.unit == report.unit,
        opt_unit(r.input_unit_info) == opt_unit(job.initial_unit_info),
        r.retry_count == job.retry_count,
{
    let phase_result = resolve_phase_result(&report.answer);
    JobResult {
        phase_result,
        phase_outcome: Outcome::pending_completion(),
        next_action: None,
        timeout_secs: None,
        error: report.error,
        exit_code: report.exit_code,
        measurements: report.measurements,
        logs: report.logs,
        started_at,
        completed_at,
        unit: report.unit,
        input_unit_info: copy_opt_unit(&job.initial_unit_info),
        retry_count: job.retry_count,
    }
}

/// Folds what the operator submitted into a phase's result: bound
/// measurements the phase did not set are added, and the entered
/// identification is merged over the reported one.
pub fn apply_operator_submission(result: &mut JobResult, bound: Vec<Measurement>, ui_unit: Option<UnitInfo>)
    ensures
        final(result).measurements@ == old(result).measurements@ + new_by_name(names(old(result).measurements@), bound@),
        ui_unit matches Some(u) ==> opt_unit(final(result).unit) == Some(ui_merged(opt_unit(old(result).unit), u@)),
        ui_unit is None ==> final(result).unit == old(result).unit,
        final(result).phase_result == old(result).phase_result,
        final(result).error == old(result).error,
        final(result).logs == old(result).logs,
        final(result).retry_count == old(result).retry_count,
{
    merge_bound_measurements(&mut result.measurements, bound);
    if let Some(u) = ui_unit {
        let existing = result.unit.take();
        result.unit = Some(merge_unit_info(existing, u));
    }
}

} // verus!
