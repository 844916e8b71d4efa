//! The text of command-line output: section tags, message lines, status
//! lines, the run summary and phase progress. Printing and colouring are
//! left to the caller.

use vstd::prelude::*;
use crate::text::{byte_len, decimal, push_char, push_decimal, push_str, text_of, utf8_len};

verus! {

/// Output sections.
#[derive(Clone, Copy, Debug, PartialEq, Eq, Structural)]
pub enum Section {
    Init,
    Config,
    Plugs,
    Phase,
    Reports,
    Summary,
    Error,
    Worker,
    System,
}

/// The tag of a section.
pub open spec fn section_tag(s: Section) -> Seq<char> {
    match s {
        Section::Init => "[INIT]"@,
        Section::Config => "[CONFIG]"@,
        Section::Plugs => "[PLUGS]"@,
        Section::Phase => "[PHASE]"@,
        Section::Reports => "[REPORTS]"@,
        Section::Summary => "[SUMMARY]"@,
        Section::Error => "[ERROR]"@,
        Section::Worker => "[WORKER]"@,
        Section::System => "[SYSTEM]"@,
    }
}

impl Section {
    /// The tag of this section.
    pub fn as_str(&self) -> (s: &'static str)
        ensures
            s@ == section_tag(*self),
    {
        match self {
            Section::Init => "[INIT]",
            Section::Config => "[CONFIG]",
            Section::Plugs => "[PLUGS]",
            Section::Phase => "[PHASE]",
            Section::Reports => "[REPORTS]",
            Section::Summary => "[SUMMARY]",
            Section::Error => "[ERROR]",
            Section::Worker => "[WORKER]",
            Section::System => "[SYSTEM]",
        }
    }
}

/// The colour a line is shown in.
#[derive(Clone, Copy, Debug, PartialEq, Eq, Structural)]
pub enum TextColor {
    Plain,
    Green,
    Yellow,
    Red,
}

/// A line of output: its text, its colour, and whether it goes to the error
/// stream.
pub struct OutputLine {
    pub text: String,
    pub color: TextColor,
    pub to_stderr: bool,
}

/// The line of a sectioned message: errors as red `ERROR:` lines on the
/// error stream, summaries bare, others behind their section tag in
/// brackets.
pub fn section_line(section: Section, message: &str) -> (l: OutputLine)
    ensures
        section == Section::Error ==> l.text@ == "ERROR: "@ + message@ && l.color == TextColor::Red && l.to_stderr,
        section == Section::Summary ==> l.text@ == message@ && l.color == TextColor::Plain && !l.to_stderr,
        section != Section::Error && section != Section::Summary ==> l.text@ == "["@ + section_tag(section) + "] "@
            + message@ && l.color == TextColor::Plain && !l.to_stderr,
{
    match section {
        Section::Error => {
            let mut t = text_of("ERROR: ");
            push_str(&mut t, message);
            OutputLine { text: t, color: TextColor::Red, to_stderr: true }
        },
        Section::Summary => OutputLine { text: text_of(message), color: TextColor::Plain, to_stderr: false },
        _ => {
            let mut t = text_of("[");
            push_str(&mut t, section.as_str());
            push_str(&mut t, "] ");
            push_str(&mut t, message);
            OutputLine { text: t, color: TextColor::Plain, to_stderr: false }
        },
    }
}

/// A message of the unified output.
pub enum MessageType {
    Success(String),
    Warning(String),
    Error(String),
    Info(String),
    Debug(String),
    /// A message with the current step and the number of steps.
    Progress(String, usize, usize),
}

/// The share of steps done, in whole percent (zero when there are no
/// steps).
pub open spec fn percentage(current: nat, total: nat) -> nat {
    if total > 0 {
        (current * 100) / total
    } else {
        0
    }
}

/// The text of a message: its indentation, its mark and the message.
pub open spec fn message_text(m: MessageType) -> Seq<char> {
    match m {
        MessageType::Success(s) => "  OK: "@ + s@,
        MessageType::Warning(s) => "  ! "@ + s@,
        MessageType::Error(s) => "  ERROR: "@ + s@,
        MessageType::Info(s) => "  → "@ + s@,
        MessageType::Debug(s) => "    · "@ + s@,
        MessageType::Progress(s, c, t) => "  → "@ + s@ + " ["@ + decimal(c as nat) + "/"@ + decimal(t as nat) + "] ("@
            + decimal(percentage(c as nat, t as nat)) + "%)"@,
    }
}

impl MessageType {
    /// The output line of this message: successes green, warnings yellow,
    /// errors red on the error stream, debug lines on the error stream.
    pub fn render(&self) -> (l: OutputLine)
        requires
            self matches MessageType::Progress(_, c, t) ==> (t > 0 ==> c * 100 <= usize::MAX),
        ensures
            l.text@ == message_text(*self),
            l.color == (match *self {
                MessageType::Success(_) => TextColor::Green,
                MessageType::Warning(_) => TextColor::Yellow,
                MessageType::Error(_) => TextColor::Red,
                _ => TextColor::Plain,
            }),
            l.to_stderr == (*self is Error || *self is Debug),
    {
        match self {
            MessageType::Success(s) => {
                let mut t = text_of("  OK: ");
                push_str(&mut t, s.as_str());
                OutputLine { text: t, color: TextColor::Green, to_stderr: false }
            },
            MessageType::Warning(s) => {
                let mut t = text_of("  ! ");
                push_str(&mut t, s.as_str());
                OutputLine { text: t, color: TextColor::Yellow, to_stderr: false }
            },
            MessageType::Error(s) => {
                let mut t = text_of("  ERROR: ");
                push_str(&mut t, s.as_str());
                OutputLine { text: t, color: TextColor::Red, to_stderr: true }
            },
            MessageType::Info(s) => {
                let mut t = text_of("  → ");
                push_str(&mut t, s.as_str());
                OutputLine { text: t, color: TextColor::Plain, to_stderr: false }
            },
            MessageType::Debug(s) => {
                let mut t = text_of("    · ");
                push_str(&mut t, s.as_str());
                OutputLine { text: t, color: TextColor::Plain, to_stderr: true }
            },
            MessageType::Progress(s, current, total) => {
                let pct: usize = if *total > 0 {
                    (*current * 100) / *total
                } else {
                    0
                };
                let mut t = text_of("  → ");
                push_str(&mut t, s.as_str());
                push_str(&mut t, " [");
                push_decimal(&mut t, *current as u128);
                push_str(&mut t, "/");
                push_decimal(&mut t, *total as u128);
                push_str(&mut t, "] (");
                push_decimal(&mut t, pct as u128);
                push_str(&mut t, "%)");
                OutputLine { text: t, color: TextColor::Plain, to_stderr: false }
            },
        }
    }
}

/// The dots that align a status line: enough to reach 50 bytes after the
/// label (none past that).
pub fn status_dots(label: &str) -> (d: String)
    ensures
        d@ == Seq::new((if byte_len(label@) < 50 { 50 - byte_len(label@) } else { 0 }) as nat, |i: int| '.'),
{
    let s = text_of(label);
    let n = utf8_len(&s);
    let count: u128 = if n < 50 { 50 - n } else { 0 };
    let mut d = String::new();
    let mut i: u128 = 0;
    while i < count
        invariant
            i <= count,
            d@ == Seq::new(i as nat, |k: int| '.'),
        decreases count - i,
    {
        push_char(&mut d, '.');
        i = i + 1;
        assert(d@ =~= Seq::new(i as nat, |k: int| '.'));
    }
    d
}

/// The lines of the end-of-run summary.
pub open spec fn summary_text(passed: bool, total_jobs: nat, completed: nat, failed: nat, duration_secs: nat) -> Seq<Seq<char>> {
    seq![
        Seq::empty(),
        "═══════════════════════════════════════════════════════════"@,
        "  Status: "@ + (if passed { "PASSED"@ } else { "FAILED"@ }),
        "  Jobs: "@ + decimal(total_jobs),
        "  Completed: "@ + decimal(completed),
        "  Failed: "@ + decimal(failed),
        "  Duration: "@ + decimal(duration_secs / 60) + "m "@ + decimal(duration_secs % 60) + "s"@,
        "═══════════════════════════════════════════════════════════"@,
        Seq::empty(),
    ]
}

/// Builds the lines of the end-of-run summary: status, job counts, and the
/// duration in minutes and seconds.
pub fn summary_lines(passed: bool, total_jobs: usize, completed: usize, failed: usize, duration_secs: u64) -> (r: Vec<String>)
    ensures
        r@.map_values(|l: String| l@) == summary_text(passed, total_jobs as nat, completed as nat, failed as nat, duration_secs as nat),
{
    let rule = "═══════════════════════════════════════════════════════════";
    let mut r: Vec<String> = Vec::new();
    r.push(String::new());
    r.push(text_of(rule));
    let mut status = text_of("  Status: ");
    push_str(&mut status, if passed { "PASSED" } else { "FAILED" });
    r.push(status);
    let mut jobs = text_of("  Jobs: ");
    push_decimal(&mut jobs, total_jobs as u128);
    r.push(jobs);
    let mut done = text_of("  Completed: ");
    push_decimal(&mut done, completed as u128);
    r.push(done);
    let mut bad = text_of("  Failed: ");
    push_decimal(&mut bad, failed as u128);
    r.push(bad);
    let mut duration = text_of("  Duration: ");
    push_decimal(&mut duration, (duration_secs / 60) as u128);
    push_str(&mut duration, "m ");
    push_decimal(&mut duration, (duration_secs % 60) as u128);
    push_str(&mut duration, "s");
    r.push(duration);
    r.push(text_of(rule));
    r.push(String::new());
    assert(r@.map_values(|l: String| l@) =~= summary_text(passed, total_jobs as nat, completed as nat, failed as nat, duration_secs as nat));
    r
}

/// The header lines: name and version, then a rule as wide as both (in
/// bytes, with two more), then an empty line.
pub fn header_lines(name: &str, version: &str) -> (r: Vec<String>)
    requires
        byte_len(name@) + byte_len(version@) + 2 <= usize::MAX,
    ensures
        r@.len() == 3,
        r@[0]@ == name@ + " v"@ + version@,
        r@[1]@ == Seq::new((byte_len(name@) + byte_len(version@) + 2) as nat, |i: int| '═'),
        r@[2]@.len() == 0,
{
    let mut first = text_of(name);
    push_str(&mut first, " v");
    push_str(&mut first, version);
    let width = utf8_len(&text_of(name)) + utf8_len(&text_of(version)) + 2;
    let mut rule = String::new();
    let mut i: u128 = 0;
    while i < width
        invariant
            i <= width,
            rule@ == Seq::new(i as nat, |k: int| '═'),
        decreases width - i,
    {
        push_char(&mut rule, '═');
        i = i + 1;
        assert(rule@ =~= Seq::new(i as nat, |k: int| '═'));
    }
    let mut r: Vec<String> = Vec::new();
    r.push(first);
    r.push(rule);
    r.push(String::new());
    r
}

/// The line of a system operation: `OK` or `FAIL`, the operation and its
/// target.
pub fn system_operation_line(operation: &str, target: &str, success: bool) -> (l: String)
    ensures
        l@ == "  "@ + (if success { "OK"@ } else { "FAIL"@ }) + ": "@ + operation@ + " "@ + target@,
{
    let mut l = text_of("  ");
    push_str(&mut l, if success { "OK" } else { "FAIL" });
    push_str(&mut l, ": ");
    push_str(&mut l, operation);
    push_str(&mut l, " ");
    push_str(&mut l, target);
    l
}

/// The line of a phase starting or completing, with its slot when it has
/// one.
pub fn phase_transition_line(phase_name: &str, slot_id: Option<&str>, started: bool) -> (l: String)
    ensures
        l@ == "  ● "@ + (if started { "Starting"@ } else { "Completed"@ }) + " phase: "@ + phase_name@ + match slot_id {
            Some(s) => " ["@ + s@ + "]"@,
            None => Seq::empty(),
        },
{
    let mut l = text_of("  ● ");
    push_str(&mut l, if started { "Starting" } else { "Completed" });
    push_str(&mut l, " phase: ");
    push_str(&mut l, phase_name);
    match slot_id {
        Some(s) => {
            push_str(&mut l, " [");
            push_str(&mut l, s);
            push_str(&mut l, "]");
        },
        None => {},
    }
    l
}

/// The warning line of a phase timeout.
pub fn timeout_warning_line(phase_name: &str, slot_id: &str, timeout_secs: u64) -> (l: String)
    ensures
        l@ == "  ! Phase timeout: "@ + phase_name@ + " ["@ + slot_id@ + "] after "@ + decimal(timeout_secs as nat) + "s"@,
{
    let mut l = text_of("  ! Phase timeout: ");
    push_str(&mut l, phase_name);
    push_str(&mut l, " [");
    push_str(&mut l, slot_id);
    push_str(&mut l, "] after ");
    push_decimal(&mut l, timeout_secs as u128);
    push_str(&mut l, "s");
    l
}

/// How many of the slot results passed.
pub open spec fn passed_count(results: Seq<(String, bool, u64)>) -> nat
    decreases results.len(),
{
    if results.len() == 0 {
        0
    } else {
        passed_count(results.drop_last()) + if results.last().1 { 1nat } else { 0nat }
    }
}

/// Progress of one phase across slots.
pub struct PhaseProgress {
    pub phase_name: String,
    pub total_slots: usize,
    pub completed_slots: usize,
    /// Each finished slot: its name, whether it passed, its duration in
    /// milliseconds.
    pub slot_results: Vec<(String, bool, u64)>,
}

impl PhaseProgress {
    /// Progress of a phase over `total_slots` slots, none finished.
    pub fn new(phase_name: String, total_slots: usize) -> (p: PhaseProgress)
        ensures
            p.phase_name == phase_name,
            p.total_slots == total_slots,
            p.completed_slots == 0,
            p.slot_results@.len() == 0,
    {
        PhaseProgress { phase_name, total_slots, completed_slots: 0, slot_results: Vec::new() }
    }

    /// Records a finished slot; the completed count follows the results.
    pub fn add_slot_result(&mut self, slot_id: String, success: bool, duration_ms: u64)
        ensures
            final(self).slot_results@ == old(self).slot_results@.push((slot_id, success, duration_ms)),
            final(self).completed_slots == final(self).slot_results@.len(),
            final(self).phase_name == old(self).phase_name,
            final(self).total_slots == old(self).total_slots,
    {
        self.slot_results.push((slot_id, success, duration_ms));
        self.completed_slots = self.slot_results.len();
    }

    /// The closing line: completed and total slots, passes and failures.
    pub fn finish_line(&self) -> (l: String)
        requires
            self.completed_slots == self.slot_results@.len(),
        ensures
            l@ == "[PHASE] "@ + self.phase_name@ + " completed ("@ + decimal(self.completed_slots as nat) + "/"@
                + decimal(self.total_slots as nat) + " slots, "@ + decimal(passed_count(self.slot_results@)) + " PASS, "@
                + decimal((self.completed_slots - passed_count(self.slot_results@)) as nat) + " FAIL)"@,
    {
        let mut passed: usize = 0;
        let mut i: usize = 0;
        while i < self.slot_results.len()
            invariant
                i <= self.slot_results@.len(),
                passed == passed_count(self.slot_results@.subrange(0, i as int)),
                passed <= i,
            decreases self.slot_results@.len() - i,
        {
            proof {
                assert(self.slot_results@.subrange(0, i + 1).drop_last() =~= self.slot_results@.subrange(0, i as int));
            }
            if self.slot_results[i].1 {
                passed = passed + 1;
            }
            i = i + 1;
        }
        assert(self.slot_results@.subrange(0, i as int) =~= self.slot_results@);
        let failed = self.completed_slots - passed;
        let mut l = text_of("[PHASE] ");
        push_str(&mut l, self.phase_name.as_str());
        push_str(&mut l, " completed (");
        push_decimal(&mut l, self.completed_slots as u128);
        push_str(&mut l, "/");
        push_decimal(&mut l, self.total_slots as u128);
        push_str(&mut l, " slots, ");
        push_decimal(&mut l, passed as u128);
        push_str(&mut l, " PASS, ");
        push_decimal(&mut l, failed as u128);
        push_str(&mut l, " FAIL)");
        l
    }
}

/// The verdict of a command-line run: it passed when no job failed, and
/// the process then exits with 0, otherwise with 1.
pub fn run_verdict(failed_jobs: usize) -> (r: (bool, i32))
    ensures
        r.0 == (failed_jobs == 0),
        r.1 == (if failed_jobs == 0 { 0i32 } else { 1i32 }),
{
    if failed_jobs == 0 {
        (true, 0)
    } else {
        (false, 1)
    }
}

} // verus!
