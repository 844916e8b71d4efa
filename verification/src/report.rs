//! What a test report says of a run and of each phase.

use vstd::prelude::*;
use crate::ids::{job_id_text, uuid_text, JobId};
use crate::job::{JobResult, Outcome};
use crate::schema::ProcedureDefinition;
use crate::state::{info_of, JobInfo, JobInfoView};
use crate::text::{decimal, push_decimal, push_str, text_of};
use crate::unit::{copy_opt_unit, opt_text, opt_unit, UnitInfo};

verus! {

/// Link to the dashboard copy of a run.
pub struct DashboardInfo {
    pub run_id: Option<String>,
    pub upload_error: Option<String>,
}

/// The procedure a report is about.
pub struct ProcedureInfo {
    pub name: String,
    pub version: String,
    pub description: Option<String>,
}

/// One phase of a report (its measurements and logs are carried beside).
pub struct PhaseEntry {
    pub name: String,
    pub job_id: String,
    pub slot_id: String,
    pub outcome: Outcome,
    pub start_time: i64,
    pub duration_ms: i64,
    pub error: Option<String>,
    pub attachments: Vec<String>,
    pub repeat_count: u32,
}

/// A report in a list of reports.
pub struct ReportSummary {
    pub run_id: String,
    pub execution_id: String,
    pub timestamp: i64,
    pub directory: String,
    pub outcome: String,
    pub duration_ms: i64,
    pub total_phases: usize,
    pub failed_phases: usize,
    pub unit: Option<UnitInfo>,
    pub has_attachments: bool,
    pub dashboard: Option<DashboardInfo>,
}

/// Counts of a run's report.
pub struct RunStats {
    pub total_jobs: usize,
    pub completed_jobs: usize,
    pub failed_jobs: usize,
    pub phases_passed: usize,
    pub phases_failed: usize,
    pub phases_skipped: usize,
}

/// A run in a list of runs.
pub struct RunSummary {
    pub run_id: String,
    pub execution_id: String,
    pub timestamp: u64,
    pub directory: String,
    pub outcome: String,
    pub duration_ms: u64,
    pub total_phases: usize,
    pub failed_phases: usize,
    pub unit: Option<UnitInfo>,
    pub has_attachments: bool,
    pub dashboard: Option<DashboardInfo>,
}

/// The outcome a report stores: an attempt that was retried counts as
/// failed.
pub open spec fn stored_outcome(o: Outcome) -> Outcome {
    if o == Outcome::Retry {
        Outcome::Fail
    } else {
        o
    }
}

/// The error a report shows for a phase: its error, else its timeout.
pub open spec fn phase_error_text(r: JobResult) -> Option<Seq<char>> {
    if r.error is Some {
        Some(r.error->0@)
    } else if r.timeout_secs is Some {
        Some("Timeout after "@ + decimal(r.timeout_secs->0 as nat) + " seconds"@)
    } else {
        None
    }
}

/// The phase name and slot a report shows: from the job's entry (`<shared>`
/// without a slot), `Unknown` without one.
pub open spec fn phase_names(info: Option<JobInfoView>) -> (Seq<char>, Seq<char>) {
    match info {
        Some(i) => (i.phase_name, match i.slot_id {
            Some(s) => s,
            None => "<shared>"@,
        }),
        None => ("Unknown"@, "Unknown"@),
    }
}

/// The entries of a list that started at time `t`, in order.
pub open spec fn started_at(s: Seq<PhaseEntry>, t: i64) -> Seq<PhaseEntry> {
    s.filter(|e: PhaseEntry| e.start_time == t)
}

/// Whether entries are in order of start time.
pub open spec fn by_start_time(s: Seq<PhaseEntry>) -> bool {
    forall|i: int, j: int| 0 <= i <= j < s.len() ==> s[i].start_time <= s[j].start_time
}

/// Adding an entry at the end adds it to the entries of its start time.
proof fn lemma_started_at_push(s: Seq<PhaseEntry>, e: PhaseEntry)
    ensures
        forall|t: i64| #[trigger] started_at(s.push(e), t) == if e.start_time == t {
            started_at(s, t).push(e)
        } else {
            started_at(s, t)
        },
{
    assert forall|t: i64| #[trigger] started_at(s.push(e), t) == if e.start_time == t {
        started_at(s, t).push(e)
    } else {
        started_at(s, t)
    } by {
        reveal_with_fuel(Seq::filter, 1);
        assert(s.push(e).drop_last() =~= s);
    }
}

/// Inserting an entry into ordered entries after every entry that started
/// no later adds it last among the entries of its start time.
proof fn lemma_started_at_insert(r: Seq<PhaseEntry>, p: int, e: PhaseEntry)
    requires
        0 <= p <= r.len(),
        forall|i: int| 0 <= i < p ==> (#[trigger] r[i]).start_time <= e.start_time,
        forall|i: int| p <= i < r.len() ==> (#[trigger] r[i]).start_time > e.start_time,
    ensures
        forall|t: i64| #[trigger] started_at(r.insert(p, e), t) == if e.start_time == t {
            started_at(r, t).push(e)
        } else {
            started_at(r, t)
        },
    decreases r.len(),
{
    if p == r.len() {
        assert(r.insert(p, e) =~= r.push(e));
        lemma_started_at_push(r, e);
    } else {
        let d = r.drop_last();
        lemma_started_at_insert(d, p, e);
        assert(r.insert(p, e) =~= d.insert(p, e).push(r.last()));
        assert(r =~= d.push(r.last()));
        lemma_started_at_push(d.insert(p, e), r.last());
        lemma_started_at_push(d, r.last());
    }
}

/// Orders report entries by start time, keeping the order of entries that
/// started at the same time (a stable sort).
pub fn sort_by_start_time(entries: Vec<PhaseEntry>) -> (r: Vec<PhaseEntry>)
    ensures
        by_start_time(r@),
        forall|t: i64| #[trigger] started_at(r@, t) == started_at(entries@, t),
        r@.len() == entries@.len(),
{
    let ghost all = entries@;
    let total = entries.len();
    let mut rest = entries;
    let mut out: Vec<PhaseEntry> = Vec::new();
    let mut i: usize = 0;
    proof {
        reveal_with_fuel(Seq::filter, 1);
        assert(all.subrange(0, 0) =~= Seq::<PhaseEntry>::empty());
    }
    while rest.len() > 0
        invariant
            all.len() == total,
            i + rest@.len() == total,
            rest@ == all.subrange(i as int, total as int),
            out@.len() == i,
            by_start_time(out@),
            forall|t: i64| #[trigger] started_at(out@, t) == started_at(all.subrange(0, i as int), t),
        decreases rest@.len(),
    {
        let e = rest.remove(0);
        proof {
            assert(e == all[i as int]);
            assert(rest@ =~= all.subrange(i + 1, total as int));
            assert(all.subrange(0, i + 1) =~= all.subrange(0, i as int).push(e));
            lemma_started_at_push(all.subrange(0, i as int), e);
        }
        let mut p: usize = 0;
        while p < out.len() && out[p].start_time <= e.start_time
            invariant
                p <= out@.len(),
                forall|k: int| 0 <= k < p ==> (#[trigger] out@[k]).start_time <= e.start_time,
            decreases out@.len() - p,
        {
            p = p + 1;
        }
        let ghost before = out@;
        proof {
            assert forall|k: int| p <= k < before.len() implies (#[trigger] before[k]).start_time > e.start_time by {
                assert(before[p as int].start_time > e.start_time);
                assert(before[p as int].start_time <= before[k].start_time);
            }
            lemma_started_at_insert(before, p as int, e);
        }
        out.insert(p, e);
        proof {
            assert(out@ == before.insert(p as int, e));
            assert forall|a: int, b: int| 0 <= a <= b < out@.len() implies out@[a].start_time <= out@[b].start_time by {
                if a < p && b > p {
                    assert(out@[a] == before[a]);
                    assert(out@[b] == before[b - 1]);
                } else if a == p && b > p {
                    assert(out@[b] == before[b - 1]);
                } else if a < p && b == p {
                    assert(out@[a] == before[a]);
                } else if a > p {
                    assert(out@[a] == before[a - 1]);
                    assert(out@[b] == before[b - 1]);
                } else if b < p {
                    assert(out@[a] == before[a]);
                    assert(out@[b] == before[b]);
                }
            }
        }
        i = i + 1;
    }
    assert(all.subrange(0, i as int) =~= all);
    out
}

/// The identification a report records: the run's starting one, else the
/// last one a phase reported (in the order given), else none.
pub fn collected_unit_info(initial: Option<UnitInfo>, reported: Vec<UnitInfo>) -> (u: Option<UnitInfo>)
    ensures
        initial is Some ==> u == initial,
        initial is None && reported@.len() > 0 ==> u == Some(reported@.last()),
        initial is None && reported@.len() == 0 ==> u is None,
{
    match initial {
        Some(i) => Some(i),
        None => {
            let mut reported = reported;
            reported.pop()
        },
    }
}

/// Builds the report entry of a finished job.
pub fn create_phase_entry(job_id: JobId, result: &JobResult, info: Option<&JobInfo>, attachments: Vec<String>) -> (e: PhaseEntry)
    requires
        i64::MIN <= result.completed_at - result.started_at <= i64::MAX,
    ensures
        e.name@ == phase_names(match info { Some(i) => Some(i@), None => None }).0,
        e.slot_id@ == phase_names(match info { Some(i) => Some(i@), None => None }).1,
        e.job_id@ == uuid_text(job_id),
        e.outcome == stored_outcome(result.phase_outcome),
        e.start_time == result.started_at,
        e.duration_ms == result.completed_at - result.started_at,
        opt_text(e.error) == phase_error_text(*result),
        e.attachments == attachments,
        e.repeat_count == result.retry_count as u32,
{
    let outcome = match result.phase_outcome {
        Outcome::Retry => Outcome::Fail,
        other => other,
    };
    let error = match &result.error {
        Some(e) => Some(e.clone()),
        None => match result.timeout_secs {
            Some(secs) => {
                let mut t = text_of("Timeout after ");
                push_decimal(&mut t, secs as u128);
                push_str(&mut t, " seconds");
                Some(t)
            },
            None => None,
        },
    };
    let (name, slot_id) = match info {
        Some(i) => (i.phase_name.clone(), match &i.slot_id {
            Some(s) => s.clone(),
            None => text_of("<shared>"),
        }),
        None => (text_of("Unknown"), text_of("Unknown")),
    };
    PhaseEntry {
        name,
        job_id: job_id_text(job_id),
        slot_id,
        outcome,
        start_time: result.started_at,
        duration_ms: result.completed_at - result.started_at,
        error,
        attachments,
        repeat_count: result.retry_count as u32,
    }
}

/// What a report says of its procedure.
pub fn procedure_info(procedure: &ProcedureDefinition) -> (p: ProcedureInfo)
    ensures
        p.name@ == procedure.name@,
        p.version@ == procedure.version@,
        p.description matches Some(d) && d@ == procedure.description@,
{
    ProcedureInfo {
        name: procedure.name.clone(),
        version: procedure.version.clone(),
        description: Some(procedure.description.clone()),
    }
}

/// How many entries have one of the outcomes.
pub open spec fn count_outcomes(entries: Seq<PhaseEntry>, a: Outcome, b: Outcome) -> nat
    decreases entries.len(),
{
    if entries.len() == 0 {
        0
    } else {
        count_outcomes(entries.drop_last(), a, b) + if entries.last().outcome == a || entries.last().outcome == b {
            1nat
        } else {
            0nat
        }
    }
}

fn count_entries(entries: &Vec<PhaseEntry>, a: Outcome, b: Outcome) -> (n: usize)
    ensures
        n == count_outcomes(entries@, a, b),
{
    let mut n: usize = 0;
    let mut i: usize = 0;
    while i < entries.len()
        invariant
            i <= entries@.len(),
            n == count_outcomes(entries@.subrange(0, i as int), a, b),
            n <= i,
        decreases entries@.len() - i,
    {
        proof {
            assert(entries@.subrange(0, i + 1).drop_last() =~= entries@.subrange(0, i as int));
        }
        if entries[i].outcome == a || entries[i].outcome == b {
            n = n + 1;
        }
        i = i + 1;
    }
    assert(entries@.subrange(0, i as int) =~= entries@);
    n
}

/// The counts of a report: the run's job counts, and its phases that
/// passed, failed (or errored) and were skipped.
pub fn run_stats(total_jobs: usize, completed_jobs: usize, failed_jobs: usize, entries: &Vec<PhaseEntry>) -> (s: RunStats)
    ensures
        s.total_jobs == total_jobs,
        s.completed_jobs == completed_jobs,
        s.failed_jobs == failed_jobs,
        s.phases_passed == count_outcomes(entries@, Outcome::Pass, Outcome::Pass),
        s.phases_failed == count_outcomes(entries@, Outcome::Fail, Outcome::Error),
        s.phases_skipped == count_outcomes(entries@, Outcome::Skip, Outcome::Skip),
{
    RunStats {
        total_jobs,
        completed_jobs,
        failed_jobs,
        phases_passed: count_entries(entries, Outcome::Pass, Outcome::Pass),
        phases_failed: count_entries(entries, Outcome::Fail, Outcome::Error),
        phases_skipped: count_entries(entries, Outcome::Skip, Outcome::Skip),
    }
}

/// The outcome a report records for the run: the computed one, else a
/// pass.
pub fn report_outcome(run_outcome: Option<Outcome>) -> (o: Outcome)
    ensures
        o == (match run_outcome {
            Some(x) => x,
            None => Outcome::Pass,
        }),
{
    match run_outcome {
        Some(x) => x,
        None => Outcome::Pass,
    }
}

} // verus!
