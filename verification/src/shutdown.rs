//! Stopping a run: what a stop records for the jobs that were running or
//! still waiting, and which tear-down phases it keeps to run afterwards.

use vstd::prelude::*;
use crate::ids::JobId;
use crate::job::{bare_result, Job, JobResult, Outcome, PhaseResult};
use crate::run_loop::announced_running;
use crate::state::{
    cancelled_part, first_attempts, info_of, kept_part, last_with_id, release_each, runs_slot_job, same_settings,
    skip_result_for, slot_view, slot_workers, JobInfo, OrchestratorState,
};
use crate::text::push_str;
use crate::text::text_of;
use crate::unit::opt_text;
use crate::worker_state::lemma_release_after_idle_prefix;

verus! {

broadcast use vstd::std_specs::hash::group_hash_axioms;

/// The slot a stop announcement names: the slot, or `<shared>`.
pub open spec fn slot_label(s: Option<Seq<char>>) -> Seq<char> {
    match s {
        Some(x) => x,
        None => "<shared>"@,
    }
}

fn slot_label_text(s: &Option<String>) -> (r: String)
    ensures
        r@ == slot_label(opt_text(*s)),
{
    match s {
        Some(x) => x.clone(),
        None => text_of("<shared>"),
    }
}

/// The jobs of the slots still waiting their turn, slot after slot.
pub open spec fn waiting_slot_jobs(p: Seq<(String, Vec<Job>)>) -> Seq<Job>
    decreases p.len(),
{
    if p.len() == 0 {
        Seq::empty()
    } else {
        waiting_slot_jobs(p.drop_last()) + p.last().1@
    }
}

/// The waiting jobs a stop skips, in the order it announces them. When
/// tear-down is kept: the queue's other phases, then the waiting slots'
/// jobs. Otherwise: the shared tear-down, the whole queue, then the waiting
/// slots' jobs.
pub open spec fn stop_skipped(s: OrchestratorState, keep_teardown: bool) -> Seq<Job> {
    if keep_teardown {
        cancelled_part(s.job_queue@, None) + waiting_slot_jobs(s.pending_slot_jobs@)
    } else {
        s.teardown_procedure_jobs@ + s.job_queue@ + waiting_slot_jobs(s.pending_slot_jobs@)
    }
}

/// The tear-down phases a stop keeps to run: the queued ones in order, then
/// the shared tear-down (none when tear-down is not kept).
pub open spec fn stop_kept(s: OrchestratorState, keep_teardown: bool) -> Seq<Job> {
    if keep_teardown {
        kept_part(s.job_queue@, None) + s.teardown_procedure_jobs@
    } else {
        Seq::empty()
    }
}

/// Whether some worker holds the job.
pub open spec fn held(a: Seq<Option<JobId>>, id: JobId) -> bool {
    exists|w: int| 0 <= w < a.len() && a[w] == Some(id)
}

/// Whether a list has a job with the identifier.
pub open spec fn listed(c: Seq<Job>, id: JobId) -> bool {
    exists|i: int| 0 <= i < c.len() && c[i].id == id
}

/// The result a stop records for a running job: an error with the stop's
/// message.
pub open spec fn stopped_result(r: JobResult, msg: Seq<char>) -> bool {
    &&& bare_result(r, PhaseResult::Continue, Outcome::Error, r.started_at)
    &&& r.timeout_secs is None
    &&& r.error matches Some(e) && e@ == msg
}

/// The result a stop records for a waiting job: skipped.
pub open spec fn skipped_result(r: JobResult) -> bool {
    &&& bare_result(r, PhaseResult::Skip, Outcome::Skip, r.started_at)
    &&& r.timeout_secs is None
    &&& r.error is None
}

/// What a stop records: every job a worker held and every skipped job is
/// completed; a skipped job gets a skip result, a running one the stop's
/// error; every other result stays.
pub open spec fn stop_recorded(
    before: OrchestratorState,
    after: OrchestratorState,
    msg: Seq<char>,
    skipped: Seq<Job>,
) -> bool {
    let a = before.worker_state.assignment();
    &&& forall|k: JobId| #[trigger] after.completed_jobs@.contains(k) == (before.completed_jobs@.contains(k)
        || held(a, k) || listed(skipped, k))
    &&& forall|k: JobId| #[trigger] after.job_results@.contains_key(k) == (before.job_results@.contains_key(k)
        || held(a, k) || listed(skipped, k))
    &&& forall|k: JobId| listed(skipped, k) ==> skipped_result(#[trigger] after.job_results@[k])
    &&& forall|k: JobId| held(a, k) && !listed(skipped, k) ==> stopped_result(#[trigger] after.job_results@[k], msg)
    &&& forall|k: JobId| !held(a, k) && !listed(skipped, k) ==> #[trigger] after.job_results@[k]
        == before.job_results@[k]
}

/// The announcement of the jobs that were running: for each worker, in
/// order, whose job has a report entry, the worker, the job, its phase key
/// and name, and its slot.
pub open spec fn running_announced(
    r: Seq<(usize, JobId, String, String, String)>,
    a: Seq<Option<JobId>>,
    info: Map<JobId, JobInfo>,
) -> bool {
    let ar = announced_running(a, info);
    &&& r.len() == ar.len()
    &&& forall|i: int| 0 <= i < r.len() ==> {
        &&& (#[trigger] r[i]).0 == ar[i].0
        &&& r[i].1 == ar[i].1
        &&& r[i].2@ == info[ar[i].1].phase_key@
        &&& r[i].3@ == info[ar[i].1].phase_name@
        &&& r[i].4@ == slot_label(opt_text(info[ar[i].1].slot_id))
    }
}

/// The announcement of skipped jobs: for each, in order, the job, its phase
/// key and name, and its slot.
pub open spec fn skipped_announced(q: Seq<(JobId, String, String, String)>, c: Seq<Job>) -> bool {
    &&& q.len() == c.len()
    &&& forall|i: int| 0 <= i < q.len() ==> {
        &&& (#[trigger] q[i]).0 == c[i].id
        &&& q[i].1@ == c[i].phase_key@
        &&& q[i].2@ == c[i].phase_name@
        &&& q[i].3@ == slot_label(opt_text(c[i].slot_id))
    }
}

/// A worker prefix one longer holds what the shorter one holds and the
/// added worker's job.
proof fn lemma_held_step(a: Seq<Option<JobId>>, w: int)
    requires
        0 <= w < a.len(),
    ensures
        forall|k: JobId| #[trigger] held(a.subrange(0, w + 1), k) == (held(a.subrange(0, w), k) || a[w] == Some(k)),
{
    assert forall|k: JobId| #[trigger] held(a.subrange(0, w + 1), k) == (held(a.subrange(0, w), k) || a[w] == Some(k)) by {
        let pre = a.subrange(0, w);
        let nxt = a.subrange(0, w + 1);
        if held(nxt, k) {
            let x = choose|x: int| 0 <= x < nxt.len() && nxt[x] == Some(k);
            if x < w {
                assert(pre[x] == Some(k));
            }
        }
        if held(pre, k) {
            let x = choose|x: int| 0 <= x < pre.len() && pre[x] == Some(k);
            assert(nxt[x] == Some(k));
        }
        if a[w] == Some(k) {
            assert(nxt[w] == Some(k));
        }
    }
}

/// A list one longer lists what the shorter one lists and the added job.
proof fn lemma_listed_step(c: Seq<Job>, j: int)
    requires
        0 <= j < c.len(),
    ensures
        forall|k: JobId| #[trigger] listed(c.subrange(0, j + 1), k) == (listed(c.subrange(0, j), k) || c[j].id == k),
{
    assert forall|k: JobId| #[trigger] listed(c.subrange(0, j + 1), k) == (listed(c.subrange(0, j), k) || c[j].id == k) by {
        let pre = c.subrange(0, j);
        let nxt = c.subrange(0, j + 1);
        if listed(nxt, k) {
            let x = choose|x: int| 0 <= x < nxt.len() && nxt[x].id == k;
            if x < j {
                assert(pre[x].id == k);
            }
        }
        if listed(pre, k) {
            let x = choose|x: int| 0 <= x < pre.len() && pre[x].id == k;
            assert(nxt[x].id == k);
        }
        if c[j].id == k {
            assert(nxt[j].id == k);
        }
    }
}

/// Completes every running job with the stop's error, freeing its worker;
/// returns the announcement of those that have a report entry.
fn stop_running_jobs(state: &mut OrchestratorState, msg: &String) -> (r: Vec<(usize, JobId, String, String, String)>)
    ensures
        running_announced(r@, old(state).worker_state.assignment(), old(state).job_info@),
        stop_recorded(*old(state), *final(state), msg@, Seq::empty()),
        final(state).worker_state.assignment() == Seq::new(
            old(state).worker_state.assignment().len(),
            |i: int| None::<JobId>,
        ),
        final(state).job_queue@ == old(state).job_queue@,
        final(state).pending_slot_jobs@ == old(state).pending_slot_jobs@,
        final(state).teardown_procedure_jobs@ == old(state).teardown_procedure_jobs@,
        final(state).job_info@ == old(state).job_info@,
        slot_view(final(state).job_to_slot@) == slot_view(old(state).job_to_slot@),
        same_settings(*old(state), *final(state)),
        final(state).original_jobs_completed == old(state).original_jobs_completed,
        final(state).total_jobs_submitted == old(state).total_jobs_submitted,
        final(state).shutdown_requested == old(state).shutdown_requested,
        final(state).pending_delayed_retries@ == old(state).pending_delayed_retries@,
{
    let ghost s0 = *state;
    let ghost a = s0.worker_state.assignment();
    let ghost info = s0.job_info@;
    let n = state.worker_state.num_workers();
    let mut running: Vec<(usize, JobId, String, String, String)> = Vec::new();
    let mut w: usize = 0;
    while w < n
        invariant
            n == a.len(),
            w <= n,
            a == s0.worker_state.assignment(),
            info == s0.job_info@,
            state.worker_state.assignment().len() == n,
            forall|k: int| 0 <= k < w ==> state.worker_state.assignment()[k] is None,
            forall|k: int| w <= k < n ==> state.worker_state.assignment()[k] == a[k],
            state.job_info@ == info,
            running_announced(running@, a.subrange(0, w as int), info),
            forall|k: JobId| #[trigger] state.completed_jobs@.contains(k) == (s0.completed_jobs@.contains(k)
                || held(a.subrange(0, w as int), k)),
            forall|k: JobId| #[trigger] state.job_results@.contains_key(k) == (s0.job_results@.contains_key(k)
                || held(a.subrange(0, w as int), k)),
            forall|k: JobId| held(a.subrange(0, w as int), k) ==> stopped_result(#[trigger] state.job_results@[k], msg@),
            forall|k: JobId| !held(a.subrange(0, w as int), k) ==> #[trigger] state.job_results@[k]
                == s0.job_results@[k],
            state.job_queue@ == s0.job_queue@,
            state.pending_slot_jobs@ == s0.pending_slot_jobs@,
            state.teardown_procedure_jobs@ == s0.teardown_procedure_jobs@,
            slot_view(state.job_to_slot@) == slot_view(s0.job_to_slot@),
            same_settings(s0, *state),
            state.original_jobs_completed == s0.original_jobs_completed,
            state.total_jobs_submitted == s0.total_jobs_submitted,
            state.shutdown_requested == s0.shutdown_requested,
            state.pending_delayed_retries@ == s0.pending_delayed_retries@,
        decreases n - w,
    {
        let ghost cur = state.worker_state.assignment();
        let ghost pre = a.subrange(0, w as int);
        let ghost nxt = a.subrange(0, w + 1);
        proof {
            assert(nxt.drop_last() =~= pre);
            lemma_held_step(a, w as int);
        }
        match state.worker_state.get_worker_job(w) {
            Some(job_id) => {
                let ghost before = running@;
                match state.job_info.get(&job_id) {
                    Some(ji) => {
                        running.push((w, job_id, ji.phase_key.clone(), ji.phase_name.clone(), slot_label_text(&ji.slot_id)));
                        assert(announced_running(nxt, info) == announced_running(pre, info).push((w, job_id)));
                    },
                    None => {
                        assert(announced_running(nxt, info) == announced_running(pre, info));
                    },
                }
                proof {
                    lemma_release_after_idle_prefix(cur, w as int, job_id);
                }
                let result = JobResult::new_error(msg.clone());
                state.complete_job(job_id, result);
            },
            None => {
                assert(announced_running(nxt, info) == announced_running(pre, info));
            },
        }
        w = w + 1;
    }
    proof {
        assert(a.subrange(0, n as int) =~= a);
        assert(state.worker_state.assignment() =~= Seq::new(n as nat, |i: int| None::<JobId>));
        assert forall|k: JobId| !listed(Seq::<Job>::empty(), k) by {}
    }
    running
}

/// Takes every waiting job out of the state: the skipped ones, in the order
/// a stop announces them, and the tear-down phases it keeps.
fn take_waiting_jobs(state: &mut OrchestratorState, keep_teardown: bool) -> (r: (Vec<Job>, Vec<Job>))
    ensures
        r.0@ == stop_skipped(*old(state), keep_teardown),
        r.1@ == stop_kept(*old(state), keep_teardown),
        final(state).job_queue@.len() == 0,
        final(state).pending_slot_jobs@.len() == 0,
        final(state).teardown_procedure_jobs@.len() == 0,
        final(state).worker_state == old(state).worker_state,
        final(state).completed_jobs@ == old(state).completed_jobs@,
        final(state).job_results@ == old(state).job_results@,
        final(state).job_info@ == old(state).job_info@,
        slot_view(final(state).job_to_slot@) == slot_view(old(state).job_to_slot@),
        same_settings(*old(state), *final(state)),
        final(state).original_jobs_completed == old(state).original_jobs_completed,
        final(state).total_jobs_submitted == old(state).total_jobs_submitted,
        final(state).shutdown_requested == old(state).shutdown_requested,
        final(state).pending_delayed_retries@ == old(state).pending_delayed_retries@,
{
    let ghost s0 = *state;
    let mut teardown: Vec<Job> = Vec::new();
    let mut skipped: Vec<Job> = Vec::new();
    if keep_teardown {
        let cancelled = state.take_cancelled(None);
        std::mem::swap(&mut teardown, &mut state.job_queue);
        skipped = cancelled;
    } else {
        std::mem::swap(&mut skipped, &mut state.teardown_procedure_jobs);
        let mut queue: Vec<Job> = Vec::new();
        std::mem::swap(&mut queue, &mut state.job_queue);
        skipped.append(&mut queue);
    }
    let mut pending: Vec<(String, Vec<Job>)> = Vec::new();
    std::mem::swap(&mut pending, &mut state.pending_slot_jobs);
    let ghost all = pending@;
    let total = pending.len();
    let mut waiting: Vec<Job> = Vec::new();
    let mut i: usize = 0;
    while pending.len() > 0
        invariant
            all == s0.pending_slot_jobs@,
            all.len() == total,
            i + pending@.len() == total,
            pending@ == all.subrange(i as int, total as int),
            waiting@ == waiting_slot_jobs(all.subrange(0, i as int)),
        decreases pending@.len(),
    {
        let (_slot, mut jobs) = pending.remove(0);
        proof {
            assert(all.subrange(0, i + 1).drop_last() =~= all.subrange(0, i as int));
            assert(all[i as int] == (_slot, jobs));
        }
        waiting.append(&mut jobs);
        proof {
            assert(pending@ =~= all.subrange(i + 1, total as int));
        }
        i = i + 1;
    }
    assert(all.subrange(0, i as int) =~= all);
    skipped.append(&mut waiting);
    if keep_teardown {
        let mut shared: Vec<Job> = Vec::new();
        std::mem::swap(&mut shared, &mut state.teardown_procedure_jobs);
        teardown.append(&mut shared);
    }
    (skipped, teardown)
}

/// Completes each skipped job with a skip result; returns their
/// announcement. Every worker is idle.
fn record_skipped(state: &mut OrchestratorState, skipped: &Vec<Job>) -> (r: Vec<(JobId, String, String, String)>)
    requires
        forall|k: int| 0 <= k < old(state).worker_state.assignment().len() ==> old(state).worker_state.assignment()[k] is None,
    ensures
        skipped_announced(r@, skipped@),
        forall|k: JobId| #[trigger] final(state).completed_jobs@.contains(k) == (old(state).completed_jobs@.contains(k)
            || listed(skipped@, k)),
        forall|k: JobId| #[trigger] final(state).job_results@.contains_key(k) == (old(state).job_results@.contains_key(k)
            || listed(skipped@, k)),
        forall|k: JobId| listed(skipped@, k) ==> skipped_result(#[trigger] final(state).job_results@[k]),
        forall|k: JobId| !listed(skipped@, k) ==> #[trigger] final(state).job_results@[k] == old(state).job_results@[k],
        final(state).worker_state.assignment() == old(state).worker_state.assignment(),
        final(state).job_queue@ == old(state).job_queue@,
        final(state).pending_slot_jobs@ == old(state).pending_slot_jobs@,
        final(state).teardown_procedure_jobs@ == old(state).teardown_procedure_jobs@,
        final(state).job_info@ == old(state).job_info@,
        slot_view(final(state).job_to_slot@) == slot_view(old(state).job_to_slot@),
        same_settings(*old(state), *final(state)),
        final(state).original_jobs_completed == old(state).original_jobs_completed,
        final(state).total_jobs_submitted == old(state).total_jobs_submitted,
        final(state).shutdown_requested == old(state).shutdown_requested,
        final(state).pending_delayed_retries@ == old(state).pending_delayed_retries@,
{
    let ghost s0 = *state;
    let ghost c = skipped@;
    let mut queued: Vec<(JobId, String, String, String)> = Vec::new();
    let mut j: usize = 0;
    while j < skipped.len()
        invariant
            c == skipped@,
            j <= c.len(),
            state.worker_state.assignment() == s0.worker_state.assignment(),
            forall|k: int| 0 <= k < s0.worker_state.assignment().len() ==> s0.worker_state.assignment()[k] is None,
            skipped_announced(queued@, c.subrange(0, j as int)),
            forall|k: JobId| #[trigger] state.completed_jobs@.contains(k) == (s0.completed_jobs@.contains(k)
                || listed(c.subrange(0, j as int), k)),
            forall|k: JobId| #[trigger] state.job_results@.contains_key(k) == (s0.job_results@.contains_key(k)
                || listed(c.subrange(0, j as int), k)),
            forall|k: JobId| listed(c.subrange(0, j as int), k) ==> skipped_result(#[trigger] state.job_results@[k]),
            forall|k: JobId| !listed(c.subrange(0, j as int), k) ==> #[trigger] state.job_results@[k]
                == s0.job_results@[k],
            state.job_queue@ == s0.job_queue@,
            state.pending_slot_jobs@ == s0.pending_slot_jobs@,
            state.teardown_procedure_jobs@ == s0.teardown_procedure_jobs@,
            state.job_info@ == s0.job_info@,
            slot_view(state.job_to_slot@) == slot_view(s0.job_to_slot@),
            same_settings(s0, *state),
            state.original_jobs_completed == s0.original_jobs_completed,
            state.total_jobs_submitted == s0.total_jobs_submitted,
            state.shutdown_requested == s0.shutdown_requested,
            state.pending_delayed_retries@ == s0.pending_delayed_retries@,
        decreases c.len() - j,
    {
        let job = &skipped[j];
        proof {
            lemma_listed_step(c, j as int);
            assert(c.subrange(0, j + 1).drop_last() =~= c.subrange(0, j as int));
            let a = state.worker_state.assignment();
            lemma_release_after_idle_prefix(a, a.len() as int, job.id);
        }
        queued.push((job.id, job.phase_key.clone(), job.phase_name.clone(), slot_label_text(&job.slot_id)));
        state.complete_job(job.id, JobResult::new_skip());
        j = j + 1;
    }
    assert(c.subrange(0, j as int) =~= c);
    queued
}

/// Stops every job: running jobs are completed with `running_error_msg`
/// (those with a report entry are announced with their worker), waiting
/// jobs are completed as skipped and announced; with `partition_teardown`,
/// queued tear-down phases and the shared tear-down are kept back instead
/// and returned, to run after the stop. Every worker ends idle and nothing
/// stays queued. Waiting jobs are skipped whether or not
/// `queued_error_msg` is given.
pub fn collect_and_complete_jobs(
    state: &mut OrchestratorState,
    running_error_msg: String,
    queued_error_msg: Option<String>,
    partition_teardown: bool,
) -> (r: (Vec<(usize, JobId, String, String, String)>, Vec<(JobId, String, String, String)>, Vec<Job>))
    ensures
        running_announced(r.0@, old(state).worker_state.assignment(), old(state).job_info@),
        skipped_announced(r.1@, stop_skipped(*old(state), partition_teardown)),
        r.2@ == stop_kept(*old(state), partition_teardown),
        stop_recorded(*old(state), *final(state), running_error_msg@, stop_skipped(*old(state), partition_teardown)),
        final(state).worker_state.assignment() == Seq::new(
            old(state).worker_state.assignment().len(),
            |i: int| None::<JobId>,
        ),
        final(state).job_queue@.len() == 0,
        final(state).pending_slot_jobs@.len() == 0,
        final(state).teardown_procedure_jobs@.len() == 0,
        final(state).job_info@ == old(state).job_info@,
        slot_view(final(state).job_to_slot@) == slot_view(old(state).job_to_slot@),
        same_settings(*old(state), *final(state)),
        final(state).original_jobs_completed == old(state).original_jobs_completed,
        final(state).total_jobs_submitted == old(state).total_jobs_submitted,
        final(state).shutdown_requested == old(state).shutdown_requested,
        final(state).pending_delayed_retries@ == old(state).pending_delayed_retries@,
{
    let ghost s0 = *state;
    let running = stop_running_jobs(state, &running_error_msg);
    let ghost s1 = *state;
    let (skipped, teardown) = take_waiting_jobs(state, partition_teardown);
    let ghost s2 = *state;
    assert(skipped@ == stop_skipped(s0, partition_teardown));
    let queued = record_skipped(state, &skipped);
    proof {
        let a = s0.worker_state.assignment();
        let c = skipped@;
        assert forall|k: JobId| held(a, k) && !listed(c, k) implies stopped_result(
            #[trigger] state.job_results@[k],
            running_error_msg@,
        ) by {
            assert(s2.job_results@[k] == s1.job_results@[k]);
        }
        assert forall|k: JobId| !held(a, k) && !listed(c, k) implies #[trigger] state.job_results@[k]
            == s0.job_results@[k] by {
            assert(!listed(Seq::<Job>::empty(), k));
        }
    }
    (running, queued, teardown)
}

/// A stop that keeps tear-down never skips a tear-down phase, and keeps
/// every queued one.
pub proof fn lemma_stop_keeps_teardown(s: OrchestratorState)
    ensures
        forall|i: int| 0 <= i < s.job_queue@.len() && (#[trigger] s.job_queue@[i]).stage_scope.is_teardown()
            ==> stop_kept(s, true).contains(s.job_queue@[i]),
        forall|i: int| 0 <= i < cancelled_part(s.job_queue@, None).len()
            ==> !(#[trigger] stop_skipped(s, true)[i]).stage_scope.is_teardown(),
{
    crate::state::lemma_cancel_partition(s.job_queue@, None);
    let k = kept_part(s.job_queue@, None);
    assert forall|i: int| 0 <= i < s.job_queue@.len() && (#[trigger] s.job_queue@[i]).stage_scope.is_teardown()
        implies stop_kept(s, true).contains(s.job_queue@[i]) by {
        let j = choose|j: int| 0 <= j < k.len() && k[j] == s.job_queue@[i];
        assert(stop_kept(s, true)[j] == s.job_queue@[i]);
    }
    assert forall|i: int| 0 <= i < cancelled_part(s.job_queue@, None).len()
        implies !(#[trigger] stop_skipped(s, true)[i]).stage_scope.is_teardown() by {
        assert(stop_skipped(s, true)[i] == cancelled_part(s.job_queue@, None)[i]);
    }
}

/// The assignment with the listed workers idle.
pub open spec fn cleared(a: Seq<Option<JobId>>, ws: Seq<usize>) -> Seq<Option<JobId>> {
    Seq::new(a.len(), |x: int| if ws.contains(x as usize) { None } else { a[x] })
}

/// Whether one of the listed workers holds the job.
pub open spec fn held_by(a: Seq<Option<JobId>>, ws: Seq<usize>, id: JobId) -> bool {
    exists|i: int| 0 <= i < ws.len() && a[ws[i] as int] == Some(id)
}

/// What stopping a slot records, once its queued jobs `c` were cancelled:
/// the cancelled jobs are skipped and reported as a cancellation records
/// them; then the jobs its workers `ws` ran are completed with the stop's
/// error (which wins over a skip), and those workers are freed.
pub open spec fn slot_stopped(
    before: OrchestratorState,
    after: OrchestratorState,
    c: Seq<Job>,
    ws: Seq<usize>,
    msg: Seq<char>,
) -> bool {
    let a1 = release_each(before.worker_state.assignment(), c);
    &&& after.worker_state.assignment() == cleared(a1, ws)
    &&& forall|k: JobId| #[trigger] after.completed_jobs@.contains(k) == (before.completed_jobs@.contains(k)
        || last_with_id(c, k) is Some || held_by(a1, ws, k))
    &&& forall|k: JobId| #[trigger] after.job_results@.contains_key(k) == (before.job_results@.contains_key(k)
        || last_with_id(c, k) is Some || held_by(a1, ws, k))
    &&& forall|k: JobId| held_by(a1, ws, k) ==> stopped_result(#[trigger] after.job_results@[k], msg)
    &&& forall|k: JobId| !held_by(a1, ws, k) && last_with_id(c, k) is Some ==> skip_result_for(
        #[trigger] after.job_results@[k],
        last_with_id(c, k)->0,
    )
    &&& forall|k: JobId| !held_by(a1, ws, k) && last_with_id(c, k) is None ==> #[trigger] after.job_results@[k]
        == before.job_results@[k]
    &&& forall|k: JobId| #[trigger] after.job_info@.contains_key(k) == (before.job_info@.contains_key(k)
        || last_with_id(c, k) is Some)
    &&& forall|k: JobId| last_with_id(c, k) is Some ==> (#[trigger] after.job_info@[k])@ == info_of(
        last_with_id(c, k)->0,
    )
    &&& forall|k: JobId| last_with_id(c, k) is None ==> #[trigger] after.job_info@[k] == before.job_info@[k]
    &&& after.original_jobs_completed == before.original_jobs_completed + first_attempts(c)
}

/// The workers of a slot are the busy workers whose job belongs to it, in
/// increasing order.
proof fn lemma_slot_workers_members(a: Seq<Option<JobId>>, slots: Map<JobId, Seq<char>>, slot: Seq<char>)
    requires
        a.len() <= usize::MAX,
    ensures
        forall|i: int| 0 <= i < slot_workers(a, slots, slot).len() ==> (#[trigger] slot_workers(a, slots, slot)[i])
            < a.len() && runs_slot_job(a[slot_workers(a, slots, slot)[i] as int], slots, slot),
        forall|w: int| 0 <= w < a.len() && runs_slot_job(#[trigger] a[w], slots, slot) ==> slot_workers(
            a,
            slots,
            slot,
        ).contains(w as usize),
        forall|i: int, j: int| 0 <= i < j < slot_workers(a, slots, slot).len() ==> #[trigger] slot_workers(
            a,
            slots,
            slot,
        )[i] < #[trigger] slot_workers(a, slots, slot)[j],
    decreases a.len(),
{
    if a.len() > 0 {
        let d = a.drop_last();
        lemma_slot_workers_members(d, slots, slot);
        let rest = slot_workers(d, slots, slot);
        let sw = slot_workers(a, slots, slot);
        assert forall|w: int| 0 <= w < a.len() && runs_slot_job(#[trigger] a[w], slots, slot) implies sw.contains(
            w as usize,
        ) by {
            if w < a.len() - 1 {
                assert(d[w] == a[w]);
                let i = choose|i: int| 0 <= i < rest.len() && rest[i] == w as usize;
                assert(sw[i] == w as usize);
            } else {
                assert(sw[sw.len() - 1] == w as usize);
            }
        }
        assert forall|i: int| 0 <= i < sw.len() implies (#[trigger] sw[i]) < a.len() && runs_slot_job(
            a[sw[i] as int],
            slots,
            slot,
        ) by {
            if i < rest.len() {
                assert(sw[i] == rest[i]);
                assert(a[rest[i] as int] == d[rest[i] as int]);
            }
        }
    }
}

/// Stops a slot: cancels its queued jobs (teardown phases stay), completes
/// the jobs its workers run with the error `Slot <slot> cancelled by user`,
/// and frees those workers. Returns the cancelled jobs and the workers to
/// interrupt.
pub fn stop_slot(state: &mut OrchestratorState, slot_id: &str) -> (r: (Vec<Job>, Vec<usize>))
    requires
        old(state).original_jobs_completed + old(state).job_queue@.len() <= usize::MAX,
    ensures
        r.0@ == cancelled_part(old(state).job_queue@, Some(slot_id@)),
        final(state).job_queue@ == kept_part(old(state).job_queue@, Some(slot_id@)),
        r.1@ == slot_workers(
            release_each(old(state).worker_state.assignment(), r.0@),
            slot_view(old(state).job_to_slot@),
            slot_id@,
        ),
        slot_stopped(*old(state), *final(state), r.0@, r.1@, "Slot "@ + slot_id@ + " cancelled by user"@),
        slot_view(final(state).job_to_slot@) == slot_view(old(state).job_to_slot@),
        same_settings(*old(state), *final(state)),
        final(state).total_jobs_submitted == old(state).total_jobs_submitted,
        final(state).shutdown_requested == old(state).shutdown_requested,
        final(state).pending_slot_jobs@ == old(state).pending_slot_jobs@,
        final(state).teardown_procedure_jobs@ == old(state).teardown_procedure_jobs@,
        final(state).pending_delayed_retries@ == old(state).pending_delayed_retries@,
{
    let ghost s0 = *state;
    let cancelled = state.cancel_slot_jobs(slot_id);
    let ghost s1 = *state;
    let ghost a1 = s1.worker_state.assignment();
    let ghost slots = slot_view(s1.job_to_slot@);
    let workers = state.get_workers_for_slot(slot_id);
    let ghost ws = workers@;
    let worker_count = state.worker_state.num_workers();
    proof {
        assert(a1.len() == worker_count);
        lemma_slot_workers_members(a1, slots, slot_id@);
    }
    let mut msg = text_of("Slot ");
    push_str(&mut msg, slot_id);
    push_str(&mut msg, " cancelled by user");
    let n = workers.len();
    let mut i: usize = 0;
    while i < n
        invariant
            n == ws.len(),
            ws == workers@,
            i <= n,
            a1 == s1.worker_state.assignment(),
            a1.len() <= usize::MAX,
            slots == slot_view(s1.job_to_slot@),
            ws == slot_workers(a1, slots, slot_id@),
            forall|x: int| 0 <= x < ws.len() ==> (#[trigger] ws[x]) < a1.len() && runs_slot_job(
                a1[ws[x] as int],
                slots,
                slot_id@,
            ),
            forall|w: int| 0 <= w < a1.len() && runs_slot_job(#[trigger] a1[w], slots, slot_id@) ==> ws.contains(
                w as usize,
            ),
            forall|x: int, y: int| 0 <= x < y < ws.len() ==> #[trigger] ws[x] < #[trigger] ws[y],
            state.worker_state.assignment() == cleared(a1, ws.subrange(0, i as int)),
            forall|k: JobId| #[trigger] state.completed_jobs@.contains(k) == (s1.completed_jobs@.contains(k)
                || held_by(a1, ws.subrange(0, i as int), k)),
            forall|k: JobId| #[trigger] state.job_results@.contains_key(k) == (s1.job_results@.contains_key(k)
                || held_by(a1, ws.subrange(0, i as int), k)),
            forall|k: JobId| held_by(a1, ws.subrange(0, i as int), k) ==> stopped_result(
                #[trigger] state.job_results@[k],
                msg@,
            ),
            forall|k: JobId| !held_by(a1, ws.subrange(0, i as int), k) ==> #[trigger] state.job_results@[k]
                == s1.job_results@[k],
            msg@ == "Slot "@ + slot_id@ + " cancelled by user"@,
            state.job_queue@ == s1.job_queue@,
            state.job_info@ == s1.job_info@,
            slot_view(state.job_to_slot@) == slots,
            same_settings(s1, *state),
            state.original_jobs_completed == s1.original_jobs_completed,
            state.total_jobs_submitted == s1.total_jobs_submitted,
            state.shutdown_requested == s1.shutdown_requested,
            state.pending_slot_jobs@ == s1.pending_slot_jobs@,
            state.teardown_procedure_jobs@ == s1.teardown_procedure_jobs@,
            state.pending_delayed_retries@ == s1.pending_delayed_retries@,
        decreases n - i,
    {
        let w = workers[i];
        let ghost cur = state.worker_state.assignment();
        let ghost pre = ws.subrange(0, i as int);
        let ghost nxt = ws.subrange(0, i + 1);
        proof {
            assert(nxt =~= pre.push(w));
            assert(!pre.contains(w)) by {
                if pre.contains(w) {
                    let x = choose|x: int| 0 <= x < pre.len() && pre[x] == w;
                    assert(ws[x] < ws[i as int]);
                }
            }
            assert(cur[w as int] == a1[w as int]);
        }
        match state.worker_state.get_worker_job(w) {
            Some(job_id) => {
                proof {
                    assert forall|k: int| 0 <= k < w implies cur[k] is None || cur[k] != Some(job_id) by {
                        if a1[k] == Some(job_id) {
                            assert(runs_slot_job(a1[k], slots, slot_id@));
                            assert(ws.contains(k as usize));
                            let x = choose|x: int| 0 <= x < ws.len() && ws[x] == k as usize;
                            if x >= i {
                                if x == i {
                                } else {
                                    assert(ws[i as int] < ws[x]);
                                }
                            }
                            assert(pre[x] == k as usize);
                            assert(pre.contains(k as usize));
                        }
                    }
                    crate::worker_state::lemma_release_at_first(cur, w as int, job_id);
                    assert forall|k: JobId| #[trigger] held_by(a1, nxt, k) == (held_by(a1, pre, k) || k == job_id) by {
                        if held_by(a1, nxt, k) {
                            let x = choose|x: int| 0 <= x < nxt.len() && a1[nxt[x] as int] == Some(k);
                            if x < pre.len() {
                                assert(pre[x] == nxt[x]);
                            }
                        }
                        if held_by(a1, pre, k) {
                            let x = choose|x: int| 0 <= x < pre.len() && a1[pre[x] as int] == Some(k);
                            assert(nxt[x] == pre[x]);
                        }
                        if k == job_id {
                            assert(nxt[i as int] == w);
                        }
                    }
                }
                state.complete_job(job_id, JobResult::new_error(msg.clone()));
                proof {
                    let after = state.worker_state.assignment();
                    assert(after == cur.update(w as int, None));
                    assert forall|x: int| 0 <= x < a1.len() implies after[x] == cleared(a1, nxt)[x] by {
                        if x == w as int {
                            assert(nxt[i as int] == w);
                            assert(nxt.contains(x as usize));
                        } else {
                            if pre.contains(x as usize) {
                                let y = choose|y: int| 0 <= y < pre.len() && pre[y] == x as usize;
                                assert(nxt[y] == x as usize);
                            }
                            if nxt.contains(x as usize) {
                                let y = choose|y: int| 0 <= y < nxt.len() && nxt[y] == x as usize;
                                if y < pre.len() {
                                    assert(pre[y] == x as usize);
                                } else {
                                    assert(nxt[y] == w);
                                }
                            }
                            assert(after[x] == cur[x]);
                            assert(cur[x] == cleared(a1, pre)[x]);
                        }
                    }
                    assert(after =~= cleared(a1, nxt));
                }
            },
            None => {
                proof {
                    assert(false);
                }
            },
        }
        i = i + 1;
    }
    proof {
        assert(ws.subrange(0, n as int) =~= ws);
    }
    (cancelled, workers)
}

/// The result a queued job gets when the tear-down time runs out: an error
/// that says so.
pub open spec fn teardown_timeout_result(r: JobResult) -> bool {
    &&& bare_result(r, PhaseResult::Continue, Outcome::Error, r.started_at)
    &&& r.timeout_secs is None
    &&& r.error matches Some(e) && e@ == "Teardown timeout during shutdown"@
}

/// Ends a tear-down whose time has run out: every job still queued leaves
/// the queue, in order, and is completed with an error saying that the
/// tear-down timed out. Returns those jobs, in queue order.
pub fn expire_teardown_jobs(state: &mut OrchestratorState) -> (expired: Vec<Job>)
    ensures
        expired@ == old(state).job_queue@,
        final(state).job_queue@.len() == 0,
        forall|k: JobId| #[trigger] final(state).completed_jobs@.contains(k) == (old(state).completed_jobs@.contains(k)
            || last_with_id(expired@, k) is Some),
        forall|k: JobId| #[trigger] final(state).job_results@.contains_key(k) == (old(state).job_results@.contains_key(k)
            || last_with_id(expired@, k) is Some),
        forall|k: JobId| #[trigger] last_with_id(expired@, k) is Some ==> teardown_timeout_result(final(state).job_results@[k]),
        forall|k: JobId| #[trigger] last_with_id(expired@, k) is None ==> final(state).job_results@[k] == old(state).job_results@[k],
        final(state).worker_state.assignment() == release_each(old(state).worker_state.assignment(), expired@),
        final(state).job_info@ == old(state).job_info@,
        final(state).original_jobs_completed == old(state).original_jobs_completed,
        final(state).total_jobs_submitted == old(state).total_jobs_submitted,
        final(state).shutdown_requested == old(state).shutdown_requested,
        same_settings(*old(state), *final(state)),
{
    let mut q: Vec<Job> = Vec::new();
    std::mem::swap(&mut q, &mut state.job_queue);
    let ghost s0 = *old(state);
    let mut i: usize = 0;
    while i < q.len()
        invariant
            i <= q@.len(),
            q@ == s0.job_queue@,
            state.job_queue@.len() == 0,
            forall|k: JobId| #[trigger] state.completed_jobs@.contains(k) == (s0.completed_jobs@.contains(k)
                || last_with_id(q@.subrange(0, i as int), k) is Some),
            forall|k: JobId| #[trigger] state.job_results@.contains_key(k) == (s0.job_results@.contains_key(k)
                || last_with_id(q@.subrange(0, i as int), k) is Some),
            forall|k: JobId| #[trigger] last_with_id(q@.subrange(0, i as int), k) is Some ==> teardown_timeout_result(
                state.job_results@[k],
            ),
            forall|k: JobId| #[trigger] last_with_id(q@.subrange(0, i as int), k) is None ==> state.job_results@[k]
                == s0.job_results@[k],
            state.worker_state.assignment() == release_each(s0.worker_state.assignment(), q@.subrange(0, i as int)),
            state.job_info@ == s0.job_info@,
            state.original_jobs_completed == s0.original_jobs_completed,
            state.total_jobs_submitted == s0.total_jobs_submitted,
            state.shutdown_requested == s0.shutdown_requested,
            same_settings(s0, *state),
        decreases q@.len() - i,
    {
        let id = q[i].id;
        let r = JobResult::new_error(text_of("Teardown timeout during shutdown"));
        state.complete_job(id, r);
        proof {
            let p = q@.subrange(0, i + 1);
            let prev = q@.subrange(0, i as int);
            assert(p.drop_last() =~= prev);
            assert(p.last() == q@[i as int]);
            assert forall|k: JobId| #[trigger] last_with_id(p, k) == (if k == id {
                Some(q@[i as int])
            } else {
                last_with_id(prev, k)
            }) by {
                assert(p.len() > 0);
            }
            assert(teardown_timeout_result(state.job_results@[id]));
        }
        i = i + 1;
    }
    assert(q@.subrange(0, i as int) =~= q@);
    q
}

} // verus!
