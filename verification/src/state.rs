//! The orchestrator's shared state: the job queue, what has completed, which
//! worker runs what, and the slots still waiting their turn.

use vstd::prelude::*;
use std::collections::{HashMap, HashSet};
use crate::ids::{now_millis, JobId};
use crate::job::{bare_result, deps_satisfied, Job, JobResult, Outcome, PhaseResult};
use crate::schema::{is_teardown_stage, StageScope};
use crate::string_map::str_eq;
use crate::text::copy_opt_text;
use crate::unit::opt_text;
use crate::worker_state::{busy_count, released, WorkerStateTracker};

verus! {

broadcast use vstd::std_specs::hash::group_hash_axioms;

/// What the report needs to know of a finished job.
#[derive(Debug)]
pub struct JobInfo {
    pub phase_key: String,
    pub phase_name: String,
    pub slot_id: Option<String>,
}

/// The text of a job's report entry: phase key, phase name, slot.
pub struct JobInfoView {
    pub phase_key: Seq<char>,
    pub phase_name: Seq<char>,
    pub slot_id: Option<Seq<char>>,
}

impl View for JobInfo {
    type V = JobInfoView;

    open spec fn view(&self) -> JobInfoView {
        JobInfoView { phase_key: self.phase_key@, phase_name: self.phase_name@, slot_id: opt_text(self.slot_id) }
    }
}

/// The report entry of a job.
pub open spec fn info_of(j: Job) -> JobInfoView {
    JobInfoView { phase_key: j.phase_key@, phase_name: j.phase_name@, slot_id: opt_text(j.slot_id) }
}

/// A retry that waits out its delay before it is queued.
#[derive(Debug)]
pub struct PendingDelayedRetry {
    pub phase_key: String,
    pub phase_name: String,
    pub slot_id: Option<String>,
    pub job_id: JobId,
}

/// The orchestrator's state, shared under one lock.
#[derive(Debug)]
pub struct OrchestratorState {
    /// Jobs waiting to run, in order.
    pub job_queue: Vec<Job>,
    pub completed_jobs: HashSet<JobId>,
    pub job_results: HashMap<JobId, JobResult>,
    pub job_info: HashMap<JobId, JobInfo>,
    pub worker_state: WorkerStateTracker,
    /// Jobs submitted, retries not counted.
    pub total_jobs_submitted: usize,
    /// Completed jobs that were first attempts.
    pub original_jobs_completed: usize,
    /// The slot of each queued slot job.
    pub job_to_slot: HashMap<JobId, String>,
    pub shutdown_requested: bool,
    pub force_kill_requested: bool,
    pub should_stop_on_first_failure: bool,
    /// Slot-first execution: the slots still to run, with their jobs.
    pub pending_slot_jobs: Vec<(String, Vec<Job>)>,
    /// Slot-first execution: the shared teardown, run after every slot.
    pub teardown_procedure_jobs: Vec<Job>,
    /// Retries waiting out their delay.
    pub pending_delayed_retries: Vec<PendingDelayedRetry>,
    /// Why initialisation failed, if it did.
    pub init_error: Option<String>,
}

/// Whether execution is over: nothing queued, running or waiting to be
/// retried, or a shutdown was requested.
pub open spec fn execution_complete(s: OrchestratorState) -> bool {
    (s.job_queue@.len() == 0 && busy_count(s.worker_state.assignment()) == 0
        && s.pending_delayed_retries@.len() == 0) || s.shutdown_requested
}

/// The text of each job's slot.
pub open spec fn slot_view(m: Map<JobId, String>) -> Map<JobId, Seq<char>> {
    m.map_values(|s: String| s@)
}

/// The slot map after a job is queued: slot jobs are recorded.
pub open spec fn track_slot(m: Map<JobId, Seq<char>>, j: Job) -> Map<JobId, Seq<char>> {
    match j.slot_id {
        Some(s) => m.insert(j.id, s@),
        None => m,
    }
}

/// The workers, in order, that run a job of `slot`.
pub open spec fn slot_workers(a: Seq<Option<JobId>>, slots: Map<JobId, Seq<char>>, slot: Seq<char>) -> Seq<usize>
    decreases a.len(),
{
    if a.len() == 0 {
        Seq::empty()
    } else {
        let rest = slot_workers(a.drop_last(), slots, slot);
        match a.last() {
            Some(id) => if slots.contains_key(id) && slots[id] == slot {
                rest.push((a.len() - 1) as usize)
            } else {
                rest
            },
            None => rest,
        }
    }
}

/// Whether a cancellation takes a queued job: never a teardown phase, and,
/// when it is for one slot, only that slot's jobs.
pub open spec fn cancels(j: Job, slot: Option<Seq<char>>) -> bool {
    !j.stage_scope.is_teardown() && match slot {
        Some(s) => opt_text(j.slot_id) == Some(s),
        None => true,
    }
}

/// The jobs of a queue that a cancellation leaves, in order.
pub open spec fn kept_part(q: Seq<Job>, slot: Option<Seq<char>>) -> Seq<Job>
    decreases q.len(),
{
    if q.len() == 0 {
        Seq::empty()
    } else if cancels(q.last(), slot) {
        kept_part(q.drop_last(), slot)
    } else {
        kept_part(q.drop_last(), slot).push(q.last())
    }
}

/// The jobs of a queue that a cancellation takes, in order.
pub open spec fn cancelled_part(q: Seq<Job>, slot: Option<Seq<char>>) -> Seq<Job>
    decreases q.len(),
{
    if q.len() == 0 {
        Seq::empty()
    } else if cancels(q.last(), slot) {
        cancelled_part(q.drop_last(), slot).push(q.last())
    } else {
        cancelled_part(q.drop_last(), slot)
    }
}

/// The last job of `c` with identifier `id`, if any.
pub open spec fn last_with_id(c: Seq<Job>, id: JobId) -> Option<Job>
    decreases c.len(),
{
    if c.len() == 0 {
        None
    } else if c.last().id == id {
        Some(c.last())
    } else {
        last_with_id(c.drop_last(), id)
    }
}

/// How many jobs of `c` are first attempts.
pub open spec fn first_attempts(c: Seq<Job>) -> nat
    decreases c.len(),
{
    if c.len() == 0 {
        0
    } else {
        first_attempts(c.drop_last()) + if c.last().retry_count == 0 { 1nat } else { 0nat }
    }
}

/// The assignment after the worker of each job of `c` is released, in order.
pub open spec fn release_each(a: Seq<Option<JobId>>, c: Seq<Job>) -> Seq<Option<JobId>>
    decreases c.len(),
{
    if c.len() == 0 {
        a
    } else {
        released(release_each(a, c.drop_last()), c.last().id)
    }
}

/// The result recorded for a cancelled job: skipped, with nothing else, at the
/// job's attempt count.
pub open spec fn skip_result_for(r: JobResult, j: Job) -> bool {
    &&& r.phase_result == PhaseResult::Skip
    &&& r.phase_outcome == Outcome::Skip
    &&& r.next_action is None
    &&& r.timeout_secs is None
    &&& r.error is None
    &&& r.exit_code is None
    &&& r.measurements@.len() == 0
    &&& r.logs@.len() == 0
    &&& r.unit is None
    &&& r.input_unit_info is None
    &&& r.retry_count == j.retry_count
}

/// What recording the cancelled jobs `c` does to the completion records:
/// each is completed, skipped, and reported (the last one with an
/// identifier wins); nothing else changes.
pub open spec fn records_cancelled(before: OrchestratorState, after: OrchestratorState, c: Seq<Job>) -> bool {
    &&& forall|k: JobId| #[trigger] after.completed_jobs@.contains(k) == (before.completed_jobs@.contains(k)
        || last_with_id(c, k) is Some)
    &&& forall|k: JobId| #[trigger] after.job_results@.contains_key(k) == (before.job_results@.contains_key(k)
        || last_with_id(c, k) is Some)
    &&& forall|k: JobId| #[trigger] after.job_info@.contains_key(k) == (before.job_info@.contains_key(k)
        || last_with_id(c, k) is Some)
    &&& forall|k: JobId| #[trigger] last_with_id(c, k) matches Some(j) ==> skip_result_for(
        after.job_results@[k],
        j,
    ) && after.job_info@[k]@ == info_of(j)
    &&& forall|k: JobId| #[trigger] last_with_id(c, k) is None ==> after.job_results@[k] == before.job_results@[k]
        && after.job_info@[k] == before.job_info@[k]
    &&& after.original_jobs_completed == before.original_jobs_completed + first_attempts(c)
    &&& after.worker_state.assignment() == release_each(before.worker_state.assignment(), c)
}

/// The text of an optional string slice.
pub open spec fn opt_str(o: Option<&str>) -> Option<Seq<char>> {
    match o {
        Some(s) => Some(s@),
        None => None,
    }
}

/// A cancellation splits the queue: what it takes and what it leaves add up
/// to the queue, and it never takes a teardown phase.
pub proof fn lemma_cancel_partition(q: Seq<Job>, slot: Option<Seq<char>>)
    ensures
        kept_part(q, slot).len() + cancelled_part(q, slot).len() == q.len(),
        forall|i: int| 0 <= i < q.len() && (#[trigger] q[i]).stage_scope.is_teardown() ==> kept_part(
            q,
            slot,
        ).contains(q[i]),
        forall|i: int| 0 <= i < cancelled_part(q, slot).len() ==> !(#[trigger] cancelled_part(q, slot)[i]).stage_scope.is_teardown(),
    decreases q.len(),
{
    if q.len() > 0 {
        lemma_cancel_partition(q.drop_last(), slot);
        let k = kept_part(q.drop_last(), slot);
        assert forall|i: int| 0 <= i < q.len() && (#[trigger] q[i]).stage_scope.is_teardown() implies kept_part(
            q,
            slot,
        ).contains(q[i]) by {
            if i < q.len() - 1 {
                assert(q.drop_last()[i] == q[i]);
                let j = choose|j: int| 0 <= j < k.len() && k[j] == q[i];
                if !cancels(q.last(), slot) {
                    assert(kept_part(q, slot)[j] == q[i]);
                }
            } else {
                assert(kept_part(q, slot).last() == q[i]);
            }
        }
    }
}

/// A worker that holds a job counts as busy.
proof fn lemma_holder_is_busy(a: Seq<Option<JobId>>, w: int)
    requires
        0 <= w < a.len(),
        a[w] is Some,
    ensures
        busy_count(a) > 0,
    decreases a.len(),
{
    if w < a.len() - 1 {
        assert(a.drop_last()[w] == a[w]);
        lemma_holder_is_busy(a.drop_last(), w);
    }
}

/// While some worker holds a job, the current work is not done: in
/// slot-first execution the next slot's jobs (or the shared tear-down) are
/// not queued until every worker is idle.
pub proof fn lemma_busy_worker_blocks_next_slot(s: OrchestratorState, w: int)
    requires
        0 <= w < s.worker_state.assignment().len(),
        s.worker_state.assignment()[w] is Some,
    ensures
        !work_drained(s),
{
    lemma_holder_is_busy(s.worker_state.assignment(), w);
}

/// A cancellation never takes a job of a tear-down stage: every queued
/// per-slot or shared tear-down job stays in the queue, and no cancelled job
/// is one.
pub proof fn lemma_cancel_keeps_teardown_stages(q: Seq<Job>, slot: Option<Seq<char>>)
    ensures
        forall|i: int|
            0 <= i < q.len() && ((#[trigger] q[i]).stage_scope == StageScope::TeardownEach || q[i].stage_scope
                == StageScope::TeardownAll) ==> kept_part(q, slot).contains(q[i]),
        forall|i: int|
            0 <= i < cancelled_part(q, slot).len() ==> (#[trigger] cancelled_part(q, slot)[i]).stage_scope
                != StageScope::TeardownEach && cancelled_part(q, slot)[i].stage_scope != StageScope::TeardownAll,
{
    lemma_cancel_partition(q, slot);
}

/// At most every job of a list is a first attempt.
pub proof fn lemma_first_attempts_bound(c: Seq<Job>)
    ensures
        first_attempts(c) <= c.len(),
    decreases c.len(),
{
    if c.len() > 0 {
        lemma_first_attempts_bound(c.drop_last());
    }
}

/// Recording cancelled jobs after taking them from the queue describes the
/// whole change from before the cancellation.
proof fn lemma_records_cancelled_frame(
    before: OrchestratorState,
    mid: OrchestratorState,
    after: OrchestratorState,
    c: Seq<Job>,
)
    requires
        mid.completed_jobs@ == before.completed_jobs@,
        mid.job_results@ == before.job_results@,
        mid.job_info@ == before.job_info@,
        mid.worker_state == before.worker_state,
        mid.original_jobs_completed == before.original_jobs_completed,
        records_cancelled(mid, after, c),
    ensures
        records_cancelled(before, after, c),
{
}

/// The slot map after jobs are queued in order.
pub open spec fn track_slots(m: Map<JobId, Seq<char>>, js: Seq<Job>) -> Map<JobId, Seq<char>>
    decreases js.len(),
{
    if js.len() == 0 {
        m
    } else {
        track_slot(track_slots(m, js.drop_last()), js.last())
    }
}

/// The settings and flags that queue bookkeeping leaves alone.
pub open spec fn same_settings(a: OrchestratorState, b: OrchestratorState) -> bool {
    &&& a.should_stop_on_first_failure == b.should_stop_on_first_failure
    &&& a.force_kill_requested == b.force_kill_requested
    &&& a.init_error == b.init_error
}

/// Whether nothing is queued, running or waiting to be retried.
pub open spec fn work_drained(s: OrchestratorState) -> bool {
    s.job_queue@.len() == 0 && busy_count(s.worker_state.assignment()) == 0
        && s.pending_delayed_retries@.len() == 0
}

/// Whether a job is a main phase of the slot.
pub open spec fn is_slot_main(j: Job, slot: Seq<char>) -> bool {
    opt_text(j.slot_id) == Some(slot) && j.stage_scope == StageScope::Main
}

/// Whether a main phase of the slot is queued.
pub open spec fn queued_main(q: Seq<Job>, slot: Seq<char>) -> bool {
    exists|k: int| 0 <= k < q.len() && is_slot_main(#[trigger] q[k], slot)
}

/// Whether a worker runs a job of the slot.
pub open spec fn slot_running(a: Seq<Option<JobId>>, slots: Map<JobId, Seq<char>>, slot: Seq<char>) -> bool {
    exists|w: int| 0 <= w < a.len() && runs_slot_job(#[trigger] a[w], slots, slot)
}

/// Whether an assignment is a job of the slot.
pub open spec fn runs_slot_job(held: Option<JobId>, slots: Map<JobId, Seq<char>>, slot: Seq<char>) -> bool {
    held matches Some(id) && slots.contains_key(id) && slots[id] == slot
}

/// Whether a queued job may start as far as the state goes: its
/// dependencies have completed, and a slot teardown waits for the main
/// phases and running jobs of its slot.
pub open spec fn schedulable(s: OrchestratorState, j: Job) -> bool {
    &&& deps_satisfied(j.depends_on@, s.completed_jobs@)
    &&& (j.stage_scope == StageScope::TeardownEach && j.slot_id is Some) ==> !queued_main(
        s.job_queue@,
        j.slot_id->0@,
    ) && !slot_running(s.worker_state.assignment(), slot_view(s.job_to_slot@), j.slot_id->0@)
}

/// What the plug check said of a job: a job without plugs needs no check.
pub open spec fn plugs_ok<F: Fn(&Vec<String>) -> bool>(f: F, j: Job, answer: bool) -> bool {
    if j.required_plugs@.len() == 0 {
        answer
    } else {
        f.ensures((&j.required_plugs,), answer)
    }
}

/// Which job a scheduling pass takes out of the queue: the first queued job
/// that can start now and whose plugs are available (`None`, leaving the
/// queue as it is, when there is none).
pub open spec fn picked<F: Fn(&Vec<String>) -> bool>(
    before: OrchestratorState,
    after: OrchestratorState,
    plugs_available: F,
    r: Option<Job>,
) -> bool {
    match r {
        Some(job) => exists|i: int|
            0 <= i < before.job_queue@.len() && #[trigger] before.job_queue@[i] == job
                && after.job_queue@ == before.job_queue@.remove(i)
                && schedulable(before, job)
                && plugs_ok(plugs_available, job, true)
                && forall|k: int| 0 <= k < i ==> !schedulable(before, #[trigger] before.job_queue@[k])
                    || plugs_ok(plugs_available, before.job_queue@[k], false),
        None => after.job_queue@ == before.job_queue@ && forall|k: int|
            0 <= k < before.job_queue@.len() ==> !schedulable(before, #[trigger] before.job_queue@[k])
                || plugs_ok(plugs_available, before.job_queue@[k], false),
    }
}

/// The workers of a slot are exactly those that run one of its jobs.
proof fn lemma_slot_workers(a: Seq<Option<JobId>>, slots: Map<JobId, Seq<char>>, slot: Seq<char>)
    ensures
        (slot_workers(a, slots, slot).len() > 0) == slot_running(a, slots, slot),
    decreases a.len(),
{
    if a.len() > 0 {
        lemma_slot_workers(a.drop_last(), slots, slot);
        if slot_running(a, slots, slot) {
            let w = choose|w: int| 0 <= w < a.len() && runs_slot_job(#[trigger] a[w], slots, slot);
            if w < a.len() - 1 {
                assert(runs_slot_job(a.drop_last()[w], slots, slot));
            }
        }
        if slot_running(a.drop_last(), slots, slot) {
            let w = choose|w: int| 0 <= w < a.len() - 1 && runs_slot_job(#[trigger] a.drop_last()[w], slots, slot);
            assert(runs_slot_job(a[w], slots, slot));
        }
        if runs_slot_job(a.last(), slots, slot) {
            assert(runs_slot_job(a[a.len() - 1], slots, slot));
        }
    }
}

impl OrchestratorState {
    /// A fresh state with `num_workers` idle workers.
    pub fn new(num_workers: usize) -> (s: OrchestratorState)
        ensures
            s.job_queue@.len() == 0,
            s.completed_jobs@ == Set::<JobId>::empty(),
            s.job_results@ == Map::<JobId, JobResult>::empty(),
            s.job_info@ == Map::<JobId, JobInfo>::empty(),
            s.worker_state.assignment() == Seq::new(num_workers as nat, |i: int| None::<JobId>),
            s.total_jobs_submitted == 0,
            s.original_jobs_completed == 0,
            s.job_to_slot@ == Map::<JobId, String>::empty(),
            !s.shutdown_requested,
            !s.force_kill_requested,
            !s.should_stop_on_first_failure,
            s.pending_slot_jobs@.len() == 0,
            s.teardown_procedure_jobs@.len() == 0,
            s.pending_delayed_retries@.len() == 0,
            s.init_error is None,
    {
        OrchestratorState {
            job_queue: Vec::new(),
            completed_jobs: HashSet::new(),
            job_results: HashMap::new(),
            job_info: HashMap::new(),
            worker_state: WorkerStateTracker::new(num_workers),
            total_jobs_submitted: 0,
            original_jobs_completed: 0,
            job_to_slot: HashMap::new(),
            shutdown_requested: false,
            force_kill_requested: false,
            should_stop_on_first_failure: false,
            pending_slot_jobs: Vec::new(),
            teardown_procedure_jobs: Vec::new(),
            pending_delayed_retries: Vec::new(),
            init_error: None,
        }
    }

    /// Whether execution is over.
    pub fn is_complete(&self) -> (b: bool)
        ensures
            b == execution_complete(*self),
    {
        (self.job_queue.len() == 0 && self.worker_state.count_busy() == 0
            && self.pending_delayed_retries.len() == 0) || self.shutdown_requested
    }

    /// Forgets the delayed retries whose waiting task has finished (their
    /// identifiers are given).
    pub fn cleanup_finished_retry_handles(&mut self, finished: &Vec<JobId>)
        ensures
            same_settings(*old(self), *final(self)),
            final(self).pending_delayed_retries@ == old(self).pending_delayed_retries@.filter(
                |p: PendingDelayedRetry| !finished@.contains(p.job_id),
            ),
            final(self).job_queue@ == old(self).job_queue@,
            final(self).worker_state == old(self).worker_state,
            final(self).completed_jobs@ == old(self).completed_jobs@,
            final(self).shutdown_requested == old(self).shutdown_requested,
    {
        let ghost pred = |p: PendingDelayedRetry| !finished@.contains(p.job_id);
        let mut rest: Vec<PendingDelayedRetry> = Vec::new();
        std::mem::swap(&mut rest, &mut self.pending_delayed_retries);
        let ghost all = rest@;
        let total = rest.len();
        let mut kept: Vec<PendingDelayedRetry> = Vec::new();
        let mut i: usize = 0;
        while rest.len() > 0
            invariant
                all.len() == total,
                all == all.subrange(0, i as int) + rest@,
                i + rest@.len() == all.len(),
                kept@ == all.subrange(0, i as int).filter(pred),
                pred == (|p: PendingDelayedRetry| !finished@.contains(p.job_id)),
            decreases rest@.len(),
        {
            let p = rest.remove(0);
            proof {
                assert(all.subrange(0, i + 1).drop_last() =~= all.subrange(0, i as int));
                assert(all.subrange(0, i + 1).last() == p);
                assert(all =~= all.subrange(0, i + 1) + rest@);
                reveal_with_fuel(Seq::filter, 1);
            }
            let mut found = false;
            let mut k: usize = 0;
            while k < finished.len()
                invariant
                    k <= finished@.len(),
                    found == (exists|x: int| 0 <= x < k && finished@[x] == p.job_id),
                decreases finished@.len() - k,
            {
                if finished[k] == p.job_id {
                    found = true;
                }
                k = k + 1;
            }
            assert(found == finished@.contains(p.job_id));
            if !found {
                kept.push(p);
            }
            i = i + 1;
        }
        assert(all.subrange(0, i as int) =~= all);
        self.pending_delayed_retries = kept;
    }

    /// Finds the first queued job whose dependencies have completed and
    /// that `check_deps` accepts, and takes it out of the queue.
    pub fn pop_ready_job(&mut self, check_deps: impl Fn(&Job) -> bool) -> (r: Option<Job>)
        requires
            forall|j: &Job| #[trigger] check_deps.requires((j,)),
        ensures
            same_settings(*old(self), *final(self)),
            final(self).completed_jobs@ == old(self).completed_jobs@,
            final(self).worker_state == old(self).worker_state,
            slot_view(final(self).job_to_slot@) == slot_view(old(self).job_to_slot@),
            final(self).job_results@ == old(self).job_results@,
            final(self).job_info@ == old(self).job_info@,
            final(self).original_jobs_completed == old(self).original_jobs_completed,
            final(self).total_jobs_submitted == old(self).total_jobs_submitted,
            final(self).shutdown_requested == old(self).shutdown_requested,
            final(self).pending_slot_jobs@ == old(self).pending_slot_jobs@,
            final(self).teardown_procedure_jobs@ == old(self).teardown_procedure_jobs@,
            final(self).pending_delayed_retries@ == old(self).pending_delayed_retries@,
            match r {
                Some(job) => exists|i: int|
                    0 <= i < old(self).job_queue@.len() && #[trigger] old(self).job_queue@[i] == job
                        && final(self).job_queue@ == old(self).job_queue@.remove(i)
                        && deps_satisfied(job.depends_on@, old(self).completed_jobs@)
                        && check_deps.ensures((&job,), true)
                        && forall|k: int| 0 <= k < i ==> !deps_satisfied(
                            #[trigger] old(self).job_queue@[k].depends_on@,
                            old(self).completed_jobs@,
                        ) || check_deps.ensures((&old(self).job_queue@[k],), false),
                None => final(self).job_queue@ == old(self).job_queue@ && forall|k: int|
                    0 <= k < old(self).job_queue@.len() ==> !deps_satisfied(
                        #[trigger] old(self).job_queue@[k].depends_on@,
                        old(self).completed_jobs@,
                    ) || check_deps.ensures((&old(self).job_queue@[k],), false),
            },
    {
        let mut i: usize = 0;
        while i < self.job_queue.len()
            invariant
                *self == *old(self),
                i <= self.job_queue@.len(),
                forall|j: &Job| #[trigger] check_deps.requires((j,)),
                forall|k: int| 0 <= k < i ==> !deps_satisfied(
                    #[trigger] old(self).job_queue@[k].depends_on@,
                    old(self).completed_jobs@,
                ) || check_deps.ensures((&old(self).job_queue@[k],), false),
            decreases self.job_queue@.len() - i,
        {
            let ready = self.job_queue[i].dependencies_satisfied(&self.completed_jobs) && check_deps(
                &self.job_queue[i],
            );
            if ready {
                let job = self.job_queue.remove(i);
                return Some(job);
            }
            i = i + 1;
        }
        None
    }

    /// Records that a worker runs a job.
    pub fn mark_job_active(&mut self, job_id: JobId, worker_id: usize) -> (r: Result<(), String>)
        ensures
            same_settings(*old(self), *final(self)),
            r is Ok <==> worker_id < old(self).worker_state.assignment().len()
                && old(self).worker_state.assignment()[worker_id as int] is None,
            r is Ok ==> final(self).worker_state.assignment() == old(self).worker_state.assignment().update(
                worker_id as int,
                Some(job_id),
            ),
            r is Err ==> final(self).worker_state.assignment() == old(self).worker_state.assignment(),
            final(self).job_queue@ == old(self).job_queue@,
            final(self).completed_jobs@ == old(self).completed_jobs@,
            final(self).job_results@ == old(self).job_results@,
            final(self).job_info@ == old(self).job_info@,
            slot_view(final(self).job_to_slot@) == slot_view(old(self).job_to_slot@),
            final(self).original_jobs_completed == old(self).original_jobs_completed,
            final(self).total_jobs_submitted == old(self).total_jobs_submitted,
            final(self).shutdown_requested == old(self).shutdown_requested,
            final(self).pending_slot_jobs@ == old(self).pending_slot_jobs@,
            final(self).teardown_procedure_jobs@ == old(self).teardown_procedure_jobs@,
            final(self).pending_delayed_retries@ == old(self).pending_delayed_retries@,
    {
        self.worker_state.assign_job(worker_id, job_id)
    }

    /// Records a finished job: completed, with its result, and its worker
    /// released.
    pub fn complete_job(&mut self, job_id: JobId, result: JobResult)
        ensures
            same_settings(*old(self), *final(self)),
            final(self).completed_jobs@ == old(self).completed_jobs@.insert(job_id),
            final(self).job_results@ == old(self).job_results@.insert(job_id, result),
            final(self).worker_state.assignment() == released(old(self).worker_state.assignment(), job_id),
            final(self).job_queue@ == old(self).job_queue@,
            final(self).job_info@ == old(self).job_info@,
            slot_view(final(self).job_to_slot@) == slot_view(old(self).job_to_slot@),
            final(self).original_jobs_completed == old(self).original_jobs_completed,
            final(self).total_jobs_submitted == old(self).total_jobs_submitted,
            final(self).shutdown_requested == old(self).shutdown_requested,
            final(self).pending_slot_jobs@ == old(self).pending_slot_jobs@,
            final(self).teardown_procedure_jobs@ == old(self).teardown_procedure_jobs@,
            final(self).pending_delayed_retries@ == old(self).pending_delayed_retries@,
    {
        self.completed_jobs.insert(job_id);
        self.job_results.insert(job_id, result);
        self.worker_state.release_by_job(job_id);
    }

    /// Records a finished first attempt.
    pub fn complete_original_job(&mut self, job_id: JobId, result: JobResult)
        requires
            old(self).original_jobs_completed < usize::MAX,
        ensures
            same_settings(*old(self), *final(self)),
            final(self).completed_jobs@ == old(self).completed_jobs@.insert(job_id),
            final(self).job_results@ == old(self).job_results@.insert(job_id, result),
            final(self).worker_state.assignment() == released(old(self).worker_state.assignment(), job_id),
            final(self).original_jobs_completed == old(self).original_jobs_completed + 1,
            final(self).job_queue@ == old(self).job_queue@,
            final(self).job_info@ == old(self).job_info@,
            slot_view(final(self).job_to_slot@) == slot_view(old(self).job_to_slot@),
            final(self).total_jobs_submitted == old(self).total_jobs_submitted,
            final(self).shutdown_requested == old(self).shutdown_requested,
            final(self).pending_slot_jobs@ == old(self).pending_slot_jobs@,
            final(self).teardown_procedure_jobs@ == old(self).teardown_procedure_jobs@,
            final(self).pending_delayed_retries@ == old(self).pending_delayed_retries@,
    {
        self.complete_job(job_id, result);
        self.original_jobs_completed = self.original_jobs_completed + 1;
    }

    /// Records a finished first attempt together with its report entry.
    pub fn complete_job_with_info(
        &mut self,
        job_id: JobId,
        phase_key: String,
        phase_name: String,
        slot_id: Option<String>,
        result: JobResult,
    )
        requires
            old(self).original_jobs_completed < usize::MAX,
        ensures
            final(self).job_info@ == old(self).job_info@.insert(
                job_id,
                JobInfo { phase_key, phase_name, slot_id },
            ),
            final(self).completed_jobs@ == old(self).completed_jobs@.insert(job_id),
            final(self).job_results@ == old(self).job_results@.insert(job_id, result),
            final(self).worker_state.assignment() == released(old(self).worker_state.assignment(), job_id),
            final(self).original_jobs_completed == old(self).original_jobs_completed + 1,
            final(self).job_queue@ == old(self).job_queue@,
            slot_view(final(self).job_to_slot@) == slot_view(old(self).job_to_slot@),
            final(self).total_jobs_submitted == old(self).total_jobs_submitted,
            final(self).shutdown_requested == old(self).shutdown_requested,
            final(self).pending_slot_jobs@ == old(self).pending_slot_jobs@,
            final(self).teardown_procedure_jobs@ == old(self).teardown_procedure_jobs@,
            final(self).pending_delayed_retries@ == old(self).pending_delayed_retries@,
    {
        self.job_info.insert(job_id, JobInfo { phase_key, phase_name, slot_id });
        self.complete_original_job(job_id, result);
    }

    /// Releases the worker of a job without completing the job.
    pub fn remove_active_job(&mut self, job_id: &JobId)
        ensures
            same_settings(*old(self), *final(self)),
            final(self).worker_state.assignment() == released(old(self).worker_state.assignment(), *job_id),
            final(self).completed_jobs@ == old(self).completed_jobs@,
            final(self).job_results@ == old(self).job_results@,
            final(self).job_queue@ == old(self).job_queue@,
    {
        self.worker_state.release_by_job(*job_id);
    }

    /// Queues a job at the back, counting it as submitted.
    pub fn enqueue_job(&mut self, job: Job)
        requires
            old(self).total_jobs_submitted < usize::MAX,
        ensures
            same_settings(*old(self), *final(self)),
            final(self).job_queue@ == old(self).job_queue@.push(job),
            slot_view(final(self).job_to_slot@) == track_slot(slot_view(old(self).job_to_slot@), job),
            final(self).total_jobs_submitted == old(self).total_jobs_submitted + 1,
            final(self).completed_jobs@ == old(self).completed_jobs@,
            final(self).job_results@ == old(self).job_results@,
            final(self).job_info@ == old(self).job_info@,
            final(self).worker_state == old(self).worker_state,
            final(self).original_jobs_completed == old(self).original_jobs_completed,
            final(self).shutdown_requested == old(self).shutdown_requested,
            final(self).pending_slot_jobs@ == old(self).pending_slot_jobs@,
            final(self).teardown_procedure_jobs@ == old(self).teardown_procedure_jobs@,
            final(self).pending_delayed_retries@ == old(self).pending_delayed_retries@,
    {
        self.track_job_slot(&job);
        self.job_queue.push(job);
        self.total_jobs_submitted = self.total_jobs_submitted + 1;
    }

    /// Queues a retry at the front; retries are not counted as submitted.
    pub fn enqueue_retry_job(&mut self, job: Job)
        ensures
            same_settings(*old(self), *final(self)),
            final(self).job_queue@ == old(self).job_queue@.insert(0, job),
            slot_view(final(self).job_to_slot@) == track_slot(slot_view(old(self).job_to_slot@), job),
            final(self).total_jobs_submitted == old(self).total_jobs_submitted,
            final(self).completed_jobs@ == old(self).completed_jobs@,
            final(self).job_results@ == old(self).job_results@,
            final(self).job_info@ == old(self).job_info@,
            final(self).worker_state == old(self).worker_state,
            final(self).original_jobs_completed == old(self).original_jobs_completed,
            final(self).shutdown_requested == old(self).shutdown_requested,
            final(self).pending_slot_jobs@ == old(self).pending_slot_jobs@,
            final(self).teardown_procedure_jobs@ == old(self).teardown_procedure_jobs@,
            final(self).pending_delayed_retries@ == old(self).pending_delayed_retries@,
    {
        self.track_job_slot(&job);
        self.job_queue.insert(0, job);
    }

    fn track_job_slot(&mut self, job: &Job)
        ensures
            same_settings(*old(self), *final(self)),
            slot_view(final(self).job_to_slot@) == track_slot(slot_view(old(self).job_to_slot@), *job),
            final(self).job_queue@ == old(self).job_queue@,
            final(self).completed_jobs@ == old(self).completed_jobs@,
            final(self).job_results@ == old(self).job_results@,
            final(self).job_info@ == old(self).job_info@,
            final(self).worker_state == old(self).worker_state,
            final(self).total_jobs_submitted == old(self).total_jobs_submitted,
            final(self).original_jobs_completed == old(self).original_jobs_completed,
            final(self).shutdown_requested == old(self).shutdown_requested,
            final(self).pending_slot_jobs@ == old(self).pending_slot_jobs@,
            final(self).teardown_procedure_jobs@ == old(self).teardown_procedure_jobs@,
            final(self).pending_delayed_retries@ == old(self).pending_delayed_retries@,
    {
        if let Some(slot) = &job.slot_id {
            self.job_to_slot.insert(job.id, slot.clone());
            assert(slot_view(self.job_to_slot@) =~= slot_view(old(self).job_to_slot@).insert(job.id, slot@));
        }
    }

    /// The workers, in order, that run a job of the given slot.
    pub fn get_workers_for_slot(&self, slot_id: &str) -> (r: Vec<usize>)
        ensures
            r@ == slot_workers(self.worker_state.assignment(), slot_view(self.job_to_slot@), slot_id@),
    {
        let mut workers: Vec<usize> = Vec::new();
        let n = self.worker_state.num_workers();
        let mut w: usize = 0;
        while w < n
            invariant
                n == self.worker_state.assignment().len(),
                w <= n,
                workers@ == slot_workers(
                    self.worker_state.assignment().subrange(0, w as int),
                    slot_view(self.job_to_slot@),
                    slot_id@,
                ),
            decreases n - w,
        {
            let ghost a = self.worker_state.assignment();
            proof {
                assert(a.subrange(0, w + 1).drop_last() =~= a.subrange(0, w as int));
            }
            if let Some(job_id) = self.worker_state.get_worker_job(w) {
                match self.job_to_slot.get(&job_id) {
                    Some(s) => {
                        if str_eq(s.as_str(), slot_id) {
                            workers.push(w);
                        }
                    },
                    None => {},
                }
            }
            w = w + 1;
        }
        assert(self.worker_state.assignment().subrange(0, n as int) =~= self.worker_state.assignment());
        workers
    }

    /// Takes the jobs that a cancellation (of one slot, or of everything)
    /// removes out of the queue, keeping the rest in order.
    pub(crate) fn take_cancelled(&mut self, slot: Option<&str>) -> (c: Vec<Job>)
        ensures
            same_settings(*old(self), *final(self)),
            c@ == cancelled_part(old(self).job_queue@, opt_str(slot)),
            final(self).job_queue@ == kept_part(old(self).job_queue@, opt_str(slot)),
            final(self).completed_jobs@ == old(self).completed_jobs@,
            final(self).job_results@ == old(self).job_results@,
            final(self).job_info@ == old(self).job_info@,
            final(self).worker_state == old(self).worker_state,
            final(self).original_jobs_completed == old(self).original_jobs_completed,
            final(self).total_jobs_submitted == old(self).total_jobs_submitted,
            final(self).shutdown_requested == old(self).shutdown_requested,
            slot_view(final(self).job_to_slot@) == slot_view(old(self).job_to_slot@),
            final(self).pending_slot_jobs@ == old(self).pending_slot_jobs@,
            final(self).teardown_procedure_jobs@ == old(self).teardown_procedure_jobs@,
            final(self).pending_delayed_retries@ == old(self).pending_delayed_retries@,
    {
        let mut rest: Vec<Job> = Vec::new();
        std::mem::swap(&mut rest, &mut self.job_queue);
        let ghost all = rest@;
        let total = rest.len();
        let mut kept: Vec<Job> = Vec::new();
        let mut cancelled: Vec<Job> = Vec::new();
        let mut i: usize = 0;
        while rest.len() > 0
            invariant
                all == old(self).job_queue@,
                all.len() == total,
                all == all.subrange(0, i as int) + rest@,
                i + rest@.len() == all.len(),
                kept@ == kept_part(all.subrange(0, i as int), opt_str(slot)),
                cancelled@ == cancelled_part(all.subrange(0, i as int), opt_str(slot)),
            decreases rest@.len(),
        {
            let job = rest.remove(0);
            proof {
                assert(all.subrange(0, i + 1).drop_last() =~= all.subrange(0, i as int));
                assert(all.subrange(0, i + 1).last() == job);
                assert(all =~= all.subrange(0, i + 1) + rest@);
            }
            let takes = !is_teardown_stage(job.stage_scope) && match slot {
                Some(s) => match &job.slot_id {
                    Some(id) => str_eq(id.as_str(), s),
                    None => false,
                },
                None => true,
            };
            assert(takes == cancels(job, opt_str(slot)));
            if takes {
                cancelled.push(job);
            } else {
                kept.push(job);
            }
            i = i + 1;
        }
        assert(all.subrange(0, i as int) =~= all);
        self.job_queue = kept;
        cancelled
    }

    /// Records cancelled jobs as completed and skipped, each with its report
    /// entry, and releases any worker they held.
    fn record_cancelled(&mut self, cancelled: &Vec<Job>)
        requires
            old(self).original_jobs_completed + cancelled@.len() <= usize::MAX,
        ensures
            same_settings(*old(self), *final(self)),
            records_cancelled(*old(self), *final(self), cancelled@),
            final(self).job_queue@ == old(self).job_queue@,
            final(self).total_jobs_submitted == old(self).total_jobs_submitted,
            final(self).shutdown_requested == old(self).shutdown_requested,
            slot_view(final(self).job_to_slot@) == slot_view(old(self).job_to_slot@),
            final(self).pending_slot_jobs@ == old(self).pending_slot_jobs@,
            final(self).teardown_procedure_jobs@ == old(self).teardown_procedure_jobs@,
            final(self).pending_delayed_retries@ == old(self).pending_delayed_retries@,
    {
        let mut i: usize = 0;
        proof {
            assert(cancelled@.subrange(0, 0) =~= Seq::<Job>::empty());
        }
        while i < cancelled.len()
            invariant
                i <= cancelled@.len(),
                old(self).original_jobs_completed + cancelled@.len() <= usize::MAX,
                records_cancelled(*old(self), *self, cancelled@.subrange(0, i as int)),
                same_settings(*old(self), *self),
                first_attempts(cancelled@.subrange(0, i as int)) <= i,
                self.job_queue@ == old(self).job_queue@,
                self.total_jobs_submitted == old(self).total_jobs_submitted,
                self.shutdown_requested == old(self).shutdown_requested,
                slot_view(self.job_to_slot@) == slot_view(old(self).job_to_slot@),
                self.pending_slot_jobs@ == old(self).pending_slot_jobs@,
                self.teardown_procedure_jobs@ == old(self).teardown_procedure_jobs@,
                self.pending_delayed_retries@ == old(self).pending_delayed_retries@,
            decreases cancelled@.len() - i,
        {
            let job = &cancelled[i];
            let ghost prefix = cancelled@.subrange(0, i as int);
            let ghost next = cancelled@.subrange(0, i + 1);
            proof {
                assert(next.drop_last() =~= prefix);
                assert(next.last() == *job);
            }
            let ghost before = *self;
            let mut result = JobResult::bare(PhaseResult::Skip, Outcome::Skip, now_millis());
            result.retry_count = job.retry_count;
            let info = JobInfo {
                phase_key: job.phase_key.clone(),
                phase_name: job.phase_name.clone(),
                slot_id: copy_opt_text(&job.slot_id),
            };
            assert(info@ == info_of(*job));
            self.job_info.insert(job.id, info);
            if job.retry_count == 0 {
                self.complete_original_job(job.id, result);
            } else {
                self.complete_job(job.id, result);
            }
            proof {
                assert forall|k: JobId| #[trigger] last_with_id(next, k) == (if k == job.id {
                    Some(*job)
                } else {
                    last_with_id(prefix, k)
                }) by {}
                assert(first_attempts(next) == first_attempts(prefix) + if job.retry_count == 0 { 1nat } else { 0nat });
                assert(release_each(old(self).worker_state.assignment(), next) == released(
                    release_each(old(self).worker_state.assignment(), prefix),
                    job.id,
                ));
            }
            i = i + 1;
        }
        assert(cancelled@.subrange(0, i as int) =~= cancelled@);
    }

    /// Cancels the queued jobs of a slot, except its teardown phases, and
    /// records them as skipped. Returns them in queue order.
    pub fn cancel_slot_jobs(&mut self, slot_id: &str) -> (c: Vec<Job>)
        requires
            old(self).original_jobs_completed + old(self).job_queue@.len() <= usize::MAX,
        ensures
            same_settings(*old(self), *final(self)),
            c@ == cancelled_part(old(self).job_queue@, Some(slot_id@)),
            final(self).job_queue@ == kept_part(old(self).job_queue@, Some(slot_id@)),
            records_cancelled(*old(self), *final(self), c@),
            final(self).total_jobs_submitted == old(self).total_jobs_submitted,
            final(self).shutdown_requested == old(self).shutdown_requested,
            slot_view(final(self).job_to_slot@) == slot_view(old(self).job_to_slot@),
            final(self).pending_slot_jobs@ == old(self).pending_slot_jobs@,
            final(self).teardown_procedure_jobs@ == old(self).teardown_procedure_jobs@,
            final(self).pending_delayed_retries@ == old(self).pending_delayed_retries@,
    {
        proof { lemma_cancel_partition(old(self).job_queue@, Some(slot_id@)); }
        let c = self.take_cancelled(Some(slot_id));
        let ghost mid = *self;
        self.record_cancelled(&c);
        proof { lemma_records_cancelled_frame(*old(self), mid, *self, c@); }
        c
    }

    /// Cancels every queued job except teardown phases and records them as
    /// skipped; requests shutdown when nothing is left in the queue. Returns
    /// the cancelled jobs in queue order.
    pub fn cancel_all_jobs(&mut self, reason: &str) -> (c: Vec<Job>)
        requires
            old(self).original_jobs_completed + old(self).job_queue@.len() <= usize::MAX,
        ensures
            same_settings(*old(self), *final(self)),
            c@ == cancelled_part(old(self).job_queue@, None),
            final(self).job_queue@ == kept_part(old(self).job_queue@, None),
            records_cancelled(*old(self), *final(self), c@),
            final(self).shutdown_requested == (old(self).shutdown_requested || final(self).job_queue@.len()
                == 0),
            final(self).total_jobs_submitted == old(self).total_jobs_submitted,
            slot_view(final(self).job_to_slot@) == slot_view(old(self).job_to_slot@),
            final(self).pending_slot_jobs@ == old(self).pending_slot_jobs@,
            final(self).teardown_procedure_jobs@ == old(self).teardown_procedure_jobs@,
            final(self).pending_delayed_retries@ == old(self).pending_delayed_retries@,
    {
        proof { lemma_cancel_partition(old(self).job_queue@, None); }
        let c = self.take_cancelled(None);
        let ghost mid = *self;
        self.record_cancelled(&c);
        proof { lemma_records_cancelled_frame(*old(self), mid, *self, c@); }
        if self.job_queue.len() == 0 {
            self.shutdown_requested = true;
        }
        c
    }

    /// Queues jobs at the back in order, counting each as submitted.
    pub fn enqueue_all(&mut self, jobs: Vec<Job>)
        requires
            old(self).total_jobs_submitted + jobs@.len() <= usize::MAX,
        ensures
            same_settings(*old(self), *final(self)),
            final(self).job_queue@ == old(self).job_queue@ + jobs@,
            final(self).total_jobs_submitted == old(self).total_jobs_submitted + jobs@.len(),
            slot_view(final(self).job_to_slot@) == track_slots(slot_view(old(self).job_to_slot@), jobs@),
            final(self).completed_jobs@ == old(self).completed_jobs@,
            final(self).job_results@ == old(self).job_results@,
            final(self).job_info@ == old(self).job_info@,
            final(self).worker_state == old(self).worker_state,
            final(self).original_jobs_completed == old(self).original_jobs_completed,
            final(self).shutdown_requested == old(self).shutdown_requested,
            final(self).pending_slot_jobs@ == old(self).pending_slot_jobs@,
            final(self).teardown_procedure_jobs@ == old(self).teardown_procedure_jobs@,
            final(self).pending_delayed_retries@ == old(self).pending_delayed_retries@,
    {
        let mut rest = jobs;
        let ghost all = rest@;
        let total = rest.len();
        let mut i: usize = 0;
        while rest.len() > 0
            invariant
                all.len() == total,
                all == all.subrange(0, i as int) + rest@,
                i + rest@.len() == all.len(),
                old(self).total_jobs_submitted + all.len() <= usize::MAX,
                self.job_queue@ == old(self).job_queue@ + all.subrange(0, i as int),
                same_settings(*old(self), *self),
                self.total_jobs_submitted == old(self).total_jobs_submitted + i,
                slot_view(self.job_to_slot@) == track_slots(slot_view(old(self).job_to_slot@), all.subrange(0, i as int)),
                self.completed_jobs@ == old(self).completed_jobs@,
                self.job_results@ == old(self).job_results@,
                self.job_info@ == old(self).job_info@,
                self.worker_state == old(self).worker_state,
                self.original_jobs_completed == old(self).original_jobs_completed,
                self.shutdown_requested == old(self).shutdown_requested,
                self.pending_slot_jobs@ == old(self).pending_slot_jobs@,
                self.teardown_procedure_jobs@ == old(self).teardown_procedure_jobs@,
                self.pending_delayed_retries@ == old(self).pending_delayed_retries@,
            decreases rest@.len(),
        {
            let job = rest.remove(0);
            proof {
                assert(all.subrange(0, i + 1).drop_last() =~= all.subrange(0, i as int));
                assert(all.subrange(0, i + 1).last() == job);
                assert(all =~= all.subrange(0, i + 1) + rest@);
                assert(old(self).job_queue@ + all.subrange(0, i + 1) =~= (old(self).job_queue@ + all.subrange(0, i as int)).push(job));
            }
            self.enqueue_job(job);
            i = i + 1;
        }
        assert(all.subrange(0, i as int) =~= all);
    }

    /// Slot-first execution: once the current work is done (nothing queued,
    /// running or waiting to be retried), queues the next slot's jobs, or,
    /// after the last slot, the shared teardown. Returns whether it queued
    /// anything; nothing is queued once shutdown was requested.
    pub fn check_and_queue_next_slot(&mut self) -> (queued: bool)
        requires
            old(self).total_jobs_submitted + (if old(self).pending_slot_jobs@.len() > 0 {
                old(self).pending_slot_jobs@[0].1@.len()
            } else {
                old(self).teardown_procedure_jobs@.len()
            }) <= usize::MAX,
        ensures
            same_settings(*old(self), *final(self)),
            queued == (!old(self).shutdown_requested && work_drained(*old(self)) && (old(self).pending_slot_jobs@.len() > 0
                || old(self).teardown_procedure_jobs@.len() > 0)),
            (exists|w: int| 0 <= w < old(self).worker_state.assignment().len()
                && (#[trigger] old(self).worker_state.assignment()[w]) is Some) ==> !queued,
            queued && old(self).pending_slot_jobs@.len() > 0 ==> {
                &&& final(self).job_queue@ == old(self).pending_slot_jobs@[0].1@
                &&& final(self).pending_slot_jobs@ == old(self).pending_slot_jobs@.drop_first()
                &&& final(self).teardown_procedure_jobs@ == old(self).teardown_procedure_jobs@
                &&& final(self).total_jobs_submitted == old(self).total_jobs_submitted + old(self).pending_slot_jobs@[0].1@.len()
                &&& slot_view(final(self).job_to_slot@) == track_slots(slot_view(old(self).job_to_slot@), old(self).pending_slot_jobs@[0].1@)
            },
            queued && old(self).pending_slot_jobs@.len() == 0 ==> {
                &&& final(self).job_queue@ == old(self).teardown_procedure_jobs@
                &&& final(self).teardown_procedure_jobs@.len() == 0
                &&& final(self).pending_slot_jobs@ == old(self).pending_slot_jobs@
                &&& final(self).total_jobs_submitted == old(self).total_jobs_submitted + old(self).teardown_procedure_jobs@.len()
                &&& slot_view(final(self).job_to_slot@) == track_slots(slot_view(old(self).job_to_slot@), old(self).teardown_procedure_jobs@)
            },
            !queued ==> {
                &&& final(self).job_queue@ == old(self).job_queue@
                &&& final(self).pending_slot_jobs@ == old(self).pending_slot_jobs@
                &&& final(self).teardown_procedure_jobs@ == old(self).teardown_procedure_jobs@
                &&& final(self).total_jobs_submitted == old(self).total_jobs_submitted
                &&& slot_view(final(self).job_to_slot@) == slot_view(old(self).job_to_slot@)
            },
            final(self).completed_jobs@ == old(self).completed_jobs@,
            final(self).job_results@ == old(self).job_results@,
            final(self).worker_state == old(self).worker_state,
            final(self).shutdown_requested == old(self).shutdown_requested,
            final(self).pending_delayed_retries@ == old(self).pending_delayed_retries@,
    {
        proof {
            if exists|w: int| 0 <= w < old(self).worker_state.assignment().len()
                && (#[trigger] old(self).worker_state.assignment()[w]) is Some {
                let w = choose|w: int| 0 <= w < old(self).worker_state.assignment().len()
                    && (#[trigger] old(self).worker_state.assignment()[w]) is Some;
                lemma_busy_worker_blocks_next_slot(*old(self), w);
            }
        }
        if self.shutdown_requested {
            return false;
        }
        let drained = self.job_queue.len() == 0 && self.worker_state.count_busy() == 0
            && self.pending_delayed_retries.len() == 0;
        if self.pending_slot_jobs.len() == 0 {
            if self.teardown_procedure_jobs.len() > 0 && drained {
                let mut teardown: Vec<Job> = Vec::new();
                std::mem::swap(&mut teardown, &mut self.teardown_procedure_jobs);
                self.enqueue_all(teardown);
                assert(old(self).job_queue@ + old(self).teardown_procedure_jobs@ =~= old(self).teardown_procedure_jobs@);
                return true;
            }
            return false;
        }
        if drained {
            let (_slot_id, jobs) = self.pending_slot_jobs.remove(0);
            assert(old(self).pending_slot_jobs@.remove(0) =~= old(self).pending_slot_jobs@.drop_first());
            let ghost js = jobs@;
            self.enqueue_all(jobs);
            assert(old(self).job_queue@ + js =~= js);
            return true;
        }
        false
    }

    /// Whether a main phase of the slot is still queued.
    fn has_queued_main(&self, slot_id: &str) -> (b: bool)
        ensures
            b == queued_main(self.job_queue@, slot_id@),
    {
        let mut k: usize = 0;
        while k < self.job_queue.len()
            invariant
                k <= self.job_queue@.len(),
                forall|x: int| 0 <= x < k ==> !is_slot_main(#[trigger] self.job_queue@[x], slot_id@),
            decreases self.job_queue@.len() - k,
        {
            let job = &self.job_queue[k];
            let same_slot = match &job.slot_id {
                Some(id) => str_eq(id.as_str(), slot_id),
                None => false,
            };
            if same_slot && matches!(job.stage_scope, StageScope::Main) {
                assert(is_slot_main(self.job_queue@[k as int], slot_id@));
                return true;
            }
            k = k + 1;
        }
        false
    }

    /// Whether a worker runs a job of the slot.
    fn has_running_slot_job(&self, slot_id: &str) -> (b: bool)
        ensures
            b == slot_running(self.worker_state.assignment(), slot_view(self.job_to_slot@), slot_id@),
    {
        let workers = self.get_workers_for_slot(slot_id);
        proof {
            lemma_slot_workers(self.worker_state.assignment(), slot_view(self.job_to_slot@), slot_id@);
        }
        workers.len() > 0
    }

    /// Takes out of the queue the first job that can start now: its
    /// dependencies have completed; a slot teardown waits while main phases
    /// of its slot are queued or jobs of its slot run; and the plugs it needs
    /// are available (`plugs_available` is asked only for jobs that need
    /// plugs).
    pub fn get_next_ready_job(&mut self, plugs_available: impl Fn(&Vec<String>) -> bool) -> (r: Option<Job>)
        requires
            forall|p: &Vec<String>| #[trigger] plugs_available.requires((p,)),
        ensures
            same_settings(*old(self), *final(self)),
            final(self).completed_jobs@ == old(self).completed_jobs@,
            final(self).worker_state == old(self).worker_state,
            slot_view(final(self).job_to_slot@) == slot_view(old(self).job_to_slot@),
            picked(*old(self), *final(self), plugs_available, r),
            final(self).job_results@ == old(self).job_results@,
            final(self).job_info@ == old(self).job_info@,
            final(self).total_jobs_submitted == old(self).total_jobs_submitted,
            final(self).original_jobs_completed == old(self).original_jobs_completed,
            final(self).shutdown_requested == old(self).shutdown_requested,
            final(self).pending_slot_jobs@ == old(self).pending_slot_jobs@,
            final(self).teardown_procedure_jobs@ == old(self).teardown_procedure_jobs@,
            final(self).pending_delayed_retries@ == old(self).pending_delayed_retries@,
    {
        let mut i: usize = 0;
        while i < self.job_queue.len()
            invariant
                *self == *old(self),
                i <= self.job_queue@.len(),
                forall|p: &Vec<String>| #[trigger] plugs_available.requires((p,)),
                forall|k: int| 0 <= k < i ==> !schedulable(*old(self), #[trigger] old(self).job_queue@[k])
                    || plugs_ok(plugs_available, old(self).job_queue@[k], false),
            decreases self.job_queue@.len() - i,
        {
            let job = &self.job_queue[i];
            let mut ready = job.dependencies_satisfied(&self.completed_jobs);
            if ready && matches!(job.stage_scope, StageScope::TeardownEach) {
                if let Some(slot) = &job.slot_id {
                    if self.has_queued_main(slot.as_str()) || self.has_running_slot_job(slot.as_str()) {
                        ready = false;
                    }
                }
            }
            assert(ready == schedulable(*old(self), old(self).job_queue@[i as int]));
            if ready && job.required_plugs.len() > 0 {
                let available = plugs_available(&job.required_plugs);
                if !available {
                    ready = false;
                }
            }
            if ready {
                let job = self.job_queue.remove(i);
                return Some(job);
            }
            i = i + 1;
        }
        None
    }
}

} // verus!
