//! The decisions of the execution loop: when to stop waiting for jobs, and
//! what to announce once a stop was requested.

use vstd::prelude::*;
use crate::ids::JobId;
use crate::job::result_stops_test;
use crate::state::{execution_complete, slot_view, OrchestratorState};
use crate::statistics::{any_stop, counted};
use crate::worker_state::busy_count;
use vstd::std_specs::iter::IteratorSpec;

verus! {

broadcast use vstd::std_specs::hash::group_hash_axioms;

/// What the execution loop does next.
#[derive(Clone, Copy, Debug, PartialEq, Eq, Structural)]
pub enum LoopStep {
    /// A force kill was requested: leave at once.
    ForceKilled,
    /// Execution is over.
    Finished,
    /// Wait for the next completion or scheduling round.
    Continue,
}

/// The next step, and whether the stop must now be announced (running jobs
/// as stopping, queued ones as skipped).
pub struct LoopDecision {
    pub step: LoopStep,
    pub announce_stop: bool,
}

/// Whether a stop is under way: a shutdown was requested, or a result stops
/// the test.
pub open spec fn stopping(s: OrchestratorState) -> bool {
    s.shutdown_requested || any_stop(s.job_results@, slot_view(s.job_to_slot@), None)
}

/// Whether some recorded result stops the test.
pub fn any_result_stops(state: &OrchestratorState) -> (b: bool)
    ensures
        b == any_stop(state.job_results@, slot_view(state.job_to_slot@), None),
{
    let ghost m = state.job_results@;
    let ghost slots = slot_view(state.job_to_slot@);
    let ghost v = vstd::std_specs::hash::spec_hash_map_iter(&state.job_results).remaining();
    proof {
        vstd::std_specs::hash::axiom_spec_hash_map_iter(&state.job_results);
    }
    let ghost mut seen: int = 0;
    let mut found = false;
    for (k, r) in it: state.job_results.iter()
        invariant
            m == state.job_results@,
            slots == slot_view(state.job_to_slot@),
            v == vstd::std_specs::hash::spec_hash_map_iter(&state.job_results).remaining(),
            it.seq() == v,
            seen == it.index(),
            0 <= seen <= v.len(),
            forall|i: int| 0 <= i < v.len() ==> m.contains_key(*v[i].0) && m[*v[i].0] == *v[i].1,
            forall|x: JobId| #[trigger] m.contains_key(x) ==> v.contains((&x, &m[x])),
            found == exists|i: int| 0 <= i < seen && #[trigger] counted(v[i], slots, None) && result_stops_test(*v[i].1),
    {
        assert(counted(v[seen], slots, None));
        assert(v[seen] == (k, r));
        if r.should_stop_test() {
            found = true;
        }
        proof {
            seen = seen + 1;
        }
    }
    proof {
        if any_stop(m, slots, None) {
            let k = choose|k: JobId| #[trigger] m.contains_key(k) && crate::statistics::in_scope(slots, k, None) && result_stops_test(m[k]);
            let i = choose|i: int| 0 <= i < v.len() && v[i] == (&k, &m[k]);
            assert(counted(v[i], slots, None));
        }
        if found {
            let i = choose|i: int| 0 <= i < v.len() && #[trigger] counted(v[i], slots, None) && result_stops_test(*v[i].1);
            assert(m.contains_key(*v[i].0));
        }
    }
    found
}

/// Decides the loop's next step: a force kill leaves at once; while
/// stopping, the stop is announced once and the loop ends when nothing runs
/// any more and execution is over; otherwise it ends when execution is
/// over.
pub fn next_loop_step(state: &OrchestratorState, stop_announced: bool) -> (d: LoopDecision)
    ensures
        state.force_kill_requested ==> d.step == LoopStep::ForceKilled && !d.announce_stop,
        !state.force_kill_requested && stopping(*state) ==> {
            &&& d.announce_stop == !stop_announced
            &&& d.step == (if busy_count(state.worker_state.assignment()) == 0 && execution_complete(*state) {
                LoopStep::Finished
            } else {
                LoopStep::Continue
            })
        },
        !state.force_kill_requested && !stopping(*state) ==> {
            &&& !d.announce_stop
            &&& d.step == (if execution_complete(*state) {
                LoopStep::Finished
            } else {
                LoopStep::Continue
            })
        },
{
    if state.force_kill_requested {
        return LoopDecision { step: LoopStep::ForceKilled, announce_stop: false };
    }
    let has_stop = any_result_stops(state);
    let busy = state.worker_state.count_busy();
    if state.shutdown_requested || has_stop {
        let step = if busy == 0 && state.is_complete() {
            LoopStep::Finished
        } else {
            LoopStep::Continue
        };
        LoopDecision { step, announce_stop: !stop_announced }
    } else {
        let step = if state.is_complete() {
            LoopStep::Finished
        } else {
            LoopStep::Continue
        };
        LoopDecision { step, announce_stop: false }
    }
}

/// The positions, in order, of the queued jobs that a stop skips (all but
/// teardown phases).
pub open spec fn skipped_positions(q: Seq<crate::job::Job>) -> Seq<usize>
    decreases q.len(),
{
    if q.len() == 0 {
        Seq::empty()
    } else if q.last().stage_scope.is_teardown() {
        skipped_positions(q.drop_last())
    } else {
        skipped_positions(q.drop_last()).push((q.len() - 1) as usize)
    }
}

/// A stop never skips a queued tear-down job: every position it skips is in
/// the queue and holds a job of a stage other than the per-slot and shared
/// tear-down.
pub proof fn lemma_skip_spares_teardown_stages(q: Seq<crate::job::Job>)
    requires
        q.len() <= usize::MAX,
    ensures
        forall|i: int|
            0 <= i < skipped_positions(q).len() ==> {
                let p = #[trigger] skipped_positions(q)[i] as int;
                &&& 0 <= p < q.len()
                &&& q[p].stage_scope != crate::schema::StageScope::TeardownEach
                &&& q[p].stage_scope != crate::schema::StageScope::TeardownAll
            },
    decreases q.len(),
{
    if q.len() > 0 {
        let d = q.drop_last();
        lemma_skip_spares_teardown_stages(d);
        assert forall|i: int| 0 <= i < skipped_positions(q).len() implies {
            let p = #[trigger] skipped_positions(q)[i] as int;
            &&& 0 <= p < q.len()
            &&& q[p].stage_scope != crate::schema::StageScope::TeardownEach
            &&& q[p].stage_scope != crate::schema::StageScope::TeardownAll
        } by {
            if q.last().stage_scope.is_teardown() {
                assert(skipped_positions(q) == skipped_positions(d));
                let p = skipped_positions(d)[i] as int;
                assert(q[p] == d[p]);
            } else {
                assert(skipped_positions(q) == skipped_positions(d).push((q.len() - 1) as usize));
                if i < skipped_positions(d).len() {
                    let p = skipped_positions(d)[i] as int;
                    assert(q[p] == d[p]);
                } else {
                    assert(q[q.len() - 1] == q.last());
                }
            }
        }
    }
}

/// The positions of the queued jobs that a stop skips.
pub fn jobs_to_skip(state: &OrchestratorState) -> (r: Vec<usize>)
    ensures
        r@ == skipped_positions(state.job_queue@),
{
    let mut r: Vec<usize> = Vec::new();
    let mut i: usize = 0;
    while i < state.job_queue.len()
        invariant
            i <= state.job_queue@.len(),
            r@ == skipped_positions(state.job_queue@.subrange(0, i as int)),
        decreases state.job_queue@.len() - i,
    {
        proof {
            assert(state.job_queue@.subrange(0, i + 1).drop_last() =~= state.job_queue@.subrange(0, i as int));
        }
        if !crate::schema::is_teardown_stage(state.job_queue[i].stage_scope) {
            r.push(i);
        }
        i = i + 1;
    }
    assert(state.job_queue@.subrange(0, i as int) =~= state.job_queue@);
    r
}

/// The running jobs that have a report entry, by worker, in worker order.
pub open spec fn announced_running(a: Seq<Option<JobId>>, info: Map<JobId, crate::state::JobInfo>) -> Seq<(usize, JobId)>
    decreases a.len(),
{
    if a.len() == 0 {
        Seq::empty()
    } else {
        let rest = announced_running(a.drop_last(), info);
        match a.last() {
            Some(id) => if info.contains_key(id) {
                rest.push(((a.len() - 1) as usize, id))
            } else {
                rest
            },
            None => rest,
        }
    }
}

/// The running jobs that a stop announces as stopping: each busy worker
/// whose job has a report entry.
pub fn running_jobs_to_announce(state: &OrchestratorState) -> (r: Vec<(usize, JobId)>)
    ensures
        r@ == announced_running(state.worker_state.assignment(), state.job_info@),
{
    let n = state.worker_state.num_workers();
    let mut r: Vec<(usize, JobId)> = Vec::new();
    let mut w: usize = 0;
    while w < n
        invariant
            n == state.worker_state.assignment().len(),
            w <= n,
            r@ == announced_running(state.worker_state.assignment().subrange(0, w as int), state.job_info@),
        decreases n - w,
    {
        let ghost a = state.worker_state.assignment();
        proof {
            assert(a.subrange(0, w + 1).drop_last() =~= a.subrange(0, w as int));
        }
        if let Some(id) = state.worker_state.get_worker_job(w) {
            if state.job_info.contains_key(&id) {
                r.push((w, id));
            }
        }
        w = w + 1;
    }
    assert(state.worker_state.assignment().subrange(0, n as int) =~= state.worker_state.assignment());
    r
}

} // verus!
