//! Run statistics and the outcome of a run or of one slot.

use vstd::prelude::*;
use std::collections::HashMap;
use crate::ids::JobId;
use crate::job::{result_is_failure, result_stops_test, JobResult, Outcome};
use crate::state::{execution_complete, slot_view, OrchestratorState};
use crate::worker_state::busy_count;
use vstd::std_specs::iter::IteratorSpec;

verus! {

broadcast use vstd::std_specs::hash::group_hash_axioms;

/// Whether a recorded job belongs to the scope: the whole run (`None`) or
/// one slot.
pub open spec fn in_scope(slots: Map<JobId, Seq<char>>, k: JobId, scope: Option<Seq<char>>) -> bool {
    match scope {
        None => true,
        Some(s) => slots.contains_key(k) && slots[k] == s,
    }
}

/// Whether some result in scope has an execution error.
pub open spec fn any_error(m: Map<JobId, JobResult>, slots: Map<JobId, Seq<char>>, scope: Option<Seq<char>>) -> bool {
    exists|k: JobId| #[trigger] m.contains_key(k) && in_scope(slots, k, scope) && m[k].error is Some
}

/// Whether some result in scope stops the test.
pub open spec fn any_stop(m: Map<JobId, JobResult>, slots: Map<JobId, Seq<char>>, scope: Option<Seq<char>>) -> bool {
    exists|k: JobId| #[trigger] m.contains_key(k) && in_scope(slots, k, scope) && result_stops_test(m[k])
}

/// Whether some result in scope timed out.
pub open spec fn any_timeout(m: Map<JobId, JobResult>, slots: Map<JobId, Seq<char>>, scope: Option<Seq<char>>) -> bool {
    exists|k: JobId| #[trigger] m.contains_key(k) && in_scope(slots, k, scope) && m[k].timeout_secs is Some
}

/// Whether some result in scope is a failure.
pub open spec fn any_failure(m: Map<JobId, JobResult>, slots: Map<JobId, Seq<char>>, scope: Option<Seq<char>>) -> bool {
    exists|k: JobId| #[trigger] m.contains_key(k) && in_scope(slots, k, scope) && result_is_failure(m[k])
}

/// The outcome of a run (or a slot), by priority: an execution error; then
/// a stop (a shutdown request, or a result that stops the test); then a
/// timeout; then a failure; else a pass.
pub open spec fn aggregate_outcome(
    m: Map<JobId, JobResult>,
    slots: Map<JobId, Seq<char>>,
    scope: Option<Seq<char>>,
    shutdown_requested: bool,
) -> Outcome {
    if any_error(m, slots, scope) {
        Outcome::Error
    } else if shutdown_requested || any_stop(m, slots, scope) {
        Outcome::Stop
    } else if any_timeout(m, slots, scope) {
        Outcome::Timeout
    } else if any_failure(m, slots, scope) {
        Outcome::Fail
    } else {
        Outcome::Pass
    }
}

/// Determines the outcome of the run (`slot` is `None`) or of one slot from
/// the recorded results.
pub fn determine_aggregate_outcome(state: &OrchestratorState, slot: Option<&str>) -> (o: Outcome)
    ensures
        o == aggregate_outcome(
            state.job_results@,
            slot_view(state.job_to_slot@),
            crate::state::opt_str(slot),
            state.shutdown_requested,
        ),
{
    let ghost m = state.job_results@;
    let ghost slots = slot_view(state.job_to_slot@);
    let ghost scope = crate::state::opt_str(slot);
    let mut has_error = false;
    let mut has_stop = false;
    let mut has_timeout = false;
    let mut has_failure = false;
    let ghost v = vstd::std_specs::hash::spec_hash_map_iter(&state.job_results).remaining();
    proof {
        vstd::std_specs::hash::axiom_spec_hash_map_iter(&state.job_results);
    }
    let ghost mut seen: int = 0;
    for (k, r) in it: state.job_results.iter()
        invariant
            m == state.job_results@,
            it.seq() == v,
            seen == it.index(),
            0 <= seen <= v.len(),
            v == vstd::std_specs::hash::spec_hash_map_iter(&state.job_results).remaining(),
            forall|i: int| 0 <= i < v.len() ==> m.contains_key(*v[i].0) && m[*v[i].0] == *v[i].1,
            forall|x: JobId| #[trigger] m.contains_key(x) ==> v.contains((&x, &m[x])),
            slots == slot_view(state.job_to_slot@),
            scope == crate::state::opt_str(slot),
            has_error == exists|i: int| 0 <= i < seen && #[trigger] counted(v[i], slots, scope) && (*v[i].1).error is Some,
            has_stop == exists|i: int| 0 <= i < seen && #[trigger] counted(v[i], slots, scope) && result_stops_test(*v[i].1),
            has_timeout == exists|i: int| 0 <= i < seen && #[trigger] counted(v[i], slots, scope) && (*v[i].1).timeout_secs is Some,
            has_failure == exists|i: int| 0 <= i < seen && #[trigger] counted(v[i], slots, scope) && result_is_failure(*v[i].1),
    {
        let wanted = match slot {
            None => true,
            Some(s) => match state.job_to_slot.get(k) {
                Some(t) => crate::string_map::str_eq(t.as_str(), s),
                None => false,
            },
        };
        assert(wanted == counted(v[seen], slots, scope));
        if wanted {
            if r.error.is_some() {
                has_error = true;
            }
            if r.should_stop_test() {
                has_stop = true;
            }
            if r.timeout_secs.is_some() {
                has_timeout = true;
            }
            if r.is_failure() {
                has_failure = true;
            }
        }
        proof {
            seen = seen + 1;
        }
    }
    proof {
        assert(seen == v.len());
        lemma_scan_matches(m, v, slots, scope);
    }
    if has_error {
        Outcome::Error
    } else if state.shutdown_requested || has_stop {
        Outcome::Stop
    } else if has_timeout {
        Outcome::Timeout
    } else if has_failure {
        Outcome::Fail
    } else {
        Outcome::Pass
    }
}

/// A slot's outcome depends only on the results of the jobs recorded for
/// that slot: two result maps that agree on those jobs give the slot the
/// same outcome, whatever the other slots' or the shared jobs' results are.
pub proof fn lemma_slot_outcome_is_local(
    m1: Map<JobId, JobResult>,
    m2: Map<JobId, JobResult>,
    slots: Map<JobId, Seq<char>>,
    s: Seq<char>,
    shutdown_requested: bool,
)
    requires
        forall|k: JobId|
            slots.contains_key(k) && slots[k] == s ==> (#[trigger] m1.contains_key(k) == m2.contains_key(k) && (
            m1.contains_key(k) ==> m1[k] == m2[k])),
    ensures
        aggregate_outcome(m1, slots, Some(s), shutdown_requested) == aggregate_outcome(
            m2,
            slots,
            Some(s),
            shutdown_requested,
        ),
        failed_jobs_in(m1, slots, Some(s)) == failed_jobs_in(m2, slots, Some(s)),
{
    assert(any_error(m1, slots, Some(s)) == any_error(m2, slots, Some(s))) by {
        if any_error(m1, slots, Some(s)) {
            let k = choose|k: JobId| #[trigger] m1.contains_key(k) && in_scope(slots, k, Some(s)) && m1[k].error is Some;
            assert(m2.contains_key(k));
        }
        if any_error(m2, slots, Some(s)) {
            let k = choose|k: JobId| #[trigger] m2.contains_key(k) && in_scope(slots, k, Some(s)) && m2[k].error is Some;
            assert(m1.contains_key(k));
        }
    }
    assert(any_stop(m1, slots, Some(s)) == any_stop(m2, slots, Some(s))) by {
        if any_stop(m1, slots, Some(s)) {
            let k = choose|k: JobId| #[trigger] m1.contains_key(k) && in_scope(slots, k, Some(s)) && result_stops_test(m1[k]);
            assert(m2.contains_key(k));
        }
        if any_stop(m2, slots, Some(s)) {
            let k = choose|k: JobId| #[trigger] m2.contains_key(k) && in_scope(slots, k, Some(s)) && result_stops_test(m2[k]);
            assert(m1.contains_key(k));
        }
    }
    assert(any_timeout(m1, slots, Some(s)) == any_timeout(m2, slots, Some(s))) by {
        if any_timeout(m1, slots, Some(s)) {
            let k = choose|k: JobId| #[trigger] m1.contains_key(k) && in_scope(slots, k, Some(s)) && m1[k].timeout_secs is Some;
            assert(m2.contains_key(k));
        }
        if any_timeout(m2, slots, Some(s)) {
            let k = choose|k: JobId| #[trigger] m2.contains_key(k) && in_scope(slots, k, Some(s)) && m2[k].timeout_secs is Some;
            assert(m1.contains_key(k));
        }
    }
    assert(any_failure(m1, slots, Some(s)) == any_failure(m2, slots, Some(s))) by {
        if any_failure(m1, slots, Some(s)) {
            let k = choose|k: JobId| #[trigger] m1.contains_key(k) && in_scope(slots, k, Some(s)) && result_is_failure(m1[k]);
            assert(m2.contains_key(k));
        }
        if any_failure(m2, slots, Some(s)) {
            let k = choose|k: JobId| #[trigger] m2.contains_key(k) && in_scope(slots, k, Some(s)) && result_is_failure(m2[k]);
            assert(m1.contains_key(k));
        }
    }
    assert(failed_jobs_in(m1, slots, Some(s)) =~= failed_jobs_in(m2, slots, Some(s))) by {
        assert forall|k: JobId| #[trigger] failed_jobs_in(m1, slots, Some(s)).contains(k) == failed_jobs_in(m2, slots, Some(s)).contains(k) by {
            if slots.contains_key(k) && slots[k] == s {
                assert(m1.contains_key(k) == m2.contains_key(k));
            }
        }
    }
}

/// Whether an entry of the results is in scope.
pub open spec fn counted(e: (&JobId, &JobResult), slots: Map<JobId, Seq<char>>, scope: Option<Seq<char>>) -> bool {
    in_scope(slots, *e.0, scope)
}

/// The recorded jobs in scope whose result is a failure.
pub open spec fn failed_jobs_in(m: Map<JobId, JobResult>, slots: Map<JobId, Seq<char>>, scope: Option<Seq<char>>) -> Set<JobId> {
    m.dom().filter(|k: JobId| in_scope(slots, k, scope) && result_is_failure(m[k]))
}

/// Counts the recorded jobs in scope whose result is a failure.
pub fn count_failures(state: &OrchestratorState, slot: Option<&str>) -> (n: usize)
    ensures
        n == failed_jobs_in(state.job_results@, slot_view(state.job_to_slot@), crate::state::opt_str(slot)).len(),
{
    let ghost m = state.job_results@;
    let ghost slots = slot_view(state.job_to_slot@);
    let ghost scope = crate::state::opt_str(slot);
    let ghost v = vstd::std_specs::hash::spec_hash_map_iter(&state.job_results).remaining();
    proof {
        vstd::std_specs::hash::axiom_spec_hash_map_iter(&state.job_results);
    }
    let total = state.job_results.len();
    let ghost mut seen: int = 0;
    let ghost mut found: Seq<JobId> = Seq::empty();
    let mut n: usize = 0;
    for (k, r) in it: state.job_results.iter()
        invariant
            m == state.job_results@,
            it.seq() == v,
            v.no_duplicates(),
            seen == it.index(),
            0 <= seen <= v.len(),
            v == vstd::std_specs::hash::spec_hash_map_iter(&state.job_results).remaining(),
            v.len() == m.dom().len(),
            total == m.dom().len(),
            forall|i: int| 0 <= i < v.len() ==> m.contains_key(*v[i].0) && m[*v[i].0] == *v[i].1,
            forall|x: JobId| #[trigger] m.contains_key(x) ==> v.contains((&x, &m[x])),
            slots == slot_view(state.job_to_slot@),
            scope == crate::state::opt_str(slot),
            n == found.len(),
            found.len() <= seen,
            found.no_duplicates(),
            forall|x: JobId| found.contains(x) <==> exists|i: int| 0 <= i < seen && *v[i].0 == x && #[trigger] counted(v[i], slots, scope) && result_is_failure(*v[i].1),
    {
        let wanted = match slot {
            None => true,
            Some(s) => match state.job_to_slot.get(k) {
                Some(t) => crate::string_map::str_eq(t.as_str(), s),
                None => false,
            },
        };
        assert(wanted == counted(v[seen], slots, scope));
        let ghost old_found = found;
        let ghost take = wanted && result_is_failure(*r);
        assert(v[seen] == (k, r));
        if wanted && r.is_failure() {
            proof {
                if found.contains(*k) {
                    let i = choose|i: int| 0 <= i < seen && *v[i].0 == *k && #[trigger] counted(v[i], slots, scope) && result_is_failure(*v[i].1);
                    assert(v[i] == v[seen]);
                }
                found = found.push(*k);
            }
            n = n + 1;
        }
        proof {
            let old_seen = seen;
            seen = seen + 1;
            assert forall|x: JobId| found.contains(x) <==> (exists|i: int| 0 <= i < seen && *v[i].0 == x && #[trigger] counted(v[i], slots, scope) && result_is_failure(*v[i].1)) by {
                if exists|i: int| 0 <= i < seen && *v[i].0 == x && #[trigger] counted(v[i], slots, scope) && result_is_failure(*v[i].1) {
                    let i = choose|i: int| 0 <= i < seen && *v[i].0 == x && #[trigger] counted(v[i], slots, scope) && result_is_failure(*v[i].1);
                    if i < old_seen {
                        assert(old_found.contains(x));
                        if take {
                            assert(found[old_found.index_of(x)] == x);
                        }
                    } else {
                        assert(found.last() == x);
                    }
                }
                if found.contains(x) {
                    if take && x == *k {
                        assert(*v[old_seen].0 == x && counted(v[old_seen], slots, scope));
                    } else {
                        let j = found.index_of(x);
                        if take {
                            assert(j < old_found.len());
                            assert(old_found[j] == x);
                        }
                        assert(old_found.contains(x));
                    }
                }
            }
        }
    }
    proof {
        let target = failed_jobs_in(m, slots, scope);
        assert(found.to_set() =~= target) by {
            assert forall|x: JobId| found.to_set().contains(x) implies target.contains(x) by {
                assert(found.contains(x));
                let i = choose|i: int| 0 <= i < seen && *v[i].0 == x && #[trigger] counted(v[i], slots, scope) && result_is_failure(*v[i].1);
            }
            assert forall|x: JobId| target.contains(x) implies found.to_set().contains(x) by {
                let i = choose|i: int| 0 <= i < v.len() && v[i] == (&x, &m[x]);
                assert(counted(v[i], slots, scope));
            }
        }
        found.unique_seq_to_set();
    }
    n
}

/// Progress and outcome of a run.
pub struct ExecutionStats {
    /// Jobs submitted (retries not counted; plug steps counted).
    pub total_jobs: usize,
    /// First attempts completed.
    pub completed_jobs: usize,
    pub failed_jobs: usize,
    pub running_jobs: usize,
    pub queued_jobs: usize,
    pub workers_busy: usize,
    pub workers_total: usize,
    /// The run's outcome, once execution is over.
    pub run_outcome: Option<Outcome>,
    /// Each slot's outcome, once execution is over.
    pub slot_outcomes: Vec<(String, Outcome)>,
}

/// Computes the statistics of a run over `workers_total` workers; once
/// execution is over, the outcome of the run and of each listed slot.
pub fn get_stats(state: &OrchestratorState, workers_total: usize, slot_ids: &Vec<String>) -> (st: ExecutionStats)
    ensures
        st.total_jobs == state.total_jobs_submitted,
        st.completed_jobs == state.original_jobs_completed,
        st.failed_jobs == failed_jobs_in(state.job_results@, slot_view(state.job_to_slot@), None).len(),
        st.running_jobs == busy_count(state.worker_state.assignment()),
        st.workers_busy == busy_count(state.worker_state.assignment()),
        st.queued_jobs == state.job_queue@.len(),
        st.workers_total == workers_total,
        st.run_outcome == (if execution_complete(*state) {
            Some(aggregate_outcome(state.job_results@, slot_view(state.job_to_slot@), None, state.shutdown_requested))
        } else {
            None
        }),
        execution_complete(*state) ==> st.slot_outcomes@.len() == slot_ids@.len() && forall|i: int| 0 <= i < slot_ids@.len() ==> {
            &&& (#[trigger] st.slot_outcomes@[i]).0@ == slot_ids@[i]@
            &&& st.slot_outcomes@[i].1 == aggregate_outcome(
                state.job_results@,
                slot_view(state.job_to_slot@),
                Some(slot_ids@[i]@),
                state.shutdown_requested,
            )
        },
        !execution_complete(*state) ==> st.slot_outcomes@.len() == 0,
{
    let failed_jobs = count_failures(state, None);
    let busy = state.worker_state.count_busy();
    let complete = state.is_complete();
    let run_outcome = if complete {
        Some(determine_aggregate_outcome(state, None))
    } else {
        None
    };
    let mut slot_outcomes: Vec<(String, Outcome)> = Vec::new();
    if complete {
        let mut i: usize = 0;
        while i < slot_ids.len()
            invariant
                i <= slot_ids@.len(),
                slot_outcomes@.len() == i,
                forall|j: int| 0 <= j < i ==> {
                    &&& (#[trigger] slot_outcomes@[j]).0@ == slot_ids@[j]@
                    &&& slot_outcomes@[j].1 == aggregate_outcome(
                        state.job_results@,
                        slot_view(state.job_to_slot@),
                        Some(slot_ids@[j]@),
                        state.shutdown_requested,
                    )
                },
            decreases slot_ids@.len() - i,
        {
            let o = determine_aggregate_outcome(state, Some(slot_ids[i].as_str()));
            slot_outcomes.push((slot_ids[i].clone(), o));
            i = i + 1;
        }
    }
    ExecutionStats {
        total_jobs: state.total_jobs_submitted,
        completed_jobs: state.original_jobs_completed,
        failed_jobs,
        running_jobs: busy,
        queued_jobs: state.job_queue.len(),
        workers_busy: busy,
        workers_total,
        run_outcome,
        slot_outcomes,
    }
}

/// Outcome priority of a run: an execution error decides over everything;
/// a shutdown or stop over timeouts and failures; a timeout over failures.
pub proof fn lemma_aggregate_priority(
    m: Map<JobId, JobResult>,
    slots: Map<JobId, Seq<char>>,
    scope: Option<Seq<char>>,
    shutdown_requested: bool,
)
    ensures
        any_error(m, slots, scope) ==> aggregate_outcome(m, slots, scope, shutdown_requested) == Outcome::Error,
        !any_error(m, slots, scope) && shutdown_requested ==> aggregate_outcome(m, slots, scope, shutdown_requested)
            == Outcome::Stop,
        aggregate_outcome(m, slots, scope, shutdown_requested) == Outcome::Pass ==> !any_failure(m, slots, scope)
            && !any_timeout(m, slots, scope) && !any_error(m, slots, scope) && !shutdown_requested,
{
}

/// What a full scan of the results finds is what the map holds.
proof fn lemma_scan_matches(
    m: Map<JobId, JobResult>,
    v: Seq<(&JobId, &JobResult)>,
    slots: Map<JobId, Seq<char>>,
    scope: Option<Seq<char>>,
)
    requires
        forall|i: int| 0 <= i < v.len() ==> m.contains_key(*v[i].0) && m[*v[i].0] == *v[i].1,
        forall|x: JobId| #[trigger] m.contains_key(x) ==> v.contains((&x, &m[x])),
    ensures
        any_error(m, slots, scope) == exists|i: int| 0 <= i < v.len() && #[trigger] counted(v[i], slots, scope) && (*v[i].1).error is Some,
        any_stop(m, slots, scope) == exists|i: int| 0 <= i < v.len() && #[trigger] counted(v[i], slots, scope) && result_stops_test(*v[i].1),
        any_timeout(m, slots, scope) == exists|i: int| 0 <= i < v.len() && #[trigger] counted(v[i], slots, scope) && (*v[i].1).timeout_secs is Some,
        any_failure(m, slots, scope) == exists|i: int| 0 <= i < v.len() && #[trigger] counted(v[i], slots, scope) && result_is_failure(*v[i].1),
{
    if any_error(m, slots, scope) {
        let k = choose|k: JobId| #[trigger] m.contains_key(k) && in_scope(slots, k, scope) && m[k].error is Some;
        let i = choose|i: int| 0 <= i < v.len() && v[i] == (&k, &m[k]);
        assert(counted(v[i], slots, scope));
    }
    if exists|i: int| 0 <= i < v.len() && #[trigger] counted(v[i], slots, scope) && (*v[i].1).error is Some {
        let i = choose|i: int| 0 <= i < v.len() && #[trigger] counted(v[i], slots, scope) && (*v[i].1).error is Some;
        assert(m.contains_key(*v[i].0));
    }
    if any_stop(m, slots, scope) {
        let k = choose|k: JobId| #[trigger] m.contains_key(k) && in_scope(slots, k, scope) && result_stops_test(m[k]);
        let i = choose|i: int| 0 <= i < v.len() && v[i] == (&k, &m[k]);
        assert(counted(v[i], slots, scope));
    }
    if exists|i: int| 0 <= i < v.len() && #[trigger] counted(v[i], slots, scope) && result_stops_test(*v[i].1) {
        let i = choose|i: int| 0 <= i < v.len() && #[trigger] counted(v[i], slots, scope) && result_stops_test(*v[i].1);
        assert(m.contains_key(*v[i].0));
    }
    if any_timeout(m, slots, scope) {
        let k = choose|k: JobId| #[trigger] m.contains_key(k) && in_scope(slots, k, scope) && m[k].timeout_secs is Some;
        let i = choose|i: int| 0 <= i < v.len() && v[i] == (&k, &m[k]);
        assert(counted(v[i], slots, scope));
    }
    if exists|i: int| 0 <= i < v.len() && #[trigger] counted(v[i], slots, scope) && (*v[i].1).timeout_secs is Some {
        let i = choose|i: int| 0 <= i < v.len() && #[trigger] counted(v[i], slots, scope) && (*v[i].1).timeout_secs is Some;
        assert(m.contains_key(*v[i].0));
    }
    if any_failure(m, slots, scope) {
        let k = choose|k: JobId| #[trigger] m.contains_key(k) && in_scope(slots, k, scope) && result_is_failure(m[k]);
        let i = choose|i: int| 0 <= i < v.len() && v[i] == (&k, &m[k]);
        assert(counted(v[i], slots, scope));
    }
    if exists|i: int| 0 <= i < v.len() && #[trigger] counted(v[i], slots, scope) && result_is_failure(*v[i].1) {
        let i = choose|i: int| 0 <= i < v.len() && #[trigger] counted(v[i], slots, scope) && result_is_failure(*v[i].1);
        assert(m.contains_key(*v[i].0));
    }
}

} // verus!
