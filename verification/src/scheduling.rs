//! The scheduling decision: which idle worker starts which ready job next.
//! Creating the job's plugs and starting it are left to the caller, which
//! records the start with `OrchestratorState::mark_job_active`.

use vstd::prelude::*;
use crate::ids::JobId;
use crate::job::{deps_satisfied, Job};
use crate::state::{picked, same_settings, slot_view, OrchestratorState};
use crate::worker_state::idle_workers;

verus! {

/// Whether worker `w` is the lowest-numbered idle worker.
pub open spec fn lowest_idle(a: Seq<Option<crate::ids::JobId>>, w: int) -> bool {
    &&& 0 <= w < a.len()
    &&& a[w] is None
    &&& forall|k: int| 0 <= k < w ==> a[k] is Some
}

/// Decides the next start of a scheduling pass. Nothing starts once a
/// shutdown was requested, without a free execution permit, or without an
/// idle worker; otherwise the lowest idle worker takes the first queued job
/// that can start now and whose plugs are available, which leaves the
/// queue. `None` ends the pass.
pub fn next_assignment(
    state: &mut OrchestratorState,
    permit_available: bool,
    plugs_available: impl Fn(&Vec<String>) -> bool,
) -> (r: Option<(usize, Job)>)
    requires
        forall|p: &Vec<String>| #[trigger] plugs_available.requires((p,)),
    ensures
        old(state).shutdown_requested || !permit_available || (forall|w: int|
            0 <= w < old(state).worker_state.assignment().len() ==> old(state).worker_state.assignment()[w] is Some)
            ==> r is None && *final(state) == *old(state),
        !old(state).shutdown_requested && permit_available && (exists|w: int|
            0 <= w < old(state).worker_state.assignment().len() && old(state).worker_state.assignment()[w] is None)
            ==> match r {
            Some((w, job)) => lowest_idle(old(state).worker_state.assignment(), w as int) && picked(
                *old(state),
                *final(state),
                plugs_available,
                Some(job),
            ),
            None => picked(*old(state), *final(state), plugs_available, None),
        },
        same_settings(*old(state), *final(state)),
        final(state).completed_jobs@ == old(state).completed_jobs@,
        final(state).worker_state == old(state).worker_state,
        slot_view(final(state).job_to_slot@) == slot_view(old(state).job_to_slot@),
        final(state).job_results@ == old(state).job_results@,
        final(state).job_info@ == old(state).job_info@,
        final(state).total_jobs_submitted == old(state).total_jobs_submitted,
        final(state).original_jobs_completed == old(state).original_jobs_completed,
        final(state).shutdown_requested == old(state).shutdown_requested,
        final(state).pending_slot_jobs@ == old(state).pending_slot_jobs@,
        final(state).teardown_procedure_jobs@ == old(state).teardown_procedure_jobs@,
        final(state).pending_delayed_retries@ == old(state).pending_delayed_retries@,
{
    if state.shutdown_requested || !permit_available {
        return None;
    }
    let worker = match state.worker_state.get_idle_worker() {
        Some(w) => w,
        None => {
            return None;
        },
    };
    match state.get_next_ready_job(plugs_available) {
        Some(job) => Some((worker, job)),
        None => None,
    }
}

/// The position of the first queued job whose dependencies have completed.
pub open spec fn first_ready(q: Seq<Job>, done: Set<JobId>) -> Option<int>
    decreases q.len(),
{
    if q.len() == 0 {
        None
    } else {
        match first_ready(q.drop_last(), done) {
            Some(i) => Some(i),
            None => if deps_satisfied(q.last().depends_on@, done) {
                Some(q.len() - 1)
            } else {
                None
            },
        }
    }
}

/// Taking the first ready job out of a queue `m` times in a row (stopping
/// when none is left): the jobs taken, in order, and what stays queued.
pub open spec fn take_ready(q: Seq<Job>, done: Set<JobId>, m: nat) -> (Seq<Job>, Seq<Job>)
    decreases m,
{
    if m == 0 {
        (Seq::empty(), q)
    } else {
        let (taken, rest) = take_ready(q, done, (m - 1) as nat);
        match first_ready(rest, done) {
            Some(i) => (taken.push(rest[i]), rest.remove(i)),
            None => (taken, rest),
        }
    }
}

/// The assignment after each pair's worker takes the pair's job, in order.
pub open spec fn assign_all(a: Seq<Option<JobId>>, pairs: Seq<(Job, usize)>) -> Seq<Option<JobId>>
    decreases pairs.len(),
{
    if pairs.len() == 0 {
        a
    } else {
        assign_all(a, pairs.drop_last()).update(pairs.last().1 as int, Some(pairs.last().0.id))
    }
}

/// The first ready position is the one before which no job is ready.
proof fn lemma_first_ready(q: Seq<Job>, done: Set<JobId>)
    ensures
        match first_ready(q, done) {
            Some(i) => 0 <= i < q.len() && deps_satisfied(q[i].depends_on@, done) && forall|k: int|
                0 <= k < i ==> !deps_satisfied(#[trigger] q[k].depends_on@, done),
            None => forall|k: int| 0 <= k < q.len() ==> !deps_satisfied(#[trigger] q[k].depends_on@, done),
        },
    decreases q.len(),
{
    if q.len() > 0 {
        lemma_first_ready(q.drop_last(), done);
        assert forall|k: int| 0 <= k < q.len() - 1 implies q.drop_last()[k] == q[k] by {}
    }
}

/// A worker no pair names keeps its assignment.
proof fn lemma_assign_all_other(a: Seq<Option<JobId>>, pairs: Seq<(Job, usize)>, w: int)
    requires
        forall|i: int| 0 <= i < pairs.len() ==> (#[trigger] pairs[i]).1 as int != w,
        forall|i: int| 0 <= i < pairs.len() ==> (#[trigger] pairs[i]).1 < a.len(),
    ensures
        assign_all(a, pairs).len() == a.len(),
        0 <= w < a.len() ==> assign_all(a, pairs)[w] == a[w],
    decreases pairs.len(),
{
    if pairs.len() > 0 {
        let d = pairs.drop_last();
        assert forall|i: int| 0 <= i < d.len() implies (#[trigger] d[i]).1 as int != w && d[i].1 < a.len() by {
            assert(d[i] == pairs[i]);
        }
        lemma_assign_all_other(a, d, w);
        assert(pairs[pairs.len() - 1] == pairs.last());
    }
}

/// Starts ready jobs on idle workers for tear-down: each idle worker, in
/// order, takes the first queued job whose dependencies have completed,
/// until none is left. Returns each job with its worker.
pub fn assign_teardown_jobs(state: &mut OrchestratorState) -> (r: Vec<(Job, usize)>)
    ensures
        ({
            let iw = idle_workers(old(state).worker_state.assignment());
            let taken = take_ready(old(state).job_queue@, old(state).completed_jobs@, iw.len()).0;
            &&& r@.len() == taken.len()
            &&& forall|i: int| 0 <= i < r@.len() ==> (#[trigger] r@[i]).0 == taken[i] && r@[i].1 == iw[i]
            &&& final(state).job_queue@ == take_ready(old(state).job_queue@, old(state).completed_jobs@, iw.len()).1
            &&& final(state).worker_state.assignment() == assign_all(old(state).worker_state.assignment(), r@)
        }),
        same_settings(*old(state), *final(state)),
        final(state).completed_jobs@ == old(state).completed_jobs@,
        final(state).job_results@ == old(state).job_results@,
        final(state).job_info@ == old(state).job_info@,
        slot_view(final(state).job_to_slot@) == slot_view(old(state).job_to_slot@),
        final(state).original_jobs_completed == old(state).original_jobs_completed,
        final(state).total_jobs_submitted == old(state).total_jobs_submitted,
        final(state).shutdown_requested == old(state).shutdown_requested,
        final(state).pending_slot_jobs@ == old(state).pending_slot_jobs@,
        final(state).teardown_procedure_jobs@ == old(state).teardown_procedure_jobs@,
        final(state).pending_delayed_retries@ == old(state).pending_delayed_retries@,
{
    let ghost s0 = *state;
    let ghost a0 = s0.worker_state.assignment();
    let ghost q0 = s0.job_queue@;
    let ghost done = s0.completed_jobs@;
    let n = state.worker_state.num_workers();
    let ready = |_job: &Job| -> (b: bool)
        ensures
            b,
        { true };
    let mut r: Vec<(Job, usize)> = Vec::new();
    let mut w: usize = 0;
    while w < n
        invariant
            n == a0.len(),
            w <= n,
            a0 == s0.worker_state.assignment(),
            q0 == s0.job_queue@,
            done == s0.completed_jobs@,
            state.completed_jobs@ == done,
            forall|j: &Job| #[trigger] ready.requires((j,)),
            forall|j: &Job, b: bool| ready.ensures((j,), b) ==> b,
            r@.len() == take_ready(q0, done, idle_workers(a0.subrange(0, w as int)).len()).0.len(),
            r@.len() <= idle_workers(a0.subrange(0, w as int)).len(),
            r@.len() == idle_workers(a0.subrange(0, w as int)).len() || first_ready(state.job_queue@, done) is None,
            forall|i: int| 0 <= i < r@.len() ==> (#[trigger] r@[i]).0 == take_ready(
                q0,
                done,
                idle_workers(a0.subrange(0, w as int)).len(),
            ).0[i] && r@[i].1 == idle_workers(a0.subrange(0, w as int))[i],
            forall|i: int| 0 <= i < r@.len() ==> (#[trigger] r@[i]).1 < w,
            state.job_queue@ == take_ready(q0, done, idle_workers(a0.subrange(0, w as int)).len()).1,
            state.worker_state.assignment() == assign_all(a0, r@),
            same_settings(s0, *state),
            state.job_results@ == s0.job_results@,
            state.job_info@ == s0.job_info@,
            slot_view(state.job_to_slot@) == slot_view(s0.job_to_slot@),
            state.original_jobs_completed == s0.original_jobs_completed,
            state.total_jobs_submitted == s0.total_jobs_submitted,
            state.shutdown_requested == s0.shutdown_requested,
            state.pending_slot_jobs@ == s0.pending_slot_jobs@,
            state.teardown_procedure_jobs@ == s0.teardown_procedure_jobs@,
            state.pending_delayed_retries@ == s0.pending_delayed_retries@,
        decreases n - w,
    {
        let ghost pre = a0.subrange(0, w as int);
        let ghost nxt = a0.subrange(0, w + 1);
        let ghost k = idle_workers(pre).len();
        proof {
            assert(nxt.drop_last() =~= pre);
            assert(nxt.last() == a0[w as int]);
            lemma_assign_all_other(a0, r@, w as int);
        }
        if state.worker_state.is_worker_idle(w) {
            assert(idle_workers(nxt) == idle_workers(pre).push(w));
            let ghost rest = state.job_queue@;
            let ghost mut idx: int = 0;
            proof {
                lemma_first_ready(rest, done);
                assert(idle_workers(nxt).len() == k + 1);
                assert(rest == take_ready(q0, done, k).1);
            }
            match state.pop_ready_job(ready) {
                Some(job) => {
                    proof {
                        idx = choose|i: int|
                            0 <= i < rest.len() && #[trigger] rest[i] == job && state.job_queue@ == rest.remove(i)
                                && deps_satisfied(job.depends_on@, done) && ready.ensures((&job,), true)
                                && forall|x: int| 0 <= x < i ==> !deps_satisfied(
                                    #[trigger] rest[x].depends_on@,
                                    done,
                                ) || ready.ensures((&rest[x],), false);
                        let i = idx;
                        assert(first_ready(rest, done) == Some(i)) by {
                            match first_ready(rest, done) {
                                Some(f) => {
                                    if f < i {
                                        assert(ready.ensures((&rest[f],), false));
                                    }
                                },
                                None => {},
                            }
                        }
                        assert(take_ready(q0, done, (k + 1) as nat) == (take_ready(q0, done, k).0.push(rest[i]), rest.remove(i)));
                    }
                    let id = job.id;
                    let marked = state.mark_job_active(id, w);
                    match marked {
                        Ok(()) => {},
                        Err(_) => {
                            assert(false);
                        },
                    }
                    let ghost before = r@;
                    r.push((job, w));
                    proof {
                        assert(before.len() == k);
                        assert(idle_workers(nxt)[k as int] == w);
                        assert(take_ready(q0, done, (k + 1) as nat).0[k as int] == job);
                        assert(r@.drop_last() =~= before);
                        assert forall|i: int| 0 <= i < r@.len() implies (#[trigger] r@[i]).0 == take_ready(
                            q0,
                            done,
                            idle_workers(nxt).len(),
                        ).0[i] && r@[i].1 == idle_workers(nxt)[i] by {
                            if i < before.len() {
                                assert(r@[i] == before[i]);
                                assert(idle_workers(nxt)[i] == idle_workers(pre)[i]);
                                assert(take_ready(q0, done, (k + 1) as nat).0[i] == take_ready(q0, done, k).0[i]);
                            }
                        }
                    }
                },
                None => {
                    proof {
                        match first_ready(rest, done) {
                            Some(f) => {
                                assert(ready.ensures((&rest[f],), false));
                            },
                            None => {},
                        }
                        assert(take_ready(q0, done, (k + 1) as nat) == take_ready(q0, done, k));
                        assert forall|i: int| 0 <= i < r@.len() implies (#[trigger] r@[i]).1 == idle_workers(nxt)[i] by {
                            assert(idle_workers(nxt)[i] == idle_workers(pre)[i]);
                        }
                    }
                },
            }
        } else {
            assert(idle_workers(nxt) == idle_workers(pre));
        }
        w = w + 1;
    }
    proof {
        assert(a0.subrange(0, n as int) =~= a0);
    }
    r
}

/// Every job taken by tear-down assignment had its dependencies completed.
pub proof fn lemma_taken_jobs_ready(q: Seq<Job>, done: Set<JobId>, m: nat)
    ensures
        forall|i: int| 0 <= i < take_ready(q, done, m).0.len() ==> deps_satisfied(
            (#[trigger] take_ready(q, done, m).0[i]).depends_on@,
            done,
        ),
    decreases m,
{
    if m > 0 {
        lemma_taken_jobs_ready(q, done, (m - 1) as nat);
        let (t, r) = take_ready(q, done, (m - 1) as nat);
        lemma_first_ready(r, done);
        match first_ready(r, done) {
            Some(k) => {
                assert forall|i: int| 0 <= i < t.push(r[k]).len() implies deps_satisfied(
                    (#[trigger] t.push(r[k])[i]).depends_on@,
                    done,
                ) by {
                    if i < t.len() {
                        assert(t.push(r[k])[i] == t[i]);
                    }
                }
            },
            None => {},
        }
    }
}

/// Tear-down assignment loses no job and makes none up: the jobs taken
/// and the jobs still queued are, together, the queue it started from.
pub proof fn lemma_take_ready_keeps_jobs(q: Seq<Job>, done: Set<JobId>, m: nat)
    ensures
        take_ready(q, done, m).0.to_multiset().add(take_ready(q, done, m).1.to_multiset()) == q.to_multiset(),
    decreases m,
{
    broadcast use vstd::seq_lib::group_to_multiset_ensures, vstd::multiset::group_multiset_axioms;
    if m == 0 {
        assert(Seq::<Job>::empty().to_multiset().add(q.to_multiset()) =~= q.to_multiset());
    } else {
        lemma_take_ready_keeps_jobs(q, done, (m - 1) as nat);
        let (t, r) = take_ready(q, done, (m - 1) as nat);
        lemma_first_ready(r, done);
        match first_ready(r, done) {
            Some(k) => {
                let x = r[k];
                assert(t.push(x).to_multiset() =~= t.to_multiset().insert(x));
                assert(r.remove(k).to_multiset() =~= r.to_multiset().remove(x));
                assert(r.to_multiset().count(x) > 0) by {
                    assert(r.contains(x));
                }
                assert(t.to_multiset().insert(x).add(r.to_multiset().remove(x)) =~= t.to_multiset().add(r.to_multiset()));
            },
            None => {},
        }
    }
}

} // verus!
