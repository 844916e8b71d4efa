//! Which worker runs which job: the single source of truth for worker
//! availability.

use vstd::prelude::*;
use crate::ids::JobId;
use crate::text::{push_decimal, push_str, text_of};

verus! {

/// Assignment of jobs to workers `0..n`.
#[derive(Debug)]
pub struct WorkerStateTracker {
    assignments: Vec<Option<JobId>>,
}

/// Number of busy workers among the first `n` assignments.
pub open spec fn busy_count(a: Seq<Option<JobId>>) -> nat
    decreases a.len(),
{
    if a.len() == 0 {
        0
    } else {
        busy_count(a.drop_last()) + if a.last() is Some { 1nat } else { 0nat }
    }
}

/// The lowest worker that holds `job`, if any.
pub open spec fn first_holder(a: Seq<Option<JobId>>, job: JobId) -> Option<nat>
    decreases a.len(),
{
    if a.len() == 0 {
        None
    } else {
        match first_holder(a.drop_last(), job) {
            Some(w) => Some(w),
            None => if a.last() == Some(job) { Some((a.len() - 1) as nat) } else { None },
        }
    }
}

/// The idle workers, in increasing order.
pub open spec fn idle_workers(a: Seq<Option<JobId>>) -> Seq<usize>
    decreases a.len(),
{
    if a.len() == 0 {
        Seq::empty()
    } else if a.last() is None {
        idle_workers(a.drop_last()).push((a.len() - 1) as usize)
    } else {
        idle_workers(a.drop_last())
    }
}

proof fn lemma_busy_count_bound(a: Seq<Option<JobId>>)
    ensures
        busy_count(a) <= a.len(),
    decreases a.len(),
{
    if a.len() > 0 {
        lemma_busy_count_bound(a.drop_last());
    }
}

proof fn lemma_busy_count_update(a: Seq<Option<JobId>>, i: int, v: Option<JobId>)
    requires
        0 <= i < a.len(),
    ensures
        busy_count(a.update(i, v)) + (if a[i] is Some { 1int } else { 0int })
            == busy_count(a) + (if v is Some { 1int } else { 0int }),
    decreases a.len(),
{
    let b = a.update(i, v);
    if i == a.len() - 1 {
        assert(b.drop_last() =~= a.drop_last());
    } else {
        assert(b.drop_last() =~= a.drop_last().update(i, v));
        lemma_busy_count_update(a.drop_last(), i, v);
    }
}

/// The assignment after the worker holding `job` (the first, if several) is
/// released.
pub open spec fn released(a: Seq<Option<JobId>>, job: JobId) -> Seq<Option<JobId>> {
    match first_holder(a, job) {
        Some(w) => a.update(w as int, None),
        None => a,
    }
}

proof fn lemma_first_holder(a: Seq<Option<JobId>>, job: JobId)
    ensures
        match first_holder(a, job) {
            Some(w) => w < a.len() && a[w as int] == Some(job) && forall|k: int| 0 <= k < w ==> a[k] != Some(job),
            None => forall|k: int| 0 <= k < a.len() ==> a[k] != Some(job),
        },
    decreases a.len(),
{
    if a.len() > 0 {
        lemma_first_holder(a.drop_last(), job);
        assert forall|k: int| 0 <= k < a.len() - 1 implies a.drop_last()[k] == a[k] by {}
    }
}

/// Releasing a job frees its worker when every lower-numbered worker is
/// idle; with every worker idle it changes nothing.
pub proof fn lemma_release_after_idle_prefix(a: Seq<Option<JobId>>, w: int, job: JobId)
    requires
        0 <= w <= a.len(),
        forall|k: int| 0 <= k < w ==> a[k] is None,
        w < a.len() ==> a[w] == Some(job),
    ensures
        w < a.len() ==> released(a, job) == a.update(w, None),
        w == a.len() ==> released(a, job) == a,
{
    lemma_first_holder(a, job);
}

/// Releasing a job frees worker `w` when `w` holds it and no lower worker
/// does.
pub proof fn lemma_release_at_first(a: Seq<Option<JobId>>, w: int, job: JobId)
    requires
        0 <= w < a.len(),
        a[w] == Some(job),
        forall|k: int| 0 <= k < w ==> a[k] is None || a[k] != Some(job),
    ensures
        released(a, job) == a.update(w, None),
{
    lemma_first_holder(a, job);
    match first_holder(a, job) {
        Some(f) => {
            if (f as int) < w {
                assert(a[f as int] == Some(job));
            }
        },
        None => {},
    }
}

proof fn lemma_idle_workers(a: Seq<Option<JobId>>)
    requires
        a.len() <= usize::MAX + 1,
    ensures
        forall|i: int| 0 <= i < idle_workers(a).len() ==> {
            &&& (#[trigger] idle_workers(a)[i]) < a.len()
            &&& a[idle_workers(a)[i] as int] is None
        },
        forall|w: int| 0 <= w < a.len() && a[w] is None ==> idle_workers(a).contains(w as usize),
        idle_workers(a).len() + busy_count(a) == a.len(),
    decreases a.len(),
{
    if a.len() > 0 {
        let t = a.drop_last();
        lemma_idle_workers(t);
        let iw = idle_workers(t);
        assert forall|w: int| 0 <= w < a.len() && a[w] is None implies idle_workers(a).contains(w as usize) by {
            if w < a.len() - 1 {
                assert(t[w] == a[w]);
                let k = choose|k: int| 0 <= k < iw.len() && iw[k] == w as usize;
                if a.last() is None {
                    assert(idle_workers(a)[k] == w as usize);
                }
            } else {
                assert(idle_workers(a)[idle_workers(a).len() - 1] == w as usize);
            }
        }
    }
}

impl WorkerStateTracker {
    /// The assignment of each worker, by worker number.
    pub closed spec fn assignment(self) -> Seq<Option<JobId>> {
        self.assignments@
    }

    /// A tracker for `num_workers` idle workers.
    pub fn new(num_workers: usize) -> (t: WorkerStateTracker)
        ensures
            t.assignment() == Seq::new(num_workers as nat, |i: int| None::<JobId>),
    {
        let mut assignments: Vec<Option<JobId>> = Vec::new();
        let mut i: usize = 0;
        while i < num_workers
            invariant
                i <= num_workers,
                assignments@ == Seq::new(i as nat, |k: int| None::<JobId>),
            decreases num_workers - i,
        {
            assignments.push(None);
            i = i + 1;
            assert(assignments@ =~= Seq::new(i as nat, |k: int| None::<JobId>));
        }
        WorkerStateTracker { assignments }
    }

    /// Whether a worker exists and is idle.
    pub fn is_worker_idle(&self, worker_id: usize) -> (b: bool)
        ensures
            b == (worker_id < self.assignment().len() && self.assignment()[worker_id as int] is None),
    {
        worker_id < self.assignments.len() && self.assignments[worker_id].is_none()
    }

    /// Some idle worker (the lowest-numbered one), if any.
    pub fn get_idle_worker(&self) -> (r: Option<usize>)
        ensures
            match r {
                Some(w) => w < self.assignment().len() && self.assignment()[w as int] is None,
                None => forall|w: int| 0 <= w < self.assignment().len() ==> self.assignment()[w] is Some,
            },
            r matches Some(w) ==> forall|k: int| 0 <= k < w ==> self.assignment()[k] is Some,
    {
        let mut i: usize = 0;
        while i < self.assignments.len()
            invariant
                i <= self.assignments@.len(),
                forall|k: int| 0 <= k < i ==> self.assignments@[k] is Some,
            decreases self.assignments@.len() - i,
        {
            if self.assignments[i].is_none() {
                return Some(i);
            }
            i = i + 1;
        }
        None
    }

    /// Assigns a job to an idle worker. Fails when the worker is busy or
    /// does not exist.
    pub fn assign_job(&mut self, worker_id: usize, job_id: JobId) -> (r: Result<(), String>)
        ensures
            old(self).assignment().len() <= worker_id ==> {
                &&& r matches Err(e) && e@ == "Worker "@ + crate::text::decimal(worker_id as nat) + " not found"@
                &&& final(self).assignment() == old(self).assignment()
            },
            worker_id < old(self).assignment().len() && old(self).assignment()[worker_id as int] is Some ==> {
                &&& r matches Err(e) && e@ == "Worker "@ + crate::text::decimal(worker_id as nat) + " is already busy"@
                &&& final(self).assignment() == old(self).assignment()
            },
            worker_id < old(self).assignment().len() && old(self).assignment()[worker_id as int] is None ==> {
                &&& r is Ok
                &&& final(self).assignment() == old(self).assignment().update(worker_id as int, Some(job_id))
            },
    {
        if worker_id >= self.assignments.len() {
            let mut msg = text_of("Worker ");
            push_decimal(&mut msg, worker_id as u128);
            push_str(&mut msg, " not found");
            return Err(msg);
        }
        if self.assignments[worker_id].is_some() {
            let mut msg = text_of("Worker ");
            push_decimal(&mut msg, worker_id as u128);
            push_str(&mut msg, " is already busy");
            return Err(msg);
        }
        self.assignments.set(worker_id, Some(job_id));
        Ok(())
    }

    /// Frees a worker, returning the job it held.
    pub fn release_worker(&mut self, worker_id: usize) -> (r: Option<JobId>)
        ensures
            worker_id < old(self).assignment().len() ==> {
                &&& r == old(self).assignment()[worker_id as int]
                &&& final(self).assignment() == old(self).assignment().update(worker_id as int, None)
            },
            old(self).assignment().len() <= worker_id ==> r is None && final(self).assignment() == old(self).assignment(),
    {
        if worker_id < self.assignments.len() {
            let r = self.assignments[worker_id];
            self.assignments.set(worker_id, None);
            r
        } else {
            None
        }
    }

    /// Frees the worker that holds a job, returning that worker.
    pub fn release_by_job(&mut self, job_id: JobId) -> (r: Option<usize>)
        ensures
            r == (match first_holder(old(self).assignment(), job_id) {
                Some(w) => Some(w as usize),
                None => None::<usize>,
            }),
            final(self).assignment() == (match r {
                Some(w) => old(self).assignment().update(w as int, None),
                None => old(self).assignment(),
            }),
            final(self).assignment() == released(old(self).assignment(), job_id),
    {
        proof { lemma_first_holder(self.assignments@, job_id); }
        let n = self.assignments.len();
        let r = self.get_worker_for_job(job_id);
        match r {
            Some(w) => {
                self.assignments.set(w, None);
            },
            None => {},
        }
        proof {
            match first_holder(old(self).assignments@, job_id) {
                Some(w) => {
                    assert(w < n);
                    assert((w as usize) as int == w as int);
                },
                None => {},
            }
        }
        r
    }

    /// The worker holding a job (the lowest-numbered one).
    pub fn get_worker_for_job(&self, job_id: JobId) -> (r: Option<usize>)
        ensures
            r == (match first_holder(self.assignment(), job_id) {
                Some(w) => Some(w as usize),
                None => None::<usize>,
            }),
            r matches Some(w) ==> w < self.assignment().len(),
    {
        proof { lemma_first_holder(self.assignments@, job_id); }
        let mut i: usize = 0;
        while i < self.assignments.len()
            invariant
                i <= self.assignments@.len(),
                forall|k: int| 0 <= k < i ==> self.assignments@[k] != Some(job_id),
                match first_holder(self.assignments@, job_id) {
                    Some(w) => w < self.assignments@.len() && self.assignments@[w as int] == Some(job_id)
                        && forall|k: int| 0 <= k < w ==> self.assignments@[k] != Some(job_id),
                    None => forall|k: int| 0 <= k < self.assignments@.len() ==> self.assignments@[k] != Some(job_id),
                },
            decreases self.assignments@.len() - i,
        {
            if self.assignments[i] == Some(job_id) {
                return Some(i);
            }
            i = i + 1;
        }
        None
    }

    /// The job a worker holds.
    pub fn get_job_for_worker(&self, worker_id: usize) -> (r: Option<JobId>)
        ensures
            r == (if worker_id < self.assignment().len() { self.assignment()[worker_id as int] } else { None }),
    {
        if worker_id < self.assignments.len() {
            self.assignments[worker_id]
        } else {
            None
        }
    }

    /// The job a worker holds (same as `get_job_for_worker`).
    pub fn get_worker_job(&self, worker_id: usize) -> (r: Option<JobId>)
        ensures
            r == (if worker_id < self.assignment().len() { self.assignment()[worker_id as int] } else { None }),
    {
        self.get_job_for_worker(worker_id)
    }

    /// Number of busy workers.
    pub fn count_busy(&self) -> (n: usize)
        ensures
            n == busy_count(self.assignment()),
    {
        let mut n: usize = 0;
        let mut i: usize = 0;
        while i < self.assignments.len()
            invariant
                i <= self.assignments@.len(),
                n == busy_count(self.assignments@.subrange(0, i as int)),
                n <= i,
            decreases self.assignments@.len() - i,
        {
            proof {
                assert(self.assignments@.subrange(0, i + 1).drop_last() =~= self.assignments@.subrange(0, i as int));
            }
            if self.assignments[i].is_some() {
                n = n + 1;
            }
            i = i + 1;
        }
        assert(self.assignments@.subrange(0, i as int) =~= self.assignments@);
        n
    }

    /// The idle workers, in increasing order.
    pub fn get_idle_workers(&self) -> (r: Vec<usize>)
        ensures
            r@ == idle_workers(self.assignment()),
    {
        let mut r: Vec<usize> = Vec::new();
        let mut i: usize = 0;
        while i < self.assignments.len()
            invariant
                i <= self.assignments@.len(),
                r@ == idle_workers(self.assignments@.subrange(0, i as int)),
            decreases self.assignments@.len() - i,
        {
            proof {
                assert(self.assignments@.subrange(0, i + 1).drop_last() =~= self.assignments@.subrange(0, i as int));
            }
            if self.assignments[i].is_none() {
                r.push(i);
            }
            i = i + 1;
        }
        assert(self.assignments@.subrange(0, i as int) =~= self.assignments@);
        r
    }

    /// Number of workers.
    pub fn num_workers(&self) -> (n: usize)
        ensures
            n == self.assignment().len(),
    {
        self.assignments.len()
    }
}

/// Assigning a job to an idle worker and releasing that worker gives the
/// worker back the job and restores the previous assignment.
pub proof fn lemma_assign_then_release(a: Seq<Option<JobId>>, w: int, job: JobId)
    requires
        0 <= w < a.len(),
        a[w] is None,
    ensures
        a.update(w, Some(job))[w] == Some(job),
        a.update(w, Some(job)).update(w, None) == a,
        busy_count(a.update(w, Some(job))) == busy_count(a) + 1,
{
    assert(a.update(w, Some(job)).update(w, None) =~= a);
    lemma_busy_count_update(a, w, Some(job));
}

/// Idle and busy workers together are all workers; the idle list holds
/// exactly the idle workers.
pub proof fn lemma_idle_and_busy_partition(a: Seq<Option<JobId>>)
    requires
        a.len() <= usize::MAX,
    ensures
        idle_workers(a).len() + busy_count(a) == a.len(),
        forall|w: int| 0 <= w < a.len() ==> (a[w] is None <==> idle_workers(a).contains(w as usize)),
{
    lemma_idle_workers(a);
    assert forall|w: int| 0 <= w < a.len() implies (a[w] is None <==> idle_workers(a).contains(w as usize)) by {
        if idle_workers(a).contains(w as usize) {
            let k = choose|k: int| 0 <= k < idle_workers(a).len() && idle_workers(a)[k] == w as usize;
            assert(idle_workers(a)[k] < a.len());
        }
    }
}

/// Releasing a busy worker frees exactly one worker.
pub proof fn lemma_release_frees_one(a: Seq<Option<JobId>>, w: int)
    requires
        0 <= w < a.len(),
        a[w] is Some,
    ensures
        busy_count(a.update(w, None)) + 1 == busy_count(a),
{
    lemma_busy_count_update(a, w, None);
}

} // verus!
