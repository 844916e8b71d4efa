//! What a job is given of the phases that ran before it: the latest attempt
//! of each earlier phase it can see, and the unit identification that the
//! earlier phases of its slot reported, applied on top of the slot's starting
//! one.

use vstd::prelude::*;
use crate::ids::JobId;
use crate::job::JobResult;
use crate::state::{JobInfo, OrchestratorState};
use crate::string_map::str_eq;
use crate::unit::{opt_text, opt_unit, UnitInfo, UnitInfoView};
use crate::unit_merge::{merge_unit_reports, merged_reports, UnitReport};
use vstd::std_specs::iter::IteratorSpec;

verus! {

broadcast use vstd::std_specs::hash::group_hash_axioms;

/// Whether the recorded job `k` is an attempt that a job of `slot` sees: it
/// has a result and belongs to that slot or is shared. With `unit_only`,
/// only attempts of that very slot (never shared ones) whose result reports
/// a unit count.
pub open spec fn sees_attempt(s: OrchestratorState, slot: Option<Seq<char>>, unit_only: bool, k: JobId) -> bool {
    &&& s.job_info@.contains_key(k)
    &&& s.job_results@.contains_key(k)
    &&& if unit_only {
        s.job_info@[k]@.slot_id is Some && s.job_info@[k]@.slot_id == slot && s.job_results@[k].unit is Some
    } else {
        s.job_info@[k]@.slot_id == slot || s.job_info@[k]@.slot_id is None
    }
}

/// The phase key of a recorded job.
pub open spec fn attempt_key(s: OrchestratorState, k: JobId) -> Seq<char> {
    s.job_info@[k]@.phase_key
}

/// The attempt number of a recorded job.
pub open spec fn attempt_count(s: OrchestratorState, k: JobId) -> usize {
    s.job_results@[k].retry_count
}

/// Whether attempt count `a` is at least as late as `b` (`latest`), or at
/// least as early.
pub open spec fn preferred(a: usize, b: usize, latest: bool) -> bool {
    if latest {
        a >= b
    } else {
        a <= b
    }
}

/// Whether `r` holds exactly one seen attempt per phase key: for each phase
/// key among the seen attempts, one whose attempt number is the highest
/// (`latest`) or the lowest. Which of two attempts with the same number is
/// kept is left open.
pub open spec fn picked_attempts(
    s: OrchestratorState,
    slot: Option<Seq<char>>,
    unit_only: bool,
    latest: bool,
    r: Seq<JobId>,
) -> bool {
    &&& r.no_duplicates()
    &&& forall|x: JobId| #[trigger] r.contains(x) ==> sees_attempt(s, slot, unit_only, x)
    &&& forall|x: JobId, y: JobId|
        #![trigger r.contains(x), r.contains(y)]
        r.contains(x) && r.contains(y) && attempt_key(s, x) == attempt_key(s, y) ==> x == y
    &&& forall|k: JobId| #[trigger]
        sees_attempt(s, slot, unit_only, k) ==> exists|x: JobId| #[trigger]
            r.contains(x) && attempt_key(s, x) == attempt_key(s, k) && preferred(
                attempt_count(s, x),
                attempt_count(s, k),
                latest,
            )
}

/// Position of `key` among `keys`, if present.
fn find_key(keys: &Vec<String>, key: &str) -> (r: Option<usize>)
    ensures
        match r {
            Some(i) => i < keys@.len() && keys@[i as int]@ == key@,
            None => forall|i: int| 0 <= i < keys@.len() ==> #[trigger] keys@[i]@ != key@,
        },
{
    let mut i: usize = 0;
    while i < keys.len()
        invariant
            i <= keys@.len(),
            forall|j: int| 0 <= j < i ==> #[trigger] keys@[j]@ != key@,
        decreases keys@.len() - i,
    {
        if str_eq(keys[i].as_str(), key) {
            return Some(i);
        }
        i = i + 1;
    }
    None
}

/// Whether a recorded job is seen, computed.
fn sees(state: &OrchestratorState, slot: Option<&str>, unit_only: bool, k: &JobId, info: &JobInfo) -> (b: Option<usize>)
    requires
        state.job_info@.contains_key(*k),
        state.job_info@[*k] == *info,
    ensures
        b is Some <==> sees_attempt(*state, crate::state::opt_str(slot), unit_only, *k),
        b matches Some(c) ==> c == attempt_count(*state, *k),
{
    let r = match state.job_results.get(k) {
        Some(r) => r,
        None => return None,
    };
    let same_slot = match (&info.slot_id, slot) {
        (Some(a), Some(b)) => str_eq(a.as_str(), b),
        (None, None) => true,
        _ => false,
    };
    let ok = if unit_only {
        info.slot_id.is_some() && same_slot && r.unit.is_some()
    } else {
        same_slot || info.slot_id.is_none()
    };
    if ok {
        Some(r.retry_count)
    } else {
        None
    }
}

/// Picks one seen attempt per phase key: the latest (`latest`) or the first.
fn pick_attempts(state: &OrchestratorState, slot: Option<&str>, unit_only: bool, latest: bool) -> (r: Vec<JobId>)
    ensures
        picked_attempts(*state, crate::state::opt_str(slot), unit_only, latest, r@),
{
    let ghost s = *state;
    let ghost sl = crate::state::opt_str(slot);
    let ghost m = state.job_info@;
    let mut ids: Vec<JobId> = Vec::new();
    let mut keys: Vec<String> = Vec::new();
    let mut counts: Vec<usize> = Vec::new();
    let ghost v = vstd::std_specs::hash::spec_hash_map_iter(&state.job_info).remaining();
    proof {
        vstd::std_specs::hash::axiom_spec_hash_map_iter(&state.job_info);
    }
    let ghost mut seen: int = 0;
    for (k, info) in it: state.job_info.iter()
        invariant
            s == *state,
            m == state.job_info@,
            sl == crate::state::opt_str(slot),
            it.seq() == v,
            seen == it.index(),
            0 <= seen <= v.len(),
            v == vstd::std_specs::hash::spec_hash_map_iter(&state.job_info).remaining(),
            forall|i: int| 0 <= i < v.len() ==> m.contains_key(*v[i].0) && m[*v[i].0] == *v[i].1,
            forall|x: JobId| #[trigger] m.contains_key(x) ==> v.contains((&x, &m[x])),
            ids@.len() == keys@.len(),
            ids@.len() == counts@.len(),
            forall|i: int| 0 <= i < ids@.len() ==> sees_attempt(s, sl, unit_only, #[trigger] ids@[i]),
            forall|i: int| 0 <= i < ids@.len() ==> (#[trigger] keys@[i])@ == attempt_key(s, ids@[i]),
            forall|i: int| 0 <= i < ids@.len() ==> #[trigger] counts@[i] == attempt_count(s, ids@[i]),
            forall|i: int, j: int| 0 <= i < ids@.len() && 0 <= j < ids@.len() && i != j ==> (#[trigger] keys@[i])@ != (#[trigger] keys@[j])@,
            forall|t: int| 0 <= t < seen && sees_attempt(s, sl, unit_only, *(#[trigger] v[t]).0) ==> exists|i: int|
                0 <= i < ids@.len() && attempt_key(s, #[trigger] ids@[i]) == attempt_key(s, *v[t].0) && preferred(
                    attempt_count(s, ids@[i]),
                    attempt_count(s, *v[t].0),
                    latest,
                ),
    {
        assert(v[seen] == (k, info));
        let c = sees(state, slot, unit_only, k, info);
        let ghost before_ids = ids@;
        if let Some(count) = c {
            match find_key(&keys, info.phase_key.as_str()) {
                Some(idx) => {
                    let replace = if latest { count >= counts[idx] } else { count <= counts[idx] };
                    if replace {
                        ids.set(idx, *k);
                        counts.set(idx, count);
                        proof {
                            assert forall|t: int| 0 <= t < seen + 1 && sees_attempt(s, sl, unit_only, *(#[trigger] v[t]).0) implies exists|i: int|
                                0 <= i < ids@.len() && attempt_key(s, #[trigger] ids@[i]) == attempt_key(s, *v[t].0) && preferred(
                                    attempt_count(s, ids@[i]),
                                    attempt_count(s, *v[t].0),
                                    latest,
                                ) by {
                                if t == seen {
                                    assert(attempt_key(s, ids@[idx as int]) == attempt_key(s, *v[t].0));
                                } else {
                                    let i = choose|i: int|
                                        0 <= i < before_ids.len() && attempt_key(s, #[trigger] before_ids[i]) == attempt_key(s, *v[t].0) && preferred(
                                            attempt_count(s, before_ids[i]),
                                            attempt_count(s, *v[t].0),
                                            latest,
                                        );
                                    if i == idx as int {
                                        assert(attempt_key(s, ids@[i]) == attempt_key(s, *v[t].0));
                                    } else {
                                        assert(ids@[i] == before_ids[i]);
                                    }
                                }
                            }
                        }
                    } else {
                        proof {
                            assert forall|t: int| 0 <= t < seen + 1 && sees_attempt(s, sl, unit_only, *(#[trigger] v[t]).0) implies exists|i: int|
                                0 <= i < ids@.len() && attempt_key(s, #[trigger] ids@[i]) == attempt_key(s, *v[t].0) && preferred(
                                    attempt_count(s, ids@[i]),
                                    attempt_count(s, *v[t].0),
                                    latest,
                                ) by {
                                if t == seen {
                                    assert(attempt_key(s, ids@[idx as int]) == attempt_key(s, *v[t].0));
                                }
                            }
                        }
                    }
                },
                None => {
                    ids.push(*k);
                    keys.push(info.phase_key.clone());
                    counts.push(count);
                    proof {
                        assert forall|t: int| 0 <= t < seen + 1 && sees_attempt(s, sl, unit_only, *(#[trigger] v[t]).0) implies exists|i: int|
                            0 <= i < ids@.len() && attempt_key(s, #[trigger] ids@[i]) == attempt_key(s, *v[t].0) && preferred(
                                attempt_count(s, ids@[i]),
                                attempt_count(s, *v[t].0),
                                latest,
                            ) by {
                            if t == seen {
                                assert(attempt_key(s, ids@[before_ids.len() as int]) == attempt_key(s, *v[t].0));
                            } else {
                                let i = choose|i: int|
                                    0 <= i < before_ids.len() && attempt_key(s, #[trigger] before_ids[i]) == attempt_key(s, *v[t].0) && preferred(
                                        attempt_count(s, before_ids[i]),
                                        attempt_count(s, *v[t].0),
                                        latest,
                                    );
                                assert(ids@[i] == before_ids[i]);
                            }
                        }
                    }
                },
            }
        }
        proof {
            seen = seen + 1;
        }
    }
    proof {
        let r = ids@;
        assert forall|i: int, j: int| 0 <= i < r.len() && 0 <= j < r.len() && i != j implies r[i] != r[j] by {
            assert(keys@[i]@ != keys@[j]@);
        }
        assert forall|x: JobId| #[trigger] r.contains(x) implies sees_attempt(s, sl, unit_only, x) by {
            let i = choose|i: int| 0 <= i < r.len() && #[trigger] r[i] == x;
            assert(sees_attempt(s, sl, unit_only, r[i]));
        }
        assert forall|x: JobId, y: JobId| r.contains(x) && r.contains(y) && attempt_key(s, x) == attempt_key(s, y) implies x == y by {
            let i = choose|i: int| 0 <= i < r.len() && #[trigger] r[i] == x;
            let j = choose|j: int| 0 <= j < r.len() && #[trigger] r[j] == y;
            assert(keys@[i]@ == attempt_key(s, r[i]));
            assert(keys@[j]@ == attempt_key(s, r[j]));
        }
        assert forall|k: JobId| #[trigger] sees_attempt(s, sl, unit_only, k) implies exists|x: JobId| #[trigger]
            r.contains(x) && attempt_key(s, x) == attempt_key(s, k) && preferred(attempt_count(s, x), attempt_count(s, k), latest) by {
            assert(m.contains_key(k));
            assert(v.contains((&k, &m[k])));
            let t = choose|t: int| 0 <= t < v.len() && #[trigger] v[t] == (&k, &m[k]);
            assert(*v[t].0 == k);
            let i = choose|i: int|
                0 <= i < ids@.len() && attempt_key(s, #[trigger] ids@[i]) == attempt_key(s, *v[t].0) && preferred(
                    attempt_count(s, ids@[i]),
                    attempt_count(s, *v[t].0),
                    latest,
                );
            assert(r.contains(r[i]));
        }
    }
    ids
}

/// Whether the recorded jobs `o` come in order of their start times.
pub open spec fn by_start(s: OrchestratorState, o: Seq<JobId>) -> bool {
    forall|i: int, j: int| 0 <= i <= j < o.len() ==> s.job_results@[o[i]].started_at <= s.job_results@[o[j]].started_at
}

/// Two lists holding the same jobs, once each, pick the same attempts.
proof fn lemma_picked_same_jobs(
    s: OrchestratorState,
    slot: Option<Seq<char>>,
    unit_only: bool,
    latest: bool,
    a: Seq<JobId>,
    b: Seq<JobId>,
)
    requires
        picked_attempts(s, slot, unit_only, latest, a),
        b.no_duplicates(),
        forall|x: JobId| a.contains(x) <==> #[trigger] b.contains(x),
    ensures
        picked_attempts(s, slot, unit_only, latest, b),
{
    assert forall|k: JobId| #[trigger] sees_attempt(s, slot, unit_only, k) implies exists|x: JobId| #[trigger]
        b.contains(x) && attempt_key(s, x) == attempt_key(s, k) && preferred(attempt_count(s, x), attempt_count(s, k), latest) by {
        let x = choose|x: JobId| #[trigger]
            a.contains(x) && attempt_key(s, x) == attempt_key(s, k) && preferred(attempt_count(s, x), attempt_count(s, k), latest);
        assert(b.contains(x));
    }
}

/// Orders recorded jobs by start time, keeping the given order among jobs
/// that started at the same time.
fn sort_by_start(state: &OrchestratorState, l: &Vec<JobId>) -> (o: Vec<JobId>)
    requires
        l@.no_duplicates(),
        forall|x: JobId| #[trigger] l@.contains(x) ==> state.job_results@.contains_key(x),
    ensures
        o@.no_duplicates(),
        forall|x: JobId| #[trigger] o@.contains(x) <==> l@.contains(x),
        by_start(*state, o@),
{
    let ghost s = *state;
    let mut out: Vec<JobId> = Vec::new();
    let mut times: Vec<i64> = Vec::new();
    let mut i: usize = 0;
    while i < l.len()
        invariant
            s == *state,
            i <= l@.len(),
            l@.no_duplicates(),
            forall|x: JobId| #[trigger] l@.contains(x) ==> state.job_results@.contains_key(x),
            out@.len() == times@.len(),
            forall|j: int| 0 <= j < out@.len() ==> #[trigger] times@[j] == s.job_results@[out@[j]].started_at,
            out@.no_duplicates(),
            forall|x: JobId| #[trigger] out@.contains(x) <==> l@.subrange(0, i as int).contains(x),
            by_start(s, out@),
        decreases l@.len() - i,
    {
        let e = l[i];
        assert(l@.contains(e));
        let t = match state.job_results.get(&e) {
            Some(r) => r.started_at,
            None => 0,
        };
        let mut p: usize = 0;
        while p < times.len() && times[p] <= t
            invariant
                p <= times@.len(),
                out@.len() == times@.len(),
                forall|j: int| 0 <= j < p ==> #[trigger] times@[j] <= t,
            decreases times@.len() - p,
        {
            p = p + 1;
        }
        let ghost before = out@;
        let ghost before_t = times@;
        proof {
            assert forall|j: int| p <= j < before.len() implies #[trigger] before_t[j] > t by {
                assert(before_t[p as int] > t);
                assert(s.job_results@[before[p as int]].started_at <= s.job_results@[before[j]].started_at);
            }
            assert(!before.contains(e)) by {
                if before.contains(e) {
                    assert(l@.subrange(0, i as int).contains(e));
                    let j = choose|j: int| 0 <= j < i && #[trigger] l@.subrange(0, i as int)[j] == e;
                    assert(l@[j] == l@[i as int]);
                }
            }
        }
        out.insert(p, e);
        times.insert(p, t);
        proof {
            let after = out@;
            assert(after == before.insert(p as int, e));
            assert forall|j: int| 0 <= j < after.len() implies #[trigger] times@[j] == s.job_results@[after[j]].started_at by {
                if j < p {
                    assert(after[j] == before[j]);
                } else if j > p {
                    assert(after[j] == before[j - 1]);
                }
            }
            assert forall|a: int, b: int| 0 <= a < after.len() && 0 <= b < after.len() && a != b implies after[a] != after[b] by {
                if a != p && b != p {
                    let a1 = if a < p { a } else { a - 1 };
                    let b1 = if b < p { b } else { b - 1 };
                    assert(after[a] == before[a1]);
                    assert(after[b] == before[b1]);
                } else if a == p {
                    let b1 = if b < p { b } else { b - 1 };
                    assert(after[b] == before[b1]);
                    assert(before.contains(before[b1]));
                } else {
                    let a1 = if a < p { a } else { a - 1 };
                    assert(after[a] == before[a1]);
                    assert(before.contains(before[a1]));
                }
            }
            assert(l@.subrange(0, i + 1) == l@.subrange(0, i as int).push(e));
            assert forall|x: JobId| #[trigger] after.contains(x) <==> l@.subrange(0, i + 1).contains(x) by {
                if after.contains(x) {
                    let j = choose|j: int| 0 <= j < after.len() && #[trigger] after[j] == x;
                    if j < p {
                        assert(before[j] == x);
                        assert(before.contains(x));
                    } else if j > p {
                        assert(before[j - 1] == x);
                        assert(before.contains(x));
                    }
                    if x != e {
                        assert(l@.subrange(0, i as int).contains(x));
                        let q = choose|q: int| 0 <= q < i && #[trigger] l@.subrange(0, i as int)[q] == x;
                        assert(l@.subrange(0, i + 1)[q] == x);
                    } else {
                        assert(l@.subrange(0, i + 1)[i as int] == x);
                    }
                }
                if l@.subrange(0, i + 1).contains(x) {
                    let q = choose|q: int| 0 <= q < i + 1 && #[trigger] l@.subrange(0, i + 1)[q] == x;
                    if q == i {
                        assert(after[p as int] == x);
                    } else {
                        assert(l@.subrange(0, i as int)[q] == x);
                        assert(before.contains(x));
                        let j = choose|j: int| 0 <= j < before.len() && #[trigger] before[j] == x;
                        if j < p {
                            assert(after[j] == x);
                        } else {
                            assert(after[j + 1] == x);
                        }
                    }
                }
            }
            assert forall|a: int, b: int| 0 <= a <= b < after.len() implies s.job_results@[after[a]].started_at
                <= s.job_results@[after[b]].started_at by {
                assert(times@[a] == s.job_results@[after[a]].started_at);
                assert(times@[b] == s.job_results@[after[b]].started_at);
                if a < p && b > p {
                    assert(after[a] == before[a]);
                    assert(after[b] == before[b - 1]);
                    assert(before_t[b - 1] > t);
                } else if a == p && b > p {
                    assert(after[b] == before[b - 1]);
                    assert(before_t[b - 1] > t);
                } else if a < p && b == p {
                    assert(after[a] == before[a]);
                    assert(before_t[a] <= t);
                } else if a > p {
                    assert(after[a] == before[a - 1]);
                    assert(after[b] == before[b - 1]);
                } else if b < p {
                    assert(after[a] == before[a]);
                    assert(after[b] == before[b]);
                }
            }
        }
        i = i + 1;
    }
    assert(l@.subrange(0, i as int) == l@);
    out
}

/// The identification a phase was given, as later jobs of the slot take it:
/// what its first attempt (`first`) was given, else what its latest attempt
/// (`latest`) was given.
pub open spec fn report_input(s: OrchestratorState, first: JobId, latest: JobId) -> Option<UnitInfoView> {
    match opt_unit(s.job_results@[first].input_unit_info) {
        Some(u) => Some(u),
        None => opt_unit(s.job_results@[latest].input_unit_info),
    }
}

/// Whether `rep` is the report of the latest attempt `latest` of a phase
/// whose first attempt is `first`: the unit it reported, with the input
/// `report_input` gives.
pub open spec fn report_of(s: OrchestratorState, first: JobId, latest: JobId, rep: UnitReport) -> bool {
    &&& s.job_results@[latest].unit matches Some(u) && rep.unit@ == u@
    &&& opt_unit(rep.input) == report_input(s, first, latest)
}

/// Whether `reps` are the reports of the latest attempts `o`, each with the
/// input of its phase's first attempt among `f`.
pub open spec fn reports_of(s: OrchestratorState, f: Seq<JobId>, o: Seq<JobId>, reps: Seq<UnitReport>) -> bool {
    &&& reps.len() == o.len()
    &&& forall|i: int, y: JobId|
        0 <= i < o.len() && #[trigger] f.contains(y) && attempt_key(s, y) == attempt_key(s, #[trigger] o[i]) ==> report_of(
            s,
            y,
            o[i],
            reps[i],
        )
}

/// Position in `f` of the recorded job with phase key `key`, if any.
fn find_same_key(state: &OrchestratorState, f: &Vec<JobId>, key: &str) -> (r: Option<usize>)
    requires
        forall|x: JobId| #[trigger] f@.contains(x) ==> state.job_info@.contains_key(x),
    ensures
        match r {
            Some(j) => j < f@.len() && attempt_key(*state, f@[j as int]) == key@,
            None => forall|j: int| 0 <= j < f@.len() ==> attempt_key(*state, #[trigger] f@[j]) != key@,
        },
{
    let mut j: usize = 0;
    while j < f.len()
        invariant
            j <= f@.len(),
            forall|x: JobId| #[trigger] f@.contains(x) ==> state.job_info@.contains_key(x),
            forall|q: int| 0 <= q < j ==> attempt_key(*state, #[trigger] f@[q]) != key@,
        decreases f@.len() - j,
    {
        let y = f[j];
        assert(f@.contains(y));
        if let Some(info) = state.job_info.get(&y) {
            if str_eq(info.phase_key.as_str(), key) {
                return Some(j);
            }
        }
        j = j + 1;
    }
    None
}

/// The identification a job of slot `slot_id` starts from: the slot's
/// starting identification `initial`, with the reports of the earlier phases
/// of that slot applied in order of their start times. For each phase key,
/// the latest attempt that reported a unit counts, and what the phase was
/// given is taken from its first attempt (else from the latest one). Shared
/// phases report nothing here, and a shared job (no slot) starts from
/// `initial`. Attempts with the same number, and phases that started at the
/// same time, are taken in an order left open.
pub fn job_unit_info(initial: Option<UnitInfo>, state: &OrchestratorState, slot_id: Option<&str>) -> (u: Option<UnitInfo>)
    ensures
        exists|o: Seq<JobId>, f: Seq<JobId>, reps: Seq<UnitReport>|
            {
                &&& picked_attempts(*state, crate::state::opt_str(slot_id), true, true, o)
                &&& by_start(*state, o)
                &&& picked_attempts(*state, crate::state::opt_str(slot_id), true, false, f)
                &&& reports_of(*state, f, o, reps)
                &&& opt_unit(u) == merged_reports(opt_unit(initial), reps)
            },
{
    let ghost s = *state;
    let ghost sl = crate::state::opt_str(slot_id);
    let l = pick_attempts(state, slot_id, true, true);
    let f = pick_attempts(state, slot_id, true, false);
    let o = sort_by_start(state, &l);
    proof {
        lemma_picked_same_jobs(s, sl, true, true, l@, o@);
    }
    let mut reps: Vec<UnitReport> = Vec::new();
    let mut i: usize = 0;
    while i < o.len()
        invariant
            s == *state,
            i <= o@.len(),
            reps@.len() == i,
            picked_attempts(s, sl, true, true, o@),
            picked_attempts(s, sl, true, false, f@),
            forall|q: int, y: JobId|
                0 <= q < i && #[trigger] f@.contains(y) && attempt_key(s, y) == attempt_key(s, #[trigger] o@[q]) ==> report_of(
                    s,
                    y,
                    o@[q],
                    reps@[q],
                ),
        decreases o@.len() - i,
    {
        let x = o[i];
        assert(o@.contains(x));
        assert(sees_attempt(s, sl, true, x));
        let info = match state.job_info.get(&x) {
            Some(info) => info,
            None => {
                proof {
                    assert(false);
                }
                return initial;
            },
        };
        let r = match state.job_results.get(&x) {
            Some(r) => r,
            None => {
                proof {
                    assert(false);
                }
                return initial;
            },
        };
        proof {
            assert forall|y: JobId| #[trigger] f@.contains(y) implies state.job_info@.contains_key(y) by {
                assert(sees_attempt(s, sl, true, y));
            }
        }
        let j = match find_same_key(state, &f, info.phase_key.as_str()) {
            Some(j) => j,
            None => {
                proof {
                    let y = choose|y: JobId| #[trigger]
                        f@.contains(y) && attempt_key(s, y) == attempt_key(s, x) && preferred(
                            attempt_count(s, y),
                            attempt_count(s, x),
                            false,
                        );
                    let q = choose|q: int| 0 <= q < f@.len() && #[trigger] f@[q] == y;
                    assert(attempt_key(s, f@[q]) != info.phase_key@);
                    assert(false);
                }
                return initial;
            },
        };
        let y = f[j];
        assert(f@.contains(y));
        assert(sees_attempt(s, sl, true, y));
        let first = match state.job_results.get(&y) {
            Some(r) => r,
            None => {
                proof {
                    assert(false);
                }
                return initial;
            },
        };
        let unit = match &r.unit {
            Some(u) => u.duplicate(),
            None => {
                proof {
                    assert(false);
                }
                return initial;
            },
        };
        let input = match &first.input_unit_info {
            Some(v) => Some(v.duplicate()),
            None => crate::unit::copy_opt_unit(&r.input_unit_info),
        };
        let rep = UnitReport { unit, input };
        let ghost before = reps@;
        reps.push(rep);
        proof {
            assert forall|q: int, z: JobId|
                0 <= q < i + 1 && #[trigger] f@.contains(z) && attempt_key(s, z) == attempt_key(s, #[trigger] o@[q]) implies report_of(
                    s,
                    z,
                    o@[q],
                    reps@[q],
                ) by {
                if q == i {
                    assert(f@.contains(y));
                    assert(attempt_key(s, z) == attempt_key(s, y));
                    assert(z == y);
                } else {
                    assert(reps@[q] == before[q]);
                }
            }
        }
        i = i + 1;
    }
    let u = merge_unit_reports(initial, &reps);
    proof {
        assert(reports_of(s, f@, o@, reps@));
    }
    u
}

/// The latest attempt of each earlier phase that a job of `slot` (none for a
/// shared job) sees: one recorded job per phase key, among the recorded jobs
/// with a result that belong to that slot or are shared, with the highest
/// attempt number of its phase key.
pub fn latest_attempts(state: &OrchestratorState, slot_id: Option<&str>) -> (r: Vec<JobId>)
    ensures
        picked_attempts(*state, crate::state::opt_str(slot_id), false, true, r@),
{
    pick_attempts(state, slot_id, false, true)
}

} // verus!
