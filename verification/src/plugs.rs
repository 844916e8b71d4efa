//! When plugs (instrument drivers) are created and destroyed around a
//! run, and which plug definitions a job uses. Starting and stopping the
//! plug services is left to the caller.

use vstd::prelude::*;
use crate::job::Job;
use crate::planning::texts;
use crate::schema::{PlugDefinition, ProcedureDefinition, StageScope};
use crate::string_map::str_eq;
use crate::unit::opt_text;

verus! {

/// Which plugs must exist before a job starts.
#[derive(Debug)]
pub enum PlugCreation {
    Nothing,
    /// The plugs shared by all slots.
    Shared,
    /// The plugs of one slot.
    ForSlot(String),
}

/// Plugs are created before the first phase that may use them: the shared
/// plugs before the first shared setup phase, a slot's plugs before its
/// first setup phase.
pub fn plugs_to_create(job: &Job, shared_created: bool, created_slots: &Vec<String>) -> (c: PlugCreation)
    ensures
        job.stage_scope == StageScope::SetupAll && !shared_created ==> c is Shared,
        job.stage_scope == StageScope::SetupEach && job.slot_id is Some && !texts(created_slots@).contains(
            job.slot_id->0@,
        ) ==> (c matches PlugCreation::ForSlot(s) && s@ == job.slot_id->0@),
        !(job.stage_scope == StageScope::SetupAll && !shared_created) && !(job.stage_scope == StageScope::SetupEach
            && job.slot_id is Some && !texts(created_slots@).contains(job.slot_id->0@)) ==> c is Nothing,
{
    match job.stage_scope {
        StageScope::SetupAll => {
            if shared_created {
                PlugCreation::Nothing
            } else {
                PlugCreation::Shared
            }
        },
        StageScope::SetupEach => match &job.slot_id {
            Some(slot) => {
                let mut i: usize = 0;
                while i < created_slots.len()
                    invariant
                        i <= created_slots@.len(),
                        job.stage_scope == StageScope::SetupEach,
                        job.slot_id matches Some(x) && x@ == slot@,
                        forall|k: int| 0 <= k < i ==> created_slots@[k]@ != slot@,
                    decreases created_slots@.len() - i,
                {
                    if str_eq(created_slots[i].as_str(), slot.as_str()) {
                        assert(texts(created_slots@)[i as int] == slot@);
                        return PlugCreation::Nothing;
                    }
                    i = i + 1;
                }
                assert(!texts(created_slots@).contains(slot@)) by {
                    if texts(created_slots@).contains(slot@) {
                        let k = choose|k: int| 0 <= k < texts(created_slots@).len() && texts(created_slots@)[k] == slot@;
                        assert(created_slots@[k]@ == slot@);
                    }
                }
                PlugCreation::ForSlot(slot.clone())
            },
            None => PlugCreation::Nothing,
        },
        _ => PlugCreation::Nothing,
    }
}

/// Which plugs are destroyed after a job finished.
#[derive(Debug)]
pub enum PlugTeardown {
    Nothing,
    /// The plugs of one slot.
    ForSlot(String),
    /// The plugs shared by all slots.
    Shared,
}

/// Plugs are destroyed after the last phase that may use them: a slot's
/// plugs after each of its teardown phases, the shared plugs after each
/// shared teardown phase.
pub fn plugs_to_destroy(job: &Job) -> (t: PlugTeardown)
    ensures
        job.stage_scope == StageScope::TeardownEach && job.slot_id is Some ==> (t matches PlugTeardown::ForSlot(s)
            && s@ == job.slot_id->0@),
        job.stage_scope == StageScope::TeardownAll ==> t is Shared,
        !(job.stage_scope == StageScope::TeardownEach && job.slot_id is Some) && job.stage_scope
            != StageScope::TeardownAll ==> t is Nothing,
{
    match job.stage_scope {
        StageScope::TeardownEach => match &job.slot_id {
            Some(slot) => PlugTeardown::ForSlot(slot.clone()),
            None => PlugTeardown::Nothing,
        },
        StageScope::TeardownAll => PlugTeardown::Shared,
        _ => PlugTeardown::Nothing,
    }
}

/// The first plug of the procedure with a key, if any.
pub open spec fn plug_with_key(plugs: Seq<PlugDefinition>, key: Seq<char>) -> Option<int>
    decreases plugs.len(),
{
    if plugs.len() == 0 {
        None
    } else {
        match plug_with_key(plugs.drop_last(), key) {
            Some(i) => Some(i),
            None => if plugs.last().key@ == key {
                Some(plugs.len() - 1)
            } else {
                None
            },
        }
    }
}

/// The definitions of the plugs a job requires, in the order it requires
/// them (a key the procedure does not define is left out).
pub open spec fn job_plugs(plugs: Seq<PlugDefinition>, required: Seq<String>) -> Seq<int>
    decreases required.len(),
{
    if required.len() == 0 {
        Seq::empty()
    } else {
        let rest = job_plugs(plugs, required.drop_last());
        match plug_with_key(plugs, required.last()@) {
            Some(i) => rest.push(i),
            None => rest,
        }
    }
}

proof fn lemma_plug_with_key(plugs: Seq<PlugDefinition>, key: Seq<char>)
    ensures
        match plug_with_key(plugs, key) {
            Some(i) => 0 <= i < plugs.len() && plugs[i].key@ == key && forall|k: int| 0 <= k < i ==> plugs[k].key@ != key,
            None => forall|k: int| 0 <= k < plugs.len() ==> plugs[k].key@ != key,
        },
    decreases plugs.len(),
{
    if plugs.len() > 0 {
        lemma_plug_with_key(plugs.drop_last(), key);
        assert forall|k: int| 0 <= k < plugs.len() - 1 implies plugs.drop_last()[k] == plugs[k] by {}
    }
}

/// Finds the first plug with a key.
fn find_plug(plugs: &Vec<PlugDefinition>, key: &str) -> (r: Option<usize>)
    ensures
        match r {
            Some(i) => plug_with_key(plugs@, key@) == Some(i as int),
            None => plug_with_key(plugs@, key@) is None,
        },
{
    proof {
        lemma_plug_with_key(plugs@, key@);
    }
    let mut i: usize = 0;
    while i < plugs.len()
        invariant
            i <= plugs@.len(),
            forall|k: int| 0 <= k < i ==> plugs@[k].key@ != key@,
            match plug_with_key(plugs@, key@) {
                Some(f) => 0 <= f < plugs@.len() && plugs@[f].key@ == key@ && forall|k: int|
                    0 <= k < f ==> plugs@[k].key@ != key@,
                None => forall|k: int| 0 <= k < plugs@.len() ==> plugs@[k].key@ != key@,
            },
        decreases plugs@.len() - i,
    {
        if str_eq(plugs[i].key.as_str(), key) {
            return Some(i);
        }
        i = i + 1;
    }
    None
}

/// The definitions of the plugs a job requires, by position in the
/// procedure's plug list, in the order the job requires them; a required
/// key the procedure does not define is left out.
pub fn get_plug_configs_for_job(procedure: &ProcedureDefinition, job: &Job) -> (r: Vec<usize>)
    ensures
        r@.map_values(|i: usize| i as int) == job_plugs(procedure.plugs@, job.required_plugs@),
{
    let mut r: Vec<usize> = Vec::new();
    let mut j: usize = 0;
    while j < job.required_plugs.len()
        invariant
            j <= job.required_plugs@.len(),
            r@.map_values(|i: usize| i as int) == job_plugs(procedure.plugs@, job.required_plugs@.subrange(0, j as int)),
        decreases job.required_plugs@.len() - j,
    {
        let ghost sub0 = job.required_plugs@.subrange(0, j as int);
        let ghost sub1 = job.required_plugs@.subrange(0, j + 1);
        proof {
            assert(sub1.drop_last() =~= sub0);
            assert(sub1.last() == job.required_plugs@[j as int]);
            lemma_plug_with_key(procedure.plugs@, job.required_plugs@[j as int]@);
        }
        let ghost before = r@;
        match find_plug(&procedure.plugs, job.required_plugs[j].as_str()) {
            Some(i) => {
                assert(job_plugs(procedure.plugs@, sub1) == job_plugs(procedure.plugs@, sub0).push(i as int));
                r.push(i);
                assert(r@.map_values(|x: usize| x as int) =~= before.map_values(|x: usize| x as int).push(i as int));
            },
            None => {
                assert(job_plugs(procedure.plugs@, sub1) == job_plugs(procedure.plugs@, sub0));
            },
        }
        j = j + 1;
    }
    assert(job.required_plugs@.subrange(0, j as int) =~= job.required_plugs@);
    r
}

} // verus!
