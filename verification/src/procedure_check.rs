//! Checks made on a procedure definition before it is accepted: no two of
//! its phases share a key.

use vstd::prelude::*;
use crate::schema::{PhaseDefinition, ProcedureDefinition};
use crate::string_map::str_eq;
use crate::text::{push_str, text_of};

verus! {

/// Every phase of a procedure, stage by stage: shared setup, slot setup,
/// main, slot teardown, shared teardown.
pub open spec fn all_phases(p: ProcedureDefinition) -> Seq<PhaseDefinition> {
    p.setup_all@ + p.setup_each@ + p.main@ + p.teardown_each@ + p.teardown_all@
}

/// Whether the phase at `i` has the key of an earlier phase.
pub open spec fn repeats_key(s: Seq<PhaseDefinition>, i: int) -> bool {
    exists|j: int| 0 <= j < i && s[j].key@ == s[i].key@
}

/// The message for a phase whose key was already taken.
pub open spec fn duplicate_key_message(p: PhaseDefinition) -> Seq<char> {
    "Duplicate phase key detected: '"@ + p.name@ + "' (key: '"@ + p.key@ + "' conflicts with another phase)"@
}

/// Appends the key and name of each phase.
fn push_keys(out: &mut Vec<(String, String)>, phases: &Vec<PhaseDefinition>, Ghost(acc): Ghost<Seq<PhaseDefinition>>)
    requires
        old(out)@.len() == acc.len(),
        forall|k: int| 0 <= k < acc.len() ==> (#[trigger] old(out)@[k]).0@ == acc[k].key@ && old(out)@[k].1@
            == acc[k].name@,
    ensures
        final(out)@.len() == (acc + phases@).len(),
        forall|k: int| 0 <= k < (acc + phases@).len() ==> (#[trigger] final(out)@[k]).0@ == (acc + phases@)[k].key@
            && final(out)@[k].1@ == (acc + phases@)[k].name@,
{
    let ghost all = acc + phases@;
    let mut i: usize = 0;
    while i < phases.len()
        invariant
            all == acc + phases@,
            i <= phases@.len(),
            out@.len() == acc.len() + i,
            forall|k: int| 0 <= k < acc.len() + i ==> (#[trigger] out@[k]).0@ == all[k].key@ && out@[k].1@
                == all[k].name@,
        decreases phases@.len() - i,
    {
        out.push((phases[i].key.clone(), phases[i].name.clone()));
        i = i + 1;
    }
}

/// Checks that no two phases of a procedure share a key; the first phase
/// (stage by stage) that repeats an earlier key is reported.
pub fn check_phase_keys(procedure: &ProcedureDefinition) -> (r: Result<(), String>)
    ensures
        r is Ok <==> forall|i: int| 0 <= i < all_phases(*procedure).len() ==> !repeats_key(all_phases(*procedure), i),
        r matches Err(e) ==> exists|i: int|
            0 <= i < all_phases(*procedure).len() && repeats_key(all_phases(*procedure), i) && (forall|k: int|
                0 <= k < i ==> !repeats_key(all_phases(*procedure), k)) && e@ == duplicate_key_message(
                #[trigger] all_phases(*procedure)[i],
            ),
{
    let ghost s = all_phases(*procedure);
    let mut keys: Vec<(String, String)> = Vec::new();
    push_keys(&mut keys, &procedure.setup_all, Ghost(Seq::empty()));
    assert(Seq::<PhaseDefinition>::empty() + procedure.setup_all@ =~= procedure.setup_all@);
    push_keys(&mut keys, &procedure.setup_each, Ghost(procedure.setup_all@));
    push_keys(&mut keys, &procedure.main, Ghost(procedure.setup_all@ + procedure.setup_each@));
    push_keys(&mut keys, &procedure.teardown_each, Ghost(procedure.setup_all@ + procedure.setup_each@ + procedure.main@));
    push_keys(
        &mut keys,
        &procedure.teardown_all,
        Ghost(procedure.setup_all@ + procedure.setup_each@ + procedure.main@ + procedure.teardown_each@),
    );
    let n = keys.len();
    let mut i: usize = 0;
    while i < n
        invariant
            n == keys@.len(),
            n == s.len(),
            s == all_phases(*procedure),
            forall|k: int| 0 <= k < n ==> (#[trigger] keys@[k]).0@ == s[k].key@ && keys@[k].1@ == s[k].name@,
            i <= n,
            forall|k: int| 0 <= k < i ==> !repeats_key(s, k),
        decreases n - i,
    {
        let mut j: usize = 0;
        while j < i
            invariant
                n == keys@.len(),
                n == s.len(),
                s == all_phases(*procedure),
                i < n,
                forall|k: int| 0 <= k < i ==> !repeats_key(s, k),
                forall|k: int| 0 <= k < n ==> (#[trigger] keys@[k]).0@ == s[k].key@ && keys@[k].1@ == s[k].name@,
                j <= i,
                forall|k: int| 0 <= k < j ==> s[k].key@ != s[i as int].key@,
            decreases i - j,
        {
            if str_eq(keys[j].0.as_str(), keys[i].0.as_str()) {
                assert(s[j as int].key@ == s[i as int].key@);
                assert(repeats_key(s, i as int));
                let mut msg = text_of("Duplicate phase key detected: '");
                push_str(&mut msg, keys[i].1.as_str());
                push_str(&mut msg, "' (key: '");
                push_str(&mut msg, keys[i].0.as_str());
                push_str(&mut msg, "' conflicts with another phase)");
                assert(msg@ == duplicate_key_message(all_phases(*procedure)[i as int]));
                return Err(msg);
            }
            j = j + 1;
        }
        i = i + 1;
    }
    Ok(())
}

} // verus!
