//! Planning a run: one job per enabled phase (shared phases once, slot phases
//! once per slot), the implicit ordering between stages, and the order in
//! which jobs are queued.

use vstd::prelude::*;
use crate::id_map::JobIdMap;
use crate::ids::JobId;
use crate::job::{copy_ids, resolved_deps, same_opt_result, same_plan, Job, JobStatus, RuntimeType, DEFAULT_RETRY_LIMIT};
use crate::measurements::{copy_measurement_specs, same_measurement_specs};
use crate::schema::{
    ExecutionStrategy, FirstFailureAction, PhaseDefinition, PlugDefinition, ProcedureDefinition, Scope,
    StageScope,
};
use crate::state::{slot_view, track_slots, OrchestratorState};
use crate::string_map::str_eq;
use crate::text::{copy_opt_text, copy_texts, push_decimal, push_str, text_of};
use crate::ui::UiConfig;
use crate::ui_conversion::{convert_ui_config, phase_ui_config};
use crate::unit::opt_text;

verus! {

/// A phase of the execution plan shown before a run.
pub struct PlannedPhase {
    pub phase_key: String,
    pub phase_name: String,
    pub stage_scope: StageScope,
}

/// A plug of the execution plan (`scope` is `all` or `each`).
pub struct PlannedPlug {
    pub plug_key: String,
    pub plug_name: String,
    pub scope: String,
}

/// The execution plan shown before a run.
pub struct ExecutionPlan {
    pub phases: Vec<PlannedPhase>,
    pub plugs_all: Vec<PlannedPlug>,
    pub plugs_each: Vec<PlannedPlug>,
    pub slots: Vec<String>,
    pub total_expected_jobs: usize,
}

/// The most jobs the queue may hold.
pub const MAX_JOB_QUEUE_SIZE: usize = 10000;

/// The runtime that runs a phase: Python when it names a Python callable,
/// else a shell when it names a command, else the built-in runtime.
pub open spec fn phase_runtime(p: PhaseDefinition) -> RuntimeType {
    if p.python is Some {
        RuntimeType::Python
    } else if p.executable is Some {
        RuntimeType::Shell
    } else {
        RuntimeType::Native
    }
}

/// The keys of the procedure's plugs, in order.
pub open spec fn plug_keys(plugs: Seq<PlugDefinition>) -> Seq<Seq<char>> {
    plugs.map_values(|p: PlugDefinition| p.key@)
}

/// The texts of a list of strings.
pub open spec fn texts(v: Seq<String>) -> Seq<Seq<char>> {
    v.map_values(|s: String| s@)
}

/// Lists the keys of the procedure's plugs.
fn all_plug_keys(procedure: &ProcedureDefinition) -> (r: Vec<String>)
    ensures
        texts(r@) == plug_keys(procedure.plugs@),
{
    let mut r: Vec<String> = Vec::new();
    let mut i: usize = 0;
    while i < procedure.plugs.len()
        invariant
            i <= procedure.plugs@.len(),
            r@.len() == i,
            forall|k: int| 0 <= k < i ==> (#[trigger] r@[k])@ == procedure.plugs@[k].key@,
        decreases procedure.plugs@.len() - i,
    {
        r.push(procedure.plugs[i].key.clone());
        i = i + 1;
    }
    assert(texts(r@) =~= plug_keys(procedure.plugs@));
    r
}

/// What `create_job_for_phase` builds for a phase: a pending first attempt
/// of the phase for the slot, on the phase's runtime, whose dependencies
/// are the registered ones among `deps`, that may use every plug of the
/// procedure, with the phase's UI converted and, unless it runs a shell
/// command, the phase's declared measurements.
pub open spec fn job_for_phase(
    job: Job,
    phase: PhaseDefinition,
    slot_id: Option<Seq<char>>,
    stage: StageScope,
    deps: Seq<Seq<char>>,
    job_map: Map<Seq<char>, JobId>,
    procedure: ProcedureDefinition,
) -> bool {
    &&& opt_text(job.slot_id) == slot_id
    &&& job.phase_key@ == phase.key@
    &&& job.phase_name@ == phase.name@
    &&& job.stage_scope == stage
    &&& job.depends_on@ == resolved_deps(slot_id, deps, job_map)
    &&& texts(job.required_plugs@) == plug_keys(procedure.plugs@)
    &&& job.status == JobStatus::Pending
    &&& job.result is None
    &&& job.retry_count == 0
    &&& job.retry_limit == (match phase.retry {
        Some(r) => r.limit,
        None => DEFAULT_RETRY_LIMIT,
    })
    &&& job.retry_delay_ms == (match phase.retry {
        Some(r) => r.delay,
        None => None,
    })
    &&& job.timeout_ms == phase.timeout
    &&& job.runtime_type == phase_runtime(phase)
    &&& job.initial_unit_info is None
    &&& job.dependency_id == job.id
    &&& phase_ui_config(job.ui_config, phase.ui)
    &&& if phase.python is None && phase.executable is Some {
        job.phase_measurements@.len() == 0
    } else {
        same_measurement_specs(job.phase_measurements@, phase.measurements@)
    }
}

/// Creates the job of a phase for a slot (or shared, without one), with the
/// runtime the phase calls for.
pub fn create_job_for_phase(
    phase: &PhaseDefinition,
    slot_id: Option<String>,
    stage_scope: StageScope,
    dependencies: Vec<String>,
    job_map: &JobIdMap,
    procedure_dir: &str,
    procedure: &ProcedureDefinition,
) -> (job: Job)
    ensures
        job_for_phase(job, *phase, opt_text(slot_id), stage_scope, texts(dependencies@), job_map@, *procedure),
        phase.python matches Some(py) ==> job.module@ == py.module@ && job.function@ == py.function@,
        phase.python is None ==> (phase.executable matches Some(ex) ==> {
            &&& job.command matches Some(c) && c@ == ex.command@
            &&& opt_text(job.shell_type) == opt_text(ex.shell)
            &&& opt_text(job.working_directory) == opt_text(ex.working_directory)
            &&& job.procedure_dir matches Some(d) && d@ == procedure_dir@
        }),
{
    let ui_config = match &phase.ui {
        Some(ui) => convert_ui_config(ui),
        None => UiConfig::empty(),
    };
    let timeout_ms = phase.get_timeout_ms();
    let (retry_limit, retry_delay_ms) = match &phase.retry {
        Some(r) => (Some(r.limit), r.delay),
        None => (None, None),
    };
    let plugs = all_plug_keys(procedure);
    let ghost slot_text = opt_text(slot_id);
    let ghost dep_texts = texts(dependencies@);
    let ghost plug_list = plugs@;
    let phase_key = phase.key.clone();
    let phase_name = phase.name.clone();
    if let Some(py) = &phase.python {
        Job::new(
            slot_id,
            phase_key,
            phase_name,
            stage_scope,
            py.get_module(),
            py.get_callable_name(),
            dependencies,
            plugs,
            ui_config,
            timeout_ms,
            retry_limit,
            retry_delay_ms,
            job_map,
            copy_measurement_specs(&phase.measurements),
        )
    } else if let Some(ex) = &phase.executable {
        Job::new_shell(
            slot_id,
            phase_key,
            phase_name,
            stage_scope,
            ex.command.clone(),
            dependencies,
            plugs,
            ui_config,
            timeout_ms,
            retry_limit,
            retry_delay_ms,
            job_map,
            copy_opt_text(&ex.shell),
            copy_opt_text(&ex.working_directory),
            Some(text_of(procedure_dir)),
        )
    } else {
        Job::new_native(
            slot_id,
            phase_key,
            phase_name,
            stage_scope,
            dependencies,
            plugs,
            ui_config,
            timeout_ms,
            retry_limit,
            retry_delay_ms,
            job_map,
            copy_measurement_specs(&phase.measurements),
        )
    }
}

/// Whether `a` is a copy of the planned job `b`: same identity, plan, state
/// and attempt.
pub open spec fn is_copy(a: Job, b: Job) -> bool {
    same_plan(a, b) && a.id == b.id && a.status == b.status && a.retry_count == b.retry_count
        && a.result is None && b.result is None
}

/// Whether `a` is a copy of the job `b`: same identity, plan, state,
/// attempt and result.
pub open spec fn is_copy_of(a: Job, b: Job) -> bool {
    same_plan(a, b) && a.id == b.id && a.status == b.status && a.retry_count == b.retry_count
        && same_opt_result(a.result, b.result)
}

/// Whether each job of `a` is a copy (result included) of the job at the
/// same place in `b`.
pub open spec fn copied(a: Seq<Job>, b: Seq<Job>) -> bool {
    a.len() == b.len() && forall|k: int| 0 <= k < a.len() ==> is_copy_of(#[trigger] a[k], b[k])
}

/// Whether each job of `a` is a copy of the job at the same place in `b`.
pub open spec fn copies(a: Seq<Job>, b: Seq<Job>) -> bool {
    a.len() == b.len() && forall|k: int| 0 <= k < a.len() ==> is_copy(#[trigger] a[k], b[k])
}

/// A copy of a job, its result included.
pub fn copy_job(j: &Job) -> (r: Job)
    ensures
        is_copy_of(r, *j),
{
    let required_plugs = copy_texts(&j.required_plugs);
    assert(required_plugs@.map_values(|s: String| s@) =~= j.required_plugs@.map_values(|s: String| s@));
    Job {
        id: j.id,
        slot_id: copy_opt_text(&j.slot_id),
        phase_key: j.phase_key.clone(),
        phase_name: j.phase_name.clone(),
        stage_scope: j.stage_scope,
        module: j.module.clone(),
        function: j.function.clone(),
        depends_on: copy_ids(&j.depends_on),
        required_plugs,
        ui_config: j.ui_config.duplicate(),
        status: j.status,
        result: match &j.result {
            Some(res) => Some(res.duplicate()),
            None => None,
        },
        retry_count: j.retry_count,
        retry_limit: j.retry_limit,
        retry_delay_ms: j.retry_delay_ms,
        timeout_ms: j.timeout_ms,
        runtime_type: j.runtime_type,
        command: copy_opt_text(&j.command),
        shell_type: copy_opt_text(&j.shell_type),
        working_directory: copy_opt_text(&j.working_directory),
        procedure_dir: copy_opt_text(&j.procedure_dir),
        phase_measurements: copy_measurement_specs(&j.phase_measurements),
        initial_unit_info: crate::unit::copy_opt_unit(&j.initial_unit_info),
        phase_results: j.phase_results.duplicate(),
        dependency_id: j.dependency_id,
    }
}

/// A copy of a job that has not run.
fn copy_planned_job(j: &Job) -> (r: Job)
    requires
        j.result is None,
    ensures
        is_copy(r, *j),
{
    copy_job(j)
}

/// Whether a job is for the slot (any slot when `slot` is `None`) and stage.
pub open spec fn job_in(j: Job, stage: StageScope, slot: Option<Seq<char>>) -> bool {
    j.stage_scope == stage && match slot {
        Some(s) => opt_text(j.slot_id) == Some(s),
        None => true,
    }
}

/// The jobs of a list for a slot and stage, in order.
pub open spec fn jobs_in(jobs: Seq<Job>, stage: StageScope, slot: Option<Seq<char>>) -> Seq<Job>
    decreases jobs.len(),
{
    if jobs.len() == 0 {
        Seq::empty()
    } else if job_in(jobs.last(), stage, slot) {
        jobs_in(jobs.drop_last(), stage, slot).push(jobs.last())
    } else {
        jobs_in(jobs.drop_last(), stage, slot)
    }
}

/// The identifiers of the jobs of a list for a slot and stage, in order.
pub open spec fn ids_in(jobs: Seq<Job>, stage: StageScope, slot: Option<Seq<char>>) -> Seq<JobId> {
    jobs_in(jobs, stage, slot).map_values(|j: Job| j.id)
}

/// Copies the jobs of a list for a slot (any slot when `None`) and stage.
pub fn filter_jobs_by_slot_and_type(jobs: &Vec<Job>, slot_id: Option<&str>, stage_scope: StageScope) -> (r: Vec<Job>)
    ensures
        copied(r@, jobs_in(jobs@, stage_scope, crate::state::opt_str(slot_id))),
{
    let ghost slot = crate::state::opt_str(slot_id);
    let mut r: Vec<Job> = Vec::new();
    let mut i: usize = 0;
    while i < jobs.len()
        invariant
            i <= jobs@.len(),
            slot == crate::state::opt_str(slot_id),
            copied(r@, jobs_in(jobs@.subrange(0, i as int), stage_scope, slot)),
        decreases jobs@.len() - i,
    {
        let j = &jobs[i];
        proof {
            assert(jobs@.subrange(0, i + 1).drop_last() =~= jobs@.subrange(0, i as int));
            assert(jobs@.subrange(0, i + 1).last() == *j);
        }
        let slot_ok = match slot_id {
            Some(s) => match &j.slot_id {
                Some(id) => str_eq(id.as_str(), s),
                None => false,
            },
            None => true,
        };
        if j.stage_scope == stage_scope && slot_ok {
            assert(job_in(*j, stage_scope, slot));
            r.push(copy_job(j));
        } else {
            assert(!job_in(*j, stage_scope, slot));
        }
        i = i + 1;
    }
    assert(jobs@.subrange(0, i as int) =~= jobs@);
    r
}

/// The identifiers of the jobs of a list for a slot (any slot when `None`)
/// and stage, in order.
fn collect_ids(jobs: &Vec<Job>, stage_scope: StageScope, slot_id: Option<&str>) -> (r: Vec<JobId>)
    ensures
        r@ == ids_in(jobs@, stage_scope, crate::state::opt_str(slot_id)),
{
    let ghost slot = crate::state::opt_str(slot_id);
    let mut r: Vec<JobId> = Vec::new();
    let mut i: usize = 0;
    while i < jobs.len()
        invariant
            i <= jobs@.len(),
            slot == crate::state::opt_str(slot_id),
            r@ == ids_in(jobs@.subrange(0, i as int), stage_scope, slot),
        decreases jobs@.len() - i,
    {
        let j = &jobs[i];
        proof {
            assert(jobs@.subrange(0, i + 1).drop_last() =~= jobs@.subrange(0, i as int));
            assert(jobs@.subrange(0, i + 1).last() == *j);
        }
        let slot_ok = match slot_id {
            Some(s) => match &j.slot_id {
                Some(id) => str_eq(id.as_str(), s),
                None => false,
            },
            None => true,
        };
        if j.stage_scope == stage_scope && slot_ok {
            assert(job_in(*j, stage_scope, slot));
            r.push(j.id);
            assert(r@ =~= ids_in(jobs@.subrange(0, i + 1), stage_scope, slot));
        } else {
            assert(!job_in(*j, stage_scope, slot));
        }
        i = i + 1;
    }
    assert(jobs@.subrange(0, i as int) =~= jobs@);
    r
}

/// The dependencies that a job's stage adds: slot setups, slot teardowns and
/// main phases wait for the shared setup; main phases for their slot's
/// setup; a slot's teardown for its main phases; the shared teardown for
/// every slot's teardown.
pub open spec fn implicit_deps(jobs: Seq<Job>, j: Job) -> Seq<JobId> {
    match j.stage_scope {
        StageScope::SetupAll => Seq::empty(),
        StageScope::SetupEach => ids_in(jobs, StageScope::SetupAll, None),
        StageScope::Main => ids_in(jobs, StageScope::SetupAll, None) + match j.slot_id {
            Some(s) => ids_in(jobs, StageScope::SetupEach, Some(s@)),
            None => Seq::empty(),
        },
        StageScope::TeardownEach => ids_in(jobs, StageScope::SetupAll, None) + match j.slot_id {
            Some(s) => ids_in(jobs, StageScope::Main, Some(s@)),
            None => Seq::empty(),
        },
        StageScope::TeardownAll => ids_in(jobs, StageScope::TeardownEach, None),
    }
}

fn implicit_deps_of(jobs: &Vec<Job>, i: usize) -> (r: Vec<JobId>)
    requires
        i < jobs@.len(),
    ensures
        r@ == implicit_deps(jobs@, jobs@[i as int]),
{
    let j = &jobs[i];
    match j.stage_scope {
        StageScope::SetupAll => Vec::new(),
        StageScope::SetupEach => collect_ids(jobs, StageScope::SetupAll, None),
        StageScope::Main => {
            let mut r = collect_ids(jobs, StageScope::SetupAll, None);
            if let Some(s) = &j.slot_id {
                let mut more = collect_ids(jobs, StageScope::SetupEach, Some(s.as_str()));
                r.append(&mut more);
            }
            r
        },
        StageScope::TeardownEach => {
            let mut r = collect_ids(jobs, StageScope::SetupAll, None);
            if let Some(s) = &j.slot_id {
                let mut more = collect_ids(jobs, StageScope::Main, Some(s.as_str()));
                r.append(&mut more);
            }
            r
        },
        StageScope::TeardownAll => collect_ids(jobs, StageScope::TeardownEach, None),
    }
}

/// `after` is `before` with each job's implicit dependencies added after
/// its own.
pub open spec fn with_implicit_deps(before: Seq<Job>, after: Seq<Job>) -> bool {
    &&& after.len() == before.len()
    &&& forall|k: int| 0 <= k < after.len() ==> {
        &&& (#[trigger] after[k]).depends_on@ == before[k].depends_on@ + implicit_deps(before, before[k])
        &&& after[k] == Job { depends_on: after[k].depends_on, ..before[k] }
    }
}

/// A job of the list for a slot and stage has its identifier among theirs.
pub proof fn lemma_ids_in_contains(jobs: Seq<Job>, stage: StageScope, slot: Option<Seq<char>>, j: int)
    requires
        0 <= j < jobs.len(),
        job_in(jobs[j], stage, slot),
    ensures
        ids_in(jobs, stage, slot).contains(jobs[j].id),
    decreases jobs.len(),
{
    let ids = ids_in(jobs, stage, slot);
    if j == jobs.len() - 1 {
        assert(ids[ids.len() - 1] == jobs[j].id);
    } else {
        lemma_ids_in_contains(jobs.drop_last(), stage, slot, j);
        let prev = ids_in(jobs.drop_last(), stage, slot);
        let x = choose|x: int| 0 <= x < prev.len() && prev[x] == jobs[j].id;
        assert(ids[x] == jobs[j].id);
    }
}

/// The ordering that planning builds in: every slot setup, main phase and
/// slot teardown waits for every shared setup; a main phase for every setup
/// of its slot; a slot teardown for every main phase of its slot; a shared
/// teardown for every slot teardown.
pub proof fn lemma_stage_ordering(before: Seq<Job>, after: Seq<Job>, i: int, j: int)
    requires
        with_implicit_deps(before, after),
        0 <= i < before.len(),
        0 <= j < before.len(),
    ensures
        before[j].stage_scope == StageScope::SetupAll && (before[i].stage_scope == StageScope::SetupEach
            || before[i].stage_scope == StageScope::Main || before[i].stage_scope == StageScope::TeardownEach)
            ==> after[i].depends_on@.contains(before[j].id),
        before[i].stage_scope == StageScope::Main && before[j].stage_scope == StageScope::SetupEach
            && before[i].slot_id is Some && opt_text(before[j].slot_id) == opt_text(before[i].slot_id)
            ==> after[i].depends_on@.contains(before[j].id),
        before[i].stage_scope == StageScope::TeardownEach && before[j].stage_scope == StageScope::Main
            && before[i].slot_id is Some && opt_text(before[j].slot_id) == opt_text(before[i].slot_id)
            ==> after[i].depends_on@.contains(before[j].id),
        before[i].stage_scope == StageScope::TeardownAll && before[j].stage_scope == StageScope::TeardownEach
            ==> after[i].depends_on@.contains(before[j].id),
{
    let own = before[i].depends_on@;
    let d = after[i].depends_on@;
    assert(d == own + implicit_deps(before, before[i]));
    if before[j].stage_scope == StageScope::SetupAll {
        lemma_ids_in_contains(before, StageScope::SetupAll, None, j);
        let ids = ids_in(before, StageScope::SetupAll, None);
        let x = choose|x: int| 0 <= x < ids.len() && ids[x] == before[j].id;
        if before[i].stage_scope == StageScope::SetupEach || before[i].stage_scope == StageScope::Main
            || before[i].stage_scope == StageScope::TeardownEach {
            assert(d[own.len() + x] == before[j].id);
        }
    }
    if before[i].slot_id is Some && opt_text(before[j].slot_id) == opt_text(before[i].slot_id) {
        let s = before[i].slot_id->0@;
        if before[i].stage_scope == StageScope::Main && before[j].stage_scope == StageScope::SetupEach {
            lemma_ids_in_contains(before, StageScope::SetupEach, Some(s), j);
            let base = ids_in(before, StageScope::SetupAll, None);
            let ids = ids_in(before, StageScope::SetupEach, Some(s));
            let x = choose|x: int| 0 <= x < ids.len() && ids[x] == before[j].id;
            assert(d[own.len() + base.len() + x] == before[j].id);
        }
        if before[i].stage_scope == StageScope::TeardownEach && before[j].stage_scope == StageScope::Main {
            lemma_ids_in_contains(before, StageScope::Main, Some(s), j);
            let base = ids_in(before, StageScope::SetupAll, None);
            let ids = ids_in(before, StageScope::Main, Some(s));
            let x = choose|x: int| 0 <= x < ids.len() && ids[x] == before[j].id;
            assert(d[own.len() + base.len() + x] == before[j].id);
        }
    }
    if before[i].stage_scope == StageScope::TeardownAll && before[j].stage_scope == StageScope::TeardownEach {
        lemma_ids_in_contains(before, StageScope::TeardownEach, None, j);
        let ids = ids_in(before, StageScope::TeardownEach, None);
        let x = choose|x: int| 0 <= x < ids.len() && ids[x] == before[j].id;
        assert(d[own.len() + x] == before[j].id);
    }
}

/// Adds to each job the dependencies that its stage implies (see
/// `implicit_deps`); nothing else changes.
pub fn add_implicit_dependencies(jobs: Vec<Job>) -> (r: Vec<Job>)
    ensures
        with_implicit_deps(jobs@, r@),
{
    let mut extras: Vec<Vec<JobId>> = Vec::new();
    let mut i: usize = 0;
    while i < jobs.len()
        invariant
            i <= jobs@.len(),
            extras@.len() == i,
            forall|k: int| 0 <= k < i ==> (#[trigger] extras@[k])@ == implicit_deps(jobs@, jobs@[k]),
        decreases jobs@.len() - i,
    {
        extras.push(implicit_deps_of(&jobs, i));
        i = i + 1;
    }
    let ghost all = jobs@;
    let ghost all_extras = extras@;
    let mut rest = jobs;
    let mut out: Vec<Job> = Vec::new();
    let total = rest.len();
    let mut i: usize = 0;
    while rest.len() > 0
        invariant
            all.len() == total,
            all_extras.len() == total,
            forall|k: int| 0 <= k < total ==> (#[trigger] all_extras[k])@ == implicit_deps(all, all[k]),
            i + rest@.len() == total,
            rest@ == all.subrange(i as int, total as int),
            extras@ == all_extras.subrange(i as int, total as int),
            out@.len() == i,
            forall|k: int| 0 <= k < i ==> {
                &&& (#[trigger] out@[k]).depends_on@ == all[k].depends_on@ + implicit_deps(all, all[k])
                &&& out@[k] == Job { depends_on: out@[k].depends_on, ..all[k] }
            },
        decreases rest@.len(),
    {
        let mut job = rest.remove(0);
        let mut extra = extras.remove(0);
        assert(job == all[i as int]);
        assert(extra@ == implicit_deps(all, all[i as int]));
        job.depends_on.append(&mut extra);
        out.push(job);
        proof {
            assert(rest@ =~= all.subrange(i + 1, total as int));
            assert(extras@ =~= all_extras.subrange(i + 1, total as int));
        }
        i = i + 1;
    }
    out
}

/// What a planned job stands for: its stage, its slot, its phase.
pub open spec fn plan_entry(j: Job) -> (StageScope, Option<Seq<char>>, Seq<char>) {
    (j.stage_scope, opt_text(j.slot_id), j.phase_key@)
}

/// What a list of planned jobs stands for, in order.
pub open spec fn plan_of(jobs: Seq<Job>) -> Seq<(StageScope, Option<Seq<char>>, Seq<char>)>
    decreases jobs.len(),
{
    if jobs.len() == 0 {
        Seq::empty()
    } else {
        plan_of(jobs.drop_last()).push(plan_entry(jobs.last()))
    }
}

/// The keys of the enabled phases, in order.
pub open spec fn enabled_keys(phases: Seq<PhaseDefinition>) -> Seq<Seq<char>>
    decreases phases.len(),
{
    if phases.len() == 0 {
        Seq::empty()
    } else if phases.last().enabled {
        enabled_keys(phases.drop_last()).push(phases.last().key@)
    } else {
        enabled_keys(phases.drop_last())
    }
}

/// One plan entry per key, for a stage and slot.
pub open spec fn entries(stage: StageScope, slot: Option<Seq<char>>, keys: Seq<Seq<char>>) -> Seq<(StageScope, Option<Seq<char>>, Seq<char>)>
    decreases keys.len(),
{
    if keys.len() == 0 {
        Seq::empty()
    } else {
        entries(stage, slot, keys.drop_last()).push((stage, slot, keys.last()))
    }
}

/// The slot jobs of a run, slot by slot: each slot's setups, main phases and
/// teardowns.
pub open spec fn slots_plan(p: ProcedureDefinition, slots: Seq<Seq<char>>) -> Seq<(StageScope, Option<Seq<char>>, Seq<char>)>
    decreases slots.len(),
{
    if slots.len() == 0 {
        Seq::empty()
    } else {
        let s = Some(slots.last());
        slots_plan(p, slots.drop_last()) + entries(StageScope::SetupEach, s, enabled_keys(p.setup_each@))
            + entries(StageScope::Main, s, enabled_keys(p.main@)) + entries(
            StageScope::TeardownEach,
            s,
            enabled_keys(p.teardown_each@),
        )
    }
}

/// The jobs of a run: the shared setups and teardowns once, then each
/// slot's jobs.
pub open spec fn run_plan(p: ProcedureDefinition, slots: Seq<Seq<char>>) -> Seq<(StageScope, Option<Seq<char>>, Seq<char>)> {
    entries(StageScope::SetupAll, None, enabled_keys(p.setup_all@)) + entries(
        StageScope::TeardownAll,
        None,
        enabled_keys(p.teardown_all@),
    ) + slots_plan(p, slots)
}

/// Whether a job is a planned first attempt that has not run.
pub open spec fn fresh(j: Job) -> bool {
    j.status == JobStatus::Pending && j.result is None && j.retry_count == 0
}

proof fn lemma_plan_of_add(a: Seq<Job>, b: Seq<Job>)
    ensures
        plan_of(a + b) == plan_of(a) + plan_of(b),
    decreases b.len(),
{
    if b.len() == 0 {
        assert(a + b =~= a);
    } else {
        lemma_plan_of_add(a, b.drop_last());
        assert((a + b).drop_last() =~= a + b.drop_last());
    }
}

proof fn lemma_plan_of_index(a: Seq<Job>, k: int)
    requires
        0 <= k < a.len(),
    ensures
        plan_of(a).len() == a.len(),
        plan_of(a)[k] == plan_entry(a[k]),
    decreases a.len(),
{
    if k < a.len() - 1 {
        lemma_plan_of_index(a.drop_last(), k);
    } else {
        lemma_plan_len(a.drop_last());
    }
}

proof fn lemma_plan_len(a: Seq<Job>)
    ensures
        plan_of(a).len() == a.len(),
    decreases a.len(),
{
    if a.len() > 0 {
        lemma_plan_len(a.drop_last());
    }
}

/// Creates the jobs of the enabled phases of a stage, for a slot or shared,
/// registering each under its key (`slot:phase`, or `SHARED:phase`) so that
/// later phases can depend on it.
fn add_stage_jobs(
    phases: &Vec<PhaseDefinition>,
    stage: StageScope,
    slot: &Option<String>,
    jobs: &mut Vec<Job>,
    job_map: &mut JobIdMap,
    procedure_dir: &str,
    procedure: &ProcedureDefinition,
)
    ensures
        final(jobs)@.subrange(0, old(jobs)@.len() as int) == old(jobs)@,
        final(jobs)@.len() >= old(jobs)@.len(),
        plan_of(final(jobs)@) == plan_of(old(jobs)@) + entries(stage, opt_text(*slot), enabled_keys(phases@)),
        forall|k: int| old(jobs)@.len() <= k < final(jobs)@.len() ==> fresh(#[trigger] final(jobs)@[k]),
        forall|k: int| 0 <= k < old(jobs)@.len() ==> #[trigger] final(jobs)@[k] == old(jobs)@[k],
{
    let mut i: usize = 0;
    let ghost start = jobs@;
    while i < phases.len()
        invariant
            i <= phases@.len(),
            jobs@.len() >= start.len(),
            jobs@.subrange(0, start.len() as int) == start,
            start == old(jobs)@,
            plan_of(jobs@) == plan_of(start) + entries(stage, opt_text(*slot), enabled_keys(phases@.subrange(0, i as int))),
            forall|k: int| start.len() <= k < jobs@.len() ==> fresh(#[trigger] jobs@[k]),
        decreases phases@.len() - i,
    {
        let phase = &phases[i];
        proof {
            assert(phases@.subrange(0, i + 1).drop_last() =~= phases@.subrange(0, i as int));
            assert(phases@.subrange(0, i + 1).last() == *phase);
        }
        if !phase.should_skip() {
            let deps = copy_texts(&phase.depends_on);
            let job = create_job_for_phase(phase, copy_opt_text(slot), stage, deps, job_map, procedure_dir, procedure);
            let key = crate::job::make_job_key(slot, phase.key.as_str());
            job_map.insert(key, job.id);
            let ghost before = jobs@;
            jobs.push(job);
            proof {
                assert(jobs@.drop_last() =~= before);
                assert(jobs@.subrange(0, start.len() as int) =~= start);
                let ks = enabled_keys(phases@.subrange(0, i as int));
                assert(enabled_keys(phases@.subrange(0, i + 1)) == ks.push(phase.key@));
                assert(ks.push(phase.key@).drop_last() =~= ks);
                let es = entries(stage, opt_text(*slot), ks);
                assert(entries(stage, opt_text(*slot), ks.push(phase.key@)) == es.push((stage, opt_text(*slot), phase.key@)));
                assert(plan_of(jobs@) == plan_of(before).push(plan_entry(jobs@.last())));
                assert((plan_of(start) + es).push((stage, opt_text(*slot), phase.key@)) =~= plan_of(start) + es.push((stage, opt_text(*slot), phase.key@)));
            }
        }
        i = i + 1;
    }
    assert(phases@.subrange(0, i as int) =~= phases@);
    assert forall|k: int| 0 <= k < start.len() implies #[trigger] jobs@[k] == start[k] by {
        assert(jobs@.subrange(0, start.len() as int)[k] == jobs@[k]);
    }
}

/// Whether a planned job is queued for a phase: it is the phase's job (and
/// shared, when only shared jobs are queued).
pub open spec fn entry_matches(e: (StageScope, Option<Seq<char>>, Seq<char>), key: Seq<char>, shared_only: bool) -> bool {
    e.2 == key && (!shared_only || e.1 is None)
}

/// The planned jobs queued for a phase, in plan order.
pub open spec fn matching_entries(plan: Seq<(StageScope, Option<Seq<char>>, Seq<char>)>, key: Seq<char>, shared_only: bool) -> Seq<(StageScope, Option<Seq<char>>, Seq<char>)>
    decreases plan.len(),
{
    if plan.len() == 0 {
        Seq::empty()
    } else if entry_matches(plan.last(), key, shared_only) {
        matching_entries(plan.drop_last(), key, shared_only).push(plan.last())
    } else {
        matching_entries(plan.drop_last(), key, shared_only)
    }
}

/// The planned jobs queued for a stage, phase by phase.
pub open spec fn stage_queue_plan(phases: Seq<PhaseDefinition>, plan: Seq<(StageScope, Option<Seq<char>>, Seq<char>)>, shared_only: bool) -> Seq<(StageScope, Option<Seq<char>>, Seq<char>)>
    decreases phases.len(),
{
    if phases.len() == 0 {
        Seq::empty()
    } else if phases.last().enabled {
        stage_queue_plan(phases.drop_last(), plan, shared_only) + matching_entries(plan, phases.last().key@, shared_only)
    } else {
        stage_queue_plan(phases.drop_last(), plan, shared_only)
    }
}

/// Phase-first order: every slot runs a stage before any runs the next.
pub open spec fn phase_first_plan(p: ProcedureDefinition, plan: Seq<(StageScope, Option<Seq<char>>, Seq<char>)>) -> Seq<(StageScope, Option<Seq<char>>, Seq<char>)> {
    stage_queue_plan(p.setup_all@, plan, true) + stage_queue_plan(p.setup_each@, plan, false)
        + stage_queue_plan(p.main@, plan, false) + stage_queue_plan(p.teardown_each@, plan, false)
        + stage_queue_plan(p.teardown_all@, plan, true)
}

/// Whether each job of `a` is a copy of some job of `b`.
pub open spec fn copies_of(a: Seq<Job>, b: Seq<Job>) -> bool {
    forall|k: int| 0 <= k < a.len() ==> exists|m: int| 0 <= m < b.len() && is_copy(#[trigger] a[k], b[m])
}

/// Queues, phase by phase through the enabled phases of a stage, a copy of
/// each planned job of the phase (only shared ones when `shared_only`).
pub fn enqueue_jobs_by_stage_scope(
    state: &mut OrchestratorState,
    procedure: &ProcedureDefinition,
    all_jobs: &Vec<Job>,
    stage_scope: StageScope,
    shared_only: bool,
)
    requires
        forall|k: int| 0 <= k < all_jobs@.len() ==> (#[trigger] all_jobs@[k]).result is None,
        old(state).total_jobs_submitted + stage_queue_plan(
            crate::completion::stage_phases(*procedure, stage_scope),
            plan_of(all_jobs@),
            shared_only,
        ).len() <= usize::MAX,
    ensures
        final(state).job_queue@.subrange(0, old(state).job_queue@.len() as int) == old(state).job_queue@,
        final(state).job_queue@.len() == old(state).job_queue@.len() + stage_queue_plan(
            crate::completion::stage_phases(*procedure, stage_scope),
            plan_of(all_jobs@),
            shared_only,
        ).len(),
        plan_of(final(state).job_queue@.subrange(old(state).job_queue@.len() as int, final(state).job_queue@.len() as int))
            == stage_queue_plan(crate::completion::stage_phases(*procedure, stage_scope), plan_of(all_jobs@), shared_only),
        copies_of(
            final(state).job_queue@.subrange(old(state).job_queue@.len() as int, final(state).job_queue@.len() as int),
            all_jobs@,
        ),
        final(state).total_jobs_submitted == old(state).total_jobs_submitted + (final(state).job_queue@.len()
            - old(state).job_queue@.len()),
        final(state).completed_jobs@ == old(state).completed_jobs@,
        final(state).job_results@ == old(state).job_results@,
        final(state).worker_state == old(state).worker_state,
        final(state).shutdown_requested == old(state).shutdown_requested,
        final(state).should_stop_on_first_failure == old(state).should_stop_on_first_failure,
        final(state).pending_slot_jobs@ == old(state).pending_slot_jobs@,
        final(state).teardown_procedure_jobs@ == old(state).teardown_procedure_jobs@,
{
    let phases = match stage_scope {
        StageScope::SetupAll => &procedure.setup_all,
        StageScope::SetupEach => &procedure.setup_each,
        StageScope::Main => &procedure.main,
        StageScope::TeardownEach => &procedure.teardown_each,
        StageScope::TeardownAll => &procedure.teardown_all,
    };
    let ghost plan = plan_of(all_jobs@);
    let ghost q0 = state.job_queue@;
    let ghost n0 = q0.len();
    let mut i: usize = 0;
    proof { lemma_plan_len(all_jobs@); }
    while i < phases.len()
        invariant
            phases@ == crate::completion::stage_phases(*procedure, stage_scope),
            plan == plan_of(all_jobs@),
            plan.len() == all_jobs@.len(),
            forall|k: int| 0 <= k < all_jobs@.len() ==> (#[trigger] all_jobs@[k]).result is None,
            i <= phases@.len(),
            old(state).total_jobs_submitted + stage_queue_plan(phases@, plan, shared_only).len() <= usize::MAX,
            q0 == old(state).job_queue@,
            n0 == q0.len(),
            state.job_queue@.len() >= n0,
            state.job_queue@.subrange(0, n0 as int) == q0,
            plan_of(state.job_queue@.subrange(n0 as int, state.job_queue@.len() as int)) == stage_queue_plan(
                phases@.subrange(0, i as int),
                plan,
                shared_only,
            ),
            copies_of(state.job_queue@.subrange(n0 as int, state.job_queue@.len() as int), all_jobs@),
            state.total_jobs_submitted == old(state).total_jobs_submitted + (state.job_queue@.len() - n0),
            state.completed_jobs@ == old(state).completed_jobs@,
            state.job_results@ == old(state).job_results@,
            state.worker_state == old(state).worker_state,
            state.shutdown_requested == old(state).shutdown_requested,
            state.should_stop_on_first_failure == old(state).should_stop_on_first_failure,
            state.pending_slot_jobs@ == old(state).pending_slot_jobs@,
            state.teardown_procedure_jobs@ == old(state).teardown_procedure_jobs@,
        decreases phases@.len() - i,
    {
        let phase = &phases[i];
        proof {
            assert(phases@.subrange(0, i + 1).drop_last() =~= phases@.subrange(0, i as int));
            assert(phases@.subrange(0, i + 1).last() == *phase);
            lemma_stage_queue_plan_prefix(phases@, plan, shared_only, i + 1);
        }
        if !phase.should_skip() {
            let ghost base = stage_queue_plan(phases@.subrange(0, i as int), plan, shared_only);
            let ghost mid_len = state.job_queue@.len();
            let mut k: usize = 0;
            while k < all_jobs.len()
                invariant
                    plan == plan_of(all_jobs@),
                    plan.len() == all_jobs@.len(),
                    forall|x: int| 0 <= x < all_jobs@.len() ==> (#[trigger] all_jobs@[x]).result is None,
                    k <= all_jobs@.len(),
                    phase.enabled,
                    old(state).total_jobs_submitted + base.len() + matching_entries(plan, phase.key@, shared_only).len() <= usize::MAX,
                    q0 == old(state).job_queue@,
                    n0 == q0.len(),
                    state.job_queue@.len() >= n0,
                    state.job_queue@.subrange(0, n0 as int) == q0,
                    plan_of(state.job_queue@.subrange(n0 as int, state.job_queue@.len() as int)) == base + matching_entries(
                        plan.subrange(0, k as int),
                        phase.key@,
                        shared_only,
                    ),
                    copies_of(state.job_queue@.subrange(n0 as int, state.job_queue@.len() as int), all_jobs@),
                    state.total_jobs_submitted == old(state).total_jobs_submitted + (state.job_queue@.len() - n0),
                    state.completed_jobs@ == old(state).completed_jobs@,
                    state.job_results@ == old(state).job_results@,
                    state.worker_state == old(state).worker_state,
                    state.shutdown_requested == old(state).shutdown_requested,
                    state.should_stop_on_first_failure == old(state).should_stop_on_first_failure,
                    state.pending_slot_jobs@ == old(state).pending_slot_jobs@,
                    state.teardown_procedure_jobs@ == old(state).teardown_procedure_jobs@,
                decreases all_jobs@.len() - k,
            {
                let job = &all_jobs[k];
                proof {
                    assert(plan.subrange(0, k + 1).drop_last() =~= plan.subrange(0, k as int));
                    lemma_plan_of_index(all_jobs@, k as int);
                    assert(plan.subrange(0, k + 1).last() == plan_entry(*job));
                    lemma_matching_prefix_len(plan, phase.key@, shared_only, k + 1);
                }
                let key_match = str_eq(job.phase_key.as_str(), phase.key.as_str());
                if key_match && (!shared_only || job.is_shared()) {
                    let ghost before = state.job_queue@;
                    proof {
                        assert(entry_matches(plan_entry(*job), phase.key@, shared_only));
                        lemma_plan_len(before.subrange(n0 as int, before.len() as int));
                    }
                    let c = copy_planned_job(job);
                    state.enqueue_job(c);
                    proof {
                        let added = state.job_queue@.subrange(n0 as int, state.job_queue@.len() as int);
                        let prev = before.subrange(n0 as int, before.len() as int);
                        assert(added =~= prev.push(c));
                        assert(added.drop_last() =~= prev);
                        assert(state.job_queue@.subrange(0, n0 as int) =~= q0);
                        let m = matching_entries(plan.subrange(0, k as int), phase.key@, shared_only);
                        assert((base + m).push(plan_entry(c)) =~= base + m.push(plan_entry(c)));
                        assert forall|x: int| 0 <= x < added.len() implies exists|y: int| 0 <= y < all_jobs@.len() && is_copy(#[trigger] added[x], all_jobs@[y]) by {
                            if x < prev.len() {
                                assert(added[x] == prev[x]);
                            } else {
                                assert(is_copy(added[x], all_jobs@[k as int]));
                            }
                        }
                    }
                }
                k = k + 1;
            }
            proof {
                assert(plan.subrange(0, k as int) =~= plan);
            }
        }
        i = i + 1;
    }
    assert(phases@.subrange(0, i as int) =~= phases@);
    proof { lemma_plan_len(state.job_queue@.subrange(n0 as int, state.job_queue@.len() as int)); }
}

/// A prefix of the phases queues no more than all of them.
proof fn lemma_stage_queue_plan_prefix(phases: Seq<PhaseDefinition>, plan: Seq<(StageScope, Option<Seq<char>>, Seq<char>)>, shared_only: bool, i: int)
    requires
        0 <= i <= phases.len(),
    ensures
        stage_queue_plan(phases.subrange(0, i), plan, shared_only).len() <= stage_queue_plan(phases, plan, shared_only).len(),
    decreases phases.len() - i,
{
    if i < phases.len() {
        lemma_stage_queue_plan_prefix(phases, plan, shared_only, i + 1);
        assert(phases.subrange(0, i + 1).drop_last() =~= phases.subrange(0, i));
    } else {
        assert(phases.subrange(0, i) =~= phases);
    }
}

/// A prefix of the plan matches no more jobs than all of it.
proof fn lemma_matching_prefix_len(plan: Seq<(StageScope, Option<Seq<char>>, Seq<char>)>, key: Seq<char>, shared_only: bool, k: int)
    requires
        0 <= k <= plan.len(),
    ensures
        matching_entries(plan.subrange(0, k), key, shared_only).len() <= matching_entries(plan, key, shared_only).len(),
    decreases plan.len() - k,
{
    if k < plan.len() {
        lemma_matching_prefix_len(plan, key, shared_only, k + 1);
        assert(plan.subrange(0, k + 1).drop_last() =~= plan.subrange(0, k));
    } else {
        assert(plan.subrange(0, k) =~= plan);
    }
}

/// Creates every job of a run: the shared setups and teardowns once, each
/// slot's setups, main phases and teardowns per slot, then adds the
/// ordering that stages imply.
pub fn build_jobs(procedure: &ProcedureDefinition, slots: &Vec<String>, procedure_dir: &str) -> (jobs: Vec<Job>)
    ensures
        plan_of(jobs@) == run_plan(*procedure, texts(slots@)),
        forall|k: int| 0 <= k < jobs@.len() ==> fresh(#[trigger] jobs@[k]),
        forall|i: int, j: int| 0 <= i < jobs@.len() && 0 <= j < jobs@.len() ==> waits_for(#[trigger] jobs@[i], #[trigger] jobs@[j]),
{
    let mut jobs: Vec<Job> = Vec::new();
    let mut job_map = JobIdMap::new();
    let shared: Option<String> = None;
    add_stage_jobs(&procedure.setup_all, StageScope::SetupAll, &shared, &mut jobs, &mut job_map, procedure_dir, procedure);
    add_stage_jobs(&procedure.teardown_all, StageScope::TeardownAll, &shared, &mut jobs, &mut job_map, procedure_dir, procedure);
    let ghost shared_plan = plan_of(jobs@);
    assert(shared_plan =~= entries(StageScope::SetupAll, None, enabled_keys(procedure.setup_all@)) + entries(
        StageScope::TeardownAll,
        None,
        enabled_keys(procedure.teardown_all@),
    ));
    let mut i: usize = 0;
    while i < slots.len()
        invariant
            i <= slots@.len(),
            plan_of(jobs@) == shared_plan + slots_plan(*procedure, texts(slots@).subrange(0, i as int)),
            shared_plan == entries(StageScope::SetupAll, None, enabled_keys(procedure.setup_all@)) + entries(
                StageScope::TeardownAll,
                None,
                enabled_keys(procedure.teardown_all@),
            ),
            forall|k: int| 0 <= k < jobs@.len() ==> fresh(#[trigger] jobs@[k]),
        decreases slots@.len() - i,
    {
        let slot = Some(slots[i].clone());
        let ghost before = plan_of(jobs@);
        let ghost len0 = jobs@.len();
        add_stage_jobs(&procedure.setup_each, StageScope::SetupEach, &slot, &mut jobs, &mut job_map, procedure_dir, procedure);
        add_stage_jobs(&procedure.main, StageScope::Main, &slot, &mut jobs, &mut job_map, procedure_dir, procedure);
        add_stage_jobs(&procedure.teardown_each, StageScope::TeardownEach, &slot, &mut jobs, &mut job_map, procedure_dir, procedure);
        proof {
            let ts = texts(slots@);
            assert(ts.subrange(0, i + 1).drop_last() =~= ts.subrange(0, i as int));
            assert(ts.subrange(0, i + 1).last() == slots@[i as int]@);
            assert(opt_text(slot) == Some(slots@[i as int]@));
            let s1 = slots_plan(*procedure, ts.subrange(0, i as int));
            assert(shared_plan + s1 + entries(StageScope::SetupEach, opt_text(slot), enabled_keys(procedure.setup_each@))
                + entries(StageScope::Main, opt_text(slot), enabled_keys(procedure.main@)) + entries(
                StageScope::TeardownEach,
                opt_text(slot),
                enabled_keys(procedure.teardown_each@),
            ) =~= shared_plan + slots_plan(*procedure, ts.subrange(0, i + 1)));
        }
        i = i + 1;
    }
    assert(texts(slots@).subrange(0, i as int) =~= texts(slots@));
    let ghost first = jobs@;
    let out = add_implicit_dependencies(jobs);
    proof {
        assert forall|k: int| 0 <= k < out@.len() implies fresh(#[trigger] out@[k]) by {
            assert(out@[k] == Job { depends_on: out@[k].depends_on, ..first[k] });
        }
        assert(plan_of(out@) =~= plan_of(first)) by {
            lemma_plan_same(first, out@);
        }
        assert forall|i: int, j: int| 0 <= i < out@.len() && 0 <= j < out@.len() implies waits_for(#[trigger] out@[i], #[trigger] out@[j]) by {
            lemma_stage_ordering(first, out@, i, j);
            assert(out@[i] == Job { depends_on: out@[i].depends_on, ..first[i] });
            assert(out@[j] == Job { depends_on: out@[j].depends_on, ..first[j] });
        }
    }
    out
}

/// The ordering between two planned jobs: `a` waits for `b` when `b` is a
/// shared setup and `a` a slot job; when `b` is a setup of `a`'s slot and
/// `a` a main phase; when `b` is a main phase of `a`'s slot and `a` its
/// teardown; when `b` is a slot teardown and `a` a shared teardown.
pub open spec fn waits_for(a: Job, b: Job) -> bool {
    &&& b.stage_scope == StageScope::SetupAll && (a.stage_scope == StageScope::SetupEach || a.stage_scope
        == StageScope::Main || a.stage_scope == StageScope::TeardownEach) ==> a.depends_on@.contains(b.id)
    &&& a.stage_scope == StageScope::Main && b.stage_scope == StageScope::SetupEach && a.slot_id is Some
        && opt_text(b.slot_id) == opt_text(a.slot_id) ==> a.depends_on@.contains(b.id)
    &&& a.stage_scope == StageScope::TeardownEach && b.stage_scope == StageScope::Main && a.slot_id is Some
        && opt_text(b.slot_id) == opt_text(a.slot_id) ==> a.depends_on@.contains(b.id)
    &&& a.stage_scope == StageScope::TeardownAll && b.stage_scope == StageScope::TeardownEach
        ==> a.depends_on@.contains(b.id)
}

proof fn lemma_plan_same(a: Seq<Job>, b: Seq<Job>)
    requires
        a.len() == b.len(),
        forall|k: int| 0 <= k < a.len() ==> plan_entry(#[trigger] a[k]) == plan_entry(b[k]),
    ensures
        plan_of(a) == plan_of(b),
    decreases a.len(),
{
    if a.len() > 0 {
        lemma_plan_same(a.drop_last(), b.drop_last());
        assert(plan_entry(a[a.len() - 1]) == plan_entry(b[b.len() - 1]));
    }
}

/// The planned jobs of a stage for exactly this slot (`None`: shared).
pub open spec fn entries_at(plan: Seq<(StageScope, Option<Seq<char>>, Seq<char>)>, stage: StageScope, slot: Option<Seq<char>>) -> Seq<(StageScope, Option<Seq<char>>, Seq<char>)>
    decreases plan.len(),
{
    if plan.len() == 0 {
        Seq::empty()
    } else if plan.last().0 == stage && plan.last().1 == slot {
        entries_at(plan.drop_last(), stage, slot).push(plan.last())
    } else {
        entries_at(plan.drop_last(), stage, slot)
    }
}

/// A slot's jobs in slot-first order: setups, main phases, teardowns.
pub open spec fn slot_group(plan: Seq<(StageScope, Option<Seq<char>>, Seq<char>)>, s: Seq<char>) -> Seq<(StageScope, Option<Seq<char>>, Seq<char>)> {
    entries_at(plan, StageScope::SetupEach, Some(s)) + entries_at(plan, StageScope::Main, Some(s))
        + entries_at(plan, StageScope::TeardownEach, Some(s))
}

/// The slots that have jobs, in order, each with its jobs.
pub open spec fn slot_groups(plan: Seq<(StageScope, Option<Seq<char>>, Seq<char>)>, slots: Seq<Seq<char>>) -> Seq<(Seq<char>, Seq<(StageScope, Option<Seq<char>>, Seq<char>)>)>
    decreases slots.len(),
{
    if slots.len() == 0 {
        Seq::empty()
    } else if slot_group(plan, slots.last()).len() > 0 {
        slot_groups(plan, slots.drop_last()).push((slots.last(), slot_group(plan, slots.last())))
    } else {
        slot_groups(plan, slots.drop_last())
    }
}

/// What the slots waiting their turn stand for: each slot with its jobs.
pub open spec fn pending_plan(v: Seq<(String, Vec<Job>)>) -> Seq<(Seq<char>, Seq<(StageScope, Option<Seq<char>>, Seq<char>)>)>
    decreases v.len(),
{
    if v.len() == 0 {
        Seq::empty()
    } else {
        pending_plan(v.drop_last()).push((v.last().0@, plan_of(v.last().1@)))
    }
}

/// How many plugs of a list are shared by all slots.
pub open spec fn shared_plug_count(plugs: Seq<PlugDefinition>) -> nat
    decreases plugs.len(),
{
    if plugs.len() == 0 {
        0
    } else {
        shared_plug_count(plugs.drop_last()) + if plugs.last().scope == Some(Scope::All) { 1nat } else { 0nat }
    }
}

/// The plug set-up and tear-down steps counted as jobs: two per shared plug,
/// two per slot plug and slot.
pub open spec fn plug_operations(plugs: Seq<PlugDefinition>, slots: nat) -> nat {
    2 * shared_plug_count(plugs) + 2 * ((plugs.len() - shared_plug_count(plugs)) as nat) * slots
}

/// How many phases the procedure has, enabled or not.
pub open spec fn total_phase_count(p: ProcedureDefinition) -> nat {
    p.setup_all@.len() + p.setup_each@.len() + p.main@.len() + p.teardown_each@.len() + p.teardown_all@.len()
}

/// How many jobs submitting queues at once.
pub open spec fn queued_at_submit(p: ProcedureDefinition, slots: Seq<Seq<char>>, strategy: ExecutionStrategy) -> nat {
    let plan = run_plan(p, slots);
    match strategy {
        ExecutionStrategy::PhaseFirst => phase_first_plan(p, plan).len(),
        ExecutionStrategy::SlotFirst => entries_at(plan, StageScope::SetupAll, None).len() + if slot_groups(
            plan,
            slots,
        ).len() > 0 {
            slot_groups(plan, slots)[0].1.len()
        } else {
            0
        },
    }
}

proof fn lemma_shared_plug_count_bound(plugs: Seq<PlugDefinition>)
    ensures
        shared_plug_count(plugs) <= plugs.len(),
    decreases plugs.len(),
{
    if plugs.len() > 0 {
        lemma_shared_plug_count_bound(plugs.drop_last());
    }
}

fn count_shared_plugs(plugs: &Vec<PlugDefinition>) -> (n: usize)
    ensures
        n == shared_plug_count(plugs@),
{
    let mut n: usize = 0;
    let mut i: usize = 0;
    while i < plugs.len()
        invariant
            i <= plugs@.len(),
            n == shared_plug_count(plugs@.subrange(0, i as int)),
            n <= i,
        decreases plugs@.len() - i,
    {
        proof {
            assert(plugs@.subrange(0, i + 1).drop_last() =~= plugs@.subrange(0, i as int));
        }
        if matches!(plugs[i].scope, Some(Scope::All)) {
            n = n + 1;
        }
        i = i + 1;
    }
    assert(plugs@.subrange(0, i as int) =~= plugs@);
    n
}

/// Copies of the shared jobs of a stage, in order.
fn shared_jobs_by_type(jobs: &Vec<Job>, stage_scope: StageScope) -> (r: Vec<Job>)
    requires
        forall|k: int| 0 <= k < jobs@.len() ==> (#[trigger] jobs@[k]).result is None,
    ensures
        plan_of(r@) == entries_at(plan_of(jobs@), stage_scope, None),
        copies_of(r@, jobs@),
{
    let mut r: Vec<Job> = Vec::new();
    let mut i: usize = 0;
    while i < jobs.len()
        invariant
            i <= jobs@.len(),
            forall|k: int| 0 <= k < jobs@.len() ==> (#[trigger] jobs@[k]).result is None,
            plan_of(r@) == entries_at(plan_of(jobs@.subrange(0, i as int)), stage_scope, None),
            copies_of(r@, jobs@),
        decreases jobs@.len() - i,
    {
        let j = &jobs[i];
        proof {
            let sub = jobs@.subrange(0, i + 1);
            assert(sub.drop_last() =~= jobs@.subrange(0, i as int));
            assert(plan_of(sub).last() == plan_entry(*j));
            assert(plan_of(sub).drop_last() == plan_of(jobs@.subrange(0, i as int)));
        }
        if j.stage_scope == stage_scope && j.is_shared() {
            let ghost before = r@;
            let c = copy_planned_job(j);
            r.push(c);
            proof {
                assert(r@.drop_last() =~= before);
                assert forall|x: int| 0 <= x < r@.len() implies exists|y: int| 0 <= y < jobs@.len() && is_copy(#[trigger] r@[x], jobs@[y]) by {
                    if x < before.len() {
                        assert(r@[x] == before[x]);
                    } else {
                        assert(is_copy(r@[x], jobs@[i as int]));
                    }
                }
            }
        }
        i = i + 1;
    }
    assert(jobs@.subrange(0, i as int) =~= jobs@);
    r
}

/// Copies of a slot's jobs in slot-first order: setups, main phases,
/// teardowns.
fn slot_jobs_of(jobs: &Vec<Job>, slot: &str) -> (r: Vec<Job>)
    requires
        forall|k: int| 0 <= k < jobs@.len() ==> (#[trigger] jobs@[k]).result is None,
    ensures
        plan_of(r@) == slot_group(plan_of(jobs@), slot@),
        copies_of(r@, jobs@),
{
    let mut r = filter_jobs_by_slot_and_type(jobs, Some(slot), StageScope::SetupEach);
    let mut m = filter_jobs_by_slot_and_type(jobs, Some(slot), StageScope::Main);
    let mut t = filter_jobs_by_slot_and_type(jobs, Some(slot), StageScope::TeardownEach);
    proof {
        lemma_copies_plan(r@, jobs@, StageScope::SetupEach, slot@);
        lemma_copies_plan(m@, jobs@, StageScope::Main, slot@);
        lemma_copies_plan(t@, jobs@, StageScope::TeardownEach, slot@);
    }
    let ghost a = r@;
    let ghost b = m@;
    let ghost c = t@;
    r.append(&mut m);
    r.append(&mut t);
    proof {
        assert(r@ =~= a + b + c);
        lemma_plan_of_add(a, b);
        lemma_plan_of_add(a + b, c);
        assert forall|x: int| 0 <= x < r@.len() implies exists|y: int| 0 <= y < jobs@.len() && is_copy(#[trigger] r@[x], jobs@[y]) by {
            if x < a.len() {
                assert(r@[x] == a[x]);
            } else if x < a.len() + b.len() {
                assert(r@[x] == b[x - a.len()]);
            } else {
                assert(r@[x] == c[x - a.len() - b.len()]);
            }
        }
    }
    r
}

/// Copies of the jobs for a slot and stage stand for the plan's entries
/// there, and each is a copy of a job of the list.
proof fn lemma_copies_plan(r: Seq<Job>, jobs: Seq<Job>, stage: StageScope, s: Seq<char>)
    requires
        copied(r, jobs_in(jobs, stage, Some(s))),
        forall|k: int| 0 <= k < jobs.len() ==> (#[trigger] jobs[k]).result is None,
    ensures
        plan_of(r) == entries_at(plan_of(jobs), stage, Some(s)),
        copies_of(r, jobs),
{
    lemma_jobs_in_plan(jobs, stage, s);
    let f = jobs_in(jobs, stage, Some(s));
    lemma_jobs_in_members(jobs, stage, Some(s));
    assert forall|k: int| 0 <= k < r.len() implies is_copy(#[trigger] r[k], f[k]) by {
        assert(is_copy_of(r[k], f[k]));
        let y = choose|y: int| 0 <= y < jobs.len() && jobs[y] == f[k];
        assert(jobs[y].result is None);
    }
    assert forall|k: int| 0 <= k < r.len() implies plan_entry(#[trigger] r[k]) == plan_entry(f[k]) by {
        assert(is_copy(r[k], f[k]));
    }
    lemma_plan_same(r, f);
    lemma_jobs_in_members(jobs, stage, Some(s));
    assert forall|x: int| 0 <= x < r.len() implies exists|y: int| 0 <= y < jobs.len() && is_copy(#[trigger] r[x], jobs[y]) by {
        let y = choose|y: int| 0 <= y < jobs.len() && jobs[y] == f[x];
        assert(is_copy(r[x], f[x]));
    }
}

proof fn lemma_jobs_in_plan(jobs: Seq<Job>, stage: StageScope, s: Seq<char>)
    ensures
        plan_of(jobs_in(jobs, stage, Some(s))) == entries_at(plan_of(jobs), stage, Some(s)),
    decreases jobs.len(),
{
    if jobs.len() > 0 {
        lemma_jobs_in_plan(jobs.drop_last(), stage, s);
        assert(plan_of(jobs).drop_last() == plan_of(jobs.drop_last()));
        lemma_plan_len(jobs);
        assert(plan_of(jobs).last() == plan_entry(jobs.last()));
        let g = jobs_in(jobs.drop_last(), stage, Some(s));
        if job_in(jobs.last(), stage, Some(s)) {
            assert(g.push(jobs.last()).drop_last() =~= g);
        }
    }
}

proof fn lemma_jobs_in_members(jobs: Seq<Job>, stage: StageScope, slot: Option<Seq<char>>)
    ensures
        forall|x: int| 0 <= x < jobs_in(jobs, stage, slot).len() ==> exists|y: int| 0 <= y < jobs.len() && jobs[y] == #[trigger] jobs_in(jobs, stage, slot)[x],
    decreases jobs.len(),
{
    if jobs.len() > 0 {
        lemma_jobs_in_members(jobs.drop_last(), stage, slot);
        let f = jobs_in(jobs, stage, slot);
        let g = jobs_in(jobs.drop_last(), stage, slot);
        assert forall|x: int| 0 <= x < f.len() implies exists|y: int| 0 <= y < jobs.len() && jobs[y] == #[trigger] f[x] by {
            if x < g.len() {
                let y = choose|y: int| 0 <= y < jobs.len() - 1 && jobs.drop_last()[y] == g[x];
                assert(jobs[y] == f[x]);
            } else {
                assert(jobs[jobs.len() - 1] == f[x]);
            }
        }
    }
}

/// Whether queuing a run would overflow the queue: the jobs already queued
/// plus, per slot, one job per phase of the procedure, more than the limit.
pub open spec fn exceeds_queue_limit(queued: nat, slots: nat, p: ProcedureDefinition) -> bool {
    queued + slots * total_phase_count(p) > MAX_JOB_QUEUE_SIZE
}

fn check_queue_limit(queued: usize, slots: usize, procedure: &ProcedureDefinition) -> (b: bool)
    ensures
        b == exceeds_queue_limit(queued as nat, slots as nat, *procedure),
{
    let total: u128 = procedure.setup_all.len() as u128 + procedure.setup_each.len() as u128
        + procedure.main.len() as u128 + procedure.teardown_each.len() as u128
        + procedure.teardown_all.len() as u128;
    let limit: u128 = MAX_JOB_QUEUE_SIZE as u128;
    if slots == 0 {
        assert(slots as nat * total_phase_count(*procedure) == 0);
        return queued as u128 > limit;
    }
    if total > limit {
        assert(slots as nat * total_phase_count(*procedure) >= total_phase_count(*procedure)) by (nonlinear_arith)
            requires
                slots >= 1;
        return true;
    }
    let slots_wide: u128 = slots as u128;
    assert(slots_wide * total <= 0xFFFF_FFFF_FFFF_FFFF * 10000) by (nonlinear_arith)
        requires
            slots_wide <= 0xFFFF_FFFF_FFFF_FFFF,
            total <= 10000;
    let product: u128 = slots_wide * total;
    queued as u128 + product > limit
}

/// The slots that have jobs, in order, each with copies of its jobs.
fn group_slot_jobs(jobs: &Vec<Job>, slots: &Vec<String>) -> (r: Vec<(String, Vec<Job>)>)
    requires
        forall|k: int| 0 <= k < jobs@.len() ==> (#[trigger] jobs@[k]).result is None,
    ensures
        pending_plan(r@) == slot_groups(plan_of(jobs@), texts(slots@)),
        forall|g: int| 0 <= g < r@.len() ==> copies_of((#[trigger] r@[g]).1@, jobs@),
{
    let mut r: Vec<(String, Vec<Job>)> = Vec::new();
    let mut i: usize = 0;
    while i < slots.len()
        invariant
            i <= slots@.len(),
            forall|k: int| 0 <= k < jobs@.len() ==> (#[trigger] jobs@[k]).result is None,
            pending_plan(r@) == slot_groups(plan_of(jobs@), texts(slots@).subrange(0, i as int)),
            forall|g: int| 0 <= g < r@.len() ==> copies_of((#[trigger] r@[g]).1@, jobs@),
        decreases slots@.len() - i,
    {
        let group = slot_jobs_of(jobs, slots[i].as_str());
        proof {
            let ts = texts(slots@);
            assert(ts.subrange(0, i + 1).drop_last() =~= ts.subrange(0, i as int));
            assert(ts.subrange(0, i + 1).last() == slots@[i as int]@);
            lemma_plan_len(group@);
        }
        if group.len() > 0 {
            let ghost before = r@;
            r.push((slots[i].clone(), group));
            proof {
                assert(r@.drop_last() =~= before);
            }
        }
        i = i + 1;
    }
    assert(texts(slots@).subrange(0, i as int) =~= texts(slots@));
    r
}

/// Copies keep the ordering between planned jobs.
proof fn lemma_copies_wait(a: Job, b: Job, a0: Job, b0: Job)
    requires
        is_copy(a, a0),
        is_copy(b, b0),
        waits_for(a0, b0),
    ensures
        waits_for(a, b),
{
}

/// The plug steps counted as jobs for a run over `slots` slots.
fn count_plug_operations(plugs: &Vec<PlugDefinition>, slots: usize) -> (n: usize)
    requires
        plug_operations(plugs@, slots as nat) <= usize::MAX,
    ensures
        n == plug_operations(plugs@, slots as nat),
{
    let shared_plugs = count_shared_plugs(plugs);
    proof { lemma_shared_plug_count_bound(plugs@); }
    let slot_plugs = plugs.len() - shared_plugs;
    assert(slot_plugs * slots * 2 == 2 * slot_plugs * slots) by (nonlinear_arith);
    assert(slot_plugs * slots <= slot_plugs * slots * 2) by (nonlinear_arith);
    let per_slot = slot_plugs * slots;
    shared_plugs * 2 + per_slot * 2
}

/// Phase-first submission: queues the planned jobs stage by stage.
fn submit_phase_first(state: &mut OrchestratorState, procedure: &ProcedureDefinition, all_jobs: &Vec<Job>)
    requires
        forall|k: int| 0 <= k < all_jobs@.len() ==> fresh(#[trigger] all_jobs@[k]),
        forall|i: int, j: int| 0 <= i < all_jobs@.len() && 0 <= j < all_jobs@.len() ==> waits_for(#[trigger] all_jobs@[i], #[trigger] all_jobs@[j]),
        old(state).total_jobs_submitted + phase_first_plan(*procedure, plan_of(all_jobs@)).len() <= usize::MAX,
    ensures
        ({
            let n = old(state).job_queue@.len();
            let added = final(state).job_queue@.subrange(n as int, final(state).job_queue@.len() as int);
            &&& final(state).job_queue@.len() >= n
            &&& final(state).job_queue@.subrange(0, n as int) == old(state).job_queue@
            &&& final(state).total_jobs_submitted == old(state).total_jobs_submitted + added.len()
            &&& plan_of(added) == phase_first_plan(*procedure, plan_of(all_jobs@))
            &&& forall|i: int, j: int| 0 <= i < added.len() && 0 <= j < added.len() ==> waits_for(#[trigger] added[i], #[trigger] added[j])
            &&& forall|k: int| 0 <= k < added.len() ==> fresh(#[trigger] added[k])
        }),
        final(state).pending_slot_jobs@ == old(state).pending_slot_jobs@,
        final(state).teardown_procedure_jobs@ == old(state).teardown_procedure_jobs@,
        final(state).completed_jobs@ == old(state).completed_jobs@,
        final(state).job_results@ == old(state).job_results@,
        final(state).worker_state == old(state).worker_state,
        final(state).shutdown_requested == old(state).shutdown_requested,
        final(state).should_stop_on_first_failure == old(state).should_stop_on_first_failure,
{
    let ghost q0 = state.job_queue@;
    let ghost n = q0.len();
    proof {
        lemma_plan_len(all_jobs@);
    }
    enqueue_jobs_by_stage_scope(state, procedure, all_jobs, StageScope::SetupAll, true);
    let ghost qa = state.job_queue@;
    enqueue_jobs_by_stage_scope(state, procedure, all_jobs, StageScope::SetupEach, false);
    let ghost qb = state.job_queue@;
    enqueue_jobs_by_stage_scope(state, procedure, all_jobs, StageScope::Main, false);
    let ghost qc = state.job_queue@;
    enqueue_jobs_by_stage_scope(state, procedure, all_jobs, StageScope::TeardownEach, false);
    let ghost qd = state.job_queue@;
    enqueue_jobs_by_stage_scope(state, procedure, all_jobs, StageScope::TeardownAll, true);
    proof {
        let q = state.job_queue@;
        let sa = qa.subrange(n as int, qa.len() as int);
        let sb = qb.subrange(qa.len() as int, qb.len() as int);
        let sc = qc.subrange(qb.len() as int, qc.len() as int);
        let sd = qd.subrange(qc.len() as int, qd.len() as int);
        let se = q.subrange(qd.len() as int, q.len() as int);
        let added = q.subrange(n as int, q.len() as int);
        assert(added =~= sa + sb + sc + sd + se);
        assert(q.subrange(0, n as int) =~= q0);
        lemma_plan_of_add(sa, sb);
        lemma_plan_of_add(sa + sb, sc);
        lemma_plan_of_add(sa + sb + sc, sd);
        lemma_plan_of_add(sa + sb + sc + sd, se);
        assert(copies_of(added, all_jobs@)) by {
            assert forall|x: int| 0 <= x < added.len() implies exists|y: int| 0 <= y < all_jobs@.len() && is_copy(#[trigger] added[x], all_jobs@[y]) by {
                let la = sa.len() as int;
                let lb = la + sb.len();
                let lc = lb + sc.len();
                let ld = lc + sd.len();
                if x < la {
                    assert(added[x] == sa[x]);
                } else if x < lb {
                    assert(added[x] == sb[x - la]);
                } else if x < lc {
                    assert(added[x] == sc[x - lb]);
                } else if x < ld {
                    assert(added[x] == sd[x - lc]);
                } else {
                    assert(added[x] == se[x - ld]);
                }
            }
        }
        lemma_added_properties(added, all_jobs@);
    }
}

/// Slot-first submission: queues the shared setups and the first slot's
/// jobs; keeps the other slots (when there are) and the shared teardowns
/// for later.
fn submit_slot_first(state: &mut OrchestratorState, all_jobs: &Vec<Job>, slots: &Vec<String>)
    requires
        forall|k: int| 0 <= k < all_jobs@.len() ==> fresh(#[trigger] all_jobs@[k]),
        forall|i: int, j: int| 0 <= i < all_jobs@.len() && 0 <= j < all_jobs@.len() ==> waits_for(#[trigger] all_jobs@[i], #[trigger] all_jobs@[j]),
        old(state).total_jobs_submitted + entries_at(plan_of(all_jobs@), StageScope::SetupAll, None).len() + (if slot_groups(plan_of(all_jobs@), texts(slots@)).len() > 0 {
            slot_groups(plan_of(all_jobs@), texts(slots@))[0].1.len()
        } else {
            0
        }) <= usize::MAX,
    ensures
        ({
            let plan = plan_of(all_jobs@);
            let n = old(state).job_queue@.len();
            let added = final(state).job_queue@.subrange(n as int, final(state).job_queue@.len() as int);
            let groups = slot_groups(plan, texts(slots@));
            &&& final(state).job_queue@.len() >= n
            &&& final(state).job_queue@.subrange(0, n as int) == old(state).job_queue@
            &&& final(state).total_jobs_submitted == old(state).total_jobs_submitted + added.len()
            &&& forall|i: int, j: int| 0 <= i < added.len() && 0 <= j < added.len() ==> waits_for(#[trigger] added[i], #[trigger] added[j])
            &&& forall|k: int| 0 <= k < added.len() ==> fresh(#[trigger] added[k])
            &&& plan_of(added) == entries_at(plan, StageScope::SetupAll, None) + if groups.len() > 0 {
                groups[0].1
            } else {
                Seq::empty()
            }
            &&& pending_plan(final(state).pending_slot_jobs@) == if groups.len() > 1 {
                groups.drop_first()
            } else {
                pending_plan(old(state).pending_slot_jobs@)
            }
            &&& plan_of(final(state).teardown_procedure_jobs@) == entries_at(plan, StageScope::TeardownAll, None)
        }),
        final(state).completed_jobs@ == old(state).completed_jobs@,
        final(state).job_results@ == old(state).job_results@,
        final(state).worker_state == old(state).worker_state,
        final(state).shutdown_requested == old(state).shutdown_requested,
        final(state).should_stop_on_first_failure == old(state).should_stop_on_first_failure,
{
    let ghost q0 = state.job_queue@;
    let ghost n = q0.len();
    let setups = shared_jobs_by_type(all_jobs, StageScope::SetupAll);
    let mut groups = group_slot_jobs(all_jobs, slots);
    let teardown = shared_jobs_by_type(all_jobs, StageScope::TeardownAll);
    proof { lemma_plan_len(setups@); }
    let ghost gv = groups@;
    proof {
        lemma_pending_plan_first(gv);
    }
    let ghost setup_jobs = setups@;
    state.enqueue_all(setups);
    let ghost first: Seq<Job> = Seq::empty();
    if groups.len() > 0 {
        let (_slot, jobs) = groups.remove(0);
        proof {
            assert(jobs == gv[0].1);
            assert(groups@ =~= gv.drop_first());
            lemma_plan_len(jobs@);
            assert(copies_of(jobs@, all_jobs@));
        }
        let ghost fj = jobs@;
        proof { first = fj; }
        state.enqueue_all(jobs);
        if groups.len() > 0 {
            state.pending_slot_jobs = groups;
        }
    }
    state.teardown_procedure_jobs = teardown;
    proof {
        let added = state.job_queue@.subrange(n as int, state.job_queue@.len() as int);
        assert(added =~= setup_jobs + first);
        lemma_plan_of_add(setup_jobs, first);
        assert(state.job_queue@.subrange(0, n as int) =~= q0);
        assert(copies_of(added, all_jobs@)) by {
            assert forall|x: int| 0 <= x < added.len() implies exists|y: int| 0 <= y < all_jobs@.len() && is_copy(#[trigger] added[x], all_jobs@[y]) by {
                if x < setup_jobs.len() {
                    assert(added[x] == setup_jobs[x]);
                } else {
                    assert(added[x] == first[x - setup_jobs.len()]);
                }
            }
        }
        lemma_added_properties(added, all_jobs@);
    }
}

/// Submits a run: creates every job of the procedure for the slots and
/// queues them in the strategy's order (phase-first: stage by stage across
/// all slots; slot-first: the shared setup and the first slot now, the
/// other slots and the shared teardown kept for later). Plug set-up and
/// tear-down steps count as submitted jobs. Fails, queuing nothing, when
/// the queue would exceed its limit.
pub fn submit_procedure(
    state: &mut OrchestratorState,
    procedure: &ProcedureDefinition,
    slots: &Vec<String>,
    execution_strategy: ExecutionStrategy,
    procedure_dir: &str,
) -> (r: Result<(), String>)
    requires
        old(state).total_jobs_submitted + queued_at_submit(*procedure, texts(slots@), execution_strategy)
            + plug_operations(procedure.plugs@, slots@.len()) <= usize::MAX,
    ensures
        final(state).should_stop_on_first_failure == (procedure.on_first_failure == FirstFailureAction::Stop),
        r is Err <==> exceeds_queue_limit(old(state).job_queue@.len(), slots@.len(), *procedure),
        r matches Err(e) ==> e@ == "Job queue size limit exceeded ("@ + crate::text::decimal(MAX_JOB_QUEUE_SIZE as nat) + ")"@,
        r is Err ==> {
            &&& final(state).job_queue@ == old(state).job_queue@
            &&& final(state).total_jobs_submitted == old(state).total_jobs_submitted
            &&& final(state).pending_slot_jobs@ == old(state).pending_slot_jobs@
            &&& final(state).teardown_procedure_jobs@ == old(state).teardown_procedure_jobs@
        },
        r is Ok ==> {
            let plan = run_plan(*procedure, texts(slots@));
            let n = old(state).job_queue@.len();
            let added = final(state).job_queue@.subrange(n as int, final(state).job_queue@.len() as int);
            let groups = slot_groups(plan, texts(slots@));
            &&& final(state).job_queue@.len() >= n
            &&& final(state).job_queue@.subrange(0, n as int) == old(state).job_queue@
            &&& final(state).total_jobs_submitted == old(state).total_jobs_submitted + added.len()
                + plug_operations(procedure.plugs@, slots@.len())
            &&& forall|i: int, j: int| 0 <= i < added.len() && 0 <= j < added.len() ==> waits_for(#[trigger] added[i], #[trigger] added[j])
            &&& forall|k: int| 0 <= k < added.len() ==> fresh(#[trigger] added[k])
            &&& match execution_strategy {
                ExecutionStrategy::PhaseFirst => {
                    &&& plan_of(added) == phase_first_plan(*procedure, plan)
                    &&& final(state).pending_slot_jobs@ == old(state).pending_slot_jobs@
                    &&& final(state).teardown_procedure_jobs@ == old(state).teardown_procedure_jobs@
                },
                ExecutionStrategy::SlotFirst => {
                    &&& plan_of(added) == entries_at(plan, StageScope::SetupAll, None) + if groups.len() > 0 {
                        groups[0].1
                    } else {
                        Seq::empty()
                    }
                    &&& pending_plan(final(state).pending_slot_jobs@) == if groups.len() > 1 {
                        groups.drop_first()
                    } else {
                        pending_plan(old(state).pending_slot_jobs@)
                    }
                    &&& plan_of(final(state).teardown_procedure_jobs@) == entries_at(plan, StageScope::TeardownAll, None)
                },
            }
        },
        final(state).completed_jobs@ == old(state).completed_jobs@,
        final(state).job_results@ == old(state).job_results@,
        final(state).worker_state == old(state).worker_state,
        final(state).shutdown_requested == old(state).shutdown_requested,
{
    state.should_stop_on_first_failure = matches!(procedure.on_first_failure, FirstFailureAction::Stop);
    if check_queue_limit(state.job_queue.len(), slots.len(), procedure) {
        let mut e = text_of("Job queue size limit exceeded (");
        push_decimal(&mut e, MAX_JOB_QUEUE_SIZE as u128);
        push_str(&mut e, ")");
        return Err(e);
    }
    let all_jobs = build_jobs(procedure, slots, procedure_dir);
    proof { lemma_plan_len(all_jobs@); }
    let ghost n0 = state.job_queue@.len();
    match execution_strategy {
        ExecutionStrategy::SlotFirst => submit_slot_first(state, &all_jobs, slots),
        ExecutionStrategy::PhaseFirst => submit_phase_first(state, procedure, &all_jobs),
    }
    proof {
        lemma_plan_len(state.job_queue@.subrange(n0 as int, state.job_queue@.len() as int));
    }
    let operations = count_plug_operations(&procedure.plugs, slots.len());
    state.total_jobs_submitted = state.total_jobs_submitted + operations;
    Ok(())
}

/// The first slot's jobs lead the slots' list.
proof fn lemma_pending_plan_first(v: Seq<(String, Vec<Job>)>)
    ensures
        pending_plan(v).len() == v.len(),
        v.len() > 0 ==> pending_plan(v)[0] == (v[0].0@, plan_of(v[0].1@)),
        v.len() > 0 ==> pending_plan(v.drop_first()) == pending_plan(v).drop_first(),
    decreases v.len(),
{
    if v.len() > 0 {
        lemma_pending_plan_first(v.drop_last());
        if v.len() > 1 {
            assert(v.drop_first().drop_last() =~= v.drop_last().drop_first());
            assert(v.drop_last()[0] == v[0]);
            assert(pending_plan(v.drop_first()) =~= pending_plan(v).drop_first());
        } else {
            assert(v.drop_first() =~= Seq::<(String, Vec<Job>)>::empty());
        }
    }
}

/// Copies of fresh, ordered planned jobs are fresh and keep the order.
proof fn lemma_added_properties(added: Seq<Job>, all: Seq<Job>)
    requires
        copies_of(added, all),
        forall|k: int| 0 <= k < all.len() ==> fresh(#[trigger] all[k]),
        forall|i: int, j: int| 0 <= i < all.len() && 0 <= j < all.len() ==> waits_for(#[trigger] all[i], #[trigger] all[j]),
    ensures
        forall|k: int| 0 <= k < added.len() ==> fresh(#[trigger] added[k]),
        forall|i: int, j: int| 0 <= i < added.len() && 0 <= j < added.len() ==> waits_for(#[trigger] added[i], #[trigger] added[j]),
{
    assert forall|k: int| 0 <= k < added.len() implies fresh(#[trigger] added[k]) by {
        let m = choose|m: int| 0 <= m < all.len() && is_copy(added[k], all[m]);
        assert(fresh(all[m]));
    }
    assert forall|i: int, j: int| 0 <= i < added.len() && 0 <= j < added.len() implies waits_for(#[trigger] added[i], #[trigger] added[j]) by {
        let mi = choose|m: int| 0 <= m < all.len() && is_copy(added[i], all[m]);
        let mj = choose|m: int| 0 <= m < all.len() && is_copy(added[j], all[m]);
        assert(waits_for(all[mi], all[mj]));
        lemma_copies_wait(added[i], added[j], all[mi], all[mj]);
    }
}

} // verus!
