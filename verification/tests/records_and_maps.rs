use tofupilot_studio::job::{JobResult, Outcome, PhaseResult};
use tofupilot_studio::report::{
    collected_unit_info, create_phase_entry, procedure_info, report_outcome, run_stats, sort_by_start_time, PhaseEntry,
};
use tofupilot_studio::unit::UnitInfo;
use tofupilot_studio::schema::{FirstFailureAction, ProcedureDefinition, SubUnitItemConfig};
use tofupilot_studio::state::JobInfo;
use tofupilot_studio::string_map::StringMap;
use tofupilot_studio::ui::ComponentType;
use tofupilot_studio::worker_state::WorkerStateTracker;

#[test]
fn phase_entries_of_reports() {
    let mut r = JobResult::bare(PhaseResult::Retry, Outcome::Retry, 1000);
    r.completed_at = 1250;
    r.timeout_secs = Some(9);
    r.retry_count = 2;
    let info = JobInfo { phase_key: "p".to_string(), phase_name: "Probe".to_string(), slot_id: None };
    let e = create_phase_entry(0xabc, &r, Some(&info), vec!["log.txt".to_string()]);
    assert_eq!(e.name, "Probe");
    assert_eq!(e.slot_id, "<shared>");
    assert_eq!(e.job_id, "00000000-0000-0000-0000-000000000abc");
    assert_eq!(e.outcome, Outcome::Fail);
    assert_eq!(e.start_time, 1000);
    assert_eq!(e.duration_ms, 250);
    assert_eq!(e.error.as_deref(), Some("Timeout after 9 seconds"));
    assert_eq!(e.repeat_count, 2);
    let unknown = create_phase_entry(1, &JobResult::bare(PhaseResult::Continue, Outcome::Pass, 0), None, vec![]);
    assert_eq!(unknown.name, "Unknown");
    assert_eq!(unknown.slot_id, "Unknown");
    assert!(unknown.error.is_none());
}

#[test]
fn run_counts_and_outcome() {
    let pass = create_phase_entry(1, &JobResult::bare(PhaseResult::Continue, Outcome::Pass, 0), None, vec![]);
    let fail = create_phase_entry(2, &JobResult::bare(PhaseResult::Fail, Outcome::Fail, 0), None, vec![]);
    let err = create_phase_entry(3, &JobResult::bare(PhaseResult::Continue, Outcome::Error, 0), None, vec![]);
    let skip = create_phase_entry(4, &JobResult::bare(PhaseResult::Skip, Outcome::Skip, 0), None, vec![]);
    let s = run_stats(4, 4, 2, &vec![pass, fail, err, skip]);
    assert_eq!((s.phases_passed, s.phases_failed, s.phases_skipped), (1, 2, 1));
    assert_eq!(s.total_jobs, 4);
    assert_eq!(report_outcome(None), Outcome::Pass);
    assert_eq!(report_outcome(Some(Outcome::Timeout)), Outcome::Timeout);
}

#[test]
fn procedure_header() {
    let p = ProcedureDefinition {
        name: "Board".to_string(),
        version: "2".to_string(),
        description: "desc".to_string(),
        setup_all: vec![],
        setup_each: vec![],
        main: vec![],
        teardown_each: vec![],
        teardown_all: vec![],
        plugs: vec![],
        on_first_failure: FirstFailureAction::Continue,
        unit: None,
        execution: None,
    };
    let i = procedure_info(&p);
    assert_eq!(i.name, "Board");
    assert_eq!(i.description.as_deref(), Some("desc"));
}

#[test]
fn string_map_keeps_last_value_and_changed_entries() {
    let mut m = StringMap::new();
    m.insert("a".to_string(), "1".to_string());
    m.insert("b".to_string(), "2".to_string());
    m.insert("a".to_string(), "3".to_string());
    assert_eq!(m.len(), 2);
    assert_eq!(m.get("a").map(|s| s.as_str()), Some("3"));
    assert!(m.contains_key("b"));
    assert!(!m.contains_key("c"));
    let mut given = StringMap::new();
    given.insert("a".to_string(), "3".to_string());
    given.insert("b".to_string(), "0".to_string());
    let changed = m.changed_from(&given);
    assert_eq!(changed.to_pairs(), vec![("b".to_string(), "2".to_string())]);
    let mut other = StringMap::new();
    other.insert("c".to_string(), "4".to_string());
    other.insert("a".to_string(), "5".to_string());
    m.insert_all(&other);
    assert_eq!(m.get("a").map(|s| s.as_str()), Some("5"));
    assert_eq!(m.len(), 3);
}

#[test]
fn worker_assignment_and_release() {
    let mut w = WorkerStateTracker::new(2);
    assert_eq!(w.get_idle_worker(), Some(0));
    w.assign_job(0, 7).expect("idle");
    assert_eq!(w.assign_job(0, 8).err(), Some("Worker 0 is already busy".to_string()));
    assert_eq!(w.assign_job(5, 8).err(), Some("Worker 5 not found".to_string()));
    assert_eq!(w.get_idle_worker(), Some(1));
    assert_eq!(w.count_busy(), 1);
    assert_eq!(w.get_worker_for_job(7), Some(0));
    assert_eq!(w.release_by_job(7), Some(0));
    assert_eq!(w.release_by_job(7), None);
    assert_eq!(w.get_idle_workers(), vec![0, 1]);
    w.assign_job(1, 9).expect("idle");
    assert_eq!(w.release_worker(1), Some(9));
    assert_eq!(w.num_workers(), 2);
}

#[test]
fn component_kinds_round_trip_through_wire_names() {
    for name in ComponentType::all_valid_types() {
        let kind = ComponentType::from_str(name).expect("known kind");
        assert_eq!(kind.as_str(), name);
    }
    assert!(ComponentType::from_str("button").is_none());
    assert!(ComponentType::TextInput.is_input());
    assert!(!ComponentType::Image.is_input());
}

#[test]
fn sub_unit_keys_come_from_labels() {
    let item = SubUnitItemConfig { label: "Battery Pack".to_string(), key: None, serial_number: None };
    assert_eq!(item.get_key(), "battery_pack");
    let item = SubUnitItemConfig { label: "Motor".to_string(), key: Some("m1".to_string()), serial_number: None };
    assert_eq!(item.get_key(), "m1");
}

fn entry(name: &str, start: i64) -> PhaseEntry {
    let info = JobInfo { phase_key: name.to_string(), phase_name: name.to_string(), slot_id: None };
    create_phase_entry(1, &JobResult::bare(PhaseResult::Continue, Outcome::Pass, start), Some(&info), vec![])
}

#[test]
fn report_phases_sort_stably_by_start_time() {
    let sorted = sort_by_start_time(vec![entry("c", 30), entry("a1", 10), entry("b", 20), entry("a2", 10), entry("z", -5)]);
    let names: Vec<&str> = sorted.iter().map(|e| e.name.as_str()).collect();
    assert_eq!(names, vec!["z", "a1", "a2", "b", "c"]);
    assert!(sort_by_start_time(vec![]).is_empty());
}

fn unit_named(sn: &str) -> UnitInfo {
    UnitInfo {
        serial_number: Some(sn.to_string()),
        part_number: None,
        revision_number: None,
        batch_number: None,
        sub_units: None,
        status: "complete".to_string(),
        metadata: None,
    }
}

#[test]
fn report_unit_prefers_the_starting_identification() {
    let u = collected_unit_info(Some(unit_named("START")), vec![unit_named("P1")]);
    assert_eq!(u.and_then(|u| u.serial_number).as_deref(), Some("START"));
    let u = collected_unit_info(None, vec![unit_named("P1"), unit_named("P2")]);
    assert_eq!(u.and_then(|u| u.serial_number).as_deref(), Some("P2"));
    assert!(collected_unit_info(None, vec![]).is_none());
}
