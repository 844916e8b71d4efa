use tofupilot_studio::attempts::{job_unit_info, latest_attempts};
use tofupilot_studio::job::{JobResult, Outcome, PhaseResult};
use tofupilot_studio::state::{JobInfo, OrchestratorState};
use tofupilot_studio::unit::UnitInfo;

fn unit(sn: Option<&str>, pn: Option<&str>) -> UnitInfo {
    UnitInfo {
        serial_number: sn.map(|s| s.to_string()),
        part_number: pn.map(|s| s.to_string()),
        revision_number: None,
        batch_number: None,
        sub_units: None,
        status: "tested".to_string(),
        metadata: None,
    }
}

fn record(
    state: &mut OrchestratorState,
    id: u128,
    key: &str,
    slot: Option<&str>,
    retry_count: usize,
    started_at: i64,
    reported: Option<UnitInfo>,
    input: Option<UnitInfo>,
) {
    let mut r = JobResult::bare(PhaseResult::Continue, Outcome::Pass, 0);
    r.retry_count = retry_count;
    r.started_at = started_at;
    r.unit = reported;
    r.input_unit_info = input;
    state.job_results.insert(id, r);
    state.job_info.insert(
        id,
        JobInfo { phase_key: key.to_string(), phase_name: key.to_uppercase(), slot_id: slot.map(|s| s.to_string()) },
    );
}

#[test]
fn latest_attempt_of_each_phase_is_kept() {
    let mut state = OrchestratorState::new(1);
    record(&mut state, 1, "a", Some("s1"), 0, 10, None, None);
    record(&mut state, 2, "a", Some("s1"), 1, 20, None, None);
    record(&mut state, 3, "init", None, 0, 5, None, None);
    record(&mut state, 4, "a", Some("s2"), 0, 12, None, None);
    let mut r = latest_attempts(&state, Some("s1"));
    r.sort();
    assert_eq!(r, vec![2, 3]);
    let mut shared = latest_attempts(&state, None);
    shared.sort();
    assert_eq!(shared, vec![3]);
}

#[test]
fn job_starts_from_initial_unit_with_earlier_reports_applied() {
    let mut state = OrchestratorState::new(1);
    let initial = unit(Some("SN-0"), Some("PN-0"));
    // Phase "scan" reports a new serial number on its second attempt.
    record(&mut state, 1, "scan", Some("s1"), 0, 10, Some(unit(Some("SN-0"), Some("PN-0"))), Some(unit(Some("SN-0"), Some("PN-0"))));
    record(&mut state, 2, "scan", Some("s1"), 1, 20, Some(unit(Some("SN-7"), Some("PN-0"))), Some(unit(Some("SN-7"), Some("PN-0"))));
    // A later phase reports a new part number.
    record(&mut state, 3, "label", Some("s1"), 0, 30, Some(unit(Some("SN-7"), Some("PN-9"))), Some(unit(Some("SN-7"), Some("PN-0"))));
    // Another slot's and a shared phase's reports are ignored.
    record(&mut state, 4, "scan", Some("s2"), 0, 15, Some(unit(Some("OTHER"), None)), None);
    record(&mut state, 5, "init", None, 0, 5, Some(unit(Some("SHARED"), None)), None);
    let u = job_unit_info(Some(initial.duplicate()), &state, Some("s1")).expect("unit");
    assert_eq!(u.serial_number.as_deref(), Some("SN-7"));
    assert_eq!(u.part_number.as_deref(), Some("PN-9"));
    // A shared job keeps the starting identification.
    let shared = job_unit_info(Some(initial), &state, None).expect("unit");
    assert_eq!(shared.serial_number.as_deref(), Some("SN-0"));
}

#[test]
fn job_without_reports_keeps_initial() {
    let state = OrchestratorState::new(1);
    assert!(job_unit_info(None, &state, Some("s1")).is_none());
    let u = job_unit_info(Some(unit(Some("SN-1"), None)), &state, Some("s1")).expect("unit");
    assert_eq!(u.serial_number.as_deref(), Some("SN-1"));
}
