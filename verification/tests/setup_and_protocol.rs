use tofupilot_studio::protocol::{JsonLineProtocol, ProtocolError};
use tofupilot_studio::cli_text::run_verdict;
use tofupilot_studio::run_setup::{
    run_slots,
    auto_identify_unit_info, collect_unit_inputs, entries_with_prefix, prefill_unit_info, resolve_strategy,
    resolve_worker_count, slot_validation_error, strip_prefix, UnitInput,
};
use tofupilot_studio::schema::{
    ExecutionConfig, ExecutionStrategy, FirstFailureAction, ProcedureDefinition, UnitConfig, UnitFieldConfig,
};
use tofupilot_studio::string_map::StringMap;
use tofupilot_studio::unit::UnitInfo;

fn map(pairs: &[(&str, &str)]) -> StringMap {
    let mut m = StringMap::new();
    for (k, v) in pairs {
        m.insert(k.to_string(), v.to_string());
    }
    m
}

fn some_unit(sn: &str) -> UnitInfo {
    UnitInfo {
        serial_number: Some(sn.to_string()),
        part_number: None,
        revision_number: None,
        batch_number: None,
        sub_units: None,
        status: "complete".to_string(),
        metadata: None,
    }
}

#[test]
fn protocol_frames_lines_and_reports_closed_connection() {
    assert_eq!(JsonLineProtocol::frame("{\"a\":1}"), "{\"a\":1}\n");
    assert!(matches!(
        JsonLineProtocol::received_line(String::new(), 0),
        Err(ProtocolError::ConnectionClosed)
    ));
    assert_eq!(JsonLineProtocol::received_line("x\n".to_string(), 2).ok(), Some("x\n".to_string()));
    assert_eq!(ProtocolError::Io("broken".to_string()).describe(), "IO error: broken");
    assert_eq!(ProtocolError::Serialization("bad".to_string()).describe(), "Serialization error: bad");
    assert_eq!(ProtocolError::ConnectionClosed.describe(), "Connection closed");
}

#[test]
fn strip_prefix_and_prefixed_entries() {
    assert_eq!(strip_prefix("sub_unit:battery", "sub_unit:"), Some("battery".to_string()));
    assert_eq!(strip_prefix("battery", "sub_unit:"), None);
    let m = map(&[("sub_unit:battery", "B1"), ("serial_number", "SN"), ("sub_unit:motor", "M1")]);
    let subs = entries_with_prefix(&m, "sub_unit:");
    assert_eq!(subs.len(), 2);
    assert_eq!(subs.get("battery").map(|s| s.as_str()), Some("B1"));
    assert_eq!(subs.get("motor").map(|s| s.as_str()), Some("M1"));
    assert!(subs.get("serial_number").is_none());
}

#[test]
fn prefill_reads_slot_data() {
    let m = map(&[("serial_number", "SN-9"), ("batch_number", "B7"), ("sub_unit:battery", "BAT-1")]);
    let u = prefill_unit_info(&m, &None);
    assert_eq!(u.serial_number.as_deref(), Some("SN-9"));
    assert_eq!(u.part_number.as_deref(), Some(""));
    assert_eq!(u.revision_number, None);
    assert_eq!(u.batch_number.as_deref(), Some("B7"));
    assert_eq!(u.status, "complete");
    let subs = u.sub_units.expect("sub-units");
    assert_eq!(subs.get("battery").map(|s| s.as_str()), Some("BAT-1"));
}

#[test]
fn auto_identify_uses_defaults() {
    let config = UnitConfig {
        serial_number: Some(UnitFieldConfig {
            min_length: None,
            max_length: None,
            pattern: None,
            default_value: Some("AUTO-1".to_string()),
            placeholder: None,
        }),
        part_number: None,
        revision_number: None,
        batch_number: None,
        sub_units: None,
        auto_identify: true,
        metadata: None,
    };
    let u = auto_identify_unit_info(&config);
    assert_eq!(u.serial_number.as_deref(), Some("AUTO-1"));
    assert_eq!(u.part_number.as_deref(), Some(""));
    assert_eq!(u.status, "complete");
}

#[test]
fn strategy_and_worker_count_resolution() {
    assert_eq!(resolve_strategy(Some("slot_first"), None), ExecutionStrategy::SlotFirst);
    assert_eq!(resolve_strategy(Some("anything"), Some(ExecutionStrategy::SlotFirst)), ExecutionStrategy::PhaseFirst);
    assert_eq!(resolve_strategy(None, Some(ExecutionStrategy::SlotFirst)), ExecutionStrategy::SlotFirst);
    assert_eq!(resolve_strategy(None, None), ExecutionStrategy::PhaseFirst);
    assert_eq!(resolve_worker_count(Some(3), Some(8), 16), 3);
    assert_eq!(resolve_worker_count(None, Some(8), 16), 8);
    assert_eq!(resolve_worker_count(None, None, 16), 16);
}

#[test]
fn slot_validation_message() {
    assert_eq!(slot_validation_error(&vec![]), None);
    assert_eq!(
        slot_validation_error(&vec!["bad a".to_string(), "bad b".to_string()]),
        Some("Slot validation failed:\n• bad a\n• bad b".to_string())
    );
}

#[test]
fn unit_input_collection() {
    let r = collect_unit_inputs(vec![], false, true);
    assert_eq!(r.err(), Some("Unit input timeout: no serial number received within 5 minutes".to_string()));
    let r = collect_unit_inputs(
        vec![("s1".to_string(), UnitInput::Received(some_unit("A"))), ("s2".to_string(), UnitInput::Closed)],
        false,
        false,
    );
    assert_eq!(r.err(), Some("Execution cancelled during unit identification".to_string()));
    let r = collect_unit_inputs(vec![("s2".to_string(), UnitInput::Closed)], true, true);
    assert_eq!(r.err(), Some("Unit input channel closed before receiving unit info".to_string()));
    let r = collect_unit_inputs(
        vec![("s1".to_string(), UnitInput::Received(some_unit("A"))), ("s2".to_string(), UnitInput::Received(some_unit("B")))],
        false,
        false,
    )
    .ok()
    .expect("collected");
    assert_eq!(r.len(), 2);
    assert_eq!(r[0].0, "s1");
    assert_eq!(r[1].1.serial_number.as_deref(), Some("B"));
}

fn procedure_with(execution: Option<ExecutionConfig>) -> ProcedureDefinition {
    ProcedureDefinition {
        name: "p".to_string(),
        version: "1".to_string(),
        description: String::new(),
        setup_all: vec![],
        setup_each: vec![],
        main: vec![],
        teardown_each: vec![],
        teardown_all: vec![],
        plugs: vec![],
        on_first_failure: FirstFailureAction::Continue,
        unit: None,
        execution,
    }
}

#[test]
fn command_line_slots() {
    assert_eq!(run_slots(&procedure_with(None)).ok(), Some(vec!["SLOT_1".to_string()]));
    let empty = ExecutionConfig { workers: 2, strategy: ExecutionStrategy::PhaseFirst, slots: vec![] };
    assert_eq!(run_slots(&procedure_with(Some(empty))).ok(), Some(vec!["SLOT_1".to_string()]));
    let two = ExecutionConfig { workers: 2, strategy: ExecutionStrategy::PhaseFirst, slots: vec!["A".to_string(), "B".to_string()] };
    assert_eq!(run_slots(&procedure_with(Some(two))).ok(), Some(vec!["A".to_string(), "B".to_string()]));
    let blank = ExecutionConfig { workers: 2, strategy: ExecutionStrategy::PhaseFirst, slots: vec!["A".to_string(), " ".to_string()] };
    assert_eq!(run_slots(&procedure_with(Some(blank))).err(), Some("Slot names cannot be empty".to_string()));
}

#[test]
fn command_line_verdict() {
    assert_eq!(run_verdict(0), (true, 0));
    assert_eq!(run_verdict(2), (false, 1));
}

#[test]
fn shell_programs() {
    use_shell_checks();
}

fn use_shell_checks() {
    let s = |t: Option<&str>, w: bool| tofupilot_studio::shell::shell_invocation(t, w);
    assert_eq!(s(None, false).ok(), Some(("sh".to_string(), "sh".to_string(), "-c".to_string())));
    assert_eq!(s(None, true).ok(), Some(("powershell".to_string(), "powershell".to_string(), "-Command".to_string())));
    assert_eq!(s(Some("powershell"), false).ok(), Some(("powershell".to_string(), "pwsh".to_string(), "-Command".to_string())));
    assert_eq!(s(Some("cmd"), true).ok(), Some(("cmd".to_string(), "cmd".to_string(), "/C".to_string())));
    assert_eq!(s(Some("bash"), false).ok(), Some(("bash".to_string(), "bash".to_string(), "-c".to_string())));
    assert_eq!(s(Some("fish"), false).err(), Some("Unsupported shell type: fish".to_string()));
}
