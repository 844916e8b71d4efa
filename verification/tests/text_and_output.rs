use tofupilot_studio::cli_text::{
    header_lines, phase_transition_line, section_line, status_dots, summary_lines, system_operation_line,
    timeout_warning_line, MessageType, PhaseProgress, Section, TextColor,
};
use tofupilot_studio::text::{first_number, parse_u64, text_contains, text_lines, trim, utf8_len};

#[test]
fn trim_removes_surrounding_white_space() {
    assert_eq!(trim("  BAT-001 \t\n"), "BAT-001");
    assert_eq!(trim("   "), "");
    assert_eq!(trim("a b"), "a b");
}

#[test]
fn utf8_len_counts_bytes() {
    assert_eq!(utf8_len(&"abc".to_string()), 3);
    assert_eq!(utf8_len(&"é".to_string()), 2);
    assert_eq!(utf8_len(&"═".to_string()), 3);
}

#[test]
fn parse_u64_matches_std() {
    assert_eq!(parse_u64("60"), Some(60));
    assert_eq!(parse_u64("+7"), Some(7));
    assert_eq!(parse_u64("18446744073709551615"), Some(u64::MAX));
    assert_eq!(parse_u64("18446744073709551616"), None);
    assert_eq!(parse_u64(""), None);
    assert_eq!(parse_u64("+"), None);
    assert_eq!(parse_u64("-1"), None);
    assert_eq!(parse_u64("12a"), None);
}

#[test]
fn first_number_takes_first_numeric_token() {
    assert_eq!(first_number("Phase timed out after 30 seconds"), Some(30));
    assert_eq!(first_number("no digits here"), None);
    assert_eq!(first_number("x1 2 3"), Some(2));
}

#[test]
fn text_lines_split_like_str_lines() {
    assert_eq!(text_lines("a\nb\r\nc"), vec!["a", "b", "c"]);
    assert_eq!(text_lines("a\n"), vec!["a"]);
    assert_eq!(text_lines(""), Vec::<String>::new());
    assert_eq!(text_lines("\n\nx"), vec!["", "", "x"]);
}

#[test]
fn text_contains_finds_substrings() {
    assert!(text_contains("Phase timed out", "timed out"));
    assert!(text_contains("abc", ""));
    assert!(!text_contains("abc", "abd"));
}

#[test]
fn section_lines() {
    let l = section_line(Section::Error, "boom");
    assert_eq!(l.text, "ERROR: boom");
    assert_eq!(l.color, TextColor::Red);
    assert!(l.to_stderr);
    let l = section_line(Section::Summary, "done");
    assert_eq!(l.text, "done");
    assert!(!l.to_stderr);
    let l = section_line(Section::Init, "start");
    assert_eq!(l.text, "[[INIT]] start");
    assert_eq!(Section::Plugs.as_str(), "[PLUGS]");
}

#[test]
fn message_rendering() {
    let l = MessageType::Success("ok".to_string()).render();
    assert_eq!(l.text, "  OK: ok");
    assert_eq!(l.color, TextColor::Green);
    let l = MessageType::Progress("Loading".to_string(), 1, 4).render();
    assert_eq!(l.text, "  → Loading [1/4] (25%)");
    let l = MessageType::Progress("Loading".to_string(), 0, 0).render();
    assert_eq!(l.text, "  → Loading [0/0] (0%)");
    let l = MessageType::Debug("d".to_string()).render();
    assert!(l.to_stderr);
    assert_eq!(l.text, "    · d");
}

#[test]
fn status_dots_pad_to_fifty() {
    assert_eq!(status_dots("abc").len(), 47);
    assert_eq!(status_dots(&"x".repeat(60)), "");
}

#[test]
fn summary_has_duration_in_minutes_and_seconds() {
    let lines = summary_lines(true, 5, 4, 1, 125);
    assert_eq!(lines.len(), 9);
    assert_eq!(lines[2], "  Status: PASSED");
    assert_eq!(lines[3], "  Jobs: 5");
    assert_eq!(lines[4], "  Completed: 4");
    assert_eq!(lines[5], "  Failed: 1");
    assert_eq!(lines[6], "  Duration: 2m 5s");
    assert_eq!(summary_lines(false, 0, 0, 0, 0)[2], "  Status: FAILED");
}

#[test]
fn header_rule_is_as_wide_as_title() {
    let lines = header_lines("Proc", "1.0");
    assert_eq!(lines[0], "Proc v1.0");
    assert_eq!(lines[1], "═".repeat(9));
    assert_eq!(lines[2], "");
}

#[test]
fn status_and_phase_lines() {
    assert_eq!(system_operation_line("Load", "plug", true), "  OK: Load plug");
    assert_eq!(system_operation_line("Load", "plug", false), "  FAIL: Load plug");
    assert_eq!(phase_transition_line("Check", Some("slot1"), true), "  ● Starting phase: Check [slot1]");
    assert_eq!(phase_transition_line("Check", None, false), "  ● Completed phase: Check");
    assert_eq!(timeout_warning_line("Check", "slot1", 30), "  ! Phase timeout: Check [slot1] after 30s");
}

#[test]
fn phase_progress_counts_passes_and_failures() {
    let mut p = PhaseProgress::new("Check".to_string(), 3);
    p.add_slot_result("a".to_string(), true, 10);
    p.add_slot_result("b".to_string(), false, 20);
    assert_eq!(p.completed_slots, 2);
    assert_eq!(p.finish_line(), "[PHASE] Check completed (2/3 slots, 1 PASS, 1 FAIL)");
}
