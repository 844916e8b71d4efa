use tofupilot_studio::completion::effective_timeout_ms;

#[test]
fn normal_run_keeps_timeout() {
    assert_eq!(effective_timeout_ms(Some(5000), false), Some(5000));
}

#[test]
fn debug_run_disables_timeout() {
    assert_eq!(effective_timeout_ms(Some(5000), true), None);
}

#[test]
fn no_timeout_stays_none() {
    assert_eq!(effective_timeout_ms(None, true), None);
}

#[test]
fn normal_run_without_timeout_stays_none() {
    assert_eq!(effective_timeout_ms(None, false), None);
}
