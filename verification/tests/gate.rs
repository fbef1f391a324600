use rogu::{is_enabled, set_level, Gate, Level};

#[test]
fn fresh_gate_has_everything_disabled() {
    let gate = Gate::new();
    assert!(!is_enabled(&gate, Level::ERROR));
    assert!(!is_enabled(&gate, Level::WARN));
    assert!(!is_enabled(&gate, Level::INFO));
    assert!(!is_enabled(&gate, Level::DEBUG));
    assert!(!is_enabled(&gate, Level::TRACE));
}

#[test]
fn none_disables_all_five_severities() {
    let mut gate = Gate::new();
    set_level(&mut gate, Level::TRACE);
    set_level(&mut gate, Level::NONE);
    assert!(!is_enabled(&gate, Level::ERROR));
    assert!(!is_enabled(&gate, Level::WARN));
    assert!(!is_enabled(&gate, Level::INFO));
    assert!(!is_enabled(&gate, Level::DEBUG));
    assert!(!is_enabled(&gate, Level::TRACE));
}

#[test]
fn trace_enables_all_five_severities() {
    let mut gate = Gate::new();
    set_level(&mut gate, Level::TRACE);
    assert!(is_enabled(&gate, Level::ERROR));
    assert!(is_enabled(&gate, Level::WARN));
    assert!(is_enabled(&gate, Level::INFO));
    assert!(is_enabled(&gate, Level::DEBUG));
    assert!(is_enabled(&gate, Level::TRACE));
}

#[test]
fn enabled_iff_stored_level_ranks_at_or_above() {
    let mut gate = Gate::new();
    set_level(&mut gate, Level::WARN);
    assert!(is_enabled(&gate, Level::ERROR));
    assert!(is_enabled(&gate, Level::WARN));
    assert!(!is_enabled(&gate, Level::INFO));
    assert!(!is_enabled(&gate, Level::DEBUG));
    assert!(!is_enabled(&gate, Level::TRACE));

    set_level(&mut gate, Level::DEBUG);
    assert!(is_enabled(&gate, Level::INFO));
    assert!(is_enabled(&gate, Level::DEBUG));
    assert!(!is_enabled(&gate, Level::TRACE));
}
