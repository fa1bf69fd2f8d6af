use vhdl_policy::policy::input::{Input, Signal, CaseStatement, Process, TypeDeclaration};
use vhdl_policy::policy::fsm::{fsm_missing_default_state, fsm_unhandled_state, fsm_unreachable_state, single_state_signal, state_signal_not_enum};

#[test]
fn state_signal_not_enum_flags_vector() {
    let mut input = Input::default();
    input.signals.push(Signal {
        name: "state".to_string(),
        ty: "std_logic_vector".to_string(),
        file: "a.vhd".to_string(),
        line: 1,
        ..Default::default()
    });
    let violations = state_signal_not_enum(&input);
    assert_eq!(violations.len(), 1);
    assert_eq!(violations[0].rule, "state_signal_not_enum");
}

#[test]
fn single_state_signal_flags_missing_next_state() {
    let mut input = Input::default();
    input.signals.push(Signal {
        name: "state".to_string(),
        in_entity: "core".to_string(),
        file: "a.vhd".to_string(),
        line: 2,
        ..Default::default()
    });
    let violations = single_state_signal(&input);
    assert_eq!(violations.len(), 1);
    assert_eq!(violations[0].rule, "single_state_signal");
}

#[test]
fn fsm_missing_default_state_flags() {
    let mut input = Input::default();
    input.case_statements.push(CaseStatement {
        expression: "state".to_string(),
        has_others: false,
        file: "a.vhd".to_string(),
        line: 3,
        ..Default::default()
    });
    let violations = fsm_missing_default_state(&input);
    assert_eq!(violations.len(), 1);
    assert_eq!(violations[0].rule, "fsm_missing_default_state");
}

#[test]
fn fsm_unhandled_state_flags_missing_literal() {
    let mut input = Input::default();
    input.types.push(TypeDeclaration {
        name: "state_t".to_string(),
        kind: "enum".to_string(),
        enum_literals: vec!["IDLE".to_string(), "RUN".to_string()],
        ..Default::default()
    });
    input.case_statements.push(CaseStatement {
        expression: "state".to_string(),
        choices: vec!["IDLE".to_string()],
        has_others: false,
        file: "a.vhd".to_string(),
        line: 4,
        ..Default::default()
    });
    let violations = fsm_unhandled_state(&input);
    assert_eq!(violations.len(), 1);
    assert_eq!(violations[0].rule, "fsm_unhandled_state");
}

#[test]
fn fsm_unreachable_state_flags_missing_assignment() {
    let mut input = Input::default();
    input.types.push(TypeDeclaration {
        name: "state_t".to_string(),
        kind: "enum".to_string(),
        enum_literals: vec!["IDLE".to_string(), "RUN".to_string()],
        ..Default::default()
    });
    input.signals.push(Signal {
        name: "state".to_string(),
        file: "a.vhd".to_string(),
        line: 5,
        ..Default::default()
    });
    let violations = fsm_unreachable_state(&input);
    assert_eq!(violations.len(), 1);
    assert_eq!(violations[0].rule, "fsm_unreachable_state");
}

#[test]
fn fsm_unreachable_state_not_flagged_when_assigned() {
    let mut input = Input::default();
    input.types.push(TypeDeclaration {
        name: "state_t".to_string(),
        kind: "enum".to_string(),
        enum_literals: vec!["IDLE".to_string(), "RUN".to_string()],
        ..Default::default()
    });
    input.signals.push(Signal {
        name: "state".to_string(),
        file: "a.vhd".to_string(),
        line: 5,
        ..Default::default()
    });
    input.processes.push(Process {
        assigned_signals: vec!["state".to_string()],
        read_signals: vec!["RUN".to_string()],
        ..Default::default()
    });
    let violations = fsm_unreachable_state(&input);
    assert!(violations.is_empty());
}
