use vhdl_policy::policy::input::{Input, Signal, CaseStatement, Process, TypeDeclaration};
use vhdl_policy::policy::latch::{enum_case_incomplete, incomplete_case_latch};

#[test]
fn incomplete_case_latch_flags() {
    let mut input = Input::default();
    input.processes.push(Process {
        label: "p1".to_string(),
        is_combinational: true,
        file: "a.vhd".to_string(),
        ..Default::default()
    });
    input.case_statements.push(CaseStatement {
        expression: "sel".to_string(),
        has_others: false,
        file: "a.vhd".to_string(),
        line: 10,
        in_process: "p1".to_string(),
        ..Default::default()
    });
    let v = incomplete_case_latch(&input);
    assert_eq!(v.len(), 1);
    assert_eq!(v[0].rule, "incomplete_case_latch");
}

#[test]
fn enum_case_incomplete_flags() {
    let mut input = Input::default();
    input.processes.push(Process {
        label: "p1".to_string(),
        is_combinational: true,
        file: "a.vhd".to_string(),
        ..Default::default()
    });
    input.signals.push(Signal {
        name: "state".to_string(),
        ty: "state_t".to_string(),
        ..Default::default()
    });
    input.types.push(TypeDeclaration {
        name: "state_t".to_string(),
        kind: "enum".to_string(),
        enum_literals: vec!["IDLE".to_string(), "RUN".to_string()],
        ..Default::default()
    });
    input.case_statements.push(CaseStatement {
        expression: "state".to_string(),
        has_others: false,
        choices: vec!["IDLE".to_string()],
        file: "a.vhd".to_string(),
        line: 11,
        in_process: "p1".to_string(),
        ..Default::default()
    });
    let v = enum_case_incomplete(&input);
    assert_eq!(v.len(), 1);
    assert_eq!(v[0].rule, "enum_case_incomplete");
}
