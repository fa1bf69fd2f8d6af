use vhdl_policy::policy::input::{Input, CaseStatement, Process};
use vhdl_policy::policy::processes::{comb_process_no_default, complex_process};

#[test]
fn complex_process_flags_many_assigns() {
    let mut input = Input::default();
    input.processes.push(Process {
        label: "p1".to_string(),
        assigned_signals: (0..21).map(|i| format!("s{}", i)).collect(),
        file: "a.vhd".to_string(),
        line: 1,
        ..Default::default()
    });
    let violations = complex_process(&input);
    assert_eq!(violations.len(), 1);
    assert_eq!(violations[0].rule, "complex_process");
}

#[test]
fn comb_process_no_default_flags_incomplete_case() {
    let mut input = Input::default();
    input.processes.push(Process {
        label: "p1".to_string(),
        is_combinational: true,
        assigned_signals: vec!["a".to_string()],
        file: "a.vhd".to_string(),
        line: 2,
        ..Default::default()
    });
    input.case_statements.push(CaseStatement {
        in_process: "p1".to_string(),
        has_others: false,
        ..Default::default()
    });
    let violations = comb_process_no_default(&input);
    assert_eq!(violations.len(), 1);
    assert_eq!(violations[0].rule, "comb_process_no_default");
}
