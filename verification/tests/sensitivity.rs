use vhdl_policy::policy::input::{Input, Signal, Process};
use vhdl_policy::policy::sensitivity::{sensitivity_list_incomplete, sensitivity_list_superfluous};

#[test]
fn sensitivity_list_incomplete_flags() {
    let mut input = Input::default();
    input.processes.push(Process {
        label: "p1".to_string(),
        is_combinational: true,
        read_signals: vec!["a".to_string()],
        assigned_signals: vec!["b".to_string()],
        sensitivity_list: vec!["b".to_string()],
        file: "a.vhd".to_string(),
        line: 5,
        ..Default::default()
    });
    input.signals.push(Signal {
        name: "a".to_string(),
        ..Default::default()
    });
    let v = sensitivity_list_incomplete(&input);
    assert_eq!(v.len(), 1);
    assert_eq!(v[0].rule, "sensitivity_list_incomplete");
}

#[test]
fn sensitivity_list_superfluous_flags() {
    let mut input = Input::default();
    input.processes.push(Process {
        label: "p1".to_string(),
        is_combinational: true,
        read_signals: vec!["a".to_string()],
        sensitivity_list: vec!["a".to_string(), "b".to_string()],
        file: "a.vhd".to_string(),
        line: 8,
        ..Default::default()
    });
    let v = sensitivity_list_superfluous(&input);
    assert_eq!(v.len(), 1);
    assert_eq!(v[0].rule, "sensitivity_list_superfluous");
}
