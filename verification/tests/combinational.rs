use vhdl_policy::policy::input::{Input, Entity, Signal, SignalDep, Process};
use vhdl_policy::policy::combinational::{combinational_feedback, direct_combinational_loop, empty_sensitivity_combinational};

#[test]
fn combinational_feedback_flags() {
    let mut input = Input::default();
    input.processes.push(Process {
        label: "p1".to_string(),
        is_combinational: true,
        read_signals: vec!["a".to_string()],
        assigned_signals: vec!["a".to_string()],
        file: "a.vhd".to_string(),
        line: 1,
        ..Default::default()
    });
    let v = combinational_feedback(&input);
    assert_eq!(v.len(), 1);
    assert_eq!(v[0].rule, "combinational_feedback");
}

#[test]
fn empty_sensitivity_combinational_flags() {
    let mut input = Input::default();
    input.processes.push(Process {
        label: "p1".to_string(),
        is_combinational: true,
        assigned_signals: vec!["a".to_string()],
        file: "a.vhd".to_string(),
        line: 2,
        ..Default::default()
    });
    let v = empty_sensitivity_combinational(&input);
    assert_eq!(v.len(), 1);
    assert_eq!(v[0].rule, "empty_sensitivity_combinational");
}

#[test]
fn direct_combinational_loop_flags() {
    let mut input = Input::default();
    input.signal_deps.push(SignalDep {
        source: "a".to_string(),
        target: "a".to_string(),
        file: "a.vhd".to_string(),
        line: 3,
        ..Default::default()
    });
    let v = direct_combinational_loop(&input);
    assert_eq!(v.len(), 1);
    assert_eq!(v[0].rule, "direct_combinational_loop");
}

#[test]
fn direct_combinational_loop_ignores_testbench_file() {
    let mut input = Input::default();
    input.entities.push(Entity {
        name: "tb_top".to_string(),
        file: "tb.vhd".to_string(),
        ..Default::default()
    });
    input.signal_deps.push(SignalDep {
        source: "clk".to_string(),
        target: "clk".to_string(),
        file: "tb.vhd".to_string(),
        line: 10,
        ..Default::default()
    });
    let v = direct_combinational_loop(&input);
    assert!(v.is_empty());
}

#[test]
fn direct_combinational_loop_skips_resolved_signal() {
    let mut input = Input::default();
    input.signals.push(Signal {
        name: "bus".to_string(),
        ty: "std_logic".to_string(),
        file: "a.vhd".to_string(),
        line: 1,
        in_entity: "rtl".to_string(),
        ..Default::default()
    });
    input.signal_deps.push(SignalDep {
        source: "bus".to_string(),
        target: "bus".to_string(),
        file: "a.vhd".to_string(),
        line: 2,
        ..Default::default()
    });
    let v = direct_combinational_loop(&input);
    assert!(v.is_empty());
}
