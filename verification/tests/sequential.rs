use vhdl_policy::policy::input::{Input, Process};
use vhdl_policy::policy::sequential::{async_reset_naming, missing_clock_sensitivity, signal_in_seq_and_comb};

#[test]
fn missing_clock_sensitivity_flags() {
    let mut input = Input::default();
    input.processes.push(Process {
        label: "seq".to_string(),
        is_sequential: true,
        clock_signal: "clk".to_string(),
        sensitivity_list: vec!["rst".to_string()],
        file: "a.vhd".to_string(),
        line: 1,
        ..Default::default()
    });
    let v = missing_clock_sensitivity(&input);
    assert_eq!(v.len(), 1);
    assert_eq!(v[0].rule, "missing_clock_sensitivity");
}

#[test]
fn signal_in_seq_and_comb_flags() {
    let mut input = Input::default();
    input.processes.push(Process {
        label: "seq".to_string(),
        is_sequential: true,
        assigned_signals: vec!["sig".to_string()],
        file: "a.vhd".to_string(),
        line: 2,
        ..Default::default()
    });
    input.processes.push(Process {
        label: "comb".to_string(),
        is_combinational: true,
        assigned_signals: vec!["sig".to_string()],
        file: "a.vhd".to_string(),
        line: 3,
        ..Default::default()
    });
    let v = signal_in_seq_and_comb(&input);
    assert_eq!(v.len(), 1);
    assert_eq!(v[0].rule, "signal_in_seq_and_comb");
}

#[test]
fn async_reset_naming_flags() {
    let mut input = Input::default();
    input.processes.push(Process {
        label: "seq".to_string(),
        is_sequential: true,
        has_reset: true,
        reset_signal: "reset".to_string(),
        file: "a.vhd".to_string(),
        line: 4,
        ..Default::default()
    });
    let v = async_reset_naming(&input);
    assert_eq!(v.len(), 1);
    assert_eq!(v[0].rule, "async_reset_naming");
}
