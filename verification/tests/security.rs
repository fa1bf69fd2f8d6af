use vhdl_policy::policy::input::{Input, Entity, Architecture, Port, Comparison, Process};
use vhdl_policy::policy::security::{magic_number_comparison, multi_trigger_process, trigger_drives_output};

#[test]
fn magic_number_comparison_flags() {
    let mut input = Input::default();
    input.comparisons.push(Comparison {
        is_literal: true,
        literal_value: "DEADBEEF".to_string(),
        file: "a.vhd".to_string(),
        line: 1,
        ..Default::default()
    });
    let v = magic_number_comparison(&input);
    assert_eq!(v.len(), 1);
    assert_eq!(v[0].rule, "magic_number_comparison");
}

#[test]
fn trigger_drives_output_flags() {
    let mut input = Input::default();
    input.ports.push(Port {
        name: "out_sig".to_string(),
        direction: "out".to_string(),
        ..Default::default()
    });
    input.comparisons.push(Comparison {
        is_literal: true,
        literal_bits: 16,
        operator: "=".to_string(),
        result_drives: "out_sig".to_string(),
        literal_value: "FF".to_string(),
        file: "a.vhd".to_string(),
        line: 2,
        ..Default::default()
    });
    let v = trigger_drives_output(&input);
    assert_eq!(v.len(), 1);
    assert_eq!(v[0].rule, "trigger_drives_output");
}

#[test]
fn multi_trigger_process_flags() {
    let mut input = Input::default();
    input.processes.push(Process {
        label: "p1".to_string(),
        file: "a.vhd".to_string(),
        line: 3,
        ..Default::default()
    });
    for _ in 0..3 {
        input.comparisons.push(Comparison {
            in_process: "p1".to_string(),
            is_literal: true,
            literal_bits: 13,
            file: "a.vhd".to_string(),
            line: 4,
            ..Default::default()
        });
    }
    let v = multi_trigger_process(&input);
    assert_eq!(v.len(), 1);
    assert_eq!(v[0].rule, "multi_trigger_process");
}

#[test]
fn multi_trigger_process_ignores_testbench() {
    let mut input = Input::default();
    input.entities.push(Entity {
        name: "tb_top".to_string(),
        file: "tb.vhd".to_string(),
        ..Default::default()
    });
    input.architectures.push(Architecture {
        name: "rtl".to_string(),
        entity_name: "tb_top".to_string(),
        file: "tb.vhd".to_string(),
        line: 1,
    });
    input.processes.push(Process {
        label: "p1".to_string(),
        in_arch: "rtl".to_string(),
        file: "tb.vhd".to_string(),
        line: 2,
        ..Default::default()
    });
    input.comparisons.push(Comparison {
        in_process: "p1".to_string(),
        is_literal: true,
        literal_bits: 32,
        ..Default::default()
    });
    input.comparisons.push(Comparison {
        in_process: "p1".to_string(),
        is_literal: true,
        literal_bits: 32,
        ..Default::default()
    });
    input.comparisons.push(Comparison {
        in_process: "p1".to_string(),
        is_literal: true,
        literal_bits: 32,
        ..Default::default()
    });
    let v = multi_trigger_process(&input);
    assert!(v.is_empty());
}
