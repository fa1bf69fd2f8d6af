use vhdl_policy::policy::input::{Input, Entity, Architecture, Port};
use vhdl_policy::policy::testbench::{entity_no_ports_not_tb, mismatched_tb_architecture, tb_with_synth_arch, testbench_with_ports};

#[test]
fn testbench_with_ports_flags() {
    let mut input = Input::default();
    input.entities.push(Entity {
        name: "core_tb".to_string(),
        file: "a.vhd".to_string(),
        line: 1,
        ports: vec![Port::default()],
        ..Default::default()
    });
    let violations = testbench_with_ports(&input);
    assert_eq!(violations.len(), 1);
    assert_eq!(violations[0].rule, "testbench_with_ports");
}

#[test]
fn entity_no_ports_not_tb_flags() {
    let mut input = Input::default();
    input.entities.push(Entity {
        name: "core".to_string(),
        file: "a.vhd".to_string(),
        line: 2,
        ..Default::default()
    });
    let violations = entity_no_ports_not_tb(&input);
    assert_eq!(violations.len(), 1);
    assert_eq!(violations[0].rule, "entity_no_ports_not_tb");
}

#[test]
fn mismatched_tb_architecture_flags() {
    let mut input = Input::default();
    input.entities.push(Entity {
        name: "core".to_string(),
        file: "a.vhd".to_string(),
        line: 1,
        ..Default::default()
    });
    input.architectures.push(Architecture {
        name: "testbench".to_string(),
        entity_name: "core".to_string(),
        file: "a.vhd".to_string(),
        line: 3,
    });
    let violations = mismatched_tb_architecture(&input);
    assert_eq!(violations.len(), 1);
    assert_eq!(violations[0].rule, "mismatched_tb_architecture");
}

#[test]
fn tb_with_synth_arch_flags() {
    let mut input = Input::default();
    input.entities.push(Entity {
        name: "core_tb".to_string(),
        file: "a.vhd".to_string(),
        line: 1,
        ..Default::default()
    });
    input.architectures.push(Architecture {
        name: "rtl".to_string(),
        entity_name: "core_tb".to_string(),
        file: "a.vhd".to_string(),
        line: 3,
    });
    let violations = tb_with_synth_arch(&input);
    assert_eq!(violations.len(), 1);
    assert_eq!(violations[0].rule, "tb_with_synth_arch");
}
