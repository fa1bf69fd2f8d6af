use vhdl_policy::policy::input::{Input, Entity, Architecture, Port, Process};
use vhdl_policy::policy::clocks_resets::{clock_not_std_logic, missing_reset, multiple_clocks_in_process};

fn add_entity_arch(input: &mut Input, name: &str) {
    input.entities.push(Entity {
        name: name.to_string(),
        file: "a.vhd".to_string(),
        line: 1,
        ..Default::default()
    });
    input.architectures.push(Architecture {
        name: "rtl".to_string(),
        entity_name: name.to_string(),
        file: "a.vhd".to_string(),
        line: 2,
    });
}

#[test]
fn clock_not_std_logic_flags() {
    let mut input = Input::default();
    add_entity_arch(&mut input, "core");
    input.ports.push(Port {
        name: "clk".to_string(),
        direction: "in".to_string(),
        ty: "std_logic_vector".to_string(),
        in_entity: "core".to_string(),
        line: 3,
        ..Default::default()
    });
    let violations = clock_not_std_logic(&input);
    assert_eq!(violations.len(), 1);
    assert_eq!(violations[0].rule, "clock_not_std_logic");
}

#[test]
fn multiple_clocks_in_process_flags() {
    let mut input = Input::default();
    input.processes.push(Process {
        label: "p1".to_string(),
        is_sequential: true,
        sensitivity_list: vec!["clk_a".to_string(), "clk_b".to_string()],
        file: "a.vhd".to_string(),
        line: 4,
        ..Default::default()
    });
    let violations = multiple_clocks_in_process(&input);
    assert_eq!(violations.len(), 1);
    assert_eq!(violations[0].rule, "multiple_clocks_in_process");
}

#[test]
fn missing_reset_flags() {
    let mut input = Input::default();
    input.processes.push(Process {
        label: "p1".to_string(),
        is_sequential: true,
        has_reset: false,
        assigned_signals: vec!["sig".to_string()],
        file: "a.vhd".to_string(),
        line: 5,
        ..Default::default()
    });
    let violations = missing_reset(&input);
    assert_eq!(violations.len(), 1);
    assert_eq!(violations[0].rule, "missing_reset");
}
