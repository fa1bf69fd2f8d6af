use vhdl_policy::policy::input::{Input, Entity, Architecture, Port, ConcurrentAssignment, Process};
use vhdl_policy::policy::ports::{inout_as_input, inout_as_output, output_port_read, undriven_output_port, unused_input_port};

fn base_input() -> Input {
    Input {
        standard: "1993".to_string(),
        ..Default::default()
    }
}

fn add_entity_arch(input: &mut Input, name: &str) {
    input.entities.push(Entity {
        name: name.to_string(),
        file: "a.vhd".to_string(),
        line: 1,
        ..Default::default()
    });
    input.architectures.push(Architecture {
        name: "rtl".to_string(),
        entity_name: name.to_string(),
        file: "a.vhd".to_string(),
        line: 2,
    });
}

#[test]
fn unused_input_port_warns() {
    let mut input = base_input();
    add_entity_arch(&mut input, "core");
    input.ports.push(Port {
        name: "data_in".to_string(),
        direction: "in".to_string(),
        in_entity: "core".to_string(),
        line: 3,
        ..Default::default()
    });
    let violations = unused_input_port(&input);
    assert_eq!(violations.len(), 1);
    assert_eq!(violations[0].rule, "unused_input_port");
}

#[test]
fn undriven_output_port_errors() {
    let mut input = base_input();
    add_entity_arch(&mut input, "core");
    input.ports.push(Port {
        name: "data_out".to_string(),
        direction: "out".to_string(),
        in_entity: "core".to_string(),
        line: 4,
        ..Default::default()
    });
    let violations = undriven_output_port(&input);
    assert_eq!(violations.len(), 1);
    assert_eq!(violations[0].rule, "undriven_output_port");
}

#[test]
fn output_port_read_flags_legacy() {
    let mut input = base_input();
    add_entity_arch(&mut input, "core");
    input.ports.push(Port {
        name: "data_out".to_string(),
        direction: "out".to_string(),
        in_entity: "core".to_string(),
        line: 5,
        ..Default::default()
    });
    input.processes.push(Process {
        read_signals: vec!["data_out".to_string()],
        ..Default::default()
    });
    let violations = output_port_read(&input);
    assert_eq!(violations.len(), 1);
    assert_eq!(violations[0].rule, "output_port_read");
}

#[test]
fn inout_only_written_flags_output() {
    let mut input = base_input();
    add_entity_arch(&mut input, "core");
    input.ports.push(Port {
        name: "io".to_string(),
        direction: "inout".to_string(),
        in_entity: "core".to_string(),
        line: 6,
        ..Default::default()
    });
    input.processes.push(Process {
        assigned_signals: vec!["io".to_string()],
        ..Default::default()
    });
    let violations = inout_as_output(&input);
    assert_eq!(violations.len(), 1);
    assert_eq!(violations[0].rule, "inout_as_output");
}

#[test]
fn inout_only_read_flags_input() {
    let mut input = base_input();
    add_entity_arch(&mut input, "core");
    input.ports.push(Port {
        name: "io".to_string(),
        direction: "inout".to_string(),
        in_entity: "core".to_string(),
        line: 7,
        ..Default::default()
    });
    input.processes.push(Process {
        read_signals: vec!["io".to_string()],
        ..Default::default()
    });
    let violations = inout_as_input(&input);
    assert_eq!(violations.len(), 1);
    assert_eq!(violations[0].rule, "inout_as_input");
}

#[test]
fn port_read_via_concurrent_assignment() {
    let mut input = base_input();
    add_entity_arch(&mut input, "core");
    input.ports.push(Port {
        name: "data_in".to_string(),
        direction: "in".to_string(),
        in_entity: "core".to_string(),
        line: 8,
        ..Default::default()
    });
    input.concurrent_assignments.push(ConcurrentAssignment {
        read_signals: vec!["data_in".to_string()],
        ..Default::default()
    });
    let violations = unused_input_port(&input);
    assert!(violations.is_empty());
}
