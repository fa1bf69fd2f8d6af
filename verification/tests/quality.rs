use vhdl_policy::policy::input::{Input, Entity, Signal, Port, GenerateStatement};
use vhdl_policy::policy::quality::{buffer_port, duplicate_entity_in_file, duplicate_port_in_entity, duplicate_signal_in_entity, unlabeled_generate, very_long_file};

#[test]
fn very_long_file_flags() {
    let mut input = Input::default();
    for i in 0..6 {
        input.entities.push(Entity {
            name: format!("e{}", i),
            file: "a.vhd".to_string(),
            line: i + 1,
            ..Default::default()
        });
    }
    let violations = very_long_file(&input);
    assert_eq!(violations.len(), 1);
    assert_eq!(violations[0].rule, "very_long_file");
}

#[test]
fn duplicate_signal_in_entity_flags() {
    let mut input = Input::default();
    input.signals.push(Signal {
        name: "sig".to_string(),
        file: "a.vhd".to_string(),
        line: 1,
        in_entity: "core".to_string(),
        ..Default::default()
    });
    input.signals.push(Signal {
        name: "sig".to_string(),
        file: "a.vhd".to_string(),
        line: 2,
        in_entity: "core".to_string(),
        ..Default::default()
    });
    let violations = duplicate_signal_in_entity(&input);
    assert_eq!(violations.len(), 1);
    assert_eq!(violations[0].rule, "duplicate_signal_in_entity");
}

#[test]
fn duplicate_port_in_entity_flags() {
    let mut input = Input::default();
    input.ports.push(Port {
        name: "p".to_string(),
        line: 1,
        in_entity: "core".to_string(),
        ..Default::default()
    });
    input.ports.push(Port {
        name: "p".to_string(),
        line: 2,
        in_entity: "core".to_string(),
        ..Default::default()
    });
    let violations = duplicate_port_in_entity(&input);
    assert_eq!(violations.len(), 1);
    assert_eq!(violations[0].rule, "duplicate_port_in_entity");
}

#[test]
fn duplicate_entity_in_file_flags() {
    let mut input = Input::default();
    input.entities.push(Entity {
        name: "core".to_string(),
        file: "a.vhd".to_string(),
        line: 1,
        ..Default::default()
    });
    input.entities.push(Entity {
        name: "core".to_string(),
        file: "a.vhd".to_string(),
        line: 2,
        ..Default::default()
    });
    let violations = duplicate_entity_in_file(&input);
    assert_eq!(violations.len(), 1);
    assert_eq!(violations[0].rule, "duplicate_entity_in_file");
}

#[test]
fn buffer_port_flags() {
    let mut input = Input::default();
    input.entities.push(Entity {
        name: "core".to_string(),
        file: "a.vhd".to_string(),
        line: 1,
        ..Default::default()
    });
    input.ports.push(Port {
        name: "p".to_string(),
        direction: "buffer".to_string(),
        in_entity: "core".to_string(),
        line: 2,
        ..Default::default()
    });
    let violations = buffer_port(&input);
    assert_eq!(violations.len(), 1);
    assert_eq!(violations[0].rule, "buffer_port");
}

#[test]
fn unlabeled_generate_flags() {
    let mut input = Input::default();
    input.generates.push(GenerateStatement {
        label: "".to_string(),
        file: "a.vhd".to_string(),
        line: 3,
        ..Default::default()
    });
    let violations = unlabeled_generate(&input);
    assert_eq!(violations.len(), 1);
    assert_eq!(violations[0].rule, "unlabeled_generate");
}
