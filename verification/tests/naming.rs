use vhdl_policy::policy::input::{Input, Entity, Signal, Port};
use vhdl_policy::policy::naming::{active_low_naming, entity_naming, signal_input_naming, signal_output_naming};

#[test]
fn entity_naming_flags_uppercase() {
    let mut input = Input::default();
    input.entities.push(Entity {
        name: "CORE".to_string(),
        file: "a.vhd".to_string(),
        line: 1,
        ..Default::default()
    });
    let violations = entity_naming(&input);
    assert_eq!(violations.len(), 1);
    assert_eq!(violations[0].rule, "naming_convention");
}

#[test]
fn signal_input_naming_flags_missing_suffix() {
    let mut input = Input::default();
    input.entities.push(Entity {
        name: "core".to_string(),
        file: "a.vhd".to_string(),
        line: 1,
        ..Default::default()
    });
    input.ports.push(Port {
        name: "data".to_string(),
        direction: "in".to_string(),
        in_entity: "core".to_string(),
        line: 2,
        ..Default::default()
    });
    let violations = signal_input_naming(&input);
    assert_eq!(violations.len(), 1);
    assert_eq!(violations[0].rule, "signal_input_naming");
}

#[test]
fn signal_output_naming_flags_missing_suffix() {
    let mut input = Input::default();
    input.entities.push(Entity {
        name: "core".to_string(),
        file: "a.vhd".to_string(),
        line: 1,
        ..Default::default()
    });
    input.ports.push(Port {
        name: "data".to_string(),
        direction: "out".to_string(),
        in_entity: "core".to_string(),
        line: 2,
        ..Default::default()
    });
    let violations = signal_output_naming(&input);
    assert_eq!(violations.len(), 1);
    assert_eq!(violations[0].rule, "signal_output_naming");
}

#[test]
fn active_low_naming_flags_missing_suffix() {
    let mut input = Input::default();
    input.signals.push(Signal {
        name: "not_reset".to_string(),
        file: "a.vhd".to_string(),
        line: 1,
        ..Default::default()
    });
    let violations = active_low_naming(&input);
    assert_eq!(violations.len(), 1);
    assert_eq!(violations[0].rule, "active_low_naming");
}
