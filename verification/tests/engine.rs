use vhdl_policy::policy::input::{Input, Entity, Architecture, Signal};
use vhdl_policy::policy::engine::{evaluate};

#[test]
fn filter_respects_disabled_rules() {
    let mut input = Input::default();
    input
        .lint_config
        .rules
        .insert("entity_has_ports".to_string(), "off".to_string());
    input
        .lint_config
        .rules
        .insert("entity_no_ports_not_tb".to_string(), "off".to_string());
    input
        .lint_config
        .rules
        .insert("file_entity_mismatch".to_string(), "off".to_string());
    input
        .lint_config
        .rules
        .insert("trivial_architecture".to_string(), "off".to_string());
    input
        .lint_config
        .rules
        .insert("unused_signal".to_string(), "off".to_string());
    input.entities.push(Entity {
        name: "core".to_string(),
        file: "a.vhd".to_string(),
        line: 1,
        ..Default::default()
    });
    input.architectures.push(Architecture {
            name: "rtl".to_string(),
            entity_name: "core".to_string(),
            file: "a.vhd".to_string(),
            line: 2,
        });
    input.signals.push(Signal {
        name: "sig".to_string(),
        in_entity: "rtl".to_string(),
        ..Default::default()
    });
    let result = evaluate(&input, &Vec::new());
    assert!(result.violations.is_empty());
}

#[test]
fn filter_applies_severity_override() {
    let mut input = Input::default();
    input
        .lint_config
        .rules
        .insert("entity_has_ports".to_string(), "error".to_string());
    input
        .lint_config
        .rules
        .insert("entity_no_ports_not_tb".to_string(), "off".to_string());
    input
        .lint_config
        .rules
        .insert("file_entity_mismatch".to_string(), "off".to_string());
    input
        .lint_config
        .rules
        .insert("trivial_architecture".to_string(), "off".to_string());
    input
        .lint_config
        .rules
        .insert("unused_signal".to_string(), "off".to_string());
    input.entities.push(Entity {
        name: "core".to_string(),
        file: "a.vhd".to_string(),
        line: 1,
        ..Default::default()
    });
    input.architectures.push(Architecture {
            name: "rtl".to_string(),
            entity_name: "core".to_string(),
            file: "a.vhd".to_string(),
            line: 2,
        });
    input.signals.push(Signal {
        name: "sig".to_string(),
        in_entity: "rtl".to_string(),
        ..Default::default()
    });
    let result = evaluate(&input, &Vec::new());
    assert_eq!(result.violations.len(), 1);
    assert_eq!(result.violations[0].severity, "error");
}
