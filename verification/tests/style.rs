use vhdl_policy::policy::input::{Input, Entity, Architecture, Signal, Port, Dependency, Process};
use vhdl_policy::policy::style::{architecture_naming_convention, empty_architecture, large_entity, legacy_packages, multiple_entities_per_file, process_label_missing};

#[test]
fn large_entity_flags_over_50_ports() {
    let mut input = Input::default();
    let ports: Vec<_> = (0..51)
        .map(|_| Port {
            name: "p".to_string(),
            ..Default::default()
        })
        .collect();
    input.entities.push(Entity {
        name: "core".to_string(),
        file: "a.vhd".to_string(),
        line: 1,
        ports,
        ..Default::default()
    });
    let violations = large_entity(&input);
    assert_eq!(violations.len(), 1);
    assert_eq!(violations[0].rule, "large_entity");
}

#[test]
fn legacy_packages_flags_std_logic_arith() {
    let mut input = Input::default();
    input.dependencies.push(Dependency {
        source: "a.vhd".to_string(),
        target: "ieee.std_logic_arith".to_string(),
        line: 3,
        ..Default::default()
    });
    let violations = legacy_packages(&input);
    assert_eq!(violations.len(), 1);
    assert_eq!(violations[0].rule, "legacy_packages");
}

#[test]
fn process_label_missing_flags_empty() {
    let mut input = Input::default();
    input.processes.push(Process {
        label: "".to_string(),
        file: "a.vhd".to_string(),
        line: 10,
        ..Default::default()
    });
    let violations = process_label_missing(&input);
    assert_eq!(violations.len(), 1);
    assert_eq!(violations[0].rule, "process_label_missing");
}

#[test]
fn architecture_naming_convention_flags_nonstandard() {
    let mut input = Input::default();
    input.architectures.push(Architecture {
        name: "custom".to_string(),
        file: "a.vhd".to_string(),
        line: 1,
        ..Default::default()
    });
    let violations = architecture_naming_convention(&input);
    assert_eq!(violations.len(), 1);
    assert_eq!(violations[0].rule, "architecture_naming_convention");
}

#[test]
fn empty_architecture_flags_when_no_contents() {
    let mut input = Input::default();
    input.architectures.push(Architecture {
        name: "rtl".to_string(),
        file: "a.vhd".to_string(),
        line: 1,
        ..Default::default()
    });
    let violations = empty_architecture(&input);
    assert_eq!(violations.len(), 1);
    assert_eq!(violations[0].rule, "empty_architecture");
}

#[test]
fn multiple_entities_per_file_flags() {
    let mut input = Input::default();
    input.entities.push(Entity {
        name: "a".to_string(),
        file: "a.vhd".to_string(),
        line: 1,
        ..Default::default()
    });
    input.entities.push(Entity {
        name: "b".to_string(),
        file: "a.vhd".to_string(),
        line: 2,
        ..Default::default()
    });
    let violations = multiple_entities_per_file(&input);
    assert_eq!(violations.len(), 1);
    assert_eq!(violations[0].rule, "multiple_entities_per_file");
}

#[test]
fn empty_architecture_ignored_when_signal_exists() {
    let mut input = Input::default();
    input.architectures.push(Architecture {
        name: "rtl".to_string(),
        file: "a.vhd".to_string(),
        line: 1,
        ..Default::default()
    });
    input.signals.push(Signal {
        name: "sig".to_string(),
        in_entity: "rtl".to_string(),
        ..Default::default()
    });
    let violations = empty_architecture(&input);
    assert!(violations.is_empty());
}
