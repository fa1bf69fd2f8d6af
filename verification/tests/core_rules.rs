use vhdl_policy::policy::input::{Input, Entity, Architecture, Package, Component, Port, Dependency, FileInfo, CaseStatement, Process};
use vhdl_policy::policy::core_rules::{duplicate_entity_in_library, duplicate_package_in_library, entity_without_arch, missing_ports, orphan_architecture, potential_latch, unresolved_component, unresolved_dependency};

fn base_input() -> Input {
    Input::default()
}

#[test]
fn missing_ports_flags_non_testbench() {
    let mut input = base_input();
    input.entities.push(Entity {
        name: "core".to_string(),
        file: "a.vhd".to_string(),
        line: 1,
        ports: vec![],
        generics: vec![],
    });
    let violations = missing_ports(&input);
    assert_eq!(violations.len(), 1);
    assert_eq!(violations[0].rule, "entity_has_ports");
}

#[test]
fn missing_ports_skips_testbench() {
    let mut input = base_input();
    input.entities.push(Entity {
        name: "core_tb".to_string(),
        file: "a.vhd".to_string(),
        line: 1,
        ports: vec![],
        generics: vec![],
    });
    let violations = missing_ports(&input);
    assert!(violations.is_empty());
}

#[test]
fn orphan_architecture_flags_missing_entity() {
    let mut input = base_input();
    input.architectures.push(Architecture {
        name: "rtl".to_string(),
        entity_name: "missing".to_string(),
        file: "a.vhd".to_string(),
        line: 2,
    });
    let violations = orphan_architecture(&input);
    assert_eq!(violations.len(), 1);
    assert_eq!(violations[0].rule, "architecture_has_entity");
}

#[test]
fn unresolved_component_flags_missing_target() {
    let mut input = base_input();
    input.components.push(Component {
        name: "u1".to_string(),
        entity_ref: "work.missing".to_string(),
        file: "a.vhd".to_string(),
        line: 3,
        is_instance: true,
        ports: vec![],
        generics: vec![],
    });
    let violations = unresolved_component(&input);
    assert_eq!(violations.len(), 1);
    assert_eq!(violations[0].rule, "component_resolved");
}

#[test]
fn unresolved_dependency_flags_instantiation() {
    let mut input = base_input();
    input.dependencies.push(Dependency {
        source: "a.vhd".to_string(),
        target: "work.missing".to_string(),
        kind: "instantiation".to_string(),
        line: 4,
        resolved: false,
    });
    let violations = unresolved_dependency(&input);
    assert_eq!(violations.len(), 1);
    assert_eq!(violations[0].rule, "unresolved_dependency");
}

#[test]
fn potential_latch_flags_missing_others() {
    let mut input = base_input();
    input.case_statements.push(CaseStatement {
        expression: "state".to_string(),
        has_others: false,
        file: "a.vhd".to_string(),
        line: 5,
        in_process: "p1".to_string(),
        ..Default::default()
    });
    input.processes.push(Process {
        label: "p1".to_string(),
        in_arch: "".to_string(),
        is_combinational: true,
        file: "a.vhd".to_string(),
        line: 5,
        ..Default::default()
    });
    let violations = potential_latch(&input);
    assert_eq!(violations.len(), 1);
    assert_eq!(violations[0].rule, "potential_latch");
}

#[test]
fn entity_without_arch_flags_missing_arch() {
    let mut input = base_input();
    input.entities.push(Entity {
        name: "core".to_string(),
        file: "a.vhd".to_string(),
        line: 6,
        ports: vec![Port::default()],
        generics: vec![],
    });
    let violations = entity_without_arch(&input);
    assert_eq!(violations.len(), 1);
    assert_eq!(violations[0].rule, "entity_without_arch");
}

#[test]
fn duplicate_entity_in_library_flags() {
    let mut input = base_input();
    input.files = vec![
        FileInfo {
            path: "a.vhd".to_string(),
            library: "work".to_string(),
            ..Default::default()
        },
        FileInfo {
            path: "b.vhd".to_string(),
            library: "work".to_string(),
            ..Default::default()
        },
    ];
    input.entities.push(Entity {
        name: "dup_ent".to_string(),
        file: "a.vhd".to_string(),
        line: 1,
        ports: vec![],
        generics: vec![],
    });
    input.entities.push(Entity {
        name: "dup_ent".to_string(),
        file: "b.vhd".to_string(),
        line: 2,
        ports: vec![],
        generics: vec![],
    });
    let violations = duplicate_entity_in_library(&input);
    assert_eq!(violations.len(), 1);
    assert_eq!(violations[0].rule, "duplicate_entity_in_library");
}

#[test]
fn duplicate_entity_in_library_skips_other_library() {
    let mut input = base_input();
    input.files = vec![
        FileInfo {
            path: "a.vhd".to_string(),
            library: "lib_a".to_string(),
            ..Default::default()
        },
        FileInfo {
            path: "b.vhd".to_string(),
            library: "lib_b".to_string(),
            ..Default::default()
        },
    ];
    input.entities.push(Entity {
        name: "dup_ent".to_string(),
        file: "a.vhd".to_string(),
        line: 1,
        ports: vec![],
        generics: vec![],
    });
    input.entities.push(Entity {
        name: "dup_ent".to_string(),
        file: "b.vhd".to_string(),
        line: 2,
        ports: vec![],
        generics: vec![],
    });
    let violations = duplicate_entity_in_library(&input);
    assert!(violations.is_empty());
}

#[test]
fn duplicate_package_in_library_flags() {
    let mut input = base_input();
    input.files = vec![
        FileInfo {
            path: "a.vhd".to_string(),
            library: "work".to_string(),
            ..Default::default()
        },
        FileInfo {
            path: "b.vhd".to_string(),
            library: "work".to_string(),
            ..Default::default()
        },
    ];
    input.packages.push(Package {
        name: "dup_pkg".to_string(),
        file: "a.vhd".to_string(),
        line: 1,
    });
    input.packages.push(Package {
        name: "dup_pkg".to_string(),
        file: "b.vhd".to_string(),
        line: 2,
    });
    let violations = duplicate_package_in_library(&input);
    assert_eq!(violations.len(), 1);
    assert_eq!(violations[0].rule, "duplicate_package_in_library");
}
