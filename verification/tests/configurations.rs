use vhdl_policy::policy::input::{Input, Entity, Configuration};
use vhdl_policy::policy::configurations::{configuration_missing_entity};

#[test]
fn configuration_missing_entity_flags() {
    let mut input = Input::default();
    input.configurations.push(Configuration {
        name: "cfg".to_string(),
        entity_name: "missing".to_string(),
        file: "a.vhd".to_string(),
        line: 10,
    });
    let violations = configuration_missing_entity(&input);
    assert_eq!(violations.len(), 1);
    assert_eq!(violations[0].rule, "configuration_missing_entity");
}

#[test]
fn configuration_missing_entity_passes_when_entity_exists() {
    let mut input = Input::default();
    input.entities.push(Entity {
        name: "core".to_string(),
        file: "a.vhd".to_string(),
        line: 1,
        ..Default::default()
    });
    input.configurations.push(Configuration {
        name: "cfg".to_string(),
        entity_name: "core".to_string(),
        file: "a.vhd".to_string(),
        line: 10,
    });
    let violations = configuration_missing_entity(&input);
    assert!(violations.is_empty());
}
