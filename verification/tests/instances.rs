use vhdl_policy::policy::input::{Input, Instance};
use vhdl_policy::policy::instances::{instance_naming_convention, positional_mapping};
use vhdl_policy::policy::map::StringMap;

fn single_entry(key: &str, value: &str) -> StringMap {
    let mut map = StringMap::new();
    map.insert(key.to_string(), value.to_string());
    map
}

fn input_with_instance(name: &str, port_map_len: usize) -> Input {
    let mut input = Input::default();
    let mut port_map = StringMap::new();
    for idx in 0..port_map_len {
        port_map.insert(format!("p{}", idx), format!("a{}", idx));
    }
    input.instances.push(Instance {
        name: name.to_string(),
        file: "test.vhd".to_string(),
        line: 10,
        port_map,
        ..Default::default()
    });
    input
}

#[test]
fn positional_mapping_flags_empty_map() {
    let input = input_with_instance("u_ok", 0);
    let violations = positional_mapping(&input);
    assert_eq!(violations.len(), 1);
    assert_eq!(violations[0].rule, "positional_mapping");
}

#[test]
fn positional_mapping_ignores_named_map() {
    let input = input_with_instance("u_ok", 2);
    let violations = positional_mapping(&input);
    assert!(violations.is_empty());
}

#[test]
fn instance_naming_convention_flags_bad_prefix() {
    let input = input_with_instance("core0", 1);
    let violations = instance_naming_convention(&input);
    assert_eq!(violations.len(), 1);
    assert_eq!(violations[0].rule, "instance_naming_convention");
}

#[test]
fn instance_naming_convention_accepts_valid_prefixes() {
    let mut input = Input::default();
    input.instances.push(Instance {
        name: "u_core".to_string(),
        file: "test.vhd".to_string(),
        line: 10,
        port_map: single_entry("p0", "a0"),
        ..Default::default()
    });
    input.instances.push(Instance {
        name: "i_core".to_string(),
        file: "test.vhd".to_string(),
        line: 11,
        port_map: single_entry("p0", "a0"),
        ..Default::default()
    });
    input.instances.push(Instance {
        name: "inst_core".to_string(),
        file: "test.vhd".to_string(),
        line: 12,
        port_map: single_entry("p0", "a0"),
        ..Default::default()
    });
    let violations = instance_naming_convention(&input);
    assert!(violations.is_empty());
}
