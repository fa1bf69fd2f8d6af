use vhdl_policy::policy::input::{Input, Entity, Signal, Port, Instance, Association};
use vhdl_policy::policy::hierarchy::{floating_instance_input, port_width_mismatch, sparse_port_map};

#[test]
fn sparse_port_map_flags() {
    let mut input = Input::default();
    let mut inst = Instance::default();
    inst.name = "u1".to_string();
    inst.file = "a.vhd".to_string();
    inst.port_map.insert("a".to_string(), "sig".to_string());
    input.instances.push(inst);
    let v = sparse_port_map(&input);
    assert_eq!(v.len(), 1);
    assert_eq!(v[0].rule, "sparse_port_map");
}

#[test]
fn floating_instance_input_flags() {
    let mut input = Input::default();
    let mut inst = Instance::default();
    inst.name = "u1".to_string();
    inst.target = "work.ent".to_string();
    inst.file = "a.vhd".to_string();
    input.instances.push(inst);
    let mut entity = Entity::default();
    entity.name = "ent".to_string();
    entity.ports.push(Port {
        name: "data_in".to_string(),
        direction: "in".to_string(),
        ..Default::default()
    });
    input.entities.push(entity);
    let v = floating_instance_input(&input);
    assert_eq!(v.len(), 1);
    assert_eq!(v[0].rule, "floating_instance_input");
}

#[test]
fn floating_instance_input_ignores_defaulted_port() {
    let mut input = Input::default();
    let mut inst = Instance::default();
    inst.name = "u1".to_string();
    inst.target = "work.ent".to_string();
    inst.file = "a.vhd".to_string();
    input.instances.push(inst);
    let mut entity = Entity::default();
    entity.name = "ent".to_string();
    entity.ports.push(Port {
        name: "cfg_i".to_string(),
        direction: "in".to_string(),
        default: "'0'".to_string(),
        ..Default::default()
    });
    input.entities.push(entity);
    let v = floating_instance_input(&input);
    assert!(v.is_empty());
}

#[test]
fn port_width_mismatch_ignores_sliced_actual() {
    let mut input = Input::default();
    let mut entity = Entity::default();
    entity.name = "child".to_string();
    entity.ports.push(Port {
        name: "shamt_i".to_string(),
        direction: "in".to_string(),
        width: 5,
        ..Default::default()
    });
    input.entities.push(entity);

    let mut inst = Instance::default();
    inst.name = "u1".to_string();
    inst.target = "work.child".to_string();
    inst.file = "a.vhd".to_string();
    inst.line = 1;
    inst.port_map
        .insert("shamt_i".to_string(), "opb".to_string());
    inst.associations.push(Association {
        kind: "port".to_string(),
        formal: "shamt_i".to_string(),
        actual: "opb(4 downto 0)".to_string(),
        ..Default::default()
    });
    input.instances.push(inst);

    input.signals.push(Signal {
        name: "opb".to_string(),
        width: 32,
        ..Default::default()
    });

    let v = port_width_mismatch(&input);
    assert!(v.is_empty());
}

#[test]
fn port_width_mismatch_skips_unknown_index_width() {
    let mut input = Input::default();
    let mut entity = Entity::default();
    entity.name = "child".to_string();
    entity.ports.push(Port {
        name: "res_o".to_string(),
        direction: "out".to_string(),
        width: 32,
        ..Default::default()
    });
    input.entities.push(entity);

    let mut inst = Instance::default();
    inst.name = "u1".to_string();
    inst.target = "work.child".to_string();
    inst.file = "a.vhd".to_string();
    inst.line = 1;
    inst.associations.push(Association {
        kind: "port".to_string(),
        formal: "res_o".to_string(),
        actual: "cp_result(0)".to_string(),
        ..Default::default()
    });
    input.instances.push(inst);

    input.signals.push(Signal {
        name: "cp_result".to_string(),
        width: 0,
        ..Default::default()
    });

    let v = port_width_mismatch(&input);
    assert!(v.is_empty());
}
