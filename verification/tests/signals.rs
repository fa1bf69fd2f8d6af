use vhdl_policy::policy::input::{Input, Entity, Architecture, Signal, Port, Process};
use vhdl_policy::policy::signals::{duplicate_signal_name, input_port_driven, multi_driven_signal, undeclared_signal_usage, undriven_signal, unused_signal, wide_signal, SignalUsageIndex};

#[test]
fn unused_signal_flags() {
    let mut input = Input::default();
    input.signals.push(Signal {
        name: "unused".to_string(),
        file: "a.vhd".to_string(),
        line: 1,
        in_entity: "ent".to_string(),
        ..Default::default()
    });
    let usage = SignalUsageIndex::from_input(&input);
    let v = unused_signal(&input, &usage);
    assert_eq!(v.len(), 1);
    assert_eq!(v[0].rule, "unused_signal");
}

#[test]
fn undriven_signal_flags() {
    let mut input = Input::default();
    input.signals.push(Signal {
        name: "sig".to_string(),
        file: "a.vhd".to_string(),
        line: 2,
        in_entity: "ent".to_string(),
        ..Default::default()
    });
    input.processes.push(Process {
        read_signals: vec!["sig".to_string()],
        file: "a.vhd".to_string(),
        ..Default::default()
    });
    let usage = SignalUsageIndex::from_input(&input);
    let v = undriven_signal(&input, &usage);
    assert_eq!(v.len(), 1);
    assert_eq!(v[0].rule, "undriven_signal");
}

#[test]
fn multi_driven_signal_flags() {
    let mut input = Input::default();
    input.entities.push(Entity {
        name: "ent".to_string(),
        file: "a.vhd".to_string(),
        line: 1,
        ..Default::default()
    });
    input.architectures.push(Architecture {
        name: "rtl".to_string(),
        entity_name: "ent".to_string(),
        file: "a.vhd".to_string(),
        line: 2,
    });
    input.signals.push(Signal {
        name: "sig".to_string(),
        ty: "bit".to_string(),
        file: "a.vhd".to_string(),
        line: 3,
        in_entity: "ent".to_string(),
        ..Default::default()
    });
    input.processes.push(Process {
        assigned_signals: vec!["sig".to_string()],
        in_arch: "rtl".to_string(),
        file: "a.vhd".to_string(),
        ..Default::default()
    });
    input.processes.push(Process {
        assigned_signals: vec!["sig".to_string()],
        in_arch: "rtl".to_string(),
        file: "a.vhd".to_string(),
        ..Default::default()
    });
    let v = multi_driven_signal(&input);
    assert_eq!(v.len(), 1);
    assert_eq!(v[0].rule, "multi_driven_signal");
}

#[test]
fn multi_driven_signal_ignores_resolved_type() {
    let mut input = Input::default();
    input.entities.push(Entity {
        name: "ent".to_string(),
        file: "a.vhd".to_string(),
        line: 1,
        ..Default::default()
    });
    input.architectures.push(Architecture {
        name: "rtl".to_string(),
        entity_name: "ent".to_string(),
        file: "a.vhd".to_string(),
        line: 2,
    });
    input.signals.push(Signal {
        name: "bus".to_string(),
        ty: "std_logic".to_string(),
        file: "a.vhd".to_string(),
        line: 3,
        in_entity: "ent".to_string(),
        ..Default::default()
    });
    input.processes.push(Process {
        assigned_signals: vec!["bus".to_string()],
        in_arch: "rtl".to_string(),
        file: "a.vhd".to_string(),
        ..Default::default()
    });
    input.processes.push(Process {
        assigned_signals: vec!["bus".to_string()],
        in_arch: "rtl".to_string(),
        file: "a.vhd".to_string(),
        ..Default::default()
    });
    let v = multi_driven_signal(&input);
    assert!(v.is_empty());
}

#[test]
fn undeclared_signal_usage_flags() {
    let mut input = Input::default();
    input.processes.push(Process {
        read_signals: vec!["mystery".to_string()],
        file: "a.vhd".to_string(),
        line: 10,
        in_arch: "rtl".to_string(),
        ..Default::default()
    });
    let usage = SignalUsageIndex::from_input(&input);
    let v = undeclared_signal_usage(&input, &usage);
    assert_eq!(v.len(), 1);
    assert_eq!(v[0].rule, "undeclared_signal_usage");
}

#[test]
fn input_port_driven_flags() {
    let mut input = Input::default();
    input.architectures.push(Architecture {
        name: "rtl".to_string(),
        entity_name: "ent".to_string(),
        file: "a.vhd".to_string(),
        line: 1,
    });
    input.ports.push(Port {
        name: "in_sig".to_string(),
        direction: "in".to_string(),
        in_entity: "ent".to_string(),
        line: 2,
        ..Default::default()
    });
    input.processes.push(Process {
        label: "p1".to_string(),
        assigned_signals: vec!["in_sig".to_string()],
        file: "a.vhd".to_string(),
        line: 3,
        in_arch: "rtl".to_string(),
        ..Default::default()
    });
    let v = input_port_driven(&input);
    assert_eq!(v.len(), 1);
    assert_eq!(v[0].rule, "input_port_driven");
}

#[test]
fn wide_signal_flags() {
    let mut input = Input::default();
    input.signals.push(Signal {
        name: "bus".to_string(),
        ty: "std_logic_vector(255 downto 0)".to_string(),
        file: "a.vhd".to_string(),
        line: 4,
        ..Default::default()
    });
    let v = wide_signal(&input);
    assert_eq!(v.len(), 1);
    assert_eq!(v[0].rule, "wide_signal");
}

#[test]
fn duplicate_signal_name_flags() {
    let mut input = Input::default();
    input.signals.push(Signal {
        name: "data_bus".to_string(),
        in_entity: "ent1".to_string(),
        file: "a.vhd".to_string(),
        line: 1,
        ..Default::default()
    });
    input.signals.push(Signal {
        name: "data_bus".to_string(),
        in_entity: "ent2".to_string(),
        file: "b.vhd".to_string(),
        line: 2,
        ..Default::default()
    });
    let v = duplicate_signal_name(&input);
    assert_eq!(v.len(), 1);
    assert_eq!(v[0].rule, "duplicate_signal_name");
}
