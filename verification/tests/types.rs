use vhdl_policy::policy::input::{Input, Signal};
use vhdl_policy::policy::types::{optional_violations};

#[test]
fn mixed_signedness_flags_pair() {
    let mut input = Input::default();
    input.signals.push(Signal {
        name: "a".to_string(),
        ty: "signed".to_string(),
        file: "a.vhd".to_string(),
        line: 1,
        in_entity: "core".to_string(),
        ..Default::default()
    });
    input.signals.push(Signal {
        name: "b".to_string(),
        ty: "unsigned".to_string(),
        file: "a.vhd".to_string(),
        line: 2,
        in_entity: "core".to_string(),
        ..Default::default()
    });
    let violations = optional_violations(&input);
    assert_eq!(violations.len(), 1);
    assert_eq!(violations[0].rule, "mixed_signedness");
}

#[test]
fn mixed_signedness_ignores_different_entities() {
    let mut input = Input::default();
    input.signals.push(Signal {
        name: "a".to_string(),
        ty: "signed".to_string(),
        file: "a.vhd".to_string(),
        line: 1,
        in_entity: "core".to_string(),
        ..Default::default()
    });
    input.signals.push(Signal {
        name: "b".to_string(),
        ty: "unsigned".to_string(),
        file: "a.vhd".to_string(),
        line: 2,
        in_entity: "other".to_string(),
        ..Default::default()
    });
    let violations = optional_violations(&input);
    assert!(violations.is_empty());
}
