use vhdl_policy::policy::input::{Input, Signal};
use vhdl_policy::policy::synthesis::{very_wide_bus};

#[test]
fn very_wide_bus_flags() {
    let mut input = Input::default();
    input.signals.push(Signal {
        name: "bus".to_string(),
        ty: "std_logic_vector(128 downto 0)".to_string(),
        file: "a.vhd".to_string(),
        line: 1,
        ..Default::default()
    });
    let v = very_wide_bus(&input);
    assert_eq!(v.len(), 1);
    assert_eq!(v[0].rule, "very_wide_bus");
}
