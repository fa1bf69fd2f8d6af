use vhdl_policy::policy::input::{Input, ArithmeticOp};
use vhdl_policy::policy::power::{unguarded_division};

#[test]
fn unguarded_division_flags() {
    let mut input = Input::default();
    input.arithmetic_ops.push(ArithmeticOp {
        operator: "/".to_string(),
        is_guarded: false,
        file: "a.vhd".to_string(),
        line: 1,
        ..Default::default()
    });
    let v = unguarded_division(&input);
    assert_eq!(v.len(), 1);
    assert_eq!(v[0].rule, "unguarded_division");
}
