use vhdl_policy::policy::input::{Input, Process};
use vhdl_policy::policy::rdc::{reset_crosses_domains};

#[test]
fn reset_crosses_domains_flags() {
    let mut input = Input::default();
    input.processes.push(Process {
        label: "p1".to_string(),
        has_reset: true,
        reset_signal: "rst".to_string(),
        clock_signal: "clk_a".to_string(),
        file: "a.vhd".to_string(),
        line: 1,
        ..Default::default()
    });
    input.processes.push(Process {
        label: "p2".to_string(),
        has_reset: true,
        reset_signal: "rst".to_string(),
        clock_signal: "clk_b".to_string(),
        file: "a.vhd".to_string(),
        line: 2,
        ..Default::default()
    });
    let v = reset_crosses_domains(&input);
    assert_eq!(v.len(), 1);
    assert_eq!(v[0].rule, "reset_crosses_domains");
}
