use vhdl_policy::policy::input::{Input, CDCCrossing};
use vhdl_policy::policy::cdc::{cdc_unsync_single_bit};

#[test]
fn cdc_unsync_single_bit_flags() {
    let mut input = Input::default();
    input.cdc_crossings.push(CDCCrossing {
        signal: "sig".to_string(),
        source_clock: "clk_a".to_string(),
        dest_clock: "clk_b".to_string(),
        is_synchronized: false,
        is_multi_bit: false,
        file: "a.vhd".to_string(),
        line: 1,
        ..Default::default()
    });
    let v = cdc_unsync_single_bit(&input);
    assert_eq!(v.len(), 1);
    assert_eq!(v[0].rule, "cdc_unsync_single_bit");
}
