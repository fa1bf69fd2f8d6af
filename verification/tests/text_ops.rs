use vhdl_policy::policy::clocks_resets::multiple_clocks_in_process;
use vhdl_policy::policy::helpers::{
    base_arch_name, base_type_name, is_clock_name, is_optional_rule, is_reset_name, is_skip_name,
    is_testbench_name, sig_in_sensitivity,
};
use vhdl_policy::policy::input::{Input, Instance, Process, Signal, Entity};
use vhdl_policy::policy::map::StringMap;
use vhdl_policy::policy::quality::{entity_name_with_numbers, extract_filename, hardcoded_generic, magic_width_number};
use vhdl_policy::policy::subprograms::parse_qualified_name;
use vhdl_policy::policy::synthesis::{extract_width, is_array_type};
use vhdl_policy::policy::verification::{format_bindings, parse_scope};
use vhdl_policy::text::{
    decimal_text, join_strings, parse_integer, parse_unsigned, sorted_strings, text_less, to_lower,
    to_upper, trimmed,
};

#[test]
fn decimal_numerals_are_exact() {
    assert_eq!(decimal_text(0), "0");
    assert_eq!(decimal_text(7), "7");
    assert_eq!(decimal_text(10), "10");
    assert_eq!(decimal_text(1234567890), "1234567890");
    assert_eq!(decimal_text(usize::MAX), usize::MAX.to_string());
}

#[test]
fn integers_are_read_like_the_standard_parser() {
    for text in ["0", "7", "+7", "-7", "007", "-0", "2147483647", "2147483648", "-2147483648", "-2147483649", "", "+", "-", "1a", " 1", "1 ", "٣"] {
        let expected = text.parse::<i32>().ok().map(|v| v as i64);
        assert_eq!(parse_integer(text, true, i32::MIN as i64, i32::MAX as i64), expected, "{:?}", text);
    }
    for text in ["0", "+5", "-5", "-0", "18446744073709551615", "18446744073709551616", "99999999999999999999999"] {
        let expected = text.parse::<u64>().ok();
        assert_eq!(parse_unsigned(text, u64::MAX), expected, "{:?}", text);
    }
    assert_eq!(parse_integer("-9223372036854775808", true, i64::MIN, i64::MAX), Some(i64::MIN));
    assert_eq!(parse_integer("9223372036854775808", true, i64::MIN, i64::MAX), None);
}

#[test]
fn case_folding_touches_ascii_letters_only() {
    assert_eq!(to_lower("Clk_EN9"), "clk_en9");
    assert_eq!(to_upper("Clk_en9"), "CLK_EN9");
    assert_eq!(to_lower("ÄbC"), "Äbc");
}

#[test]
fn trimming_removes_white_space_at_both_ends() {
    assert_eq!(trimmed("  a b \t\n"), "a b");
    assert_eq!(trimmed("\u{a0}x\u{3000}"), "x");
    assert_eq!(trimmed("   "), "");
    assert_eq!(trimmed(""), "");
}

#[test]
fn strings_sort_in_code_point_order() {
    let list = vec!["b".to_string(), "a".to_string(), "B".to_string(), "ab".to_string(), "".to_string(), "a".to_string()];
    let mut expected = list.clone();
    expected.sort();
    assert_eq!(sorted_strings(&list), expected);
    assert!(text_less("a", "ab"));
    assert!(!text_less("ab", "a"));
    assert!(!text_less("a", "a"));
    assert!(text_less("B", "a"));
}

#[test]
fn joining_puts_the_separator_between_neighbours() {
    let list = vec!["a".to_string(), "b".to_string(), "c".to_string()];
    assert_eq!(join_strings(&list, ", "), "a, b, c");
    assert_eq!(join_strings(&list[..1].to_vec(), ", "), "a");
    assert_eq!(join_strings(&Vec::new(), ", "), "");
}

#[test]
fn name_classes_follow_their_patterns() {
    for name in ["clk", "CLOCK", "sys_clk", "clk_100", "ref_clock"] {
        assert!(is_clock_name(name), "{}", name);
    }
    for name in ["clkdiv", "clocks", "myclk"] {
        assert!(!is_clock_name(name), "{}", name);
    }
    for name in ["reset", "sys_reset_n", "rst", "RSTN", "rst_a", "rstn_a", "a_rst", "a_rstn", "a_rst_b", "a_rstn_b"] {
        assert!(is_reset_name(name), "{}", name);
    }
    for name in ["first", "rsta", "burst"] {
        assert!(!is_reset_name(name), "{}", name);
    }
    for name in ["core_tb", "tb_core", "coretb", "my_test", "bench1", "bus_bfm", "verification_top"] {
        assert!(is_testbench_name(name), "{}", name);
    }
    assert!(!is_testbench_name("core"));
    assert!(is_optional_rule("entity_has_ports"));
    assert!(is_optional_rule("trigger_drives_output"));
    assert!(!is_optional_rule("output_port_read"));
    assert!(!is_optional_rule("missing_verification_check"));
    assert!(!is_optional_rule("Entity_has_ports"));
}

#[test]
fn skip_names_include_capital_prefixes() {
    let input = Input::default();
    assert!(is_skip_name(&input, "ABC_width"));
    assert!(is_skip_name(&input, "c_width"));
    assert!(is_skip_name(&input, "WIDTH"));
    assert!(is_skip_name(&input, "downto"));
    assert!(is_skip_name(&input, "to_integer"));
    assert!(is_skip_name(&input, "I"));
    assert!(!is_skip_name(&input, "data_q"));
    assert!(!is_skip_name(&input, "Abc_width"));
}

#[test]
fn type_and_scope_names_are_reduced_to_their_base() {
    assert_eq!(base_type_name("  work.pkg.Word_T(7 downto 0) "), "word_t");
    assert_eq!(base_type_name("std_logic_vector (3 downto 0)"), "std_logic_vector");
    assert_eq!(base_type_name(""), "");
    assert_eq!(base_arch_name("rtl.gen_a.gen_b"), "rtl");
    assert_eq!(base_arch_name("rtl"), "rtl");
}

#[test]
fn record_fields_count_as_their_record_in_sensitivity() {
    let list = vec!["bus".to_string(), "clk".to_string()];
    assert!(sig_in_sensitivity("BUS", &list));
    assert!(sig_in_sensitivity("bus.valid", &list));
    assert!(!sig_in_sensitivity("busy", &list));
    assert!(sig_in_sensitivity("b", &vec!["b.x".to_string()]));
}

#[test]
fn widths_are_read_from_literal_ranges() {
    assert_eq!(extract_width("std_logic_vector(7 downto 0)"), 8);
    assert_eq!(extract_width("STD_LOGIC_VECTOR(0 TO 15)"), 16);
    assert_eq!(extract_width("std_logic_vector(N-1 downto 0)"), 0);
    assert_eq!(extract_width("std_logic_vector(7 downto 1)"), 0);
    assert_eq!(extract_width("std_logic"), 0);
    assert_eq!(extract_width("bit_vector(99999999999999999999999 downto 0)"), 0);
}

#[test]
fn array_types_show_two_ranges_in_a_row() {
    assert!(is_array_type("mem_array_t"));
    assert!(is_array_type("word(0 to 3)(7 downto 0)"));
    assert!(is_array_type("word(0 to 3)  (7 downto 0)"));
    assert!(!is_array_type("word(0 to 3) x (7 downto 0)"));
    assert!(!is_array_type("std_logic_vector(7 downto 0)"));
}

#[test]
fn magic_widths_are_read_from_the_type() {
    let mut input = Input::default();
    for (name, ty, width) in [
        ("a", "std_logic_vector(12 downto 0)", 0usize),
        ("b", "std_logic_vector( 15  downto 0 )", 0),
        ("c", "std_logic", 24),
        ("d", "std_logic_vector(7 downto 0)", 0),
    ] {
        input.signals.push(Signal {
            name: name.to_string(),
            ty: ty.to_string(),
            width,
            file: "a.vhd".to_string(),
            ..Default::default()
        });
    }
    let v = magic_width_number(&input);
    let messages: Vec<&str> = v.iter().map(|x| x.message.as_str()).collect();
    assert_eq!(
        messages,
        vec![
            "Signal 'a' has magic width 13 - consider using a constant",
            "Signal 'c' has magic width 24 - consider using a constant",
        ]
    );
}

#[test]
fn numbered_entity_names_spare_versions() {
    let mut input = Input::default();
    for name in ["fifo2", "core_v2", "core_rev10", "plain"] {
        input.entities.push(Entity { name: name.to_string(), ..Default::default() });
    }
    let v = entity_name_with_numbers(&input);
    assert_eq!(v.len(), 1);
    assert_eq!(v[0].message, "Entity 'fifo2' contains numbers - consider a more descriptive name");
}

#[test]
fn hardcoded_generics_are_numbers_above_eight() {
    let mut input = Input::default();
    let mut inst = Instance { name: "u1".to_string(), ..Default::default() };
    inst.generic_map = StringMap::new();
    inst.generic_map.insert("WIDTH".to_string(), "32".to_string());
    inst.generic_map.insert("DEPTH".to_string(), "8".to_string());
    inst.generic_map.insert("NAME".to_string(), "x32".to_string());
    inst.generic_map.insert("HUGE".to_string(), "99999999999".to_string());
    input.instances.push(inst);
    let v = hardcoded_generic(&input);
    assert_eq!(v.len(), 1);
    assert_eq!(
        v[0].message,
        "Instance 'u1' has hardcoded generic value '32' - consider using a constant or generic"
    );
}

#[test]
fn file_names_lose_directory_and_ending() {
    assert_eq!(extract_filename("src/rtl/core.vhd"), "core");
    assert_eq!(extract_filename("core.vhdl"), "core");
    assert_eq!(extract_filename("core.vhd.vhd"), "core");
    assert_eq!(extract_filename("core.vhdl.vhd"), "core.vhdl");
    assert_eq!(extract_filename("core"), "core");
}

#[test]
fn qualified_names_give_package_and_subprogram() {
    assert_eq!(
        parse_qualified_name("work.My_Pkg. To_Word "),
        Some(("my_pkg".to_string(), "to_word".to_string()))
    );
    assert_eq!(parse_qualified_name("to_word"), None);
    assert_eq!(parse_qualified_name("pkg..f"), Some(("pkg".to_string(), "f".to_string())));
    assert_eq!(parse_qualified_name(" . "), None);
}

#[test]
fn scopes_split_at_the_first_colon() {
    assert_eq!(parse_scope(" Arch : RTL "), Some(("arch".to_string(), "rtl".to_string())));
    assert_eq!(parse_scope("arch:a:b"), Some(("arch".to_string(), "a:b".to_string())));
    assert_eq!(parse_scope("arch"), None);
    assert_eq!(parse_scope("arch: "), None);
    assert_eq!(parse_scope(":rtl"), None);
}

#[test]
fn bindings_are_shown_in_key_order() {
    let mut map = StringMap::new();
    map.insert("valid".to_string(), "v".to_string());
    map.insert("ready".to_string(), "r".to_string());
    assert_eq!(format_bindings(&map), "ready=r, valid=v");
    assert_eq!(format_bindings(&StringMap::new()), "");
    map.insert("valid".to_string(), "w".to_string());
    assert_eq!(map.len(), 2);
    assert_eq!(format_bindings(&map), "ready=r, valid=w");
}

#[test]
fn clock_lists_are_shown_in_debug_form() {
    let mut input = Input::default();
    input.processes.push(Process {
        label: "p".to_string(),
        is_sequential: true,
        sensitivity_list: vec!["clk_a".to_string(), "rst".to_string(), "clk_\"b".to_string()],
        ..Default::default()
    });
    let v = multiple_clocks_in_process(&input);
    assert_eq!(v.len(), 1);
    assert_eq!(
        v[0].message,
        "Process 'p' appears to use multiple clocks [\"clk_a\", \"clk_\\\"b\"] - potential CDC issue"
    );
}
