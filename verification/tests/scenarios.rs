use vhdl_policy::policy::combinational::{direct_combinational_loop, two_stage_loop, three_stage_loop, cross_process_loop};
use vhdl_policy::policy::core_rules::{duplicate_entity_in_library, missing_ports};
use vhdl_policy::policy::engine::{evaluate, filter_violations, summarize};
use vhdl_policy::policy::hierarchy::{get_actual_width, indexed_width, port_width_mismatch};
use vhdl_policy::policy::input::{
    Architecture, Association, CaseStatement, ConcurrentAssignment, Entity, FileInfo, Input,
    Instance, Port, Process, Signal, SignalDep, TypeDeclaration, VerificationTag,
};
use vhdl_policy::policy::result::Violation;
use vhdl_policy::policy::verification::{analyze, CheckEntry};

fn entity(name: &str, file: &str, line: usize) -> Entity {
    Entity { name: name.to_string(), file: file.to_string(), line, ..Default::default() }
}

fn dep(source: &str, target: &str, line: usize) -> SignalDep {
    SignalDep {
        source: source.to_string(),
        target: target.to_string(),
        file: "a.vhd".to_string(),
        line,
        ..Default::default()
    }
}

fn enable(input: &mut Input, rule: &str, severity: &str) {
    input.lint_config.rules.insert(rule.to_string(), severity.to_string());
}

fn rules_of(violations: &[Violation]) -> Vec<String> {
    violations.iter().map(|v| v.rule.clone()).collect()
}

fn count_rule(violations: &[Violation], rule: &str) -> usize {
    violations.iter().filter(|v| v.rule == rule).count()
}

#[test]
fn entity_without_ports_is_found_by_the_engine_when_enabled() {
    let mut input = Input::default();
    input.entities.push(entity("core", "a.vhd", 1));
    assert_eq!(count_rule(&evaluate(&input, &Vec::new()).violations, "entity_has_ports"), 0);
    enable(&mut input, "entity_has_ports", "warning");
    let result = evaluate(&input, &Vec::new());
    let found: Vec<&Violation> =
        result.violations.iter().filter(|v| v.rule == "entity_has_ports").collect();
    assert_eq!(found.len(), 1);
    assert_eq!((found[0].file.as_str(), found[0].line), ("a.vhd", 1));
    assert_eq!(found[0].severity, "warning");
}

#[test]
fn entity_without_ports_gives_one_warning_at_its_line() {
    let mut input = Input::default();
    input.entities.push(entity("core", "a.vhd", 1));
    let v = missing_ports(&input);
    assert_eq!(v.len(), 1);
    assert_eq!(v[0].rule, "entity_has_ports");
    assert_eq!(v[0].severity, "warning");
    assert_eq!(v[0].file, "a.vhd");
    assert_eq!(v[0].line, 1);
    assert_eq!(v[0].message, "Entity 'core' has no ports defined");
}

#[test]
fn two_cycle_gives_one_two_stage_loop() {
    let mut input = Input::default();
    input.signal_deps.push(dep("a", "b", 3));
    input.signal_deps.push(dep("b", "a", 4));
    let v = two_stage_loop(&input);
    assert_eq!(v.len(), 1);
    assert_eq!(v[0].rule, "two_stage_combinational_loop");
    assert_eq!(v[0].line, 3);
    assert_eq!(v[0].message, "Combinational loop detected: 'a' -> 'b' -> 'a'");
}

#[test]
fn two_cycle_with_bit_signals_gives_one_two_stage_loop() {
    let mut input = Input::default();
    for name in ["a", "b"] {
        input.signals.push(Signal {
            name: name.to_string(),
            ty: "bit".to_string(),
            ..Default::default()
        });
    }
    input.signal_deps.push(dep("a", "b", 3));
    input.signal_deps.push(dep("b", "a", 4));
    assert_eq!(two_stage_loop(&input).len(), 1);
}

#[test]
fn two_cycle_through_resolved_signal_is_no_loop() {
    let mut input = Input::default();
    input.signals.push(Signal {
        name: "a".to_string(),
        ty: "std_logic".to_string(),
        ..Default::default()
    });
    input.signal_deps.push(dep("a", "b", 3));
    input.signal_deps.push(dep("b", "a", 4));
    assert!(two_stage_loop(&input).is_empty());
}

#[test]
fn self_edge_adds_exactly_one_direct_loop() {
    let mut input = Input::default();
    input.signal_deps.push(dep("x", "y", 1));
    let before = direct_combinational_loop(&input).len();
    input.signal_deps.push(dep("a", "a", 2));
    let after = direct_combinational_loop(&input);
    assert_eq!(after.len(), before + 1);
    assert_eq!(after[after.len() - 1].message, "Direct combinational loop: signal 'a' depends on itself");
}

#[test]
fn self_edge_behind_a_register_is_no_loop() {
    let mut input = Input::default();
    let mut registered = dep("b", "a", 1);
    registered.is_sequential = true;
    input.signal_deps.push(registered);
    input.signal_deps.push(dep("a", "a", 2));
    assert!(direct_combinational_loop(&input).is_empty());
}

#[test]
fn pair_of_edges_adds_exactly_one_two_stage_loop() {
    let mut input = Input::default();
    input.signal_deps.push(dep("x", "y", 1));
    input.signal_deps.push(dep("y", "x", 2));
    let before = two_stage_loop(&input).len();
    input.signal_deps.push(dep("a", "b", 3));
    input.signal_deps.push(dep("B", "A", 4));
    let after = two_stage_loop(&input);
    assert_eq!(before, 1);
    assert_eq!(after.len(), 2);
}

#[test]
fn three_cycle_is_reported_once_for_all_rotations() {
    let mut input = Input::default();
    input.signal_deps.push(dep("a", "b", 1));
    input.signal_deps.push(dep("b", "c", 2));
    input.signal_deps.push(dep("c", "a", 3));
    let v = three_stage_loop(&input);
    assert_eq!(v.len(), 1);
    assert_eq!(v[0].line, 1);
    assert_eq!(v[0].message, "Combinational loop detected: 'a' -> 'b' -> 'c' -> 'a'");
}

#[test]
fn cross_process_loop_is_reported_at_the_earlier_process() {
    let mut input = Input::default();
    input.processes.push(Process {
        label: "drive".to_string(),
        is_combinational: true,
        assigned_signals: vec!["alpha".to_string()],
        read_signals: vec!["beta".to_string()],
        file: "a.vhd".to_string(),
        line: 10,
        ..Default::default()
    });
    input.processes.push(Process {
        label: "sense".to_string(),
        is_combinational: true,
        assigned_signals: vec!["beta".to_string()],
        read_signals: vec!["alpha".to_string()],
        file: "a.vhd".to_string(),
        line: 20,
        ..Default::default()
    });
    let v = cross_process_loop(&input);
    assert_eq!(v.len(), 1);
    assert_eq!(v[0].line, 10);
    assert_eq!(
        v[0].message,
        "Cross-process combinational loop between 'drive' and 'sense' via signals 'alpha' and 'beta'"
    );
}

#[test]
fn duplicate_entity_is_reported_on_the_second_one() {
    let mut input = Input::default();
    for file in ["a.vhd", "b.vhd"] {
        input.files.push(FileInfo {
            path: file.to_string(),
            library: "work".to_string(),
            is_third_party: false,
        });
    }
    input.entities.push(entity("dup", "a.vhd", 1));
    input.entities.push(entity("dup", "b.vhd", 7));
    let v = duplicate_entity_in_library(&input);
    assert_eq!(v.len(), 1);
    assert_eq!(v[0].severity, "error");
    assert_eq!(v[0].file, "b.vhd");
    assert_eq!(v[0].line, 7);
    assert_eq!(
        v[0].message,
        "Entity 'dup' is defined multiple times in library 'work' (first seen at a.vhd:1)"
    );
}

fn sliced_instance_input() -> Input {
    let mut input = Input::default();
    input.entities.push(Entity {
        name: "child".to_string(),
        file: "child.vhd".to_string(),
        line: 1,
        ports: vec![Port {
            name: "shamt_i".to_string(),
            direction: "in".to_string(),
            width: 5,
            in_entity: "child".to_string(),
            ..Default::default()
        }],
        ..Default::default()
    });
    input.signals.push(Signal {
        name: "opb".to_string(),
        in_entity: "rtl".to_string(),
        width: 32,
        ..Default::default()
    });
    input
}

#[test]
fn slice_of_matching_width_is_no_mismatch() {
    let mut input = sliced_instance_input();
    let mut inst = Instance::default();
    inst.name = "u_child".to_string();
    inst.target = "child".to_string();
    inst.in_arch = "rtl".to_string();
    inst.associations.push(Association {
        kind: "port".to_string(),
        formal: "shamt_i".to_string(),
        actual: "opb(4 downto 0)".to_string(),
        ..Default::default()
    });
    input.instances.push(inst);
    assert!(port_width_mismatch(&input).is_empty());
}

#[test]
fn whole_signal_of_other_width_is_a_mismatch() {
    let mut input = sliced_instance_input();
    let mut inst = Instance::default();
    inst.name = "u_child".to_string();
    inst.target = "work.child".to_string();
    inst.in_arch = "rtl".to_string();
    inst.file = "top.vhd".to_string();
    inst.line = 12;
    inst.port_map.insert("shamt_i".to_string(), "opb".to_string());
    input.instances.push(inst);
    let v = port_width_mismatch(&input);
    assert_eq!(v.len(), 1);
    assert_eq!(
        v[0].message,
        "Width mismatch: signal 'opb' (32 bits) connected to port 'shamt_i' (5 bits) in instance 'u_child'"
    );
}

#[test]
fn index_widths_follow_the_range() {
    assert_eq!(indexed_width("opb(4 downto 0)", 32), Some(5));
    assert_eq!(indexed_width("opb(0 to 7)", 32), Some(8));
    assert_eq!(indexed_width("opb(3)", 32), Some(1));
    assert_eq!(indexed_width("opb(3)", 0), Some(0));
    assert_eq!(indexed_width("opb(1, 2)", 32), Some(0));
    assert_eq!(indexed_width("opb(n downto 0)", 32), None);
    assert_eq!(indexed_width("opb", 32), None);
    assert_eq!(indexed_width("opb(-2 downto -5)", 32), Some(4));
}

#[test]
fn literal_actuals_have_no_width() {
    let input = sliced_instance_input();
    assert_eq!(get_actual_width(&input, "opb", "rtl"), 32);
    assert_eq!(get_actual_width(&input, "open", "rtl"), 0);
    assert_eq!(get_actual_width(&input, "8", "rtl"), 0);
    assert_eq!(get_actual_width(&input, "x\"ff\"", "rtl"), 0);
    assert_eq!(get_actual_width(&input, "'1'", "rtl"), 0);
    assert_eq!(get_actual_width(&input, "opb + 1", "rtl"), 0);
    assert_eq!(get_actual_width(&input, "opb(7 downto 0)", "rtl"), 8);
}

fn fsm_input() -> Input {
    let mut input = Input::default();
    input.entities.push(Entity {
        name: "core".to_string(),
        file: "a.vhd".to_string(),
        line: 1,
        ports: vec![Port {
            name: "clk".to_string(),
            direction: "in".to_string(),
            ty: "std_logic".to_string(),
            in_entity: "core".to_string(),
            ..Default::default()
        }],
        ..Default::default()
    });
    input.architectures.push(Architecture {
        name: "rtl".to_string(),
        entity_name: "core".to_string(),
        file: "a.vhd".to_string(),
        line: 5,
    });
    input.types.push(TypeDeclaration {
        name: "state_t".to_string(),
        kind: "enum".to_string(),
        enum_literals: vec!["IDLE".to_string(), "RUN".to_string()],
        in_arch: "rtl".to_string(),
        ..Default::default()
    });
    input.signals.push(Signal {
        name: "state".to_string(),
        ty: "state_t".to_string(),
        file: "a.vhd".to_string(),
        line: 6,
        in_entity: "rtl".to_string(),
        ..Default::default()
    });
    input.processes.push(Process {
        label: "fsm".to_string(),
        is_sequential: true,
        clock_signal: "clk".to_string(),
        assigned_signals: vec!["state".to_string()],
        read_signals: vec!["state".to_string()],
        file: "a.vhd".to_string(),
        line: 10,
        in_arch: "rtl".to_string(),
        ..Default::default()
    });
    input.case_statements.push(CaseStatement {
        expression: "state".to_string(),
        choices: vec!["IDLE".to_string()],
        has_others: false,
        file: "a.vhd".to_string(),
        line: 21,
        in_process: "fsm".to_string(),
        in_arch: "rtl".to_string(),
        ..Default::default()
    });
    input
}

#[test]
fn state_machine_without_tags_lacks_three_checks() {
    let mut input = fsm_input();
    enable(&mut input, "enum_case_incomplete", "error");
    let result = evaluate(&input, &Vec::new());
    let v = &result.violations;
    assert_eq!(count_rule(v, "enum_case_incomplete"), 1);
    assert_eq!(count_rule(v, "missing_verification_check"), 3);
    assert_eq!(count_rule(v, "missing_verification_block"), 1);
    let incomplete = v.iter().find(|x| x.rule == "enum_case_incomplete").unwrap();
    assert_eq!(incomplete.severity, "error");
    assert_eq!(
        incomplete.message,
        "Case statement on enum 'state' missing values [\"RUN\"] in combinational process - will infer latch"
    );
    assert_eq!(result.missing_checks.len(), 1);
    let task = &result.missing_checks[0];
    assert_eq!(task.scope, "arch:rtl");
    assert_eq!(task.file, "a.vhd");
    assert_eq!(
        task.missing_ids,
        vec!["fsm.legal_state", "fsm.reset_known", "cover.fsm.transition_taken"]
    );
    assert_eq!(task.anchor.label, "architecture");
    assert_eq!(task.anchor.line_start, 5);
    assert!(!task.anchor.exists);
    assert_eq!(task.bindings.get("state").map(|s| s.as_str()), Some("state"));
    assert_eq!(result.summary.total_violations, v.len());
}

#[test]
fn missing_check_message_names_anchor_and_bindings() {
    let input = fsm_input();
    let analysis = analyze(&input, &Vec::new());
    let first = analysis
        .violations
        .iter()
        .find(|x| x.rule == "missing_verification_check")
        .unwrap();
    assert_eq!(first.severity, "warning");
    assert_eq!(
        first.message,
        "Missing verification check 'fsm.legal_state' for fsm in arch:rtl (anchor line 5, bindings: state=state)"
    );
}

#[test]
fn valid_tag_removes_its_missing_check() {
    let mut input = fsm_input();
    let registry = vec![CheckEntry {
        id: "FSM.Legal_State".to_string(),
        scope_type: "arch".to_string(),
        required_bindings: vec!["state".to_string()],
        severity: "error".to_string(),
        ..Default::default()
    }];
    let mut tag = VerificationTag {
        id: "fsm.legal_state".to_string(),
        scope: "arch:rtl".to_string(),
        file: "a.vhd".to_string(),
        line: 7,
        in_arch: "rtl".to_string(),
        ..Default::default()
    };
    tag.bindings.insert("state".to_string(), "state".to_string());
    input.verification_tags.push(tag);
    let analysis = analyze(&input, &registry);
    assert_eq!(count_rule(&analysis.violations, "missing_verification_check"), 2);
    assert_eq!(count_rule(&analysis.violations, "invalid_verification_tag"), 0);
    assert_eq!(
        analysis.missing_checks[0].missing_ids,
        vec!["fsm.reset_known", "cover.fsm.transition_taken"]
    );
}

#[test]
fn tag_with_unknown_id_wrong_scope_or_missing_binding_is_invalid() {
    let mut input = Input::default();
    let registry = vec![CheckEntry {
        id: "fsm.legal_state".to_string(),
        scope_type: "arch".to_string(),
        required_bindings: vec!["state".to_string(), "clk".to_string()],
        requires_bound: true,
        ..Default::default()
    }];
    input.verification_tags.push(VerificationTag {
        id: "nope.check".to_string(),
        scope: "arch:rtl".to_string(),
        file: "a.vhd".to_string(),
        line: 1,
        in_arch: "rtl".to_string(),
        ..Default::default()
    });
    input.verification_tags.push(VerificationTag {
        id: "fsm.legal_state".to_string(),
        scope: "entity:core".to_string(),
        file: "a.vhd".to_string(),
        line: 2,
        in_arch: "rtl".to_string(),
        ..Default::default()
    });
    let analysis = analyze(&input, &registry);
    let messages: Vec<&str> = analysis.violations.iter().map(|v| v.message.as_str()).collect();
    assert_eq!(
        messages,
        vec![
            "Unknown verification check id 'nope.check'",
            "Verification tag 'fsm.legal_state' has scope 'entity:core' but registry expects 'arch:*'",
            "Verification tag 'fsm.legal_state' missing required bindings: state, clk",
            "Verification tag 'fsm.legal_state' requires an explicit bound (add bound=)",
        ]
    );
    assert_eq!(
        rules_of(&analysis.violations),
        vec![
            "invalid_verification_tag",
            "invalid_verification_tag",
            "invalid_verification_tag",
            "missing_liveness_bound"
        ]
    );
}

#[test]
fn handshake_with_equal_directions_is_ambiguous() {
    let mut input = Input::default();
    for name in ["a_valid", "b_ready"] {
        input.ports.push(Port {
            name: name.to_string(),
            direction: "in".to_string(),
            ty: "std_logic".to_string(),
            in_entity: "core".to_string(),
            ..Default::default()
        });
    }
    input.concurrent_assignments.push(ConcurrentAssignment {
        target: "go".to_string(),
        read_signals: vec!["a_valid".to_string(), "b_ready".to_string()],
        file: "a.vhd".to_string(),
        line: 9,
        in_arch: "RTL".to_string(),
        ..Default::default()
    });
    let analysis = analyze(&input, &Vec::new());
    assert_eq!(analysis.ambiguous_constructs.len(), 1);
    assert_eq!(analysis.ambiguous_constructs[0].scope, "arch:rtl");
    let warning = analysis.violations.iter().find(|v| v.rule == "ambiguous_construct").unwrap();
    assert_eq!(
        warning.message,
        "Ambiguous ready_valid construct in arch:rtl (candidates: ready=[a_valid, b_ready]; valid=[a_valid, b_ready])"
    );
    assert!(analysis.missing_checks.is_empty());
}

#[test]
fn handshake_with_opposite_directions_is_a_construct() {
    let mut input = Input::default();
    input.ports.push(Port {
        name: "v".to_string(),
        direction: "out".to_string(),
        ty: "std_logic".to_string(),
        ..Default::default()
    });
    input.ports.push(Port {
        name: "r".to_string(),
        direction: "in".to_string(),
        ty: "std_logic".to_string(),
        ..Default::default()
    });
    input.concurrent_assignments.push(ConcurrentAssignment {
        target: "go".to_string(),
        read_signals: vec!["r".to_string(), "v".to_string()],
        file: "a.vhd".to_string(),
        line: 9,
        in_arch: "rtl".to_string(),
        ..Default::default()
    });
    let analysis = analyze(&input, &Vec::new());
    assert!(analysis.ambiguous_constructs.is_empty());
    assert_eq!(analysis.missing_checks.len(), 1);
    assert_eq!(
        analysis.missing_checks[0].missing_ids,
        vec!["rv.stable_while_stalled", "cover.rv.handshake"]
    );
    assert_eq!(analysis.missing_checks[0].bindings.get("valid").map(|s| s.as_str()), Some("v"));
    assert_eq!(analysis.missing_checks[0].bindings.get("ready").map(|s| s.as_str()), Some("r"));
    assert_eq!(analysis.missing_checks[0].anchor.label, "unknown");
}

#[test]
fn evaluation_is_repeatable() {
    let mut input = fsm_input();
    enable(&mut input, "enum_case_incomplete", "error");
    enable(&mut input, "unused_signal", "info");
    let first = evaluate(&input, &Vec::new());
    let second = evaluate(&input, &Vec::new());
    assert_eq!(first.violations, second.violations);
    assert_eq!(first.missing_checks, second.missing_checks);
}

#[test]
fn names_are_compared_without_case() {
    let mut lower = Input::default();
    lower.entities.push(entity("core", "a.vhd", 1));
    lower.architectures.push(Architecture {
        name: "rtl".to_string(),
        entity_name: "core".to_string(),
        file: "a.vhd".to_string(),
        line: 2,
    });
    lower.signal_deps.push(dep("a", "b", 3));
    lower.signal_deps.push(dep("b", "a", 4));
    let mut upper = Input::default();
    upper.entities.push(entity("CORE", "a.vhd", 1));
    upper.architectures.push(Architecture {
        name: "RTL".to_string(),
        entity_name: "Core".to_string(),
        file: "a.vhd".to_string(),
        line: 2,
    });
    upper.signal_deps.push(dep("A", "b", 3));
    upper.signal_deps.push(dep("B", "a", 4));
    for input in [&mut lower, &mut upper] {
        for rule in ["entity_has_ports", "architecture_has_entity", "entity_without_arch", "two_stage_combinational_loop"] {
            input.lint_config.rules.insert(rule.to_string(), "warning".to_string());
        }
    }
    let a = evaluate(&lower, &Vec::new());
    let b = evaluate(&upper, &Vec::new());
    let key = |v: &Violation| (v.rule.clone(), v.severity.clone(), v.file.clone(), v.line);
    assert_eq!(
        a.violations.iter().map(key).collect::<Vec<_>>(),
        b.violations.iter().map(key).collect::<Vec<_>>()
    );
    assert_eq!(count_rule(&a.violations, "two_stage_combinational_loop"), 1);
    assert_eq!(count_rule(&a.violations, "architecture_has_entity"), 0);
}

fn finding(rule: &str, severity: &str, file: &str) -> Violation {
    Violation {
        rule: rule.to_string(),
        severity: severity.to_string(),
        file: file.to_string(),
        line: 1,
        message: "m".to_string(),
    }
}

#[test]
fn third_party_files_are_suppressed() {
    let mut input = Input::default();
    input.third_party_files.push("vendor/ip.vhd".to_string());
    let raw = vec![
        finding("output_port_read", "warning", "vendor/ip.vhd"),
        finding("output_port_read", "warning", "/abs/vendor/ip.vhd"),
        finding("output_port_read", "warning", "src/top.vhd"),
    ];
    let out = filter_violations(&input, raw);
    assert_eq!(out.len(), 1);
    assert_eq!(out[0].file, "src/top.vhd");
}

#[test]
fn configured_severity_replaces_the_default() {
    let mut input = Input::default();
    enable(&mut input, "unused_signal", "info");
    enable(&mut input, "missing_reset", "loud");
    let raw = vec![
        finding("unused_signal", "warning", "a.vhd"),
        finding("missing_reset", "warning", "a.vhd"),
        finding("output_port_read", "warning", "a.vhd"),
    ];
    let out = filter_violations(&input, raw);
    assert_eq!(out.len(), 3);
    assert_eq!(out[0].severity, "info");
    assert_eq!(out[1].severity, "warning");
    assert_eq!(out[2].severity, "warning");
}

#[test]
fn rule_set_to_off_is_dropped() {
    let mut input = Input::default();
    enable(&mut input, "output_port_read", "off");
    enable(&mut input, "buffer_port", "off");
    let raw = vec![
        finding("output_port_read", "warning", "a.vhd"),
        finding("buffer_port", "warning", "a.vhd"),
        finding("duplicate_entity_in_library", "error", "a.vhd"),
    ];
    let out = filter_violations(&input, raw);
    assert_eq!(rules_of(&out), vec!["duplicate_entity_in_library"]);
}

#[test]
fn optional_rule_needs_to_be_listed() {
    let mut input = Input::default();
    let raw = vec![
        finding("entity_has_ports", "warning", "a.vhd"),
        finding("output_port_read", "warning", "a.vhd"),
    ];
    assert_eq!(rules_of(&filter_violations(&input, raw.clone())), vec!["output_port_read"]);
    enable(&mut input, "entity_has_ports", "warning");
    assert_eq!(
        rules_of(&filter_violations(&input, raw)),
        vec!["entity_has_ports", "output_port_read"]
    );
}

#[test]
fn summary_counts_by_severity() {
    let found = vec![
        finding("a", "error", "a.vhd"),
        finding("b", "warning", "a.vhd"),
        finding("c", "warning", "a.vhd"),
        finding("d", "info", "a.vhd"),
        finding("e", "note", "a.vhd"),
    ];
    let summary = summarize(&found);
    assert_eq!(summary.total_violations, 5);
    assert_eq!(summary.errors, 1);
    assert_eq!(summary.warnings, 2);
    assert_eq!(summary.info, 1);
}

#[test]
fn self_dependency_is_a_loop_whatever_the_case() {
    let mut input = Input::default();
    input.signal_deps.push(SignalDep {
        source: "A".to_string(),
        target: "a".to_string(),
        file: "a.vhd".to_string(),
        line: 3,
        ..Default::default()
    });
    let v = vhdl_policy::policy::combinational::violations(&input);
    assert_eq!(v.len(), 1);
    assert_eq!(v[0].rule, "direct_combinational_loop");
    assert_eq!(v[0].severity, "error");
    assert_eq!((v[0].file.as_str(), v[0].line), ("a.vhd", 3));
    input.signal_deps[0].source = "a".to_string();
    let w = vhdl_policy::policy::combinational::violations(&input);
    assert_eq!(w.len(), 1);
    assert_eq!((w[0].rule.as_str(), w[0].line), ("direct_combinational_loop", 3));
}

#[test]
fn register_breaks_the_loop_whatever_the_case() {
    let mut input = Input::default();
    let mut registered = dep("b", "SIG", 1);
    registered.is_sequential = true;
    input.signal_deps.push(registered);
    input.signal_deps.push(dep("sig", "Sig", 2));
    assert!(direct_combinational_loop(&input).is_empty());
}

#[test]
fn incomplete_enum_case_in_a_sequential_process_is_reported() {
    let input = fsm_input();
    let v = vhdl_policy::policy::latch::enum_case_incomplete(&input);
    assert_eq!(v.len(), 1);
    assert_eq!(v[0].rule, "enum_case_incomplete");
    assert_eq!(v[0].severity, "error");
    assert_eq!(v[0].line, 21);
}

#[test]
fn type_strings_that_hold_signed_are_composite() {
    let input = Input::default();
    for t in ["my_unsigned_t", "SIGNED(7 downto 0)", "std_logic_vector(3 downto 0)", "work.pkg.vector_t", "mem_array"] {
        assert!(vhdl_policy::policy::helpers::is_composite_type(&input, t), "{}", t);
    }
    for t in ["bit", "std_logic", "integer", "state_t"] {
        assert!(!vhdl_policy::policy::helpers::is_composite_type(&input, t), "{}", t);
    }
    let mut declared = Input::default();
    declared.types.push(TypeDeclaration {
        name: "Word_T".to_string(),
        kind: "record".to_string(),
        ..Default::default()
    });
    assert!(vhdl_policy::policy::helpers::is_composite_type(&declared, "work.word_t"));
}

#[test]
fn two_processes_that_share_three_pairs_give_three_loops() {
    let mut input = Input::default();
    input.processes.push(Process {
        label: "drive".to_string(),
        is_combinational: true,
        assigned_signals: vec!["a".to_string(), "c".to_string()],
        read_signals: vec!["b".to_string(), "d".to_string()],
        file: "a.vhd".to_string(),
        line: 1,
        ..Default::default()
    });
    input.processes.push(Process {
        label: "sense".to_string(),
        is_combinational: true,
        assigned_signals: vec!["b".to_string(), "d".to_string()],
        read_signals: vec!["a".to_string(), "c".to_string()],
        file: "a.vhd".to_string(),
        line: 2,
        ..Default::default()
    });
    let first = cross_process_loop(&input);
    let second = cross_process_loop(&input);
    assert_eq!(first, second);
    assert_eq!(first.len(), 3);
    assert!(first.iter().all(|v| v.rule == "cross_process_combinational_loop" && v.line == 1));
    let pairs: Vec<&str> = first
        .iter()
        .map(|v| v.message.split("via signals ").nth(1).unwrap())
        .collect();
    assert_eq!(pairs, vec!["'a' and 'b'", "'a' and 'd'", "'c' and 'd'"]);
}

#[test]
fn processes_whose_labels_differ_in_case_only_are_one_process() {
    let mut input = Input::default();
    for (label, assigned, read, line) in [("Comb", "alpha", "beta", 1), ("COMB", "beta", "alpha", 2)] {
        input.processes.push(Process {
            label: label.to_string(),
            is_combinational: true,
            assigned_signals: vec![assigned.to_string()],
            read_signals: vec![read.to_string()],
            file: "a.vhd".to_string(),
            line,
            ..Default::default()
        });
    }
    assert!(cross_process_loop(&input).is_empty());
}

#[test]
fn parallel_edges_add_no_second_loop() {
    let mut input = Input::default();
    input.signal_deps.push(dep("x", "y", 1));
    input.signal_deps.push(dep("y", "x", 2));
    let before = two_stage_loop(&input);
    input.signal_deps.push(dep("a", "b", 3));
    input.signal_deps.push(dep("b", "a", 4));
    let once = two_stage_loop(&input);
    input.signal_deps.push(dep("a", "b", 5));
    input.signal_deps.push(dep("b", "a", 6));
    let twice = two_stage_loop(&input);
    assert_eq!(once.len(), before.len() + 1);
    assert_eq!(&once[..before.len()], &before[..]);
    assert_eq!(twice, once);
}

#[test]
fn labels_and_scopes_are_compared_without_case() {
    let mut input = Input::default();
    input.processes.push(Process {
        label: "Decode".to_string(),
        is_combinational: true,
        assigned_signals: vec!["q".to_string()],
        file: "a.vhd".to_string(),
        in_arch: "RTL".to_string(),
        ..Default::default()
    });
    input.case_statements.push(CaseStatement {
        expression: "sel".to_string(),
        has_others: false,
        file: "a.vhd".to_string(),
        line: 9,
        in_process: "decode".to_string(),
        in_arch: "rtl".to_string(),
        ..Default::default()
    });
    assert_eq!(vhdl_policy::policy::core_rules::potential_latch(&input).len(), 1);
    assert_eq!(vhdl_policy::policy::processes::comb_process_no_default(&input).len(), 1);
    assert_eq!(vhdl_policy::policy::latch::incomplete_case_latch(&input).len(), 1);
    input.architectures.push(Architecture {
        name: "rtl".to_string(),
        entity_name: "core".to_string(),
        file: "a.vhd".to_string(),
        line: 2,
    });
    assert!(vhdl_policy::policy::quality::trivial_architecture(&input).is_empty());
    assert!(vhdl_policy::policy::style::empty_architecture(&input).is_empty());
}
