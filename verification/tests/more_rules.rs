use vhdl_policy::policy::engine::{
    evaluate, family_count, family_name, filter_ambiguous_constructs, filter_missing_checks, finish,
    run_family,
};
use vhdl_policy::policy::hierarchy::{
    hardcoded_port_value, instance_name_matches_component, repeated_component_instantiation,
};
use vhdl_policy::policy::input::{
    Architecture, ConcurrentAssignment, GenerateStatement, Input, Instance, Port, Process, Signal,
    SignalDep, TypeDeclaration, VerificationBlock, VerificationTag,
};
use vhdl_policy::policy::quality::{deep_generate_nesting, trivial_architecture, very_long_file};
use vhdl_policy::policy::signals::{multi_driven_signal, SignalUsageIndex};
use vhdl_policy::policy::synthesis::{gated_clock_detection, multiple_clock_domains};
use vhdl_policy::policy::verification::{analyze, CheckEntry};

fn arch(name: &str, file: &str, line: usize) -> Architecture {
    Architecture {
        name: name.to_string(),
        entity_name: "core".to_string(),
        file: file.to_string(),
        line,
    }
}

#[test]
fn architecture_with_nested_process_is_not_trivial() {
    let mut input = Input::default();
    input.architectures.push(arch("rtl", "a.vhd", 3));
    input.architectures.push(arch("empty", "a.vhd", 30));
    input.architectures.push(arch("rtl", "b.vhd", 3));
    input.processes.push(Process {
        label: "p".to_string(),
        in_arch: "rtl.gen_a".to_string(),
        file: "a.vhd".to_string(),
        ..Default::default()
    });
    input.processes.push(Process {
        label: "q".to_string(),
        in_arch: "rtlx".to_string(),
        file: "b.vhd".to_string(),
        ..Default::default()
    });
    let v = trivial_architecture(&input);
    let places: Vec<(&str, usize)> = v.iter().map(|x| (x.file.as_str(), x.line)).collect();
    assert_eq!(places, vec![("a.vhd", 30), ("b.vhd", 3)]);
    assert_eq!(
        v[0].message,
        "Architecture 'empty' has no processes, concurrent statements, or instances"
    );
}

#[test]
fn generate_statement_makes_an_architecture_non_trivial() {
    let mut input = Input::default();
    input.architectures.push(arch("rtl", "a.vhd", 3));
    input.generates.push(GenerateStatement {
        label: "g".to_string(),
        in_arch: "rtl".to_string(),
        file: "a.vhd".to_string(),
        ..Default::default()
    });
    assert!(trivial_architecture(&input).is_empty());
}

#[test]
fn generate_depth_counts_the_dots_of_its_scope() {
    let mut input = Input::default();
    for (label, scope) in [("g3", "rtl.a.b.c"), ("g4", "rtl.a.b.c.d")] {
        input.generates.push(GenerateStatement {
            label: label.to_string(),
            in_arch: scope.to_string(),
            file: "a.vhd".to_string(),
            ..Default::default()
        });
    }
    let v = deep_generate_nesting(&input);
    assert_eq!(v.len(), 1);
    assert_eq!(
        v[0].message,
        "Generate block 'g4' is deeply nested (4 levels) - consider flattening"
    );
}

#[test]
fn long_files_are_listed_in_name_order() {
    let mut input = Input::default();
    for file in ["z.vhd", "a.vhd"] {
        for k in 0..3 {
            input.entities.push(vhdl_policy::policy::input::Entity {
                name: format!("e{}", k),
                file: file.to_string(),
                line: k + 1,
                ..Default::default()
            });
            input.architectures.push(arch("rtl", file, 10 + k));
        }
    }
    input.architectures.pop();
    let v = very_long_file(&input);
    assert_eq!(v.len(), 1);
    assert_eq!(v[0].file, "z.vhd");
    assert_eq!(v[0].line, 1);
    assert_eq!(
        v[0].message,
        "File contains 6 design units - consider splitting into separate files"
    );
}

#[test]
fn repeated_instantiation_is_reported_at_the_first_instance() {
    let mut input = Input::default();
    for k in 0..6 {
        input.instances.push(Instance {
            name: format!("u{}", k),
            target: if k % 2 == 0 { "work.Adder".to_string() } else { "work.adder".to_string() },
            file: "a.vhd".to_string(),
            line: 10 + k,
            ..Default::default()
        });
    }
    input.instances.push(Instance {
        name: "u_other".to_string(),
        target: "work.adder".to_string(),
        file: "b.vhd".to_string(),
        line: 1,
        ..Default::default()
    });
    let v = repeated_component_instantiation(&input);
    assert_eq!(v.len(), 1);
    assert_eq!(v[0].line, 10);
    assert_eq!(
        v[0].message,
        "Component 'work.Adder' instantiated 6 times - consider generate statement or hierarchical design"
    );
}

#[test]
fn instance_named_like_its_unit_is_reported() {
    let mut input = Input::default();
    input.instances.push(Instance {
        name: "ADDER".to_string(),
        target: "work.adder".to_string(),
        ..Default::default()
    });
    input.instances.push(Instance {
        name: "u_adder".to_string(),
        target: "work.adder".to_string(),
        ..Default::default()
    });
    assert_eq!(instance_name_matches_component(&input).len(), 1);
}

#[test]
fn literal_connections_are_hardcoded_values() {
    let mut input = Input::default();
    let mut inst = Instance { name: "u1".to_string(), ..Default::default() };
    inst.port_map.insert("a".to_string(), "'0'".to_string());
    inst.port_map.insert("b".to_string(), "\"0101\"".to_string());
    inst.port_map.insert("c".to_string(), "42".to_string());
    inst.port_map.insert("d".to_string(), "OPEN".to_string());
    inst.port_map.insert("e".to_string(), "sig42".to_string());
    inst.port_map.insert("f".to_string(), "4x".to_string());
    input.instances.push(inst);
    let v = hardcoded_port_value(&input);
    let ports: Vec<String> = v
        .iter()
        .map(|x| x.message.split("on port '").nth(1).unwrap().split('\'').next().unwrap().to_string())
        .collect();
    assert_eq!(ports, vec!["a", "b", "c", "d"]);
}

#[test]
fn drivers_in_generate_statements_count_once_per_label() {
    let mut input = Input::default();
    input.architectures.push(Architecture {
        name: "rtl".to_string(),
        entity_name: "core".to_string(),
        file: "a.vhd".to_string(),
        line: 3,
    });
    input.signals.push(Signal {
        name: "flag".to_string(),
        ty: "bit".to_string(),
        file: "a.vhd".to_string(),
        line: 4,
        in_entity: "rtl".to_string(),
        ..Default::default()
    });
    for label in ["gen", "GEN", "gen"] {
        input.concurrent_assignments.push(ConcurrentAssignment {
            target: "flag".to_string(),
            file: "a.vhd".to_string(),
            in_arch: "rtl".to_string(),
            in_generate: true,
            generate_label: label.to_string(),
            ..Default::default()
        });
    }
    assert!(multi_driven_signal(&input).is_empty());
    input.concurrent_assignments.push(ConcurrentAssignment {
        target: "FLAG".to_string(),
        file: "a.vhd".to_string(),
        in_arch: "rtl".to_string(),
        ..Default::default()
    });
    let v = multi_driven_signal(&input);
    assert_eq!(v.len(), 1);
    assert_eq!(v[0].message, "Signal 'flag' is assigned in 2 places (review for multi-driver)");
}

#[test]
fn usage_index_keeps_names_in_lower_case() {
    let mut input = Input::default();
    input.constants.push("LIMIT".to_string());
    input.processes.push(Process {
        read_signals: vec!["Data".to_string(), "limit".to_string()],
        assigned_signals: vec!["Q".to_string()],
        ..Default::default()
    });
    let index = SignalUsageIndex::from_input(&input);
    assert!(index.has_read("DATA"));
    assert!(!index.has_read("limit"));
    assert!(index.has_assigned("q"));
    assert!(index.has_used("q"));
    assert!(index.has_used("data"));
    assert!(!index.has_used("other"));
}

#[test]
fn clocks_of_a_file_are_listed_once_in_first_seen_order() {
    let mut input = Input::default();
    input.architectures.push(arch("rtl", "a.vhd", 3));
    for clock in ["clk_b", "CLK_A", "clk_a", ""] {
        input.processes.push(Process {
            clock_signal: clock.to_string(),
            file: "a.vhd".to_string(),
            ..Default::default()
        });
    }
    let v = multiple_clock_domains(&input);
    assert_eq!(v.len(), 1);
    assert_eq!(
        v[0].message,
        "Architecture 'rtl' uses multiple clocks [\"clk_b\", \"clk_a\"] - ensure proper CDC synchronization"
    );
}

#[test]
fn gated_clocks_come_from_statements_first_and_processes_second() {
    let mut input = Input::default();
    input.processes.push(Process {
        label: "regs".to_string(),
        is_sequential: true,
        clock_signal: "clk".to_string(),
        ..Default::default()
    });
    input.processes.push(Process {
        label: "gate".to_string(),
        is_combinational: true,
        assigned_signals: vec!["CLK".to_string(), "clk_other".to_string()],
        file: "a.vhd".to_string(),
        line: 20,
        ..Default::default()
    });
    input.concurrent_assignments.push(ConcurrentAssignment {
        target: "clk".to_string(),
        file: "a.vhd".to_string(),
        line: 30,
        ..Default::default()
    });
    let v = gated_clock_detection(&input);
    let lines: Vec<usize> = v.iter().map(|x| x.line).collect();
    assert_eq!(lines, vec![30, 20]);
}

fn fifo_input() -> Input {
    let mut input = Input::default();
    input.types.push(TypeDeclaration {
        name: "mem_t".to_string(),
        kind: "array".to_string(),
        ..Default::default()
    });
    input.signals.push(Signal {
        name: "mem".to_string(),
        ty: "mem_t".to_string(),
        file: "fifo.vhd".to_string(),
        line: 12,
        in_entity: "rtl".to_string(),
        ..Default::default()
    });
    for (name, direction) in [("wr_en", "in"), ("rd_en", "in"), ("full", "out"), ("empty", "out")] {
        input.ports.push(Port {
            name: name.to_string(),
            direction: direction.to_string(),
            ty: "std_logic".to_string(),
            in_entity: "fifo".to_string(),
            ..Default::default()
        });
    }
    input.processes.push(Process {
        label: "writer".to_string(),
        is_sequential: true,
        read_signals: vec!["clk".to_string(), "wr_en".to_string()],
        assigned_signals: vec!["mem".to_string(), "full".to_string()],
        in_arch: "rtl".to_string(),
        ..Default::default()
    });
    input.processes.push(Process {
        label: "reader".to_string(),
        is_sequential: true,
        read_signals: vec!["rd_en".to_string(), "mem".to_string()],
        assigned_signals: vec!["empty".to_string()],
        in_arch: "rtl".to_string(),
        ..Default::default()
    });
    input.signal_deps.push(SignalDep {
        source: "wr_en".to_string(),
        target: "mem".to_string(),
        in_process: "writer".to_string(),
        in_arch: "rtl".to_string(),
        ..Default::default()
    });
    input.signal_deps.push(SignalDep {
        source: "mem".to_string(),
        target: "dout".to_string(),
        in_process: "reader".to_string(),
        in_arch: "rtl".to_string(),
        ..Default::default()
    });
    input
}

#[test]
fn memory_with_enables_and_flags_is_a_fifo() {
    let input = fifo_input();
    let analysis = analyze(&input, &Vec::new());
    assert_eq!(analysis.missing_checks.len(), 1);
    let task = &analysis.missing_checks[0];
    assert_eq!(task.file, "fifo.vhd");
    assert_eq!(
        task.missing_ids,
        vec!["fifo.no_read_empty", "fifo.no_write_full", "cover.fifo.activity"]
    );
    let first = analysis
        .violations
        .iter()
        .find(|v| v.rule == "missing_verification_check")
        .unwrap();
    assert_eq!(
        first.message,
        "Missing verification check 'fifo.no_read_empty' for fifo in arch:rtl (anchor line 1, bindings: empty=empty, full=full, rd_en=rd_en, wr_en=wr_en)"
    );
    assert_eq!(first.line, 12);
}

#[test]
fn memory_with_two_enables_on_one_side_is_no_fifo() {
    let mut input = fifo_input();
    input.ports.push(Port {
        name: "flush".to_string(),
        direction: "in".to_string(),
        ty: "std_logic".to_string(),
        ..Default::default()
    });
    input.processes[0].read_signals.push("flush".to_string());
    let analysis = analyze(&input, &Vec::new());
    assert!(analysis.missing_checks.is_empty());
}

#[test]
fn registry_decides_severity_notes_and_cover_companions() {
    let mut input = fifo_input();
    input.verification_blocks.push(VerificationBlock {
        label: "checks".to_string(),
        line_start: 40,
        line_end: 60,
        file: "fifo.vhd".to_string(),
        in_arch: "RTL".to_string(),
    });
    input.verification_tags.push(VerificationTag {
        id: "fifo.no_write_full".to_string(),
        scope: "arch:rtl".to_string(),
        file: "fifo.vhd".to_string(),
        line: 41,
        in_arch: "rtl".to_string(),
        ..Default::default()
    });
    let registry = vec![
        CheckEntry {
            id: "fifo.no_write_full".to_string(),
            scope_type: "arch".to_string(),
            needs_cover: true,
            severity: "error".to_string(),
            ..Default::default()
        },
        CheckEntry {
            id: "fifo.no_read_empty".to_string(),
            needs_cover: true,
            requires_bound: true,
            severity: "fatal".to_string(),
            ..Default::default()
        },
        CheckEntry {
            id: "cover.fifo.activity".to_string(),
            severity: "info".to_string(),
            ..Default::default()
        },
    ];
    let analysis = analyze(&input, &registry);
    let found: Vec<(&str, &str)> =
        analysis.violations.iter().map(|v| (v.rule.as_str(), v.severity.as_str())).collect();
    assert_eq!(
        found,
        vec![
            ("missing_cover_companion", "warning"),
            ("missing_verification_check", "warning"),
            ("missing_verification_check", "info"),
        ]
    );
    assert_eq!(
        analysis.violations[0].message,
        "Verification tag 'fifo.no_write_full' requires a cover companion in arch:rtl"
    );
    let task = &analysis.missing_checks[0];
    assert_eq!(task.missing_ids, vec!["fifo.no_read_empty", "cover.fifo.activity"]);
    assert_eq!(
        task.notes,
        vec![
            "fifo.no_read_empty needs cover companion",
            "fifo.no_read_empty requires explicit bound"
        ]
    );
    assert_eq!(task.anchor.label, "checks");
    assert_eq!((task.anchor.line_start, task.anchor.line_end), (40, 60));
    assert!(task.anchor.exists);
}

#[test]
fn cover_tag_in_the_scope_satisfies_the_companion() {
    let mut input = Input::default();
    input.architectures.push(Architecture {
        name: "rtl".to_string(),
        entity_name: "Core".to_string(),
        file: "a.vhd".to_string(),
        line: 3,
    });
    for (id, scope) in [("fsm.legal_state", "entity: CORE"), ("cover.fsm.any", "entity:core")] {
        input.verification_tags.push(VerificationTag {
            id: id.to_string(),
            scope: scope.to_string(),
            file: "a.vhd".to_string(),
            line: 5,
            in_arch: "RTL".to_string(),
            ..Default::default()
        });
    }
    let mut registry = vec![
        CheckEntry { id: "fsm.legal_state".to_string(), needs_cover: true, ..Default::default() },
        CheckEntry { id: "cover.fsm.any".to_string(), ..Default::default() },
    ];
    assert!(analyze(&input, &registry).violations.is_empty());
    registry.pop();
    let rules: Vec<String> =
        analyze(&input, &registry).violations.iter().map(|v| v.rule.clone()).collect();
    assert_eq!(rules, vec!["invalid_verification_tag", "missing_cover_companion"]);
}

#[test]
fn tasks_and_ambiguities_follow_the_configuration() {
    let mut input = fifo_input();
    input.concurrent_assignments.push(ConcurrentAssignment {
        target: "go".to_string(),
        read_signals: vec!["wr_en".to_string(), "rd_en".to_string()],
        file: "vendor/x.vhd".to_string(),
        in_arch: "rtl".to_string(),
        ..Default::default()
    });
    let analysis = analyze(&input, &Vec::new());
    assert_eq!(analysis.ambiguous_constructs.len(), 1);
    assert_eq!(filter_missing_checks(&input, analysis.missing_checks.clone()).len(), 1);
    assert_eq!(filter_ambiguous_constructs(&input, analysis.ambiguous_constructs.clone()).len(), 1);
    input.third_party_files.push("x.vhd".to_string());
    input.third_party_files.push("fifo.vhd".to_string());
    assert!(filter_missing_checks(&input, analysis.missing_checks.clone()).is_empty());
    assert!(filter_ambiguous_constructs(&input, analysis.ambiguous_constructs.clone()).is_empty());
    input.third_party_files.clear();
    input.lint_config.rules.insert("missing_verification_check".to_string(), "off".to_string());
    input.lint_config.rules.insert("ambiguous_construct".to_string(), "off".to_string());
    let result = evaluate(&input, &Vec::new());
    assert!(result.missing_checks.is_empty());
    assert!(result.ambiguous_constructs.is_empty());
    assert!(result.violations.iter().all(|v| v.rule != "missing_verification_check"));
}

#[test]
fn families_run_one_by_one_give_the_evaluation() {
    let mut input = fifo_input();
    input.lint_config.rules.insert("unused_signal".to_string(), "info".to_string());
    input.lint_config.rules.insert("wide_signal".to_string(), "info".to_string());
    let registry = Vec::new();
    let mut raw = Vec::new();
    let mut tasks = Vec::new();
    let mut ambiguous = Vec::new();
    for k in 0..family_count() {
        let run = run_family(&input, &registry, k);
        raw.extend(run.violations);
        tasks.extend(run.missing_checks);
        ambiguous.extend(run.ambiguous_constructs);
    }
    let stepped = finish(&input, raw, tasks, ambiguous);
    let whole = evaluate(&input, &registry);
    assert_eq!(stepped.violations, whole.violations);
    assert_eq!(stepped.missing_checks, whole.missing_checks);
    assert_eq!(stepped.summary.total_violations, whole.summary.total_violations);
    assert!(!whole.violations.is_empty());
    assert_eq!(family_count(), 43);
    assert_eq!(family_name(0), "core");
    assert_eq!(family_name(1), "verification");
    assert_eq!(family_name(5), "clocks_resets_optional");
    assert_eq!(family_name(42), "synthesis_optional");
}
