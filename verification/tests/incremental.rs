use std::collections::HashMap;

use vhdl_policy::incremental::{
    apply_tables, build_response, command_kind, entity_without_ports_key, is_testbench_name,
    next_weight, normalize_use_item, CommandKind, EntityRow, Response, Tables, ViolationKey,
};

#[test]
fn strip_all_suffix() {
    assert_eq!(
        normalize_use_item("ieee.std_logic_1164.all"),
        "ieee.std_logic_1164"
    );
    assert_eq!(normalize_use_item("work.my_pkg"), "work.my_pkg");
}

#[test]
fn only_one_trailing_all_is_stripped() {
    assert_eq!(normalize_use_item("a.all.all"), "a.all");
    assert_eq!(normalize_use_item(".all"), "");
    assert_eq!(normalize_use_item("all"), "all");
    assert_eq!(normalize_use_item("x.ALL"), "x.ALL");
}

#[test]
fn commands_are_told_apart_by_their_kind() {
    assert_eq!(command_kind("init"), CommandKind::Init);
    assert_eq!(command_kind("delta"), CommandKind::Delta);
    assert_eq!(command_kind("snapshot"), CommandKind::Snapshot);
    assert_eq!(command_kind("Init"), CommandKind::Unknown);
    assert_eq!(command_kind(""), CommandKind::Unknown);
}

#[test]
fn streaming_testbench_names_are_those_of_the_batch_rules() {
    for name in ["core_tb", "TestBench", "bus_bfm", "uart_BFM", "verification_top", "core", "alu"] {
        assert_eq!(
            is_testbench_name(name),
            vhdl_policy::policy::helpers::is_testbench_name(name),
            "{}",
            name
        );
    }
    assert!(is_testbench_name("uart_bfm"));
    assert!(!is_testbench_name("core"));
}

#[test]
fn weights_add_up_and_leave_at_zero() {
    assert_eq!(next_weight(0, 1), Some(1));
    assert_eq!(next_weight(1, -1), None);
    assert_eq!(next_weight(2, -1), Some(1));
    assert_eq!(next_weight(0, -1), Some(-1));
    assert_eq!(next_weight(0, 0), None);
}

/// Feeds the entity rows of a command into the weights of the port findings,
/// as the maintained relation does while no port row is known.
fn feed(weights: &mut HashMap<ViolationKey, isize>, tables: &Tables, weight: isize) {
    for ((name, file, line), w) in apply_tables(tables, weight).entities {
        if is_testbench_name(&name) {
            continue;
        }
        let key = entity_without_ports_key(file, line, &name);
        let current = weights.get(&key).copied().unwrap_or(0);
        match next_weight(current, w) {
            Some(next) => {
                weights.insert(key, next);
            }
            None => {
                weights.remove(&key);
            }
        }
    }
}

fn snapshot(weights: &HashMap<ViolationKey, isize>) -> Response {
    let listed: Vec<(ViolationKey, isize)> = weights.iter().map(|(k, w)| (k.clone(), *w)).collect();
    build_response(&listed)
}

#[test]
fn retracted_entity_leaves_an_empty_snapshot() {
    let core = Tables {
        entities: vec![EntityRow { name: "core".to_string(), file: "a.vhd".to_string(), line: 1 }],
        ..Default::default()
    };
    let bench = Tables {
        entities: vec![EntityRow { name: "core_tb".to_string(), file: "a.vhd".to_string(), line: 1 }],
        ..Default::default()
    };
    let mut weights = HashMap::new();
    assert_eq!(command_kind("init"), CommandKind::Init);
    feed(&mut weights, &core, 1);
    let first = snapshot(&weights);
    assert_eq!(first.violations.len(), 1);
    assert_eq!(first.violations[0].rule, "entity_has_ports");
    assert_eq!(first.violations[0].severity, "warning");
    assert_eq!((first.violations[0].file.as_str(), first.violations[0].line), ("a.vhd", 1));
    assert_eq!(first.summary.total_violations, 1);
    assert_eq!(command_kind("delta"), CommandKind::Delta);
    feed(&mut weights, &bench, 1);
    feed(&mut weights, &core, -1);
    let second = snapshot(&weights);
    assert_eq!(second.kind, "snapshot");
    assert!(second.violations.is_empty());
    assert_eq!(second.summary.total_violations, 0);
}

#[test]
fn table_updates_carry_rows_and_weight() {
    let tables = Tables {
        entities: vec![EntityRow { name: "core".to_string(), file: "a.vhd".to_string(), line: 1 }],
        ..Default::default()
    };
    let add = apply_tables(&tables, 1);
    assert_eq!(add.entities, vec![(("core".to_string(), "a.vhd".to_string(), 1), 1)]);
    assert!(add.ports.is_empty());
    let retract = apply_tables(&tables, -1);
    assert_eq!(retract.entities[0].1, -1);
}

fn key(rule: &str, severity: &str, file: &str, line: i64) -> ViolationKey {
    ViolationKey {
        rule: rule.to_string(),
        severity: severity.to_string(),
        file: file.to_string(),
        line,
        message: "m".to_string(),
    }
}

#[test]
fn snapshot_holds_present_findings_sorted_by_file_and_line() {
    let weights = vec![
        (key("r", "warning", "b.vhd", 2), 1),
        (key("r", "error", "a.vhd", 9), 2),
        (key("r", "info", "a.vhd", 10), 0),
        (key("r", "warning", "a.vhd", 3), 1),
        (key("q", "warning", "a.vhd", 3), 1),
        (key("r", "error", "c.vhd", 1), -1),
    ];
    let response = build_response(&weights);
    assert_eq!(response.kind, "snapshot");
    let order: Vec<(&str, i64, &str)> = response
        .violations
        .iter()
        .map(|v| (v.file.as_str(), v.line, v.rule.as_str()))
        .collect();
    assert_eq!(
        order,
        vec![("a.vhd", 3, "q"), ("a.vhd", 3, "r"), ("a.vhd", 9, "r"), ("b.vhd", 2, "r")]
    );
    assert_eq!(response.summary.total_violations, 4);
    assert_eq!(response.summary.errors, 1);
    assert_eq!(response.summary.warnings, 3);
    assert_eq!(response.summary.info, 0);
}

#[test]
fn entity_finding_of_the_stream_reads_like_the_batch_finding() {
    let k = entity_without_ports_key("a.vhd".to_string(), 1, "core");
    assert_eq!(k.rule, "entity_has_ports");
    assert_eq!(k.severity, "warning");
    assert_eq!(k.message, "Entity 'core' has no ports defined");
}

#[test]
fn snapshot_does_not_depend_on_the_order_of_the_weights() {
    let mut weights = vec![
        (key("r", "warning", "b.vhd", 2), 1),
        (key("r", "error", "a.vhd", 9), 1),
        (key("q", "info", "a.vhd", 9), 3),
        (key("r", "warning", "a.vhd", 3), 1),
        (key("gone", "warning", "a.vhd", 1), 0),
    ];
    let first = build_response(&weights);
    weights.reverse();
    let second = build_response(&weights);
    weights.swap(0, 2);
    let third = build_response(&weights);
    assert_eq!(first.violations, second.violations);
    assert_eq!(first.violations, third.violations);
    assert_eq!(first.violations.len(), 4);
    assert_eq!(first.violations[0].line, 3);
    assert_eq!(first.violations[1].rule, "q");
}
