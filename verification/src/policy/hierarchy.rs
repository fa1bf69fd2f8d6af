//! Hierarchy: how instances are connected to the entities they target.
use vstd::prelude::*;
use crate::text::{
    after_last, after_last_index, char_is_space, chars_after_last, chars_after_last_index,
    chars_between, chars_index_from, chars_occur_at, chars_of, chars_trim, contains, decimal,
    decimal_text, ends_with, holds, index_from, integer_in_range, is_blank, is_space, lower,
    lower_chars, lower_contains, occurs_at, parse_integer, same, same_name, starts_with,
    str_contains, str_ends_with, str_eq, str_starts_with, string_of, to_lower, trim,
};
use crate::policy::helpers::{
    clock_name, is_clock_name, reset_name, is_reset_name, testbench_file, file_in_testbench,
};
use crate::policy::input::{Input, Architecture, Entity, Instance, Association, Port};
use crate::policy::result::{Violation, ViolationView, views, group_views};
use crate::policy::map::MapEntry;
use crate::policy::pattern::{regex_match, found};

verus! {

/// The hierarchy findings that always run.
pub open spec fn violations_all(input: &Input) -> Seq<ViolationView> {
    floating_instance_input_all(input) + port_width_mismatch_all(input)
}

pub fn violations(input: &Input) -> (out: Vec<Violation>)
    ensures
        views(out@) == violations_all(input),
{
    broadcast use group_views;

    let mut out: Vec<Violation> = Vec::new();
    let mut part = floating_instance_input(input);
    out.append(&mut part);
    let mut part = port_width_mismatch(input);
    out.append(&mut part);
    out
}

/// The hierarchy findings that run only when configured.
pub open spec fn optional_violations_all(input: &Input) -> Seq<ViolationView> {
    sparse_port_map_all(input) + empty_port_map_all(input)
        + instance_name_matches_component_all(input) + repeated_component_instantiation_all(input)
        + many_instances_all(input) + hardcoded_port_value_all(input)
        + open_port_connection_all(input)
}

pub fn optional_violations(input: &Input) -> (out: Vec<Violation>)
    ensures
        views(out@) == optional_violations_all(input),
{
    broadcast use group_views;

    let mut out: Vec<Violation> = Vec::new();
    let mut part = sparse_port_map(input);
    out.append(&mut part);
    let mut part = empty_port_map(input);
    out.append(&mut part);
    let mut part = instance_name_matches_component(input);
    out.append(&mut part);
    let mut part = repeated_component_instantiation(input);
    out.append(&mut part);
    let mut part = many_instances(input);
    out.append(&mut part);
    let mut part = hardcoded_port_value(input);
    out.append(&mut part);
    let mut part = open_port_connection(input);
    out.append(&mut part);
    out
}

/// An instance with one or two port connections.
pub open spec fn sparse_port_map_hit(input: &Input, inst: &Instance) -> bool {
    inst.port_map.entries@.len() > 0 && inst.port_map.entries@.len() < 3
}

pub open spec fn sparse_port_map_finding(input: &Input, inst: &Instance) -> ViolationView {
    ViolationView {
        rule: "sparse_port_map"@,
        severity: "info"@,
        file: inst.file@,
        line: inst.line as nat,
        message: "Instance '"@ + inst.name@ + "' has only "@
            + decimal(inst.port_map.entries.len() as nat)
            + " port connections - verify all required ports are connected"@,
    }
}

/// The findings for the first `n` rows, in row order.
pub open spec fn sparse_port_map_upto(input: &Input, n: int) -> Seq<ViolationView>
    decreases n,
{
    if n <= 0 {
        Seq::empty()
    } else {
        let rest = sparse_port_map_upto(input, n - 1);
        let inst = &input.instances@[n - 1];
        if sparse_port_map_hit(input, inst) {
            rest.push(sparse_port_map_finding(input, inst))
        } else {
            rest
        }
    }
}

pub open spec fn sparse_port_map_all(input: &Input) -> Seq<ViolationView> {
    sparse_port_map_upto(input, input.instances@.len() as int)
}

pub fn sparse_port_map(input: &Input) -> (out: Vec<Violation>)
    ensures
        views(out@) == sparse_port_map_all(input),
{
    broadcast use group_views;

    let mut out: Vec<Violation> = Vec::new();
    let mut i: usize = 0;
    while i < input.instances.len()
        invariant
            i <= input.instances@.len(),
            views(out@) == sparse_port_map_upto(input, i as int),
        decreases input.instances@.len() - i,
    {
        let inst = &input.instances[i];
        if !inst.port_map.is_empty() && inst.port_map.len() < 3 {
            let mut message = String::from_str("Instance '");
            message.append(inst.name.as_str());
            message.append("' has only ");
            message.append(decimal_text(inst.port_map.entries.len()).as_str());
            message.append(" port connections - verify all required ports are connected");
            out.push(
                Violation {
                    rule: String::from_str("sparse_port_map"),
                    severity: String::from_str("info"),
                    file: inst.file.clone(),
                    line: inst.line,
                    message,
                },
            );
        }
        i += 1;
    }
    out
}

/// An instance without named port map.
pub open spec fn empty_port_map_hit(input: &Input, inst: &Instance) -> bool {
    inst.port_map.entries@.len() == 0
}

pub open spec fn empty_port_map_finding(input: &Input, inst: &Instance) -> ViolationView {
    ViolationView {
        rule: "empty_port_map"@,
        severity: "warning"@,
        file: inst.file@,
        line: inst.line as nat,
        message: "Instance '"@ + inst.name@
            + "' has no named port map - using positional mapping or no connections"@,
    }
}

/// The findings for the first `n` rows, in row order.
pub open spec fn empty_port_map_upto(input: &Input, n: int) -> Seq<ViolationView>
    decreases n,
{
    if n <= 0 {
        Seq::empty()
    } else {
        let rest = empty_port_map_upto(input, n - 1);
        let inst = &input.instances@[n - 1];
        if empty_port_map_hit(input, inst) {
            rest.push(empty_port_map_finding(input, inst))
        } else {
            rest
        }
    }
}

pub open spec fn empty_port_map_all(input: &Input) -> Seq<ViolationView> {
    empty_port_map_upto(input, input.instances@.len() as int)
}

pub fn empty_port_map(input: &Input) -> (out: Vec<Violation>)
    ensures
        views(out@) == empty_port_map_all(input),
{
    broadcast use group_views;

    let mut out: Vec<Violation> = Vec::new();
    let mut i: usize = 0;
    while i < input.instances.len()
        invariant
            i <= input.instances@.len(),
            views(out@) == empty_port_map_upto(input, i as int),
        decreases input.instances@.len() - i,
    {
        let inst = &input.instances[i];
        if inst.port_map.is_empty() {
            let mut message = String::from_str("Instance '");
            message.append(inst.name.as_str());
            message.append("' has no named port map - using positional mapping or no connections");
            out.push(
                Violation {
                    rule: String::from_str("empty_port_map"),
                    severity: String::from_str("warning"),
                    file: inst.file.clone(),
                    line: inst.line,
                    message,
                },
            );
        }
        i += 1;
    }
    out
}

/// An instance labelled like the unit it instantiates.
pub open spec fn instance_name_matches_component_hit(input: &Input, inst: &Instance) -> bool {
    same_name(inst.name@, after_last(inst.target@, '.'))
}

pub open spec fn instance_name_matches_component_finding(input: &Input, inst: &Instance) -> ViolationView {
    ViolationView {
        rule: "instance_name_matches_component"@,
        severity: "info"@,
        file: inst.file@,
        line: inst.line as nat,
        message: "Instance name '"@ + inst.name@
            + "' matches component name - consider a unique instance name"@,
    }
}

/// The findings for the first `n` rows, in row order.
pub open spec fn instance_name_matches_component_upto(input: &Input, n: int) -> Seq<ViolationView>
    decreases n,
{
    if n <= 0 {
        Seq::empty()
    } else {
        let rest = instance_name_matches_component_upto(input, n - 1);
        let inst = &input.instances@[n - 1];
        if instance_name_matches_component_hit(input, inst) {
            rest.push(instance_name_matches_component_finding(input, inst))
        } else {
            rest
        }
    }
}

pub open spec fn instance_name_matches_component_all(input: &Input) -> Seq<ViolationView> {
    instance_name_matches_component_upto(input, input.instances@.len() as int)
}

pub fn instance_name_matches_component(input: &Input) -> (out: Vec<Violation>)
    ensures
        views(out@) == instance_name_matches_component_all(input),
{
    broadcast use group_views;

    let mut out: Vec<Violation> = Vec::new();
    let mut i: usize = 0;
    while i < input.instances.len()
        invariant
            i <= input.instances@.len(),
            views(out@) == instance_name_matches_component_upto(input, i as int),
        decreases input.instances@.len() - i,
    {
        let inst = &input.instances[i];
        let comp_name = string_of(&chars_after_last(&chars_of(inst.target.as_str()), '.'));
        if same(inst.name.as_str(), comp_name.as_str()) {
            let mut message = String::from_str("Instance name '");
            message.append(inst.name.as_str());
            message.append("' matches component name - consider a unique instance name");
            out.push(
                Violation {
                    rule: String::from_str("instance_name_matches_component"),
                    severity: String::from_str("info"),
                    file: inst.file.clone(),
                    line: inst.line,
                    message,
                },
            );
        }
        i += 1;
    }
    out
}

/// The file and the lower-case target of an instance, joined by a bar.
pub open spec fn instantiation_key(inst: &Instance) -> Seq<char> {
    inst.file@ + "|"@ + lower(inst.target@)
}

pub fn instantiation_key_text(inst: &Instance) -> (key: String)
    ensures
        key@ == instantiation_key(inst),
{
    let mut key = inst.file.clone();
    key.append("|");
    key.append(to_lower(inst.target.as_str()).as_str());
    key
}

/// How many of the first `n` instances have a target and this key.
pub open spec fn instantiations_upto(input: &Input, key: Seq<char>, n: int) -> nat
    decreases n,
{
    if n <= 0 {
        0
    } else {
        let inst = &input.instances@[n - 1];
        if inst.target@.len() > 0 && instantiation_key(inst) == key {
            instantiations_upto(input, key, n - 1) + 1
        } else {
            instantiations_upto(input, key, n - 1)
        }
    }
}

pub open spec fn instantiations(input: &Input, key: Seq<char>) -> nat {
    instantiations_upto(input, key, input.instances@.len() as int)
}

/// Instance `i` is the first of a unit that its file instantiates more than five times.
pub open spec fn repeated_component_instantiation_hit(input: &Input, i: int) -> bool {
    let inst = &input.instances@[i];
    inst.target@.len() > 0 && instantiations_upto(input, instantiation_key(inst), i) == 0
        && instantiations(input, instantiation_key(inst)) > 5
}

pub open spec fn repeated_component_instantiation_finding(input: &Input, i: int) -> ViolationView {
    let inst = &input.instances@[i];
    ViolationView {
        rule: "repeated_component_instantiation"@,
        severity: "info"@,
        file: inst.file@,
        line: inst.line as nat,
        message: "Component '"@ + inst.target@ + "' instantiated "@ + decimal(
            instantiations(input, instantiation_key(inst)),
        ) + " times - consider generate statement or hierarchical design"@,
    }
}

/// The findings for the first `n` instances, in record order.
pub open spec fn repeated_component_instantiation_upto(input: &Input, n: int) -> Seq<ViolationView>
    decreases n,
{
    if n <= 0 {
        Seq::empty()
    } else {
        let rest = repeated_component_instantiation_upto(input, n - 1);
        if repeated_component_instantiation_hit(input, n - 1) {
            rest.push(repeated_component_instantiation_finding(input, n - 1))
        } else {
            rest
        }
    }
}

pub open spec fn repeated_component_instantiation_all(input: &Input) -> Seq<ViolationView> {
    repeated_component_instantiation_upto(input, input.instances@.len() as int)
}

/// How many of the first `n` instances have a target and this key.
pub fn count_instantiations(input: &Input, key: &str, n: usize) -> (r: usize)
    requires
        n <= input.instances@.len(),
    ensures
        r == instantiations_upto(input, key@, n as int),
        r <= n,
{
    let mut count: usize = 0;
    let mut i: usize = 0;
    while i < n
        invariant
            i <= n <= input.instances@.len(),
            count <= i,
            count == instantiations_upto(input, key@, i as int),
        decreases n - i,
    {
        let inst = &input.instances[i];
        if !inst.target.as_str().is_empty() && str_eq(instantiation_key_text(inst).as_str(), key) {
            count += 1;
        }
        i += 1;
    }
    count
}

pub fn repeated_component_instantiation(input: &Input) -> (out: Vec<Violation>)
    ensures
        views(out@) == repeated_component_instantiation_all(input),
{
    broadcast use group_views;

    let mut out: Vec<Violation> = Vec::new();
    let mut i: usize = 0;
    while i < input.instances.len()
        invariant
            i <= input.instances@.len(),
            views(out@) == repeated_component_instantiation_upto(input, i as int),
        decreases input.instances@.len() - i,
    {
        let inst = &input.instances[i];
        if !inst.target.as_str().is_empty() {
            let key = instantiation_key_text(inst);
            if count_instantiations(input, key.as_str(), i) == 0 {
                let count = count_instantiations(input, key.as_str(), input.instances.len());
                if count > 5 {
                    let mut message = String::from_str("Component '");
                    message.append(inst.target.as_str());
                    message.append("' instantiated ");
                    message.append(decimal_text(count).as_str());
                    message.append(" times - consider generate statement or hierarchical design");
                    out.push(
                        Violation {
                            rule: String::from_str("repeated_component_instantiation"),
                            severity: String::from_str("info"),
                            file: inst.file.clone(),
                            line: inst.line,
                            message,
                        },
                    );
                }
            }
        }
        i += 1;
    }
    out
}

/// The number of instances directly in the architecture.
pub open spec fn instances_in_arch_upto(input: &Input, arch: &Architecture, n: int) -> nat
    decreases n,
{
    if n <= 0 {
        0
    } else if ({
        let inst = &input.instances@[n - 1];
        same_name(inst.in_arch@, arch.name@) && inst.file@ == arch.file@
    }) {
        instances_in_arch_upto(input, arch, n - 1) + 1
    } else {
        instances_in_arch_upto(input, arch, n - 1)
    }
}

pub fn instances_in_arch(input: &Input, arch: &Architecture) -> (r: usize)
    ensures
        r == instances_in_arch_upto(input, arch, input.instances@.len() as int),
{
    let mut count: usize = 0;
    let mut i: usize = 0;
    while i < input.instances.len()
        invariant
            i <= input.instances@.len(),
            count <= i,
            count == instances_in_arch_upto(input, arch, i as int),
        decreases input.instances@.len() - i,
    {
        let inst = &input.instances[i];
        if same(inst.in_arch.as_str(), arch.name.as_str())
            && str_eq(inst.file.as_str(), arch.file.as_str()) {
            count += 1;
        }
        i += 1;
    }
    count
}

pub open spec fn instance_count(input: &Input, arch: &Architecture) -> nat {
    instances_in_arch_upto(input, arch, input.instances@.len() as int)
}

/// An architecture with more than twenty instances.
pub open spec fn many_instances_hit(input: &Input, arch: &Architecture) -> bool {
    instance_count(input, arch) > 20
}

pub open spec fn many_instances_finding(input: &Input, arch: &Architecture) -> ViolationView {
    ViolationView {
        rule: "many_instances"@,
        severity: "info"@,
        file: arch.file@,
        line: arch.line as nat,
        message: "Architecture '"@ + arch.name@ + "' has "@ + decimal(instance_count(input, arch))
            + " instances - consider hierarchical decomposition"@,
    }
}

/// The findings for the first `n` rows, in row order.
pub open spec fn many_instances_upto(input: &Input, n: int) -> Seq<ViolationView>
    decreases n,
{
    if n <= 0 {
        Seq::empty()
    } else {
        let rest = many_instances_upto(input, n - 1);
        let arch = &input.architectures@[n - 1];
        if many_instances_hit(input, arch) {
            rest.push(many_instances_finding(input, arch))
        } else {
            rest
        }
    }
}

pub open spec fn many_instances_all(input: &Input) -> Seq<ViolationView> {
    many_instances_upto(input, input.architectures@.len() as int)
}

pub fn many_instances(input: &Input) -> (out: Vec<Violation>)
    ensures
        views(out@) == many_instances_all(input),
{
    broadcast use group_views;

    let mut out: Vec<Violation> = Vec::new();
    let mut i: usize = 0;
    while i < input.architectures.len()
        invariant
            i <= input.architectures@.len(),
            views(out@) == many_instances_upto(input, i as int),
        decreases input.architectures@.len() - i,
    {
        let arch = &input.architectures[i];
        let count = instances_in_arch(input, arch);
        if count > 20 {
            let mut message = String::from_str("Architecture '");
            message.append(arch.name.as_str());
            message.append("' has ");
            message.append(decimal_text(count).as_str());
            message.append(" instances - consider hierarchical decomposition");
            out.push(
                Violation {
                    rule: String::from_str("many_instances"),
                    severity: String::from_str("info"),
                    file: arch.file.clone(),
                    line: arch.line,
                    message,
                },
            );
        }
        i += 1;
    }
    out
}

/// Every port of an instance that is bound to a literal.
pub open spec fn hardcoded_port_value_upto(input: &Input, n: int) -> Seq<ViolationView>
    decreases n,
{
    if n <= 0 {
        Seq::empty()
    } else {
        let rest = hardcoded_port_value_upto(input, n - 1);
        let inst = &input.instances@[n - 1];
        rest + hardcoded_ports_of_all(input, inst)
    }
}

pub open spec fn hardcoded_port_value_all(input: &Input) -> Seq<ViolationView> {
    hardcoded_port_value_upto(input, input.instances@.len() as int)
}

pub fn hardcoded_port_value(input: &Input) -> (out: Vec<Violation>)
    ensures
        views(out@) == hardcoded_port_value_all(input),
{
    broadcast use group_views;

    let mut out: Vec<Violation> = Vec::new();
    let mut i: usize = 0;
    while i < input.instances.len()
        invariant
            i <= input.instances@.len(),
            views(out@) == hardcoded_port_value_upto(input, i as int),
        decreases input.instances@.len() - i,
    {
        let inst = &input.instances[i];
        let mut part = hardcoded_ports_of(input, inst);
        out.append(&mut part);
        i += 1;
    }
    out
}

/// A port bound to a literal.
pub open spec fn hardcoded_ports_of_hit(input: &Input, inst: &Instance, entry: &MapEntry) -> bool {
    literal_value(entry.value@)
}

pub open spec fn hardcoded_ports_of_finding(input: &Input, inst: &Instance, entry: &MapEntry) -> ViolationView {
    ViolationView {
        rule: "hardcoded_port_value"@,
        severity: "info"@,
        file: inst.file@,
        line: inst.line as nat,
        message: "Instance '"@ + inst.name@ + "' has hardcoded value '"@ + entry.value@
            + "' on port '"@ + entry.key@ + "' - consider using a constant/signal"@,
    }
}

/// The findings for the first `n` rows, in row order.
pub open spec fn hardcoded_ports_of_upto(input: &Input, inst: &Instance, n: int) -> Seq<ViolationView>
    decreases n,
{
    if n <= 0 {
        Seq::empty()
    } else {
        let rest = hardcoded_ports_of_upto(input, inst, n - 1);
        let entry = &inst.port_map.entries@[n - 1];
        if hardcoded_ports_of_hit(input, inst, entry) {
            rest.push(hardcoded_ports_of_finding(input, inst, entry))
        } else {
            rest
        }
    }
}

pub open spec fn hardcoded_ports_of_all(input: &Input, inst: &Instance) -> Seq<ViolationView> {
    hardcoded_ports_of_upto(input, inst, inst.port_map.entries@.len() as int)
}

pub fn hardcoded_ports_of(input: &Input, inst: &Instance) -> (out: Vec<Violation>)
    ensures
        views(out@) == hardcoded_ports_of_all(input, inst),
{
    broadcast use group_views;

    let mut out: Vec<Violation> = Vec::new();
    let mut i: usize = 0;
    while i < inst.port_map.entries.len()
        invariant
            i <= inst.port_map.entries@.len(),
            views(out@) == hardcoded_ports_of_upto(input, inst, i as int),
        decreases inst.port_map.entries@.len() - i,
    {
        let entry = &inst.port_map.entries[i];
        if is_literal_value(entry.value.as_str()) {
            let mut message = String::from_str("Instance '");
            message.append(inst.name.as_str());
            message.append("' has hardcoded value '");
            message.append(entry.value.as_str());
            message.append("' on port '");
            message.append(entry.key.as_str());
            message.append("' - consider using a constant/signal");
            out.push(
                Violation {
                    rule: String::from_str("hardcoded_port_value"),
                    severity: String::from_str("info"),
                    file: inst.file.clone(),
                    line: inst.line,
                    message,
                },
            );
        }
        i += 1;
    }
    out
}

/// Every port of an instance that is left open.
pub open spec fn open_port_connection_upto(input: &Input, n: int) -> Seq<ViolationView>
    decreases n,
{
    if n <= 0 {
        Seq::empty()
    } else {
        let rest = open_port_connection_upto(input, n - 1);
        let inst = &input.instances@[n - 1];
        rest + open_ports_of_all(input, inst)
    }
}

pub open spec fn open_port_connection_all(input: &Input) -> Seq<ViolationView> {
    open_port_connection_upto(input, input.instances@.len() as int)
}

pub fn open_port_connection(input: &Input) -> (out: Vec<Violation>)
    ensures
        views(out@) == open_port_connection_all(input),
{
    broadcast use group_views;

    let mut out: Vec<Violation> = Vec::new();
    let mut i: usize = 0;
    while i < input.instances.len()
        invariant
            i <= input.instances@.len(),
            views(out@) == open_port_connection_upto(input, i as int),
        decreases input.instances@.len() - i,
    {
        let inst = &input.instances[i];
        let mut part = open_ports_of(input, inst);
        out.append(&mut part);
        i += 1;
    }
    out
}

/// A port bound to `open`.
pub open spec fn open_ports_of_hit(input: &Input, inst: &Instance, entry: &MapEntry) -> bool {
    same_name(entry.value@, "open"@)
}

pub open spec fn open_ports_of_finding(input: &Input, inst: &Instance, entry: &MapEntry) -> ViolationView {
    ViolationView {
        rule: "open_port_connection"@,
        severity: "info"@,
        file: inst.file@,
        line: inst.line as nat,
        message: "Instance '"@ + inst.name@ + "' has 'open' connection on port '"@ + entry.key@
            + "'"@,
    }
}

/// The findings for the first `n` rows, in row order.
pub open spec fn open_ports_of_upto(input: &Input, inst: &Instance, n: int) -> Seq<ViolationView>
    decreases n,
{
    if n <= 0 {
        Seq::empty()
    } else {
        let rest = open_ports_of_upto(input, inst, n - 1);
        let entry = &inst.port_map.entries@[n - 1];
        if open_ports_of_hit(input, inst, entry) {
            rest.push(open_ports_of_finding(input, inst, entry))
        } else {
            rest
        }
    }
}

pub open spec fn open_ports_of_all(input: &Input, inst: &Instance) -> Seq<ViolationView> {
    open_ports_of_upto(input, inst, inst.port_map.entries@.len() as int)
}

pub fn open_ports_of(input: &Input, inst: &Instance) -> (out: Vec<Violation>)
    ensures
        views(out@) == open_ports_of_all(input, inst),
{
    broadcast use group_views;

    let mut out: Vec<Violation> = Vec::new();
    let mut i: usize = 0;
    while i < inst.port_map.entries.len()
        invariant
            i <= inst.port_map.entries@.len(),
            views(out@) == open_ports_of_upto(input, inst, i as int),
        decreases inst.port_map.entries@.len() - i,
    {
        let entry = &inst.port_map.entries[i];
        if same(entry.value.as_str(), "open") {
            let mut message = String::from_str("Instance '");
            message.append(inst.name.as_str());
            message.append("' has 'open' connection on port '");
            message.append(entry.key.as_str());
            message.append("'");
            out.push(
                Violation {
                    rule: String::from_str("open_port_connection"),
                    severity: String::from_str("info"),
                    file: inst.file.clone(),
                    line: inst.line,
                    message,
                },
            );
        }
        i += 1;
    }
    out
}

/// The port map of the instance names the port.
pub open spec fn port_connected(inst: &Instance, port_name: Seq<char>) -> bool {
    exists|i: int|
        #![trigger inst.port_map.entries@[i]]
        0 <= i < inst.port_map.entries@.len() && ({
            let entry = &inst.port_map.entries@[i];
            same_name(entry.key@, port_name)
        })
}

pub fn port_connected_in_instance(inst: &Instance, port_name: &str) -> (r: bool)
    ensures
        r == port_connected(inst, port_name@),
{
    let mut i: usize = 0;
    while i < inst.port_map.entries.len()
        invariant
            i <= inst.port_map.entries@.len(),
            forall|j: int|
                #![trigger inst.port_map.entries@[j]]
                0 <= j < i ==> !({
                    let entry = &inst.port_map.entries@[j];
                    same_name(entry.key@, port_name@)
                }),
        decreases inst.port_map.entries@.len() - i,
    {
        let entry = &inst.port_map.entries[i];
        if same(entry.key.as_str(), port_name) {
            return true;
        }
        i += 1;
    }
    false
}

/// Outside testbenches: every input port without default that an instance leaves unconnected.
pub open spec fn floating_instance_input_upto(input: &Input, n: int) -> Seq<ViolationView>
    decreases n,
{
    if n <= 0 {
        Seq::empty()
    } else {
        let rest = floating_instance_input_upto(input, n - 1);
        let inst = &input.instances@[n - 1];
        if !testbench_file(input, inst.file@) {
            rest + floating_inputs_of_instance_all(input, inst)
        } else {
            rest
        }
    }
}

pub open spec fn floating_instance_input_all(input: &Input) -> Seq<ViolationView> {
    floating_instance_input_upto(input, input.instances@.len() as int)
}

pub fn floating_instance_input(input: &Input) -> (out: Vec<Violation>)
    ensures
        views(out@) == floating_instance_input_all(input),
{
    broadcast use group_views;

    let mut out: Vec<Violation> = Vec::new();
    let mut i: usize = 0;
    while i < input.instances.len()
        invariant
            i <= input.instances@.len(),
            views(out@) == floating_instance_input_upto(input, i as int),
        decreases input.instances@.len() - i,
    {
        let inst = &input.instances[i];
        if !file_in_testbench(input, inst.file.as_str()) {
            let mut part = floating_inputs_of_instance(input, inst);
            out.append(&mut part);
        }
        i += 1;
    }
    out
}

/// The floating inputs of one instance, for every entity that it targets.
pub open spec fn floating_inputs_of_instance_upto(input: &Input, inst: &Instance, n: int) -> Seq<ViolationView>
    decreases n,
{
    if n <= 0 {
        Seq::empty()
    } else {
        let rest = floating_inputs_of_instance_upto(input, inst, n - 1);
        let entity = &input.entities@[n - 1];
        if instantiates(inst, entity) {
            rest + floating_inputs_of_entity_all(input, inst, entity)
        } else {
            rest
        }
    }
}

pub open spec fn floating_inputs_of_instance_all(input: &Input, inst: &Instance) -> Seq<ViolationView> {
    floating_inputs_of_instance_upto(input, inst, input.entities@.len() as int)
}

pub fn floating_inputs_of_instance(input: &Input, inst: &Instance) -> (out: Vec<Violation>)
    ensures
        views(out@) == floating_inputs_of_instance_all(input, inst),
{
    broadcast use group_views;

    let mut out: Vec<Violation> = Vec::new();
    let mut i: usize = 0;
    while i < input.entities.len()
        invariant
            i <= input.entities@.len(),
            views(out@) == floating_inputs_of_instance_upto(input, inst, i as int),
        decreases input.entities@.len() - i,
    {
        let entity = &input.entities[i];
        if is_instance_of(inst, entity) {
            let mut part = floating_inputs_of_entity(input, inst, entity);
            out.append(&mut part);
        }
        i += 1;
    }
    out
}

/// An input port, neither clock nor reset, without default and without connection.
pub open spec fn floating_inputs_of_entity_hit(input: &Input, inst: &Instance, entity: &Entity, port: &Port) -> bool {
    port.direction@ == "in"@ && trim(port.default@).len() == 0 && !port_connected(inst, port.name@)
        && !clock_name(port.name@) && !reset_name(port.name@)
}

pub open spec fn floating_inputs_of_entity_finding(input: &Input, inst: &Instance, entity: &Entity, port: &Port) -> ViolationView {
    ViolationView {
        rule: "floating_instance_input"@,
        severity: "error"@,
        file: inst.file@,
        line: inst.line as nat,
        message: "Instance '"@ + inst.name@ + "' has unconnected input port '"@ + port.name@
            + "' from entity '"@ + entity.name@ + "'"@,
    }
}

/// The findings for the first `n` rows, in row order.
pub open spec fn floating_inputs_of_entity_upto(input: &Input, inst: &Instance, entity: &Entity, n: int) -> Seq<ViolationView>
    decreases n,
{
    if n <= 0 {
        Seq::empty()
    } else {
        let rest = floating_inputs_of_entity_upto(input, inst, entity, n - 1);
        let port = &entity.ports@[n - 1];
        if floating_inputs_of_entity_hit(input, inst, entity, port) {
            rest.push(floating_inputs_of_entity_finding(input, inst, entity, port))
        } else {
            rest
        }
    }
}

pub open spec fn floating_inputs_of_entity_all(input: &Input, inst: &Instance, entity: &Entity) -> Seq<ViolationView> {
    floating_inputs_of_entity_upto(input, inst, entity, entity.ports@.len() as int)
}

pub fn floating_inputs_of_entity(input: &Input, inst: &Instance, entity: &Entity) -> (out: Vec<Violation>)
    ensures
        views(out@) == floating_inputs_of_entity_all(input, inst, entity),
{
    broadcast use group_views;

    let mut out: Vec<Violation> = Vec::new();
    let mut i: usize = 0;
    while i < entity.ports.len()
        invariant
            i <= entity.ports@.len(),
            views(out@) == floating_inputs_of_entity_upto(input, inst, entity, i as int),
        decreases entity.ports@.len() - i,
    {
        let port = &entity.ports[i];
        if str_eq(port.direction.as_str(), "in") && is_blank(port.default.as_str())
            && !port_connected_in_instance(inst, port.name.as_str())
            && !is_clock_name(port.name.as_str()) && !is_reset_name(port.name.as_str()) {
            let mut message = String::from_str("Instance '");
            message.append(inst.name.as_str());
            message.append("' has unconnected input port '");
            message.append(port.name.as_str());
            message.append("' from entity '");
            message.append(entity.name.as_str());
            message.append("'");
            out.push(
                Violation {
                    rule: String::from_str("floating_instance_input"),
                    severity: String::from_str("error"),
                    file: inst.file.clone(),
                    line: inst.line,
                    message,
                },
            );
        }
        i += 1;
    }
    out
}

/// Every port of known width that an instance connects to something of another known width.
pub open spec fn port_width_mismatch_upto(input: &Input, n: int) -> Seq<ViolationView>
    decreases n,
{
    if n <= 0 {
        Seq::empty()
    } else {
        let rest = port_width_mismatch_upto(input, n - 1);
        let inst = &input.instances@[n - 1];
        rest + width_mismatches_of_instance_all(input, inst)
    }
}

pub open spec fn port_width_mismatch_all(input: &Input) -> Seq<ViolationView> {
    port_width_mismatch_upto(input, input.instances@.len() as int)
}

pub fn port_width_mismatch(input: &Input) -> (out: Vec<Violation>)
    ensures
        views(out@) == port_width_mismatch_all(input),
{
    broadcast use group_views;

    let mut out: Vec<Violation> = Vec::new();
    let mut i: usize = 0;
    while i < input.instances.len()
        invariant
            i <= input.instances@.len(),
            views(out@) == port_width_mismatch_upto(input, i as int),
        decreases input.instances@.len() - i,
    {
        let inst = &input.instances[i];
        let mut part = width_mismatches_of_instance(input, inst);
        out.append(&mut part);
        i += 1;
    }
    out
}

/// The width mismatches of one instance, for every entity that it targets.
pub open spec fn width_mismatches_of_instance_upto(input: &Input, inst: &Instance, n: int) -> Seq<ViolationView>
    decreases n,
{
    if n <= 0 {
        Seq::empty()
    } else {
        let rest = width_mismatches_of_instance_upto(input, inst, n - 1);
        let entity = &input.entities@[n - 1];
        if instantiates(inst, entity) {
            rest + width_mismatches_of_entity_all(input, inst, entity)
        } else {
            rest
        }
    }
}

pub open spec fn width_mismatches_of_instance_all(input: &Input, inst: &Instance) -> Seq<ViolationView> {
    width_mismatches_of_instance_upto(input, inst, input.entities@.len() as int)
}

pub fn width_mismatches_of_instance(input: &Input, inst: &Instance) -> (out: Vec<Violation>)
    ensures
        views(out@) == width_mismatches_of_instance_all(input, inst),
{
    broadcast use group_views;

    let mut out: Vec<Violation> = Vec::new();
    let mut i: usize = 0;
    while i < input.entities.len()
        invariant
            i <= input.entities@.len(),
            views(out@) == width_mismatches_of_instance_upto(input, inst, i as int),
        decreases input.entities@.len() - i,
    {
        let entity = &input.entities[i];
        if is_instance_of(inst, entity) {
            let mut part = width_mismatches_of_entity(input, inst, entity);
            out.append(&mut part);
        }
        i += 1;
    }
    out
}

/// A port of known width whose connection has another known width.
pub open spec fn width_mismatches_of_entity_hit(input: &Input, inst: &Instance, entity: &Entity, port: &Port) -> bool {
    port.width != 0 && port_connection(inst, entity, port.name@).len() > 0
        && !same_name(port_connection(inst, entity, port.name@), "open"@)
        && actual_width(input, port_connection(inst, entity, port.name@), inst.in_arch@) != 0
       
           
                && actual_width(input, port_connection(inst, entity, port.name@), inst.in_arch@) != port.width
}

pub open spec fn width_mismatches_of_entity_finding(input: &Input, inst: &Instance, entity: &Entity, port: &Port) -> ViolationView {
    ViolationView {
        rule: "port_width_mismatch"@,
        severity: "error"@,
        file: inst.file@,
        line: inst.line as nat,
        message: "Width mismatch: signal '"@ + port_connection(inst, entity, port.name@) + "' ("@
            + decimal(actual_width(input, port_connection(inst, entity, port.name@), inst.in_arch@))
            + " bits) connected to port '"@ + port.name@ + "' ("@ + decimal(port.width as nat)
            + " bits) in instance '"@ + inst.name@ + "'"@,
    }
}

/// The findings for the first `n` rows, in row order.
pub open spec fn width_mismatches_of_entity_upto(input: &Input, inst: &Instance, entity: &Entity, n: int) -> Seq<ViolationView>
    decreases n,
{
    if n <= 0 {
        Seq::empty()
    } else {
        let rest = width_mismatches_of_entity_upto(input, inst, entity, n - 1);
        let port = &entity.ports@[n - 1];
        if width_mismatches_of_entity_hit(input, inst, entity, port) {
            rest.push(width_mismatches_of_entity_finding(input, inst, entity, port))
        } else {
            rest
        }
    }
}

pub open spec fn width_mismatches_of_entity_all(input: &Input, inst: &Instance, entity: &Entity) -> Seq<ViolationView> {
    width_mismatches_of_entity_upto(input, inst, entity, entity.ports@.len() as int)
}

pub fn width_mismatches_of_entity(input: &Input, inst: &Instance, entity: &Entity) -> (out: Vec<Violation>)
    ensures
        views(out@) == width_mismatches_of_entity_all(input, inst, entity),
{
    broadcast use group_views;

    let mut out: Vec<Violation> = Vec::new();
    let mut i: usize = 0;
    while i < entity.ports.len()
        invariant
            i <= entity.ports@.len(),
            views(out@) == width_mismatches_of_entity_upto(input, inst, entity, i as int),
        decreases entity.ports@.len() - i,
    {
        let port = &entity.ports[i];
        let actual = get_port_connection(inst, entity, port.name.as_str());
        let width = get_actual_width(input, actual.as_str(), inst.in_arch.as_str());
        if port.width != 0 && !actual.as_str().is_empty() && !same(actual.as_str(), "open")
            && width != 0 && width != port.width {
            let mut message = String::from_str("Width mismatch: signal '");
            message.append(actual.as_str());
            message.append("' (");
            message.append(decimal_text(width).as_str());
            message.append(" bits) connected to port '");
            message.append(port.name.as_str());
            message.append("' (");
            message.append(decimal_text(port.width).as_str());
            message.append(" bits) in instance '");
            message.append(inst.name.as_str());
            message.append("'");
            out.push(
                Violation {
                    rule: String::from_str("port_width_mismatch"),
                    severity: String::from_str("error"),
                    file: inst.file.clone(),
                    line: inst.line,
                    message,
                },
            );
        }
        i += 1;
    }
    out
}

/// The instance targets the entity: by its name, or by a selected name that
/// ends in it.  Both names are given in lower case.
pub open spec fn target_matches(target: Seq<char>, entity_name: Seq<char>) -> bool {
    target == entity_name || ends_with(target, "."@ + entity_name)
}

pub fn target_matches_entity(target: &str, entity_name: &str) -> (r: bool)
    ensures
        r == target_matches(target@, entity_name@),
{
    if str_eq(target, entity_name) {
        return true;
    }
    let mut suffix = String::from_str(".");
    suffix.append(entity_name);
    str_ends_with(target, suffix.as_str())
}

/// Whether the instance targets the entity, whatever the case of the names.
pub open spec fn instantiates(inst: &Instance, entity: &Entity) -> bool {
    target_matches(lower(inst.target@), lower(entity.name@))
}

pub fn is_instance_of(inst: &Instance, entity: &Entity) -> (r: bool)
    ensures
        r == instantiates(inst, entity),
{
    let target = to_lower(inst.target.as_str());
    let name = to_lower(entity.name.as_str());
    target_matches_entity(target.as_str(), name.as_str())
}

/// What an association element connects: the full form where only it shows
/// an index, else the plain actual, else the full form, else the base.
pub open spec fn association_text(assoc: &Association) -> Seq<char> {
    if assoc.actual@.len() > 0 {
        if assoc.actual_full@.len() > 0 && contains(assoc.actual_full@, "("@) && !contains(
            assoc.actual@,
            "("@,
        ) {
            assoc.actual_full@
        } else {
            assoc.actual@
        }
    } else if assoc.actual_full@.len() > 0 {
        assoc.actual_full@
    } else {
        assoc.actual_base@
    }
}

pub fn association_actual(assoc: &Association) -> (r: String)
    ensures
        r@ == association_text(assoc),
{
    if !assoc.actual.as_str().is_empty() {
        if !assoc.actual_full.as_str().is_empty() && str_contains(assoc.actual_full.as_str(), "(")
            && !str_contains(assoc.actual.as_str(), "(") {
            return assoc.actual_full.clone();
        }
        return assoc.actual.clone();
    }
    if !assoc.actual_full.as_str().is_empty() {
        return assoc.actual_full.clone();
    }
    assoc.actual_base.clone()
}

/// The index of the first named port association at or after `i` whose
/// formal is the port, or the number of associations.
pub open spec fn named_association_from(inst: &Instance, port_name: Seq<char>, i: int) -> int
    decreases inst.associations@.len() - i,
{
    if i < 0 || i >= inst.associations@.len() {
        inst.associations@.len() as int
    } else if inst.associations@[i].kind@ == "port"@ && !inst.associations@[i].is_positional
        && same_name(inst.associations@[i].formal@, port_name) {
        i
    } else {
        named_association_from(inst, port_name, i + 1)
    }
}

/// The index of the first positional port association at or after `i` with
/// this position, or the number of associations.
pub open spec fn positional_association_from(inst: &Instance, pos: int, i: int) -> int
    decreases inst.associations@.len() - i,
{
    if i < 0 || i >= inst.associations@.len() {
        inst.associations@.len() as int
    } else if inst.associations@[i].kind@ == "port"@ && inst.associations@[i].is_positional
        && inst.associations@[i].position_index == pos {
        i
    } else {
        positional_association_from(inst, pos, i + 1)
    }
}

/// The index of the first port of the entity at or after `i` with this name,
/// or the number of ports.
pub open spec fn port_position_from(entity: &Entity, port_name: Seq<char>, i: int) -> int
    decreases entity.ports@.len() - i,
{
    if i < 0 || i >= entity.ports@.len() {
        entity.ports@.len() as int
    } else if same_name(entity.ports@[i].name@, port_name) {
        i
    } else {
        port_position_from(entity, port_name, i + 1)
    }
}

/// The index of the first port-map entry at or after `i` whose key is the
/// port up to case, or the number of entries.
pub open spec fn map_entry_from(inst: &Instance, port_name: Seq<char>, i: int) -> int
    decreases inst.port_map.entries@.len() - i,
{
    if i < 0 || i >= inst.port_map.entries@.len() {
        inst.port_map.entries@.len() as int
    } else if same_name(inst.port_map.entries@[i].key@, port_name) {
        i
    } else {
        map_entry_from(inst, port_name, i + 1)
    }
}

/// What the instance connects to a port of the entity: by a named
/// association first, then by position, then by the port map with the exact
/// key, then by the port map up to case; empty where nothing is connected.
pub open spec fn port_connection(inst: &Instance, entity: &Entity, port_name: Seq<char>) -> Seq<
    char,
> {
    let named = named_association_from(inst, port_name, 0);
    let pos = port_position_from(entity, port_name, 0);
    let positional = positional_association_from(inst, pos, 0);
    let entry = map_entry_from(inst, port_name, 0);
    if named < inst.associations@.len() {
        association_text(&inst.associations@[named])
    } else if pos < entity.ports@.len() && positional < inst.associations@.len() {
        association_text(&inst.associations@[positional])
    } else {
        match inst.port_map.lookup(port_name) {
            Some(actual) => actual,
            None => if entry < inst.port_map.entries@.len() {
                inst.port_map.entries@[entry].value@
            } else {
                Seq::empty()
            },
        }
    }
}

fn find_named_association(inst: &Instance, port_name: &str) -> (r: usize)
    ensures
        r == named_association_from(inst, port_name@, 0),
        r <= inst.associations@.len(),
{
    let mut i: usize = 0;
    while i < inst.associations.len()
        invariant
            i <= inst.associations@.len(),
            named_association_from(inst, port_name@, 0) == named_association_from(
                inst,
                port_name@,
                i as int,
            ),
        decreases inst.associations@.len() - i,
    {
        let assoc = &inst.associations[i];
        if str_eq(assoc.kind.as_str(), "port") && !assoc.is_positional && same(
            assoc.formal.as_str(),
            port_name,
        ) {
            return i;
        }
        i += 1;
    }
    i
}

fn find_positional_association(inst: &Instance, pos: usize) -> (r: usize)
    ensures
        r == positional_association_from(inst, pos as int, 0),
        r <= inst.associations@.len(),
{
    let mut i: usize = 0;
    while i < inst.associations.len()
        invariant
            i <= inst.associations@.len(),
            positional_association_from(inst, pos as int, 0) == positional_association_from(
                inst,
                pos as int,
                i as int,
            ),
        decreases inst.associations@.len() - i,
    {
        let assoc = &inst.associations[i];
        if str_eq(assoc.kind.as_str(), "port") && assoc.is_positional && assoc.position_index
            == pos {
            return i;
        }
        i += 1;
    }
    i
}

fn find_port_position(entity: &Entity, port_name: &str) -> (r: usize)
    ensures
        r == port_position_from(entity, port_name@, 0),
        r <= entity.ports@.len(),
{
    let mut i: usize = 0;
    while i < entity.ports.len()
        invariant
            i <= entity.ports@.len(),
            port_position_from(entity, port_name@, 0) == port_position_from(
                entity,
                port_name@,
                i as int,
            ),
        decreases entity.ports@.len() - i,
    {
        if same(entity.ports[i].name.as_str(), port_name) {
            return i;
        }
        i += 1;
    }
    i
}

fn find_map_entry(inst: &Instance, port_name: &str) -> (r: usize)
    ensures
        r == map_entry_from(inst, port_name@, 0),
        r <= inst.port_map.entries@.len(),
{
    let mut i: usize = 0;
    while i < inst.port_map.entries.len()
        invariant
            i <= inst.port_map.entries@.len(),
            map_entry_from(inst, port_name@, 0) == map_entry_from(inst, port_name@, i as int),
        decreases inst.port_map.entries@.len() - i,
    {
        if same(inst.port_map.entries[i].key.as_str(), port_name) {
            return i;
        }
        i += 1;
    }
    i
}

pub fn get_port_connection(inst: &Instance, entity: &Entity, port_name: &str) -> (r: String)
    ensures
        r@ == port_connection(inst, entity, port_name@),
{
    let named = find_named_association(inst, port_name);
    if named < inst.associations.len() {
        return association_actual(&inst.associations[named]);
    }
    let pos = find_port_position(entity, port_name);
    if pos < entity.ports.len() {
        let positional = find_positional_association(inst, pos);
        if positional < inst.associations.len() {
            return association_actual(&inst.associations[positional]);
        }
    }
    match inst.port_map.get(port_name) {
        Some(actual) => {
            return actual.clone();
        },
        None => {},
    }
    let entry = find_map_entry(inst, port_name);
    if entry < inst.port_map.entries.len() {
        return inst.port_map.entries[entry].value.clone();
    }
    String::new()
}

/// The patterns for an actual that starts with a digit, with a based literal
/// or that is a character literal.
pub open spec fn leading_digit_pattern() -> Seq<char> {
    "^[0-9]"@
}

pub open spec fn based_literal_pattern() -> Seq<char> {
    "^[xXbBoO]\""@
}

pub open spec fn character_literal_pattern() -> Seq<char> {
    "^'.'$"@
}

/// Whether an actual is a literal or an expression, given what the matcher
/// said of the three literal patterns.
pub open spec fn literal_or_expr_given(
    s: Seq<char>,
    leading_digit: bool,
    based: bool,
    character: bool,
) -> bool {
    leading_digit || contains(s, "+"@) || contains(s, "-"@) || contains(s, "*"@) || contains(
        s,
        "&"@,
    ) || based || character || contains(lower(s), "others"@)
}

pub fn is_literal_or_expr_given(s: &str, leading_digit: bool, based: bool, character: bool) -> (r:
    bool)
    ensures
        r == literal_or_expr_given(s@, leading_digit, based, character),
{
    leading_digit || str_contains(s, "+") || str_contains(s, "-") || str_contains(s, "*")
        || str_contains(s, "&") || based || character || lower_contains(s, "others")
}

pub open spec fn literal_or_expr(s: Seq<char>) -> bool {
    literal_or_expr_given(
        s,
        regex_match(leading_digit_pattern(), s) == Some(true),
        regex_match(based_literal_pattern(), s) == Some(true),
        regex_match(character_literal_pattern(), s) == Some(true),
    )
}

pub fn is_literal_or_expr(s: &str) -> (r: bool)
    ensures
        r == literal_or_expr(s@),
{
    let leading_digit = found("^[0-9]", s);
    let based = found("^[xXbBoO]\"", s);
    let character = found("^'.'$", s);
    is_literal_or_expr_given(s, leading_digit, based, character)
}

/// A character that ends the base identifier of an actual.
pub open spec fn ends_base(c: char) -> bool {
    c == '(' || c == '.' || c == '\'' || is_space(c)
}

/// The first index at or after `i` that ends the base identifier, or the length.
pub open spec fn base_end_from(s: Seq<char>, i: int) -> int
    decreases s.len() - i,
{
    if i < 0 || i >= s.len() {
        s.len() as int
    } else if ends_base(s[i]) {
        i
    } else {
        base_end_from(s, i + 1)
    }
}

/// The base identifier of an actual: what comes before the first bracket,
/// dot, tick or white space, trimmed.
pub open spec fn base_of(actual: Seq<char>) -> Seq<char> {
    trim(actual.subrange(0, base_end_from(actual, 0)))
}

pub fn base_name(actual: &str) -> (r: String)
    ensures
        r@ == base_of(actual@),
{
    let v = chars_of(actual);
    let mut end: usize = 0;
    let mut done = false;
    while end < v.len() && !done
        invariant
            end <= v@.len(),
            base_end_from(v@, 0) == base_end_from(v@, end as int),
            done ==> end < v@.len() && ends_base(v@[end as int]),
        decreases v@.len() - end + (if done { 0int } else { 1int }),
    {
        let ch = v[end];
        if ch == '(' || ch == '.' || ch == '\'' || char_is_space(ch) {
            done = true;
        } else {
            end += 1;
        }
    }
    let head = chars_between(&v, 0, end);
    let t = chars_trim(&head);
    string_of(&t)
}

/// The widest signal of this name and scope among the first `n` signals; 0 if there is none.
pub open spec fn scoped_signal_width(input: &Input, name: Seq<char>, scope: Seq<char>, n: int) -> nat
    decreases n,
{
    if n <= 0 {
        0
    } else {
        let rest = scoped_signal_width(input, name, scope, n - 1);
        let sig = &input.signals@[n - 1];
        if same_name(sig.in_entity@, scope) && same_name(sig.name@, name) && sig.width > rest {
            sig.width as nat
        } else {
            rest
        }
    }
}

/// The widest port of this name and entity among the first `n` ports; 0 if there is none.
pub open spec fn scoped_port_width(input: &Input, name: Seq<char>, entity: Seq<char>, n: int) -> nat
    decreases n,
{
    if n <= 0 {
        0
    } else {
        let rest = scoped_port_width(input, name, entity, n - 1);
        let port = &input.ports@[n - 1];
        if same_name(port.in_entity@, entity) && same_name(port.name@, name) && port.width > rest {
            port.width as nat
        } else {
            rest
        }
    }
}

/// The widest signal of this name among the first `n` signals; 0 if there is none.
pub open spec fn any_signal_width(input: &Input, name: Seq<char>, n: int) -> nat
    decreases n,
{
    if n <= 0 {
        0
    } else {
        let rest = any_signal_width(input, name, n - 1);
        let sig = &input.signals@[n - 1];
        if same_name(sig.name@, name) && sig.width > rest {
            sig.width as nat
        } else {
            rest
        }
    }
}

/// The widest port of this name among the first `n` ports; 0 if there is none.
pub open spec fn any_port_width(input: &Input, name: Seq<char>, n: int) -> nat
    decreases n,
{
    if n <= 0 {
        0
    } else {
        let rest = any_port_width(input, name, n - 1);
        let port = &input.ports@[n - 1];
        if same_name(port.name@, name) && port.width > rest {
            port.width as nat
        } else {
            rest
        }
    }
}

/// The index of the first architecture at or after `i` with this name, or
/// the number of architectures.
pub open spec fn first_arch_named(input: &Input, name: Seq<char>, i: int) -> int
    decreases input.architectures@.len() - i,
{
    if i < 0 || i >= input.architectures@.len() {
        input.architectures@.len() as int
    } else if same_name(input.architectures@[i].name@, name) {
        i
    } else {
        first_arch_named(input, name, i + 1)
    }
}

pub fn arch_entity_name(input: &Input, arch_name: &str) -> (r: Option<String>)
    ensures
        match r {
            Some(e) => first_arch_named(input, arch_name@, 0) < input.architectures@.len() && e@
                == input.architectures@[first_arch_named(input, arch_name@, 0)].entity_name@,
            None => first_arch_named(input, arch_name@, 0) == input.architectures@.len(),
        },
{
    let mut i: usize = 0;
    while i < input.architectures.len()
        invariant
            i <= input.architectures@.len(),
            first_arch_named(input, arch_name@, 0) == first_arch_named(input, arch_name@, i as int),
        decreases input.architectures@.len() - i,
    {
        if same(input.architectures[i].name.as_str(), arch_name) {
            return Some(input.architectures[i].entity_name.clone());
        }
        i += 1;
    }
    None
}

/// The larger of two widths.
pub open spec fn wider(a: nat, b: nat) -> nat {
    if a >= b {
        a
    } else {
        b
    }
}

/// The width of a signal or port by name.  Inside an architecture: the
/// widest among the signals of the architecture and the ports of its entity.
/// Without scope: the widest among all signals and ports of the name.
pub open spec fn known_width(input: &Input, name: Seq<char>, scope: Seq<char>) -> nat {
    if scope.len() > 0 {
        let a = first_arch_named(input, scope, 0);
        let signals = scoped_signal_width(input, name, scope, input.signals@.len() as int);
        if a < input.architectures@.len() {
            wider(
                signals,
                scoped_port_width(
                    input,
                    name,
                    input.architectures@[a].entity_name@,
                    input.ports@.len() as int,
                ),
            )
        } else {
            signals
        }
    } else {
        wider(
            any_signal_width(input, name, input.signals@.len() as int),
            any_port_width(input, name, input.ports@.len() as int),
        )
    }
}

fn widest_scoped_signal(input: &Input, name: &str, scope: &str) -> (r: usize)
    ensures
        r == scoped_signal_width(input, name@, scope@, input.signals@.len() as int),
{
    let mut best: usize = 0;
    let mut i: usize = 0;
    while i < input.signals.len()
        invariant
            i <= input.signals@.len(),
            best == scoped_signal_width(input, name@, scope@, i as int),
        decreases input.signals@.len() - i,
    {
        let sig = &input.signals[i];
        if same(sig.in_entity.as_str(), scope) && same(sig.name.as_str(), name)
            && sig.width > best {
            best = sig.width;
        }
        i += 1;
    }
    best
}

fn widest_scoped_port(input: &Input, name: &str, entity: &str) -> (r: usize)
    ensures
        r == scoped_port_width(input, name@, entity@, input.ports@.len() as int),
{
    let mut best: usize = 0;
    let mut i: usize = 0;
    while i < input.ports.len()
        invariant
            i <= input.ports@.len(),
            best == scoped_port_width(input, name@, entity@, i as int),
        decreases input.ports@.len() - i,
    {
        let port = &input.ports[i];
        if same(port.in_entity.as_str(), entity) && same(port.name.as_str(), name) && port.width
            > best {
            best = port.width;
        }
        i += 1;
    }
    best
}

fn widest_signal(input: &Input, name: &str) -> (r: usize)
    ensures
        r == any_signal_width(input, name@, input.signals@.len() as int),
{
    let mut best: usize = 0;
    let mut i: usize = 0;
    while i < input.signals.len()
        invariant
            i <= input.signals@.len(),
            best == any_signal_width(input, name@, i as int),
        decreases input.signals@.len() - i,
    {
        let sig = &input.signals[i];
        if same(sig.name.as_str(), name) && sig.width > best {
            best = sig.width;
        }
        i += 1;
    }
    best
}

fn widest_port(input: &Input, name: &str) -> (r: usize)
    ensures
        r == any_port_width(input, name@, input.ports@.len() as int),
{
    let mut best: usize = 0;
    let mut i: usize = 0;
    while i < input.ports.len()
        invariant
            i <= input.ports@.len(),
            best == any_port_width(input, name@, i as int),
        decreases input.ports@.len() - i,
    {
        let port = &input.ports[i];
        if same(port.name.as_str(), name) && port.width > best {
            best = port.width;
        }
        i += 1;
    }
    best
}

pub fn get_signal_width(input: &Input, signal_name: &str, scope_arch: &str) -> (r: usize)
    ensures
        r == known_width(input, signal_name@, scope_arch@),
{
    if !scope_arch.is_empty() {
        let signals = widest_scoped_signal(input, signal_name, scope_arch);
        match arch_entity_name(input, scope_arch) {
            Some(entity_name) => {
                let ports = widest_scoped_port(input, signal_name, entity_name.as_str());
                if signals >= ports {
                    signals
                } else {
                    ports
                }
            },
            None => signals,
        }
    } else {
        let signals = widest_signal(input, signal_name);
        let ports = widest_port(input, signal_name);
        if signals >= ports {
            signals
        } else {
            ports
        }
    }
}

/// The first index at or after `i` where `p` occurs in `s`, or the length of `s`.
pub open spec fn first_occurrence(s: Seq<char>, p: Seq<char>, i: int) -> int
    decreases s.len() - i,
{
    if i < 0 || i >= s.len() {
        s.len() as int
    } else if occurs_at(s, p, i) {
        i
    } else {
        first_occurrence(s, p, i + 1)
    }
}

fn find_text(v: &Vec<char>, p: &str) -> (r: usize)
    ensures
        r == first_occurrence(v@, p@, 0),
        r <= v@.len(),
        r < v@.len() ==> r + p@.len() <= v@.len(),
{
    let pat = chars_of(p);
    let mut i: usize = 0;
    while i < v.len()
        invariant
            i <= v@.len(),
            pat@ == p@,
            first_occurrence(v@, p@, 0) == first_occurrence(v@, p@, i as int),
        decreases v@.len() - i,
    {
        if chars_occur_at(v, &pat, i) {
            return i;
        }
        i += 1;
    }
    i
}

/// The number of bits from one bound to the other, both included; 0 where
/// that does not fit the machine word.
pub open spec fn span_width(a: int, b: int) -> nat {
    let w = if a >= b {
        a - b + 1
    } else {
        b - a + 1
    };
    if w <= usize::MAX {
        w as nat
    } else {
        0
    }
}

/// The width of the range `left <word> right`, where both sides spell
/// integers of the machine word; `None` where one does not.
pub open spec fn range_width(left: Seq<char>, right: Seq<char>) -> Option<nat> {
    match (
        integer_in_range(trim(left), true, isize::MIN as int, isize::MAX as int),
        integer_in_range(trim(right), true, isize::MIN as int, isize::MAX as int),
    ) {
        (Some(a), Some(b)) => Some(span_width(a, b)),
        _ => None,
    }
}

fn range_width_of(v: &Vec<char>, idx: usize, word_len: usize) -> (r: Option<usize>)
    requires
        idx + word_len <= v@.len(),
    ensures
        match r {
            Some(w) => range_width(
                v@.subrange(0, idx as int),
                v@.subrange(idx + word_len, v@.len() as int),
            ) == Some(w as nat),
            None => range_width(
                v@.subrange(0, idx as int),
                v@.subrange(idx + word_len, v@.len() as int),
            ).is_none(),
        },
{
    let total: usize = v.len();
    let left = chars_between(v, 0, idx);
    let right = chars_between(v, idx + word_len, total);
    let lt = string_of(&chars_trim(&left));
    let rt = string_of(&chars_trim(&right));
    let a = parse_integer(lt.as_str(), true, isize::MIN as i64, isize::MAX as i64);
    let b = parse_integer(rt.as_str(), true, isize::MIN as i64, isize::MAX as i64);
    match (a, b) {
        (Some(a), Some(b)) => {
            let d: i128 = a as i128 - b as i128;
            let w: i128 = if d >= 0 {
                d + 1
            } else {
                -d + 1
            };
            if w <= usize::MAX as i128 {
                Some(w as usize)
            } else {
                Some(0)
            }
        },
        _ => None,
    }
}

/// The width of what stands between the brackets of an indexed actual: 0
/// for several indices, the span of a range, and for a single index 1 if the
/// width of the base is known and 0 if not.  `None` where a range is
/// written with bounds that are no numbers.
pub open spec fn index_width(inside: Seq<char>, base_width: nat) -> Option<nat> {
    let l = lower(inside);
    let down = first_occurrence(l, " downto "@, 0);
    let to = first_occurrence(l, " to "@, 0);
    if contains(inside, ","@) {
        Some(0)
    } else if down < l.len() {
        range_width(inside.subrange(0, down), inside.subrange(down + 8, inside.len() as int))
    } else if to < l.len() {
        range_width(inside.subrange(0, to), inside.subrange(to + 4, inside.len() as int))
    } else if base_width == 0 {
        Some(0)
    } else {
        Some(1)
    }
}

/// The width that the index of an actual gives: that of the text between its
/// first opening and its last closing bracket.  `None` where the actual has
/// no such brackets, or a range in them cannot be read.
pub open spec fn indexed_actual_width(actual: Seq<char>, base_width: nat) -> Option<nat> {
    let start = index_from(actual, '(', 0);
    let end = after_last_index(actual, ')', actual.len() as int);
    if start >= actual.len() || end == 0 || end - 1 <= start {
        None
    } else {
        index_width(trim(actual.subrange(start + 1, end - 1)), base_width)
    }
}

pub fn indexed_width(actual: &str, base_width: usize) -> (r: Option<usize>)
    ensures
        match r {
            Some(w) => indexed_actual_width(actual@, base_width as nat) == Some(w as nat),
            None => indexed_actual_width(actual@, base_width as nat).is_none(),
        },
{
    let v = chars_of(actual);
    let start = chars_index_from(&v, '(', 0);
    if start >= v.len() {
        return None;
    }
    let end = chars_after_last_index(&v, ')');
    if end == 0 || end - 1 <= start {
        return None;
    }
    let between = chars_between(&v, start + 1, end - 1);
    let inside = chars_trim(&between);
    if holds(&inside, ",") {
        return Some(0);
    }
    let l = lower_chars(&inside);
    proof {
        reveal_strlit(" downto ");
        reveal_strlit(" to ");
        assert(l@.len() == inside@.len());
    }
    let down = find_text(&l, " downto ");
    if down < l.len() {
        return range_width_of(&inside, down, 8);
    }
    let to = find_text(&l, " to ");
    if to < l.len() {
        return range_width_of(&inside, to, 4);
    }
    if base_width == 0 {
        Some(0)
    } else {
        Some(1)
    }
}

/// The width of an actual: 0 for nothing, `open`, literals and expressions;
/// else the width that its index gives, else the known width of its base
/// identifier, or of the whole actual where the base is unknown.
pub open spec fn actual_width_given(
    input: &Input,
    actual: Seq<char>,
    scope_arch: Seq<char>,
    is_literal_or_expr: bool,
) -> nat {
    if actual.len() == 0 || same_name(actual, "open"@) || is_literal_or_expr {
        0
    } else {
        let base = base_of(actual);
        let first = known_width(input, base, scope_arch);
        let base_width = if first == 0 && base != actual {
            known_width(input, actual, scope_arch)
        } else {
            first
        };
        match indexed_actual_width(actual, base_width) {
            Some(w) => w,
            None => base_width,
        }
    }
}

pub fn get_actual_width_given(
    input: &Input,
    actual: &str,
    scope_arch: &str,
    is_literal_or_expr: bool,
) -> (r: usize)
    ensures
        r == actual_width_given(input, actual@, scope_arch@, is_literal_or_expr),
{
    if actual.is_empty() || same(actual, "open") || is_literal_or_expr {
        return 0;
    }
    let base = base_name(actual);
    let mut base_width = get_signal_width(input, base.as_str(), scope_arch);
    if base_width == 0 && !str_eq(base.as_str(), actual) {
        base_width = get_signal_width(input, actual, scope_arch);
    }
    match indexed_width(actual, base_width) {
        Some(w) => w,
        None => base_width,
    }
}

pub open spec fn actual_width(input: &Input, actual: Seq<char>, scope_arch: Seq<char>) -> nat {
    actual_width_given(input, actual, scope_arch, literal_or_expr(actual))
}

pub fn get_actual_width(input: &Input, actual: &str, scope_arch: &str) -> (r: usize)
    ensures
        r == actual_width(input, actual@, scope_arch@),
{
    let literal = is_literal_or_expr(actual);
    get_actual_width_given(input, actual, scope_arch, literal)
}

/// The pattern for a text made of digits only.
pub open spec fn digits_pattern() -> Seq<char> {
    "^[0-9]+$"@
}

/// Whether a connection is a literal value, given whether the matcher took
/// it for a number.
pub open spec fn literal_value_given(val: Seq<char>, is_number: bool) -> bool {
    starts_with(val, "'"@) || starts_with(val, "\""@) || is_number || same_name(val, "open"@)
}

pub fn is_literal_value_given(val: &str, is_number: bool) -> (r: bool)
    ensures
        r == literal_value_given(val@, is_number),
{
    str_starts_with(val, "'") || str_starts_with(val, "\"") || is_number || same(val, "open")
}

pub open spec fn literal_value(val: Seq<char>) -> bool {
    literal_value_given(val, regex_match(digits_pattern(), val) == Some(true))
}

pub fn is_literal_value(val: &str) -> (r: bool)
    ensures
        r == literal_value(val@),
{
    let is_number = found("^[0-9]+$", val);
    is_literal_value_given(val, is_number)
}

} // verus!
