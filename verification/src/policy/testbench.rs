//! Testbenches: entities and architectures that look like one but are not built like one.
use vstd::prelude::*;
use crate::text::{
    chars_are, contains, decimal, decimal_text, ends, ends_with, holds, lower, lower_chars_of,
};
use crate::policy::helpers::{testbench_name, is_testbench_name, first_entity_named, entity_index};
use crate::policy::input::{Input, Entity, Architecture};
use crate::policy::result::{Violation, ViolationView, views, group_views};

verus! {

/// The testbench findings that always run.
pub open spec fn violations_all(input: &Input) -> Seq<ViolationView> {
    entity_no_ports_not_tb_all(input)
}

pub fn violations(input: &Input) -> (out: Vec<Violation>)
    ensures
        views(out@) == violations_all(input),
{
    entity_no_ports_not_tb(input)
}

/// The testbench findings that run only when configured.
pub open spec fn optional_violations_all(input: &Input) -> Seq<ViolationView> {
    testbench_with_ports_all(input) + mismatched_tb_architecture_all(input)
        + tb_with_synth_arch_all(input)
}

pub fn optional_violations(input: &Input) -> (out: Vec<Violation>)
    ensures
        views(out@) == optional_violations_all(input),
{
    broadcast use group_views;

    let mut out: Vec<Violation> = Vec::new();
    let mut part = testbench_with_ports(input);
    out.append(&mut part);
    let mut part = mismatched_tb_architecture(input);
    out.append(&mut part);
    let mut part = tb_with_synth_arch(input);
    out.append(&mut part);
    out
}

/// A testbench entity with ports.
pub open spec fn testbench_with_ports_hit(input: &Input, entity: &Entity) -> bool {
    testbench_name(entity.name@) && entity.ports@.len() > 0
}

pub open spec fn testbench_with_ports_finding(input: &Input, entity: &Entity) -> ViolationView {
    ViolationView {
        rule: "testbench_with_ports"@,
        severity: "info"@,
        file: entity.file@,
        line: entity.line as nat,
        message: "Entity '"@ + entity.name@ + "' looks like a testbench but has "@
            + decimal(entity.ports.len() as nat) + " ports - testbenches typically have no ports"@,
    }
}

/// The findings for the first `n` rows, in row order.
pub open spec fn testbench_with_ports_upto(input: &Input, n: int) -> Seq<ViolationView>
    decreases n,
{
    if n <= 0 {
        Seq::empty()
    } else {
        let rest = testbench_with_ports_upto(input, n - 1);
        let entity = &input.entities@[n - 1];
        if testbench_with_ports_hit(input, entity) {
            rest.push(testbench_with_ports_finding(input, entity))
        } else {
            rest
        }
    }
}

pub open spec fn testbench_with_ports_all(input: &Input) -> Seq<ViolationView> {
    testbench_with_ports_upto(input, input.entities@.len() as int)
}

pub fn testbench_with_ports(input: &Input) -> (out: Vec<Violation>)
    ensures
        views(out@) == testbench_with_ports_all(input),
{
    broadcast use group_views;

    let mut out: Vec<Violation> = Vec::new();
    let mut i: usize = 0;
    while i < input.entities.len()
        invariant
            i <= input.entities@.len(),
            views(out@) == testbench_with_ports_upto(input, i as int),
        decreases input.entities@.len() - i,
    {
        let entity = &input.entities[i];
        if is_testbench_name(entity.name.as_str()) && entity.ports.len() > 0 {
            let mut message = String::from_str("Entity '");
            message.append(entity.name.as_str());
            message.append("' looks like a testbench but has ");
            message.append(decimal_text(entity.ports.len()).as_str());
            message.append(" ports - testbenches typically have no ports");
            out.push(
                Violation {
                    rule: String::from_str("testbench_with_ports"),
                    severity: String::from_str("info"),
                    file: entity.file.clone(),
                    line: entity.line,
                    message,
                },
            );
        }
        i += 1;
    }
    out
}

/// An entity without ports that is named neither as a testbench nor as a package.
pub open spec fn entity_no_ports_not_tb_hit(input: &Input, entity: &Entity) -> bool {
    entity.ports@.len() == 0 && !testbench_name(entity.name@) && !package_name(entity.name@)
}

pub open spec fn entity_no_ports_not_tb_finding(input: &Input, entity: &Entity) -> ViolationView {
    ViolationView {
        rule: "entity_no_ports_not_tb"@,
        severity: "warning"@,
        file: entity.file@,
        line: entity.line as nat,
        message: "Entity '"@ + entity.name@ + "' has no ports but doesn't look like a testbench"@,
    }
}

/// The findings for the first `n` rows, in row order.
pub open spec fn entity_no_ports_not_tb_upto(input: &Input, n: int) -> Seq<ViolationView>
    decreases n,
{
    if n <= 0 {
        Seq::empty()
    } else {
        let rest = entity_no_ports_not_tb_upto(input, n - 1);
        let entity = &input.entities@[n - 1];
        if entity_no_ports_not_tb_hit(input, entity) {
            rest.push(entity_no_ports_not_tb_finding(input, entity))
        } else {
            rest
        }
    }
}

pub open spec fn entity_no_ports_not_tb_all(input: &Input) -> Seq<ViolationView> {
    entity_no_ports_not_tb_upto(input, input.entities@.len() as int)
}

pub fn entity_no_ports_not_tb(input: &Input) -> (out: Vec<Violation>)
    ensures
        views(out@) == entity_no_ports_not_tb_all(input),
{
    broadcast use group_views;

    let mut out: Vec<Violation> = Vec::new();
    let mut i: usize = 0;
    while i < input.entities.len()
        invariant
            i <= input.entities@.len(),
            views(out@) == entity_no_ports_not_tb_upto(input, i as int),
        decreases input.entities@.len() - i,
    {
        let entity = &input.entities[i];
        if entity.ports.len() == 0 && !is_testbench_name(entity.name.as_str())
            && !is_package_name(entity.name.as_str()) {
            let mut message = String::from_str("Entity '");
            message.append(entity.name.as_str());
            message.append("' has no ports but doesn't look like a testbench");
            out.push(
                Violation {
                    rule: String::from_str("entity_no_ports_not_tb"),
                    severity: String::from_str("warning"),
                    file: entity.file.clone(),
                    line: entity.line,
                    message,
                },
            );
        }
        i += 1;
    }
    out
}

/// An architecture named as a testbench whose entity is not.
pub open spec fn mismatched_tb_architecture_hit(input: &Input, arch: &Architecture) -> bool {
    testbench_arch_name(arch.name@)
        && first_entity_named(input, arch.entity_name@, 0) < input.entities@.len()
        && !testbench_name(input.entities@[first_entity_named(input, arch.entity_name@, 0)].name@)
}

pub open spec fn mismatched_tb_architecture_finding(input: &Input, arch: &Architecture) -> ViolationView {
    ViolationView {
        rule: "mismatched_tb_architecture"@,
        severity: "info"@,
        file: arch.file@,
        line: arch.line as nat,
        message: "Architecture '"@ + arch.name@ + "' has testbench name but entity '"@
            + arch.entity_name@ + "' doesn't"@,
    }
}

/// The findings for the first `n` rows, in row order.
pub open spec fn mismatched_tb_architecture_upto(input: &Input, n: int) -> Seq<ViolationView>
    decreases n,
{
    if n <= 0 {
        Seq::empty()
    } else {
        let rest = mismatched_tb_architecture_upto(input, n - 1);
        let arch = &input.architectures@[n - 1];
        if mismatched_tb_architecture_hit(input, arch) {
            rest.push(mismatched_tb_architecture_finding(input, arch))
        } else {
            rest
        }
    }
}

pub open spec fn mismatched_tb_architecture_all(input: &Input) -> Seq<ViolationView> {
    mismatched_tb_architecture_upto(input, input.architectures@.len() as int)
}

pub fn mismatched_tb_architecture(input: &Input) -> (out: Vec<Violation>)
    ensures
        views(out@) == mismatched_tb_architecture_all(input),
{
    broadcast use group_views;

    let mut out: Vec<Violation> = Vec::new();
    let mut i: usize = 0;
    while i < input.architectures.len()
        invariant
            i <= input.architectures@.len(),
            views(out@) == mismatched_tb_architecture_upto(input, i as int),
        decreases input.architectures@.len() - i,
    {
        let arch = &input.architectures[i];
        let e = entity_index(input, arch.entity_name.as_str());
        if is_testbench_arch_name(arch.name.as_str()) && e < input.entities.len()
            && !is_testbench_name(input.entities[e].name.as_str()) {
            let mut message = String::from_str("Architecture '");
            message.append(arch.name.as_str());
            message.append("' has testbench name but entity '");
            message.append(arch.entity_name.as_str());
            message.append("' doesn't");
            out.push(
                Violation {
                    rule: String::from_str("mismatched_tb_architecture"),
                    severity: String::from_str("info"),
                    file: arch.file.clone(),
                    line: arch.line,
                    message,
                },
            );
        }
        i += 1;
    }
    out
}

/// A testbench entity with an architecture named for synthesis.
pub open spec fn tb_with_synth_arch_hit(input: &Input, arch: &Architecture) -> bool {
    synthesis_arch_name(arch.name@)
        && first_entity_named(input, arch.entity_name@, 0) < input.entities@.len()
        && testbench_name(input.entities@[first_entity_named(input, arch.entity_name@, 0)].name@)
}

pub open spec fn tb_with_synth_arch_finding(input: &Input, arch: &Architecture) -> ViolationView {
    ViolationView {
        rule: "tb_with_synth_arch"@,
        severity: "info"@,
        file: arch.file@,
        line: arch.line as nat,
        message: "Testbench entity '"@
            + input.entities@[first_entity_named(input, arch.entity_name@, 0)].name@
            + "' has synthesis-style architecture name '"@ + arch.name@ + "'"@,
    }
}

/// The findings for the first `n` rows, in row order.
pub open spec fn tb_with_synth_arch_upto(input: &Input, n: int) -> Seq<ViolationView>
    decreases n,
{
    if n <= 0 {
        Seq::empty()
    } else {
        let rest = tb_with_synth_arch_upto(input, n - 1);
        let arch = &input.architectures@[n - 1];
        if tb_with_synth_arch_hit(input, arch) {
            rest.push(tb_with_synth_arch_finding(input, arch))
        } else {
            rest
        }
    }
}

pub open spec fn tb_with_synth_arch_all(input: &Input) -> Seq<ViolationView> {
    tb_with_synth_arch_upto(input, input.architectures@.len() as int)
}

pub fn tb_with_synth_arch(input: &Input) -> (out: Vec<Violation>)
    ensures
        views(out@) == tb_with_synth_arch_all(input),
{
    broadcast use group_views;

    let mut out: Vec<Violation> = Vec::new();
    let mut i: usize = 0;
    while i < input.architectures.len()
        invariant
            i <= input.architectures@.len(),
            views(out@) == tb_with_synth_arch_upto(input, i as int),
        decreases input.architectures@.len() - i,
    {
        let arch = &input.architectures[i];
        let e = entity_index(input, arch.entity_name.as_str());
        if is_synthesis_arch_name(arch.name.as_str()) && e < input.entities.len()
            && is_testbench_name(input.entities[e].name.as_str()) {
            let mut message = String::from_str("Testbench entity '");
            message.append(input.entities[e].name.as_str());
            message.append("' has synthesis-style architecture name '");
            message.append(arch.name.as_str());
            message.append("'");
            out.push(
                Violation {
                    rule: String::from_str("tb_with_synth_arch"),
                    severity: String::from_str("info"),
                    file: arch.file.clone(),
                    line: arch.line,
                    message,
                },
            );
        }
        i += 1;
    }
    out
}

/// An architecture name used for testbenches.
pub open spec fn testbench_arch_name(name: Seq<char>) -> bool {
    let l = lower(name);
    l == "tb"@ || l == "testbench"@ || l == "test"@ || l == "sim"@
}

pub fn is_testbench_arch_name(name: &str) -> (r: bool)
    ensures
        r == testbench_arch_name(name@),
{
    let l = lower_chars_of(name);
    chars_are(&l, "tb") || chars_are(&l, "testbench") || chars_are(&l, "test")
        || chars_are(&l, "sim")
}

/// An architecture name used for synthesis.
pub open spec fn synthesis_arch_name(name: Seq<char>) -> bool {
    let l = lower(name);
    l == "rtl"@ || l == "synth"@ || l == "synthesis"@
}

pub fn is_synthesis_arch_name(name: &str) -> (r: bool)
    ensures
        r == synthesis_arch_name(name@),
{
    let l = lower_chars_of(name);
    chars_are(&l, "rtl") || chars_are(&l, "synth") || chars_are(&l, "synthesis")
}

pub open spec fn package_name(name: Seq<char>) -> bool {
    let l = lower(name);
    contains(l, "_pkg"@) || ends_with(l, "pkg"@) || contains(l, "package"@)
}

pub fn is_package_name(name: &str) -> (r: bool)
    ensures
        r == package_name(name@),
{
    let l = lower_chars_of(name);
    holds(&l, "_pkg") || ends(&l, "pkg") || holds(&l, "package")
}

} // verus!
