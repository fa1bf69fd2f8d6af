//! Instantiation style.
use vstd::prelude::*;
use crate::policy::helpers::{instance_prefix_ok, valid_instance_prefix};
use crate::policy::input::{Input, Instance};
use crate::policy::result::{Violation, ViolationView, views, group_views};

verus! {

/// The findings about instantiations.
pub open spec fn violations_all(input: &Input) -> Seq<ViolationView> {
    positional_mapping_all(input) + instance_naming_convention_all(input)
}

pub fn violations(input: &Input) -> (out: Vec<Violation>)
    ensures
        views(out@) == violations_all(input),
{
    broadcast use group_views;

    let mut out: Vec<Violation> = Vec::new();
    let mut part = positional_mapping(input);
    out.append(&mut part);
    let mut part = instance_naming_convention(input);
    out.append(&mut part);
    out
}

/// An instance without named port associations.
pub open spec fn positional_mapping_hit(input: &Input, inst: &Instance) -> bool {
    inst.port_map.entries@.len() == 0
}

pub open spec fn positional_mapping_finding(input: &Input, inst: &Instance) -> ViolationView {
    ViolationView {
        rule: "positional_mapping"@,
        severity: "warning"@,
        file: inst.file@,
        line: inst.line as nat,
        message: "Instance '"@ + inst.name@
            + "' uses positional port mapping - use named mapping for safety"@,
    }
}

/// The findings for the first `n` rows, in row order.
pub open spec fn positional_mapping_upto(input: &Input, n: int) -> Seq<ViolationView>
    decreases n,
{
    if n <= 0 {
        Seq::empty()
    } else {
        let rest = positional_mapping_upto(input, n - 1);
        let inst = &input.instances@[n - 1];
        if positional_mapping_hit(input, inst) {
            rest.push(positional_mapping_finding(input, inst))
        } else {
            rest
        }
    }
}

pub open spec fn positional_mapping_all(input: &Input) -> Seq<ViolationView> {
    positional_mapping_upto(input, input.instances@.len() as int)
}

pub fn positional_mapping(input: &Input) -> (out: Vec<Violation>)
    ensures
        views(out@) == positional_mapping_all(input),
{
    broadcast use group_views;

    let mut out: Vec<Violation> = Vec::new();
    let mut i: usize = 0;
    while i < input.instances.len()
        invariant
            i <= input.instances@.len(),
            views(out@) == positional_mapping_upto(input, i as int),
        decreases input.instances@.len() - i,
    {
        let inst = &input.instances[i];
        if inst.port_map.is_empty() {
            let mut message = String::from_str("Instance '");
            message.append(inst.name.as_str());
            message.append("' uses positional port mapping - use named mapping for safety");
            out.push(
                Violation {
                    rule: String::from_str("positional_mapping"),
                    severity: String::from_str("warning"),
                    file: inst.file.clone(),
                    line: inst.line,
                    message,
                },
            );
        }
        i += 1;
    }
    out
}

/// An instance whose label lacks a standard prefix.
pub open spec fn instance_naming_convention_hit(input: &Input, inst: &Instance) -> bool {
    !instance_prefix_ok(inst.name@)
}

pub open spec fn instance_naming_convention_finding(input: &Input, inst: &Instance) -> ViolationView {
    ViolationView {
        rule: "instance_naming_convention"@,
        severity: "info"@,
        file: inst.file@,
        line: inst.line as nat,
        message: "Instance '"@ + inst.name@ + "' should use a standard prefix (u_, i_, or inst_)"@,
    }
}

/// The findings for the first `n` rows, in row order.
pub open spec fn instance_naming_convention_upto(input: &Input, n: int) -> Seq<ViolationView>
    decreases n,
{
    if n <= 0 {
        Seq::empty()
    } else {
        let rest = instance_naming_convention_upto(input, n - 1);
        let inst = &input.instances@[n - 1];
        if instance_naming_convention_hit(input, inst) {
            rest.push(instance_naming_convention_finding(input, inst))
        } else {
            rest
        }
    }
}

pub open spec fn instance_naming_convention_all(input: &Input) -> Seq<ViolationView> {
    instance_naming_convention_upto(input, input.instances@.len() as int)
}

pub fn instance_naming_convention(input: &Input) -> (out: Vec<Violation>)
    ensures
        views(out@) == instance_naming_convention_all(input),
{
    broadcast use group_views;

    let mut out: Vec<Violation> = Vec::new();
    let mut i: usize = 0;
    while i < input.instances.len()
        invariant
            i <= input.instances@.len(),
            views(out@) == instance_naming_convention_upto(input, i as int),
        decreases input.instances@.len() - i,
    {
        let inst = &input.instances[i];
        if !valid_instance_prefix(inst.name.as_str()) {
            let mut message = String::from_str("Instance '");
            message.append(inst.name.as_str());
            message.append("' should use a standard prefix (u_, i_, or inst_)");
            out.push(
                Violation {
                    rule: String::from_str("instance_naming_convention"),
                    severity: String::from_str("info"),
                    file: inst.file.clone(),
                    line: inst.line,
                    message,
                },
            );
        }
        i += 1;
    }
    out
}

} // verus!
