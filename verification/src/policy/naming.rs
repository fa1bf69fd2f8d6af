//! Naming conventions for entities, ports and signals.
use vstd::prelude::*;
use crate::text::{
    contains, ends_with, lower, lower_contains, lower_ends_with, lower_is, lower_starts_with,
    starts_with, str_eq,
};
use crate::policy::helpers::{
    clock_name, is_clock_name, reset_name, is_reset_name, first_entity_named, entity_file_text,
    entity_file_of, entity_file_or_empty,
};
use crate::policy::input::{Input, Entity, Port, Signal};
use crate::policy::result::{Violation, ViolationView, views, group_views};

verus! {

/// No rule of this family runs unconditionally.
pub open spec fn violations_all(input: &Input) -> Seq<ViolationView> {
    Seq::<ViolationView>::empty()
}

pub fn violations(input: &Input) -> (out: Vec<Violation>)
    ensures
        views(out@) == violations_all(input),
{
    broadcast use group_views;

    Vec::new()
}

/// The findings about naming conventions, rule after rule.
pub open spec fn optional_violations_all(input: &Input) -> Seq<ViolationView> {
    entity_naming_all(input) + signal_input_naming_all(input) + signal_output_naming_all(input)
        + active_low_naming_all(input)
}

pub fn optional_violations(input: &Input) -> (out: Vec<Violation>)
    ensures
        views(out@) == optional_violations_all(input),
{
    broadcast use group_views;

    let mut out: Vec<Violation> = Vec::new();
    let mut part = entity_naming(input);
    out.append(&mut part);
    let mut part = signal_input_naming(input);
    out.append(&mut part);
    let mut part = signal_output_naming(input);
    out.append(&mut part);
    let mut part = active_low_naming(input);
    out.append(&mut part);
    out
}

/// An entity whose name is not all lower case.
pub open spec fn entity_naming_hit(input: &Input, entity: &Entity) -> bool {
    entity.name@ != lower(entity.name@)
}

pub open spec fn entity_naming_finding(input: &Input, entity: &Entity) -> ViolationView {
    ViolationView {
        rule: "naming_convention"@,
        severity: "info"@,
        file: entity.file@,
        line: entity.line as nat,
        message: "Entity '"@ + entity.name@ + "' should use lowercase naming"@,
    }
}

/// The findings for the first `n` rows, in row order.
pub open spec fn entity_naming_upto(input: &Input, n: int) -> Seq<ViolationView>
    decreases n,
{
    if n <= 0 {
        Seq::empty()
    } else {
        let rest = entity_naming_upto(input, n - 1);
        let entity = &input.entities@[n - 1];
        if entity_naming_hit(input, entity) {
            rest.push(entity_naming_finding(input, entity))
        } else {
            rest
        }
    }
}

pub open spec fn entity_naming_all(input: &Input) -> Seq<ViolationView> {
    entity_naming_upto(input, input.entities@.len() as int)
}

pub fn entity_naming(input: &Input) -> (out: Vec<Violation>)
    ensures
        views(out@) == entity_naming_all(input),
{
    broadcast use group_views;

    let mut out: Vec<Violation> = Vec::new();
    let mut i: usize = 0;
    while i < input.entities.len()
        invariant
            i <= input.entities@.len(),
            views(out@) == entity_naming_upto(input, i as int),
        decreases input.entities@.len() - i,
    {
        let entity = &input.entities[i];
        if !lower_is(entity.name.as_str(), entity.name.as_str()) {
            let mut message = String::from_str("Entity '");
            message.append(entity.name.as_str());
            message.append("' should use lowercase naming");
            out.push(
                Violation {
                    rule: String::from_str("naming_convention"),
                    severity: String::from_str("info"),
                    file: entity.file.clone(),
                    line: entity.line,
                    message,
                },
            );
        }
        i += 1;
    }
    out
}

/// An input port, neither clock nor reset, without the suffix `_i`.
pub open spec fn signal_input_naming_hit(input: &Input, port: &Port) -> bool {
    port.direction@ == "in"@ && !ends_with(lower(port.name@), "_i"@) && !clock_name(port.name@)
        && !reset_name(port.name@)
}

pub open spec fn signal_input_naming_finding(input: &Input, port: &Port) -> ViolationView {
    ViolationView {
        rule: "signal_input_naming"@,
        severity: "info"@,
        file: entity_file_text(input, port.in_entity@),
        line: port.line as nat,
        message: "Input port '"@ + port.name@ + "' should end with '_i' suffix"@,
    }
}

/// The findings for the first `n` rows, in row order.
pub open spec fn signal_input_naming_upto(input: &Input, n: int) -> Seq<ViolationView>
    decreases n,
{
    if n <= 0 {
        Seq::empty()
    } else {
        let rest = signal_input_naming_upto(input, n - 1);
        let port = &input.ports@[n - 1];
        if signal_input_naming_hit(input, port) {
            rest.push(signal_input_naming_finding(input, port))
        } else {
            rest
        }
    }
}

pub open spec fn signal_input_naming_all(input: &Input) -> Seq<ViolationView> {
    signal_input_naming_upto(input, input.ports@.len() as int)
}

pub fn signal_input_naming(input: &Input) -> (out: Vec<Violation>)
    ensures
        views(out@) == signal_input_naming_all(input),
{
    broadcast use group_views;

    let mut out: Vec<Violation> = Vec::new();
    let mut i: usize = 0;
    while i < input.ports.len()
        invariant
            i <= input.ports@.len(),
            views(out@) == signal_input_naming_upto(input, i as int),
        decreases input.ports@.len() - i,
    {
        let port = &input.ports[i];
        if str_eq(port.direction.as_str(), "in") && !lower_ends_with(port.name.as_str(), "_i")
            && !is_clock_name(port.name.as_str()) && !is_reset_name(port.name.as_str()) {
            let mut message = String::from_str("Input port '");
            message.append(port.name.as_str());
            message.append("' should end with '_i' suffix");
            out.push(
                Violation {
                    rule: String::from_str("signal_input_naming"),
                    severity: String::from_str("info"),
                    file: entity_file_or_empty(input, port.in_entity.as_str()),
                    line: port.line,
                    message,
                },
            );
        }
        i += 1;
    }
    out
}

/// An output port without the suffix `_o`.
pub open spec fn signal_output_naming_hit(input: &Input, port: &Port) -> bool {
    port.direction@ == "out"@ && !ends_with(lower(port.name@), "_o"@)
}

pub open spec fn signal_output_naming_finding(input: &Input, port: &Port) -> ViolationView {
    ViolationView {
        rule: "signal_output_naming"@,
        severity: "info"@,
        file: entity_file_text(input, port.in_entity@),
        line: port.line as nat,
        message: "Output port '"@ + port.name@ + "' should end with '_o' suffix"@,
    }
}

/// The findings for the first `n` rows, in row order.
pub open spec fn signal_output_naming_upto(input: &Input, n: int) -> Seq<ViolationView>
    decreases n,
{
    if n <= 0 {
        Seq::empty()
    } else {
        let rest = signal_output_naming_upto(input, n - 1);
        let port = &input.ports@[n - 1];
        if signal_output_naming_hit(input, port) {
            rest.push(signal_output_naming_finding(input, port))
        } else {
            rest
        }
    }
}

pub open spec fn signal_output_naming_all(input: &Input) -> Seq<ViolationView> {
    signal_output_naming_upto(input, input.ports@.len() as int)
}

pub fn signal_output_naming(input: &Input) -> (out: Vec<Violation>)
    ensures
        views(out@) == signal_output_naming_all(input),
{
    broadcast use group_views;

    let mut out: Vec<Violation> = Vec::new();
    let mut i: usize = 0;
    while i < input.ports.len()
        invariant
            i <= input.ports@.len(),
            views(out@) == signal_output_naming_upto(input, i as int),
        decreases input.ports@.len() - i,
    {
        let port = &input.ports[i];
        if str_eq(port.direction.as_str(), "out") && !lower_ends_with(port.name.as_str(), "_o") {
            let mut message = String::from_str("Output port '");
            message.append(port.name.as_str());
            message.append("' should end with '_o' suffix");
            out.push(
                Violation {
                    rule: String::from_str("signal_output_naming"),
                    severity: String::from_str("info"),
                    file: entity_file_or_empty(input, port.in_entity.as_str()),
                    line: port.line,
                    message,
                },
            );
        }
        i += 1;
    }
    out
}

/// A signal named as active-low that does not end in `n`.
pub open spec fn active_low_naming_hit(input: &Input, sig: &Signal) -> bool {
    active_low_name(sig.name@) && !ends_with(lower(sig.name@), "_n"@)
        && !ends_with(lower(sig.name@), "n"@)
}

pub open spec fn active_low_naming_finding(input: &Input, sig: &Signal) -> ViolationView {
    ViolationView {
        rule: "active_low_naming"@,
        severity: "info"@,
        file: sig.file@,
        line: sig.line as nat,
        message: "Active-low signal '"@ + sig.name@ + "' should end with '_n' suffix"@,
    }
}

/// The findings for the first `n` rows, in row order.
pub open spec fn active_low_naming_upto(input: &Input, n: int) -> Seq<ViolationView>
    decreases n,
{
    if n <= 0 {
        Seq::empty()
    } else {
        let rest = active_low_naming_upto(input, n - 1);
        let sig = &input.signals@[n - 1];
        if active_low_naming_hit(input, sig) {
            rest.push(active_low_naming_finding(input, sig))
        } else {
            rest
        }
    }
}

pub open spec fn active_low_naming_all(input: &Input) -> Seq<ViolationView> {
    active_low_naming_upto(input, input.signals@.len() as int)
}

pub fn active_low_naming(input: &Input) -> (out: Vec<Violation>)
    ensures
        views(out@) == active_low_naming_all(input),
{
    broadcast use group_views;

    let mut out: Vec<Violation> = Vec::new();
    let mut i: usize = 0;
    while i < input.signals.len()
        invariant
            i <= input.signals@.len(),
            views(out@) == active_low_naming_upto(input, i as int),
        decreases input.signals@.len() - i,
    {
        let sig = &input.signals[i];
        if is_active_low_name(sig.name.as_str()) && !lower_ends_with(sig.name.as_str(), "_n")
            && !lower_ends_with(sig.name.as_str(), "n") {
            let mut message = String::from_str("Active-low signal '");
            message.append(sig.name.as_str());
            message.append("' should end with '_n' suffix");
            out.push(
                Violation {
                    rule: String::from_str("active_low_naming"),
                    severity: String::from_str("info"),
                    file: sig.file.clone(),
                    line: sig.line,
                    message,
                },
            );
        }
        i += 1;
    }
    out
}

pub open spec fn active_low_name(name: Seq<char>) -> bool {
    contains(lower(name), "not_"@) || starts_with(lower(name), "n_"@)
}

pub fn is_active_low_name(name: &str) -> (r: bool)
    ensures
        r == active_low_name(name@),
{
    lower_contains(name, "not_") || lower_starts_with(name, "n_")
}

/// The file of the entity that owns the port.
pub fn entity_file(input: &Input, port: &Port) -> (r: Option<String>)
    ensures
        match r {
            Some(f) => first_entity_named(input, port.in_entity@, 0) < input.entities@.len() && f@
                == entity_file_text(input, port.in_entity@),
            None => first_entity_named(input, port.in_entity@, 0) == input.entities@.len(),
        },
{
    entity_file_of(input, port.in_entity.as_str())
}

} // verus!
