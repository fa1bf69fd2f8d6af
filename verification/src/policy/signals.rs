//! Signals: unused, undriven, multiply driven and undeclared ones.
use vstd::prelude::*;
use crate::text::{
    decimal, decimal_text, group_texts, list_has, lower, same, same_name, str_eq, texts, to_lower,
};
use crate::policy::helpers::{
    listed, signal_in_list, is_shared_variable, testbench_name, is_testbench_name, testbench_file,
    file_in_testbench, composite_type, is_composite_type, resolved_type, is_resolved_type,
    unresolved_scalar_type, is_unresolved_scalar_type, skip_name, is_skip_name, one_file,
    single_file_mode, arch_lacks_entity, arch_missing_entity_for_context, file_uses_packages,
    file_has_use_clause, base_arch, base_arch_name, common_signal_name, is_common_signal_name,
};
use crate::policy::input::{
    Input, Architecture, Process, Signal, Port, ConcurrentAssignment, GenericDecl,
};
use crate::policy::result::{Violation, ViolationView, views, group_views};
use crate::policy::synthesis::{extract_width, type_width};

verus! {

/// The signal findings that always run; every rule reads the same usage index.
pub open spec fn violations_all(input: &Input) -> Seq<ViolationView> {
    let usage = usage_of(input);
    unused_signal_all(input, usage) + undriven_signal_all(input, usage) + multi_driven_signal_all(
        input,
    ) + undeclared_signal_usage_all(input, usage) + input_port_driven_all(input)
}

pub fn violations(input: &Input) -> (out: Vec<Violation>)
    ensures
        views(out@) == violations_all(input),
{
    broadcast use group_views;

    let usage = SignalUsageIndex::from_input(input);
    let mut out = unused_signal(input, &usage);
    let mut part = undriven_signal(input, &usage);
    out.append(&mut part);
    let mut part = multi_driven_signal(input);
    out.append(&mut part);
    let mut part = undeclared_signal_usage(input, &usage);
    out.append(&mut part);
    let mut part = input_port_driven(input);
    out.append(&mut part);
    out
}

/// The signal findings that run only when configured.
pub open spec fn optional_violations_all(input: &Input) -> Seq<ViolationView> {
    wide_signal_all(input) + duplicate_signal_name_all(input)
}

pub fn optional_violations(input: &Input) -> (out: Vec<Violation>)
    ensures
        views(out@) == optional_violations_all(input),
{
    broadcast use group_views;

    let mut out: Vec<Violation> = Vec::new();
    let mut part = wide_signal(input);
    out.append(&mut part);
    let mut part = duplicate_signal_name(input);
    out.append(&mut part);
    out
}

/// Some signal has this name.
pub open spec fn signal_named(input: &Input, name: Seq<char>) -> bool {
    exists|i: int|
        #![trigger input.signals@[i]]
        0 <= i < input.signals@.len() && ({
            let sig = &input.signals@[i];
            same_name(sig.name@, name)
        })
}

pub fn is_signal_name(input: &Input, name: &str) -> (r: bool)
    ensures
        r == signal_named(input, name@),
{
    let mut i: usize = 0;
    while i < input.signals.len()
        invariant
            i <= input.signals@.len(),
            forall|j: int|
                #![trigger input.signals@[j]]
                0 <= j < i ==> !({
                    let sig = &input.signals@[j];
                    same_name(sig.name@, name@)
                }),
        decreases input.signals@.len() - i,
    {
        let sig = &input.signals[i];
        if same(sig.name.as_str(), name) {
            return true;
        }
        i += 1;
    }
    false
}

/// Some port has this name.
pub open spec fn port_named(input: &Input, name: Seq<char>) -> bool {
    exists|i: int|
        #![trigger input.ports@[i]]
        0 <= i < input.ports@.len() && ({
            let port = &input.ports@[i];
            same_name(port.name@, name)
        })
}

pub fn is_port_name(input: &Input, name: &str) -> (r: bool)
    ensures
        r == port_named(input, name@),
{
    let mut i: usize = 0;
    while i < input.ports.len()
        invariant
            i <= input.ports@.len(),
            forall|j: int|
                #![trigger input.ports@[j]]
                0 <= j < i ==> !({
                    let port = &input.ports@[j];
                    same_name(port.name@, name@)
                }),
        decreases input.ports@.len() - i,
    {
        let port = &input.ports[i];
        if same(port.name.as_str(), name) {
            return true;
        }
        i += 1;
    }
    false
}

/// Some type has this name.
pub open spec fn type_named(input: &Input, name: Seq<char>) -> bool {
    exists|i: int|
        #![trigger input.types@[i]]
        0 <= i < input.types@.len() && ({
            let t = &input.types@[i];
            same_name(t.name@, name)
        })
}

pub fn is_type_name(input: &Input, name: &str) -> (r: bool)
    ensures
        r == type_named(input, name@),
{
    let mut i: usize = 0;
    while i < input.types.len()
        invariant
            i <= input.types@.len(),
            forall|j: int|
                #![trigger input.types@[j]]
                0 <= j < i ==> !({
                    let t = &input.types@[j];
                    same_name(t.name@, name@)
                }),
        decreases input.types@.len() - i,
    {
        let t = &input.types[i];
        if same(t.name.as_str(), name) {
            return true;
        }
        i += 1;
    }
    false
}

/// Some subtype has this name.
pub open spec fn subtype_named(input: &Input, name: Seq<char>) -> bool {
    exists|i: int|
        #![trigger input.subtypes@[i]]
        0 <= i < input.subtypes@.len() && ({
            let st = &input.subtypes@[i];
            same_name(st.name@, name)
        })
}

pub fn is_subtype_name(input: &Input, name: &str) -> (r: bool)
    ensures
        r == subtype_named(input, name@),
{
    let mut i: usize = 0;
    while i < input.subtypes.len()
        invariant
            i <= input.subtypes@.len(),
            forall|j: int|
                #![trigger input.subtypes@[j]]
                0 <= j < i ==> !({
                    let st = &input.subtypes@[j];
                    same_name(st.name@, name@)
                }),
        decreases input.subtypes@.len() - i,
    {
        let st = &input.subtypes[i];
        if same(st.name.as_str(), name) {
            return true;
        }
        i += 1;
    }
    false
}

/// Some function has this name.
pub open spec fn function_named(input: &Input, name: Seq<char>) -> bool {
    exists|i: int|
        #![trigger input.functions@[i]]
        0 <= i < input.functions@.len() && ({
            let func = &input.functions@[i];
            same_name(func.name@, name)
        })
}

pub fn is_function_name(input: &Input, name: &str) -> (r: bool)
    ensures
        r == function_named(input, name@),
{
    let mut i: usize = 0;
    while i < input.functions.len()
        invariant
            i <= input.functions@.len(),
            forall|j: int|
                #![trigger input.functions@[j]]
                0 <= j < i ==> !({
                    let func = &input.functions@[j];
                    same_name(func.name@, name@)
                }),
        decreases input.functions@.len() - i,
    {
        let func = &input.functions[i];
        if same(func.name.as_str(), name) {
            return true;
        }
        i += 1;
    }
    false
}

/// Some procedure has this name.
pub open spec fn procedure_named(input: &Input, name: Seq<char>) -> bool {
    exists|i: int|
        #![trigger input.procedures@[i]]
        0 <= i < input.procedures@.len() && ({
            let p = &input.procedures@[i];
            same_name(p.name@, name)
        })
}

pub fn is_procedure_name(input: &Input, name: &str) -> (r: bool)
    ensures
        r == procedure_named(input, name@),
{
    let mut i: usize = 0;
    while i < input.procedures.len()
        invariant
            i <= input.procedures@.len(),
            forall|j: int|
                #![trigger input.procedures@[j]]
                0 <= j < i ==> !({
                    let p = &input.procedures@[j];
                    same_name(p.name@, name@)
                }),
        decreases input.procedures@.len() - i,
    {
        let p = &input.procedures[i];
        if same(p.name.as_str(), name) {
            return true;
        }
        i += 1;
    }
    false
}

/// The process declares a variable of this name.
pub open spec fn variable_in(proc: &Process, name: Seq<char>) -> bool {
    exists|i: int|
        #![trigger proc.variables@[i]]
        0 <= i < proc.variables@.len() && ({
            let var = &proc.variables@[i];
            same_name(var.name@, name)
        })
}

pub fn declares_variable(proc: &Process, name: &str) -> (r: bool)
    ensures
        r == variable_in(proc, name@),
{
    let mut i: usize = 0;
    while i < proc.variables.len()
        invariant
            i <= proc.variables@.len(),
            forall|j: int|
                #![trigger proc.variables@[j]]
                0 <= j < i ==> !({
                    let var = &proc.variables@[j];
                    same_name(var.name@, name@)
                }),
        decreases proc.variables@.len() - i,
    {
        let var = &proc.variables[i];
        if same(var.name.as_str(), name) {
            return true;
        }
        i += 1;
    }
    false
}

/// Some process declares a variable of this name.
pub open spec fn variable_named(input: &Input, name: Seq<char>) -> bool {
    exists|i: int|
        #![trigger input.processes@[i]]
        0 <= i < input.processes@.len() && ({
            let proc = &input.processes@[i];
            variable_in(proc, name)
        })
}

pub fn is_variable_name(input: &Input, name: &str) -> (r: bool)
    ensures
        r == variable_named(input, name@),
{
    let mut i: usize = 0;
    while i < input.processes.len()
        invariant
            i <= input.processes@.len(),
            forall|j: int|
                #![trigger input.processes@[j]]
                0 <= j < i ==> !({
                    let proc = &input.processes@[j];
                    variable_in(proc, name@)
                }),
        decreases input.processes@.len() - i,
    {
        let proc = &input.processes[i];
        if declares_variable(proc, name) {
            return true;
        }
        i += 1;
    }
    false
}

/// The list holds a generic of this name.
pub open spec fn generic_in(generics: &Vec<GenericDecl>, name: Seq<char>) -> bool {
    exists|i: int|
        #![trigger generics@[i]]
        0 <= i < generics@.len() && ({
            let g = &generics@[i];
            same_name(g.name@, name)
        })
}

pub fn lists_generic(generics: &Vec<GenericDecl>, name: &str) -> (r: bool)
    ensures
        r == generic_in(generics, name@),
{
    let mut i: usize = 0;
    while i < generics.len()
        invariant
            i <= generics@.len(),
            forall|j: int|
                #![trigger generics@[j]]
                0 <= j < i ==> !({
                    let g = &generics@[j];
                    same_name(g.name@, name@)
                }),
        decreases generics@.len() - i,
    {
        let g = &generics[i];
        if same(g.name.as_str(), name) {
            return true;
        }
        i += 1;
    }
    false
}

/// Some entity has a generic of this name.
pub open spec fn entity_generic_named(input: &Input, name: Seq<char>) -> bool {
    exists|i: int|
        #![trigger input.entities@[i]]
        0 <= i < input.entities@.len() && ({
            let entity = &input.entities@[i];
            generic_in(&entity.generics, name)
        })
}

pub fn is_entity_generic(input: &Input, name: &str) -> (r: bool)
    ensures
        r == entity_generic_named(input, name@),
{
    let mut i: usize = 0;
    while i < input.entities.len()
        invariant
            i <= input.entities@.len(),
            forall|j: int|
                #![trigger input.entities@[j]]
                0 <= j < i ==> !({
                    let entity = &input.entities@[j];
                    generic_in(&entity.generics, name@)
                }),
        decreases input.entities@.len() - i,
    {
        let entity = &input.entities[i];
        if lists_generic(&entity.generics, name) {
            return true;
        }
        i += 1;
    }
    false
}

/// Some component has a generic of this name.
pub open spec fn component_generic_named(input: &Input, name: Seq<char>) -> bool {
    exists|i: int|
        #![trigger input.components@[i]]
        0 <= i < input.components@.len() && ({
            let comp = &input.components@[i];
            generic_in(&comp.generics, name)
        })
}

pub fn is_component_generic(input: &Input, name: &str) -> (r: bool)
    ensures
        r == component_generic_named(input, name@),
{
    let mut i: usize = 0;
    while i < input.components.len()
        invariant
            i <= input.components@.len(),
            forall|j: int|
                #![trigger input.components@[j]]
                0 <= j < i ==> !({
                    let comp = &input.components@[j];
                    generic_in(&comp.generics, name@)
                }),
        decreases input.components@.len() - i,
    {
        let comp = &input.components[i];
        if lists_generic(&comp.generics, name) {
            return true;
        }
        i += 1;
    }
    false
}

/// The name is declared somewhere: as a signal, port, constant, enumeration
/// literal, type, subtype, function, procedure, shared variable, variable or
/// generic.
pub open spec fn declared_identifier(input: &Input, name: Seq<char>) -> bool {
    signal_named(input, name) || port_named(input, name) || listed(input.constants@, name)
        || listed(input.enum_literals@, name) || type_named(input, name) || subtype_named(
        input,
        name,
    ) || function_named(input, name) || procedure_named(input, name) || listed(
        input.shared_variables@,
        name,
    ) || variable_named(input, name) || entity_generic_named(input, name)
        || component_generic_named(input, name)
}

pub fn is_declared_identifier(input: &Input, name: &str) -> (r: bool)
    ensures
        r == declared_identifier(input, name@),
{
    is_signal_name(input, name) || is_port_name(input, name) || is_constant(input, name)
        || is_enum_literal(input, name) || is_type_name(input, name) || is_subtype_name(input, name)
        || is_function_name(input, name) || is_procedure_name(input, name) || is_shared_variable(
        input,
        name,
    ) || is_variable_name(input, name) || is_entity_generic(input, name) || is_component_generic(
        input,
        name,
    )
}

/// A signal outside testbenches that nothing uses.
pub open spec fn unused_signal_hit(input: &Input, usage: UsageView, sig: &Signal) -> bool {
    !testbench_file(input, sig.file@) && !usage.uses(sig.name@)
}

pub open spec fn unused_signal_finding(input: &Input, usage: UsageView, sig: &Signal) -> ViolationView {
    ViolationView {
        rule: "unused_signal"@,
        severity: "warning"@,
        file: sig.file@,
        line: sig.line as nat,
        message: "Signal '"@ + sig.name@ + "' is declared but never used"@,
    }
}

/// The findings for the first `n` rows, in row order.
pub open spec fn unused_signal_upto(input: &Input, usage: UsageView, n: int) -> Seq<ViolationView>
    decreases n,
{
    if n <= 0 {
        Seq::empty()
    } else {
        let rest = unused_signal_upto(input, usage, n - 1);
        let sig = &input.signals@[n - 1];
        if unused_signal_hit(input, usage, sig) {
            rest.push(unused_signal_finding(input, usage, sig))
        } else {
            rest
        }
    }
}

pub open spec fn unused_signal_all(input: &Input, usage: UsageView) -> Seq<ViolationView> {
    unused_signal_upto(input, usage, input.signals@.len() as int)
}

pub fn unused_signal(input: &Input, usage: &SignalUsageIndex) -> (out: Vec<Violation>)
    ensures
        views(out@) == unused_signal_all(input, usage@),
{
    broadcast use group_views;

    let mut out: Vec<Violation> = Vec::new();
    let mut i: usize = 0;
    while i < input.signals.len()
        invariant
            i <= input.signals@.len(),
            views(out@) == unused_signal_upto(input, usage@, i as int),
        decreases input.signals@.len() - i,
    {
        let sig = &input.signals[i];
        if !file_in_testbench(input, sig.file.as_str()) && !usage.has_used(sig.name.as_str()) {
            let mut message = String::from_str("Signal '");
            message.append(sig.name.as_str());
            message.append("' is declared but never used");
            out.push(
                Violation {
                    rule: String::from_str("unused_signal"),
                    severity: String::from_str("warning"),
                    file: sig.file.clone(),
                    line: sig.line,
                    message,
                },
            );
        }
        i += 1;
    }
    out
}

/// A signal that is read and never assigned.
pub open spec fn undriven_signal_hit(input: &Input, usage: UsageView, sig: &Signal) -> bool {
    usage.reads(sig.name@) && !usage.assigns(sig.name@)
}

pub open spec fn undriven_signal_finding(input: &Input, usage: UsageView, sig: &Signal) -> ViolationView {
    ViolationView {
        rule: "undriven_signal"@,
        severity: "error"@,
        file: sig.file@,
        line: sig.line as nat,
        message: "Signal '"@ + sig.name@ + "' is read but never assigned (undriven)"@,
    }
}

/// The findings for the first `n` rows, in row order.
pub open spec fn undriven_signal_upto(input: &Input, usage: UsageView, n: int) -> Seq<ViolationView>
    decreases n,
{
    if n <= 0 {
        Seq::empty()
    } else {
        let rest = undriven_signal_upto(input, usage, n - 1);
        let sig = &input.signals@[n - 1];
        if undriven_signal_hit(input, usage, sig) {
            rest.push(undriven_signal_finding(input, usage, sig))
        } else {
            rest
        }
    }
}

pub open spec fn undriven_signal_all(input: &Input, usage: UsageView) -> Seq<ViolationView> {
    undriven_signal_upto(input, usage, input.signals@.len() as int)
}

pub fn undriven_signal(input: &Input, usage: &SignalUsageIndex) -> (out: Vec<Violation>)
    ensures
        views(out@) == undriven_signal_all(input, usage@),
{
    broadcast use group_views;

    let mut out: Vec<Violation> = Vec::new();
    let mut i: usize = 0;
    while i < input.signals.len()
        invariant
            i <= input.signals@.len(),
            views(out@) == undriven_signal_upto(input, usage@, i as int),
        decreases input.signals@.len() - i,
    {
        let sig = &input.signals[i];
        if usage.has_read(sig.name.as_str()) && !usage.has_assigned(sig.name.as_str()) {
            let mut message = String::from_str("Signal '");
            message.append(sig.name.as_str());
            message.append("' is read but never assigned (undriven)");
            out.push(
                Violation {
                    rule: String::from_str("undriven_signal"),
                    severity: String::from_str("error"),
                    file: sig.file.clone(),
                    line: sig.line,
                    message,
                },
            );
        }
        i += 1;
    }
    out
}

/// The signal lies in an architecture of a testbench entity.
pub open spec fn signal_in_testbench_arch(input: &Input, sig: &Signal) -> bool {
    exists|i: int|
        #![trigger input.architectures@[i]]
        0 <= i < input.architectures@.len() && ({
            let arch = &input.architectures@[i];
            same_name(arch.name@, base_arch(sig.in_entity@)) && testbench_name(arch.entity_name@)
        })
}

pub fn signal_in_testbench(input: &Input, sig: &Signal) -> (r: bool)
    ensures
        r == signal_in_testbench_arch(input, sig),
{
    let scope = base_arch_name(sig.in_entity.as_str());
    let mut i: usize = 0;
    while i < input.architectures.len()
        invariant
            i <= input.architectures@.len(),
            scope@ == base_arch(sig.in_entity@),
            forall|j: int|
                #![trigger input.architectures@[j]]
                0 <= j < i ==> !({
                    let arch = &input.architectures@[j];
                    same_name(arch.name@, base_arch(sig.in_entity@))
                        && testbench_name(arch.entity_name@)
                }),
        decreases input.architectures@.len() - i,
    {
        let arch = &input.architectures[i];
        if same(arch.name.as_str(), scope.as_str())
            && is_testbench_name(arch.entity_name.as_str()) {
            return true;
        }
        i += 1;
    }
    false
}

/// An unresolved scalar signal outside testbenches with more than one driver.
pub open spec fn multi_driven_signal_hit(input: &Input, sig: &Signal) -> bool {
    !signal_in_testbench_arch(input, sig) && !composite_type(input, sig.ty@)
        && !resolved_type(sig.ty@) && unresolved_scalar_type(sig.ty@)
        && driver_count_word(input, sig.name@, sig.in_entity@, sig.file@) > 1
}

pub open spec fn multi_driven_signal_finding(input: &Input, sig: &Signal) -> ViolationView {
    ViolationView {
        rule: "multi_driven_signal"@,
        severity: "warning"@,
        file: sig.file@,
        line: sig.line as nat,
        message: "Signal '"@ + sig.name@ + "' is assigned in "@
            + decimal(driver_count_word(input, sig.name@, sig.in_entity@, sig.file@))
            + " places (review for multi-driver)"@,
    }
}

/// The findings for the first `n` rows, in row order.
pub open spec fn multi_driven_signal_upto(input: &Input, n: int) -> Seq<ViolationView>
    decreases n,
{
    if n <= 0 {
        Seq::empty()
    } else {
        let rest = multi_driven_signal_upto(input, n - 1);
        let sig = &input.signals@[n - 1];
        if multi_driven_signal_hit(input, sig) {
            rest.push(multi_driven_signal_finding(input, sig))
        } else {
            rest
        }
    }
}

pub open spec fn multi_driven_signal_all(input: &Input) -> Seq<ViolationView> {
    multi_driven_signal_upto(input, input.signals@.len() as int)
}

pub fn multi_driven_signal(input: &Input) -> (out: Vec<Violation>)
    ensures
        views(out@) == multi_driven_signal_all(input),
{
    broadcast use group_views;

    let mut out: Vec<Violation> = Vec::new();
    let mut i: usize = 0;
    while i < input.signals.len()
        invariant
            i <= input.signals@.len(),
            views(out@) == multi_driven_signal_upto(input, i as int),
        decreases input.signals@.len() - i,
    {
        let sig = &input.signals[i];
        let drivers = count_drivers_in_entity(
            input,
            sig.name.as_str(),
            sig.in_entity.as_str(),
            sig.file.as_str(),
        );
        if !signal_in_testbench(input, sig) && !is_composite_type(input, sig.ty.as_str())
            && !is_resolved_type(sig.ty.as_str()) && is_unresolved_scalar_type(sig.ty.as_str())
            && drivers > 1 {
            let mut message = String::from_str("Signal '");
            message.append(sig.name.as_str());
            message.append("' is assigned in ");
            message.append(decimal_text(drivers).as_str());
            message.append(" places (review for multi-driver)");
            out.push(
                Violation {
                    rule: String::from_str("multi_driven_signal"),
                    severity: String::from_str("warning"),
                    file: sig.file.clone(),
                    line: sig.line,
                    message,
                },
            );
        }
        i += 1;
    }
    out
}

/// The undeclared names of all processes.
pub open spec fn undeclared_in_processes_upto(input: &Input, usage: UsageView, n: int) -> Seq<ViolationView>
    decreases n,
{
    if n <= 0 {
        Seq::empty()
    } else {
        let rest = undeclared_in_processes_upto(input, usage, n - 1);
        let proc = &input.processes@[n - 1];
        rest + undeclared_in_process_all(input, usage, proc)
    }
}

pub open spec fn undeclared_in_processes_all(input: &Input, usage: UsageView) -> Seq<ViolationView> {
    undeclared_in_processes_upto(input, usage, input.processes@.len() as int)
}

pub fn undeclared_in_processes(input: &Input, usage: &SignalUsageIndex) -> (out: Vec<Violation>)
    ensures
        views(out@) == undeclared_in_processes_all(input, usage@),
{
    broadcast use group_views;

    let mut out: Vec<Violation> = Vec::new();
    let mut i: usize = 0;
    while i < input.processes.len()
        invariant
            i <= input.processes@.len(),
            views(out@) == undeclared_in_processes_upto(input, usage@, i as int),
        decreases input.processes@.len() - i,
    {
        let proc = &input.processes[i];
        let mut part = undeclared_in_process(input, usage, proc);
        out.append(&mut part);
        i += 1;
    }
    out
}

/// A name that the process reads and nothing declares.
pub open spec fn undeclared_process_reads_hit(input: &Input, usage: UsageView, proc: &Process, name: &String) -> bool {
    !skip_name(input, name@)
        && !skips_undeclared_read(input, usage, proc.file@, proc.in_arch@, name@)
        && !declared_identifier(input, name@)
}

pub open spec fn undeclared_process_reads_finding(input: &Input, usage: UsageView, proc: &Process, name: &String) -> ViolationView {
    ViolationView {
        rule: "undeclared_signal_usage"@,
        severity: "warning"@,
        file: proc.file@,
        line: proc.line as nat,
        message: "Signal '"@ + name@ + "' is read but not declared in this design unit"@,
    }
}

/// The findings for the first `n` rows, in row order.
pub open spec fn undeclared_process_reads_upto(input: &Input, usage: UsageView, proc: &Process, n: int) -> Seq<ViolationView>
    decreases n,
{
    if n <= 0 {
        Seq::empty()
    } else {
        let rest = undeclared_process_reads_upto(input, usage, proc, n - 1);
        let name = &proc.read_signals@[n - 1];
        if undeclared_process_reads_hit(input, usage, proc, name) {
            rest.push(undeclared_process_reads_finding(input, usage, proc, name))
        } else {
            rest
        }
    }
}

pub open spec fn undeclared_process_reads_all(input: &Input, usage: UsageView, proc: &Process) -> Seq<ViolationView> {
    undeclared_process_reads_upto(input, usage, proc, proc.read_signals@.len() as int)
}

pub fn undeclared_process_reads(input: &Input, usage: &SignalUsageIndex, proc: &Process) -> (out: Vec<Violation>)
    ensures
        views(out@) == undeclared_process_reads_all(input, usage@, proc),
{
    broadcast use group_views;

    let mut out: Vec<Violation> = Vec::new();
    let mut i: usize = 0;
    while i < proc.read_signals.len()
        invariant
            i <= proc.read_signals@.len(),
            views(out@) == undeclared_process_reads_upto(input, usage@, proc, i as int),
        decreases proc.read_signals@.len() - i,
    {
        let name = &proc.read_signals[i];
        if !is_skip_name(input, name.as_str())
           
               
                    && !skip_undeclared_read(input, usage, proc.file.as_str(), proc.in_arch.as_str(), name.as_str())
            && !is_declared_identifier(input, name.as_str()) {
            let mut message = String::from_str("Signal '");
            message.append(name.as_str());
            message.append("' is read but not declared in this design unit");
            out.push(
                Violation {
                    rule: String::from_str("undeclared_signal_usage"),
                    severity: String::from_str("warning"),
                    file: proc.file.clone(),
                    line: proc.line,
                    message,
                },
            );
        }
        i += 1;
    }
    out
}

/// A name that the process assigns and nothing declares.
pub open spec fn undeclared_process_writes_hit(input: &Input, proc: &Process, name: &String) -> bool {
    !skip_name(input, name@) && !skips_undeclared_write(input, proc.in_arch@)
        && !declared_identifier(input, name@)
}

pub open spec fn undeclared_process_writes_finding(input: &Input, proc: &Process, name: &String) -> ViolationView {
    ViolationView {
        rule: "undeclared_signal_usage"@,
        severity: "warning"@,
        file: proc.file@,
        line: proc.line as nat,
        message: "Signal '"@ + name@ + "' is assigned but not declared in this design unit"@,
    }
}

/// The findings for the first `n` rows, in row order.
pub open spec fn undeclared_process_writes_upto(input: &Input, proc: &Process, n: int) -> Seq<ViolationView>
    decreases n,
{
    if n <= 0 {
        Seq::empty()
    } else {
        let rest = undeclared_process_writes_upto(input, proc, n - 1);
        let name = &proc.assigned_signals@[n - 1];
        if undeclared_process_writes_hit(input, proc, name) {
            rest.push(undeclared_process_writes_finding(input, proc, name))
        } else {
            rest
        }
    }
}

pub open spec fn undeclared_process_writes_all(input: &Input, proc: &Process) -> Seq<ViolationView> {
    undeclared_process_writes_upto(input, proc, proc.assigned_signals@.len() as int)
}

pub fn undeclared_process_writes(input: &Input, proc: &Process) -> (out: Vec<Violation>)
    ensures
        views(out@) == undeclared_process_writes_all(input, proc),
{
    broadcast use group_views;

    let mut out: Vec<Violation> = Vec::new();
    let mut i: usize = 0;
    while i < proc.assigned_signals.len()
        invariant
            i <= proc.assigned_signals@.len(),
            views(out@) == undeclared_process_writes_upto(input, proc, i as int),
        decreases proc.assigned_signals@.len() - i,
    {
        let name = &proc.assigned_signals[i];
        if !is_skip_name(input, name.as_str())
            && !skip_undeclared_write(input, proc.in_arch.as_str())
            && !is_declared_identifier(input, name.as_str()) {
            let mut message = String::from_str("Signal '");
            message.append(name.as_str());
            message.append("' is assigned but not declared in this design unit");
            out.push(
                Violation {
                    rule: String::from_str("undeclared_signal_usage"),
                    severity: String::from_str("warning"),
                    file: proc.file.clone(),
                    line: proc.line,
                    message,
                },
            );
        }
        i += 1;
    }
    out
}

/// The undeclared names of all concurrent assignments.
pub open spec fn undeclared_in_statements_upto(input: &Input, usage: UsageView, n: int) -> Seq<ViolationView>
    decreases n,
{
    if n <= 0 {
        Seq::empty()
    } else {
        let rest = undeclared_in_statements_upto(input, usage, n - 1);
        let ca = &input.concurrent_assignments@[n - 1];
        rest + undeclared_in_statement_all(input, usage, ca)
    }
}

pub open spec fn undeclared_in_statements_all(input: &Input, usage: UsageView) -> Seq<ViolationView> {
    undeclared_in_statements_upto(input, usage, input.concurrent_assignments@.len() as int)
}

pub fn undeclared_in_statements(input: &Input, usage: &SignalUsageIndex) -> (out: Vec<Violation>)
    ensures
        views(out@) == undeclared_in_statements_all(input, usage@),
{
    broadcast use group_views;

    let mut out: Vec<Violation> = Vec::new();
    let mut i: usize = 0;
    while i < input.concurrent_assignments.len()
        invariant
            i <= input.concurrent_assignments@.len(),
            views(out@) == undeclared_in_statements_upto(input, usage@, i as int),
        decreases input.concurrent_assignments@.len() - i,
    {
        let ca = &input.concurrent_assignments[i];
        let mut part = undeclared_in_statement(input, usage, ca);
        out.append(&mut part);
        i += 1;
    }
    out
}

/// A name that the assignment reads and nothing declares.
pub open spec fn undeclared_statement_reads_hit(input: &Input, usage: UsageView, ca: &ConcurrentAssignment, name: &String) -> bool {
    !skip_name(input, name@) && !skips_undeclared_read(input, usage, ca.file@, ca.in_arch@, name@)
        && !declared_identifier(input, name@)
}

pub open spec fn undeclared_statement_reads_finding(input: &Input, usage: UsageView, ca: &ConcurrentAssignment, name: &String) -> ViolationView {
    ViolationView {
        rule: "undeclared_signal_usage"@,
        severity: "warning"@,
        file: ca.file@,
        line: ca.line as nat,
        message: "Signal '"@ + name@ + "' is read but not declared in this design unit"@,
    }
}

/// The findings for the first `n` rows, in row order.
pub open spec fn undeclared_statement_reads_upto(input: &Input, usage: UsageView, ca: &ConcurrentAssignment, n: int) -> Seq<ViolationView>
    decreases n,
{
    if n <= 0 {
        Seq::empty()
    } else {
        let rest = undeclared_statement_reads_upto(input, usage, ca, n - 1);
        let name = &ca.read_signals@[n - 1];
        if undeclared_statement_reads_hit(input, usage, ca, name) {
            rest.push(undeclared_statement_reads_finding(input, usage, ca, name))
        } else {
            rest
        }
    }
}

pub open spec fn undeclared_statement_reads_all(input: &Input, usage: UsageView, ca: &ConcurrentAssignment) -> Seq<ViolationView> {
    undeclared_statement_reads_upto(input, usage, ca, ca.read_signals@.len() as int)
}

pub fn undeclared_statement_reads(input: &Input, usage: &SignalUsageIndex, ca: &ConcurrentAssignment) -> (out: Vec<Violation>)
    ensures
        views(out@) == undeclared_statement_reads_all(input, usage@, ca),
{
    broadcast use group_views;

    let mut out: Vec<Violation> = Vec::new();
    let mut i: usize = 0;
    while i < ca.read_signals.len()
        invariant
            i <= ca.read_signals@.len(),
            views(out@) == undeclared_statement_reads_upto(input, usage@, ca, i as int),
        decreases ca.read_signals@.len() - i,
    {
        let name = &ca.read_signals[i];
        if !is_skip_name(input, name.as_str())
           
               
                    && !skip_undeclared_read(input, usage, ca.file.as_str(), ca.in_arch.as_str(), name.as_str())
            && !is_declared_identifier(input, name.as_str()) {
            let mut message = String::from_str("Signal '");
            message.append(name.as_str());
            message.append("' is read but not declared in this design unit");
            out.push(
                Violation {
                    rule: String::from_str("undeclared_signal_usage"),
                    severity: String::from_str("warning"),
                    file: ca.file.clone(),
                    line: ca.line,
                    message,
                },
            );
        }
        i += 1;
    }
    out
}

/// The first architecture with exactly this name.
pub open spec fn first_arch_called(input: &Input, name: Seq<char>, i: int) -> int
    decreases input.architectures@.len() - i,
{
    if i < 0 || i >= input.architectures@.len() {
        input.architectures@.len() as int
    } else if ({
        let arch = &input.architectures@[i];
        same_name(arch.name@, name)
    }) {
        i
    } else {
        first_arch_called(input, name, i + 1)
    }
}

pub fn find_arch(input: &Input, name: &str) -> (r: usize)
    ensures
        r == first_arch_called(input, name@, 0),
        r <= input.architectures@.len(),
{
    let mut i: usize = 0;
    while i < input.architectures.len()
        invariant
            i <= input.architectures@.len(),
            first_arch_called(input, name@, 0) == first_arch_called(input, name@, i as int),
        decreases input.architectures@.len() - i,
    {
        let arch = &input.architectures[i];
        if same(arch.name.as_str(), name) {
            return i;
        }
        i += 1;
    }
    i
}

/// The first architecture with exactly this name and file.
pub open spec fn first_arch_at(input: &Input, name: Seq<char>, file: Seq<char>, i: int) -> int
    decreases input.architectures@.len() - i,
{
    if i < 0 || i >= input.architectures@.len() {
        input.architectures@.len() as int
    } else if ({
        let arch = &input.architectures@[i];
        same_name(arch.name@, name) && arch.file@ == file
    }) {
        i
    } else {
        first_arch_at(input, name, file, i + 1)
    }
}

pub fn find_arch_at(input: &Input, name: &str, file: &str) -> (r: usize)
    ensures
        r == first_arch_at(input, name@, file@, 0),
        r <= input.architectures@.len(),
{
    let mut i: usize = 0;
    while i < input.architectures.len()
        invariant
            i <= input.architectures@.len(),
            first_arch_at(input, name@, file@, 0) == first_arch_at(input, name@, file@, i as int),
        decreases input.architectures@.len() - i,
    {
        let arch = &input.architectures[i];
        if same(arch.name.as_str(), name) && str_eq(arch.file.as_str(), file) {
            return i;
        }
        i += 1;
    }
    i
}

/// Some architecture of the statement serves the scope and lies in the file of the signal.
pub open spec fn serving_arch_at(input: &Input, ca: &ConcurrentAssignment, entity_name: Seq<char>, sig_file: Seq<char>) -> bool {
    exists|i: int|
        #![trigger input.architectures@[i]]
        0 <= i < input.architectures@.len() && ({
            let arch = &input.architectures@[i];
            same_name(arch.name@, ca.in_arch@) && arch_serves(arch, entity_name)
                && arch.file@ == ca.file@
                && arch.file@ == sig_file
        })
}

pub fn has_serving_arch(input: &Input, ca: &ConcurrentAssignment, entity_name: &str, sig_file: &str) -> (r: bool)
    ensures
        r == serving_arch_at(input, ca, entity_name@, sig_file@),
{
    let mut i: usize = 0;
    while i < input.architectures.len()
        invariant
            i <= input.architectures@.len(),
            forall|j: int|
                #![trigger input.architectures@[j]]
                0 <= j < i ==> !({
                    let arch = &input.architectures@[j];
                    same_name(arch.name@, ca.in_arch@) && arch_serves(arch, entity_name@)
                        && arch.file@ == ca.file@ && arch.file@ == sig_file@
                }),
        decreases input.architectures@.len() - i,
    {
        let arch = &input.architectures[i];
        if same(arch.name.as_str(), ca.in_arch.as_str()) && arch_matches_entity(arch, entity_name)
            && str_eq(arch.file.as_str(), ca.file.as_str())
            && str_eq(arch.file.as_str(), sig_file) {
            return true;
        }
        i += 1;
    }
    false
}

/// The first architecture with exactly this name implements the entity.
pub open spec fn arch_of_entity(input: &Input, arch_name: Seq<char>, entity: Seq<char>) -> bool {
    let a = first_arch_called(input, arch_name, 0);
    a < input.architectures@.len() && same_name(input.architectures@[a].entity_name@, entity)
}

pub fn is_arch_of_entity(input: &Input, arch_name: &str, entity: &str) -> (r: bool)
    ensures
        r == arch_of_entity(input, arch_name@, entity@),
{
    let a = find_arch(input, arch_name);
    a < input.architectures.len() && same(input.architectures[a].entity_name.as_str(), entity)
}

/// Every assignment to an input port from inside its own design, outside testbenches.
pub open spec fn input_port_driven_upto(input: &Input, n: int) -> Seq<ViolationView>
    decreases n,
{
    if n <= 0 {
        Seq::empty()
    } else {
        let rest = input_port_driven_upto(input, n - 1);
        let port = &input.ports@[n - 1];
        if same_name(port.direction@, "in"@) {
            rest + drivers_of_input_all(input, port)
        } else {
            rest
        }
    }
}

pub open spec fn input_port_driven_all(input: &Input) -> Seq<ViolationView> {
    input_port_driven_upto(input, input.ports@.len() as int)
}

pub fn input_port_driven(input: &Input) -> (out: Vec<Violation>)
    ensures
        views(out@) == input_port_driven_all(input),
{
    broadcast use group_views;

    let mut out: Vec<Violation> = Vec::new();
    let mut i: usize = 0;
    while i < input.ports.len()
        invariant
            i <= input.ports@.len(),
            views(out@) == input_port_driven_upto(input, i as int),
        decreases input.ports@.len() - i,
    {
        let port = &input.ports[i];
        if same(port.direction.as_str(), "in") {
            let mut part = drivers_of_input(input, port);
            out.append(&mut part);
        }
        i += 1;
    }
    out
}

/// A process of the port's design that assigns the port.
pub open spec fn process_drivers_of_input_hit(input: &Input, port: &Port, proc: &Process) -> bool {
    listed(proc.assigned_signals@, port.name@) && !testbench_file(input, proc.file@)
        && arch_of_entity(input, proc.in_arch@, port.in_entity@)
}

pub open spec fn process_drivers_of_input_finding(input: &Input, port: &Port, proc: &Process) -> ViolationView {
    ViolationView {
        rule: "input_port_driven"@,
        severity: "error"@,
        file: proc.file@,
        line: proc.line as nat,
        message: "Input port '"@ + port.name@ + "' is assigned in process '"@ + proc.label@
            + "' (illegal driver)"@,
    }
}

/// The findings for the first `n` rows, in row order.
pub open spec fn process_drivers_of_input_upto(input: &Input, port: &Port, n: int) -> Seq<ViolationView>
    decreases n,
{
    if n <= 0 {
        Seq::empty()
    } else {
        let rest = process_drivers_of_input_upto(input, port, n - 1);
        let proc = &input.processes@[n - 1];
        if process_drivers_of_input_hit(input, port, proc) {
            rest.push(process_drivers_of_input_finding(input, port, proc))
        } else {
            rest
        }
    }
}

pub open spec fn process_drivers_of_input_all(input: &Input, port: &Port) -> Seq<ViolationView> {
    process_drivers_of_input_upto(input, port, input.processes@.len() as int)
}

pub fn process_drivers_of_input(input: &Input, port: &Port) -> (out: Vec<Violation>)
    ensures
        views(out@) == process_drivers_of_input_all(input, port),
{
    broadcast use group_views;

    let mut out: Vec<Violation> = Vec::new();
    let mut i: usize = 0;
    while i < input.processes.len()
        invariant
            i <= input.processes@.len(),
            views(out@) == process_drivers_of_input_upto(input, port, i as int),
        decreases input.processes@.len() - i,
    {
        let proc = &input.processes[i];
        if signal_in_list(port.name.as_str(), proc.assigned_signals.as_slice())
            && !file_in_testbench(input, proc.file.as_str())
            && is_arch_of_entity(input, proc.in_arch.as_str(), port.in_entity.as_str()) {
            let mut message = String::from_str("Input port '");
            message.append(port.name.as_str());
            message.append("' is assigned in process '");
            message.append(proc.label.as_str());
            message.append("' (illegal driver)");
            out.push(
                Violation {
                    rule: String::from_str("input_port_driven"),
                    severity: String::from_str("error"),
                    file: proc.file.clone(),
                    line: proc.line,
                    message,
                },
            );
        }
        i += 1;
    }
    out
}

/// A concurrent assignment of the port's design that targets the port.
pub open spec fn statement_drivers_of_input_hit(input: &Input, port: &Port, ca: &ConcurrentAssignment) -> bool {
    same_name(ca.target@, port.name@) && !testbench_file(input, ca.file@)
        && arch_of_entity(input, ca.in_arch@, port.in_entity@)
}

pub open spec fn statement_drivers_of_input_finding(input: &Input, port: &Port, ca: &ConcurrentAssignment) -> ViolationView {
    ViolationView {
        rule: "input_port_driven"@,
        severity: "error"@,
        file: ca.file@,
        line: ca.line as nat,
        message: "Input port '"@ + port.name@
            + "' is driven by concurrent assignment (illegal driver)"@,
    }
}

/// The findings for the first `n` rows, in row order.
pub open spec fn statement_drivers_of_input_upto(input: &Input, port: &Port, n: int) -> Seq<ViolationView>
    decreases n,
{
    if n <= 0 {
        Seq::empty()
    } else {
        let rest = statement_drivers_of_input_upto(input, port, n - 1);
        let ca = &input.concurrent_assignments@[n - 1];
        if statement_drivers_of_input_hit(input, port, ca) {
            rest.push(statement_drivers_of_input_finding(input, port, ca))
        } else {
            rest
        }
    }
}

pub open spec fn statement_drivers_of_input_all(input: &Input, port: &Port) -> Seq<ViolationView> {
    statement_drivers_of_input_upto(input, port, input.concurrent_assignments@.len() as int)
}

pub fn statement_drivers_of_input(input: &Input, port: &Port) -> (out: Vec<Violation>)
    ensures
        views(out@) == statement_drivers_of_input_all(input, port),
{
    broadcast use group_views;

    let mut out: Vec<Violation> = Vec::new();
    let mut i: usize = 0;
    while i < input.concurrent_assignments.len()
        invariant
            i <= input.concurrent_assignments@.len(),
            views(out@) == statement_drivers_of_input_upto(input, port, i as int),
        decreases input.concurrent_assignments@.len() - i,
    {
        let ca = &input.concurrent_assignments[i];
        if same(ca.target.as_str(), port.name.as_str())
            && !file_in_testbench(input, ca.file.as_str())
            && is_arch_of_entity(input, ca.in_arch.as_str(), port.in_entity.as_str()) {
            let mut message = String::from_str("Input port '");
            message.append(port.name.as_str());
            message.append("' is driven by concurrent assignment (illegal driver)");
            out.push(
                Violation {
                    rule: String::from_str("input_port_driven"),
                    severity: String::from_str("error"),
                    file: ca.file.clone(),
                    line: ca.line,
                    message,
                },
            );
        }
        i += 1;
    }
    out
}

pub fn extract_vector_width(type_str: &str) -> (r: usize)
    ensures
        r == type_width(type_str@),
{
    extract_width(type_str)
}

/// A signal more than 128 bits wide.
pub open spec fn wide_signal_hit(input: &Input, sig: &Signal) -> bool {
    type_width(sig.ty@) > 128
}

pub open spec fn wide_signal_finding(input: &Input, sig: &Signal) -> ViolationView {
    ViolationView {
        rule: "wide_signal"@,
        severity: "info"@,
        file: sig.file@,
        line: sig.line as nat,
        message: "Signal '"@ + sig.name@ + "' is "@ + decimal(type_width(sig.ty@) as nat)
            + " bits wide - consider if this width is necessary"@,
    }
}

/// The findings for the first `n` rows, in row order.
pub open spec fn wide_signal_upto(input: &Input, n: int) -> Seq<ViolationView>
    decreases n,
{
    if n <= 0 {
        Seq::empty()
    } else {
        let rest = wide_signal_upto(input, n - 1);
        let sig = &input.signals@[n - 1];
        if wide_signal_hit(input, sig) {
            rest.push(wide_signal_finding(input, sig))
        } else {
            rest
        }
    }
}

pub open spec fn wide_signal_all(input: &Input) -> Seq<ViolationView> {
    wide_signal_upto(input, input.signals@.len() as int)
}

pub fn wide_signal(input: &Input) -> (out: Vec<Violation>)
    ensures
        views(out@) == wide_signal_all(input),
{
    broadcast use group_views;

    let mut out: Vec<Violation> = Vec::new();
    let mut i: usize = 0;
    while i < input.signals.len()
        invariant
            i <= input.signals@.len(),
            views(out@) == wide_signal_upto(input, i as int),
        decreases input.signals@.len() - i,
    {
        let sig = &input.signals[i];
        let width = extract_vector_width(sig.ty.as_str());
        if width > 128 {
            let mut message = String::from_str("Signal '");
            message.append(sig.name.as_str());
            message.append("' is ");
            message.append(decimal_text(width).as_str());
            message.append(" bits wide - consider if this width is necessary");
            out.push(
                Violation {
                    rule: String::from_str("wide_signal"),
                    severity: String::from_str("info"),
                    file: sig.file.clone(),
                    line: sig.line,
                    message,
                },
            );
        }
        i += 1;
    }
    out
}

/// Every pair of signals of one name in different scopes, unless the name is a common one.
pub open spec fn duplicate_signal_name_upto(input: &Input, n: int) -> Seq<ViolationView>
    decreases n,
{
    if n <= 0 {
        Seq::empty()
    } else {
        let rest = duplicate_signal_name_upto(input, n - 1);
        rest + duplicate_names_of_all(input, n - 1)
    }
}

pub open spec fn duplicate_signal_name_all(input: &Input) -> Seq<ViolationView> {
    duplicate_signal_name_upto(input, input.signals@.len() as int)
}

pub fn duplicate_signal_name(input: &Input) -> (out: Vec<Violation>)
    ensures
        views(out@) == duplicate_signal_name_all(input),
{
    broadcast use group_views;

    let mut out: Vec<Violation> = Vec::new();
    let mut i: usize = 0;
    while i < input.signals.len()
        invariant
            i <= input.signals@.len(),
            views(out@) == duplicate_signal_name_upto(input, i as int),
        decreases input.signals@.len() - i,
    {
        let mut part = duplicate_names_of(input, i);
        out.append(&mut part);
        i += 1;
    }
    out
}

/// A later signal of the same name in another scope.
pub open spec fn duplicate_names_of_hit(input: &Input, first: int, sig2: &Signal) -> bool {
    let sig1 = &input.signals@[first];
    same_name(sig1.name@, sig2.name@) && !same_name(sig1.in_entity@, sig2.in_entity@)
        && !common_signal_name(sig1.name@)
}

pub open spec fn duplicate_names_of_finding(input: &Input, first: int, sig2: &Signal) -> ViolationView {
    let sig1 = &input.signals@[first];
    ViolationView {
        rule: "duplicate_signal_name"@,
        severity: "info"@,
        file: sig1.file@,
        line: sig1.line as nat,
        message: "Signal '"@ + sig1.name@ + "' also exists in entity '"@ + sig2.in_entity@
            + "' - verify intentional"@,
    }
}

/// The findings that pair row `first` with the rows after it and before `n`.
pub open spec fn duplicate_names_of_upto(input: &Input, first: int, n: int) -> Seq<ViolationView>
    decreases n,
{
    if n <= first + 1 || n <= 0 {
        Seq::empty()
    } else {
        let rest = duplicate_names_of_upto(input, first, n - 1);
        let sig2 = &input.signals@[n - 1];
        if duplicate_names_of_hit(input, first, sig2) {
            rest.push(duplicate_names_of_finding(input, first, sig2))
        } else {
            rest
        }
    }
}

pub open spec fn duplicate_names_of_all(input: &Input, first: int) -> Seq<ViolationView> {
    duplicate_names_of_upto(input, first, input.signals@.len() as int)
}

pub fn duplicate_names_of(input: &Input, first: usize) -> (out: Vec<Violation>)
    requires
        first < input.signals@.len(),
    ensures
        views(out@) == duplicate_names_of_all(input, first as int),
{
    broadcast use group_views;

    let mut out: Vec<Violation> = Vec::new();
    let sig1 = &input.signals[first];
    let total: usize = input.signals.len();
    let mut j: usize = first + 1;
    while j < total
        invariant
            first < j <= input.signals@.len(),
            total == input.signals@.len(),
            *sig1 == input.signals@[first as int],
            views(out@) == duplicate_names_of_upto(input, first as int, j as int),
        decreases input.signals@.len() - j,
    {
        let sig2 = &input.signals[j];
        if same(sig1.name.as_str(), sig2.name.as_str())
            && !same(sig1.in_entity.as_str(), sig2.in_entity.as_str())
            && !is_common_signal_name(sig1.name.as_str()) {
            let mut message = String::from_str("Signal '");
            message.append(sig1.name.as_str());
            message.append("' also exists in entity '");
            message.append(sig2.in_entity.as_str());
            message.append("' - verify intentional");
            out.push(
                Violation {
                    rule: String::from_str("duplicate_signal_name"),
                    severity: String::from_str("info"),
                    file: sig1.file.clone(),
                    line: sig1.line,
                    message,
                },
            );
        }
        j += 1;
    }
    out
}

/// Not an enumeration literal, not a constant and not a shared variable.
pub open spec fn plain_signal(input: &Input, name: Seq<char>) -> bool {
    !listed(input.enum_literals@, name) && !listed(input.constants@, name) && !listed(
        input.shared_variables@,
        name,
    )
}

pub fn is_actual_signal(input: &Input, name: &str) -> (r: bool)
    ensures
        r == plain_signal(input, name@),
{
    !is_enum_literal(input, name) && !is_constant(input, name) && !is_shared_variable(input, name)
}

pub fn is_enum_literal(input: &Input, name: &str) -> (r: bool)
    ensures
        r == listed(input.enum_literals@, name@),
{
    signal_in_list(name, input.enum_literals.as_slice())
}

pub fn is_constant(input: &Input, name: &str) -> (r: bool)
    ensures
        r == listed(input.constants@, name@),
{
    signal_in_list(name, input.constants.as_slice())
}

/// The names of a list that are plain signals, in lower case and in list
/// order, up to index `n`.
pub open spec fn kept_names_upto(input: &Input, list: Seq<String>, n: int) -> Seq<Seq<char>>
    decreases n,
{
    if n <= 0 {
        Seq::empty()
    } else if plain_signal(input, list[n - 1]@) {
        kept_names_upto(input, list, n - 1).push(lower(list[n - 1]@))
    } else {
        kept_names_upto(input, list, n - 1)
    }
}

pub open spec fn kept_names(input: &Input, list: Seq<String>) -> Seq<Seq<char>> {
    kept_names_upto(input, list, list.len() as int)
}

/// One name, in lower case, if it is a plain signal and `wanted` holds.
pub open spec fn kept_name(input: &Input, name: Seq<char>, wanted: bool) -> Seq<Seq<char>> {
    if wanted && plain_signal(input, name) {
        seq![lower(name)]
    } else {
        Seq::empty()
    }
}

/// The names that the first `n` processes read.
pub open spec fn process_reads_upto(input: &Input, n: int) -> Seq<Seq<char>>
    decreases n,
{
    if n <= 0 {
        Seq::empty()
    } else {
        process_reads_upto(input, n - 1) + kept_names(input, input.processes@[n - 1].read_signals@)
    }
}

/// The names that the first `n` processes assign.
pub open spec fn process_assigns_upto(input: &Input, n: int) -> Seq<Seq<char>>
    decreases n,
{
    if n <= 0 {
        Seq::empty()
    } else {
        process_assigns_upto(input, n - 1) + kept_names(
            input,
            input.processes@[n - 1].assigned_signals@,
        )
    }
}

/// The names that the first `n` concurrent assignments read.
pub open spec fn concurrent_reads_upto(input: &Input, n: int) -> Seq<Seq<char>>
    decreases n,
{
    if n <= 0 {
        Seq::empty()
    } else {
        concurrent_reads_upto(input, n - 1) + kept_names(
            input,
            input.concurrent_assignments@[n - 1].read_signals@,
        )
    }
}

/// The targets of the first `n` concurrent assignments.
pub open spec fn concurrent_assigns_upto(input: &Input, n: int) -> Seq<Seq<char>>
    decreases n,
{
    if n <= 0 {
        Seq::empty()
    } else {
        concurrent_assigns_upto(input, n - 1) + kept_name(
            input,
            input.concurrent_assignments@[n - 1].target@,
            true,
        )
    }
}

/// The names that the first `n` usage records mark as read.
pub open spec fn usage_reads_upto(input: &Input, n: int) -> Seq<Seq<char>>
    decreases n,
{
    if n <= 0 {
        Seq::empty()
    } else {
        let u = &input.signal_usages@[n - 1];
        usage_reads_upto(input, n - 1) + kept_name(input, u.signal@, u.is_read)
    }
}

/// The names that the first `n` usage records mark as written or connected.
pub open spec fn usage_assigns_upto(input: &Input, n: int) -> Seq<Seq<char>>
    decreases n,
{
    if n <= 0 {
        Seq::empty()
    } else {
        let u = &input.signal_usages@[n - 1];
        usage_assigns_upto(input, n - 1) + kept_name(
            input,
            u.signal@,
            u.is_written || u.in_port_map,
        )
    }
}

/// The names that the first `n` usage records mark as connected in a port map.
pub open spec fn usage_connects_upto(input: &Input, n: int) -> Seq<Seq<char>>
    decreases n,
{
    if n <= 0 {
        Seq::empty()
    } else {
        let u = &input.signal_usages@[n - 1];
        usage_connects_upto(input, n - 1) + kept_name(input, u.signal@, u.in_port_map)
    }
}

/// Every name that is read: by processes, then by concurrent assignments,
/// then by usage records.
pub open spec fn read_names(input: &Input) -> Seq<Seq<char>> {
    process_reads_upto(input, input.processes@.len() as int) + concurrent_reads_upto(
        input,
        input.concurrent_assignments@.len() as int,
    ) + usage_reads_upto(input, input.signal_usages@.len() as int)
}

/// Every name that is assigned: by processes, then by concurrent
/// assignments, then by usage records.
pub open spec fn assigned_names(input: &Input) -> Seq<Seq<char>> {
    process_assigns_upto(input, input.processes@.len() as int) + concurrent_assigns_upto(
        input,
        input.concurrent_assignments@.len() as int,
    ) + usage_assigns_upto(input, input.signal_usages@.len() as int)
}

/// Every name that a usage record marks as connected in a port map.
pub open spec fn connected_names(input: &Input) -> Seq<Seq<char>> {
    usage_connects_upto(input, input.signal_usages@.len() as int)
}

/// Which names are read, which are assigned and which are used at all, each
/// name in lower case.  Built once per evaluation and shared by the rules.
pub struct SignalUsageIndex {
    pub used: Vec<String>,
    pub read: Vec<String>,
    pub assigned: Vec<String>,
}

/// The mathematical content of a [`SignalUsageIndex`].
pub struct UsageView {
    pub used: Seq<Seq<char>>,
    pub read: Seq<Seq<char>>,
    pub assigned: Seq<Seq<char>>,
}

impl View for SignalUsageIndex {
    type V = UsageView;

    open spec fn view(&self) -> UsageView {
        UsageView { used: texts(self.used@), read: texts(self.read@), assigned: texts(self.assigned@) }
    }
}

impl UsageView {
    /// The name is read somewhere.
    pub open spec fn reads(&self, name: Seq<char>) -> bool {
        self.read.contains(lower(name))
    }

    /// The name is assigned somewhere.
    pub open spec fn assigns(&self, name: Seq<char>) -> bool {
        self.assigned.contains(lower(name))
    }

    /// The name is read, assigned or connected somewhere.
    pub open spec fn uses(&self, name: Seq<char>) -> bool {
        self.reads(name) || self.assigns(name) || self.used.contains(lower(name))
    }
}

/// The usage index of a fact database.
pub open spec fn usage_of(input: &Input) -> UsageView {
    UsageView {
        used: connected_names(input),
        read: read_names(input),
        assigned: assigned_names(input),
    }
}

fn keep_names(input: &Input, list: &Vec<String>, out: &mut Vec<String>)
    ensures
        texts(final(out)@) == texts(old(out)@) + kept_names(input, list@),
{
    broadcast use group_texts;

    let ghost start = texts(out@);
    let mut i: usize = 0;
    proof {
        assert(start + kept_names_upto(input, list@, 0) =~= start);
    }
    while i < list.len()
        invariant
            i <= list@.len(),
            texts(out@) == start + kept_names_upto(input, list@, i as int),
        decreases list@.len() - i,
    {
        if is_actual_signal(input, list[i].as_str()) {
            proof {
                let prev = kept_names_upto(input, list@, i as int);
                assert((start + prev).push(lower(list@[i as int]@)) =~= start + prev.push(
                    lower(list@[i as int]@),
                ));
            }
            out.push(to_lower(list[i].as_str()));
        }
        i += 1;
    }
}

fn keep_name(input: &Input, name: &str, wanted: bool, out: &mut Vec<String>)
    ensures
        texts(final(out)@) == texts(old(out)@) + kept_name(input, name@, wanted),
{
    broadcast use group_texts;

    if wanted && is_actual_signal(input, name) {
        proof {
            assert(texts(out@).push(lower(name@)) =~= texts(out@) + seq![lower(name@)]);
        }
        out.push(to_lower(name));
    } else {
        proof {
            assert(texts(out@) + Seq::<Seq<char>>::empty() =~= texts(out@));
        }
    }
}

impl SignalUsageIndex {
    pub fn from_input(input: &Input) -> (index: SignalUsageIndex)
        ensures
            index@ == usage_of(input),
    {
        broadcast use group_texts;

        let mut read: Vec<String> = Vec::new();
        let mut assigned: Vec<String> = Vec::new();
        let mut used: Vec<String> = Vec::new();
        let mut i: usize = 0;
        while i < input.processes.len()
            invariant
                i <= input.processes@.len(),
                texts(read@) == process_reads_upto(input, i as int),
                texts(assigned@) == process_assigns_upto(input, i as int),
            decreases input.processes@.len() - i,
        {
            keep_names(input, &input.processes[i].read_signals, &mut read);
            keep_names(input, &input.processes[i].assigned_signals, &mut assigned);
            i += 1;
        }
        let ghost process_reads = texts(read@);
        let ghost process_assigns = texts(assigned@);
        let mut k: usize = 0;
        proof {
            assert(process_reads + concurrent_reads_upto(input, 0) =~= process_reads);
            assert(process_assigns + concurrent_assigns_upto(input, 0) =~= process_assigns);
        }
        while k < input.concurrent_assignments.len()
            invariant
                k <= input.concurrent_assignments@.len(),
                texts(read@) == process_reads + concurrent_reads_upto(input, k as int),
                texts(assigned@) == process_assigns + concurrent_assigns_upto(input, k as int),
            decreases input.concurrent_assignments@.len() - k,
        {
            let ca = &input.concurrent_assignments[k];
            proof {
                let r = concurrent_reads_upto(input, k as int);
                let a = concurrent_assigns_upto(input, k as int);
                assert((process_reads + r) + kept_names(input, ca.read_signals@) =~= process_reads
                    + (r + kept_names(input, ca.read_signals@)));
                assert((process_assigns + a) + kept_name(input, ca.target@, true)
                    =~= process_assigns + (a + kept_name(input, ca.target@, true)));
            }
            keep_names(input, &ca.read_signals, &mut read);
            keep_name(input, ca.target.as_str(), true, &mut assigned);
            k += 1;
        }
        let ghost statement_reads = texts(read@);
        let ghost statement_assigns = texts(assigned@);
        let mut m: usize = 0;
        proof {
            assert(statement_reads + usage_reads_upto(input, 0) =~= statement_reads);
            assert(statement_assigns + usage_assigns_upto(input, 0) =~= statement_assigns);
        }
        while m < input.signal_usages.len()
            invariant
                m <= input.signal_usages@.len(),
                texts(read@) == statement_reads + usage_reads_upto(input, m as int),
                texts(assigned@) == statement_assigns + usage_assigns_upto(input, m as int),
                texts(used@) == usage_connects_upto(input, m as int),
            decreases input.signal_usages@.len() - m,
        {
            let u = &input.signal_usages[m];
            proof {
                let r = usage_reads_upto(input, m as int);
                let a = usage_assigns_upto(input, m as int);
                assert((statement_reads + r) + kept_name(input, u.signal@, u.is_read)
                    =~= statement_reads + (r + kept_name(input, u.signal@, u.is_read)));
                assert((statement_assigns + a) + kept_name(
                    input,
                    u.signal@,
                    u.is_written || u.in_port_map,
                ) =~= statement_assigns + (a + kept_name(
                    input,
                    u.signal@,
                    u.is_written || u.in_port_map,
                )));
            }
            keep_name(input, u.signal.as_str(), u.is_read, &mut read);
            keep_name(input, u.signal.as_str(), u.is_written || u.in_port_map, &mut assigned);
            keep_name(input, u.signal.as_str(), u.in_port_map, &mut used);
            m += 1;
        }
        SignalUsageIndex { used, read, assigned }
    }

    pub fn insert_read(&mut self, name: &str)
        ensures
            texts(final(self).read@) == texts(old(self).read@).push(lower(name@)),
            final(self).assigned == old(self).assigned,
            final(self).used == old(self).used,
    {
        broadcast use group_texts;

        self.read.push(to_lower(name));
    }

    pub fn insert_assigned(&mut self, name: &str)
        ensures
            texts(final(self).assigned@) == texts(old(self).assigned@).push(lower(name@)),
            final(self).read == old(self).read,
            final(self).used == old(self).used,
    {
        broadcast use group_texts;

        self.assigned.push(to_lower(name));
    }

    pub fn insert_used(&mut self, name: &str)
        ensures
            texts(final(self).used@) == texts(old(self).used@).push(lower(name@)),
            final(self).read == old(self).read,
            final(self).assigned == old(self).assigned,
    {
        broadcast use group_texts;

        self.used.push(to_lower(name));
    }

    pub fn has_read(&self, name: &str) -> (r: bool)
        ensures
            r == self@.reads(name@),
    {
        list_has(&self.read, to_lower(name).as_str())
    }

    pub fn has_assigned(&self, name: &str) -> (r: bool)
        ensures
            r == self@.assigns(name@),
    {
        list_has(&self.assigned, to_lower(name).as_str())
    }

    pub fn has_used(&self, name: &str) -> (r: bool)
        ensures
            r == self@.uses(name@),
    {
        let key = to_lower(name);
        list_has(&self.read, key.as_str()) || list_has(&self.assigned, key.as_str()) || list_has(
            &self.used,
            key.as_str(),
        )
    }
}

/// In single-file mode a read is not reported where the entity of the
/// architecture is not loaded, or the file uses packages and nothing assigns
/// the name.
pub open spec fn skips_undeclared_read(
    input: &Input,
    usage: UsageView,
    file: Seq<char>,
    in_arch: Seq<char>,
    name: Seq<char>,
) -> bool {
    one_file(input) && (arch_lacks_entity(input, in_arch) || (file_uses_packages(input, file)
        && !usage.assigns(name)))
}

pub fn skip_undeclared_read(
    input: &Input,
    usage: &SignalUsageIndex,
    file: &str,
    in_arch: &str,
    name: &str,
) -> (r: bool)
    ensures
        r == skips_undeclared_read(input, usage@, file@, in_arch@, name@),
{
    if single_file_mode(input) && arch_missing_entity_for_context(input, in_arch) {
        return true;
    }
    single_file_mode(input) && file_has_use_clause(input, file) && !usage.has_assigned(name)
}

/// In single-file mode a write is not reported where the entity of the
/// architecture is not loaded.
pub open spec fn skips_undeclared_write(input: &Input, in_arch: Seq<char>) -> bool {
    one_file(input) && arch_lacks_entity(input, in_arch)
}

pub fn skip_undeclared_write(input: &Input, in_arch: &str) -> (r: bool)
    ensures
        r == skips_undeclared_write(input, in_arch@),
{
    single_file_mode(input) && arch_missing_entity_for_context(input, in_arch)
}

/// The undeclared names of one process: those it reads, then those it assigns.
pub open spec fn undeclared_in_process_all(
    input: &Input,
    usage: UsageView,
    proc: &Process,
) -> Seq<ViolationView> {
    undeclared_process_reads_all(input, usage, proc) + undeclared_process_writes_all(input, proc)
}

pub fn undeclared_in_process(input: &Input, usage: &SignalUsageIndex, proc: &Process) -> (out: Vec<
    Violation,
>)
    ensures
        views(out@) == undeclared_in_process_all(input, usage@, proc),
{
    broadcast use group_views;

    let mut out = undeclared_process_reads(input, usage, proc);
    let mut part = undeclared_process_writes(input, proc);
    out.append(&mut part);
    out
}

/// Whether the target of a concurrent assignment is reported.
pub open spec fn undeclared_target(input: &Input, ca: &ConcurrentAssignment) -> bool {
    !skip_name(input, ca.target@) && !skips_undeclared_write(input, ca.in_arch@)
        && !declared_identifier(input, ca.target@)
}

pub open spec fn undeclared_target_finding(ca: &ConcurrentAssignment) -> ViolationView {
    ViolationView {
        rule: "undeclared_signal_usage"@,
        severity: "warning"@,
        file: ca.file@,
        line: ca.line as nat,
        message: "Signal '"@ + ca.target@ + "' is assigned but not declared in this design unit"@,
    }
}

/// The undeclared names of one concurrent assignment: those it reads, then its target.
pub open spec fn undeclared_in_statement_all(
    input: &Input,
    usage: UsageView,
    ca: &ConcurrentAssignment,
) -> Seq<ViolationView> {
    if undeclared_target(input, ca) {
        undeclared_statement_reads_all(input, usage, ca).push(undeclared_target_finding(ca))
    } else {
        undeclared_statement_reads_all(input, usage, ca)
    }
}

pub fn undeclared_in_statement(
    input: &Input,
    usage: &SignalUsageIndex,
    ca: &ConcurrentAssignment,
) -> (out: Vec<Violation>)
    ensures
        views(out@) == undeclared_in_statement_all(input, usage@, ca),
{
    broadcast use group_views;

    let mut out = undeclared_statement_reads(input, usage, ca);
    if !is_skip_name(input, ca.target.as_str()) && !skip_undeclared_write(
        input,
        ca.in_arch.as_str(),
    ) && !is_declared_identifier(input, ca.target.as_str()) {
        let mut message = String::from_str("Signal '");
        message.append(ca.target.as_str());
        message.append("' is assigned but not declared in this design unit");
        out.push(
            Violation {
                rule: String::from_str("undeclared_signal_usage"),
                severity: String::from_str("warning"),
                file: ca.file.clone(),
                line: ca.line,
                message,
            },
        );
    }
    out
}

/// Names that are used but declared nowhere: first those of the processes,
/// then those of the concurrent assignments.
pub open spec fn undeclared_signal_usage_all(input: &Input, usage: UsageView) -> Seq<
    ViolationView,
> {
    undeclared_in_processes_all(input, usage) + undeclared_in_statements_all(input, usage)
}

pub fn undeclared_signal_usage(input: &Input, usage: &SignalUsageIndex) -> (out: Vec<Violation>)
    ensures
        views(out@) == undeclared_signal_usage_all(input, usage@),
{
    broadcast use group_views;

    let mut out = undeclared_in_processes(input, usage);
    let mut part = undeclared_in_statements(input, usage);
    out.append(&mut part);
    out
}

/// The illegal drivers of one input port: first the processes, then the
/// concurrent assignments.
pub open spec fn drivers_of_input_all(input: &Input, port: &Port) -> Seq<ViolationView> {
    process_drivers_of_input_all(input, port) + statement_drivers_of_input_all(input, port)
}

pub fn drivers_of_input(input: &Input, port: &Port) -> (out: Vec<Violation>)
    ensures
        views(out@) == drivers_of_input_all(input, port),
{
    broadcast use group_views;

    let mut out = process_drivers_of_input(input, port);
    let mut part = statement_drivers_of_input(input, port);
    out.append(&mut part);
    out
}

/// The architecture implements the entity, or is itself named like the scope.
pub open spec fn arch_serves(arch: &Architecture, entity_or_arch: Seq<char>) -> bool {
    same_name(arch.entity_name@, entity_or_arch) || same_name(arch.name@, base_arch(entity_or_arch))
}

pub fn arch_matches_entity(arch: &Architecture, entity_or_arch: &str) -> (r: bool)
    ensures
        r == arch_serves(arch, entity_or_arch@),
{
    same(arch.entity_name.as_str(), entity_or_arch) || same(
        arch.name.as_str(),
        base_arch_name(entity_or_arch).as_str(),
    )
}

/// The process assigns the signal as a plain signal.
pub open spec fn process_drives_signal(input: &Input, sig_name: Seq<char>, proc: &Process) -> bool {
    exists|i: int|
        #![trigger proc.assigned_signals@[i]]
        0 <= i < proc.assigned_signals@.len() && same_name(proc.assigned_signals@[i]@, sig_name)
            && plain_signal(input, proc.assigned_signals@[i]@)
}

pub fn sig_assigned_in_process(input: &Input, sig_name: &str, proc: &Process) -> (r: bool)
    ensures
        r == process_drives_signal(input, sig_name@, proc),
{
    let mut i: usize = 0;
    while i < proc.assigned_signals.len()
        invariant
            i <= proc.assigned_signals@.len(),
            forall|j: int|
                #![trigger proc.assigned_signals@[j]]
                0 <= j < i ==> !(same_name(proc.assigned_signals@[j]@, sig_name@) && plain_signal(
                    input,
                    proc.assigned_signals@[j]@,
                )),
        decreases proc.assigned_signals@.len() - i,
    {
        if same(proc.assigned_signals[i].as_str(), sig_name) && is_actual_signal(
            input,
            proc.assigned_signals[i].as_str(),
        ) {
            return true;
        }
        i += 1;
    }
    false
}

/// The process is a driver of the signal: it assigns it, and the first
/// architecture of its name and file serves the scope and lies in the
/// signal's file.
pub open spec fn driving_process(
    input: &Input,
    sig_name: Seq<char>,
    entity_name: Seq<char>,
    sig_file: Seq<char>,
    proc: &Process,
) -> bool {
    let a = first_arch_at(input, proc.in_arch@, proc.file@, 0);
    process_drives_signal(input, sig_name, proc) && a < input.architectures@.len() && arch_serves(
        &input.architectures@[a],
        entity_name,
    ) && input.architectures@[a].file@ == sig_file
}

/// The concurrent assignment targets the signal from an architecture that
/// serves the scope and lies in the signal's file.
pub open spec fn driving_statement(
    input: &Input,
    sig_name: Seq<char>,
    entity_name: Seq<char>,
    sig_file: Seq<char>,
    ca: &ConcurrentAssignment,
) -> bool {
    same_name(ca.target@, sig_name) && serving_arch_at(input, ca, entity_name, sig_file)
}

/// How many of the first `n` processes drive the signal.
pub open spec fn process_drivers_upto(
    input: &Input,
    sig_name: Seq<char>,
    entity_name: Seq<char>,
    sig_file: Seq<char>,
    n: int,
) -> nat
    decreases n,
{
    if n <= 0 {
        0
    } else if driving_process(input, sig_name, entity_name, sig_file, &input.processes@[n - 1]) {
        process_drivers_upto(input, sig_name, entity_name, sig_file, n - 1) + 1
    } else {
        process_drivers_upto(input, sig_name, entity_name, sig_file, n - 1)
    }
}

/// How many of the first `n` concurrent assignments outside generate
/// statements drive the signal.
pub open spec fn statement_drivers_upto(
    input: &Input,
    sig_name: Seq<char>,
    entity_name: Seq<char>,
    sig_file: Seq<char>,
    n: int,
) -> nat
    decreases n,
{
    if n <= 0 {
        0
    } else {
        let ca = &input.concurrent_assignments@[n - 1];
        if !ca.in_generate && driving_statement(input, sig_name, entity_name, sig_file, ca) {
            statement_drivers_upto(input, sig_name, entity_name, sig_file, n - 1) + 1
        } else {
            statement_drivers_upto(input, sig_name, entity_name, sig_file, n - 1)
        }
    }
}

/// The labels of the generate statements whose assignments, among the first
/// `n`, drive the signal: each label once, whatever its case.
pub open spec fn generate_drivers_upto(
    input: &Input,
    sig_name: Seq<char>,
    entity_name: Seq<char>,
    sig_file: Seq<char>,
    n: int,
) -> Seq<String>
    decreases n,
{
    if n <= 0 {
        Seq::empty()
    } else {
        let rest = generate_drivers_upto(input, sig_name, entity_name, sig_file, n - 1);
        let ca = &input.concurrent_assignments@[n - 1];
        if ca.in_generate && driving_statement(input, sig_name, entity_name, sig_file, ca)
            && !listed(rest, ca.generate_label@) {
            rest.push(ca.generate_label)
        } else {
            rest
        }
    }
}

/// The number of drivers of a signal: the processes that assign it, the
/// concurrent assignments that target it, and one for each generate
/// statement whose assignments target it.
pub open spec fn driver_count(
    input: &Input,
    sig_name: Seq<char>,
    entity_name: Seq<char>,
    sig_file: Seq<char>,
) -> nat {
    process_drivers_upto(input, sig_name, entity_name, sig_file, input.processes@.len() as int)
        + statement_drivers_upto(
        input,
        sig_name,
        entity_name,
        sig_file,
        input.concurrent_assignments@.len() as int,
    ) + generate_drivers_upto(
        input,
        sig_name,
        entity_name,
        sig_file,
        input.concurrent_assignments@.len() as int,
    ).len()
}

/// The driver count as a machine word: the largest word where the count is larger.
pub open spec fn driver_count_word(
    input: &Input,
    sig_name: Seq<char>,
    entity_name: Seq<char>,
    sig_file: Seq<char>,
) -> nat {
    let total = driver_count(input, sig_name, entity_name, sig_file);
    if total <= usize::MAX {
        total
    } else {
        usize::MAX as nat
    }
}

pub fn is_driving_process(
    input: &Input,
    sig_name: &str,
    entity_name: &str,
    sig_file: &str,
    proc: &Process,
) -> (r: bool)
    ensures
        r == driving_process(input, sig_name@, entity_name@, sig_file@, proc),
{
    if !sig_assigned_in_process(input, sig_name, proc) {
        return false;
    }
    let a = find_arch_at(input, proc.in_arch.as_str(), proc.file.as_str());
    a < input.architectures.len() && arch_matches_entity(&input.architectures[a], entity_name)
        && str_eq(input.architectures[a].file.as_str(), sig_file)
}

pub fn is_driving_statement(
    input: &Input,
    sig_name: &str,
    entity_name: &str,
    sig_file: &str,
    ca: &ConcurrentAssignment,
) -> (r: bool)
    ensures
        r == driving_statement(input, sig_name@, entity_name@, sig_file@, ca),
{
    same(ca.target.as_str(), sig_name) && has_serving_arch(input, ca, entity_name, sig_file)
}

pub fn count_drivers_in_entity(input: &Input, sig_name: &str, entity_name: &str, sig_file: &str) -> (r:
    usize)
    ensures
        r == driver_count_word(input, sig_name@, entity_name@, sig_file@),
{
    let mut proc_count: usize = 0;
    let mut i: usize = 0;
    while i < input.processes.len()
        invariant
            i <= input.processes@.len(),
            proc_count <= i,
            proc_count == process_drivers_upto(input, sig_name@, entity_name@, sig_file@, i as int),
        decreases input.processes@.len() - i,
    {
        if is_driving_process(input, sig_name, entity_name, sig_file, &input.processes[i]) {
            proc_count += 1;
        }
        i += 1;
    }
    let mut statements: usize = 0;
    let mut gen_labels: Vec<String> = Vec::new();
    let mut k: usize = 0;
    while k < input.concurrent_assignments.len()
        invariant
            k <= input.concurrent_assignments@.len(),
            statements + gen_labels@.len() <= k,
            statements == statement_drivers_upto(
                input,
                sig_name@,
                entity_name@,
                sig_file@,
                k as int,
            ),
            gen_labels@ == generate_drivers_upto(
                input,
                sig_name@,
                entity_name@,
                sig_file@,
                k as int,
            ),
        decreases input.concurrent_assignments@.len() - k,
    {
        let ca = &input.concurrent_assignments[k];
        if is_driving_statement(input, sig_name, entity_name, sig_file, ca) {
            if !ca.in_generate {
                statements += 1;
            } else if !signal_in_list(ca.generate_label.as_str(), gen_labels.as_slice()) {
                gen_labels.push(ca.generate_label.clone());
            }
        }
        k += 1;
    }
    let total: u128 = proc_count as u128 + statements as u128 + gen_labels.len() as u128;
    if total <= usize::MAX as u128 {
        total as usize
    } else {
        usize::MAX
    }
}

} // verus!
