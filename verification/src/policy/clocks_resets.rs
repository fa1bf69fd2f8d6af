//! Clock and reset conventions.
use vstd::prelude::*;
use crate::text::{
    contains, debug_list, debug_list_text, ends_with, group_texts, lower, lower_contains,
    lower_ends_with, str_eq, texts,
};
use crate::policy::helpers::{
    clock_name, is_clock_name, reset_name, is_reset_name, single_bit_type, is_single_bit_type,
    first_entity_named, entity_file_text, entity_file_of, entity_file_or_empty,
};
use crate::policy::input::{Input, Port, Process};
use crate::policy::result::{Violation, ViolationView, views, group_views};

verus! {

/// The findings about clock and reset signals that always run.
pub open spec fn violations_all(input: &Input) -> Seq<ViolationView> {
    clock_not_std_logic_all(input) + reset_not_std_logic_all(input)
        + multiple_clocks_in_process_all(input)
}

pub fn violations(input: &Input) -> (out: Vec<Violation>)
    ensures
        views(out@) == violations_all(input),
{
    broadcast use group_views;

    let mut out: Vec<Violation> = Vec::new();
    let mut part = clock_not_std_logic(input);
    out.append(&mut part);
    let mut part = reset_not_std_logic(input);
    out.append(&mut part);
    let mut part = multiple_clocks_in_process(input);
    out.append(&mut part);
    out
}

/// The findings about resets that run only when configured.
pub open spec fn optional_violations_all(input: &Input) -> Seq<ViolationView> {
    async_reset_active_high_all(input) + missing_reset_all(input)
}

pub fn optional_violations(input: &Input) -> (out: Vec<Violation>)
    ensures
        views(out@) == optional_violations_all(input),
{
    broadcast use group_views;

    let mut out: Vec<Violation> = Vec::new();
    let mut part = async_reset_active_high(input);
    out.append(&mut part);
    let mut part = missing_reset(input);
    out.append(&mut part);
    out
}

/// An input port named as a clock whose type is not a single bit.
pub open spec fn clock_not_std_logic_hit(input: &Input, port: &Port) -> bool {
    clock_name(port.name@) && port.direction@ == "in"@ && !single_bit_type(port.ty@)
}

pub open spec fn clock_not_std_logic_finding(input: &Input, port: &Port) -> ViolationView {
    ViolationView {
        rule: "clock_not_std_logic"@,
        severity: "error"@,
        file: entity_file_text(input, port.in_entity@),
        line: port.line as nat,
        message: "Clock signal '"@ + port.name@ + "' should be std_logic, not '"@ + port.ty@ + "'"@,
    }
}

/// The findings for the first `n` rows, in row order.
pub open spec fn clock_not_std_logic_upto(input: &Input, n: int) -> Seq<ViolationView>
    decreases n,
{
    if n <= 0 {
        Seq::empty()
    } else {
        let rest = clock_not_std_logic_upto(input, n - 1);
        let port = &input.ports@[n - 1];
        if clock_not_std_logic_hit(input, port) {
            rest.push(clock_not_std_logic_finding(input, port))
        } else {
            rest
        }
    }
}

pub open spec fn clock_not_std_logic_all(input: &Input) -> Seq<ViolationView> {
    clock_not_std_logic_upto(input, input.ports@.len() as int)
}

pub fn clock_not_std_logic(input: &Input) -> (out: Vec<Violation>)
    ensures
        views(out@) == clock_not_std_logic_all(input),
{
    broadcast use group_views;

    let mut out: Vec<Violation> = Vec::new();
    let mut i: usize = 0;
    while i < input.ports.len()
        invariant
            i <= input.ports@.len(),
            views(out@) == clock_not_std_logic_upto(input, i as int),
        decreases input.ports@.len() - i,
    {
        let port = &input.ports[i];
        if is_clock_name(port.name.as_str()) && str_eq(port.direction.as_str(), "in")
            && !is_single_bit_type(port.ty.as_str()) {
            let mut message = String::from_str("Clock signal '");
            message.append(port.name.as_str());
            message.append("' should be std_logic, not '");
            message.append(port.ty.as_str());
            message.append("'");
            out.push(
                Violation {
                    rule: String::from_str("clock_not_std_logic"),
                    severity: String::from_str("error"),
                    file: entity_file_or_empty(input, port.in_entity.as_str()),
                    line: port.line,
                    message,
                },
            );
        }
        i += 1;
    }
    out
}

/// An input port named as a reset whose type is not a single bit.
pub open spec fn reset_not_std_logic_hit(input: &Input, port: &Port) -> bool {
    reset_name(port.name@) && port.direction@ == "in"@ && !single_bit_type(port.ty@)
}

pub open spec fn reset_not_std_logic_finding(input: &Input, port: &Port) -> ViolationView {
    ViolationView {
        rule: "reset_not_std_logic"@,
        severity: "error"@,
        file: entity_file_text(input, port.in_entity@),
        line: port.line as nat,
        message: "Reset signal '"@ + port.name@ + "' should be std_logic, not '"@ + port.ty@ + "'"@,
    }
}

/// The findings for the first `n` rows, in row order.
pub open spec fn reset_not_std_logic_upto(input: &Input, n: int) -> Seq<ViolationView>
    decreases n,
{
    if n <= 0 {
        Seq::empty()
    } else {
        let rest = reset_not_std_logic_upto(input, n - 1);
        let port = &input.ports@[n - 1];
        if reset_not_std_logic_hit(input, port) {
            rest.push(reset_not_std_logic_finding(input, port))
        } else {
            rest
        }
    }
}

pub open spec fn reset_not_std_logic_all(input: &Input) -> Seq<ViolationView> {
    reset_not_std_logic_upto(input, input.ports@.len() as int)
}

pub fn reset_not_std_logic(input: &Input) -> (out: Vec<Violation>)
    ensures
        views(out@) == reset_not_std_logic_all(input),
{
    broadcast use group_views;

    let mut out: Vec<Violation> = Vec::new();
    let mut i: usize = 0;
    while i < input.ports.len()
        invariant
            i <= input.ports@.len(),
            views(out@) == reset_not_std_logic_upto(input, i as int),
        decreases input.ports@.len() - i,
    {
        let port = &input.ports[i];
        if is_reset_name(port.name.as_str()) && str_eq(port.direction.as_str(), "in")
            && !is_single_bit_type(port.ty.as_str()) {
            let mut message = String::from_str("Reset signal '");
            message.append(port.name.as_str());
            message.append("' should be std_logic, not '");
            message.append(port.ty.as_str());
            message.append("'");
            out.push(
                Violation {
                    rule: String::from_str("reset_not_std_logic"),
                    severity: String::from_str("error"),
                    file: entity_file_or_empty(input, port.in_entity.as_str()),
                    line: port.line,
                    message,
                },
            );
        }
        i += 1;
    }
    out
}

/// The elements of the list that are clock names, in order.
pub open spec fn clocks_upto(list: Seq<String>, n: int) -> Seq<Seq<char>>
    decreases n,
{
    if n <= 0 {
        Seq::empty()
    } else if clock_name(list[n - 1]@) {
        clocks_upto(list, n - 1).push(list[n - 1]@)
    } else {
        clocks_upto(list, n - 1)
    }
}

pub open spec fn clocks_in(list: Seq<String>) -> Seq<Seq<char>> {
    clocks_upto(list, list.len() as int)
}

/// The clock names of a sensitivity list, in order.
pub fn clock_signals(list: &Vec<String>) -> (r: Vec<String>)
    ensures
        texts(r@) == clocks_in(list@),
{
    broadcast use group_texts;

    let mut out: Vec<String> = Vec::new();
    let mut i: usize = 0;
    while i < list.len()
        invariant
            i <= list@.len(),
            texts(out@) == clocks_upto(list@, i as int),
        decreases list@.len() - i,
    {
        if is_clock_name(list[i].as_str()) {
            out.push(list[i].clone());
        }
        i += 1;
    }
    out
}

/// A sequential process with more than one clock in its sensitivity list.
pub open spec fn multiple_clocks_in_process_hit(input: &Input, proc: &Process) -> bool {
    proc.is_sequential && clocks_in(proc.sensitivity_list@).len() > 1
}

pub open spec fn multiple_clocks_in_process_finding(input: &Input, proc: &Process) -> ViolationView {
    ViolationView {
        rule: "multiple_clocks_in_process"@,
        severity: "error"@,
        file: proc.file@,
        line: proc.line as nat,
        message: "Process '"@ + proc.label@ + "' appears to use multiple clocks "@
            + debug_list_text(clocks_in(proc.sensitivity_list@)) + " - potential CDC issue"@,
    }
}

/// The findings for the first `n` rows, in row order.
pub open spec fn multiple_clocks_in_process_upto(input: &Input, n: int) -> Seq<ViolationView>
    decreases n,
{
    if n <= 0 {
        Seq::empty()
    } else {
        let rest = multiple_clocks_in_process_upto(input, n - 1);
        let proc = &input.processes@[n - 1];
        if multiple_clocks_in_process_hit(input, proc) {
            rest.push(multiple_clocks_in_process_finding(input, proc))
        } else {
            rest
        }
    }
}

pub open spec fn multiple_clocks_in_process_all(input: &Input) -> Seq<ViolationView> {
    multiple_clocks_in_process_upto(input, input.processes@.len() as int)
}

pub fn multiple_clocks_in_process(input: &Input) -> (out: Vec<Violation>)
    ensures
        views(out@) == multiple_clocks_in_process_all(input),
{
    broadcast use group_views;

    let mut out: Vec<Violation> = Vec::new();
    let mut i: usize = 0;
    while i < input.processes.len()
        invariant
            i <= input.processes@.len(),
            views(out@) == multiple_clocks_in_process_upto(input, i as int),
        decreases input.processes@.len() - i,
    {
        let proc = &input.processes[i];
        let clocks = clock_signals(&proc.sensitivity_list);
        proof {
            assert(texts(clocks@).len() == clocks@.len());
        }
        if proc.is_sequential && clocks.len() > 1 {
            let mut message = String::from_str("Process '");
            message.append(proc.label.as_str());
            message.append("' appears to use multiple clocks ");
            message.append(debug_list(&clocks).as_str());
            message.append(" - potential CDC issue");
            out.push(
                Violation {
                    rule: String::from_str("multiple_clocks_in_process"),
                    severity: String::from_str("error"),
                    file: proc.file.clone(),
                    line: proc.line,
                    message,
                },
            );
        }
        i += 1;
    }
    out
}

/// A sequential process without reset that assigns something.
pub open spec fn missing_reset_hit(input: &Input, proc: &Process) -> bool {
    proc.is_sequential && !proc.has_reset && proc.assigned_signals@.len() > 0
}

pub open spec fn missing_reset_finding(input: &Input, proc: &Process) -> ViolationView {
    ViolationView {
        rule: "missing_reset"@,
        severity: "warning"@,
        file: proc.file@,
        line: proc.line as nat,
        message: "Sequential process '"@ + proc.label@
            + "' has no reset - power-on state will be unknown"@,
    }
}

/// The findings for the first `n` rows, in row order.
pub open spec fn missing_reset_upto(input: &Input, n: int) -> Seq<ViolationView>
    decreases n,
{
    if n <= 0 {
        Seq::empty()
    } else {
        let rest = missing_reset_upto(input, n - 1);
        let proc = &input.processes@[n - 1];
        if missing_reset_hit(input, proc) {
            rest.push(missing_reset_finding(input, proc))
        } else {
            rest
        }
    }
}

pub open spec fn missing_reset_all(input: &Input) -> Seq<ViolationView> {
    missing_reset_upto(input, input.processes@.len() as int)
}

pub fn missing_reset(input: &Input) -> (out: Vec<Violation>)
    ensures
        views(out@) == missing_reset_all(input),
{
    broadcast use group_views;

    let mut out: Vec<Violation> = Vec::new();
    let mut i: usize = 0;
    while i < input.processes.len()
        invariant
            i <= input.processes@.len(),
            views(out@) == missing_reset_upto(input, i as int),
        decreases input.processes@.len() - i,
    {
        let proc = &input.processes[i];
        if proc.is_sequential && !proc.has_reset && proc.assigned_signals.len() > 0 {
            let mut message = String::from_str("Sequential process '");
            message.append(proc.label.as_str());
            message.append("' has no reset - power-on state will be unknown");
            out.push(
                Violation {
                    rule: String::from_str("missing_reset"),
                    severity: String::from_str("warning"),
                    file: proc.file.clone(),
                    line: proc.line,
                    message,
                },
            );
        }
        i += 1;
    }
    out
}

/// A reset whose name does not mark it as active-low.
pub open spec fn async_reset_active_high_hit(input: &Input, proc: &Process) -> bool {
    proc.is_sequential && proc.has_reset && proc.reset_signal@.len() > 0
        && !ends_with(lower(proc.reset_signal@), "n"@)
        && !ends_with(lower(proc.reset_signal@), "_n"@)
        && !contains(lower(proc.reset_signal@), "_n_"@)
}

pub open spec fn async_reset_active_high_finding(input: &Input, proc: &Process) -> ViolationView {
    ViolationView {
        rule: "async_reset_active_high"@,
        severity: "info"@,
        file: proc.file@,
        line: proc.line as nat,
        message: "Reset '"@ + proc.reset_signal@ + "' in process '"@ + proc.label@
            + "' may be active-high - consider using active-low reset (rstn, rst_n)"@,
    }
}

/// The findings for the first `n` rows, in row order.
pub open spec fn async_reset_active_high_upto(input: &Input, n: int) -> Seq<ViolationView>
    decreases n,
{
    if n <= 0 {
        Seq::empty()
    } else {
        let rest = async_reset_active_high_upto(input, n - 1);
        let proc = &input.processes@[n - 1];
        if async_reset_active_high_hit(input, proc) {
            rest.push(async_reset_active_high_finding(input, proc))
        } else {
            rest
        }
    }
}

pub open spec fn async_reset_active_high_all(input: &Input) -> Seq<ViolationView> {
    async_reset_active_high_upto(input, input.processes@.len() as int)
}

pub fn async_reset_active_high(input: &Input) -> (out: Vec<Violation>)
    ensures
        views(out@) == async_reset_active_high_all(input),
{
    broadcast use group_views;

    let mut out: Vec<Violation> = Vec::new();
    let mut i: usize = 0;
    while i < input.processes.len()
        invariant
            i <= input.processes@.len(),
            views(out@) == async_reset_active_high_upto(input, i as int),
        decreases input.processes@.len() - i,
    {
        let proc = &input.processes[i];
        if proc.is_sequential && proc.has_reset && !proc.reset_signal.as_str().is_empty()
            && !lower_ends_with(proc.reset_signal.as_str(), "n")
            && !lower_ends_with(proc.reset_signal.as_str(), "_n")
            && !lower_contains(proc.reset_signal.as_str(), "_n_") {
            let mut message = String::from_str("Reset '");
            message.append(proc.reset_signal.as_str());
            message.append("' in process '");
            message.append(proc.label.as_str());
            message.append("' may be active-high - consider using active-low reset (rstn, rst_n)");
            out.push(
                Violation {
                    rule: String::from_str("async_reset_active_high"),
                    severity: String::from_str("info"),
                    file: proc.file.clone(),
                    line: proc.line,
                    message,
                },
            );
        }
        i += 1;
    }
    out
}

/// The file of the entity that owns the port.
pub fn entity_file(input: &Input, port: &Port) -> (r: Option<String>)
    ensures
        match r {
            Some(f) => first_entity_named(input, port.in_entity@, 0) < input.entities@.len() && f@
                == entity_file_text(input, port.in_entity@),
            None => first_entity_named(input, port.in_entity@, 0) == input.entities@.len(),
        },
{
    entity_file_of(input, port.in_entity.as_str())
}

} // verus!
