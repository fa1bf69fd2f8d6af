//! Sensitivity lists of combinational processes.
use vstd::prelude::*;
use crate::text::{same, same_name};
use crate::policy::helpers::{
    listed, has_all_sensitivity, lists_clock, sensitivity_list_has_clock, lists_related,
    sig_in_sensitivity, sig_in_reads, one_file, single_file_mode, in_testbench_arch,
    process_in_testbench, skip_name, is_skip_name,
};
use crate::policy::input::{Input, Process};
use crate::policy::result::{Violation, ViolationView, views, group_views};
use crate::policy::signals::{
    declared_identifier, is_declared_identifier, plain_signal, is_actual_signal,
};

verus! {

/// The sensitivity findings that always run.
pub open spec fn violations_all(input: &Input) -> Seq<ViolationView> {
    sensitivity_list_incomplete_all(input)
}

pub fn violations(input: &Input) -> (out: Vec<Violation>)
    ensures
        views(out@) == violations_all(input),
{
    sensitivity_list_incomplete(input)
}

/// The sensitivity findings that run only when configured.
pub open spec fn optional_violations_all(input: &Input) -> Seq<ViolationView> {
    sensitivity_list_superfluous_all(input)
}

pub fn optional_violations(input: &Input) -> (out: Vec<Violation>)
    ensures
        views(out@) == optional_violations_all(input),
{
    sensitivity_list_superfluous(input)
}

/// With a single file loaded, a process that is sensitive to a clock is not
/// judged: what it reads may be declared elsewhere.
pub open spec fn skips_sensitivity(input: &Input, proc: &Process) -> bool {
    one_file(input) && lists_clock(proc.sensitivity_list@)
}

pub fn skip_sensitivity(input: &Input, proc_index: usize) -> (r: bool)
    requires
        proc_index < input.processes@.len(),
    ensures
        r == skips_sensitivity(input, &input.processes@[proc_index as int]),
{
    let proc = &input.processes[proc_index];
    single_file_mode(input) && sensitivity_list_has_clock(proc.sensitivity_list.as_slice())
}

/// In combinational processes outside testbenches: every signal that is read and missing from the sensitivity list.
pub open spec fn sensitivity_list_incomplete_upto(input: &Input, n: int) -> Seq<ViolationView>
    decreases n,
{
    if n <= 0 {
        Seq::empty()
    } else {
        let rest = sensitivity_list_incomplete_upto(input, n - 1);
        let proc = &input.processes@[n - 1];
        if proc.is_combinational && !listed(proc.sensitivity_list@, "all"@)
            && proc.assigned_signals@.len() > 0 && !skips_sensitivity(input, proc)
            && !in_testbench_arch(input, proc.in_arch@) {
            rest + missing_from_sensitivity_all(input, proc)
        } else {
            rest
        }
    }
}

pub open spec fn sensitivity_list_incomplete_all(input: &Input) -> Seq<ViolationView> {
    sensitivity_list_incomplete_upto(input, input.processes@.len() as int)
}

pub fn sensitivity_list_incomplete(input: &Input) -> (out: Vec<Violation>)
    ensures
        views(out@) == sensitivity_list_incomplete_all(input),
{
    broadcast use group_views;

    let mut out: Vec<Violation> = Vec::new();
    let mut i: usize = 0;
    while i < input.processes.len()
        invariant
            i <= input.processes@.len(),
            views(out@) == sensitivity_list_incomplete_upto(input, i as int),
        decreases input.processes@.len() - i,
    {
        let proc = &input.processes[i];
        if proc.is_combinational && !has_all_sensitivity(proc.sensitivity_list.as_slice())
            && proc.assigned_signals.len() > 0 && !skip_sensitivity(input, i)
            && !process_in_testbench(input, proc) {
            let mut part = missing_from_sensitivity(input, proc);
            out.append(&mut part);
        }
        i += 1;
    }
    out
}

/// A declared signal that the process reads without being sensitive to it.
pub open spec fn missing_from_sensitivity_hit(input: &Input, proc: &Process, read_sig: &String) -> bool {
    declared_identifier(input, read_sig@) && plain_signal(input, read_sig@)
        && !skip_name(input, read_sig@) && !lists_related(proc.sensitivity_list@, read_sig@)
}

pub open spec fn missing_from_sensitivity_finding(input: &Input, proc: &Process, read_sig: &String) -> ViolationView {
    ViolationView {
        rule: "sensitivity_list_incomplete"@,
        severity: "error"@,
        file: proc.file@,
        line: proc.line as nat,
        message: "Signal '"@ + read_sig@ + "' read in combinational process '"@ + proc.label@
            + "' but missing from sensitivity list"@,
    }
}

/// The findings for the first `n` rows, in row order.
pub open spec fn missing_from_sensitivity_upto(input: &Input, proc: &Process, n: int) -> Seq<ViolationView>
    decreases n,
{
    if n <= 0 {
        Seq::empty()
    } else {
        let rest = missing_from_sensitivity_upto(input, proc, n - 1);
        let read_sig = &proc.read_signals@[n - 1];
        if missing_from_sensitivity_hit(input, proc, read_sig) {
            rest.push(missing_from_sensitivity_finding(input, proc, read_sig))
        } else {
            rest
        }
    }
}

pub open spec fn missing_from_sensitivity_all(input: &Input, proc: &Process) -> Seq<ViolationView> {
    missing_from_sensitivity_upto(input, proc, proc.read_signals@.len() as int)
}

pub fn missing_from_sensitivity(input: &Input, proc: &Process) -> (out: Vec<Violation>)
    ensures
        views(out@) == missing_from_sensitivity_all(input, proc),
{
    broadcast use group_views;

    let mut out: Vec<Violation> = Vec::new();
    let mut i: usize = 0;
    while i < proc.read_signals.len()
        invariant
            i <= proc.read_signals@.len(),
            views(out@) == missing_from_sensitivity_upto(input, proc, i as int),
        decreases proc.read_signals@.len() - i,
    {
        let read_sig = &proc.read_signals[i];
        if is_declared_identifier(input, read_sig.as_str())
            && is_actual_signal(input, read_sig.as_str()) && !is_skip_name(input, read_sig.as_str())
            && !sig_in_sensitivity(read_sig.as_str(), proc.sensitivity_list.as_slice()) {
            let mut message = String::from_str("Signal '");
            message.append(read_sig.as_str());
            message.append("' read in combinational process '");
            message.append(proc.label.as_str());
            message.append("' but missing from sensitivity list");
            out.push(
                Violation {
                    rule: String::from_str("sensitivity_list_incomplete"),
                    severity: String::from_str("error"),
                    file: proc.file.clone(),
                    line: proc.line,
                    message,
                },
            );
        }
        i += 1;
    }
    out
}

/// In combinational processes: every signal of the sensitivity list that is never read.
pub open spec fn sensitivity_list_superfluous_upto(input: &Input, n: int) -> Seq<ViolationView>
    decreases n,
{
    if n <= 0 {
        Seq::empty()
    } else {
        let rest = sensitivity_list_superfluous_upto(input, n - 1);
        let proc = &input.processes@[n - 1];
        if proc.is_combinational && !skips_sensitivity(input, proc) {
            rest + superfluous_in_sensitivity_all(input, proc)
        } else {
            rest
        }
    }
}

pub open spec fn sensitivity_list_superfluous_all(input: &Input) -> Seq<ViolationView> {
    sensitivity_list_superfluous_upto(input, input.processes@.len() as int)
}

pub fn sensitivity_list_superfluous(input: &Input) -> (out: Vec<Violation>)
    ensures
        views(out@) == sensitivity_list_superfluous_all(input),
{
    broadcast use group_views;

    let mut out: Vec<Violation> = Vec::new();
    let mut i: usize = 0;
    while i < input.processes.len()
        invariant
            i <= input.processes@.len(),
            views(out@) == sensitivity_list_superfluous_upto(input, i as int),
        decreases input.processes@.len() - i,
    {
        let proc = &input.processes[i];
        if proc.is_combinational && !skip_sensitivity(input, i) {
            let mut part = superfluous_in_sensitivity(input, proc);
            out.append(&mut part);
        }
        i += 1;
    }
    out
}

/// A signal of the sensitivity list that the process does not read.
pub open spec fn superfluous_in_sensitivity_hit(input: &Input, proc: &Process, sens_sig: &String) -> bool {
    !same_name(sens_sig@, "all"@) && !lists_related(proc.read_signals@, sens_sig@)
}

pub open spec fn superfluous_in_sensitivity_finding(input: &Input, proc: &Process, sens_sig: &String) -> ViolationView {
    ViolationView {
        rule: "sensitivity_list_superfluous"@,
        severity: "info"@,
        file: proc.file@,
        line: proc.line as nat,
        message: "Signal '"@ + sens_sig@ + "' in sensitivity list but never read in process '"@
            + proc.label@ + "'"@,
    }
}

/// The findings for the first `n` rows, in row order.
pub open spec fn superfluous_in_sensitivity_upto(input: &Input, proc: &Process, n: int) -> Seq<ViolationView>
    decreases n,
{
    if n <= 0 {
        Seq::empty()
    } else {
        let rest = superfluous_in_sensitivity_upto(input, proc, n - 1);
        let sens_sig = &proc.sensitivity_list@[n - 1];
        if superfluous_in_sensitivity_hit(input, proc, sens_sig) {
            rest.push(superfluous_in_sensitivity_finding(input, proc, sens_sig))
        } else {
            rest
        }
    }
}

pub open spec fn superfluous_in_sensitivity_all(input: &Input, proc: &Process) -> Seq<ViolationView> {
    superfluous_in_sensitivity_upto(input, proc, proc.sensitivity_list@.len() as int)
}

pub fn superfluous_in_sensitivity(input: &Input, proc: &Process) -> (out: Vec<Violation>)
    ensures
        views(out@) == superfluous_in_sensitivity_all(input, proc),
{
    broadcast use group_views;

    let mut out: Vec<Violation> = Vec::new();
    let mut i: usize = 0;
    while i < proc.sensitivity_list.len()
        invariant
            i <= proc.sensitivity_list@.len(),
            views(out@) == superfluous_in_sensitivity_upto(input, proc, i as int),
        decreases proc.sensitivity_list@.len() - i,
    {
        let sens_sig = &proc.sensitivity_list[i];
        if !same(sens_sig.as_str(), "all")
            && !sig_in_reads(sens_sig.as_str(), proc.read_signals.as_slice()) {
            let mut message = String::from_str("Signal '");
            message.append(sens_sig.as_str());
            message.append("' in sensitivity list but never read in process '");
            message.append(proc.label.as_str());
            message.append("'");
            out.push(
                Violation {
                    rule: String::from_str("sensitivity_list_superfluous"),
                    severity: String::from_str("info"),
                    file: proc.file.clone(),
                    line: proc.line,
                    message,
                },
            );
        }
        i += 1;
    }
    out
}

} // verus!
