//! Process structure.
use vstd::prelude::*;
use crate::text::{decimal, decimal_text, same, same_name};
use crate::policy::input::{Input, Process};
use crate::policy::result::{Violation, ViolationView, views, group_views};

verus! {

/// The findings about process structure.
pub open spec fn violations_all(input: &Input) -> Seq<ViolationView> {
    complex_process_all(input) + comb_process_no_default_all(input)
}

pub fn violations(input: &Input) -> (out: Vec<Violation>)
    ensures
        views(out@) == violations_all(input),
{
    broadcast use group_views;

    let mut out: Vec<Violation> = Vec::new();
    let mut part = complex_process(input);
    out.append(&mut part);
    let mut part = comb_process_no_default(input);
    out.append(&mut part);
    out
}

/// A process that assigns more than twenty signals.
pub open spec fn complex_process_hit(input: &Input, proc: &Process) -> bool {
    proc.assigned_signals@.len() > 20
}

pub open spec fn complex_process_finding(input: &Input, proc: &Process) -> ViolationView {
    ViolationView {
        rule: "complex_process"@,
        severity: "info"@,
        file: proc.file@,
        line: proc.line as nat,
        message: "Process '"@ + proc.label@ + "' assigns "@
            + decimal(proc.assigned_signals.len() as nat)
            + " signals - consider splitting into smaller processes"@,
    }
}

/// The findings for the first `n` rows, in row order.
pub open spec fn complex_process_upto(input: &Input, n: int) -> Seq<ViolationView>
    decreases n,
{
    if n <= 0 {
        Seq::empty()
    } else {
        let rest = complex_process_upto(input, n - 1);
        let proc = &input.processes@[n - 1];
        if complex_process_hit(input, proc) {
            rest.push(complex_process_finding(input, proc))
        } else {
            rest
        }
    }
}

pub open spec fn complex_process_all(input: &Input) -> Seq<ViolationView> {
    complex_process_upto(input, input.processes@.len() as int)
}

pub fn complex_process(input: &Input) -> (out: Vec<Violation>)
    ensures
        views(out@) == complex_process_all(input),
{
    broadcast use group_views;

    let mut out: Vec<Violation> = Vec::new();
    let mut i: usize = 0;
    while i < input.processes.len()
        invariant
            i <= input.processes@.len(),
            views(out@) == complex_process_upto(input, i as int),
        decreases input.processes@.len() - i,
    {
        let proc = &input.processes[i];
        if proc.assigned_signals.len() > 20 {
            let mut message = String::from_str("Process '");
            message.append(proc.label.as_str());
            message.append("' assigns ");
            message.append(decimal_text(proc.assigned_signals.len()).as_str());
            message.append(" signals - consider splitting into smaller processes");
            out.push(
                Violation {
                    rule: String::from_str("complex_process"),
                    severity: String::from_str("info"),
                    file: proc.file.clone(),
                    line: proc.line,
                    message,
                },
            );
        }
        i += 1;
    }
    out
}

/// A combinational process that assigns something and holds a case statement without `others`.
pub open spec fn comb_process_no_default_hit(input: &Input, proc: &Process) -> bool {
    proc.is_combinational && proc.assigned_signals@.len() > 0
        && incomplete_case_in(input, proc.label@)
}

pub open spec fn comb_process_no_default_finding(input: &Input, proc: &Process) -> ViolationView {
    ViolationView {
        rule: "comb_process_no_default"@,
        severity: "warning"@,
        file: proc.file@,
        line: proc.line as nat,
        message: "Combinational process '"@ + proc.label@
            + "' has incomplete case statement - may infer latch"@,
    }
}

/// The findings for the first `n` rows, in row order.
pub open spec fn comb_process_no_default_upto(input: &Input, n: int) -> Seq<ViolationView>
    decreases n,
{
    if n <= 0 {
        Seq::empty()
    } else {
        let rest = comb_process_no_default_upto(input, n - 1);
        let proc = &input.processes@[n - 1];
        if comb_process_no_default_hit(input, proc) {
            rest.push(comb_process_no_default_finding(input, proc))
        } else {
            rest
        }
    }
}

pub open spec fn comb_process_no_default_all(input: &Input) -> Seq<ViolationView> {
    comb_process_no_default_upto(input, input.processes@.len() as int)
}

pub fn comb_process_no_default(input: &Input) -> (out: Vec<Violation>)
    ensures
        views(out@) == comb_process_no_default_all(input),
{
    broadcast use group_views;

    let mut out: Vec<Violation> = Vec::new();
    let mut i: usize = 0;
    while i < input.processes.len()
        invariant
            i <= input.processes@.len(),
            views(out@) == comb_process_no_default_upto(input, i as int),
        decreases input.processes@.len() - i,
    {
        let proc = &input.processes[i];
        if proc.is_combinational && proc.assigned_signals.len() > 0
            && has_incomplete_case(input, proc.label.as_str()) {
            let mut message = String::from_str("Combinational process '");
            message.append(proc.label.as_str());
            message.append("' has incomplete case statement - may infer latch");
            out.push(
                Violation {
                    rule: String::from_str("comb_process_no_default"),
                    severity: String::from_str("warning"),
                    file: proc.file.clone(),
                    line: proc.line,
                    message,
                },
            );
        }
        i += 1;
    }
    out
}

/// Some case statement of the process has no `others`.
pub open spec fn incomplete_case_in(input: &Input, label: Seq<char>) -> bool {
    exists|i: int|
        #![trigger input.case_statements@[i]]
        0 <= i < input.case_statements@.len() && ({
            let cs = &input.case_statements@[i];
            same_name(cs.in_process@, label) && !cs.has_others
        })
}

pub fn has_incomplete_case(input: &Input, label: &str) -> (r: bool)
    ensures
        r == incomplete_case_in(input, label@),
{
    let mut i: usize = 0;
    while i < input.case_statements.len()
        invariant
            i <= input.case_statements@.len(),
            forall|j: int|
                #![trigger input.case_statements@[j]]
                0 <= j < i ==> !({
                    let cs = &input.case_statements@[j];
                    same_name(cs.in_process@, label@) && !cs.has_others
                }),
        decreases input.case_statements@.len() - i,
    {
        let cs = &input.case_statements[i];
        if same(cs.in_process.as_str(), label) && !cs.has_others {
            return true;
        }
        i += 1;
    }
    false
}

} // verus!
