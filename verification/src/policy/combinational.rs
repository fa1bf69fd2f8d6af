//! Combinational logic: feedback, sensitivity and loops through the dependency graph.
use vstd::prelude::*;
use crate::text::{
    contains, decimal, decimal_text, decimal_text_wide, group_texts, holds, list_has, lower,
    lower_chars_of, same, same_name, sort_texts, sorted_strings, str_eq, text_less, text_lt, texts,
    to_lower,
};
use crate::policy::helpers::{
    clock_name, is_clock_name, reset_name, is_reset_name, listed, has_all_sensitivity,
    actual_signal, is_actual_signal, composite_identifier, is_composite_identifier,
    in_testbench_arch, process_in_testbench, testbench_file, file_in_testbench, resolved_signal,
    is_resolved_signal,
};
use crate::policy::input::{Input, Process, SignalDep};
use crate::policy::result::{Violation, ViolationView, views, group_views};

verus! {

/// The findings about combinational logic that always run.
pub open spec fn violations_all(input: &Input) -> Seq<ViolationView> {
    combinational_feedback_all(input) + empty_sensitivity_combinational_all(input)
        + direct_combinational_loop_all(input) + two_stage_loop_all(input)
        + three_stage_loop_all(input) + cross_process_loop_all(input)
}

pub fn violations(input: &Input) -> (out: Vec<Violation>)
    ensures
        views(out@) == violations_all(input),
{
    broadcast use group_views;

    let mut out: Vec<Violation> = Vec::new();
    let mut part = combinational_feedback(input);
    out.append(&mut part);
    let mut part = empty_sensitivity_combinational(input);
    out.append(&mut part);
    let mut part = direct_combinational_loop(input);
    out.append(&mut part);
    let mut part = two_stage_loop(input);
    out.append(&mut part);
    let mut part = three_stage_loop(input);
    out.append(&mut part);
    let mut part = cross_process_loop(input);
    out.append(&mut part);
    out
}

/// The findings about combinational logic that run only when configured.
pub open spec fn optional_violations_all(input: &Input) -> Seq<ViolationView> {
    large_combinational_process_all(input) + vhdl2008_sensitivity_all_all(input)
        + long_sensitivity_list_all(input) + potential_comb_loop_all(input)
}

pub fn optional_violations(input: &Input) -> (out: Vec<Violation>)
    ensures
        views(out@) == optional_violations_all(input),
{
    broadcast use group_views;

    let mut out: Vec<Violation> = Vec::new();
    let mut part = large_combinational_process(input);
    out.append(&mut part);
    let mut part = vhdl2008_sensitivity_all(input);
    out.append(&mut part);
    let mut part = long_sensitivity_list(input);
    out.append(&mut part);
    let mut part = potential_comb_loop(input);
    out.append(&mut part);
    out
}

/// In combinational processes: every scalar signal that the process both assigns and reads.
pub open spec fn combinational_feedback_upto(input: &Input, n: int) -> Seq<ViolationView>
    decreases n,
{
    if n <= 0 {
        Seq::empty()
    } else {
        let rest = combinational_feedback_upto(input, n - 1);
        let proc = &input.processes@[n - 1];
        if proc.is_combinational {
            rest + feedback_in_process_all(input, proc)
        } else {
            rest
        }
    }
}

pub open spec fn combinational_feedback_all(input: &Input) -> Seq<ViolationView> {
    combinational_feedback_upto(input, input.processes@.len() as int)
}

pub fn combinational_feedback(input: &Input) -> (out: Vec<Violation>)
    ensures
        views(out@) == combinational_feedback_all(input),
{
    broadcast use group_views;

    let mut out: Vec<Violation> = Vec::new();
    let mut i: usize = 0;
    while i < input.processes.len()
        invariant
            i <= input.processes@.len(),
            views(out@) == combinational_feedback_upto(input, i as int),
        decreases input.processes@.len() - i,
    {
        let proc = &input.processes[i];
        if proc.is_combinational {
            let mut part = feedback_in_process(input, proc);
            out.append(&mut part);
        }
        i += 1;
    }
    out
}

/// The feedback findings of one process, assigned signal after assigned signal.
pub open spec fn feedback_in_process_upto(input: &Input, proc: &Process, n: int) -> Seq<ViolationView>
    decreases n,
{
    if n <= 0 {
        Seq::empty()
    } else {
        let rest = feedback_in_process_upto(input, proc, n - 1);
        let assigned = &proc.assigned_signals@[n - 1];
        rest + feedback_of_signal_all(input, proc, assigned)
    }
}

pub open spec fn feedback_in_process_all(input: &Input, proc: &Process) -> Seq<ViolationView> {
    feedback_in_process_upto(input, proc, proc.assigned_signals@.len() as int)
}

pub fn feedback_in_process(input: &Input, proc: &Process) -> (out: Vec<Violation>)
    ensures
        views(out@) == feedback_in_process_all(input, proc),
{
    broadcast use group_views;

    let mut out: Vec<Violation> = Vec::new();
    let mut i: usize = 0;
    while i < proc.assigned_signals.len()
        invariant
            i <= proc.assigned_signals@.len(),
            views(out@) == feedback_in_process_upto(input, proc, i as int),
        decreases proc.assigned_signals@.len() - i,
    {
        let assigned = &proc.assigned_signals[i];
        let mut part = feedback_of_signal(input, proc, assigned);
        out.append(&mut part);
        i += 1;
    }
    out
}

/// One finding for each read of the assigned signal, unless it is a clock, a reset, composite or no signal at all.
pub open spec fn feedback_of_signal_hit(input: &Input, proc: &Process, assigned: &String, read: &String) -> bool {
    same_name(assigned@, read@) && !clock_name(assigned@) && !reset_name(assigned@)
        && actual_signal(input, assigned@) && !composite_identifier(input, assigned@)
}

pub open spec fn feedback_of_signal_finding(input: &Input, proc: &Process, assigned: &String, read: &String) -> ViolationView {
    ViolationView {
        rule: "combinational_feedback"@,
        severity: "warning"@,
        file: proc.file@,
        line: proc.line as nat,
        message: "Combinational process '"@ + proc.label@ + "' reads signal '"@ + assigned@
            + "' that it assigns - potential combinational loop"@,
    }
}

/// The findings for the first `n` rows, in row order.
pub open spec fn feedback_of_signal_upto(input: &Input, proc: &Process, assigned: &String, n: int) -> Seq<ViolationView>
    decreases n,
{
    if n <= 0 {
        Seq::empty()
    } else {
        let rest = feedback_of_signal_upto(input, proc, assigned, n - 1);
        let read = &proc.read_signals@[n - 1];
        if feedback_of_signal_hit(input, proc, assigned, read) {
            rest.push(feedback_of_signal_finding(input, proc, assigned, read))
        } else {
            rest
        }
    }
}

pub open spec fn feedback_of_signal_all(input: &Input, proc: &Process, assigned: &String) -> Seq<ViolationView> {
    feedback_of_signal_upto(input, proc, assigned, proc.read_signals@.len() as int)
}

pub fn feedback_of_signal(input: &Input, proc: &Process, assigned: &String) -> (out: Vec<Violation>)
    ensures
        views(out@) == feedback_of_signal_all(input, proc, assigned),
{
    broadcast use group_views;

    let mut out: Vec<Violation> = Vec::new();
    let mut i: usize = 0;
    while i < proc.read_signals.len()
        invariant
            i <= proc.read_signals@.len(),
            views(out@) == feedback_of_signal_upto(input, proc, assigned, i as int),
        decreases proc.read_signals@.len() - i,
    {
        let read = &proc.read_signals[i];
        if same(assigned.as_str(), read.as_str()) && !is_clock_name(assigned.as_str())
            && !is_reset_name(assigned.as_str()) && is_actual_signal(input, assigned.as_str())
            && !is_composite_identifier(input, assigned.as_str()) {
            let mut message = String::from_str("Combinational process '");
            message.append(proc.label.as_str());
            message.append("' reads signal '");
            message.append(assigned.as_str());
            message.append("' that it assigns - potential combinational loop");
            out.push(
                Violation {
                    rule: String::from_str("combinational_feedback"),
                    severity: String::from_str("warning"),
                    file: proc.file.clone(),
                    line: proc.line,
                    message,
                },
            );
        }
        i += 1;
    }
    out
}

/// The decimal numeral of a sum of two counts.
pub fn sum_text(a: usize, b: usize) -> (r: String)
    ensures
        r@ == decimal((a + b) as nat),
{
    let total: u128 = a as u128 + b as u128;
    decimal_text_wide(total)
}

/// A combinational process that reads and assigns more than thirty signals in all.
pub open spec fn large_combinational_process_hit(input: &Input, proc: &Process) -> bool {
    proc.is_combinational && proc.read_signals@.len() + proc.assigned_signals@.len() > 30
}

pub open spec fn large_combinational_process_finding(input: &Input, proc: &Process) -> ViolationView {
    ViolationView {
        rule: "large_combinational_process"@,
        severity: "info"@,
        file: proc.file@,
        line: proc.line as nat,
        message: "Large combinational process '"@ + proc.label@ + "' ("@
            + decimal((proc.read_signals@.len() + proc.assigned_signals@.len()) as nat)
            + " signals) - may cause timing issues"@,
    }
}

/// The findings for the first `n` rows, in row order.
pub open spec fn large_combinational_process_upto(input: &Input, n: int) -> Seq<ViolationView>
    decreases n,
{
    if n <= 0 {
        Seq::empty()
    } else {
        let rest = large_combinational_process_upto(input, n - 1);
        let proc = &input.processes@[n - 1];
        if large_combinational_process_hit(input, proc) {
            rest.push(large_combinational_process_finding(input, proc))
        } else {
            rest
        }
    }
}

pub open spec fn large_combinational_process_all(input: &Input) -> Seq<ViolationView> {
    large_combinational_process_upto(input, input.processes@.len() as int)
}

pub fn large_combinational_process(input: &Input) -> (out: Vec<Violation>)
    ensures
        views(out@) == large_combinational_process_all(input),
{
    broadcast use group_views;

    let mut out: Vec<Violation> = Vec::new();
    let mut i: usize = 0;
    while i < input.processes.len()
        invariant
            i <= input.processes@.len(),
            views(out@) == large_combinational_process_upto(input, i as int),
        decreases input.processes@.len() - i,
    {
        let proc = &input.processes[i];
        if proc.is_combinational
           
               
                    && (proc.read_signals.len() > 30 || proc.assigned_signals.len() > 30 - proc.read_signals.len()) {
            let mut message = String::from_str("Large combinational process '");
            message.append(proc.label.as_str());
            message.append("' (");
            message.append(sum_text(proc.read_signals.len(), proc.assigned_signals.len()).as_str());
            message.append(" signals) - may cause timing issues");
            out.push(
                Violation {
                    rule: String::from_str("large_combinational_process"),
                    severity: String::from_str("info"),
                    file: proc.file.clone(),
                    line: proc.line,
                    message,
                },
            );
        }
        i += 1;
    }
    out
}

/// A combinational process outside testbenches that assigns something and is sensitive to nothing.
pub open spec fn empty_sensitivity_combinational_hit(input: &Input, proc: &Process) -> bool {
    proc.is_combinational && proc.sensitivity_list@.len() == 0 && proc.assigned_signals@.len() > 0
        && !in_testbench_arch(input, proc.in_arch@)
}

pub open spec fn empty_sensitivity_combinational_finding(input: &Input, proc: &Process) -> ViolationView {
    ViolationView {
        rule: "empty_sensitivity_combinational"@,
        severity: "error"@,
        file: proc.file@,
        line: proc.line as nat,
        message: "Combinational process '"@ + proc.label@
            + "' has empty sensitivity list - will only execute once!"@,
    }
}

/// The findings for the first `n` rows, in row order.
pub open spec fn empty_sensitivity_combinational_upto(input: &Input, n: int) -> Seq<ViolationView>
    decreases n,
{
    if n <= 0 {
        Seq::empty()
    } else {
        let rest = empty_sensitivity_combinational_upto(input, n - 1);
        let proc = &input.processes@[n - 1];
        if empty_sensitivity_combinational_hit(input, proc) {
            rest.push(empty_sensitivity_combinational_finding(input, proc))
        } else {
            rest
        }
    }
}

pub open spec fn empty_sensitivity_combinational_all(input: &Input) -> Seq<ViolationView> {
    empty_sensitivity_combinational_upto(input, input.processes@.len() as int)
}

pub fn empty_sensitivity_combinational(input: &Input) -> (out: Vec<Violation>)
    ensures
        views(out@) == empty_sensitivity_combinational_all(input),
{
    broadcast use group_views;

    let mut out: Vec<Violation> = Vec::new();
    let mut i: usize = 0;
    while i < input.processes.len()
        invariant
            i <= input.processes@.len(),
            views(out@) == empty_sensitivity_combinational_upto(input, i as int),
        decreases input.processes@.len() - i,
    {
        let proc = &input.processes[i];
        if proc.is_combinational && proc.sensitivity_list.len() == 0
            && proc.assigned_signals.len() > 0 && !process_in_testbench(input, proc) {
            let mut message = String::from_str("Combinational process '");
            message.append(proc.label.as_str());
            message.append("' has empty sensitivity list - will only execute once!");
            out.push(
                Violation {
                    rule: String::from_str("empty_sensitivity_combinational"),
                    severity: String::from_str("error"),
                    file: proc.file.clone(),
                    line: proc.line,
                    message,
                },
            );
        }
        i += 1;
    }
    out
}

/// A process that is sensitive to `all`.
pub open spec fn vhdl2008_sensitivity_all_hit(input: &Input, proc: &Process) -> bool {
    listed(proc.sensitivity_list@, "all"@)
}

pub open spec fn vhdl2008_sensitivity_all_finding(input: &Input, proc: &Process) -> ViolationView {
    ViolationView {
        rule: "vhdl2008_sensitivity_all"@,
        severity: "info"@,
        file: proc.file@,
        line: proc.line as nat,
        message: "Process '"@ + proc.label@
            + "' uses VHDL-2008 'all' sensitivity - good practice but requires VHDL-2008 support"@,
    }
}

/// The findings for the first `n` rows, in row order.
pub open spec fn vhdl2008_sensitivity_all_upto(input: &Input, n: int) -> Seq<ViolationView>
    decreases n,
{
    if n <= 0 {
        Seq::empty()
    } else {
        let rest = vhdl2008_sensitivity_all_upto(input, n - 1);
        let proc = &input.processes@[n - 1];
        if vhdl2008_sensitivity_all_hit(input, proc) {
            rest.push(vhdl2008_sensitivity_all_finding(input, proc))
        } else {
            rest
        }
    }
}

pub open spec fn vhdl2008_sensitivity_all_all(input: &Input) -> Seq<ViolationView> {
    vhdl2008_sensitivity_all_upto(input, input.processes@.len() as int)
}

pub fn vhdl2008_sensitivity_all(input: &Input) -> (out: Vec<Violation>)
    ensures
        views(out@) == vhdl2008_sensitivity_all_all(input),
{
    broadcast use group_views;

    let mut out: Vec<Violation> = Vec::new();
    let mut i: usize = 0;
    while i < input.processes.len()
        invariant
            i <= input.processes@.len(),
            views(out@) == vhdl2008_sensitivity_all_upto(input, i as int),
        decreases input.processes@.len() - i,
    {
        let proc = &input.processes[i];
        if has_all_sensitivity(proc.sensitivity_list.as_slice()) {
            let mut message = String::from_str("Process '");
            message.append(proc.label.as_str());
            message.append("' uses VHDL-2008 'all' sensitivity - good practice but requires VHDL-2008 support");
            out.push(
                Violation {
                    rule: String::from_str("vhdl2008_sensitivity_all"),
                    severity: String::from_str("info"),
                    file: proc.file.clone(),
                    line: proc.line,
                    message,
                },
            );
        }
        i += 1;
    }
    out
}

/// A combinational process with more than eight signals in its sensitivity list.
pub open spec fn long_sensitivity_list_hit(input: &Input, proc: &Process) -> bool {
    proc.is_combinational && !listed(proc.sensitivity_list@, "all"@)
        && proc.sensitivity_list@.len() > 8
}

pub open spec fn long_sensitivity_list_finding(input: &Input, proc: &Process) -> ViolationView {
    ViolationView {
        rule: "long_sensitivity_list"@,
        severity: "info"@,
        file: proc.file@,
        line: proc.line as nat,
        message: "Process '"@ + proc.label@ + "' has "@
            + decimal(proc.sensitivity_list.len() as nat)
            + " signals in sensitivity list - consider using 'all' (VHDL-2008)"@,
    }
}

/// The findings for the first `n` rows, in row order.
pub open spec fn long_sensitivity_list_upto(input: &Input, n: int) -> Seq<ViolationView>
    decreases n,
{
    if n <= 0 {
        Seq::empty()
    } else {
        let rest = long_sensitivity_list_upto(input, n - 1);
        let proc = &input.processes@[n - 1];
        if long_sensitivity_list_hit(input, proc) {
            rest.push(long_sensitivity_list_finding(input, proc))
        } else {
            rest
        }
    }
}

pub open spec fn long_sensitivity_list_all(input: &Input) -> Seq<ViolationView> {
    long_sensitivity_list_upto(input, input.processes@.len() as int)
}

pub fn long_sensitivity_list(input: &Input) -> (out: Vec<Violation>)
    ensures
        views(out@) == long_sensitivity_list_all(input),
{
    broadcast use group_views;

    let mut out: Vec<Violation> = Vec::new();
    let mut i: usize = 0;
    while i < input.processes.len()
        invariant
            i <= input.processes@.len(),
            views(out@) == long_sensitivity_list_upto(input, i as int),
        decreases input.processes@.len() - i,
    {
        let proc = &input.processes[i];
        if proc.is_combinational && !has_all_sensitivity(proc.sensitivity_list.as_slice())
            && proc.sensitivity_list.len() > 8 {
            let mut message = String::from_str("Process '");
            message.append(proc.label.as_str());
            message.append("' has ");
            message.append(decimal_text(proc.sensitivity_list.len()).as_str());
            message.append(" signals in sensitivity list - consider using 'all' (VHDL-2008)");
            out.push(
                Violation {
                    rule: String::from_str("long_sensitivity_list"),
                    severity: String::from_str("info"),
                    file: proc.file.clone(),
                    line: proc.line,
                    message,
                },
            );
        }
        i += 1;
    }
    out
}

/// Some sequential dependency writes the signal: a register breaks the loop.
pub open spec fn sequential_target(input: &Input, name: Seq<char>) -> bool {
    exists|i: int|
        #![trigger input.signal_deps@[i]]
        0 <= i < input.signal_deps@.len() && ({
            let dep = &input.signal_deps@[i];
            dep.is_sequential && same_name(dep.target@, name)
        })
}

pub fn is_sequential_target(input: &Input, name: &str) -> (r: bool)
    ensures
        r == sequential_target(input, name@),
{
    let mut i: usize = 0;
    while i < input.signal_deps.len()
        invariant
            i <= input.signal_deps@.len(),
            forall|j: int|
                #![trigger input.signal_deps@[j]]
                0 <= j < i ==> !({
                    let dep = &input.signal_deps@[j];
                    dep.is_sequential && same_name(dep.target@, name@)
                }),
        decreases input.signal_deps@.len() - i,
    {
        let dep = &input.signal_deps[i];
        if dep.is_sequential && same(dep.target.as_str(), name) {
            return true;
        }
        i += 1;
    }
    false
}

/// An unresolved signal outside testbenches that depends on itself, whatever the case of the
/// two spellings, without a register in between.
pub open spec fn direct_combinational_loop_hit(input: &Input, dep: &SignalDep) -> bool {
    !dep.is_sequential && same_name(dep.source@, dep.target@)
        && !sequential_target(input, dep.target@)
        && !testbench_file(input, dep.file@) && !resolved_signal(input, dep.target@)
}

pub open spec fn direct_combinational_loop_finding(input: &Input, dep: &SignalDep) -> ViolationView {
    ViolationView {
        rule: "direct_combinational_loop"@,
        severity: "error"@,
        file: dep.file@,
        line: dep.line as nat,
        message: "Direct combinational loop: signal '"@ + dep.source@ + "' depends on itself"@,
    }
}

/// The findings for the first `n` rows, in row order.
pub open spec fn direct_combinational_loop_upto(input: &Input, n: int) -> Seq<ViolationView>
    decreases n,
{
    if n <= 0 {
        Seq::empty()
    } else {
        let rest = direct_combinational_loop_upto(input, n - 1);
        let dep = &input.signal_deps@[n - 1];
        if direct_combinational_loop_hit(input, dep) {
            rest.push(direct_combinational_loop_finding(input, dep))
        } else {
            rest
        }
    }
}

pub open spec fn direct_combinational_loop_all(input: &Input) -> Seq<ViolationView> {
    direct_combinational_loop_upto(input, input.signal_deps@.len() as int)
}

pub fn direct_combinational_loop(input: &Input) -> (out: Vec<Violation>)
    ensures
        views(out@) == direct_combinational_loop_all(input),
{
    broadcast use group_views;

    let mut out: Vec<Violation> = Vec::new();
    let mut i: usize = 0;
    while i < input.signal_deps.len()
        invariant
            i <= input.signal_deps@.len(),
            views(out@) == direct_combinational_loop_upto(input, i as int),
        decreases input.signal_deps@.len() - i,
    {
        let dep = &input.signal_deps[i];
        if !dep.is_sequential && same(dep.source.as_str(), dep.target.as_str())
            && !is_sequential_target(input, dep.target.as_str())
            && !file_in_testbench(input, dep.file.as_str())
            && !is_resolved_signal(input, dep.target.as_str()) {
            let mut message = String::from_str("Direct combinational loop: signal '");
            message.append(dep.source.as_str());
            message.append("' depends on itself");
            out.push(
                Violation {
                    rule: String::from_str("direct_combinational_loop"),
                    severity: String::from_str("error"),
                    file: dep.file.clone(),
                    line: dep.line,
                    message,
                },
            );
        }
        i += 1;
    }
    out
}

/// In combinational processes: every signal that is both read and written, unless named like a state.
pub open spec fn potential_comb_loop_upto(input: &Input, n: int) -> Seq<ViolationView>
    decreases n,
{
    if n <= 0 {
        Seq::empty()
    } else {
        let rest = potential_comb_loop_upto(input, n - 1);
        let proc = &input.processes@[n - 1];
        if proc.is_combinational {
            rest + potential_loop_in_process_all(input, proc)
        } else {
            rest
        }
    }
}

pub open spec fn potential_comb_loop_all(input: &Input) -> Seq<ViolationView> {
    potential_comb_loop_upto(input, input.processes@.len() as int)
}

pub fn potential_comb_loop(input: &Input) -> (out: Vec<Violation>)
    ensures
        views(out@) == potential_comb_loop_all(input),
{
    broadcast use group_views;

    let mut out: Vec<Violation> = Vec::new();
    let mut i: usize = 0;
    while i < input.processes.len()
        invariant
            i <= input.processes@.len(),
            views(out@) == potential_comb_loop_upto(input, i as int),
        decreases input.processes@.len() - i,
    {
        let proc = &input.processes[i];
        if proc.is_combinational {
            let mut part = potential_loop_in_process(input, proc);
            out.append(&mut part);
        }
        i += 1;
    }
    out
}

/// The potential loops of one process, assigned signal after assigned signal.
pub open spec fn potential_loop_in_process_upto(input: &Input, proc: &Process, n: int) -> Seq<ViolationView>
    decreases n,
{
    if n <= 0 {
        Seq::empty()
    } else {
        let rest = potential_loop_in_process_upto(input, proc, n - 1);
        let assigned = &proc.assigned_signals@[n - 1];
        rest + potential_loop_of_signal_all(input, proc, assigned)
    }
}

pub open spec fn potential_loop_in_process_all(input: &Input, proc: &Process) -> Seq<ViolationView> {
    potential_loop_in_process_upto(input, proc, proc.assigned_signals@.len() as int)
}

pub fn potential_loop_in_process(input: &Input, proc: &Process) -> (out: Vec<Violation>)
    ensures
        views(out@) == potential_loop_in_process_all(input, proc),
{
    broadcast use group_views;

    let mut out: Vec<Violation> = Vec::new();
    let mut i: usize = 0;
    while i < proc.assigned_signals.len()
        invariant
            i <= proc.assigned_signals@.len(),
            views(out@) == potential_loop_in_process_upto(input, proc, i as int),
        decreases proc.assigned_signals@.len() - i,
    {
        let assigned = &proc.assigned_signals[i];
        let mut part = potential_loop_of_signal(input, proc, assigned);
        out.append(&mut part);
        i += 1;
    }
    out
}

/// One finding for each read of the assigned signal.
pub open spec fn potential_loop_of_signal_hit(input: &Input, proc: &Process, assigned: &String, read: &String) -> bool {
    same_name(assigned@, read@) && !loop_false_positive(assigned@)
        && actual_signal(input, assigned@)
}

pub open spec fn potential_loop_of_signal_finding(input: &Input, proc: &Process, assigned: &String, read: &String) -> ViolationView {
    ViolationView {
        rule: "potential_combinational_loop"@,
        severity: "warning"@,
        file: proc.file@,
        line: proc.line as nat,
        message: "Potential combinational loop in process '"@ + proc.label@ + "': signal '"@
            + assigned@ + "' is both read and written"@,
    }
}

/// The findings for the first `n` rows, in row order.
pub open spec fn potential_loop_of_signal_upto(input: &Input, proc: &Process, assigned: &String, n: int) -> Seq<ViolationView>
    decreases n,
{
    if n <= 0 {
        Seq::empty()
    } else {
        let rest = potential_loop_of_signal_upto(input, proc, assigned, n - 1);
        let read = &proc.read_signals@[n - 1];
        if potential_loop_of_signal_hit(input, proc, assigned, read) {
            rest.push(potential_loop_of_signal_finding(input, proc, assigned, read))
        } else {
            rest
        }
    }
}

pub open spec fn potential_loop_of_signal_all(input: &Input, proc: &Process, assigned: &String) -> Seq<ViolationView> {
    potential_loop_of_signal_upto(input, proc, assigned, proc.read_signals@.len() as int)
}

pub fn potential_loop_of_signal(input: &Input, proc: &Process, assigned: &String) -> (out: Vec<Violation>)
    ensures
        views(out@) == potential_loop_of_signal_all(input, proc, assigned),
{
    broadcast use group_views;

    let mut out: Vec<Violation> = Vec::new();
    let mut i: usize = 0;
    while i < proc.read_signals.len()
        invariant
            i <= proc.read_signals@.len(),
            views(out@) == potential_loop_of_signal_upto(input, proc, assigned, i as int),
        decreases proc.read_signals@.len() - i,
    {
        let read = &proc.read_signals[i];
        if same(assigned.as_str(), read.as_str()) && !is_loop_false_positive(assigned.as_str())
            && is_actual_signal(input, assigned.as_str()) {
            let mut message = String::from_str("Potential combinational loop in process '");
            message.append(proc.label.as_str());
            message.append("': signal '");
            message.append(assigned.as_str());
            message.append("' is both read and written");
            out.push(
                Violation {
                    rule: String::from_str("potential_combinational_loop"),
                    severity: String::from_str("warning"),
                    file: proc.file.clone(),
                    line: proc.line,
                    message,
                },
            );
        }
        i += 1;
    }
    out
}

/// A name of a next-state or state signal, which is read and written by design.
pub open spec fn loop_false_positive(name: Seq<char>) -> bool {
    let l = lower(name);
    contains(l, "next"@) || contains(l, "state"@)
}

pub fn is_loop_false_positive(name: &str) -> (r: bool)
    ensures
        r == loop_false_positive(name@),
{
    let l = lower_chars_of(name);
    holds(&l, "next") || holds(&l, "state")
}

/// A dependency that can be part of a combinational loop: not sequential,
/// and between signals that are not resolved.
pub open spec fn loop_edge(input: &Input, dep: &SignalDep) -> bool {
    !dep.is_sequential && !resolved_signal(input, dep.source@) && !resolved_signal(
        input,
        dep.target@,
    )
}

pub fn is_loop_edge(input: &Input, dep: &SignalDep) -> (r: bool)
    ensures
        r == loop_edge(input, dep),
{
    !dep.is_sequential && !is_resolved_signal(input, dep.source.as_str()) && !is_resolved_signal(
        input,
        dep.target.as_str(),
    )
}

/// For every dependency, whether it can be part of a combinational loop.
pub fn filtered_combinational_deps(input: &Input) -> (flags: Vec<bool>)
    ensures
        flags@.len() == input.signal_deps@.len(),
        forall|i: int|
            0 <= i < flags@.len() ==> #[trigger] flags@[i] == loop_edge(input, &input.signal_deps@[i]),
{
    let mut flags: Vec<bool> = Vec::new();
    let mut i: usize = 0;
    while i < input.signal_deps.len()
        invariant
            i <= input.signal_deps@.len(),
            flags@.len() == i,
            forall|k: int|
                0 <= k < i ==> #[trigger] flags@[k] == loop_edge(input, &input.signal_deps@[k]),
        decreases input.signal_deps@.len() - i,
    {
        flags.push(is_loop_edge(input, &input.signal_deps[i]));
        i += 1;
    }
    flags
}

/// The flags say of every dependency whether it is a loop edge.
pub open spec fn flags_fit(input: &Input, flags: Seq<bool>) -> bool {
    flags.len() == input.signal_deps@.len() && forall|i: int|
        0 <= i < flags.len() ==> #[trigger] flags[i] == loop_edge(input, &input.signal_deps@[i])
}

/// Dependency `j` is a loop edge from `from` to `to`, up to case.
pub open spec fn edge_between(input: &Input, j: int, from: Seq<char>, to: Seq<char>) -> bool {
    loop_edge(input, &input.signal_deps@[j]) && same_name(input.signal_deps@[j].source@, from)
        && same_name(input.signal_deps@[j].target@, to)
}

/// Some loop edge leads from `from` to `to`.
pub open spec fn has_edge(input: &Input, from: Seq<char>, to: Seq<char>) -> bool {
    exists|j: int| 0 <= j < input.signal_deps@.len() && #[trigger] edge_between(input, j, from, to)
}

fn find_edge(input: &Input, flags: &Vec<bool>, from: &str, to: &str) -> (r: bool)
    requires
        flags_fit(input, flags@),
    ensures
        r == has_edge(input, from@, to@),
{
    let mut j: usize = 0;
    while j < input.signal_deps.len()
        invariant
            j <= input.signal_deps@.len(),
            flags_fit(input, flags@),
            forall|k: int| 0 <= k < j ==> !#[trigger] edge_between(input, k, from@, to@),
        decreases input.signal_deps@.len() - j,
    {
        if flags[j] && same(input.signal_deps[j].source.as_str(), from) && same(
            input.signal_deps[j].target.as_str(),
            to,
        ) {
            assert(edge_between(input, j as int, from@, to@));
            return true;
        }
        j += 1;
    }
    false
}

/// Two names in the order of strings.
pub struct NamePair {
    pub first: String,
    pub second: String,
}

/// The pairs of a list, each by its texts.
pub open spec fn pair_views(s: Seq<NamePair>) -> Seq<(Seq<char>, Seq<char>)> {
    Seq::new(s.len(), |i: int| (s[i].first@, s[i].second@))
}

pub fn pair_listed(list: &Vec<NamePair>, first: &str, second: &str) -> (r: bool)
    ensures
        r == pair_views(list@).contains((first@, second@)),
{
    let mut i: usize = 0;
    while i < list.len()
        invariant
            i <= list@.len(),
            forall|j: int| 0 <= j < i ==> (#[trigger] pair_views(list@)[j]) != (first@, second@),
        decreases list@.len() - i,
    {
        if str_eq(list[i].first.as_str(), first) && str_eq(list[i].second.as_str(), second) {
            assert(pair_views(list@)[i as int] == (first@, second@));
            return true;
        }
        i += 1;
    }
    false
}

/// The two ends of a dependency in lower case, the smaller first.
pub open spec fn pair_key(dep: &SignalDep) -> (Seq<char>, Seq<char>) {
    let s = lower(dep.source@);
    let d = lower(dep.target@);
    if text_lt(s, d) {
        (s, d)
    } else {
        (d, s)
    }
}

/// A loop edge between two different signals that has an edge back.
pub open spec fn two_stage_candidate(input: &Input, dep: &SignalDep) -> bool {
    loop_edge(input, dep) && lower(dep.source@) != lower(dep.target@) && has_edge(
        input,
        dep.target@,
        dep.source@,
    )
}

/// The pairs of signals that the candidates among the first `n` dependencies join, each once.
pub open spec fn two_stage_seen_upto(input: &Input, n: int) -> Seq<(Seq<char>, Seq<char>)>
    decreases n,
{
    if n <= 0 {
        Seq::empty()
    } else {
        let rest = two_stage_seen_upto(input, n - 1);
        let dep = &input.signal_deps@[n - 1];
        if two_stage_candidate(input, dep) && !rest.contains(pair_key(dep)) {
            rest.push(pair_key(dep))
        } else {
            rest
        }
    }
}

/// Dependency `i` is the first candidate for its pair of signals.
pub open spec fn two_stage_loop_hit(input: &Input, i: int) -> bool {
    let dep = &input.signal_deps@[i];
    two_stage_candidate(input, dep) && !two_stage_seen_upto(input, i).contains(pair_key(dep))
}

pub open spec fn two_stage_loop_finding(dep: &SignalDep) -> ViolationView {
    ViolationView {
        rule: "two_stage_combinational_loop"@,
        severity: "error"@,
        file: dep.file@,
        line: dep.line as nat,
        message: "Combinational loop detected: '"@ + dep.source@ + "' -> '"@ + dep.target@
            + "' -> '"@ + dep.source@ + "'"@,
    }
}

/// The findings for the first `n` dependencies, in record order.
pub open spec fn two_stage_loop_upto(input: &Input, n: int) -> Seq<ViolationView>
    decreases n,
{
    if n <= 0 {
        Seq::empty()
    } else {
        let rest = two_stage_loop_upto(input, n - 1);
        if two_stage_loop_hit(input, n - 1) {
            rest.push(two_stage_loop_finding(&input.signal_deps@[n - 1]))
        } else {
            rest
        }
    }
}

/// One finding for every pair of signals that depend on each other, at the
/// first dependency between them.
pub open spec fn two_stage_loop_all(input: &Input) -> Seq<ViolationView> {
    two_stage_loop_upto(input, input.signal_deps@.len() as int)
}

pub fn two_stage_loop(input: &Input) -> (out: Vec<Violation>)
    ensures
        views(out@) == two_stage_loop_all(input),
{
    broadcast use group_views;

    let flags = filtered_combinational_deps(input);
    let mut out: Vec<Violation> = Vec::new();
    let mut seen: Vec<NamePair> = Vec::new();
    let mut i: usize = 0;
    proof {
        assert(pair_views(seen@) =~= two_stage_seen_upto(input, 0));
    }
    while i < input.signal_deps.len()
        invariant
            i <= input.signal_deps@.len(),
            flags_fit(input, flags@),
            pair_views(seen@) == two_stage_seen_upto(input, i as int),
            views(out@) == two_stage_loop_upto(input, i as int),
        decreases input.signal_deps@.len() - i,
    {
        let dep = &input.signal_deps[i];
        if flags[i] {
            let src = to_lower(dep.source.as_str());
            let dst = to_lower(dep.target.as_str());
            if !str_eq(src.as_str(), dst.as_str()) && find_edge(
                input,
                &flags,
                dep.target.as_str(),
                dep.source.as_str(),
            ) {
                let key = if text_less(src.as_str(), dst.as_str()) {
                    NamePair { first: src, second: dst }
                } else {
                    NamePair { first: dst, second: src }
                };
                if !pair_listed(&seen, key.first.as_str(), key.second.as_str()) {
                    proof {
                        assert(pair_views(seen@.push(key)) =~= pair_views(seen@).push(
                            (key.first@, key.second@),
                        ));
                    }
                    seen.push(key);
                    let mut message = String::from_str("Combinational loop detected: '");
                    message.append(dep.source.as_str());
                    message.append("' -> '");
                    message.append(dep.target.as_str());
                    message.append("' -> '");
                    message.append(dep.source.as_str());
                    message.append("'");
                    out.push(
                        Violation {
                            rule: String::from_str("two_stage_combinational_loop"),
                            severity: String::from_str("error"),
                            file: dep.file.clone(),
                            line: dep.line,
                            message,
                        },
                    );
                }
            }
        }
        i += 1;
    }
    out
}

/// The spelling under which a signal first occurs among the loop edges at or
/// after `i`, sources before targets; the given text if it occurs nowhere.
pub open spec fn first_spelling_from(input: &Input, name: Seq<char>, i: int) -> Seq<char>
    decreases input.signal_deps@.len() - i,
{
    if i < 0 || i >= input.signal_deps@.len() {
        name
    } else {
        let dep = &input.signal_deps@[i];
        if loop_edge(input, dep) && lower(dep.source@) == name {
            dep.source@
        } else if loop_edge(input, dep) && lower(dep.target@) == name {
            dep.target@
        } else {
            first_spelling_from(input, name, i + 1)
        }
    }
}

fn first_spelling(input: &Input, flags: &Vec<bool>, name: &str) -> (r: String)
    requires
        flags_fit(input, flags@),
    ensures
        r@ == first_spelling_from(input, name@, 0),
{
    let mut i: usize = 0;
    while i < input.signal_deps.len()
        invariant
            i <= input.signal_deps@.len(),
            flags_fit(input, flags@),
            first_spelling_from(input, name@, 0) == first_spelling_from(input, name@, i as int),
        decreases input.signal_deps@.len() - i,
    {
        let dep = &input.signal_deps[i];
        if flags[i] {
            if str_eq(to_lower(dep.source.as_str()).as_str(), name) {
                return dep.source.clone();
            }
            if str_eq(to_lower(dep.target.as_str()).as_str(), name) {
                return dep.target.clone();
            }
        }
        i += 1;
    }
    let mut same_text = String::new();
    same_text.append(name);
    proof {
        assert(same_text@ =~= name@);
    }
    same_text
}

/// The three names in the order of strings, joined by bars: the same for
/// every rotation of a cycle.
pub open spec fn cycle_key(a: Seq<char>, b: Seq<char>, c: Seq<char>) -> Seq<char> {
    let sorted = sort_texts(seq![a, b, c]);
    sorted[0] + "|"@ + sorted[1] + "|"@ + sorted[2]
}

pub fn cycle_key_text(a: &str, b: &str, c: &str) -> (key: String)
    ensures
        key@ == cycle_key(a@, b@, c@),
{
    broadcast use group_texts;

    let mut parts: Vec<String> = Vec::new();
    let mut first = String::new();
    first.append(a);
    let mut second = String::new();
    second.append(b);
    let mut third = String::new();
    third.append(c);
    proof {
        assert(first@ =~= a@);
        assert(second@ =~= b@);
        assert(third@ =~= c@);
    }
    parts.push(first);
    parts.push(second);
    parts.push(third);
    proof {
        assert(texts(parts@) =~= seq![a@, b@, c@]);
        crate::text::lemma_sort_texts_len(seq![a@, b@, c@]);
    }
    let sorted = sorted_strings(&parts);
    proof {
        assert(texts(sorted@).len() == sorted@.len());
    }
    let mut key = sorted[0].clone();
    key.append("|");
    key.append(sorted[1].as_str());
    key.append("|");
    key.append(sorted[2].as_str());
    key
}

/// Dependencies `i` (from a to b) and `j` (from b to c) lie on a cycle of
/// three different signals: some loop edge leads from c back to a.
pub open spec fn three_stage_candidate(input: &Input, i: int, j: int) -> bool {
    let first = &input.signal_deps@[i];
    let second = &input.signal_deps@[j];
    let a = lower(first.source@);
    let b = lower(first.target@);
    let c = lower(second.target@);
    loop_edge(input, first) && a != b && loop_edge(input, second) && lower(second.source@) == b
        && c != a && c != b && has_edge(input, second.target@, first.source@)
}

pub open spec fn three_stage_key(input: &Input, i: int, j: int) -> Seq<char> {
    cycle_key(
        lower(input.signal_deps@[i].source@),
        lower(input.signal_deps@[i].target@),
        lower(input.signal_deps@[j].target@),
    )
}

pub open spec fn three_stage_finding(input: &Input, i: int, j: int) -> ViolationView {
    let first = &input.signal_deps@[i];
    let second = &input.signal_deps@[j];
    ViolationView {
        rule: "three_stage_combinational_loop"@,
        severity: "error"@,
        file: first.file@,
        line: first.line as nat,
        message: "Combinational loop detected: '"@ + first.source@ + "' -> '"@
            + first_spelling_from(input, lower(first.target@), 0) + "' -> '"@ + first_spelling_from(
            input,
            lower(second.target@),
            0,
        ) + "' -> '"@ + first.source@ + "'"@,
    }
}

/// The cycles known after dependency `i` has been paired with the first `m`
/// dependencies, where `seen` were known before.
pub open spec fn three_stage_seen_row(input: &Input, i: int, m: int, seen: Seq<Seq<char>>) -> Seq<
    Seq<char>,
>
    decreases m,
{
    if m <= 0 {
        seen
    } else {
        let rest = three_stage_seen_row(input, i, m - 1, seen);
        if three_stage_candidate(input, i, m - 1) && !rest.contains(
            three_stage_key(input, i, m - 1),
        ) {
            rest.push(three_stage_key(input, i, m - 1))
        } else {
            rest
        }
    }
}

/// The findings of pairing dependency `i` with the first `m` dependencies:
/// one for every cycle that was not known before.
pub open spec fn three_stage_row(input: &Input, i: int, m: int, seen: Seq<Seq<char>>) -> Seq<
    ViolationView,
>
    decreases m,
{
    if m <= 0 {
        Seq::empty()
    } else {
        let rest = three_stage_row(input, i, m - 1, seen);
        if three_stage_candidate(input, i, m - 1) && !three_stage_seen_row(
            input,
            i,
            m - 1,
            seen,
        ).contains(three_stage_key(input, i, m - 1)) {
            rest.push(three_stage_finding(input, i, m - 1))
        } else {
            rest
        }
    }
}

/// The cycles known after the first `n` dependencies have been followed.
pub open spec fn three_stage_seen_upto(input: &Input, n: int) -> Seq<Seq<char>>
    decreases n,
{
    if n <= 0 {
        Seq::empty()
    } else {
        three_stage_seen_row(
            input,
            n - 1,
            input.signal_deps@.len() as int,
            three_stage_seen_upto(input, n - 1),
        )
    }
}

/// The findings for the first `n` dependencies, in record order.
pub open spec fn three_stage_loop_upto(input: &Input, n: int) -> Seq<ViolationView>
    decreases n,
{
    if n <= 0 {
        Seq::empty()
    } else {
        three_stage_loop_upto(input, n - 1) + three_stage_row(
            input,
            n - 1,
            input.signal_deps@.len() as int,
            three_stage_seen_upto(input, n - 1),
        )
    }
}

/// One finding for every cycle of three signals, at the first pair of
/// dependencies that lies on it.
pub open spec fn three_stage_loop_all(input: &Input) -> Seq<ViolationView> {
    three_stage_loop_upto(input, input.signal_deps@.len() as int)
}

/// Follows dependency `i` through every second dependency.
fn three_stage_from(input: &Input, flags: &Vec<bool>, i: usize, seen: &mut Vec<String>) -> (out:
    Vec<Violation>)
    requires
        flags_fit(input, flags@),
        i < input.signal_deps@.len(),
    ensures
        views(out@) == three_stage_row(
            input,
            i as int,
            input.signal_deps@.len() as int,
            texts(old(seen)@),
        ),
        texts(final(seen)@) == three_stage_seen_row(
            input,
            i as int,
            input.signal_deps@.len() as int,
            texts(old(seen)@),
        ),
{
    broadcast use group_views, group_texts;

    let mut out: Vec<Violation> = Vec::new();
    let ghost before = texts(seen@);
    let first = &input.signal_deps[i];
    let a = to_lower(first.source.as_str());
    let b = to_lower(first.target.as_str());
    let starts = flags[i] && !str_eq(a.as_str(), b.as_str());
    let mut j: usize = 0;
    while j < input.signal_deps.len()
        invariant
            j <= input.signal_deps@.len(),
            i < input.signal_deps@.len(),
            flags_fit(input, flags@),
            *first == input.signal_deps@[i as int],
            a@ == lower(first.source@),
            b@ == lower(first.target@),
            starts == (loop_edge(input, first) && a@ != b@),
            views(out@) == three_stage_row(input, i as int, j as int, before),
            texts(seen@) == three_stage_seen_row(input, i as int, j as int, before),
        decreases input.signal_deps@.len() - j,
    {
        let second = &input.signal_deps[j];
        if starts && flags[j] && str_eq(to_lower(second.source.as_str()).as_str(), b.as_str()) {
            let c = to_lower(second.target.as_str());
            if !str_eq(c.as_str(), a.as_str()) && !str_eq(c.as_str(), b.as_str()) && find_edge(
                input,
                flags,
                second.target.as_str(),
                first.source.as_str(),
            ) {
                let key = cycle_key_text(a.as_str(), b.as_str(), c.as_str());
                if !list_has(seen, key.as_str()) {
                    seen.push(key);
                    let b_name = first_spelling(input, flags, b.as_str());
                    let c_name = first_spelling(input, flags, c.as_str());
                    let mut message = String::from_str("Combinational loop detected: '");
                    message.append(first.source.as_str());
                    message.append("' -> '");
                    message.append(b_name.as_str());
                    message.append("' -> '");
                    message.append(c_name.as_str());
                    message.append("' -> '");
                    message.append(first.source.as_str());
                    message.append("'");
                    out.push(
                        Violation {
                            rule: String::from_str("three_stage_combinational_loop"),
                            severity: String::from_str("error"),
                            file: first.file.clone(),
                            line: first.line,
                            message,
                        },
                    );
                }
            }
        }
        j += 1;
    }
    out
}

pub fn three_stage_loop(input: &Input) -> (out: Vec<Violation>)
    ensures
        views(out@) == three_stage_loop_all(input),
{
    broadcast use group_views, group_texts;

    let flags = filtered_combinational_deps(input);
    let mut out: Vec<Violation> = Vec::new();
    let mut seen: Vec<String> = Vec::new();
    let mut i: usize = 0;
    while i < input.signal_deps.len()
        invariant
            i <= input.signal_deps@.len(),
            flags_fit(input, flags@),
            texts(seen@) == three_stage_seen_upto(input, i as int),
            views(out@) == three_stage_loop_upto(input, i as int),
        decreases input.signal_deps@.len() - i,
    {
        let mut part = three_stage_from(input, &flags, i, &mut seen);
        out.append(&mut part);
        i += 1;
    }
    out
}

/// What the cross-process search reads of a process: its label and place,
/// and the signals it assigns and reads, in lower case.
pub struct ProcessInfo {
    pub label: String,
    pub file: String,
    pub line: usize,
    pub assigned: Vec<String>,
    pub read: Vec<String>,
}

/// The mathematical content of a [`ProcessInfo`].
pub struct ProcessInfoView {
    pub label: Seq<char>,
    pub file: Seq<char>,
    pub line: nat,
    pub assigned: Seq<Seq<char>>,
    pub read: Seq<Seq<char>>,
}

impl View for ProcessInfo {
    type V = ProcessInfoView;

    open spec fn view(&self) -> ProcessInfoView {
        ProcessInfoView {
            label: self.label@,
            file: self.file@,
            line: self.line as nat,
            assigned: texts(self.assigned@),
            read: texts(self.read@),
        }
    }
}

/// The process records of a list, each by its content.
pub open spec fn info_views(s: Seq<ProcessInfo>) -> Seq<ProcessInfoView> {
    Seq::new(s.len(), |i: int| s[i]@)
}

/// The names among the first `n` of a list that are signals, in lower case.
pub open spec fn signal_names_upto(input: &Input, list: Seq<String>, n: int) -> Seq<Seq<char>>
    decreases n,
{
    if n <= 0 {
        Seq::empty()
    } else if actual_signal(input, list[n - 1]@) {
        signal_names_upto(input, list, n - 1).push(lower(list[n - 1]@))
    } else {
        signal_names_upto(input, list, n - 1)
    }
}

pub open spec fn signal_names(input: &Input, list: Seq<String>) -> Seq<Seq<char>> {
    signal_names_upto(input, list, list.len() as int)
}

pub fn signal_names_of(input: &Input, list: &Vec<String>) -> (r: Vec<String>)
    ensures
        texts(r@) == signal_names(input, list@),
{
    broadcast use group_texts;

    let mut out: Vec<String> = Vec::new();
    let mut i: usize = 0;
    while i < list.len()
        invariant
            i <= list@.len(),
            texts(out@) == signal_names_upto(input, list@, i as int),
        decreases list@.len() - i,
    {
        if is_actual_signal(input, list[i].as_str()) {
            out.push(to_lower(list[i].as_str()));
        }
        i += 1;
    }
    out
}

/// A combinational process outside testbenches that assigns and reads signals.
pub open spec fn loop_process(input: &Input, proc: &Process) -> bool {
    proc.is_combinational && !in_testbench_arch(input, proc.in_arch@) && signal_names(
        input,
        proc.assigned_signals@,
    ).len() > 0 && signal_names(input, proc.read_signals@).len() > 0
}

pub open spec fn process_info(input: &Input, proc: &Process) -> ProcessInfoView {
    ProcessInfoView {
        label: proc.label@,
        file: proc.file@,
        line: proc.line as nat,
        assigned: signal_names(input, proc.assigned_signals@),
        read: signal_names(input, proc.read_signals@),
    }
}

/// The records of the loop processes among the first `n` processes.
pub open spec fn process_infos_upto(input: &Input, n: int) -> Seq<ProcessInfoView>
    decreases n,
{
    if n <= 0 {
        Seq::empty()
    } else if loop_process(input, &input.processes@[n - 1]) {
        process_infos_upto(input, n - 1).push(process_info(input, &input.processes@[n - 1]))
    } else {
        process_infos_upto(input, n - 1)
    }
}

pub open spec fn process_infos(input: &Input) -> Seq<ProcessInfoView> {
    process_infos_upto(input, input.processes@.len() as int)
}

pub fn collect_process_infos(input: &Input) -> (infos: Vec<ProcessInfo>)
    ensures
        info_views(infos@) == process_infos(input),
{
    let mut infos: Vec<ProcessInfo> = Vec::new();
    let mut i: usize = 0;
    proof {
        assert(info_views(infos@) =~= process_infos_upto(input, 0));
    }
    while i < input.processes.len()
        invariant
            i <= input.processes@.len(),
            info_views(infos@) == process_infos_upto(input, i as int),
        decreases input.processes@.len() - i,
    {
        let proc = &input.processes[i];
        if proc.is_combinational && !process_in_testbench(input, proc) {
            let assigned = signal_names_of(input, &proc.assigned_signals);
            let read = signal_names_of(input, &proc.read_signals);
            proof {
                assert(texts(assigned@).len() == assigned@.len());
                assert(texts(read@).len() == read@.len());
            }
            if assigned.len() > 0 && read.len() > 0 {
                let info = ProcessInfo {
                    label: proc.label.clone(),
                    file: proc.file.clone(),
                    line: proc.line,
                    assigned,
                    read,
                };
                proof {
                    assert(info_views(infos@.push(info)) =~= info_views(infos@).push(info@));
                }
                infos.push(info);
            }
        }
        i += 1;
    }
    infos
}

/// The process assigns `a` and reads `b`.
pub open spec fn joins(info: ProcessInfoView, a: Seq<char>, b: Seq<char>) -> bool {
    info.assigned.contains(a) && info.read.contains(b)
}

pub fn process_joins(info: &ProcessInfo, a: &str, b: &str) -> (r: bool)
    ensures
        r == joins(info@, a@, b@),
{
    list_has(&info.assigned, a) && list_has(&info.read, b)
}

pub open spec fn cross_finding(
    first: ProcessInfoView,
    second: ProcessInfoView,
    a: Seq<char>,
    b: Seq<char>,
) -> ViolationView {
    ViolationView {
        rule: "cross_process_combinational_loop"@,
        severity: "error"@,
        file: first.file,
        line: first.line,
        message: "Cross-process combinational loop between '"@ + first.label + "' and '"@
            + second.label + "' via signals '"@ + a + "' and '"@ + b + "'"@,
    }
}

/// Whether process `peer` closes a loop with process `lead` through `a` and `b`
/// and the two labels have not been judged together before.
pub open spec fn cross_fresh(
    infos: Seq<ProcessInfoView>,
    a: Seq<char>,
    b: Seq<char>,
    lead: int,
    peer: int,
    seen: Seq<(Seq<char>, Seq<char>)>,
) -> bool {
    joins(infos[lead], a, b) && joins(infos[peer], b, a) && !same_name(
        infos[lead].label,
        infos[peer].label,
    ) && !seen.contains((lower(infos[lead].label), lower(infos[peer].label)))
}

/// The pairs of labels judged once process `lead` has met the first `m` processes.
pub open spec fn cross_seen_row(
    infos: Seq<ProcessInfoView>,
    a: Seq<char>,
    b: Seq<char>,
    lead: int,
    m: int,
    seen: Seq<(Seq<char>, Seq<char>)>,
) -> Seq<(Seq<char>, Seq<char>)>
    decreases m,
{
    if m <= 0 {
        seen
    } else {
        let rest = cross_seen_row(infos, a, b, lead, m - 1, seen);
        if cross_fresh(infos, a, b, lead, m - 1, rest) {
            rest.push((lower(infos[lead].label), lower(infos[m - 1].label)))
        } else {
            rest
        }
    }
}

/// The findings of process `lead` against the first `m` processes: one for each
/// fresh pair of labels whose first process stands on the earlier line.
pub open spec fn cross_row(
    infos: Seq<ProcessInfoView>,
    a: Seq<char>,
    b: Seq<char>,
    lead: int,
    m: int,
    seen: Seq<(Seq<char>, Seq<char>)>,
) -> Seq<ViolationView>
    decreases m,
{
    if m <= 0 {
        Seq::empty()
    } else {
        let rest = cross_row(infos, a, b, lead, m - 1, seen);
        if cross_fresh(infos, a, b, lead, m - 1, cross_seen_row(infos, a, b, lead, m - 1, seen))
            && infos[lead].line < infos[m - 1].line {
            rest.push(cross_finding(infos[lead], infos[m - 1], a, b))
        } else {
            rest
        }
    }
}

/// The pairs of labels judged once the first `n` processes have met all processes.
pub open spec fn cross_seen_upto(infos: Seq<ProcessInfoView>, a: Seq<char>, b: Seq<char>, n: int) -> Seq<
    (Seq<char>, Seq<char>),
>
    decreases n,
{
    if n <= 0 {
        Seq::empty()
    } else {
        cross_seen_row(infos, a, b, n - 1, infos.len() as int, cross_seen_upto(infos, a, b, n - 1))
    }
}

/// The findings for the signals `a` and `b` among the first `n` processes.
pub open spec fn cross_pair_upto(infos: Seq<ProcessInfoView>, a: Seq<char>, b: Seq<char>, n: int) -> Seq<
    ViolationView,
>
    decreases n,
{
    if n <= 0 {
        Seq::empty()
    } else {
        cross_pair_upto(infos, a, b, n - 1) + cross_row(
            infos,
            a,
            b,
            n - 1,
            infos.len() as int,
            cross_seen_upto(infos, a, b, n - 1),
        )
    }
}

/// The loops through `a` and `b`: every process that assigns `a` and reads
/// `b` against every process that assigns `b` and reads `a`.
pub open spec fn cross_pair_all(infos: Seq<ProcessInfoView>, a: Seq<char>, b: Seq<char>) -> Seq<
    ViolationView,
> {
    cross_pair_upto(infos, a, b, infos.len() as int)
}

fn cross_pair_row(infos: &Vec<ProcessInfo>, a: &str, b: &str, lead: usize, seen: &mut Vec<NamePair>) -> (out:
    Vec<Violation>)
    requires
        lead < infos@.len(),
    ensures
        views(out@) == cross_row(
            info_views(infos@),
            a@,
            b@,
            lead as int,
            infos@.len() as int,
            pair_views(old(seen)@),
        ),
        pair_views(final(seen)@) == cross_seen_row(
            info_views(infos@),
            a@,
            b@,
            lead as int,
            infos@.len() as int,
            pair_views(old(seen)@),
        ),
{
    broadcast use group_views;

    let mut out: Vec<Violation> = Vec::new();
    let ghost before = pair_views(seen@);
    let ghost all = info_views(infos@);
    let first = &infos[lead];
    let leads = process_joins(first, a, b);
    let mut peer: usize = 0;
    while peer < infos.len()
        invariant
            peer <= infos@.len(),
            lead < infos@.len(),
            all == info_views(infos@),
            *first == infos@[lead as int],
            leads == joins(all[lead as int], a@, b@),
            views(out@) == cross_row(all, a@, b@, lead as int, peer as int, before),
            pair_views(seen@) == cross_seen_row(all, a@, b@, lead as int, peer as int, before),
        decreases infos@.len() - peer,
    {
        let second = &infos[peer];
        proof {
            assert(all[lead as int] == first@);
            assert(all[peer as int] == second@);
        }
        let lead_label = to_lower(first.label.as_str());
        let peer_label = to_lower(second.label.as_str());
        if leads && process_joins(second, b, a) && !str_eq(
            lead_label.as_str(),
            peer_label.as_str(),
        ) && !pair_listed(seen, lead_label.as_str(), peer_label.as_str()) {
            let key = NamePair { first: lead_label, second: peer_label };
            proof {
                assert(pair_views(seen@.push(key)) =~= pair_views(seen@).push(
                    (key.first@, key.second@),
                ));
            }
            seen.push(key);
            if first.line < second.line {
                let mut message = String::from_str("Cross-process combinational loop between '");
                message.append(first.label.as_str());
                message.append("' and '");
                message.append(second.label.as_str());
                message.append("' via signals '");
                message.append(a);
                message.append("' and '");
                message.append(b);
                message.append("'");
                out.push(
                    Violation {
                        rule: String::from_str("cross_process_combinational_loop"),
                        severity: String::from_str("error"),
                        file: first.file.clone(),
                        line: first.line,
                        message,
                    },
                );
            }
        }
        peer += 1;
    }
    out
}

pub fn cross_pair(infos: &Vec<ProcessInfo>, a: &str, b: &str) -> (out: Vec<Violation>)
    ensures
        views(out@) == cross_pair_all(info_views(infos@), a@, b@),
{
    broadcast use group_views;

    let mut out: Vec<Violation> = Vec::new();
    let mut seen: Vec<NamePair> = Vec::new();
    let mut lead: usize = 0;
    proof {
        assert(pair_views(seen@) =~= cross_seen_upto(info_views(infos@), a@, b@, 0));
        assert(info_views(infos@).len() == infos@.len());
    }
    while lead < infos.len()
        invariant
            lead <= infos@.len(),
            info_views(infos@).len() == infos@.len(),
            pair_views(seen@) == cross_seen_upto(info_views(infos@), a@, b@, lead as int),
            views(out@) == cross_pair_upto(info_views(infos@), a@, b@, lead as int),
        decreases infos@.len() - lead,
    {
        let mut part = cross_pair_row(infos, a, b, lead, &mut seen);
        out.append(&mut part);
        lead += 1;
    }
    out
}

/// Some process before `p` assigns `a` and reads `b`.
pub open spec fn joined_before(infos: Seq<ProcessInfoView>, a: Seq<char>, b: Seq<char>, p: int) -> bool {
    exists|q: int| 0 <= q < p && #[trigger] joins(infos[q], a, b)
}

/// The text occurs among the first `n` of the list.
pub open spec fn occurs_before(list: Seq<Seq<char>>, x: Seq<char>, n: int) -> bool {
    exists|k: int| 0 <= k < n && #[trigger] list[k] == x
}

/// The pair of the `x`-th assigned and the `y`-th read signal of process `p`
/// is met here for the first time, and its first signal is the smaller one.
pub open spec fn opens_pair(infos: Seq<ProcessInfoView>, p: int, x: int, y: int) -> bool {
    let a = infos[p].assigned[x];
    let b = infos[p].read[y];
    text_lt(a, b) && !joined_before(infos, a, b, p) && !occurs_before(infos[p].assigned, a, x)
        && !occurs_before(infos[p].read, b, y)
}

/// The findings for the `x`-th assigned signal of process `p` and its first `k` read signals.
pub open spec fn cross_reads_upto(infos: Seq<ProcessInfoView>, p: int, x: int, k: int) -> Seq<
    ViolationView,
>
    decreases k,
{
    if k <= 0 {
        Seq::empty()
    } else {
        let rest = cross_reads_upto(infos, p, x, k - 1);
        if opens_pair(infos, p, x, k - 1) {
            rest + cross_pair_all(infos, infos[p].assigned[x], infos[p].read[k - 1])
        } else {
            rest
        }
    }
}

/// The findings for the first `m` assigned signals of process `p`.
pub open spec fn cross_assigned_upto(infos: Seq<ProcessInfoView>, p: int, m: int) -> Seq<
    ViolationView,
>
    decreases m,
{
    if m <= 0 {
        Seq::empty()
    } else {
        cross_assigned_upto(infos, p, m - 1) + cross_reads_upto(
            infos,
            p,
            m - 1,
            infos[p].read.len() as int,
        )
    }
}

/// The findings for the first `n` process records.
pub open spec fn cross_processes_upto(infos: Seq<ProcessInfoView>, n: int) -> Seq<ViolationView>
    decreases n,
{
    if n <= 0 {
        Seq::empty()
    } else {
        cross_processes_upto(infos, n - 1) + cross_assigned_upto(
            infos,
            n - 1,
            infos[n - 1].assigned.len() as int,
        )
    }
}

/// Loops that run through two processes: one assigns `a` and reads `b`, the
/// other assigns `b` and reads `a`.  The pairs of signals come in the order
/// in which the processes first join them.
pub open spec fn cross_process_loop_all(input: &Input) -> Seq<ViolationView> {
    cross_processes_upto(process_infos(input), process_infos(input).len() as int)
}

pub fn is_joined_before(infos: &Vec<ProcessInfo>, a: &str, b: &str, p: usize) -> (r: bool)
    requires
        p <= infos@.len(),
    ensures
        r == joined_before(info_views(infos@), a@, b@, p as int),
{
    let mut q: usize = 0;
    while q < p
        invariant
            q <= p <= infos@.len(),
            forall|k: int| 0 <= k < q ==> !#[trigger] joins(info_views(infos@)[k], a@, b@),
        decreases p - q,
    {
        if process_joins(&infos[q], a, b) {
            assert(joins(info_views(infos@)[q as int], a@, b@));
            return true;
        }
        q += 1;
    }
    false
}

pub fn is_listed_before(list: &Vec<String>, x: &str, n: usize) -> (r: bool)
    requires
        n <= list@.len(),
    ensures
        r == occurs_before(texts(list@), x@, n as int),
{
    let mut k: usize = 0;
    while k < n
        invariant
            k <= n <= list@.len(),
            forall|j: int| 0 <= j < k ==> (#[trigger] texts(list@)[j]) != x@,
        decreases n - k,
    {
        if str_eq(list[k].as_str(), x) {
            assert(texts(list@)[k as int] == x@);
            return true;
        }
        k += 1;
    }
    false
}

fn cross_reads(infos: &Vec<ProcessInfo>, p: usize, x: usize) -> (out: Vec<Violation>)
    requires
        p < infos@.len(),
        x < infos@[p as int].assigned@.len(),
    ensures
        views(out@) == cross_reads_upto(
            info_views(infos@),
            p as int,
            x as int,
            infos@[p as int].read@.len() as int,
        ),
{
    broadcast use group_views;

    let mut out: Vec<Violation> = Vec::new();
    let ghost all = info_views(infos@);
    let info = &infos[p];
    let a = &info.assigned[x];
    let mut y: usize = 0;
    while y < info.read.len()
        invariant
            y <= info.read@.len(),
            p < infos@.len(),
            x < info.assigned@.len(),
            all == info_views(infos@),
            *info == infos@[p as int],
            all[p as int] == info@,
            *a == info.assigned@[x as int],
            views(out@) == cross_reads_upto(all, p as int, x as int, y as int),
        decreases info.read@.len() - y,
    {
        let b = &info.read[y];
        proof {
            assert(all[p as int].assigned[x as int] == a@);
            assert(all[p as int].read[y as int] == b@);
        }
        if text_less(a.as_str(), b.as_str()) && !is_joined_before(infos, a.as_str(), b.as_str(), p)
            && !is_listed_before(&info.assigned, a.as_str(), x) && !is_listed_before(
            &info.read,
            b.as_str(),
            y,
        ) {
            let mut part = cross_pair(infos, a.as_str(), b.as_str());
            out.append(&mut part);
        }
        y += 1;
    }
    out
}

fn cross_assigned(infos: &Vec<ProcessInfo>, p: usize) -> (out: Vec<Violation>)
    requires
        p < infos@.len(),
    ensures
        views(out@) == cross_assigned_upto(
            info_views(infos@),
            p as int,
            infos@[p as int].assigned@.len() as int,
        ),
{
    broadcast use group_views;

    let mut out: Vec<Violation> = Vec::new();
    let info = &infos[p];
    let mut x: usize = 0;
    proof {
        assert(info_views(infos@)[p as int] == info@);
        assert(texts(info.read@).len() == info.read@.len());
    }
    while x < info.assigned.len()
        invariant
            x <= info.assigned@.len(),
            p < infos@.len(),
            *info == infos@[p as int],
            info_views(infos@)[p as int].read.len() == info.read@.len(),
            views(out@) == cross_assigned_upto(info_views(infos@), p as int, x as int),
        decreases info.assigned@.len() - x,
    {
        let mut part = cross_reads(infos, p, x);
        out.append(&mut part);
        x += 1;
    }
    out
}

pub fn cross_process_loop(input: &Input) -> (out: Vec<Violation>)
    ensures
        views(out@) == cross_process_loop_all(input),
{
    broadcast use group_views;

    let infos = collect_process_infos(input);
    let mut out: Vec<Violation> = Vec::new();
    let mut p: usize = 0;
    proof {
        assert(info_views(infos@).len() == infos@.len());
    }
    while p < infos.len()
        invariant
            p <= infos@.len(),
            info_views(infos@) == process_infos(input),
            info_views(infos@).len() == infos@.len(),
            views(out@) == cross_processes_upto(info_views(infos@), p as int),
        decreases infos@.len() - p,
    {
        proof {
            assert(info_views(infos@)[p as int] == infos@[p as int]@);
            assert(texts(infos@[p as int].assigned@).len() == infos@[p as int].assigned@.len());
        }
        let mut part = cross_assigned(&infos, p);
        out.append(&mut part);
        p += 1;
    }
    out
}

/// Appending a dependency of an unresolved signal on itself, outside
/// testbenches and with no register driving the signal, adds exactly one
/// direct loop, after all others.
pub proof fn lemma_self_edge_adds_one_loop(before: &Input, after: &Input, edge: SignalDep)
    requires
        after.signal_deps@ == before.signal_deps@.push(edge),
        after.signals@ == before.signals@,
        after.ports@ == before.ports@,
        after.entities@ == before.entities@,
        !edge.is_sequential,
        same_name(edge.source@, edge.target@),
        !resolved_signal(before, edge.target@),
        !testbench_file(before, edge.file@),
        !sequential_target(before, edge.target@),
    ensures
        direct_combinational_loop_all(after) == direct_combinational_loop_all(before).push(
            direct_combinational_loop_finding(after, &edge),
        ),
{
    let n = before.signal_deps@.len() as int;
    lemma_direct_loops_unchanged(before, after, edge, n);
    assert(after.signal_deps@[n] == edge);
    lemma_sequential_targets_unchanged(before, after, edge, edge.target@);
    assert(direct_combinational_loop_hit(after, &edge));
}

/// A dependency that is not sequential writes no register: the sequential
/// targets stay what they were.
pub proof fn lemma_sequential_targets_unchanged(
    before: &Input,
    after: &Input,
    edge: SignalDep,
    name: Seq<char>,
)
    requires
        after.signal_deps@ == before.signal_deps@.push(edge),
        !edge.is_sequential,
    ensures
        sequential_target(after, name) == sequential_target(before, name),
{
    if sequential_target(before, name) {
        let i = choose|i: int|
            #![trigger before.signal_deps@[i]]
            0 <= i < before.signal_deps@.len() && before.signal_deps@[i].is_sequential
                && same_name(before.signal_deps@[i].target@, name);
        assert(after.signal_deps@[i] == before.signal_deps@[i]);
    }
    if sequential_target(after, name) {
        let i = choose|i: int|
            #![trigger after.signal_deps@[i]]
            0 <= i < after.signal_deps@.len() && after.signal_deps@[i].is_sequential
                && same_name(after.signal_deps@[i].target@, name);
        assert(i < before.signal_deps@.len());
        assert(after.signal_deps@[i] == before.signal_deps@[i]);
    }
}

/// The direct loops among the dependencies that were there before stay what they were.
pub proof fn lemma_direct_loops_unchanged(before: &Input, after: &Input, edge: SignalDep, n: int)
    requires
        after.signal_deps@ == before.signal_deps@.push(edge),
        after.signals@ == before.signals@,
        after.ports@ == before.ports@,
        after.entities@ == before.entities@,
        !edge.is_sequential,
        n <= before.signal_deps@.len(),
    ensures
        direct_combinational_loop_upto(after, n) == direct_combinational_loop_upto(before, n),
    decreases n,
{
    if n > 0 {
        lemma_direct_loops_unchanged(before, after, edge, n - 1);
        let dep = before.signal_deps@[n - 1];
        assert(after.signal_deps@[n - 1] == dep);
        lemma_sequential_targets_unchanged(before, after, edge, dep.target@);
        assert(testbench_file(after, dep.file@) == testbench_file(before, dep.file@));
        assert(resolved_signal(after, dep.target@) == resolved_signal(before, dep.target@));
    }
}

/// Dependency `i` is a candidate that joins the pair of signals `k`.
pub open spec fn joins_pair(input: &Input, i: int, k: (Seq<char>, Seq<char>)) -> bool {
    two_stage_candidate(input, &input.signal_deps@[i]) && pair_key(&input.signal_deps@[i]) == k
}

/// Some candidate among the first `n` dependencies joins the pair `k`.
pub open spec fn pair_joined(input: &Input, n: int, k: (Seq<char>, Seq<char>)) -> bool {
    exists|i: int| 0 <= i < n && #[trigger] joins_pair(input, i, k)
}

proof fn lemma_push_contains<T>(s: Seq<T>, x: T, k: T)
    ensures
        s.push(x).contains(k) == (s.contains(k) || k == x),
{
    if s.contains(k) {
        let i = choose|i: int| 0 <= i < s.len() && s[i] == k;
        assert(s.push(x)[i] == k);
    }
    if k == x {
        assert(s.push(x)[s.len() as int] == k);
    }
    if s.push(x).contains(k) {
        let i = choose|i: int| 0 <= i < s.push(x).len() && s.push(x)[i] == k;
        if i < s.len() {
            assert(s[i] == k);
        }
    }
}

proof fn lemma_push_no_duplicates<T>(s: Seq<T>, x: T)
    requires
        s.no_duplicates(),
        !s.contains(x),
    ensures
        s.push(x).no_duplicates(),
{
    assert forall|i: int, j: int|
        0 <= i < s.push(x).len() && 0 <= j < s.push(x).len() && i != j implies s.push(x)[i]
        != s.push(x)[j] by {
        if i < s.len() && j < s.len() {
            assert(s[i] != s[j]);
        } else if i < s.len() {
            assert(s[i] != x);
        } else {
            assert(s[j] != x);
        }
    }
}

/// The pairs seen after `n` dependencies are the pairs that the candidates
/// among them join, each once, and there is one finding for each.
pub proof fn lemma_seen_pairs(input: &Input, n: int)
    requires
        0 <= n <= input.signal_deps@.len(),
    ensures
        forall|k: (Seq<char>, Seq<char>)|
            #![trigger two_stage_seen_upto(input, n).contains(k)]
            #![trigger pair_joined(input, n, k)]
            two_stage_seen_upto(input, n).contains(k) == pair_joined(input, n, k),
        two_stage_seen_upto(input, n).no_duplicates(),
        two_stage_loop_upto(input, n).len() == two_stage_seen_upto(input, n).len(),
    decreases n,
{
    if n > 0 {
        lemma_seen_pairs(input, n - 1);
        let rest = two_stage_seen_upto(input, n - 1);
        let dep = &input.signal_deps@[n - 1];
        let now = two_stage_seen_upto(input, n);
        let fresh = two_stage_candidate(input, dep) && !rest.contains(pair_key(dep));
        if fresh {
            lemma_push_no_duplicates(rest, pair_key(dep));
        }
        assert forall|k: (Seq<char>, Seq<char>)|
            #![trigger now.contains(k)]
            #![trigger pair_joined(input, n, k)]
            now.contains(k) == pair_joined(input, n, k) by {
            assert(rest.contains(k) == pair_joined(input, n - 1, k));
            if fresh {
                lemma_push_contains(rest, pair_key(dep), k);
            }
            if pair_joined(input, n, k) {
                let i = choose|i: int| 0 <= i < n && #[trigger] joins_pair(input, i, k);
                if i < n - 1 {
                    assert(pair_joined(input, n - 1, k));
                } else {
                    assert(two_stage_candidate(input, dep) && pair_key(dep) == k);
                }
            }
            if now.contains(k) {
                if rest.contains(k) {
                    let i = choose|i: int| 0 <= i < n - 1 && #[trigger] joins_pair(input, i, k);
                    assert(joins_pair(input, i, k));
                } else {
                    assert(joins_pair(input, n - 1, k));
                }
            }
        }
    } else {
        assert forall|k: (Seq<char>, Seq<char>)|
            #![trigger two_stage_seen_upto(input, n).contains(k)]
            #![trigger pair_joined(input, n, k)]
            two_stage_seen_upto(input, n).contains(k) == pair_joined(input, n, k) by {}
    }
}

/// Two dependencies join the same pair exactly when their ends are the same
/// two names, in either order.
pub proof fn lemma_pair_key_is_unordered(x: &SignalDep, y: &SignalDep)
    ensures
        pair_key(x) == pair_key(y) <==> (lower(x.source@) == lower(y.source@) && lower(x.target@)
            == lower(y.target@)) || (lower(x.source@) == lower(y.target@) && lower(x.target@)
            == lower(y.source@)),
{
    let a = lower(x.source@);
    let b = lower(x.target@);
    let c = lower(y.source@);
    let d = lower(y.target@);
    crate::text::lemma_text_lt_asymmetric(a, b, 0);
    crate::text::lemma_text_lt_asymmetric(c, d, 0);
    crate::text::lemma_text_lt_total(a, b, 0);
    crate::text::lemma_text_lt_total(c, d, 0);
}

/// Two edges that are appended to the dependencies, one from `a` to `b` and
/// one back, in whatever case the names are written.
pub open spec fn appends_pair(before: &Input, after: &Input, forth: SignalDep, back: SignalDep) -> bool {
    after.signal_deps@ == before.signal_deps@.push(forth).push(back) && after.signals@
        == before.signals@ && after.ports@ == before.ports@ && !forth.is_sequential
        && !back.is_sequential && same_name(back.source@, forth.target@) && same_name(
        back.target@,
        forth.source@,
    )
        && !resolved_signal(before, forth.source@) && !resolved_signal(before, forth.target@)
        && lower(forth.source@) != lower(forth.target@)
}

proof fn lemma_edges_after(
    before: &Input,
    after: &Input,
    forth: SignalDep,
    back: SignalDep,
    from: Seq<char>,
    to: Seq<char>,
)
    requires
        appends_pair(before, after, forth, back),
    ensures
        has_edge(after, from, to) == (has_edge(before, from, to) || (same_name(
            forth.source@,
            from,
        ) && same_name(forth.target@, to)) || (same_name(forth.target@, from) && same_name(
            forth.source@,
            to,
        ))),
{
    let n = before.signal_deps@.len() as int;
    assert(after.signal_deps@[n] == forth);
    assert(after.signal_deps@[n + 1] == back);
    if has_edge(before, from, to) {
        let j = choose|j: int| 0 <= j < n && #[trigger] edge_between(before, j, from, to);
        assert(after.signal_deps@[j] == before.signal_deps@[j]);
        assert(edge_between(after, j, from, to));
    }
    if same_name(forth.source@, from) && same_name(forth.target@, to) {
        assert(edge_between(after, n, from, to));
    }
    if same_name(forth.target@, from) && same_name(forth.source@, to) {
        assert(edge_between(after, n + 1, from, to));
    }
    if has_edge(after, from, to) {
        let j = choose|j: int| 0 <= j < n + 2 && #[trigger] edge_between(after, j, from, to);
        if j < n {
            assert(after.signal_deps@[j] == before.signal_deps@[j]);
            assert(edge_between(before, j, from, to));
        }
    }
}

/// Appending an edge from one unresolved signal to another and an edge
/// back, where the two did not depend on each other before, adds exactly
/// one two-stage loop.
pub proof fn lemma_edge_pair_adds_one_loop(
    before: &Input,
    after: &Input,
    forth: SignalDep,
    back: SignalDep,
)
    requires
        appends_pair(before, after, forth, back),
        !(has_edge(before, forth.source@, forth.target@) && has_edge(
            before,
            forth.target@,
            forth.source@,
        )),
    ensures
        two_stage_loop_all(after).len() == two_stage_loop_all(before).len() + 1,
{
    let n = before.signal_deps@.len() as int;
    let new_pair = pair_key(&forth);
    let was = two_stage_seen_upto(before, n);
    let is = two_stage_seen_upto(after, n + 2);
    lemma_seen_pairs(before, n);
    lemma_seen_pairs(after, n + 2);
    assert(after.signal_deps@[n] == forth);
    assert(after.signal_deps@[n + 1] == back);
    lemma_edges_after(before, after, forth, back, forth.target@, forth.source@);
    lemma_pair_key_is_unordered(&forth, &back);
    assert(two_stage_candidate(after, &forth));
    assert(joins_pair(after, n, new_pair));
    assert(!was.contains(new_pair)) by {
        assert(was.contains(new_pair) == pair_joined(before, n, new_pair));
        if pair_joined(before, n, new_pair) {
            let i = choose|i: int| 0 <= i < n && #[trigger] joins_pair(before, i, new_pair);
            let dep = before.signal_deps@[i];
            lemma_pair_key_is_unordered(&dep, &forth);
            assert(edge_between(before, i, dep.source@, dep.target@));
            if lower(dep.source@) == lower(forth.source@) {
                assert(edge_between(before, i, forth.source@, forth.target@));
                let j = choose|j: int|
                    0 <= j < n && #[trigger] edge_between(before, j, dep.target@, dep.source@);
                assert(edge_between(before, j, forth.target@, forth.source@));
            } else {
                assert(edge_between(before, i, forth.target@, forth.source@));
                let j = choose|j: int|
                    0 <= j < n && #[trigger] edge_between(before, j, dep.target@, dep.source@);
                assert(edge_between(before, j, forth.source@, forth.target@));
            }
        }
    }
    assert forall|k: (Seq<char>, Seq<char>)| #[trigger] is.contains(k) == (was.contains(k) || k
        == new_pair) by {
        assert(was.contains(k) == pair_joined(before, n, k));
        assert(is.contains(k) == pair_joined(after, n + 2, k));
        if was.contains(k) {
            let i = choose|i: int| 0 <= i < n && #[trigger] joins_pair(before, i, k);
            let dep = before.signal_deps@[i];
            assert(after.signal_deps@[i] == dep);
            lemma_edges_after(before, after, forth, back, dep.target@, dep.source@);
            assert(joins_pair(after, i, k));
        }
        if is.contains(k) && k != new_pair {
            let i = choose|i: int| 0 <= i < n + 2 && #[trigger] joins_pair(after, i, k);
            if i < n {
                let dep = before.signal_deps@[i];
                assert(after.signal_deps@[i] == dep);
                lemma_edges_after(before, after, forth, back, dep.target@, dep.source@);
                lemma_pair_key_is_unordered(&dep, &forth);
                assert(joins_pair(before, i, k));
            }
        }
    }
    assert(is.to_set() =~= was.to_set().insert(new_pair));
    was.unique_seq_to_set();
    is.unique_seq_to_set();
}

/// A candidate among the old dependencies that joins another pair than the
/// appended one is a candidate before and after alike; and whatever was a
/// candidate before stays one.
proof fn lemma_old_candidates(
    before: &Input,
    after: &Input,
    forth: SignalDep,
    back: SignalDep,
    j: int,
    k: (Seq<char>, Seq<char>),
)
    requires
        appends_pair(before, after, forth, back),
        0 <= j < before.signal_deps@.len(),
    ensures
        joins_pair(before, j, k) ==> joins_pair(after, j, k),
        k != pair_key(&forth) ==> joins_pair(after, j, k) == joins_pair(before, j, k),
{
    let dep = before.signal_deps@[j];
    assert(after.signal_deps@[j] == dep);
    lemma_edges_after(before, after, forth, back, dep.target@, dep.source@);
    lemma_pair_key_is_unordered(&dep, &forth);
}

proof fn lemma_old_pairs_joined(
    before: &Input,
    after: &Input,
    forth: SignalDep,
    back: SignalDep,
    n: int,
    k: (Seq<char>, Seq<char>),
)
    requires
        appends_pair(before, after, forth, back),
        0 <= n <= before.signal_deps@.len(),
        k != pair_key(&forth),
    ensures
        pair_joined(after, n, k) == pair_joined(before, n, k),
{
    if pair_joined(after, n, k) {
        let j = choose|j: int| 0 <= j < n && #[trigger] joins_pair(after, j, k);
        lemma_old_candidates(before, after, forth, back, j, k);
        assert(joins_pair(before, j, k));
    }
    if pair_joined(before, n, k) {
        let j = choose|j: int| 0 <= j < n && #[trigger] joins_pair(before, j, k);
        lemma_old_candidates(before, after, forth, back, j, k);
        assert(joins_pair(after, j, k));
    }
}

/// Among the old dependencies the findings after the pair is appended are
/// those before, with at most the one finding for the new pair put in.
proof fn lemma_old_findings_kept(
    before: &Input,
    after: &Input,
    forth: SignalDep,
    back: SignalDep,
    n: int,
)
    requires
        appends_pair(before, after, forth, back),
        !pair_joined(before, before.signal_deps@.len() as int, pair_key(&forth)),
        0 <= n <= before.signal_deps@.len(),
    ensures
        !pair_joined(after, n, pair_key(&forth)) ==> two_stage_loop_upto(after, n)
            == two_stage_loop_upto(before, n),
        pair_joined(after, n, pair_key(&forth)) ==> exists|p: int|
            0 <= p < two_stage_loop_upto(after, n).len() && #[trigger] two_stage_loop_upto(
                after,
                n,
            ).remove(p) == two_stage_loop_upto(before, n),
    decreases n,
{
    let new_pair = pair_key(&forth);
    if n > 0 {
        lemma_old_findings_kept(before, after, forth, back, n - 1);
        lemma_seen_pairs(before, n - 1);
        lemma_seen_pairs(after, n - 1);
        let dep = before.signal_deps@[n - 1];
        assert(after.signal_deps@[n - 1] == dep);
        let key = pair_key(&dep);
        let was = two_stage_loop_upto(before, n - 1);
        let is = two_stage_loop_upto(after, n - 1);
        let f = two_stage_loop_finding(&dep);
        lemma_old_candidates(before, after, forth, back, n - 1, key);
        assert(two_stage_seen_upto(before, n - 1).contains(key) == pair_joined(before, n - 1, key));
        assert(two_stage_seen_upto(after, n - 1).contains(key) == pair_joined(after, n - 1, key));
        if key != new_pair {
            lemma_old_pairs_joined(before, after, forth, back, n - 1, key);
            assert(two_stage_loop_hit(after, n - 1) == two_stage_loop_hit(before, n - 1));
            assert(joins_pair(after, n - 1, new_pair) == false);
            assert(pair_joined(after, n, new_pair) == pair_joined(after, n - 1, new_pair)) by {
                if pair_joined(after, n, new_pair) {
                    let j = choose|j: int| 0 <= j < n && #[trigger] joins_pair(after, j, new_pair);
                    assert(j < n - 1);
                }
                if pair_joined(after, n - 1, new_pair) {
                    let j = choose|j: int|
                        0 <= j < n - 1 && #[trigger] joins_pair(after, j, new_pair);
                    assert(joins_pair(after, j, new_pair));
                }
            }
            if pair_joined(after, n - 1, new_pair) {
                let p = choose|p: int| 0 <= p < is.len() && #[trigger] is.remove(p) == was;
                if two_stage_loop_hit(before, n - 1) {
                    assert(is.push(f).remove(p) =~= is.remove(p).push(f));
                }
                assert(two_stage_loop_upto(after, n).remove(p) == two_stage_loop_upto(before, n));
            }
        } else {
            assert(!joins_pair(before, n - 1, new_pair)) by {
                if joins_pair(before, n - 1, new_pair) {
                    assert(pair_joined(before, before.signal_deps@.len() as int, new_pair));
                }
            }
            assert(!two_stage_loop_hit(before, n - 1));
            if joins_pair(after, n - 1, new_pair) {
                assert(pair_joined(after, n, new_pair));
                if !pair_joined(after, n - 1, new_pair) {
                    assert(two_stage_loop_hit(after, n - 1));
                    assert(is.push(f).remove(is.len() as int) =~= is);
                    assert(two_stage_loop_upto(after, n).remove(is.len() as int)
                        == two_stage_loop_upto(before, n));
                } else {
                    assert(!two_stage_loop_hit(after, n - 1));
                    let p = choose|p: int| 0 <= p < is.len() && #[trigger] is.remove(p) == was;
                    assert(two_stage_loop_upto(after, n).remove(p) == two_stage_loop_upto(
                        before,
                        n,
                    ));
                }
            } else {
                assert(!two_stage_loop_hit(after, n - 1));
                if pair_joined(after, n - 1, new_pair) {
                    let p = choose|p: int| 0 <= p < is.len() && #[trigger] is.remove(p) == was;
                    assert(two_stage_loop_upto(after, n).remove(p) == two_stage_loop_upto(
                        before,
                        n,
                    ));
                }
                assert(pair_joined(after, n, new_pair) == pair_joined(after, n - 1, new_pair)) by {
                    if pair_joined(after, n, new_pair) {
                        let j = choose|j: int|
                            0 <= j < n && #[trigger] joins_pair(after, j, new_pair);
                        assert(j < n - 1);
                    }
                    if pair_joined(after, n - 1, new_pair) {
                        let j = choose|j: int|
                            0 <= j < n - 1 && #[trigger] joins_pair(after, j, new_pair);
                        assert(joins_pair(after, j, new_pair));
                    }
                }
            }
        }
    } else {
        assert(!pair_joined(after, n, new_pair));
    }
}

/// Appending an edge from one unresolved signal to another and an edge
/// back, where the two did not depend on each other before, keeps every
/// finding in its order and puts exactly one new finding among them.
pub proof fn lemma_edge_pair_keeps_findings(
    before: &Input,
    after: &Input,
    forth: SignalDep,
    back: SignalDep,
)
    requires
        appends_pair(before, after, forth, back),
        !(has_edge(before, forth.source@, forth.target@) && has_edge(
            before,
            forth.target@,
            forth.source@,
        )),
    ensures
        exists|p: int|
            0 <= p < two_stage_loop_all(after).len() && #[trigger] two_stage_loop_all(after).remove(
                p,
            ) == two_stage_loop_all(before),
{
    let n = before.signal_deps@.len() as int;
    let new_pair = pair_key(&forth);
    lemma_seen_pairs(before, n);
    assert(after.signal_deps@[n] == forth);
    assert(after.signal_deps@[n + 1] == back);
    lemma_edges_after(before, after, forth, back, forth.target@, forth.source@);
    lemma_edges_after(before, after, forth, back, back.target@, back.source@);
    lemma_pair_key_is_unordered(&forth, &back);
    assert(!pair_joined(before, n, new_pair)) by {
        if pair_joined(before, n, new_pair) {
            let i = choose|i: int| 0 <= i < n && #[trigger] joins_pair(before, i, new_pair);
            let dep = before.signal_deps@[i];
            lemma_pair_key_is_unordered(&dep, &forth);
            assert(edge_between(before, i, dep.source@, dep.target@));
            let j = choose|j: int|
                0 <= j < n && #[trigger] edge_between(before, j, dep.target@, dep.source@);
            if lower(dep.source@) == lower(forth.source@) {
                assert(edge_between(before, i, forth.source@, forth.target@));
                assert(edge_between(before, j, forth.target@, forth.source@));
            } else {
                assert(edge_between(before, i, forth.target@, forth.source@));
                assert(edge_between(before, j, forth.source@, forth.target@));
            }
        }
    }
    lemma_old_findings_kept(before, after, forth, back, n);
    lemma_seen_pairs(after, n);
    lemma_seen_pairs(after, n + 1);
    let old = two_stage_loop_upto(after, n);
    let f = two_stage_loop_finding(&forth);
    assert(joins_pair(after, n, new_pair));
    assert(joins_pair(after, n + 1, new_pair));
    assert(pair_joined(after, n + 1, new_pair));
    assert(two_stage_seen_upto(after, n).contains(new_pair) == pair_joined(after, n, new_pair));
    assert(two_stage_seen_upto(after, n + 1).contains(new_pair));
    assert(!two_stage_loop_hit(after, n + 1));
    assert(two_stage_loop_all(after) == two_stage_loop_upto(after, n + 1));
    if pair_joined(after, n, new_pair) {
        assert(!two_stage_loop_hit(after, n));
    } else {
        assert(two_stage_loop_hit(after, n));
        assert(old.push(f).remove(old.len() as int) =~= old);
    }
}

/// Appending a dependency that repeats one already there, up to case, adds
/// no two-stage loop and changes none.
pub proof fn lemma_repeated_edge_adds_no_loop(before: &Input, after: &Input, edge: SignalDep)
    requires
        after.signal_deps@ == before.signal_deps@.push(edge),
        after.signals@ == before.signals@,
        after.ports@ == before.ports@,
        !edge.is_sequential,
        has_edge(before, edge.source@, edge.target@),
    ensures
        two_stage_loop_all(after) == two_stage_loop_all(before),
{
    let n = before.signal_deps@.len() as int;
    assert(after.signal_deps@[n] == edge);
    lemma_repeated_edge_keeps(before, after, edge, n);
    lemma_seen_pairs(after, n);
    let first = choose|j: int|
        0 <= j < n && #[trigger] edge_between(before, j, edge.source@, edge.target@);
    let twin = before.signal_deps@[first];
    assert(after.signal_deps@[first] == twin);
    if two_stage_candidate(after, &edge) {
        lemma_pair_key_is_unordered(&twin, &edge);
        lemma_same_edges(before, after, edge, twin.target@, twin.source@);
        lemma_same_edges(before, after, edge, edge.target@, edge.source@);
        assert(has_edge(after, twin.target@, twin.source@)) by {
            let j = choose|j: int|
                0 <= j < n + 1 && #[trigger] edge_between(after, j, edge.target@, edge.source@);
            assert(edge_between(after, j, twin.target@, twin.source@));
        }
        assert(joins_pair(after, first, pair_key(&edge)));
        assert(pair_joined(after, n, pair_key(&edge)));
        assert(two_stage_seen_upto(after, n).contains(pair_key(&edge)) == pair_joined(
            after,
            n,
            pair_key(&edge),
        ));
    }
}

proof fn lemma_same_edges(
    before: &Input,
    after: &Input,
    edge: SignalDep,
    from: Seq<char>,
    to: Seq<char>,
)
    requires
        after.signal_deps@ == before.signal_deps@.push(edge),
        after.signals@ == before.signals@,
        after.ports@ == before.ports@,
        !edge.is_sequential,
        has_edge(before, edge.source@, edge.target@),
    ensures
        has_edge(after, from, to) == has_edge(before, from, to),
{
    let n = before.signal_deps@.len() as int;
    assert(after.signal_deps@[n] == edge);
    if has_edge(before, from, to) {
        let j = choose|j: int| 0 <= j < n && #[trigger] edge_between(before, j, from, to);
        assert(after.signal_deps@[j] == before.signal_deps@[j]);
        assert(edge_between(after, j, from, to));
    }
    if has_edge(after, from, to) {
        let j = choose|j: int| 0 <= j < n + 1 && #[trigger] edge_between(after, j, from, to);
        if j < n {
            assert(after.signal_deps@[j] == before.signal_deps@[j]);
            assert(edge_between(before, j, from, to));
        } else {
            let k = choose|k: int|
                0 <= k < n && #[trigger] edge_between(before, k, edge.source@, edge.target@);
            assert(edge_between(before, k, from, to));
        }
    }
}

proof fn lemma_repeated_edge_keeps(before: &Input, after: &Input, edge: SignalDep, n: int)
    requires
        after.signal_deps@ == before.signal_deps@.push(edge),
        after.signals@ == before.signals@,
        after.ports@ == before.ports@,
        !edge.is_sequential,
        has_edge(before, edge.source@, edge.target@),
        0 <= n <= before.signal_deps@.len(),
    ensures
        two_stage_loop_upto(after, n) == two_stage_loop_upto(before, n),
        two_stage_seen_upto(after, n) == two_stage_seen_upto(before, n),
    decreases n,
{
    if n > 0 {
        lemma_repeated_edge_keeps(before, after, edge, n - 1);
        let dep = before.signal_deps@[n - 1];
        assert(after.signal_deps@[n - 1] == dep);
        lemma_same_edges(before, after, edge, dep.target@, dep.source@);
    }
}

/// Whether a dependency is a direct loop does not depend on the case in
/// which its two ends are written.
pub proof fn lemma_direct_loop_ignores_case(input: &Input, first: &SignalDep, second: &SignalDep)
    requires
        same_name(first.source@, second.source@),
        same_name(first.target@, second.target@),
        first.is_sequential == second.is_sequential,
        first.file@ == second.file@,
    ensures
        direct_combinational_loop_hit(input, first) == direct_combinational_loop_hit(input, second),
{
    assert(forall|x: Seq<char>| same_name(x, first.target@) == same_name(x, second.target@));
    assert(sequential_target(input, first.target@) == sequential_target(input, second.target@));
    assert(resolved_signal(input, first.target@) == resolved_signal(input, second.target@));
}

} // verus!
