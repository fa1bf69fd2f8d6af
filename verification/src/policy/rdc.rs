//! Reset domains: resets that cross clock domains or lack synchronizers.
use vstd::prelude::*;
use crate::text::{
    chars_contain, contains, holds, lower, lower_chars_of, lower_contains, same, same_name, str_eq,
};
use crate::policy::helpers::{reset_name, is_reset_name, listed, signal_in_list};
use crate::policy::input::{Input, Process, ConcurrentAssignment};
use crate::policy::result::{Violation, ViolationView, views, group_views};

verus! {

/// The reset-domain findings that always run.
pub open spec fn violations_all(input: &Input) -> Seq<ViolationView> {
    reset_crosses_domains_all(input)
}

pub fn violations(input: &Input) -> (out: Vec<Violation>)
    ensures
        views(out@) == violations_all(input),
{
    reset_crosses_domains(input)
}

/// The reset-domain findings that run only when configured.
pub open spec fn optional_violations_all(input: &Input) -> Seq<ViolationView> {
    combinational_reset_gen_all(input) + async_reset_unsynchronized_all(input)
        + partial_reset_domain_all(input) + short_reset_sync_all(input)
}

pub fn optional_violations(input: &Input) -> (out: Vec<Violation>)
    ensures
        views(out@) == optional_violations_all(input),
{
    broadcast use group_views;

    let mut out: Vec<Violation> = Vec::new();
    let mut part = combinational_reset_gen(input);
    out.append(&mut part);
    let mut part = async_reset_unsynchronized(input);
    out.append(&mut part);
    let mut part = partial_reset_domain(input);
    out.append(&mut part);
    let mut part = short_reset_sync(input);
    out.append(&mut part);
    out
}

/// An asynchronous reset without a synchronizer in the clock domain of the process.
pub open spec fn async_reset_unsynchronized_hit(input: &Input, proc: &Process) -> bool {
    proc.is_sequential && proc.has_reset && proc.reset_signal@.len() > 0
        && listed(proc.sensitivity_list@, proc.reset_signal@)
        && !reset_synchronized(input, proc.reset_signal@, proc.clock_signal@)
}

pub open spec fn async_reset_unsynchronized_finding(input: &Input, proc: &Process) -> ViolationView {
    ViolationView {
        rule: "async_reset_unsynchronized"@,
        severity: "warning"@,
        file: proc.file@,
        line: proc.line as nat,
        message: "Async reset '"@ + proc.reset_signal@ + "' used directly in process '"@
            + proc.label@ + "' - needs synchronization to '"@ + proc.clock_signal@
            + "' clock domain"@,
    }
}

/// The findings for the first `n` rows, in row order.
pub open spec fn async_reset_unsynchronized_upto(input: &Input, n: int) -> Seq<ViolationView>
    decreases n,
{
    if n <= 0 {
        Seq::empty()
    } else {
        let rest = async_reset_unsynchronized_upto(input, n - 1);
        let proc = &input.processes@[n - 1];
        if async_reset_unsynchronized_hit(input, proc) {
            rest.push(async_reset_unsynchronized_finding(input, proc))
        } else {
            rest
        }
    }
}

pub open spec fn async_reset_unsynchronized_all(input: &Input) -> Seq<ViolationView> {
    async_reset_unsynchronized_upto(input, input.processes@.len() as int)
}

pub fn async_reset_unsynchronized(input: &Input) -> (out: Vec<Violation>)
    ensures
        views(out@) == async_reset_unsynchronized_all(input),
{
    broadcast use group_views;

    let mut out: Vec<Violation> = Vec::new();
    let mut i: usize = 0;
    while i < input.processes.len()
        invariant
            i <= input.processes@.len(),
            views(out@) == async_reset_unsynchronized_upto(input, i as int),
        decreases input.processes@.len() - i,
    {
        let proc = &input.processes[i];
        if proc.is_sequential && proc.has_reset && !proc.reset_signal.as_str().is_empty()
            && signal_in_list(proc.reset_signal.as_str(), proc.sensitivity_list.as_slice())
           
               
                    && !has_reset_synchronizer(input, proc.reset_signal.as_str(), proc.clock_signal.as_str()) {
            let mut message = String::from_str("Async reset '");
            message.append(proc.reset_signal.as_str());
            message.append("' used directly in process '");
            message.append(proc.label.as_str());
            message.append("' - needs synchronization to '");
            message.append(proc.clock_signal.as_str());
            message.append("' clock domain");
            out.push(
                Violation {
                    rule: String::from_str("async_reset_unsynchronized"),
                    severity: String::from_str("warning"),
                    file: proc.file.clone(),
                    line: proc.line,
                    message,
                },
            );
        }
        i += 1;
    }
    out
}

/// The process assigns a synchronized copy of the reset.
pub open spec fn assigns_sync(proc: &Process, reset_sig: Seq<char>) -> bool {
    exists|i: int|
        #![trigger proc.assigned_signals@[i]]
        0 <= i < proc.assigned_signals@.len() && ({
            let assigned = &proc.assigned_signals@[i];
            sync_name(assigned@, reset_sig)
        })
}

pub fn assigns_synchronized(proc: &Process, reset_sig: &str) -> (r: bool)
    ensures
        r == assigns_sync(proc, reset_sig@),
{
    let mut i: usize = 0;
    while i < proc.assigned_signals.len()
        invariant
            i <= proc.assigned_signals@.len(),
            forall|j: int|
                #![trigger proc.assigned_signals@[j]]
                0 <= j < i ==> !({
                    let assigned = &proc.assigned_signals@[j];
                    sync_name(assigned@, reset_sig@)
                }),
        decreases proc.assigned_signals@.len() - i,
    {
        let assigned = &proc.assigned_signals[i];
        if is_sync_name(assigned.as_str(), reset_sig) {
            return true;
        }
        i += 1;
    }
    false
}

/// Some sequential process of the clock reads the reset and assigns a synchronized copy of it.
pub open spec fn reset_synchronized(input: &Input, reset_sig: Seq<char>, clock_sig: Seq<char>) -> bool {
    exists|i: int|
        #![trigger input.processes@[i]]
        0 <= i < input.processes@.len() && ({
            let proc = &input.processes@[i];
            proc.is_sequential && same_name(proc.clock_signal@, clock_sig)
                && listed(proc.read_signals@, reset_sig) && assigns_sync(proc, reset_sig)
        })
}

pub fn has_reset_synchronizer(input: &Input, reset_sig: &str, clock_sig: &str) -> (r: bool)
    ensures
        r == reset_synchronized(input, reset_sig@, clock_sig@),
{
    let mut i: usize = 0;
    while i < input.processes.len()
        invariant
            i <= input.processes@.len(),
            forall|j: int|
                #![trigger input.processes@[j]]
                0 <= j < i ==> !({
                    let proc = &input.processes@[j];
                    proc.is_sequential && same_name(proc.clock_signal@, clock_sig@)
                        && listed(proc.read_signals@, reset_sig@) && assigns_sync(proc, reset_sig@)
                }),
        decreases input.processes@.len() - i,
    {
        let proc = &input.processes[i];
        if proc.is_sequential && same(proc.clock_signal.as_str(), clock_sig)
            && signal_in_list(reset_sig, proc.read_signals.as_slice())
            && assigns_synchronized(proc, reset_sig) {
            return true;
        }
        i += 1;
    }
    false
}

/// A name that holds a synchronizer-stage suffix.
pub open spec fn stage_suffix(l: Seq<char>) -> bool {
    contains(l, "_sync"@) || contains(l, "_synced"@) || contains(l, "_meta"@) || contains(l, "_d1"@)
        || contains(l, "_d2"@) || contains(l, "_ff1"@) || contains(l, "_ff2"@)
}

/// The assigned name is a synchronized copy of the reset: it holds the
/// reset's name and a stage suffix, or it is a reset name that holds `sync`.
pub open spec fn sync_name(assigned: Seq<char>, reset_sig: Seq<char>) -> bool {
    let a = lower(assigned);
    (contains(a, lower(reset_sig)) && stage_suffix(a)) || (contains(a, "sync"@) && reset_name(
        assigned,
    ))
}

pub fn is_sync_name(assigned: &str, reset_sig: &str) -> (r: bool)
    ensures
        r == sync_name(assigned@, reset_sig@),
{
    let a = lower_chars_of(assigned);
    let rs = lower_chars_of(reset_sig);
    if chars_contain(&a, &rs) && (holds(&a, "_sync") || holds(&a, "_synced") || holds(&a, "_meta")
        || holds(&a, "_d1") || holds(&a, "_d2") || holds(&a, "_ff1") || holds(&a, "_ff2")) {
        return true;
    }
    holds(&a, "sync") && is_reset_name(assigned)
}

/// Every pair of processes that share a reset and run on different clocks, reported once at the process on the earlier line.
pub open spec fn reset_crosses_domains_upto(input: &Input, n: int) -> Seq<ViolationView>
    decreases n,
{
    if n <= 0 {
        Seq::empty()
    } else {
        let rest = reset_crosses_domains_upto(input, n - 1);
        let proc1 = &input.processes@[n - 1];
        if proc1.has_reset && proc1.reset_signal@.len() > 0 {
            rest + reset_shared_with_all(input, proc1)
        } else {
            rest
        }
    }
}

pub open spec fn reset_crosses_domains_all(input: &Input) -> Seq<ViolationView> {
    reset_crosses_domains_upto(input, input.processes@.len() as int)
}

pub fn reset_crosses_domains(input: &Input) -> (out: Vec<Violation>)
    ensures
        views(out@) == reset_crosses_domains_all(input),
{
    broadcast use group_views;

    let mut out: Vec<Violation> = Vec::new();
    let mut i: usize = 0;
    while i < input.processes.len()
        invariant
            i <= input.processes@.len(),
            views(out@) == reset_crosses_domains_upto(input, i as int),
        decreases input.processes@.len() - i,
    {
        let proc1 = &input.processes[i];
        if proc1.has_reset && !proc1.reset_signal.as_str().is_empty() {
            let mut part = reset_shared_with(input, proc1);
            out.append(&mut part);
        }
        i += 1;
    }
    out
}

/// A later process with the same reset and another clock.
pub open spec fn reset_shared_with_hit(input: &Input, proc1: &Process, proc2: &Process) -> bool {
    proc2.has_reset && same_name(proc2.reset_signal@, proc1.reset_signal@)
        && proc1.clock_signal@.len() > 0
        && proc2.clock_signal@.len() > 0 && !same_name(proc1.clock_signal@, proc2.clock_signal@)
        && proc1.line < proc2.line
}

pub open spec fn reset_shared_with_finding(input: &Input, proc1: &Process, proc2: &Process) -> ViolationView {
    ViolationView {
        rule: "reset_crosses_domains"@,
        severity: "error"@,
        file: proc1.file@,
        line: proc1.line as nat,
        message: "Reset '"@ + proc1.reset_signal@ + "' used in multiple clock domains ('"@
            + proc1.clock_signal@ + "' and '"@ + proc2.clock_signal@
            + "') - each domain needs synchronized reset"@,
    }
}

/// The findings for the first `n` rows, in row order.
pub open spec fn reset_shared_with_upto(input: &Input, proc1: &Process, n: int) -> Seq<ViolationView>
    decreases n,
{
    if n <= 0 {
        Seq::empty()
    } else {
        let rest = reset_shared_with_upto(input, proc1, n - 1);
        let proc2 = &input.processes@[n - 1];
        if reset_shared_with_hit(input, proc1, proc2) {
            rest.push(reset_shared_with_finding(input, proc1, proc2))
        } else {
            rest
        }
    }
}

pub open spec fn reset_shared_with_all(input: &Input, proc1: &Process) -> Seq<ViolationView> {
    reset_shared_with_upto(input, proc1, input.processes@.len() as int)
}

pub fn reset_shared_with(input: &Input, proc1: &Process) -> (out: Vec<Violation>)
    ensures
        views(out@) == reset_shared_with_all(input, proc1),
{
    broadcast use group_views;

    let mut out: Vec<Violation> = Vec::new();
    let mut i: usize = 0;
    while i < input.processes.len()
        invariant
            i <= input.processes@.len(),
            views(out@) == reset_shared_with_upto(input, proc1, i as int),
        decreases input.processes@.len() - i,
    {
        let proc2 = &input.processes[i];
        if proc2.has_reset && same(proc2.reset_signal.as_str(), proc1.reset_signal.as_str())
            && !proc1.clock_signal.as_str().is_empty() && !proc2.clock_signal.as_str().is_empty()
            && !same(proc1.clock_signal.as_str(), proc2.clock_signal.as_str())
            && proc1.line < proc2.line {
            let mut message = String::from_str("Reset '");
            message.append(proc1.reset_signal.as_str());
            message.append("' used in multiple clock domains ('");
            message.append(proc1.clock_signal.as_str());
            message.append("' and '");
            message.append(proc2.clock_signal.as_str());
            message.append("') - each domain needs synchronized reset");
            out.push(
                Violation {
                    rule: String::from_str("reset_crosses_domains"),
                    severity: String::from_str("error"),
                    file: proc1.file.clone(),
                    line: proc1.line,
                    message,
                },
            );
        }
        i += 1;
    }
    out
}

/// For every sequential process with reset: the sequential processes of the same clock and file that have none.
pub open spec fn partial_reset_domain_upto(input: &Input, n: int) -> Seq<ViolationView>
    decreases n,
{
    if n <= 0 {
        Seq::empty()
    } else {
        let rest = partial_reset_domain_upto(input, n - 1);
        let proc1 = &input.processes@[n - 1];
        if proc1.is_sequential && proc1.has_reset && proc1.clock_signal@.len() > 0 {
            rest + unreset_in_domain_of_all(input, proc1)
        } else {
            rest
        }
    }
}

pub open spec fn partial_reset_domain_all(input: &Input) -> Seq<ViolationView> {
    partial_reset_domain_upto(input, input.processes@.len() as int)
}

pub fn partial_reset_domain(input: &Input) -> (out: Vec<Violation>)
    ensures
        views(out@) == partial_reset_domain_all(input),
{
    broadcast use group_views;

    let mut out: Vec<Violation> = Vec::new();
    let mut i: usize = 0;
    while i < input.processes.len()
        invariant
            i <= input.processes@.len(),
            views(out@) == partial_reset_domain_upto(input, i as int),
        decreases input.processes@.len() - i,
    {
        let proc1 = &input.processes[i];
        if proc1.is_sequential && proc1.has_reset && !proc1.clock_signal.as_str().is_empty() {
            let mut part = unreset_in_domain_of(input, proc1);
            out.append(&mut part);
        }
        i += 1;
    }
    out
}

/// A sequential process without reset in the clock domain and file of `proc1`.
pub open spec fn unreset_in_domain_of_hit(input: &Input, proc1: &Process, proc2: &Process) -> bool {
    proc2.is_sequential && !proc2.has_reset && same_name(proc2.clock_signal@, proc1.clock_signal@)
        && proc2.file@ == proc1.file@ && proc2.assigned_signals@.len() > 0
}

pub open spec fn unreset_in_domain_of_finding(input: &Input, proc1: &Process, proc2: &Process) -> ViolationView {
    ViolationView {
        rule: "partial_reset_domain"@,
        severity: "warning"@,
        file: proc2.file@,
        line: proc2.line as nat,
        message: "Process '"@ + proc2.label@ + "' in clock domain '"@ + proc2.clock_signal@
           
               
                    + "' has no reset, but other processes in same domain do - potential state inconsistency"@,
    }
}

/// The findings for the first `n` rows, in row order.
pub open spec fn unreset_in_domain_of_upto(input: &Input, proc1: &Process, n: int) -> Seq<ViolationView>
    decreases n,
{
    if n <= 0 {
        Seq::empty()
    } else {
        let rest = unreset_in_domain_of_upto(input, proc1, n - 1);
        let proc2 = &input.processes@[n - 1];
        if unreset_in_domain_of_hit(input, proc1, proc2) {
            rest.push(unreset_in_domain_of_finding(input, proc1, proc2))
        } else {
            rest
        }
    }
}

pub open spec fn unreset_in_domain_of_all(input: &Input, proc1: &Process) -> Seq<ViolationView> {
    unreset_in_domain_of_upto(input, proc1, input.processes@.len() as int)
}

pub fn unreset_in_domain_of(input: &Input, proc1: &Process) -> (out: Vec<Violation>)
    ensures
        views(out@) == unreset_in_domain_of_all(input, proc1),
{
    broadcast use group_views;

    let mut out: Vec<Violation> = Vec::new();
    let mut i: usize = 0;
    while i < input.processes.len()
        invariant
            i <= input.processes@.len(),
            views(out@) == unreset_in_domain_of_upto(input, proc1, i as int),
        decreases input.processes@.len() - i,
    {
        let proc2 = &input.processes[i];
        if proc2.is_sequential && !proc2.has_reset
            && same(proc2.clock_signal.as_str(), proc1.clock_signal.as_str())
            && str_eq(proc2.file.as_str(), proc1.file.as_str())
            && proc2.assigned_signals.len() > 0 {
            let mut message = String::from_str("Process '");
            message.append(proc2.label.as_str());
            message.append("' in clock domain '");
            message.append(proc2.clock_signal.as_str());
            message.append("' has no reset, but other processes in same domain do - potential state inconsistency");
            out.push(
                Violation {
                    rule: String::from_str("partial_reset_domain"),
                    severity: String::from_str("warning"),
                    file: proc2.file.clone(),
                    line: proc2.line,
                    message,
                },
            );
        }
        i += 1;
    }
    out
}

/// For every process with reset: the concurrent assignments that compute its reset from several signals.
pub open spec fn combinational_reset_gen_upto(input: &Input, n: int) -> Seq<ViolationView>
    decreases n,
{
    if n <= 0 {
        Seq::empty()
    } else {
        let rest = combinational_reset_gen_upto(input, n - 1);
        let proc = &input.processes@[n - 1];
        if proc.has_reset {
            rest + reset_generated_for_all(input, proc)
        } else {
            rest
        }
    }
}

pub open spec fn combinational_reset_gen_all(input: &Input) -> Seq<ViolationView> {
    combinational_reset_gen_upto(input, input.processes@.len() as int)
}

pub fn combinational_reset_gen(input: &Input) -> (out: Vec<Violation>)
    ensures
        views(out@) == combinational_reset_gen_all(input),
{
    broadcast use group_views;

    let mut out: Vec<Violation> = Vec::new();
    let mut i: usize = 0;
    while i < input.processes.len()
        invariant
            i <= input.processes@.len(),
            views(out@) == combinational_reset_gen_upto(input, i as int),
        decreases input.processes@.len() - i,
    {
        let proc = &input.processes[i];
        if proc.has_reset {
            let mut part = reset_generated_for(input, proc);
            out.append(&mut part);
        }
        i += 1;
    }
    out
}

/// A concurrent assignment to the reset that reads more than one signal.
pub open spec fn reset_generated_for_hit(input: &Input, proc: &Process, ca: &ConcurrentAssignment) -> bool {
    same_name(ca.target@, proc.reset_signal@) && ca.read_signals@.len() > 1
}

pub open spec fn reset_generated_for_finding(input: &Input, proc: &Process, ca: &ConcurrentAssignment) -> ViolationView {
    ViolationView {
        rule: "combinational_reset_gen"@,
        severity: "error"@,
        file: ca.file@,
        line: ca.line as nat,
        message: "Reset signal '"@ + proc.reset_signal@
            + "' generated by combinational logic - prone to glitches"@,
    }
}

/// The findings for the first `n` rows, in row order.
pub open spec fn reset_generated_for_upto(input: &Input, proc: &Process, n: int) -> Seq<ViolationView>
    decreases n,
{
    if n <= 0 {
        Seq::empty()
    } else {
        let rest = reset_generated_for_upto(input, proc, n - 1);
        let ca = &input.concurrent_assignments@[n - 1];
        if reset_generated_for_hit(input, proc, ca) {
            rest.push(reset_generated_for_finding(input, proc, ca))
        } else {
            rest
        }
    }
}

pub open spec fn reset_generated_for_all(input: &Input, proc: &Process) -> Seq<ViolationView> {
    reset_generated_for_upto(input, proc, input.concurrent_assignments@.len() as int)
}

pub fn reset_generated_for(input: &Input, proc: &Process) -> (out: Vec<Violation>)
    ensures
        views(out@) == reset_generated_for_all(input, proc),
{
    broadcast use group_views;

    let mut out: Vec<Violation> = Vec::new();
    let mut i: usize = 0;
    while i < input.concurrent_assignments.len()
        invariant
            i <= input.concurrent_assignments@.len(),
            views(out@) == reset_generated_for_upto(input, proc, i as int),
        decreases input.concurrent_assignments@.len() - i,
    {
        let ca = &input.concurrent_assignments[i];
        if same(ca.target.as_str(), proc.reset_signal.as_str()) && ca.read_signals.len() > 1 {
            let mut message = String::from_str("Reset signal '");
            message.append(proc.reset_signal.as_str());
            message.append("' generated by combinational logic - prone to glitches");
            out.push(
                Violation {
                    rule: String::from_str("combinational_reset_gen"),
                    severity: String::from_str("error"),
                    file: ca.file.clone(),
                    line: ca.line,
                    message,
                },
            );
        }
        i += 1;
    }
    out
}

/// In sequential processes: every reset synchronizer without second stage.
pub open spec fn short_reset_sync_upto(input: &Input, n: int) -> Seq<ViolationView>
    decreases n,
{
    if n <= 0 {
        Seq::empty()
    } else {
        let rest = short_reset_sync_upto(input, n - 1);
        let proc = &input.processes@[n - 1];
        if proc.is_sequential {
            rest + single_stage_sync_in_all(input, proc)
        } else {
            rest
        }
    }
}

pub open spec fn short_reset_sync_all(input: &Input) -> Seq<ViolationView> {
    short_reset_sync_upto(input, input.processes@.len() as int)
}

pub fn short_reset_sync(input: &Input) -> (out: Vec<Violation>)
    ensures
        views(out@) == short_reset_sync_all(input),
{
    broadcast use group_views;

    let mut out: Vec<Violation> = Vec::new();
    let mut i: usize = 0;
    while i < input.processes.len()
        invariant
            i <= input.processes@.len(),
            views(out@) == short_reset_sync_upto(input, i as int),
        decreases input.processes@.len() - i,
    {
        let proc = &input.processes[i];
        if proc.is_sequential {
            let mut part = single_stage_sync_in(input, proc);
            out.append(&mut part);
        }
        i += 1;
    }
    out
}

/// An assigned reset name that holds `sync`, with no second stage beside it.
pub open spec fn single_stage_sync_in_hit(input: &Input, proc: &Process, assigned: &String) -> bool {
    contains(lower(assigned@), "sync"@) && reset_name(assigned@)
        && !second_stage_in(&proc.assigned_signals, assigned@)
}

pub open spec fn single_stage_sync_in_finding(input: &Input, proc: &Process, assigned: &String) -> ViolationView {
    ViolationView {
        rule: "short_reset_sync"@,
        severity: "warning"@,
        file: proc.file@,
        line: proc.line as nat,
        message: "Reset synchronizer '"@ + assigned@
            + "' appears to be single-stage - use 2+ stages for metastability"@,
    }
}

/// The findings for the first `n` rows, in row order.
pub open spec fn single_stage_sync_in_upto(input: &Input, proc: &Process, n: int) -> Seq<ViolationView>
    decreases n,
{
    if n <= 0 {
        Seq::empty()
    } else {
        let rest = single_stage_sync_in_upto(input, proc, n - 1);
        let assigned = &proc.assigned_signals@[n - 1];
        if single_stage_sync_in_hit(input, proc, assigned) {
            rest.push(single_stage_sync_in_finding(input, proc, assigned))
        } else {
            rest
        }
    }
}

pub open spec fn single_stage_sync_in_all(input: &Input, proc: &Process) -> Seq<ViolationView> {
    single_stage_sync_in_upto(input, proc, proc.assigned_signals@.len() as int)
}

pub fn single_stage_sync_in(input: &Input, proc: &Process) -> (out: Vec<Violation>)
    ensures
        views(out@) == single_stage_sync_in_all(input, proc),
{
    broadcast use group_views;

    let mut out: Vec<Violation> = Vec::new();
    let mut i: usize = 0;
    while i < proc.assigned_signals.len()
        invariant
            i <= proc.assigned_signals@.len(),
            views(out@) == single_stage_sync_in_upto(input, proc, i as int),
        decreases proc.assigned_signals@.len() - i,
    {
        let assigned = &proc.assigned_signals[i];
        if lower_contains(assigned.as_str(), "sync") && is_reset_name(assigned.as_str())
            && !has_second_stage(&proc.assigned_signals, assigned.as_str()) {
            let mut message = String::from_str("Reset synchronizer '");
            message.append(assigned.as_str());
            message.append("' appears to be single-stage - use 2+ stages for metastability");
            out.push(
                Violation {
                    rule: String::from_str("short_reset_sync"),
                    severity: String::from_str("warning"),
                    file: proc.file.clone(),
                    line: proc.line,
                    message,
                },
            );
        }
        i += 1;
    }
    out
}

/// Some other signal of the list is a second synchronizer stage.
pub open spec fn second_stage_in(signals: &Vec<String>, first_stage: Seq<char>) -> bool {
    exists|i: int|
        #![trigger signals@[i]]
        0 <= i < signals@.len() && ({
            let sig = &signals@[i];
            !same_name(sig@, first_stage)
               
                   
                        && ((contains(lower(sig@), "sync"@) && contains(lower(sig@), "2"@)) || contains(lower(sig@), "meta"@))
        })
}

pub fn has_second_stage(signals: &Vec<String>, first_stage: &str) -> (r: bool)
    ensures
        r == second_stage_in(signals, first_stage@),
{
    let mut i: usize = 0;
    while i < signals.len()
        invariant
            i <= signals@.len(),
            forall|j: int|
                #![trigger signals@[j]]
                0 <= j < i ==> !({
                    let sig = &signals@[j];
                    !same_name(sig@, first_stage@)
                       
                           
                                && ((contains(lower(sig@), "sync"@) && contains(lower(sig@), "2"@)) || contains(lower(sig@), "meta"@))
                }),
        decreases signals@.len() - i,
    {
        let sig = &signals[i];
        if !same(sig.as_str(), first_stage)
           
               
                    && ((lower_contains(sig.as_str(), "sync") && lower_contains(sig.as_str(), "2")) || lower_contains(sig.as_str(), "meta")) {
            return true;
        }
        i += 1;
    }
    false
}

} // verus!
