//! Sequential processes: clocks, resets and registers.
use vstd::prelude::*;
use crate::text::{
    decimal, decimal_text, ends_with, lower, lower_ends_with, same, same_name, str_eq,
};
use crate::policy::helpers::{
    reset_name, is_reset_name, listed, signal_in_list, has_all_sensitivity, actual_signal,
    is_actual_signal, composite_identifier, is_composite_identifier,
};
use crate::policy::input::{Input, Process};
use crate::policy::result::{Violation, ViolationView, views, group_views};

verus! {

/// The findings about sequential processes that always run.
pub open spec fn violations_all(input: &Input) -> Seq<ViolationView> {
    missing_clock_sensitivity_all(input) + signal_in_seq_and_comb_all(input)
}

pub fn violations(input: &Input) -> (out: Vec<Violation>)
    ensures
        views(out@) == violations_all(input),
{
    broadcast use group_views;

    let mut out: Vec<Violation> = Vec::new();
    let mut part = missing_clock_sensitivity(input);
    out.append(&mut part);
    let mut part = signal_in_seq_and_comb(input);
    out.append(&mut part);
    out
}

/// The findings about sequential processes that run only when configured.
pub open spec fn optional_violations_all(input: &Input) -> Seq<ViolationView> {
    missing_reset_sensitivity_all(input) + very_wide_register_all(input)
        + mixed_edge_clocking_all(input) + async_reset_naming_all(input)
}

pub fn optional_violations(input: &Input) -> (out: Vec<Violation>)
    ensures
        views(out@) == optional_violations_all(input),
{
    broadcast use group_views;

    let mut out: Vec<Violation> = Vec::new();
    let mut part = missing_reset_sensitivity(input);
    out.append(&mut part);
    let mut part = very_wide_register(input);
    out.append(&mut part);
    let mut part = mixed_edge_clocking(input);
    out.append(&mut part);
    let mut part = async_reset_naming(input);
    out.append(&mut part);
    out
}

/// A sequential process without wait statements whose clock is not in its sensitivity list.
pub open spec fn missing_clock_sensitivity_hit(input: &Input, proc: &Process) -> bool {
    proc.is_sequential && proc.clock_signal@.len() > 0 && proc.wait_statements@.len() == 0
        && !listed(proc.sensitivity_list@, "all"@)
        && !listed(proc.sensitivity_list@, proc.clock_signal@)
}

pub open spec fn missing_clock_sensitivity_finding(input: &Input, proc: &Process) -> ViolationView {
    ViolationView {
        rule: "missing_clock_sensitivity"@,
        severity: "error"@,
        file: proc.file@,
        line: proc.line as nat,
        message: "Sequential process '"@ + proc.label@ + "' uses clock '"@ + proc.clock_signal@
            + "' but it's not in sensitivity list"@,
    }
}

/// The findings for the first `n` rows, in row order.
pub open spec fn missing_clock_sensitivity_upto(input: &Input, n: int) -> Seq<ViolationView>
    decreases n,
{
    if n <= 0 {
        Seq::empty()
    } else {
        let rest = missing_clock_sensitivity_upto(input, n - 1);
        let proc = &input.processes@[n - 1];
        if missing_clock_sensitivity_hit(input, proc) {
            rest.push(missing_clock_sensitivity_finding(input, proc))
        } else {
            rest
        }
    }
}

pub open spec fn missing_clock_sensitivity_all(input: &Input) -> Seq<ViolationView> {
    missing_clock_sensitivity_upto(input, input.processes@.len() as int)
}

pub fn missing_clock_sensitivity(input: &Input) -> (out: Vec<Violation>)
    ensures
        views(out@) == missing_clock_sensitivity_all(input),
{
    broadcast use group_views;

    let mut out: Vec<Violation> = Vec::new();
    let mut i: usize = 0;
    while i < input.processes.len()
        invariant
            i <= input.processes@.len(),
            views(out@) == missing_clock_sensitivity_upto(input, i as int),
        decreases input.processes@.len() - i,
    {
        let proc = &input.processes[i];
        if proc.is_sequential && !proc.clock_signal.as_str().is_empty()
            && proc.wait_statements.len() == 0
            && !has_all_sensitivity(proc.sensitivity_list.as_slice())
            && !signal_in_list(proc.clock_signal.as_str(), proc.sensitivity_list.as_slice()) {
            let mut message = String::from_str("Sequential process '");
            message.append(proc.label.as_str());
            message.append("' uses clock '");
            message.append(proc.clock_signal.as_str());
            message.append("' but it's not in sensitivity list");
            out.push(
                Violation {
                    rule: String::from_str("missing_clock_sensitivity"),
                    severity: String::from_str("error"),
                    file: proc.file.clone(),
                    line: proc.line,
                    message,
                },
            );
        }
        i += 1;
    }
    out
}

/// A sequential process whose asynchronous reset is not in its sensitivity list.
pub open spec fn missing_reset_sensitivity_hit(input: &Input, proc: &Process) -> bool {
    proc.is_sequential && proc.has_reset && proc.reset_signal@.len() > 0 && proc.reset_async
        && !listed(proc.sensitivity_list@, "all"@)
        && !listed(proc.sensitivity_list@, proc.reset_signal@)
}

pub open spec fn missing_reset_sensitivity_finding(input: &Input, proc: &Process) -> ViolationView {
    ViolationView {
        rule: "missing_reset_sensitivity"@,
        severity: "warning"@,
        file: proc.file@,
        line: proc.line as nat,
        message: "Process '"@ + proc.label@ + "' uses reset '"@ + proc.reset_signal@
            + "' but it's not in sensitivity list (sync reset?)"@,
    }
}

/// The findings for the first `n` rows, in row order.
pub open spec fn missing_reset_sensitivity_upto(input: &Input, n: int) -> Seq<ViolationView>
    decreases n,
{
    if n <= 0 {
        Seq::empty()
    } else {
        let rest = missing_reset_sensitivity_upto(input, n - 1);
        let proc = &input.processes@[n - 1];
        if missing_reset_sensitivity_hit(input, proc) {
            rest.push(missing_reset_sensitivity_finding(input, proc))
        } else {
            rest
        }
    }
}

pub open spec fn missing_reset_sensitivity_all(input: &Input) -> Seq<ViolationView> {
    missing_reset_sensitivity_upto(input, input.processes@.len() as int)
}

pub fn missing_reset_sensitivity(input: &Input) -> (out: Vec<Violation>)
    ensures
        views(out@) == missing_reset_sensitivity_all(input),
{
    broadcast use group_views;

    let mut out: Vec<Violation> = Vec::new();
    let mut i: usize = 0;
    while i < input.processes.len()
        invariant
            i <= input.processes@.len(),
            views(out@) == missing_reset_sensitivity_upto(input, i as int),
        decreases input.processes@.len() - i,
    {
        let proc = &input.processes[i];
        if proc.is_sequential && proc.has_reset && !proc.reset_signal.as_str().is_empty()
            && proc.reset_async && !has_all_sensitivity(proc.sensitivity_list.as_slice())
            && !signal_in_list(proc.reset_signal.as_str(), proc.sensitivity_list.as_slice()) {
            let mut message = String::from_str("Process '");
            message.append(proc.label.as_str());
            message.append("' uses reset '");
            message.append(proc.reset_signal.as_str());
            message.append("' but it's not in sensitivity list (sync reset?)");
            out.push(
                Violation {
                    rule: String::from_str("missing_reset_sensitivity"),
                    severity: String::from_str("warning"),
                    file: proc.file.clone(),
                    line: proc.line,
                    message,
                },
            );
        }
        i += 1;
    }
    out
}

/// A sequential process that assigns more than fifteen signals.
pub open spec fn very_wide_register_hit(input: &Input, proc: &Process) -> bool {
    proc.is_sequential && proc.assigned_signals@.len() > 15
}

pub open spec fn very_wide_register_finding(input: &Input, proc: &Process) -> ViolationView {
    ViolationView {
        rule: "very_wide_register"@,
        severity: "info"@,
        file: proc.file@,
        line: proc.line as nat,
        message: "Sequential process '"@ + proc.label@ + "' assigns "@
            + decimal(proc.assigned_signals.len() as nat)
            + " signals - consider splitting for clarity"@,
    }
}

/// The findings for the first `n` rows, in row order.
pub open spec fn very_wide_register_upto(input: &Input, n: int) -> Seq<ViolationView>
    decreases n,
{
    if n <= 0 {
        Seq::empty()
    } else {
        let rest = very_wide_register_upto(input, n - 1);
        let proc = &input.processes@[n - 1];
        if very_wide_register_hit(input, proc) {
            rest.push(very_wide_register_finding(input, proc))
        } else {
            rest
        }
    }
}

pub open spec fn very_wide_register_all(input: &Input) -> Seq<ViolationView> {
    very_wide_register_upto(input, input.processes@.len() as int)
}

pub fn very_wide_register(input: &Input) -> (out: Vec<Violation>)
    ensures
        views(out@) == very_wide_register_all(input),
{
    broadcast use group_views;

    let mut out: Vec<Violation> = Vec::new();
    let mut i: usize = 0;
    while i < input.processes.len()
        invariant
            i <= input.processes@.len(),
            views(out@) == very_wide_register_upto(input, i as int),
        decreases input.processes@.len() - i,
    {
        let proc = &input.processes[i];
        if proc.is_sequential && proc.assigned_signals.len() > 15 {
            let mut message = String::from_str("Sequential process '");
            message.append(proc.label.as_str());
            message.append("' assigns ");
            message.append(decimal_text(proc.assigned_signals.len()).as_str());
            message.append(" signals - consider splitting for clarity");
            out.push(
                Violation {
                    rule: String::from_str("very_wide_register"),
                    severity: String::from_str("info"),
                    file: proc.file.clone(),
                    line: proc.line,
                    message,
                },
            );
        }
        i += 1;
    }
    out
}

/// Every pair of sequential processes of one file that use the same clock on different edges.
pub open spec fn mixed_edge_clocking_upto(input: &Input, n: int) -> Seq<ViolationView>
    decreases n,
{
    if n <= 0 {
        Seq::empty()
    } else {
        let rest = mixed_edge_clocking_upto(input, n - 1);
        let proc1 = &input.processes@[n - 1];
        if proc1.is_sequential && proc1.clock_signal@.len() > 0 {
            rest + mixed_edge_with_all(input, n - 1)
        } else {
            rest
        }
    }
}

pub open spec fn mixed_edge_clocking_all(input: &Input) -> Seq<ViolationView> {
    mixed_edge_clocking_upto(input, input.processes@.len() as int)
}

pub fn mixed_edge_clocking(input: &Input) -> (out: Vec<Violation>)
    ensures
        views(out@) == mixed_edge_clocking_all(input),
{
    broadcast use group_views;

    let mut out: Vec<Violation> = Vec::new();
    let mut i: usize = 0;
    while i < input.processes.len()
        invariant
            i <= input.processes@.len(),
            views(out@) == mixed_edge_clocking_upto(input, i as int),
        decreases input.processes@.len() - i,
    {
        let proc1 = &input.processes[i];
        if proc1.is_sequential && !proc1.clock_signal.as_str().is_empty() {
            let mut part = mixed_edge_with(input, i);
            out.append(&mut part);
        }
        i += 1;
    }
    out
}

/// A later sequential process of the same file and clock with another edge.
pub open spec fn mixed_edge_with_hit(input: &Input, first: int, proc2: &Process) -> bool {
    let proc1 = &input.processes@[first];
    proc2.is_sequential && proc2.clock_signal@.len() > 0
        && same_name(proc1.clock_signal@, proc2.clock_signal@)
        && proc1.clock_edge@ != proc2.clock_edge@ && proc1.file@ == proc2.file@
}

pub open spec fn mixed_edge_with_finding(input: &Input, first: int, proc2: &Process) -> ViolationView {
    let proc1 = &input.processes@[first];
    ViolationView {
        rule: "mixed_edge_clocking"@,
        severity: "warning"@,
        file: proc1.file@,
        line: proc1.line as nat,
        message: "Processes '"@ + proc1.label@ + "' ("@ + proc1.clock_edge@ + " edge) and '"@
            + proc2.label@ + "' ("@ + proc2.clock_edge@ + " edge) use same clock '"@
            + proc1.clock_signal@ + "' with different edges"@,
    }
}

/// The findings that pair row `first` with the rows after it and before `n`.
pub open spec fn mixed_edge_with_upto(input: &Input, first: int, n: int) -> Seq<ViolationView>
    decreases n,
{
    if n <= first + 1 || n <= 0 {
        Seq::empty()
    } else {
        let rest = mixed_edge_with_upto(input, first, n - 1);
        let proc2 = &input.processes@[n - 1];
        if mixed_edge_with_hit(input, first, proc2) {
            rest.push(mixed_edge_with_finding(input, first, proc2))
        } else {
            rest
        }
    }
}

pub open spec fn mixed_edge_with_all(input: &Input, first: int) -> Seq<ViolationView> {
    mixed_edge_with_upto(input, first, input.processes@.len() as int)
}

pub fn mixed_edge_with(input: &Input, first: usize) -> (out: Vec<Violation>)
    requires
        first < input.processes@.len(),
    ensures
        views(out@) == mixed_edge_with_all(input, first as int),
{
    broadcast use group_views;

    let mut out: Vec<Violation> = Vec::new();
    let proc1 = &input.processes[first];
    let total: usize = input.processes.len();
    let mut j: usize = first + 1;
    while j < total
        invariant
            first < j <= input.processes@.len(),
            total == input.processes@.len(),
            *proc1 == input.processes@[first as int],
            views(out@) == mixed_edge_with_upto(input, first as int, j as int),
        decreases input.processes@.len() - j,
    {
        let proc2 = &input.processes[j];
        if proc2.is_sequential && !proc2.clock_signal.as_str().is_empty()
            && same(proc1.clock_signal.as_str(), proc2.clock_signal.as_str())
            && !str_eq(proc1.clock_edge.as_str(), proc2.clock_edge.as_str())
            && str_eq(proc1.file.as_str(), proc2.file.as_str()) {
            let mut message = String::from_str("Processes '");
            message.append(proc1.label.as_str());
            message.append("' (");
            message.append(proc1.clock_edge.as_str());
            message.append(" edge) and '");
            message.append(proc2.label.as_str());
            message.append("' (");
            message.append(proc2.clock_edge.as_str());
            message.append(" edge) use same clock '");
            message.append(proc1.clock_signal.as_str());
            message.append("' with different edges");
            out.push(
                Violation {
                    rule: String::from_str("mixed_edge_clocking"),
                    severity: String::from_str("warning"),
                    file: proc1.file.clone(),
                    line: proc1.line,
                    message,
                },
            );
        }
        j += 1;
    }
    out
}

/// Every signal that a sequential and a combinational process of one file both assign.
pub open spec fn signal_in_seq_and_comb_upto(input: &Input, n: int) -> Seq<ViolationView>
    decreases n,
{
    if n <= 0 {
        Seq::empty()
    } else {
        let rest = signal_in_seq_and_comb_upto(input, n - 1);
        let proc_seq = &input.processes@[n - 1];
        if proc_seq.is_sequential {
            rest + seq_and_comb_for_process_all(input, proc_seq)
        } else {
            rest
        }
    }
}

pub open spec fn signal_in_seq_and_comb_all(input: &Input) -> Seq<ViolationView> {
    signal_in_seq_and_comb_upto(input, input.processes@.len() as int)
}

pub fn signal_in_seq_and_comb(input: &Input) -> (out: Vec<Violation>)
    ensures
        views(out@) == signal_in_seq_and_comb_all(input),
{
    broadcast use group_views;

    let mut out: Vec<Violation> = Vec::new();
    let mut i: usize = 0;
    while i < input.processes.len()
        invariant
            i <= input.processes@.len(),
            views(out@) == signal_in_seq_and_comb_upto(input, i as int),
        decreases input.processes@.len() - i,
    {
        let proc_seq = &input.processes[i];
        if proc_seq.is_sequential {
            let mut part = seq_and_comb_for_process(input, proc_seq);
            out.append(&mut part);
        }
        i += 1;
    }
    out
}

/// The findings of one sequential process, combinational process after combinational process.
pub open spec fn seq_and_comb_for_process_upto(input: &Input, proc_seq: &Process, n: int) -> Seq<ViolationView>
    decreases n,
{
    if n <= 0 {
        Seq::empty()
    } else {
        let rest = seq_and_comb_for_process_upto(input, proc_seq, n - 1);
        let proc_comb = &input.processes@[n - 1];
        if proc_comb.is_combinational && proc_seq.file@ == proc_comb.file@ {
            rest + seq_and_comb_for_pair_all(input, proc_seq, proc_comb)
        } else {
            rest
        }
    }
}

pub open spec fn seq_and_comb_for_process_all(input: &Input, proc_seq: &Process) -> Seq<ViolationView> {
    seq_and_comb_for_process_upto(input, proc_seq, input.processes@.len() as int)
}

pub fn seq_and_comb_for_process(input: &Input, proc_seq: &Process) -> (out: Vec<Violation>)
    ensures
        views(out@) == seq_and_comb_for_process_all(input, proc_seq),
{
    broadcast use group_views;

    let mut out: Vec<Violation> = Vec::new();
    let mut i: usize = 0;
    while i < input.processes.len()
        invariant
            i <= input.processes@.len(),
            views(out@) == seq_and_comb_for_process_upto(input, proc_seq, i as int),
        decreases input.processes@.len() - i,
    {
        let proc_comb = &input.processes[i];
        if proc_comb.is_combinational && str_eq(proc_seq.file.as_str(), proc_comb.file.as_str()) {
            let mut part = seq_and_comb_for_pair(input, proc_seq, proc_comb);
            out.append(&mut part);
        }
        i += 1;
    }
    out
}

/// The findings of one pair of processes, signal after signal of the sequential one.
pub open spec fn seq_and_comb_for_pair_upto(input: &Input, proc_seq: &Process, proc_comb: &Process, n: int) -> Seq<ViolationView>
    decreases n,
{
    if n <= 0 {
        Seq::empty()
    } else {
        let rest = seq_and_comb_for_pair_upto(input, proc_seq, proc_comb, n - 1);
        let assigned_seq = &proc_seq.assigned_signals@[n - 1];
        rest + seq_and_comb_for_signal_all(input, proc_seq, proc_comb, assigned_seq)
    }
}

pub open spec fn seq_and_comb_for_pair_all(input: &Input, proc_seq: &Process, proc_comb: &Process) -> Seq<ViolationView> {
    seq_and_comb_for_pair_upto(input, proc_seq, proc_comb, proc_seq.assigned_signals@.len() as int)
}

pub fn seq_and_comb_for_pair(input: &Input, proc_seq: &Process, proc_comb: &Process) -> (out: Vec<Violation>)
    ensures
        views(out@) == seq_and_comb_for_pair_all(input, proc_seq, proc_comb),
{
    broadcast use group_views;

    let mut out: Vec<Violation> = Vec::new();
    let mut i: usize = 0;
    while i < proc_seq.assigned_signals.len()
        invariant
            i <= proc_seq.assigned_signals@.len(),
            views(out@) == seq_and_comb_for_pair_upto(input, proc_seq, proc_comb, i as int),
        decreases proc_seq.assigned_signals@.len() - i,
    {
        let assigned_seq = &proc_seq.assigned_signals[i];
        let mut part = seq_and_comb_for_signal(input, proc_seq, proc_comb, assigned_seq);
        out.append(&mut part);
        i += 1;
    }
    out
}

/// One finding for each assignment of the same scalar signal in the combinational process.
pub open spec fn seq_and_comb_for_signal_hit(input: &Input, proc_seq: &Process, proc_comb: &Process, assigned_seq: &String, assigned_comb: &String) -> bool {
    same_name(assigned_seq@, assigned_comb@) && actual_signal(input, assigned_seq@)
        && !composite_identifier(input, assigned_seq@)
}

pub open spec fn seq_and_comb_for_signal_finding(input: &Input, proc_seq: &Process, proc_comb: &Process, assigned_seq: &String, assigned_comb: &String) -> ViolationView {
    ViolationView {
        rule: "signal_in_seq_and_comb"@,
        severity: "error"@,
        file: proc_seq.file@,
        line: proc_seq.line as nat,
        message: "Signal '"@ + assigned_seq@ + "' assigned in both sequential process '"@
            + proc_seq.label@ + "' and combinational process '"@ + proc_comb.label@ + "'"@,
    }
}

/// The findings for the first `n` rows, in row order.
pub open spec fn seq_and_comb_for_signal_upto(input: &Input, proc_seq: &Process, proc_comb: &Process, assigned_seq: &String, n: int) -> Seq<ViolationView>
    decreases n,
{
    if n <= 0 {
        Seq::empty()
    } else {
        let rest = seq_and_comb_for_signal_upto(input, proc_seq, proc_comb, assigned_seq, n - 1);
        let assigned_comb = &proc_comb.assigned_signals@[n - 1];
        if seq_and_comb_for_signal_hit(input, proc_seq, proc_comb, assigned_seq, assigned_comb) {
            rest.push(seq_and_comb_for_signal_finding(input, proc_seq, proc_comb, assigned_seq, assigned_comb))
        } else {
            rest
        }
    }
}

pub open spec fn seq_and_comb_for_signal_all(input: &Input, proc_seq: &Process, proc_comb: &Process, assigned_seq: &String) -> Seq<ViolationView> {
    seq_and_comb_for_signal_upto(input, proc_seq, proc_comb, assigned_seq, proc_comb.assigned_signals@.len() as int)
}

pub fn seq_and_comb_for_signal(input: &Input, proc_seq: &Process, proc_comb: &Process, assigned_seq: &String) -> (out: Vec<Violation>)
    ensures
        views(out@) == seq_and_comb_for_signal_all(input, proc_seq, proc_comb, assigned_seq),
{
    broadcast use group_views;

    let mut out: Vec<Violation> = Vec::new();
    let mut i: usize = 0;
    while i < proc_comb.assigned_signals.len()
        invariant
            i <= proc_comb.assigned_signals@.len(),
            views(out@) == seq_and_comb_for_signal_upto(input, proc_seq, proc_comb, assigned_seq, i as int),
        decreases proc_comb.assigned_signals@.len() - i,
    {
        let assigned_comb = &proc_comb.assigned_signals[i];
        if same(assigned_seq.as_str(), assigned_comb.as_str())
            && is_actual_signal(input, assigned_seq.as_str())
            && !is_composite_identifier(input, assigned_seq.as_str()) {
            let mut message = String::from_str("Signal '");
            message.append(assigned_seq.as_str());
            message.append("' assigned in both sequential process '");
            message.append(proc_seq.label.as_str());
            message.append("' and combinational process '");
            message.append(proc_comb.label.as_str());
            message.append("'");
            out.push(
                Violation {
                    rule: String::from_str("signal_in_seq_and_comb"),
                    severity: String::from_str("error"),
                    file: proc_seq.file.clone(),
                    line: proc_seq.line,
                    message,
                },
            );
        }
        i += 1;
    }
    out
}

/// A reset whose name does not follow the active-low convention.
pub open spec fn async_reset_naming_hit(input: &Input, proc: &Process) -> bool {
    proc.is_sequential && proc.has_reset && proc.reset_signal@.len() > 0
        && !active_low_reset_name(proc.reset_signal@)
}

pub open spec fn async_reset_naming_finding(input: &Input, proc: &Process) -> ViolationView {
    ViolationView {
        rule: "async_reset_naming"@,
        severity: "info"@,
        file: proc.file@,
        line: proc.line as nat,
        message: "Reset signal '"@ + proc.reset_signal@
            + "' doesn't follow active-low naming convention (*_n, *n)"@,
    }
}

/// The findings for the first `n` rows, in row order.
pub open spec fn async_reset_naming_upto(input: &Input, n: int) -> Seq<ViolationView>
    decreases n,
{
    if n <= 0 {
        Seq::empty()
    } else {
        let rest = async_reset_naming_upto(input, n - 1);
        let proc = &input.processes@[n - 1];
        if async_reset_naming_hit(input, proc) {
            rest.push(async_reset_naming_finding(input, proc))
        } else {
            rest
        }
    }
}

pub open spec fn async_reset_naming_all(input: &Input) -> Seq<ViolationView> {
    async_reset_naming_upto(input, input.processes@.len() as int)
}

pub fn async_reset_naming(input: &Input) -> (out: Vec<Violation>)
    ensures
        views(out@) == async_reset_naming_all(input),
{
    broadcast use group_views;

    let mut out: Vec<Violation> = Vec::new();
    let mut i: usize = 0;
    while i < input.processes.len()
        invariant
            i <= input.processes@.len(),
            views(out@) == async_reset_naming_upto(input, i as int),
        decreases input.processes@.len() - i,
    {
        let proc = &input.processes[i];
        if proc.is_sequential && proc.has_reset && !proc.reset_signal.as_str().is_empty()
            && !is_active_low_reset_name(proc.reset_signal.as_str()) {
            let mut message = String::from_str("Reset signal '");
            message.append(proc.reset_signal.as_str());
            message.append("' doesn't follow active-low naming convention (*_n, *n)");
            out.push(
                Violation {
                    rule: String::from_str("async_reset_naming"),
                    severity: String::from_str("info"),
                    file: proc.file.clone(),
                    line: proc.line,
                    message,
                },
            );
        }
        i += 1;
    }
    out
}

pub open spec fn active_low_reset_name(name: Seq<char>) -> bool {
    ends_with(lower(name), "_n"@) || (ends_with(lower(name), "n"@) && reset_name(name))
}

pub fn is_active_low_reset_name(name: &str) -> (r: bool)
    ensures
        r == active_low_reset_name(name@),
{
    lower_ends_with(name, "_n") || (lower_ends_with(name, "n") && is_reset_name(name))
}

} // verus!
