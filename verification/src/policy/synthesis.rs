//! Synthesis: clock domains, wide buses, gated clocks and inferred memories.
use vstd::prelude::*;
use crate::text::{
    char_is_space, chars_of, contains, debug_list, debug_list_text, decimal, decimal_text,
    group_texts, holds, integer_in_range, is_space, list_has, lower, lower_chars_of, lower_contains,
    parse_unsigned, same, same_name, str_eq, texts, to_lower,
};
use crate::policy::helpers::{
    clock_name, is_clock_name, reset_name, is_reset_name, testbench_name, is_testbench_name,
    testbench_file, concurrent_in_testbench, in_testbench_arch, process_in_testbench, listed,
    signal_in_list, first_entity_named, entity_file_text, entity_file_of,
};
use crate::policy::input::{Input, Architecture, Process, Signal, Port, ConcurrentAssignment};
use crate::policy::result::{Violation, ViolationView, views, group_views};
use crate::policy::pattern::{regex_group, regex_capture};

verus! {

/// The synthesis findings that always run.
pub open spec fn violations_all(input: &Input) -> Seq<ViolationView> {
    signal_crosses_clock_domain_all(input)
}

pub fn violations(input: &Input) -> (out: Vec<Violation>)
    ensures
        views(out@) == violations_all(input),
{
    signal_crosses_clock_domain(input)
}

/// The synthesis findings that run only when configured.
pub open spec fn optional_violations_all(input: &Input) -> Seq<ViolationView> {
    gated_clock_detection_all(input) + multiple_clock_domains_all(input) + very_wide_bus_all(input)
        + critical_signal_no_reset_all(input) + combinational_reset_all(input)
        + potential_memory_inference_all(input) + unregistered_output_all(input)
}

pub fn optional_violations(input: &Input) -> (out: Vec<Violation>)
    ensures
        views(out@) == optional_violations_all(input),
{
    broadcast use group_views;

    let mut out: Vec<Violation> = Vec::new();
    let mut part = gated_clock_detection(input);
    out.append(&mut part);
    let mut part = multiple_clock_domains(input);
    out.append(&mut part);
    let mut part = very_wide_bus(input);
    out.append(&mut part);
    let mut part = critical_signal_no_reset(input);
    out.append(&mut part);
    let mut part = combinational_reset(input);
    out.append(&mut part);
    let mut part = potential_memory_inference(input);
    out.append(&mut part);
    let mut part = unregistered_output(input);
    out.append(&mut part);
    out
}

/// The clocks of the processes of a file among the first `n` processes: lower
/// case, each once, in the order in which they first occur.
pub open spec fn file_clocks_upto(input: &Input, file: Seq<char>, n: int) -> Seq<Seq<char>>
    decreases n,
{
    if n <= 0 {
        Seq::empty()
    } else {
        let rest = file_clocks_upto(input, file, n - 1);
        let p = &input.processes@[n - 1];
        if p.file@ == file && p.clock_signal@.len() > 0 && !rest.contains(lower(p.clock_signal@)) {
            rest.push(lower(p.clock_signal@))
        } else {
            rest
        }
    }
}

pub open spec fn file_clocks(input: &Input, file: Seq<char>) -> Seq<Seq<char>> {
    file_clocks_upto(input, file, input.processes@.len() as int)
}

pub fn clocks_of_file(input: &Input, file: &str) -> (r: Vec<String>)
    ensures
        texts(r@) == file_clocks(input, file@),
{
    broadcast use group_texts;

    let mut out: Vec<String> = Vec::new();
    let mut i: usize = 0;
    while i < input.processes.len()
        invariant
            i <= input.processes@.len(),
            texts(out@) == file_clocks_upto(input, file@, i as int),
        decreases input.processes@.len() - i,
    {
        let p = &input.processes[i];
        if str_eq(p.file.as_str(), file) && !p.clock_signal.as_str().is_empty() {
            let clock = to_lower(p.clock_signal.as_str());
            if !list_has(&out, clock.as_str()) {
                out.push(clock);
            }
        }
        i += 1;
    }
    out
}

/// An architecture in a file whose processes use more than one clock.
pub open spec fn multiple_clock_domains_hit(input: &Input, arch: &Architecture) -> bool {
    file_clocks(input, arch.file@).len() > 1
}

pub open spec fn multiple_clock_domains_finding(input: &Input, arch: &Architecture) -> ViolationView {
    ViolationView {
        rule: "multiple_clock_domains"@,
        severity: "warning"@,
        file: arch.file@,
        line: arch.line as nat,
        message: "Architecture '"@ + arch.name@ + "' uses multiple clocks "@
            + debug_list_text(file_clocks(input, arch.file@))
            + " - ensure proper CDC synchronization"@,
    }
}

/// The findings for the first `n` rows, in row order.
pub open spec fn multiple_clock_domains_upto(input: &Input, n: int) -> Seq<ViolationView>
    decreases n,
{
    if n <= 0 {
        Seq::empty()
    } else {
        let rest = multiple_clock_domains_upto(input, n - 1);
        let arch = &input.architectures@[n - 1];
        if multiple_clock_domains_hit(input, arch) {
            rest.push(multiple_clock_domains_finding(input, arch))
        } else {
            rest
        }
    }
}

pub open spec fn multiple_clock_domains_all(input: &Input) -> Seq<ViolationView> {
    multiple_clock_domains_upto(input, input.architectures@.len() as int)
}

pub fn multiple_clock_domains(input: &Input) -> (out: Vec<Violation>)
    ensures
        views(out@) == multiple_clock_domains_all(input),
{
    broadcast use group_views;

    let mut out: Vec<Violation> = Vec::new();
    let mut i: usize = 0;
    while i < input.architectures.len()
        invariant
            i <= input.architectures@.len(),
            views(out@) == multiple_clock_domains_upto(input, i as int),
        decreases input.architectures@.len() - i,
    {
        let arch = &input.architectures[i];
        let clocks = clocks_of_file(input, arch.file.as_str());
        proof {
            assert(texts(clocks@).len() == clocks@.len());
        }
        if clocks.len() > 1 {
            let mut message = String::from_str("Architecture '");
            message.append(arch.name.as_str());
            message.append("' uses multiple clocks ");
            message.append(debug_list(&clocks).as_str());
            message.append(" - ensure proper CDC synchronization");
            out.push(
                Violation {
                    rule: String::from_str("multiple_clock_domains"),
                    severity: String::from_str("warning"),
                    file: arch.file.clone(),
                    line: arch.line,
                    message,
                },
            );
        }
        i += 1;
    }
    out
}

/// Every signal written under one clock and read under another in the same file.
pub open spec fn signal_crosses_clock_domain_upto(input: &Input, n: int) -> Seq<ViolationView>
    decreases n,
{
    if n <= 0 {
        Seq::empty()
    } else {
        let rest = signal_crosses_clock_domain_upto(input, n - 1);
        let proc1 = &input.processes@[n - 1];
        if proc1.is_sequential {
            rest + crossings_from_process_all(input, proc1)
        } else {
            rest
        }
    }
}

pub open spec fn signal_crosses_clock_domain_all(input: &Input) -> Seq<ViolationView> {
    signal_crosses_clock_domain_upto(input, input.processes@.len() as int)
}

pub fn signal_crosses_clock_domain(input: &Input) -> (out: Vec<Violation>)
    ensures
        views(out@) == signal_crosses_clock_domain_all(input),
{
    broadcast use group_views;

    let mut out: Vec<Violation> = Vec::new();
    let mut i: usize = 0;
    while i < input.processes.len()
        invariant
            i <= input.processes@.len(),
            views(out@) == signal_crosses_clock_domain_upto(input, i as int),
        decreases input.processes@.len() - i,
    {
        let proc1 = &input.processes[i];
        if proc1.is_sequential {
            let mut part = crossings_from_process(input, proc1);
            out.append(&mut part);
        }
        i += 1;
    }
    out
}

/// The crossings out of one process, reader after reader.
pub open spec fn crossings_from_process_upto(input: &Input, proc1: &Process, n: int) -> Seq<ViolationView>
    decreases n,
{
    if n <= 0 {
        Seq::empty()
    } else {
        let rest = crossings_from_process_upto(input, proc1, n - 1);
        let proc2 = &input.processes@[n - 1];
        if proc2.is_sequential && proc1.clock_signal@.len() > 0 && proc2.clock_signal@.len() > 0
            && !same_name(proc1.clock_signal@, proc2.clock_signal@) && proc1.file@ == proc2.file@ {
            rest + crossings_between_all(input, proc1, proc2)
        } else {
            rest
        }
    }
}

pub open spec fn crossings_from_process_all(input: &Input, proc1: &Process) -> Seq<ViolationView> {
    crossings_from_process_upto(input, proc1, input.processes@.len() as int)
}

pub fn crossings_from_process(input: &Input, proc1: &Process) -> (out: Vec<Violation>)
    ensures
        views(out@) == crossings_from_process_all(input, proc1),
{
    broadcast use group_views;

    let mut out: Vec<Violation> = Vec::new();
    let mut i: usize = 0;
    while i < input.processes.len()
        invariant
            i <= input.processes@.len(),
            views(out@) == crossings_from_process_upto(input, proc1, i as int),
        decreases input.processes@.len() - i,
    {
        let proc2 = &input.processes[i];
        if proc2.is_sequential && !proc1.clock_signal.as_str().is_empty()
            && !proc2.clock_signal.as_str().is_empty()
            && !same(proc1.clock_signal.as_str(), proc2.clock_signal.as_str())
            && str_eq(proc1.file.as_str(), proc2.file.as_str()) {
            let mut part = crossings_between(input, proc1, proc2);
            out.append(&mut part);
        }
        i += 1;
    }
    out
}

/// The crossings between two processes, written signal after written signal.
pub open spec fn crossings_between_upto(input: &Input, proc1: &Process, proc2: &Process, n: int) -> Seq<ViolationView>
    decreases n,
{
    if n <= 0 {
        Seq::empty()
    } else {
        let rest = crossings_between_upto(input, proc1, proc2, n - 1);
        let assigned = &proc1.assigned_signals@[n - 1];
        rest + crossings_of_signal_all(input, proc1, proc2, assigned)
    }
}

pub open spec fn crossings_between_all(input: &Input, proc1: &Process, proc2: &Process) -> Seq<ViolationView> {
    crossings_between_upto(input, proc1, proc2, proc1.assigned_signals@.len() as int)
}

pub fn crossings_between(input: &Input, proc1: &Process, proc2: &Process) -> (out: Vec<Violation>)
    ensures
        views(out@) == crossings_between_all(input, proc1, proc2),
{
    broadcast use group_views;

    let mut out: Vec<Violation> = Vec::new();
    let mut i: usize = 0;
    while i < proc1.assigned_signals.len()
        invariant
            i <= proc1.assigned_signals@.len(),
            views(out@) == crossings_between_upto(input, proc1, proc2, i as int),
        decreases proc1.assigned_signals@.len() - i,
    {
        let assigned = &proc1.assigned_signals[i];
        let mut part = crossings_of_signal(input, proc1, proc2, assigned);
        out.append(&mut part);
        i += 1;
    }
    out
}

/// One finding for each read of the written signal.
pub open spec fn crossings_of_signal_hit(input: &Input, proc1: &Process, proc2: &Process, assigned: &String, read: &String) -> bool {
    same_name(assigned@, read@)
}

pub open spec fn crossings_of_signal_finding(input: &Input, proc1: &Process, proc2: &Process, assigned: &String, read: &String) -> ViolationView {
    ViolationView {
        rule: "signal_crosses_clock_domain"@,
        severity: "error"@,
        file: proc1.file@,
        line: proc1.line as nat,
        message: "Signal '"@ + assigned@ + "' written in '"@ + proc1.clock_signal@
            + "' domain, read in '"@ + proc2.clock_signal@ + "' domain - needs synchronizer"@,
    }
}

/// The findings for the first `n` rows, in row order.
pub open spec fn crossings_of_signal_upto(input: &Input, proc1: &Process, proc2: &Process, assigned: &String, n: int) -> Seq<ViolationView>
    decreases n,
{
    if n <= 0 {
        Seq::empty()
    } else {
        let rest = crossings_of_signal_upto(input, proc1, proc2, assigned, n - 1);
        let read = &proc2.read_signals@[n - 1];
        if crossings_of_signal_hit(input, proc1, proc2, assigned, read) {
            rest.push(crossings_of_signal_finding(input, proc1, proc2, assigned, read))
        } else {
            rest
        }
    }
}

pub open spec fn crossings_of_signal_all(input: &Input, proc1: &Process, proc2: &Process, assigned: &String) -> Seq<ViolationView> {
    crossings_of_signal_upto(input, proc1, proc2, assigned, proc2.read_signals@.len() as int)
}

pub fn crossings_of_signal(input: &Input, proc1: &Process, proc2: &Process, assigned: &String) -> (out: Vec<Violation>)
    ensures
        views(out@) == crossings_of_signal_all(input, proc1, proc2, assigned),
{
    broadcast use group_views;

    let mut out: Vec<Violation> = Vec::new();
    let mut i: usize = 0;
    while i < proc2.read_signals.len()
        invariant
            i <= proc2.read_signals@.len(),
            views(out@) == crossings_of_signal_upto(input, proc1, proc2, assigned, i as int),
        decreases proc2.read_signals@.len() - i,
    {
        let read = &proc2.read_signals[i];
        if same(assigned.as_str(), read.as_str()) {
            let mut message = String::from_str("Signal '");
            message.append(assigned.as_str());
            message.append("' written in '");
            message.append(proc1.clock_signal.as_str());
            message.append("' domain, read in '");
            message.append(proc2.clock_signal.as_str());
            message.append("' domain - needs synchronizer");
            out.push(
                Violation {
                    rule: String::from_str("signal_crosses_clock_domain"),
                    severity: String::from_str("error"),
                    file: proc1.file.clone(),
                    line: proc1.line,
                    message,
                },
            );
        }
        i += 1;
    }
    out
}

/// The patterns for a range that starts or ends at zero, with a literal
/// other bound.
pub open spec fn downto_zero_pattern() -> Seq<char> {
    "\\(([0-9]+) downto 0\\)"@
}

pub open spec fn zero_to_pattern() -> Seq<char> {
    "\\(0 to ([0-9]+)\\)"@
}

/// The width that one range gives, from the text of its bound: the bound
/// plus one, within the machine word; `None` where there is no bound or it
/// cannot be read.
pub open spec fn bound_width(bound: Option<Seq<char>>) -> Option<int> {
    match bound {
        Some(b) => match integer_in_range(b, false, 0, usize::MAX as int) {
            Some(v) => Some(
                if v < usize::MAX {
                    v + 1
                } else {
                    0
                },
            ),
            None => None,
        },
        None => None,
    }
}

/// The width of a type, given the bounds that the matcher found for the two
/// range patterns: that of the descending range first, then that of the
/// ascending one, else 0.
pub open spec fn width_given(downto: Option<Seq<char>>, to: Option<Seq<char>>) -> int {
    match bound_width(downto) {
        Some(w) => w,
        None => match bound_width(to) {
            Some(w) => w,
            None => 0,
        },
    }
}

pub open spec fn bound_text(bound: &Option<String>) -> Option<Seq<char>> {
    match bound {
        Some(b) => Some(b@),
        None => None,
    }
}

fn bound_width_of(bound: &Option<String>) -> (r: Option<usize>)
    ensures
        match r {
            Some(w) => bound_width(bound_text(bound)) == Some(w as int),
            None => bound_width(bound_text(bound)).is_none(),
        },
{
    match bound {
        Some(b) => match parse_unsigned(b.as_str(), usize::MAX as u64) {
            Some(v) => {
                if v < usize::MAX as u64 {
                    Some((v + 1) as usize)
                } else {
                    Some(0)
                }
            },
            None => None,
        },
        None => None,
    }
}

pub fn width_from(downto: &Option<String>, to: &Option<String>) -> (r: usize)
    ensures
        r == width_given(bound_text(downto), bound_text(to)),
{
    match bound_width_of(downto) {
        Some(w) => w,
        None => match bound_width_of(to) {
            Some(w) => w,
            None => 0,
        },
    }
}

/// The width that the type string spells as a literal range.
pub open spec fn type_width(type_str: Seq<char>) -> int {
    width_given(
        regex_group(downto_zero_pattern(), lower(type_str), 1),
        regex_group(zero_to_pattern(), lower(type_str), 1),
    )
}

pub fn extract_width(type_str: &str) -> (r: usize)
    ensures
        r == type_width(type_str@),
{
    let l = to_lower(type_str);
    let downto = regex_capture("\\(([0-9]+) downto 0\\)", l.as_str(), 1);
    let to = regex_capture("\\(0 to ([0-9]+)\\)", l.as_str(), 1);
    width_from(&downto, &to)
}

/// A signal more than sixty-four bits wide.
pub open spec fn very_wide_bus_hit(input: &Input, sig: &Signal) -> bool {
    type_width(sig.ty@) > 64
}

pub open spec fn very_wide_bus_finding(input: &Input, sig: &Signal) -> ViolationView {
    ViolationView {
        rule: "very_wide_bus"@,
        severity: "info"@,
        file: sig.file@,
        line: sig.line as nat,
        message: "Signal '"@ + sig.name@ + "' is "@ + decimal(type_width(sig.ty@) as nat)
            + " bits wide - consider pipelining for timing closure"@,
    }
}

/// The findings for the first `n` rows, in row order.
pub open spec fn very_wide_bus_upto(input: &Input, n: int) -> Seq<ViolationView>
    decreases n,
{
    if n <= 0 {
        Seq::empty()
    } else {
        let rest = very_wide_bus_upto(input, n - 1);
        let sig = &input.signals@[n - 1];
        if very_wide_bus_hit(input, sig) {
            rest.push(very_wide_bus_finding(input, sig))
        } else {
            rest
        }
    }
}

pub open spec fn very_wide_bus_all(input: &Input) -> Seq<ViolationView> {
    very_wide_bus_upto(input, input.signals@.len() as int)
}

pub fn very_wide_bus(input: &Input) -> (out: Vec<Violation>)
    ensures
        views(out@) == very_wide_bus_all(input),
{
    broadcast use group_views;

    let mut out: Vec<Violation> = Vec::new();
    let mut i: usize = 0;
    while i < input.signals.len()
        invariant
            i <= input.signals@.len(),
            views(out@) == very_wide_bus_upto(input, i as int),
        decreases input.signals@.len() - i,
    {
        let sig = &input.signals[i];
        let width = extract_width(sig.ty.as_str());
        if width > 64 {
            let mut message = String::from_str("Signal '");
            message.append(sig.name.as_str());
            message.append("' is ");
            message.append(decimal_text(width).as_str());
            message.append(" bits wide - consider pipelining for timing closure");
            out.push(
                Violation {
                    rule: String::from_str("very_wide_bus"),
                    severity: String::from_str("info"),
                    file: sig.file.clone(),
                    line: sig.line,
                    message,
                },
            );
        }
        i += 1;
    }
    out
}

/// In sequential processes without reset: every assigned control signal.
pub open spec fn critical_signal_no_reset_upto(input: &Input, n: int) -> Seq<ViolationView>
    decreases n,
{
    if n <= 0 {
        Seq::empty()
    } else {
        let rest = critical_signal_no_reset_upto(input, n - 1);
        let proc = &input.processes@[n - 1];
        if proc.is_sequential && !proc.has_reset {
            rest + critical_signals_in_all(input, proc)
        } else {
            rest
        }
    }
}

pub open spec fn critical_signal_no_reset_all(input: &Input) -> Seq<ViolationView> {
    critical_signal_no_reset_upto(input, input.processes@.len() as int)
}

pub fn critical_signal_no_reset(input: &Input) -> (out: Vec<Violation>)
    ensures
        views(out@) == critical_signal_no_reset_all(input),
{
    broadcast use group_views;

    let mut out: Vec<Violation> = Vec::new();
    let mut i: usize = 0;
    while i < input.processes.len()
        invariant
            i <= input.processes@.len(),
            views(out@) == critical_signal_no_reset_upto(input, i as int),
        decreases input.processes@.len() - i,
    {
        let proc = &input.processes[i];
        if proc.is_sequential && !proc.has_reset {
            let mut part = critical_signals_in(input, proc);
            out.append(&mut part);
        }
        i += 1;
    }
    out
}

/// An assigned signal that is named like a control signal.
pub open spec fn critical_signals_in_hit(input: &Input, proc: &Process, assigned: &String) -> bool {
    critical_signal_name(assigned@)
}

pub open spec fn critical_signals_in_finding(input: &Input, proc: &Process, assigned: &String) -> ViolationView {
    ViolationView {
        rule: "critical_signal_no_reset"@,
        severity: "warning"@,
        file: proc.file@,
        line: proc.line as nat,
        message: "Critical signal '"@ + assigned@ + "' in process '"@ + proc.label@
            + "' has no reset initialization"@,
    }
}

/// The findings for the first `n` rows, in row order.
pub open spec fn critical_signals_in_upto(input: &Input, proc: &Process, n: int) -> Seq<ViolationView>
    decreases n,
{
    if n <= 0 {
        Seq::empty()
    } else {
        let rest = critical_signals_in_upto(input, proc, n - 1);
        let assigned = &proc.assigned_signals@[n - 1];
        if critical_signals_in_hit(input, proc, assigned) {
            rest.push(critical_signals_in_finding(input, proc, assigned))
        } else {
            rest
        }
    }
}

pub open spec fn critical_signals_in_all(input: &Input, proc: &Process) -> Seq<ViolationView> {
    critical_signals_in_upto(input, proc, proc.assigned_signals@.len() as int)
}

pub fn critical_signals_in(input: &Input, proc: &Process) -> (out: Vec<Violation>)
    ensures
        views(out@) == critical_signals_in_all(input, proc),
{
    broadcast use group_views;

    let mut out: Vec<Violation> = Vec::new();
    let mut i: usize = 0;
    while i < proc.assigned_signals.len()
        invariant
            i <= proc.assigned_signals@.len(),
            views(out@) == critical_signals_in_upto(input, proc, i as int),
        decreases proc.assigned_signals@.len() - i,
    {
        let assigned = &proc.assigned_signals[i];
        if is_critical_signal_name(assigned.as_str()) {
            let mut message = String::from_str("Critical signal '");
            message.append(assigned.as_str());
            message.append("' in process '");
            message.append(proc.label.as_str());
            message.append("' has no reset initialization");
            out.push(
                Violation {
                    rule: String::from_str("critical_signal_no_reset"),
                    severity: String::from_str("warning"),
                    file: proc.file.clone(),
                    line: proc.line,
                    message,
                },
            );
        }
        i += 1;
    }
    out
}

/// A name that holds a control word.
pub open spec fn critical_signal_name(name: Seq<char>) -> bool {
    let l = lower(name);
    contains(l, "valid"@) || contains(l, "enable"@) || contains(l, "ready"@)
        || contains(l, "error"@) || contains(l, "state"@) || contains(l, "count"@)
}

pub fn is_critical_signal_name(name: &str) -> (r: bool)
    ensures
        r == critical_signal_name(name@),
{
    let l = lower_chars_of(name);
    holds(&l, "valid") || holds(&l, "enable") || holds(&l, "ready") || holds(&l, "error")
        || holds(&l, "state") || holds(&l, "count")
}

/// The clocks of the sequential processes among the first `n`: lower case,
/// each once, in the order in which they first occur.
pub open spec fn clock_signals_upto(input: &Input, n: int) -> Seq<Seq<char>>
    decreases n,
{
    if n <= 0 {
        Seq::empty()
    } else {
        let rest = clock_signals_upto(input, n - 1);
        let p = &input.processes@[n - 1];
        if p.is_sequential && p.clock_signal@.len() > 0 && !rest.contains(lower(p.clock_signal@)) {
            rest.push(lower(p.clock_signal@))
        } else {
            rest
        }
    }
}

pub open spec fn clock_signals(input: &Input) -> Seq<Seq<char>> {
    clock_signals_upto(input, input.processes@.len() as int)
}

pub fn collect_clock_signals(input: &Input) -> (r: Vec<String>)
    ensures
        texts(r@) == clock_signals(input),
{
    broadcast use group_texts;

    let mut out: Vec<String> = Vec::new();
    let mut i: usize = 0;
    while i < input.processes.len()
        invariant
            i <= input.processes@.len(),
            texts(out@) == clock_signals_upto(input, i as int),
        decreases input.processes@.len() - i,
    {
        let p = &input.processes[i];
        if p.is_sequential && !p.clock_signal.as_str().is_empty() {
            let clock = to_lower(p.clock_signal.as_str());
            if !list_has(&out, clock.as_str()) {
                out.push(clock);
            }
        }
        i += 1;
    }
    out
}

/// The name is a clock name and the clock of some sequential process.
pub open spec fn used_clock(input: &Input, name: Seq<char>) -> bool {
    clock_name(name) && clock_signals(input).contains(lower(name))
}

pub fn is_used_clock(clocks: &Vec<String>, name: &str) -> (r: bool)
    ensures
        r == (clock_name(name@) && texts(clocks@).contains(lower(name@))),
{
    is_clock_name(name) && list_has(clocks, to_lower(name).as_str())
}

/// A concurrent assignment to a clock outside testbenches.
pub open spec fn gated_clock_concurrent_hit(input: &Input, ca: &ConcurrentAssignment) -> bool {
    used_clock(input, ca.target@) && !testbench_file(input, ca.file@)
}

pub open spec fn gated_clock_concurrent_finding(input: &Input, ca: &ConcurrentAssignment) -> ViolationView {
    ViolationView {
        rule: "gated_clock_detection"@,
        severity: "warning"@,
        file: ca.file@,
        line: ca.line as nat,
        message: "Clock signal '"@ + ca.target@
           
               
                    + "' assigned in concurrent statement - potential gated clock (use clock enable instead)"@,
    }
}

/// The findings for the first `n` rows, in row order.
pub open spec fn gated_clock_concurrent_upto(input: &Input, n: int) -> Seq<ViolationView>
    decreases n,
{
    if n <= 0 {
        Seq::empty()
    } else {
        let rest = gated_clock_concurrent_upto(input, n - 1);
        let ca = &input.concurrent_assignments@[n - 1];
        if gated_clock_concurrent_hit(input, ca) {
            rest.push(gated_clock_concurrent_finding(input, ca))
        } else {
            rest
        }
    }
}

pub open spec fn gated_clock_concurrent_all(input: &Input) -> Seq<ViolationView> {
    gated_clock_concurrent_upto(input, input.concurrent_assignments@.len() as int)
}

fn gated_clock_concurrent(input: &Input, clocks: &Vec<String>) -> (out: Vec<Violation>)
    requires
        texts(clocks@) == clock_signals(input),
    ensures
        views(out@) == gated_clock_concurrent_all(input),
{
    broadcast use group_views;

    let mut out: Vec<Violation> = Vec::new();
    let mut i: usize = 0;
    while i < input.concurrent_assignments.len()
        invariant
            i <= input.concurrent_assignments@.len(),
            texts(clocks@) == clock_signals(input),
            views(out@) == gated_clock_concurrent_upto(input, i as int),
        decreases input.concurrent_assignments@.len() - i,
    {
        let ca = &input.concurrent_assignments[i];
        if is_used_clock(clocks, ca.target.as_str()) && !concurrent_in_testbench(input, ca) {
            let mut message = String::from_str("Clock signal '");
            message.append(ca.target.as_str());
            message.append("' assigned in concurrent statement - potential gated clock (use clock enable instead)");
            out.push(
                Violation {
                    rule: String::from_str("gated_clock_detection"),
                    severity: String::from_str("warning"),
                    file: ca.file.clone(),
                    line: ca.line,
                    message,
                },
            );
        }
        i += 1;
    }
    out
}

/// In combinational processes: every assigned clock.
pub open spec fn gated_clock_process_upto(input: &Input, n: int) -> Seq<ViolationView>
    decreases n,
{
    if n <= 0 {
        Seq::empty()
    } else {
        let rest = gated_clock_process_upto(input, n - 1);
        let proc = &input.processes@[n - 1];
        if proc.is_combinational {
            rest + gated_clock_in_process_all(input, proc)
        } else {
            rest
        }
    }
}

pub open spec fn gated_clock_process_all(input: &Input) -> Seq<ViolationView> {
    gated_clock_process_upto(input, input.processes@.len() as int)
}

fn gated_clock_process(input: &Input, clocks: &Vec<String>) -> (out: Vec<Violation>)
    requires
        texts(clocks@) == clock_signals(input),
    ensures
        views(out@) == gated_clock_process_all(input),
{
    broadcast use group_views;

    let mut out: Vec<Violation> = Vec::new();
    let mut i: usize = 0;
    while i < input.processes.len()
        invariant
            i <= input.processes@.len(),
            texts(clocks@) == clock_signals(input),
            views(out@) == gated_clock_process_upto(input, i as int),
        decreases input.processes@.len() - i,
    {
        let proc = &input.processes[i];
        if proc.is_combinational {
            let mut part = gated_clock_in_process(input, clocks, proc);
            out.append(&mut part);
        }
        i += 1;
    }
    out
}

/// An assigned clock in a process outside testbenches.
pub open spec fn gated_clock_in_process_hit(input: &Input, proc: &Process, assigned: &String) -> bool {
    used_clock(input, assigned@) && !in_testbench_arch(input, proc.in_arch@)
}

pub open spec fn gated_clock_in_process_finding(input: &Input, proc: &Process, assigned: &String) -> ViolationView {
    ViolationView {
        rule: "gated_clock_detection"@,
        severity: "warning"@,
        file: proc.file@,
        line: proc.line as nat,
        message: "Clock signal '"@ + assigned@
            + "' assigned in combinational process - potential gated clock"@,
    }
}

/// The findings for the first `n` rows, in row order.
pub open spec fn gated_clock_in_process_upto(input: &Input, proc: &Process, n: int) -> Seq<ViolationView>
    decreases n,
{
    if n <= 0 {
        Seq::empty()
    } else {
        let rest = gated_clock_in_process_upto(input, proc, n - 1);
        let assigned = &proc.assigned_signals@[n - 1];
        if gated_clock_in_process_hit(input, proc, assigned) {
            rest.push(gated_clock_in_process_finding(input, proc, assigned))
        } else {
            rest
        }
    }
}

pub open spec fn gated_clock_in_process_all(input: &Input, proc: &Process) -> Seq<ViolationView> {
    gated_clock_in_process_upto(input, proc, proc.assigned_signals@.len() as int)
}

fn gated_clock_in_process(input: &Input, clocks: &Vec<String>, proc: &Process) -> (out: Vec<Violation>)
    requires
        texts(clocks@) == clock_signals(input),
    ensures
        views(out@) == gated_clock_in_process_all(input, proc),
{
    broadcast use group_views;

    let mut out: Vec<Violation> = Vec::new();
    let mut i: usize = 0;
    while i < proc.assigned_signals.len()
        invariant
            i <= proc.assigned_signals@.len(),
            texts(clocks@) == clock_signals(input),
            views(out@) == gated_clock_in_process_upto(input, proc, i as int),
        decreases proc.assigned_signals@.len() - i,
    {
        let assigned = &proc.assigned_signals[i];
        if is_used_clock(clocks, assigned.as_str()) && !process_in_testbench(input, proc) {
            let mut message = String::from_str("Clock signal '");
            message.append(assigned.as_str());
            message.append("' assigned in combinational process - potential gated clock");
            out.push(
                Violation {
                    rule: String::from_str("gated_clock_detection"),
                    severity: String::from_str("warning"),
                    file: proc.file.clone(),
                    line: proc.line,
                    message,
                },
            );
        }
        i += 1;
    }
    out
}

/// Clocks that are assigned like data: first by concurrent statements, then
/// by combinational processes.
pub open spec fn gated_clock_detection_all(input: &Input) -> Seq<ViolationView> {
    gated_clock_concurrent_all(input) + gated_clock_process_all(input)
}

pub fn gated_clock_detection(input: &Input) -> (out: Vec<Violation>)
    ensures
        views(out@) == gated_clock_detection_all(input),
{
    broadcast use group_views;

    let clocks = collect_clock_signals(input);
    let mut out = gated_clock_concurrent(input, &clocks);
    let mut part = gated_clock_process(input, &clocks);
    out.append(&mut part);
    out
}

/// A concurrent assignment that computes a reset.
pub open spec fn combinational_reset_hit(input: &Input, ca: &ConcurrentAssignment) -> bool {
    reset_name(ca.target@) && ca.read_signals@.len() > 0
}

pub open spec fn combinational_reset_finding(input: &Input, ca: &ConcurrentAssignment) -> ViolationView {
    ViolationView {
        rule: "combinational_reset"@,
        severity: "info"@,
        file: ca.file@,
        line: ca.line as nat,
        message: "Reset signal '"@ + ca.target@
            + "' generated combinationally - consider dedicated reset controller"@,
    }
}

/// The findings for the first `n` rows, in row order.
pub open spec fn combinational_reset_upto(input: &Input, n: int) -> Seq<ViolationView>
    decreases n,
{
    if n <= 0 {
        Seq::empty()
    } else {
        let rest = combinational_reset_upto(input, n - 1);
        let ca = &input.concurrent_assignments@[n - 1];
        if combinational_reset_hit(input, ca) {
            rest.push(combinational_reset_finding(input, ca))
        } else {
            rest
        }
    }
}

pub open spec fn combinational_reset_all(input: &Input) -> Seq<ViolationView> {
    combinational_reset_upto(input, input.concurrent_assignments@.len() as int)
}

pub fn combinational_reset(input: &Input) -> (out: Vec<Violation>)
    ensures
        views(out@) == combinational_reset_all(input),
{
    broadcast use group_views;

    let mut out: Vec<Violation> = Vec::new();
    let mut i: usize = 0;
    while i < input.concurrent_assignments.len()
        invariant
            i <= input.concurrent_assignments@.len(),
            views(out@) == combinational_reset_upto(input, i as int),
        decreases input.concurrent_assignments@.len() - i,
    {
        let ca = &input.concurrent_assignments[i];
        if is_reset_name(ca.target.as_str()) && ca.read_signals.len() > 0 {
            let mut message = String::from_str("Reset signal '");
            message.append(ca.target.as_str());
            message.append("' generated combinationally - consider dedicated reset controller");
            out.push(
                Violation {
                    rule: String::from_str("combinational_reset"),
                    severity: String::from_str("info"),
                    file: ca.file.clone(),
                    line: ca.line,
                    message,
                },
            );
        }
        i += 1;
    }
    out
}

/// A signal of an array type.
pub open spec fn potential_memory_inference_hit(input: &Input, sig: &Signal) -> bool {
    array_type(sig.ty@)
}

pub open spec fn potential_memory_inference_finding(input: &Input, sig: &Signal) -> ViolationView {
    ViolationView {
        rule: "potential_memory_inference"@,
        severity: "info"@,
        file: sig.file@,
        line: sig.line as nat,
        message: "Signal '"@ + sig.name@ + "' with type '"@ + sig.ty@
            + "' may infer memory block - verify synthesis results"@,
    }
}

/// The findings for the first `n` rows, in row order.
pub open spec fn potential_memory_inference_upto(input: &Input, n: int) -> Seq<ViolationView>
    decreases n,
{
    if n <= 0 {
        Seq::empty()
    } else {
        let rest = potential_memory_inference_upto(input, n - 1);
        let sig = &input.signals@[n - 1];
        if potential_memory_inference_hit(input, sig) {
            rest.push(potential_memory_inference_finding(input, sig))
        } else {
            rest
        }
    }
}

pub open spec fn potential_memory_inference_all(input: &Input) -> Seq<ViolationView> {
    potential_memory_inference_upto(input, input.signals@.len() as int)
}

pub fn potential_memory_inference(input: &Input) -> (out: Vec<Violation>)
    ensures
        views(out@) == potential_memory_inference_all(input),
{
    broadcast use group_views;

    let mut out: Vec<Violation> = Vec::new();
    let mut i: usize = 0;
    while i < input.signals.len()
        invariant
            i <= input.signals@.len(),
            views(out@) == potential_memory_inference_upto(input, i as int),
        decreases input.signals@.len() - i,
    {
        let sig = &input.signals[i];
        if is_array_type(sig.ty.as_str()) {
            let mut message = String::from_str("Signal '");
            message.append(sig.name.as_str());
            message.append("' with type '");
            message.append(sig.ty.as_str());
            message.append("' may infer memory block - verify synthesis results");
            out.push(
                Violation {
                    rule: String::from_str("potential_memory_inference"),
                    severity: String::from_str("info"),
                    file: sig.file.clone(),
                    line: sig.line,
                    message,
                },
            );
        }
        i += 1;
    }
    out
}

/// Whether an opening bracket follows a closing one with nothing but white
/// space between them, from index `i` on; `seen_close` tells whether a
/// closing bracket and only white space came just before.
pub open spec fn bracket_pair_from(s: Seq<char>, i: int, seen_close: bool) -> bool
    decreases s.len() - i,
{
    if i < 0 || i >= s.len() {
        false
    } else if s[i] == ')' {
        bracket_pair_from(s, i + 1, true)
    } else if seen_close && s[i] == '(' {
        true
    } else if seen_close && !is_space(s[i]) {
        bracket_pair_from(s, i + 1, false)
    } else {
        bracket_pair_from(s, i + 1, seen_close)
    }
}

/// A type that names an array or carries two index ranges in a row.
pub open spec fn array_type(t: Seq<char>) -> bool {
    contains(lower(t), "array"@) || bracket_pair_from(t, 0, false)
}

pub fn is_array_type(t: &str) -> (r: bool)
    ensures
        r == array_type(t@),
{
    if lower_contains(t, "array") {
        return true;
    }
    let v = chars_of(t);
    let mut seen_close = false;
    let mut i: usize = 0;
    while i < v.len()
        invariant
            i <= v@.len(),
            v@ == t@,
            !contains(lower(t@), "array"@),
            bracket_pair_from(v@, 0, false) == bracket_pair_from(v@, i as int, seen_close),
        decreases v@.len() - i,
    {
        let ch = v[i];
        if ch == ')' {
            seen_close = true;
        } else if seen_close {
            if ch == '(' {
                return true;
            }
            if !char_is_space(ch) {
                seen_close = false;
            }
        }
        i += 1;
    }
    false
}

/// Some sequential process assigns the port.
pub open spec fn driven_by_sequential(input: &Input, port_name: Seq<char>) -> bool {
    exists|i: int|
        #![trigger input.processes@[i]]
        0 <= i < input.processes@.len() && ({
            let proc = &input.processes@[i];
            proc.is_sequential && listed(proc.assigned_signals@, port_name)
        })
}

pub fn output_driven_by_sequential(input: &Input, port_name: &str) -> (r: bool)
    ensures
        r == driven_by_sequential(input, port_name@),
{
    let mut i: usize = 0;
    while i < input.processes.len()
        invariant
            i <= input.processes@.len(),
            forall|j: int|
                #![trigger input.processes@[j]]
                0 <= j < i ==> !({
                    let proc = &input.processes@[j];
                    proc.is_sequential && listed(proc.assigned_signals@, port_name@)
                }),
        decreases input.processes@.len() - i,
    {
        let proc = &input.processes[i];
        if proc.is_sequential && signal_in_list(port_name, proc.assigned_signals.as_slice()) {
            return true;
        }
        i += 1;
    }
    false
}

/// Some process assigns the port.
pub open spec fn process_drives(input: &Input, port_name: Seq<char>) -> bool {
    exists|i: int|
        #![trigger input.processes@[i]]
        0 <= i < input.processes@.len() && ({
            let proc = &input.processes@[i];
            listed(proc.assigned_signals@, port_name)
        })
}

pub fn driven_by_process(input: &Input, port_name: &str) -> (r: bool)
    ensures
        r == process_drives(input, port_name@),
{
    let mut i: usize = 0;
    while i < input.processes.len()
        invariant
            i <= input.processes@.len(),
            forall|j: int|
                #![trigger input.processes@[j]]
                0 <= j < i ==> !({
                    let proc = &input.processes@[j];
                    listed(proc.assigned_signals@, port_name@)
                }),
        decreases input.processes@.len() - i,
    {
        let proc = &input.processes[i];
        if signal_in_list(port_name, proc.assigned_signals.as_slice()) {
            return true;
        }
        i += 1;
    }
    false
}

/// Some concurrent assignment targets the port.
pub open spec fn concurrent_drives(input: &Input, port_name: Seq<char>) -> bool {
    exists|i: int|
        #![trigger input.concurrent_assignments@[i]]
        0 <= i < input.concurrent_assignments@.len() && ({
            let ca = &input.concurrent_assignments@[i];
            same_name(ca.target@, port_name)
        })
}

pub fn driven_by_concurrent(input: &Input, port_name: &str) -> (r: bool)
    ensures
        r == concurrent_drives(input, port_name@),
{
    let mut i: usize = 0;
    while i < input.concurrent_assignments.len()
        invariant
            i <= input.concurrent_assignments@.len(),
            forall|j: int|
                #![trigger input.concurrent_assignments@[j]]
                0 <= j < i ==> !({
                    let ca = &input.concurrent_assignments@[j];
                    same_name(ca.target@, port_name@)
                }),
        decreases input.concurrent_assignments@.len() - i,
    {
        let ca = &input.concurrent_assignments[i];
        if same(ca.target.as_str(), port_name) {
            return true;
        }
        i += 1;
    }
    false
}

pub open spec fn output_driven(input: &Input, port_name: Seq<char>) -> bool {
    process_drives(input, port_name) || concurrent_drives(input, port_name)
}

pub fn output_is_driven(input: &Input, port_name: &str) -> (r: bool)
    ensures
        r == output_driven(input, port_name@),
{
    driven_by_process(input, port_name) || driven_by_concurrent(input, port_name)
}

/// The file of the first entity with this name; `unknown` if there is none.
pub open spec fn entity_file_or_unknown(input: &Input, entity_name: Seq<char>) -> Seq<char> {
    if first_entity_named(input, entity_name, 0) < input.entities@.len() {
        entity_file_text(input, entity_name)
    } else {
        "unknown"@
    }
}

pub fn get_entity_file(input: &Input, entity_name: &str) -> (r: String)
    ensures
        r@ == entity_file_or_unknown(input, entity_name@),
{
    match entity_file_of(input, entity_name) {
        Some(f) => f,
        None => String::from_str("unknown"),
    }
}

/// An output port outside testbenches that only combinational logic drives.
pub open spec fn unregistered_output_hit(input: &Input, port: &Port) -> bool {
    port.direction@ == "out"@ && !testbench_name(port.in_entity@)
        && !driven_by_sequential(input, port.name@) && output_driven(input, port.name@)
}

pub open spec fn unregistered_output_finding(input: &Input, port: &Port) -> ViolationView {
    ViolationView {
        rule: "unregistered_output"@,
        severity: "warning"@,
        file: entity_file_or_unknown(input, port.in_entity@),
        line: port.line as nat,
        message: "Output port '"@ + port.name@
            + "' is driven by combinational logic - consider registering for timing closure"@,
    }
}

/// The findings for the first `n` rows, in row order.
pub open spec fn unregistered_output_upto(input: &Input, n: int) -> Seq<ViolationView>
    decreases n,
{
    if n <= 0 {
        Seq::empty()
    } else {
        let rest = unregistered_output_upto(input, n - 1);
        let port = &input.ports@[n - 1];
        if unregistered_output_hit(input, port) {
            rest.push(unregistered_output_finding(input, port))
        } else {
            rest
        }
    }
}

pub open spec fn unregistered_output_all(input: &Input) -> Seq<ViolationView> {
    unregistered_output_upto(input, input.ports@.len() as int)
}

pub fn unregistered_output(input: &Input) -> (out: Vec<Violation>)
    ensures
        views(out@) == unregistered_output_all(input),
{
    broadcast use group_views;

    let mut out: Vec<Violation> = Vec::new();
    let mut i: usize = 0;
    while i < input.ports.len()
        invariant
            i <= input.ports@.len(),
            views(out@) == unregistered_output_upto(input, i as int),
        decreases input.ports@.len() - i,
    {
        let port = &input.ports[i];
        if str_eq(port.direction.as_str(), "out") && !is_testbench_name(port.in_entity.as_str())
            && !output_driven_by_sequential(input, port.name.as_str())
            && output_is_driven(input, port.name.as_str()) {
            let mut message = String::from_str("Output port '");
            message.append(port.name.as_str());
            message.append("' is driven by combinational logic - consider registering for timing closure");
            out.push(
                Violation {
                    rule: String::from_str("unregistered_output"),
                    severity: String::from_str("warning"),
                    file: get_entity_file(input, port.in_entity.as_str()),
                    line: port.line,
                    message,
                },
            );
        }
        i += 1;
    }
    out
}

} // verus!
