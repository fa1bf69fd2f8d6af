//! Hidden triggers: comparisons against suspicious literals.
use vstd::prelude::*;
use crate::text::{
    contains, decimal, decimal_text, holds, same, same_name, str_eq, upper, upper_chars_of,
};
use crate::policy::helpers::{
    counter_name, is_counter_name, in_testbench_arch, process_in_testbench, testbench_file,
    file_in_testbench,
};
use crate::policy::input::{Input, Process, Comparison};
use crate::policy::result::{Violation, ViolationView, views, group_views};

verus! {

/// The findings about hidden triggers that always run.
pub open spec fn violations_all(input: &Input) -> Seq<ViolationView> {
    magic_number_comparison_all(input) + trigger_drives_output_all(input)
        + multi_trigger_process_all(input)
}

pub fn violations(input: &Input) -> (out: Vec<Violation>)
    ensures
        views(out@) == violations_all(input),
{
    broadcast use group_views;

    let mut out: Vec<Violation> = Vec::new();
    let mut part = magic_number_comparison(input);
    out.append(&mut part);
    let mut part = trigger_drives_output(input);
    out.append(&mut part);
    let mut part = multi_trigger_process(input);
    out.append(&mut part);
    out
}

/// The findings about hidden triggers that run only when configured.
pub open spec fn optional_violations_all(input: &Input) -> Seq<ViolationView> {
    large_literal_comparison_all(input) + counter_trigger_all(input) + inverted_trigger_all(input)
}

pub fn optional_violations(input: &Input) -> (out: Vec<Violation>)
    ensures
        views(out@) == optional_violations_all(input),
{
    broadcast use group_views;

    let mut out: Vec<Violation> = Vec::new();
    let mut part = large_literal_comparison(input);
    out.append(&mut part);
    let mut part = counter_trigger(input);
    out.append(&mut part);
    let mut part = inverted_trigger(input);
    out.append(&mut part);
    out
}

/// A comparison against a literal of more than sixteen bits.
pub open spec fn large_literal_comparison_hit(input: &Input, comp: &Comparison) -> bool {
    comp.is_literal && comp.literal_bits > 16
}

pub open spec fn large_literal_comparison_finding(input: &Input, comp: &Comparison) -> ViolationView {
    ViolationView {
        rule: "large_literal_comparison"@,
        severity: "warning"@,
        file: comp.file@,
        line: comp.line as nat,
        message: "Suspicious comparison: '"@ + comp.left_operand@ + "' "@ + comp.operator@
            + " literal '"@ + comp.literal_value@ + "' ("@ + decimal(comp.literal_bits as nat)
            + " bits) - potential trojan trigger"@,
    }
}

/// The findings for the first `n` rows, in row order.
pub open spec fn large_literal_comparison_upto(input: &Input, n: int) -> Seq<ViolationView>
    decreases n,
{
    if n <= 0 {
        Seq::empty()
    } else {
        let rest = large_literal_comparison_upto(input, n - 1);
        let comp = &input.comparisons@[n - 1];
        if large_literal_comparison_hit(input, comp) {
            rest.push(large_literal_comparison_finding(input, comp))
        } else {
            rest
        }
    }
}

pub open spec fn large_literal_comparison_all(input: &Input) -> Seq<ViolationView> {
    large_literal_comparison_upto(input, input.comparisons@.len() as int)
}

pub fn large_literal_comparison(input: &Input) -> (out: Vec<Violation>)
    ensures
        views(out@) == large_literal_comparison_all(input),
{
    broadcast use group_views;

    let mut out: Vec<Violation> = Vec::new();
    let mut i: usize = 0;
    while i < input.comparisons.len()
        invariant
            i <= input.comparisons@.len(),
            views(out@) == large_literal_comparison_upto(input, i as int),
        decreases input.comparisons@.len() - i,
    {
        let comp = &input.comparisons[i];
        if comp.is_literal && comp.literal_bits > 16 {
            let mut message = String::from_str("Suspicious comparison: '");
            message.append(comp.left_operand.as_str());
            message.append("' ");
            message.append(comp.operator.as_str());
            message.append(" literal '");
            message.append(comp.literal_value.as_str());
            message.append("' (");
            message.append(decimal_text(comp.literal_bits).as_str());
            message.append(" bits) - potential trojan trigger");
            out.push(
                Violation {
                    rule: String::from_str("large_literal_comparison"),
                    severity: String::from_str("warning"),
                    file: comp.file.clone(),
                    line: comp.line,
                    message,
                },
            );
        }
        i += 1;
    }
    out
}

/// A comparison against a literal that holds a well-known magic number.
pub open spec fn magic_number_comparison_hit(input: &Input, comp: &Comparison) -> bool {
    comp.is_literal && magic_number(comp.literal_value@)
}

pub open spec fn magic_number_comparison_finding(input: &Input, comp: &Comparison) -> ViolationView {
    ViolationView {
        rule: "magic_number_comparison"@,
        severity: "error"@,
        file: comp.file@,
        line: comp.line as nat,
        message: "CRITICAL: Comparison against known magic number '"@ + comp.literal_value@
            + "' - HIGH PROBABILITY TROJAN TRIGGER"@,
    }
}

/// The findings for the first `n` rows, in row order.
pub open spec fn magic_number_comparison_upto(input: &Input, n: int) -> Seq<ViolationView>
    decreases n,
{
    if n <= 0 {
        Seq::empty()
    } else {
        let rest = magic_number_comparison_upto(input, n - 1);
        let comp = &input.comparisons@[n - 1];
        if magic_number_comparison_hit(input, comp) {
            rest.push(magic_number_comparison_finding(input, comp))
        } else {
            rest
        }
    }
}

pub open spec fn magic_number_comparison_all(input: &Input) -> Seq<ViolationView> {
    magic_number_comparison_upto(input, input.comparisons@.len() as int)
}

pub fn magic_number_comparison(input: &Input) -> (out: Vec<Violation>)
    ensures
        views(out@) == magic_number_comparison_all(input),
{
    broadcast use group_views;

    let mut out: Vec<Violation> = Vec::new();
    let mut i: usize = 0;
    while i < input.comparisons.len()
        invariant
            i <= input.comparisons@.len(),
            views(out@) == magic_number_comparison_upto(input, i as int),
        decreases input.comparisons@.len() - i,
    {
        let comp = &input.comparisons[i];
        if comp.is_literal && is_magic_number(comp.literal_value.as_str()) {
            let mut message = String::from_str("CRITICAL: Comparison against known magic number '");
            message.append(comp.literal_value.as_str());
            message.append("' - HIGH PROBABILITY TROJAN TRIGGER");
            out.push(
                Violation {
                    rule: String::from_str("magic_number_comparison"),
                    severity: String::from_str("error"),
                    file: comp.file.clone(),
                    line: comp.line,
                    message,
                },
            );
        }
        i += 1;
    }
    out
}

/// The literal, in upper case, holds one of the well-known magic numbers.
pub open spec fn magic_number(lit: Seq<char>) -> bool {
    let u = upper(lit);
    contains(u, "DEADBEEF"@) || contains(u, "CAFEBABE"@) || contains(u, "FEEDFACE"@)
        || contains(u, "BAADF00D"@) || contains(u, "DEADC0DE"@) || contains(u, "C0FFEE00"@)
        || contains(u, "BADC0DE0"@) || contains(u, "0BADF00D"@) || contains(u, "DEAD"@)
        || contains(u, "BEEF"@) || contains(u, "CAFE"@) || contains(u, "BABE"@)
        || contains(u, "FEED"@) || contains(u, "FACE"@)
}

pub fn is_magic_number(lit: &str) -> (r: bool)
    ensures
        r == magic_number(lit@),
{
    let u = upper_chars_of(lit);
    holds(&u, "DEADBEEF") || holds(&u, "CAFEBABE") || holds(&u, "FEEDFACE") || holds(&u, "BAADF00D")
        || holds(&u, "DEADC0DE") || holds(&u, "C0FFEE00") || holds(&u, "BADC0DE0")
        || holds(&u, "0BADF00D") || holds(&u, "DEAD") || holds(&u, "BEEF") || holds(&u, "CAFE")
        || holds(&u, "BABE") || holds(&u, "FEED") || holds(&u, "FACE")
}

/// Some output port has this name.
pub open spec fn output_port_named(input: &Input, name: Seq<char>) -> bool {
    exists|i: int|
        #![trigger input.ports@[i]]
        0 <= i < input.ports@.len() && ({
            let port = &input.ports@[i];
            same_name(port.name@, name) && port.direction@ == "out"@
        })
}

pub fn is_output_port(input: &Input, name: &str) -> (r: bool)
    ensures
        r == output_port_named(input, name@),
{
    let mut i: usize = 0;
    while i < input.ports.len()
        invariant
            i <= input.ports@.len(),
            forall|j: int|
                #![trigger input.ports@[j]]
                0 <= j < i ==> !({
                    let port = &input.ports@[j];
                    same_name(port.name@, name@) && port.direction@ == "out"@
                }),
        decreases input.ports@.len() - i,
    {
        let port = &input.ports[i];
        if same(port.name.as_str(), name) && str_eq(port.direction.as_str(), "out") {
            return true;
        }
        i += 1;
    }
    false
}

/// An equality with a literal of more than eight bits whose result drives an output port.
pub open spec fn trigger_drives_output_hit(input: &Input, comp: &Comparison) -> bool {
    comp.is_literal && comp.literal_bits > 8 && comp.operator@ == "="@
        && comp.result_drives@.len() > 0 && output_port_named(input, comp.result_drives@)
}

pub open spec fn trigger_drives_output_finding(input: &Input, comp: &Comparison) -> ViolationView {
    ViolationView {
        rule: "trigger_drives_output"@,
        severity: "error"@,
        file: comp.file@,
        line: comp.line as nat,
        message: "ALERT: Literal comparison '"@ + comp.left_operand@ + "' = '"@
            + comp.literal_value@ + "' drives output port '"@ + comp.result_drives@
            + "' - classic trojan pattern"@,
    }
}

/// The findings for the first `n` rows, in row order.
pub open spec fn trigger_drives_output_upto(input: &Input, n: int) -> Seq<ViolationView>
    decreases n,
{
    if n <= 0 {
        Seq::empty()
    } else {
        let rest = trigger_drives_output_upto(input, n - 1);
        let comp = &input.comparisons@[n - 1];
        if trigger_drives_output_hit(input, comp) {
            rest.push(trigger_drives_output_finding(input, comp))
        } else {
            rest
        }
    }
}

pub open spec fn trigger_drives_output_all(input: &Input) -> Seq<ViolationView> {
    trigger_drives_output_upto(input, input.comparisons@.len() as int)
}

pub fn trigger_drives_output(input: &Input) -> (out: Vec<Violation>)
    ensures
        views(out@) == trigger_drives_output_all(input),
{
    broadcast use group_views;

    let mut out: Vec<Violation> = Vec::new();
    let mut i: usize = 0;
    while i < input.comparisons.len()
        invariant
            i <= input.comparisons@.len(),
            views(out@) == trigger_drives_output_upto(input, i as int),
        decreases input.comparisons@.len() - i,
    {
        let comp = &input.comparisons[i];
        if comp.is_literal && comp.literal_bits > 8 && str_eq(comp.operator.as_str(), "=")
            && !comp.result_drives.as_str().is_empty()
            && is_output_port(input, comp.result_drives.as_str()) {
            let mut message = String::from_str("ALERT: Literal comparison '");
            message.append(comp.left_operand.as_str());
            message.append("' = '");
            message.append(comp.literal_value.as_str());
            message.append("' drives output port '");
            message.append(comp.result_drives.as_str());
            message.append("' - classic trojan pattern");
            out.push(
                Violation {
                    rule: String::from_str("trigger_drives_output"),
                    severity: String::from_str("error"),
                    file: comp.file.clone(),
                    line: comp.line,
                    message,
                },
            );
        }
        i += 1;
    }
    out
}

/// A counter compared against a literal of sixteen bits or more.
pub open spec fn counter_trigger_hit(input: &Input, comp: &Comparison) -> bool {
    comp.is_literal && comp.literal_bits >= 16 && counter_name(comp.left_operand@)
}

pub open spec fn counter_trigger_finding(input: &Input, comp: &Comparison) -> ViolationView {
    ViolationView {
        rule: "counter_trigger"@,
        severity: "warning"@,
        file: comp.file@,
        line: comp.line as nat,
        message: "Counter '"@ + comp.left_operand@ + "' compared against large literal '"@
            + comp.literal_value@ + "' - potential time bomb trigger"@,
    }
}

/// The findings for the first `n` rows, in row order.
pub open spec fn counter_trigger_upto(input: &Input, n: int) -> Seq<ViolationView>
    decreases n,
{
    if n <= 0 {
        Seq::empty()
    } else {
        let rest = counter_trigger_upto(input, n - 1);
        let comp = &input.comparisons@[n - 1];
        if counter_trigger_hit(input, comp) {
            rest.push(counter_trigger_finding(input, comp))
        } else {
            rest
        }
    }
}

pub open spec fn counter_trigger_all(input: &Input) -> Seq<ViolationView> {
    counter_trigger_upto(input, input.comparisons@.len() as int)
}

pub fn counter_trigger(input: &Input) -> (out: Vec<Violation>)
    ensures
        views(out@) == counter_trigger_all(input),
{
    broadcast use group_views;

    let mut out: Vec<Violation> = Vec::new();
    let mut i: usize = 0;
    while i < input.comparisons.len()
        invariant
            i <= input.comparisons@.len(),
            views(out@) == counter_trigger_upto(input, i as int),
        decreases input.comparisons@.len() - i,
    {
        let comp = &input.comparisons[i];
        if comp.is_literal && comp.literal_bits >= 16
            && is_counter_name(comp.left_operand.as_str()) {
            let mut message = String::from_str("Counter '");
            message.append(comp.left_operand.as_str());
            message.append("' compared against large literal '");
            message.append(comp.literal_value.as_str());
            message.append("' - potential time bomb trigger");
            out.push(
                Violation {
                    rule: String::from_str("counter_trigger"),
                    severity: String::from_str("warning"),
                    file: comp.file.clone(),
                    line: comp.line,
                    message,
                },
            );
        }
        i += 1;
    }
    out
}

/// An inequality against a literal of more than sixteen bits.
pub open spec fn inverted_trigger_hit(input: &Input, comp: &Comparison) -> bool {
    comp.is_literal && comp.literal_bits > 16 && comp.operator@ == "/="@
}

pub open spec fn inverted_trigger_finding(input: &Input, comp: &Comparison) -> ViolationView {
    ViolationView {
        rule: "inverted_trigger"@,
        severity: "warning"@,
        file: comp.file@,
        line: comp.line as nat,
        message: "Inverted comparison '/=' against large literal '"@ + comp.literal_value@
            + "' - could hide trojan by inverting trigger logic"@,
    }
}

/// The findings for the first `n` rows, in row order.
pub open spec fn inverted_trigger_upto(input: &Input, n: int) -> Seq<ViolationView>
    decreases n,
{
    if n <= 0 {
        Seq::empty()
    } else {
        let rest = inverted_trigger_upto(input, n - 1);
        let comp = &input.comparisons@[n - 1];
        if inverted_trigger_hit(input, comp) {
            rest.push(inverted_trigger_finding(input, comp))
        } else {
            rest
        }
    }
}

pub open spec fn inverted_trigger_all(input: &Input) -> Seq<ViolationView> {
    inverted_trigger_upto(input, input.comparisons@.len() as int)
}

pub fn inverted_trigger(input: &Input) -> (out: Vec<Violation>)
    ensures
        views(out@) == inverted_trigger_all(input),
{
    broadcast use group_views;

    let mut out: Vec<Violation> = Vec::new();
    let mut i: usize = 0;
    while i < input.comparisons.len()
        invariant
            i <= input.comparisons@.len(),
            views(out@) == inverted_trigger_upto(input, i as int),
        decreases input.comparisons@.len() - i,
    {
        let comp = &input.comparisons[i];
        if comp.is_literal && comp.literal_bits > 16 && str_eq(comp.operator.as_str(), "/=") {
            let mut message = String::from_str("Inverted comparison '/=' against large literal '");
            message.append(comp.literal_value.as_str());
            message.append("' - could hide trojan by inverting trigger logic");
            out.push(
                Violation {
                    rule: String::from_str("inverted_trigger"),
                    severity: String::from_str("warning"),
                    file: comp.file.clone(),
                    line: comp.line,
                    message,
                },
            );
        }
        i += 1;
    }
    out
}

/// The number of comparisons against literals of more than twelve bits in the process of this label.
pub open spec fn large_comparison_count_upto(input: &Input, label: Seq<char>, n: int) -> nat
    decreases n,
{
    if n <= 0 {
        0
    } else if ({
        let comp = &input.comparisons@[n - 1];
        same_name(comp.in_process@, label) && comp.is_literal && comp.literal_bits > 12
    }) {
        large_comparison_count_upto(input, label, n - 1) + 1
    } else {
        large_comparison_count_upto(input, label, n - 1)
    }
}

pub fn large_comparisons_in(input: &Input, label: &str) -> (r: usize)
    ensures
        r == large_comparison_count_upto(input, label@, input.comparisons@.len() as int),
{
    let mut count: usize = 0;
    let mut i: usize = 0;
    while i < input.comparisons.len()
        invariant
            i <= input.comparisons@.len(),
            count <= i,
            count == large_comparison_count_upto(input, label@, i as int),
        decreases input.comparisons@.len() - i,
    {
        let comp = &input.comparisons[i];
        if same(comp.in_process.as_str(), label) && comp.is_literal && comp.literal_bits > 12 {
            count += 1;
        }
        i += 1;
    }
    count
}

pub open spec fn large_comparison_count(input: &Input, label: Seq<char>) -> nat {
    large_comparison_count_upto(input, label, input.comparisons@.len() as int)
}

/// A process outside testbenches with more than two comparisons against large literals.
pub open spec fn multi_trigger_process_hit(input: &Input, proc: &Process) -> bool {
    !in_testbench_arch(input, proc.in_arch@) && !testbench_file(input, proc.file@)
        && large_comparison_count(input, proc.label@) > 2
}

pub open spec fn multi_trigger_process_finding(input: &Input, proc: &Process) -> ViolationView {
    ViolationView {
        rule: "multi_trigger_process"@,
        severity: "error"@,
        file: proc.file@,
        line: proc.line as nat,
        message: "Process '"@ + proc.label@ + "' contains "@
            + decimal(large_comparison_count(input, proc.label@))
            + " large literal comparisons - suspicious concentration of potential triggers"@,
    }
}

/// The findings for the first `n` rows, in row order.
pub open spec fn multi_trigger_process_upto(input: &Input, n: int) -> Seq<ViolationView>
    decreases n,
{
    if n <= 0 {
        Seq::empty()
    } else {
        let rest = multi_trigger_process_upto(input, n - 1);
        let proc = &input.processes@[n - 1];
        if multi_trigger_process_hit(input, proc) {
            rest.push(multi_trigger_process_finding(input, proc))
        } else {
            rest
        }
    }
}

pub open spec fn multi_trigger_process_all(input: &Input) -> Seq<ViolationView> {
    multi_trigger_process_upto(input, input.processes@.len() as int)
}

pub fn multi_trigger_process(input: &Input) -> (out: Vec<Violation>)
    ensures
        views(out@) == multi_trigger_process_all(input),
{
    broadcast use group_views;

    let mut out: Vec<Violation> = Vec::new();
    let mut i: usize = 0;
    while i < input.processes.len()
        invariant
            i <= input.processes@.len(),
            views(out@) == multi_trigger_process_upto(input, i as int),
        decreases input.processes@.len() - i,
    {
        let proc = &input.processes[i];
        let count = large_comparisons_in(input, proc.label.as_str());
        if !process_in_testbench(input, proc) && !file_in_testbench(input, proc.file.as_str())
            && count > 2 {
            let mut message = String::from_str("Process '");
            message.append(proc.label.as_str());
            message.append("' contains ");
            message.append(decimal_text(count).as_str());
            message.append(" large literal comparisons - suspicious concentration of potential triggers");
            out.push(
                Violation {
                    rule: String::from_str("multi_trigger_process"),
                    severity: String::from_str("error"),
                    file: proc.file.clone(),
                    line: proc.line,
                    message,
                },
            );
        }
        i += 1;
    }
    out
}

} // verus!
