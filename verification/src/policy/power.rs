//! Power: expensive arithmetic without operand isolation.
use vstd::prelude::*;
use crate::text::{
    chars_are, contains, decimal, decimal_text, holds, lower, lower_chars_of, same, same_name,
    str_eq,
};
use crate::policy::input::{Input, Process, ArithmeticOp};
use crate::policy::result::{Violation, ViolationView, views, group_views};

verus! {

/// No rule of this family runs unconditionally.
pub open spec fn violations_all(input: &Input) -> Seq<ViolationView> {
    Seq::<ViolationView>::empty()
}

pub fn violations(input: &Input) -> (out: Vec<Violation>)
    ensures
        views(out@) == violations_all(input),
{
    broadcast use group_views;

    Vec::new()
}

/// The findings about power: expensive operators without operand isolation.
pub open spec fn optional_violations_all(input: &Input) -> Seq<ViolationView> {
    unguarded_division_all(input) + unguarded_multiplication_all(input)
        + unguarded_exponent_all(input) + power_hotspot_all(input)
        + combinational_multiplier_all(input) + weak_guard_all(input)
        + dsp_candidate_no_control_all(input) + clock_gating_opportunity_all(input)
}

pub fn optional_violations(input: &Input) -> (out: Vec<Violation>)
    ensures
        views(out@) == optional_violations_all(input),
{
    broadcast use group_views;

    let mut out: Vec<Violation> = Vec::new();
    let mut part = unguarded_division(input);
    out.append(&mut part);
    let mut part = unguarded_multiplication(input);
    out.append(&mut part);
    let mut part = unguarded_exponent(input);
    out.append(&mut part);
    let mut part = power_hotspot(input);
    out.append(&mut part);
    let mut part = combinational_multiplier(input);
    out.append(&mut part);
    let mut part = weak_guard(input);
    out.append(&mut part);
    let mut part = dsp_candidate_no_control(input);
    out.append(&mut part);
    let mut part = clock_gating_opportunity(input);
    out.append(&mut part);
    out
}

/// A multiplication of two or more operands without guard.
pub open spec fn unguarded_multiplication_hit(input: &Input, op: &ArithmeticOp) -> bool {
    op.operator@ == "*"@ && !op.is_guarded && op.operands@.len() >= 2
}

pub open spec fn unguarded_multiplication_finding(input: &Input, op: &ArithmeticOp) -> ViolationView {
    ViolationView {
        rule: "unguarded_multiplication"@,
        severity: "warning"@,
        file: op.file@,
        line: op.line as nat,
        message: "Multiplier without operand isolation - runs every cycle even when unused. Guard with enable signal."@,
    }
}

/// The findings for the first `n` rows, in row order.
pub open spec fn unguarded_multiplication_upto(input: &Input, n: int) -> Seq<ViolationView>
    decreases n,
{
    if n <= 0 {
        Seq::empty()
    } else {
        let rest = unguarded_multiplication_upto(input, n - 1);
        let op = &input.arithmetic_ops@[n - 1];
        if unguarded_multiplication_hit(input, op) {
            rest.push(unguarded_multiplication_finding(input, op))
        } else {
            rest
        }
    }
}

pub open spec fn unguarded_multiplication_all(input: &Input) -> Seq<ViolationView> {
    unguarded_multiplication_upto(input, input.arithmetic_ops@.len() as int)
}

pub fn unguarded_multiplication(input: &Input) -> (out: Vec<Violation>)
    ensures
        views(out@) == unguarded_multiplication_all(input),
{
    broadcast use group_views;

    let mut out: Vec<Violation> = Vec::new();
    let mut i: usize = 0;
    while i < input.arithmetic_ops.len()
        invariant
            i <= input.arithmetic_ops@.len(),
            views(out@) == unguarded_multiplication_upto(input, i as int),
        decreases input.arithmetic_ops@.len() - i,
    {
        let op = &input.arithmetic_ops[i];
        if str_eq(op.operator.as_str(), "*") && !op.is_guarded && op.operands.len() >= 2 {
            let mut message = String::from_str("Multiplier without operand isolation - runs every cycle even when unused. Guard with enable signal.");
            out.push(
                Violation {
                    rule: String::from_str("unguarded_multiplication"),
                    severity: String::from_str("warning"),
                    file: op.file.clone(),
                    line: op.line,
                    message,
                },
            );
        }
        i += 1;
    }
    out
}

/// A division or modulo without guard.
pub open spec fn unguarded_division_hit(input: &Input, op: &ArithmeticOp) -> bool {
    division_op(op.operator@) && !op.is_guarded
}

pub open spec fn unguarded_division_finding(input: &Input, op: &ArithmeticOp) -> ViolationView {
    ViolationView {
        rule: "unguarded_division"@,
        severity: "error"@,
        file: op.file@,
        line: op.line as nat,
        message: "Division/modulo operator '"@ + op.operator@
            + "' without operand isolation - VERY expensive, runs every cycle!"@,
    }
}

/// The findings for the first `n` rows, in row order.
pub open spec fn unguarded_division_upto(input: &Input, n: int) -> Seq<ViolationView>
    decreases n,
{
    if n <= 0 {
        Seq::empty()
    } else {
        let rest = unguarded_division_upto(input, n - 1);
        let op = &input.arithmetic_ops@[n - 1];
        if unguarded_division_hit(input, op) {
            rest.push(unguarded_division_finding(input, op))
        } else {
            rest
        }
    }
}

pub open spec fn unguarded_division_all(input: &Input) -> Seq<ViolationView> {
    unguarded_division_upto(input, input.arithmetic_ops@.len() as int)
}

pub fn unguarded_division(input: &Input) -> (out: Vec<Violation>)
    ensures
        views(out@) == unguarded_division_all(input),
{
    broadcast use group_views;

    let mut out: Vec<Violation> = Vec::new();
    let mut i: usize = 0;
    while i < input.arithmetic_ops.len()
        invariant
            i <= input.arithmetic_ops@.len(),
            views(out@) == unguarded_division_upto(input, i as int),
        decreases input.arithmetic_ops@.len() - i,
    {
        let op = &input.arithmetic_ops[i];
        if is_division_op(op.operator.as_str()) && !op.is_guarded {
            let mut message = String::from_str("Division/modulo operator '");
            message.append(op.operator.as_str());
            message.append("' without operand isolation - VERY expensive, runs every cycle!");
            out.push(
                Violation {
                    rule: String::from_str("unguarded_division"),
                    severity: String::from_str("error"),
                    file: op.file.clone(),
                    line: op.line,
                    message,
                },
            );
        }
        i += 1;
    }
    out
}

/// A division or modulo operator.
pub open spec fn division_op(name: Seq<char>) -> bool {
    let l = lower(name);
    l == "/"@ || l == "mod"@ || l == "rem"@
}

pub fn is_division_op(name: &str) -> (r: bool)
    ensures
        r == division_op(name@),
{
    let l = lower_chars_of(name);
    chars_are(&l, "/") || chars_are(&l, "mod") || chars_are(&l, "rem")
}

/// An exponentiation without guard.
pub open spec fn unguarded_exponent_hit(input: &Input, op: &ArithmeticOp) -> bool {
    op.operator@ == "**"@ && !op.is_guarded
}

pub open spec fn unguarded_exponent_finding(input: &Input, op: &ArithmeticOp) -> ViolationView {
    ViolationView {
        rule: "unguarded_exponent"@,
        severity: "warning"@,
        file: op.file@,
        line: op.line as nat,
        message: "Exponentiation '**' without operand isolation - implement with proper enable gating"@,
    }
}

/// The findings for the first `n` rows, in row order.
pub open spec fn unguarded_exponent_upto(input: &Input, n: int) -> Seq<ViolationView>
    decreases n,
{
    if n <= 0 {
        Seq::empty()
    } else {
        let rest = unguarded_exponent_upto(input, n - 1);
        let op = &input.arithmetic_ops@[n - 1];
        if unguarded_exponent_hit(input, op) {
            rest.push(unguarded_exponent_finding(input, op))
        } else {
            rest
        }
    }
}

pub open spec fn unguarded_exponent_all(input: &Input) -> Seq<ViolationView> {
    unguarded_exponent_upto(input, input.arithmetic_ops@.len() as int)
}

pub fn unguarded_exponent(input: &Input) -> (out: Vec<Violation>)
    ensures
        views(out@) == unguarded_exponent_all(input),
{
    broadcast use group_views;

    let mut out: Vec<Violation> = Vec::new();
    let mut i: usize = 0;
    while i < input.arithmetic_ops.len()
        invariant
            i <= input.arithmetic_ops@.len(),
            views(out@) == unguarded_exponent_upto(input, i as int),
        decreases input.arithmetic_ops@.len() - i,
    {
        let op = &input.arithmetic_ops[i];
        if str_eq(op.operator.as_str(), "**") && !op.is_guarded {
            let mut message = String::from_str("Exponentiation '**' without operand isolation - implement with proper enable gating");
            out.push(
                Violation {
                    rule: String::from_str("unguarded_exponent"),
                    severity: String::from_str("warning"),
                    file: op.file.clone(),
                    line: op.line,
                    message,
                },
            );
        }
        i += 1;
    }
    out
}

/// The number of expensive operations in the process of this label.
pub open spec fn expensive_count_upto(input: &Input, label: Seq<char>, n: int) -> nat
    decreases n,
{
    if n <= 0 {
        0
    } else if ({
        let op = &input.arithmetic_ops@[n - 1];
        same_name(op.in_process@, label) && expensive_op(op.operator@)
    }) {
        expensive_count_upto(input, label, n - 1) + 1
    } else {
        expensive_count_upto(input, label, n - 1)
    }
}

pub fn expensive_ops_in(input: &Input, label: &str) -> (r: usize)
    ensures
        r == expensive_count_upto(input, label@, input.arithmetic_ops@.len() as int),
{
    let mut count: usize = 0;
    let mut i: usize = 0;
    while i < input.arithmetic_ops.len()
        invariant
            i <= input.arithmetic_ops@.len(),
            count <= i,
            count == expensive_count_upto(input, label@, i as int),
        decreases input.arithmetic_ops@.len() - i,
    {
        let op = &input.arithmetic_ops[i];
        if same(op.in_process.as_str(), label) && is_expensive_op(op.operator.as_str()) {
            count += 1;
        }
        i += 1;
    }
    count
}

pub open spec fn expensive_count(input: &Input, label: Seq<char>) -> nat {
    expensive_count_upto(input, label, input.arithmetic_ops@.len() as int)
}

/// A process with more than three expensive operations.
pub open spec fn power_hotspot_hit(input: &Input, proc: &Process) -> bool {
    expensive_count(input, proc.label@) > 3
}

pub open spec fn power_hotspot_finding(input: &Input, proc: &Process) -> ViolationView {
    ViolationView {
        rule: "power_hotspot"@,
        severity: "warning"@,
        file: proc.file@,
        line: proc.line as nat,
        message: "Process '"@ + proc.label@ + "' contains "@
            + decimal(expensive_count(input, proc.label@))
            + " expensive operations - power hotspot, consider operand isolation"@,
    }
}

/// The findings for the first `n` rows, in row order.
pub open spec fn power_hotspot_upto(input: &Input, n: int) -> Seq<ViolationView>
    decreases n,
{
    if n <= 0 {
        Seq::empty()
    } else {
        let rest = power_hotspot_upto(input, n - 1);
        let proc = &input.processes@[n - 1];
        if power_hotspot_hit(input, proc) {
            rest.push(power_hotspot_finding(input, proc))
        } else {
            rest
        }
    }
}

pub open spec fn power_hotspot_all(input: &Input) -> Seq<ViolationView> {
    power_hotspot_upto(input, input.processes@.len() as int)
}

pub fn power_hotspot(input: &Input) -> (out: Vec<Violation>)
    ensures
        views(out@) == power_hotspot_all(input),
{
    broadcast use group_views;

    let mut out: Vec<Violation> = Vec::new();
    let mut i: usize = 0;
    while i < input.processes.len()
        invariant
            i <= input.processes@.len(),
            views(out@) == power_hotspot_upto(input, i as int),
        decreases input.processes@.len() - i,
    {
        let proc = &input.processes[i];
        let count = expensive_ops_in(input, proc.label.as_str());
        if count > 3 {
            let mut message = String::from_str("Process '");
            message.append(proc.label.as_str());
            message.append("' contains ");
            message.append(decimal_text(count).as_str());
            message.append(" expensive operations - power hotspot, consider operand isolation");
            out.push(
                Violation {
                    rule: String::from_str("power_hotspot"),
                    severity: String::from_str("warning"),
                    file: proc.file.clone(),
                    line: proc.line,
                    message,
                },
            );
        }
        i += 1;
    }
    out
}

/// A multiplication, division, modulo or exponentiation.
pub open spec fn expensive_op(name: Seq<char>) -> bool {
    let l = lower(name);
    l == "*"@ || l == "/"@ || l == "mod"@ || l == "rem"@ || l == "**"@
}

pub fn is_expensive_op(name: &str) -> (r: bool)
    ensures
        r == expensive_op(name@),
{
    let l = lower_chars_of(name);
    chars_are(&l, "*") || chars_are(&l, "/") || chars_are(&l, "mod") || chars_are(&l, "rem")
        || chars_are(&l, "**")
}

/// The first process with this label.
pub open spec fn first_process_labelled(input: &Input, label: Seq<char>, i: int) -> int
    decreases input.processes@.len() - i,
{
    if i < 0 || i >= input.processes@.len() {
        input.processes@.len() as int
    } else if ({
        let p = &input.processes@[i];
        same_name(p.label@, label)
    }) {
        i
    } else {
        first_process_labelled(input, label, i + 1)
    }
}

pub fn find_process(input: &Input, label: &str) -> (r: usize)
    ensures
        r == first_process_labelled(input, label@, 0),
        r <= input.processes@.len(),
{
    let mut i: usize = 0;
    while i < input.processes.len()
        invariant
            i <= input.processes@.len(),
            first_process_labelled(input, label@, 0) == first_process_labelled(input, label@, i as int),
        decreases input.processes@.len() - i,
    {
        let p = &input.processes[i];
        if same(p.label.as_str(), label) {
            return i;
        }
        i += 1;
    }
    i
}

/// The first process with this label is combinational.
pub open spec fn in_combinational_process(input: &Input, label: Seq<char>) -> bool {
    let p = first_process_labelled(input, label, 0);
    p < input.processes@.len() && input.processes@[p].is_combinational
}

pub fn is_in_combinational_process(input: &Input, label: &str) -> (r: bool)
    ensures
        r == in_combinational_process(input, label@),
{
    let p = find_process(input, label);
    p < input.processes.len() && input.processes[p].is_combinational
}

/// A multiplication in a combinational process.
pub open spec fn combinational_multiplier_hit(input: &Input, op: &ArithmeticOp) -> bool {
    op.operator@ == "*"@ && in_combinational_process(input, op.in_process@)
}

pub open spec fn combinational_multiplier_finding(input: &Input, op: &ArithmeticOp) -> ViolationView {
    ViolationView {
        rule: "combinational_multiplier"@,
        severity: "warning"@,
        file: op.file@,
        line: op.line as nat,
        message: "Multiplier in combinational process - active continuously, consider clocked implementation with enable"@,
    }
}

/// The findings for the first `n` rows, in row order.
pub open spec fn combinational_multiplier_upto(input: &Input, n: int) -> Seq<ViolationView>
    decreases n,
{
    if n <= 0 {
        Seq::empty()
    } else {
        let rest = combinational_multiplier_upto(input, n - 1);
        let op = &input.arithmetic_ops@[n - 1];
        if combinational_multiplier_hit(input, op) {
            rest.push(combinational_multiplier_finding(input, op))
        } else {
            rest
        }
    }
}

pub open spec fn combinational_multiplier_all(input: &Input) -> Seq<ViolationView> {
    combinational_multiplier_upto(input, input.arithmetic_ops@.len() as int)
}

pub fn combinational_multiplier(input: &Input) -> (out: Vec<Violation>)
    ensures
        views(out@) == combinational_multiplier_all(input),
{
    broadcast use group_views;

    let mut out: Vec<Violation> = Vec::new();
    let mut i: usize = 0;
    while i < input.arithmetic_ops.len()
        invariant
            i <= input.arithmetic_ops@.len(),
            views(out@) == combinational_multiplier_upto(input, i as int),
        decreases input.arithmetic_ops@.len() - i,
    {
        let op = &input.arithmetic_ops[i];
        if str_eq(op.operator.as_str(), "*")
            && is_in_combinational_process(input, op.in_process.as_str()) {
            let mut message = String::from_str("Multiplier in combinational process - active continuously, consider clocked implementation with enable");
            out.push(
                Violation {
                    rule: String::from_str("combinational_multiplier"),
                    severity: String::from_str("warning"),
                    file: op.file.clone(),
                    line: op.line,
                    message,
                },
            );
        }
        i += 1;
    }
    out
}

/// An expensive operation guarded by a generic enable or handshake signal.
pub open spec fn weak_guard_hit(input: &Input, op: &ArithmeticOp) -> bool {
    op.is_guarded && op.guard_signal@.len() > 0 && expensive_op(op.operator@)
        && weak_guard_name(op.guard_signal@)
}

pub open spec fn weak_guard_finding(input: &Input, op: &ArithmeticOp) -> ViolationView {
    ViolationView {
        rule: "weak_guard"@,
        severity: "info"@,
        file: op.file@,
        line: op.line as nat,
        message: "Expensive operation guarded by '"@ + op.guard_signal@
            + "' - verify this actually gates operand toggling"@,
    }
}

/// The findings for the first `n` rows, in row order.
pub open spec fn weak_guard_upto(input: &Input, n: int) -> Seq<ViolationView>
    decreases n,
{
    if n <= 0 {
        Seq::empty()
    } else {
        let rest = weak_guard_upto(input, n - 1);
        let op = &input.arithmetic_ops@[n - 1];
        if weak_guard_hit(input, op) {
            rest.push(weak_guard_finding(input, op))
        } else {
            rest
        }
    }
}

pub open spec fn weak_guard_all(input: &Input) -> Seq<ViolationView> {
    weak_guard_upto(input, input.arithmetic_ops@.len() as int)
}

pub fn weak_guard(input: &Input) -> (out: Vec<Violation>)
    ensures
        views(out@) == weak_guard_all(input),
{
    broadcast use group_views;

    let mut out: Vec<Violation> = Vec::new();
    let mut i: usize = 0;
    while i < input.arithmetic_ops.len()
        invariant
            i <= input.arithmetic_ops@.len(),
            views(out@) == weak_guard_upto(input, i as int),
        decreases input.arithmetic_ops@.len() - i,
    {
        let op = &input.arithmetic_ops[i];
        if op.is_guarded && !op.guard_signal.as_str().is_empty()
            && is_expensive_op(op.operator.as_str()) && is_weak_guard(op.guard_signal.as_str()) {
            let mut message = String::from_str("Expensive operation guarded by '");
            message.append(op.guard_signal.as_str());
            message.append("' - verify this actually gates operand toggling");
            out.push(
                Violation {
                    rule: String::from_str("weak_guard"),
                    severity: String::from_str("info"),
                    file: op.file.clone(),
                    line: op.line,
                    message,
                },
            );
        }
        i += 1;
    }
    out
}

/// A generic enable or handshake name.
pub open spec fn weak_guard_name(name: Seq<char>) -> bool {
    let l = lower(name);
    l == "enable"@ || l == "en"@ || l == "valid"@ || l == "vld"@ || l == "ready"@ || l == "rdy"@
}

pub fn is_weak_guard(name: &str) -> (r: bool)
    ensures
        r == weak_guard_name(name@),
{
    let l = lower_chars_of(name);
    chars_are(&l, "enable") || chars_are(&l, "en") || chars_are(&l, "valid") || chars_are(&l, "vld")
        || chars_are(&l, "ready") || chars_are(&l, "rdy")
}

/// The first signal with this name.
pub open spec fn first_signal_named(input: &Input, name: Seq<char>, i: int) -> int
    decreases input.signals@.len() - i,
{
    if i < 0 || i >= input.signals@.len() {
        input.signals@.len() as int
    } else if ({
        let sig = &input.signals@[i];
        same_name(sig.name@, name)
    }) {
        i
    } else {
        first_signal_named(input, name, i + 1)
    }
}

pub fn find_signal(input: &Input, name: &str) -> (r: usize)
    ensures
        r == first_signal_named(input, name@, 0),
        r <= input.signals@.len(),
{
    let mut i: usize = 0;
    while i < input.signals.len()
        invariant
            i <= input.signals@.len(),
            first_signal_named(input, name@, 0) == first_signal_named(input, name@, i as int),
        decreases input.signals@.len() - i,
    {
        let sig = &input.signals[i];
        if same(sig.name.as_str(), name) {
            return i;
        }
        i += 1;
    }
    i
}

/// The first signal with this name has a wide type.
pub open spec fn wide_signal(input: &Input, name: Seq<char>) -> bool {
    let s = first_signal_named(input, name, 0);
    s < input.signals@.len() && wide_type(input.signals@[s].ty@)
}

pub fn is_wide_signal(input: &Input, name: &str) -> (r: bool)
    ensures
        r == wide_signal(input, name@),
{
    let s = find_signal(input, name);
    s < input.signals.len() && is_wide_type(input.signals[s].ty.as_str())
}

/// An unguarded multiplication of two operands whose first is a wide signal.
pub open spec fn dsp_candidate_no_control_hit(input: &Input, op: &ArithmeticOp) -> bool {
    op.operator@ == "*"@ && op.operands@.len() == 2 && !op.is_guarded
        && wide_signal(input, op.operands@[0]@)
}

pub open spec fn dsp_candidate_no_control_finding(input: &Input, op: &ArithmeticOp) -> ViolationView {
    ViolationView {
        rule: "dsp_candidate_no_control"@,
        severity: "info"@,
        file: op.file@,
        line: op.line as nat,
        message: "Wide signal '"@ + op.operands@[0]@
            + "' multiplication - likely DSP block, add clock enable for power savings"@,
    }
}

/// The findings for the first `n` rows, in row order.
pub open spec fn dsp_candidate_no_control_upto(input: &Input, n: int) -> Seq<ViolationView>
    decreases n,
{
    if n <= 0 {
        Seq::empty()
    } else {
        let rest = dsp_candidate_no_control_upto(input, n - 1);
        let op = &input.arithmetic_ops@[n - 1];
        if dsp_candidate_no_control_hit(input, op) {
            rest.push(dsp_candidate_no_control_finding(input, op))
        } else {
            rest
        }
    }
}

pub open spec fn dsp_candidate_no_control_all(input: &Input) -> Seq<ViolationView> {
    dsp_candidate_no_control_upto(input, input.arithmetic_ops@.len() as int)
}

pub fn dsp_candidate_no_control(input: &Input) -> (out: Vec<Violation>)
    ensures
        views(out@) == dsp_candidate_no_control_all(input),
{
    broadcast use group_views;

    let mut out: Vec<Violation> = Vec::new();
    let mut i: usize = 0;
    while i < input.arithmetic_ops.len()
        invariant
            i <= input.arithmetic_ops@.len(),
            views(out@) == dsp_candidate_no_control_upto(input, i as int),
        decreases input.arithmetic_ops@.len() - i,
    {
        let op = &input.arithmetic_ops[i];
        if str_eq(op.operator.as_str(), "*") && op.operands.len() == 2 && !op.is_guarded
            && is_wide_signal(input, op.operands[0].as_str()) {
            let mut message = String::from_str("Wide signal '");
            message.append(op.operands[0].as_str());
            message.append("' multiplication - likely DSP block, add clock enable for power savings");
            out.push(
                Violation {
                    rule: String::from_str("dsp_candidate_no_control"),
                    severity: String::from_str("info"),
                    file: op.file.clone(),
                    line: op.line,
                    message,
                },
            );
        }
        i += 1;
    }
    out
}

/// A vector-like numeric type.
pub open spec fn wide_type(name: Seq<char>) -> bool {
    let l = lower(name);
    contains(l, "unsigned"@) || contains(l, "signed"@) || contains(l, "std_logic_vector"@)
}

pub fn is_wide_type(name: &str) -> (r: bool)
    ensures
        r == wide_type(name@),
{
    let l = lower_chars_of(name);
    holds(&l, "unsigned") || holds(&l, "signed") || holds(&l, "std_logic_vector")
}

/// In sequential processes with more than five registers: every read enable signal.
pub open spec fn clock_gating_opportunity_upto(input: &Input, n: int) -> Seq<ViolationView>
    decreases n,
{
    if n <= 0 {
        Seq::empty()
    } else {
        let rest = clock_gating_opportunity_upto(input, n - 1);
        let proc = &input.processes@[n - 1];
        if proc.is_sequential && proc.assigned_signals@.len() > 5 {
            rest + gating_enable_in_process_all(input, proc)
        } else {
            rest
        }
    }
}

pub open spec fn clock_gating_opportunity_all(input: &Input) -> Seq<ViolationView> {
    clock_gating_opportunity_upto(input, input.processes@.len() as int)
}

pub fn clock_gating_opportunity(input: &Input) -> (out: Vec<Violation>)
    ensures
        views(out@) == clock_gating_opportunity_all(input),
{
    broadcast use group_views;

    let mut out: Vec<Violation> = Vec::new();
    let mut i: usize = 0;
    while i < input.processes.len()
        invariant
            i <= input.processes@.len(),
            views(out@) == clock_gating_opportunity_upto(input, i as int),
        decreases input.processes@.len() - i,
    {
        let proc = &input.processes[i];
        if proc.is_sequential && proc.assigned_signals.len() > 5 {
            let mut part = gating_enable_in_process(input, proc);
            out.append(&mut part);
        }
        i += 1;
    }
    out
}

/// A read signal that is named like an enable.
pub open spec fn gating_enable_in_process_hit(input: &Input, proc: &Process, read: &String) -> bool {
    enable_signal(read@)
}

pub open spec fn gating_enable_in_process_finding(input: &Input, proc: &Process, read: &String) -> ViolationView {
    ViolationView {
        rule: "clock_gating_opportunity"@,
        severity: "info"@,
        file: proc.file@,
        line: proc.line as nat,
        message: "Process '"@ + proc.label@ + "' has "@
            + decimal(proc.assigned_signals.len() as nat) + " registers with enable '"@ + read@
            + "' - candidate for clock gating"@,
    }
}

/// The findings for the first `n` rows, in row order.
pub open spec fn gating_enable_in_process_upto(input: &Input, proc: &Process, n: int) -> Seq<ViolationView>
    decreases n,
{
    if n <= 0 {
        Seq::empty()
    } else {
        let rest = gating_enable_in_process_upto(input, proc, n - 1);
        let read = &proc.read_signals@[n - 1];
        if gating_enable_in_process_hit(input, proc, read) {
            rest.push(gating_enable_in_process_finding(input, proc, read))
        } else {
            rest
        }
    }
}

pub open spec fn gating_enable_in_process_all(input: &Input, proc: &Process) -> Seq<ViolationView> {
    gating_enable_in_process_upto(input, proc, proc.read_signals@.len() as int)
}

pub fn gating_enable_in_process(input: &Input, proc: &Process) -> (out: Vec<Violation>)
    ensures
        views(out@) == gating_enable_in_process_all(input, proc),
{
    broadcast use group_views;

    let mut out: Vec<Violation> = Vec::new();
    let mut i: usize = 0;
    while i < proc.read_signals.len()
        invariant
            i <= proc.read_signals@.len(),
            views(out@) == gating_enable_in_process_upto(input, proc, i as int),
        decreases proc.read_signals@.len() - i,
    {
        let read = &proc.read_signals[i];
        if is_enable_signal(read.as_str()) {
            let mut message = String::from_str("Process '");
            message.append(proc.label.as_str());
            message.append("' has ");
            message.append(decimal_text(proc.assigned_signals.len()).as_str());
            message.append(" registers with enable '");
            message.append(read.as_str());
            message.append("' - candidate for clock gating");
            out.push(
                Violation {
                    rule: String::from_str("clock_gating_opportunity"),
                    severity: String::from_str("info"),
                    file: proc.file.clone(),
                    line: proc.line,
                    message,
                },
            );
        }
        i += 1;
    }
    out
}

/// A name that holds an enable word.
pub open spec fn enable_signal(name: Seq<char>) -> bool {
    let l = lower(name);
    contains(l, "enable"@) || contains(l, "en"@) || contains(l, "ce"@) || contains(l, "clken"@)
        || contains(l, "clk_en"@) || contains(l, "clock_enable"@)
}

pub fn is_enable_signal(name: &str) -> (r: bool)
    ensures
        r == enable_signal(name@),
{
    let l = lower_chars_of(name);
    holds(&l, "enable") || holds(&l, "en") || holds(&l, "ce") || holds(&l, "clken")
        || holds(&l, "clk_en") || holds(&l, "clock_enable")
}

} // verus!
