//! Latch inference: incomplete case statements and incomplete assignments.
use vstd::prelude::*;
use crate::text::{
    contains, debug_list, debug_list_text, decimal, decimal_text, group_texts, lower,
    lower_contains, same, same_name, sort_texts, sorted_strings, str_eq, texts,
};
use crate::policy::helpers::{
    clock_name, is_clock_name, reset_name, is_reset_name, listed, signal_in_list, actual_signal,
    is_actual_signal, state_name, is_state_name,
};
use crate::policy::input::{Input, Process, CaseStatement, ConcurrentAssignment, Signal};
use crate::policy::result::{Violation, ViolationView, views, group_views};

verus! {

/// The latch findings that always run.
pub open spec fn violations_all(input: &Input) -> Seq<ViolationView> {
    incomplete_case_latch_all(input) + enum_case_incomplete_all(input)
}

pub fn violations(input: &Input) -> (out: Vec<Violation>)
    ensures
        views(out@) == violations_all(input),
{
    broadcast use group_views;

    let mut out: Vec<Violation> = Vec::new();
    let mut part = incomplete_case_latch(input);
    out.append(&mut part);
    let mut part = enum_case_incomplete(input);
    out.append(&mut part);
    out
}

/// The latch findings that run only when configured.
pub open spec fn optional_violations_all(input: &Input) -> Seq<ViolationView> {
    combinational_incomplete_assignment_all(input) + conditional_assignment_check_all(input)
        + selected_assignment_check_all(input) + many_signals_no_default_all(input)
        + fsm_no_reset_all(input)
}

pub fn optional_violations(input: &Input) -> (out: Vec<Violation>)
    ensures
        views(out@) == optional_violations_all(input),
{
    broadcast use group_views;

    let mut out: Vec<Violation> = Vec::new();
    let mut part = combinational_incomplete_assignment(input);
    out.append(&mut part);
    let mut part = conditional_assignment_check(input);
    out.append(&mut part);
    let mut part = selected_assignment_check(input);
    out.append(&mut part);
    let mut part = many_signals_no_default(input);
    out.append(&mut part);
    let mut part = fsm_no_reset(input);
    out.append(&mut part);
    out
}

/// Some combinational process of the file carries the label.
pub open spec fn combinational_process_at(input: &Input, file: Seq<char>, label: Seq<char>) -> bool {
    exists|i: int|
        #![trigger input.processes@[i]]
        0 <= i < input.processes@.len() && ({
            let p = &input.processes@[i];
            p.file@ == file && same_name(p.label@, label) && p.is_combinational
        })
}

pub fn has_combinational_process(input: &Input, file: &str, label: &str) -> (r: bool)
    ensures
        r == combinational_process_at(input, file@, label@),
{
    let mut i: usize = 0;
    while i < input.processes.len()
        invariant
            i <= input.processes@.len(),
            forall|j: int|
                #![trigger input.processes@[j]]
                0 <= j < i ==> !({
                    let p = &input.processes@[j];
                    p.file@ == file@ && same_name(p.label@, label@) && p.is_combinational
                }),
        decreases input.processes@.len() - i,
    {
        let p = &input.processes[i];
        if str_eq(p.file.as_str(), file) && same(p.label.as_str(), label) && p.is_combinational {
            return true;
        }
        i += 1;
    }
    false
}

/// What the finding says: a case statement outside any process may infer a
/// latch, one inside a combinational process will.
pub open spec fn case_latch_message(cs: &CaseStatement) -> Seq<char> {
    if cs.in_process@.len() == 0 {
        "Case statement on '"@ + cs.expression@ + "' missing 'when others =>' - may infer latch"@
    } else {
        "Case statement on '"@ + cs.expression@ + "' in combinational process '"@ + cs.in_process@
            + "' missing 'when others =>' - will infer latch"@
    }
}

pub fn case_latch_text(cs: &CaseStatement) -> (r: String)
    ensures
        r@ == case_latch_message(cs),
{
    let mut message = String::from_str("Case statement on '");
    message.append(cs.expression.as_str());
    if cs.in_process.as_str().is_empty() {
        message.append("' missing 'when others =>' - may infer latch");
    } else {
        message.append("' in combinational process '");
        message.append(cs.in_process.as_str());
        message.append("' missing 'when others =>' - will infer latch");
    }
    message
}

/// A case statement without `others`, outside any process or in a combinational one.
pub open spec fn incomplete_case_latch_hit(input: &Input, cs: &CaseStatement) -> bool {
    !cs.has_others
        && (cs.in_process@.len() == 0 || combinational_process_at(input, cs.file@, cs.in_process@))
}

pub open spec fn incomplete_case_latch_finding(input: &Input, cs: &CaseStatement) -> ViolationView {
    ViolationView {
        rule: "incomplete_case_latch"@,
        severity: "warning"@,
        file: cs.file@,
        line: cs.line as nat,
        message: case_latch_message(cs),
    }
}

/// The findings for the first `n` rows, in row order.
pub open spec fn incomplete_case_latch_upto(input: &Input, n: int) -> Seq<ViolationView>
    decreases n,
{
    if n <= 0 {
        Seq::empty()
    } else {
        let rest = incomplete_case_latch_upto(input, n - 1);
        let cs = &input.case_statements@[n - 1];
        if incomplete_case_latch_hit(input, cs) {
            rest.push(incomplete_case_latch_finding(input, cs))
        } else {
            rest
        }
    }
}

pub open spec fn incomplete_case_latch_all(input: &Input) -> Seq<ViolationView> {
    incomplete_case_latch_upto(input, input.case_statements@.len() as int)
}

pub fn incomplete_case_latch(input: &Input) -> (out: Vec<Violation>)
    ensures
        views(out@) == incomplete_case_latch_all(input),
{
    broadcast use group_views;

    let mut out: Vec<Violation> = Vec::new();
    let mut i: usize = 0;
    while i < input.case_statements.len()
        invariant
            i <= input.case_statements@.len(),
            views(out@) == incomplete_case_latch_upto(input, i as int),
        decreases input.case_statements@.len() - i,
    {
        let cs = &input.case_statements[i];
        if !cs.has_others
           
               
                    && (cs.in_process.as_str().is_empty() || has_combinational_process(input, cs.file.as_str(), cs.in_process.as_str())) {
            let mut message = String::from_str(case_latch_text(cs).as_str());
            out.push(
                Violation {
                    rule: String::from_str("incomplete_case_latch"),
                    severity: String::from_str("warning"),
                    file: cs.file.clone(),
                    line: cs.line,
                    message,
                },
            );
        }
        i += 1;
    }
    out
}

/// The first signal with this name.
pub open spec fn first_signal_named(input: &Input, name: Seq<char>, i: int) -> int
    decreases input.signals@.len() - i,
{
    if i < 0 || i >= input.signals@.len() {
        input.signals@.len() as int
    } else if ({
        let sig = &input.signals@[i];
        same_name(sig.name@, name)
    }) {
        i
    } else {
        first_signal_named(input, name, i + 1)
    }
}

pub fn find_signal(input: &Input, name: &str) -> (r: usize)
    ensures
        r == first_signal_named(input, name@, 0),
        r <= input.signals@.len(),
{
    let mut i: usize = 0;
    while i < input.signals.len()
        invariant
            i <= input.signals@.len(),
            first_signal_named(input, name@, 0) == first_signal_named(input, name@, i as int),
        decreases input.signals@.len() - i,
    {
        let sig = &input.signals[i];
        if same(sig.name.as_str(), name) {
            return i;
        }
        i += 1;
    }
    i
}

/// The first enumeration type with this name.
pub open spec fn first_enum_named(input: &Input, name: Seq<char>, i: int) -> int
    decreases input.types@.len() - i,
{
    if i < 0 || i >= input.types@.len() {
        input.types@.len() as int
    } else if ({
        let t = &input.types@[i];
        t.kind@ == "enum"@ && same_name(t.name@, name)
    }) {
        i
    } else {
        first_enum_named(input, name, i + 1)
    }
}

pub fn find_enum_type(input: &Input, name: &str) -> (r: usize)
    ensures
        r == first_enum_named(input, name@, 0),
        r <= input.types@.len(),
{
    let mut i: usize = 0;
    while i < input.types.len()
        invariant
            i <= input.types@.len(),
            first_enum_named(input, name@, 0) == first_enum_named(input, name@, i as int),
        decreases input.types@.len() - i,
    {
        let t = &input.types[i];
        if str_eq(t.kind.as_str(), "enum") && same(t.name.as_str(), name) {
            return i;
        }
        i += 1;
    }
    i
}

/// The literals among the first `n` that no choice names, in declaration order.
pub open spec fn missing_literals_upto(literals: Seq<String>, choices: Seq<String>, n: int) -> Seq<
    Seq<char>,
>
    decreases n,
{
    if n <= 0 {
        Seq::empty()
    } else if !listed(choices, literals[n - 1]@) {
        missing_literals_upto(literals, choices, n - 1).push(literals[n - 1]@)
    } else {
        missing_literals_upto(literals, choices, n - 1)
    }
}

pub open spec fn missing_literals(literals: Seq<String>, choices: Seq<String>) -> Seq<Seq<char>> {
    missing_literals_upto(literals, choices, literals.len() as int)
}

pub fn literals_not_chosen(literals: &Vec<String>, choices: &Vec<String>) -> (r: Vec<String>)
    ensures
        texts(r@) == missing_literals(literals@, choices@),
{
    broadcast use group_texts;

    let mut out: Vec<String> = Vec::new();
    let mut i: usize = 0;
    while i < literals.len()
        invariant
            i <= literals@.len(),
            texts(out@) == missing_literals_upto(literals@, choices@, i as int),
        decreases literals@.len() - i,
    {
        if !signal_in_list(literals[i].as_str(), choices.as_slice()) {
            out.push(literals[i].clone());
        }
        i += 1;
    }
    out
}

/// The enumeration literals that the case statement leaves out: those of the
/// type of the signal it switches on.  Empty where the expression is no
/// signal or its type no enumeration.
pub open spec fn uncovered_literals(input: &Input, cs: &CaseStatement) -> Seq<Seq<char>> {
    let s = first_signal_named(input, cs.expression@, 0);
    if s < input.signals@.len() {
        let t = first_enum_named(input, input.signals@[s].ty@, 0);
        if t < input.types@.len() {
            missing_literals(input.types@[t].enum_literals@, cs.choices@)
        } else {
            Seq::empty()
        }
    } else {
        Seq::empty()
    }
}

pub fn literals_left_out(input: &Input, cs: &CaseStatement) -> (r: Vec<String>)
    ensures
        texts(r@) == uncovered_literals(input, cs),
{
    broadcast use group_texts;

    let s = find_signal(input, cs.expression.as_str());
    if s >= input.signals.len() {
        return Vec::new();
    }
    let t = find_enum_type(input, input.signals[s].ty.as_str());
    if t >= input.types.len() {
        return Vec::new();
    }
    literals_not_chosen(&input.types[t].enum_literals, &cs.choices)
}

/// The finding for a case statement, given the list of missing values as the
/// message shows it.
pub open spec fn enum_case_finding_given(cs: &CaseStatement, shown: Seq<char>) -> ViolationView {
    ViolationView {
        rule: "enum_case_incomplete"@,
        severity: "error"@,
        file: cs.file@,
        line: cs.line as nat,
        message: "Case statement on enum '"@ + cs.expression@ + "' missing values "@ + shown
            + " in combinational process - will infer latch"@,
    }
}

pub fn enum_case_violation(cs: &CaseStatement, shown: &str) -> (r: Violation)
    ensures
        r@ == enum_case_finding_given(cs, shown@),
{
    let mut message = String::from_str("Case statement on enum '");
    message.append(cs.expression.as_str());
    message.append("' missing values ");
    message.append(shown);
    message.append(" in combinational process - will infer latch");
    Violation {
        rule: String::from_str("enum_case_incomplete"),
        severity: String::from_str("error"),
        file: cs.file.clone(),
        line: cs.line,
        message,
    }
}

/// A case statement over an enumerated signal, without `others`, that
/// leaves literals out: in whatever process it stands.
pub open spec fn enum_case_incomplete_hit(input: &Input, cs: &CaseStatement) -> bool {
    !cs.has_others && uncovered_literals(input, cs).len() > 0
}

pub open spec fn enum_case_incomplete_finding(input: &Input, cs: &CaseStatement) -> ViolationView {
    enum_case_finding_given(cs, debug_list_text(sort_texts(uncovered_literals(input, cs))))
}

/// The findings for the first `n` case statements, in record order.
pub open spec fn enum_case_incomplete_upto(input: &Input, n: int) -> Seq<ViolationView>
    decreases n,
{
    if n <= 0 {
        Seq::empty()
    } else {
        let rest = enum_case_incomplete_upto(input, n - 1);
        let cs = &input.case_statements@[n - 1];
        if enum_case_incomplete_hit(input, cs) {
            rest.push(enum_case_incomplete_finding(input, cs))
        } else {
            rest
        }
    }
}

pub open spec fn enum_case_incomplete_all(input: &Input) -> Seq<ViolationView> {
    enum_case_incomplete_upto(input, input.case_statements@.len() as int)
}

pub fn enum_case_incomplete(input: &Input) -> (out: Vec<Violation>)
    ensures
        views(out@) == enum_case_incomplete_all(input),
{
    broadcast use group_views;

    let mut out: Vec<Violation> = Vec::new();
    let mut i: usize = 0;
    while i < input.case_statements.len()
        invariant
            i <= input.case_statements@.len(),
            views(out@) == enum_case_incomplete_upto(input, i as int),
        decreases input.case_statements@.len() - i,
    {
        let cs = &input.case_statements[i];
        if !cs.has_others {
            let missing = literals_left_out(input, cs);
            proof {
                assert(texts(missing@).len() == missing@.len());
            }
            if missing.len() > 0 {
                let sorted = sorted_strings(&missing);
                let shown = debug_list(&sorted);
                out.push(enum_case_violation(cs, shown.as_str()));
            }
        }
        i += 1;
    }
    out
}

/// In combinational processes: every signal that the process both assigns and reads.
pub open spec fn combinational_incomplete_assignment_upto(input: &Input, n: int) -> Seq<ViolationView>
    decreases n,
{
    if n <= 0 {
        Seq::empty()
    } else {
        let rest = combinational_incomplete_assignment_upto(input, n - 1);
        let proc = &input.processes@[n - 1];
        if proc.is_combinational {
            rest + incomplete_assignment_in_process_all(input, proc)
        } else {
            rest
        }
    }
}

pub open spec fn combinational_incomplete_assignment_all(input: &Input) -> Seq<ViolationView> {
    combinational_incomplete_assignment_upto(input, input.processes@.len() as int)
}

pub fn combinational_incomplete_assignment(input: &Input) -> (out: Vec<Violation>)
    ensures
        views(out@) == combinational_incomplete_assignment_all(input),
{
    broadcast use group_views;

    let mut out: Vec<Violation> = Vec::new();
    let mut i: usize = 0;
    while i < input.processes.len()
        invariant
            i <= input.processes@.len(),
            views(out@) == combinational_incomplete_assignment_upto(input, i as int),
        decreases input.processes@.len() - i,
    {
        let proc = &input.processes[i];
        if proc.is_combinational {
            let mut part = incomplete_assignment_in_process(input, proc);
            out.append(&mut part);
        }
        i += 1;
    }
    out
}

/// The findings of one process, assigned signal after assigned signal.
pub open spec fn incomplete_assignment_in_process_upto(input: &Input, proc: &Process, n: int) -> Seq<ViolationView>
    decreases n,
{
    if n <= 0 {
        Seq::empty()
    } else {
        let rest = incomplete_assignment_in_process_upto(input, proc, n - 1);
        let assigned = &proc.assigned_signals@[n - 1];
        rest + incomplete_assignment_of_signal_all(input, proc, assigned)
    }
}

pub open spec fn incomplete_assignment_in_process_all(input: &Input, proc: &Process) -> Seq<ViolationView> {
    incomplete_assignment_in_process_upto(input, proc, proc.assigned_signals@.len() as int)
}

pub fn incomplete_assignment_in_process(input: &Input, proc: &Process) -> (out: Vec<Violation>)
    ensures
        views(out@) == incomplete_assignment_in_process_all(input, proc),
{
    broadcast use group_views;

    let mut out: Vec<Violation> = Vec::new();
    let mut i: usize = 0;
    while i < proc.assigned_signals.len()
        invariant
            i <= proc.assigned_signals@.len(),
            views(out@) == incomplete_assignment_in_process_upto(input, proc, i as int),
        decreases proc.assigned_signals@.len() - i,
    {
        let assigned = &proc.assigned_signals[i];
        let mut part = incomplete_assignment_of_signal(input, proc, assigned);
        out.append(&mut part);
        i += 1;
    }
    out
}

/// One finding for each read of the assigned signal, unless it is a clock, a reset, a next-state signal or no signal at all.
pub open spec fn incomplete_assignment_of_signal_hit(input: &Input, proc: &Process, assigned: &String, read: &String) -> bool {
    same_name(assigned@, read@) && !clock_name(assigned@) && !reset_name(assigned@)
        && !next_state_pattern(assigned@) && actual_signal(input, assigned@)
}

pub open spec fn incomplete_assignment_of_signal_finding(input: &Input, proc: &Process, assigned: &String, read: &String) -> ViolationView {
    ViolationView {
        rule: "combinational_incomplete_assignment"@,
        severity: "info"@,
        file: proc.file@,
        line: proc.line as nat,
        message: "Signal '"@ + assigned@ + "' in combinational process '"@ + proc.label@
            + "' is read as well as written - verify all code paths assign it to avoid latch"@,
    }
}

/// The findings for the first `n` rows, in row order.
pub open spec fn incomplete_assignment_of_signal_upto(input: &Input, proc: &Process, assigned: &String, n: int) -> Seq<ViolationView>
    decreases n,
{
    if n <= 0 {
        Seq::empty()
    } else {
        let rest = incomplete_assignment_of_signal_upto(input, proc, assigned, n - 1);
        let read = &proc.read_signals@[n - 1];
        if incomplete_assignment_of_signal_hit(input, proc, assigned, read) {
            rest.push(incomplete_assignment_of_signal_finding(input, proc, assigned, read))
        } else {
            rest
        }
    }
}

pub open spec fn incomplete_assignment_of_signal_all(input: &Input, proc: &Process, assigned: &String) -> Seq<ViolationView> {
    incomplete_assignment_of_signal_upto(input, proc, assigned, proc.read_signals@.len() as int)
}

pub fn incomplete_assignment_of_signal(input: &Input, proc: &Process, assigned: &String) -> (out: Vec<Violation>)
    ensures
        views(out@) == incomplete_assignment_of_signal_all(input, proc, assigned),
{
    broadcast use group_views;

    let mut out: Vec<Violation> = Vec::new();
    let mut i: usize = 0;
    while i < proc.read_signals.len()
        invariant
            i <= proc.read_signals@.len(),
            views(out@) == incomplete_assignment_of_signal_upto(input, proc, assigned, i as int),
        decreases proc.read_signals@.len() - i,
    {
        let read = &proc.read_signals[i];
        if same(assigned.as_str(), read.as_str()) && !is_clock_name(assigned.as_str())
            && !is_reset_name(assigned.as_str()) && !is_next_state_pattern(assigned.as_str())
            && is_actual_signal(input, assigned.as_str()) {
            let mut message = String::from_str("Signal '");
            message.append(assigned.as_str());
            message.append("' in combinational process '");
            message.append(proc.label.as_str());
            message.append("' is read as well as written - verify all code paths assign it to avoid latch");
            out.push(
                Violation {
                    rule: String::from_str("combinational_incomplete_assignment"),
                    severity: String::from_str("info"),
                    file: proc.file.clone(),
                    line: proc.line,
                    message,
                },
            );
        }
        i += 1;
    }
    out
}

pub open spec fn next_state_pattern(name: Seq<char>) -> bool {
    contains(lower(name), "next"@)
}

pub fn is_next_state_pattern(name: &str) -> (r: bool)
    ensures
        r == next_state_pattern(name@),
{
    lower_contains(name, "next")
}

/// Every conditional assignment, for review.
pub open spec fn conditional_assignment_check_hit(input: &Input, ca: &ConcurrentAssignment) -> bool {
    ca.kind@ == "conditional"@
}

pub open spec fn conditional_assignment_check_finding(input: &Input, ca: &ConcurrentAssignment) -> ViolationView {
    ViolationView {
        rule: "conditional_assignment_review"@,
        severity: "info"@,
        file: ca.file@,
        line: ca.line as nat,
        message: "Conditional assignment to '"@ + ca.target@
            + "' - verify all conditions have an 'else' clause to avoid latch inference"@,
    }
}

/// The findings for the first `n` rows, in row order.
pub open spec fn conditional_assignment_check_upto(input: &Input, n: int) -> Seq<ViolationView>
    decreases n,
{
    if n <= 0 {
        Seq::empty()
    } else {
        let rest = conditional_assignment_check_upto(input, n - 1);
        let ca = &input.concurrent_assignments@[n - 1];
        if conditional_assignment_check_hit(input, ca) {
            rest.push(conditional_assignment_check_finding(input, ca))
        } else {
            rest
        }
    }
}

pub open spec fn conditional_assignment_check_all(input: &Input) -> Seq<ViolationView> {
    conditional_assignment_check_upto(input, input.concurrent_assignments@.len() as int)
}

pub fn conditional_assignment_check(input: &Input) -> (out: Vec<Violation>)
    ensures
        views(out@) == conditional_assignment_check_all(input),
{
    broadcast use group_views;

    let mut out: Vec<Violation> = Vec::new();
    let mut i: usize = 0;
    while i < input.concurrent_assignments.len()
        invariant
            i <= input.concurrent_assignments@.len(),
            views(out@) == conditional_assignment_check_upto(input, i as int),
        decreases input.concurrent_assignments@.len() - i,
    {
        let ca = &input.concurrent_assignments[i];
        if str_eq(ca.kind.as_str(), "conditional") {
            let mut message = String::from_str("Conditional assignment to '");
            message.append(ca.target.as_str());
            message.append("' - verify all conditions have an 'else' clause to avoid latch inference");
            out.push(
                Violation {
                    rule: String::from_str("conditional_assignment_review"),
                    severity: String::from_str("info"),
                    file: ca.file.clone(),
                    line: ca.line,
                    message,
                },
            );
        }
        i += 1;
    }
    out
}

/// Every selected assignment, for review.
pub open spec fn selected_assignment_check_hit(input: &Input, ca: &ConcurrentAssignment) -> bool {
    ca.kind@ == "selected"@
}

pub open spec fn selected_assignment_check_finding(input: &Input, ca: &ConcurrentAssignment) -> ViolationView {
    ViolationView {
        rule: "selected_assignment_review"@,
        severity: "info"@,
        file: ca.file@,
        line: ca.line as nat,
        message: "Selected assignment to '"@ + ca.target@
            + "' - verify 'when others' is present to avoid latch inference"@,
    }
}

/// The findings for the first `n` rows, in row order.
pub open spec fn selected_assignment_check_upto(input: &Input, n: int) -> Seq<ViolationView>
    decreases n,
{
    if n <= 0 {
        Seq::empty()
    } else {
        let rest = selected_assignment_check_upto(input, n - 1);
        let ca = &input.concurrent_assignments@[n - 1];
        if selected_assignment_check_hit(input, ca) {
            rest.push(selected_assignment_check_finding(input, ca))
        } else {
            rest
        }
    }
}

pub open spec fn selected_assignment_check_all(input: &Input) -> Seq<ViolationView> {
    selected_assignment_check_upto(input, input.concurrent_assignments@.len() as int)
}

pub fn selected_assignment_check(input: &Input) -> (out: Vec<Violation>)
    ensures
        views(out@) == selected_assignment_check_all(input),
{
    broadcast use group_views;

    let mut out: Vec<Violation> = Vec::new();
    let mut i: usize = 0;
    while i < input.concurrent_assignments.len()
        invariant
            i <= input.concurrent_assignments@.len(),
            views(out@) == selected_assignment_check_upto(input, i as int),
        decreases input.concurrent_assignments@.len() - i,
    {
        let ca = &input.concurrent_assignments[i];
        if str_eq(ca.kind.as_str(), "selected") {
            let mut message = String::from_str("Selected assignment to '");
            message.append(ca.target.as_str());
            message.append("' - verify 'when others' is present to avoid latch inference");
            out.push(
                Violation {
                    rule: String::from_str("selected_assignment_review"),
                    severity: String::from_str("info"),
                    file: ca.file.clone(),
                    line: ca.line,
                    message,
                },
            );
        }
        i += 1;
    }
    out
}

/// Some case statement of the process has no `others`.
pub open spec fn incomplete_case_at(input: &Input, file: Seq<char>, label: Seq<char>) -> bool {
    exists|i: int|
        #![trigger input.case_statements@[i]]
        0 <= i < input.case_statements@.len() && ({
            let cs = &input.case_statements@[i];
            cs.file@ == file && same_name(cs.in_process@, label) && !cs.has_others
        })
}

pub fn has_incomplete_case(input: &Input, file: &str, label: &str) -> (r: bool)
    ensures
        r == incomplete_case_at(input, file@, label@),
{
    let mut i: usize = 0;
    while i < input.case_statements.len()
        invariant
            i <= input.case_statements@.len(),
            forall|j: int|
                #![trigger input.case_statements@[j]]
                0 <= j < i ==> !({
                    let cs = &input.case_statements@[j];
                    cs.file@ == file@ && same_name(cs.in_process@, label@) && !cs.has_others
                }),
        decreases input.case_statements@.len() - i,
    {
        let cs = &input.case_statements[i];
        if str_eq(cs.file.as_str(), file) && same(cs.in_process.as_str(), label)
            && !cs.has_others {
            return true;
        }
        i += 1;
    }
    false
}

/// A combinational process with more than three assigned signals and a case statement without `others`.
pub open spec fn many_signals_no_default_hit(input: &Input, proc: &Process) -> bool {
    proc.is_combinational && proc.assigned_signals@.len() > 3
        && incomplete_case_at(input, proc.file@, proc.label@)
}

pub open spec fn many_signals_no_default_finding(input: &Input, proc: &Process) -> ViolationView {
    ViolationView {
        rule: "combinational_default_values"@,
        severity: "info"@,
        file: proc.file@,
        line: proc.line as nat,
        message: "Combinational process '"@ + proc.label@ + "' assigns "@
            + decimal(proc.assigned_signals.len() as nat)
            + " signals - consider adding default values at process start to prevent latches"@,
    }
}

/// The findings for the first `n` rows, in row order.
pub open spec fn many_signals_no_default_upto(input: &Input, n: int) -> Seq<ViolationView>
    decreases n,
{
    if n <= 0 {
        Seq::empty()
    } else {
        let rest = many_signals_no_default_upto(input, n - 1);
        let proc = &input.processes@[n - 1];
        if many_signals_no_default_hit(input, proc) {
            rest.push(many_signals_no_default_finding(input, proc))
        } else {
            rest
        }
    }
}

pub open spec fn many_signals_no_default_all(input: &Input) -> Seq<ViolationView> {
    many_signals_no_default_upto(input, input.processes@.len() as int)
}

pub fn many_signals_no_default(input: &Input) -> (out: Vec<Violation>)
    ensures
        views(out@) == many_signals_no_default_all(input),
{
    broadcast use group_views;

    let mut out: Vec<Violation> = Vec::new();
    let mut i: usize = 0;
    while i < input.processes.len()
        invariant
            i <= input.processes@.len(),
            views(out@) == many_signals_no_default_upto(input, i as int),
        decreases input.processes@.len() - i,
    {
        let proc = &input.processes[i];
        if proc.is_combinational && proc.assigned_signals.len() > 3
            && has_incomplete_case(input, proc.file.as_str(), proc.label.as_str()) {
            let mut message = String::from_str("Combinational process '");
            message.append(proc.label.as_str());
            message.append("' assigns ");
            message.append(decimal_text(proc.assigned_signals.len()).as_str());
            message.append(" signals - consider adding default values at process start to prevent latches");
            out.push(
                Violation {
                    rule: String::from_str("combinational_default_values"),
                    severity: String::from_str("info"),
                    file: proc.file.clone(),
                    line: proc.line,
                    message,
                },
            );
        }
        i += 1;
    }
    out
}

/// In sequential processes without reset: every assigned state signal.
pub open spec fn fsm_no_reset_upto(input: &Input, n: int) -> Seq<ViolationView>
    decreases n,
{
    if n <= 0 {
        Seq::empty()
    } else {
        let rest = fsm_no_reset_upto(input, n - 1);
        let proc = &input.processes@[n - 1];
        if proc.is_sequential && !proc.has_reset {
            rest + state_without_reset_all(input, proc)
        } else {
            rest
        }
    }
}

pub open spec fn fsm_no_reset_all(input: &Input) -> Seq<ViolationView> {
    fsm_no_reset_upto(input, input.processes@.len() as int)
}

pub fn fsm_no_reset(input: &Input) -> (out: Vec<Violation>)
    ensures
        views(out@) == fsm_no_reset_all(input),
{
    broadcast use group_views;

    let mut out: Vec<Violation> = Vec::new();
    let mut i: usize = 0;
    while i < input.processes.len()
        invariant
            i <= input.processes@.len(),
            views(out@) == fsm_no_reset_upto(input, i as int),
        decreases input.processes@.len() - i,
    {
        let proc = &input.processes[i];
        if proc.is_sequential && !proc.has_reset {
            let mut part = state_without_reset(input, proc);
            out.append(&mut part);
        }
        i += 1;
    }
    out
}

/// An assigned signal that is named like a state.
pub open spec fn state_without_reset_hit(input: &Input, proc: &Process, assigned: &String) -> bool {
    state_name(assigned@)
}

pub open spec fn state_without_reset_finding(input: &Input, proc: &Process, assigned: &String) -> ViolationView {
    ViolationView {
        rule: "fsm_no_reset_state"@,
        severity: "warning"@,
        file: proc.file@,
        line: proc.line as nat,
        message: "State signal '"@ + assigned@ + "' in process '"@ + proc.label@
            + "' has no reset - initial state undefined"@,
    }
}

/// The findings for the first `n` rows, in row order.
pub open spec fn state_without_reset_upto(input: &Input, proc: &Process, n: int) -> Seq<ViolationView>
    decreases n,
{
    if n <= 0 {
        Seq::empty()
    } else {
        let rest = state_without_reset_upto(input, proc, n - 1);
        let assigned = &proc.assigned_signals@[n - 1];
        if state_without_reset_hit(input, proc, assigned) {
            rest.push(state_without_reset_finding(input, proc, assigned))
        } else {
            rest
        }
    }
}

pub open spec fn state_without_reset_all(input: &Input, proc: &Process) -> Seq<ViolationView> {
    state_without_reset_upto(input, proc, proc.assigned_signals@.len() as int)
}

pub fn state_without_reset(input: &Input, proc: &Process) -> (out: Vec<Violation>)
    ensures
        views(out@) == state_without_reset_all(input, proc),
{
    broadcast use group_views;

    let mut out: Vec<Violation> = Vec::new();
    let mut i: usize = 0;
    while i < proc.assigned_signals.len()
        invariant
            i <= proc.assigned_signals@.len(),
            views(out@) == state_without_reset_upto(input, proc, i as int),
        decreases proc.assigned_signals@.len() - i,
    {
        let assigned = &proc.assigned_signals[i];
        if is_state_name(assigned.as_str()) {
            let mut message = String::from_str("State signal '");
            message.append(assigned.as_str());
            message.append("' in process '");
            message.append(proc.label.as_str());
            message.append("' has no reset - initial state undefined");
            out.push(
                Violation {
                    rule: String::from_str("fsm_no_reset_state"),
                    severity: String::from_str("warning"),
                    file: proc.file.clone(),
                    line: proc.line,
                    message,
                },
            );
        }
        i += 1;
    }
    out
}

} // verus!
