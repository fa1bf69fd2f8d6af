//! State machines: state signals, their types and the case statements over them.
use vstd::prelude::*;
use crate::text::{
    begins, chars_are, contains, ends, ends_with, holds, lower, lower_chars_of, same, same_name,
    starts_with, str_eq,
};
use crate::policy::helpers::{listed, signal_in_list};
use crate::policy::input::{Input, Signal, CaseStatement, TypeDeclaration};
use crate::policy::result::{Violation, ViolationView, views, group_views};

verus! {

/// No rule of this family runs unconditionally.
pub open spec fn violations_all(input: &Input) -> Seq<ViolationView> {
    Seq::<ViolationView>::empty()
}

pub fn violations(input: &Input) -> (out: Vec<Violation>)
    ensures
        views(out@) == violations_all(input),
{
    broadcast use group_views;

    Vec::new()
}

/// The findings about state machines, rule after rule.
pub open spec fn optional_violations_all(input: &Input) -> Seq<ViolationView> {
    state_signal_not_enum_all(input) + single_state_signal_all(input)
        + fsm_unreachable_state_all(input) + fsm_missing_default_state_all(input)
        + fsm_unhandled_state_all(input)
}

pub fn optional_violations(input: &Input) -> (out: Vec<Violation>)
    ensures
        views(out@) == optional_violations_all(input),
{
    broadcast use group_views;

    let mut out: Vec<Violation> = Vec::new();
    let mut part = state_signal_not_enum(input);
    out.append(&mut part);
    let mut part = single_state_signal(input);
    out.append(&mut part);
    let mut part = fsm_unreachable_state(input);
    out.append(&mut part);
    let mut part = fsm_missing_default_state(input);
    out.append(&mut part);
    let mut part = fsm_unhandled_state(input);
    out.append(&mut part);
    out
}

/// A state signal of a vector type.
pub open spec fn state_signal_not_enum_hit(input: &Input, sig: &Signal) -> bool {
    state_signal_name(sig.name@) && vector_type(sig.ty@)
}

pub open spec fn state_signal_not_enum_finding(input: &Input, sig: &Signal) -> ViolationView {
    ViolationView {
        rule: "state_signal_not_enum"@,
        severity: "warning"@,
        file: sig.file@,
        line: sig.line as nat,
        message: "State signal '"@ + sig.name@ + "' uses vector type '"@ + sig.ty@
            + "' - consider using enumerated type for clarity"@,
    }
}

/// The findings for the first `n` rows, in row order.
pub open spec fn state_signal_not_enum_upto(input: &Input, n: int) -> Seq<ViolationView>
    decreases n,
{
    if n <= 0 {
        Seq::empty()
    } else {
        let rest = state_signal_not_enum_upto(input, n - 1);
        let sig = &input.signals@[n - 1];
        if state_signal_not_enum_hit(input, sig) {
            rest.push(state_signal_not_enum_finding(input, sig))
        } else {
            rest
        }
    }
}

pub open spec fn state_signal_not_enum_all(input: &Input) -> Seq<ViolationView> {
    state_signal_not_enum_upto(input, input.signals@.len() as int)
}

pub fn state_signal_not_enum(input: &Input) -> (out: Vec<Violation>)
    ensures
        views(out@) == state_signal_not_enum_all(input),
{
    broadcast use group_views;

    let mut out: Vec<Violation> = Vec::new();
    let mut i: usize = 0;
    while i < input.signals.len()
        invariant
            i <= input.signals@.len(),
            views(out@) == state_signal_not_enum_upto(input, i as int),
        decreases input.signals@.len() - i,
    {
        let sig = &input.signals[i];
        if is_state_signal_name(sig.name.as_str()) && is_vector_type(sig.ty.as_str()) {
            let mut message = String::from_str("State signal '");
            message.append(sig.name.as_str());
            message.append("' uses vector type '");
            message.append(sig.ty.as_str());
            message.append("' - consider using enumerated type for clarity");
            out.push(
                Violation {
                    rule: String::from_str("state_signal_not_enum"),
                    severity: String::from_str("warning"),
                    file: sig.file.clone(),
                    line: sig.line,
                    message,
                },
            );
        }
        i += 1;
    }
    out
}

/// A signal `state` whose scope has no next-state signal.
pub open spec fn single_state_signal_hit(input: &Input, sig: &Signal) -> bool {
    same_name(sig.name@, "state"@) && !next_state_signal_in(input, sig.in_entity@)
}

pub open spec fn single_state_signal_finding(input: &Input, sig: &Signal) -> ViolationView {
    ViolationView {
        rule: "single_state_signal"@,
        severity: "info"@,
        file: sig.file@,
        line: sig.line as nat,
        message: "Signal 'state' found without 'next_state' - consider two-process FSM style"@,
    }
}

/// The findings for the first `n` rows, in row order.
pub open spec fn single_state_signal_upto(input: &Input, n: int) -> Seq<ViolationView>
    decreases n,
{
    if n <= 0 {
        Seq::empty()
    } else {
        let rest = single_state_signal_upto(input, n - 1);
        let sig = &input.signals@[n - 1];
        if single_state_signal_hit(input, sig) {
            rest.push(single_state_signal_finding(input, sig))
        } else {
            rest
        }
    }
}

pub open spec fn single_state_signal_all(input: &Input) -> Seq<ViolationView> {
    single_state_signal_upto(input, input.signals@.len() as int)
}

pub fn single_state_signal(input: &Input) -> (out: Vec<Violation>)
    ensures
        views(out@) == single_state_signal_all(input),
{
    broadcast use group_views;

    let mut out: Vec<Violation> = Vec::new();
    let mut i: usize = 0;
    while i < input.signals.len()
        invariant
            i <= input.signals@.len(),
            views(out@) == single_state_signal_upto(input, i as int),
        decreases input.signals@.len() - i,
    {
        let sig = &input.signals[i];
        if same(sig.name.as_str(), "state")
            && !has_next_state_signal(input, sig.in_entity.as_str()) {
            let mut message = String::from_str("Signal 'state' found without 'next_state' - consider two-process FSM style");
            out.push(
                Violation {
                    rule: String::from_str("single_state_signal"),
                    severity: String::from_str("info"),
                    file: sig.file.clone(),
                    line: sig.line,
                    message,
                },
            );
        }
        i += 1;
    }
    out
}

/// A case statement on a state signal without `others`.
pub open spec fn fsm_missing_default_state_hit(input: &Input, cs: &CaseStatement) -> bool {
    state_signal_name(cs.expression@) && !cs.has_others
}

pub open spec fn fsm_missing_default_state_finding(input: &Input, cs: &CaseStatement) -> ViolationView {
    ViolationView {
        rule: "fsm_missing_default_state"@,
        severity: "error"@,
        file: cs.file@,
        line: cs.line as nat,
        message: "FSM case statement on '"@ + cs.expression@
            + "' missing 'when others' - undefined behavior for invalid states"@,
    }
}

/// The findings for the first `n` rows, in row order.
pub open spec fn fsm_missing_default_state_upto(input: &Input, n: int) -> Seq<ViolationView>
    decreases n,
{
    if n <= 0 {
        Seq::empty()
    } else {
        let rest = fsm_missing_default_state_upto(input, n - 1);
        let cs = &input.case_statements@[n - 1];
        if fsm_missing_default_state_hit(input, cs) {
            rest.push(fsm_missing_default_state_finding(input, cs))
        } else {
            rest
        }
    }
}

pub open spec fn fsm_missing_default_state_all(input: &Input) -> Seq<ViolationView> {
    fsm_missing_default_state_upto(input, input.case_statements@.len() as int)
}

pub fn fsm_missing_default_state(input: &Input) -> (out: Vec<Violation>)
    ensures
        views(out@) == fsm_missing_default_state_all(input),
{
    broadcast use group_views;

    let mut out: Vec<Violation> = Vec::new();
    let mut i: usize = 0;
    while i < input.case_statements.len()
        invariant
            i <= input.case_statements@.len(),
            views(out@) == fsm_missing_default_state_upto(input, i as int),
        decreases input.case_statements@.len() - i,
    {
        let cs = &input.case_statements[i];
        if is_state_expression(cs.expression.as_str()) && !cs.has_others {
            let mut message = String::from_str("FSM case statement on '");
            message.append(cs.expression.as_str());
            message.append("' missing 'when others' - undefined behavior for invalid states");
            out.push(
                Violation {
                    rule: String::from_str("fsm_missing_default_state"),
                    severity: String::from_str("error"),
                    file: cs.file.clone(),
                    line: cs.line,
                    message,
                },
            );
        }
        i += 1;
    }
    out
}

/// For every enumeration type whose name suggests states: each literal that a case statement over that type leaves out.
pub open spec fn fsm_unhandled_state_upto(input: &Input, n: int) -> Seq<ViolationView>
    decreases n,
{
    if n <= 0 {
        Seq::empty()
    } else {
        let rest = fsm_unhandled_state_upto(input, n - 1);
        let type_decl = &input.types@[n - 1];
        if type_decl.kind@ == "enum"@ && state_type_name(type_decl.name@) {
            rest + unhandled_states_of_type_all(input, type_decl)
        } else {
            rest
        }
    }
}

pub open spec fn fsm_unhandled_state_all(input: &Input) -> Seq<ViolationView> {
    fsm_unhandled_state_upto(input, input.types@.len() as int)
}

pub fn fsm_unhandled_state(input: &Input) -> (out: Vec<Violation>)
    ensures
        views(out@) == fsm_unhandled_state_all(input),
{
    broadcast use group_views;

    let mut out: Vec<Violation> = Vec::new();
    let mut i: usize = 0;
    while i < input.types.len()
        invariant
            i <= input.types@.len(),
            views(out@) == fsm_unhandled_state_upto(input, i as int),
        decreases input.types@.len() - i,
    {
        let type_decl = &input.types[i];
        if str_eq(type_decl.kind.as_str(), "enum") && is_state_type_name(type_decl.name.as_str()) {
            let mut part = unhandled_states_of_type(input, type_decl);
            out.append(&mut part);
        }
        i += 1;
    }
    out
}

/// The unhandled-state findings of one type, literal after literal.
pub open spec fn unhandled_states_of_type_upto(input: &Input, type_decl: &TypeDeclaration, n: int) -> Seq<ViolationView>
    decreases n,
{
    if n <= 0 {
        Seq::empty()
    } else {
        let rest = unhandled_states_of_type_upto(input, type_decl, n - 1);
        let literal = &type_decl.enum_literals@[n - 1];
        rest + unhandled_state_in_cases_all(input, type_decl, literal)
    }
}

pub open spec fn unhandled_states_of_type_all(input: &Input, type_decl: &TypeDeclaration) -> Seq<ViolationView> {
    unhandled_states_of_type_upto(input, type_decl, type_decl.enum_literals@.len() as int)
}

pub fn unhandled_states_of_type(input: &Input, type_decl: &TypeDeclaration) -> (out: Vec<Violation>)
    ensures
        views(out@) == unhandled_states_of_type_all(input, type_decl),
{
    broadcast use group_views;

    let mut out: Vec<Violation> = Vec::new();
    let mut i: usize = 0;
    while i < type_decl.enum_literals.len()
        invariant
            i <= type_decl.enum_literals@.len(),
            views(out@) == unhandled_states_of_type_upto(input, type_decl, i as int),
        decreases type_decl.enum_literals@.len() - i,
    {
        let literal = &type_decl.enum_literals[i];
        let mut part = unhandled_state_in_cases(input, type_decl, literal);
        out.append(&mut part);
        i += 1;
    }
    out
}

/// A case statement over the type, without `others`, that does not list the literal.
pub open spec fn unhandled_state_in_cases_hit(input: &Input, type_decl: &TypeDeclaration, literal: &String, cs: &CaseStatement) -> bool {
    state_signal_name(cs.expression@) && uses_literals(cs, type_decl.enum_literals@)
        && !cs.has_others && !listed(cs.choices@, literal@)
}

pub open spec fn unhandled_state_in_cases_finding(input: &Input, type_decl: &TypeDeclaration, literal: &String, cs: &CaseStatement) -> ViolationView {
    ViolationView {
        rule: "fsm_unhandled_state"@,
        severity: "warning"@,
        file: cs.file@,
        line: cs.line as nat,
        message: "FSM state '"@ + literal@ + "' from type '"@ + type_decl.name@
            + "' not explicitly handled in case statement"@,
    }
}

/// The findings for the first `n` rows, in row order.
pub open spec fn unhandled_state_in_cases_upto(input: &Input, type_decl: &TypeDeclaration, literal: &String, n: int) -> Seq<ViolationView>
    decreases n,
{
    if n <= 0 {
        Seq::empty()
    } else {
        let rest = unhandled_state_in_cases_upto(input, type_decl, literal, n - 1);
        let cs = &input.case_statements@[n - 1];
        if unhandled_state_in_cases_hit(input, type_decl, literal, cs) {
            rest.push(unhandled_state_in_cases_finding(input, type_decl, literal, cs))
        } else {
            rest
        }
    }
}

pub open spec fn unhandled_state_in_cases_all(input: &Input, type_decl: &TypeDeclaration, literal: &String) -> Seq<ViolationView> {
    unhandled_state_in_cases_upto(input, type_decl, literal, input.case_statements@.len() as int)
}

pub fn unhandled_state_in_cases(input: &Input, type_decl: &TypeDeclaration, literal: &String) -> (out: Vec<Violation>)
    ensures
        views(out@) == unhandled_state_in_cases_all(input, type_decl, literal),
{
    broadcast use group_views;

    let mut out: Vec<Violation> = Vec::new();
    let mut i: usize = 0;
    while i < input.case_statements.len()
        invariant
            i <= input.case_statements@.len(),
            views(out@) == unhandled_state_in_cases_upto(input, type_decl, literal, i as int),
        decreases input.case_statements@.len() - i,
    {
        let cs = &input.case_statements[i];
        if is_state_expression(cs.expression.as_str())
            && case_uses_this_type(cs, type_decl.enum_literals.as_slice()) && !cs.has_others
            && !state_in_choices(literal.as_str(), cs.choices.as_slice()) {
            let mut message = String::from_str("FSM state '");
            message.append(literal.as_str());
            message.append("' from type '");
            message.append(type_decl.name.as_str());
            message.append("' not explicitly handled in case statement");
            out.push(
                Violation {
                    rule: String::from_str("fsm_unhandled_state"),
                    severity: String::from_str("warning"),
                    file: cs.file.clone(),
                    line: cs.line,
                    message,
                },
            );
        }
        i += 1;
    }
    out
}

/// For every enumeration type whose name suggests states: each literal but the first that is never assigned to a state signal.
pub open spec fn fsm_unreachable_state_upto(input: &Input, n: int) -> Seq<ViolationView>
    decreases n,
{
    if n <= 0 {
        Seq::empty()
    } else {
        let rest = fsm_unreachable_state_upto(input, n - 1);
        let type_decl = &input.types@[n - 1];
        if type_decl.kind@ == "enum"@ && state_type_name(type_decl.name@)
            && type_decl.enum_literals@.len() > 0 {
            rest + unreachable_states_of_type_all(input, type_decl)
        } else {
            rest
        }
    }
}

pub open spec fn fsm_unreachable_state_all(input: &Input) -> Seq<ViolationView> {
    fsm_unreachable_state_upto(input, input.types@.len() as int)
}

pub fn fsm_unreachable_state(input: &Input) -> (out: Vec<Violation>)
    ensures
        views(out@) == fsm_unreachable_state_all(input),
{
    broadcast use group_views;

    let mut out: Vec<Violation> = Vec::new();
    let mut i: usize = 0;
    while i < input.types.len()
        invariant
            i <= input.types@.len(),
            views(out@) == fsm_unreachable_state_upto(input, i as int),
        decreases input.types@.len() - i,
    {
        let type_decl = &input.types[i];
        if str_eq(type_decl.kind.as_str(), "enum") && is_state_type_name(type_decl.name.as_str())
            && type_decl.enum_literals.len() > 0 {
            let mut part = unreachable_states_of_type(input, type_decl);
            out.append(&mut part);
        }
        i += 1;
    }
    out
}

/// The unreachable-state findings of one type; the first literal is the reset state and is left out.
pub open spec fn unreachable_states_of_type_upto(input: &Input, type_decl: &TypeDeclaration, n: int) -> Seq<ViolationView>
    decreases n,
{
    if n <= 0 {
        Seq::empty()
    } else {
        let rest = unreachable_states_of_type_upto(input, type_decl, n - 1);
        let literal = &type_decl.enum_literals@[n - 1];
        if !same_name(literal@, type_decl.enum_literals@[0]@) {
            rest + unreachable_state_for_signals_all(input, literal)
        } else {
            rest
        }
    }
}

pub open spec fn unreachable_states_of_type_all(input: &Input, type_decl: &TypeDeclaration) -> Seq<ViolationView> {
    unreachable_states_of_type_upto(input, type_decl, type_decl.enum_literals@.len() as int)
}

pub fn unreachable_states_of_type(input: &Input, type_decl: &TypeDeclaration) -> (out: Vec<Violation>)
    ensures
        views(out@) == unreachable_states_of_type_all(input, type_decl),
{
    broadcast use group_views;

    let mut out: Vec<Violation> = Vec::new();
    let mut i: usize = 0;
    while i < type_decl.enum_literals.len()
        invariant
            i <= type_decl.enum_literals@.len(),
            views(out@) == unreachable_states_of_type_upto(input, type_decl, i as int),
        decreases type_decl.enum_literals@.len() - i,
    {
        let literal = &type_decl.enum_literals[i];
        if !same(literal.as_str(), type_decl.enum_literals[0].as_str()) {
            let mut part = unreachable_state_for_signals(input, literal);
            out.append(&mut part);
        }
        i += 1;
    }
    out
}

/// A state signal that no process assigns while reading the literal.
pub open spec fn unreachable_state_for_signals_hit(input: &Input, literal: &String, sig: &Signal) -> bool {
    state_signal_name(sig.name@) && !state_assigned(input, sig.name@, literal@)
}

pub open spec fn unreachable_state_for_signals_finding(input: &Input, literal: &String, sig: &Signal) -> ViolationView {
    ViolationView {
        rule: "fsm_unreachable_state"@,
        severity: "warning"@,
        file: sig.file@,
        line: sig.line as nat,
        message: "FSM state '"@ + sig.name@ + "' is never assigned to '"@ + literal@
            + "' - potentially unreachable"@,
    }
}

/// The findings for the first `n` rows, in row order.
pub open spec fn unreachable_state_for_signals_upto(input: &Input, literal: &String, n: int) -> Seq<ViolationView>
    decreases n,
{
    if n <= 0 {
        Seq::empty()
    } else {
        let rest = unreachable_state_for_signals_upto(input, literal, n - 1);
        let sig = &input.signals@[n - 1];
        if unreachable_state_for_signals_hit(input, literal, sig) {
            rest.push(unreachable_state_for_signals_finding(input, literal, sig))
        } else {
            rest
        }
    }
}

pub open spec fn unreachable_state_for_signals_all(input: &Input, literal: &String) -> Seq<ViolationView> {
    unreachable_state_for_signals_upto(input, literal, input.signals@.len() as int)
}

pub fn unreachable_state_for_signals(input: &Input, literal: &String) -> (out: Vec<Violation>)
    ensures
        views(out@) == unreachable_state_for_signals_all(input, literal),
{
    broadcast use group_views;

    let mut out: Vec<Violation> = Vec::new();
    let mut i: usize = 0;
    while i < input.signals.len()
        invariant
            i <= input.signals@.len(),
            views(out@) == unreachable_state_for_signals_upto(input, literal, i as int),
        decreases input.signals@.len() - i,
    {
        let sig = &input.signals[i];
        if is_state_signal_name(sig.name.as_str())
            && !state_ever_assigned(input, sig.name.as_str(), literal.as_str()) {
            let mut message = String::from_str("FSM state '");
            message.append(sig.name.as_str());
            message.append("' is never assigned to '");
            message.append(literal.as_str());
            message.append("' - potentially unreachable");
            out.push(
                Violation {
                    rule: String::from_str("fsm_unreachable_state"),
                    severity: String::from_str("warning"),
                    file: sig.file.clone(),
                    line: sig.line,
                    message,
                },
            );
        }
        i += 1;
    }
    out
}

pub open spec fn state_signal_name(name: Seq<char>) -> bool {
    let l = lower(name);
    l == "state"@ || ends_with(l, "_state"@) || starts_with(l, "state_"@) || l == "current_state"@
        || l == "next_state"@ || l == "present_state"@
}

pub fn is_state_signal_name(name: &str) -> (r: bool)
    ensures
        r == state_signal_name(name@),
{
    let l = lower_chars_of(name);
    chars_are(&l, "state") || ends(&l, "_state") || begins(&l, "state_") || chars_are(
        &l,
        "current_state",
    ) || chars_are(&l, "next_state") || chars_are(&l, "present_state")
}

pub open spec fn next_state_name(name: Seq<char>) -> bool {
    let l = lower(name);
    l == "next_state"@ || l == "nextstate"@ || l == "nxt_state"@
}

pub fn is_next_state_name(name: &str) -> (r: bool)
    ensures
        r == next_state_name(name@),
{
    let l = lower_chars_of(name);
    chars_are(&l, "next_state") || chars_are(&l, "nextstate") || chars_are(&l, "nxt_state")
}

pub open spec fn vector_type(t: Seq<char>) -> bool {
    let l = lower(t);
    contains(l, "vector"@) || contains(l, "unsigned"@) || contains(l, "signed"@)
}

pub fn is_vector_type(t: &str) -> (r: bool)
    ensures
        r == vector_type(t@),
{
    let l = lower_chars_of(t);
    holds(&l, "vector") || holds(&l, "unsigned") || holds(&l, "signed")
}

/// A case expression is a state expression when it is named like a state signal.
pub fn is_state_expression(expr: &str) -> (r: bool)
    ensures
        r == state_signal_name(expr@),
{
    is_state_signal_name(expr)
}

pub open spec fn state_type_name(name: Seq<char>) -> bool {
    let l = lower(name);
    contains(l, "state"@) || (ends_with(l, "_t"@) && contains(l, "st"@)) || ends_with(l, "_type"@)
}

pub fn is_state_type_name(name: &str) -> (r: bool)
    ensures
        r == state_type_name(name@),
{
    let l = lower_chars_of(name);
    holds(&l, "state") || (ends(&l, "_t") && holds(&l, "st")) || ends(&l, "_type")
}

/// Some signal of the scope is named like a next-state signal.
pub open spec fn next_state_signal_in(input: &Input, entity_name: Seq<char>) -> bool {
    exists|i: int|
        #![trigger input.signals@[i]]
        0 <= i < input.signals@.len() && ({
            let sig = &input.signals@[i];
            same_name(sig.in_entity@, entity_name) && next_state_name(sig.name@)
        })
}

pub fn has_next_state_signal(input: &Input, entity_name: &str) -> (r: bool)
    ensures
        r == next_state_signal_in(input, entity_name@),
{
    let mut i: usize = 0;
    while i < input.signals.len()
        invariant
            i <= input.signals@.len(),
            forall|j: int|
                #![trigger input.signals@[j]]
                0 <= j < i ==> !({
                    let sig = &input.signals@[j];
                    same_name(sig.in_entity@, entity_name@) && next_state_name(sig.name@)
                }),
        decreases input.signals@.len() - i,
    {
        let sig = &input.signals[i];
        if same(sig.in_entity.as_str(), entity_name) && is_next_state_name(sig.name.as_str()) {
            return true;
        }
        i += 1;
    }
    false
}

/// Some choice of the case statement is one of the literals.
pub open spec fn uses_literals(cs: &CaseStatement, literals: Seq<String>) -> bool {
    exists|i: int|
        #![trigger cs.choices@[i]]
        0 <= i < cs.choices@.len() && ({
            let choice = &cs.choices@[i];
            listed(literals, choice@)
        })
}

pub fn case_uses_this_type(cs: &CaseStatement, literals: &[String]) -> (r: bool)
    ensures
        r == uses_literals(cs, literals@),
{
    let mut i: usize = 0;
    while i < cs.choices.len()
        invariant
            i <= cs.choices@.len(),
            forall|j: int|
                #![trigger cs.choices@[j]]
                0 <= j < i ==> !({
                    let choice = &cs.choices@[j];
                    listed(literals@, choice@)
                }),
        decreases cs.choices@.len() - i,
    {
        let choice = &cs.choices[i];
        if signal_in_list(choice.as_str(), literals) {
            return true;
        }
        i += 1;
    }
    false
}

pub fn state_in_choices(state: &str, choices: &[String]) -> (r: bool)
    ensures
        r == listed(choices@, state@),
{
    signal_in_list(state, choices)
}

/// Some process assigns the signal and reads the literal.
pub open spec fn state_assigned(input: &Input, sig_name: Seq<char>, state_literal: Seq<char>) -> bool {
    exists|i: int|
        #![trigger input.processes@[i]]
        0 <= i < input.processes@.len() && ({
            let proc = &input.processes@[i];
            listed(proc.assigned_signals@, sig_name) && listed(proc.read_signals@, state_literal)
        })
}

pub fn state_ever_assigned(input: &Input, sig_name: &str, state_literal: &str) -> (r: bool)
    ensures
        r == state_assigned(input, sig_name@, state_literal@),
{
    let mut i: usize = 0;
    while i < input.processes.len()
        invariant
            i <= input.processes@.len(),
            forall|j: int|
                #![trigger input.processes@[j]]
                0 <= j < i ==> !({
                    let proc = &input.processes@[j];
                    listed(proc.assigned_signals@, sig_name@)
                        && listed(proc.read_signals@, state_literal@)
                }),
        decreases input.processes@.len() - i,
    {
        let proc = &input.processes[i];
        if signal_in_list(sig_name, proc.assigned_signals.as_slice())
            && signal_in_list(state_literal, proc.read_signals.as_slice()) {
            return true;
        }
        i += 1;
    }
    false
}

} // verus!
