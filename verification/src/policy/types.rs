//! Type usage.
use vstd::prelude::*;
use crate::text::{same, same_name};
use crate::policy::helpers::{signed_type, is_signed_type, unsigned_type, is_unsigned_type};
use crate::policy::input::{Input, Signal};
use crate::policy::result::{Violation, ViolationView, views, group_views};

verus! {

/// No rule of this family runs unconditionally.
pub open spec fn violations_all(input: &Input) -> Seq<ViolationView> {
    Seq::<ViolationView>::empty()
}

pub fn violations(input: &Input) -> (out: Vec<Violation>)
    ensures
        views(out@) == violations_all(input),
{
    broadcast use group_views;

    Vec::new()
}

/// The findings about type usage that run only when configured.
pub open spec fn optional_violations_all(input: &Input) -> Seq<ViolationView> {
    mixed_signedness_all(input)
}

pub fn optional_violations(input: &Input) -> (out: Vec<Violation>)
    ensures
        views(out@) == optional_violations_all(input),
{
    mixed_signedness(input)
}

/// Every pair of a signed signal and a later unsigned signal of the same scope.
pub open spec fn mixed_signedness_upto(input: &Input, n: int) -> Seq<ViolationView>
    decreases n,
{
    if n <= 0 {
        Seq::empty()
    } else {
        let rest = mixed_signedness_upto(input, n - 1);
        rest + mixed_signedness_with_all(input, n - 1)
    }
}

pub open spec fn mixed_signedness_all(input: &Input) -> Seq<ViolationView> {
    mixed_signedness_upto(input, input.signals@.len() as int)
}

pub fn mixed_signedness(input: &Input) -> (out: Vec<Violation>)
    ensures
        views(out@) == mixed_signedness_all(input),
{
    broadcast use group_views;

    let mut out: Vec<Violation> = Vec::new();
    let mut i: usize = 0;
    while i < input.signals.len()
        invariant
            i <= input.signals@.len(),
            views(out@) == mixed_signedness_upto(input, i as int),
        decreases input.signals@.len() - i,
    {
        let mut part = mixed_signedness_with(input, i);
        out.append(&mut part);
        i += 1;
    }
    out
}

/// The later signal `s2` is unsigned and shares the scope of the signed signal at `first`.
pub open spec fn mixed_signedness_with_hit(input: &Input, first: int, s2: &Signal) -> bool {
    let s1 = &input.signals@[first];
    same_name(s1.in_entity@, s2.in_entity@) && signed_type(s1.ty@) && unsigned_type(s2.ty@)
}

pub open spec fn mixed_signedness_with_finding(input: &Input, first: int, s2: &Signal) -> ViolationView {
    let s1 = &input.signals@[first];
    ViolationView {
        rule: "mixed_signedness"@,
        severity: "info"@,
        file: s1.file@,
        line: s1.line as nat,
        message: "Architecture uses both signed ('"@ + s1.name@ + "') and unsigned ('"@ + s2.name@
            + "') types - ensure proper conversions"@,
    }
}

/// The findings that pair signal `first` with the signals after it and before `n`.
pub open spec fn mixed_signedness_with_upto(input: &Input, first: int, n: int) -> Seq<ViolationView>
    decreases n,
{
    if n <= first + 1 || n <= 0 {
        Seq::empty()
    } else {
        let rest = mixed_signedness_with_upto(input, first, n - 1);
        let s2 = &input.signals@[n - 1];
        if mixed_signedness_with_hit(input, first, s2) {
            rest.push(mixed_signedness_with_finding(input, first, s2))
        } else {
            rest
        }
    }
}

pub open spec fn mixed_signedness_with_all(input: &Input, first: int) -> Seq<ViolationView> {
    mixed_signedness_with_upto(input, first, input.signals@.len() as int)
}

pub fn mixed_signedness_with(input: &Input, first: usize) -> (out: Vec<Violation>)
    requires
        first < input.signals@.len(),
    ensures
        views(out@) == mixed_signedness_with_all(input, first as int),
{
    broadcast use group_views;

    let mut out: Vec<Violation> = Vec::new();
    let s1 = &input.signals[first];
    let total: usize = input.signals.len();
    let mut j: usize = first + 1;
    while j < total
        invariant
            first < j <= input.signals@.len(),
            total == input.signals@.len(),
            *s1 == input.signals@[first as int],
            views(out@) == mixed_signedness_with_upto(input, first as int, j as int),
        decreases input.signals@.len() - j,
    {
        let s2 = &input.signals[j];
        if same(s1.in_entity.as_str(), s2.in_entity.as_str()) && is_signed_type(s1.ty.as_str())
            && is_unsigned_type(s2.ty.as_str()) {
            let mut message = String::from_str("Architecture uses both signed ('");
            message.append(s1.name.as_str());
            message.append("') and unsigned ('");
            message.append(s2.name.as_str());
            message.append("') types - ensure proper conversions");
            out.push(
                Violation {
                    rule: String::from_str("mixed_signedness"),
                    severity: String::from_str("info"),
                    file: s1.file.clone(),
                    line: s1.line,
                    message,
                },
            );
        }
        j += 1;
    }
    out
}

} // verus!
