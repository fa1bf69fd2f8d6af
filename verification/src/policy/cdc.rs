//! Clock-domain crossings: each recorded crossing is judged by itself.
use vstd::prelude::*;
use crate::text::{decimal, decimal_text};
use crate::policy::input::{Input, CDCCrossing};
use crate::policy::result::{Violation, ViolationView, views, group_views};

verus! {

/// Every finding about clock-domain crossings, rule after rule.
pub open spec fn violations_all(input: &Input) -> Seq<ViolationView> {
    cdc_unsync_single_bit_all(input) + cdc_unsync_multi_bit_all(input)
        + cdc_insufficient_sync_all(input)
}

pub fn violations(input: &Input) -> (out: Vec<Violation>)
    ensures
        views(out@) == violations_all(input),
{
    broadcast use group_views;

    let mut out: Vec<Violation> = Vec::new();
    let mut part = cdc_unsync_single_bit(input);
    out.append(&mut part);
    let mut part = cdc_unsync_multi_bit(input);
    out.append(&mut part);
    let mut part = cdc_insufficient_sync(input);
    out.append(&mut part);
    out
}

/// A single-bit crossing without a synchronizer.
pub open spec fn cdc_unsync_single_bit_hit(input: &Input, cdc: &CDCCrossing) -> bool {
    !cdc.is_synchronized && !cdc.is_multi_bit
}

pub open spec fn cdc_unsync_single_bit_finding(input: &Input, cdc: &CDCCrossing) -> ViolationView {
    ViolationView {
        rule: "cdc_unsync_single_bit"@,
        severity: "warning"@,
        file: cdc.file@,
        line: cdc.line as nat,
        message: "Signal '"@ + cdc.signal@ + "' crosses from "@ + cdc.source_clock@ + " to "@
            + cdc.dest_clock@ + " clock domain without synchronizer"@,
    }
}

/// The findings for the first `n` rows, in row order.
pub open spec fn cdc_unsync_single_bit_upto(input: &Input, n: int) -> Seq<ViolationView>
    decreases n,
{
    if n <= 0 {
        Seq::empty()
    } else {
        let rest = cdc_unsync_single_bit_upto(input, n - 1);
        let cdc = &input.cdc_crossings@[n - 1];
        if cdc_unsync_single_bit_hit(input, cdc) {
            rest.push(cdc_unsync_single_bit_finding(input, cdc))
        } else {
            rest
        }
    }
}

pub open spec fn cdc_unsync_single_bit_all(input: &Input) -> Seq<ViolationView> {
    cdc_unsync_single_bit_upto(input, input.cdc_crossings@.len() as int)
}

pub fn cdc_unsync_single_bit(input: &Input) -> (out: Vec<Violation>)
    ensures
        views(out@) == cdc_unsync_single_bit_all(input),
{
    broadcast use group_views;

    let mut out: Vec<Violation> = Vec::new();
    let mut i: usize = 0;
    while i < input.cdc_crossings.len()
        invariant
            i <= input.cdc_crossings@.len(),
            views(out@) == cdc_unsync_single_bit_upto(input, i as int),
        decreases input.cdc_crossings@.len() - i,
    {
        let cdc = &input.cdc_crossings[i];
        if !cdc.is_synchronized && !cdc.is_multi_bit {
            let mut message = String::from_str("Signal '");
            message.append(cdc.signal.as_str());
            message.append("' crosses from ");
            message.append(cdc.source_clock.as_str());
            message.append(" to ");
            message.append(cdc.dest_clock.as_str());
            message.append(" clock domain without synchronizer");
            out.push(
                Violation {
                    rule: String::from_str("cdc_unsync_single_bit"),
                    severity: String::from_str("warning"),
                    file: cdc.file.clone(),
                    line: cdc.line,
                    message,
                },
            );
        }
        i += 1;
    }
    out
}

/// A multi-bit crossing without a synchronizer.
pub open spec fn cdc_unsync_multi_bit_hit(input: &Input, cdc: &CDCCrossing) -> bool {
    !cdc.is_synchronized && cdc.is_multi_bit
}

pub open spec fn cdc_unsync_multi_bit_finding(input: &Input, cdc: &CDCCrossing) -> ViolationView {
    ViolationView {
        rule: "cdc_unsync_multi_bit"@,
        severity: "error"@,
        file: cdc.file@,
        line: cdc.line as nat,
        message: "Multi-bit signal '"@ + cdc.signal@ + "' crosses from "@ + cdc.source_clock@
            + " to "@ + cdc.dest_clock@ + " clock domain - requires handshaking or Gray code"@,
    }
}

/// The findings for the first `n` rows, in row order.
pub open spec fn cdc_unsync_multi_bit_upto(input: &Input, n: int) -> Seq<ViolationView>
    decreases n,
{
    if n <= 0 {
        Seq::empty()
    } else {
        let rest = cdc_unsync_multi_bit_upto(input, n - 1);
        let cdc = &input.cdc_crossings@[n - 1];
        if cdc_unsync_multi_bit_hit(input, cdc) {
            rest.push(cdc_unsync_multi_bit_finding(input, cdc))
        } else {
            rest
        }
    }
}

pub open spec fn cdc_unsync_multi_bit_all(input: &Input) -> Seq<ViolationView> {
    cdc_unsync_multi_bit_upto(input, input.cdc_crossings@.len() as int)
}

pub fn cdc_unsync_multi_bit(input: &Input) -> (out: Vec<Violation>)
    ensures
        views(out@) == cdc_unsync_multi_bit_all(input),
{
    broadcast use group_views;

    let mut out: Vec<Violation> = Vec::new();
    let mut i: usize = 0;
    while i < input.cdc_crossings.len()
        invariant
            i <= input.cdc_crossings@.len(),
            views(out@) == cdc_unsync_multi_bit_upto(input, i as int),
        decreases input.cdc_crossings@.len() - i,
    {
        let cdc = &input.cdc_crossings[i];
        if !cdc.is_synchronized && cdc.is_multi_bit {
            let mut message = String::from_str("Multi-bit signal '");
            message.append(cdc.signal.as_str());
            message.append("' crosses from ");
            message.append(cdc.source_clock.as_str());
            message.append(" to ");
            message.append(cdc.dest_clock.as_str());
            message.append(" clock domain - requires handshaking or Gray code");
            out.push(
                Violation {
                    rule: String::from_str("cdc_unsync_multi_bit"),
                    severity: String::from_str("error"),
                    file: cdc.file.clone(),
                    line: cdc.line,
                    message,
                },
            );
        }
        i += 1;
    }
    out
}

/// A synchronized crossing with fewer than two stages.
pub open spec fn cdc_insufficient_sync_hit(input: &Input, cdc: &CDCCrossing) -> bool {
    cdc.is_synchronized && cdc.sync_stages < 2
}

pub open spec fn cdc_insufficient_sync_finding(input: &Input, cdc: &CDCCrossing) -> ViolationView {
    ViolationView {
        rule: "cdc_insufficient_sync"@,
        severity: "warning"@,
        file: cdc.file@,
        line: cdc.line as nat,
        message: "Signal '"@ + cdc.signal@ + "' has only "@ + decimal(cdc.sync_stages as nat)
            + " synchronizer stage(s), recommend 2+"@,
    }
}

/// The findings for the first `n` rows, in row order.
pub open spec fn cdc_insufficient_sync_upto(input: &Input, n: int) -> Seq<ViolationView>
    decreases n,
{
    if n <= 0 {
        Seq::empty()
    } else {
        let rest = cdc_insufficient_sync_upto(input, n - 1);
        let cdc = &input.cdc_crossings@[n - 1];
        if cdc_insufficient_sync_hit(input, cdc) {
            rest.push(cdc_insufficient_sync_finding(input, cdc))
        } else {
            rest
        }
    }
}

pub open spec fn cdc_insufficient_sync_all(input: &Input) -> Seq<ViolationView> {
    cdc_insufficient_sync_upto(input, input.cdc_crossings@.len() as int)
}

pub fn cdc_insufficient_sync(input: &Input) -> (out: Vec<Violation>)
    ensures
        views(out@) == cdc_insufficient_sync_all(input),
{
    broadcast use group_views;

    let mut out: Vec<Violation> = Vec::new();
    let mut i: usize = 0;
    while i < input.cdc_crossings.len()
        invariant
            i <= input.cdc_crossings@.len(),
            views(out@) == cdc_insufficient_sync_upto(input, i as int),
        decreases input.cdc_crossings@.len() - i,
    {
        let cdc = &input.cdc_crossings[i];
        if cdc.is_synchronized && cdc.sync_stages < 2 {
            let mut message = String::from_str("Signal '");
            message.append(cdc.signal.as_str());
            message.append("' has only ");
            message.append(decimal_text(cdc.sync_stages).as_str());
            message.append(" synchronizer stage(s), recommend 2+");
            out.push(
                Violation {
                    rule: String::from_str("cdc_insufficient_sync"),
                    severity: String::from_str("warning"),
                    file: cdc.file.clone(),
                    line: cdc.line,
                    message,
                },
            );
        }
        i += 1;
    }
    out
}

} // verus!
