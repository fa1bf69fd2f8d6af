//! Port usage: inputs nobody reads, outputs nobody drives, misused directions.
use vstd::prelude::*;
use crate::text::{contains, lower, lower_contains, same, same_name, str_eq, to_lower};
use crate::policy::helpers::{
    clock_name, is_clock_name, reset_name, is_reset_name, listed, signal_in_list,
    first_entity_named, entity_file_text, entity_file_of, entity_file_or_empty,
};
use crate::policy::input::{Input, Port, Instance};
use crate::policy::result::{Violation, ViolationView, views, group_views};

verus! {

/// The findings about how ports are used inside their design.
pub open spec fn violations_all(input: &Input) -> Seq<ViolationView> {
    undriven_output_port_all(input) + output_port_read_all(input) + inout_as_output_all(input)
        + inout_as_input_all(input)
}

pub fn violations(input: &Input) -> (out: Vec<Violation>)
    ensures
        views(out@) == violations_all(input),
{
    broadcast use group_views;

    let mut out: Vec<Violation> = Vec::new();
    let mut part = undriven_output_port(input);
    out.append(&mut part);
    let mut part = output_port_read(input);
    out.append(&mut part);
    let mut part = inout_as_output(input);
    out.append(&mut part);
    let mut part = inout_as_input(input);
    out.append(&mut part);
    out
}

/// The port findings that run only when configured.
pub open spec fn optional_violations_all(input: &Input) -> Seq<ViolationView> {
    unused_input_port_all(input)
}

pub fn optional_violations(input: &Input) -> (out: Vec<Violation>)
    ensures
        views(out@) == optional_violations_all(input),
{
    unused_input_port(input)
}

/// An input port, neither clock nor reset, that nothing reads.
pub open spec fn unused_input_port_hit(input: &Input, port: &Port) -> bool {
    port.direction@ == "in"@ && architecture_for(input, port.in_entity@) && !clock_name(port.name@)
        && !reset_name(port.name@) && !port_read(input, port.name@)
}

pub open spec fn unused_input_port_finding(input: &Input, port: &Port) -> ViolationView {
    ViolationView {
        rule: "unused_input_port"@,
        severity: "warning"@,
        file: entity_file_text(input, port.in_entity@),
        line: port.line as nat,
        message: "Input port '"@ + port.name@ + "' is never read"@,
    }
}

/// The findings for the first `n` rows, in row order.
pub open spec fn unused_input_port_upto(input: &Input, n: int) -> Seq<ViolationView>
    decreases n,
{
    if n <= 0 {
        Seq::empty()
    } else {
        let rest = unused_input_port_upto(input, n - 1);
        let port = &input.ports@[n - 1];
        if unused_input_port_hit(input, port) {
            rest.push(unused_input_port_finding(input, port))
        } else {
            rest
        }
    }
}

pub open spec fn unused_input_port_all(input: &Input) -> Seq<ViolationView> {
    unused_input_port_upto(input, input.ports@.len() as int)
}

pub fn unused_input_port(input: &Input) -> (out: Vec<Violation>)
    ensures
        views(out@) == unused_input_port_all(input),
{
    broadcast use group_views;

    let mut out: Vec<Violation> = Vec::new();
    let mut i: usize = 0;
    while i < input.ports.len()
        invariant
            i <= input.ports@.len(),
            views(out@) == unused_input_port_upto(input, i as int),
        decreases input.ports@.len() - i,
    {
        let port = &input.ports[i];
        if str_eq(port.direction.as_str(), "in")
            && entity_has_architecture(input, port.in_entity.as_str())
            && !is_clock_name(port.name.as_str()) && !is_reset_name(port.name.as_str())
            && !port_is_read(input, port.name.as_str()) {
            let mut message = String::from_str("Input port '");
            message.append(port.name.as_str());
            message.append("' is never read");
            out.push(
                Violation {
                    rule: String::from_str("unused_input_port"),
                    severity: String::from_str("warning"),
                    file: entity_file_or_empty(input, port.in_entity.as_str()),
                    line: port.line,
                    message,
                },
            );
        }
        i += 1;
    }
    out
}

/// An output port that nothing assigns.
pub open spec fn undriven_output_port_hit(input: &Input, port: &Port) -> bool {
    port.direction@ == "out"@ && architecture_for(input, port.in_entity@)
        && !port_assigned(input, port.name@)
}

pub open spec fn undriven_output_port_finding(input: &Input, port: &Port) -> ViolationView {
    ViolationView {
        rule: "undriven_output_port"@,
        severity: "error"@,
        file: entity_file_text(input, port.in_entity@),
        line: port.line as nat,
        message: "Output port '"@ + port.name@ + "' is never assigned (floating output)"@,
    }
}

/// The findings for the first `n` rows, in row order.
pub open spec fn undriven_output_port_upto(input: &Input, n: int) -> Seq<ViolationView>
    decreases n,
{
    if n <= 0 {
        Seq::empty()
    } else {
        let rest = undriven_output_port_upto(input, n - 1);
        let port = &input.ports@[n - 1];
        if undriven_output_port_hit(input, port) {
            rest.push(undriven_output_port_finding(input, port))
        } else {
            rest
        }
    }
}

pub open spec fn undriven_output_port_all(input: &Input) -> Seq<ViolationView> {
    undriven_output_port_upto(input, input.ports@.len() as int)
}

pub fn undriven_output_port(input: &Input) -> (out: Vec<Violation>)
    ensures
        views(out@) == undriven_output_port_all(input),
{
    broadcast use group_views;

    let mut out: Vec<Violation> = Vec::new();
    let mut i: usize = 0;
    while i < input.ports.len()
        invariant
            i <= input.ports@.len(),
            views(out@) == undriven_output_port_upto(input, i as int),
        decreases input.ports@.len() - i,
    {
        let port = &input.ports[i];
        if str_eq(port.direction.as_str(), "out")
            && entity_has_architecture(input, port.in_entity.as_str())
            && !port_is_assigned(input, port.name.as_str()) {
            let mut message = String::from_str("Output port '");
            message.append(port.name.as_str());
            message.append("' is never assigned (floating output)");
            out.push(
                Violation {
                    rule: String::from_str("undriven_output_port"),
                    severity: String::from_str("error"),
                    file: entity_file_or_empty(input, port.in_entity.as_str()),
                    line: port.line,
                    message,
                },
            );
        }
        i += 1;
    }
    out
}

/// Under a legacy language standard, an output port that is read inside the design.
pub open spec fn output_port_read_hit(input: &Input, port: &Port) -> bool {
    legacy_standard(input) && port.direction@ == "out"@ && architecture_for(input, port.in_entity@)
        && port_read(input, port.name@)
}

pub open spec fn output_port_read_finding(input: &Input, port: &Port) -> ViolationView {
    ViolationView {
        rule: "output_port_read"@,
        severity: "info"@,
        file: entity_file_text(input, port.in_entity@),
        line: port.line as nat,
        message: "Output port '"@ + port.name@
            + "' is read internally (use buffer or internal signal for VHDL-93 compatibility)"@,
    }
}

/// The findings for the first `n` rows, in row order.
pub open spec fn output_port_read_upto(input: &Input, n: int) -> Seq<ViolationView>
    decreases n,
{
    if n <= 0 {
        Seq::empty()
    } else {
        let rest = output_port_read_upto(input, n - 1);
        let port = &input.ports@[n - 1];
        if output_port_read_hit(input, port) {
            rest.push(output_port_read_finding(input, port))
        } else {
            rest
        }
    }
}

pub open spec fn output_port_read_all(input: &Input) -> Seq<ViolationView> {
    output_port_read_upto(input, input.ports@.len() as int)
}

pub fn output_port_read(input: &Input) -> (out: Vec<Violation>)
    ensures
        views(out@) == output_port_read_all(input),
{
    broadcast use group_views;

    let mut out: Vec<Violation> = Vec::new();
    let mut i: usize = 0;
    while i < input.ports.len()
        invariant
            i <= input.ports@.len(),
            views(out@) == output_port_read_upto(input, i as int),
        decreases input.ports@.len() - i,
    {
        let port = &input.ports[i];
        if is_legacy_standard(input) && str_eq(port.direction.as_str(), "out")
            && entity_has_architecture(input, port.in_entity.as_str())
            && port_is_read(input, port.name.as_str()) {
            let mut message = String::from_str("Output port '");
            message.append(port.name.as_str());
            message.append("' is read internally (use buffer or internal signal for VHDL-93 compatibility)");
            out.push(
                Violation {
                    rule: String::from_str("output_port_read"),
                    severity: String::from_str("info"),
                    file: entity_file_or_empty(input, port.in_entity.as_str()),
                    line: port.line,
                    message,
                },
            );
        }
        i += 1;
    }
    out
}

/// A bidirectional port that is written and never read.
pub open spec fn inout_as_output_hit(input: &Input, port: &Port) -> bool {
    same_name(port.direction@, "inout"@) && architecture_for(input, port.in_entity@)
        && port_assigned(input, port.name@) && !port_read(input, port.name@)
}

pub open spec fn inout_as_output_finding(input: &Input, port: &Port) -> ViolationView {
    ViolationView {
        rule: "inout_as_output"@,
        severity: "info"@,
        file: entity_file_text(input, port.in_entity@),
        line: port.line as nat,
        message: "Inout port '"@ + port.name@
            + "' is only written, never read - consider 'out' direction"@,
    }
}

/// The findings for the first `n` rows, in row order.
pub open spec fn inout_as_output_upto(input: &Input, n: int) -> Seq<ViolationView>
    decreases n,
{
    if n <= 0 {
        Seq::empty()
    } else {
        let rest = inout_as_output_upto(input, n - 1);
        let port = &input.ports@[n - 1];
        if inout_as_output_hit(input, port) {
            rest.push(inout_as_output_finding(input, port))
        } else {
            rest
        }
    }
}

pub open spec fn inout_as_output_all(input: &Input) -> Seq<ViolationView> {
    inout_as_output_upto(input, input.ports@.len() as int)
}

pub fn inout_as_output(input: &Input) -> (out: Vec<Violation>)
    ensures
        views(out@) == inout_as_output_all(input),
{
    broadcast use group_views;

    let mut out: Vec<Violation> = Vec::new();
    let mut i: usize = 0;
    while i < input.ports.len()
        invariant
            i <= input.ports@.len(),
            views(out@) == inout_as_output_upto(input, i as int),
        decreases input.ports@.len() - i,
    {
        let port = &input.ports[i];
        if same(port.direction.as_str(), "inout")
            && entity_has_architecture(input, port.in_entity.as_str())
            && port_is_assigned(input, port.name.as_str())
            && !port_is_read(input, port.name.as_str()) {
            let mut message = String::from_str("Inout port '");
            message.append(port.name.as_str());
            message.append("' is only written, never read - consider 'out' direction");
            out.push(
                Violation {
                    rule: String::from_str("inout_as_output"),
                    severity: String::from_str("info"),
                    file: entity_file_or_empty(input, port.in_entity.as_str()),
                    line: port.line,
                    message,
                },
            );
        }
        i += 1;
    }
    out
}

/// A bidirectional port that is read and never written.
pub open spec fn inout_as_input_hit(input: &Input, port: &Port) -> bool {
    same_name(port.direction@, "inout"@) && architecture_for(input, port.in_entity@)
        && port_read(input, port.name@) && !port_assigned(input, port.name@)
}

pub open spec fn inout_as_input_finding(input: &Input, port: &Port) -> ViolationView {
    ViolationView {
        rule: "inout_as_input"@,
        severity: "info"@,
        file: entity_file_text(input, port.in_entity@),
        line: port.line as nat,
        message: "Inout port '"@ + port.name@
            + "' is only read, never written - consider 'in' direction"@,
    }
}

/// The findings for the first `n` rows, in row order.
pub open spec fn inout_as_input_upto(input: &Input, n: int) -> Seq<ViolationView>
    decreases n,
{
    if n <= 0 {
        Seq::empty()
    } else {
        let rest = inout_as_input_upto(input, n - 1);
        let port = &input.ports@[n - 1];
        if inout_as_input_hit(input, port) {
            rest.push(inout_as_input_finding(input, port))
        } else {
            rest
        }
    }
}

pub open spec fn inout_as_input_all(input: &Input) -> Seq<ViolationView> {
    inout_as_input_upto(input, input.ports@.len() as int)
}

pub fn inout_as_input(input: &Input) -> (out: Vec<Violation>)
    ensures
        views(out@) == inout_as_input_all(input),
{
    broadcast use group_views;

    let mut out: Vec<Violation> = Vec::new();
    let mut i: usize = 0;
    while i < input.ports.len()
        invariant
            i <= input.ports@.len(),
            views(out@) == inout_as_input_upto(input, i as int),
        decreases input.ports@.len() - i,
    {
        let port = &input.ports[i];
        if same(port.direction.as_str(), "inout")
            && entity_has_architecture(input, port.in_entity.as_str())
            && port_is_read(input, port.name.as_str())
            && !port_is_assigned(input, port.name.as_str()) {
            let mut message = String::from_str("Inout port '");
            message.append(port.name.as_str());
            message.append("' is only read, never written - consider 'in' direction");
            out.push(
                Violation {
                    rule: String::from_str("inout_as_input"),
                    severity: String::from_str("info"),
                    file: entity_file_or_empty(input, port.in_entity.as_str()),
                    line: port.line,
                    message,
                },
            );
        }
        i += 1;
    }
    out
}

/// Some process reads the name or is sensitive to it.
pub open spec fn process_reads(input: &Input, port_lower: Seq<char>) -> bool {
    exists|i: int|
        #![trigger input.processes@[i]]
        0 <= i < input.processes@.len() && ({
            let proc = &input.processes@[i];
            listed(proc.read_signals@, port_lower) || listed(proc.sensitivity_list@, port_lower)
        })
}

pub fn process_reads_port(input: &Input, port_lower: &str) -> (r: bool)
    ensures
        r == process_reads(input, port_lower@),
{
    let mut i: usize = 0;
    while i < input.processes.len()
        invariant
            i <= input.processes@.len(),
            forall|j: int|
                #![trigger input.processes@[j]]
                0 <= j < i ==> !({
                    let proc = &input.processes@[j];
                    listed(proc.read_signals@, port_lower@)
                        || listed(proc.sensitivity_list@, port_lower@)
                }),
        decreases input.processes@.len() - i,
    {
        let proc = &input.processes[i];
        if signal_in_list(port_lower, proc.read_signals.as_slice())
            || signal_in_list(port_lower, proc.sensitivity_list.as_slice()) {
            return true;
        }
        i += 1;
    }
    false
}

/// Some actual of the port map mentions the name.
pub open spec fn actual_mentions(inst: &Instance, port_lower: Seq<char>) -> bool {
    exists|i: int|
        #![trigger inst.port_map.entries@[i]]
        0 <= i < inst.port_map.entries@.len() && ({
            let entry = &inst.port_map.entries@[i];
            contains(lower(entry.value@), port_lower)
        })
}

pub fn actual_mentions_port(inst: &Instance, port_lower: &str) -> (r: bool)
    ensures
        r == actual_mentions(inst, port_lower@),
{
    let mut i: usize = 0;
    while i < inst.port_map.entries.len()
        invariant
            i <= inst.port_map.entries@.len(),
            forall|j: int|
                #![trigger inst.port_map.entries@[j]]
                0 <= j < i ==> !({
                    let entry = &inst.port_map.entries@[j];
                    contains(lower(entry.value@), port_lower@)
                }),
        decreases inst.port_map.entries@.len() - i,
    {
        let entry = &inst.port_map.entries[i];
        if lower_contains(entry.value.as_str(), port_lower) {
            return true;
        }
        i += 1;
    }
    false
}

/// Some instance has an actual that mentions the name.
pub open spec fn instances_read(input: &Input, port_lower: Seq<char>) -> bool {
    exists|i: int|
        #![trigger input.instances@[i]]
        0 <= i < input.instances@.len() && ({
            let inst = &input.instances@[i];
            actual_mentions(inst, port_lower)
        })
}

pub fn instance_reads_port(input: &Input, port_lower: &str) -> (r: bool)
    ensures
        r == instances_read(input, port_lower@),
{
    let mut i: usize = 0;
    while i < input.instances.len()
        invariant
            i <= input.instances@.len(),
            forall|j: int|
                #![trigger input.instances@[j]]
                0 <= j < i ==> !({
                    let inst = &input.instances@[j];
                    actual_mentions(inst, port_lower@)
                }),
        decreases input.instances@.len() - i,
    {
        let inst = &input.instances[i];
        if actual_mentions_port(inst, port_lower) {
            return true;
        }
        i += 1;
    }
    false
}

/// Some concurrent assignment reads the name.
pub open spec fn concurrent_reads(input: &Input, port_lower: Seq<char>) -> bool {
    exists|i: int|
        #![trigger input.concurrent_assignments@[i]]
        0 <= i < input.concurrent_assignments@.len() && ({
            let ca = &input.concurrent_assignments@[i];
            listed(ca.read_signals@, port_lower)
        })
}

pub fn concurrent_reads_port(input: &Input, port_lower: &str) -> (r: bool)
    ensures
        r == concurrent_reads(input, port_lower@),
{
    let mut i: usize = 0;
    while i < input.concurrent_assignments.len()
        invariant
            i <= input.concurrent_assignments@.len(),
            forall|j: int|
                #![trigger input.concurrent_assignments@[j]]
                0 <= j < i ==> !({
                    let ca = &input.concurrent_assignments@[j];
                    listed(ca.read_signals@, port_lower@)
                }),
        decreases input.concurrent_assignments@.len() - i,
    {
        let ca = &input.concurrent_assignments[i];
        if signal_in_list(port_lower, ca.read_signals.as_slice()) {
            return true;
        }
        i += 1;
    }
    false
}

/// The port is read by a process, an instance or a concurrent assignment.
pub open spec fn port_read(input: &Input, port_name: Seq<char>) -> bool {
    let p = lower(port_name);
    process_reads(input, p) || instances_read(input, p) || concurrent_reads(input, p)
}

pub fn port_is_read(input: &Input, port_name: &str) -> (r: bool)
    ensures
        r == port_read(input, port_name@),
{
    let port_lower = to_lower(port_name);
    process_reads_port(input, port_lower.as_str()) || instance_reads_port(
        input,
        port_lower.as_str(),
    ) || concurrent_reads_port(input, port_lower.as_str())
}

/// Some process assigns the name.
pub open spec fn process_assigns(input: &Input, port_lower: Seq<char>) -> bool {
    exists|i: int|
        #![trigger input.processes@[i]]
        0 <= i < input.processes@.len() && ({
            let proc = &input.processes@[i];
            listed(proc.assigned_signals@, port_lower)
        })
}

pub fn process_assigns_port(input: &Input, port_lower: &str) -> (r: bool)
    ensures
        r == process_assigns(input, port_lower@),
{
    let mut i: usize = 0;
    while i < input.processes.len()
        invariant
            i <= input.processes@.len(),
            forall|j: int|
                #![trigger input.processes@[j]]
                0 <= j < i ==> !({
                    let proc = &input.processes@[j];
                    listed(proc.assigned_signals@, port_lower@)
                }),
        decreases input.processes@.len() - i,
    {
        let proc = &input.processes[i];
        if signal_in_list(port_lower, proc.assigned_signals.as_slice()) {
            return true;
        }
        i += 1;
    }
    false
}

/// Some actual of the port map is the name.
pub open spec fn actual_is(inst: &Instance, port_lower: Seq<char>) -> bool {
    exists|i: int|
        #![trigger inst.port_map.entries@[i]]
        0 <= i < inst.port_map.entries@.len() && ({
            let entry = &inst.port_map.entries@[i];
            same_name(entry.value@, port_lower)
        })
}

pub fn actual_is_port(inst: &Instance, port_lower: &str) -> (r: bool)
    ensures
        r == actual_is(inst, port_lower@),
{
    let mut i: usize = 0;
    while i < inst.port_map.entries.len()
        invariant
            i <= inst.port_map.entries@.len(),
            forall|j: int|
                #![trigger inst.port_map.entries@[j]]
                0 <= j < i ==> !({
                    let entry = &inst.port_map.entries@[j];
                    same_name(entry.value@, port_lower@)
                }),
        decreases inst.port_map.entries@.len() - i,
    {
        let entry = &inst.port_map.entries[i];
        if same(entry.value.as_str(), port_lower) {
            return true;
        }
        i += 1;
    }
    false
}

/// Some instance is connected to the name.
pub open spec fn instance_drives(input: &Input, port_lower: Seq<char>) -> bool {
    exists|i: int|
        #![trigger input.instances@[i]]
        0 <= i < input.instances@.len() && ({
            let inst = &input.instances@[i];
            actual_is(inst, port_lower)
        })
}

pub fn instance_drives_port(input: &Input, port_lower: &str) -> (r: bool)
    ensures
        r == instance_drives(input, port_lower@),
{
    let mut i: usize = 0;
    while i < input.instances.len()
        invariant
            i <= input.instances@.len(),
            forall|j: int|
                #![trigger input.instances@[j]]
                0 <= j < i ==> !({
                    let inst = &input.instances@[j];
                    actual_is(inst, port_lower@)
                }),
        decreases input.instances@.len() - i,
    {
        let inst = &input.instances[i];
        if actual_is_port(inst, port_lower) {
            return true;
        }
        i += 1;
    }
    false
}

/// Some concurrent assignment targets the name.
pub open spec fn concurrent_assigns(input: &Input, port_lower: Seq<char>) -> bool {
    exists|i: int|
        #![trigger input.concurrent_assignments@[i]]
        0 <= i < input.concurrent_assignments@.len() && ({
            let ca = &input.concurrent_assignments@[i];
            same_name(ca.target@, port_lower)
        })
}

pub fn concurrent_assigns_port(input: &Input, port_lower: &str) -> (r: bool)
    ensures
        r == concurrent_assigns(input, port_lower@),
{
    let mut i: usize = 0;
    while i < input.concurrent_assignments.len()
        invariant
            i <= input.concurrent_assignments@.len(),
            forall|j: int|
                #![trigger input.concurrent_assignments@[j]]
                0 <= j < i ==> !({
                    let ca = &input.concurrent_assignments@[j];
                    same_name(ca.target@, port_lower@)
                }),
        decreases input.concurrent_assignments@.len() - i,
    {
        let ca = &input.concurrent_assignments[i];
        if same(ca.target.as_str(), port_lower) {
            return true;
        }
        i += 1;
    }
    false
}

/// The port is assigned by a process, connected to an instance, or the
/// target of a concurrent assignment.
pub open spec fn port_assigned(input: &Input, port_name: Seq<char>) -> bool {
    let p = lower(port_name);
    process_assigns(input, p) || instance_drives(input, p) || concurrent_assigns(input, p)
}

pub fn port_is_assigned(input: &Input, port_name: &str) -> (r: bool)
    ensures
        r == port_assigned(input, port_name@),
{
    let port_lower = to_lower(port_name);
    process_assigns_port(input, port_lower.as_str()) || instance_drives_port(
        input,
        port_lower.as_str(),
    ) || concurrent_assigns_port(input, port_lower.as_str())
}

/// Some architecture implements the entity.
pub open spec fn architecture_for(input: &Input, entity_name: Seq<char>) -> bool {
    exists|i: int|
        #![trigger input.architectures@[i]]
        0 <= i < input.architectures@.len() && ({
            let arch = &input.architectures@[i];
            same_name(arch.entity_name@, entity_name)
        })
}

pub fn entity_has_architecture(input: &Input, entity_name: &str) -> (r: bool)
    ensures
        r == architecture_for(input, entity_name@),
{
    let mut i: usize = 0;
    while i < input.architectures.len()
        invariant
            i <= input.architectures@.len(),
            forall|j: int|
                #![trigger input.architectures@[j]]
                0 <= j < i ==> !({
                    let arch = &input.architectures@[j];
                    same_name(arch.entity_name@, entity_name@)
                }),
        decreases input.architectures@.len() - i,
    {
        let arch = &input.architectures[i];
        if same(arch.entity_name.as_str(), entity_name) {
            return true;
        }
        i += 1;
    }
    false
}

/// The file of the first entity with this name.
pub fn entity_file(input: &Input, entity_name: &str) -> (r: Option<String>)
    ensures
        match r {
            Some(f) => first_entity_named(input, entity_name@, 0) < input.entities@.len() && f@
                == entity_file_text(input, entity_name@),
            None => first_entity_named(input, entity_name@, 0) == input.entities@.len(),
        },
{
    entity_file_of(input, entity_name)
}

/// The language standards in which an output port cannot be read.
pub open spec fn legacy_standard(input: &Input) -> bool {
    input.standard@ == "1993"@ || input.standard@ == "2002"@
}

pub fn is_legacy_standard(input: &Input) -> (r: bool)
    ensures
        r == legacy_standard(input),
{
    str_eq(input.standard.as_str(), "1993") || str_eq(input.standard.as_str(), "2002")
}

} // verus!
