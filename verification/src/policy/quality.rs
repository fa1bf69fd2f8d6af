//! Code quality: size, naming, duplicates and hard-coded numbers.
use vstd::prelude::*;
use crate::text::{
    after_last, chars_after_last, chars_are, chars_of, chars_strip_all_suffix, count_char, decimal,
    decimal_text, decimal_text_wide, integer_in_range, lower, lower_chars_of, lower_starts_with,
    occurrences, parse_integer, same, same_name, starts_with, str_eq, string_of, strip_all_suffix,
    texts, to_lower,
};
use crate::policy::helpers::{
    first_entity_named, entity_file_text, entity_file_of, entity_file_or_empty,
};
use crate::policy::input::{
    Input, Entity, Architecture, Package, Port, Signal, Instance, GenerateStatement,
};
use crate::policy::result::{Violation, ViolationView, views, group_views};
use crate::policy::map::MapEntry;
use crate::policy::pattern::{regex_match, regex_group, regex_capture, found};
use crate::policy::style::{entity_file_names, sorted_entity_files};

verus! {

/// The quality findings that always run.
pub open spec fn violations_all(input: &Input) -> Seq<ViolationView> {
    buffer_port_all(input) + trivial_architecture_all(input) + unlabeled_generate_all(input)
}

pub fn violations(input: &Input) -> (out: Vec<Violation>)
    ensures
        views(out@) == violations_all(input),
{
    broadcast use group_views;

    let mut out: Vec<Violation> = Vec::new();
    let mut part = buffer_port(input);
    out.append(&mut part);
    let mut part = trivial_architecture(input);
    out.append(&mut part);
    let mut part = unlabeled_generate(input);
    out.append(&mut part);
    out
}

/// The quality findings that run only when configured.
pub open spec fn optional_violations_all(input: &Input) -> Seq<ViolationView> {
    duplicate_signal_in_entity_all(input) + very_long_file_all(input) + large_package_all(input)
        + short_signal_name_all(input) + long_signal_name_all(input) + short_port_name_all(input)
        + entity_name_with_numbers_all(input) + mixed_port_directions_all(input)
        + bidirectional_port_all(input) + many_signals_all(input) + deep_generate_nesting_all(input)
        + magic_width_number_all(input) + hardcoded_generic_all(input)
        + file_entity_mismatch_all(input) + duplicate_port_in_entity_all(input)
        + duplicate_entity_in_file_all(input)
}

pub fn optional_violations(input: &Input) -> (out: Vec<Violation>)
    ensures
        views(out@) == optional_violations_all(input),
{
    broadcast use group_views;

    let mut out: Vec<Violation> = Vec::new();
    let mut part = duplicate_signal_in_entity(input);
    out.append(&mut part);
    let mut part = very_long_file(input);
    out.append(&mut part);
    let mut part = large_package(input);
    out.append(&mut part);
    let mut part = short_signal_name(input);
    out.append(&mut part);
    let mut part = long_signal_name(input);
    out.append(&mut part);
    let mut part = short_port_name(input);
    out.append(&mut part);
    let mut part = entity_name_with_numbers(input);
    out.append(&mut part);
    let mut part = mixed_port_directions(input);
    out.append(&mut part);
    let mut part = bidirectional_port(input);
    out.append(&mut part);
    let mut part = many_signals(input);
    out.append(&mut part);
    let mut part = deep_generate_nesting(input);
    out.append(&mut part);
    let mut part = magic_width_number(input);
    out.append(&mut part);
    let mut part = hardcoded_generic(input);
    out.append(&mut part);
    let mut part = file_entity_mismatch(input);
    out.append(&mut part);
    let mut part = duplicate_port_in_entity(input);
    out.append(&mut part);
    let mut part = duplicate_entity_in_file(input);
    out.append(&mut part);
    out
}

/// The number of entities in the file.
pub open spec fn entities_in_file_upto(input: &Input, file: Seq<char>, n: int) -> nat
    decreases n,
{
    if n <= 0 {
        0
    } else if ({
        let e = &input.entities@[n - 1];
        e.file@ == file
    }) {
        entities_in_file_upto(input, file, n - 1) + 1
    } else {
        entities_in_file_upto(input, file, n - 1)
    }
}

pub fn entities_in_file(input: &Input, file: &str) -> (r: usize)
    ensures
        r == entities_in_file_upto(input, file@, input.entities@.len() as int),
{
    let mut count: usize = 0;
    let mut i: usize = 0;
    while i < input.entities.len()
        invariant
            i <= input.entities@.len(),
            count <= i,
            count == entities_in_file_upto(input, file@, i as int),
        decreases input.entities@.len() - i,
    {
        let e = &input.entities[i];
        if str_eq(e.file.as_str(), file) {
            count += 1;
        }
        i += 1;
    }
    count
}

/// The number of architectures in the file.
pub open spec fn architectures_in_file_upto(input: &Input, file: Seq<char>, n: int) -> nat
    decreases n,
{
    if n <= 0 {
        0
    } else if ({
        let a = &input.architectures@[n - 1];
        a.file@ == file
    }) {
        architectures_in_file_upto(input, file, n - 1) + 1
    } else {
        architectures_in_file_upto(input, file, n - 1)
    }
}

pub fn architectures_in_file(input: &Input, file: &str) -> (r: usize)
    ensures
        r == architectures_in_file_upto(input, file@, input.architectures@.len() as int),
{
    let mut count: usize = 0;
    let mut i: usize = 0;
    while i < input.architectures.len()
        invariant
            i <= input.architectures@.len(),
            count <= i,
            count == architectures_in_file_upto(input, file@, i as int),
        decreases input.architectures@.len() - i,
    {
        let a = &input.architectures[i];
        if str_eq(a.file.as_str(), file) {
            count += 1;
        }
        i += 1;
    }
    count
}

/// The number of entities and architectures in the file.
pub open spec fn design_units_in(input: &Input, file: Seq<char>) -> nat {
    entities_in_file_upto(input, file, input.entities@.len() as int) + architectures_in_file_upto(
        input,
        file,
        input.architectures@.len() as int,
    )
}

pub open spec fn long_file_finding(input: &Input, file: Seq<char>) -> ViolationView {
    ViolationView {
        rule: "very_long_file"@,
        severity: "info"@,
        file: file,
        line: 1,
        message: "File contains "@ + decimal(design_units_in(input, file))
            + " design units - consider splitting into separate files"@,
    }
}

/// The findings for the first `n` of the given files.
pub open spec fn long_files_upto(input: &Input, files: Seq<Seq<char>>, n: int) -> Seq<ViolationView>
    decreases n,
{
    if n <= 0 {
        Seq::empty()
    } else {
        let rest = long_files_upto(input, files, n - 1);
        if design_units_in(input, files[n - 1]) > 5 {
            rest.push(long_file_finding(input, files[n - 1]))
        } else {
            rest
        }
    }
}

/// One finding for each file with more than five design units, in the order
/// of the file names.
pub open spec fn very_long_file_all(input: &Input) -> Seq<ViolationView> {
    long_files_upto(input, entity_file_names(input), entity_file_names(input).len() as int)
}

pub fn very_long_file(input: &Input) -> (out: Vec<Violation>)
    ensures
        views(out@) == very_long_file_all(input),
{
    broadcast use group_views;

    let files = sorted_entity_files(input);
    proof {
        assert(texts(files@).len() == files@.len());
    }
    let mut out: Vec<Violation> = Vec::new();
    let mut i: usize = 0;
    while i < files.len()
        invariant
            i <= files@.len(),
            texts(files@).len() == files@.len(),
            views(out@) == long_files_upto(input, texts(files@), i as int),
        decreases files@.len() - i,
    {
        let file = &files[i];
        proof {
            assert(texts(files@)[i as int] == file@);
        }
        let entities = entities_in_file(input, file.as_str());
        let archs = architectures_in_file(input, file.as_str());
        if archs > 5 || entities > 5 - archs {
            let mut message = String::from_str("File contains ");
            message.append(unit_count_text(entities, archs).as_str());
            message.append(" design units - consider splitting into separate files");
            out.push(
                Violation {
                    rule: String::from_str("very_long_file"),
                    severity: String::from_str("info"),
                    file: file.clone(),
                    line: 1,
                    message,
                },
            );
        }
        i += 1;
    }
    out
}

/// The decimal numeral of a sum of two counts.
pub fn unit_count_text(a: usize, b: usize) -> (r: String)
    ensures
        r@ == decimal((a + b) as nat),
{
    let total: u128 = a as u128 + b as u128;
    decimal_text_wide(total)
}

/// The number of signals declared in the scope of this name.
pub open spec fn signals_in_scope_upto(input: &Input, name: Seq<char>, n: int) -> nat
    decreases n,
{
    if n <= 0 {
        0
    } else if ({
        let s = &input.signals@[n - 1];
        same_name(s.in_entity@, name)
    }) {
        signals_in_scope_upto(input, name, n - 1) + 1
    } else {
        signals_in_scope_upto(input, name, n - 1)
    }
}

pub fn signals_in_scope(input: &Input, name: &str) -> (r: usize)
    ensures
        r == signals_in_scope_upto(input, name@, input.signals@.len() as int),
{
    let mut count: usize = 0;
    let mut i: usize = 0;
    while i < input.signals.len()
        invariant
            i <= input.signals@.len(),
            count <= i,
            count == signals_in_scope_upto(input, name@, i as int),
        decreases input.signals@.len() - i,
    {
        let s = &input.signals[i];
        if same(s.in_entity.as_str(), name) {
            count += 1;
        }
        i += 1;
    }
    count
}

pub open spec fn signal_count_in(input: &Input, name: Seq<char>) -> nat {
    signals_in_scope_upto(input, name, input.signals@.len() as int)
}

/// A package with more than fifty items.
pub open spec fn large_package_hit(input: &Input, pkg: &Package) -> bool {
    signal_count_in(input, pkg.name@) > 50
}

pub open spec fn large_package_finding(input: &Input, pkg: &Package) -> ViolationView {
    ViolationView {
        rule: "large_package"@,
        severity: "info"@,
        file: pkg.file@,
        line: pkg.line as nat,
        message: "Package '"@ + pkg.name@ + "' is very large ("@
            + decimal(signal_count_in(input, pkg.name@)) + " items) - consider splitting"@,
    }
}

/// The findings for the first `n` rows, in row order.
pub open spec fn large_package_upto(input: &Input, n: int) -> Seq<ViolationView>
    decreases n,
{
    if n <= 0 {
        Seq::empty()
    } else {
        let rest = large_package_upto(input, n - 1);
        let pkg = &input.packages@[n - 1];
        if large_package_hit(input, pkg) {
            rest.push(large_package_finding(input, pkg))
        } else {
            rest
        }
    }
}

pub open spec fn large_package_all(input: &Input) -> Seq<ViolationView> {
    large_package_upto(input, input.packages@.len() as int)
}

pub fn large_package(input: &Input) -> (out: Vec<Violation>)
    ensures
        views(out@) == large_package_all(input),
{
    broadcast use group_views;

    let mut out: Vec<Violation> = Vec::new();
    let mut i: usize = 0;
    while i < input.packages.len()
        invariant
            i <= input.packages@.len(),
            views(out@) == large_package_upto(input, i as int),
        decreases input.packages@.len() - i,
    {
        let pkg = &input.packages[i];
        let count = signals_in_scope(input, pkg.name.as_str());
        if count > 50 {
            let mut message = String::from_str("Package '");
            message.append(pkg.name.as_str());
            message.append("' is very large (");
            message.append(decimal_text(count).as_str());
            message.append(" items) - consider splitting");
            out.push(
                Violation {
                    rule: String::from_str("large_package"),
                    severity: String::from_str("info"),
                    file: pkg.file.clone(),
                    line: pkg.line,
                    message,
                },
            );
        }
        i += 1;
    }
    out
}

/// A signal with a one-character name that is no loop variable.
pub open spec fn short_signal_name_hit(input: &Input, sig: &Signal) -> bool {
    sig.name@.len() == 1 && !loop_variable(sig.name@)
}

pub open spec fn short_signal_name_finding(input: &Input, sig: &Signal) -> ViolationView {
    ViolationView {
        rule: "short_signal_name"@,
        severity: "info"@,
        file: sig.file@,
        line: sig.line as nat,
        message: "Signal '"@ + sig.name@
            + "' has very short name - consider a more descriptive name"@,
    }
}

/// The findings for the first `n` rows, in row order.
pub open spec fn short_signal_name_upto(input: &Input, n: int) -> Seq<ViolationView>
    decreases n,
{
    if n <= 0 {
        Seq::empty()
    } else {
        let rest = short_signal_name_upto(input, n - 1);
        let sig = &input.signals@[n - 1];
        if short_signal_name_hit(input, sig) {
            rest.push(short_signal_name_finding(input, sig))
        } else {
            rest
        }
    }
}

pub open spec fn short_signal_name_all(input: &Input) -> Seq<ViolationView> {
    short_signal_name_upto(input, input.signals@.len() as int)
}

pub fn short_signal_name(input: &Input) -> (out: Vec<Violation>)
    ensures
        views(out@) == short_signal_name_all(input),
{
    broadcast use group_views;

    let mut out: Vec<Violation> = Vec::new();
    let mut i: usize = 0;
    while i < input.signals.len()
        invariant
            i <= input.signals@.len(),
            views(out@) == short_signal_name_upto(input, i as int),
        decreases input.signals@.len() - i,
    {
        let sig = &input.signals[i];
        if sig.name.as_str().unicode_len() == 1 && !is_loop_variable(sig.name.as_str()) {
            let mut message = String::from_str("Signal '");
            message.append(sig.name.as_str());
            message.append("' has very short name - consider a more descriptive name");
            out.push(
                Violation {
                    rule: String::from_str("short_signal_name"),
                    severity: String::from_str("info"),
                    file: sig.file.clone(),
                    line: sig.line,
                    message,
                },
            );
        }
        i += 1;
    }
    out
}

/// A signal with a name of more than forty characters.
pub open spec fn long_signal_name_hit(input: &Input, sig: &Signal) -> bool {
    sig.name@.len() > 40
}

pub open spec fn long_signal_name_finding(input: &Input, sig: &Signal) -> ViolationView {
    ViolationView {
        rule: "long_signal_name"@,
        severity: "info"@,
        file: sig.file@,
        line: sig.line as nat,
        message: "Signal '"@ + sig.name@ + "' has very long name ("@ + decimal(sig.name@.len())
            + " chars) - consider abbreviating"@,
    }
}

/// The findings for the first `n` rows, in row order.
pub open spec fn long_signal_name_upto(input: &Input, n: int) -> Seq<ViolationView>
    decreases n,
{
    if n <= 0 {
        Seq::empty()
    } else {
        let rest = long_signal_name_upto(input, n - 1);
        let sig = &input.signals@[n - 1];
        if long_signal_name_hit(input, sig) {
            rest.push(long_signal_name_finding(input, sig))
        } else {
            rest
        }
    }
}

pub open spec fn long_signal_name_all(input: &Input) -> Seq<ViolationView> {
    long_signal_name_upto(input, input.signals@.len() as int)
}

pub fn long_signal_name(input: &Input) -> (out: Vec<Violation>)
    ensures
        views(out@) == long_signal_name_all(input),
{
    broadcast use group_views;

    let mut out: Vec<Violation> = Vec::new();
    let mut i: usize = 0;
    while i < input.signals.len()
        invariant
            i <= input.signals@.len(),
            views(out@) == long_signal_name_upto(input, i as int),
        decreases input.signals@.len() - i,
    {
        let sig = &input.signals[i];
        if sig.name.as_str().unicode_len() > 40 {
            let mut message = String::from_str("Signal '");
            message.append(sig.name.as_str());
            message.append("' has very long name (");
            message.append(decimal_text(sig.name.as_str().unicode_len()).as_str());
            message.append(" chars) - consider abbreviating");
            out.push(
                Violation {
                    rule: String::from_str("long_signal_name"),
                    severity: String::from_str("info"),
                    file: sig.file.clone(),
                    line: sig.line,
                    message,
                },
            );
        }
        i += 1;
    }
    out
}

/// A port with a one-character name that is no loop variable.
pub open spec fn short_port_name_hit(input: &Input, port: &Port) -> bool {
    port.name@.len() == 1 && !loop_variable(port.name@)
}

pub open spec fn short_port_name_finding(input: &Input, port: &Port) -> ViolationView {
    ViolationView {
        rule: "short_port_name"@,
        severity: "info"@,
        file: entity_file_text(input, port.in_entity@),
        line: port.line as nat,
        message: "Port '"@ + port.name@
            + "' has very short name - consider a more descriptive name"@,
    }
}

/// The findings for the first `n` rows, in row order.
pub open spec fn short_port_name_upto(input: &Input, n: int) -> Seq<ViolationView>
    decreases n,
{
    if n <= 0 {
        Seq::empty()
    } else {
        let rest = short_port_name_upto(input, n - 1);
        let port = &input.ports@[n - 1];
        if short_port_name_hit(input, port) {
            rest.push(short_port_name_finding(input, port))
        } else {
            rest
        }
    }
}

pub open spec fn short_port_name_all(input: &Input) -> Seq<ViolationView> {
    short_port_name_upto(input, input.ports@.len() as int)
}

pub fn short_port_name(input: &Input) -> (out: Vec<Violation>)
    ensures
        views(out@) == short_port_name_all(input),
{
    broadcast use group_views;

    let mut out: Vec<Violation> = Vec::new();
    let mut i: usize = 0;
    while i < input.ports.len()
        invariant
            i <= input.ports@.len(),
            views(out@) == short_port_name_upto(input, i as int),
        decreases input.ports@.len() - i,
    {
        let port = &input.ports[i];
        if port.name.as_str().unicode_len() == 1 && !is_loop_variable(port.name.as_str()) {
            let mut message = String::from_str("Port '");
            message.append(port.name.as_str());
            message.append("' has very short name - consider a more descriptive name");
            out.push(
                Violation {
                    rule: String::from_str("short_port_name"),
                    severity: String::from_str("info"),
                    file: entity_file_or_empty(input, port.in_entity.as_str()),
                    line: port.line,
                    message,
                },
            );
        }
        i += 1;
    }
    out
}

/// The pattern for a text that holds a digit.
pub open spec fn digit_pattern() -> Seq<char> {
    ".*[0-9].*"@
}

/// The patterns for names that end in a version or revision number.
pub open spec fn version_pattern() -> Seq<char> {
    ".*_v[0-9]+$"@
}

pub open spec fn revision_pattern() -> Seq<char> {
    ".*_rev[0-9]+$"@
}

/// Whether the matcher finds a version or revision suffix in the lower-case name.
pub open spec fn versioned_name(name: Seq<char>) -> bool {
    regex_match(version_pattern(), lower(name)) == Some(true) || regex_match(
        revision_pattern(),
        lower(name),
    ) == Some(true)
}

pub fn is_versioned_name(name: &str) -> (r: bool)
    ensures
        r == versioned_name(name@),
{
    let l = to_lower(name);
    found(".*_v[0-9]+$", l.as_str()) || found(".*_rev[0-9]+$", l.as_str())
}

/// Whether an entity name is reported, given what the matcher said of it:
/// whether it holds a digit, and whether it ends in a version suffix.
pub open spec fn numbered_name_given(has_digit: bool, versioned: bool) -> bool {
    has_digit && !versioned
}

pub fn is_numbered_name_given(has_digit: bool, versioned: bool) -> (r: bool)
    ensures
        r == numbered_name_given(has_digit, versioned),
{
    has_digit && !versioned
}

pub open spec fn numbered_name(name: Seq<char>) -> bool {
    numbered_name_given(regex_match(digit_pattern(), name) == Some(true), versioned_name(name))
}

pub fn is_numbered_name(name: &str) -> (r: bool)
    ensures
        r == numbered_name(name@),
{
    let has_digit = found(".*[0-9].*", name);
    let versioned = is_versioned_name(name);
    is_numbered_name_given(has_digit, versioned)
}

/// An entity whose name holds a digit and is not a versioned name.
pub open spec fn entity_name_with_numbers_hit(input: &Input, entity: &Entity) -> bool {
    numbered_name(entity.name@)
}

pub open spec fn entity_name_with_numbers_finding(input: &Input, entity: &Entity) -> ViolationView {
    ViolationView {
        rule: "entity_name_with_numbers"@,
        severity: "info"@,
        file: entity.file@,
        line: entity.line as nat,
        message: "Entity '"@ + entity.name@
            + "' contains numbers - consider a more descriptive name"@,
    }
}

/// The findings for the first `n` rows, in row order.
pub open spec fn entity_name_with_numbers_upto(input: &Input, n: int) -> Seq<ViolationView>
    decreases n,
{
    if n <= 0 {
        Seq::empty()
    } else {
        let rest = entity_name_with_numbers_upto(input, n - 1);
        let entity = &input.entities@[n - 1];
        if entity_name_with_numbers_hit(input, entity) {
            rest.push(entity_name_with_numbers_finding(input, entity))
        } else {
            rest
        }
    }
}

pub open spec fn entity_name_with_numbers_all(input: &Input) -> Seq<ViolationView> {
    entity_name_with_numbers_upto(input, input.entities@.len() as int)
}

pub fn entity_name_with_numbers(input: &Input) -> (out: Vec<Violation>)
    ensures
        views(out@) == entity_name_with_numbers_all(input),
{
    broadcast use group_views;

    let mut out: Vec<Violation> = Vec::new();
    let mut i: usize = 0;
    while i < input.entities.len()
        invariant
            i <= input.entities@.len(),
            views(out@) == entity_name_with_numbers_upto(input, i as int),
        decreases input.entities@.len() - i,
    {
        let entity = &input.entities[i];
        if is_numbered_name(entity.name.as_str()) {
            let mut message = String::from_str("Entity '");
            message.append(entity.name.as_str());
            message.append("' contains numbers - consider a more descriptive name");
            out.push(
                Violation {
                    rule: String::from_str("entity_name_with_numbers"),
                    severity: String::from_str("info"),
                    file: entity.file.clone(),
                    line: entity.line,
                    message,
                },
            );
        }
        i += 1;
    }
    out
}

/// An entity with more than four ports whose directions alternate.
pub open spec fn mixed_port_directions_hit(input: &Input, entity: &Entity) -> bool {
    entity.ports@.len() > 4 && direction_alternation(&entity.ports)
}

pub open spec fn mixed_port_directions_finding(input: &Input, entity: &Entity) -> ViolationView {
    ViolationView {
        rule: "mixed_port_directions"@,
        severity: "info"@,
        file: entity.file@,
        line: entity.line as nat,
        message: "Entity '"@ + entity.name@
            + "' has mixed port directions - consider grouping inputs and outputs together"@,
    }
}

/// The findings for the first `n` rows, in row order.
pub open spec fn mixed_port_directions_upto(input: &Input, n: int) -> Seq<ViolationView>
    decreases n,
{
    if n <= 0 {
        Seq::empty()
    } else {
        let rest = mixed_port_directions_upto(input, n - 1);
        let entity = &input.entities@[n - 1];
        if mixed_port_directions_hit(input, entity) {
            rest.push(mixed_port_directions_finding(input, entity))
        } else {
            rest
        }
    }
}

pub open spec fn mixed_port_directions_all(input: &Input) -> Seq<ViolationView> {
    mixed_port_directions_upto(input, input.entities@.len() as int)
}

pub fn mixed_port_directions(input: &Input) -> (out: Vec<Violation>)
    ensures
        views(out@) == mixed_port_directions_all(input),
{
    broadcast use group_views;

    let mut out: Vec<Violation> = Vec::new();
    let mut i: usize = 0;
    while i < input.entities.len()
        invariant
            i <= input.entities@.len(),
            views(out@) == mixed_port_directions_upto(input, i as int),
        decreases input.entities@.len() - i,
    {
        let entity = &input.entities[i];
        if entity.ports.len() > 4 && has_direction_alternation(&entity.ports) {
            let mut message = String::from_str("Entity '");
            message.append(entity.name.as_str());
            message.append("' has mixed port directions - consider grouping inputs and outputs together");
            out.push(
                Violation {
                    rule: String::from_str("mixed_port_directions"),
                    severity: String::from_str("info"),
                    file: entity.file.clone(),
                    line: entity.line,
                    message,
                },
            );
        }
        i += 1;
    }
    out
}

/// A bidirectional port.
pub open spec fn bidirectional_port_hit(input: &Input, port: &Port) -> bool {
    same_name(port.direction@, "inout"@)
}

pub open spec fn bidirectional_port_finding(input: &Input, port: &Port) -> ViolationView {
    ViolationView {
        rule: "bidirectional_port"@,
        severity: "info"@,
        file: entity_file_text(input, port.in_entity@),
        line: port.line as nat,
        message: "Port '"@ + port.name@
            + "' is bidirectional (inout) - consider separate in/out ports unless truly needed"@,
    }
}

/// The findings for the first `n` rows, in row order.
pub open spec fn bidirectional_port_upto(input: &Input, n: int) -> Seq<ViolationView>
    decreases n,
{
    if n <= 0 {
        Seq::empty()
    } else {
        let rest = bidirectional_port_upto(input, n - 1);
        let port = &input.ports@[n - 1];
        if bidirectional_port_hit(input, port) {
            rest.push(bidirectional_port_finding(input, port))
        } else {
            rest
        }
    }
}

pub open spec fn bidirectional_port_all(input: &Input) -> Seq<ViolationView> {
    bidirectional_port_upto(input, input.ports@.len() as int)
}

pub fn bidirectional_port(input: &Input) -> (out: Vec<Violation>)
    ensures
        views(out@) == bidirectional_port_all(input),
{
    broadcast use group_views;

    let mut out: Vec<Violation> = Vec::new();
    let mut i: usize = 0;
    while i < input.ports.len()
        invariant
            i <= input.ports@.len(),
            views(out@) == bidirectional_port_upto(input, i as int),
        decreases input.ports@.len() - i,
    {
        let port = &input.ports[i];
        if same(port.direction.as_str(), "inout") {
            let mut message = String::from_str("Port '");
            message.append(port.name.as_str());
            message.append("' is bidirectional (inout) - consider separate in/out ports unless truly needed");
            out.push(
                Violation {
                    rule: String::from_str("bidirectional_port"),
                    severity: String::from_str("info"),
                    file: entity_file_or_empty(input, port.in_entity.as_str()),
                    line: port.line,
                    message,
                },
            );
        }
        i += 1;
    }
    out
}

/// A port of direction `buffer`.
pub open spec fn buffer_port_hit(input: &Input, port: &Port) -> bool {
    same_name(port.direction@, "buffer"@)
}

pub open spec fn buffer_port_finding(input: &Input, port: &Port) -> ViolationView {
    ViolationView {
        rule: "buffer_port"@,
        severity: "warning"@,
        file: entity_file_text(input, port.in_entity@),
        line: port.line as nat,
        message: "Port '"@ + port.name@
            + "' uses deprecated 'buffer' direction - use 'out' with internal signal instead"@,
    }
}

/// The findings for the first `n` rows, in row order.
pub open spec fn buffer_port_upto(input: &Input, n: int) -> Seq<ViolationView>
    decreases n,
{
    if n <= 0 {
        Seq::empty()
    } else {
        let rest = buffer_port_upto(input, n - 1);
        let port = &input.ports@[n - 1];
        if buffer_port_hit(input, port) {
            rest.push(buffer_port_finding(input, port))
        } else {
            rest
        }
    }
}

pub open spec fn buffer_port_all(input: &Input) -> Seq<ViolationView> {
    buffer_port_upto(input, input.ports@.len() as int)
}

pub fn buffer_port(input: &Input) -> (out: Vec<Violation>)
    ensures
        views(out@) == buffer_port_all(input),
{
    broadcast use group_views;

    let mut out: Vec<Violation> = Vec::new();
    let mut i: usize = 0;
    while i < input.ports.len()
        invariant
            i <= input.ports@.len(),
            views(out@) == buffer_port_upto(input, i as int),
        decreases input.ports@.len() - i,
    {
        let port = &input.ports[i];
        if same(port.direction.as_str(), "buffer") {
            let mut message = String::from_str("Port '");
            message.append(port.name.as_str());
            message.append("' uses deprecated 'buffer' direction - use 'out' with internal signal instead");
            out.push(
                Violation {
                    rule: String::from_str("buffer_port"),
                    severity: String::from_str("warning"),
                    file: entity_file_or_empty(input, port.in_entity.as_str()),
                    line: port.line,
                    message,
                },
            );
        }
        i += 1;
    }
    out
}

/// Some process of the file lies in the architecture or in a scope nested in it.
pub open spec fn process_within(input: &Input, arch: &Architecture, nested: Seq<char>) -> bool {
    exists|i: int|
        #![trigger input.processes@[i]]
        0 <= i < input.processes@.len() && ({
            let p = &input.processes@[i];
            (same_name(p.in_arch@, arch.name@) || starts_with(lower(p.in_arch@), nested))
                && p.file@ == arch.file@
        })
}

pub fn arch_has_process(input: &Input, arch: &Architecture, nested: &str) -> (r: bool)
    ensures
        r == process_within(input, arch, nested@),
{
    let mut i: usize = 0;
    while i < input.processes.len()
        invariant
            i <= input.processes@.len(),
            forall|j: int|
                #![trigger input.processes@[j]]
                0 <= j < i ==> !({
                    let p = &input.processes@[j];
                    (same_name(p.in_arch@, arch.name@) || starts_with(lower(p.in_arch@), nested@))
                        && p.file@ == arch.file@
                }),
        decreases input.processes@.len() - i,
    {
        let p = &input.processes[i];
        if (same(p.in_arch.as_str(), arch.name.as_str())
            || lower_starts_with(p.in_arch.as_str(), nested))
            && str_eq(p.file.as_str(), arch.file.as_str()) {
            return true;
        }
        i += 1;
    }
    false
}

/// Some concurrent assignment of the file lies in the architecture or in a scope nested in it.
pub open spec fn assignment_within(input: &Input, arch: &Architecture, nested: Seq<char>) -> bool {
    exists|i: int|
        #![trigger input.concurrent_assignments@[i]]
        0 <= i < input.concurrent_assignments@.len() && ({
            let c = &input.concurrent_assignments@[i];
            (same_name(c.in_arch@, arch.name@) || starts_with(lower(c.in_arch@), nested))
                && c.file@ == arch.file@
        })
}

pub fn arch_has_assignment(input: &Input, arch: &Architecture, nested: &str) -> (r: bool)
    ensures
        r == assignment_within(input, arch, nested@),
{
    let mut i: usize = 0;
    while i < input.concurrent_assignments.len()
        invariant
            i <= input.concurrent_assignments@.len(),
            forall|j: int|
                #![trigger input.concurrent_assignments@[j]]
                0 <= j < i ==> !({
                    let c = &input.concurrent_assignments@[j];
                    (same_name(c.in_arch@, arch.name@) || starts_with(lower(c.in_arch@), nested@))
                        && c.file@ == arch.file@
                }),
        decreases input.concurrent_assignments@.len() - i,
    {
        let c = &input.concurrent_assignments[i];
        if (same(c.in_arch.as_str(), arch.name.as_str())
            || lower_starts_with(c.in_arch.as_str(), nested))
            && str_eq(c.file.as_str(), arch.file.as_str()) {
            return true;
        }
        i += 1;
    }
    false
}

/// Some instance of the file lies in the architecture or in a scope nested in it.
pub open spec fn instance_within(input: &Input, arch: &Architecture, nested: Seq<char>) -> bool {
    exists|i: int|
        #![trigger input.instances@[i]]
        0 <= i < input.instances@.len() && ({
            let inst = &input.instances@[i];
            (same_name(inst.in_arch@, arch.name@) || starts_with(lower(inst.in_arch@), nested))
                && inst.file@ == arch.file@
        })
}

pub fn arch_has_instance(input: &Input, arch: &Architecture, nested: &str) -> (r: bool)
    ensures
        r == instance_within(input, arch, nested@),
{
    let mut i: usize = 0;
    while i < input.instances.len()
        invariant
            i <= input.instances@.len(),
            forall|j: int|
                #![trigger input.instances@[j]]
                0 <= j < i ==> !({
                    let inst = &input.instances@[j];
                    (same_name(inst.in_arch@, arch.name@)
                        || starts_with(lower(inst.in_arch@), nested@))
                        && inst.file@ == arch.file@
                }),
        decreases input.instances@.len() - i,
    {
        let inst = &input.instances[i];
        if (same(inst.in_arch.as_str(), arch.name.as_str())
            || lower_starts_with(inst.in_arch.as_str(), nested))
            && str_eq(inst.file.as_str(), arch.file.as_str()) {
            return true;
        }
        i += 1;
    }
    false
}

/// Some generate statement of the file lies directly in the architecture.
pub open spec fn generate_within(input: &Input, arch: &Architecture) -> bool {
    exists|i: int|
        #![trigger input.generates@[i]]
        0 <= i < input.generates@.len() && ({
            let g = &input.generates@[i];
            same_name(g.in_arch@, arch.name@) && g.file@ == arch.file@
        })
}

pub fn arch_has_generate(input: &Input, arch: &Architecture) -> (r: bool)
    ensures
        r == generate_within(input, arch),
{
    let mut i: usize = 0;
    while i < input.generates.len()
        invariant
            i <= input.generates@.len(),
            forall|j: int|
                #![trigger input.generates@[j]]
                0 <= j < i ==> !({
                    let g = &input.generates@[j];
                    same_name(g.in_arch@, arch.name@) && g.file@ == arch.file@
                }),
        decreases input.generates@.len() - i,
    {
        let g = &input.generates[i];
        if same(g.in_arch.as_str(), arch.name.as_str())
            && str_eq(g.file.as_str(), arch.file.as_str()) {
            return true;
        }
        i += 1;
    }
    false
}

/// The prefix of every scope nested in the architecture: its name and a dot.
pub open spec fn nested_prefix(arch: &Architecture) -> Seq<char> {
    lower(arch.name@) + "."@
}

pub fn nested_prefix_text(arch: &Architecture) -> (r: String)
    ensures
        r@ == nested_prefix(arch),
{
    let mut prefix = to_lower(arch.name.as_str());
    prefix.append(".");
    prefix
}

/// The architecture holds no process, concurrent assignment, instance or generate statement.
pub open spec fn trivial(input: &Input, arch: &Architecture) -> bool {
    !process_within(input, arch, nested_prefix(arch)) && !assignment_within(
        input,
        arch,
        nested_prefix(arch),
    ) && !instance_within(input, arch, nested_prefix(arch)) && !generate_within(input, arch)
}

pub fn is_trivial(input: &Input, arch: &Architecture) -> (r: bool)
    ensures
        r == trivial(input, arch),
{
    let nested = nested_prefix_text(arch);
    !arch_has_process(input, arch, nested.as_str()) && !arch_has_assignment(
        input,
        arch,
        nested.as_str(),
    ) && !arch_has_instance(input, arch, nested.as_str()) && !arch_has_generate(input, arch)
}

/// An architecture without processes, concurrent statements, instances and generate statements.
pub open spec fn trivial_architecture_hit(input: &Input, arch: &Architecture) -> bool {
    trivial(input, arch)
}

pub open spec fn trivial_architecture_finding(input: &Input, arch: &Architecture) -> ViolationView {
    ViolationView {
        rule: "trivial_architecture"@,
        severity: "warning"@,
        file: arch.file@,
        line: arch.line as nat,
        message: "Architecture '"@ + arch.name@
            + "' has no processes, concurrent statements, or instances"@,
    }
}

/// The findings for the first `n` rows, in row order.
pub open spec fn trivial_architecture_upto(input: &Input, n: int) -> Seq<ViolationView>
    decreases n,
{
    if n <= 0 {
        Seq::empty()
    } else {
        let rest = trivial_architecture_upto(input, n - 1);
        let arch = &input.architectures@[n - 1];
        if trivial_architecture_hit(input, arch) {
            rest.push(trivial_architecture_finding(input, arch))
        } else {
            rest
        }
    }
}

pub open spec fn trivial_architecture_all(input: &Input) -> Seq<ViolationView> {
    trivial_architecture_upto(input, input.architectures@.len() as int)
}

pub fn trivial_architecture(input: &Input) -> (out: Vec<Violation>)
    ensures
        views(out@) == trivial_architecture_all(input),
{
    broadcast use group_views;

    let mut out: Vec<Violation> = Vec::new();
    let mut i: usize = 0;
    while i < input.architectures.len()
        invariant
            i <= input.architectures@.len(),
            views(out@) == trivial_architecture_upto(input, i as int),
        decreases input.architectures@.len() - i,
    {
        let arch = &input.architectures[i];
        if is_trivial(input, arch) {
            let mut message = String::from_str("Architecture '");
            message.append(arch.name.as_str());
            message.append("' has no processes, concurrent statements, or instances");
            out.push(
                Violation {
                    rule: String::from_str("trivial_architecture"),
                    severity: String::from_str("warning"),
                    file: arch.file.clone(),
                    line: arch.line,
                    message,
                },
            );
        }
        i += 1;
    }
    out
}

/// The file name of a path without directory and without the endings
/// `.vhdl` and `.vhd`.
pub open spec fn file_stem(path: Seq<char>) -> Seq<char> {
    let file = after_last(path, '/');
    let a = strip_all_suffix(file, ".vhdl"@, file.len() as int);
    strip_all_suffix(a, ".vhd"@, a.len() as int)
}

pub fn extract_filename(path: &str) -> (r: String)
    ensures
        r@ == file_stem(path@),
{
    let v = chars_of(path);
    let file = chars_after_last(&v, '/');
    let a = chars_strip_all_suffix(&file, ".vhdl");
    let b = chars_strip_all_suffix(&a, ".vhd");
    string_of(&b)
}

/// The only entity of a file whose name differs from the file name.
pub open spec fn file_entity_mismatch_hit(input: &Input, entity: &Entity) -> bool {
    entities_in_file_upto(input, entity.file@, input.entities@.len() as int) == 1
        && !same_name(file_stem(entity.file@), entity.name@)
}

pub open spec fn file_entity_mismatch_finding(input: &Input, entity: &Entity) -> ViolationView {
    ViolationView {
        rule: "file_entity_mismatch"@,
        severity: "info"@,
        file: entity.file@,
        line: entity.line as nat,
        message: "Entity '"@ + entity.name@ + "' is in file '"@ + file_stem(entity.file@)
            + "' - consider renaming file to '"@ + entity.name@ + ".vhd'"@,
    }
}

/// The findings for the first `n` rows, in row order.
pub open spec fn file_entity_mismatch_upto(input: &Input, n: int) -> Seq<ViolationView>
    decreases n,
{
    if n <= 0 {
        Seq::empty()
    } else {
        let rest = file_entity_mismatch_upto(input, n - 1);
        let entity = &input.entities@[n - 1];
        if file_entity_mismatch_hit(input, entity) {
            rest.push(file_entity_mismatch_finding(input, entity))
        } else {
            rest
        }
    }
}

pub open spec fn file_entity_mismatch_all(input: &Input) -> Seq<ViolationView> {
    file_entity_mismatch_upto(input, input.entities@.len() as int)
}

pub fn file_entity_mismatch(input: &Input) -> (out: Vec<Violation>)
    ensures
        views(out@) == file_entity_mismatch_all(input),
{
    broadcast use group_views;

    let mut out: Vec<Violation> = Vec::new();
    let mut i: usize = 0;
    while i < input.entities.len()
        invariant
            i <= input.entities@.len(),
            views(out@) == file_entity_mismatch_upto(input, i as int),
        decreases input.entities@.len() - i,
    {
        let entity = &input.entities[i];
        let filename = extract_filename(entity.file.as_str());
        if entities_in_file(input, entity.file.as_str()) == 1
            && !same(filename.as_str(), entity.name.as_str()) {
            let mut message = String::from_str("Entity '");
            message.append(entity.name.as_str());
            message.append("' is in file '");
            message.append(filename.as_str());
            message.append("' - consider renaming file to '");
            message.append(entity.name.as_str());
            message.append(".vhd'");
            out.push(
                Violation {
                    rule: String::from_str("file_entity_mismatch"),
                    severity: String::from_str("info"),
                    file: entity.file.clone(),
                    line: entity.line,
                    message,
                },
            );
        }
        i += 1;
    }
    out
}

/// A generate statement without label.
pub open spec fn unlabeled_generate_hit(input: &Input, generate: &GenerateStatement) -> bool {
    generate.label@.len() == 0
}

pub open spec fn unlabeled_generate_finding(input: &Input, generate: &GenerateStatement) -> ViolationView {
    ViolationView {
        rule: "unlabeled_generate"@,
        severity: "warning"@,
        file: generate.file@,
        line: generate.line as nat,
        message: "Generate block without label - labels are required for generate blocks"@,
    }
}

/// The findings for the first `n` rows, in row order.
pub open spec fn unlabeled_generate_upto(input: &Input, n: int) -> Seq<ViolationView>
    decreases n,
{
    if n <= 0 {
        Seq::empty()
    } else {
        let rest = unlabeled_generate_upto(input, n - 1);
        let generate = &input.generates@[n - 1];
        if unlabeled_generate_hit(input, generate) {
            rest.push(unlabeled_generate_finding(input, generate))
        } else {
            rest
        }
    }
}

pub open spec fn unlabeled_generate_all(input: &Input) -> Seq<ViolationView> {
    unlabeled_generate_upto(input, input.generates@.len() as int)
}

pub fn unlabeled_generate(input: &Input) -> (out: Vec<Violation>)
    ensures
        views(out@) == unlabeled_generate_all(input),
{
    broadcast use group_views;

    let mut out: Vec<Violation> = Vec::new();
    let mut i: usize = 0;
    while i < input.generates.len()
        invariant
            i <= input.generates@.len(),
            views(out@) == unlabeled_generate_upto(input, i as int),
        decreases input.generates@.len() - i,
    {
        let generate = &input.generates[i];
        if generate.label.as_str().is_empty() {
            let mut message = String::from_str("Generate block without label - labels are required for generate blocks");
            out.push(
                Violation {
                    rule: String::from_str("unlabeled_generate"),
                    severity: String::from_str("warning"),
                    file: generate.file.clone(),
                    line: generate.line,
                    message,
                },
            );
        }
        i += 1;
    }
    out
}

/// An entity with more than fifty signals.
pub open spec fn many_signals_hit(input: &Input, entity: &Entity) -> bool {
    signal_count_in(input, entity.name@) > 50
}

pub open spec fn many_signals_finding(input: &Input, entity: &Entity) -> ViolationView {
    ViolationView {
        rule: "many_signals"@,
        severity: "info"@,
        file: entity.file@,
        line: entity.line as nat,
        message: "Entity '"@ + entity.name@ + "' has "@
            + decimal(signal_count_in(input, entity.name@))
            + " signals - consider refactoring into sub-modules"@,
    }
}

/// The findings for the first `n` rows, in row order.
pub open spec fn many_signals_upto(input: &Input, n: int) -> Seq<ViolationView>
    decreases n,
{
    if n <= 0 {
        Seq::empty()
    } else {
        let rest = many_signals_upto(input, n - 1);
        let entity = &input.entities@[n - 1];
        if many_signals_hit(input, entity) {
            rest.push(many_signals_finding(input, entity))
        } else {
            rest
        }
    }
}

pub open spec fn many_signals_all(input: &Input) -> Seq<ViolationView> {
    many_signals_upto(input, input.entities@.len() as int)
}

pub fn many_signals(input: &Input) -> (out: Vec<Violation>)
    ensures
        views(out@) == many_signals_all(input),
{
    broadcast use group_views;

    let mut out: Vec<Violation> = Vec::new();
    let mut i: usize = 0;
    while i < input.entities.len()
        invariant
            i <= input.entities@.len(),
            views(out@) == many_signals_upto(input, i as int),
        decreases input.entities@.len() - i,
    {
        let entity = &input.entities[i];
        let count = signals_in_scope(input, entity.name.as_str());
        if count > 50 {
            let mut message = String::from_str("Entity '");
            message.append(entity.name.as_str());
            message.append("' has ");
            message.append(decimal_text(count).as_str());
            message.append(" signals - consider refactoring into sub-modules");
            out.push(
                Violation {
                    rule: String::from_str("many_signals"),
                    severity: String::from_str("info"),
                    file: entity.file.clone(),
                    line: entity.line,
                    message,
                },
            );
        }
        i += 1;
    }
    out
}

/// A generate statement more than three scopes deep.
pub open spec fn deep_generate_nesting_hit(input: &Input, generate: &GenerateStatement) -> bool {
    count_char(generate.in_arch@, '.', generate.in_arch@.len() as int) > 3
}

pub open spec fn deep_generate_nesting_finding(input: &Input, generate: &GenerateStatement) -> ViolationView {
    ViolationView {
        rule: "deep_generate_nesting"@,
        severity: "info"@,
        file: generate.file@,
        line: generate.line as nat,
        message: "Generate block '"@ + generate.label@ + "' is deeply nested ("@
            + decimal(count_char(generate.in_arch@, '.', generate.in_arch@.len() as int))
            + " levels) - consider flattening"@,
    }
}

/// The findings for the first `n` rows, in row order.
pub open spec fn deep_generate_nesting_upto(input: &Input, n: int) -> Seq<ViolationView>
    decreases n,
{
    if n <= 0 {
        Seq::empty()
    } else {
        let rest = deep_generate_nesting_upto(input, n - 1);
        let generate = &input.generates@[n - 1];
        if deep_generate_nesting_hit(input, generate) {
            rest.push(deep_generate_nesting_finding(input, generate))
        } else {
            rest
        }
    }
}

pub open spec fn deep_generate_nesting_all(input: &Input) -> Seq<ViolationView> {
    deep_generate_nesting_upto(input, input.generates@.len() as int)
}

pub fn deep_generate_nesting(input: &Input) -> (out: Vec<Violation>)
    ensures
        views(out@) == deep_generate_nesting_all(input),
{
    broadcast use group_views;

    let mut out: Vec<Violation> = Vec::new();
    let mut i: usize = 0;
    while i < input.generates.len()
        invariant
            i <= input.generates@.len(),
            views(out@) == deep_generate_nesting_upto(input, i as int),
        decreases input.generates@.len() - i,
    {
        let generate = &input.generates[i];
        let dots = occurrences(generate.in_arch.as_str(), '.');
        if dots > 3 {
            let mut message = String::from_str("Generate block '");
            message.append(generate.label.as_str());
            message.append("' is deeply nested (");
            message.append(decimal_text(dots).as_str());
            message.append(" levels) - consider flattening");
            out.push(
                Violation {
                    rule: String::from_str("deep_generate_nesting"),
                    severity: String::from_str("info"),
                    file: generate.file.clone(),
                    line: generate.line,
                    message,
                },
            );
        }
        i += 1;
    }
    out
}

/// The pattern for a descending range with literal bounds.
pub open spec fn range_pattern() -> Seq<char> {
    "\\(\\s*([0-9]+)\\s+downto\\s+([0-9]+)\\s*\\)"@
}

/// The width that a descending range gives, from the texts of its two
/// bounds: `None` where a bound is missing or does not fit.
pub open spec fn range_width_given(high: Option<Seq<char>>, low: Option<Seq<char>>) -> Option<int> {
    match (high, low) {
        (Some(h), Some(l)) => match (
            integer_in_range(h, true, -0x8000_0000, 0x7fff_ffff),
            integer_in_range(l, true, -0x8000_0000, 0x7fff_ffff),
        ) {
            (Some(high), Some(low)) => Some(high - low + 1),
            _ => None,
        },
        _ => None,
    }
}

/// The width of a signal, given the bounds that the matcher found in its
/// type: the recorded width where there is one, else the width of the range
/// in the type.  `None` where there is neither.
pub open spec fn signal_width_given(sig: &Signal, high: Option<Seq<char>>, low: Option<Seq<char>>) -> Option<
    int,
> {
    if sig.width > 0 {
        Some((sig.width as i32) as int)
    } else {
        range_width_given(high, low)
    }
}

pub open spec fn bound_text(bound: &Option<String>) -> Option<Seq<char>> {
    match bound {
        Some(b) => Some(b@),
        None => None,
    }
}

pub fn signal_width_from(sig: &Signal, high: &Option<String>, low: &Option<String>) -> (r: Option<
    i64,
>)
    ensures
        match r {
            Some(w) => signal_width_given(sig, bound_text(high), bound_text(low)) == Some(w as int),
            None => signal_width_given(sig, bound_text(high), bound_text(low)).is_none(),
        },
{
    if sig.width > 0 {
        let w = #[verifier::truncate]
        (sig.width as i32);
        return Some(w as i64);
    }
    match (high, low) {
        (Some(h), Some(l)) => {
            let high = parse_integer(h.as_str(), true, -0x8000_0000, 0x7fff_ffff);
            let low = parse_integer(l.as_str(), true, -0x8000_0000, 0x7fff_ffff);
            match (high, low) {
                (Some(h), Some(l)) => Some(h - l + 1),
                _ => None,
            }
        },
        _ => None,
    }
}

/// A width above eight that is no power of two in common use.
pub open spec fn magic_width(w: int) -> bool {
    w > 8 && w != 16 && w != 32 && w != 64 && w != 128
}

/// The width of a signal as this rule reads it.
pub open spec fn signal_width(sig: &Signal) -> Option<int> {
    signal_width_given(
        sig,
        regex_group(range_pattern(), lower(sig.ty@), 1),
        regex_group(range_pattern(), lower(sig.ty@), 2),
    )
}

pub fn signal_width_of(sig: &Signal) -> (r: Option<i64>)
    ensures
        match r {
            Some(w) => signal_width(sig) == Some(w as int),
            None => signal_width(sig).is_none(),
        },
{
    let l = to_lower(sig.ty.as_str());
    let high = regex_capture("\\(\\s*([0-9]+)\\s+downto\\s+([0-9]+)\\s*\\)", l.as_str(), 1);
    let low = regex_capture("\\(\\s*([0-9]+)\\s+downto\\s+([0-9]+)\\s*\\)", l.as_str(), 2);
    signal_width_from(sig, &high, &low)
}

/// A signal whose width is a magic number.
pub open spec fn magic_width_number_hit(input: &Input, sig: &Signal) -> bool {
    match signal_width(sig) {
        Some(w) => magic_width(w),
        None => false,
    }
}

pub open spec fn magic_width_number_finding(input: &Input, sig: &Signal) -> ViolationView {
    ViolationView {
        rule: "magic_width_number"@,
        severity: "info"@,
        file: sig.file@,
        line: sig.line as nat,
        message: "Signal '"@ + sig.name@ + "' has magic width "@ + decimal(
            match signal_width(sig) {
                Some(w) => w as nat,
                None => 0,
            },
        ) + " - consider using a constant"@,
    }
}

/// The findings for the first `n` signals, in record order.
pub open spec fn magic_width_number_upto(input: &Input, n: int) -> Seq<ViolationView>
    decreases n,
{
    if n <= 0 {
        Seq::empty()
    } else {
        let rest = magic_width_number_upto(input, n - 1);
        let sig = &input.signals@[n - 1];
        if magic_width_number_hit(input, sig) {
            rest.push(magic_width_number_finding(input, sig))
        } else {
            rest
        }
    }
}

pub open spec fn magic_width_number_all(input: &Input) -> Seq<ViolationView> {
    magic_width_number_upto(input, input.signals@.len() as int)
}

pub fn magic_width_number(input: &Input) -> (out: Vec<Violation>)
    ensures
        views(out@) == magic_width_number_all(input),
{
    broadcast use group_views;

    let mut out: Vec<Violation> = Vec::new();
    let mut i: usize = 0;
    while i < input.signals.len()
        invariant
            i <= input.signals@.len(),
            views(out@) == magic_width_number_upto(input, i as int),
        decreases input.signals@.len() - i,
    {
        let sig = &input.signals[i];
        match signal_width_of(sig) {
            Some(w) => {
                if w > 8 && w != 16 && w != 32 && w != 64 && w != 128 {
                    let mut message = String::from_str("Signal '");
                    message.append(sig.name.as_str());
                    message.append("' has magic width ");
                    message.append(decimal_text_wide(w as u128).as_str());
                    message.append(" - consider using a constant");
                    out.push(
                        Violation {
                            rule: String::from_str("magic_width_number"),
                            severity: String::from_str("info"),
                            file: sig.file.clone(),
                            line: sig.line,
                            message,
                        },
                    );
                }
            },
            None => {},
        }
        i += 1;
    }
    out
}

/// The pattern for a text made of digits only.
pub open spec fn digits_pattern() -> Seq<char> {
    "^[0-9]+$"@
}

/// Whether a generic value is reported, given whether the matcher took it
/// for a number: a number above eight.
pub open spec fn hardcoded_value_given(value: Seq<char>, is_number: bool) -> bool {
    is_number && match integer_in_range(value, true, -0x8000_0000, 0x7fff_ffff) {
        Some(num) => num > 8,
        None => false,
    }
}

pub fn is_hardcoded_value_given(value: &str, is_number: bool) -> (r: bool)
    ensures
        r == hardcoded_value_given(value@, is_number),
{
    if !is_number {
        return false;
    }
    match parse_integer(value, true, -0x8000_0000, 0x7fff_ffff) {
        Some(num) => num > 8,
        None => false,
    }
}

pub open spec fn hardcoded_value(value: Seq<char>) -> bool {
    hardcoded_value_given(value, regex_match(digits_pattern(), value) == Some(true))
}

pub fn is_hardcoded_value(value: &str) -> (r: bool)
    ensures
        r == hardcoded_value(value@),
{
    let is_number = found("^[0-9]+$", value);
    is_hardcoded_value_given(value, is_number)
}

/// Every generic of an instance that is bound to a literal number above eight.
pub open spec fn hardcoded_generic_upto(input: &Input, n: int) -> Seq<ViolationView>
    decreases n,
{
    if n <= 0 {
        Seq::empty()
    } else {
        let rest = hardcoded_generic_upto(input, n - 1);
        let inst = &input.instances@[n - 1];
        rest + hardcoded_generic_in_all(input, inst)
    }
}

pub open spec fn hardcoded_generic_all(input: &Input) -> Seq<ViolationView> {
    hardcoded_generic_upto(input, input.instances@.len() as int)
}

pub fn hardcoded_generic(input: &Input) -> (out: Vec<Violation>)
    ensures
        views(out@) == hardcoded_generic_all(input),
{
    broadcast use group_views;

    let mut out: Vec<Violation> = Vec::new();
    let mut i: usize = 0;
    while i < input.instances.len()
        invariant
            i <= input.instances@.len(),
            views(out@) == hardcoded_generic_upto(input, i as int),
        decreases input.instances@.len() - i,
    {
        let inst = &input.instances[i];
        let mut part = hardcoded_generic_in(input, inst);
        out.append(&mut part);
        i += 1;
    }
    out
}

/// A generic bound to a literal number above eight.
pub open spec fn hardcoded_generic_in_hit(input: &Input, inst: &Instance, entry: &MapEntry) -> bool {
    hardcoded_value(entry.value@)
}

pub open spec fn hardcoded_generic_in_finding(input: &Input, inst: &Instance, entry: &MapEntry) -> ViolationView {
    ViolationView {
        rule: "hardcoded_generic"@,
        severity: "info"@,
        file: inst.file@,
        line: inst.line as nat,
        message: "Instance '"@ + inst.name@ + "' has hardcoded generic value '"@ + entry.value@
            + "' - consider using a constant or generic"@,
    }
}

/// The findings for the first `n` rows, in row order.
pub open spec fn hardcoded_generic_in_upto(input: &Input, inst: &Instance, n: int) -> Seq<ViolationView>
    decreases n,
{
    if n <= 0 {
        Seq::empty()
    } else {
        let rest = hardcoded_generic_in_upto(input, inst, n - 1);
        let entry = &inst.generic_map.entries@[n - 1];
        if hardcoded_generic_in_hit(input, inst, entry) {
            rest.push(hardcoded_generic_in_finding(input, inst, entry))
        } else {
            rest
        }
    }
}

pub open spec fn hardcoded_generic_in_all(input: &Input, inst: &Instance) -> Seq<ViolationView> {
    hardcoded_generic_in_upto(input, inst, inst.generic_map.entries@.len() as int)
}

pub fn hardcoded_generic_in(input: &Input, inst: &Instance) -> (out: Vec<Violation>)
    ensures
        views(out@) == hardcoded_generic_in_all(input, inst),
{
    broadcast use group_views;

    let mut out: Vec<Violation> = Vec::new();
    let mut i: usize = 0;
    while i < inst.generic_map.entries.len()
        invariant
            i <= inst.generic_map.entries@.len(),
            views(out@) == hardcoded_generic_in_upto(input, inst, i as int),
        decreases inst.generic_map.entries@.len() - i,
    {
        let entry = &inst.generic_map.entries[i];
        if is_hardcoded_value(entry.value.as_str()) {
            let mut message = String::from_str("Instance '");
            message.append(inst.name.as_str());
            message.append("' has hardcoded generic value '");
            message.append(entry.value.as_str());
            message.append("' - consider using a constant or generic");
            out.push(
                Violation {
                    rule: String::from_str("hardcoded_generic"),
                    severity: String::from_str("info"),
                    file: inst.file.clone(),
                    line: inst.line,
                    message,
                },
            );
        }
        i += 1;
    }
    out
}

/// The file, the scope and the lower-case name of a signal, joined by bars.
pub open spec fn duplicate_signal_in_entity_key(input: &Input, sig: &Signal) -> Seq<char> {
    sig.file@ + "|"@ + lower(sig.in_entity@) + "|"@ + lower(sig.name@)
}

pub fn duplicate_signal_in_entity_key_text(input: &Input, sig: &Signal) -> (key: String)
    ensures
        key@ == duplicate_signal_in_entity_key(input, sig),
{
    let mut key = sig.file.clone();
    key.append("|");
    key.append(to_lower(sig.in_entity.as_str()).as_str());
    key.append("|");
    key.append(to_lower(sig.name.as_str()).as_str());
    key
}

/// The first row at or after `j` and before `i` with the key of row `i`; `i`
/// itself if there is none.
pub open spec fn duplicate_signal_in_entity_first(input: &Input, i: int, j: int) -> int
    decreases i - j,
{
    if j < 0 || j >= i {
        i
    } else if duplicate_signal_in_entity_key(input, &input.signals@[j]) == duplicate_signal_in_entity_key(
        input,
        &input.signals@[i],
    ) {
        j
    } else {
        duplicate_signal_in_entity_first(input, i, j + 1)
    }
}

/// A signal that repeats the file, scope and name of an earlier signal.
pub open spec fn duplicate_signal_in_entity_hit(input: &Input, i: int) -> bool {
    duplicate_signal_in_entity_first(input, i, 0) < i
}

pub open spec fn duplicate_signal_in_entity_finding(input: &Input, i: int) -> ViolationView {
    let sig = &input.signals@[i];
    let first = &input.signals@[duplicate_signal_in_entity_first(input, i, 0)];
    ViolationView {
        rule: "duplicate_signal_in_entity"@,
        severity: "error"@,
        file: sig.file@,
        line: sig.line as nat,
        message: "Signal '"@ + sig.name@
            + "' declared multiple times in same scope (first at line "@
            + decimal(first.line as nat) + ")"@,
    }
}

/// The findings for the first `n` rows, in row order.
pub open spec fn duplicate_signal_in_entity_upto(input: &Input, n: int) -> Seq<ViolationView>
    decreases n,
{
    if n <= 0 {
        Seq::empty()
    } else {
        let rest = duplicate_signal_in_entity_upto(input, n - 1);
        if duplicate_signal_in_entity_hit(input, n - 1) {
            rest.push(duplicate_signal_in_entity_finding(input, n - 1))
        } else {
            rest
        }
    }
}

pub open spec fn duplicate_signal_in_entity_all(input: &Input) -> Seq<ViolationView> {
    duplicate_signal_in_entity_upto(input, input.signals@.len() as int)
}

/// The keys of all rows, one per row.
fn duplicate_signal_in_entity_keys(input: &Input) -> (keys: Vec<String>)
    ensures
        keys@.len() == input.signals@.len(),
        forall|k: int|
            0 <= k < keys@.len() ==> (#[trigger] keys@[k])@ == duplicate_signal_in_entity_key(
                input,
                &input.signals@[k],
            ),
{
    let mut keys: Vec<String> = Vec::new();
    let mut k: usize = 0;
    while k < input.signals.len()
        invariant
            k <= input.signals@.len(),
            keys@.len() == k,
            forall|m: int|
                0 <= m < k ==> (#[trigger] keys@[m])@ == duplicate_signal_in_entity_key(input, &input.signals@[m]),
        decreases input.signals@.len() - k,
    {
        let key = duplicate_signal_in_entity_key_text(input, &input.signals[k]);
        keys.push(key);
        k += 1;
    }
    keys
}

pub fn duplicate_signal_in_entity(input: &Input) -> (out: Vec<Violation>)
    ensures
        views(out@) == duplicate_signal_in_entity_all(input),
{
    broadcast use group_views;

    let keys = duplicate_signal_in_entity_keys(input);
    let mut out: Vec<Violation> = Vec::new();
    let mut i: usize = 0;
    while i < input.signals.len()
        invariant
            i <= input.signals@.len(),
            keys@.len() == input.signals@.len(),
            forall|k: int|
                0 <= k < keys@.len() ==> (#[trigger] keys@[k])@ == duplicate_signal_in_entity_key(
                    input,
                    &input.signals@[k],
                ),
            views(out@) == duplicate_signal_in_entity_upto(input, i as int),
        decreases input.signals@.len() - i,
    {
        let mut j: usize = 0;
        let mut found = false;
        while j < i && !found
            invariant
                j <= i < input.signals@.len(),
                keys@.len() == input.signals@.len(),
                forall|k: int|
                    0 <= k < keys@.len() ==> (#[trigger] keys@[k])@ == duplicate_signal_in_entity_key(
                        input,
                        &input.signals@[k],
                    ),
                duplicate_signal_in_entity_first(input, i as int, 0) == duplicate_signal_in_entity_first(input, i as int, j as int),
                found ==> j < i && duplicate_signal_in_entity_first(input, i as int, j as int) == j,
            decreases i - j + (if found { 0int } else { 1int }),
        {
            if str_eq(keys[j].as_str(), keys[i].as_str()) {
                found = true;
            } else {
                j += 1;
            }
        }
        if found {
            let sig = &input.signals[i];
            let first = &input.signals[j];
            let mut message = String::from_str("Signal '");
            message.append(sig.name.as_str());
            message.append("' declared multiple times in same scope (first at line ");
            message.append(decimal_text(first.line).as_str());
            message.append(")");
            out.push(
                Violation {
                    rule: String::from_str("duplicate_signal_in_entity"),
                    severity: String::from_str("error"),
                    file: sig.file.clone(),
                    line: sig.line,
                    message,
                },
            );
        }
        i += 1;
    }
    out
}

/// The entity, its file and the lower-case name of a port, joined by bars.
pub open spec fn duplicate_port_in_entity_key(input: &Input, port: &Port) -> Seq<char> {
    lower(port.in_entity@) + "|"@ + entity_file_text(input, port.in_entity@) + "|"@ + lower(
        port.name@,
    )
}

pub fn duplicate_port_in_entity_key_text(input: &Input, port: &Port) -> (key: String)
    ensures
        key@ == duplicate_port_in_entity_key(input, port),
{
    let mut key = to_lower(port.in_entity.as_str());
    key.append("|");
    key.append(entity_file_or_empty(input, port.in_entity.as_str()).as_str());
    key.append("|");
    key.append(to_lower(port.name.as_str()).as_str());
    key
}

/// The first row at or after `j` and before `i` with the key of row `i`; `i`
/// itself if there is none.
pub open spec fn duplicate_port_in_entity_first(input: &Input, i: int, j: int) -> int
    decreases i - j,
{
    if j < 0 || j >= i {
        i
    } else if duplicate_port_in_entity_key(input, &input.ports@[j]) == duplicate_port_in_entity_key(
        input,
        &input.ports@[i],
    ) {
        j
    } else {
        duplicate_port_in_entity_first(input, i, j + 1)
    }
}

/// A port that repeats the entity and name of an earlier port.
pub open spec fn duplicate_port_in_entity_hit(input: &Input, i: int) -> bool {
    duplicate_port_in_entity_first(input, i, 0) < i
}

pub open spec fn duplicate_port_in_entity_finding(input: &Input, i: int) -> ViolationView {
    let port = &input.ports@[i];
    let first = &input.ports@[duplicate_port_in_entity_first(input, i, 0)];
    ViolationView {
        rule: "duplicate_port_in_entity"@,
        severity: "error"@,
        file: entity_file_text(input, port.in_entity@),
        line: port.line as nat,
        message: "Port '"@ + port.name@
            + "' declared multiple times in same entity (first at line "@
            + decimal(first.line as nat) + ")"@,
    }
}

/// The findings for the first `n` rows, in row order.
pub open spec fn duplicate_port_in_entity_upto(input: &Input, n: int) -> Seq<ViolationView>
    decreases n,
{
    if n <= 0 {
        Seq::empty()
    } else {
        let rest = duplicate_port_in_entity_upto(input, n - 1);
        if duplicate_port_in_entity_hit(input, n - 1) {
            rest.push(duplicate_port_in_entity_finding(input, n - 1))
        } else {
            rest
        }
    }
}

pub open spec fn duplicate_port_in_entity_all(input: &Input) -> Seq<ViolationView> {
    duplicate_port_in_entity_upto(input, input.ports@.len() as int)
}

/// The keys of all rows, one per row.
fn duplicate_port_in_entity_keys(input: &Input) -> (keys: Vec<String>)
    ensures
        keys@.len() == input.ports@.len(),
        forall|k: int|
            0 <= k < keys@.len() ==> (#[trigger] keys@[k])@ == duplicate_port_in_entity_key(
                input,
                &input.ports@[k],
            ),
{
    let mut keys: Vec<String> = Vec::new();
    let mut k: usize = 0;
    while k < input.ports.len()
        invariant
            k <= input.ports@.len(),
            keys@.len() == k,
            forall|m: int|
                0 <= m < k ==> (#[trigger] keys@[m])@ == duplicate_port_in_entity_key(input, &input.ports@[m]),
        decreases input.ports@.len() - k,
    {
        let key = duplicate_port_in_entity_key_text(input, &input.ports[k]);
        keys.push(key);
        k += 1;
    }
    keys
}

pub fn duplicate_port_in_entity(input: &Input) -> (out: Vec<Violation>)
    ensures
        views(out@) == duplicate_port_in_entity_all(input),
{
    broadcast use group_views;

    let keys = duplicate_port_in_entity_keys(input);
    let mut out: Vec<Violation> = Vec::new();
    let mut i: usize = 0;
    while i < input.ports.len()
        invariant
            i <= input.ports@.len(),
            keys@.len() == input.ports@.len(),
            forall|k: int|
                0 <= k < keys@.len() ==> (#[trigger] keys@[k])@ == duplicate_port_in_entity_key(
                    input,
                    &input.ports@[k],
                ),
            views(out@) == duplicate_port_in_entity_upto(input, i as int),
        decreases input.ports@.len() - i,
    {
        let mut j: usize = 0;
        let mut found = false;
        while j < i && !found
            invariant
                j <= i < input.ports@.len(),
                keys@.len() == input.ports@.len(),
                forall|k: int|
                    0 <= k < keys@.len() ==> (#[trigger] keys@[k])@ == duplicate_port_in_entity_key(
                        input,
                        &input.ports@[k],
                    ),
                duplicate_port_in_entity_first(input, i as int, 0) == duplicate_port_in_entity_first(input, i as int, j as int),
                found ==> j < i && duplicate_port_in_entity_first(input, i as int, j as int) == j,
            decreases i - j + (if found { 0int } else { 1int }),
        {
            if str_eq(keys[j].as_str(), keys[i].as_str()) {
                found = true;
            } else {
                j += 1;
            }
        }
        if found {
            let port = &input.ports[i];
            let first = &input.ports[j];
            let mut message = String::from_str("Port '");
            message.append(port.name.as_str());
            message.append("' declared multiple times in same entity (first at line ");
            message.append(decimal_text(first.line).as_str());
            message.append(")");
            out.push(
                Violation {
                    rule: String::from_str("duplicate_port_in_entity"),
                    severity: String::from_str("error"),
                    file: entity_file_or_empty(input, port.in_entity.as_str()),
                    line: port.line,
                    message,
                },
            );
        }
        i += 1;
    }
    out
}

/// The file and the lower-case name of an entity, joined by a bar.
pub open spec fn duplicate_entity_in_file_key(input: &Input, entity: &Entity) -> Seq<char> {
    entity.file@ + "|"@ + lower(entity.name@)
}

pub fn duplicate_entity_in_file_key_text(input: &Input, entity: &Entity) -> (key: String)
    ensures
        key@ == duplicate_entity_in_file_key(input, entity),
{
    let mut key = entity.file.clone();
    key.append("|");
    key.append(to_lower(entity.name.as_str()).as_str());
    key
}

/// The first row at or after `j` and before `i` with the key of row `i`; `i`
/// itself if there is none.
pub open spec fn duplicate_entity_in_file_first(input: &Input, i: int, j: int) -> int
    decreases i - j,
{
    if j < 0 || j >= i {
        i
    } else if duplicate_entity_in_file_key(input, &input.entities@[j]) == duplicate_entity_in_file_key(
        input,
        &input.entities@[i],
    ) {
        j
    } else {
        duplicate_entity_in_file_first(input, i, j + 1)
    }
}

/// An entity that repeats the file and name of an earlier entity.
pub open spec fn duplicate_entity_in_file_hit(input: &Input, i: int) -> bool {
    duplicate_entity_in_file_first(input, i, 0) < i
}

pub open spec fn duplicate_entity_in_file_finding(input: &Input, i: int) -> ViolationView {
    let entity = &input.entities@[i];
    let first = &input.entities@[duplicate_entity_in_file_first(input, i, 0)];
    ViolationView {
        rule: "duplicate_entity_in_file"@,
        severity: "error"@,
        file: entity.file@,
        line: entity.line as nat,
        message: "Entity '"@ + entity.name@
            + "' declared multiple times in same file (first at line "@ + decimal(first.line as nat)
            + ")"@,
    }
}

/// The findings for the first `n` rows, in row order.
pub open spec fn duplicate_entity_in_file_upto(input: &Input, n: int) -> Seq<ViolationView>
    decreases n,
{
    if n <= 0 {
        Seq::empty()
    } else {
        let rest = duplicate_entity_in_file_upto(input, n - 1);
        if duplicate_entity_in_file_hit(input, n - 1) {
            rest.push(duplicate_entity_in_file_finding(input, n - 1))
        } else {
            rest
        }
    }
}

pub open spec fn duplicate_entity_in_file_all(input: &Input) -> Seq<ViolationView> {
    duplicate_entity_in_file_upto(input, input.entities@.len() as int)
}

/// The keys of all rows, one per row.
fn duplicate_entity_in_file_keys(input: &Input) -> (keys: Vec<String>)
    ensures
        keys@.len() == input.entities@.len(),
        forall|k: int|
            0 <= k < keys@.len() ==> (#[trigger] keys@[k])@ == duplicate_entity_in_file_key(
                input,
                &input.entities@[k],
            ),
{
    let mut keys: Vec<String> = Vec::new();
    let mut k: usize = 0;
    while k < input.entities.len()
        invariant
            k <= input.entities@.len(),
            keys@.len() == k,
            forall|m: int|
                0 <= m < k ==> (#[trigger] keys@[m])@ == duplicate_entity_in_file_key(input, &input.entities@[m]),
        decreases input.entities@.len() - k,
    {
        let key = duplicate_entity_in_file_key_text(input, &input.entities[k]);
        keys.push(key);
        k += 1;
    }
    keys
}

pub fn duplicate_entity_in_file(input: &Input) -> (out: Vec<Violation>)
    ensures
        views(out@) == duplicate_entity_in_file_all(input),
{
    broadcast use group_views;

    let keys = duplicate_entity_in_file_keys(input);
    let mut out: Vec<Violation> = Vec::new();
    let mut i: usize = 0;
    while i < input.entities.len()
        invariant
            i <= input.entities@.len(),
            keys@.len() == input.entities@.len(),
            forall|k: int|
                0 <= k < keys@.len() ==> (#[trigger] keys@[k])@ == duplicate_entity_in_file_key(
                    input,
                    &input.entities@[k],
                ),
            views(out@) == duplicate_entity_in_file_upto(input, i as int),
        decreases input.entities@.len() - i,
    {
        let mut j: usize = 0;
        let mut found = false;
        while j < i && !found
            invariant
                j <= i < input.entities@.len(),
                keys@.len() == input.entities@.len(),
                forall|k: int|
                    0 <= k < keys@.len() ==> (#[trigger] keys@[k])@ == duplicate_entity_in_file_key(
                        input,
                        &input.entities@[k],
                    ),
                duplicate_entity_in_file_first(input, i as int, 0) == duplicate_entity_in_file_first(input, i as int, j as int),
                found ==> j < i && duplicate_entity_in_file_first(input, i as int, j as int) == j,
            decreases i - j + (if found { 0int } else { 1int }),
        {
            if str_eq(keys[j].as_str(), keys[i].as_str()) {
                found = true;
            } else {
                j += 1;
            }
        }
        if found {
            let entity = &input.entities[i];
            let first = &input.entities[j];
            let mut message = String::from_str("Entity '");
            message.append(entity.name.as_str());
            message.append("' declared multiple times in same file (first at line ");
            message.append(decimal_text(first.line).as_str());
            message.append(")");
            out.push(
                Violation {
                    rule: String::from_str("duplicate_entity_in_file"),
                    severity: String::from_str("error"),
                    file: entity.file.clone(),
                    line: entity.line,
                    message,
                },
            );
        }
        i += 1;
    }
    out
}

/// A conventional loop variable.
pub open spec fn loop_variable(name: Seq<char>) -> bool {
    let l = lower(name);
    l == "i"@ || l == "j"@ || l == "k"@ || l == "n"@ || l == "x"@ || l == "y"@
}

pub fn is_loop_variable(name: &str) -> (r: bool)
    ensures
        r == loop_variable(name@),
{
    let l = lower_chars_of(name);
    chars_are(&l, "i") || chars_are(&l, "j") || chars_are(&l, "k") || chars_are(&l, "n")
        || chars_are(&l, "x") || chars_are(&l, "y")
}

/// Three ports in a row go in, out, in or out, in, out.
pub open spec fn alternates_at(ports: &Vec<Port>, k: int) -> bool {
    (ports@[k].direction@ == "in"@ && ports@[k + 1].direction@ == "out"@ && ports@[k
        + 2].direction@ == "in"@) || (ports@[k].direction@ == "out"@ && ports@[k + 1].direction@
        == "in"@ && ports@[k + 2].direction@ == "out"@)
}

pub open spec fn direction_alternation(ports: &Vec<Port>) -> bool {
    exists|k: int| 0 <= k && k + 2 < ports@.len() && #[trigger] alternates_at(ports, k)
}

pub fn has_direction_alternation(ports: &Vec<Port>) -> (r: bool)
    ensures
        r == direction_alternation(ports),
{
    if ports.len() <= 2 {
        return false;
    }
    let mut k: usize = 0;
    while k < ports.len() - 2
        invariant
            ports@.len() > 2,
            k + 2 <= ports@.len(),
            forall|j: int| 0 <= j < k ==> !#[trigger] alternates_at(ports, j),
        decreases ports@.len() - k,
    {
        let a_in = str_eq(ports[k].direction.as_str(), "in");
        let a_out = str_eq(ports[k].direction.as_str(), "out");
        let b_in = str_eq(ports[k + 1].direction.as_str(), "in");
        let b_out = str_eq(ports[k + 1].direction.as_str(), "out");
        let c_in = str_eq(ports[k + 2].direction.as_str(), "in");
        let c_out = str_eq(ports[k + 2].direction.as_str(), "out");
        if (a_in && b_out && c_in) || (a_out && b_in && c_out) {
            assert(alternates_at(ports, k as int));
            return true;
        }
        k += 1;
    }
    false
}

/// The file of the entity that owns the port.
pub fn entity_file(input: &Input, port: &Port) -> (r: Option<String>)
    ensures
        match r {
            Some(f) => first_entity_named(input, port.in_entity@, 0) < input.entities@.len() && f@
                == entity_file_text(input, port.in_entity@),
            None => first_entity_named(input, port.in_entity@, 0) == input.entities@.len(),
        },
{
    entity_file_of(input, port.in_entity.as_str())
}

} // verus!
