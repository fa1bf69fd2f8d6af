//! Style: size, labels, naming and legacy packages.
use vstd::prelude::*;
use crate::text::{
    contains, decimal, decimal_text, group_texts, holds, lower, lower_chars_of, same, same_name,
    sort_texts, sorted_strings, str_eq, texts,
};
use crate::policy::helpers::{standard_arch_name, is_standard_arch_name};
use crate::policy::input::{Input, Entity, Architecture, Process};
use crate::policy::result::{Violation, ViolationView, views, group_views};

verus! {

/// The style findings that always run.
pub open spec fn violations_all(input: &Input) -> Seq<ViolationView> {
    legacy_packages_all(input)
}

pub fn violations(input: &Input) -> (out: Vec<Violation>)
    ensures
        views(out@) == violations_all(input),
{
    legacy_packages(input)
}

/// The style findings that run only when configured.
pub open spec fn optional_violations_all(input: &Input) -> Seq<ViolationView> {
    large_entity_all(input) + process_label_missing_all(input)
        + architecture_naming_convention_all(input) + empty_architecture_all(input)
        + multiple_entities_per_file_all(input)
}

pub fn optional_violations(input: &Input) -> (out: Vec<Violation>)
    ensures
        views(out@) == optional_violations_all(input),
{
    broadcast use group_views;

    let mut out: Vec<Violation> = Vec::new();
    let mut part = large_entity(input);
    out.append(&mut part);
    let mut part = process_label_missing(input);
    out.append(&mut part);
    let mut part = architecture_naming_convention(input);
    out.append(&mut part);
    let mut part = empty_architecture(input);
    out.append(&mut part);
    let mut part = multiple_entities_per_file(input);
    out.append(&mut part);
    out
}

/// An entity with more than fifty ports.
pub open spec fn large_entity_hit(input: &Input, entity: &Entity) -> bool {
    entity.ports@.len() > 50
}

pub open spec fn large_entity_finding(input: &Input, entity: &Entity) -> ViolationView {
    ViolationView {
        rule: "large_entity"@,
        severity: "info"@,
        file: entity.file@,
        line: entity.line as nat,
        message: "Entity '"@ + entity.name@ + "' has "@ + decimal(entity.ports.len() as nat)
            + " ports - consider breaking into sub-modules"@,
    }
}

/// The findings for the first `n` rows, in row order.
pub open spec fn large_entity_upto(input: &Input, n: int) -> Seq<ViolationView>
    decreases n,
{
    if n <= 0 {
        Seq::empty()
    } else {
        let rest = large_entity_upto(input, n - 1);
        let entity = &input.entities@[n - 1];
        if large_entity_hit(input, entity) {
            rest.push(large_entity_finding(input, entity))
        } else {
            rest
        }
    }
}

pub open spec fn large_entity_all(input: &Input) -> Seq<ViolationView> {
    large_entity_upto(input, input.entities@.len() as int)
}

pub fn large_entity(input: &Input) -> (out: Vec<Violation>)
    ensures
        views(out@) == large_entity_all(input),
{
    broadcast use group_views;

    let mut out: Vec<Violation> = Vec::new();
    let mut i: usize = 0;
    while i < input.entities.len()
        invariant
            i <= input.entities@.len(),
            views(out@) == large_entity_upto(input, i as int),
        decreases input.entities@.len() - i,
    {
        let entity = &input.entities[i];
        if entity.ports.len() > 50 {
            let mut message = String::from_str("Entity '");
            message.append(entity.name.as_str());
            message.append("' has ");
            message.append(decimal_text(entity.ports.len()).as_str());
            message.append(" ports - consider breaking into sub-modules");
            out.push(
                Violation {
                    rule: String::from_str("large_entity"),
                    severity: String::from_str("info"),
                    file: entity.file.clone(),
                    line: entity.line,
                    message,
                },
            );
        }
        i += 1;
    }
    out
}

/// A process without label.
pub open spec fn process_label_missing_hit(input: &Input, proc: &Process) -> bool {
    proc.label@.len() == 0
}

pub open spec fn process_label_missing_finding(input: &Input, proc: &Process) -> ViolationView {
    ViolationView {
        rule: "process_label_missing"@,
        severity: "info"@,
        file: proc.file@,
        line: proc.line as nat,
        message: "Process at line "@ + decimal(proc.line as nat)
            + " has no label - add 'label: process' for debugging"@,
    }
}

/// The findings for the first `n` rows, in row order.
pub open spec fn process_label_missing_upto(input: &Input, n: int) -> Seq<ViolationView>
    decreases n,
{
    if n <= 0 {
        Seq::empty()
    } else {
        let rest = process_label_missing_upto(input, n - 1);
        let proc = &input.processes@[n - 1];
        if process_label_missing_hit(input, proc) {
            rest.push(process_label_missing_finding(input, proc))
        } else {
            rest
        }
    }
}

pub open spec fn process_label_missing_all(input: &Input) -> Seq<ViolationView> {
    process_label_missing_upto(input, input.processes@.len() as int)
}

pub fn process_label_missing(input: &Input) -> (out: Vec<Violation>)
    ensures
        views(out@) == process_label_missing_all(input),
{
    broadcast use group_views;

    let mut out: Vec<Violation> = Vec::new();
    let mut i: usize = 0;
    while i < input.processes.len()
        invariant
            i <= input.processes@.len(),
            views(out@) == process_label_missing_upto(input, i as int),
        decreases input.processes@.len() - i,
    {
        let proc = &input.processes[i];
        if proc.label.as_str().is_empty() {
            let mut message = String::from_str("Process at line ");
            message.append(decimal_text(proc.line).as_str());
            message.append(" has no label - add 'label: process' for debugging");
            out.push(
                Violation {
                    rule: String::from_str("process_label_missing"),
                    severity: String::from_str("info"),
                    file: proc.file.clone(),
                    line: proc.line,
                    message,
                },
            );
        }
        i += 1;
    }
    out
}

/// The file names of all entities, sorted, each once.
pub open spec fn entity_file_names(input: &Input) -> Seq<Seq<char>> {
    distinct_adjacent(sort_texts(entity_files_upto(input, input.entities@.len() as int)))
}

/// The files of the first `n` entities, in record order.
pub open spec fn entity_files_upto(input: &Input, n: int) -> Seq<Seq<char>>
    decreases n,
{
    if n <= 0 {
        Seq::empty()
    } else {
        entity_files_upto(input, n - 1).push(input.entities@[n - 1].file@)
    }
}

/// The list without the elements that repeat their predecessor, up to index `n`.
pub open spec fn distinct_adjacent_upto(s: Seq<Seq<char>>, n: int) -> Seq<Seq<char>>
    decreases n,
{
    if n <= 0 {
        Seq::empty()
    } else if n >= 2 && s[n - 1] == s[n - 2] {
        distinct_adjacent_upto(s, n - 1)
    } else {
        distinct_adjacent_upto(s, n - 1).push(s[n - 1])
    }
}

pub open spec fn distinct_adjacent(s: Seq<Seq<char>>) -> Seq<Seq<char>> {
    distinct_adjacent_upto(s, s.len() as int)
}

pub fn sorted_entity_files(input: &Input) -> (r: Vec<String>)
    ensures
        texts(r@) == entity_file_names(input),
{
    broadcast use group_texts;

    let mut files: Vec<String> = Vec::new();
    let mut i: usize = 0;
    while i < input.entities.len()
        invariant
            i <= input.entities@.len(),
            texts(files@) == entity_files_upto(input, i as int),
        decreases input.entities@.len() - i,
    {
        files.push(input.entities[i].file.clone());
        i += 1;
    }
    let sorted = sorted_strings(&files);
    let mut out: Vec<String> = Vec::new();
    let mut k: usize = 0;
    while k < sorted.len()
        invariant
            k <= sorted@.len(),
            texts(out@) == distinct_adjacent_upto(texts(sorted@), k as int),
        decreases sorted@.len() - k,
    {
        if k == 0 || !str_eq(sorted[k].as_str(), sorted[k - 1].as_str()) {
            out.push(sorted[k].clone());
        }
        k += 1;
    }
    out
}

/// The number of entities in the file.
pub open spec fn entities_in_file_upto(input: &Input, file: Seq<char>, n: int) -> nat
    decreases n,
{
    if n <= 0 {
        0
    } else if ({
        let e = &input.entities@[n - 1];
        e.file@ == file
    }) {
        entities_in_file_upto(input, file, n - 1) + 1
    } else {
        entities_in_file_upto(input, file, n - 1)
    }
}

pub fn entities_in_file(input: &Input, file: &str) -> (r: usize)
    ensures
        r == entities_in_file_upto(input, file@, input.entities@.len() as int),
{
    let mut count: usize = 0;
    let mut i: usize = 0;
    while i < input.entities.len()
        invariant
            i <= input.entities@.len(),
            count <= i,
            count == entities_in_file_upto(input, file@, i as int),
        decreases input.entities@.len() - i,
    {
        let e = &input.entities[i];
        if str_eq(e.file.as_str(), file) {
            count += 1;
        }
        i += 1;
    }
    count
}

/// The first entity in the file.
pub open spec fn first_entity_in_file_from(input: &Input, file: Seq<char>, i: int) -> int
    decreases input.entities@.len() - i,
{
    if i < 0 || i >= input.entities@.len() {
        input.entities@.len() as int
    } else if ({
        let e = &input.entities@[i];
        e.file@ == file
    }) {
        i
    } else {
        first_entity_in_file_from(input, file, i + 1)
    }
}

pub fn first_entity_in_file(input: &Input, file: &str) -> (r: usize)
    ensures
        r == first_entity_in_file_from(input, file@, 0),
        r <= input.entities@.len(),
{
    let mut i: usize = 0;
    while i < input.entities.len()
        invariant
            i <= input.entities@.len(),
            first_entity_in_file_from(input, file@, 0) == first_entity_in_file_from(input, file@, i as int),
        decreases input.entities@.len() - i,
    {
        let e = &input.entities[i];
        if str_eq(e.file.as_str(), file) {
            return i;
        }
        i += 1;
    }
    i
}

pub open spec fn entity_count_in(input: &Input, file: Seq<char>) -> nat {
    entities_in_file_upto(input, file, input.entities@.len() as int)
}

/// The file holds more than one entity.
pub open spec fn crowded_file(input: &Input, file: Seq<char>) -> bool {
    entity_count_in(input, file) > 1 && first_entity_in_file_from(input, file, 0)
        < input.entities@.len()
}

pub open spec fn crowded_file_finding(input: &Input, file: Seq<char>) -> ViolationView {
    ViolationView {
        rule: "multiple_entities_per_file"@,
        severity: "info"@,
        file: file,
        line: input.entities@[first_entity_in_file_from(input, file, 0)].line as nat,
        message: "File contains "@ + decimal(entity_count_in(input, file))
            + " entities - consider one entity per file"@,
    }
}

/// The findings for the first `n` of the given files.
pub open spec fn crowded_files_upto(input: &Input, files: Seq<Seq<char>>, n: int) -> Seq<
    ViolationView,
>
    decreases n,
{
    if n <= 0 {
        Seq::empty()
    } else {
        let rest = crowded_files_upto(input, files, n - 1);
        if crowded_file(input, files[n - 1]) {
            rest.push(crowded_file_finding(input, files[n - 1]))
        } else {
            rest
        }
    }
}

/// One finding for each file that holds several entities, in the order of the file names.
pub open spec fn multiple_entities_per_file_all(input: &Input) -> Seq<ViolationView> {
    crowded_files_upto(input, entity_file_names(input), entity_file_names(input).len() as int)
}

pub fn multiple_entities_per_file(input: &Input) -> (out: Vec<Violation>)
    ensures
        views(out@) == multiple_entities_per_file_all(input),
{
    broadcast use group_views;

    let files = sorted_entity_files(input);
    proof {
        assert(texts(files@).len() == files@.len());
    }
    let mut out: Vec<Violation> = Vec::new();
    let mut i: usize = 0;
    while i < files.len()
        invariant
            i <= files@.len(),
            texts(files@).len() == files@.len(),
            views(out@) == crowded_files_upto(input, texts(files@), i as int),
        decreases files@.len() - i,
    {
        let file = &files[i];
        proof {
            assert(texts(files@)[i as int] == file@);
        }
        let count = entities_in_file(input, file.as_str());
        let first = first_entity_in_file(input, file.as_str());
        if count > 1 && first < input.entities.len() {
            let mut message = String::from_str("File contains ");
            message.append(decimal_text(count).as_str());
            message.append(" entities - consider one entity per file");
            out.push(
                Violation {
                    rule: String::from_str("multiple_entities_per_file"),
                    severity: String::from_str("info"),
                    file: file.clone(),
                    line: input.entities[first].line,
                    message,
                },
            );
        }
        i += 1;
    }
    out
}

/// Which non-standard package a dependency target names, by the first match.
pub open spec fn legacy_package_message(target: Seq<char>) -> Option<Seq<char>> {
    let l = lower(target);
    if contains(l, "std_logic_arith"@) {
        Some("Using std_logic_arith (non-standard) - use ieee.numeric_std instead"@)
    } else if contains(l, "std_logic_unsigned"@) {
        Some("Using std_logic_unsigned (non-standard) - use ieee.numeric_std instead"@)
    } else if contains(l, "std_logic_signed"@) {
        Some("Using std_logic_signed (non-standard) - use ieee.numeric_std instead"@)
    } else {
        None
    }
}

pub fn legacy_package_text(target: &str) -> (r: Option<String>)
    ensures
        match r {
            Some(m) => legacy_package_message(target@) == Some(m@),
            None => legacy_package_message(target@).is_none(),
        },
{
    let l = lower_chars_of(target);
    if holds(&l, "std_logic_arith") {
        Some(String::from_str("Using std_logic_arith (non-standard) - use ieee.numeric_std instead"))
    } else if holds(&l, "std_logic_unsigned") {
        Some(
            String::from_str(
                "Using std_logic_unsigned (non-standard) - use ieee.numeric_std instead",
            ),
        )
    } else if holds(&l, "std_logic_signed") {
        Some(String::from_str("Using std_logic_signed (non-standard) - use ieee.numeric_std instead"))
    } else {
        None
    }
}

/// A dependency on one of the non-standard arithmetic packages.
pub open spec fn legacy_packages_upto(input: &Input, n: int) -> Seq<ViolationView>
    decreases n,
{
    if n <= 0 {
        Seq::empty()
    } else {
        let rest = legacy_packages_upto(input, n - 1);
        let dep = &input.dependencies@[n - 1];
        match legacy_package_message(dep.target@) {
            Some(m) => rest.push(
                ViolationView {
                    rule: "legacy_packages"@,
                    severity: "warning"@,
                    file: dep.source@,
                    line: dep.line as nat,
                    message: m,
                },
            ),
            None => rest,
        }
    }
}

pub open spec fn legacy_packages_all(input: &Input) -> Seq<ViolationView> {
    legacy_packages_upto(input, input.dependencies@.len() as int)
}

pub fn legacy_packages(input: &Input) -> (out: Vec<Violation>)
    ensures
        views(out@) == legacy_packages_all(input),
{
    broadcast use group_views;

    let mut out: Vec<Violation> = Vec::new();
    let mut i: usize = 0;
    while i < input.dependencies.len()
        invariant
            i <= input.dependencies@.len(),
            views(out@) == legacy_packages_upto(input, i as int),
        decreases input.dependencies@.len() - i,
    {
        let dep = &input.dependencies[i];
        match legacy_package_text(dep.target.as_str()) {
            Some(message) => {
                out.push(
                    Violation {
                        rule: String::from_str("legacy_packages"),
                        severity: String::from_str("warning"),
                        file: dep.source.clone(),
                        line: dep.line,
                        message,
                    },
                );
            },
            None => {},
        }
        i += 1;
    }
    out
}

/// An architecture with a non-standard name.
pub open spec fn architecture_naming_convention_hit(input: &Input, arch: &Architecture) -> bool {
    !standard_arch_name(arch.name@)
}

pub open spec fn architecture_naming_convention_finding(input: &Input, arch: &Architecture) -> ViolationView {
    ViolationView {
        rule: "architecture_naming_convention"@,
        severity: "info"@,
        file: arch.file@,
        line: arch.line as nat,
        message: "Architecture '"@ + arch.name@
            + "' uses non-standard name - consider rtl, behavioral, or structural"@,
    }
}

/// The findings for the first `n` rows, in row order.
pub open spec fn architecture_naming_convention_upto(input: &Input, n: int) -> Seq<ViolationView>
    decreases n,
{
    if n <= 0 {
        Seq::empty()
    } else {
        let rest = architecture_naming_convention_upto(input, n - 1);
        let arch = &input.architectures@[n - 1];
        if architecture_naming_convention_hit(input, arch) {
            rest.push(architecture_naming_convention_finding(input, arch))
        } else {
            rest
        }
    }
}

pub open spec fn architecture_naming_convention_all(input: &Input) -> Seq<ViolationView> {
    architecture_naming_convention_upto(input, input.architectures@.len() as int)
}

pub fn architecture_naming_convention(input: &Input) -> (out: Vec<Violation>)
    ensures
        views(out@) == architecture_naming_convention_all(input),
{
    broadcast use group_views;

    let mut out: Vec<Violation> = Vec::new();
    let mut i: usize = 0;
    while i < input.architectures.len()
        invariant
            i <= input.architectures@.len(),
            views(out@) == architecture_naming_convention_upto(input, i as int),
        decreases input.architectures@.len() - i,
    {
        let arch = &input.architectures[i];
        if !is_standard_arch_name(arch.name.as_str()) {
            let mut message = String::from_str("Architecture '");
            message.append(arch.name.as_str());
            message.append("' uses non-standard name - consider rtl, behavioral, or structural");
            out.push(
                Violation {
                    rule: String::from_str("architecture_naming_convention"),
                    severity: String::from_str("info"),
                    file: arch.file.clone(),
                    line: arch.line,
                    message,
                },
            );
        }
        i += 1;
    }
    out
}

/// Some signal is declared in the architecture.
pub open spec fn signal_in(input: &Input, arch: Seq<char>) -> bool {
    exists|i: int|
        #![trigger input.signals@[i]]
        0 <= i < input.signals@.len() && ({
            let s = &input.signals@[i];
            same_name(s.in_entity@, arch)
        })
}

pub fn has_signal_in(input: &Input, arch: &str) -> (r: bool)
    ensures
        r == signal_in(input, arch@),
{
    let mut i: usize = 0;
    while i < input.signals.len()
        invariant
            i <= input.signals@.len(),
            forall|j: int|
                #![trigger input.signals@[j]]
                0 <= j < i ==> !({
                    let s = &input.signals@[j];
                    same_name(s.in_entity@, arch@)
                }),
        decreases input.signals@.len() - i,
    {
        let s = &input.signals[i];
        if same(s.in_entity.as_str(), arch) {
            return true;
        }
        i += 1;
    }
    false
}

/// Some instance lies in the architecture.
pub open spec fn instance_in(input: &Input, arch: Seq<char>) -> bool {
    exists|i: int|
        #![trigger input.instances@[i]]
        0 <= i < input.instances@.len() && ({
            let inst = &input.instances@[i];
            same_name(inst.in_arch@, arch)
        })
}

pub fn has_instance_in(input: &Input, arch: &str) -> (r: bool)
    ensures
        r == instance_in(input, arch@),
{
    let mut i: usize = 0;
    while i < input.instances.len()
        invariant
            i <= input.instances@.len(),
            forall|j: int|
                #![trigger input.instances@[j]]
                0 <= j < i ==> !({
                    let inst = &input.instances@[j];
                    same_name(inst.in_arch@, arch@)
                }),
        decreases input.instances@.len() - i,
    {
        let inst = &input.instances[i];
        if same(inst.in_arch.as_str(), arch) {
            return true;
        }
        i += 1;
    }
    false
}

/// Some process lies in the architecture.
pub open spec fn process_in(input: &Input, arch: Seq<char>) -> bool {
    exists|i: int|
        #![trigger input.processes@[i]]
        0 <= i < input.processes@.len() && ({
            let p = &input.processes@[i];
            same_name(p.in_arch@, arch)
        })
}

pub fn has_process_in(input: &Input, arch: &str) -> (r: bool)
    ensures
        r == process_in(input, arch@),
{
    let mut i: usize = 0;
    while i < input.processes.len()
        invariant
            i <= input.processes@.len(),
            forall|j: int|
                #![trigger input.processes@[j]]
                0 <= j < i ==> !({
                    let p = &input.processes@[j];
                    same_name(p.in_arch@, arch@)
                }),
        decreases input.processes@.len() - i,
    {
        let p = &input.processes[i];
        if same(p.in_arch.as_str(), arch) {
            return true;
        }
        i += 1;
    }
    false
}

/// Some concurrent assignment lies in the architecture.
pub open spec fn assignment_in(input: &Input, arch: Seq<char>) -> bool {
    exists|i: int|
        #![trigger input.concurrent_assignments@[i]]
        0 <= i < input.concurrent_assignments@.len() && ({
            let a = &input.concurrent_assignments@[i];
            same_name(a.in_arch@, arch)
        })
}

pub fn has_assignment_in(input: &Input, arch: &str) -> (r: bool)
    ensures
        r == assignment_in(input, arch@),
{
    let mut i: usize = 0;
    while i < input.concurrent_assignments.len()
        invariant
            i <= input.concurrent_assignments@.len(),
            forall|j: int|
                #![trigger input.concurrent_assignments@[j]]
                0 <= j < i ==> !({
                    let a = &input.concurrent_assignments@[j];
                    same_name(a.in_arch@, arch@)
                }),
        decreases input.concurrent_assignments@.len() - i,
    {
        let a = &input.concurrent_assignments[i];
        if same(a.in_arch.as_str(), arch) {
            return true;
        }
        i += 1;
    }
    false
}

/// An architecture without signals, instances, processes and concurrent assignments.
pub open spec fn empty_architecture_hit(input: &Input, arch: &Architecture) -> bool {
    !signal_in(input, arch.name@) && !instance_in(input, arch.name@)
        && !process_in(input, arch.name@) && !assignment_in(input, arch.name@)
}

pub open spec fn empty_architecture_finding(input: &Input, arch: &Architecture) -> ViolationView {
    ViolationView {
        rule: "empty_architecture"@,
        severity: "warning"@,
        file: arch.file@,
        line: arch.line as nat,
        message: "Architecture '"@ + arch.name@
            + "' is empty (no signals, instances, or processes)"@,
    }
}

/// The findings for the first `n` rows, in row order.
pub open spec fn empty_architecture_upto(input: &Input, n: int) -> Seq<ViolationView>
    decreases n,
{
    if n <= 0 {
        Seq::empty()
    } else {
        let rest = empty_architecture_upto(input, n - 1);
        let arch = &input.architectures@[n - 1];
        if empty_architecture_hit(input, arch) {
            rest.push(empty_architecture_finding(input, arch))
        } else {
            rest
        }
    }
}

pub open spec fn empty_architecture_all(input: &Input) -> Seq<ViolationView> {
    empty_architecture_upto(input, input.architectures@.len() as int)
}

pub fn empty_architecture(input: &Input) -> (out: Vec<Violation>)
    ensures
        views(out@) == empty_architecture_all(input),
{
    broadcast use group_views;

    let mut out: Vec<Violation> = Vec::new();
    let mut i: usize = 0;
    while i < input.architectures.len()
        invariant
            i <= input.architectures@.len(),
            views(out@) == empty_architecture_upto(input, i as int),
        decreases input.architectures@.len() - i,
    {
        let arch = &input.architectures[i];
        if !has_signal_in(input, arch.name.as_str()) && !has_instance_in(input, arch.name.as_str())
            && !has_process_in(input, arch.name.as_str())
            && !has_assignment_in(input, arch.name.as_str()) {
            let mut message = String::from_str("Architecture '");
            message.append(arch.name.as_str());
            message.append("' is empty (no signals, instances, or processes)");
            out.push(
                Violation {
                    rule: String::from_str("empty_architecture"),
                    severity: String::from_str("warning"),
                    file: arch.file.clone(),
                    line: arch.line,
                    message,
                },
            );
        }
        i += 1;
    }
    out
}

} // verus!
