//! Design units: missing ports, dangling references and duplicates.
use vstd::prelude::*;
use crate::text::{
    after_last, chars_after_last, chars_of, decimal, decimal_text, lower, lower_chars, same,
    same_name, str_eq, string_of, to_lower,
};
use crate::policy::helpers::{
    testbench_name, is_testbench_name, entity_known, testbench_file, file_in_testbench,
    third_party_file, is_third_party_file,
};
use crate::policy::input::{
    Input, Entity, Architecture, Component, Dependency, CaseStatement, Package, FileInfo,
};
use crate::policy::result::{Violation, ViolationView, views, group_views};
use crate::policy::map::StringMap;

verus! {

/// The findings about design units: entities, architectures, components, dependencies.
pub open spec fn violations_all(input: &Input) -> Seq<ViolationView> {
    missing_ports_all(input) + orphan_architecture_all(input) + unresolved_component_all(input)
        + unresolved_dependency_all(input) + potential_latch_all(input)
        + entity_without_arch_all(input) + duplicate_entity_in_library_all(input)
        + duplicate_package_in_library_all(input)
}

pub fn violations(input: &Input) -> (out: Vec<Violation>)
    ensures
        views(out@) == violations_all(input),
{
    broadcast use group_views;

    let mut out: Vec<Violation> = Vec::new();
    let mut part = missing_ports(input);
    out.append(&mut part);
    let mut part = orphan_architecture(input);
    out.append(&mut part);
    let mut part = unresolved_component(input);
    out.append(&mut part);
    let mut part = unresolved_dependency(input);
    out.append(&mut part);
    let mut part = potential_latch(input);
    out.append(&mut part);
    let mut part = entity_without_arch(input);
    out.append(&mut part);
    let mut part = duplicate_entity_in_library(input);
    out.append(&mut part);
    let mut part = duplicate_package_in_library(input);
    out.append(&mut part);
    out
}

/// An entity without ports whose name does not mark a testbench.
pub open spec fn missing_ports_hit(input: &Input, entity: &Entity) -> bool {
    entity.ports@.len() == 0 && !testbench_name(entity.name@)
}

pub open spec fn missing_ports_finding(input: &Input, entity: &Entity) -> ViolationView {
    ViolationView {
        rule: "entity_has_ports"@,
        severity: "warning"@,
        file: entity.file@,
        line: entity.line as nat,
        message: "Entity '"@ + entity.name@ + "' has no ports defined"@,
    }
}

/// The findings for the first `n` rows, in row order.
pub open spec fn missing_ports_upto(input: &Input, n: int) -> Seq<ViolationView>
    decreases n,
{
    if n <= 0 {
        Seq::empty()
    } else {
        let rest = missing_ports_upto(input, n - 1);
        let entity = &input.entities@[n - 1];
        if missing_ports_hit(input, entity) {
            rest.push(missing_ports_finding(input, entity))
        } else {
            rest
        }
    }
}

pub open spec fn missing_ports_all(input: &Input) -> Seq<ViolationView> {
    missing_ports_upto(input, input.entities@.len() as int)
}

pub fn missing_ports(input: &Input) -> (out: Vec<Violation>)
    ensures
        views(out@) == missing_ports_all(input),
{
    broadcast use group_views;

    let mut out: Vec<Violation> = Vec::new();
    let mut i: usize = 0;
    while i < input.entities.len()
        invariant
            i <= input.entities@.len(),
            views(out@) == missing_ports_upto(input, i as int),
        decreases input.entities@.len() - i,
    {
        let entity = &input.entities[i];
        if entity.ports.len() == 0 && !is_testbench_name(entity.name.as_str()) {
            let mut message = String::from_str("Entity '");
            message.append(entity.name.as_str());
            message.append("' has no ports defined");
            out.push(
                Violation {
                    rule: String::from_str("entity_has_ports"),
                    severity: String::from_str("warning"),
                    file: entity.file.clone(),
                    line: entity.line,
                    message,
                },
            );
        }
        i += 1;
    }
    out
}

/// An architecture whose entity is not in the store.
pub open spec fn orphan_architecture_hit(input: &Input, arch: &Architecture) -> bool {
    !entity_known(input, arch.entity_name@)
}

pub open spec fn orphan_architecture_finding(input: &Input, arch: &Architecture) -> ViolationView {
    ViolationView {
        rule: "architecture_has_entity"@,
        severity: "error"@,
        file: arch.file@,
        line: arch.line as nat,
        message: "Architecture '"@ + arch.name@ + "' references undefined entity '"@
            + arch.entity_name@ + "'"@,
    }
}

/// The findings for the first `n` rows, in row order.
pub open spec fn orphan_architecture_upto(input: &Input, n: int) -> Seq<ViolationView>
    decreases n,
{
    if n <= 0 {
        Seq::empty()
    } else {
        let rest = orphan_architecture_upto(input, n - 1);
        let arch = &input.architectures@[n - 1];
        if orphan_architecture_hit(input, arch) {
            rest.push(orphan_architecture_finding(input, arch))
        } else {
            rest
        }
    }
}

pub open spec fn orphan_architecture_all(input: &Input) -> Seq<ViolationView> {
    orphan_architecture_upto(input, input.architectures@.len() as int)
}

pub fn orphan_architecture(input: &Input) -> (out: Vec<Violation>)
    ensures
        views(out@) == orphan_architecture_all(input),
{
    broadcast use group_views;

    let mut out: Vec<Violation> = Vec::new();
    let mut i: usize = 0;
    while i < input.architectures.len()
        invariant
            i <= input.architectures@.len(),
            views(out@) == orphan_architecture_upto(input, i as int),
        decreases input.architectures@.len() - i,
    {
        let arch = &input.architectures[i];
        if !entity_exists(input, arch.entity_name.as_str()) {
            let mut message = String::from_str("Architecture '");
            message.append(arch.name.as_str());
            message.append("' references undefined entity '");
            message.append(arch.entity_name.as_str());
            message.append("'");
            out.push(
                Violation {
                    rule: String::from_str("architecture_has_entity"),
                    severity: String::from_str("error"),
                    file: arch.file.clone(),
                    line: arch.line,
                    message,
                },
            );
        }
        i += 1;
    }
    out
}

/// A component instantiation whose target is neither an entity nor a declared component.
pub open spec fn unresolved_component_hit(input: &Input, comp: &Component) -> bool {
    comp.is_instance && comp.entity_ref@.len() > 0 && !component_target_known(input, comp)
}

pub open spec fn unresolved_component_finding(input: &Input, comp: &Component) -> ViolationView {
    ViolationView {
        rule: "component_resolved"@,
        severity: "warning"@,
        file: comp.file@,
        line: comp.line as nat,
        message: "Component instance '"@ + comp.name@ + "' references undefined '"@
            + comp.entity_ref@ + "'"@,
    }
}

/// The findings for the first `n` rows, in row order.
pub open spec fn unresolved_component_upto(input: &Input, n: int) -> Seq<ViolationView>
    decreases n,
{
    if n <= 0 {
        Seq::empty()
    } else {
        let rest = unresolved_component_upto(input, n - 1);
        let comp = &input.components@[n - 1];
        if unresolved_component_hit(input, comp) {
            rest.push(unresolved_component_finding(input, comp))
        } else {
            rest
        }
    }
}

pub open spec fn unresolved_component_all(input: &Input) -> Seq<ViolationView> {
    unresolved_component_upto(input, input.components@.len() as int)
}

pub fn unresolved_component(input: &Input) -> (out: Vec<Violation>)
    ensures
        views(out@) == unresolved_component_all(input),
{
    broadcast use group_views;

    let mut out: Vec<Violation> = Vec::new();
    let mut i: usize = 0;
    while i < input.components.len()
        invariant
            i <= input.components@.len(),
            views(out@) == unresolved_component_upto(input, i as int),
        decreases input.components@.len() - i,
    {
        let comp = &input.components[i];
        if comp.is_instance && !comp.entity_ref.as_str().is_empty()
            && !component_or_entity_exists(input, comp) {
            let mut message = String::from_str("Component instance '");
            message.append(comp.name.as_str());
            message.append("' references undefined '");
            message.append(comp.entity_ref.as_str());
            message.append("'");
            out.push(
                Violation {
                    rule: String::from_str("component_resolved"),
                    severity: String::from_str("warning"),
                    file: comp.file.clone(),
                    line: comp.line,
                    message,
                },
            );
        }
        i += 1;
    }
    out
}

/// An instantiation dependency that was not resolved.
pub open spec fn unresolved_dependency_hit(input: &Input, dep: &Dependency) -> bool {
    !dep.resolved && dep.kind@ == "instantiation"@
}

pub open spec fn unresolved_dependency_finding(input: &Input, dep: &Dependency) -> ViolationView {
    ViolationView {
        rule: "unresolved_dependency"@,
        severity: "error"@,
        file: dep.source@,
        line: dep.line as nat,
        message: "Unresolved dependency: '"@ + dep.target@ + "'"@,
    }
}

/// The findings for the first `n` rows, in row order.
pub open spec fn unresolved_dependency_upto(input: &Input, n: int) -> Seq<ViolationView>
    decreases n,
{
    if n <= 0 {
        Seq::empty()
    } else {
        let rest = unresolved_dependency_upto(input, n - 1);
        let dep = &input.dependencies@[n - 1];
        if unresolved_dependency_hit(input, dep) {
            rest.push(unresolved_dependency_finding(input, dep))
        } else {
            rest
        }
    }
}

pub open spec fn unresolved_dependency_all(input: &Input) -> Seq<ViolationView> {
    unresolved_dependency_upto(input, input.dependencies@.len() as int)
}

pub fn unresolved_dependency(input: &Input) -> (out: Vec<Violation>)
    ensures
        views(out@) == unresolved_dependency_all(input),
{
    broadcast use group_views;

    let mut out: Vec<Violation> = Vec::new();
    let mut i: usize = 0;
    while i < input.dependencies.len()
        invariant
            i <= input.dependencies@.len(),
            views(out@) == unresolved_dependency_upto(input, i as int),
        decreases input.dependencies@.len() - i,
    {
        let dep = &input.dependencies[i];
        if !dep.resolved && str_eq(dep.kind.as_str(), "instantiation") {
            let mut message = String::from_str("Unresolved dependency: '");
            message.append(dep.target.as_str());
            message.append("'");
            out.push(
                Violation {
                    rule: String::from_str("unresolved_dependency"),
                    severity: String::from_str("error"),
                    file: dep.source.clone(),
                    line: dep.line,
                    message,
                },
            );
        }
        i += 1;
    }
    out
}

/// A case statement without `others` in a combinational process outside testbenches.
pub open spec fn potential_latch_hit(input: &Input, cs: &CaseStatement) -> bool {
    !cs.has_others && case_in_combinational(input, cs) && !testbench_file(input, cs.file@)
}

pub open spec fn potential_latch_finding(input: &Input, cs: &CaseStatement) -> ViolationView {
    ViolationView {
        rule: "potential_latch"@,
        severity: "warning"@,
        file: cs.file@,
        line: cs.line as nat,
        message: "Case statement on '"@ + cs.expression@
            + "' missing 'when others =>' (potential latch in process '"@ + cs.in_process@ + "')"@,
    }
}

/// The findings for the first `n` rows, in row order.
pub open spec fn potential_latch_upto(input: &Input, n: int) -> Seq<ViolationView>
    decreases n,
{
    if n <= 0 {
        Seq::empty()
    } else {
        let rest = potential_latch_upto(input, n - 1);
        let cs = &input.case_statements@[n - 1];
        if potential_latch_hit(input, cs) {
            rest.push(potential_latch_finding(input, cs))
        } else {
            rest
        }
    }
}

pub open spec fn potential_latch_all(input: &Input) -> Seq<ViolationView> {
    potential_latch_upto(input, input.case_statements@.len() as int)
}

pub fn potential_latch(input: &Input) -> (out: Vec<Violation>)
    ensures
        views(out@) == potential_latch_all(input),
{
    broadcast use group_views;

    let mut out: Vec<Violation> = Vec::new();
    let mut i: usize = 0;
    while i < input.case_statements.len()
        invariant
            i <= input.case_statements@.len(),
            views(out@) == potential_latch_upto(input, i as int),
        decreases input.case_statements@.len() - i,
    {
        let cs = &input.case_statements[i];
        if !cs.has_others && case_in_combinational_process(input, cs)
            && !file_in_testbench(input, cs.file.as_str()) {
            let mut message = String::from_str("Case statement on '");
            message.append(cs.expression.as_str());
            message.append("' missing 'when others =>' (potential latch in process '");
            message.append(cs.in_process.as_str());
            message.append("')");
            out.push(
                Violation {
                    rule: String::from_str("potential_latch"),
                    severity: String::from_str("warning"),
                    file: cs.file.clone(),
                    line: cs.line,
                    message,
                },
            );
        }
        i += 1;
    }
    out
}

/// Some combinational process of the same architecture carries the label
/// that the case statement names.
pub open spec fn case_in_combinational(input: &Input, cs: &CaseStatement) -> bool {
    cs.in_process@.len() > 0 && exists|i: int|
        0 <= i < input.processes@.len()
            && same_name((#[trigger] input.processes@[i]).label@, cs.in_process@)
            && same_name(input.processes@[i].in_arch@, cs.in_arch@)
                && input.processes@[i].is_combinational
}

pub fn case_in_combinational_process(input: &Input, cs: &CaseStatement) -> (r: bool)
    ensures
        r == case_in_combinational(input, cs),
{
    if cs.in_process.as_str().is_empty() {
        return false;
    }
    let mut i: usize = 0;
    while i < input.processes.len()
        invariant
            i <= input.processes@.len(),
            cs.in_process@.len() > 0,
            forall|j: int|
                0 <= j < i ==> !(same_name((#[trigger] input.processes@[j]).label@, cs.in_process@)
                    && same_name(input.processes@[j].in_arch@, cs.in_arch@)
                    && input.processes@[j].is_combinational),
        decreases input.processes@.len() - i,
    {
        let p = &input.processes[i];
        if same(p.label.as_str(), cs.in_process.as_str()) && same(
            p.in_arch.as_str(),
            cs.in_arch.as_str(),
        ) && p.is_combinational {
            return true;
        }
        i += 1;
    }
    false
}

/// An entity that no architecture implements.
pub open spec fn entity_without_arch_hit(input: &Input, entity: &Entity) -> bool {
    !architecture_known(input, entity.name@)
}

pub open spec fn entity_without_arch_finding(input: &Input, entity: &Entity) -> ViolationView {
    ViolationView {
        rule: "entity_without_arch"@,
        severity: "warning"@,
        file: entity.file@,
        line: entity.line as nat,
        message: "Entity '"@ + entity.name@ + "' has no architecture defined"@,
    }
}

/// The findings for the first `n` rows, in row order.
pub open spec fn entity_without_arch_upto(input: &Input, n: int) -> Seq<ViolationView>
    decreases n,
{
    if n <= 0 {
        Seq::empty()
    } else {
        let rest = entity_without_arch_upto(input, n - 1);
        let entity = &input.entities@[n - 1];
        if entity_without_arch_hit(input, entity) {
            rest.push(entity_without_arch_finding(input, entity))
        } else {
            rest
        }
    }
}

pub open spec fn entity_without_arch_all(input: &Input) -> Seq<ViolationView> {
    entity_without_arch_upto(input, input.entities@.len() as int)
}

pub fn entity_without_arch(input: &Input) -> (out: Vec<Violation>)
    ensures
        views(out@) == entity_without_arch_all(input),
{
    broadcast use group_views;

    let mut out: Vec<Violation> = Vec::new();
    let mut i: usize = 0;
    while i < input.entities.len()
        invariant
            i <= input.entities@.len(),
            views(out@) == entity_without_arch_upto(input, i as int),
        decreases input.entities@.len() - i,
    {
        let entity = &input.entities[i];
        if !has_architecture(input, entity.name.as_str()) {
            let mut message = String::from_str("Entity '");
            message.append(entity.name.as_str());
            message.append("' has no architecture defined");
            out.push(
                Violation {
                    rule: String::from_str("entity_without_arch"),
                    severity: String::from_str("warning"),
                    file: entity.file.clone(),
                    line: entity.line,
                    message,
                },
            );
        }
        i += 1;
    }
    out
}

/// Whether two entities lie in the same library under the same name.
pub open spec fn same_entity_key(input: &Input, a: &Entity, b: &Entity) -> bool {
    library_of(input, a.file@) == library_of(input, b.file@) && same_name(a.name@, b.name@)
}

/// The first entity at or after `j` and before `i` that is not third-party
/// and has the key of entity `i`; `i` itself if there is none.
pub open spec fn first_entity_with_key(input: &Input, i: int, j: int) -> int
    decreases i - j,
{
    if j < 0 || j >= i {
        i
    } else if !third_party_file(input, input.entities@[j].file@) && same_entity_key(
        input,
        &input.entities@[j],
        &input.entities@[i],
    ) {
        j
    } else {
        first_entity_with_key(input, i, j + 1)
    }
}

/// entity `i` repeats an earlier entity of its library that lies in another file.
pub open spec fn duplicate_entity_hit(input: &Input, i: int) -> bool {
    let first = first_entity_with_key(input, i, 0);
    !third_party_file(input, input.entities@[i].file@) && first < i && input.entities@[first].file@
        != input.entities@[i].file@
}

pub open spec fn duplicate_entity_finding(input: &Input, i: int) -> ViolationView {
    let unit = &input.entities@[i];
    let first = &input.entities@[first_entity_with_key(input, i, 0)];
    ViolationView {
        rule: "duplicate_entity_in_library"@,
        severity: "error"@,
        file: unit.file@,
        line: unit.line as nat,
        message: "Entity '"@ + unit.name@ + "' is defined multiple times in library '"@
            + library_of(
            input,
            unit.file@,
        ) + "' (first seen at "@ + first.file@ + ":"@ + decimal(first.line as nat) + ")"@,
    }
}

/// The findings for the first `n` entity records, in record order.
pub open spec fn duplicate_entity_in_library_upto(input: &Input, n: int) -> Seq<ViolationView>
    decreases n,
{
    if n <= 0 {
        Seq::empty()
    } else {
        let rest = duplicate_entity_in_library_upto(input, n - 1);
        if duplicate_entity_hit(input, n - 1) {
            rest.push(duplicate_entity_finding(input, n - 1))
        } else {
            rest
        }
    }
}

pub open spec fn duplicate_entity_in_library_all(input: &Input) -> Seq<ViolationView> {
    duplicate_entity_in_library_upto(input, input.entities@.len() as int)
}

/// The libraries of the entity records, one per record.
fn entity_libraries(input: &Input) -> (libs: Vec<String>)
    ensures
        libs@.len() == input.entities@.len(),
        forall|k: int|
            0 <= k < libs@.len() ==> (#[trigger] libs@[k])@ == library_of(
                input,
                input.entities@[k].file@,
            ),
{
    let lib_map = file_library_map(input);
    let mut libs: Vec<String> = Vec::new();
    let mut k: usize = 0;
    while k < input.entities.len()
        invariant
            k <= input.entities@.len(),
            libs@.len() == k,
            maps_libraries(input, &lib_map),
            forall|m: int|
                0 <= m < k ==> (#[trigger] libs@[m])@ == library_of(input, input.entities@[m].file@),
        decreases input.entities@.len() - k,
    {
        let lib = library_for_file(&lib_map, input.entities[k].file.as_str());
        libs.push(lib);
        k += 1;
    }
    libs
}

/// A entity defined again in the same library, in another file than the first.
pub fn duplicate_entity_in_library(input: &Input) -> (out: Vec<Violation>)
    ensures
        views(out@) == duplicate_entity_in_library_all(input),
{
    broadcast use group_views;

    let libs = entity_libraries(input);
    let mut out: Vec<Violation> = Vec::new();
    let mut i: usize = 0;
    while i < input.entities.len()
        invariant
            i <= input.entities@.len(),
            libs@.len() == input.entities@.len(),
            forall|k: int|
                0 <= k < libs@.len() ==> (#[trigger] libs@[k])@ == library_of(
                    input,
                    input.entities@[k].file@,
                ),
            views(out@) == duplicate_entity_in_library_upto(input, i as int),
        decreases input.entities@.len() - i,
    {
        let unit = &input.entities[i];
        if !is_third_party_file(input, unit.file.as_str()) {
            let mut j: usize = 0;
            let mut found = false;
            while j < i && !found
                invariant
                    j <= i < input.entities@.len(),
                    libs@.len() == input.entities@.len(),
                    forall|k: int|
                        0 <= k < libs@.len() ==> (#[trigger] libs@[k])@ == library_of(
                            input,
                            input.entities@[k].file@,
                        ),
                    first_entity_with_key(input, i as int, 0) == first_entity_with_key(
                        input,
                        i as int,
                        j as int,
                    ),
                    found ==> j < i && first_entity_with_key(input, i as int, j as int) == j,
                decreases i - j + (if found { 0int } else { 1int }),
            {
                let other = &input.entities[j];
                if !is_third_party_file(input, other.file.as_str()) && str_eq(
                    libs[j].as_str(),
                    libs[i].as_str(),
                ) && same(other.name.as_str(), input.entities[i].name.as_str()) {
                    found = true;
                } else {
                    j += 1;
                }
            }
            if j < i && !str_eq(input.entities[j].file.as_str(), unit.file.as_str()) {
                let first = &input.entities[j];
                let mut message = String::from_str("Entity '");
                message.append(unit.name.as_str());
                message.append("' is defined multiple times in library '");
                message.append(libs[i].as_str());
                message.append("' (first seen at ");
                message.append(first.file.as_str());
                message.append(":");
                message.append(decimal_text(first.line).as_str());
                message.append(")");
                out.push(
                    Violation {
                        rule: String::from_str("duplicate_entity_in_library"),
                        severity: String::from_str("error"),
                        file: unit.file.clone(),
                        line: unit.line,
                        message,
                    },
                );
            }
        }
        i += 1;
    }
    out
}

/// Whether two packages lie in the same library under the same name.
pub open spec fn same_package_key(input: &Input, a: &Package, b: &Package) -> bool {
    library_of(input, a.file@) == library_of(input, b.file@) && same_name(a.name@, b.name@)
}

/// The first package at or after `j` and before `i` that is not third-party
/// and has the key of package `i`; `i` itself if there is none.
pub open spec fn first_package_with_key(input: &Input, i: int, j: int) -> int
    decreases i - j,
{
    if j < 0 || j >= i {
        i
    } else if !third_party_file(input, input.packages@[j].file@) && same_package_key(
        input,
        &input.packages@[j],
        &input.packages@[i],
    ) {
        j
    } else {
        first_package_with_key(input, i, j + 1)
    }
}

/// package `i` repeats an earlier package of its library that lies in another file.
pub open spec fn duplicate_package_hit(input: &Input, i: int) -> bool {
    let first = first_package_with_key(input, i, 0);
    !third_party_file(input, input.packages@[i].file@) && first < i && input.packages@[first].file@
        != input.packages@[i].file@
}

pub open spec fn duplicate_package_finding(input: &Input, i: int) -> ViolationView {
    let unit = &input.packages@[i];
    let first = &input.packages@[first_package_with_key(input, i, 0)];
    ViolationView {
        rule: "duplicate_package_in_library"@,
        severity: "error"@,
        file: unit.file@,
        line: unit.line as nat,
        message: "Package '"@ + unit.name@ + "' is defined multiple times in library '"@
            + library_of(
            input,
            unit.file@,
        ) + "' (first seen at "@ + first.file@ + ":"@ + decimal(first.line as nat) + ")"@,
    }
}

/// The findings for the first `n` package records, in record order.
pub open spec fn duplicate_package_in_library_upto(input: &Input, n: int) -> Seq<ViolationView>
    decreases n,
{
    if n <= 0 {
        Seq::empty()
    } else {
        let rest = duplicate_package_in_library_upto(input, n - 1);
        if duplicate_package_hit(input, n - 1) {
            rest.push(duplicate_package_finding(input, n - 1))
        } else {
            rest
        }
    }
}

pub open spec fn duplicate_package_in_library_all(input: &Input) -> Seq<ViolationView> {
    duplicate_package_in_library_upto(input, input.packages@.len() as int)
}

/// The libraries of the package records, one per record.
fn package_libraries(input: &Input) -> (libs: Vec<String>)
    ensures
        libs@.len() == input.packages@.len(),
        forall|k: int|
            0 <= k < libs@.len() ==> (#[trigger] libs@[k])@ == library_of(
                input,
                input.packages@[k].file@,
            ),
{
    let lib_map = file_library_map(input);
    let mut libs: Vec<String> = Vec::new();
    let mut k: usize = 0;
    while k < input.packages.len()
        invariant
            k <= input.packages@.len(),
            libs@.len() == k,
            maps_libraries(input, &lib_map),
            forall|m: int|
                0 <= m < k ==> (#[trigger] libs@[m])@ == library_of(input, input.packages@[m].file@),
        decreases input.packages@.len() - k,
    {
        let lib = library_for_file(&lib_map, input.packages[k].file.as_str());
        libs.push(lib);
        k += 1;
    }
    libs
}

/// A package defined again in the same library, in another file than the first.
pub fn duplicate_package_in_library(input: &Input) -> (out: Vec<Violation>)
    ensures
        views(out@) == duplicate_package_in_library_all(input),
{
    broadcast use group_views;

    let libs = package_libraries(input);
    let mut out: Vec<Violation> = Vec::new();
    let mut i: usize = 0;
    while i < input.packages.len()
        invariant
            i <= input.packages@.len(),
            libs@.len() == input.packages@.len(),
            forall|k: int|
                0 <= k < libs@.len() ==> (#[trigger] libs@[k])@ == library_of(
                    input,
                    input.packages@[k].file@,
                ),
            views(out@) == duplicate_package_in_library_upto(input, i as int),
        decreases input.packages@.len() - i,
    {
        let unit = &input.packages[i];
        if !is_third_party_file(input, unit.file.as_str()) {
            let mut j: usize = 0;
            let mut found = false;
            while j < i && !found
                invariant
                    j <= i < input.packages@.len(),
                    libs@.len() == input.packages@.len(),
                    forall|k: int|
                        0 <= k < libs@.len() ==> (#[trigger] libs@[k])@ == library_of(
                            input,
                            input.packages@[k].file@,
                        ),
                    first_package_with_key(input, i as int, 0) == first_package_with_key(
                        input,
                        i as int,
                        j as int,
                    ),
                    found ==> j < i && first_package_with_key(input, i as int, j as int) == j,
                decreases i - j + (if found { 0int } else { 1int }),
            {
                let other = &input.packages[j];
                if !is_third_party_file(input, other.file.as_str()) && str_eq(
                    libs[j].as_str(),
                    libs[i].as_str(),
                ) && same(other.name.as_str(), input.packages[i].name.as_str()) {
                    found = true;
                } else {
                    j += 1;
                }
            }
            if j < i && !str_eq(input.packages[j].file.as_str(), unit.file.as_str()) {
                let first = &input.packages[j];
                let mut message = String::from_str("Package '");
                message.append(unit.name.as_str());
                message.append("' is defined multiple times in library '");
                message.append(libs[i].as_str());
                message.append("' (first seen at ");
                message.append(first.file.as_str());
                message.append(":");
                message.append(decimal_text(first.line).as_str());
                message.append(")");
                out.push(
                    Violation {
                        rule: String::from_str("duplicate_package_in_library"),
                        severity: String::from_str("error"),
                        file: unit.file.clone(),
                        line: unit.line,
                        message,
                    },
                );
            }
        }
        i += 1;
    }
    out
}

/// The library name that a file record gives: `work` when it names none.
pub open spec fn recorded_library(f: &FileInfo) -> Seq<char> {
    if f.library@.len() == 0 {
        "work"@
    } else {
        lower(f.library@)
    }
}

/// The library of a path by the first `n` file records: the last record of
/// the path decides, and a path without record lies in `work`.
pub open spec fn library_upto(input: &Input, file: Seq<char>, n: int) -> Seq<char>
    decreases n,
{
    if n <= 0 {
        "work"@
    } else if input.files@[n - 1].path@ == file {
        recorded_library(&input.files@[n - 1])
    } else {
        library_upto(input, file, n - 1)
    }
}

pub open spec fn library_of(input: &Input, file: Seq<char>) -> Seq<char> {
    library_upto(input, file, input.files@.len() as int)
}

/// The map holds, for every path, the library that the first `n` file records give it.
pub open spec fn maps_libraries_upto(input: &Input, map: &StringMap, n: int) -> bool {
    forall|file: Seq<char>|
        match #[trigger] map.lookup(file) {
            Some(l) => l == library_upto(input, file, n),
            None => library_upto(input, file, n) == "work"@,
        }
}

pub open spec fn maps_libraries(input: &Input, map: &StringMap) -> bool {
    maps_libraries_upto(input, map, input.files@.len() as int)
}

pub fn file_library_map(input: &Input) -> (map: StringMap)
    ensures
        map.wf(),
        maps_libraries(input, &map),
{
    let mut map = StringMap::new();
    let mut i: usize = 0;
    while i < input.files.len()
        invariant
            i <= input.files@.len(),
            map.wf(),
            maps_libraries_upto(input, &map, i as int),
        decreases input.files@.len() - i,
    {
        let file = &input.files[i];
        let lib = if file.library.as_str().is_empty() {
            String::from_str("work")
        } else {
            to_lower(file.library.as_str())
        };
        let ghost before = map;
        map.insert(file.path.clone(), lib);
        proof {
            assert forall|f: Seq<char>|
                match #[trigger] map.lookup(f) {
                    Some(l) => l == library_upto(input, f, i + 1),
                    None => library_upto(input, f, i + 1) == "work"@,
                } by {
                if f != file.path@ {
                    assert(map.lookup(f) == before.lookup(f));
                }
            }
        }
        i += 1;
    }
    map
}

pub fn library_for_file(map: &StringMap, file: &str) -> (r: String)
    ensures
        r@ == match map.lookup(file@) {
            Some(l) => l,
            None => "work"@,
        },
{
    match map.get(file) {
        Some(l) => l.clone(),
        None => String::from_str("work"),
    }
}

pub fn entity_exists(input: &Input, name: &str) -> (r: bool)
    ensures
        r == entity_known(input, name@),
{
    crate::policy::helpers::entity_exists(input, name)
}

/// The last part of a dotted name, in lower case.
pub open spec fn base_entity(name: Seq<char>) -> Seq<char> {
    lower(after_last(name, '.'))
}

pub fn base_entity_name(name: &str) -> (r: String)
    ensures
        r@ == base_entity(name@),
{
    let v = chars_of(name);
    let last = chars_after_last(&v, '.');
    let l = lower_chars(&last);
    string_of(&l)
}

/// The target of a component instantiation is an entity or a declared component.
pub open spec fn component_target_known(input: &Input, comp: &Component) -> bool {
    entity_known(input, base_entity(comp.entity_ref@)) || exists|i: int|
        0 <= i < input.components@.len() && !(#[trigger] input.components@[i]).is_instance
            && same_name(input.components@[i].name@, base_entity(comp.entity_ref@))
}

pub fn component_or_entity_exists(input: &Input, comp: &Component) -> (r: bool)
    ensures
        r == component_target_known(input, comp),
{
    let target = base_entity_name(comp.entity_ref.as_str());
    if crate::policy::helpers::entity_exists(input, target.as_str()) {
        return true;
    }
    let mut i: usize = 0;
    while i < input.components.len()
        invariant
            i <= input.components@.len(),
            target@ == base_entity(comp.entity_ref@),
            forall|j: int|
                0 <= j < i ==> !(!(#[trigger] input.components@[j]).is_instance && same_name(
                    input.components@[j].name@,
                    base_entity(comp.entity_ref@),
                )),
        decreases input.components@.len() - i,
    {
        if !input.components[i].is_instance && same(
            input.components[i].name.as_str(),
            target.as_str(),
        ) {
            return true;
        }
        i += 1;
    }
    false
}

/// Some architecture implements the entity of this name.
pub open spec fn architecture_known(input: &Input, entity_name: Seq<char>) -> bool {
    exists|i: int|
        0 <= i < input.architectures@.len() && same_name(
            (#[trigger] input.architectures@[i]).entity_name@,
            entity_name,
        )
}

pub fn has_architecture(input: &Input, entity_name: &str) -> (r: bool)
    ensures
        r == architecture_known(input, entity_name@),
{
    let mut i: usize = 0;
    while i < input.architectures.len()
        invariant
            i <= input.architectures@.len(),
            forall|j: int|
                0 <= j < i ==> !same_name(
                    (#[trigger] input.architectures@[j]).entity_name@,
                    entity_name@,
                ),
        decreases input.architectures@.len() - i,
    {
        if same(input.architectures[i].entity_name.as_str(), entity_name) {
            return true;
        }
        i += 1;
    }
    false
}

} // verus!
