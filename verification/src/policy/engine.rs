//! The engine: runs every rule family in a fixed order and filters the
//! findings by the user's configuration.
use vstd::prelude::*;
use crate::text::{ends_with, str_eq, texts};
use crate::policy::helpers::{
    rule_disabled, rule_is_disabled, third_party_file, is_third_party_file, get_rule_severity,
    optional_rule,
};
use crate::policy::input::Input;
use crate::policy::result::{
    AmbiguousConstruct, MissingCheckTask, Result, RoleCandidates, Summary, VerificationAnchor,
    Violation, ViolationView, views, group_views,
};
use crate::policy::verification::{
    self, CheckEntry, CheckEntryView, check_views, normal_registry, detected_constructs,
    MissingCheckTaskView, task_view, task_views, missing_check_tasks_all, AmbiguousView,
    ambiguous_view, ambiguous_views, ready_valid_ambiguous, copy_strings, copy_map,
};
use crate::policy::cdc;
use crate::policy::clocks_resets;
use crate::policy::combinational;
use crate::policy::configurations;
use crate::policy::core_rules;
use crate::policy::fsm;
use crate::policy::hierarchy;
use crate::policy::instances;
use crate::policy::latch;
use crate::policy::naming;
use crate::policy::ports;
use crate::policy::power;
use crate::policy::processes;
use crate::policy::quality;
use crate::policy::rdc;
use crate::policy::security;
use crate::policy::sensitivity;
use crate::policy::sequential;
use crate::policy::signals;
use crate::policy::style;
use crate::policy::subprograms;
use crate::policy::synthesis;
use crate::policy::testbench;
use crate::policy::types;

verus! {

/// The number of rule families that the engine runs.
pub open spec fn families() -> nat {
    43
}

/// What family `k` finds.  The families run in a fixed order: the rules about
/// design units first, then the verification planner, then the other
/// families, those that run only when configured last.
pub open spec fn family_findings(input: &Input, reg: Seq<CheckEntryView>, k: int) -> Seq<
    ViolationView,
> {
    if k == 0 {
        core_rules::violations_all(input)
    } else if k == 1 {
        verification::analysis_violations(input, reg)
    } else if k == 2 {
        cdc::violations_all(input)
    } else if k == 3 {
        combinational::violations_all(input)
    } else if k == 4 {
        clocks_resets::violations_all(input)
    } else if k == 5 {
        clocks_resets::optional_violations_all(input)
    } else if k == 6 {
        fsm::violations_all(input)
    } else if k == 7 {
        fsm::optional_violations_all(input)
    } else if k == 8 {
        configurations::violations_all(input)
    } else if k == 9 {
        hierarchy::violations_all(input)
    } else if k == 10 {
        instances::violations_all(input)
    } else if k == 11 {
        latch::violations_all(input)
    } else if k == 12 {
        naming::violations_all(input)
    } else if k == 13 {
        naming::optional_violations_all(input)
    } else if k == 14 {
        ports::violations_all(input)
    } else if k == 15 {
        ports::optional_violations_all(input)
    } else if k == 16 {
        processes::violations_all(input)
    } else if k == 17 {
        power::violations_all(input)
    } else if k == 18 {
        quality::violations_all(input)
    } else if k == 19 {
        quality::optional_violations_all(input)
    } else if k == 20 {
        rdc::violations_all(input)
    } else if k == 21 {
        security::violations_all(input)
    } else if k == 22 {
        sensitivity::violations_all(input)
    } else if k == 23 {
        sequential::violations_all(input)
    } else if k == 24 {
        signals::violations_all(input)
    } else if k == 25 {
        style::violations_all(input)
    } else if k == 26 {
        style::optional_violations_all(input)
    } else if k == 27 {
        subprograms::violations_all(input)
    } else if k == 28 {
        synthesis::violations_all(input)
    } else if k == 29 {
        testbench::violations_all(input)
    } else if k == 30 {
        testbench::optional_violations_all(input)
    } else if k == 31 {
        types::violations_all(input)
    } else if k == 32 {
        types::optional_violations_all(input)
    } else if k == 33 {
        combinational::optional_violations_all(input)
    } else if k == 34 {
        hierarchy::optional_violations_all(input)
    } else if k == 35 {
        latch::optional_violations_all(input)
    } else if k == 36 {
        power::optional_violations_all(input)
    } else if k == 37 {
        rdc::optional_violations_all(input)
    } else if k == 38 {
        security::optional_violations_all(input)
    } else if k == 39 {
        sensitivity::optional_violations_all(input)
    } else if k == 40 {
        sequential::optional_violations_all(input)
    } else if k == 41 {
        signals::optional_violations_all(input)
    } else if k == 42 {
        synthesis::optional_violations_all(input)
    } else {
        Seq::empty()
    }
}

/// What the first `n` families find, family after family.
pub open spec fn families_upto(input: &Input, reg: Seq<CheckEntryView>, n: int) -> Seq<ViolationView>
    decreases n,
{
    if n <= 0 {
        Seq::empty()
    } else {
        families_upto(input, reg, n - 1) + family_findings(input, reg, n - 1)
    }
}

/// Everything the rules find, before any filtering: the families in their
/// order, each rule in the order of its facts.
pub open spec fn raw_violations(input: &Input, reg: Seq<CheckEntryView>) -> Seq<ViolationView> {
    families_upto(input, reg, families() as int)
}

/// The three severities that a finding can carry.
pub open spec fn valid_severity(sev: Seq<char>) -> bool {
    sev == "error"@ || sev == "warning"@ || sev == "info"@
}

pub fn is_valid_severity(sev: &str) -> (r: bool)
    ensures
        r == valid_severity(sev@),
{
    str_eq(sev, "error") || str_eq(sev, "warning") || str_eq(sev, "info")
}

/// A finding stays unless its rule is disabled or its file is third-party.
pub open spec fn kept(input: &Input, v: ViolationView) -> bool {
    !rule_disabled(input, v.rule) && !third_party_file(input, v.file)
}

/// The severity a finding leaves with: the configured one where the
/// configuration names a valid severity for the rule, else its own.
pub open spec fn final_severity(input: &Input, v: ViolationView) -> Seq<char> {
    match input.lint_config.rules.lookup(v.rule) {
        Some(sev) => if valid_severity(sev) {
            sev
        } else {
            v.severity
        },
        None => v.severity,
    }
}

pub open spec fn with_final_severity(input: &Input, v: ViolationView) -> ViolationView {
    ViolationView {
        rule: v.rule,
        severity: final_severity(input, v),
        file: v.file,
        line: v.line,
        message: v.message,
    }
}

/// The first `n` findings, filtered.
pub open spec fn filtered_upto(input: &Input, raw: Seq<ViolationView>, n: int) -> Seq<ViolationView>
    decreases n,
{
    if n <= 0 {
        Seq::empty()
    } else if kept(input, raw[n - 1]) {
        filtered_upto(input, raw, n - 1).push(with_final_severity(input, raw[n - 1]))
    } else {
        filtered_upto(input, raw, n - 1)
    }
}

/// The findings that the configuration lets through, in their order, with
/// the severities that it sets.
pub open spec fn filtered(input: &Input, raw: Seq<ViolationView>) -> Seq<ViolationView> {
    filtered_upto(input, raw, raw.len() as int)
}

pub fn filter_violations(input: &Input, violations: Vec<Violation>) -> (out: Vec<Violation>)
    ensures
        views(out@) == filtered(input, views(violations@)),
{
    broadcast use group_views;

    let mut out: Vec<Violation> = Vec::new();
    let ghost raw = views(violations@);
    let mut i: usize = 0;
    while i < violations.len()
        invariant
            i <= violations@.len(),
            raw == views(violations@),
            views(out@) == filtered_upto(input, raw, i as int),
        decreases violations@.len() - i,
    {
        let v = &violations[i];
        proof {
            assert(raw[i as int] == v@);
        }
        if !rule_is_disabled(input, v.rule.as_str()) && !is_third_party_file(
            input,
            v.file.as_str(),
        ) {
            let severity = match get_rule_severity(input, v.rule.as_str()) {
                Some(sev) => if is_valid_severity(sev.as_str()) {
                    sev
                } else {
                    v.severity.clone()
                },
                None => v.severity.clone(),
            };
            out.push(
                Violation {
                    rule: v.rule.clone(),
                    severity,
                    file: v.file.clone(),
                    line: v.line,
                    message: v.message.clone(),
                },
            );
        }
        i += 1;
    }
    out
}

/// How many of the first `n` findings carry the severity.
pub open spec fn severity_count(found: Seq<ViolationView>, sev: Seq<char>, n: int) -> nat
    decreases n,
{
    if n <= 0 {
        0
    } else if found[n - 1].severity == sev {
        severity_count(found, sev, n - 1) + 1
    } else {
        severity_count(found, sev, n - 1)
    }
}

/// The summary of some findings: their number, and how many are errors,
/// warnings and notes.
pub open spec fn summary_of(found: Seq<ViolationView>, s: &Summary) -> bool {
    s.total_violations == found.len() && s.errors == severity_count(
        found,
        "error"@,
        found.len() as int,
    ) && s.warnings == severity_count(found, "warning"@, found.len() as int) && s.info
        == severity_count(found, "info"@, found.len() as int)
}

pub fn summarize(violations: &Vec<Violation>) -> (summary: Summary)
    ensures
        summary_of(views(violations@), &summary),
{
    let mut errors: usize = 0;
    let mut warnings: usize = 0;
    let mut info: usize = 0;
    let ghost found = views(violations@);
    let mut i: usize = 0;
    while i < violations.len()
        invariant
            i <= violations@.len(),
            found == views(violations@),
            errors <= i && warnings <= i && info <= i,
            errors == severity_count(found, "error"@, i as int),
            warnings == severity_count(found, "warning"@, i as int),
            info == severity_count(found, "info"@, i as int),
        decreases violations@.len() - i,
    {
        let sev = violations[i].severity.as_str();
        proof {
            assert(found[i as int] == violations@[i as int]@);
        }
        if str_eq(sev, "error") {
            errors += 1;
        }
        if str_eq(sev, "warning") {
            warnings += 1;
        }
        if str_eq(sev, "info") {
            info += 1;
        }
        i += 1;
    }
    Summary { total_violations: violations.len(), errors, warnings, info }
}

fn copy_task(task: &MissingCheckTask) -> (r: MissingCheckTask)
    ensures
        task_view(&r) == task_view(task),
{
    MissingCheckTask {
        file: task.file.clone(),
        scope: task.scope.clone(),
        anchor: VerificationAnchor {
            label: task.anchor.label.clone(),
            line_start: task.anchor.line_start,
            line_end: task.anchor.line_end,
            exists: task.anchor.exists,
        },
        missing_ids: copy_strings(&task.missing_ids),
        bindings: copy_map(&task.bindings),
        notes: copy_strings(&task.notes),
    }
}

fn copy_candidates(list: &Vec<RoleCandidates>) -> (r: Vec<RoleCandidates>)
    ensures
        verification::role_views(r@) == verification::role_views(list@),
{
    let mut out: Vec<RoleCandidates> = Vec::new();
    let mut i: usize = 0;
    while i < list.len()
        invariant
            i <= list@.len(),
            out@.len() == i,
            forall|k: int|
                0 <= k < i ==> (#[trigger] out@[k]).role@ == list@[k].role@ && texts(
                    out@[k].names@,
                ) == texts(list@[k].names@),
        decreases list@.len() - i,
    {
        out.push(
            RoleCandidates { role: list[i].role.clone(), names: copy_strings(&list[i].names) },
        );
        i += 1;
    }
    proof {
        assert(verification::role_views(out@) =~= verification::role_views(list@));
    }
    out
}

fn copy_ambiguous(item: &AmbiguousConstruct) -> (r: AmbiguousConstruct)
    ensures
        ambiguous_view(&r) == ambiguous_view(item),
{
    AmbiguousConstruct {
        kind: item.kind.clone(),
        scope: item.scope.clone(),
        file: item.file.clone(),
        line: item.line,
        candidates: copy_candidates(&item.candidates),
    }
}

/// The first `n` tasks without those in third-party files.
pub open spec fn tasks_kept_upto(input: &Input, tasks: Seq<MissingCheckTaskView>, n: int) -> Seq<
    MissingCheckTaskView,
>
    decreases n,
{
    if n <= 0 {
        Seq::empty()
    } else if third_party_file(input, tasks[n - 1].file) {
        tasks_kept_upto(input, tasks, n - 1)
    } else {
        tasks_kept_upto(input, tasks, n - 1).push(tasks[n - 1])
    }
}

/// The tasks that the configuration lets through: none where the rule for
/// missing checks is disabled, else those outside third-party files.
pub open spec fn filtered_tasks(input: &Input, tasks: Seq<MissingCheckTaskView>) -> Seq<
    MissingCheckTaskView,
> {
    if rule_disabled(input, "missing_verification_check"@) {
        Seq::empty()
    } else {
        tasks_kept_upto(input, tasks, tasks.len() as int)
    }
}

pub fn filter_missing_checks(input: &Input, tasks: Vec<MissingCheckTask>) -> (out: Vec<
    MissingCheckTask,
>)
    ensures
        task_views(out@) == filtered_tasks(input, task_views(tasks@)),
{
    let mut out: Vec<MissingCheckTask> = Vec::new();
    let ghost all = task_views(tasks@);
    proof {
        assert(task_views(out@) =~= tasks_kept_upto(input, all, 0));
    }
    if rule_is_disabled(input, "missing_verification_check") {
        return out;
    }
    let mut i: usize = 0;
    while i < tasks.len()
        invariant
            i <= tasks@.len(),
            all == task_views(tasks@),
            task_views(out@) == tasks_kept_upto(input, all, i as int),
        decreases tasks@.len() - i,
    {
        proof {
            assert(all[i as int] == task_view(&tasks@[i as int]));
        }
        if !is_third_party_file(input, tasks[i].file.as_str()) {
            let copy = copy_task(&tasks[i]);
            proof {
                assert(task_views(out@.push(copy)) =~= task_views(out@).push(task_view(&copy)));
            }
            out.push(copy);
        }
        i += 1;
    }
    out
}

/// The first `n` ambiguous constructs without those in third-party files.
pub open spec fn ambiguous_kept_upto(input: &Input, items: Seq<AmbiguousView>, n: int) -> Seq<
    AmbiguousView,
>
    decreases n,
{
    if n <= 0 {
        Seq::empty()
    } else if third_party_file(input, items[n - 1].file) {
        ambiguous_kept_upto(input, items, n - 1)
    } else {
        ambiguous_kept_upto(input, items, n - 1).push(items[n - 1])
    }
}

/// The ambiguous constructs that the configuration lets through: none where
/// their rule is disabled, else those outside third-party files.
pub open spec fn filtered_ambiguous(input: &Input, items: Seq<AmbiguousView>) -> Seq<AmbiguousView> {
    if rule_disabled(input, "ambiguous_construct"@) {
        Seq::empty()
    } else {
        ambiguous_kept_upto(input, items, items.len() as int)
    }
}

pub fn filter_ambiguous_constructs(input: &Input, items: Vec<AmbiguousConstruct>) -> (out: Vec<
    AmbiguousConstruct,
>)
    ensures
        ambiguous_views(out@) == filtered_ambiguous(input, ambiguous_views(items@)),
{
    let mut out: Vec<AmbiguousConstruct> = Vec::new();
    let ghost all = ambiguous_views(items@);
    proof {
        assert(ambiguous_views(out@) =~= ambiguous_kept_upto(input, all, 0));
    }
    if rule_is_disabled(input, "ambiguous_construct") {
        return out;
    }
    let mut i: usize = 0;
    while i < items.len()
        invariant
            i <= items@.len(),
            all == ambiguous_views(items@),
            ambiguous_views(out@) == ambiguous_kept_upto(input, all, i as int),
        decreases items@.len() - i,
    {
        proof {
            assert(all[i as int] == ambiguous_view(&items@[i as int]));
        }
        if !is_third_party_file(input, items[i].file.as_str()) {
            let copy = copy_ambiguous(&items[i]);
            proof {
                assert(ambiguous_views(out@.push(copy)) =~= ambiguous_views(out@).push(
                    ambiguous_view(&copy),
                ));
            }
            out.push(copy);
        }
        i += 1;
    }
    out
}

/// The findings of an evaluation: everything the rules find, filtered.
pub open spec fn evaluation_violations(input: &Input, entries: Seq<CheckEntryView>) -> Seq<
    ViolationView,
> {
    filtered(input, raw_violations(input, normal_registry(entries)))
}

/// What one family hands to the engine: its findings, and for the planner
/// also its tasks and the constructs it could not classify.
pub struct FamilyRun {
    pub violations: Vec<Violation>,
    pub missing_checks: Vec<MissingCheckTask>,
    pub ambiguous_constructs: Vec<AmbiguousConstruct>,
}

/// The tasks that family `k` hands over: those of the planner, none of any other.
pub open spec fn family_tasks(input: &Input, reg: Seq<CheckEntryView>, k: int) -> Seq<
    MissingCheckTaskView,
> {
    if k == 1 {
        missing_check_tasks_all(input, reg, detected_constructs(input))
    } else {
        Seq::empty()
    }
}

/// The unclassified constructs that family `k` hands over.
pub open spec fn family_ambiguous(input: &Input, k: int) -> Seq<AmbiguousView> {
    if k == 1 {
        ready_valid_ambiguous(input)
    } else {
        Seq::empty()
    }
}

fn only_findings(violations: Vec<Violation>) -> (run: FamilyRun)
    ensures
        run.violations == violations,
        task_views(run.missing_checks@) == Seq::<MissingCheckTaskView>::empty(),
        ambiguous_views(run.ambiguous_constructs@) == Seq::<AmbiguousView>::empty(),
{
    let run = FamilyRun {
        violations,
        missing_checks: Vec::new(),
        ambiguous_constructs: Vec::new(),
    };
    proof {
        assert(task_views(run.missing_checks@) =~= Seq::<MissingCheckTaskView>::empty());
        assert(ambiguous_views(run.ambiguous_constructs@) =~= Seq::<AmbiguousView>::empty());
    }
    run
}

pub fn family_count() -> (n: usize)
    ensures
        n == families(),
{
    43
}

/// The name under which family `k` is reported.
pub open spec fn family_label(k: int) -> Seq<char> {
    if k == 0 {
        "core"@
    } else if k == 1 {
        "verification"@
    } else if k == 2 {
        "cdc"@
    } else if k == 3 {
        "combinational"@
    } else if k == 4 {
        "clocks_resets"@
    } else if k == 5 {
        "clocks_resets_optional"@
    } else if k == 6 {
        "fsm"@
    } else if k == 7 {
        "fsm_optional"@
    } else if k == 8 {
        "configurations"@
    } else if k == 9 {
        "hierarchy"@
    } else if k == 10 {
        "instances"@
    } else if k == 11 {
        "latch"@
    } else if k == 12 {
        "naming"@
    } else if k == 13 {
        "naming_optional"@
    } else if k == 14 {
        "ports"@
    } else if k == 15 {
        "ports_optional"@
    } else if k == 16 {
        "processes"@
    } else if k == 17 {
        "power"@
    } else if k == 18 {
        "quality"@
    } else if k == 19 {
        "quality_optional"@
    } else if k == 20 {
        "rdc"@
    } else if k == 21 {
        "security"@
    } else if k == 22 {
        "sensitivity"@
    } else if k == 23 {
        "sequential"@
    } else if k == 24 {
        "signals"@
    } else if k == 25 {
        "style"@
    } else if k == 26 {
        "style_optional"@
    } else if k == 27 {
        "subprograms"@
    } else if k == 28 {
        "synthesis"@
    } else if k == 29 {
        "testbench"@
    } else if k == 30 {
        "testbench_optional"@
    } else if k == 31 {
        "types"@
    } else if k == 32 {
        "types_optional"@
    } else if k == 33 {
        "combinational_optional"@
    } else if k == 34 {
        "hierarchy_optional"@
    } else if k == 35 {
        "latch_optional"@
    } else if k == 36 {
        "power_optional"@
    } else if k == 37 {
        "rdc_optional"@
    } else if k == 38 {
        "security_optional"@
    } else if k == 39 {
        "sensitivity_optional"@
    } else if k == 40 {
        "sequential_optional"@
    } else if k == 41 {
        "signals_optional"@
    } else if k == 42 {
        "synthesis_optional"@
    } else {
        ""@
    }
}

pub fn family_name(k: usize) -> (name: &'static str)
    ensures
        name@ == family_label(k as int),
{
    match k {
        0 => "core",
        1 => "verification",
        2 => "cdc",
        3 => "combinational",
        4 => "clocks_resets",
        5 => "clocks_resets_optional",
        6 => "fsm",
        7 => "fsm_optional",
        8 => "configurations",
        9 => "hierarchy",
        10 => "instances",
        11 => "latch",
        12 => "naming",
        13 => "naming_optional",
        14 => "ports",
        15 => "ports_optional",
        16 => "processes",
        17 => "power",
        18 => "quality",
        19 => "quality_optional",
        20 => "rdc",
        21 => "security",
        22 => "sensitivity",
        23 => "sequential",
        24 => "signals",
        25 => "style",
        26 => "style_optional",
        27 => "subprograms",
        28 => "synthesis",
        29 => "testbench",
        30 => "testbench_optional",
        31 => "types",
        32 => "types_optional",
        33 => "combinational_optional",
        34 => "hierarchy_optional",
        35 => "latch_optional",
        36 => "power_optional",
        37 => "rdc_optional",
        38 => "security_optional",
        39 => "sensitivity_optional",
        40 => "sequential_optional",
        41 => "signals_optional",
        42 => "synthesis_optional",
        _ => "",
    }
}

/// Runs one family.
pub fn run_family(input: &Input, registry_entries: &Vec<CheckEntry>, k: usize) -> (run: FamilyRun)
    requires
        k < families(),
    ensures
        views(run.violations@) == family_findings(
            input,
            normal_registry(check_views(registry_entries@)),
            k as int,
        ),
        task_views(run.missing_checks@) == family_tasks(
            input,
            normal_registry(check_views(registry_entries@)),
            k as int,
        ),
        ambiguous_views(run.ambiguous_constructs@) == family_ambiguous(input, k as int),
{
    match k {
        0 => only_findings(core_rules::violations(input)),
        1 => {
            let analysis = verification::analyze(input, registry_entries);
            FamilyRun {
                violations: analysis.violations,
                missing_checks: analysis.missing_checks,
                ambiguous_constructs: analysis.ambiguous_constructs,
            }
        },
        2 => only_findings(cdc::violations(input)),
        3 => only_findings(combinational::violations(input)),
        4 => only_findings(clocks_resets::violations(input)),
        5 => only_findings(clocks_resets::optional_violations(input)),
        6 => only_findings(fsm::violations(input)),
        7 => only_findings(fsm::optional_violations(input)),
        8 => only_findings(configurations::violations(input)),
        9 => only_findings(hierarchy::violations(input)),
        10 => only_findings(instances::violations(input)),
        11 => only_findings(latch::violations(input)),
        12 => only_findings(naming::violations(input)),
        13 => only_findings(naming::optional_violations(input)),
        14 => only_findings(ports::violations(input)),
        15 => only_findings(ports::optional_violations(input)),
        16 => only_findings(processes::violations(input)),
        17 => only_findings(power::violations(input)),
        18 => only_findings(quality::violations(input)),
        19 => only_findings(quality::optional_violations(input)),
        20 => only_findings(rdc::violations(input)),
        21 => only_findings(security::violations(input)),
        22 => only_findings(sensitivity::violations(input)),
        23 => only_findings(sequential::violations(input)),
        24 => only_findings(signals::violations(input)),
        25 => only_findings(style::violations(input)),
        26 => only_findings(style::optional_violations(input)),
        27 => only_findings(subprograms::violations(input)),
        28 => only_findings(synthesis::violations(input)),
        29 => only_findings(testbench::violations(input)),
        30 => only_findings(testbench::optional_violations(input)),
        31 => only_findings(types::violations(input)),
        32 => only_findings(types::optional_violations(input)),
        33 => only_findings(combinational::optional_violations(input)),
        34 => only_findings(hierarchy::optional_violations(input)),
        35 => only_findings(latch::optional_violations(input)),
        36 => only_findings(power::optional_violations(input)),
        37 => only_findings(rdc::optional_violations(input)),
        38 => only_findings(security::optional_violations(input)),
        39 => only_findings(sensitivity::optional_violations(input)),
        40 => only_findings(sequential::optional_violations(input)),
        41 => only_findings(signals::optional_violations(input)),
        _ => only_findings(synthesis::optional_violations(input)),
    }
}

/// The result of an evaluation from what the families handed over: the
/// findings filtered and counted, the tasks and constructs filtered.
pub fn finish(
    input: &Input,
    raw: Vec<Violation>,
    tasks: Vec<MissingCheckTask>,
    ambiguous: Vec<AmbiguousConstruct>,
) -> (result: Result)
    ensures
        views(result.violations@) == filtered(input, views(raw@)),
        summary_of(views(result.violations@), &result.summary),
        task_views(result.missing_checks@) == filtered_tasks(input, task_views(tasks@)),
        ambiguous_views(result.ambiguous_constructs@) == filtered_ambiguous(
            input,
            ambiguous_views(ambiguous@),
        ),
{
    let violations = filter_violations(input, raw);
    let missing_checks = filter_missing_checks(input, tasks);
    let ambiguous_constructs = filter_ambiguous_constructs(input, ambiguous);
    let summary = summarize(&violations);
    Result { violations, summary, missing_checks, ambiguous_constructs }
}

/// Runs every rule on the fact database and filters what they find.  The
/// result is a function of the facts and the registry alone.
pub fn evaluate(input: &Input, registry_entries: &Vec<CheckEntry>) -> (result: Result)
    ensures
        views(result.violations@) == evaluation_violations(input, check_views(registry_entries@)),
        summary_of(views(result.violations@), &result.summary),
        task_views(result.missing_checks@) == filtered_tasks(
            input,
            missing_check_tasks_all(
                input,
                normal_registry(check_views(registry_entries@)),
                detected_constructs(input),
            ),
        ),
        ambiguous_views(result.ambiguous_constructs@) == filtered_ambiguous(
            input,
            ready_valid_ambiguous(input),
        ),
{
    broadcast use group_views;

    let ghost reg = normal_registry(check_views(registry_entries@));
    let mut raw: Vec<Violation> = Vec::new();
    let mut tasks: Vec<MissingCheckTask> = Vec::new();
    let mut ambiguous: Vec<AmbiguousConstruct> = Vec::new();
    let count = family_count();
    let mut k: usize = 0;
    proof {
        assert(task_views(tasks@) =~= Seq::<MissingCheckTaskView>::empty());
        assert(ambiguous_views(ambiguous@) =~= Seq::<AmbiguousView>::empty());
    }
    while k < count
        invariant
            k <= count,
            count == families(),
            reg == normal_registry(check_views(registry_entries@)),
            views(raw@) == families_upto(input, reg, k as int),
            task_views(tasks@) == if k > 1 {
                family_tasks(input, reg, 1)
            } else {
                Seq::<MissingCheckTaskView>::empty()
            },
            ambiguous_views(ambiguous@) == if k > 1 {
                family_ambiguous(input, 1)
            } else {
                Seq::<AmbiguousView>::empty()
            },
        decreases count - k,
    {
        let run = run_family(input, registry_entries, k);
        let mut found = run.violations;
        raw.append(&mut found);
        if k == 1 {
            tasks = run.missing_checks;
            ambiguous = run.ambiguous_constructs;
        }
        k += 1;
    }
    finish(input, raw, tasks, ambiguous)
}

/// No finding leaves the engine with the file of a configured third-party path.
pub proof fn lemma_third_party_suppressed(input: &Input, raw: Seq<ViolationView>, p: int, k: int)
    requires
        0 <= p < input.third_party_files@.len(),
        0 <= k < filtered(input, raw).len(),
    ensures
        filtered(input, raw)[k].file != input.third_party_files@[p]@,
{
    lemma_filtered_kept(input, raw, raw.len() as int, k);
    let path = input.third_party_files@[p]@;
    if filtered(input, raw)[k].file == path {
        assert(path.subrange(path.len() - path.len(), path.len() as int) =~= path);
        assert(ends_with(path, input.third_party_files@[p]@));
    }
}

/// Every finding that is let through comes from a finding that was kept,
/// and carries the severity that the configuration gives it.
pub proof fn lemma_filtered_kept(input: &Input, raw: Seq<ViolationView>, n: int, k: int)
    requires
        0 <= n <= raw.len(),
        0 <= k < filtered_upto(input, raw, n).len(),
    ensures
        exists|j: int|
            0 <= j < n && kept(input, raw[j]) && filtered_upto(input, raw, n)[k]
                == #[trigger] with_final_severity(input, raw[j]),
        !rule_disabled(input, filtered_upto(input, raw, n)[k].rule),
        !third_party_file(input, filtered_upto(input, raw, n)[k].file),
    decreases n,
{
    if n > 0 {
        let rest = filtered_upto(input, raw, n - 1);
        if kept(input, raw[n - 1]) && k == rest.len() {
            assert(filtered_upto(input, raw, n)[k] == with_final_severity(input, raw[n - 1]));
        } else {
            lemma_filtered_kept(input, raw, n - 1, k);
        }
    }
}

/// Where the configuration maps a rule to a valid severity, every finding of
/// that rule leaves the engine with it.
pub proof fn lemma_severity_override(
    input: &Input,
    raw: Seq<ViolationView>,
    rule: Seq<char>,
    severity: Seq<char>,
    k: int,
)
    requires
        input.lint_config.rules.lookup(rule) == Some(severity),
        valid_severity(severity),
        0 <= k < filtered(input, raw).len(),
        filtered(input, raw)[k].rule == rule,
    ensures
        filtered(input, raw)[k].severity == severity,
{
    lemma_filtered_kept(input, raw, raw.len() as int, k);
}

/// No finding of a rule that the configuration switches off leaves the engine.
pub proof fn lemma_disabled_rule(input: &Input, raw: Seq<ViolationView>, rule: Seq<char>, k: int)
    requires
        input.lint_config.rules.lookup(rule) == Some("off"@),
        0 <= k < filtered(input, raw).len(),
    ensures
        filtered(input, raw)[k].rule != rule,
{
    lemma_filtered_kept(input, raw, raw.len() as int, k);
}

/// No finding of an optional rule leaves the engine unless the configuration names the rule.
pub proof fn lemma_optional_rule_gated(input: &Input, raw: Seq<ViolationView>, k: int)
    requires
        0 <= k < filtered(input, raw).len(),
        optional_rule(filtered(input, raw)[k].rule),
    ensures
        input.lint_config.rules.has_key(filtered(input, raw)[k].rule),
{
    lemma_filtered_kept(input, raw, raw.len() as int, k);
}

/// Two evaluations of the same facts with the same registry find the same.
pub proof fn lemma_evaluation_is_a_function(
    input: &Input,
    entries: Seq<CheckEntryView>,
    first: Seq<ViolationView>,
    second: Seq<ViolationView>,
)
    requires
        first == evaluation_violations(input, entries),
        second == evaluation_violations(input, entries),
    ensures
        first == second,
{
}

} // verus!
