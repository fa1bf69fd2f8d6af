//! What an evaluation returns: findings, their summary, and the records of the
//! verification planner.
use vstd::prelude::*;
use crate::policy::map::StringMap;

verus! {

/// One finding of one rule.
#[derive(Debug, Clone, PartialEq, Eq)]
pub struct Violation {
    pub rule: String,
    pub severity: String,
    pub file: String,
    pub line: usize,
    pub message: String,
}

/// The mathematical content of a [`Violation`].
pub struct ViolationView {
    pub rule: Seq<char>,
    pub severity: Seq<char>,
    pub file: Seq<char>,
    pub line: nat,
    pub message: Seq<char>,
}

impl View for Violation {
    type V = ViolationView;

    open spec fn view(&self) -> ViolationView {
        ViolationView {
            rule: self.rule@,
            severity: self.severity@,
            file: self.file@,
            line: self.line as nat,
            message: self.message@,
        }
    }
}

/// The findings of a list, each by its content.
pub open spec fn views(s: Seq<Violation>) -> Seq<ViolationView> {
    Seq::new(s.len(), |i: int| s[i]@)
}

pub broadcast proof fn lemma_views_push(s: Seq<Violation>, v: Violation)
    ensures
        #[trigger] views(s.push(v)) == views(s).push(v@),
{
    assert(views(s.push(v)) =~= views(s).push(v@));
}

pub broadcast proof fn lemma_views_add(a: Seq<Violation>, b: Seq<Violation>)
    ensures
        #[trigger] views(a + b) == views(a) + views(b),
{
    assert(views(a + b) =~= views(a) + views(b));
}

pub broadcast proof fn lemma_views_empty(s: Seq<Violation>)
    requires
        s.len() == 0,
    ensures
        #[trigger] views(s) == Seq::<ViolationView>::empty(),
{
    assert(views(s) =~= Seq::<ViolationView>::empty());
}

pub broadcast group group_views {
    lemma_views_push,
    lemma_views_add,
    lemma_views_empty,
}

/// Totals by severity.
#[derive(Debug, Clone, Default)]
pub struct Summary {
    pub total_violations: usize,
    pub errors: usize,
    pub warnings: usize,
    pub info: usize,
}

/// Where the verification annotations of an architecture live, or should live.
#[derive(Debug, Clone, PartialEq, Eq)]
pub struct VerificationAnchor {
    pub label: String,
    pub line_start: usize,
    pub line_end: usize,
    pub exists: bool,
}

/// The checks a detected construct still lacks.
#[derive(Debug, Clone, PartialEq, Eq)]
pub struct MissingCheckTask {
    pub file: String,
    pub scope: String,
    pub anchor: VerificationAnchor,
    pub missing_ids: Vec<String>,
    pub bindings: StringMap,
    pub notes: Vec<String>,
}

/// The signals that may play one role of an ambiguous construct.
#[derive(Debug, Clone, PartialEq, Eq)]
pub struct RoleCandidates {
    pub role: String,
    pub names: Vec<String>,
}

/// A construct whose signal roles could not be told apart.
#[derive(Debug, Clone, PartialEq, Eq)]
pub struct AmbiguousConstruct {
    pub kind: String,
    pub scope: String,
    pub file: String,
    pub line: usize,
    pub candidates: Vec<RoleCandidates>,
}

/// Everything one evaluation produces.
#[derive(Debug, Clone, Default)]
pub struct Result {
    pub violations: Vec<Violation>,
    pub summary: Summary,
    pub missing_checks: Vec<MissingCheckTask>,
    pub ambiguous_constructs: Vec<AmbiguousConstruct>,
}

} // verus!
