//! The streaming service: commands, the rows they carry, the findings that
//! the maintained relations give, and the snapshot that answers a command.
//!
//! The relations themselves are maintained by a dataflow outside this
//! library; it is fed with the updates that [`apply_tables`] lists, maps rows
//! to findings with the functions of this module, and hands the weights of
//! the findings to [`build_response`].
use vstd::prelude::*;
use crate::text::{
    chars_between, chars_of, ends_with, holds, lemma_text_lt_asymmetric, lemma_text_lt_total,
    lemma_text_lt_transitive, str_ends_with, str_eq, string_of, text_less, text_lt,
};
use crate::policy::result::Summary;

verus! {

/// An entity as the streaming service knows it.
#[derive(Debug, Clone, Default, PartialEq, Eq)]
pub struct EntityRow {
    pub name: String,
    pub file: String,
    pub line: i64,
}

/// An architecture as the streaming service knows it.
#[derive(Debug, Clone, Default, PartialEq, Eq)]
pub struct ArchitectureRow {
    pub name: String,
    pub entity_name: String,
    pub file: String,
    pub line: i64,
}

/// A port as the streaming service knows it.
#[derive(Debug, Clone, Default, PartialEq, Eq)]
pub struct PortRow {
    pub entity: String,
    pub name: String,
    pub direction: String,
    pub file: String,
    pub line: i64,
}

/// A dependency as the streaming service knows it.
#[derive(Debug, Clone, Default, PartialEq, Eq)]
pub struct DependencyRow {
    pub file: String,
    pub target: String,
    pub kind: String,
    pub line: i64,
}

/// A symbol that some file defines.
#[derive(Debug, Clone, Default, PartialEq, Eq)]
pub struct SymbolRow {
    pub name: String,
}

/// The rows of one command, relation by relation.
#[derive(Debug, Clone, Default, PartialEq, Eq)]
pub struct Tables {
    pub entities: Vec<EntityRow>,
    pub architectures: Vec<ArchitectureRow>,
    pub ports: Vec<PortRow>,
    pub dependencies: Vec<DependencyRow>,
    pub symbols: Vec<SymbolRow>,
}

/// A finding of the streaming service: what identifies it in the map of weights.
#[derive(Debug, Clone, PartialEq, Eq, Hash)]
pub struct ViolationKey {
    pub rule: String,
    pub severity: String,
    pub file: String,
    pub line: i64,
    pub message: String,
}

/// The mathematical content of a [`ViolationKey`].
pub struct ViolationKeyView {
    pub rule: Seq<char>,
    pub severity: Seq<char>,
    pub file: Seq<char>,
    pub line: int,
    pub message: Seq<char>,
}

impl View for ViolationKey {
    type V = ViolationKeyView;

    open spec fn view(&self) -> ViolationKeyView {
        ViolationKeyView {
            rule: self.rule@,
            severity: self.severity@,
            file: self.file@,
            line: self.line as int,
            message: self.message@,
        }
    }
}

/// The findings of a list, each by its content.
pub open spec fn key_views(s: Seq<ViolationKey>) -> Seq<ViolationKeyView> {
    Seq::new(s.len(), |i: int| s[i]@)
}

/// A use-clause item without a trailing `.all`.
pub open spec fn use_item(item: Seq<char>) -> Seq<char> {
    if ends_with(item, ".all"@) {
        item.subrange(0, item.len() - 4)
    } else {
        item
    }
}

pub fn normalize_use_item(item: &str) -> (r: String)
    ensures
        r@ == use_item(item@),
{
    let v = chars_of(item);
    proof {
        reveal_strlit(".all");
    }
    if str_ends_with(item, ".all") {
        string_of(&chars_between(&v, 0, v.len() - 4))
    } else {
        proof {
            assert(v@.subrange(0, v@.len() as int) =~= v@);
        }
        string_of(&chars_between(&v, 0, v.len()))
    }
}

/// A name that marks a testbench: the streaming service reads names as the
/// batch rules do.
pub open spec fn testbench_name(name: Seq<char>) -> bool {
    crate::policy::helpers::testbench_name(name)
}

pub fn is_testbench_name(name: &str) -> (r: bool)
    ensures
        r == testbench_name(name@),
{
    crate::policy::helpers::is_testbench_name(name)
}

/// The finding for an entity that no port row names.
pub open spec fn entity_without_ports(file: Seq<char>, line: int, name: Seq<char>) -> ViolationKeyView {
    ViolationKeyView {
        rule: "entity_has_ports"@,
        severity: "warning"@,
        file: file,
        line: line,
        message: "Entity '"@ + name + "' has no ports defined"@,
    }
}

pub fn entity_without_ports_key(file: String, line: i64, name: &str) -> (key: ViolationKey)
    ensures
        key@ == entity_without_ports(file@, line as int, name@),
{
    let mut message = String::from_str("Entity '");
    message.append(name);
    message.append("' has no ports defined");
    ViolationKey {
        rule: String::from_str("entity_has_ports"),
        severity: String::from_str("warning"),
        file,
        line,
        message,
    }
}

/// The finding for an architecture whose entity no entity row names.
pub open spec fn orphan_architecture(
    entity: Seq<char>,
    file: Seq<char>,
    line: int,
    name: Seq<char>,
) -> ViolationKeyView {
    ViolationKeyView {
        rule: "architecture_has_entity"@,
        severity: "error"@,
        file: file,
        line: line,
        message: "Architecture '"@ + name + "' references undefined entity '"@ + entity + "'"@,
    }
}

pub fn orphan_architecture_key(entity: &str, file: String, line: i64, name: &str) -> (key:
    ViolationKey)
    ensures
        key@ == orphan_architecture(entity@, file@, line as int, name@),
{
    let mut message = String::from_str("Architecture '");
    message.append(name);
    message.append("' references undefined entity '");
    message.append(entity);
    message.append("'");
    ViolationKey {
        rule: String::from_str("architecture_has_entity"),
        severity: String::from_str("error"),
        file,
        line,
        message,
    }
}

/// The finding for an entity that no architecture row implements.
pub open spec fn entity_without_architecture(file: Seq<char>, line: int, name: Seq<char>) -> ViolationKeyView {
    ViolationKeyView {
        rule: "entity_without_arch"@,
        severity: "warning"@,
        file: file,
        line: line,
        message: "Entity '"@ + name + "' has no architecture defined"@,
    }
}

pub fn entity_without_architecture_key(file: String, line: i64, name: &str) -> (key: ViolationKey)
    ensures
        key@ == entity_without_architecture(file@, line as int, name@),
{
    let mut message = String::from_str("Entity '");
    message.append(name);
    message.append("' has no architecture defined");
    ViolationKey {
        rule: String::from_str("entity_without_arch"),
        severity: String::from_str("warning"),
        file,
        line,
        message,
    }
}

/// The finding for an instantiation whose target no symbol row defines.
pub open spec fn unresolved_dependency(file: Seq<char>, line: int, target: Seq<char>) -> ViolationKeyView {
    ViolationKeyView {
        rule: "unresolved_dependency"@,
        severity: "error"@,
        file: file,
        line: line,
        message: "Unresolved dependency: '"@ + target + "'"@,
    }
}

pub fn unresolved_dependency_key(file: String, line: i64, target: &str) -> (key: ViolationKey)
    ensures
        key@ == unresolved_dependency(file@, line as int, target@),
{
    let mut message = String::from_str("Unresolved dependency: '");
    message.append(target);
    message.append("'");
    ViolationKey {
        rule: String::from_str("unresolved_dependency"),
        severity: String::from_str("error"),
        file,
        line,
        message,
    }
}

/// Whether a dependency is counted before symbols are subtracted: only
/// instantiations are.
pub fn is_instantiation(kind: &str) -> (r: bool)
    ensures
        r == (kind@ == "instantiation"@),
{
    str_eq(kind, "instantiation")
}

/// The weight of a finding after a difference arrives: the sum, or `None`
/// where the sum is zero and the finding leaves the map of weights.
pub open spec fn weight_after(current: int, diff: int) -> Option<int> {
    if current + diff == 0 {
        None
    } else {
        Some(current + diff)
    }
}

pub fn next_weight(current: isize, diff: isize) -> (r: Option<isize>)
    requires
        isize::MIN <= current + diff <= isize::MAX,
    ensures
        match r {
            Some(w) => weight_after(current as int, diff as int) == Some(w as int),
            None => weight_after(current as int, diff as int).is_none(),
        },
{
    let sum = current + diff;
    if sum == 0 {
        None
    } else {
        Some(sum)
    }
}

/// What a command asks for.
#[derive(Debug, Clone, Copy, PartialEq, Eq)]
pub enum CommandKind {
    /// Add the rows of `tables`.
    Init,
    /// Add the rows of `added` and retract those of `removed`.
    Delta,
    /// Change nothing.
    Snapshot,
    /// No command of the protocol: answered by an error, and nothing changes.
    Unknown,
}

pub open spec fn command_of(kind: Seq<char>) -> CommandKind {
    if kind == "init"@ {
        CommandKind::Init
    } else if kind == "delta"@ {
        CommandKind::Delta
    } else if kind == "snapshot"@ {
        CommandKind::Snapshot
    } else {
        CommandKind::Unknown
    }
}

pub fn command_kind(kind: &str) -> (r: CommandKind)
    ensures
        r == command_of(kind@),
{
    if str_eq(kind, "init") {
        CommandKind::Init
    } else if str_eq(kind, "delta") {
        CommandKind::Delta
    } else if str_eq(kind, "snapshot") {
        CommandKind::Snapshot
    } else {
        CommandKind::Unknown
    }
}

/// The updates of one command for the five relations, each row with its
/// weight and in the shape in which its relation is keyed.
pub struct Updates {
    /// name, file, line
    pub entities: Vec<((String, String, i64), isize)>,
    /// entity, file, line, name
    pub architectures: Vec<((String, String, i64, String), isize)>,
    /// entity, name
    pub ports: Vec<((String, String), isize)>,
    /// target, file, line, kind
    pub dependencies: Vec<((String, String, i64, String), isize)>,
    pub symbols: Vec<(String, isize)>,
}

impl Updates {
    /// The updates hold the rows of the tables, in their order, each with the weight.
    pub open spec fn carries(&self, tables: &Tables, weight: isize) -> bool {
        &&& self.entities@.len() == tables.entities@.len()
        &&& forall|i: int|
            0 <= i < self.entities@.len() ==> {
                let u = #[trigger] self.entities@[i];
                let row = tables.entities@[i];
                u.0.0@ == row.name@ && u.0.1@ == row.file@ && u.0.2 == row.line && u.1 == weight
            }
        &&& self.architectures@.len() == tables.architectures@.len()
        &&& forall|i: int|
            0 <= i < self.architectures@.len() ==> {
                let u = #[trigger] self.architectures@[i];
                let row = tables.architectures@[i];
                u.0.0@ == row.entity_name@ && u.0.1@ == row.file@ && u.0.2 == row.line && u.0.3@
                    == row.name@ && u.1 == weight
            }
        &&& self.ports@.len() == tables.ports@.len()
        &&& forall|i: int|
            0 <= i < self.ports@.len() ==> {
                let u = #[trigger] self.ports@[i];
                let row = tables.ports@[i];
                u.0.0@ == row.entity@ && u.0.1@ == row.name@ && u.1 == weight
            }
        &&& self.dependencies@.len() == tables.dependencies@.len()
        &&& forall|i: int|
            0 <= i < self.dependencies@.len() ==> {
                let u = #[trigger] self.dependencies@[i];
                let row = tables.dependencies@[i];
                u.0.0@ == row.target@ && u.0.1@ == row.file@ && u.0.2 == row.line && u.0.3@
                    == row.kind@ && u.1 == weight
            }
        &&& self.symbols@.len() == tables.symbols@.len()
        &&& forall|i: int|
            0 <= i < self.symbols@.len() ==> {
                let u = #[trigger] self.symbols@[i];
                u.0@ == tables.symbols@[i].name@ && u.1 == weight
            }
    }
}

/// The updates that put the rows of some tables into the relations with a
/// weight: +1 to add them, -1 to retract them.
pub fn apply_tables(tables: &Tables, weight: isize) -> (updates: Updates)
    ensures
        updates.carries(tables, weight),
{
    let mut entities: Vec<((String, String, i64), isize)> = Vec::new();
    let mut i: usize = 0;
    while i < tables.entities.len()
        invariant
            i <= tables.entities@.len(),
            entities@.len() == i,
            forall|k: int|
                0 <= k < i ==> {
                    let u = #[trigger] entities@[k];
                    let row = tables.entities@[k];
                    u.0.0@ == row.name@ && u.0.1@ == row.file@ && u.0.2 == row.line && u.1
                        == weight
                },
        decreases tables.entities@.len() - i,
    {
        let row = &tables.entities[i];
        entities.push(((row.name.clone(), row.file.clone(), row.line), weight));
        i += 1;
    }
    let mut architectures: Vec<((String, String, i64, String), isize)> = Vec::new();
    let mut i: usize = 0;
    while i < tables.architectures.len()
        invariant
            i <= tables.architectures@.len(),
            architectures@.len() == i,
            forall|k: int|
                0 <= k < i ==> {
                    let u = #[trigger] architectures@[k];
                    let row = tables.architectures@[k];
                    u.0.0@ == row.entity_name@ && u.0.1@ == row.file@ && u.0.2 == row.line
                        && u.0.3@ == row.name@ && u.1 == weight
                },
        decreases tables.architectures@.len() - i,
    {
        let row = &tables.architectures[i];
        architectures.push(
            ((row.entity_name.clone(), row.file.clone(), row.line, row.name.clone()), weight),
        );
        i += 1;
    }
    let mut ports: Vec<((String, String), isize)> = Vec::new();
    let mut i: usize = 0;
    while i < tables.ports.len()
        invariant
            i <= tables.ports@.len(),
            ports@.len() == i,
            forall|k: int|
                0 <= k < i ==> {
                    let u = #[trigger] ports@[k];
                    let row = tables.ports@[k];
                    u.0.0@ == row.entity@ && u.0.1@ == row.name@ && u.1 == weight
                },
        decreases tables.ports@.len() - i,
    {
        let row = &tables.ports[i];
        ports.push(((row.entity.clone(), row.name.clone()), weight));
        i += 1;
    }
    let mut dependencies: Vec<((String, String, i64, String), isize)> = Vec::new();
    let mut i: usize = 0;
    while i < tables.dependencies.len()
        invariant
            i <= tables.dependencies@.len(),
            dependencies@.len() == i,
            forall|k: int|
                0 <= k < i ==> {
                    let u = #[trigger] dependencies@[k];
                    let row = tables.dependencies@[k];
                    u.0.0@ == row.target@ && u.0.1@ == row.file@ && u.0.2 == row.line && u.0.3@
                        == row.kind@ && u.1 == weight
                },
        decreases tables.dependencies@.len() - i,
    {
        let row = &tables.dependencies[i];
        dependencies.push(
            ((row.target.clone(), row.file.clone(), row.line, row.kind.clone()), weight),
        );
        i += 1;
    }
    let mut symbols: Vec<(String, isize)> = Vec::new();
    let mut i: usize = 0;
    while i < tables.symbols.len()
        invariant
            i <= tables.symbols@.len(),
            symbols@.len() == i,
            forall|k: int|
                0 <= k < i ==> {
                    let u = #[trigger] symbols@[k];
                    u.0@ == tables.symbols@[k].name@ && u.1 == weight
                },
        decreases tables.symbols@.len() - i,
    {
        symbols.push((tables.symbols[i].name.clone(), weight));
        i += 1;
    }
    Updates { entities, architectures, ports, dependencies, symbols }
}

/// The order of a snapshot: by file, then by line, then by rule, severity
/// and message.
pub open spec fn key_lt(a: ViolationKeyView, b: ViolationKeyView) -> bool {
    if a.file != b.file {
        text_lt(a.file, b.file)
    } else if a.line != b.line {
        a.line < b.line
    } else if a.rule != b.rule {
        text_lt(a.rule, b.rule)
    } else if a.severity != b.severity {
        text_lt(a.severity, b.severity)
    } else {
        text_lt(a.message, b.message)
    }
}

pub fn key_less(a: &ViolationKey, b: &ViolationKey) -> (r: bool)
    ensures
        r == key_lt(a@, b@),
{
    if !str_eq(a.file.as_str(), b.file.as_str()) {
        text_less(a.file.as_str(), b.file.as_str())
    } else if a.line != b.line {
        a.line < b.line
    } else if !str_eq(a.rule.as_str(), b.rule.as_str()) {
        text_less(a.rule.as_str(), b.rule.as_str())
    } else if !str_eq(a.severity.as_str(), b.severity.as_str()) {
        text_less(a.severity.as_str(), b.severity.as_str())
    } else {
        text_less(a.message.as_str(), b.message.as_str())
    }
}

/// A sorted list with `x` put in after everything that is not greater.
pub open spec fn insert_key(s: Seq<ViolationKeyView>, x: ViolationKeyView) -> Seq<ViolationKeyView>
    decreases s.len(),
{
    if s.len() == 0 {
        seq![x]
    } else if key_lt(x, s.last()) {
        insert_key(s.drop_last(), x).push(s.last())
    } else {
        s.push(x)
    }
}

/// The findings with a positive weight among the first `n`, in the order of a snapshot.
pub open spec fn present_sorted_upto(weighted: Seq<(ViolationKey, isize)>, n: int) -> Seq<
    ViolationKeyView,
>
    decreases n,
{
    if n <= 0 {
        Seq::empty()
    } else if weighted[n - 1].1 > 0 {
        insert_key(present_sorted_upto(weighted, n - 1), weighted[n - 1].0@)
    } else {
        present_sorted_upto(weighted, n - 1)
    }
}

/// The findings that are present, in the order of a snapshot.
pub open spec fn present_sorted(weighted: Seq<(ViolationKey, isize)>) -> Seq<ViolationKeyView> {
    present_sorted_upto(weighted, weighted.len() as int)
}

/// Of two findings at most one comes before the other, and of two different
/// findings one does.
pub proof fn lemma_key_lt_is_an_order(a: ViolationKeyView, b: ViolationKeyView)
    ensures
        !(key_lt(a, b) && key_lt(b, a)),
        key_lt(a, b) || key_lt(b, a) || a == b,
{
    lemma_text_lt_asymmetric(a.file, b.file, 0);
    lemma_text_lt_asymmetric(a.rule, b.rule, 0);
    lemma_text_lt_asymmetric(a.severity, b.severity, 0);
    lemma_text_lt_asymmetric(a.message, b.message, 0);
    lemma_text_lt_total(a.file, b.file, 0);
    lemma_text_lt_total(a.rule, b.rule, 0);
    lemma_text_lt_total(a.severity, b.severity, 0);
    lemma_text_lt_total(a.message, b.message, 0);
}

proof fn lemma_text_chain(a: Seq<char>, b: Seq<char>, c: Seq<char>)
    ensures
        text_lt(a, b) && text_lt(b, c) ==> text_lt(a, c) && a != c,
        !(text_lt(a, b) && text_lt(b, a)),
{
    lemma_text_lt_asymmetric(a, b, 0);
    lemma_text_lt_asymmetric(a, c, 0);
    if text_lt(a, b) && text_lt(b, c) {
        lemma_text_lt_transitive(a, b, c, 0);
        lemma_text_lt_asymmetric(c, b, 0);
    }
}

/// The order of a snapshot is transitive.
pub proof fn lemma_key_lt_transitive(a: ViolationKeyView, b: ViolationKeyView, c: ViolationKeyView)
    requires
        key_lt(a, b),
        key_lt(b, c),
    ensures
        key_lt(a, c),
{
    lemma_text_chain(a.file, b.file, c.file);
    lemma_text_chain(a.rule, b.rule, c.rule);
    lemma_text_chain(a.severity, b.severity, c.severity);
    lemma_text_chain(a.message, b.message, c.message);
    lemma_text_chain(b.file, c.file, a.file);
    lemma_text_chain(b.rule, c.rule, a.rule);
    lemma_text_chain(b.severity, c.severity, a.severity);
    lemma_text_chain(b.message, c.message, a.message);
}

/// No finding of the list comes before an earlier one.
pub open spec fn in_snapshot_order(s: Seq<ViolationKeyView>) -> bool {
    forall|i: int, j: int| 0 <= i < j < s.len() ==> !key_lt(#[trigger] s[j], #[trigger] s[i])
}

proof fn lemma_insert_key_not_above(s: Seq<ViolationKeyView>, x: ViolationKeyView, bound: ViolationKeyView)
    requires
        !key_lt(bound, x),
        forall|i: int| 0 <= i < s.len() ==> !key_lt(bound, #[trigger] s[i]),
    ensures
        forall|k: int|
            0 <= k < insert_key(s, x).len() ==> !key_lt(bound, #[trigger] insert_key(s, x)[k]),
    decreases s.len(),
{
    if s.len() > 0 && key_lt(x, s.last()) {
        let d = s.drop_last();
        assert forall|i: int| 0 <= i < d.len() implies !key_lt(bound, #[trigger] d[i]) by {
            assert(d[i] == s[i]);
        }
        lemma_insert_key_not_above(d, x, bound);
        let r = insert_key(d, x);
        assert forall|k: int| 0 <= k < r.push(s.last()).len() implies !key_lt(
            bound,
            #[trigger] r.push(s.last())[k],
        ) by {
            if k < r.len() {
                assert(r.push(s.last())[k] == r[k]);
            } else {
                assert(r.push(s.last())[k] == s[s.len() - 1]);
            }
        }
    }
}

/// Putting a finding into a list in snapshot order leaves the list in that order.
pub proof fn lemma_insert_key_keeps_order(s: Seq<ViolationKeyView>, x: ViolationKeyView)
    requires
        in_snapshot_order(s),
    ensures
        in_snapshot_order(insert_key(s, x)),
    decreases s.len(),
{
    if s.len() > 0 {
        let last = s.last();
        let d = s.drop_last();
        if key_lt(x, last) {
            assert(in_snapshot_order(d)) by {
                assert forall|i: int, j: int| 0 <= i < j < d.len() implies !key_lt(
                    #[trigger] d[j],
                    #[trigger] d[i],
                ) by {
                    assert(d[i] == s[i] && d[j] == s[j]);
                }
            }
            lemma_insert_key_keeps_order(d, x);
            lemma_key_lt_is_an_order(x, last);
            assert forall|i: int| 0 <= i < d.len() implies !key_lt(last, #[trigger] d[i]) by {
                assert(d[i] == s[i]);
                assert(last == s[s.len() - 1]);
            }
            lemma_insert_key_not_above(d, x, last);
            let r = insert_key(d, x);
            assert forall|i: int, j: int| 0 <= i < j < r.push(last).len() implies !key_lt(
                #[trigger] r.push(last)[j],
                #[trigger] r.push(last)[i],
            ) by {
                if j < r.len() {
                    assert(r.push(last)[i] == r[i] && r.push(last)[j] == r[j]);
                } else {
                    assert(r.push(last)[j] == last && r.push(last)[i] == r[i]);
                }
            }
        } else {
            let r = s.push(x);
            assert forall|i: int, j: int| 0 <= i < j < r.len() implies !key_lt(
                #[trigger] r[j],
                #[trigger] r[i],
            ) by {
                if j < s.len() {
                    assert(r[i] == s[i] && r[j] == s[j]);
                } else {
                    assert(r[j] == x && r[i] == s[i]);
                    if key_lt(x, s[i]) {
                        lemma_key_lt_is_an_order(s[i], last);
                        if i < s.len() - 1 {
                            assert(!key_lt(s[s.len() - 1], s[i]));
                        }
                        if key_lt(s[i], last) {
                            lemma_key_lt_transitive(x, s[i], last);
                        }
                    }
                }
            }
        }
    } else {
        assert(insert_key(s, x) =~= seq![x]);
    }
}

/// A snapshot lists its findings by file, line, rule, severity and message, in that order.
pub proof fn lemma_snapshot_is_sorted(weighted: Seq<(ViolationKey, isize)>, n: int)
    ensures
        in_snapshot_order(present_sorted_upto(weighted, n)),
    decreases n,
{
    if n > 0 {
        lemma_snapshot_is_sorted(weighted, n - 1);
        if weighted[n - 1].1 > 0 {
            lemma_insert_key_keeps_order(present_sorted_upto(weighted, n - 1), weighted[n - 1].0@);
        }
    }
}

/// The findings with a positive weight among the first `n`, as they are listed.
pub open spec fn present_upto(weighted: Seq<(ViolationKey, isize)>, n: int) -> Seq<ViolationKeyView>
    decreases n,
{
    if n <= 0 {
        Seq::empty()
    } else if weighted[n - 1].1 > 0 {
        present_upto(weighted, n - 1).push(weighted[n - 1].0@)
    } else {
        present_upto(weighted, n - 1)
    }
}

/// The findings that are present, as they are listed.
pub open spec fn present(weighted: Seq<(ViolationKey, isize)>) -> Seq<ViolationKeyView> {
    present_upto(weighted, weighted.len() as int)
}

proof fn lemma_insert_key_adds(s: Seq<ViolationKeyView>, x: ViolationKeyView)
    ensures
        insert_key(s, x).to_multiset() == s.to_multiset().insert(x),
    decreases s.len(),
{
    broadcast use vstd::seq_lib::group_to_multiset_ensures;

    if s.len() > 0 && key_lt(x, s.last()) {
        let d = s.drop_last();
        lemma_insert_key_adds(d, x);
        assert(s =~= d.push(s.last()));
        assert(insert_key(d, x).push(s.last()).to_multiset() =~= d.to_multiset().insert(x).insert(
            s.last(),
        ));
        assert(d.push(s.last()).to_multiset() =~= d.to_multiset().insert(s.last()));
        assert(d.to_multiset().insert(x).insert(s.last()) =~= d.to_multiset().insert(
            s.last(),
        ).insert(x));
    } else if s.len() == 0 {
        assert(insert_key(s, x) =~= s.push(x));
    }
}

/// A snapshot holds the findings that are present, each as often as it is listed.
pub proof fn lemma_snapshot_holds_the_present(weighted: Seq<(ViolationKey, isize)>, n: int)
    ensures
        present_sorted_upto(weighted, n).to_multiset() == present_upto(weighted, n).to_multiset(),
    decreases n,
{
    broadcast use vstd::seq_lib::group_to_multiset_ensures;

    if n > 0 {
        lemma_snapshot_holds_the_present(weighted, n - 1);
        if weighted[n - 1].1 > 0 {
            lemma_insert_key_adds(present_sorted_upto(weighted, n - 1), weighted[n - 1].0@);
        }
    }
}

/// Two lists in snapshot order that hold the same findings are the same list.
pub proof fn lemma_snapshot_order_is_unique(a: Seq<ViolationKeyView>, b: Seq<ViolationKeyView>)
    requires
        in_snapshot_order(a),
        in_snapshot_order(b),
        a.to_multiset() == b.to_multiset(),
    ensures
        a == b,
    decreases a.len(),
{
    broadcast use vstd::seq_lib::group_to_multiset_ensures;

    vstd::seq_lib::to_multiset_len(a);
    vstd::seq_lib::to_multiset_len(b);
    assert(a.len() == b.len());
    if a.len() == 0 {
        assert(a =~= b);
    } else {
        let n = a.len() as int;
        let la = a[n - 1];
        let lb = b[n - 1];
        assert(a.contains(la));
        assert(b.contains(lb));
        vstd::seq_lib::to_multiset_contains(a, la);
        vstd::seq_lib::to_multiset_contains(b, la);
        vstd::seq_lib::to_multiset_contains(a, lb);
        vstd::seq_lib::to_multiset_contains(b, lb);
        assert(b.to_multiset().count(la) > 0);
        assert(a.to_multiset().count(lb) > 0);
        assert(b.contains(la));
        assert(a.contains(lb));
        let j = choose|j: int| 0 <= j < b.len() && b[j] == la;
        let k = choose|k: int| 0 <= k < a.len() && a[k] == lb;
        if j < n - 1 {
            assert(!key_lt(b[n - 1], b[j]));
        }
        if k < n - 1 {
            assert(!key_lt(a[n - 1], a[k]));
        }
        lemma_key_lt_is_an_order(la, lb);
        assert(la == lb);
        let da = a.drop_last();
        let db = b.drop_last();
        assert(da =~= a.remove(n - 1));
        assert(db =~= b.remove(n - 1));
        vstd::seq_lib::to_multiset_remove(a, n - 1);
        vstd::seq_lib::to_multiset_remove(b, n - 1);
        assert(in_snapshot_order(da)) by {
            assert forall|i: int, j: int| 0 <= i < j < da.len() implies !key_lt(
                #[trigger] da[j],
                #[trigger] da[i],
            ) by {
                assert(da[i] == a[i] && da[j] == a[j]);
            }
        }
        assert(in_snapshot_order(db)) by {
            assert forall|i: int, j: int| 0 <= i < j < db.len() implies !key_lt(
                #[trigger] db[j],
                #[trigger] db[i],
            ) by {
                assert(db[i] == b[i] && db[j] == b[j]);
            }
        }
        lemma_snapshot_order_is_unique(da, db);
        assert(a =~= da.push(la));
        assert(b =~= db.push(lb));
    }
}

/// A snapshot does not depend on the order in which the weights are listed:
/// where the same findings are present, the snapshot is the same.
pub proof fn lemma_snapshot_ignores_listing_order(
    first: Seq<(ViolationKey, isize)>,
    second: Seq<(ViolationKey, isize)>,
)
    requires
        present(first).to_multiset() == present(second).to_multiset(),
    ensures
        present_sorted(first) == present_sorted(second),
{
    lemma_snapshot_holds_the_present(first, first.len() as int);
    lemma_snapshot_holds_the_present(second, second.len() as int);
    lemma_snapshot_is_sorted(first, first.len() as int);
    lemma_snapshot_is_sorted(second, second.len() as int);
    lemma_snapshot_order_is_unique(present_sorted(first), present_sorted(second));
}

fn copy_key(key: &ViolationKey) -> (r: ViolationKey)
    ensures
        r@ == key@,
{
    ViolationKey {
        rule: key.rule.clone(),
        severity: key.severity.clone(),
        file: key.file.clone(),
        line: key.line,
        message: key.message.clone(),
    }
}

fn insert_sorted_key(list: &mut Vec<ViolationKey>, x: ViolationKey)
    ensures
        key_views(final(list)@) == insert_key(key_views(old(list)@), x@),
{
    let ghost s = key_views(list@);
    let mut k: usize = list.len();
    let mut done = false;
    proof {
        assert(s.take(k as int) =~= s);
        assert(insert_key(s, x@) =~= insert_key(s.take(k as int), x@) + s.skip(k as int));
    }
    while k > 0 && !done
        invariant
            k <= list@.len(),
            list@ == old(list)@,
            s == key_views(list@),
            insert_key(s, x@) == insert_key(s.take(k as int), x@) + s.skip(k as int),
            done ==> k > 0 && !key_lt(x@, s[k - 1]),
        decreases k + (if done { 0int } else { 1int }),
    {
        proof {
            assert(s[k - 1] == list@[k - 1]@);
        }
        if key_less(&x, &list[k - 1]) {
            proof {
                let t = s.take(k as int);
                assert(t.last() == s[k - 1]);
                assert(t.drop_last() =~= s.take(k - 1));
                assert(insert_key(t, x@) == insert_key(s.take(k - 1), x@).push(s[k - 1]));
                assert(insert_key(s.take(k - 1), x@).push(s[k - 1]) + s.skip(k as int)
                    =~= insert_key(s.take(k - 1), x@) + s.skip(k - 1));
            }
            k -= 1;
        } else {
            done = true;
        }
    }
    proof {
        let t = s.take(k as int);
        if k > 0 {
            assert(t.last() == s[k - 1]);
        }
        assert(insert_key(t, x@) == t.push(x@));
        assert(key_views(list@.insert(k as int, x)) =~= t.push(x@) + s.skip(k as int));
    }
    list.insert(k, x);
}

/// The answer to a command.
#[derive(Debug, Clone)]
pub struct Response {
    pub kind: String,
    pub summary: Summary,
    pub violations: Vec<ViolationKey>,
}

/// How many of the first `n` findings carry the severity.
pub open spec fn severity_count(found: Seq<ViolationKeyView>, sev: Seq<char>, n: int) -> nat
    decreases n,
{
    if n <= 0 {
        0
    } else if found[n - 1].severity == sev {
        severity_count(found, sev, n - 1) + 1
    } else {
        severity_count(found, sev, n - 1)
    }
}

/// The snapshot of the current state: the findings with a positive weight,
/// sorted, and their totals by severity.
pub fn build_response(violations: &Vec<(ViolationKey, isize)>) -> (response: Response)
    ensures
        response.kind@ == "snapshot"@,
        key_views(response.violations@) == present_sorted(violations@),
        in_snapshot_order(key_views(response.violations@)),
        response.summary.total_violations == response.violations@.len(),
        response.summary.errors == severity_count(
            key_views(response.violations@),
            "error"@,
            response.violations@.len() as int,
        ),
        response.summary.warnings == severity_count(
            key_views(response.violations@),
            "warning"@,
            response.violations@.len() as int,
        ),
        response.summary.info == severity_count(
            key_views(response.violations@),
            "info"@,
            response.violations@.len() as int,
        ),
{
    let mut list: Vec<ViolationKey> = Vec::new();
    let mut i: usize = 0;
    proof {
        assert(key_views(list@) =~= present_sorted_upto(violations@, 0));
    }
    while i < violations.len()
        invariant
            i <= violations@.len(),
            key_views(list@) == present_sorted_upto(violations@, i as int),
        decreases violations@.len() - i,
    {
        if violations[i].1 > 0 {
            insert_sorted_key(&mut list, copy_key(&violations[i].0));
        }
        i += 1;
    }
    proof {
        lemma_snapshot_is_sorted(violations@, violations@.len() as int);
    }
    let mut errors: usize = 0;
    let mut warnings: usize = 0;
    let mut info: usize = 0;
    let ghost found = key_views(list@);
    let mut k: usize = 0;
    while k < list.len()
        invariant
            k <= list@.len(),
            found == key_views(list@),
            errors <= k && warnings <= k && info <= k,
            errors == severity_count(found, "error"@, k as int),
            warnings == severity_count(found, "warning"@, k as int),
            info == severity_count(found, "info"@, k as int),
        decreases list@.len() - k,
    {
        proof {
            assert(found[k as int] == list@[k as int]@);
        }
        let sev = list[k].severity.as_str();
        if str_eq(sev, "error") {
            errors += 1;
        }
        if str_eq(sev, "warning") {
            warnings += 1;
        }
        if str_eq(sev, "info") {
            info += 1;
        }
        k += 1;
    }
    Response {
        kind: String::from_str("snapshot"),
        summary: Summary { total_violations: list.len(), errors, warnings, info },
        violations: list,
    }
}

} // verus!
