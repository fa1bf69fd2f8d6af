//! The verification planner: which checks a design should carry, and which it lacks.
use vstd::prelude::*;
use crate::text::{
    before_first, begins, chars_before_first, chars_between, chars_index_from, chars_of, chars_trim,
    contains, decimal, decimal_text, group_texts, index_from, is_blank, join_strings, join_texts,
    list_has, lower, lower_chars, lower_chars_of, lower_contains, lower_is, lower_starts_with, same,
    same_name, sort_texts, sorted_strings, starts_with, str_eq, string_of, texts, to_lower, trim,
    trimmed,
};
use crate::policy::helpers::{
    listed, signal_in_list, base_type, base_type_name, single_bit_type, is_single_bit_type,
    reset_name, is_reset_name, clock_name, is_clock_name, signed_type, is_signed_type,
    unsigned_type, is_unsigned_type,
};
use crate::policy::input::{
    Input, Process, VerificationTag, VerificationTagError, CaseStatement, Signal,
    ConcurrentAssignment, Architecture,
};
use crate::policy::result::{Violation, ViolationView, views, group_views};
use crate::policy::map::{StringMap, MapEntry, entry_views};
use crate::policy::result::{
    AmbiguousConstruct, MissingCheckTask, VerificationAnchor, RoleCandidates,
};

verus! {

/// One entry of the check registry: what a verification tag of this id must
/// look like, and how its absence is reported.
#[derive(Debug, Clone, Default)]
pub struct CheckEntry {
    pub id: String,
    pub scope_type: String,
    pub required_bindings: Vec<String>,
    pub needs_cover: bool,
    pub severity: String,
    pub requires_bound: bool,
}

/// The mathematical content of a [`CheckEntry`].
pub struct CheckEntryView {
    pub id: Seq<char>,
    pub scope_type: Seq<char>,
    pub required_bindings: Seq<Seq<char>>,
    pub needs_cover: bool,
    pub severity: Seq<char>,
    pub requires_bound: bool,
}

impl View for CheckEntry {
    type V = CheckEntryView;

    open spec fn view(&self) -> CheckEntryView {
        CheckEntryView {
            id: self.id@,
            scope_type: self.scope_type@,
            required_bindings: texts(self.required_bindings@),
            needs_cover: self.needs_cover,
            severity: self.severity@,
            requires_bound: self.requires_bound,
        }
    }
}

/// The entries of a list, each by its content.
pub open spec fn check_views(s: Seq<CheckEntry>) -> Seq<CheckEntryView> {
    Seq::new(s.len(), |i: int| s[i]@)
}

/// An entry with its id and scope type in lower case.
pub open spec fn normal_entry(e: CheckEntryView) -> CheckEntryView {
    CheckEntryView {
        id: lower(e.id),
        scope_type: lower(e.scope_type),
        required_bindings: e.required_bindings,
        needs_cover: e.needs_cover,
        severity: e.severity,
        requires_bound: e.requires_bound,
    }
}

/// The registry as the planner reads it: every entry normalised.
pub open spec fn normal_registry(entries: Seq<CheckEntryView>) -> Seq<CheckEntryView> {
    Seq::new(entries.len(), |i: int| normal_entry(entries[i]))
}

/// A copy of a list of strings.
pub fn copy_strings(list: &Vec<String>) -> (r: Vec<String>)
    ensures
        texts(r@) == texts(list@),
{
    let mut out: Vec<String> = Vec::new();
    let mut i: usize = 0;
    while i < list.len()
        invariant
            i <= list@.len(),
            out@.len() == i,
            forall|k: int| 0 <= k < i ==> (#[trigger] out@[k])@ == list@[k]@,
        decreases list@.len() - i,
    {
        out.push(list[i].clone());
        i += 1;
    }
    proof {
        assert(texts(out@) =~= texts(list@));
    }
    out
}

/// The registry with ids and scope types in lower case.
pub fn registry_by_id(entries: &Vec<CheckEntry>) -> (registry: Vec<CheckEntry>)
    ensures
        check_views(registry@) == normal_registry(check_views(entries@)),
{
    let mut registry: Vec<CheckEntry> = Vec::new();
    let mut i: usize = 0;
    while i < entries.len()
        invariant
            i <= entries@.len(),
            registry@.len() == i,
            forall|k: int| 0 <= k < i ==> (#[trigger] registry@[k])@ == normal_entry(entries@[k]@),
        decreases entries@.len() - i,
    {
        let e = &entries[i];
        registry.push(
            CheckEntry {
                id: to_lower(e.id.as_str()),
                scope_type: to_lower(e.scope_type.as_str()),
                required_bindings: copy_strings(&e.required_bindings),
                needs_cover: e.needs_cover,
                severity: e.severity.clone(),
                requires_bound: e.requires_bound,
            },
        );
        i += 1;
    }
    proof {
        assert(check_views(registry@) =~= normal_registry(check_views(entries@)));
    }
    registry
}

/// The index of the last of the first `n` entries with this id, or -1: a
/// later entry replaces an earlier one of the same id.
pub open spec fn check_index_upto(reg: Seq<CheckEntryView>, id: Seq<char>, n: int) -> int
    decreases n,
{
    if n <= 0 || n > reg.len() {
        -1
    } else if reg[n - 1].id == id {
        n - 1
    } else {
        check_index_upto(reg, id, n - 1)
    }
}

/// The index of the entry for a check id, whatever its case, or -1.
pub open spec fn check_index(reg: Seq<CheckEntryView>, id: Seq<char>) -> int {
    check_index_upto(reg, lower(id), reg.len() as int)
}

/// The entry for a check id, whatever its case.
pub fn find_check(registry: &Vec<CheckEntry>, id: &str) -> (r: Option<usize>)
    ensures
        match r {
            Some(k) => k == check_index(check_views(registry@), id@) && k < registry@.len(),
            None => check_index(check_views(registry@), id@) == -1,
        },
{
    let key = to_lower(id);
    let ghost reg = check_views(registry@);
    let mut n: usize = registry.len();
    while n > 0
        invariant
            n <= registry@.len(),
            reg == check_views(registry@),
            key@ == lower(id@),
            check_index(reg, id@) == check_index_upto(reg, key@, n as int),
        decreases n,
    {
        proof {
            assert(reg[n - 1] == registry@[n - 1]@);
        }
        if str_eq(registry[n - 1].id.as_str(), key.as_str()) {
            return Some(n - 1);
        }
        n -= 1;
    }
    None
}

/// The part of a scope before its colon, trimmed.
pub open spec fn scope_prefix(scope: Seq<char>) -> Seq<char> {
    trim(before_first(scope, ':'))
}

/// A scope fits a scope type when the type is empty or is the scope's prefix.
pub open spec fn scope_fits(scope_type: Seq<char>, scope: Seq<char>) -> bool {
    scope_type.len() == 0 || same_name(scope_prefix(scope), scope_type)
}

pub fn scope_matches(scope_type: &str, scope: &str) -> (r: bool)
    ensures
        r == scope_fits(scope_type@, scope@),
{
    if scope_type.is_empty() {
        return true;
    }
    let v = chars_of(scope);
    let head = chars_before_first(&v, ':');
    let prefix = string_of(&chars_trim(&head));
    same(prefix.as_str(), scope_type)
}

/// The index of the first binding at or after `i` whose name is `binding`,
/// up to case, or the number of bindings.
pub open spec fn binding_index_from(tag: &VerificationTag, binding: Seq<char>, i: int) -> int
    decreases tag.bindings.entries@.len() - i,
{
    if i < 0 || i >= tag.bindings.entries@.len() {
        tag.bindings.entries@.len() as int
    } else if same_name(tag.bindings.entries@[i].key@, binding) {
        i
    } else {
        binding_index_from(tag, binding, i + 1)
    }
}

/// The tag does not bind the name, or binds it to nothing but white space.
pub open spec fn binding_missing(tag: &VerificationTag, binding: Seq<char>) -> bool {
    let i = binding_index_from(tag, binding, 0);
    i >= tag.bindings.entries@.len() || trim(tag.bindings.entries@[i].value@).len() == 0
}

pub fn is_binding_missing(tag: &VerificationTag, binding: &str) -> (r: bool)
    ensures
        r == binding_missing(tag, binding@),
{
    let mut i: usize = 0;
    while i < tag.bindings.entries.len()
        invariant
            i <= tag.bindings.entries@.len(),
            binding_index_from(tag, binding@, 0) == binding_index_from(tag, binding@, i as int),
        decreases tag.bindings.entries@.len() - i,
    {
        if same(tag.bindings.entries[i].key.as_str(), binding) {
            return is_blank(tag.bindings.entries[i].value.as_str());
        }
        i += 1;
    }
    true
}

/// The required bindings among the first `n` that the tag lacks.
pub open spec fn missing_bindings_upto(required: Seq<Seq<char>>, tag: &VerificationTag, n: int) -> Seq<
    Seq<char>,
>
    decreases n,
{
    if n <= 0 {
        Seq::empty()
    } else if binding_missing(tag, required[n - 1]) {
        missing_bindings_upto(required, tag, n - 1).push(required[n - 1])
    } else {
        missing_bindings_upto(required, tag, n - 1)
    }
}

pub open spec fn missing_bindings(entry: CheckEntryView, tag: &VerificationTag) -> Seq<Seq<char>> {
    missing_bindings_upto(entry.required_bindings, tag, entry.required_bindings.len() as int)
}

pub fn missing_required_bindings(entry: &CheckEntry, tag: &VerificationTag) -> (missing: Vec<String>)
    ensures
        texts(missing@) == missing_bindings(entry@, tag),
{
    broadcast use group_texts;

    let mut missing: Vec<String> = Vec::new();
    let mut i: usize = 0;
    proof {
        assert(texts(entry.required_bindings@).len() == entry.required_bindings@.len());
    }
    while i < entry.required_bindings.len()
        invariant
            i <= entry.required_bindings@.len(),
            texts(entry.required_bindings@).len() == entry.required_bindings@.len(),
            texts(missing@) == missing_bindings_upto(entry@.required_bindings, tag, i as int),
        decreases entry.required_bindings@.len() - i,
    {
        let binding = &entry.required_bindings[i];
        proof {
            assert(entry@.required_bindings[i as int] == binding@);
        }
        if is_binding_missing(tag, binding.as_str()) {
            missing.push(binding.clone());
        }
        i += 1;
    }
    missing
}

/// A tag is valid when the registry knows its id, its scope fits, no
/// required binding is missing, and it names a bound where one is required.
pub open spec fn tag_valid(reg: Seq<CheckEntryView>, tag: &VerificationTag) -> bool {
    let k = check_index(reg, tag.id@);
    k >= 0 && scope_fits(reg[k].scope_type, tag.scope@) && missing_bindings(reg[k], tag).len() == 0
        && !(reg[k].requires_bound && binding_missing(tag, "bound"@))
}

pub fn tag_is_valid(tag: &VerificationTag, registry: &Vec<CheckEntry>) -> (r: bool)
    ensures
        r == tag_valid(check_views(registry@), tag),
{
    match find_check(registry, tag.id.as_str()) {
        Some(k) => {
            let entry = &registry[k];
            proof {
                assert(check_views(registry@)[k as int] == entry@);
            }
            if !scope_matches(entry.scope_type.as_str(), tag.scope.as_str()) {
                return false;
            }
            let missing = missing_required_bindings(entry, tag);
            proof {
                assert(texts(missing@).len() == missing@.len());
            }
            if missing.len() > 0 {
                return false;
            }
            !(entry.requires_bound && is_binding_missing(tag, "bound"))
        },
        None => false,
    }
}

/// The type and the name of a scope, trimmed and in lower case; `None`
/// where the scope has no colon or one of the two is empty.
pub open spec fn parsed_scope(scope: Seq<char>) -> Option<(Seq<char>, Seq<char>)> {
    let k = index_from(scope, ':', 0);
    if k >= scope.len() {
        None
    } else {
        let scope_type = lower(trim(scope.subrange(0, k)));
        let scope_name = lower(trim(scope.subrange(k + 1, scope.len() as int)));
        if scope_type.len() == 0 || scope_name.len() == 0 {
            None
        } else {
            Some((scope_type, scope_name))
        }
    }
}

pub fn parse_scope(scope: &str) -> (r: Option<(String, String)>)
    ensures
        match r {
            Some(p) => parsed_scope(scope@) == Some((p.0@, p.1@)),
            None => parsed_scope(scope@).is_none(),
        },
{
    let v = chars_of(scope);
    let k = chars_index_from(&v, ':', 0);
    if k >= v.len() {
        return None;
    }
    let scope_type = lower_chars(&chars_trim(&chars_between(&v, 0, k)));
    let scope_name = lower_chars(&chars_trim(&chars_between(&v, k + 1, v.len())));
    if scope_type.len() == 0 || scope_name.len() == 0 {
        None
    } else {
        Some((string_of(&scope_type), string_of(&scope_name)))
    }
}

/// The index of the last of the first `n` architectures with this name, up
/// to case, or -1.
pub open spec fn last_arch_named(input: &Input, name: Seq<char>, n: int) -> int
    decreases n,
{
    if n <= 0 || n > input.architectures@.len() {
        -1
    } else if same_name(input.architectures@[n - 1].name@, name) {
        n - 1
    } else {
        last_arch_named(input, name, n - 1)
    }
}

/// The entity that the architecture of this name implements, in lower case:
/// by the last architecture of the name.
pub fn arch_entity_map(input: &Input, arch_name: &str) -> (r: Option<String>)
    ensures
        match r {
            Some(e) => last_arch_named(input, arch_name@, input.architectures@.len() as int) >= 0
                && e@ == lower(
                input.architectures@[last_arch_named(
                    input,
                    arch_name@,
                    input.architectures@.len() as int,
                )].entity_name@,
            ),
            None => last_arch_named(input, arch_name@, input.architectures@.len() as int) == -1,
        },
{
    let mut n: usize = input.architectures.len();
    while n > 0
        invariant
            n <= input.architectures@.len(),
            last_arch_named(input, arch_name@, input.architectures@.len() as int)
                == last_arch_named(input, arch_name@, n as int),
        decreases n,
    {
        if same(input.architectures[n - 1].name.as_str(), arch_name) {
            return Some(to_lower(input.architectures[n - 1].entity_name.as_str()));
        }
        n -= 1;
    }
    None
}

/// The key of the scope that a tag speaks of: `arch:` or `entity:` and the
/// name in lower case.  `None` where the scope cannot be read, is of
/// another type, or is not the scope that the tag stands in.
pub open spec fn scope_key(input: &Input, tag: &VerificationTag) -> Option<Seq<char>> {
    match parsed_scope(tag.scope@) {
        Some(p) => {
            let a = last_arch_named(input, tag.in_arch@, input.architectures@.len() as int);
            if p.0 == "arch"@ {
                if same_name(tag.in_arch@, p.1) {
                    Some("arch:"@ + p.1)
                } else {
                    None
                }
            } else if p.0 == "entity"@ {
                if a >= 0 && same_name(lower(input.architectures@[a].entity_name@), p.1) {
                    Some("entity:"@ + p.1)
                } else {
                    None
                }
            } else {
                None
            }
        },
        None => None,
    }
}

pub fn tag_scope_key(input: &Input, tag: &VerificationTag) -> (r: Option<String>)
    ensures
        match r {
            Some(k) => scope_key(input, tag) == Some(k@),
            None => scope_key(input, tag).is_none(),
        },
{
    match parse_scope(tag.scope.as_str()) {
        Some(p) => {
            if str_eq(p.0.as_str(), "arch") {
                if same(tag.in_arch.as_str(), p.1.as_str()) {
                    let mut key = String::from_str("arch:");
                    key.append(p.1.as_str());
                    Some(key)
                } else {
                    None
                }
            } else if str_eq(p.0.as_str(), "entity") {
                match arch_entity_map(input, tag.in_arch.as_str()) {
                    Some(expected) => {
                        if same(expected.as_str(), p.1.as_str()) {
                            let mut key = String::from_str("entity:");
                            key.append(p.1.as_str());
                            Some(key)
                        } else {
                            None
                        }
                    },
                    None => None,
                }
            } else {
                None
            }
        },
        None => None,
    }
}

/// A valid tag with the key of its scope.
pub struct ScopedTag {
    pub scope: String,
    pub index: usize,
}

/// The scoped tags of a list: the scope key and the index of the tag.
pub open spec fn scoped_views(s: Seq<ScopedTag>) -> Seq<(Seq<char>, int)> {
    Seq::new(s.len(), |i: int| (s[i].scope@, s[i].index as int))
}

/// The valid tags among the first `n` that stand in the scope they speak of.
pub open spec fn scoped_tags_upto(input: &Input, reg: Seq<CheckEntryView>, n: int) -> Seq<
    (Seq<char>, int),
>
    decreases n,
{
    if n <= 0 {
        Seq::empty()
    } else {
        let rest = scoped_tags_upto(input, reg, n - 1);
        let tag = &input.verification_tags@[n - 1];
        match scope_key(input, tag) {
            Some(k) => if tag_valid(reg, tag) {
                rest.push((k, n - 1))
            } else {
                rest
            },
            None => rest,
        }
    }
}

pub open spec fn scoped_tags(input: &Input, reg: Seq<CheckEntryView>) -> Seq<(Seq<char>, int)> {
    scoped_tags_upto(input, reg, input.verification_tags@.len() as int)
}

/// The valid tags, each with the key of its scope.
pub fn tags_by_scope(input: &Input, registry: &Vec<CheckEntry>) -> (scoped: Vec<ScopedTag>)
    ensures
        scoped_views(scoped@) == scoped_tags(input, check_views(registry@)),
        forall|k: int|
            0 <= k < scoped@.len() ==> (#[trigger] scoped@[k]).index
                < input.verification_tags@.len(),
{
    let mut scoped: Vec<ScopedTag> = Vec::new();
    let mut i: usize = 0;
    proof {
        assert(scoped_views(scoped@) =~= scoped_tags_upto(input, check_views(registry@), 0));
    }
    while i < input.verification_tags.len()
        invariant
            i <= input.verification_tags@.len(),
            scoped_views(scoped@) == scoped_tags_upto(input, check_views(registry@), i as int),
            forall|k: int|
                0 <= k < scoped@.len() ==> (#[trigger] scoped@[k]).index
                    < input.verification_tags@.len(),
        decreases input.verification_tags@.len() - i,
    {
        let tag = &input.verification_tags[i];
        if tag_is_valid(tag, registry) {
            match tag_scope_key(input, tag) {
                Some(key) => {
                    let entry = ScopedTag { scope: key, index: i };
                    proof {
                        assert(scoped_views(scoped@.push(entry)) =~= scoped_views(scoped@).push(
                            (entry.scope@, i as int),
                        ));
                    }
                    scoped.push(entry);
                },
                None => {},
            }
        }
        i += 1;
    }
    scoped
}

/// The prefix of the cover ids that accompany a check: `cover.`, the family
/// of the check and a dot.  A cover check has none.
pub open spec fn cover_prefix(id: Seq<char>) -> Option<Seq<char>> {
    let l = lower(id);
    if starts_with(l, "cover."@) {
        None
    } else {
        Some("cover."@ + before_first(l, '.') + "."@)
    }
}

pub fn cover_prefix_for(id: &str) -> (r: Option<String>)
    ensures
        match r {
            Some(p) => cover_prefix(id@) == Some(p@),
            None => cover_prefix(id@).is_none(),
        },
{
    let l = lower_chars_of(id);
    if begins(&l, "cover.") {
        return None;
    }
    let family = string_of(&chars_before_first(&l, '.'));
    let mut prefix = String::from_str("cover.");
    prefix.append(family.as_str());
    prefix.append(".");
    Some(prefix)
}

/// The finding for a tag that could not be read.
pub open spec fn tag_error_finding(err: &VerificationTagError) -> ViolationView {
    ViolationView {
        rule: "invalid_verification_tag"@,
        severity: "error"@,
        file: err.file@,
        line: err.line as nat,
        message: "Malformed verification tag: "@ + err.message@,
    }
}

pub fn tag_error_violation(err: &VerificationTagError) -> (r: Violation)
    ensures
        r@ == tag_error_finding(err),
{
    let mut message = String::from_str("Malformed verification tag: ");
    message.append(err.message.as_str());
    Violation {
        rule: String::from_str("invalid_verification_tag"),
        severity: String::from_str("error"),
        file: err.file.clone(),
        line: err.line,
        message,
    }
}

/// The finding for a tag that does not fit the registry.
pub open spec fn tag_finding(tag: &VerificationTag, message: Seq<char>) -> ViolationView {
    ViolationView {
        rule: "invalid_verification_tag"@,
        severity: "error"@,
        file: tag.file@,
        line: tag.line as nat,
        message: message,
    }
}

pub fn tag_violation(tag: &VerificationTag, message: String) -> (r: Violation)
    ensures
        r@ == tag_finding(tag, message@),
{
    Violation {
        rule: String::from_str("invalid_verification_tag"),
        severity: String::from_str("error"),
        file: tag.file.clone(),
        line: tag.line,
        message,
    }
}

pub open spec fn unknown_id_finding(tag: &VerificationTag) -> ViolationView {
    tag_finding(tag, "Unknown verification check id '"@ + tag.id@ + "'"@)
}

pub open spec fn scope_mismatch_finding(tag: &VerificationTag, entry: CheckEntryView) -> ViolationView {
    tag_finding(
        tag,
        "Verification tag '"@ + tag.id@ + "' has scope '"@ + tag.scope@
            + "' but registry expects '"@ + entry.scope_type + ":*'"@,
    )
}

pub open spec fn missing_bindings_finding(tag: &VerificationTag, entry: CheckEntryView) -> ViolationView {
    tag_finding(
        tag,
        "Verification tag '"@ + tag.id@ + "' missing required bindings: "@ + join_texts(
            missing_bindings(entry, tag),
            ", "@,
        ),
    )
}

/// What is wrong with one tag: its id is unknown, or its scope does not fit,
/// or bindings are missing, or both of the latter.
pub open spec fn tag_findings(reg: Seq<CheckEntryView>, tag: &VerificationTag) -> Seq<ViolationView> {
    let k = check_index(reg, tag.id@);
    if k < 0 {
        seq![unknown_id_finding(tag)]
    } else {
        let scope = if scope_fits(reg[k].scope_type, tag.scope@) {
            Seq::empty()
        } else {
            seq![scope_mismatch_finding(tag, reg[k])]
        };
        if missing_bindings(reg[k], tag).len() > 0 {
            scope.push(missing_bindings_finding(tag, reg[k]))
        } else {
            scope
        }
    }
}

pub fn tag_violations(registry: &Vec<CheckEntry>, tag: &VerificationTag) -> (out: Vec<Violation>)
    ensures
        views(out@) == tag_findings(check_views(registry@), tag),
{
    broadcast use group_views;

    let mut out: Vec<Violation> = Vec::new();
    match find_check(registry, tag.id.as_str()) {
        Some(k) => {
            let entry = &registry[k];
            proof {
                assert(check_views(registry@)[k as int] == entry@);
            }
            if !scope_matches(entry.scope_type.as_str(), tag.scope.as_str()) {
                let mut message = String::from_str("Verification tag '");
                message.append(tag.id.as_str());
                message.append("' has scope '");
                message.append(tag.scope.as_str());
                message.append("' but registry expects '");
                message.append(entry.scope_type.as_str());
                message.append(":*'");
                out.push(tag_violation(tag, message));
            }
            let missing = missing_required_bindings(entry, tag);
            proof {
                assert(texts(missing@).len() == missing@.len());
            }
            if missing.len() > 0 {
                let mut message = String::from_str("Verification tag '");
                message.append(tag.id.as_str());
                message.append("' missing required bindings: ");
                message.append(join_strings(&missing, ", ").as_str());
                out.push(tag_violation(tag, message));
            }
            proof {
                assert(views(out@) =~= tag_findings(check_views(registry@), tag));
            }
        },
        None => {
            let mut message = String::from_str("Unknown verification check id '");
            message.append(tag.id.as_str());
            message.append("'");
            out.push(tag_violation(tag, message));
            proof {
                assert(views(out@) =~= tag_findings(check_views(registry@), tag));
            }
        },
    }
    out
}

/// The findings for the first `n` unreadable tags.
pub open spec fn tag_errors_upto(input: &Input, n: int) -> Seq<ViolationView>
    decreases n,
{
    if n <= 0 {
        Seq::empty()
    } else {
        tag_errors_upto(input, n - 1).push(
            tag_error_finding(&input.verification_tag_errors@[n - 1]),
        )
    }
}

/// The findings for the first `n` tags.
pub open spec fn tags_checked_upto(input: &Input, reg: Seq<CheckEntryView>, n: int) -> Seq<
    ViolationView,
>
    decreases n,
{
    if n <= 0 {
        Seq::empty()
    } else {
        tags_checked_upto(input, reg, n - 1) + tag_findings(reg, &input.verification_tags@[n - 1])
    }
}

/// Every tag that could not be read, then every tag that does not fit the registry.
pub open spec fn invalid_tag_violations_all(input: &Input, reg: Seq<CheckEntryView>) -> Seq<
    ViolationView,
> {
    tag_errors_upto(input, input.verification_tag_errors@.len() as int) + tags_checked_upto(
        input,
        reg,
        input.verification_tags@.len() as int,
    )
}

pub fn invalid_tag_violations(input: &Input, registry: &Vec<CheckEntry>) -> (out: Vec<Violation>)
    ensures
        views(out@) == invalid_tag_violations_all(input, check_views(registry@)),
{
    broadcast use group_views;

    let mut out: Vec<Violation> = Vec::new();
    let mut i: usize = 0;
    while i < input.verification_tag_errors.len()
        invariant
            i <= input.verification_tag_errors@.len(),
            views(out@) == tag_errors_upto(input, i as int),
        decreases input.verification_tag_errors@.len() - i,
    {
        out.push(tag_error_violation(&input.verification_tag_errors[i]));
        i += 1;
    }
    let ghost errors = views(out@);
    let mut k: usize = 0;
    proof {
        assert(errors + tags_checked_upto(input, check_views(registry@), 0) =~= errors);
    }
    while k < input.verification_tags.len()
        invariant
            k <= input.verification_tags@.len(),
            views(out@) == errors + tags_checked_upto(input, check_views(registry@), k as int),
        decreases input.verification_tags@.len() - k,
    {
        let mut part = tag_violations(registry, &input.verification_tags[k]);
        proof {
            let done = tags_checked_upto(input, check_views(registry@), k as int);
            assert((errors + done) + views(part@) =~= errors + (done + views(part@)));
        }
        out.append(&mut part);
        k += 1;
    }
    out
}

/// The tag names a check that requires a bound and gives none.
pub open spec fn lacks_bound(reg: Seq<CheckEntryView>, tag: &VerificationTag) -> bool {
    let k = check_index(reg, tag.id@);
    k >= 0 && reg[k].requires_bound && binding_missing(tag, "bound"@)
}

pub fn tag_lacks_bound(registry: &Vec<CheckEntry>, tag: &VerificationTag) -> (r: bool)
    ensures
        r == lacks_bound(check_views(registry@), tag),
{
    match find_check(registry, tag.id.as_str()) {
        Some(k) => {
            proof {
                assert(check_views(registry@)[k as int] == registry@[k as int]@);
            }
            registry[k].requires_bound && is_binding_missing(tag, "bound")
        },
        None => false,
    }
}

/// A tag of a check that requires a bound, without one.
pub open spec fn missing_liveness_bound_hit(input: &Input, registry: Seq<CheckEntryView>, tag: &VerificationTag) -> bool {
    lacks_bound(registry, tag)
}

pub open spec fn missing_liveness_bound_finding(input: &Input, registry: Seq<CheckEntryView>, tag: &VerificationTag) -> ViolationView {
    ViolationView {
        rule: "missing_liveness_bound"@,
        severity: "error"@,
        file: tag.file@,
        line: tag.line as nat,
        message: "Verification tag '"@ + tag.id@ + "' requires an explicit bound (add bound=)"@,
    }
}

/// The findings for the first `n` rows, in row order.
pub open spec fn missing_liveness_bound_upto(input: &Input, registry: Seq<CheckEntryView>, n: int) -> Seq<ViolationView>
    decreases n,
{
    if n <= 0 {
        Seq::empty()
    } else {
        let rest = missing_liveness_bound_upto(input, registry, n - 1);
        let tag = &input.verification_tags@[n - 1];
        if missing_liveness_bound_hit(input, registry, tag) {
            rest.push(missing_liveness_bound_finding(input, registry, tag))
        } else {
            rest
        }
    }
}

pub open spec fn missing_liveness_bound_all(input: &Input, registry: Seq<CheckEntryView>) -> Seq<ViolationView> {
    missing_liveness_bound_upto(input, registry, input.verification_tags@.len() as int)
}

pub fn missing_liveness_bound(input: &Input, registry: &Vec<CheckEntry>) -> (out: Vec<Violation>)
    ensures
        views(out@) == missing_liveness_bound_all(input, check_views(registry@)),
{
    broadcast use group_views;

    let mut out: Vec<Violation> = Vec::new();
    let mut i: usize = 0;
    while i < input.verification_tags.len()
        invariant
            i <= input.verification_tags@.len(),
            views(out@) == missing_liveness_bound_upto(input, check_views(registry@), i as int),
        decreases input.verification_tags@.len() - i,
    {
        let tag = &input.verification_tags[i];
        if tag_lacks_bound(registry, tag) {
            let mut message = String::from_str("Verification tag '");
            message.append(tag.id.as_str());
            message.append("' requires an explicit bound (add bound=)");
            out.push(
                Violation {
                    rule: String::from_str("missing_liveness_bound"),
                    severity: String::from_str("error"),
                    file: tag.file.clone(),
                    line: tag.line,
                    message,
                },
            );
        }
        i += 1;
    }
    out
}

/// The design patterns that the planner recognises.
#[derive(Debug, Clone, Copy, PartialEq, Eq, Hash)]
pub enum ConstructKind {
    Fsm,
    Counter,
    ReadyValid,
    Fifo,
}

impl ConstructKind {
    /// The name of the kind in messages and keys.
    pub open spec fn label_text(&self) -> Seq<char> {
        match self {
            ConstructKind::Fsm => "fsm"@,
            ConstructKind::Counter => "counter"@,
            ConstructKind::ReadyValid => "ready_valid"@,
            ConstructKind::Fifo => "fifo"@,
        }
    }

    pub fn label(&self) -> (r: &'static str)
        ensures
            r@ == self.label_text(),
    {
        match self {
            ConstructKind::Fsm => "fsm",
            ConstructKind::Counter => "counter",
            ConstructKind::ReadyValid => "ready_valid",
            ConstructKind::Fifo => "fifo",
        }
    }
}

/// A recognised design pattern with the signals that play its roles.
#[derive(Debug, Clone)]
pub struct Construct {
    pub kind: ConstructKind,
    pub in_arch: String,
    pub file: String,
    pub line: usize,
    pub bindings: StringMap,
}

/// The mathematical content of a [`Construct`].
pub struct ConstructView {
    pub kind: ConstructKind,
    pub in_arch: Seq<char>,
    pub file: Seq<char>,
    pub line: nat,
    pub bindings: Seq<(Seq<char>, Seq<char>)>,
}

impl View for Construct {
    type V = ConstructView;

    open spec fn view(&self) -> ConstructView {
        ConstructView {
            kind: self.kind,
            in_arch: self.in_arch@,
            file: self.file@,
            line: self.line as nat,
            bindings: self.bindings@,
        }
    }
}

/// The constructs of a list, each by its content.
pub open spec fn construct_views(s: Seq<Construct>) -> Seq<ConstructView> {
    Seq::new(s.len(), |i: int| s[i]@)
}

pub broadcast proof fn lemma_construct_views_push(s: Seq<Construct>, c: Construct)
    ensures
        #[trigger] construct_views(s.push(c)) == construct_views(s).push(c@),
{
    assert(construct_views(s.push(c)) =~= construct_views(s).push(c@));
}

pub broadcast proof fn lemma_construct_views_add(a: Seq<Construct>, b: Seq<Construct>)
    ensures
        #[trigger] construct_views(a + b) == construct_views(a) + construct_views(b),
{
    assert(construct_views(a + b) =~= construct_views(a) + construct_views(b));
}

pub broadcast proof fn lemma_construct_views_empty(s: Seq<Construct>)
    requires
        s.len() == 0,
    ensures
        #[trigger] construct_views(s) == Seq::<ConstructView>::empty(),
{
    assert(construct_views(s) =~= Seq::<ConstructView>::empty());
}

pub broadcast group group_constructs {
    lemma_construct_views_push,
    lemma_construct_views_add,
    lemma_construct_views_empty,
}

/// The mathematical content of an [`AmbiguousConstruct`].
pub struct AmbiguousView {
    pub kind: Seq<char>,
    pub scope: Seq<char>,
    pub file: Seq<char>,
    pub line: nat,
    pub candidates: Seq<(Seq<char>, Seq<Seq<char>>)>,
}

/// The roles of a list with their candidates, each by its texts.
pub open spec fn role_views(s: Seq<RoleCandidates>) -> Seq<(Seq<char>, Seq<Seq<char>>)> {
    Seq::new(s.len(), |i: int| (s[i].role@, texts(s[i].names@)))
}

pub open spec fn ambiguous_view(a: &AmbiguousConstruct) -> AmbiguousView {
    AmbiguousView {
        kind: a.kind@,
        scope: a.scope@,
        file: a.file@,
        line: a.line as nat,
        candidates: role_views(a.candidates@),
    }
}

/// The ambiguous constructs of a list, each by its content.
pub open spec fn ambiguous_views(s: Seq<AmbiguousConstruct>) -> Seq<AmbiguousView> {
    Seq::new(s.len(), |i: int| ambiguous_view(&s[i]))
}

/// A map with one binding.
pub fn one_binding(key: &str, value: &str) -> (r: StringMap)
    ensures
        r@ == seq![(key@, value@)],
{
    let mut entries: Vec<MapEntry> = Vec::new();
    let mut k = String::new();
    k.append(key);
    let mut v = String::new();
    v.append(value);
    proof {
        assert(k@ =~= key@);
        assert(v@ =~= value@);
    }
    entries.push(MapEntry { key: k, value: v });
    let map = StringMap { entries };
    proof {
        assert(map@ =~= seq![(key@, value@)]);
    }
    map
}

/// Adds a binding at the end of a map.
pub fn add_binding(map: &mut StringMap, key: &str, value: &str)
    ensures
        final(map)@ == old(map)@.push((key@, value@)),
{
    let mut k = String::new();
    k.append(key);
    let mut v = String::new();
    v.append(value);
    proof {
        assert(k@ =~= key@);
        assert(v@ =~= value@);
    }
    let ghost before = map.entries@;
    map.entries.push(MapEntry { key: k, value: v });
    proof {
        assert(entry_views(map.entries@) =~= entry_views(before).push((key@, value@)));
    }
}

/// The keys of some bindings, in their order.
pub open spec fn binding_keys(b: Seq<(Seq<char>, Seq<char>)>) -> Seq<Seq<char>> {
    Seq::new(b.len(), |i: int| b[i].0)
}

/// The value of the first binding at or after `i` with this key; empty if there is none.
pub open spec fn binding_value_from(b: Seq<(Seq<char>, Seq<char>)>, key: Seq<char>, i: int) -> Seq<
    char,
>
    decreases b.len() - i,
{
    if i < 0 || i >= b.len() {
        Seq::empty()
    } else if b[i].0 == key {
        b[i].1
    } else {
        binding_value_from(b, key, i + 1)
    }
}

/// The first `n` of the given keys, each with its value as `key=value`.
pub open spec fn binding_items_upto(b: Seq<(Seq<char>, Seq<char>)>, keys: Seq<Seq<char>>, n: int) -> Seq<
    Seq<char>,
>
    decreases n,
{
    if n <= 0 {
        Seq::empty()
    } else {
        binding_items_upto(b, keys, n - 1).push(
            keys[n - 1] + "="@ + binding_value_from(b, keys[n - 1], 0),
        )
    }
}

/// The bindings as `key=value`, in the order of their keys, separated by
/// commas.  The keys of a map are all different.
pub open spec fn formatted_bindings(b: Seq<(Seq<char>, Seq<char>)>) -> Seq<char> {
    let keys = sort_texts(binding_keys(b));
    join_texts(binding_items_upto(b, keys, keys.len() as int), ", "@)
}

fn binding_value(bindings: &StringMap, key: &str) -> (r: String)
    ensures
        r@ == binding_value_from(bindings@, key@, 0),
{
    let mut i: usize = 0;
    while i < bindings.entries.len()
        invariant
            i <= bindings.entries@.len(),
            bindings@.len() == bindings.entries@.len(),
            binding_value_from(bindings@, key@, 0) == binding_value_from(bindings@, key@, i as int),
        decreases bindings.entries@.len() - i,
    {
        proof {
            assert(bindings@[i as int] == (
                bindings.entries@[i as int].key@,
                bindings.entries@[i as int].value@,
            ));
        }
        if str_eq(bindings.entries[i].key.as_str(), key) {
            return bindings.entries[i].value.clone();
        }
        i += 1;
    }
    String::new()
}

pub fn format_bindings(bindings: &StringMap) -> (r: String)
    ensures
        r@ == formatted_bindings(bindings@),
{
    broadcast use group_texts;

    let mut keys: Vec<String> = Vec::new();
    let mut i: usize = 0;
    while i < bindings.entries.len()
        invariant
            i <= bindings.entries@.len(),
            keys@.len() == i,
            forall|k: int| 0 <= k < i ==> (#[trigger] keys@[k])@ == bindings.entries@[k].key@,
        decreases bindings.entries@.len() - i,
    {
        keys.push(bindings.entries[i].key.clone());
        i += 1;
    }
    proof {
        assert(texts(keys@) =~= binding_keys(bindings@));
    }
    let sorted = sorted_strings(&keys);
    let mut items: Vec<String> = Vec::new();
    let mut k: usize = 0;
    proof {
        assert(texts(sorted@).len() == sorted@.len());
    }
    while k < sorted.len()
        invariant
            k <= sorted@.len(),
            texts(sorted@).len() == sorted@.len(),
            texts(items@) == binding_items_upto(bindings@, texts(sorted@), k as int),
        decreases sorted@.len() - k,
    {
        proof {
            assert(texts(sorted@)[k as int] == sorted@[k as int]@);
        }
        let mut item = sorted[k].clone();
        item.append("=");
        item.append(binding_value(bindings, sorted[k].as_str()).as_str());
        items.push(item);
        k += 1;
    }
    join_strings(&items, ", ")
}

/// The names of the enumeration types among the first `n` types, in lower case.
pub open spec fn enum_types_upto(input: &Input, n: int) -> Seq<Seq<char>>
    decreases n,
{
    if n <= 0 {
        Seq::empty()
    } else if same_name(input.types@[n - 1].kind@, "enum"@) {
        enum_types_upto(input, n - 1).push(lower(input.types@[n - 1].name@))
    } else {
        enum_types_upto(input, n - 1)
    }
}

/// The enumeration types and those of the first `n` subtypes whose base is
/// one of the names before them.
pub open spec fn enum_names_upto(input: &Input, n: int) -> Seq<Seq<char>>
    decreases n,
{
    if n <= 0 {
        enum_types_upto(input, input.types@.len() as int)
    } else {
        let rest = enum_names_upto(input, n - 1);
        if rest.contains(base_type(input.subtypes@[n - 1].base_type@)) {
            rest.push(lower(input.subtypes@[n - 1].name@))
        } else {
            rest
        }
    }
}

/// The names of all enumeration types and of the subtypes built on them.
pub open spec fn enum_names(input: &Input) -> Seq<Seq<char>> {
    enum_names_upto(input, input.subtypes@.len() as int)
}

pub fn enum_type_names(input: &Input) -> (names: Vec<String>)
    ensures
        texts(names@) == enum_names(input),
{
    broadcast use group_texts;

    let mut names: Vec<String> = Vec::new();
    let mut i: usize = 0;
    while i < input.types.len()
        invariant
            i <= input.types@.len(),
            texts(names@) == enum_types_upto(input, i as int),
        decreases input.types@.len() - i,
    {
        if same(input.types[i].kind.as_str(), "enum") {
            names.push(to_lower(input.types[i].name.as_str()));
        }
        i += 1;
    }
    let mut k: usize = 0;
    while k < input.subtypes.len()
        invariant
            k <= input.subtypes@.len(),
            texts(names@) == enum_names_upto(input, k as int),
        decreases input.subtypes@.len() - k,
    {
        let base = base_type_name(input.subtypes[k].base_type.as_str());
        if list_has(&names, base.as_str()) {
            names.push(to_lower(input.subtypes[k].name.as_str()));
        }
        k += 1;
    }
    names
}

/// A letter, a digit or an underscore.
pub open spec fn identifier_char(c: char) -> bool {
    ('a' <= c && c <= 'z') || ('A' <= c && c <= 'Z') || ('0' <= c && c <= '9') || c == '_'
}

/// A text that is one plain identifier.
pub open spec fn simple_identifier(expr: Seq<char>) -> bool {
    expr.len() > 0 && forall|i: int| 0 <= i < expr.len() ==> identifier_char(#[trigger] expr[i])
}

pub fn is_simple_identifier(expr: &str) -> (r: bool)
    ensures
        r == simple_identifier(expr@),
{
    let v = chars_of(expr);
    if v.len() == 0 {
        return false;
    }
    let mut i: usize = 0;
    while i < v.len()
        invariant
            i <= v@.len(),
            v@ == expr@,
            forall|k: int| 0 <= k < i ==> identifier_char(#[trigger] v@[k]),
        decreases v@.len() - i,
    {
        let c = v[i];
        if !(('a' <= c && c <= 'z') || ('A' <= c && c <= 'Z') || ('0' <= c && c <= '9') || c
            == '_') {
            return false;
        }
        i += 1;
    }
    true
}

/// The index of the first signal at or after `i` with this name, or the number of signals.
pub open spec fn first_signal_named(input: &Input, name: Seq<char>, i: int) -> int
    decreases input.signals@.len() - i,
{
    if i < 0 || i >= input.signals@.len() {
        input.signals@.len() as int
    } else if same_name(input.signals@[i].name@, name) {
        i
    } else {
        first_signal_named(input, name, i + 1)
    }
}

pub fn find_signal(input: &Input, name: &str) -> (r: usize)
    ensures
        r == first_signal_named(input, name@, 0),
        r <= input.signals@.len(),
{
    let mut i: usize = 0;
    while i < input.signals.len()
        invariant
            i <= input.signals@.len(),
            first_signal_named(input, name@, 0) == first_signal_named(input, name@, i as int),
        decreases input.signals@.len() - i,
    {
        if same(input.signals[i].name.as_str(), name) {
            return i;
        }
        i += 1;
    }
    i
}

/// The first signal of this name has one of the enumeration types.
pub open spec fn enum_signal(input: &Input, signal: Seq<char>, enum_types: Seq<Seq<char>>) -> bool {
    let s = first_signal_named(input, signal, 0);
    s < input.signals@.len() && enum_types.contains(base_type(input.signals@[s].ty@))
}

pub fn signal_is_enum(input: &Input, signal: &str, enum_types: &Vec<String>) -> (r: bool)
    ensures
        r == enum_signal(input, signal@, texts(enum_types@)),
{
    let s = find_signal(input, signal);
    s < input.signals.len() && list_has(
        enum_types,
        base_type_name(input.signals[s].ty.as_str()).as_str(),
    )
}

/// The first signal of this name has a numeric type.
pub open spec fn numeric_signal(input: &Input, signal: Seq<char>) -> bool {
    let s = first_signal_named(input, signal, 0);
    s < input.signals@.len() && ({
        let ty = input.signals@[s].ty@;
        base_type(ty) == "integer"@ || base_type(ty) == "natural"@ || base_type(ty) == "positive"@
            || unsigned_type(ty) || signed_type(ty)
    })
}

pub fn signal_is_numeric(input: &Input, signal: &str) -> (r: bool)
    ensures
        r == numeric_signal(input, signal@),
{
    let s = find_signal(input, signal);
    if s >= input.signals.len() {
        return false;
    }
    let ty = input.signals[s].ty.as_str();
    let base = base_type_name(ty);
    str_eq(base.as_str(), "integer") || str_eq(base.as_str(), "natural") || str_eq(
        base.as_str(),
        "positive",
    ) || is_unsigned_type(ty) || is_signed_type(ty)
}

/// The process may hold the case statement: it lies in the same
/// architecture and, where the statement names a process, carries its label.
pub open spec fn process_candidate(cs: &CaseStatement, proc: &Process) -> bool {
    same_name(proc.in_arch@, cs.in_arch@) && (cs.in_process@.len() == 0 || same_name(
        proc.label@,
        cs.in_process@,
    ))
}

pub fn is_process_candidate(cs: &CaseStatement, proc: &Process) -> (r: bool)
    ensures
        r == process_candidate(cs, proc),
{
    same(proc.in_arch.as_str(), cs.in_arch.as_str()) && (cs.in_process.as_str().is_empty() || same(
        proc.label.as_str(),
        cs.in_process.as_str(),
    ))
}

/// Process `i` holds the state register: a sequential candidate that both
/// assigns and reads the signal.
pub open spec fn holds_state(input: &Input, cs: &CaseStatement, i: int) -> bool {
    let proc = &input.processes@[i];
    process_candidate(cs, proc) && proc.is_sequential && listed(
        proc.assigned_signals@,
        trim(cs.expression@),
    ) && listed(proc.read_signals@, trim(cs.expression@))
}

/// A case statement over a single enumerated signal that a sequential
/// process of the same architecture assigns and reads.
pub open spec fn fsm_case(input: &Input, cs: &CaseStatement, enum_types: Seq<Seq<char>>) -> bool {
    simple_identifier(trim(cs.expression@)) && enum_signal(
        input,
        trim(cs.expression@),
        enum_types,
    ) && exists|i: int| 0 <= i < input.processes@.len() && #[trigger] holds_state(input, cs, i)
}

pub fn is_fsm_case(input: &Input, case_stmt: &CaseStatement, enum_types: &Vec<String>) -> (r: bool)
    ensures
        r == fsm_case(input, case_stmt, texts(enum_types@)),
{
    let expr = trimmed(case_stmt.expression.as_str());
    if !is_simple_identifier(expr.as_str()) {
        return false;
    }
    if !signal_is_enum(input, expr.as_str(), enum_types) {
        return false;
    }
    let mut i: usize = 0;
    while i < input.processes.len()
        invariant
            i <= input.processes@.len(),
            expr@ == trim(case_stmt.expression@),
            simple_identifier(trim(case_stmt.expression@)),
            enum_signal(input, trim(case_stmt.expression@), texts(enum_types@)),
            forall|k: int| 0 <= k < i ==> !#[trigger] holds_state(input, case_stmt, k),
        decreases input.processes@.len() - i,
    {
        let proc = &input.processes[i];
        if is_process_candidate(case_stmt, proc) && proc.is_sequential && signal_in_list(
            expr.as_str(),
            proc.assigned_signals.as_slice(),
        ) && signal_in_list(expr.as_str(), proc.read_signals.as_slice()) {
            assert(holds_state(input, case_stmt, i as int));
            return true;
        }
        i += 1;
    }
    false
}

/// The state machine that a case statement shows.
pub open spec fn fsm_construct(cs: &CaseStatement) -> ConstructView {
    ConstructView {
        kind: ConstructKind::Fsm,
        in_arch: cs.in_arch@,
        file: cs.file@,
        line: cs.line as nat,
        bindings: seq![("state"@, trim(cs.expression@))],
    }
}

/// The state machines among the first `n` case statements.
pub open spec fn fsm_constructs_upto(input: &Input, n: int) -> Seq<ConstructView>
    decreases n,
{
    if n <= 0 {
        Seq::empty()
    } else if fsm_case(input, &input.case_statements@[n - 1], enum_names(input)) {
        fsm_constructs_upto(input, n - 1).push(fsm_construct(&input.case_statements@[n - 1]))
    } else {
        fsm_constructs_upto(input, n - 1)
    }
}

pub open spec fn fsm_constructs(input: &Input) -> Seq<ConstructView> {
    fsm_constructs_upto(input, input.case_statements@.len() as int)
}

pub fn detect_fsm_constructs(input: &Input) -> (constructs: Vec<Construct>)
    ensures
        construct_views(constructs@) == fsm_constructs(input),
{
    broadcast use group_constructs;

    let enum_types = enum_type_names(input);
    let mut constructs: Vec<Construct> = Vec::new();
    let mut i: usize = 0;
    while i < input.case_statements.len()
        invariant
            i <= input.case_statements@.len(),
            texts(enum_types@) == enum_names(input),
            construct_views(constructs@) == fsm_constructs_upto(input, i as int),
        decreases input.case_statements@.len() - i,
    {
        let cs = &input.case_statements[i];
        if is_fsm_case(input, cs, &enum_types) {
            let state = trimmed(cs.expression.as_str());
            constructs.push(
                Construct {
                    kind: ConstructKind::Fsm,
                    in_arch: cs.in_arch.clone(),
                    file: cs.file.clone(),
                    line: cs.line,
                    bindings: one_binding("state", state.as_str()),
                },
            );
        }
        i += 1;
    }
    constructs
}

/// The counter that a process shows in one of its signals.
pub open spec fn counter_construct(proc: &Process, signal: Seq<char>) -> ConstructView {
    ConstructView {
        kind: ConstructKind::Counter,
        in_arch: proc.in_arch@,
        file: proc.file@,
        line: proc.line as nat,
        bindings: seq![("counter"@, signal)],
    }
}

/// The counters among the first `n` assigned signals of a process: numeric
/// signals that the process also reads.
pub open spec fn counters_in_process_upto(input: &Input, proc: &Process, n: int) -> Seq<
    ConstructView,
>
    decreases n,
{
    if n <= 0 {
        Seq::empty()
    } else {
        let rest = counters_in_process_upto(input, proc, n - 1);
        let signal = proc.assigned_signals@[n - 1]@;
        if listed(proc.read_signals@, signal) && numeric_signal(input, signal) {
            rest.push(counter_construct(proc, signal))
        } else {
            rest
        }
    }
}

/// The counters of the sequential processes among the first `n` processes.
pub open spec fn counter_constructs_upto(input: &Input, n: int) -> Seq<ConstructView>
    decreases n,
{
    if n <= 0 {
        Seq::empty()
    } else if input.processes@[n - 1].is_sequential {
        counter_constructs_upto(input, n - 1) + counters_in_process_upto(
            input,
            &input.processes@[n - 1],
            input.processes@[n - 1].assigned_signals@.len() as int,
        )
    } else {
        counter_constructs_upto(input, n - 1)
    }
}

pub open spec fn counter_constructs(input: &Input) -> Seq<ConstructView> {
    counter_constructs_upto(input, input.processes@.len() as int)
}

fn counters_in_process(input: &Input, proc: &Process) -> (constructs: Vec<Construct>)
    ensures
        construct_views(constructs@) == counters_in_process_upto(
            input,
            proc,
            proc.assigned_signals@.len() as int,
        ),
{
    broadcast use group_constructs;

    let mut constructs: Vec<Construct> = Vec::new();
    let mut i: usize = 0;
    while i < proc.assigned_signals.len()
        invariant
            i <= proc.assigned_signals@.len(),
            construct_views(constructs@) == counters_in_process_upto(input, proc, i as int),
        decreases proc.assigned_signals@.len() - i,
    {
        let signal = &proc.assigned_signals[i];
        if signal_in_list(signal.as_str(), proc.read_signals.as_slice()) && signal_is_numeric(
            input,
            signal.as_str(),
        ) {
            constructs.push(
                Construct {
                    kind: ConstructKind::Counter,
                    in_arch: proc.in_arch.clone(),
                    file: proc.file.clone(),
                    line: proc.line,
                    bindings: one_binding("counter", signal.as_str()),
                },
            );
        }
        i += 1;
    }
    constructs
}

pub fn detect_counter_constructs(input: &Input) -> (constructs: Vec<Construct>)
    ensures
        construct_views(constructs@) == counter_constructs(input),
{
    broadcast use group_constructs;

    let mut constructs: Vec<Construct> = Vec::new();
    let mut i: usize = 0;
    while i < input.processes.len()
        invariant
            i <= input.processes@.len(),
            construct_views(constructs@) == counter_constructs_upto(input, i as int),
        decreases input.processes@.len() - i,
    {
        if input.processes[i].is_sequential {
            let mut part = counters_in_process(input, &input.processes[i]);
            constructs.append(&mut part);
        }
        i += 1;
    }
    constructs
}

/// What the planner reads of a port: its direction in lower case and
/// whether its type is a single bit.
pub struct PortInfo {
    pub direction: String,
    pub single_bit: bool,
}

/// The index of the last of the first `n` ports with this name, up to case, or -1.
pub open spec fn last_port_named(input: &Input, name: Seq<char>, n: int) -> int
    decreases n,
{
    if n <= 0 || n > input.ports@.len() {
        -1
    } else if same_name(input.ports@[n - 1].name@, name) {
        n - 1
    } else {
        last_port_named(input, name, n - 1)
    }
}

/// The port that a name means: the last one declared under it.
pub open spec fn port_of(input: &Input, name: Seq<char>) -> int {
    last_port_named(input, name, input.ports@.len() as int)
}

/// The direction and bit width of the port that a name means.
pub fn port_info_map(input: &Input, name: &str) -> (r: Option<PortInfo>)
    ensures
        match r {
            Some(info) => port_of(input, name@) >= 0 && info.direction@ == lower(
                input.ports@[port_of(input, name@)].direction@,
            ) && info.single_bit == single_bit_type(input.ports@[port_of(input, name@)].ty@),
            None => port_of(input, name@) == -1,
        },
{
    let mut n: usize = input.ports.len();
    while n > 0
        invariant
            n <= input.ports@.len(),
            port_of(input, name@) == last_port_named(input, name@, n as int),
        decreases n,
    {
        let port = &input.ports[n - 1];
        if same(port.name.as_str(), name) {
            return Some(
                PortInfo {
                    direction: to_lower(port.direction.as_str()),
                    single_bit: is_single_bit_type(port.ty.as_str()),
                },
            );
        }
        n -= 1;
    }
    None
}

/// A port of this name exists, is a single bit and has this direction.
pub open spec fn bit_port(input: &Input, name: Seq<char>, direction: Seq<char>) -> bool {
    let p = port_of(input, name);
    p >= 0 && single_bit_type(input.ports@[p].ty@) && lower(input.ports@[p].direction@)
        == direction
}

pub fn is_bit_port(input: &Input, name: &str, direction: &str) -> (r: bool)
    ensures
        r == bit_port(input, name@, direction@),
{
    match port_info_map(input, name) {
        Some(info) => info.single_bit && str_eq(info.direction.as_str(), direction),
        None => false,
    }
}

/// How a concurrent assignment of two single-bit ports reads as a
/// handshake: which of the two is `valid` and which is `ready`.
pub enum Handshake {
    /// The first read signal is `valid`, the second `ready`.
    Forward,
    /// The second read signal is `valid`, the first `ready`.
    Backward,
    /// The directions do not tell the roles apart.
    Unclear,
    /// No handshake: not two signals, or not two single-bit ports.
    Absent,
}

/// The handshake that a concurrent assignment shows.
pub open spec fn handshake_of(input: &Input, ca: &ConcurrentAssignment) -> Handshake {
    if ca.read_signals@.len() != 2 {
        Handshake::Absent
    } else {
        let pa = port_of(input, ca.read_signals@[0]@);
        let pb = port_of(input, ca.read_signals@[1]@);
        if pa < 0 || pb < 0 || !single_bit_type(input.ports@[pa].ty@) || !single_bit_type(
            input.ports@[pb].ty@,
        ) {
            Handshake::Absent
        } else {
            let da = lower(input.ports@[pa].direction@);
            let db = lower(input.ports@[pb].direction@);
            if (da == "out"@ || da == "buffer"@) && db == "in"@ {
                Handshake::Forward
            } else if da == "in"@ && (db == "out"@ || db == "buffer"@) {
                Handshake::Backward
            } else {
                Handshake::Unclear
            }
        }
    }
}

pub fn read_handshake(input: &Input, ca: &ConcurrentAssignment) -> (r: Handshake)
    ensures
        r == handshake_of(input, ca),
{
    if ca.read_signals.len() != 2 {
        return Handshake::Absent;
    }
    let pa = port_info_map(input, ca.read_signals[0].as_str());
    let pb = port_info_map(input, ca.read_signals[1].as_str());
    match (pa, pb) {
        (Some(a), Some(b)) => {
            if !a.single_bit || !b.single_bit {
                return Handshake::Absent;
            }
            let a_out = str_eq(a.direction.as_str(), "out")
                || str_eq(a.direction.as_str(), "buffer");
            let b_out = str_eq(b.direction.as_str(), "out")
                || str_eq(b.direction.as_str(), "buffer");
            let a_in = str_eq(a.direction.as_str(), "in");
            let b_in = str_eq(b.direction.as_str(), "in");
            if a_out && b_in {
                Handshake::Forward
            } else if a_in && b_out {
                Handshake::Backward
            } else {
                Handshake::Unclear
            }
        },
        _ => Handshake::Absent,
    }
}

pub open spec fn ready_valid_construct(ca: &ConcurrentAssignment, valid: Seq<char>, ready: Seq<char>) -> ConstructView {
    ConstructView {
        kind: ConstructKind::ReadyValid,
        in_arch: ca.in_arch@,
        file: ca.file@,
        line: ca.line as nat,
        bindings: seq![("valid"@, valid), ("ready"@, ready)],
    }
}

/// The record of a handshake whose roles cannot be told apart: both signals
/// are candidates for both roles.
pub open spec fn ambiguous_handshake(ca: &ConcurrentAssignment) -> AmbiguousView {
    let both = seq![ca.read_signals@[0]@, ca.read_signals@[1]@];
    AmbiguousView {
        kind: "ready_valid"@,
        scope: "arch:"@ + lower(ca.in_arch@),
        file: ca.file@,
        line: ca.line as nat,
        candidates: seq![("valid"@, both), ("ready"@, both)],
    }
}

/// The handshakes among the first `n` concurrent assignments.
pub open spec fn ready_valid_constructs_upto(input: &Input, n: int) -> Seq<ConstructView>
    decreases n,
{
    if n <= 0 {
        Seq::empty()
    } else {
        let rest = ready_valid_constructs_upto(input, n - 1);
        let ca = &input.concurrent_assignments@[n - 1];
        match handshake_of(input, ca) {
            Handshake::Forward => rest.push(
                ready_valid_construct(ca, ca.read_signals@[0]@, ca.read_signals@[1]@),
            ),
            Handshake::Backward => rest.push(
                ready_valid_construct(ca, ca.read_signals@[1]@, ca.read_signals@[0]@),
            ),
            _ => rest,
        }
    }
}

/// The unclear handshakes among the first `n` concurrent assignments.
pub open spec fn ready_valid_ambiguous_upto(input: &Input, n: int) -> Seq<AmbiguousView>
    decreases n,
{
    if n <= 0 {
        Seq::empty()
    } else {
        let rest = ready_valid_ambiguous_upto(input, n - 1);
        let ca = &input.concurrent_assignments@[n - 1];
        match handshake_of(input, ca) {
            Handshake::Unclear => rest.push(ambiguous_handshake(ca)),
            _ => rest,
        }
    }
}

pub open spec fn ready_valid_constructs(input: &Input) -> Seq<ConstructView> {
    ready_valid_constructs_upto(input, input.concurrent_assignments@.len() as int)
}

pub open spec fn ready_valid_ambiguous(input: &Input) -> Seq<AmbiguousView> {
    ready_valid_ambiguous_upto(input, input.concurrent_assignments@.len() as int)
}

fn two_names(a: &String, b: &String) -> (r: Vec<String>)
    ensures
        texts(r@) == seq![a@, b@],
{
    let mut out: Vec<String> = Vec::new();
    out.push(a.clone());
    out.push(b.clone());
    proof {
        assert(texts(out@) =~= seq![a@, b@]);
    }
    out
}

fn ambiguous_handshake_record(ca: &ConcurrentAssignment) -> (r: AmbiguousConstruct)
    requires
        ca.read_signals@.len() == 2,
    ensures
        ambiguous_view(&r) == ambiguous_handshake(ca),
{
    let a = &ca.read_signals[0];
    let b = &ca.read_signals[1];
    let mut candidates: Vec<RoleCandidates> = Vec::new();
    candidates.push(RoleCandidates { role: String::from_str("valid"), names: two_names(a, b) });
    candidates.push(RoleCandidates { role: String::from_str("ready"), names: two_names(a, b) });
    let mut scope = String::from_str("arch:");
    scope.append(to_lower(ca.in_arch.as_str()).as_str());
    proof {
        assert(role_views(candidates@) =~= seq![
            ("valid"@, seq![a@, b@]),
            ("ready"@, seq![a@, b@]),
        ]);
    }
    AmbiguousConstruct {
        kind: String::from_str("ready_valid"),
        scope,
        file: ca.file.clone(),
        line: ca.line,
        candidates,
    }
}

fn ready_valid_record(ca: &ConcurrentAssignment, valid: &str, ready: &str) -> (r: Construct)
    ensures
        r@ == ready_valid_construct(ca, valid@, ready@),
{
    let mut bindings = one_binding("valid", valid);
    add_binding(&mut bindings, "ready", ready);
    proof {
        assert(bindings@ =~= seq![("valid"@, valid@), ("ready"@, ready@)]);
    }
    Construct {
        kind: ConstructKind::ReadyValid,
        in_arch: ca.in_arch.clone(),
        file: ca.file.clone(),
        line: ca.line,
        bindings,
    }
}

pub fn detect_ready_valid_constructs(input: &Input) -> (r: (Vec<Construct>, Vec<AmbiguousConstruct>))
    ensures
        construct_views(r.0@) == ready_valid_constructs(input),
        ambiguous_views(r.1@) == ready_valid_ambiguous(input),
{
    broadcast use group_constructs;

    let mut constructs: Vec<Construct> = Vec::new();
    let mut ambiguous: Vec<AmbiguousConstruct> = Vec::new();
    let mut i: usize = 0;
    proof {
        assert(ambiguous_views(ambiguous@) =~= ready_valid_ambiguous_upto(input, 0));
    }
    while i < input.concurrent_assignments.len()
        invariant
            i <= input.concurrent_assignments@.len(),
            construct_views(constructs@) == ready_valid_constructs_upto(input, i as int),
            ambiguous_views(ambiguous@) == ready_valid_ambiguous_upto(input, i as int),
        decreases input.concurrent_assignments@.len() - i,
    {
        let ca = &input.concurrent_assignments[i];
        match read_handshake(input, ca) {
            Handshake::Forward => {
                constructs.push(
                    ready_valid_record(
                        ca,
                        ca.read_signals[0].as_str(),
                        ca.read_signals[1].as_str(),
                    ),
                );
            },
            Handshake::Backward => {
                constructs.push(
                    ready_valid_record(
                        ca,
                        ca.read_signals[1].as_str(),
                        ca.read_signals[0].as_str(),
                    ),
                );
            },
            Handshake::Unclear => {
                let record = ambiguous_handshake_record(ca);
                proof {
                    assert(ambiguous_views(ambiguous@.push(record)) =~= ambiguous_views(
                        ambiguous@,
                    ).push(ambiguous_view(&record)));
                }
                ambiguous.push(record);
            },
            Handshake::Absent => {},
        }
        i += 1;
    }
    (constructs, ambiguous)
}

/// The names of the array types among the first `n` types, in lower case.
pub open spec fn array_types_upto(input: &Input, n: int) -> Seq<Seq<char>>
    decreases n,
{
    if n <= 0 {
        Seq::empty()
    } else if same_name(input.types@[n - 1].kind@, "array"@) {
        array_types_upto(input, n - 1).push(lower(input.types@[n - 1].name@))
    } else {
        array_types_upto(input, n - 1)
    }
}

pub open spec fn array_types(input: &Input) -> Seq<Seq<char>> {
    array_types_upto(input, input.types@.len() as int)
}

pub fn array_type_names(input: &Input) -> (names: Vec<String>)
    ensures
        texts(names@) == array_types(input),
{
    broadcast use group_texts;

    let mut names: Vec<String> = Vec::new();
    let mut i: usize = 0;
    while i < input.types.len()
        invariant
            i <= input.types@.len(),
            texts(names@) == array_types_upto(input, i as int),
        decreases input.types@.len() - i,
    {
        if same(input.types[i].kind.as_str(), "array") {
            names.push(to_lower(input.types[i].name.as_str()));
        }
        i += 1;
    }
    names
}

/// A signal that may be a memory: its type is a declared array type or names an array.
pub open spec fn memory_signal(input: &Input, sig: &Signal) -> bool {
    array_types(input).contains(base_type(sig.ty@)) || contains(lower(sig.ty@), "array"@)
}

/// Whether a signal may be a memory, given the names of the array types.
pub fn is_memory_signal(sig: &Signal, array_names: &Vec<String>) -> (r: bool)
    ensures
        r == (texts(array_names@).contains(base_type(sig.ty@))
            || contains(lower(sig.ty@), "array"@)),
{
    list_has(array_names, base_type_name(sig.ty.as_str()).as_str()) || lower_contains(
        sig.ty.as_str(),
        "array",
    )
}

/// The labels, in lower case, of the processes that, among the first `n` dependencies,
/// write the signal in the architecture (`write`) or read it (`!write`).
pub open spec fn touching_processes_upto(
    input: &Input,
    signal: Seq<char>,
    arch: Seq<char>,
    write: bool,
    n: int,
) -> Seq<Seq<char>>
    decreases n,
{
    if n <= 0 {
        Seq::empty()
    } else {
        let rest = touching_processes_upto(input, signal, arch, write, n - 1);
        let dep = &input.signal_deps@[n - 1];
        let end = if write {
            dep.target@
        } else {
            dep.source@
        };
        if same_name(dep.in_arch@, arch) && same_name(end, signal) && dep.in_process@.len() > 0 {
            rest.push(lower(dep.in_process@))
        } else {
            rest
        }
    }
}

pub open spec fn touching_processes(input: &Input, signal: Seq<char>, arch: Seq<char>, write: bool) -> Seq<
    Seq<char>,
> {
    touching_processes_upto(input, signal, arch, write, input.signal_deps@.len() as int)
}

fn processes_touching_signal(input: &Input, signal: &str, arch: &str, write: bool) -> (r: Vec<
    String,
>)
    ensures
        texts(r@) == touching_processes(input, signal@, arch@, write),
{
    broadcast use group_texts;

    let mut out: Vec<String> = Vec::new();
    let mut i: usize = 0;
    while i < input.signal_deps.len()
        invariant
            i <= input.signal_deps@.len(),
            texts(out@) == touching_processes_upto(input, signal@, arch@, write, i as int),
        decreases input.signal_deps@.len() - i,
    {
        let dep = &input.signal_deps[i];
        let end = if write {
            dep.target.as_str()
        } else {
            dep.source.as_str()
        };
        if same(dep.in_arch.as_str(), arch) && same(end, signal)
            && !dep.in_process.as_str().is_empty() {
            out.push(to_lower(dep.in_process.as_str()));
        }
        i += 1;
    }
    out
}

pub fn processes_writing_signal(input: &Input, signal: &str, arch: &str) -> (r: Vec<String>)
    ensures
        texts(r@) == touching_processes(input, signal@, arch@, true),
{
    processes_touching_signal(input, signal, arch, true)
}

pub fn processes_reading_signal(input: &Input, signal: &str, arch: &str) -> (r: Vec<String>)
    ensures
        texts(r@) == touching_processes(input, signal@, arch@, false),
{
    processes_touching_signal(input, signal, arch, false)
}

/// Some text of the list is the name, up to case.
pub open spec fn names_hold(list: Seq<Seq<char>>, name: Seq<char>) -> bool {
    exists|i: int| 0 <= i < list.len() && same_name(#[trigger] list[i], name)
}

pub fn holds_name(list: &Vec<String>, name: &str) -> (r: bool)
    ensures
        r == names_hold(texts(list@), name@),
{
    let mut i: usize = 0;
    while i < list.len()
        invariant
            i <= list@.len(),
            forall|j: int| 0 <= j < i ==> !same_name(#[trigger] texts(list@)[j], name@),
        decreases list@.len() - i,
    {
        if same(list[i].as_str(), name) {
            assert(same_name(texts(list@)[i as int], name@));
            return true;
        }
        i += 1;
    }
    false
}

/// A read signal that may be an enable: a single-bit input port that is
/// neither the reset of the process nor named like a clock or reset.
pub open spec fn control_candidate(input: &Input, proc: &Process, sig: Seq<char>) -> bool {
    !(same_name(sig, proc.reset_signal@) || reset_name(sig) || clock_name(sig)) && bit_port(
        input,
        sig,
        "in"@,
    )
}

/// The candidates after the first `m` read signals of a process, each name once
/// whatever its case.
pub open spec fn control_row(input: &Input, proc: &Process, m: int, acc: Seq<Seq<char>>) -> Seq<
    Seq<char>,
>
    decreases m,
{
    if m <= 0 {
        acc
    } else {
        let rest = control_row(input, proc, m - 1, acc);
        let sig = proc.read_signals@[m - 1]@;
        if control_candidate(input, proc, sig) && !names_hold(rest, sig) {
            rest.push(sig)
        } else {
            rest
        }
    }
}

/// The enable candidates of the named processes among the first `n` processes.
pub open spec fn control_upto(input: &Input, labels: Seq<Seq<char>>, n: int) -> Seq<Seq<char>>
    decreases n,
{
    if n <= 0 {
        Seq::empty()
    } else {
        let rest = control_upto(input, labels, n - 1);
        let proc = &input.processes@[n - 1];
        if labels.contains(lower(proc.label@)) {
            control_row(input, proc, proc.read_signals@.len() as int, rest)
        } else {
            rest
        }
    }
}

/// The one enable of the named processes; `None` where there is none or more than one.
pub open spec fn control_input(input: &Input, labels: Seq<Seq<char>>) -> Option<Seq<char>> {
    let c = control_upto(input, labels, input.processes@.len() as int);
    if c.len() == 1 {
        Some(c[0])
    } else {
        None
    }
}

/// The candidates after the first `m` assigned signals of a process: the
/// single-bit output ports, each name once.
pub open spec fn status_row(input: &Input, proc: &Process, m: int, acc: Seq<Seq<char>>) -> Seq<
    Seq<char>,
>
    decreases m,
{
    if m <= 0 {
        acc
    } else {
        let rest = status_row(input, proc, m - 1, acc);
        let sig = proc.assigned_signals@[m - 1]@;
        if bit_port(input, sig, "out"@) && !names_hold(rest, sig) {
            rest.push(sig)
        } else {
            rest
        }
    }
}

/// The status candidates of the named processes among the first `n` processes.
pub open spec fn status_upto(input: &Input, labels: Seq<Seq<char>>, n: int) -> Seq<Seq<char>>
    decreases n,
{
    if n <= 0 {
        Seq::empty()
    } else {
        let rest = status_upto(input, labels, n - 1);
        let proc = &input.processes@[n - 1];
        if labels.contains(lower(proc.label@)) {
            status_row(input, proc, proc.assigned_signals@.len() as int, rest)
        } else {
            rest
        }
    }
}

/// The one status flag of the named processes; `None` where there is none or more than one.
pub open spec fn status_output(input: &Input, labels: Seq<Seq<char>>) -> Option<Seq<char>> {
    let c = status_upto(input, labels, input.processes@.len() as int);
    if c.len() == 1 {
        Some(c[0])
    } else {
        None
    }
}

fn control_in_process(input: &Input, proc: &Process, candidates: &mut Vec<String>)
    ensures
        texts(final(candidates)@) == control_row(
            input,
            proc,
            proc.read_signals@.len() as int,
            texts(old(candidates)@),
        ),
{
    broadcast use group_texts;

    let ghost before = texts(candidates@);
    let mut i: usize = 0;
    while i < proc.read_signals.len()
        invariant
            i <= proc.read_signals@.len(),
            texts(candidates@) == control_row(input, proc, i as int, before),
        decreases proc.read_signals@.len() - i,
    {
        let sig = &proc.read_signals[i];
        if !(same(sig.as_str(), proc.reset_signal.as_str()) || is_reset_name(sig.as_str())
            || is_clock_name(sig.as_str())) && is_bit_port(input, sig.as_str(), "in")
                && !holds_name(
            candidates,
            sig.as_str(),
        ) {
            candidates.push(sig.clone());
        }
        i += 1;
    }
}

fn status_in_process(input: &Input, proc: &Process, candidates: &mut Vec<String>)
    ensures
        texts(final(candidates)@) == status_row(
            input,
            proc,
            proc.assigned_signals@.len() as int,
            texts(old(candidates)@),
        ),
{
    broadcast use group_texts;

    let ghost before = texts(candidates@);
    let mut i: usize = 0;
    while i < proc.assigned_signals.len()
        invariant
            i <= proc.assigned_signals@.len(),
            texts(candidates@) == status_row(input, proc, i as int, before),
        decreases proc.assigned_signals@.len() - i,
    {
        let sig = &proc.assigned_signals[i];
        if is_bit_port(input, sig.as_str(), "out") && !holds_name(candidates, sig.as_str()) {
            candidates.push(sig.clone());
        }
        i += 1;
    }
}

pub fn select_control_input(input: &Input, processes: &Vec<String>) -> (r: Option<String>)
    ensures
        match r {
            Some(s) => control_input(input, texts(processes@)) == Some(s@),
            None => control_input(input, texts(processes@)).is_none(),
        },
{
    broadcast use group_texts;

    let mut candidates: Vec<String> = Vec::new();
    let mut i: usize = 0;
    while i < input.processes.len()
        invariant
            i <= input.processes@.len(),
            texts(candidates@) == control_upto(input, texts(processes@), i as int),
        decreases input.processes@.len() - i,
    {
        if list_has(processes, to_lower(input.processes[i].label.as_str()).as_str()) {
            control_in_process(input, &input.processes[i], &mut candidates);
        }
        i += 1;
    }
    proof {
        assert(texts(candidates@).len() == candidates@.len());
    }
    if candidates.len() == 1 {
        proof {
            assert(texts(candidates@)[0] == candidates@[0]@);
        }
        Some(candidates[0].clone())
    } else {
        None
    }
}

pub fn select_status_output(input: &Input, processes: &Vec<String>) -> (r: Option<String>)
    ensures
        match r {
            Some(s) => status_output(input, texts(processes@)) == Some(s@),
            None => status_output(input, texts(processes@)).is_none(),
        },
{
    broadcast use group_texts;

    let mut candidates: Vec<String> = Vec::new();
    let mut i: usize = 0;
    while i < input.processes.len()
        invariant
            i <= input.processes@.len(),
            texts(candidates@) == status_upto(input, texts(processes@), i as int),
        decreases input.processes@.len() - i,
    {
        if list_has(processes, to_lower(input.processes[i].label.as_str()).as_str()) {
            status_in_process(input, &input.processes[i], &mut candidates);
        }
        i += 1;
    }
    proof {
        assert(texts(candidates@).len() == candidates@.len());
    }
    if candidates.len() == 1 {
        proof {
            assert(texts(candidates@)[0] == candidates@[0]@);
        }
        Some(candidates[0].clone())
    } else {
        None
    }
}

/// The FIFO around a memory signal: the processes that write it have one
/// enable and one status flag, and so have the processes that read it.
pub open spec fn fifo_of(input: &Input, sig: &Signal) -> Option<ConstructView> {
    let writers = touching_processes(input, sig.name@, sig.in_entity@, true);
    let readers = touching_processes(input, sig.name@, sig.in_entity@, false);
    if writers.len() == 0 || readers.len() == 0 {
        None
    } else {
        match (
            control_input(input, writers),
            control_input(input, readers),
            status_output(input, writers),
            status_output(input, readers),
        ) {
            (Some(wr_en), Some(rd_en), Some(full), Some(empty)) => Some(
                ConstructView {
                    kind: ConstructKind::Fifo,
                    in_arch: sig.in_entity@,
                    file: sig.file@,
                    line: sig.line as nat,
                    bindings: seq![
                        ("wr_en"@, wr_en),
                        ("rd_en"@, rd_en),
                        ("full"@, full),
                        ("empty"@, empty),
                    ],
                },
            ),
            _ => None,
        }
    }
}

pub fn detect_fifo(input: &Input, sig: &Signal) -> (r: Option<Construct>)
    ensures
        match r {
            Some(c) => fifo_of(input, sig) == Some(c@),
            None => fifo_of(input, sig).is_none(),
        },
{
    let writers = processes_writing_signal(input, sig.name.as_str(), sig.in_entity.as_str());
    let readers = processes_reading_signal(input, sig.name.as_str(), sig.in_entity.as_str());
    proof {
        assert(texts(writers@).len() == writers@.len());
        assert(texts(readers@).len() == readers@.len());
    }
    if writers.len() == 0 || readers.len() == 0 {
        return None;
    }
    let wr_en = select_control_input(input, &writers);
    let rd_en = select_control_input(input, &readers);
    let full = select_status_output(input, &writers);
    let empty = select_status_output(input, &readers);
    match (wr_en, rd_en, full, empty) {
        (Some(wr_en), Some(rd_en), Some(full), Some(empty)) => {
            let mut bindings = one_binding("wr_en", wr_en.as_str());
            add_binding(&mut bindings, "rd_en", rd_en.as_str());
            add_binding(&mut bindings, "full", full.as_str());
            add_binding(&mut bindings, "empty", empty.as_str());
            proof {
                assert(bindings@ =~= seq![
                    ("wr_en"@, wr_en@),
                    ("rd_en"@, rd_en@),
                    ("full"@, full@),
                    ("empty"@, empty@),
                ]);
            }
            Some(
                Construct {
                    kind: ConstructKind::Fifo,
                    in_arch: sig.in_entity.clone(),
                    file: sig.file.clone(),
                    line: sig.line,
                    bindings,
                },
            )
        },
        _ => None,
    }
}

/// The FIFOs around the memory signals among the first `n` signals.
pub open spec fn fifo_constructs_upto(input: &Input, n: int) -> Seq<ConstructView>
    decreases n,
{
    if n <= 0 {
        Seq::empty()
    } else {
        let rest = fifo_constructs_upto(input, n - 1);
        let sig = &input.signals@[n - 1];
        if memory_signal(input, sig) {
            match fifo_of(input, sig) {
                Some(c) => rest.push(c),
                None => rest,
            }
        } else {
            rest
        }
    }
}

pub open spec fn fifo_constructs(input: &Input) -> Seq<ConstructView> {
    fifo_constructs_upto(input, input.signals@.len() as int)
}

pub fn detect_fifo_constructs(input: &Input) -> (constructs: Vec<Construct>)
    ensures
        construct_views(constructs@) == fifo_constructs(input),
{
    broadcast use group_constructs;

    let array_names = array_type_names(input);
    let mut constructs: Vec<Construct> = Vec::new();
    let mut i: usize = 0;
    while i < input.signals.len()
        invariant
            i <= input.signals@.len(),
            texts(array_names@) == array_types(input),
            construct_views(constructs@) == fifo_constructs_upto(input, i as int),
        decreases input.signals@.len() - i,
    {
        let sig = &input.signals[i];
        if is_memory_signal(sig, &array_names) {
            match detect_fifo(input, sig) {
                Some(c) => {
                    constructs.push(c);
                },
                None => {},
            }
        }
        i += 1;
    }
    constructs
}

/// What identifies a construct: its kind, its architecture in lower case
/// and its bindings.
pub open spec fn construct_key(c: ConstructView) -> Seq<char> {
    c.kind.label_text() + ":"@ + lower(c.in_arch) + ":"@ + formatted_bindings(c.bindings)
}

pub fn construct_key_text(c: &Construct) -> (key: String)
    ensures
        key@ == construct_key(c@),
{
    let mut key = String::from_str(c.kind.label());
    key.append(":");
    key.append(to_lower(c.in_arch.as_str()).as_str());
    key.append(":");
    key.append(format_bindings(&c.bindings).as_str());
    key
}

/// The keys of the first `n` constructs, each once.
pub open spec fn distinct_keys_upto(all: Seq<ConstructView>, n: int) -> Seq<Seq<char>>
    decreases n,
{
    if n <= 0 {
        Seq::empty()
    } else {
        let rest = distinct_keys_upto(all, n - 1);
        if rest.contains(construct_key(all[n - 1])) {
            rest
        } else {
            rest.push(construct_key(all[n - 1]))
        }
    }
}

/// The first `n` constructs without those that repeat the key of an earlier one.
pub open spec fn distinct_constructs_upto(all: Seq<ConstructView>, n: int) -> Seq<ConstructView>
    decreases n,
{
    if n <= 0 {
        Seq::empty()
    } else {
        let rest = distinct_constructs_upto(all, n - 1);
        if distinct_keys_upto(all, n - 1).contains(construct_key(all[n - 1])) {
            rest
        } else {
            rest.push(all[n - 1])
        }
    }
}

pub open spec fn distinct_constructs(all: Seq<ConstructView>) -> Seq<ConstructView> {
    distinct_constructs_upto(all, all.len() as int)
}

/// A copy of a map.
pub fn copy_map(map: &StringMap) -> (r: StringMap)
    ensures
        r@ == map@,
{
    let mut entries: Vec<MapEntry> = Vec::new();
    let mut i: usize = 0;
    while i < map.entries.len()
        invariant
            i <= map.entries@.len(),
            entries@.len() == i,
            forall|k: int|
                0 <= k < i ==> (#[trigger] entries@[k]).key@ == map.entries@[k].key@
                    && entries@[k].value@ == map.entries@[k].value@,
        decreases map.entries@.len() - i,
    {
        entries.push(
            MapEntry { key: map.entries[i].key.clone(), value: map.entries[i].value.clone() },
        );
        i += 1;
    }
    let copy = StringMap { entries };
    proof {
        assert(copy@ =~= map@);
    }
    copy
}

fn copy_construct(c: &Construct) -> (r: Construct)
    ensures
        r@ == c@,
{
    Construct {
        kind: c.kind,
        in_arch: c.in_arch.clone(),
        file: c.file.clone(),
        line: c.line,
        bindings: copy_map(&c.bindings),
    }
}

/// The constructs without those that repeat an earlier one.
pub fn distinct(all: &Vec<Construct>) -> (kept: Vec<Construct>)
    ensures
        construct_views(kept@) == distinct_constructs(construct_views(all@)),
{
    broadcast use group_constructs, group_texts;

    let mut kept: Vec<Construct> = Vec::new();
    let mut seen: Vec<String> = Vec::new();
    let ghost views = construct_views(all@);
    let mut i: usize = 0;
    while i < all.len()
        invariant
            i <= all@.len(),
            views == construct_views(all@),
            texts(seen@) == distinct_keys_upto(views, i as int),
            construct_views(kept@) == distinct_constructs_upto(views, i as int),
        decreases all@.len() - i,
    {
        proof {
            assert(views[i as int] == all@[i as int]@);
        }
        let key = construct_key_text(&all[i]);
        if !list_has(&seen, key.as_str()) {
            seen.push(key);
            kept.push(copy_construct(&all[i]));
        }
        i += 1;
    }
    kept
}

/// What construct detection finds.
pub struct DetectionReport {
    pub constructs: Vec<Construct>,
    pub ambiguous: Vec<AmbiguousConstruct>,
}

/// Every construct of the design, each once: state machines, counters,
/// handshakes, FIFOs.
pub open spec fn detected_constructs(input: &Input) -> Seq<ConstructView> {
    distinct_constructs(
        fsm_constructs(input) + counter_constructs(input) + ready_valid_constructs(input)
            + fifo_constructs(input),
    )
}

pub fn detect_constructs(input: &Input) -> (report: DetectionReport)
    ensures
        construct_views(report.constructs@) == detected_constructs(input),
        ambiguous_views(report.ambiguous@) == ready_valid_ambiguous(input),
{
    broadcast use group_constructs;

    let mut constructs = detect_fsm_constructs(input);
    let mut counters = detect_counter_constructs(input);
    constructs.append(&mut counters);
    let (mut handshakes, ambiguous) = detect_ready_valid_constructs(input);
    constructs.append(&mut handshakes);
    let mut fifos = detect_fifo_constructs(input);
    constructs.append(&mut fifos);
    let kept = distinct(&constructs);
    DetectionReport { constructs: kept, ambiguous }
}

/// The checks that a construct of each kind should carry.
pub open spec fn required_checks(kind: ConstructKind) -> Seq<Seq<char>> {
    match kind {
        ConstructKind::Fsm => seq![
            "fsm.legal_state"@,
            "fsm.reset_known"@,
            "cover.fsm.transition_taken"@,
        ],
        ConstructKind::ReadyValid => seq!["rv.stable_while_stalled"@, "cover.rv.handshake"@],
        ConstructKind::Fifo => seq![
            "fifo.no_read_empty"@,
            "fifo.no_write_full"@,
            "cover.fifo.activity"@,
        ],
        ConstructKind::Counter => seq!["ctr.range"@, "ctr.step_rule"@, "cover.ctr.moved"@],
    }
}

fn names_of(a: &str, b: &str, c: &str, three: bool) -> (r: Vec<String>)
    ensures
        texts(r@) == if three {
            seq![a@, b@, c@]
        } else {
            seq![a@, b@]
        },
{
    let mut out: Vec<String> = Vec::new();
    out.push(String::from_str(a));
    out.push(String::from_str(b));
    if three {
        out.push(String::from_str(c));
        proof {
            assert(texts(out@) =~= seq![a@, b@, c@]);
        }
    } else {
        proof {
            assert(texts(out@) =~= seq![a@, b@]);
        }
    }
    out
}

pub fn required_checks_for_construct(kind: &ConstructKind) -> (r: Vec<String>)
    ensures
        texts(r@) == required_checks(*kind),
{
    match kind {
        ConstructKind::Fsm => names_of(
            "fsm.legal_state",
            "fsm.reset_known",
            "cover.fsm.transition_taken",
            true,
        ),
        ConstructKind::ReadyValid => names_of("rv.stable_while_stalled", "cover.rv.handshake", "", false),
        ConstructKind::Fifo => names_of(
            "fifo.no_read_empty",
            "fifo.no_write_full",
            "cover.fifo.activity",
            true,
        ),
        ConstructKind::Counter => names_of("ctr.range", "ctr.step_rule", "cover.ctr.moved", true),
    }
}

/// A severity as findings carry it: anything but `error`, `warning` and
/// `info` counts as `warning`.
pub open spec fn normal_severity(sev: Seq<char>) -> Seq<char> {
    if sev == "error"@ || sev == "warning"@ || sev == "info"@ {
        sev
    } else {
        "warning"@
    }
}

pub fn normalize_severity(sev: &str) -> (r: String)
    ensures
        r@ == normal_severity(sev@),
{
    if str_eq(sev, "error") || str_eq(sev, "warning") || str_eq(sev, "info") {
        let mut out = String::new();
        out.append(sev);
        proof {
            assert(out@ =~= sev@);
        }
        out
    } else {
        String::from_str("warning")
    }
}

/// The mathematical content of a [`VerificationAnchor`].
pub struct AnchorView {
    pub label: Seq<char>,
    pub line_start: nat,
    pub line_end: nat,
    pub exists: bool,
}

pub open spec fn anchor_view(a: &VerificationAnchor) -> AnchorView {
    AnchorView {
        label: a.label@,
        line_start: a.line_start as nat,
        line_end: a.line_end as nat,
        exists: a.exists,
    }
}

/// The index of the first verification block at or after `i` in this
/// architecture, or the number of blocks.
pub open spec fn first_block_in(input: &Input, arch: Seq<char>, i: int) -> int
    decreases input.verification_blocks@.len() - i,
{
    if i < 0 || i >= input.verification_blocks@.len() {
        input.verification_blocks@.len() as int
    } else if same_name(input.verification_blocks@[i].in_arch@, arch) {
        i
    } else {
        first_block_in(input, arch, i + 1)
    }
}

/// The index of the first architecture at or after `i` with this name, or
/// the number of architectures.
pub open spec fn first_arch_named(input: &Input, name: Seq<char>, i: int) -> int
    decreases input.architectures@.len() - i,
{
    if i < 0 || i >= input.architectures@.len() {
        input.architectures@.len() as int
    } else if same_name(input.architectures@[i].name@, name) {
        i
    } else {
        first_arch_named(input, name, i + 1)
    }
}

/// Where the verification annotations of an architecture live: its first
/// verification block; else the line of the architecture, where a block has
/// to be created; else line 1 of an unknown place.
pub open spec fn anchor_of(input: &Input, arch: Seq<char>) -> AnchorView {
    let b = first_block_in(input, arch, 0);
    let a = first_arch_named(input, arch, 0);
    if b < input.verification_blocks@.len() {
        AnchorView {
            label: input.verification_blocks@[b].label@,
            line_start: input.verification_blocks@[b].line_start as nat,
            line_end: input.verification_blocks@[b].line_end as nat,
            exists: true,
        }
    } else if a < input.architectures@.len() {
        AnchorView {
            label: "architecture"@,
            line_start: input.architectures@[a].line as nat,
            line_end: input.architectures@[a].line as nat,
            exists: false,
        }
    } else {
        AnchorView { label: "unknown"@, line_start: 1, line_end: 1, exists: false }
    }
}

pub fn anchor_for_arch(input: &Input, arch: &str) -> (r: VerificationAnchor)
    ensures
        anchor_view(&r) == anchor_of(input, arch@),
{
    let mut i: usize = 0;
    while i < input.verification_blocks.len()
        invariant
            i <= input.verification_blocks@.len(),
            first_block_in(input, arch@, 0) == first_block_in(input, arch@, i as int),
        decreases input.verification_blocks@.len() - i,
    {
        let block = &input.verification_blocks[i];
        if same(block.in_arch.as_str(), arch) {
            return VerificationAnchor {
                label: block.label.clone(),
                line_start: block.line_start,
                line_end: block.line_end,
                exists: true,
            };
        }
        i += 1;
    }
    let mut k: usize = 0;
    while k < input.architectures.len()
        invariant
            k <= input.architectures@.len(),
            first_block_in(input, arch@, 0) == input.verification_blocks@.len(),
            first_arch_named(input, arch@, 0) == first_arch_named(input, arch@, k as int),
        decreases input.architectures@.len() - k,
    {
        let a = &input.architectures[k];
        if same(a.name.as_str(), arch) {
            return VerificationAnchor {
                label: String::from_str("architecture"),
                line_start: a.line,
                line_end: a.line,
                exists: false,
            };
        }
        k += 1;
    }
    VerificationAnchor {
        label: String::from_str("unknown"),
        line_start: 1,
        line_end: 1,
        exists: false,
    }
}

pub fn anchor_line_for_arch(input: &Input, arch: &str) -> (r: usize)
    ensures
        r == anchor_of(input, arch@).line_start,
{
    anchor_for_arch(input, arch).line_start
}

/// Some construct lies in the architecture.
pub open spec fn construct_in(constructs: Seq<ConstructView>, arch: Seq<char>) -> bool {
    exists|i: int| 0 <= i < constructs.len() && same_name((#[trigger] constructs[i]).in_arch, arch)
}

pub fn has_construct_in(constructs: &Vec<Construct>, arch: &str) -> (r: bool)
    ensures
        r == construct_in(construct_views(constructs@), arch@),
{
    let mut i: usize = 0;
    while i < constructs.len()
        invariant
            i <= constructs@.len(),
            forall|k: int|
                0 <= k < i ==> !same_name((#[trigger] construct_views(constructs@)[k]).in_arch, arch@),
        decreases constructs@.len() - i,
    {
        if same(constructs[i].in_arch.as_str(), arch) {
            assert(construct_views(constructs@)[i as int].in_arch == constructs@[i as int].in_arch@);
            return true;
        }
        i += 1;
    }
    false
}

/// Some verification block lies in the architecture.
pub open spec fn block_in(input: &Input, arch: Seq<char>) -> bool {
    first_block_in(input, arch, 0) < input.verification_blocks@.len()
}

pub fn has_block_in(input: &Input, arch: &str) -> (r: bool)
    ensures
        r == block_in(input, arch@),
{
    anchor_for_arch(input, arch).exists
}

/// A valid tag of this scope names the check (given in lower case).
pub open spec fn scope_has_check(
    input: &Input,
    scoped: Seq<(Seq<char>, int)>,
    scope: Seq<char>,
    check: Seq<char>,
) -> bool {
    exists|k: int|
        0 <= k < scoped.len() && (#[trigger] scoped[k]).0 == scope && lower(
            input.verification_tags@[scoped[k].1].id@,
        ) == check
}

fn has_scope_check(input: &Input, scoped: &Vec<ScopedTag>, scope: &str, check: &str) -> (r: bool)
    requires
        forall|k: int|
            0 <= k < scoped@.len() ==> (#[trigger] scoped@[k]).index
                < input.verification_tags@.len(),
    ensures
        r == scope_has_check(input, scoped_views(scoped@), scope@, check@),
{
    let mut i: usize = 0;
    while i < scoped.len()
        invariant
            i <= scoped@.len(),
            forall|k: int|
                0 <= k < scoped@.len() ==> (#[trigger] scoped@[k]).index
                    < input.verification_tags@.len(),
            forall|k: int|
                0 <= k < i ==> !((#[trigger] scoped_views(scoped@)[k]).0 == scope@ && lower(
                    input.verification_tags@[scoped_views(scoped@)[k].1].id@,
                ) == check@),
        decreases scoped@.len() - i,
    {
        let entry = &scoped[i];
        proof {
            assert(scoped_views(scoped@)[i as int] == (entry.scope@, entry.index as int));
        }
        if str_eq(entry.scope.as_str(), scope) && lower_is(
            input.verification_tags[entry.index].id.as_str(),
            check,
        ) {
            return true;
        }
        i += 1;
    }
    false
}

/// A valid tag of this scope has an id that starts with the prefix.
pub open spec fn scope_has_cover(
    input: &Input,
    scoped: Seq<(Seq<char>, int)>,
    scope: Seq<char>,
    prefix: Seq<char>,
) -> bool {
    exists|k: int|
        0 <= k < scoped.len() && (#[trigger] scoped[k]).0 == scope && starts_with(
            lower(input.verification_tags@[scoped[k].1].id@),
            prefix,
        )
}

fn has_scope_cover(input: &Input, scoped: &Vec<ScopedTag>, scope: &str, prefix: &str) -> (r: bool)
    requires
        forall|k: int|
            0 <= k < scoped@.len() ==> (#[trigger] scoped@[k]).index
                < input.verification_tags@.len(),
    ensures
        r == scope_has_cover(input, scoped_views(scoped@), scope@, prefix@),
{
    let mut i: usize = 0;
    while i < scoped.len()
        invariant
            i <= scoped@.len(),
            forall|k: int|
                0 <= k < scoped@.len() ==> (#[trigger] scoped@[k]).index
                    < input.verification_tags@.len(),
            forall|k: int|
                0 <= k < i ==> !((#[trigger] scoped_views(scoped@)[k]).0 == scope@ && starts_with(
                    lower(input.verification_tags@[scoped_views(scoped@)[k].1].id@),
                    prefix@,
                )),
        decreases scoped@.len() - i,
    {
        let entry = &scoped[i];
        proof {
            assert(scoped_views(scoped@)[i as int] == (entry.scope@, entry.index as int));
        }
        if str_eq(entry.scope.as_str(), scope) && lower_starts_with(
            input.verification_tags[entry.index].id.as_str(),
            prefix,
        ) {
            return true;
        }
        i += 1;
    }
    false
}

/// A valid tag of a check that needs a cover companion, in a scope without
/// a valid tag of the cover family.
pub open spec fn lacks_cover(input: &Input, reg: Seq<CheckEntryView>, tag: &VerificationTag) -> bool {
    let k = check_index(reg, tag.id@);
    k >= 0 && reg[k].needs_cover && tag_valid(reg, tag) && match (
        scope_key(input, tag),
        cover_prefix(tag.id@),
    ) {
        (Some(scope), Some(prefix)) => !scope_has_cover(
            input,
            scoped_tags(input, reg),
            scope,
            prefix,
        ),
        _ => false,
    }
}

pub open spec fn missing_cover_finding(input: &Input, tag: &VerificationTag) -> ViolationView {
    ViolationView {
        rule: "missing_cover_companion"@,
        severity: "warning"@,
        file: tag.file@,
        line: tag.line as nat,
        message: "Verification tag '"@ + tag.id@ + "' requires a cover companion in "@
            + match scope_key(
            input,
            tag,
        ) {
            Some(scope) => scope,
            None => Seq::empty(),
        },
    }
}

/// The findings for the first `n` tags.
pub open spec fn missing_cover_companion_upto(input: &Input, reg: Seq<CheckEntryView>, n: int) -> Seq<
    ViolationView,
>
    decreases n,
{
    if n <= 0 {
        Seq::empty()
    } else {
        let rest = missing_cover_companion_upto(input, reg, n - 1);
        let tag = &input.verification_tags@[n - 1];
        if lacks_cover(input, reg, tag) {
            rest.push(missing_cover_finding(input, tag))
        } else {
            rest
        }
    }
}

pub open spec fn missing_cover_companion_all(input: &Input, reg: Seq<CheckEntryView>) -> Seq<
    ViolationView,
> {
    missing_cover_companion_upto(input, reg, input.verification_tags@.len() as int)
}

pub fn missing_cover_companion(input: &Input, registry: &Vec<CheckEntry>) -> (out: Vec<Violation>)
    ensures
        views(out@) == missing_cover_companion_all(input, check_views(registry@)),
{
    broadcast use group_views;

    let scoped = tags_by_scope(input, registry);
    let tags_by_scope = &scoped;
    let mut out: Vec<Violation> = Vec::new();
    let ghost reg = check_views(registry@);
    let mut i: usize = 0;
    while i < input.verification_tags.len()
        invariant
            i <= input.verification_tags@.len(),
            reg == check_views(registry@),
            scoped_views(tags_by_scope@) == scoped_tags(input, reg),
            forall|k: int|
                0 <= k < tags_by_scope@.len() ==> (#[trigger] tags_by_scope@[k]).index
                    < input.verification_tags@.len(),
            views(out@) == missing_cover_companion_upto(input, reg, i as int),
        decreases input.verification_tags@.len() - i,
    {
        let tag = &input.verification_tags[i];
        match find_check(registry, tag.id.as_str()) {
            Some(k) => {
                proof {
                    assert(reg[k as int] == registry@[k as int]@);
                }
                if registry[k].needs_cover && tag_is_valid(tag, registry) {
                    match (tag_scope_key(input, tag), cover_prefix_for(tag.id.as_str())) {
                        (Some(scope), Some(prefix)) => {
                            if !has_scope_cover(
                                input,
                                tags_by_scope,
                                scope.as_str(),
                                prefix.as_str(),
                            ) {
                                let mut message = String::from_str("Verification tag '");
                                message.append(tag.id.as_str());
                                message.append("' requires a cover companion in ");
                                message.append(scope.as_str());
                                out.push(
                                    Violation {
                                        rule: String::from_str("missing_cover_companion"),
                                        severity: String::from_str("warning"),
                                        file: tag.file.clone(),
                                        line: tag.line,
                                        message,
                                    },
                                );
                            }
                        },
                        _ => {},
                    }
                }
            },
            None => {},
        }
        i += 1;
    }
    out
}

/// The key of the architecture scope of a construct.
pub open spec fn construct_scope(c: ConstructView) -> Seq<char> {
    "arch:"@ + lower(c.in_arch)
}

pub fn construct_scope_text(c: &Construct) -> (r: String)
    ensures
        r@ == construct_scope(c@),
{
    let mut scope = String::from_str("arch:");
    scope.append(to_lower(c.in_arch.as_str()).as_str());
    scope
}

/// The severity of a missing check: that of its registry entry, normalised;
/// `warning` where the registry does not know the check.
pub open spec fn missing_check_severity(reg: Seq<CheckEntryView>, check_id: Seq<char>) -> Seq<char> {
    let k = check_index(reg, check_id);
    if k >= 0 {
        normal_severity(reg[k].severity)
    } else {
        "warning"@
    }
}

pub open spec fn missing_check_message(input: &Input, c: ConstructView, check_id: Seq<char>) -> Seq<
    char,
> {
    let head = "Missing verification check '"@ + check_id + "' for "@ + c.kind.label_text()
        + " in "@ + construct_scope(c) + " (anchor line "@ + decimal(
        anchor_of(input, c.in_arch).line_start,
    );
    if formatted_bindings(c.bindings).len() == 0 {
        head + ")"@
    } else {
        head + ", bindings: "@ + formatted_bindings(c.bindings) + ")"@
    }
}

fn missing_check_details(
    input: &Input,
    construct: &Construct,
    scope_key: &str,
    check_id: &str,
    registry: &Vec<CheckEntry>,
) -> (r: (String, String))
    requires
        scope_key@ == construct_scope(construct@),
    ensures
        r.0@ == missing_check_severity(check_views(registry@), check_id@),
        r.1@ == missing_check_message(input, construct@, check_id@),
{
    let severity = match find_check(registry, check_id) {
        Some(k) => {
            proof {
                assert(check_views(registry@)[k as int] == registry@[k as int]@);
            }
            normalize_severity(registry[k].severity.as_str())
        },
        None => String::from_str("warning"),
    };
    let anchor = anchor_line_for_arch(input, construct.in_arch.as_str());
    let bindings = format_bindings(&construct.bindings);
    let mut msg = String::from_str("Missing verification check '");
    msg.append(check_id);
    msg.append("' for ");
    msg.append(construct.kind.label());
    msg.append(" in ");
    msg.append(scope_key);
    msg.append(" (anchor line ");
    msg.append(decimal_text(anchor).as_str());
    if bindings.as_str().is_empty() {
        msg.append(")");
    } else {
        msg.append(", bindings: ");
        msg.append(bindings.as_str());
        msg.append(")");
    }
    (severity, msg)
}

/// The key under which a missing check is reported once.
pub open spec fn missing_check_key(c: ConstructView, check_id: Seq<char>) -> Seq<char> {
    construct_scope(c) + "::"@ + lower(check_id)
}

/// Check `check_id` of construct `c` is missing and was not reported before.
pub open spec fn missing_check_fresh(
    input: &Input,
    reg: Seq<CheckEntryView>,
    c: ConstructView,
    check_id: Seq<char>,
    emitted: Seq<Seq<char>>,
) -> bool {
    !scope_has_check(input, scoped_tags(input, reg), construct_scope(c), lower(check_id))
        && !emitted.contains(missing_check_key(c, check_id))
}

pub open spec fn missing_check_finding(
    input: &Input,
    reg: Seq<CheckEntryView>,
    c: ConstructView,
    check_id: Seq<char>,
) -> ViolationView {
    ViolationView {
        rule: "missing_verification_check"@,
        severity: missing_check_severity(reg, check_id),
        file: c.file,
        line: c.line,
        message: missing_check_message(input, c, check_id),
    }
}

/// The keys reported after the first `m` required checks of a construct.
pub open spec fn missing_emitted_row(
    input: &Input,
    reg: Seq<CheckEntryView>,
    c: ConstructView,
    m: int,
    emitted: Seq<Seq<char>>,
) -> Seq<Seq<char>>
    decreases m,
{
    if m <= 0 {
        emitted
    } else {
        let rest = missing_emitted_row(input, reg, c, m - 1, emitted);
        let check_id = required_checks(c.kind)[m - 1];
        if missing_check_fresh(input, reg, c, check_id, rest) {
            rest.push(missing_check_key(c, check_id))
        } else {
            rest
        }
    }
}

/// The findings for the first `m` required checks of a construct.
pub open spec fn missing_checks_row(
    input: &Input,
    reg: Seq<CheckEntryView>,
    c: ConstructView,
    m: int,
    emitted: Seq<Seq<char>>,
) -> Seq<ViolationView>
    decreases m,
{
    if m <= 0 {
        Seq::empty()
    } else {
        let rest = missing_checks_row(input, reg, c, m - 1, emitted);
        let check_id = required_checks(c.kind)[m - 1];
        if missing_check_fresh(
            input,
            reg,
            c,
            check_id,
            missing_emitted_row(input, reg, c, m - 1, emitted),
        ) {
            rest.push(missing_check_finding(input, reg, c, check_id))
        } else {
            rest
        }
    }
}

/// The keys reported after the first `n` constructs.
pub open spec fn missing_emitted_upto(
    input: &Input,
    reg: Seq<CheckEntryView>,
    constructs: Seq<ConstructView>,
    n: int,
) -> Seq<Seq<char>>
    decreases n,
{
    if n <= 0 {
        Seq::empty()
    } else {
        missing_emitted_row(
            input,
            reg,
            constructs[n - 1],
            required_checks(constructs[n - 1].kind).len() as int,
            missing_emitted_upto(input, reg, constructs, n - 1),
        )
    }
}

/// The findings for the first `n` constructs.
pub open spec fn missing_check_violations_upto(
    input: &Input,
    reg: Seq<CheckEntryView>,
    constructs: Seq<ConstructView>,
    n: int,
) -> Seq<ViolationView>
    decreases n,
{
    if n <= 0 {
        Seq::empty()
    } else {
        missing_check_violations_upto(input, reg, constructs, n - 1) + missing_checks_row(
            input,
            reg,
            constructs[n - 1],
            required_checks(constructs[n - 1].kind).len() as int,
            missing_emitted_upto(input, reg, constructs, n - 1),
        )
    }
}

/// One finding for every required check that no valid tag of the
/// construct's architecture names, each scope and check once.
pub open spec fn missing_check_violations_all(
    input: &Input,
    reg: Seq<CheckEntryView>,
    constructs: Seq<ConstructView>,
) -> Seq<ViolationView> {
    missing_check_violations_upto(input, reg, constructs, constructs.len() as int)
}

fn missing_checks_of(
    input: &Input,
    construct: &Construct,
    tags_by_scope: &Vec<ScopedTag>,
    registry: &Vec<CheckEntry>,
    emitted: &mut Vec<String>,
) -> (out: Vec<Violation>)
    requires
        scoped_views(tags_by_scope@) == scoped_tags(input, check_views(registry@)),
        forall|k: int|
            0 <= k < tags_by_scope@.len() ==> (#[trigger] tags_by_scope@[k]).index
                < input.verification_tags@.len(),
    ensures
        views(out@) == missing_checks_row(
            input,
            check_views(registry@),
            construct@,
            required_checks(construct@.kind).len() as int,
            texts(old(emitted)@),
        ),
        texts(final(emitted)@) == missing_emitted_row(
            input,
            check_views(registry@),
            construct@,
            required_checks(construct@.kind).len() as int,
            texts(old(emitted)@),
        ),
{
    broadcast use group_views, group_texts;

    let mut out: Vec<Violation> = Vec::new();
    let ghost before = texts(emitted@);
    let ghost reg = check_views(registry@);
    let scope_key = construct_scope_text(construct);
    let checks = required_checks_for_construct(&construct.kind);
    let mut i: usize = 0;
    proof {
        assert(texts(checks@).len() == checks@.len());
    }
    while i < checks.len()
        invariant
            i <= checks@.len(),
            reg == check_views(registry@),
            texts(checks@) == required_checks(construct@.kind),
            texts(checks@).len() == checks@.len(),
            scope_key@ == construct_scope(construct@),
            scoped_views(tags_by_scope@) == scoped_tags(input, reg),
            forall|k: int|
                0 <= k < tags_by_scope@.len() ==> (#[trigger] tags_by_scope@[k]).index
                    < input.verification_tags@.len(),
            views(out@) == missing_checks_row(input, reg, construct@, i as int, before),
            texts(emitted@) == missing_emitted_row(input, reg, construct@, i as int, before),
        decreases checks@.len() - i,
    {
        let check_id = &checks[i];
        proof {
            assert(texts(checks@)[i as int] == check_id@);
        }
        let check_lower = to_lower(check_id.as_str());
        if !has_scope_check(input, tags_by_scope, scope_key.as_str(), check_lower.as_str()) {
            let mut key = scope_key.clone();
            key.append("::");
            key.append(check_lower.as_str());
            if !list_has(emitted, key.as_str()) {
                emitted.push(key);
                let details = missing_check_details(
                    input,
                    construct,
                    scope_key.as_str(),
                    check_id.as_str(),
                    registry,
                );
                out.push(
                    Violation {
                        rule: String::from_str("missing_verification_check"),
                        severity: details.0,
                        file: construct.file.clone(),
                        line: construct.line,
                        message: details.1,
                    },
                );
            }
        }
        i += 1;
    }
    out
}

pub fn missing_check_violations(
    input: &Input,
    constructs: &Vec<Construct>,
    registry: &Vec<CheckEntry>,
) -> (out: Vec<Violation>)
    ensures
        views(out@) == missing_check_violations_all(
            input,
            check_views(registry@),
            construct_views(constructs@),
        ),
{
    broadcast use group_views, group_texts;

    let scoped = tags_by_scope(input, registry);
    let tags_by_scope = &scoped;
    let mut out: Vec<Violation> = Vec::new();
    let mut emitted: Vec<String> = Vec::new();
    let ghost reg = check_views(registry@);
    let ghost all = construct_views(constructs@);
    let mut i: usize = 0;
    while i < constructs.len()
        invariant
            i <= constructs@.len(),
            reg == check_views(registry@),
            all == construct_views(constructs@),
            scoped_views(tags_by_scope@) == scoped_tags(input, reg),
            forall|k: int|
                0 <= k < tags_by_scope@.len() ==> (#[trigger] tags_by_scope@[k]).index
                    < input.verification_tags@.len(),
            texts(emitted@) == missing_emitted_upto(input, reg, all, i as int),
            views(out@) == missing_check_violations_upto(input, reg, all, i as int),
        decreases constructs@.len() - i,
    {
        proof {
            assert(all[i as int] == constructs@[i as int]@);
        }
        let mut part = missing_checks_of(
            input,
            &constructs[i],
            tags_by_scope,
            registry,
            &mut emitted,
        );
        out.append(&mut part);
        i += 1;
    }
    out
}

/// An architecture with constructs and without verification block.
pub open spec fn missing_verification_block_hit(input: &Input, constructs: Seq<ConstructView>, arch: &Architecture) -> bool {
    construct_in(constructs, arch.name@) && !block_in(input, arch.name@)
}

pub open spec fn missing_verification_block_finding(input: &Input, constructs: Seq<ConstructView>, arch: &Architecture) -> ViolationView {
    ViolationView {
        rule: "missing_verification_block"@,
        severity: "warning"@,
        file: arch.file@,
        line: arch.line as nat,
        message: "Architecture '"@ + arch.name@
            + "' has detectable constructs but no verification block"@,
    }
}

/// The findings for the first `n` rows, in row order.
pub open spec fn missing_verification_block_upto(input: &Input, constructs: Seq<ConstructView>, n: int) -> Seq<ViolationView>
    decreases n,
{
    if n <= 0 {
        Seq::empty()
    } else {
        let rest = missing_verification_block_upto(input, constructs, n - 1);
        let arch = &input.architectures@[n - 1];
        if missing_verification_block_hit(input, constructs, arch) {
            rest.push(missing_verification_block_finding(input, constructs, arch))
        } else {
            rest
        }
    }
}

pub open spec fn missing_verification_block_all(input: &Input, constructs: Seq<ConstructView>) -> Seq<ViolationView> {
    missing_verification_block_upto(input, constructs, input.architectures@.len() as int)
}

pub fn missing_verification_block(input: &Input, constructs: &Vec<Construct>) -> (out: Vec<Violation>)
    ensures
        views(out@) == missing_verification_block_all(input, construct_views(constructs@)),
{
    broadcast use group_views;

    let mut out: Vec<Violation> = Vec::new();
    let mut i: usize = 0;
    while i < input.architectures.len()
        invariant
            i <= input.architectures@.len(),
            views(out@) == missing_verification_block_upto(input, construct_views(constructs@), i as int),
        decreases input.architectures@.len() - i,
    {
        let arch = &input.architectures[i];
        if has_construct_in(constructs, arch.name.as_str())
            && !has_block_in(input, arch.name.as_str()) {
            let mut message = String::from_str("Architecture '");
            message.append(arch.name.as_str());
            message.append("' has detectable constructs but no verification block");
            out.push(
                Violation {
                    rule: String::from_str("missing_verification_block"),
                    severity: String::from_str("warning"),
                    file: arch.file.clone(),
                    line: arch.line,
                    message,
                },
            );
        }
        i += 1;
    }
    out
}

/// The mathematical content of a [`MissingCheckTask`].
pub struct MissingCheckTaskView {
    pub file: Seq<char>,
    pub scope: Seq<char>,
    pub anchor: AnchorView,
    pub missing_ids: Seq<Seq<char>>,
    pub bindings: Seq<(Seq<char>, Seq<char>)>,
    pub notes: Seq<Seq<char>>,
}

pub open spec fn task_view(t: &MissingCheckTask) -> MissingCheckTaskView {
    MissingCheckTaskView {
        file: t.file@,
        scope: t.scope@,
        anchor: anchor_view(&t.anchor),
        missing_ids: texts(t.missing_ids@),
        bindings: t.bindings@,
        notes: texts(t.notes@),
    }
}

/// The tasks of a list, each by its content.
pub open spec fn task_views(s: Seq<MissingCheckTask>) -> Seq<MissingCheckTaskView> {
    Seq::new(s.len(), |i: int| task_view(&s[i]))
}

/// The required checks among the first `m` of a construct that no valid tag
/// of its architecture names.
pub open spec fn missing_ids_upto(input: &Input, reg: Seq<CheckEntryView>, c: ConstructView, m: int) -> Seq<
    Seq<char>,
>
    decreases m,
{
    if m <= 0 {
        Seq::empty()
    } else {
        let rest = missing_ids_upto(input, reg, c, m - 1);
        let check_id = required_checks(c.kind)[m - 1];
        if scope_has_check(input, scoped_tags(input, reg), construct_scope(c), lower(check_id)) {
            rest
        } else {
            rest.push(check_id)
        }
    }
}

pub open spec fn missing_ids(input: &Input, reg: Seq<CheckEntryView>, c: ConstructView) -> Seq<
    Seq<char>,
> {
    missing_ids_upto(input, reg, c, required_checks(c.kind).len() as int)
}

/// What the registry says of one missing check.
pub open spec fn check_notes(reg: Seq<CheckEntryView>, check: Seq<char>) -> Seq<Seq<char>> {
    let k = check_index(reg, check);
    if k < 0 {
        Seq::empty()
    } else {
        let cover = if reg[k].needs_cover {
            seq![check + " needs cover companion"@]
        } else {
            Seq::empty()
        };
        if reg[k].requires_bound {
            cover.push(check + " requires explicit bound"@)
        } else {
            cover
        }
    }
}

/// The notes for the first `n` missing checks.
pub open spec fn notes_upto(reg: Seq<CheckEntryView>, checks: Seq<Seq<char>>, n: int) -> Seq<
    Seq<char>,
>
    decreases n,
{
    if n <= 0 {
        Seq::empty()
    } else {
        notes_upto(reg, checks, n - 1) + check_notes(reg, checks[n - 1])
    }
}

pub open spec fn notes_for(reg: Seq<CheckEntryView>, checks: Seq<Seq<char>>) -> Seq<Seq<char>> {
    notes_upto(reg, checks, checks.len() as int)
}

pub fn notes_for_missing_checks(registry: &Vec<CheckEntry>, checks: &Vec<String>) -> (notes: Vec<
    String,
>)
    ensures
        texts(notes@) == notes_for(check_views(registry@), texts(checks@)),
{
    broadcast use group_texts;

    let mut notes: Vec<String> = Vec::new();
    let ghost reg = check_views(registry@);
    let mut i: usize = 0;
    proof {
        assert(texts(checks@).len() == checks@.len());
    }
    while i < checks.len()
        invariant
            i <= checks@.len(),
            reg == check_views(registry@),
            texts(checks@).len() == checks@.len(),
            texts(notes@) == notes_upto(reg, texts(checks@), i as int),
        decreases checks@.len() - i,
    {
        let check = &checks[i];
        let ghost before = texts(notes@);
        proof {
            assert(texts(checks@)[i as int] == check@);
        }
        match find_check(registry, check.as_str()) {
            Some(k) => {
                proof {
                    assert(reg[k as int] == registry@[k as int]@);
                }
                if registry[k].needs_cover {
                    let mut note = check.clone();
                    note.append(" needs cover companion");
                    notes.push(note);
                }
                if registry[k].requires_bound {
                    let mut note = check.clone();
                    note.append(" requires explicit bound");
                    notes.push(note);
                }
                proof {
                    assert(texts(notes@) =~= before + check_notes(reg, check@));
                }
            },
            None => {
                proof {
                    assert(before + check_notes(reg, check@) =~= before);
                }
            },
        }
        i += 1;
    }
    notes
}

/// The key under which the task of a construct is emitted once.
pub open spec fn task_key(c: ConstructView) -> Seq<char> {
    construct_scope(c) + ":"@ + c.kind.label_text() + ":"@ + formatted_bindings(c.bindings)
}

/// The construct lacks checks and has had no task yet.
pub open spec fn task_fresh(
    input: &Input,
    reg: Seq<CheckEntryView>,
    c: ConstructView,
    seen: Seq<Seq<char>>,
) -> bool {
    missing_ids(input, reg, c).len() > 0 && !seen.contains(task_key(c))
}

pub open spec fn task_of(input: &Input, reg: Seq<CheckEntryView>, c: ConstructView) -> MissingCheckTaskView {
    MissingCheckTaskView {
        file: c.file,
        scope: construct_scope(c),
        anchor: anchor_of(input, c.in_arch),
        missing_ids: missing_ids(input, reg, c),
        bindings: c.bindings,
        notes: notes_for(reg, missing_ids(input, reg, c)),
    }
}

/// The task keys after the first `n` constructs.
pub open spec fn task_keys_upto(
    input: &Input,
    reg: Seq<CheckEntryView>,
    constructs: Seq<ConstructView>,
    n: int,
) -> Seq<Seq<char>>
    decreases n,
{
    if n <= 0 {
        Seq::empty()
    } else {
        let rest = task_keys_upto(input, reg, constructs, n - 1);
        if task_fresh(input, reg, constructs[n - 1], rest) {
            rest.push(task_key(constructs[n - 1]))
        } else {
            rest
        }
    }
}

/// The tasks for the first `n` constructs.
pub open spec fn missing_check_tasks_upto(
    input: &Input,
    reg: Seq<CheckEntryView>,
    constructs: Seq<ConstructView>,
    n: int,
) -> Seq<MissingCheckTaskView>
    decreases n,
{
    if n <= 0 {
        Seq::empty()
    } else {
        let rest = missing_check_tasks_upto(input, reg, constructs, n - 1);
        if task_fresh(input, reg, constructs[n - 1], task_keys_upto(input, reg, constructs, n - 1)) {
            rest.push(task_of(input, reg, constructs[n - 1]))
        } else {
            rest
        }
    }
}

/// One task for every construct that lacks checks: where to put them, which
/// are missing, and what the registry says of them.
pub open spec fn missing_check_tasks_all(
    input: &Input,
    reg: Seq<CheckEntryView>,
    constructs: Seq<ConstructView>,
) -> Seq<MissingCheckTaskView> {
    missing_check_tasks_upto(input, reg, constructs, constructs.len() as int)
}

fn missing_ids_of(
    input: &Input,
    construct: &Construct,
    tags_by_scope: &Vec<ScopedTag>,
    registry: &Vec<CheckEntry>,
) -> (missing: Vec<String>)
    requires
        scoped_views(tags_by_scope@) == scoped_tags(input, check_views(registry@)),
        forall|k: int|
            0 <= k < tags_by_scope@.len() ==> (#[trigger] tags_by_scope@[k]).index
                < input.verification_tags@.len(),
    ensures
        texts(missing@) == missing_ids(input, check_views(registry@), construct@),
{
    broadcast use group_texts;

    let mut missing: Vec<String> = Vec::new();
    let ghost reg = check_views(registry@);
    let scope_key = construct_scope_text(construct);
    let checks = required_checks_for_construct(&construct.kind);
    let mut i: usize = 0;
    proof {
        assert(texts(checks@).len() == checks@.len());
    }
    while i < checks.len()
        invariant
            i <= checks@.len(),
            reg == check_views(registry@),
            texts(checks@) == required_checks(construct@.kind),
            texts(checks@).len() == checks@.len(),
            scope_key@ == construct_scope(construct@),
            scoped_views(tags_by_scope@) == scoped_tags(input, reg),
            forall|k: int|
                0 <= k < tags_by_scope@.len() ==> (#[trigger] tags_by_scope@[k]).index
                    < input.verification_tags@.len(),
            texts(missing@) == missing_ids_upto(input, reg, construct@, i as int),
        decreases checks@.len() - i,
    {
        let check_id = &checks[i];
        proof {
            assert(texts(checks@)[i as int] == check_id@);
        }
        if !has_scope_check(
            input,
            tags_by_scope,
            scope_key.as_str(),
            to_lower(check_id.as_str()).as_str(),
        ) {
            missing.push(check_id.clone());
        }
        i += 1;
    }
    missing
}

pub fn missing_check_tasks(
    input: &Input,
    constructs: &Vec<Construct>,
    registry: &Vec<CheckEntry>,
) -> (tasks: Vec<MissingCheckTask>)
    ensures
        task_views(tasks@) == missing_check_tasks_all(
            input,
            check_views(registry@),
            construct_views(constructs@),
        ),
{
    broadcast use group_texts;

    let scoped = tags_by_scope(input, registry);
    let tags_by_scope = &scoped;
    let mut tasks: Vec<MissingCheckTask> = Vec::new();
    let mut seen: Vec<String> = Vec::new();
    let ghost reg = check_views(registry@);
    let ghost all = construct_views(constructs@);
    let mut i: usize = 0;
    proof {
        assert(task_views(tasks@) =~= missing_check_tasks_upto(input, reg, all, 0));
    }
    while i < constructs.len()
        invariant
            i <= constructs@.len(),
            reg == check_views(registry@),
            all == construct_views(constructs@),
            scoped_views(tags_by_scope@) == scoped_tags(input, reg),
            forall|k: int|
                0 <= k < tags_by_scope@.len() ==> (#[trigger] tags_by_scope@[k]).index
                    < input.verification_tags@.len(),
            texts(seen@) == task_keys_upto(input, reg, all, i as int),
            task_views(tasks@) == missing_check_tasks_upto(input, reg, all, i as int),
        decreases constructs@.len() - i,
    {
        let construct = &constructs[i];
        proof {
            assert(all[i as int] == construct@);
        }
        let missing = missing_ids_of(input, construct, tags_by_scope, registry);
        proof {
            assert(texts(missing@).len() == missing@.len());
        }
        if missing.len() > 0 {
            let scope_key = construct_scope_text(construct);
            let mut key = scope_key.clone();
            key.append(":");
            key.append(construct.kind.label());
            key.append(":");
            key.append(format_bindings(&construct.bindings).as_str());
            if !list_has(&seen, key.as_str()) {
                seen.push(key);
                let notes = notes_for_missing_checks(registry, &missing);
                let task = MissingCheckTask {
                    file: construct.file.clone(),
                    scope: scope_key,
                    anchor: anchor_for_arch(input, construct.in_arch.as_str()),
                    missing_ids: missing,
                    bindings: copy_map(&construct.bindings),
                    notes,
                };
                proof {
                    assert(task_views(tasks@.push(task)) =~= task_views(tasks@).push(
                        task_view(&task),
                    ));
                }
                tasks.push(task);
            }
        }
        i += 1;
    }
    tasks
}

/// The roles of some candidates, in their order.
pub open spec fn role_names(candidates: Seq<(Seq<char>, Seq<Seq<char>>)>) -> Seq<Seq<char>> {
    Seq::new(candidates.len(), |i: int| candidates[i].0)
}

/// The candidates of the first entry at or after `i` with this role; none
/// if there is no such entry.
pub open spec fn role_candidates_from(
    candidates: Seq<(Seq<char>, Seq<Seq<char>>)>,
    role: Seq<char>,
    i: int,
) -> Seq<Seq<char>>
    decreases candidates.len() - i,
{
    if i < 0 || i >= candidates.len() {
        Seq::empty()
    } else if candidates[i].0 == role {
        candidates[i].1
    } else {
        role_candidates_from(candidates, role, i + 1)
    }
}

/// The first `n` of the given roles, each with its candidates as `role=[a, b]`.
pub open spec fn role_items_upto(
    candidates: Seq<(Seq<char>, Seq<Seq<char>>)>,
    roles: Seq<Seq<char>>,
    n: int,
) -> Seq<Seq<char>>
    decreases n,
{
    if n <= 0 {
        Seq::empty()
    } else {
        role_items_upto(candidates, roles, n - 1).push(
            roles[n - 1] + "=["@ + join_texts(
                role_candidates_from(candidates, roles[n - 1], 0),
                ", "@,
            ) + "]"@,
        )
    }
}

/// The roles with their candidates, in the order of the role names,
/// separated by semicolons.
pub open spec fn formatted_candidates(candidates: Seq<(Seq<char>, Seq<Seq<char>>)>) -> Seq<char> {
    let roles = sort_texts(role_names(candidates));
    join_texts(role_items_upto(candidates, roles, roles.len() as int), "; "@)
}

pub open spec fn ambiguous_finding(a: AmbiguousView) -> ViolationView {
    ViolationView {
        rule: "ambiguous_construct"@,
        severity: "warning"@,
        file: a.file,
        line: a.line,
        message: "Ambiguous "@ + a.kind + " construct in "@ + a.scope + " (candidates: "@
            + formatted_candidates(a.candidates) + ")"@,
    }
}

/// One warning for every construct whose roles cannot be told apart.
pub open spec fn ambiguous_construct_warnings_all(ambiguous: Seq<AmbiguousView>) -> Seq<
    ViolationView,
> {
    Seq::new(ambiguous.len(), |i: int| ambiguous_finding(ambiguous[i]))
}

fn role_candidates(candidates: &Vec<RoleCandidates>, role: &str) -> (r: String)
    ensures
        r@ == join_texts(role_candidates_from(role_views(candidates@), role@, 0), ", "@),
{
    let mut i: usize = 0;
    while i < candidates.len()
        invariant
            i <= candidates@.len(),
            role_candidates_from(role_views(candidates@), role@, 0) == role_candidates_from(
                role_views(candidates@),
                role@,
                i as int,
            ),
        decreases candidates@.len() - i,
    {
        proof {
            assert(role_views(candidates@)[i as int] == (
                candidates@[i as int].role@,
                texts(candidates@[i as int].names@),
            ));
        }
        if str_eq(candidates[i].role.as_str(), role) {
            return join_strings(&candidates[i].names, ", ");
        }
        i += 1;
    }
    let none: Vec<String> = Vec::new();
    proof {
        assert(texts(none@) =~= Seq::<Seq<char>>::empty());
    }
    join_strings(&none, ", ")
}

pub fn format_candidates(candidates: &Vec<RoleCandidates>) -> (r: String)
    ensures
        r@ == formatted_candidates(role_views(candidates@)),
{
    broadcast use group_texts;

    let mut roles: Vec<String> = Vec::new();
    let mut i: usize = 0;
    while i < candidates.len()
        invariant
            i <= candidates@.len(),
            roles@.len() == i,
            forall|k: int| 0 <= k < i ==> (#[trigger] roles@[k])@ == candidates@[k].role@,
        decreases candidates@.len() - i,
    {
        roles.push(candidates[i].role.clone());
        i += 1;
    }
    proof {
        assert(texts(roles@) =~= role_names(role_views(candidates@)));
    }
    let sorted = sorted_strings(&roles);
    let mut items: Vec<String> = Vec::new();
    let mut k: usize = 0;
    proof {
        assert(texts(sorted@).len() == sorted@.len());
    }
    while k < sorted.len()
        invariant
            k <= sorted@.len(),
            texts(sorted@).len() == sorted@.len(),
            texts(items@) == role_items_upto(role_views(candidates@), texts(sorted@), k as int),
        decreases sorted@.len() - k,
    {
        proof {
            assert(texts(sorted@)[k as int] == sorted@[k as int]@);
        }
        let mut item = sorted[k].clone();
        item.append("=[");
        item.append(role_candidates(candidates, sorted[k].as_str()).as_str());
        item.append("]");
        items.push(item);
        k += 1;
    }
    join_strings(&items, "; ")
}

pub fn ambiguous_construct_warnings(ambiguous: &Vec<AmbiguousConstruct>) -> (out: Vec<Violation>)
    ensures
        views(out@) == ambiguous_construct_warnings_all(ambiguous_views(ambiguous@)),
{
    let mut out: Vec<Violation> = Vec::new();
    let mut i: usize = 0;
    while i < ambiguous.len()
        invariant
            i <= ambiguous@.len(),
            out@.len() == i,
            forall|k: int|
                0 <= k < i ==> (#[trigger] out@[k])@ == ambiguous_finding(
                    ambiguous_view(&ambiguous@[k]),
                ),
        decreases ambiguous@.len() - i,
    {
        let amb = &ambiguous[i];
        let mut message = String::from_str("Ambiguous ");
        message.append(amb.kind.as_str());
        message.append(" construct in ");
        message.append(amb.scope.as_str());
        message.append(" (candidates: ");
        message.append(format_candidates(&amb.candidates).as_str());
        message.append(")");
        out.push(
            Violation {
                rule: String::from_str("ambiguous_construct"),
                severity: String::from_str("warning"),
                file: amb.file.clone(),
                line: amb.line,
                message,
            },
        );
        i += 1;
    }
    proof {
        assert(views(out@) =~= ambiguous_construct_warnings_all(ambiguous_views(ambiguous@)));
    }
    out
}

/// What the planner returns: its findings, the tasks for missing checks and
/// the constructs it could not classify.
pub struct VerificationAnalysis {
    pub violations: Vec<Violation>,
    pub missing_checks: Vec<MissingCheckTask>,
    pub ambiguous_constructs: Vec<AmbiguousConstruct>,
}

/// The findings of the planner: invalid tags, missing bounds, missing cover
/// companions, missing verification blocks, missing checks, ambiguous constructs.
pub open spec fn analysis_violations(input: &Input, reg: Seq<CheckEntryView>) -> Seq<ViolationView> {
    invalid_tag_violations_all(input, reg) + missing_liveness_bound_all(input, reg)
        + missing_cover_companion_all(input, reg) + missing_verification_block_all(
        input,
        detected_constructs(input),
    ) + missing_check_violations_all(input, reg, detected_constructs(input))
        + ambiguous_construct_warnings_all(ready_valid_ambiguous(input))
}

/// Runs the planner on a fact database with the entries of a check registry.
pub fn analyze(input: &Input, registry_entries: &Vec<CheckEntry>) -> (analysis: VerificationAnalysis)
    ensures
        views(analysis.violations@) == analysis_violations(
            input,
            normal_registry(check_views(registry_entries@)),
        ),
        task_views(analysis.missing_checks@) == missing_check_tasks_all(
            input,
            normal_registry(check_views(registry_entries@)),
            detected_constructs(input),
        ),
        ambiguous_views(analysis.ambiguous_constructs@) == ready_valid_ambiguous(input),
{
    broadcast use group_views;

    let registry = registry_by_id(registry_entries);
    let detection = detect_constructs(input);
    let mut violations = invalid_tag_violations(input, &registry);
    let mut part = missing_liveness_bound(input, &registry);
    violations.append(&mut part);
    let mut part = missing_cover_companion(input, &registry);
    violations.append(&mut part);
    let mut part = missing_verification_block(input, &detection.constructs);
    violations.append(&mut part);
    let mut part = missing_check_violations(input, &detection.constructs, &registry);
    violations.append(&mut part);
    let mut part = ambiguous_construct_warnings(&detection.ambiguous);
    violations.append(&mut part);
    let missing_checks = missing_check_tasks(input, &detection.constructs, &registry);
    VerificationAnalysis {
        violations,
        missing_checks,
        ambiguous_constructs: detection.ambiguous,
    }
}

} // verus!
