//! Domain taxonomies as predicates: which names mean clocks, resets or
//! testbenches, which types are resolved or composite, which identifiers are
//! never signals, and how the rule configuration is read.
use vstd::prelude::*;
use crate::text::{
    after_last, before_first, begins, chars_after_last, chars_are, chars_before_first, chars_equal,
    chars_first_word, chars_of, chars_start_with, chars_trim, contains, ends, ends_with, first_word,
    holds, lower, lower_chars, lower_chars_of, same, same_name, starts_with, str_ends_with, str_eq,
    string_of, to_upper, trim, upper,
};
use crate::policy::input::{ConcurrentAssignment, Input, Process};
use crate::policy::pattern::{regex_match, found};

verus! {

/// A name that marks a testbench.
pub open spec fn testbench_name(name: Seq<char>) -> bool {
    let l = lower(name);
    contains(l, "_tb"@) || contains(l, "tb_"@) || ends_with(l, "tb"@) || contains(l, "test"@)
        || contains(l, "bench"@) || contains(l, "bfm"@) || contains(l, "verification"@)
}

pub fn is_testbench_name(name: &str) -> (r: bool)
    ensures
        r == testbench_name(name@),
{
    let l = lower_chars_of(name);
    holds(&l, "_tb") || holds(&l, "tb_") || ends(&l, "tb") || holds(&l, "test")
        || holds(&l, "bench")
        || holds(&l, "bfm") || holds(&l, "verification")
}

/// `clk` or `clock`, or a name with the prefix `clk_` or the suffix `_clk` or `_clock`.
pub open spec fn clock_name(name: Seq<char>) -> bool {
    let l = lower(name);
    l == "clk"@ || l == "clock"@ || ends_with(l, "_clk"@) || starts_with(l, "clk_"@) || ends_with(
        l,
        "_clock"@,
    )
}

pub fn is_clock_name(name: &str) -> (r: bool)
    ensures
        r == clock_name(name@),
{
    let l = lower_chars_of(name);
    chars_are(&l, "clk") || chars_are(&l, "clock") || ends(&l, "_clk") || begins(&l, "clk_")
        || ends(&l, "_clock")
}

/// A name that holds `reset`, is `rst` or `rstn`, or has one of them as a
/// part set off by underscores.
pub open spec fn reset_name(name: Seq<char>) -> bool {
    let l = lower(name);
    contains(l, "reset"@) || l == "rst"@ || l == "rstn"@ || starts_with(l, "rst_"@) || starts_with(
        l,
        "rstn_"@,
    ) || ends_with(l, "_rst"@) || ends_with(l, "_rstn"@) || contains(l, "_rst_"@) || contains(
        l,
        "_rstn_"@,
    )
}

pub fn is_reset_name(name: &str) -> (r: bool)
    ensures
        r == reset_name(name@),
{
    let l = lower_chars_of(name);
    holds(&l, "reset") || chars_are(&l, "rst") || chars_are(&l, "rstn") || begins(&l, "rst_")
        || begins(&l, "rstn_") || ends(&l, "_rst") || ends(&l, "_rstn") || holds(&l, "_rst_")
            || holds(
        &l,
        "_rstn_",
    )
}

pub open spec fn single_bit_type(t: Seq<char>) -> bool {
    let l = lower(t);
    l == "std_logic"@ || l == "std_ulogic"@ || l == "bit"@
}

pub fn is_single_bit_type(t: &str) -> (r: bool)
    ensures
        r == single_bit_type(t@),
{
    let l = lower_chars_of(t);
    chars_are(&l, "std_logic") || chars_are(&l, "std_ulogic") || chars_are(&l, "bit")
}

pub open spec fn instance_prefix_ok(name: Seq<char>) -> bool {
    let l = lower(name);
    starts_with(l, "u_"@) || starts_with(l, "i_"@) || starts_with(l, "inst_"@)
}

pub fn valid_instance_prefix(name: &str) -> (r: bool)
    ensures
        r == instance_prefix_ok(name@),
{
    let l = lower_chars_of(name);
    begins(&l, "u_") || begins(&l, "i_") || begins(&l, "inst_")
}

pub open spec fn signed_type(t: Seq<char>) -> bool {
    contains(lower(t), "signed"@) && !contains(lower(t), "unsigned"@)
}

pub fn is_signed_type(t: &str) -> (r: bool)
    ensures
        r == signed_type(t@),
{
    let l = lower_chars_of(t);
    holds(&l, "signed") && !holds(&l, "unsigned")
}

pub open spec fn unsigned_type(t: Seq<char>) -> bool {
    contains(lower(t), "unsigned"@)
}

pub fn is_unsigned_type(t: &str) -> (r: bool)
    ensures
        r == unsigned_type(t@),
{
    let l = lower_chars_of(t);
    holds(&l, "unsigned")
}

pub open spec fn standard_arch_name(name: Seq<char>) -> bool {
    let l = lower(name);
    l == "rtl"@ || l == "behavioral"@ || l == "behavioural"@ || l == "structural"@ || l
        == "dataflow"@ || l == "testbench"@ || l == "tb"@ || l == "sim"@
}

pub fn is_standard_arch_name(name: &str) -> (r: bool)
    ensures
        r == standard_arch_name(name@),
{
    let l = lower_chars_of(name);
    chars_are(&l, "rtl") || chars_are(&l, "behavioral") || chars_are(&l, "behavioural")
        || chars_are(&l, "structural") || chars_are(&l, "dataflow") || chars_are(&l, "testbench")
        || chars_are(&l, "tb") || chars_are(&l, "sim")
}

/// Some element of the list is `name` up to case.
pub open spec fn listed(list: Seq<String>, name: Seq<char>) -> bool {
    exists|i: int| 0 <= i < list.len() && same_name((#[trigger] list[i])@, name)
}

pub fn signal_in_list(sig: &str, list: &[String]) -> (r: bool)
    ensures
        r == listed(list@, sig@),
{
    let mut i: usize = 0;
    while i < list.len()
        invariant
            i <= list@.len(),
            forall|j: int| 0 <= j < i ==> !same_name((#[trigger] list@[j])@, sig@),
        decreases list@.len() - i,
    {
        if same(list[i].as_str(), sig) {
            return true;
        }
        i += 1;
    }
    false
}

pub fn is_shared_variable(input: &Input, name: &str) -> (r: bool)
    ensures
        r == listed(input.shared_variables@, name@),
{
    signal_in_list(name, input.shared_variables.as_slice())
}

pub fn is_enum_literal(input: &Input, name: &str) -> (r: bool)
    ensures
        r == listed(input.enum_literals@, name@),
{
    signal_in_list(name, input.enum_literals.as_slice())
}

pub fn is_constant(input: &Input, name: &str) -> (r: bool)
    ensures
        r == listed(input.constants@, name@),
{
    signal_in_list(name, input.constants.as_slice())
}

pub fn has_all_sensitivity(sens_list: &[String]) -> (r: bool)
    ensures
        r == listed(sens_list@, "all"@),
{
    signal_in_list("all", sens_list)
}

/// Some element of the list is a clock name.
pub open spec fn lists_clock(list: Seq<String>) -> bool {
    exists|i: int| 0 <= i < list.len() && clock_name((#[trigger] list[i])@)
}

pub fn sensitivity_list_has_clock(sens_list: &[String]) -> (r: bool)
    ensures
        r == lists_clock(sens_list@),
{
    let mut i: usize = 0;
    while i < sens_list.len()
        invariant
            i <= sens_list@.len(),
            forall|j: int| 0 <= j < i ==> !clock_name((#[trigger] sens_list@[j])@),
        decreases sens_list@.len() - i,
    {
        if is_clock_name(sens_list[i].as_str()) {
            return true;
        }
        i += 1;
    }
    false
}

/// `a` names `b`, a field of `b`, or the record that `b` is a field of.
pub open spec fn related_names(a: Seq<char>, b: Seq<char>) -> bool {
    same_name(a, b) || starts_with(lower(a), lower(b).push('.')) || starts_with(
        lower(b),
        lower(a).push('.'),
    )
}

/// Some element of the list is related to `sig`.
pub open spec fn lists_related(list: Seq<String>, sig: Seq<char>) -> bool {
    exists|i: int| 0 <= i < list.len() && related_names(sig, (#[trigger] list[i])@)
}

fn names_related(a: &Vec<char>, b: &str) -> (r: bool)
    ensures
        r == (a@ == lower(b@) || starts_with(a@, lower(b@).push('.')) || starts_with(
            lower(b@),
            a@.push('.'),
        )),
{
    let lb = lower_chars_of(b);
    if chars_equal(a, &lb) {
        return true;
    }
    let mut bdot = lower_chars(&lb);
    proof {
        crate::text::lemma_lower_idempotent(b@);
    }
    bdot.push('.');
    if chars_start_with(a, &bdot) {
        return true;
    }
    let mut adot: Vec<char> = Vec::new();
    let mut i: usize = 0;
    while i < a.len()
        invariant
            i <= a@.len(),
            adot@ == a@.take(i as int),
        decreases a@.len() - i,
    {
        adot.push(a[i]);
        i += 1;
    }
    proof {
        assert(a@.take(a@.len() as int) =~= a@);
    }
    adot.push('.');
    chars_start_with(&lb, &adot)
}

fn in_related_list(sig: &str, list: &[String]) -> (r: bool)
    ensures
        r == lists_related(list@, sig@),
{
    let ls = lower_chars_of(sig);
    let mut i: usize = 0;
    while i < list.len()
        invariant
            i <= list@.len(),
            ls@ == lower(sig@),
            forall|j: int| 0 <= j < i ==> !related_names(sig@, (#[trigger] list@[j])@),
        decreases list@.len() - i,
    {
        if names_related(&ls, list[i].as_str()) {
            return true;
        }
        i += 1;
    }
    false
}

pub fn sig_in_sensitivity(sig: &str, sens_list: &[String]) -> (r: bool)
    ensures
        r == lists_related(sens_list@, sig@),
{
    in_related_list(sig, sens_list)
}

pub fn sig_in_reads(sig: &str, read_list: &[String]) -> (r: bool)
    ensures
        r == lists_related(read_list@, sig@),
{
    in_related_list(sig, read_list)
}

pub open spec fn resolved_type(t: Seq<char>) -> bool {
    let l = lower(t);
    contains(l, "std_logic"@) || contains(l, "std_logic_vector"@) || contains(l, "signed"@)
        || contains(l, "unsigned"@)
}

pub fn is_resolved_type(type_str: &str) -> (r: bool)
    ensures
        r == resolved_type(type_str@),
{
    let l = lower_chars_of(type_str);
    holds(&l, "std_logic") || holds(&l, "std_logic_vector") || holds(&l, "signed")
        || holds(&l, "unsigned")
}

/// Some signal or port of this name has a resolved type.
pub open spec fn resolved_signal(input: &Input, name: Seq<char>) -> bool {
    (exists|i: int|
        0 <= i < input.signals@.len() && same_name((#[trigger] input.signals@[i]).name@, name)
            && resolved_type(input.signals@[i].ty@)) || (exists|i: int|
        0 <= i < input.ports@.len() && same_name((#[trigger] input.ports@[i]).name@, name)
            && resolved_type(input.ports@[i].ty@))
}

pub fn is_resolved_signal(input: &Input, name: &str) -> (r: bool)
    ensures
        r == resolved_signal(input, name@),
{
    let mut i: usize = 0;
    while i < input.signals.len()
        invariant
            i <= input.signals@.len(),
            forall|j: int|
                0 <= j < i ==> !(same_name((#[trigger] input.signals@[j]).name@, name@)
                    && resolved_type(input.signals@[j].ty@)),
        decreases input.signals@.len() - i,
    {
        if same(input.signals[i].name.as_str(), name) && is_resolved_type(
            input.signals[i].ty.as_str(),
        ) {
            return true;
        }
        i += 1;
    }
    let mut k: usize = 0;
    while k < input.ports.len()
        invariant
            k <= input.ports@.len(),
            forall|j: int|
                0 <= j < input.signals@.len() ==> !(same_name(
                    (#[trigger] input.signals@[j]).name@,
                    name@,
                ) && resolved_type(input.signals@[j].ty@)),
            forall|j: int|
                0 <= j < k ==> !(same_name((#[trigger] input.ports@[j]).name@, name@)
                    && resolved_type(input.ports@[j].ty@)),
        decreases input.ports@.len() - k,
    {
        if same(input.ports[k].name.as_str(), name)
            && is_resolved_type(input.ports[k].ty.as_str()) {
            return true;
        }
        k += 1;
    }
    false
}

/// The bare name of a type: lower case, without constraint, parameters or
/// library prefix.
pub open spec fn base_type(t: Seq<char>) -> Seq<char> {
    after_last(before_first(first_word(lower(trim(t))), '('), '.')
}

pub fn base_type_chars(t: &str) -> (r: Vec<char>)
    ensures
        r@ == base_type(t@),
{
    let v = chars_of(t);
    let trimmed = chars_trim(&v);
    let l = lower_chars(&trimmed);
    let head = chars_first_word(&l);
    let no_params = chars_before_first(&head, '(');
    chars_after_last(&no_params, '.')
}

pub fn base_type_name(t: &str) -> (r: String)
    ensures
        r@ == base_type(t@),
{
    let v = base_type_chars(t);
    string_of(&v)
}

pub open spec fn unresolved_scalar_type(t: Seq<char>) -> bool {
    let b = lower(base_type(t));
    b == "bit"@ || b == "std_ulogic"@ || b == "boolean"@ || b == "integer"@ || b == "natural"@ || b
        == "positive"@ || b == "time"@ || b == "character"@ || b == "real"@
}

pub fn is_unresolved_scalar_type(t: &str) -> (r: bool)
    ensures
        r == unresolved_scalar_type(t@),
{
    let base = base_type_chars(t);
    let b = lower_chars(&base);
    chars_are(&b, "bit") || chars_are(&b, "std_ulogic") || chars_are(&b, "boolean") || chars_are(
        &b,
        "integer",
    ) || chars_are(&b, "natural") || chars_are(&b, "positive") || chars_are(&b, "time")
        || chars_are(&b, "character") || chars_are(&b, "real")
}

pub open spec fn one_file(input: &Input) -> bool {
    input.file_count <= 1
}

pub fn single_file_mode(input: &Input) -> (r: bool)
    ensures
        r == one_file(input),
{
    input.file_count <= 1
}

/// Some entity has this name, up to case.
pub open spec fn entity_known(input: &Input, name: Seq<char>) -> bool {
    exists|i: int|
        0 <= i < input.entities@.len() && same_name((#[trigger] input.entities@[i]).name@, name)
}

pub fn entity_exists(input: &Input, name: &str) -> (r: bool)
    ensures
        r == entity_known(input, name@),
{
    let mut i: usize = 0;
    while i < input.entities.len()
        invariant
            i <= input.entities@.len(),
            forall|j: int|
                0 <= j < i ==> !same_name((#[trigger] input.entities@[j]).name@, name@),
        decreases input.entities@.len() - i,
    {
        if same(input.entities[i].name.as_str(), name) {
            return true;
        }
        i += 1;
    }
    false
}

/// The index of the first entity at or after `i` with this name, or the
/// number of entities if there is none.
pub open spec fn first_entity_named(input: &Input, name: Seq<char>, i: int) -> int
    decreases input.entities@.len() - i,
{
    if i < 0 || i >= input.entities@.len() {
        input.entities@.len() as int
    } else if same_name(input.entities@[i].name@, name) {
        i
    } else {
        first_entity_named(input, name, i + 1)
    }
}

/// The file of the first entity with this name; empty if there is none.
pub open spec fn entity_file_text(input: &Input, name: Seq<char>) -> Seq<char> {
    let i = first_entity_named(input, name, 0);
    if i < input.entities@.len() {
        input.entities@[i].file@
    } else {
        Seq::empty()
    }
}

/// The index of the first entity with this name, or the number of entities.
pub fn entity_index(input: &Input, name: &str) -> (r: usize)
    ensures
        r == first_entity_named(input, name@, 0),
        r <= input.entities@.len(),
{
    let mut i: usize = 0;
    while i < input.entities.len()
        invariant
            i <= input.entities@.len(),
            first_entity_named(input, name@, 0) == first_entity_named(input, name@, i as int),
        decreases input.entities@.len() - i,
    {
        if same(input.entities[i].name.as_str(), name) {
            return i;
        }
        i += 1;
    }
    i
}

/// The file of the first entity with this name.
pub fn entity_file_of(input: &Input, name: &str) -> (r: Option<String>)
    ensures
        match r {
            Some(f) => first_entity_named(input, name@, 0) < input.entities@.len() && f@
                == entity_file_text(input, name@),
            None => first_entity_named(input, name@, 0) == input.entities@.len(),
        },
{
    let mut i: usize = 0;
    while i < input.entities.len()
        invariant
            i <= input.entities@.len(),
            first_entity_named(input, name@, 0) == first_entity_named(input, name@, i as int),
        decreases input.entities@.len() - i,
    {
        if same(input.entities[i].name.as_str(), name) {
            return Some(input.entities[i].file.clone());
        }
        i += 1;
    }
    None
}

/// The file of the first entity with this name, or the empty text.
pub fn entity_file_or_empty(input: &Input, name: &str) -> (r: String)
    ensures
        r@ == entity_file_text(input, name@),
{
    match entity_file_of(input, name) {
        Some(f) => f,
        None => String::new(),
    }
}

/// The architecture part of a scope path such as `rtl.gen_a`.
pub open spec fn base_arch(in_arch: Seq<char>) -> Seq<char> {
    before_first(in_arch, '.')
}

pub fn base_arch_name(in_arch: &str) -> (r: String)
    ensures
        r@ == base_arch(in_arch@),
{
    let v = chars_of(in_arch);
    let b = chars_before_first(&v, '.');
    string_of(&b)
}

/// Some architecture of this name belongs to an entity that is not in the store.
pub open spec fn arch_lacks_entity(input: &Input, in_arch: Seq<char>) -> bool {
    exists|i: int|
        0 <= i < input.architectures@.len() && same_name(
            (#[trigger] input.architectures@[i]).name@,
            base_arch(in_arch),
        ) && !entity_known(input, input.architectures@[i].entity_name@)
}

pub fn arch_missing_entity_for_context(input: &Input, in_arch: &str) -> (r: bool)
    ensures
        r == arch_lacks_entity(input, in_arch@),
{
    let base = base_arch_name(in_arch);
    let mut i: usize = 0;
    while i < input.architectures.len()
        invariant
            i <= input.architectures@.len(),
            base@ == base_arch(in_arch@),
            forall|j: int|
                0 <= j < i ==> !(same_name(
                    (#[trigger] input.architectures@[j]).name@,
                    base_arch(in_arch@),
                ) && !entity_known(input, input.architectures@[j].entity_name@)),
        decreases input.architectures@.len() - i,
    {
        if same(input.architectures[i].name.as_str(), base.as_str()) && !entity_exists(
            input,
            input.architectures[i].entity_name.as_str(),
        ) {
            return true;
        }
        i += 1;
    }
    false
}

/// The file has a dependency of kind `use`.
pub open spec fn file_uses_packages(input: &Input, file: Seq<char>) -> bool {
    exists|i: int|
        0 <= i < input.dependencies@.len() && (#[trigger] input.dependencies@[i]).kind@ == "use"@
            && input.dependencies@[i].source@ == file
}

pub fn file_has_use_clause(input: &Input, file: &str) -> (r: bool)
    ensures
        r == file_uses_packages(input, file@),
{
    let mut i: usize = 0;
    while i < input.dependencies.len()
        invariant
            i <= input.dependencies@.len(),
            forall|j: int|
                0 <= j < i ==> !((#[trigger] input.dependencies@[j]).kind@ == "use"@
                    && input.dependencies@[j].source@ == file@),
        decreases input.dependencies@.len() - i,
    {
        if str_eq(input.dependencies[i].kind.as_str(), "use") && str_eq(
            input.dependencies[i].source.as_str(),
            file,
        ) {
            return true;
        }
        i += 1;
    }
    false
}

/// The type's bare name is that of a declared record or array type.
pub open spec fn named_composite_type(input: &Input, t: Seq<char>) -> bool {
    exists|i: int|
        0 <= i < input.types@.len() && same_name((#[trigger] input.types@[i]).name@, base_type(t))
            && (input.types@[i].kind@ == "record"@ || input.types@[i].kind@ == "array"@)
}

pub fn is_named_composite_type(input: &Input, t: &str) -> (r: bool)
    ensures
        r == named_composite_type(input, t@),
{
    let base = base_type_name(t);
    let mut i: usize = 0;
    while i < input.types.len()
        invariant
            i <= input.types@.len(),
            base@ == base_type(t@),
            forall|j: int|
                0 <= j < i ==> !(same_name((#[trigger] input.types@[j]).name@, base_type(t@)) && (
                input.types@[j].kind@ == "record"@ || input.types@[j].kind@ == "array"@)),
        decreases input.types@.len() - i,
    {
        if same(input.types[i].name.as_str(), base.as_str()) && (str_eq(
            input.types[i].kind.as_str(),
            "record",
        ) || str_eq(input.types[i].kind.as_str(), "array")) {
            return true;
        }
        i += 1;
    }
    false
}

/// A type whose string holds `vector`, `signed` (and so `unsigned`) or
/// `array`, or that names a declared record or array type.
pub open spec fn composite_type(input: &Input, t: Seq<char>) -> bool {
    let l = lower(t);
    contains(l, "vector"@) || contains(l, "signed"@) || contains(l, "array"@)
        || named_composite_type(input, t)
}

pub fn is_composite_type(input: &Input, t: &str) -> (r: bool)
    ensures
        r == composite_type(input, t@),
{
    let l = lower_chars_of(t);
    holds(&l, "vector") || holds(&l, "signed") || holds(&l, "array") || is_named_composite_type(
        input,
        t,
    )
}

/// Some signal or port of this name has a composite type.
pub open spec fn composite_identifier(input: &Input, name: Seq<char>) -> bool {
    (exists|i: int|
        0 <= i < input.signals@.len() && same_name((#[trigger] input.signals@[i]).name@, name)
            && composite_type(input, input.signals@[i].ty@)) || (exists|i: int|
        0 <= i < input.ports@.len() && same_name((#[trigger] input.ports@[i]).name@, name)
            && composite_type(input, input.ports@[i].ty@))
}

pub fn is_composite_identifier(input: &Input, name: &str) -> (r: bool)
    ensures
        r == composite_identifier(input, name@),
{
    let mut i: usize = 0;
    while i < input.signals.len()
        invariant
            i <= input.signals@.len(),
            forall|j: int|
                0 <= j < i ==> !(same_name((#[trigger] input.signals@[j]).name@, name@)
                    && composite_type(input, input.signals@[j].ty@)),
        decreases input.signals@.len() - i,
    {
        if same(input.signals[i].name.as_str(), name) && is_composite_type(
            input,
            input.signals[i].ty.as_str(),
        ) {
            return true;
        }
        i += 1;
    }
    let mut k: usize = 0;
    while k < input.ports.len()
        invariant
            k <= input.ports@.len(),
            forall|j: int|
                0 <= j < input.signals@.len() ==> !(same_name(
                    (#[trigger] input.signals@[j]).name@,
                    name@,
                ) && composite_type(input, input.signals@[j].ty@)),
            forall|j: int|
                0 <= j < k ==> !(same_name((#[trigger] input.ports@[j]).name@, name@)
                    && composite_type(input, input.ports@[j].ty@)),
        decreases input.ports@.len() - k,
    {
        if same(input.ports[k].name.as_str(), name) && is_composite_type(
            input,
            input.ports[k].ty.as_str(),
        ) {
            return true;
        }
        k += 1;
    }
    false
}

pub open spec fn common_signal_name(name: Seq<char>) -> bool {
    let l = lower(name);
    l == "clk"@ || l == "rst"@ || l == "reset"@ || l == "data"@ || l == "addr"@ || l == "we"@ || l
        == "re"@ || l == "en"@ || l == "valid"@ || l == "ready"@ || l == "ack"@ || l == "done"@
        || l == "start"@ || l == "busy"@ || l == "error"@
}

pub fn is_common_signal_name(name: &str) -> (r: bool)
    ensures
        r == common_signal_name(name@),
{
    let l = lower_chars_of(name);
    chars_are(&l, "clk") || chars_are(&l, "rst") || chars_are(&l, "reset") || chars_are(&l, "data")
        || chars_are(&l, "addr") || chars_are(&l, "we") || chars_are(&l, "re") || chars_are(
        &l,
        "en",
    ) || chars_are(&l, "valid") || chars_are(&l, "ready") || chars_are(&l, "ack") || chars_are(
        &l,
        "done",
    ) || chars_are(&l, "start") || chars_are(&l, "busy") || chars_are(&l, "error")
}

/// A conventional loop index.
pub open spec fn loop_index_word(w: Seq<char>) -> bool {
    w == "i"@
        || w == "j"@
        || w == "k"@
        || w == "n"@
        || w == "r"@
        || w == "idx"@
        || w == "index"@
        || w == "x"@
        || w == "y"@
}

fn is_loop_index_word(w: &Vec<char>) -> (r: bool)
    ensures
        r == loop_index_word(w@),
{
    chars_are(w, "i")
        || chars_are(w, "j")
        || chars_are(w, "k")
        || chars_are(w, "n")
        || chars_are(w, "r")
        || chars_are(w, "idx")
        || chars_are(w, "index")
        || chars_are(w, "x")
        || chars_are(w, "y")
}

/// A predefined file-status or severity literal.
pub open spec fn file_or_severity_word(w: Seq<char>) -> bool {
    w == "open_ok"@
        || w == "status_error"@
        || w == "name_error"@
        || w == "mode_error"@
        || w == "read_mode"@
        || w == "write_mode"@
        || w == "append_mode"@
        || w == "trace"@
        || w == "debug"@
        || w == "info"@
        || w == "warning"@
        || w == "error"@
        || w == "failure"@
        || w == "fatal"@
}

fn is_file_or_severity_word(w: &Vec<char>) -> (r: bool)
    ensures
        r == file_or_severity_word(w@),
{
    chars_are(w, "open_ok")
        || chars_are(w, "status_error")
        || chars_are(w, "name_error")
        || chars_are(w, "mode_error")
        || chars_are(w, "read_mode")
        || chars_are(w, "write_mode")
        || chars_are(w, "append_mode")
        || chars_are(w, "trace")
        || chars_are(w, "debug")
        || chars_are(w, "info")
        || chars_are(w, "warning")
        || chars_are(w, "error")
        || chars_are(w, "failure")
        || chars_are(w, "fatal")
}

/// A standard type name.
pub open spec fn standard_type_word(w: Seq<char>) -> bool {
    w == "std_logic"@
        || w == "std_ulogic"@
        || w == "std_logic_vector"@
        || w == "std_ulogic_vector"@
        || w == "integer"@
        || w == "natural"@
        || w == "positive"@
        || w == "boolean"@
        || w == "bit"@
        || w == "bit_vector"@
        || w == "signed"@
        || w == "unsigned"@
        || w == "real"@
        || w == "time"@
        || w == "character"@
        || w == "string"@
}

fn is_standard_type_word(w: &Vec<char>) -> (r: bool)
    ensures
        r == standard_type_word(w@),
{
    chars_are(w, "std_logic")
        || chars_are(w, "std_ulogic")
        || chars_are(w, "std_logic_vector")
        || chars_are(w, "std_ulogic_vector")
        || chars_are(w, "integer")
        || chars_are(w, "natural")
        || chars_are(w, "positive")
        || chars_are(w, "boolean")
        || chars_are(w, "bit")
        || chars_are(w, "bit_vector")
        || chars_are(w, "signed")
        || chars_are(w, "unsigned")
        || chars_are(w, "real")
        || chars_are(w, "time")
        || chars_are(w, "character")
        || chars_are(w, "string")
}

/// A predefined attribute name.
pub open spec fn attribute_word(w: Seq<char>) -> bool {
    w == "left"@
        || w == "right"@
        || w == "high"@
        || w == "low"@
        || w == "range"@
        || w == "reverse_range"@
        || w == "length"@
        || w == "ascending"@
        || w == "image"@
        || w == "value"@
        || w == "pos"@
        || w == "val"@
        || w == "succ"@
        || w == "pred"@
        || w == "leftof"@
        || w == "rightof"@
        || w == "event"@
        || w == "active"@
        || w == "last_event"@
        || w == "last_active"@
        || w == "last_value"@
        || w == "driving"@
        || w == "driving_value"@
        || w == "simple_name"@
        || w == "instance_name"@
        || w == "path_name"@
}

fn is_attribute_word(w: &Vec<char>) -> (r: bool)
    ensures
        r == attribute_word(w@),
{
    chars_are(w, "left")
        || chars_are(w, "right")
        || chars_are(w, "high")
        || chars_are(w, "low")
        || chars_are(w, "range")
        || chars_are(w, "reverse_range")
        || chars_are(w, "length")
        || chars_are(w, "ascending")
        || chars_are(w, "image")
        || chars_are(w, "value")
        || chars_are(w, "pos")
        || chars_are(w, "val")
        || chars_are(w, "succ")
        || chars_are(w, "pred")
        || chars_are(w, "leftof")
        || chars_are(w, "rightof")
        || chars_are(w, "event")
        || chars_are(w, "active")
        || chars_are(w, "last_event")
        || chars_are(w, "last_active")
        || chars_are(w, "last_value")
        || chars_are(w, "driving")
        || chars_are(w, "driving_value")
        || chars_are(w, "simple_name")
        || chars_are(w, "instance_name")
        || chars_are(w, "path_name")
}

/// A conversion or standard function name.
pub open spec fn standard_function_word(w: Seq<char>) -> bool {
    w == "to_integer"@
        || w == "to_unsigned"@
        || w == "to_signed"@
        || w == "to_stdulogicvector"@
        || w == "to_stdlogicvector"@
        || w == "to_bitvector"@
        || w == "to_bit"@
        || w == "to_stdulogic"@
        || w == "to_stdlogic"@
        || w == "std_logic_vector"@
        || w == "conv_integer"@
        || w == "conv_unsigned"@
        || w == "conv_signed"@
        || w == "conv_std_logic_vector"@
        || w == "resize"@
        || w == "shift_left"@
        || w == "shift_right"@
        || w == "rotate_left"@
        || w == "rotate_right"@
        || w == "rising_edge"@
        || w == "falling_edge"@
        || w == "now"@
        || w == "or_reduce"@
        || w == "and_reduce"@
        || w == "xor_reduce"@
        || w == "nand_reduce"@
        || w == "nor_reduce"@
        || w == "xnor_reduce"@
        || w == "minimum"@
        || w == "maximum"@
}

fn is_standard_function_word(w: &Vec<char>) -> (r: bool)
    ensures
        r == standard_function_word(w@),
{
    chars_are(w, "to_integer")
        || chars_are(w, "to_unsigned")
        || chars_are(w, "to_signed")
        || chars_are(w, "to_stdulogicvector")
        || chars_are(w, "to_stdlogicvector")
        || chars_are(w, "to_bitvector")
        || chars_are(w, "to_bit")
        || chars_are(w, "to_stdulogic")
        || chars_are(w, "to_stdlogic")
        || chars_are(w, "std_logic_vector")
        || chars_are(w, "conv_integer")
        || chars_are(w, "conv_unsigned")
        || chars_are(w, "conv_signed")
        || chars_are(w, "conv_std_logic_vector")
        || chars_are(w, "resize")
        || chars_are(w, "shift_left")
        || chars_are(w, "shift_right")
        || chars_are(w, "rotate_left")
        || chars_are(w, "rotate_right")
        || chars_are(w, "rising_edge")
        || chars_are(w, "falling_edge")
        || chars_are(w, "now")
        || chars_are(w, "or_reduce")
        || chars_are(w, "and_reduce")
        || chars_are(w, "xor_reduce")
        || chars_are(w, "nand_reduce")
        || chars_are(w, "nor_reduce")
        || chars_are(w, "xnor_reduce")
        || chars_are(w, "minimum")
        || chars_are(w, "maximum")
}

/// A keyword or operator of the language.
pub open spec fn reserved_word(w: Seq<char>) -> bool {
    w == "downto"@
        || w == "to"@
        || w == "range"@
        || w == "others"@
        || w == "all"@
        || w == "open"@
        || w == "null"@
        || w == "true"@
        || w == "false"@
        || w == "and"@
        || w == "or"@
        || w == "not"@
        || w == "xor"@
        || w == "nand"@
        || w == "nor"@
        || w == "xnor"@
        || w == "mod"@
        || w == "rem"@
        || w == "abs"@
        || w == "sll"@
        || w == "srl"@
        || w == "sla"@
        || w == "sra"@
        || w == "rol"@
        || w == "ror"@
        || w == "is"@
        || w == "of"@
        || w == "if"@
        || w == "then"@
        || w == "else"@
        || w == "elsif"@
        || w == "end"@
        || w == "when"@
        || w == "loop"@
        || w == "for"@
        || w == "while"@
        || w == "next"@
        || w == "exit"@
        || w == "return"@
        || w == "case"@
        || w == "select"@
        || w == "with"@
        || w == "after"@
        || w == "transport"@
        || w == "inertial"@
        || w == "reject"@
        || w == "generate"@
        || w == "assert"@
        || w == "report"@
        || w == "severity"@
        || w == "wait"@
        || w == "until"@
}

fn is_reserved_word(w: &Vec<char>) -> (r: bool)
    ensures
        r == reserved_word(w@),
{
    chars_are(w, "downto")
        || chars_are(w, "to")
        || chars_are(w, "range")
        || chars_are(w, "others")
        || chars_are(w, "all")
        || chars_are(w, "open")
        || chars_are(w, "null")
        || chars_are(w, "true")
        || chars_are(w, "false")
        || chars_are(w, "and")
        || chars_are(w, "or")
        || chars_are(w, "not")
        || chars_are(w, "xor")
        || chars_are(w, "nand")
        || chars_are(w, "nor")
        || chars_are(w, "xnor")
        || chars_are(w, "mod")
        || chars_are(w, "rem")
        || chars_are(w, "abs")
        || chars_are(w, "sll")
        || chars_are(w, "srl")
        || chars_are(w, "sla")
        || chars_are(w, "sra")
        || chars_are(w, "rol")
        || chars_are(w, "ror")
        || chars_are(w, "is")
        || chars_are(w, "of")
        || chars_are(w, "if")
        || chars_are(w, "then")
        || chars_are(w, "else")
        || chars_are(w, "elsif")
        || chars_are(w, "end")
        || chars_are(w, "when")
        || chars_are(w, "loop")
        || chars_are(w, "for")
        || chars_are(w, "while")
        || chars_are(w, "next")
        || chars_are(w, "exit")
        || chars_are(w, "return")
        || chars_are(w, "case")
        || chars_are(w, "select")
        || chars_are(w, "with")
        || chars_are(w, "after")
        || chars_are(w, "transport")
        || chars_are(w, "inertial")
        || chars_are(w, "reject")
        || chars_are(w, "generate")
        || chars_are(w, "assert")
        || chars_are(w, "report")
        || chars_are(w, "severity")
        || chars_are(w, "wait")
        || chars_are(w, "until")
}

/// A name written by the constant, variable, function or generic conventions.
pub open spec fn conventional_constant(name: Seq<char>) -> bool {
    let l = lower(name);
    starts_with(l, "c_"@) || ends_with(l, "_c"@) || ends_with(l, "_v"@) || ends_with(l, "_f"@)
        || ends_with(l, "_g"@) || starts_with(l, "g_"@)
}

/// The name is the loop variable of some generate statement.
pub open spec fn generate_loop_variable(input: &Input, name: Seq<char>) -> bool {
    exists|i: int|
        0 <= i < input.generates@.len() && (#[trigger] input.generates@[i]).loop_var@.len() > 0
            && same_name(input.generates@[i].loop_var@, name)
}

/// The pattern for one or more capital letters followed by an underscore at
/// the start of a name.
pub open spec fn capital_prefix_pattern() -> Seq<char> {
    "^[A-Z]+_"@
}

/// Whether the matcher finds the capital-prefix pattern in `name`.
pub open spec fn capital_prefixed(name: Seq<char>) -> bool {
    regex_match(capital_prefix_pattern(), name) == Some(true)
}

/// An identifier that is never a signal, given whether the matcher found the
/// capital-prefix pattern in it.
pub open spec fn skip_name_given(input: &Input, name: Seq<char>, capital_prefix: bool) -> bool {
    let l = lower(name);
    conventional_constant(name) || (name == upper(name) && name.len() > 1) || capital_prefix
        || loop_index_word(l) || file_or_severity_word(l) || generate_loop_variable(input, name)
        || standard_type_word(l) || attribute_word(l) || standard_function_word(l)
        || reserved_word(l)
}

/// An identifier that is never a signal.
pub open spec fn skip_name(input: &Input, name: Seq<char>) -> bool {
    skip_name_given(input, name, capital_prefixed(name))
}

fn is_generate_loop_variable(input: &Input, name: &str) -> (r: bool)
    ensures
        r == generate_loop_variable(input, name@),
{
    let mut i: usize = 0;
    while i < input.generates.len()
        invariant
            i <= input.generates@.len(),
            forall|j: int|
                0 <= j < i ==> !((#[trigger] input.generates@[j]).loop_var@.len() > 0 && same_name(
                    input.generates@[j].loop_var@,
                    name@,
                )),
        decreases input.generates@.len() - i,
    {
        if !input.generates[i].loop_var.as_str().is_empty() && same(
            input.generates[i].loop_var.as_str(),
            name,
        ) {
            return true;
        }
        i += 1;
    }
    false
}

/// Decides whether `name` is never a signal, once the matcher has said whether
/// the name starts with capital letters and an underscore.
pub fn is_skip_name_given(input: &Input, name: &str, capital_prefix: bool) -> (r: bool)
    ensures
        r == skip_name_given(input, name@, capital_prefix),
{
    let n = chars_of(name);
    let l = lower_chars(&n);
    if begins(&l, "c_") || ends(&l, "_c") || ends(&l, "_v") || ends(&l, "_f") || ends(&l, "_g")
        || begins(&l, "g_") {
        return true;
    }
    let up = to_upper(name);
    if str_eq(name, up.as_str()) && n.len() > 1 {
        return true;
    }
    if capital_prefix {
        return true;
    }
    if is_loop_index_word(&l) || is_file_or_severity_word(&l) {
        return true;
    }
    if is_generate_loop_variable(input, name) {
        return true;
    }
    is_standard_type_word(&l) || is_attribute_word(&l) || is_standard_function_word(&l)
        || is_reserved_word(&l)
}

pub fn is_skip_name(input: &Input, name: &str) -> (r: bool)
    ensures
        r == skip_name(input, name@),
{
    let capital_prefix = found("^[A-Z]+_", name);
    is_skip_name_given(input, name, capital_prefix)
}

/// The process lies in an architecture of a testbench entity.
pub open spec fn in_testbench_arch(input: &Input, in_arch: Seq<char>) -> bool {
    exists|i: int|
        0 <= i < input.architectures@.len() && same_name(
            (#[trigger] input.architectures@[i]).name@,
            in_arch,
        ) && testbench_name(input.architectures@[i].entity_name@)
}

pub fn process_in_testbench(input: &Input, proc: &Process) -> (r: bool)
    ensures
        r == in_testbench_arch(input, proc.in_arch@),
{
    let mut i: usize = 0;
    while i < input.architectures.len()
        invariant
            i <= input.architectures@.len(),
            forall|j: int|
                0 <= j < i ==> !(same_name(
                    (#[trigger] input.architectures@[j]).name@,
                    proc.in_arch@,
                ) && testbench_name(input.architectures@[j].entity_name@)),
        decreases input.architectures@.len() - i,
    {
        if same(input.architectures[i].name.as_str(), proc.in_arch.as_str()) && is_testbench_name(
            input.architectures[i].entity_name.as_str(),
        ) {
            return true;
        }
        i += 1;
    }
    false
}

/// The file holds a testbench entity.
pub open spec fn testbench_file(input: &Input, file: Seq<char>) -> bool {
    exists|i: int|
        0 <= i < input.entities@.len() && (#[trigger] input.entities@[i]).file@ == file
            && testbench_name(input.entities@[i].name@)
}

pub fn file_in_testbench(input: &Input, file: &str) -> (r: bool)
    ensures
        r == testbench_file(input, file@),
{
    let mut i: usize = 0;
    while i < input.entities.len()
        invariant
            i <= input.entities@.len(),
            forall|j: int|
                0 <= j < i ==> !((#[trigger] input.entities@[j]).file@ == file@ && testbench_name(
                    input.entities@[j].name@,
                )),
        decreases input.entities@.len() - i,
    {
        if str_eq(input.entities[i].file.as_str(), file) && is_testbench_name(
            input.entities[i].name.as_str(),
        ) {
            return true;
        }
        i += 1;
    }
    false
}

pub fn concurrent_in_testbench(input: &Input, ca: &ConcurrentAssignment) -> (r: bool)
    ensures
        r == testbench_file(input, ca.file@),
{
    file_in_testbench(input, ca.file.as_str())
}

pub open spec fn counter_name(name: Seq<char>) -> bool {
    let l = lower(name);
    contains(l, "count"@) || contains(l, "cnt"@) || contains(l, "counter"@) || contains(
        l,
        "timer"@,
    ) || contains(l, "tick"@)
}

pub fn is_counter_name(name: &str) -> (r: bool)
    ensures
        r == counter_name(name@),
{
    let l = lower_chars_of(name);
    holds(&l, "count") || holds(&l, "cnt") || holds(&l, "counter") || holds(&l, "timer")
        || holds(&l, "tick")
}

pub open spec fn state_name(name: Seq<char>) -> bool {
    let l = lower(name);
    contains(l, "state"@) || contains(l, "fsm"@) || contains(l, "mode"@)
}

pub fn is_state_name(name: &str) -> (r: bool)
    ensures
        r == state_name(name@),
{
    let l = lower_chars_of(name);
    holds(&l, "state") || holds(&l, "fsm") || holds(&l, "mode")
}

/// Not an enumeration literal, not a constant, and not a name to skip.
pub open spec fn actual_signal(input: &Input, name: Seq<char>) -> bool {
    !listed(input.enum_literals@, name) && !listed(input.constants@, name) && !skip_name(
        input,
        name,
    )
}

pub fn is_actual_signal(input: &Input, name: &str) -> (r: bool)
    ensures
        r == actual_signal(input, name@),
{
    !is_enum_literal(input, name) && !is_constant(input, name) && !is_skip_name(input, name)
}

/// The rule is switched off, or is optional and not named by the configuration.
pub open spec fn rule_disabled(input: &Input, rule: Seq<char>) -> bool {
    input.lint_config.rules.lookup(rule) == Some("off"@) || (optional_rule(rule)
        && !input.lint_config.rules.has_key(rule))
}

pub fn rule_is_disabled(input: &Input, rule: &str) -> (r: bool)
    ensures
        r == rule_disabled(input, rule@),
{
    match input.lint_config.rules.get(rule) {
        Some(val) => str_eq(val.as_str(), "off"),
        None => is_optional_rule(rule),
    }
}

pub fn get_rule_severity(input: &Input, rule: &str) -> (r: Option<String>)
    ensures
        match r {
            Some(s) => input.lint_config.rules.lookup(rule@) == Some(s@),
            None => input.lint_config.rules.lookup(rule@).is_none(),
        },
{
    match input.lint_config.rules.get(rule) {
        Some(val) => Some(val.clone()),
        None => None,
    }
}

/// The path is one of the configured third-party paths, or ends with one.
pub open spec fn third_party_file(input: &Input, file: Seq<char>) -> bool {
    exists|i: int|
        0 <= i < input.third_party_files@.len() && ends_with(
            file,
            (#[trigger] input.third_party_files@[i])@,
        )
}

pub fn is_third_party_file(input: &Input, file: &str) -> (r: bool)
    ensures
        r == third_party_file(input, file@),
{
    let mut i: usize = 0;
    while i < input.third_party_files.len()
        invariant
            i <= input.third_party_files@.len(),
            forall|j: int|
                0 <= j < i ==> !ends_with(file@, (#[trigger] input.third_party_files@[j])@),
        decreases input.third_party_files@.len() - i,
    {
        if str_ends_with(file, input.third_party_files[i].as_str()) {
            return true;
        }
        i += 1;
    }
    false
}

/// The rules that run only when the configuration names them.
pub open spec fn optional_rule(rule: Seq<char>) -> bool {
    rule == "entity_naming"@
        || rule == "naming_convention"@
        || rule == "entity_has_ports"@
        || rule == "entity_no_ports_not_tb"@
        || rule == "entity_without_arch"@
        || rule == "architecture_has_entity"@
        || rule == "configuration_missing_entity"@
        || rule == "component_resolved"@
        || rule == "signal_input_naming"@
        || rule == "signal_output_naming"@
        || rule == "active_low_naming"@
        || rule == "async_reset_active_high"@
        || rule == "missing_reset"@
        || rule == "instance_naming_convention"@
        || rule == "positional_mapping"@
        || rule == "process_label_missing"@
        || rule == "architecture_naming_convention"@
        || rule == "empty_architecture"@
        || rule == "trivial_architecture"@
        || rule == "multiple_entities_per_file"@
        || rule == "large_entity"@
        || rule == "wide_signal"@
        || rule == "duplicate_signal_name"@
        || rule == "single_state_signal"@
        || rule == "fsm_unreachable_state"@
        || rule == "state_signal_not_enum"@
        || rule == "fsm_missing_default_state"@
        || rule == "fsm_unhandled_state"@
        || rule == "large_combinational_process"@
        || rule == "vhdl2008_sensitivity_all"@
        || rule == "long_sensitivity_list"@
        || rule == "combinational_feedback"@
        || rule == "empty_sensitivity_combinational"@
        || rule == "direct_combinational_loop"@
        || rule == "two_stage_combinational_loop"@
        || rule == "three_stage_combinational_loop"@
        || rule == "potential_combinational_loop"@
        || rule == "cross_process_combinational_loop"@
        || rule == "sensitivity_list_superfluous"@
        || rule == "sensitivity_list_incomplete"@
        || rule == "missing_reset_sensitivity"@
        || rule == "missing_clock_sensitivity"@
        || rule == "very_wide_register"@
        || rule == "mixed_edge_clocking"@
        || rule == "async_reset_naming"@
        || rule == "sparse_port_map"@
        || rule == "empty_port_map"@
        || rule == "instance_name_matches_component"@
        || rule == "repeated_component_instantiation"@
        || rule == "many_instances"@
        || rule == "hardcoded_port_value"@
        || rule == "open_port_connection"@
        || rule == "floating_instance_input"@
        || rule == "very_long_file"@
        || rule == "large_package"@
        || rule == "short_signal_name"@
        || rule == "long_signal_name"@
        || rule == "short_port_name"@
        || rule == "entity_name_with_numbers"@
        || rule == "mixed_port_directions"@
        || rule == "bidirectional_port"@
        || rule == "unused_signal"@
        || rule == "undriven_signal"@
        || rule == "undriven_output_port"@
        || rule == "inout_as_input"@
        || rule == "inout_as_output"@
        || rule == "unresolved_dependency"@
        || rule == "undeclared_signal_usage"@
        || rule == "multi_driven_signal"@
        || rule == "unused_input_port"@
        || rule == "duplicate_signal_in_entity"@
        || rule == "duplicate_port_in_entity"@
        || rule == "duplicate_entity_in_file"@
        || rule == "file_entity_mismatch"@
        || rule == "many_signals"@
        || rule == "buffer_port"@
        || rule == "deep_generate_nesting"@
        || rule == "unlabeled_generate"@
        || rule == "magic_width_number"@
        || rule == "hardcoded_generic"@
        || rule == "multiple_clock_domains"@
        || rule == "multiple_clocks_in_process"@
        || rule == "very_wide_bus"@
        || rule == "critical_signal_no_reset"@
        || rule == "combinational_reset"@
        || rule == "unregistered_output"@
        || rule == "potential_memory_inference"@
        || rule == "complex_process"@
        || rule == "legacy_packages"@
        || rule == "testbench_with_ports"@
        || rule == "mismatched_tb_architecture"@
        || rule == "tb_with_synth_arch"@
        || rule == "combinational_incomplete_assignment"@
        || rule == "comb_process_no_default"@
        || rule == "conditional_assignment_review"@
        || rule == "selected_assignment_review"@
        || rule == "combinational_default_values"@
        || rule == "enum_case_incomplete"@
        || rule == "fsm_no_reset_state"@
        || rule == "mixed_signedness"@
        || rule == "large_literal_comparison"@
        || rule == "magic_number_comparison"@
        || rule == "counter_trigger"@
        || rule == "inverted_trigger"@
        || rule == "multi_trigger_process"@
        || rule == "cdc_unsync_single_bit"@
        || rule == "cdc_unsync_multi_bit"@
        || rule == "cdc_insufficient_sync"@
        || rule == "async_reset_unsynchronized"@
        || rule == "partial_reset_domain"@
        || rule == "short_reset_sync"@
        || rule == "reset_crosses_domains"@
        || rule == "combinational_reset_gen"@
        || rule == "potential_latch"@
        || rule == "incomplete_case_latch"@
        || rule == "reset_not_std_logic"@
        || rule == "clock_not_std_logic"@
        || rule == "signal_in_seq_and_comb"@
        || rule == "unguarded_multiplication"@
        || rule == "unguarded_division"@
        || rule == "unguarded_exponent"@
        || rule == "power_hotspot"@
        || rule == "combinational_multiplier"@
        || rule == "weak_guard"@
        || rule == "dsp_candidate_no_control"@
        || rule == "clock_gating_opportunity"@
        || rule == "gated_clock_detection"@
        || rule == "signal_crosses_clock_domain"@
        || rule == "port_width_mismatch"@
        || rule == "input_port_driven"@
        || rule == "procedure_param_invalid_mode"@
        || rule == "function_param_invalid_mode"@
        || rule == "trigger_drives_output"@
}

pub fn is_optional_rule(rule: &str) -> (r: bool)
    ensures
        r == optional_rule(rule@),
{
    let w = chars_of(rule);
    chars_are(&w, "entity_naming")
        || chars_are(&w, "naming_convention")
        || chars_are(&w, "entity_has_ports")
        || chars_are(&w, "entity_no_ports_not_tb")
        || chars_are(&w, "entity_without_arch")
        || chars_are(&w, "architecture_has_entity")
        || chars_are(&w, "configuration_missing_entity")
        || chars_are(&w, "component_resolved")
        || chars_are(&w, "signal_input_naming")
        || chars_are(&w, "signal_output_naming")
        || chars_are(&w, "active_low_naming")
        || chars_are(&w, "async_reset_active_high")
        || chars_are(&w, "missing_reset")
        || chars_are(&w, "instance_naming_convention")
        || chars_are(&w, "positional_mapping")
        || chars_are(&w, "process_label_missing")
        || chars_are(&w, "architecture_naming_convention")
        || chars_are(&w, "empty_architecture")
        || chars_are(&w, "trivial_architecture")
        || chars_are(&w, "multiple_entities_per_file")
        || chars_are(&w, "large_entity")
        || chars_are(&w, "wide_signal")
        || chars_are(&w, "duplicate_signal_name")
        || chars_are(&w, "single_state_signal")
        || chars_are(&w, "fsm_unreachable_state")
        || chars_are(&w, "state_signal_not_enum")
        || chars_are(&w, "fsm_missing_default_state")
        || chars_are(&w, "fsm_unhandled_state")
        || chars_are(&w, "large_combinational_process")
        || chars_are(&w, "vhdl2008_sensitivity_all")
        || chars_are(&w, "long_sensitivity_list")
        || chars_are(&w, "combinational_feedback")
        || chars_are(&w, "empty_sensitivity_combinational")
        || chars_are(&w, "direct_combinational_loop")
        || chars_are(&w, "two_stage_combinational_loop")
        || chars_are(&w, "three_stage_combinational_loop")
        || chars_are(&w, "potential_combinational_loop")
        || chars_are(&w, "cross_process_combinational_loop")
        || chars_are(&w, "sensitivity_list_superfluous")
        || chars_are(&w, "sensitivity_list_incomplete")
        || chars_are(&w, "missing_reset_sensitivity")
        || chars_are(&w, "missing_clock_sensitivity")
        || chars_are(&w, "very_wide_register")
        || chars_are(&w, "mixed_edge_clocking")
        || chars_are(&w, "async_reset_naming")
        || chars_are(&w, "sparse_port_map")
        || chars_are(&w, "empty_port_map")
        || chars_are(&w, "instance_name_matches_component")
        || chars_are(&w, "repeated_component_instantiation")
        || chars_are(&w, "many_instances")
        || chars_are(&w, "hardcoded_port_value")
        || chars_are(&w, "open_port_connection")
        || chars_are(&w, "floating_instance_input")
        || chars_are(&w, "very_long_file")
        || chars_are(&w, "large_package")
        || chars_are(&w, "short_signal_name")
        || chars_are(&w, "long_signal_name")
        || chars_are(&w, "short_port_name")
        || chars_are(&w, "entity_name_with_numbers")
        || chars_are(&w, "mixed_port_directions")
        || chars_are(&w, "bidirectional_port")
        || chars_are(&w, "unused_signal")
        || chars_are(&w, "undriven_signal")
        || chars_are(&w, "undriven_output_port")
        || chars_are(&w, "inout_as_input")
        || chars_are(&w, "inout_as_output")
        || chars_are(&w, "unresolved_dependency")
        || chars_are(&w, "undeclared_signal_usage")
        || chars_are(&w, "multi_driven_signal")
        || chars_are(&w, "unused_input_port")
        || chars_are(&w, "duplicate_signal_in_entity")
        || chars_are(&w, "duplicate_port_in_entity")
        || chars_are(&w, "duplicate_entity_in_file")
        || chars_are(&w, "file_entity_mismatch")
        || chars_are(&w, "many_signals")
        || chars_are(&w, "buffer_port")
        || chars_are(&w, "deep_generate_nesting")
        || chars_are(&w, "unlabeled_generate")
        || chars_are(&w, "magic_width_number")
        || chars_are(&w, "hardcoded_generic")
        || chars_are(&w, "multiple_clock_domains")
        || chars_are(&w, "multiple_clocks_in_process")
        || chars_are(&w, "very_wide_bus")
        || chars_are(&w, "critical_signal_no_reset")
        || chars_are(&w, "combinational_reset")
        || chars_are(&w, "unregistered_output")
        || chars_are(&w, "potential_memory_inference")
        || chars_are(&w, "complex_process")
        || chars_are(&w, "legacy_packages")
        || chars_are(&w, "testbench_with_ports")
        || chars_are(&w, "mismatched_tb_architecture")
        || chars_are(&w, "tb_with_synth_arch")
        || chars_are(&w, "combinational_incomplete_assignment")
        || chars_are(&w, "comb_process_no_default")
        || chars_are(&w, "conditional_assignment_review")
        || chars_are(&w, "selected_assignment_review")
        || chars_are(&w, "combinational_default_values")
        || chars_are(&w, "enum_case_incomplete")
        || chars_are(&w, "fsm_no_reset_state")
        || chars_are(&w, "mixed_signedness")
        || chars_are(&w, "large_literal_comparison")
        || chars_are(&w, "magic_number_comparison")
        || chars_are(&w, "counter_trigger")
        || chars_are(&w, "inverted_trigger")
        || chars_are(&w, "multi_trigger_process")
        || chars_are(&w, "cdc_unsync_single_bit")
        || chars_are(&w, "cdc_unsync_multi_bit")
        || chars_are(&w, "cdc_insufficient_sync")
        || chars_are(&w, "async_reset_unsynchronized")
        || chars_are(&w, "partial_reset_domain")
        || chars_are(&w, "short_reset_sync")
        || chars_are(&w, "reset_crosses_domains")
        || chars_are(&w, "combinational_reset_gen")
        || chars_are(&w, "potential_latch")
        || chars_are(&w, "incomplete_case_latch")
        || chars_are(&w, "reset_not_std_logic")
        || chars_are(&w, "clock_not_std_logic")
        || chars_are(&w, "signal_in_seq_and_comb")
        || chars_are(&w, "unguarded_multiplication")
        || chars_are(&w, "unguarded_division")
        || chars_are(&w, "unguarded_exponent")
        || chars_are(&w, "power_hotspot")
        || chars_are(&w, "combinational_multiplier")
        || chars_are(&w, "weak_guard")
        || chars_are(&w, "dsp_candidate_no_control")
        || chars_are(&w, "clock_gating_opportunity")
        || chars_are(&w, "gated_clock_detection")
        || chars_are(&w, "signal_crosses_clock_domain")
        || chars_are(&w, "port_width_mismatch")
        || chars_are(&w, "input_port_driven")
        || chars_are(&w, "procedure_param_invalid_mode")
        || chars_are(&w, "function_param_invalid_mode")
        || chars_are(&w, "trigger_drives_output")
}

/// Two names are the same whatever the case in which either is written.
pub proof fn lemma_same_name_ignores_case(a: Seq<char>, b: Seq<char>)
    ensures
        same_name(upper(a), b) == same_name(a, b),
        same_name(lower(a), b) == same_name(a, b),
        same_name(a, upper(b)) == same_name(a, b),
        same_name(a, lower(b)) == same_name(a, b),
        same_name(a, b) == same_name(b, a),
        same_name(a, a),
{
    crate::text::lemma_lower_of_upper(a);
    crate::text::lemma_lower_of_upper(b);
    crate::text::lemma_lower_idempotent(a);
    crate::text::lemma_lower_idempotent(b);
}

/// What class a name falls into does not depend on the case in which it is
/// written: writing it all in upper or all in lower case changes nothing.
pub proof fn lemma_name_classes_ignore_case(name: Seq<char>)
    ensures
        testbench_name(upper(name)) == testbench_name(name),
        testbench_name(lower(name)) == testbench_name(name),
        clock_name(upper(name)) == clock_name(name),
        clock_name(lower(name)) == clock_name(name),
        reset_name(upper(name)) == reset_name(name),
        reset_name(lower(name)) == reset_name(name),
        single_bit_type(upper(name)) == single_bit_type(name),
        single_bit_type(lower(name)) == single_bit_type(name),
        instance_prefix_ok(upper(name)) == instance_prefix_ok(name),
        instance_prefix_ok(lower(name)) == instance_prefix_ok(name),
        signed_type(upper(name)) == signed_type(name),
        unsigned_type(upper(name)) == unsigned_type(name),
        resolved_type(upper(name)) == resolved_type(name),
        resolved_type(lower(name)) == resolved_type(name),
        standard_arch_name(upper(name)) == standard_arch_name(name),
        common_signal_name(upper(name)) == common_signal_name(name),
        counter_name(upper(name)) == counter_name(name),
        state_name(upper(name)) == state_name(name),
{
    crate::text::lemma_lower_of_upper(name);
    crate::text::lemma_lower_idempotent(name);
}

/// Whether a list holds a name, an entity of a name exists, or a signal of
/// a name is resolved does not depend on the case in which the name is asked for.
pub proof fn lemma_lookups_ignore_case(input: &Input, list: Seq<String>, name: Seq<char>)
    ensures
        listed(list, upper(name)) == listed(list, name),
        listed(list, lower(name)) == listed(list, name),
        entity_known(input, upper(name)) == entity_known(input, name),
        entity_known(input, lower(name)) == entity_known(input, name),
        resolved_signal(input, upper(name)) == resolved_signal(input, name),
        resolved_signal(input, lower(name)) == resolved_signal(input, name),
        in_testbench_arch(input, upper(name)) == in_testbench_arch(input, name),
        in_testbench_arch(input, lower(name)) == in_testbench_arch(input, name),
{
    crate::text::lemma_lower_of_upper(name);
    crate::text::lemma_lower_idempotent(name);
    assert(forall|x: Seq<char>| same_name(x, upper(name)) == same_name(x, name));
    assert(forall|x: Seq<char>| same_name(x, lower(name)) == same_name(x, name));
}

} // verus!
