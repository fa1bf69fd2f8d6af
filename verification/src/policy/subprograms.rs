//! Subprograms: parameter modes and calls into packages.
use vstd::prelude::*;
use crate::text::{
    chars_between, chars_of, chars_trim, lower, lower_chars, lower_is, same, same_name, str_eq,
    string_of, trim,
};
use crate::policy::helpers::{third_party_file, is_third_party_file};
use crate::policy::input::{
    Input, FunctionDeclaration, ProcedureDeclaration, SubprogramParameter, SymbolDef, NameUse,
};
use crate::policy::result::{Violation, ViolationView, views, group_views};

verus! {

/// The findings about functions and procedures.
pub open spec fn violations_all(input: &Input) -> Seq<ViolationView> {
    function_param_invalid_mode_all(input) + procedure_param_invalid_mode_all(input)
        + unresolved_qualified_function_call_all(input)
        + unresolved_qualified_procedure_call_all(input)
}

pub fn violations(input: &Input) -> (out: Vec<Violation>)
    ensures
        views(out@) == violations_all(input),
{
    broadcast use group_views;

    let mut out: Vec<Violation> = Vec::new();
    let mut part = function_param_invalid_mode(input);
    out.append(&mut part);
    let mut part = procedure_param_invalid_mode(input);
    out.append(&mut part);
    let mut part = unresolved_qualified_function_call(input);
    out.append(&mut part);
    let mut part = unresolved_qualified_procedure_call(input);
    out.append(&mut part);
    out
}

/// The parameters of pure functions whose mode is not `in`.
pub open spec fn function_param_invalid_mode_upto(input: &Input, n: int) -> Seq<ViolationView>
    decreases n,
{
    if n <= 0 {
        Seq::empty()
    } else {
        let rest = function_param_invalid_mode_upto(input, n - 1);
        let func = &input.functions@[n - 1];
        if func.is_pure {
            rest + function_params_with_mode_all(input, func)
        } else {
            rest
        }
    }
}

pub open spec fn function_param_invalid_mode_all(input: &Input) -> Seq<ViolationView> {
    function_param_invalid_mode_upto(input, input.functions@.len() as int)
}

pub fn function_param_invalid_mode(input: &Input) -> (out: Vec<Violation>)
    ensures
        views(out@) == function_param_invalid_mode_all(input),
{
    broadcast use group_views;

    let mut out: Vec<Violation> = Vec::new();
    let mut i: usize = 0;
    while i < input.functions.len()
        invariant
            i <= input.functions@.len(),
            views(out@) == function_param_invalid_mode_upto(input, i as int),
        decreases input.functions@.len() - i,
    {
        let func = &input.functions[i];
        if func.is_pure {
            let mut part = function_params_with_mode(input, func);
            out.append(&mut part);
        }
        i += 1;
    }
    out
}

/// A parameter with a mode other than `in`.
pub open spec fn function_params_with_mode_hit(input: &Input, func: &FunctionDeclaration, param: &SubprogramParameter) -> bool {
    param.direction@.len() > 0 && !same_name(param.direction@, "in"@)
}

pub open spec fn function_params_with_mode_finding(input: &Input, func: &FunctionDeclaration, param: &SubprogramParameter) -> ViolationView {
    ViolationView {
        rule: "function_param_invalid_mode"@,
        severity: "error"@,
        file: func.file@,
        line: param.line as nat,
        message: "Function '"@ + func.name@ + "' parameter '"@ + param.name@
            + "' has invalid mode '"@ + param.direction@ + "' (only 'in' allowed)"@,
    }
}

/// The findings for the first `n` rows, in row order.
pub open spec fn function_params_with_mode_upto(input: &Input, func: &FunctionDeclaration, n: int) -> Seq<ViolationView>
    decreases n,
{
    if n <= 0 {
        Seq::empty()
    } else {
        let rest = function_params_with_mode_upto(input, func, n - 1);
        let param = &func.parameters@[n - 1];
        if function_params_with_mode_hit(input, func, param) {
            rest.push(function_params_with_mode_finding(input, func, param))
        } else {
            rest
        }
    }
}

pub open spec fn function_params_with_mode_all(input: &Input, func: &FunctionDeclaration) -> Seq<ViolationView> {
    function_params_with_mode_upto(input, func, func.parameters@.len() as int)
}

pub fn function_params_with_mode(input: &Input, func: &FunctionDeclaration) -> (out: Vec<Violation>)
    ensures
        views(out@) == function_params_with_mode_all(input, func),
{
    broadcast use group_views;

    let mut out: Vec<Violation> = Vec::new();
    let mut i: usize = 0;
    while i < func.parameters.len()
        invariant
            i <= func.parameters@.len(),
            views(out@) == function_params_with_mode_upto(input, func, i as int),
        decreases func.parameters@.len() - i,
    {
        let param = &func.parameters[i];
        if !param.direction.as_str().is_empty() && !same(param.direction.as_str(), "in") {
            let mut message = String::from_str("Function '");
            message.append(func.name.as_str());
            message.append("' parameter '");
            message.append(param.name.as_str());
            message.append("' has invalid mode '");
            message.append(param.direction.as_str());
            message.append("' (only 'in' allowed)");
            out.push(
                Violation {
                    rule: String::from_str("function_param_invalid_mode"),
                    severity: String::from_str("error"),
                    file: func.file.clone(),
                    line: param.line,
                    message,
                },
            );
        }
        i += 1;
    }
    out
}

/// The parameters of procedures whose mode is `buffer` or `linkage`.
pub open spec fn procedure_param_invalid_mode_upto(input: &Input, n: int) -> Seq<ViolationView>
    decreases n,
{
    if n <= 0 {
        Seq::empty()
    } else {
        let rest = procedure_param_invalid_mode_upto(input, n - 1);
        let proc_decl = &input.procedures@[n - 1];
        rest + procedure_params_with_mode_all(input, proc_decl)
    }
}

pub open spec fn procedure_param_invalid_mode_all(input: &Input) -> Seq<ViolationView> {
    procedure_param_invalid_mode_upto(input, input.procedures@.len() as int)
}

pub fn procedure_param_invalid_mode(input: &Input) -> (out: Vec<Violation>)
    ensures
        views(out@) == procedure_param_invalid_mode_all(input),
{
    broadcast use group_views;

    let mut out: Vec<Violation> = Vec::new();
    let mut i: usize = 0;
    while i < input.procedures.len()
        invariant
            i <= input.procedures@.len(),
            views(out@) == procedure_param_invalid_mode_upto(input, i as int),
        decreases input.procedures@.len() - i,
    {
        let proc_decl = &input.procedures[i];
        let mut part = procedure_params_with_mode(input, proc_decl);
        out.append(&mut part);
        i += 1;
    }
    out
}

/// A parameter of mode `buffer` or `linkage`.
pub open spec fn procedure_params_with_mode_hit(input: &Input, proc_decl: &ProcedureDeclaration, param: &SubprogramParameter) -> bool {
    same_name(param.direction@, "buffer"@) || same_name(param.direction@, "linkage"@)
}

pub open spec fn procedure_params_with_mode_finding(input: &Input, proc_decl: &ProcedureDeclaration, param: &SubprogramParameter) -> ViolationView {
    ViolationView {
        rule: "procedure_param_invalid_mode"@,
        severity: "error"@,
        file: proc_decl.file@,
        line: param.line as nat,
        message: "Procedure '"@ + proc_decl.name@ + "' parameter '"@ + param.name@
            + "' has invalid mode '"@ + param.direction@ + "'"@,
    }
}

/// The findings for the first `n` rows, in row order.
pub open spec fn procedure_params_with_mode_upto(input: &Input, proc_decl: &ProcedureDeclaration, n: int) -> Seq<ViolationView>
    decreases n,
{
    if n <= 0 {
        Seq::empty()
    } else {
        let rest = procedure_params_with_mode_upto(input, proc_decl, n - 1);
        let param = &proc_decl.parameters@[n - 1];
        if procedure_params_with_mode_hit(input, proc_decl, param) {
            rest.push(procedure_params_with_mode_finding(input, proc_decl, param))
        } else {
            rest
        }
    }
}

pub open spec fn procedure_params_with_mode_all(input: &Input, proc_decl: &ProcedureDeclaration) -> Seq<ViolationView> {
    procedure_params_with_mode_upto(input, proc_decl, proc_decl.parameters@.len() as int)
}

pub fn procedure_params_with_mode(input: &Input, proc_decl: &ProcedureDeclaration) -> (out: Vec<Violation>)
    ensures
        views(out@) == procedure_params_with_mode_all(input, proc_decl),
{
    broadcast use group_views;

    let mut out: Vec<Violation> = Vec::new();
    let mut i: usize = 0;
    while i < proc_decl.parameters.len()
        invariant
            i <= proc_decl.parameters@.len(),
            views(out@) == procedure_params_with_mode_upto(input, proc_decl, i as int),
        decreases proc_decl.parameters@.len() - i,
    {
        let param = &proc_decl.parameters[i];
        if same(param.direction.as_str(), "buffer") || same(param.direction.as_str(), "linkage") {
            let mut message = String::from_str("Procedure '");
            message.append(proc_decl.name.as_str());
            message.append("' parameter '");
            message.append(param.name.as_str());
            message.append("' has invalid mode '");
            message.append(param.direction.as_str());
            message.append("'");
            out.push(
                Violation {
                    rule: String::from_str("procedure_param_invalid_mode"),
                    severity: String::from_str("error"),
                    file: proc_decl.file.clone(),
                    line: param.line,
                    message,
                },
            );
        }
        i += 1;
    }
    out
}

/// A call into a package that the package does not define.
pub struct UnresolvedCall {
    pub name: String,
    pub package: String,
    pub file: String,
    pub line: usize,
}

/// The mathematical content of an [`UnresolvedCall`].
pub struct UnresolvedCallView {
    pub name: Seq<char>,
    pub package: Seq<char>,
    pub file: Seq<char>,
    pub line: nat,
}

impl View for UnresolvedCall {
    type V = UnresolvedCallView;

    open spec fn view(&self) -> UnresolvedCallView {
        UnresolvedCallView {
            name: self.name@,
            package: self.package@,
            file: self.file@,
            line: self.line as nat,
        }
    }
}

/// The calls of a list, each by its content.
pub open spec fn call_views(s: Seq<UnresolvedCall>) -> Seq<UnresolvedCallView> {
    Seq::new(s.len(), |i: int| s[i]@)
}

/// One segment of a dotted name: its trimmed text, unless that is empty.
pub open spec fn name_part(segment: Seq<char>) -> Seq<Seq<char>> {
    if trim(segment).len() == 0 {
        Seq::empty()
    } else {
        seq![trim(segment)]
    }
}

/// The non-empty trimmed segments of a dotted name, where the segment that
/// began at `start` has been read up to `i`.
pub open spec fn name_parts_from(s: Seq<char>, start: int, i: int) -> Seq<Seq<char>>
    decreases s.len() - i,
{
    if start < 0 || i < start || i >= s.len() {
        if 0 <= start <= s.len() {
            name_part(s.subrange(start, s.len() as int))
        } else {
            Seq::empty()
        }
    } else if s[i] == '.' {
        name_part(s.subrange(start, i)) + name_parts_from(s, i + 1, i + 1)
    } else {
        name_parts_from(s, start, i + 1)
    }
}

/// The non-empty trimmed segments of a dotted name.
pub open spec fn name_parts(s: Seq<char>) -> Seq<Seq<char>> {
    name_parts_from(s, 0, 0)
}

/// The package and the subprogram of a qualified name: its last two
/// segments, in lower case.
pub open spec fn qualified_name(s: Seq<char>) -> Option<(Seq<char>, Seq<char>)> {
    let parts = name_parts(s);
    if parts.len() < 2 {
        None
    } else {
        Some((lower(parts[parts.len() - 2]), lower(parts[parts.len() - 1])))
    }
}

fn push_name_part(parts: &mut Vec<Vec<char>>, v: &Vec<char>, from: usize, to: usize)
    requires
        from <= to <= v@.len(),
    ensures
        part_texts(final(parts)@) == part_texts(old(parts)@) + name_part(
            v@.subrange(from as int, to as int),
        ),
{
    let segment = chars_between(v, from, to);
    let t = chars_trim(&segment);
    if t.len() > 0 {
        proof {
            assert(part_texts(parts@.push(t)) =~= part_texts(parts@) + seq![t@]);
        }
        parts.push(t);
    } else {
        proof {
            assert(part_texts(parts@) + Seq::<Seq<char>>::empty() =~= part_texts(parts@));
        }
    }
}

/// The texts of a list of character vectors.
pub open spec fn part_texts(s: Seq<Vec<char>>) -> Seq<Seq<char>> {
    Seq::new(s.len(), |i: int| s[i]@)
}

pub fn parse_qualified_name(name: &str) -> (r: Option<(String, String)>)
    ensures
        match r {
            Some(p) => qualified_name(name@) == Some((p.0@, p.1@)),
            None => qualified_name(name@).is_none(),
        },
{
    let v = chars_of(name);
    let mut parts: Vec<Vec<char>> = Vec::new();
    let mut start: usize = 0;
    let mut i: usize = 0;
    proof {
        assert(part_texts(parts@) =~= Seq::<Seq<char>>::empty());
        assert(part_texts(parts@) + name_parts_from(v@, 0, 0) =~= name_parts(v@));
    }
    while i < v.len()
        invariant
            start <= i <= v@.len(),
            name_parts(v@) == part_texts(parts@) + name_parts_from(v@, start as int, i as int),
        decreases v@.len() - i,
    {
        if v[i] == '.' {
            let ghost before = part_texts(parts@);
            push_name_part(&mut parts, &v, start, i);
            proof {
                let seg = name_part(v@.subrange(start as int, i as int));
                let rest = name_parts_from(v@, i + 1, i + 1);
                assert(before + (seg + rest) =~= (before + seg) + rest);
            }
            start = i + 1;
        }
        i += 1;
    }
    let ghost before = part_texts(parts@);
    push_name_part(&mut parts, &v, start, v.len());
    proof {
        assert(part_texts(parts@) == name_parts(v@));
        assert(part_texts(parts@).len() == parts@.len());
    }
    if parts.len() < 2 {
        return None;
    }
    let pkg = lower_chars(&parts[parts.len() - 2]);
    let func = lower_chars(&parts[parts.len() - 1]);
    Some((string_of(&pkg), string_of(&func)))
}

/// A symbol definition that declares a package.
pub open spec fn package_def(def: &SymbolDef) -> bool {
    same_name(def.kind@, "package"@)
}

/// Some package is defined at all.
pub open spec fn any_package(input: &Input) -> bool {
    exists|i: int|
        #![trigger input.symbol_defs@[i]]
        0 <= i < input.symbol_defs@.len() && package_def(&input.symbol_defs@[i])
}

/// Some definition declares the package `pkg` (given in lower case) and opens `scope`.
pub open spec fn package_opens_scope(input: &Input, pkg: Seq<char>, scope: Seq<char>) -> bool {
    exists|i: int|
        #![trigger input.symbol_defs@[i]]
        0 <= i < input.symbol_defs@.len() && package_def(&input.symbol_defs@[i]) && lower(
            input.symbol_defs@[i].name@,
        ) == pkg && same_name(input.symbol_defs@[i].scope@, scope)
}

/// Some definition declares the package `pkg` (given in lower case).
pub open spec fn package_known(input: &Input, pkg: Seq<char>) -> bool {
    exists|i: int|
        #![trigger input.symbol_defs@[i]]
        0 <= i < input.symbol_defs@.len() && package_def(&input.symbol_defs@[i]) && lower(
            input.symbol_defs@[i].name@,
        ) == pkg
}

/// Definition `def` defines `name` (given in lower case) as a subprogram of
/// the wanted kind in a scope that the package opens.
pub open spec fn defines_in_package(
    input: &Input,
    def: &SymbolDef,
    pkg: Seq<char>,
    name: Seq<char>,
    def_kind: Seq<char>,
) -> bool {
    !package_def(def) && same_name(def.kind@, def_kind) && lower(def.name@) == name
        && package_opens_scope(input, pkg, def.scope@)
}

/// The package defines the subprogram.
pub open spec fn defined_in_package(
    input: &Input,
    pkg: Seq<char>,
    name: Seq<char>,
    def_kind: Seq<char>,
) -> bool {
    exists|i: int|
        #![trigger input.symbol_defs@[i]]
        0 <= i < input.symbol_defs@.len() && defines_in_package(
            input,
            &input.symbol_defs@[i],
            pkg,
            name,
            def_kind,
        )
}

pub fn has_any_package(input: &Input) -> (r: bool)
    ensures
        r == any_package(input),
{
    let mut i: usize = 0;
    while i < input.symbol_defs.len()
        invariant
            i <= input.symbol_defs@.len(),
            forall|j: int|
                #![trigger input.symbol_defs@[j]]
                0 <= j < i ==> !package_def(&input.symbol_defs@[j]),
        decreases input.symbol_defs@.len() - i,
    {
        if same(input.symbol_defs[i].kind.as_str(), "package") {
            return true;
        }
        i += 1;
    }
    false
}

pub fn is_package_known(input: &Input, pkg: &str) -> (r: bool)
    ensures
        r == package_known(input, pkg@),
{
    let mut i: usize = 0;
    while i < input.symbol_defs.len()
        invariant
            i <= input.symbol_defs@.len(),
            forall|j: int|
                #![trigger input.symbol_defs@[j]]
                0 <= j < i ==> !(package_def(&input.symbol_defs@[j]) && lower(
                    input.symbol_defs@[j].name@,
                ) == pkg@),
        decreases input.symbol_defs@.len() - i,
    {
        let def = &input.symbol_defs[i];
        if same(def.kind.as_str(), "package") && lower_is(def.name.as_str(), pkg) {
            return true;
        }
        i += 1;
    }
    false
}

pub fn does_package_open_scope(input: &Input, pkg: &str, scope: &str) -> (r: bool)
    ensures
        r == package_opens_scope(input, pkg@, scope@),
{
    let mut i: usize = 0;
    while i < input.symbol_defs.len()
        invariant
            i <= input.symbol_defs@.len(),
            forall|j: int|
                #![trigger input.symbol_defs@[j]]
                0 <= j < i ==> !(package_def(&input.symbol_defs@[j]) && lower(
                    input.symbol_defs@[j].name@,
                ) == pkg@ && same_name(input.symbol_defs@[j].scope@, scope@)),
        decreases input.symbol_defs@.len() - i,
    {
        let def = &input.symbol_defs[i];
        if same(def.kind.as_str(), "package") && lower_is(def.name.as_str(), pkg) && same(
            def.scope.as_str(),
            scope,
        ) {
            return true;
        }
        i += 1;
    }
    false
}

pub fn is_defined_in_package(input: &Input, pkg: &str, name: &str, def_kind: &str) -> (r: bool)
    ensures
        r == defined_in_package(input, pkg@, name@, def_kind@),
{
    let mut i: usize = 0;
    while i < input.symbol_defs.len()
        invariant
            i <= input.symbol_defs@.len(),
            forall|j: int|
                #![trigger input.symbol_defs@[j]]
                0 <= j < i ==> !defines_in_package(
                    input,
                    &input.symbol_defs@[j],
                    pkg@,
                    name@,
                    def_kind@,
                ),
        decreases input.symbol_defs@.len() - i,
    {
        let def = &input.symbol_defs[i];
        if !same(def.kind.as_str(), "package") && same(def.kind.as_str(), def_kind) && lower_is(
            def.name.as_str(),
            name,
        ) && does_package_open_scope(input, pkg, def.scope.as_str()) {
            return true;
        }
        i += 1;
    }
    false
}

/// A use of the wanted kind, outside third-party files, of a qualified name
/// whose package is defined here and does not define the subprogram.
pub open spec fn unresolved_call_hit(
    input: &Input,
    use_kind: Seq<char>,
    def_kind: Seq<char>,
    u: &NameUse,
) -> bool {
    u.kind@ == use_kind && !third_party_file(input, u.file@) && match qualified_name(u.name@) {
        Some(p) => package_known(input, p.0) && !defined_in_package(input, p.0, p.1, def_kind),
        None => false,
    }
}

pub open spec fn unresolved_call_entry(u: &NameUse) -> UnresolvedCallView {
    UnresolvedCallView {
        name: u.name@,
        package: match qualified_name(u.name@) {
            Some(p) => p.0,
            None => Seq::empty(),
        },
        file: u.file@,
        line: u.line as nat,
    }
}

/// The unresolved calls among the first `n` name uses, in record order.
pub open spec fn unresolved_calls_upto(
    input: &Input,
    use_kind: Seq<char>,
    def_kind: Seq<char>,
    n: int,
) -> Seq<UnresolvedCallView>
    decreases n,
{
    if n <= 0 {
        Seq::empty()
    } else {
        let rest = unresolved_calls_upto(input, use_kind, def_kind, n - 1);
        let u = &input.name_uses@[n - 1];
        if unresolved_call_hit(input, use_kind, def_kind, u) {
            rest.push(unresolved_call_entry(u))
        } else {
            rest
        }
    }
}

/// The unresolved calls of one kind; none at all where no package is defined.
pub open spec fn unresolved_calls(input: &Input, use_kind: Seq<char>, def_kind: Seq<char>) -> Seq<
    UnresolvedCallView,
> {
    if any_package(input) {
        unresolved_calls_upto(input, use_kind, def_kind, input.name_uses@.len() as int)
    } else {
        Seq::empty()
    }
}

pub fn unresolved_qualified_call_entries(input: &Input, use_kind: &str, def_kind: &str) -> (out:
    Vec<UnresolvedCall>)
    ensures
        call_views(out@) == unresolved_calls(input, use_kind@, def_kind@),
{
    let mut out: Vec<UnresolvedCall> = Vec::new();
    proof {
        assert(call_views(out@) =~= Seq::<UnresolvedCallView>::empty());
    }
    if !has_any_package(input) {
        return out;
    }
    let mut i: usize = 0;
    while i < input.name_uses.len()
        invariant
            i <= input.name_uses@.len(),
            call_views(out@) == unresolved_calls_upto(input, use_kind@, def_kind@, i as int),
        decreases input.name_uses@.len() - i,
    {
        let u = &input.name_uses[i];
        if str_eq(u.kind.as_str(), use_kind) && !is_third_party_file(input, u.file.as_str()) {
            match parse_qualified_name(u.name.as_str()) {
                Some(p) => {
                    if is_package_known(input, p.0.as_str()) && !is_defined_in_package(
                        input,
                        p.0.as_str(),
                        p.1.as_str(),
                        def_kind,
                    ) {
                        let entry = UnresolvedCall {
                            name: u.name.clone(),
                            package: p.0,
                            file: u.file.clone(),
                            line: u.line,
                        };
                        proof {
                            assert(call_views(out@.push(entry)) =~= call_views(out@).push(entry@));
                        }
                        out.push(entry);
                    }
                },
                None => {},
            }
        }
        i += 1;
    }
    out
}

/// The finding for an unresolved call: `noun` is `function` or `procedure`,
/// `lead` the same word capitalised.
pub open spec fn unresolved_call_finding(
    entry: UnresolvedCallView,
    rule: Seq<char>,
    lead: Seq<char>,
    noun: Seq<char>,
) -> ViolationView {
    ViolationView {
        rule: rule,
        severity: "error"@,
        file: entry.file,
        line: entry.line,
        message: lead + " call '"@ + entry.name + "' has no matching "@ + noun + " in package '"@
            + entry.package + "'"@,
    }
}

pub open spec fn unresolved_call_findings(
    entries: Seq<UnresolvedCallView>,
    rule: Seq<char>,
    lead: Seq<char>,
    noun: Seq<char>,
) -> Seq<ViolationView> {
    Seq::new(entries.len(), |i: int| unresolved_call_finding(entries[i], rule, lead, noun))
}

pub fn unresolved_call_violations(entries: &Vec<UnresolvedCall>, rule: &str, lead: &str, noun: &str) -> (out:
    Vec<Violation>)
    ensures
        views(out@) == unresolved_call_findings(call_views(entries@), rule@, lead@, noun@),
{
    let mut out: Vec<Violation> = Vec::new();
    let mut i: usize = 0;
    while i < entries.len()
        invariant
            i <= entries@.len(),
            out@.len() == i,
            forall|k: int|
                0 <= k < i ==> (#[trigger] out@[k])@ == unresolved_call_finding(
                    entries@[k]@,
                    rule@,
                    lead@,
                    noun@,
                ),
        decreases entries@.len() - i,
    {
        let entry = &entries[i];
        let mut message = String::from_str(lead);
        message.append(" call '");
        message.append(entry.name.as_str());
        message.append("' has no matching ");
        message.append(noun);
        message.append(" in package '");
        message.append(entry.package.as_str());
        message.append("'");
        out.push(
            Violation {
                rule: String::from_str(rule),
                severity: String::from_str("error"),
                file: entry.file.clone(),
                line: entry.line,
                message,
            },
        );
        i += 1;
    }
    proof {
        assert(views(out@) =~= unresolved_call_findings(call_views(entries@), rule@, lead@, noun@));
    }
    out
}

/// A qualified function call that its package does not define.
pub open spec fn unresolved_qualified_function_call_all(input: &Input) -> Seq<ViolationView> {
    unresolved_call_findings(
        unresolved_calls(input, "function_call"@, "function"@),
        "unresolved_qualified_function_call"@,
        "Function"@,
        "function"@,
    )
}

pub fn unresolved_qualified_function_call(input: &Input) -> (out: Vec<Violation>)
    ensures
        views(out@) == unresolved_qualified_function_call_all(input),
{
    let entries = unresolved_qualified_call_entries(input, "function_call", "function");
    unresolved_call_violations(
        &entries,
        "unresolved_qualified_function_call",
        "Function",
        "function",
    )
}

/// A qualified procedure call that its package does not define.
pub open spec fn unresolved_qualified_procedure_call_all(input: &Input) -> Seq<ViolationView> {
    unresolved_call_findings(
        unresolved_calls(input, "procedure_call"@, "procedure"@),
        "unresolved_qualified_procedure_call"@,
        "Procedure"@,
        "procedure"@,
    )
}

pub fn unresolved_qualified_procedure_call(input: &Input) -> (out: Vec<Violation>)
    ensures
        views(out@) == unresolved_qualified_procedure_call_all(input),
{
    let entries = unresolved_qualified_call_entries(input, "procedure_call", "procedure");
    unresolved_call_violations(
        &entries,
        "unresolved_qualified_procedure_call",
        "Procedure",
        "procedure",
    )
}

} // verus!
