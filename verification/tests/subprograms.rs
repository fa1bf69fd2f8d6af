use vhdl_policy::policy::input::{Input, SymbolDef, NameUse, FunctionDeclaration, ProcedureDeclaration, SubprogramParameter};
use vhdl_policy::policy::subprograms::{function_param_invalid_mode, procedure_param_invalid_mode, unresolved_qualified_function_call, unresolved_qualified_procedure_call};

fn param(name: &str, direction: &str) -> SubprogramParameter {
    SubprogramParameter {
        name: name.to_string(),
        direction: direction.to_string(),
        line: 10,
        ..Default::default()
    }
}

#[test]
fn function_param_invalid_mode_flags_non_in() {
    let mut input = Input::default();
    input.functions.push(FunctionDeclaration {
        name: "f".to_string(),
        file: "a.vhd".to_string(),
        is_pure: true,
        parameters: vec![param("p", "out")],
        ..Default::default()
    });
    let violations = function_param_invalid_mode(&input);
    assert_eq!(violations.len(), 1);
    assert_eq!(violations[0].rule, "function_param_invalid_mode");
}

#[test]
fn function_param_invalid_mode_allows_empty_or_in() {
    let mut input = Input::default();
    input.functions.push(FunctionDeclaration {
        name: "f".to_string(),
        file: "a.vhd".to_string(),
        is_pure: true,
        parameters: vec![param("p1", ""), param("p2", "in")],
        ..Default::default()
    });
    let violations = function_param_invalid_mode(&input);
    assert!(violations.is_empty());
}

#[test]
fn procedure_param_invalid_mode_flags_buffer_linkage() {
    let mut input = Input::default();
    input.procedures.push(ProcedureDeclaration {
        name: "p".to_string(),
        file: "a.vhd".to_string(),
        parameters: vec![param("p1", "buffer"), param("p2", "linkage")],
        ..Default::default()
    });
    let violations = procedure_param_invalid_mode(&input);
    assert_eq!(violations.len(), 2);
    assert_eq!(violations[0].rule, "procedure_param_invalid_mode");
}

#[test]
fn procedure_param_invalid_mode_allows_inout() {
    let mut input = Input::default();
    input.procedures.push(ProcedureDeclaration {
        name: "p".to_string(),
        file: "a.vhd".to_string(),
        parameters: vec![param("p1", "in"), param("p2", "out"), param("p3", "inout")],
        ..Default::default()
    });
    let violations = procedure_param_invalid_mode(&input);
    assert!(violations.is_empty());
}

#[test]
fn unresolved_qualified_function_call_flags_missing() {
    let mut input = Input::default();
    input.symbol_defs.push(SymbolDef {
        name: "pkg".to_string(),
        kind: "package".to_string(),
        file: "a.vhd".to_string(),
        scope: "file:a.vhd::package:pkg".to_string(),
        line: 1,
    });
    input.name_uses.push(NameUse {
        name: "pkg.missing_fn".to_string(),
        kind: "function_call".to_string(),
        file: "a.vhd".to_string(),
        line: 10,
        scope: "file:a.vhd::arch:rtl".to_string(),
        context: "p1".to_string(),
    });
    let violations = unresolved_qualified_function_call(&input);
    assert_eq!(violations.len(), 1);
    assert_eq!(violations[0].rule, "unresolved_qualified_function_call");
}

#[test]
fn unresolved_qualified_function_call_allows_defined() {
    let mut input = Input::default();
    input.symbol_defs.push(SymbolDef {
        name: "pkg".to_string(),
        kind: "package".to_string(),
        file: "a.vhd".to_string(),
        scope: "file:a.vhd::package:pkg".to_string(),
        line: 1,
    });
    input.symbol_defs.push(SymbolDef {
        name: "good_fn".to_string(),
        kind: "function".to_string(),
        file: "a.vhd".to_string(),
        scope: "file:a.vhd::package:pkg".to_string(),
        line: 2,
    });
    input.name_uses.push(NameUse {
        name: "pkg.good_fn".to_string(),
        kind: "function_call".to_string(),
        file: "a.vhd".to_string(),
        line: 10,
        scope: "file:a.vhd::arch:rtl".to_string(),
        context: "p1".to_string(),
    });
    let violations = unresolved_qualified_function_call(&input);
    assert!(violations.is_empty());
}

#[test]
fn unresolved_qualified_procedure_call_flags_missing() {
    let mut input = Input::default();
    input.symbol_defs.push(SymbolDef {
        name: "pkg".to_string(),
        kind: "package".to_string(),
        file: "a.vhd".to_string(),
        scope: "file:a.vhd::package:pkg".to_string(),
        line: 1,
    });
    input.name_uses.push(NameUse {
        name: "pkg.missing_proc".to_string(),
        kind: "procedure_call".to_string(),
        file: "a.vhd".to_string(),
        line: 10,
        scope: "file:a.vhd::arch:rtl".to_string(),
        context: "p1".to_string(),
    });
    let violations = unresolved_qualified_procedure_call(&input);
    assert_eq!(violations.len(), 1);
    assert_eq!(violations[0].rule, "unresolved_qualified_procedure_call");
}

#[test]
fn unresolved_qualified_call_skips_external_packages() {
    let mut input = Input::default();
    input.name_uses.push(NameUse {
        name: "ieee.std_logic_1164.to_stdlogicvector".to_string(),
        kind: "function_call".to_string(),
        file: "a.vhd".to_string(),
        line: 10,
        scope: "file:a.vhd::arch:rtl".to_string(),
        context: "p1".to_string(),
    });
    let violations = unresolved_qualified_function_call(&input);
    assert!(violations.is_empty());
}
