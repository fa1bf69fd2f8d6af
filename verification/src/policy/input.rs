//! The fact model: the records a front end produces and every rule reads.
use vstd::prelude::*;
use crate::policy::map::StringMap;

verus! {

/// The whole fact database of one evaluation.
#[derive(Debug, Clone, Default)]
pub struct Input {
    pub standard: String,
    pub file_count: usize,
    pub entities: Vec<Entity>,
    pub architectures: Vec<Architecture>,
    pub packages: Vec<Package>,
    pub components: Vec<Component>,
    pub use_clauses: Vec<UseClause>,
    pub library_clauses: Vec<LibraryClause>,
    pub context_clauses: Vec<ContextClause>,
    pub signals: Vec<Signal>,
    pub ports: Vec<Port>,
    pub dependencies: Vec<Dependency>,
    pub symbols: Vec<Symbol>,
    pub scopes: Vec<Scope>,
    pub symbol_defs: Vec<SymbolDef>,
    pub name_uses: Vec<NameUse>,
    pub files: Vec<FileInfo>,
    pub verification_blocks: Vec<VerificationBlock>,
    pub verification_tags: Vec<VerificationTag>,
    pub verification_tag_errors: Vec<VerificationTagError>,
    pub instances: Vec<Instance>,
    pub case_statements: Vec<CaseStatement>,
    pub processes: Vec<Process>,
    pub concurrent_assignments: Vec<ConcurrentAssignment>,
    pub generates: Vec<GenerateStatement>,
    pub configurations: Vec<Configuration>,
    pub types: Vec<TypeDeclaration>,
    pub subtypes: Vec<SubtypeDeclaration>,
    pub functions: Vec<FunctionDeclaration>,
    pub procedures: Vec<ProcedureDeclaration>,
    pub constant_decls: Vec<ConstantDeclaration>,
    pub enum_literals: Vec<String>,
    pub constants: Vec<String>,
    pub shared_variables: Vec<String>,
    pub comparisons: Vec<Comparison>,
    pub arithmetic_ops: Vec<ArithmeticOp>,
    pub signal_deps: Vec<SignalDep>,
    pub cdc_crossings: Vec<CDCCrossing>,
    pub signal_usages: Vec<SignalUsage>,
    pub lint_config: LintConfig,
    pub third_party_files: Vec<String>,
}

/// User configuration: rule id to severity (`off`, `info`, `warning`, `error`).
#[derive(Debug, Clone, Default)]
pub struct LintConfig {
    pub rules: StringMap,
}

/// A design entity (interface).
#[derive(Debug, Clone, Default)]
pub struct Entity {
    pub name: String,
    pub file: String,
    pub line: usize,
    pub ports: Vec<Port>,
    pub generics: Vec<GenericDecl>,
}

/// A body implementing an entity.
#[derive(Debug, Clone, Default)]
pub struct Architecture {
    pub name: String,
    pub entity_name: String,
    pub file: String,
    pub line: usize,
}

/// A package declaration.
#[derive(Debug, Clone, Default)]
pub struct Package {
    pub name: String,
    pub file: String,
    pub line: usize,
}

/// A component declaration or a component instantiation.
#[derive(Debug, Clone, Default)]
pub struct Component {
    pub name: String,
    pub entity_ref: String,
    pub file: String,
    pub line: usize,
    pub is_instance: bool,
    pub ports: Vec<Port>,
    pub generics: Vec<GenericDecl>,
}

/// A declared signal; `in_entity` names the owning architecture scope.
#[derive(Debug, Clone, Default)]
pub struct Signal {
    pub name: String,
    pub ty: String,
    pub file: String,
    pub line: usize,
    pub in_entity: String,
    pub width: usize,
}

/// An entity port; a width of 0 means unknown.
#[derive(Debug, Clone, Default)]
pub struct Port {
    pub name: String,
    pub direction: String,
    pub ty: String,
    pub default: String,
    pub line: usize,
    pub in_entity: String,
    pub width: usize,
}

/// A generic of an entity or a component.
#[derive(Debug, Clone, Default)]
pub struct GenericDecl {
    pub name: String,
    pub kind: String,
    pub ty: String,
    pub class: String,
    pub default: String,
    pub line: usize,
    pub in_entity: String,
    pub in_component: String,
}

/// A `use` clause with the items it names.
#[derive(Debug, Clone, Default)]
pub struct UseClause {
    pub items: Vec<String>,
    pub file: String,
    pub line: usize,
}

/// A `library` clause.
#[derive(Debug, Clone, Default)]
pub struct LibraryClause {
    pub libraries: Vec<String>,
    pub file: String,
    pub line: usize,
}

/// A context reference.
#[derive(Debug, Clone, Default)]
pub struct ContextClause {
    pub name: String,
    pub file: String,
    pub line: usize,
}

/// A file-level dependency on another design unit.
#[derive(Debug, Clone, Default)]
pub struct Dependency {
    pub source: String,
    pub target: String,
    pub kind: String,
    pub line: usize,
    pub resolved: bool,
}

/// A symbol exported by a file.
#[derive(Debug, Clone, Default)]
pub struct Symbol {
    pub name: String,
    pub kind: String,
    pub file: String,
    pub line: usize,
}

/// A source file with its library.
#[derive(Debug, Clone, Default)]
pub struct FileInfo {
    pub path: String,
    pub library: String,
    pub is_third_party: bool,
}

/// A lexical scope.
#[derive(Debug, Clone, Default)]
pub struct Scope {
    pub name: String,
    pub kind: String,
    pub file: String,
    pub line: usize,
    pub parent: String,
    pub path: Vec<String>,
}

/// A symbol definition inside a scope.
#[derive(Debug, Clone, Default)]
pub struct SymbolDef {
    pub name: String,
    pub kind: String,
    pub file: String,
    pub line: usize,
    pub scope: String,
}

/// A use of a name inside a scope.
#[derive(Debug, Clone, Default)]
pub struct NameUse {
    pub name: String,
    pub kind: String,
    pub file: String,
    pub line: usize,
    pub scope: String,
    pub context: String,
}

/// A block of verification annotations in an architecture.
#[derive(Debug, Clone, Default)]
pub struct VerificationBlock {
    pub label: String,
    pub line_start: usize,
    pub line_end: usize,
    pub file: String,
    pub in_arch: String,
}

/// A user annotation stating that a verification property holds.
#[derive(Debug, Clone, Default)]
pub struct VerificationTag {
    pub id: String,
    pub scope: String,
    pub bindings: StringMap,
    pub file: String,
    pub line: usize,
    pub raw: String,
    pub in_arch: String,
}

/// A verification annotation that could not be read.
#[derive(Debug, Clone, Default)]
pub struct VerificationTagError {
    pub file: String,
    pub line: usize,
    pub raw: String,
    pub message: String,
    pub in_arch: String,
}

/// An instantiation of an entity or component.
#[derive(Debug, Clone, Default)]
pub struct Instance {
    pub name: String,
    pub target: String,
    pub port_map: StringMap,
    pub generic_map: StringMap,
    pub associations: Vec<Association>,
    pub file: String,
    pub line: usize,
    pub in_arch: String,
}

/// One element of a port or generic map.
#[derive(Debug, Clone, Default)]
pub struct Association {
    pub kind: String,
    pub formal: String,
    pub actual: String,
    pub is_positional: bool,
    pub actual_kind: String,
    pub actual_base: String,
    pub actual_full: String,
    pub line: usize,
    pub position_index: usize,
}

/// A case statement inside a process.
#[derive(Debug, Clone, Default)]
pub struct CaseStatement {
    pub expression: String,
    pub choices: Vec<String>,
    pub has_others: bool,
    pub file: String,
    pub line: usize,
    pub in_process: String,
    pub in_arch: String,
    pub is_complete: bool,
}

/// A concurrent signal assignment.
#[derive(Debug, Clone, Default)]
pub struct ConcurrentAssignment {
    pub target: String,
    pub read_signals: Vec<String>,
    pub file: String,
    pub line: usize,
    pub in_arch: String,
    pub kind: String,
    pub in_generate: bool,
    pub generate_label: String,
}

/// A comparison expression.
#[derive(Debug, Clone, Default)]
pub struct Comparison {
    pub left_operand: String,
    pub operator: String,
    pub right_operand: String,
    pub file: String,
    pub line: usize,
    pub in_arch: String,
    pub is_literal: bool,
    pub literal_value: String,
    pub literal_bits: usize,
    pub result_drives: String,
    pub in_process: String,
}

/// An arithmetic operation.
#[derive(Debug, Clone, Default)]
pub struct ArithmeticOp {
    pub operator: String,
    pub operands: Vec<String>,
    pub result: String,
    pub file: String,
    pub line: usize,
    pub is_guarded: bool,
    pub guard_signal: String,
    pub in_process: String,
    pub in_arch: String,
}

/// One edge of the signal dependency graph: `target` depends on `source`.
#[derive(Debug, Clone, Default)]
pub struct SignalDep {
    pub source: String,
    pub target: String,
    pub file: String,
    pub line: usize,
    pub is_sequential: bool,
    pub in_process: String,
    pub in_arch: String,
}

/// A signal crossing from one clock domain into another.
#[derive(Debug, Clone, Default)]
pub struct CDCCrossing {
    pub signal: String,
    pub source_clock: String,
    pub dest_clock: String,
    pub is_synchronized: bool,
    pub sync_stages: usize,
    pub is_multi_bit: bool,
    pub source_proc: String,
    pub dest_proc: String,
    pub file: String,
    pub line: usize,
    pub in_arch: String,
}

/// An explicit record of a signal being read or written.
#[derive(Debug, Clone, Default)]
pub struct SignalUsage {
    pub signal: String,
    pub is_read: bool,
    pub is_written: bool,
    pub in_process: String,
    pub in_port_map: bool,
    pub instance_name: String,
    pub in_psl: bool,
    pub line: usize,
}

/// A process statement.
#[derive(Debug, Clone, Default)]
pub struct Process {
    pub label: String,
    pub sensitivity_list: Vec<String>,
    pub is_sequential: bool,
    pub is_combinational: bool,
    pub clock_signal: String,
    pub clock_edge: String,
    pub has_reset: bool,
    pub reset_signal: String,
    pub reset_async: bool,
    pub assigned_signals: Vec<String>,
    pub read_signals: Vec<String>,
    pub variables: Vec<VariableDecl>,
    pub procedure_calls: Vec<ProcedureCall>,
    pub function_calls: Vec<FunctionCall>,
    pub wait_statements: Vec<WaitStatement>,
    pub file: String,
    pub line: usize,
    pub in_arch: String,
}

/// A variable declared in a process.
#[derive(Debug, Clone, Default)]
pub struct VariableDecl {
    pub name: String,
    pub ty: String,
    pub line: usize,
}

/// A procedure call inside a process.
#[derive(Debug, Clone, Default)]
pub struct ProcedureCall {
    pub name: String,
    pub line: usize,
    pub in_process: String,
}

/// A function call inside a process.
#[derive(Debug, Clone, Default)]
pub struct FunctionCall {
    pub name: String,
    pub line: usize,
    pub in_process: String,
}

/// A wait statement inside a process.
#[derive(Debug, Clone, Default)]
pub struct WaitStatement {
    pub line: usize,
    pub in_process: String,
}

/// A generate statement.
#[derive(Debug, Clone, Default)]
pub struct GenerateStatement {
    pub label: String,
    pub kind: String,
    pub file: String,
    pub line: usize,
    pub in_arch: String,
    pub condition: String,
    pub loop_var: String,
    pub range_low: String,
    pub range_high: String,
    pub range_dir: String,
    pub can_elaborate: bool,
    pub iteration_count: i64,
    pub signals: Vec<String>,
    pub instances: Vec<String>,
    pub processes: Vec<String>,
    pub file_scope: String,
}

/// A configuration declaration.
#[derive(Debug, Clone, Default)]
pub struct Configuration {
    pub name: String,
    pub entity_name: String,
    pub file: String,
    pub line: usize,
}

/// A type declaration (`enum`, `record`, `array`, ...).
#[derive(Debug, Clone, Default)]
pub struct TypeDeclaration {
    pub name: String,
    pub kind: String,
    pub line: usize,
    pub file: String,
    pub in_arch: String,
    pub in_package: String,
    pub enum_literals: Vec<String>,
    pub fields: Vec<RecordField>,
    pub element_type: String,
    pub unconstrained: bool,
}

/// A field of a record type.
#[derive(Debug, Clone, Default)]
pub struct RecordField {
    pub name: String,
    pub ty: String,
}

/// A subtype declaration.
#[derive(Debug, Clone, Default)]
pub struct SubtypeDeclaration {
    pub name: String,
    pub base_type: String,
    pub constraint: String,
    pub line: usize,
    pub file: String,
    pub in_arch: String,
    pub in_package: String,
}

/// A function declaration or body.
#[derive(Debug, Clone, Default)]
pub struct FunctionDeclaration {
    pub name: String,
    pub return_type: String,
    pub parameters: Vec<SubprogramParameter>,
    pub is_pure: bool,
    pub has_body: bool,
    pub line: usize,
    pub file: String,
    pub in_arch: String,
    pub in_package: String,
}

/// A procedure declaration or body.
#[derive(Debug, Clone, Default)]
pub struct ProcedureDeclaration {
    pub name: String,
    pub parameters: Vec<SubprogramParameter>,
    pub has_body: bool,
    pub line: usize,
    pub file: String,
    pub in_arch: String,
    pub in_package: String,
}

/// A formal parameter of a subprogram.
#[derive(Debug, Clone, Default)]
pub struct SubprogramParameter {
    pub name: String,
    pub direction: String,
    pub ty: String,
    pub line: usize,
}

/// A constant declaration.
#[derive(Debug, Clone, Default)]
pub struct ConstantDeclaration {
    pub name: String,
    pub ty: String,
    pub value: String,
    pub file: String,
    pub line: usize,
    pub in_package: String,
    pub in_arch: String,
}

} // verus!
