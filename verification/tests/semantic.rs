use kern::semantic::analyzer::SemanticAnalyzer;
use kern::semantic::bytecode_validator::BytecodeValidator;
use kern::semantic::conflict_detector::ConflictDetector;
use kern::semantic::dependency_graph::DependencyGraph;
use kern::semantic::diagnostics::{Diagnostic, DiagnosticCode, DiagnosticReporter, Severity};
use kern::semantic::resolver::Resolver;
use kern::semantic::scope::ScopeManager;
use kern::semantic::symbol::{SourceLocation, Symbol, SymbolKind, SymbolTable};
use kern::semantic::type_checker::TypeChecker;
use kern::semantic::types::{TypeDescriptor, TypeKind};

#[test]
fn test_bytecode_validator_creation() {
    let resolver = Resolver::new();
    let type_checker = TypeChecker::new(resolver);
    let resolver = type_checker.resolver().clone();
    let bytecode_validator = BytecodeValidator::new(resolver, type_checker);
    assert_eq!(bytecode_validator.errors().len(), 0);
}

#[test]
fn test_type_to_bytecode_mapping() {
    let resolver = Resolver::new();
    let type_checker = TypeChecker::new(resolver);
    let resolver = type_checker.resolver().clone();
    let bytecode_validator = BytecodeValidator::new(resolver, type_checker);
    let int_type = TypeDescriptor::new(TypeKind::Int);
    assert_eq!(bytecode_validator.map_type_to_bytecode(&int_type), Some("I32"));
    let bool_type = TypeDescriptor::new(TypeKind::Bool);
    assert_eq!(bytecode_validator.map_type_to_bytecode(&bool_type), Some("BOOL"));
    let string_type = TypeDescriptor::new(TypeKind::String);
    assert_eq!(bytecode_validator.map_type_to_bytecode(&string_type), Some("STR"));
}

#[test]
fn test_conflict_detector_creation() {
    let resolver = Resolver::new();
    let conflict_detector = ConflictDetector::new(resolver);
    assert_eq!(conflict_detector.get_conflicts().len(), 0);
}

#[test]
fn test_dependency_graph_creation() {
    let resolver = Resolver::new();
    let dep_graph = DependencyGraph::new(resolver);
    assert_eq!(dep_graph.topological_sort().unwrap().len(), 0);
}

#[test]
fn test_diagnostic_creation() {
    let location = kern::semantic::diagnostics::SourceLocation::new("test.kern".to_string(), 10, 5);
    let diagnostic = Diagnostic::new(
        Severity::Error,
        DiagnosticCode::TYPE_MISMATCH,
        "Type mismatch: expected Int, found Bool".to_string(),
        location,
    );
    assert_eq!(diagnostic.severity, Severity::Error);
    assert_eq!(diagnostic.code, DiagnosticCode::TYPE_MISMATCH);
    assert_eq!(diagnostic.message, "Type mismatch: expected Int, found Bool");
    assert_eq!(diagnostic.location.file, "test.kern");
    assert_eq!(diagnostic.location.line, 10);
    assert_eq!(diagnostic.location.column, 5);
}

#[test]
fn test_diagnostic_formatting() {
    let location = kern::semantic::diagnostics::SourceLocation::new("test.kern".to_string(), 10, 5);
    let diagnostic = Diagnostic::new(
        Severity::Error,
        DiagnosticCode::TYPE_MISMATCH,
        "Type mismatch: expected Int, found Bool".to_string(),
        location,
    )
    .with_note("The variable was declared here".to_string())
    .with_help("Try converting the value to Int".to_string());
    let formatted = diagnostic.format();
    assert!(formatted.contains("error"));
    assert!(formatted.contains("TYPE_MISMATCH"));
    assert!(formatted.contains("Type mismatch: expected Int, found Bool"));
    assert!(formatted.contains("note: The variable was declared here"));
    assert!(formatted.contains("help: Try converting the value to Int"));
}

#[test]
fn test_diagnostic_reporter() {
    let mut reporter = DiagnosticReporter::new();
    let location = kern::semantic::diagnostics::SourceLocation::new("test.kern".to_string(), 10, 5);
    reporter.error(DiagnosticCode::TYPE_MISMATCH, "Type mismatch: expected Int, found Bool".to_string(), location.clone());
    reporter.warning(DiagnosticCode::UNDECLARED_SYMBOL, "Undeclared symbol 'x'".to_string(), location.clone());
    reporter.info(DiagnosticCode::SEMANTIC_ERROR, "Semantic analysis completed".to_string(), location);
    assert_eq!(reporter.diagnostics().len(), 3);
    assert_eq!(reporter.errors().len(), 1);
    assert_eq!(reporter.warnings().len(), 1);
    assert_eq!(reporter.info_messages().len(), 1);
    assert!(reporter.has_errors());
}

#[test]
fn test_diagnostic_codes_display() {
    assert_eq!(DiagnosticCode::TYPE_MISMATCH.name(), "TYPE_MISMATCH");
    assert_eq!(DiagnosticCode::UNDECLARED_SYMBOL.name(), "UNDECLARED_SYMBOL");
    assert_eq!(DiagnosticCode::CYCLIC_DEPENDENCY.name(), "CYCLIC_DEPENDENCY");
}

#[test]
fn test_semantic_analyzer_creation() {
    let analyzer = SemanticAnalyzer::new();
    assert_eq!(analyzer.diagnostic_reporter().diagnostics().len(), 0);
}

#[test]
fn test_resolver_creation() {
    let resolver = Resolver::new();
    assert_eq!(resolver.errors().len(), 0);
}

#[test]
fn test_scope_creation() {
    let mut scope_manager = ScopeManager::new();
    assert_eq!(scope_manager.current_scope().unwrap().id, 0);
    assert_eq!(scope_manager.current_scope().unwrap().parent, None);
    let new_scope_id = scope_manager.enter_scope();
    assert_eq!(new_scope_id, 1);
    assert_eq!(scope_manager.current_scope().unwrap().id, 1);
    assert_eq!(scope_manager.current_scope().unwrap().parent, Some(0));
}

#[test]
fn test_symbol_declaration() {
    let mut scope_manager = ScopeManager::new();
    let location = SourceLocation::new("test.kern".to_string(), 1, 1);
    let ty = TypeDescriptor::new(TypeKind::Int);
    let symbol = Symbol::new(
        "test_var".to_string(),
        SymbolKind::Variable,
        ty,
        scope_manager.current_scope_id().unwrap(),
        location,
    );
    let result = scope_manager.declare_symbol(symbol);
    assert!(result.is_ok());
    assert!(scope_manager.resolve_symbol("test_var").is_some());
    assert!(scope_manager.resolve_symbol("nonexistent").is_none());
}

#[test]
fn test_nested_scopes() {
    let mut scope_manager = ScopeManager::new();
    let location = SourceLocation::new("test.kern".to_string(), 1, 1);
    let ty = TypeDescriptor::new(TypeKind::Int);
    let symbol = Symbol::new("global_var".to_string(), SymbolKind::Variable, ty.clone(), 0, location.clone());
    scope_manager.declare_symbol(symbol).unwrap();
    scope_manager.enter_scope();
    let symbol2 = Symbol::new("local_var".to_string(), SymbolKind::Variable, ty, 1, location);
    scope_manager.declare_symbol(symbol2).unwrap();
    assert!(scope_manager.resolve_symbol("global_var").is_some());
    assert!(scope_manager.resolve_symbol("local_var").is_some());
    scope_manager.exit_scope().unwrap();
    assert!(scope_manager.resolve_symbol("global_var").is_some());
    assert!(scope_manager.resolve_symbol("local_var").is_none());
}

#[test]
fn test_symbol_creation() {
    let location = SourceLocation::new("test.kern".to_string(), 1, 1);
    let ty = TypeDescriptor::new(TypeKind::Int);
    let symbol = Symbol::new("test_var".to_string(), SymbolKind::Variable, ty, 0, location);
    assert_eq!(symbol.name_id, "test_var");
    assert_eq!(symbol.kind, SymbolKind::Variable);
    assert_eq!(symbol.scope_id, 0);
}

#[test]
fn test_symbol_table() {
    let mut table = SymbolTable::new();
    let location = SourceLocation::new("test.kern".to_string(), 1, 1);
    let ty = TypeDescriptor::new(TypeKind::Int);
    let symbol = Symbol::new("test_var".to_string(), SymbolKind::Variable, ty, 0, location);
    let id = table.register_symbol(symbol).unwrap();
    assert_eq!(id, 0);
    assert!(table.has_symbol("test_var"));
    assert!(!table.has_symbol("nonexistent"));
    let found_symbol = table.lookup_symbol("test_var").unwrap();
    assert_eq!(found_symbol.name_id, "test_var");
}

#[test]
fn test_duplicate_symbol_error() {
    let mut table = SymbolTable::new();
    let location = SourceLocation::new("test.kern".to_string(), 1, 1);
    let ty = TypeDescriptor::new(TypeKind::Int);
    let symbol1 = Symbol::new("test_var".to_string(), SymbolKind::Variable, ty.clone(), 0, location.clone());
    let symbol2 = Symbol::new("test_var".to_string(), SymbolKind::Variable, ty, 0, location);
    table.register_symbol(symbol1).unwrap();
    let result = table.register_symbol(symbol2);
    assert!(result.is_err());
}

#[test]
fn test_type_checker_creation() {
    let resolver = Resolver::new();
    let type_checker = TypeChecker::new(resolver);
    assert_eq!(type_checker.errors().len(), 0);
}

#[test]
fn test_type_creation() {
    let int_type = TypeDescriptor::new(TypeKind::Int);
    assert!(matches!(int_type.kind, TypeKind::Int));
    assert!(int_type.name_id.is_none());
    assert!(int_type.parameters.is_empty());
}

#[test]
fn test_entity_type() {
    let entity_type = TypeDescriptor::new_named(TypeKind::Entity("Farmer".to_string()), "Farmer".to_string());
    assert!(entity_type.is_entity());
    assert!(!entity_type.is_numeric());
}

#[test]
fn test_composite_types() {
    let int_type = TypeDescriptor::new(TypeKind::Int);
    let list_type = TypeDescriptor::new_composite(TypeKind::List(Box::new(int_type.clone())), vec![int_type.clone()]);
    assert!(!list_type.is_numeric());
}

#[test]
fn test_type_compatibility() {
    let int_type1 = TypeDescriptor::new(TypeKind::Int);
    let int_type2 = TypeDescriptor::new(TypeKind::Int);
    assert!(int_type1.is_compatible(&int_type2));
    let bool_type = TypeDescriptor::new(TypeKind::Bool);
    assert!(!int_type1.is_compatible(&bool_type));
}
