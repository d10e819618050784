use kern::rule_engine::condition::{Condition, Expression, LogicalOp, Predicate, Term};
use kern::rule_engine::types::Comparator;
use kern::semantic::analyzer::SemanticAnalyzer;
use kern::semantic::bytecode_validator::BytecodeValidator;
use kern::semantic::conflict_detector::{ConflictDetector, ConflictSeverity, ConflictType};
use kern::semantic::dependency_graph::DependencyGraph;
use kern::semantic::diagnostics::{DiagnosticCode, Severity};
use kern::semantic::program::{
    Action, Assignment, ConstraintDef, ControlAction, Definition, EntityDef, FlowDef, HaltAction, IfAction,
    LoopAction, Program, RuleDef,
};
use kern::semantic::resolver::Resolver;
use kern::semantic::type_checker::TypeChecker;

fn ident(name: &str) -> Term {
    Term::Identifier(name.to_string())
}

fn field(entity: &str, name: &str) -> Term {
    Term::QualifiedRef(entity.to_string(), name.to_string())
}

fn compare(left: Term, op: Comparator, right: Term) -> Condition {
    Condition::Expression(Expression::Comparison { left, op, right })
}

fn call(name: &str, arguments: Vec<Term>) -> Predicate {
    Predicate { name: name.to_string(), arguments }
}

fn entity(name: &str, fields: &[&str]) -> Definition {
    Definition::Entity(EntityDef { name: name.to_string(), fields: fields.iter().map(|f| f.to_string()).collect() })
}

fn rule(name: &str, condition: Condition, actions: Vec<Action>) -> Definition {
    Definition::Rule(RuleDef { name: name.to_string(), condition, actions })
}

fn assign(variable: &str, value: Term) -> Action {
    Action::Assignment(Assignment { variable: variable.to_string(), value })
}

fn resolved(program: &Program) -> Resolver {
    let mut resolver = Resolver::new();
    let _ = resolver.resolve_program(program);
    resolver
}

#[test]
fn test_resolution_reports_undeclared_names() {
    let program = Program {
        definitions: vec![
            entity("Farmer", &["id", "location"]),
            rule(
                "CheckLocation",
                compare(field("Farmer", "location"), Comparator::Equal, Term::Number(1)),
                vec![Action::Predicate(call("approve_farmer", vec![ident("farmer")]))],
            ),
            Definition::Flow(FlowDef {
                name: "ProcessFarmers".to_string(),
                actions: vec![Action::Predicate(call("load_farmers", vec![]))],
            }),
            Definition::Constraint(ConstraintDef {
                name: "ValidId".to_string(),
                condition: compare(field("farmer", "id"), Comparator::Greater, Term::Number(0)),
            }),
        ],
    };
    let mut resolver = Resolver::new();
    let result = resolver.resolve_program(&program);
    let expected = vec![
        "Undeclared symbol 'approve_farmer' at unknown:0".to_string(),
        "Undeclared symbol 'farmer' at unknown:0".to_string(),
        "Undeclared symbol 'load_farmers' at unknown:0".to_string(),
        "Undeclared symbol 'farmer' at unknown:0".to_string(),
    ];
    assert_eq!(result, Err(expected.clone()));
    assert_eq!(resolver.errors().to_vec(), expected);
}

#[test]
fn test_resolution_of_a_clean_program() {
    let program = Program {
        definitions: vec![
            entity("Farmer", &["id"]),
            rule("Check", compare(field("Farmer", "id"), Comparator::Greater, Term::Number(0)), vec![]),
            rule(
                "Approve",
                Condition::Expression(Expression::Predicate(call("Check", vec![ident("Farmer")]))),
                vec![assign("Check", Term::Number(1))],
            ),
        ],
    };
    let mut resolver = Resolver::new();
    assert_eq!(resolver.resolve_program(&program), Ok(()));
    assert!(resolver.scope_manager().resolve_symbol("Farmer").is_some());
    assert!(resolver.scope_manager().resolve_symbol("id").is_none());
}

#[test]
fn test_resolution_reports_duplicates() {
    let program = Program {
        definitions: vec![
            entity("A", &["x", "x"]),
            entity("B", &["x"]),
            rule("A", compare(Term::Number(1), Comparator::Equal, Term::Number(1)), vec![]),
        ],
    };
    let mut resolver = Resolver::new();
    let result = resolver.resolve_program(&program);
    assert_eq!(
        result,
        Err(vec![
            "Symbol 'x' already declared in current scope".to_string(),
            "Symbol 'x' already declared".to_string(),
            "Symbol 'A' already declared in current scope".to_string(),
        ])
    );
}

#[test]
fn test_type_checking_errors() {
    let program = Program {
        definitions: vec![
            entity("E", &["f"]),
            rule(
                "R",
                Condition::LogicalOp(
                    Box::new(compare(field("E", "f"), Comparator::Equal, Term::Number(1))),
                    LogicalOp::And,
                    Box::new(Condition::Expression(Expression::Predicate(call("R", vec![])))),
                ),
                vec![assign("E", Term::Number(5))],
            ),
            Definition::Constraint(ConstraintDef {
                name: "C".to_string(),
                condition: compare(field("E", "f"), Comparator::Greater, Term::Number(1)),
            }),
        ],
    };
    let resolver = resolved(&program);
    assert_eq!(resolver.errors().len(), 0);
    let mut checker = TypeChecker::new(resolver);
    let result = checker.check_program(&program);
    let sym = "TypeDescriptor { kind: Sym, name_id: None, parameters: [] }";
    let int = "TypeDescriptor { kind: Int, name_id: None, parameters: [] }";
    let boolean = "TypeDescriptor { kind: Bool, name_id: None, parameters: [] }";
    let void = "TypeDescriptor { kind: Void, name_id: None, parameters: [] }";
    let entity_e = "TypeDescriptor { kind: Entity(\"E\"), name_id: Some(\"E\"), parameters: [] }";
    let expected = vec![
        format!("Type mismatch: expected {}, found {} at unknown:0", sym, int),
        format!("Type mismatch: expected {}, found {} at unknown:0", boolean, void),
        format!("Cannot assign value of type {} to target of type {} at unknown:0", int, entity_e),
        format!("Invalid operator 'Greater' for types {} and {} at unknown:0", sym, int),
        format!("Type mismatch: expected {}, found {} at unknown:0", sym, int),
    ];
    assert_eq!(result, Err(expected));
}

#[test]
fn test_type_checking_of_nested_actions() {
    let program = Program {
        definitions: vec![
            entity("E", &["f"]),
            rule(
                "R",
                compare(Term::Number(1), Comparator::Less, Term::Number(2)),
                vec![Action::Control(ControlAction::If(IfAction {
                    condition: Condition::Expression(Expression::Predicate(call("R", vec![]))),
                    then_actions: vec![Action::Control(ControlAction::Loop(LoopAction {
                        actions: vec![Action::Predicate(call("missing", vec![ident("nobody")]))],
                    }))],
                    else_actions: Some(vec![Action::Control(ControlAction::Halt(HaltAction))]),
                }))],
            ),
        ],
    };
    let resolver = resolved(&program);
    let mut checker = TypeChecker::new(resolver);
    let result = checker.check_program(&program);
    assert_eq!(
        result,
        Err(vec![
            "Type mismatch: expected TypeDescriptor { kind: Bool, name_id: None, parameters: [] }, found TypeDescriptor { kind: Void, name_id: None, parameters: [] } at unknown:0".to_string(),
            "Unknown predicate 'missing'".to_string(),
            "Undeclared identifier 'nobody'".to_string(),
        ])
    );
}

#[test]
fn test_bytecode_validation_of_fields_and_names() {
    let program = Program {
        definitions: vec![
            entity("E", &["", "f"]),
            rule("R", compare(field("E", "f"), Comparator::Equal, field("E", "f")), vec![assign("ghost", Term::Number(1))]),
        ],
    };
    let resolver = resolved(&program);
    let checker = TypeChecker::new(resolved(&program));
    let mut validator = BytecodeValidator::new(resolver, checker);
    let result = validator.validate_program(&program);
    assert_eq!(
        result,
        Err(vec![
            "Cannot assign to undeclared variable 'ghost'".to_string(),
            "Dynamic type required: Entity 'E' has a field with an empty name at unknown:0".to_string(),
            "Cannot assign to undeclared variable 'ghost'".to_string(),
        ])
    );
}

#[test]
fn test_conflicts_between_rules() {
    let program = Program {
        definitions: vec![
            entity("E", &["a"]),
            rule("R1", compare(field("E", "a"), Comparator::Equal, Term::Number(1)), vec![assign("x", Term::Number(1))]),
            rule("R2", compare(field("E", "a"), Comparator::Equal, Term::Number(2)), vec![assign("x", Term::Number(2))]),
            rule("R3", compare(Term::Number(1), Comparator::Equal, Term::Number(1)), vec![assign("x", Term::Number(3))]),
        ],
    };
    let mut detector = ConflictDetector::new(resolved(&program));
    let conflicts = detector.detect_conflicts(&program).unwrap();
    assert_eq!(conflicts.len(), 2);
    assert_eq!(conflicts[0].rule_a, "R1");
    assert_eq!(conflicts[0].rule_b, "R2");
    assert_eq!(conflicts[0].conflict_type, ConflictType::OverlappingConditions);
    assert_eq!(conflicts[0].severity, ConflictSeverity::Warning);
    assert_eq!(
        conflicts[0].description,
        "Rules 'R1' and 'R2' have overlapping conditions and may both fire for the same facts"
    );
    assert_eq!(conflicts[1].conflict_type, ConflictType::ConflictingAttributeWrites);
    assert_eq!(conflicts[1].severity, ConflictSeverity::Error);
    assert_eq!(conflicts[1].description, "Rules 'R1' and 'R2' modify the same attributes in conflicting ways");
    assert_eq!(detector.get_conflicts().len(), 2);
}

#[test]
fn test_dependency_graph_of_a_program() {
    let program = Program {
        definitions: vec![
            entity("E", &["a"]),
            rule(
                "R",
                compare(field("E", "a"), Comparator::Equal, ident("C")),
                vec![Action::Predicate(call("F", vec![Term::Number(1)]))],
            ),
            Definition::Flow(FlowDef { name: "F".to_string(), actions: vec![] }),
            Definition::Constraint(ConstraintDef {
                name: "C".to_string(),
                condition: compare(ident("E"), Comparator::Equal, ident("E")),
            }),
        ],
    };
    let mut graph = DependencyGraph::new(resolved(&program));
    assert_eq!(graph.build_graph(&program), Ok(()));
    assert_eq!(graph.get_dependencies("R").unwrap().to_vec(), vec!["E".to_string(), "C".to_string(), "F".to_string()]);
    assert_eq!(graph.get_dependencies("C").unwrap().to_vec(), vec!["E".to_string(), "E".to_string()]);
    assert_eq!(graph.get_dependencies("E").unwrap().len(), 0);
}

#[test]
fn test_dependency_cycle_between_rules() {
    let program = Program {
        definitions: vec![
            rule("A", Condition::Expression(Expression::Predicate(call("B", vec![]))), vec![]),
            rule("B", Condition::Expression(Expression::Predicate(call("A", vec![]))), vec![]),
        ],
    };
    let mut graph = DependencyGraph::new(resolved(&program));
    assert_eq!(
        graph.build_graph(&program),
        Err(vec!["Cyclic dependency detected: A -> B -> A at unknown:0".to_string()])
    );
}

#[test]
fn test_analysis_reports_conflicts() {
    let program = Program {
        definitions: vec![
            entity("E", &["a"]),
            rule("R1", compare(field("E", "a"), Comparator::Equal, field("E", "a")), vec![]),
            rule("R2", compare(field("E", "a"), Comparator::NotEqual, field("E", "a")), vec![]),
        ],
    };
    let mut analyzer = SemanticAnalyzer::new();
    assert_eq!(analyzer.analyze(&program), Ok(()));
    let diagnostics = analyzer.diagnostic_reporter().diagnostics();
    assert_eq!(diagnostics.len(), 1);
    assert_eq!(diagnostics[0].severity, Severity::Warning);
    assert_eq!(diagnostics[0].code, DiagnosticCode::RULE_CONFLICT);
    assert_eq!(
        diagnostics[0].message,
        "Rule conflict: Rules 'R1' and 'R2' have overlapping conditions and may both fire for the same facts"
    );
    assert!(!analyzer.diagnostic_reporter().has_errors());
}

#[test]
fn test_analysis_stops_at_the_first_failing_stage() {
    let unresolved = Program {
        definitions: vec![rule("R", compare(ident("x"), Comparator::Equal, Term::Number(1)), vec![])],
    };
    let mut analyzer = SemanticAnalyzer::new();
    assert_eq!(analyzer.analyze(&unresolved), Err(vec!["Undeclared symbol 'x' at unknown:0".to_string()]));
    assert_eq!(analyzer.diagnostic_reporter().diagnostics().len(), 0);

    let ill_typed = Program {
        definitions: vec![
            entity("E", &["a"]),
            rule("R", compare(field("E", "a"), Comparator::Less, Term::Number(1)), vec![]),
        ],
    };
    let result = analyzer.analyze(&ill_typed);
    assert_eq!(result.unwrap_err().len(), 2);

    let cyclic = Program {
        definitions: vec![
            rule("A", compare(ident("B"), Comparator::Equal, ident("B")), vec![]),
            rule("B", compare(ident("A"), Comparator::Equal, ident("A")), vec![]),
        ],
    };
    assert_eq!(
        analyzer.analyze(&cyclic),
        Err(vec!["Cyclic dependency detected: A -> B -> A at unknown:0".to_string()])
    );
    assert_eq!(analyzer.diagnostic_reporter().diagnostics().len(), 0);
}
