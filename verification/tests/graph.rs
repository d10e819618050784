use kern::rule_engine::engine::{ConflictType, RuleEngine};
use kern::rule_engine::graph::{EdgeType, ExecutionGraph, GraphEdge, GraphNode, GraphNodeType};
use kern::rule_engine::condition::{Condition, Expression, LogicalOp, Predicate, Term};
use kern::rule_engine::types::{Comparator, Pattern, PriorityStrategy, RuleEngineError, Value};

fn node(id: u32, node_type: GraphNodeType, opcode: u8, flags: u8, input_regs: Vec<u16>, output_regs: Vec<u16>) -> GraphNode {
    GraphNode { id, node_type, opcode, flags, input_regs, output_regs }
}

fn edge(from_node: u32, to_node: u32, edge_type: EdgeType) -> GraphEdge {
    GraphEdge { from_node, to_node, edge_type }
}

fn load_num(id: u32, out: u16) -> GraphNode {
    node(id, GraphNodeType::Op, 0x11, 0, vec![], vec![out])
}

fn is_num(v: &Option<Value>, n: i64) -> bool {
    matches!(v, Some(Value::Num(x)) if *x == n)
}

fn is_sym(v: &Option<Value>, s: &str) -> bool {
    matches!(v, Some(Value::Sym(x)) if x == s)
}

/// Two loads, then a rule whose condition compares them and whose action
/// loads a symbol.
fn rule_graph(flags: u8) -> ExecutionGraph {
    ExecutionGraph {
        nodes: vec![
            load_num(1, 1),
            load_num(2, 2),
            node(10, GraphNodeType::Rule, 0, 0, vec![], vec![]),
            node(20, GraphNodeType::Op, 0x13, flags, vec![1, 2], vec![3]),
            node(30, GraphNodeType::Op, 0x10, 0, vec![], vec![4]),
        ],
        edges: vec![edge(10, 20, EdgeType::Data), edge(10, 30, EdgeType::Data)],
        entry_points: vec![1, 2, 10],
    }
}

#[test]
fn test_rule_execution_flow() {
    let graph = ExecutionGraph { nodes: vec![], edges: vec![], entry_points: vec![] };
    let mut engine = RuleEngine::new();
    let result = engine.execute_graph(&graph);
    assert!(result.is_ok());
    assert_eq!(engine.step_count, 0);
}

#[test]
fn graph_rule_runs_its_action_when_its_condition_holds() {
    let graph = rule_graph(3);
    let mut engine = RuleEngine::new();
    assert!(engine.execute_graph(&graph).is_ok());
    assert!(is_num(&engine.context.registers[1], 1));
    assert!(is_num(&engine.context.registers[2], 2));
    assert!(matches!(engine.context.registers[3], Some(Value::Bool(true))));
    assert!(is_sym(&engine.context.registers[4], "symbol_30"));
    assert_eq!(engine.step_count, 5);
    assert!(engine.execution_path.is_empty());
    assert!(engine.priority_queue.is_empty());
}

#[test]
fn graph_rule_counts_its_activations() {
    let graph = ExecutionGraph {
        nodes: vec![node(10, GraphNodeType::Rule, 0, 0, vec![], vec![])],
        edges: vec![],
        entry_points: vec![10],
    };
    let mut engine = RuleEngine::new();
    engine.set_rule_priority(10, 1, 1, 1);
    assert!(engine.execute_graph(&graph).is_ok());
    assert_eq!(engine.rule_priorities.get(10).unwrap().activation_count, 1);
}

#[test]
fn graph_rule_skips_its_action_when_its_condition_fails() {
    let graph = rule_graph(0);
    let mut engine = RuleEngine::new();
    assert!(engine.execute_graph(&graph).is_ok());
    assert!(matches!(engine.context.registers[3], Some(Value::Bool(false))));
    // the action still runs once as a successor the rule queued
    assert!(is_sym(&engine.context.registers[4], "symbol_30"));
}

#[test]
fn graph_execution_stops_at_the_step_limit() {
    let graph = rule_graph(3);
    let mut engine = RuleEngine::new();
    engine.max_steps = 2;
    let r = engine.execute_graph(&graph);
    assert!(matches!(r, Err(RuleEngineError::ExecutionLimitExceeded)));
    assert_eq!(engine.step_count, 2);
}

#[test]
fn graph_rule_recursion_is_bounded() {
    let graph = ExecutionGraph {
        nodes: vec![load_num(1, 1), node(10, GraphNodeType::Rule, 0, 0, vec![], vec![]), node(20, GraphNodeType::Op, 0x13, 0, vec![1, 1], vec![3])],
        edges: vec![edge(10, 20, EdgeType::Data), edge(10, 10, EdgeType::Data)],
        entry_points: vec![1, 10],
    };
    let mut engine = RuleEngine::new();
    engine.set_max_recursion_depth(3);
    let r = engine.execute_graph(&graph);
    assert!(matches!(r, Err(RuleEngineError::ExecutionLimitExceeded)));
    assert_eq!(engine.execution_path, vec![10, 10, 10]);
}

#[test]
fn graph_jump_queues_its_target() {
    let graph = ExecutionGraph {
        nodes: vec![load_num(50, 1), node(40, GraphNodeType::Control, 0x01, 0, vec![1], vec![])],
        edges: vec![],
        entry_points: vec![50, 40],
    };
    let mut engine = RuleEngine::new();
    assert!(engine.execute_graph(&graph).is_ok());
    assert_eq!(engine.step_count, 3);
}

#[test]
fn graph_halt_empties_the_queue() {
    let graph = ExecutionGraph {
        nodes: vec![node(60, GraphNodeType::Control, 0x03, 0, vec![], vec![]), load_num(1, 1), load_num(2, 2)],
        edges: vec![],
        entry_points: vec![60, 1, 2],
    };
    let mut engine = RuleEngine::new();
    assert!(engine.execute_graph(&graph).is_ok());
    assert_eq!(engine.step_count, 1);
    assert!(engine.context.registers[1].is_none());
}

#[test]
fn graph_comparison_of_unlike_values_fails() {
    let graph = ExecutionGraph {
        nodes: vec![
            load_num(1, 1),
            node(5, GraphNodeType::Op, 0x10, 0, vec![], vec![2]),
            node(20, GraphNodeType::Op, 0x13, 0, vec![1, 2], vec![3]),
        ],
        edges: vec![],
        entry_points: vec![1, 5, 20],
    };
    let mut engine = RuleEngine::new();
    let r = engine.execute_graph(&graph);
    assert!(matches!(r, Err(RuleEngineError::InvalidComparison(_, _, _))));
}

#[test]
fn graph_move_from_an_empty_register_fails() {
    let graph = ExecutionGraph {
        nodes: vec![node(7, GraphNodeType::Op, 0x12, 0, vec![5], vec![6])],
        edges: vec![],
        entry_points: vec![7],
    };
    let mut engine = RuleEngine::new();
    let r = engine.execute_graph(&graph);
    assert!(matches!(r, Err(RuleEngineError::MissingRegisterValue(5))));
}

fn conflicting_rules() -> ExecutionGraph {
    ExecutionGraph {
        nodes: vec![
            node(10, GraphNodeType::Rule, 0, 0, vec![], vec![]),
            node(11, GraphNodeType::Rule, 0, 0, vec![], vec![]),
            node(12, GraphNodeType::Rule, 0, 0, vec![], vec![]),
            node(20, GraphNodeType::Op, 0x12, 0, vec![1], vec![2]),
            node(21, GraphNodeType::Op, 0x12, 0, vec![3], vec![4]),
        ],
        edges: vec![edge(10, 20, EdgeType::Data), edge(11, 21, EdgeType::Data), edge(12, 20, EdgeType::Control)],
        entry_points: vec![],
    }
}

#[test]
fn rules_with_moves_conflict() {
    let engine = RuleEngine::new();
    let conflicts = engine.detect_rule_conflicts(&conflicting_rules());
    assert_eq!(conflicts.len(), 1);
    assert_eq!(conflicts[0].rule1_id, 10);
    assert_eq!(conflicts[0].rule2_id, 11);
    assert_eq!(conflicts[0].conflict_type, ConflictType::ActionConflict);
    assert_eq!(conflicts[0].description, "Rules 10 and 11 have conflicting actions");
}

#[test]
fn conflict_aware_scheduling_switches_strategy() {
    let mut engine = RuleEngine::new();
    engine.set_rule_priority(10, 5, 0, 0);
    engine.set_rule_priority(12, 1, 0, 0);
    engine.conflict_aware_schedule(&conflicting_rules());
    assert_eq!(engine.priority_strategy, PriorityStrategy::ConflictResolution);
    assert_eq!(engine.rule_priorities.get(10).unwrap().conflict_score, 2);
    assert_eq!(engine.rule_priorities.get(12).unwrap().conflict_score, 0);
}

#[test]
fn schedule_rule_takes_rule_nodes_only() {
    let graph = conflicting_rules();
    let mut engine = RuleEngine::new();
    assert!(engine.schedule_rule(11, &graph));
    assert!(!engine.schedule_rule(20, &graph));
    assert_eq!(engine.priority_queue, vec![11]);
}

#[test]
fn lazy_values_are_cached() {
    let graph = ExecutionGraph {
        nodes: vec![load_num(7, 2), node(8, GraphNodeType::Rule, 0, 0, vec![], vec![0])],
        edges: vec![edge(7, 8, EdgeType::Data)],
        entry_points: vec![],
    };
    let mut engine = RuleEngine::new();
    let v = engine.evaluate_lazy(7, &graph).unwrap();
    assert!(matches!(v, Value::Num(7)));
    assert!(matches!(engine.get_variable("lazy_result_7"), Some(Value::Num(7))));
    engine.context.registers[2] = Some(Value::Num(99));
    assert!(matches!(engine.evaluate_lazy(7, &graph).unwrap(), Value::Num(7)));
    assert!(matches!(engine.evaluate_lazy(3, &graph), Err(RuleEngineError::InvalidNodeType)));
    let r = engine.evaluate_lazy_with_dependencies(8, &graph).unwrap();
    assert!(matches!(r, Value::Sym(s) if s == "node_8_result"));
}

#[test]
fn flow_runs_the_nodes_it_reaches() {
    let graph = ExecutionGraph {
        nodes: vec![node(100, GraphNodeType::Control, 0, 0, vec![], vec![]), load_num(1, 1), load_num(2, 2), load_num(3, 3)],
        edges: vec![edge(100, 1, EdgeType::Control), edge(1, 2, EdgeType::Data)],
        entry_points: vec![],
    };
    let mut engine = RuleEngine::new();
    assert!(engine.execute_flow_pipeline(&graph, 100).is_ok());
    assert!(is_num(&engine.context.registers[1], 1));
    assert!(is_num(&engine.context.registers[2], 2));
    assert!(engine.context.registers[3].is_none());
    assert_eq!(engine.priority_queue, vec![2]);
    assert!(matches!(engine.execute_flow_pipeline(&graph, 55), Err(RuleEngineError::InvalidNodeType)));

    let mut other = RuleEngine::new();
    assert!(other.pass_context_to_subflow(100, &graph).is_ok());
    assert!(other.context.registers[1].is_none());
    assert_eq!(other.priority_queue, vec![2]);
}

#[test]
fn graph_pattern_matches_every_node_value() {
    let graph = conflicting_rules();
    let mut engine = RuleEngine::new();
    let matches = engine.match_graph_pattern(&Pattern::Variable("x".to_string()), &graph);
    assert_eq!(matches.len(), 5);
    assert_eq!(matches[0].matched_node, 10);
    assert!(matches!(matches[0].bindings.get("x"), Some(Value::Sym(s)) if s == "rule_10"));
    assert!(matches!(matches[3].bindings.get("x"), Some(Value::Sym(s)) if s == "op_18_20"));
    let only = engine.match_graph_pattern(&Pattern::Value(Value::Sym("rule_11".to_string())), &graph);
    assert_eq!(only.len(), 1);
    assert_eq!(only[0].matched_node, 11);
}

fn cmp(left: Term, op: Comparator, right: Term) -> Condition {
    Condition::Expression(Expression::Comparison { left, op, right })
}

fn ident(s: &str) -> Term {
    Term::Identifier(s.to_string())
}

#[test]
fn rule_conditions_read_variables_and_facts() {
    let mut engine = RuleEngine::new();
    engine.set_variable("x", Value::Num(3));
    engine.set_variable("farmer.id", Value::Num(123));
    engine.context.facts.insert("y".to_string(), Value::Num(5));
    assert!(engine.match_rule_condition(&cmp(ident("x"), Comparator::Less, ident("y"))).unwrap());
    assert!(!engine.match_rule_condition(&cmp(ident("x"), Comparator::Equal, ident("y"))).unwrap());
    let qualified = cmp(Term::QualifiedRef("farmer".to_string(), "id".to_string()), Comparator::GreaterEqual, Term::Number(100));
    assert!(engine.match_rule_condition(&qualified).unwrap());
    let both = Condition::LogicalOp(
        Box::new(cmp(ident("x"), Comparator::Less, ident("y"))),
        LogicalOp::And,
        Box::new(cmp(ident("x"), Comparator::Greater, ident("y"))),
    );
    assert!(!engine.match_rule_condition(&both).unwrap());
    let either = Condition::LogicalOp(
        Box::new(cmp(ident("x"), Comparator::Less, ident("y"))),
        LogicalOp::Or,
        Box::new(cmp(ident("x"), Comparator::Greater, ident("y"))),
    );
    assert!(engine.match_rule_condition(&either).unwrap());
    let predicate = Condition::Expression(Expression::Predicate(Predicate { name: "check".to_string(), arguments: vec![] }));
    assert!(engine.match_rule_condition(&predicate).unwrap());
}

#[test]
fn rule_conditions_report_unknown_names_and_bad_comparisons() {
    let mut engine = RuleEngine::new();
    engine.set_variable("s", Value::Sym("a".to_string()));
    match engine.match_rule_condition(&cmp(ident("z"), Comparator::Equal, ident("s"))) {
        Err(RuleEngineError::InvalidPredicate(m)) => assert_eq!(m, "Undefined identifier: z"),
        _ => panic!("expected an undefined identifier"),
    }
    match engine.match_rule_condition(&cmp(Term::QualifiedRef("e".to_string(), "f".to_string()), Comparator::Equal, ident("s"))) {
        Err(RuleEngineError::InvalidPredicate(m)) => assert_eq!(m, "Undefined qualified reference: e.f"),
        _ => panic!("expected an undefined reference"),
    }
    assert!(matches!(
        engine.match_rule_condition(&cmp(ident("s"), Comparator::Greater, ident("s"))),
        Err(RuleEngineError::InvalidComparison(Comparator::Greater, _, _))
    ));
    assert!(engine.match_rule_condition(&cmp(ident("s"), Comparator::Equal, ident("s"))).unwrap());
}

#[test]
fn rules_are_listed_by_priority_then_id() {
    let mut engine = RuleEngine::new();
    engine.set_rule_priority(11, 5, 0, 0);
    engine.set_rule_priority(12, 1, 0, 0);
    let rules = engine.evaluate_rules(&conflicting_rules()).unwrap();
    let ids: Vec<u32> = rules.iter().map(|r| r.rule_id).collect();
    assert_eq!(ids, vec![11, 12, 10]);
    assert_eq!(rules[0].priority, 5000);
    assert_eq!(rules[1].priority, 1000);
    assert_eq!(rules[2].priority, 0);
    assert_eq!(rules[2].recursion_limit, 10);
    assert_eq!(rules[2].execution_count, 0);
}
