use kern::rule_engine::conflict_resolver::ConflictResolver;
use kern::rule_engine::engine::RuleEngine;
use kern::rule_engine::pattern_matcher::{Pattern, PatternMatcher};
use kern::rule_engine::priority_manager::{PriorityLevel, PriorityManager};
use kern::rule_engine::recursion_guard::{RecursionError, RecursionGuard};
use kern::rule_engine::scheduler::RuleScheduler;
use kern::rule_engine::types::{ConflictEntry, ResolutionMode, RuleExecutionInfo};

#[test]
fn test_conflict_resolution() {
    let mut resolver = ConflictResolver::new();
    let mut rule1 = RuleExecutionInfo::new(1);
    rule1.priority = 50;
    let mut rule2 = RuleExecutionInfo::new(2);
    rule2.priority = 75;
    let mut rules = vec![rule1, rule2];
    resolver.add_conflict(ConflictEntry {
        target_symbol_id: 100,
        conflicting_rules: vec![1, 2],
        resolution_mode: ResolutionMode::Override,
    });
    let result = resolver.resolve_conflicts(&mut rules);
    assert!(result.is_ok());
    let lower_priority_rule = rules.iter().find(|r| r.rule_id == 1).unwrap();
    assert_eq!(lower_priority_rule.priority, 0);
    let higher_priority_rule = rules.iter().find(|r| r.rule_id == 2).unwrap();
    assert_eq!(higher_priority_rule.priority, 75);
}

#[test]
fn test_pattern_matching() {
    let matcher = PatternMatcher::new();
    let value_pattern = Pattern::Value("test_value".to_string());
    let result = matcher.match_pattern(&value_pattern, "test_value");
    assert!(result.is_some());
    let var_pattern = Pattern::Variable("x".to_string());
    let result = matcher.match_pattern(&var_pattern, "bound_value");
    assert!(result.is_some());
    if let Some(bindings) = result {
        assert_eq!(bindings.get("x"), Some(&"bound_value".to_string()));
    }
    let composite_pattern = Pattern::Composite(
        "entity.field".to_string(),
        vec![Pattern::Value("location".to_string())],
    );
    let result = matcher.match_pattern(&composite_pattern, "location");
    assert!(result.is_some());
}

#[test]
fn test_priority_manager() {
    let mut manager = PriorityManager::new();
    assert_eq!(manager.get_default_priority(), PriorityLevel::Normal.value());
    let _rule_info = RuleExecutionInfo::new(1);
    assert_eq!(manager.get_rule_priority(1), PriorityLevel::Normal.value());
    manager.set_rule_priority(1, 75).unwrap();
    assert_eq!(manager.get_rule_priority(1), 75);
    manager.set_rule_priority(1, PriorityLevel::High.value()).unwrap();
    assert_eq!(manager.get_rule_priority_level(1), PriorityLevel::High);
    manager.set_rule_priority_level(1, PriorityLevel::Critical).unwrap();
    assert_eq!(manager.get_rule_priority(1), PriorityLevel::Critical.value());
    let mut r1 = RuleExecutionInfo::new(1);
    r1.priority = 50;
    let mut r2 = RuleExecutionInfo::new(2);
    r2.priority = 100;
    let mut r3 = RuleExecutionInfo::new(3);
    r3.priority = 75;
    let mut rules = vec![r1, r2, r3];
    manager.sort_rules_by_priority(&mut rules);
    assert_eq!(rules[0].rule_id, 2);
    assert_eq!(rules[1].rule_id, 3);
    assert_eq!(rules[2].rule_id, 1);
}

#[test]
fn test_priority_adjustments() {
    let mut manager = PriorityManager::new();
    let mut rule_info = RuleExecutionInfo::new(1);
    rule_info.dependencies = vec![2, 3, 4, 5, 6, 7];
    manager.adjust_priority_for_dependencies(&mut rule_info);
    assert!(manager.get_rule_priority(1) > manager.get_default_priority());
}

#[test]
fn test_priority_limits() {
    let mut manager = PriorityManager::new();
    assert!(manager.set_rule_priority(1, 500).is_ok());
    assert!(manager.set_rule_priority(2, 2000).is_err());
    assert!(manager.set_default_priority(1500).is_err());
}

#[test]
fn test_recursion_guard() {
    let mut guard = RecursionGuard::new();
    assert!(guard.start_rule_execution(1).is_ok());
    assert!(guard.is_rule_active(1));
    assert_eq!(guard.get_execution_count(1), 1);
    guard.end_rule_execution(1);
    assert!(!guard.is_rule_active(1));
    guard.set_recursion_limit(1, 2);
    assert!(guard.start_rule_execution(1).is_ok());
    assert!(guard.start_rule_execution(1).is_ok());
    assert!(matches!(guard.start_rule_execution(1), Err(RecursionError::LimitExceeded(1, 2))));
    guard.reset_rule_count(1);
    assert!(guard.start_rule_execution(1).is_ok());
}

#[test]
fn test_direct_recursion_detection() {
    let mut guard = RecursionGuard::new();
    assert!(guard.start_rule_execution(1).is_ok());
    assert!(matches!(guard.start_rule_execution(1), Err(RecursionError::DirectRecursion(1))));
    guard.end_rule_execution(1);
    assert!(guard.start_rule_execution(1).is_ok());
}

#[test]
fn test_call_stack_depth() {
    let mut guard = RecursionGuard::new();
    guard.set_max_call_depth(3);
    assert!(guard.start_rule_execution(1).is_ok());
    assert!(guard.start_rule_execution(2).is_ok());
    assert!(guard.start_rule_execution(3).is_ok());
    assert!(matches!(guard.start_rule_execution(4), Err(RecursionError::StackOverflow)));
    guard.end_rule_execution(3);
    guard.end_rule_execution(2);
    guard.end_rule_execution(1);
}

#[test]
fn test_indirect_recursion_detection() {
    let mut guard = RecursionGuard::new();
    assert!(guard.start_rule_execution(1).is_ok());
    assert!(guard.start_rule_execution(2).is_ok());
    assert!(guard.start_rule_execution(3).is_ok());
    let cycle = guard.detect_indirect_recursion(1);
    assert!(cycle.is_some());
    assert_eq!(cycle.unwrap(), vec![1, 2, 3, 1]);
    guard.end_rule_execution(3);
    guard.end_rule_execution(2);
    guard.end_rule_execution(1);
}

#[test]
fn test_scheduler() {
    let mut rule_engine = RuleEngine::new();
    let mut scheduler = RuleScheduler::new();
    let mut rule_info = RuleExecutionInfo::new(1);
    rule_info.priority = 50;
    let result = scheduler.schedule_rule(rule_info, &rule_engine);
    assert!(result.is_ok());
    assert_eq!(scheduler.scheduled_count(), 1);
    scheduler.sort_queue();
    let result = scheduler.execute_next_rule(&mut rule_engine);
    assert!(result.is_ok());
    assert_eq!(scheduler.scheduled_count(), 0);
}
