use kern::rule_engine::engine::RuleEngine;
use kern::rule_engine::types::{Pattern, Value};

#[test]
fn test_pattern_matching_basic() {
    let _engine = RuleEngine::new();

    let v1 = Value::Num(42);
    let v2 = Value::Num(42);
    assert_eq!(v1, v2);

    let _pattern = Pattern::Variable("x".to_string());
    let _value = Value::Num(100);
}

#[test]
fn test_complex_matcher_extends_basic() {
    let engine = RuleEngine::new();
    let any = Pattern::Composite("any".to_string(), vec![]);
    assert!(engine.match_pattern(&any, &Value::Num(1)).is_none());
    let complex = engine.match_complex_pattern(&any, &Value::Num(1)).unwrap();
    assert_eq!(complex.len(), 0);

    let fields = Pattern::Composite(
        "entity.fields".to_string(),
        vec![Pattern::Variable("x".to_string()), Pattern::Value(Value::Num(2))],
    );
    let value = Value::Vec(vec![Value::Num(1), Value::Num(2)]);
    let basic = engine.match_pattern(&fields, &value).unwrap();
    let extended = engine.match_complex_pattern(&fields, &value).unwrap();
    assert_eq!(basic.get("x"), Some(&Value::Num(1)));
    assert_eq!(extended.get("x"), Some(&Value::Num(1)));
    assert_eq!(basic.len(), extended.len());
}
