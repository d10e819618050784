//! Rule conditions as the engine reads them: comparisons of terms and
//! predicates, joined by `and` and `or`, evaluated against the variables
//! and facts of the engine's context.
use vstd::prelude::*;
use crate::rule_engine::engine::RuleEngine;
use crate::rule_engine::graph::EngErr;
use crate::rule_engine::types::{Comparator, RuleEngineError, Value, ValueV, binding_view, value_eq};
use crate::text::{join2, join3};

verus! {

/// A term: a name, a number, or an entity's field.
#[derive(Debug, Clone)]
pub enum Term {
    Identifier(String),
    Number(i64),
    QualifiedRef(String, String),
}

/// A call of a named predicate.
#[derive(Debug, Clone)]
pub struct Predicate {
    pub name: String,
    pub arguments: Vec<Term>,
}

#[derive(Debug, Clone, Copy, PartialEq, Eq)]
pub enum LogicalOp {
    And,
    Or,
}

/// A comparison of two terms, or a predicate.
#[derive(Debug, Clone)]
pub enum Expression {
    Comparison { left: Term, op: Comparator, right: Term },
    Predicate(Predicate),
}

/// An expression, or two conditions joined by a logical operator.
#[derive(Debug)]
pub enum Condition {
    Expression(Expression),
    LogicalOp(Box<Condition>, LogicalOp, Box<Condition>),
}

/// The value of a name: its variable, else its fact, else an error with `missing`.
pub open spec fn lookup_value(vars: Map<Seq<char>, ValueV>, facts: Map<Seq<char>, ValueV>, name: Seq<char>, missing: Seq<char>) -> Result<ValueV, EngErr> {
    if vars.contains_key(name) {
        Ok(vars[name])
    } else if facts.contains_key(name) {
        Ok(facts[name])
    } else {
        Err(EngErr::InvalidPredicate(missing))
    }
}

/// The value of a term; a field `e.f` is looked up under the name `e.f`.
pub open spec fn term_value(vars: Map<Seq<char>, ValueV>, facts: Map<Seq<char>, ValueV>, t: Term) -> Result<ValueV, EngErr> {
    match t {
        Term::Identifier(name) => lookup_value(vars, facts, name@, "Undefined identifier: "@ + name@),
        Term::Number(n) => Ok(ValueV::Num(n)),
        Term::QualifiedRef(entity, field) => {
            let key = entity@ + "."@ + field@;
            lookup_value(vars, facts, key, "Undefined qualified reference: "@ + key)
        },
    }
}

/// Whether an expression holds: a comparison of two numbers in any way, of
/// any two values for equality; a predicate holds.
pub open spec fn expression_holds(vars: Map<Seq<char>, ValueV>, facts: Map<Seq<char>, ValueV>, e: Expression) -> Result<bool, EngErr> {
    match e {
        Expression::Comparison { left, op, right } => match term_value(vars, facts, left) {
            Err(x) => Err(x),
            Ok(l) => match term_value(vars, facts, right) {
                Err(x) => Err(x),
                Ok(r) => match op {
                    Comparator::Equal => Ok(l == r),
                    Comparator::NotEqual => Ok(l != r),
                    _ => match (l, r) {
                        (ValueV::Num(a), ValueV::Num(b)) => Ok(
                            match op {
                                Comparator::Greater => a > b,
                                Comparator::Less => a < b,
                                Comparator::GreaterEqual => a >= b,
                                _ => a <= b,
                            },
                        ),
                        _ => Err(EngErr::InvalidComparison(op, l, r)),
                    },
                },
            },
        },
        Expression::Predicate(_) => Ok(true),
    }
}

/// Whether a condition holds; both sides of a logical operator are evaluated.
pub open spec fn condition_holds(vars: Map<Seq<char>, ValueV>, facts: Map<Seq<char>, ValueV>, c: Condition) -> Result<bool, EngErr>
    decreases c,
{
    match c {
        Condition::Expression(e) => expression_holds(vars, facts, e),
        Condition::LogicalOp(left, op, right) => match condition_holds(vars, facts, *left) {
            Err(x) => Err(x),
            Ok(a) => match condition_holds(vars, facts, *right) {
                Err(x) => Err(x),
                Ok(b) => Ok(
                    match op {
                        LogicalOp::And => a && b,
                        LogicalOp::Or => a || b,
                    },
                ),
            },
        },
    }
}

pub open spec fn res_bool(r: Result<bool, RuleEngineError>) -> Result<bool, EngErr> {
    match r {
        Ok(b) => Ok(b),
        Err(e) => Err(crate::rule_engine::graph::eng_err(e)),
    }
}

pub open spec fn res_val(r: Result<Value, RuleEngineError>) -> Result<ValueV, EngErr> {
    match r {
        Ok(v) => Ok(v@),
        Err(e) => Err(crate::rule_engine::graph::eng_err(e)),
    }
}

impl RuleEngine {
    /// What the variables say.
    pub open spec fn vars_v(&self) -> Map<Seq<char>, ValueV> {
        binding_view(self.context.variables@)
    }

    /// What the facts say.
    pub open spec fn facts_v(&self) -> Map<Seq<char>, ValueV> {
        binding_view(self.context.facts@)
    }

    /// The value of a name among the variables, then the facts.
    fn lookup_name(&self, name: &str, missing: String) -> (r: Result<Value, RuleEngineError>)
        requires
            self.wf(),
        ensures
            res_val(r) == lookup_value(self.vars_v(), self.facts_v(), name@, missing@),
    {
        match self.context.variables.get(name) {
            Some(value) => return Ok(value.clone()),
            None => {},
        }
        match self.context.facts.get(name) {
            Some(value) => Ok(value.clone()),
            None => Err(RuleEngineError::InvalidPredicate(missing)),
        }
    }

    /// The value of a term: see `term_value`.
    fn get_term_value(&self, term: &Term) -> (r: Result<Value, RuleEngineError>)
        requires
            self.wf(),
        ensures
            res_val(r) == term_value(self.vars_v(), self.facts_v(), *term),
    {
        match term {
            Term::Identifier(name) => self.lookup_name(name.as_str(), join2("Undefined identifier: ", name.as_str())),
            Term::Number(n) => Ok(Value::Num(*n)),
            Term::QualifiedRef(entity, field) => {
                let var_name = join3(entity.as_str(), ".", field.as_str());
                let missing = join2("Undefined qualified reference: ", var_name.as_str());
                self.lookup_name(var_name.as_str(), missing)
            },
        }
    }

    /// Whether an expression holds: see `expression_holds`.
    fn evaluate_expression(&self, expression: &Expression) -> (r: Result<bool, RuleEngineError>)
        requires
            self.wf(),
        ensures
            res_bool(r) == expression_holds(self.vars_v(), self.facts_v(), *expression),
    {
        match expression {
            Expression::Comparison { left, op, right } => {
                let left_value = match self.get_term_value(left) {
                    Ok(v) => v,
                    Err(e) => return Err(e),
                };
                let right_value = match self.get_term_value(right) {
                    Ok(v) => v,
                    Err(e) => return Err(e),
                };
                match op {
                    Comparator::Equal => Ok(value_eq(&left_value, &right_value)),
                    Comparator::NotEqual => Ok(!value_eq(&left_value, &right_value)),
                    _ => {
                        let nums = match (&left_value, &right_value) {
                            (Value::Num(a), Value::Num(b)) => Some((*a, *b)),
                            _ => None,
                        };
                        match nums {
                            Some((a, b)) => Ok(
                                match op {
                                    Comparator::Greater => a > b,
                                    Comparator::Less => a < b,
                                    Comparator::GreaterEqual => a >= b,
                                    _ => a <= b,
                                },
                            ),
                            None => Err(RuleEngineError::InvalidComparison(*op, left_value, right_value)),
                        }
                    },
                }
            },
            Expression::Predicate(_) => Ok(true),
        }
    }

    /// Whether a rule condition holds in the current context: see `condition_holds`.
    pub fn match_rule_condition(&self, condition: &Condition) -> (r: Result<bool, RuleEngineError>)
        requires
            self.wf(),
        ensures
            res_bool(r) == condition_holds(self.vars_v(), self.facts_v(), *condition),
        decreases condition,
    {
        match condition {
            Condition::Expression(expr) => self.evaluate_expression(expr),
            Condition::LogicalOp(left, op, right) => {
                let left_result = match self.match_rule_condition(left) {
                    Ok(b) => b,
                    Err(e) => return Err(e),
                };
                let right_result = match self.match_rule_condition(right) {
                    Ok(b) => b,
                    Err(e) => return Err(e),
                };
                match op {
                    LogicalOp::And => Ok(left_result && right_result),
                    LogicalOp::Or => Ok(left_result || right_result),
                }
            },
        }
    }
}

} // verus!
