//! The parsed program that semantic analysis reads: entities, rules, flows and
//! constraints, with the actions of rules and flows.
use vstd::prelude::*;
use crate::rule_engine::condition::{Condition, Predicate, Term};

verus! {

/// An assignment of a term to a named variable.
#[derive(Debug)]
pub struct Assignment {
    pub variable: String,
    pub value: Term,
}

/// `if condition then ... else ...`.
#[derive(Debug)]
pub struct IfAction {
    pub condition: Condition,
    pub then_actions: Vec<Action>,
    pub else_actions: Option<Vec<Action>>,
}

/// A loop over a body of actions.
#[derive(Debug)]
pub struct LoopAction {
    pub actions: Vec<Action>,
}

/// `halt`.
#[derive(Debug)]
pub struct HaltAction;

#[derive(Debug)]
pub enum ControlAction {
    If(IfAction),
    Loop(LoopAction),
    Halt(HaltAction),
}

/// What a rule or a flow does: call a predicate, assign, or control the flow.
#[derive(Debug)]
pub enum Action {
    Predicate(Predicate),
    Assignment(Assignment),
    Control(ControlAction),
}

/// An entity with the names of its fields.
#[derive(Debug)]
pub struct EntityDef {
    pub name: String,
    pub fields: Vec<String>,
}

/// `rule name: if condition then actions`.
#[derive(Debug)]
pub struct RuleDef {
    pub name: String,
    pub condition: Condition,
    pub actions: Vec<Action>,
}

/// A named sequence of actions.
#[derive(Debug)]
pub struct FlowDef {
    pub name: String,
    pub actions: Vec<Action>,
}

/// A named condition that must hold.
#[derive(Debug)]
pub struct ConstraintDef {
    pub name: String,
    pub condition: Condition,
}

#[derive(Debug)]
pub enum Definition {
    Entity(EntityDef),
    Rule(RuleDef),
    Flow(FlowDef),
    Constraint(ConstraintDef),
}

/// A program: its definitions in order.
#[derive(Debug)]
pub struct Program {
    pub definitions: Vec<Definition>,
}

impl Definition {
    /// The name the definition declares.
    pub open spec fn spec_name(&self) -> Seq<char> {
        match self {
            Definition::Entity(e) => e.name@,
            Definition::Rule(r) => r.name@,
            Definition::Flow(f) => f.name@,
            Definition::Constraint(c) => c.name@,
        }
    }

    pub fn name(&self) -> (s: &String)
        ensures
            s@ == self.spec_name(),
    {
        match self {
            Definition::Entity(e) => &e.name,
            Definition::Rule(r) => &r.name,
            Definition::Flow(f) => &f.name,
            Definition::Constraint(c) => &c.name,
        }
    }
}

} // verus!
