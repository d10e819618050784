//! Type errors and the type checker's state.
use vstd::prelude::*;
use crate::maps::{copy_texts, views};
use crate::rule_engine::condition::{Condition, Expression, Predicate, Term};
use crate::rule_engine::types::Comparator;
use crate::semantic::program::{Action, Assignment, ControlAction, Definition, Program};
use crate::semantic::resolver::{Resolver, at_text, append_at, unknown_at, unknown_location};
use crate::semantic::scope::Visible;
use crate::semantic::symbol::SourceLocation;
use crate::semantic::types::{KindV, TypeDescriptor, TypeKind, TypeV, debug_type, debug_type_string};
use crate::text::join3;

verus! {

#[derive(Debug)]
pub enum TypeError {
    TypeMismatch { expected: TypeDescriptor, actual: TypeDescriptor, location: SourceLocation },
    InvalidOperator { operator: String, left_type: TypeDescriptor, right_type: TypeDescriptor, location: SourceLocation },
    InvalidUnaryOperator { operator: String, operand_type: TypeDescriptor, location: SourceLocation },
    UnknownType { name: String, location: SourceLocation },
    InvalidAssignment { target_type: TypeDescriptor, value_type: TypeDescriptor, location: SourceLocation },
}

impl TypeError {
    pub open spec fn spec_message(&self) -> Seq<char> {
        match self {
            TypeError::TypeMismatch { expected, actual, location } =>
                "Type mismatch: expected "@ + debug_type(expected@) + ", found "@ + debug_type(actual@) + at_text(*location),
            TypeError::InvalidOperator { operator, left_type, right_type, location } =>
                "Invalid operator '"@ + operator@ + "' for types "@ + debug_type(left_type@) + " and "@ + debug_type(right_type@) + at_text(*location),
            TypeError::InvalidUnaryOperator { operator, operand_type, location } =>
                "Invalid unary operator '"@ + operator@ + "' for type "@ + debug_type(operand_type@) + at_text(*location),
            TypeError::UnknownType { name, location } =>
                "Unknown type '"@ + name@ + "',"@ + at_text(*location),
            TypeError::InvalidAssignment { target_type, value_type, location } =>
                "Cannot assign value of type "@ + debug_type(value_type@) + " to target of type "@ + debug_type(target_type@) + at_text(*location),
        }
    }

    pub fn message(&self) -> (s: String)
        ensures
            s@ == self.spec_message(),
    {
        match self {
            TypeError::TypeMismatch { expected, actual, location } => {
                let mut s = "Type mismatch: expected ".to_owned();
                s.append(debug_type_string(expected).as_str());
                s.append(", found ");
                s.append(debug_type_string(actual).as_str());
                append_at(&mut s, location);
                s
            },
            TypeError::InvalidOperator { operator, left_type, right_type, location } => {
                let mut s = join3("Invalid operator '", operator.as_str(), "' for types ");
                s.append(debug_type_string(left_type).as_str());
                s.append(" and ");
                s.append(debug_type_string(right_type).as_str());
                append_at(&mut s, location);
                s
            },
            TypeError::InvalidUnaryOperator { operator, operand_type, location } => {
                let mut s = join3("Invalid unary operator '", operator.as_str(), "' for type ");
                s.append(debug_type_string(operand_type).as_str());
                append_at(&mut s, location);
                s
            },
            TypeError::UnknownType { name, location } => {
                let mut s = join3("Unknown type '", name.as_str(), "',");
                append_at(&mut s, location);
                s
            },
            TypeError::InvalidAssignment { target_type, value_type, location } => {
                let mut s = "Cannot assign value of type ".to_owned();
                s.append(debug_type_string(value_type).as_str());
                s.append(" to target of type ");
                s.append(debug_type_string(target_type).as_str());
                append_at(&mut s, location);
                s
            },
        }
    }
}

/// A type of the given kind, without name or parameters.
pub open spec fn simple(k: KindV) -> TypeV {
    TypeV { kind: k, name: None, params: seq![] }
}

pub open spec fn mismatch_message(expected: TypeV, actual: TypeV) -> Seq<char> {
    "Type mismatch: expected "@ + debug_type(expected) + ", found "@ + debug_type(actual) + unknown_at()
}

pub open spec fn operator_message(op: Seq<char>, left: TypeV, right: TypeV) -> Seq<char> {
    "Invalid operator '"@ + op + "' for types "@ + debug_type(left) + " and "@ + debug_type(right) + unknown_at()
}

pub open spec fn assignment_message(target: TypeV, value: TypeV) -> Seq<char> {
    "Cannot assign value of type "@ + debug_type(value) + " to target of type "@ + debug_type(target) + unknown_at()
}

/// The debug name of a comparison operator.
pub open spec fn comparator_name(op: Comparator) -> Seq<char> {
    match op {
        Comparator::Equal => "Equal"@,
        Comparator::NotEqual => "NotEqual"@,
        Comparator::Greater => "Greater"@,
        Comparator::Less => "Less"@,
        Comparator::GreaterEqual => "GreaterEqual"@,
        Comparator::LessEqual => "LessEqual"@,
    }
}

fn comparator_text(op: Comparator) -> (s: String)
    ensures
        s@ == comparator_name(op),
{
    match op {
        Comparator::Equal => "Equal".to_owned(),
        Comparator::NotEqual => "NotEqual".to_owned(),
        Comparator::Greater => "Greater".to_owned(),
        Comparator::Less => "Less".to_owned(),
        Comparator::GreaterEqual => "GreaterEqual".to_owned(),
        Comparator::LessEqual => "LessEqual".to_owned(),
    }
}

pub open spec fn is_numeric_type(t: TypeV) -> bool {
    t.kind is Int || t.kind is Float
}

/// An error unless the type is boolean.
pub open spec fn bool_check(t: TypeV) -> Seq<Seq<char>> {
    if t.kind is Bool {
        seq![]
    } else {
        seq![mismatch_message(simple(KindV::Bool), t)]
    }
}

/// The type of a term and its errors: a name has its symbol's type, a number
/// `Int`, an entity's field `Sym`; what does not resolve is `Void`, with an error.
pub open spec fn tc_term(g: Visible, t: Term) -> (TypeV, Seq<Seq<char>>) {
    match t {
        Term::Identifier(n) => if g.contains_key(n@) {
            (g[n@].1, seq![])
        } else {
            (simple(KindV::Void), seq!["Undeclared identifier '"@ + n@ + "'"@])
        },
        Term::Number(_) => (simple(KindV::Int), seq![]),
        Term::QualifiedRef(e, _) => if g.contains_key(e@) {
            (simple(KindV::Sym), seq![])
        } else {
            (simple(KindV::Void), seq!["Undeclared entity '"@ + e@ + "'"@])
        },
    }
}

pub open spec fn tc_terms(g: Visible, ts: Seq<Term>) -> Seq<Seq<char>>
    decreases ts.len(),
{
    if ts.len() == 0 {
        seq![]
    } else {
        tc_terms(g, ts.subrange(0, ts.len() - 1)) + tc_term(g, ts[ts.len() - 1]).1
    }
}

/// A predicate must resolve; its arguments are checked; it is `Void`.
pub open spec fn tc_pred(g: Visible, p: Predicate) -> Seq<Seq<char>> {
    (if g.contains_key(p.name@) { seq![] } else { seq!["Unknown predicate '"@ + p.name@ + "'"@] }) + tc_terms(g, p.arguments@)
}

/// A comparison is `Bool`: equality needs equal types, an ordering numeric and
/// equal types. A predicate is `Void`.
pub open spec fn tc_expr(g: Visible, e: Expression) -> (TypeV, Seq<Seq<char>>) {
    match e {
        Expression::Comparison { left, op, right } => {
            let (lt, le) = tc_term(g, left);
            let (rt, re) = tc_term(g, right);
            let same = if lt != rt { seq![mismatch_message(lt, rt)] } else { seq![] };
            let checks = match op {
                Comparator::Equal | Comparator::NotEqual => same,
                _ => (if !is_numeric_type(lt) || !is_numeric_type(rt) {
                    seq![operator_message(comparator_name(op), lt, rt)]
                } else {
                    seq![]
                }) + same,
            };
            (simple(KindV::Bool), le + re + checks)
        },
        Expression::Predicate(p) => (simple(KindV::Void), tc_pred(g, p)),
    }
}

/// The type of a condition and its errors: both sides of a logical operator must be boolean.
pub open spec fn tc_cond(g: Visible, c: Condition) -> (TypeV, Seq<Seq<char>>)
    decreases c,
{
    match c {
        Condition::Expression(e) => tc_expr(g, e),
        Condition::LogicalOp(l, _, r) => {
            let (lt, le) = tc_cond(g, *l);
            let (rt, re) = tc_cond(g, *r);
            (simple(KindV::Bool), le + re + bool_check(lt) + bool_check(rt))
        },
    }
}

/// The errors of a condition that must be boolean.
pub open spec fn tc_bool_cond(g: Visible, c: Condition) -> Seq<Seq<char>> {
    tc_cond(g, c).1 + bool_check(tc_cond(g, c).0)
}

pub open spec fn tc_action(g: Visible, a: Action) -> Seq<Seq<char>>
    decreases a,
{
    match a {
        Action::Predicate(p) => tc_pred(g, p),
        Action::Assignment(x) => {
            let (vt, ve) = tc_term(g, x.value);
            ve + if g.contains_key(x.variable@) {
                if g[x.variable@].1 == vt { seq![] } else { seq![assignment_message(g[x.variable@].1, vt)] }
            } else {
                seq!["Cannot assign to undeclared variable '"@ + x.variable@ + "'"@]
            }
        },
        Action::Control(ControlAction::If(i)) => tc_bool_cond(g, i.condition) + tc_actions(g, i.then_actions@) + match i.else_actions {
            Some(e) => tc_actions(g, e@),
            None => seq![],
        },
        Action::Control(ControlAction::Loop(l)) => tc_actions(g, l.actions@),
        Action::Control(ControlAction::Halt(_)) => seq![],
    }
}

pub open spec fn tc_actions(g: Visible, s: Seq<Action>) -> Seq<Seq<char>>
    decreases s,
{
    if s.len() == 0 {
        seq![]
    } else {
        tc_actions(g, s.subrange(0, s.len() - 1)) + tc_action(g, s[s.len() - 1])
    }
}

/// The type errors of a definition.
pub open spec fn tc_def(g: Visible, d: Definition) -> Seq<Seq<char>> {
    match d {
        Definition::Entity(_) => seq![],
        Definition::Rule(r) => tc_bool_cond(g, r.condition) + tc_actions(g, r.actions@),
        Definition::Flow(f) => tc_actions(g, f.actions@),
        Definition::Constraint(c) => tc_bool_cond(g, c.condition),
    }
}

pub open spec fn tc_defs(g: Visible, ds: Seq<Definition>) -> Seq<Seq<char>>
    decreases ds.len(),
{
    if ds.len() == 0 {
        seq![]
    } else {
        tc_defs(g, ds.subrange(0, ds.len() - 1)) + tc_def(g, ds[ds.len() - 1])
    }
}

/// The type checker's resolver and the errors it found.
#[derive(Debug, Clone)]
pub struct TypeChecker {
    resolver: Resolver,
    errors: Vec<String>,
}

impl TypeChecker {
    pub closed spec fn error_list(&self) -> Seq<String> {
        self.errors@
    }

    /// The errors found so far.
    pub fn errors(&self) -> (e: &[String])
        ensures
            e@ == self.error_list(),
    {
        self.errors.as_slice()
    }

    pub closed spec fn resolver_spec(&self) -> Resolver {
        self.resolver
    }

    pub fn new(resolver: Resolver) -> (t: Self)
        ensures
            t.resolver_spec() == resolver,
            t.error_list() == Seq::<String>::empty(),
    {
        TypeChecker { resolver, errors: Vec::new() }
    }

    /// The texts of the errors found so far.
    pub open spec fn errs(&self) -> Seq<Seq<char>> {
        views(self.error_list())
    }

    /// What names resolve to from the resolver's current scope.
    pub open spec fn names(&self) -> Visible {
        self.resolver_spec().scopes().visible()
    }

    fn push_error(&mut self, e: String)
        ensures
            final(self).errs() == old(self).errs().push(e@),
            final(self).resolver_spec() == old(self).resolver_spec(),
    {
        let ghost before = self.errs();
        self.errors.push(e);
        assert(self.errs() =~= before.push(e@));
    }

    fn push_mismatch(&mut self, expected: TypeDescriptor, actual: TypeDescriptor)
        ensures
            final(self).errs() == old(self).errs().push(mismatch_message(expected@, actual@)),
            final(self).resolver_spec() == old(self).resolver_spec(),
    {
        let message = TypeError::TypeMismatch { expected, actual, location: unknown_location() }.message();
        self.push_error(message);
    }

    /// Records an error unless the type is boolean.
    fn require_boolean(&mut self, ty: TypeDescriptor)
        ensures
            final(self).errs() == old(self).errs() + bool_check(ty@),
            final(self).resolver_spec() == old(self).resolver_spec(),
    {
        if !crate::semantic::types::TypeChecker::validate_boolean(&ty) {
            self.push_mismatch(TypeDescriptor::new(TypeKind::Bool), ty);
        }
        assert(self.errs() =~= old(self).errs() + bool_check(ty@));
    }

    fn check_term(&mut self, term: &Term) -> (t: TypeDescriptor)
        requires
            old(self).resolver_spec().wf(),
        ensures
            final(self).resolver_spec() == old(self).resolver_spec(),
            t@ == tc_term(old(self).names(), *term).0,
            final(self).errs() == old(self).errs() + tc_term(old(self).names(), *term).1,
    {
        let t = match term {
            Term::Identifier(name) => {
                let found = match self.resolver.scope_manager().resolve_symbol(name.as_str()) {
                    Some(symbol) => Some(symbol.ty.clone()),
                    None => None,
                };
                match found {
                    Some(ty) => ty,
                    None => {
                        self.push_error(join3("Undeclared identifier '", name.as_str(), "'"));
                        TypeDescriptor::new(TypeKind::Void)
                    },
                }
            },
            Term::Number(_) => TypeDescriptor::new(TypeKind::Int),
            Term::QualifiedRef(entity, _) => {
                if self.resolver.scope_manager().resolve_symbol(entity.as_str()).is_some() {
                    TypeDescriptor::new(TypeKind::Sym)
                } else {
                    self.push_error(join3("Undeclared entity '", entity.as_str(), "'"));
                    TypeDescriptor::new(TypeKind::Void)
                }
            },
        };
        assert(self.errs() =~= old(self).errs() + tc_term(old(self).names(), *term).1);
        t
    }

    fn check_predicate(&mut self, predicate: &Predicate) -> (t: TypeDescriptor)
        requires
            old(self).resolver_spec().wf(),
        ensures
            final(self).resolver_spec() == old(self).resolver_spec(),
            t@ == simple(KindV::Void),
            final(self).errs() == old(self).errs() + tc_pred(old(self).names(), *predicate),
    {
        let ghost g = old(self).names();
        if self.resolver.scope_manager().resolve_symbol(predicate.name.as_str()).is_none() {
            self.push_error(join3("Unknown predicate '", predicate.name.as_str(), "'"));
        }
        let ghost e1 = self.errs();
        let args = &predicate.arguments;
        let mut i: usize = 0;
        assert(args@.subrange(0, 0) =~= Seq::<Term>::empty());
        while i < args.len()
            invariant
                self.resolver_spec().wf(),
                self.resolver_spec() == old(self).resolver_spec(),
                g == old(self).names(),
                args == &predicate.arguments,
                i <= args@.len(),
                self.errs() == e1 + tc_terms(g, args@.subrange(0, i as int)),
            decreases args@.len() - i,
        {
            self.check_term(&args[i]);
            assert(args@.subrange(0, i + 1).subrange(0, i as int) =~= args@.subrange(0, i as int));
            i += 1;
        }
        assert(args@.subrange(0, args@.len() as int) =~= args@);
        assert(self.errs() =~= old(self).errs() + tc_pred(g, *predicate));
        TypeDescriptor::new(TypeKind::Void)
    }

    fn check_expression(&mut self, expression: &Expression) -> (t: TypeDescriptor)
        requires
            old(self).resolver_spec().wf(),
        ensures
            final(self).resolver_spec() == old(self).resolver_spec(),
            t@ == tc_expr(old(self).names(), *expression).0,
            final(self).errs() == old(self).errs() + tc_expr(old(self).names(), *expression).1,
    {
        match expression {
            Expression::Comparison { left, op, right } => {
                let left_type = self.check_term(left);
                let right_type = self.check_term(right);
                let ghost e2 = self.errs();
                match op {
                    Comparator::Equal | Comparator::NotEqual => {
                        if left_type != right_type {
                            self.push_mismatch(left_type.clone(), right_type);
                        }
                    },
                    _ => {
                        if !crate::semantic::types::TypeChecker::validate_numeric(&left_type)
                            || !crate::semantic::types::TypeChecker::validate_numeric(&right_type) {
                            let message = TypeError::InvalidOperator {
                                operator: comparator_text(*op),
                                left_type: left_type.clone(),
                                right_type: right_type.clone(),
                                location: unknown_location(),
                            }.message();
                            self.push_error(message);
                        }
                        if left_type != right_type {
                            self.push_mismatch(left_type.clone(), right_type);
                        }
                    },
                }
                assert(self.errs() =~= old(self).errs() + tc_expr(old(self).names(), *expression).1);
                TypeDescriptor::new(TypeKind::Bool)
            },
            Expression::Predicate(predicate) => self.check_predicate(predicate),
        }
    }

    fn check_condition(&mut self, condition: &Condition) -> (t: TypeDescriptor)
        requires
            old(self).resolver_spec().wf(),
        ensures
            final(self).resolver_spec() == old(self).resolver_spec(),
            t@ == tc_cond(old(self).names(), *condition).0,
            final(self).errs() == old(self).errs() + tc_cond(old(self).names(), *condition).1,
        decreases condition,
    {
        match condition {
            Condition::Expression(expr) => self.check_expression(expr),
            Condition::LogicalOp(left, _, right) => {
                let left_type = self.check_condition(left);
                let right_type = self.check_condition(right);
                self.require_boolean(left_type);
                self.require_boolean(right_type);
                assert(self.errs() =~= old(self).errs() + tc_cond(old(self).names(), *condition).1);
                TypeDescriptor::new(TypeKind::Bool)
            },
        }
    }

    /// Checks a condition that must be boolean.
    fn check_boolean_condition(&mut self, condition: &Condition)
        requires
            old(self).resolver_spec().wf(),
        ensures
            final(self).resolver_spec() == old(self).resolver_spec(),
            final(self).errs() == old(self).errs() + tc_bool_cond(old(self).names(), *condition),
    {
        let condition_type = self.check_condition(condition);
        self.require_boolean(condition_type);
        assert(self.errs() =~= old(self).errs() + tc_bool_cond(old(self).names(), *condition));
    }

    fn check_assignment(&mut self, assignment: &Assignment)
        requires
            old(self).resolver_spec().wf(),
        ensures
            final(self).resolver_spec() == old(self).resolver_spec(),
            final(self).errs() == old(self).errs() + tc_action(old(self).names(), Action::Assignment(*assignment)),
    {
        let value_type = self.check_term(&assignment.value);
        let target = match self.resolver.scope_manager().resolve_symbol(assignment.variable.as_str()) {
            Some(symbol) => Some(symbol.ty.clone()),
            None => None,
        };
        match target {
            Some(target_type) => {
                if !crate::semantic::types::TypeChecker::validate_compatibility(&target_type, &value_type) {
                    let message = TypeError::InvalidAssignment {
                        target_type,
                        value_type,
                        location: unknown_location(),
                    }.message();
                    self.push_error(message);
                }
            },
            None => {
                self.push_error(join3("Cannot assign to undeclared variable '", assignment.variable.as_str(), "'"));
            },
        }
        assert(self.errs() =~= old(self).errs() + tc_action(old(self).names(), Action::Assignment(*assignment)));
    }

    fn check_action_list(&mut self, actions: &Vec<Action>)
        requires
            old(self).resolver_spec().wf(),
        ensures
            final(self).resolver_spec() == old(self).resolver_spec(),
            final(self).errs() == old(self).errs() + tc_actions(old(self).names(), actions@),
        decreases actions,
    {
        let ghost g = old(self).names();
        let mut i: usize = 0;
        assert(actions@.subrange(0, 0) =~= Seq::<Action>::empty());
        while i < actions.len()
            invariant
                self.resolver_spec().wf(),
                self.resolver_spec() == old(self).resolver_spec(),
                g == old(self).names(),
                i <= actions@.len(),
                self.errs() == old(self).errs() + tc_actions(g, actions@.subrange(0, i as int)),
            decreases actions@.len() - i,
        {
            self.check_action(&actions[i]);
            assert(actions@.subrange(0, i + 1).subrange(0, i as int) =~= actions@.subrange(0, i as int));
            i += 1;
        }
        assert(actions@.subrange(0, actions@.len() as int) =~= actions@);
    }

    fn check_action(&mut self, action: &Action)
        requires
            old(self).resolver_spec().wf(),
        ensures
            final(self).resolver_spec() == old(self).resolver_spec(),
            final(self).errs() == old(self).errs() + tc_action(old(self).names(), *action),
        decreases action,
    {
        match action {
            Action::Predicate(predicate) => {
                self.check_predicate(predicate);
            },
            Action::Assignment(assignment) => self.check_assignment(assignment),
            Action::Control(ControlAction::If(if_action)) => {
                self.check_boolean_condition(&if_action.condition);
                self.check_action_list(&if_action.then_actions);
                match &if_action.else_actions {
                    Some(else_actions) => self.check_action_list(else_actions),
                    None => {},
                }
            },
            Action::Control(ControlAction::Loop(loop_action)) => self.check_action_list(&loop_action.actions),
            Action::Control(ControlAction::Halt(_)) => {},
        }
        assert(self.errs() =~= old(self).errs() + tc_action(old(self).names(), *action));
    }

    /// Checks a definition; a rule's and a flow's actions are checked in a scope of their own.
    fn check_definition(&mut self, definition: &Definition)
        requires
            old(self).resolver_spec().ready(),
            old(self).resolver_spec().scopes().scope_seq().len() < u32::MAX,
        ensures
            final(self).resolver_spec().ready(),
            final(self).resolver_spec().errs() == old(self).resolver_spec().errs(),
            final(self).resolver_spec().scopes().scope_seq().len() <= old(self).resolver_spec().scopes().scope_seq().len() + 1,
            final(self).resolver_spec().scopes().table() == old(self).resolver_spec().scopes().table(),
            final(self).resolver_spec().scopes().global_names() == old(self).resolver_spec().scopes().global_names(),
            final(self).errs() == old(self).errs() + tc_def(old(self).resolver_spec().scopes().global_names(), *definition),
    {
        proof {
            self.resolver_spec().scopes().lemma_visible_global();
        }
        match definition {
            Definition::Entity(_) => {
                assert(self.errs() =~= old(self).errs() + tc_def(old(self).resolver_spec().scopes().global_names(), *definition));
            },
            Definition::Rule(rule_def) => {
                self.resolver.enter_body_scope();
                self.check_boolean_condition(&rule_def.condition);
                self.check_action_list(&rule_def.actions);
                self.resolver.exit_body_scope();
            },
            Definition::Flow(flow_def) => {
                self.resolver.enter_body_scope();
                self.check_action_list(&flow_def.actions);
                self.resolver.exit_body_scope();
            },
            Definition::Constraint(constraint_def) => self.check_boolean_condition(&constraint_def.condition),
        }
    }

    /// Type checks a program against the names its resolver holds: conditions
    /// must be boolean, comparisons well typed, names declared and assignments
    /// compatible. The errors found are added to the checker's; the result is
    /// `Ok` exactly when it then holds none, else all of them.
    pub fn check_program(&mut self, program: &Program) -> (r: Result<(), Vec<String>>)
        requires
            old(self).resolver_spec().ready(),
            old(self).resolver_spec().scopes().scope_seq().len() + program.definitions@.len() < u32::MAX,
        ensures
            final(self).resolver_spec().ready(),
            final(self).resolver_spec().errs() == old(self).resolver_spec().errs(),
            final(self).resolver_spec().scopes().table() == old(self).resolver_spec().scopes().table(),
            final(self).resolver_spec().scopes().global_names() == old(self).resolver_spec().scopes().global_names(),
            final(self).resolver_spec().scopes().scope_seq().len() <= old(self).resolver_spec().scopes().scope_seq().len() + program.definitions@.len(),
            final(self).errs() == old(self).errs() + tc_defs(old(self).resolver_spec().scopes().global_names(), program.definitions@),
            match r {
                Ok(()) => final(self).errs().len() == 0,
                Err(e) => final(self).errs().len() > 0 && views(e@) == final(self).errs(),
            },
    {
        let defs = &program.definitions;
        let ghost g = old(self).resolver_spec().scopes().global_names();
        let ghost s0 = old(self).resolver_spec().scopes().scope_seq().len();
        let mut i: usize = 0;
        assert(defs@.subrange(0, 0) =~= Seq::<Definition>::empty());
        while i < defs.len()
            invariant
                self.resolver_spec().ready(),
                self.resolver_spec().errs() == old(self).resolver_spec().errs(),
                self.resolver_spec().scopes().table() == old(self).resolver_spec().scopes().table(),
                self.resolver_spec().scopes().global_names() == g,
                g == old(self).resolver_spec().scopes().global_names(),
                s0 == old(self).resolver_spec().scopes().scope_seq().len(),
                s0 + defs@.len() < u32::MAX,
                self.resolver_spec().scopes().scope_seq().len() <= s0 + i,
                defs == &program.definitions,
                i <= defs@.len(),
                self.errs() == old(self).errs() + tc_defs(g, defs@.subrange(0, i as int)),
            decreases defs@.len() - i,
        {
            self.check_definition(&defs[i]);
            assert(defs@.subrange(0, i + 1).subrange(0, i as int) =~= defs@.subrange(0, i as int));
            i += 1;
        }
        assert(defs@.subrange(0, defs@.len() as int) =~= defs@);
        if self.errors.len() == 0 {
            Ok(())
        } else {
            Err(copy_texts(&self.errors))
        }
    }

    pub fn resolver(&self) -> (r: &Resolver)
        ensures
            *r == self.resolver_spec(),
    {
        &self.resolver
    }

    pub fn resolver_mut(&mut self) -> (r: &mut Resolver)
        ensures
            *r == old(self).resolver_spec(),
            final(self).resolver_spec() == *final(r),
            final(self).error_list() == old(self).error_list(),
    {
        &mut self.resolver
    }
}

} // verus!
