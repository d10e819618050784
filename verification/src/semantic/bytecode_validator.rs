//! Validation that types and programs can be compiled to bytecode.
use vstd::prelude::*;
use crate::maps::{copy_texts, views};
use crate::rule_engine::condition::{Condition, Expression, Predicate, Term};
use crate::semantic::program::{Action, ControlAction, Definition, EntityDef, Program};
use crate::semantic::resolver::{Resolver, at_text, append_at, unknown_at, unknown_location};
use crate::semantic::scope::Visible;
use crate::semantic::symbol::SourceLocation;
use crate::semantic::type_checker::{TypeChecker, tc_pred, tc_term, tc_defs};
use crate::semantic::types::{TypeDescriptor, TypeKind, KindV, TypeV, debug_type, debug_type_string};
use crate::text::join3;

verus! {

#[derive(Debug)]
pub enum BytecodeValidationError {
    UnsupportedType { ty: TypeDescriptor, location: SourceLocation },
    DynamicTypeRequired { description: String, location: SourceLocation },
    StackUnderflowRisk { operation: String, location: SourceLocation },
    InvalidOpcode { opcode: String, location: SourceLocation },
}

impl BytecodeValidationError {
    pub open spec fn spec_message(&self) -> Seq<char> {
        match self {
            BytecodeValidationError::UnsupportedType { ty, location } =>
                "Unsupported type "@ + debug_type(ty@) + " for bytecode generation"@ + at_text(*location),
            BytecodeValidationError::DynamicTypeRequired { description, location } =>
                "Dynamic type required: "@ + description@ + at_text(*location),
            BytecodeValidationError::StackUnderflowRisk { operation, location } =>
                "Stack underflow risk in operation '"@ + operation@ + "'"@ + at_text(*location),
            BytecodeValidationError::InvalidOpcode { opcode, location } =>
                "Invalid opcode '"@ + opcode@ + "'"@ + at_text(*location),
        }
    }

    pub fn message(&self) -> (s: String)
        ensures
            s@ == self.spec_message(),
    {
        match self {
            BytecodeValidationError::UnsupportedType { ty, location } => {
                let mut s = "Unsupported type ".to_owned();
                s.append(debug_type_string(ty).as_str());
                s.append(" for bytecode generation");
                append_at(&mut s, location);
                s
            },
            BytecodeValidationError::DynamicTypeRequired { description, location } => {
                let mut s = crate::text::join2("Dynamic type required: ", description.as_str());
                append_at(&mut s, location);
                s
            },
            BytecodeValidationError::StackUnderflowRisk { operation, location } => {
                let mut s = join3("Stack underflow risk in operation '", operation.as_str(), "'");
                append_at(&mut s, location);
                s
            },
            BytecodeValidationError::InvalidOpcode { opcode, location } => {
                let mut s = join3("Invalid opcode '", opcode.as_str(), "'");
                append_at(&mut s, location);
                s
            },
        }
    }
}

/// Whether a type can be represented in bytecode: every kind can, lists and
/// optionals when their inner type can.
pub open spec fn bytecode_representable(t: TypeV) -> bool
    decreases t,
{
    match t.kind {
        KindV::List(inner) => bytecode_representable(*inner),
        KindV::Optional(inner) => bytecode_representable(*inner),
        _ => true,
    }
}

/// The bytecode representation of a kind of type.
pub open spec fn bytecode_name(k: KindV) -> Seq<char> {
    match k {
        KindV::Int => "I32"@,
        KindV::Float => "F64"@,
        KindV::Bool => "BOOL"@,
        KindV::Str => "STR"@,
        KindV::Sym => "SYM"@,
        KindV::Num => "NUM"@,
        KindV::Ref => "REF"@,
        KindV::Vec => "VEC"@,
        KindV::Ctx => "CTX"@,
        KindV::Entity(_) => "ENTITY_REF"@,
        KindV::List(_) => "LIST"@,
        KindV::Optional(_) => "OPTIONAL"@,
        KindV::Void => "VOID"@,
    }
}

/// The error for an entity with a field of empty name.
pub open spec fn empty_field_message(entity: Seq<char>) -> Seq<char> {
    "Dynamic type required: "@ + ("Entity '"@ + entity + "' has a field with an empty name"@) + unknown_at()
}

/// One error per field of empty name.
pub open spec fn bv_fields(entity: Seq<char>, fs: Seq<String>) -> Seq<Seq<char>>
    decreases fs.len(),
{
    if fs.len() == 0 {
        seq![]
    } else {
        bv_fields(entity, fs.subrange(0, fs.len() - 1)) + if fs[fs.len() - 1]@.len() == 0 {
            seq![empty_field_message(entity)]
        } else {
            seq![]
        }
    }
}

/// The names of a condition must resolve.
pub open spec fn bv_cond(g: Visible, c: Condition) -> Seq<Seq<char>>
    decreases c,
{
    match c {
        Condition::Expression(Expression::Comparison { left, op, right }) => tc_term(g, left).1 + tc_term(g, right).1,
        Condition::Expression(Expression::Predicate(p)) => tc_pred(g, p),
        Condition::LogicalOp(l, _, r) => bv_cond(g, *l) + bv_cond(g, *r),
    }
}

pub open spec fn bv_action(g: Visible, a: Action) -> Seq<Seq<char>>
    decreases a,
{
    match a {
        Action::Predicate(p) => tc_pred(g, p),
        Action::Assignment(x) => tc_term(g, x.value).1 + if g.contains_key(x.variable@) {
            seq![]
        } else {
            seq!["Cannot assign to undeclared variable '"@ + x.variable@ + "'"@]
        },
        Action::Control(ControlAction::If(i)) => bv_cond(g, i.condition) + bv_actions(g, i.then_actions@) + match i.else_actions {
            Some(e) => bv_actions(g, e@),
            None => seq![],
        },
        Action::Control(ControlAction::Loop(l)) => bv_actions(g, l.actions@),
        Action::Control(ControlAction::Halt(_)) => seq![],
    }
}

pub open spec fn bv_actions(g: Visible, s: Seq<Action>) -> Seq<Seq<char>>
    decreases s,
{
    if s.len() == 0 {
        seq![]
    } else {
        bv_actions(g, s.subrange(0, s.len() - 1)) + bv_action(g, s[s.len() - 1])
    }
}

/// What keeps a definition from compiling to bytecode.
pub open spec fn bv_def(g: Visible, d: Definition) -> Seq<Seq<char>> {
    match d {
        Definition::Entity(e) => bv_fields(e.name@, e.fields@),
        Definition::Rule(r) => bv_cond(g, r.condition) + bv_actions(g, r.actions@),
        Definition::Flow(f) => bv_actions(g, f.actions@),
        Definition::Constraint(c) => bv_cond(g, c.condition),
    }
}

pub open spec fn bv_defs(g: Visible, ds: Seq<Definition>) -> Seq<Seq<char>>
    decreases ds.len(),
{
    if ds.len() == 0 {
        seq![]
    } else {
        bv_defs(g, ds.subrange(0, ds.len() - 1)) + bv_def(g, ds[ds.len() - 1])
    }
}

#[derive(Debug)]
pub struct BytecodeValidator {
    resolver: Resolver,
    type_checker: TypeChecker,
    errors: Vec<String>,
}

impl BytecodeValidator {
    pub closed spec fn resolver_spec(&self) -> Resolver {
        self.resolver
    }

    pub closed spec fn type_checker_spec(&self) -> TypeChecker {
        self.type_checker
    }

    pub closed spec fn error_list(&self) -> Seq<String> {
        self.errors@
    }

    pub fn new(resolver: Resolver, type_checker: TypeChecker) -> (v: Self)
        ensures
            v.resolver_spec() == resolver,
            v.type_checker_spec() == type_checker,
            v.error_list() == Seq::<String>::empty(),
    {
        BytecodeValidator { resolver, type_checker, errors: Vec::new() }
    }

    /// The errors found so far.
    pub fn errors(&self) -> (e: &[String])
        ensures
            e@ == self.error_list(),
    {
        self.errors.as_slice()
    }

    pub fn validate_type_for_bytecode(&self, ty: &TypeDescriptor) -> (b: bool)
        ensures
            b == bytecode_representable(ty@),
        decreases ty,
    {
        match &ty.kind {
            TypeKind::List(inner) => self.validate_type_for_bytecode(inner),
            TypeKind::Optional(inner) => self.validate_type_for_bytecode(inner),
            _ => true,
        }
    }

    /// The bytecode representation of a type; every type has one.
    pub fn map_type_to_bytecode(&self, ty: &TypeDescriptor) -> (r: Option<&'static str>)
        ensures
            r matches Some(s) && s@ == bytecode_name(ty@.kind),
    {
        match &ty.kind {
            TypeKind::Int => {
                proof { reveal_strlit("I32"); }
                Some("I32")
            },
            TypeKind::Float => Some("F64"),
            TypeKind::Bool => Some("BOOL"),
            TypeKind::String => Some("STR"),
            TypeKind::Sym => Some("SYM"),
            TypeKind::Num => Some("NUM"),
            TypeKind::Ref => Some("REF"),
            TypeKind::Vec => Some("VEC"),
            TypeKind::Ctx => Some("CTX"),
            TypeKind::Entity(_) => Some("ENTITY_REF"),
            TypeKind::List(_) => Some("LIST"),
            TypeKind::Optional(_) => Some("OPTIONAL"),
            TypeKind::Void => Some("VOID"),
        }
    }

    /// The texts of the errors found so far.
    pub open spec fn errs(&self) -> Seq<Seq<char>> {
        views(self.error_list())
    }

    /// What names resolve to for the validator.
    pub open spec fn names(&self) -> Visible {
        self.resolver_spec().scopes().visible()
    }

    fn push_error(&mut self, e: String)
        ensures
            final(self).errs() == old(self).errs().push(e@),
            final(self).resolver_spec() == old(self).resolver_spec(),
            final(self).type_checker_spec() == old(self).type_checker_spec(),
    {
        let ghost before = self.errs();
        self.errors.push(e);
        assert(self.errs() =~= before.push(e@));
    }

    fn validate_entity(&mut self, entity_def: &EntityDef)
        ensures
            final(self).resolver_spec() == old(self).resolver_spec(),
            final(self).type_checker_spec() == old(self).type_checker_spec(),
            final(self).errs() == old(self).errs() + bv_fields(entity_def.name@, entity_def.fields@),
    {
        let fields = &entity_def.fields;
        let mut i: usize = 0;
        assert(fields@.subrange(0, 0) =~= Seq::<String>::empty());
        while i < fields.len()
            invariant
                self.resolver_spec() == old(self).resolver_spec(),
                self.type_checker_spec() == old(self).type_checker_spec(),
                fields == &entity_def.fields,
                i <= fields@.len(),
                self.errs() == old(self).errs() + bv_fields(entity_def.name@, fields@.subrange(0, i as int)),
            decreases fields@.len() - i,
        {
            let ghost before = self.errs();
            if fields[i].as_str().unicode_len() == 0 {
                let description = join3("Entity '", entity_def.name.as_str(), "' has a field with an empty name");
                let message = BytecodeValidationError::DynamicTypeRequired { description, location: unknown_location() }.message();
                self.push_error(message);
            }
            proof {
                assert(fields@.subrange(0, i + 1).subrange(0, i as int) =~= fields@.subrange(0, i as int));
                assert(fields@.subrange(0, i + 1)[i as int] == fields@[i as int]);
                assert(self.errs() =~= old(self).errs() + bv_fields(entity_def.name@, fields@.subrange(0, i + 1)));
            }
            i += 1;
        }
        assert(fields@.subrange(0, fields@.len() as int) =~= fields@);
    }

    fn validate_term(&mut self, term: &Term)
        requires
            old(self).resolver_spec().wf(),
        ensures
            final(self).resolver_spec() == old(self).resolver_spec(),
            final(self).type_checker_spec() == old(self).type_checker_spec(),
            final(self).errs() == old(self).errs() + tc_term(old(self).names(), *term).1,
    {
        match term {
            Term::Identifier(name) => {
                if self.resolver.scope_manager().resolve_symbol(name.as_str()).is_none() {
                    self.push_error(join3("Undeclared identifier '", name.as_str(), "'"));
                }
            },
            Term::Number(_) => {},
            Term::QualifiedRef(entity, _) => {
                if self.resolver.scope_manager().resolve_symbol(entity.as_str()).is_none() {
                    self.push_error(join3("Undeclared entity '", entity.as_str(), "'"));
                }
            },
        }
        assert(self.errs() =~= old(self).errs() + tc_term(old(self).names(), *term).1);
    }

    fn validate_predicate(&mut self, predicate: &Predicate)
        requires
            old(self).resolver_spec().wf(),
        ensures
            final(self).resolver_spec() == old(self).resolver_spec(),
            final(self).type_checker_spec() == old(self).type_checker_spec(),
            final(self).errs() == old(self).errs() + tc_pred(old(self).names(), *predicate),
    {
        let ghost g = old(self).names();
        if self.resolver.scope_manager().resolve_symbol(predicate.name.as_str()).is_none() {
            self.push_error(join3("Unknown predicate '", predicate.name.as_str(), "'"));
        }
        let ghost e1 = self.errs();
        let args = &predicate.arguments;
        let mut i: usize = 0;
        assert(args@.subrange(0, 0) =~= Seq::<Term>::empty());
        while i < args.len()
            invariant
                self.resolver_spec().wf(),
                self.resolver_spec() == old(self).resolver_spec(),
                self.type_checker_spec() == old(self).type_checker_spec(),
                g == old(self).names(),
                args == &predicate.arguments,
                i <= args@.len(),
                self.errs() == e1 + crate::semantic::type_checker::tc_terms(g, args@.subrange(0, i as int)),
            decreases args@.len() - i,
        {
            self.validate_term(&args[i]);
            assert(args@.subrange(0, i + 1).subrange(0, i as int) =~= args@.subrange(0, i as int));
            i += 1;
        }
        assert(args@.subrange(0, args@.len() as int) =~= args@);
        assert(self.errs() =~= old(self).errs() + tc_pred(g, *predicate));
    }

    fn validate_condition(&mut self, condition: &Condition)
        requires
            old(self).resolver_spec().wf(),
        ensures
            final(self).resolver_spec() == old(self).resolver_spec(),
            final(self).type_checker_spec() == old(self).type_checker_spec(),
            final(self).errs() == old(self).errs() + bv_cond(old(self).names(), *condition),
        decreases condition,
    {
        match condition {
            Condition::Expression(Expression::Comparison { left, op: _, right }) => {
                self.validate_term(left);
                self.validate_term(right);
            },
            Condition::Expression(Expression::Predicate(predicate)) => self.validate_predicate(predicate),
            Condition::LogicalOp(left, _, right) => {
                self.validate_condition(left);
                self.validate_condition(right);
            },
        }
    }

    fn validate_action_list(&mut self, actions: &Vec<Action>)
        requires
            old(self).resolver_spec().wf(),
        ensures
            final(self).resolver_spec() == old(self).resolver_spec(),
            final(self).type_checker_spec() == old(self).type_checker_spec(),
            final(self).errs() == old(self).errs() + bv_actions(old(self).names(), actions@),
        decreases actions,
    {
        let ghost g = old(self).names();
        let mut i: usize = 0;
        assert(actions@.subrange(0, 0) =~= Seq::<Action>::empty());
        while i < actions.len()
            invariant
                self.resolver_spec().wf(),
                self.resolver_spec() == old(self).resolver_spec(),
                self.type_checker_spec() == old(self).type_checker_spec(),
                g == old(self).names(),
                i <= actions@.len(),
                self.errs() == old(self).errs() + bv_actions(g, actions@.subrange(0, i as int)),
            decreases actions@.len() - i,
        {
            self.validate_action(&actions[i]);
            assert(actions@.subrange(0, i + 1).subrange(0, i as int) =~= actions@.subrange(0, i as int));
            i += 1;
        }
        assert(actions@.subrange(0, actions@.len() as int) =~= actions@);
    }

    fn validate_action(&mut self, action: &Action)
        requires
            old(self).resolver_spec().wf(),
        ensures
            final(self).resolver_spec() == old(self).resolver_spec(),
            final(self).type_checker_spec() == old(self).type_checker_spec(),
            final(self).errs() == old(self).errs() + bv_action(old(self).names(), *action),
        decreases action,
    {
        match action {
            Action::Predicate(predicate) => self.validate_predicate(predicate),
            Action::Assignment(assignment) => {
                self.validate_term(&assignment.value);
                if self.resolver.scope_manager().resolve_symbol(assignment.variable.as_str()).is_none() {
                    self.push_error(join3("Cannot assign to undeclared variable '", assignment.variable.as_str(), "'"));
                }
            },
            Action::Control(control_action) => self.validate_control_action(control_action),
        }
        assert(self.errs() =~= old(self).errs() + bv_action(old(self).names(), *action));
    }

    fn validate_control_action(&mut self, control_action: &ControlAction)
        requires
            old(self).resolver_spec().wf(),
        ensures
            final(self).resolver_spec() == old(self).resolver_spec(),
            final(self).type_checker_spec() == old(self).type_checker_spec(),
            final(self).errs() == old(self).errs() + bv_action(old(self).names(), Action::Control(*control_action)),
        decreases control_action,
    {
        match control_action {
            ControlAction::If(if_action) => {
                self.validate_condition(&if_action.condition);
                self.validate_action_list(&if_action.then_actions);
                match &if_action.else_actions {
                    Some(else_actions) => self.validate_action_list(else_actions),
                    None => {},
                }
            },
            ControlAction::Loop(loop_action) => self.validate_action_list(&loop_action.actions),
            ControlAction::Halt(_) => {},
        }
        assert(self.errs() =~= old(self).errs() + bv_action(old(self).names(), Action::Control(*control_action)));
    }

    fn validate_definition(&mut self, definition: &Definition)
        requires
            old(self).resolver_spec().wf(),
        ensures
            final(self).resolver_spec() == old(self).resolver_spec(),
            final(self).type_checker_spec() == old(self).type_checker_spec(),
            final(self).errs() == old(self).errs() + bv_def(old(self).names(), *definition),
    {
        match definition {
            Definition::Entity(entity_def) => self.validate_entity(entity_def),
            Definition::Rule(rule_def) => {
                self.validate_condition(&rule_def.condition);
                self.validate_action_list(&rule_def.actions);
            },
            Definition::Flow(flow_def) => self.validate_action_list(&flow_def.actions),
            Definition::Constraint(constraint_def) => self.validate_condition(&constraint_def.condition),
        }
    }

    /// Validates that a program can be compiled to bytecode: first its type
    /// checker checks it, and all of the checker's errors are taken over if it
    /// fails; then names must resolve for the validator and entity fields must be
    /// named. The result is `Ok` exactly when the validator then holds no error,
    /// else all of its errors.
    pub fn validate_program(&mut self, program: &Program) -> (r: Result<(), Vec<String>>)
        requires
            old(self).type_checker_spec().resolver_spec().ready(),
            old(self).type_checker_spec().resolver_spec().scopes().scope_seq().len() + program.definitions@.len() < u32::MAX,
            old(self).resolver_spec().wf(),
        ensures
            final(self).resolver_spec() == old(self).resolver_spec(),
            ({
                let tc0 = old(self).type_checker_spec();
                let checked = tc0.errs() + tc_defs(tc0.resolver_spec().scopes().global_names(), program.definitions@);
                final(self).errs() == old(self).errs() + checked + bv_defs(old(self).names(), program.definitions@)
            }),
            match r {
                Ok(()) => final(self).errs().len() == 0,
                Err(e) => final(self).errs().len() > 0 && views(e@) == final(self).errs(),
            },
    {
        let ghost tc0 = self.type_checker;
        match self.type_checker.check_program(program) {
            Ok(()) => {},
            Err(type_errors) => {
                let ghost before = self.errs();
                let mut i: usize = 0;
                while i < type_errors.len()
                    invariant
                        i <= type_errors@.len(),
                        self.resolver_spec() == old(self).resolver_spec(),
                        self.errs() == before + views(type_errors@).take(i as int),
                    decreases type_errors@.len() - i,
                {
                    self.push_error(type_errors[i].clone());
                    assert(views(type_errors@).take(i + 1) =~= views(type_errors@).take(i as int).push(type_errors@[i as int]@));
                    i += 1;
                }
                assert(views(type_errors@).take(type_errors@.len() as int) =~= views(type_errors@));
            },
        }
        proof {
            let checked = tc0.errs() + tc_defs(tc0.resolver_spec().scopes().global_names(), program.definitions@);
            assert(self.errs() =~= old(self).errs() + checked) by {
                if checked.len() == 0 {
                    assert(old(self).errs() + checked =~= old(self).errs());
                }
            }
        }
        let ghost e1 = self.errs();
        let ghost g = self.names();
        let defs = &program.definitions;
        let mut j: usize = 0;
        assert(defs@.subrange(0, 0) =~= Seq::<Definition>::empty());
        while j < defs.len()
            invariant
                self.resolver_spec().wf(),
                self.resolver_spec() == old(self).resolver_spec(),
                g == old(self).names(),
                defs == &program.definitions,
                j <= defs@.len(),
                self.errs() == e1 + bv_defs(g, defs@.subrange(0, j as int)),
            decreases defs@.len() - j,
        {
            self.validate_definition(&defs[j]);
            assert(defs@.subrange(0, j + 1).subrange(0, j as int) =~= defs@.subrange(0, j as int));
            j += 1;
        }
        assert(defs@.subrange(0, defs@.len() as int) =~= defs@);
        if self.errors.len() == 0 {
            Ok(())
        } else {
            Err(copy_texts(&self.errors))
        }
    }

    pub fn resolver(&self) -> (r: &Resolver)
        ensures
            *r == self.resolver_spec(),
    {
        &self.resolver
    }

    pub fn resolver_mut(&mut self) -> (r: &mut Resolver)
        ensures
            *r == old(self).resolver_spec(),
            final(self).resolver_spec() == *final(r),
            final(self).type_checker_spec() == old(self).type_checker_spec(),
            final(self).error_list() == old(self).error_list(),
    {
        &mut self.resolver
    }

    pub fn type_checker(&self) -> (t: &TypeChecker)
        ensures
            *t == self.type_checker_spec(),
    {
        &self.type_checker
    }

    pub fn type_checker_mut(&mut self) -> (t: &mut TypeChecker)
        ensures
            *t == old(self).type_checker_spec(),
            final(self).type_checker_spec() == *final(t),
            final(self).resolver_spec() == old(self).resolver_spec(),
            final(self).error_list() == old(self).error_list(),
    {
        &mut self.type_checker
    }
}

} // verus!
