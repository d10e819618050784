//! Resolution of symbol references; its errors and state.
use vstd::prelude::*;
use crate::maps::{copy_texts, views};
use crate::rule_engine::condition::{Condition, Expression, Predicate, Term};
use crate::semantic::program::{Action, ControlAction, Definition, EntityDef, FlowDef, Program, RuleDef};
use crate::semantic::scope::{ScopeManager, Visible};
use crate::semantic::symbol::{SourceLocation, Symbol, SymbolKind, duplicate_message};
use crate::semantic::types::{KindV, TypeDescriptor, TypeKind, TypeV};
use crate::text::{decimal, u64_to_decimal};

verus! {

#[derive(Debug, Clone)]
pub enum ResolutionError {
    UndeclaredSymbol(String, SourceLocation),
    DuplicateDeclaration(String, SourceLocation),
    IllegalShadowing(String, SourceLocation),
    TypeMismatch(String, SourceLocation),
}

/// ` at file:line`.
pub open spec fn at_text(loc: SourceLocation) -> Seq<char> {
    " at "@ + loc.file@ + ":"@ + decimal(loc.line as nat)
}

/// Appends ` at file:line` to `s`.
pub fn append_at(s: &mut String, loc: &SourceLocation)
    ensures
        final(s)@ == old(s)@ + at_text(*loc),
{
    s.append(" at ");
    s.append(loc.file.as_str());
    s.append(":");
    s.append(u64_to_decimal(loc.line as u64).as_str());
}

impl ResolutionError {
    pub open spec fn spec_message(&self) -> Seq<char> {
        match self {
            ResolutionError::UndeclaredSymbol(n, l) => "Undeclared symbol '"@ + n@ + "'"@ + at_text(*l),
            ResolutionError::DuplicateDeclaration(n, l) => "Duplicate declaration of symbol '"@ + n@ + "'"@ + at_text(*l),
            ResolutionError::IllegalShadowing(n, l) => "Illegal shadowing of symbol '"@ + n@ + "'"@ + at_text(*l),
            ResolutionError::TypeMismatch(m, l) => "Type mismatch: "@ + m@ + at_text(*l),
        }
    }

    pub fn message(&self) -> (s: String)
        ensures
            s@ == self.spec_message(),
    {
        match self {
            ResolutionError::UndeclaredSymbol(n, l) => {
                let mut s = crate::text::join3("Undeclared symbol '", n.as_str(), "'");
                append_at(&mut s, l);
                s
            },
            ResolutionError::DuplicateDeclaration(n, l) => {
                let mut s = crate::text::join3("Duplicate declaration of symbol '", n.as_str(), "'");
                append_at(&mut s, l);
                s
            },
            ResolutionError::IllegalShadowing(n, l) => {
                let mut s = crate::text::join3("Illegal shadowing of symbol '", n.as_str(), "'");
                append_at(&mut s, l);
                s
            },
            ResolutionError::TypeMismatch(m, l) => {
                let mut s = crate::text::join2("Type mismatch: ", m.as_str());
                append_at(&mut s, l);
                s
            },
        }
    }
}

/// The place given to what the analysis reports: the program carries no positions.
pub open spec fn unknown_at() -> Seq<char> {
    " at "@ + "unknown"@ + ":"@ + decimal(0)
}

/// The location `unknown:0:0`.
pub(crate) fn unknown_location() -> (l: SourceLocation)
    ensures
        l.file@ == "unknown"@,
        l.line == 0,
        l.column == 0,
        at_text(l) == unknown_at(),
{
    SourceLocation::new("unknown".to_owned(), 0, 0)
}

pub open spec fn undeclared_message(n: Seq<char>) -> Seq<char> {
    "Undeclared symbol '"@ + n + "'"@ + unknown_at()
}

pub open spec fn in_scope_message(n: Seq<char>) -> Seq<char> {
    "Symbol '"@ + n + "' already declared in current scope"@
}

/// The kind and type a definition declares its name with: an entity its own
/// entity type, rules and flows `Void`, constraints `Bool`.
pub open spec fn def_info(d: Definition) -> (SymbolKind, TypeV) {
    match d {
        Definition::Entity(e) => (SymbolKind::Entity, TypeV { kind: KindV::Entity(e.name@), name: Some(e.name@), params: seq![] }),
        Definition::Rule(_) => (SymbolKind::Rule, TypeV { kind: KindV::Void, name: None, params: seq![] }),
        Definition::Flow(_) => (SymbolKind::Flow, TypeV { kind: KindV::Void, name: None, params: seq![] }),
        Definition::Constraint(_) => (SymbolKind::Constraint, TypeV { kind: KindV::Bool, name: None, params: seq![] }),
    }
}

/// Declaring a name in a scope whose names are `here`, while `names` are taken in
/// the whole table: refused if either holds it; else both gain it.
pub open spec fn declare_in(here: Set<Seq<char>>, names: Set<Seq<char>>, n: Seq<char>) -> Option<Seq<char>> {
    if here.contains(n) {
        Some(in_scope_message(n))
    } else if names.contains(n) {
        Some(duplicate_message(n))
    } else {
        None
    }
}

pub open spec fn err_list(e: Option<Seq<char>>) -> Seq<Seq<char>> {
    match e {
        Some(m) => seq![m],
        None => seq![],
    }
}

/// Declaring an entity's fields, in order, in the entity's own scope.
pub open spec fn register_fields(here: Set<Seq<char>>, names: Set<Seq<char>>, fs: Seq<String>) -> (Set<Seq<char>>, Set<Seq<char>>, Seq<Seq<char>>)
    decreases fs.len(),
{
    if fs.len() == 0 {
        (here, names, seq![])
    } else {
        let (h, n, e) = register_fields(here, names, fs.subrange(0, fs.len() - 1));
        let f = fs[fs.len() - 1]@;
        match declare_in(h, n, f) {
            Some(m) => (h, n, e.push(m)),
            None => (h.insert(f), n.insert(f), e),
        }
    }
}

/// Registering one definition: its name in the global scope `g`, then an entity's
/// fields in a fresh scope.
pub open spec fn register_def(g: Visible, names: Set<Seq<char>>, d: Definition) -> (Visible, Set<Seq<char>>, Seq<Seq<char>>) {
    let n = d.spec_name();
    let (g1, n1, e1) = match declare_in(g.dom(), names, n) {
        Some(m) => (g, names, seq![m]),
        None => (g.insert(n, def_info(d)), names.insert(n), seq![]),
    };
    match d {
        Definition::Entity(e) => {
            let (_, n2, e2) = register_fields(Set::empty(), n1, e.fields@);
            (g1, n2, e1 + e2)
        },
        _ => (g1, n1, e1),
    }
}

/// Registering the definitions in order: the global names, the names taken and the errors.
pub open spec fn register_defs(g: Visible, names: Set<Seq<char>>, ds: Seq<Definition>) -> (Visible, Set<Seq<char>>, Seq<Seq<char>>)
    decreases ds.len(),
{
    if ds.len() == 0 {
        (g, names, seq![])
    } else {
        let (g1, n1, e1) = register_defs(g, names, ds.subrange(0, ds.len() - 1));
        let (g2, n2, e2) = register_def(g1, n1, ds[ds.len() - 1]);
        (g2, n2, e1 + e2)
    }
}

/// The number of symbols a definition declares: its name, and an entity's fields.
pub open spec fn def_symbols(d: Definition) -> nat {
    match d {
        Definition::Entity(e) => e.fields@.len() + 1,
        _ => 1,
    }
}

/// The number of symbols the definitions declare.
pub open spec fn symbol_count(ds: Seq<Definition>) -> nat
    decreases ds.len(),
{
    if ds.len() == 0 {
        0
    } else {
        symbol_count(ds.subrange(0, ds.len() - 1)) + def_symbols(ds[ds.len() - 1])
    }
}

pub proof fn lemma_symbol_count_prefix(ds: Seq<Definition>, i: int)
    requires
        0 <= i <= ds.len(),
    ensures
        symbol_count(ds.subrange(0, i)) <= symbol_count(ds),
    decreases ds.len(),
{
    if i < ds.len() {
        lemma_symbol_count_prefix(ds.subrange(0, ds.len() - 1), i);
        assert(ds.subrange(0, ds.len() - 1).subrange(0, i) =~= ds.subrange(0, i));
    } else {
        assert(ds.subrange(0, i) =~= ds);
    }
}

/// An error for a name that does not resolve.
pub open spec fn name_errs(g: Visible, n: Seq<char>) -> Seq<Seq<char>> {
    if g.contains_key(n) {
        seq![]
    } else {
        seq![undeclared_message(n)]
    }
}

pub open spec fn term_errs(g: Visible, t: Term) -> Seq<Seq<char>> {
    match t {
        Term::Identifier(n) => name_errs(g, n@),
        Term::Number(_) => seq![],
        Term::QualifiedRef(e, _) => name_errs(g, e@),
    }
}

pub open spec fn terms_errs(g: Visible, ts: Seq<Term>) -> Seq<Seq<char>>
    decreases ts.len(),
{
    if ts.len() == 0 {
        seq![]
    } else {
        terms_errs(g, ts.subrange(0, ts.len() - 1)) + term_errs(g, ts[ts.len() - 1])
    }
}

pub open spec fn pred_errs(g: Visible, p: Predicate) -> Seq<Seq<char>> {
    name_errs(g, p.name@) + terms_errs(g, p.arguments@)
}

pub open spec fn expr_errs(g: Visible, e: Expression) -> Seq<Seq<char>> {
    match e {
        Expression::Comparison { left, op, right } => term_errs(g, left) + term_errs(g, right),
        Expression::Predicate(p) => pred_errs(g, p),
    }
}

pub open spec fn cond_errs(g: Visible, c: Condition) -> Seq<Seq<char>>
    decreases c,
{
    match c {
        Condition::Expression(e) => expr_errs(g, e),
        Condition::LogicalOp(l, _, r) => cond_errs(g, *l) + cond_errs(g, *r),
    }
}

pub open spec fn action_errs(g: Visible, a: Action) -> Seq<Seq<char>>
    decreases a,
{
    match a {
        Action::Predicate(p) => pred_errs(g, p),
        Action::Assignment(x) => term_errs(g, x.value) + name_errs(g, x.variable@),
        Action::Control(ControlAction::If(i)) => cond_errs(g, i.condition) + actions_errs(g, i.then_actions@) + match i.else_actions {
            Some(e) => actions_errs(g, e@),
            None => seq![],
        },
        Action::Control(ControlAction::Loop(l)) => actions_errs(g, l.actions@),
        Action::Control(ControlAction::Halt(_)) => seq![],
    }
}

pub open spec fn actions_errs(g: Visible, s: Seq<Action>) -> Seq<Seq<char>>
    decreases s,
{
    if s.len() == 0 {
        seq![]
    } else {
        actions_errs(g, s.subrange(0, s.len() - 1)) + action_errs(g, s[s.len() - 1])
    }
}

/// The unresolved names of a definition, in order.
pub open spec fn def_errs(g: Visible, d: Definition) -> Seq<Seq<char>> {
    match d {
        Definition::Entity(_) => seq![],
        Definition::Rule(r) => cond_errs(g, r.condition) + actions_errs(g, r.actions@),
        Definition::Flow(f) => actions_errs(g, f.actions@),
        Definition::Constraint(c) => cond_errs(g, c.condition),
    }
}

pub open spec fn defs_errs(g: Visible, ds: Seq<Definition>) -> Seq<Seq<char>>
    decreases ds.len(),
{
    if ds.len() == 0 {
        seq![]
    } else {
        defs_errs(g, ds.subrange(0, ds.len() - 1)) + def_errs(g, ds[ds.len() - 1])
    }
}

/// The resolver's scopes and the errors it found.
#[derive(Debug, Clone)]
pub struct Resolver {
    scope_manager: ScopeManager,
    errors: Vec<String>,
}

impl Resolver {
    pub closed spec fn error_list(&self) -> Seq<String> {
        self.errors@
    }

    /// The errors found so far.
    pub fn errors(&self) -> (e: &[String])
        ensures
            e@ == self.error_list(),
    {
        self.errors.as_slice()
    }

    pub closed spec fn scopes(&self) -> ScopeManager {
        self.scope_manager
    }

    pub open spec fn wf(&self) -> bool {
        self.scopes().wf()
    }

    pub fn new() -> (r: Self)
        ensures
            r.wf(),
            r.error_list() == Seq::<String>::empty(),
            r.scopes().scope_seq().len() == 1,
            r.scopes().current() == Some(0u32),
            r.scopes().table().list().len() == 0,
            r.scopes().global_names() == Map::<Seq<char>, (SymbolKind, TypeV)>::empty(),
            r.scopes().table().names() == Set::<Seq<char>>::empty(),
            r.errs() == Seq::<Seq<char>>::empty(),
    {
        let r = Resolver { scope_manager: ScopeManager::new(), errors: Vec::new() };
        assert(r.scopes().global_names() =~= Map::<Seq<char>, (SymbolKind, TypeV)>::empty());
        assert(r.scopes().table().names() =~= Set::<Seq<char>>::empty());
        assert(r.errs() =~= Seq::<Seq<char>>::empty());
        r
    }

    /// A copy of the resolver: alike scopes and symbols, the same errors.
    pub fn duplicate(&self) -> (r: Resolver)
        requires
            self.wf(),
        ensures
            r.wf(),
            r.errs() == self.errs(),
            r.scopes().current() == self.scopes().current(),
            r.scopes().scope_seq().len() == self.scopes().scope_seq().len(),
            r.scopes().table().list().len() == self.scopes().table().list().len(),
            r.scopes().table().names() == self.scopes().table().names(),
            r.scopes().visible() == self.scopes().visible(),
            r.scopes().global_names() == self.scopes().global_names(),
    {
        Resolver { scope_manager: self.scope_manager.duplicate(), errors: copy_texts(&self.errors) }
    }

    pub fn scope_manager(&self) -> (m: &ScopeManager)
        ensures
            *m == self.scopes(),
    {
        &self.scope_manager
    }

    /// Ready to resolve: scopes well formed, the global scope current.
    pub open spec fn ready(&self) -> bool {
        self.wf() && self.scopes().current() == Some(0u32)
    }

    /// The texts of the errors found so far.
    pub open spec fn errs(&self) -> Seq<Seq<char>> {
        views(self.error_list())
    }

    fn push_error(&mut self, e: String)
        ensures
            final(self).errs() == old(self).errs().push(e@),
            final(self).scopes() == old(self).scopes(),
    {
        let ghost before = self.errs();
        self.errors.push(e);
        assert(self.errs() =~= before.push(e@));
    }

    /// Declares a symbol in the current scope; a refusal is recorded as an error.
    fn declare(&mut self, symbol: Symbol)
        requires
            old(self).wf(),
            old(self).scopes().current() is Some,
            old(self).scopes().table().list().len() < u32::MAX,
            symbol.kind != SymbolKind::Parameter,
            symbol.kind != SymbolKind::Variable,
        ensures
            final(self).wf(),
            ({
                let m0 = old(self).scopes();
                let m1 = final(self).scopes();
                let c = m0.current().unwrap() as int;
                let n = symbol.name_id@;
                &&& m1.current() == m0.current()
                &&& m1.scope_seq().len() == m0.scope_seq().len()
                &&& forall|i: int| 0 <= i < m0.scope_seq().len() && i != c ==> #[trigger] m1.scope_seq()[i] == m0.scope_seq()[i]
                &&& m1.scope_seq()[c].parent == m0.scope_seq()[c].parent
                &&& match declare_in(m0.scope_seq()[c].symbols@.dom(), m0.table().names(), n) {
                    Some(msg) => final(self).errs() == old(self).errs().push(msg) && m1 == m0,
                    None => final(self).errs() == old(self).errs()
                        && m1.scope_seq()[c].symbols@ == m0.scope_seq()[c].symbols@.insert(n, m0.table().list().len() as u32)
                        && m1.table().list() == m0.table().list().push(symbol),
                }
            }),
    {
        match self.scope_manager.declare_symbol(symbol) {
            Ok(_) => {},
            Err(e) => {
                self.push_error(e);
            },
        }
    }

    /// Declares a top-level name in the global scope.
    fn declare_global(&mut self, symbol: Symbol)
        requires
            old(self).ready(),
            old(self).scopes().table().list().len() < u32::MAX,
            symbol.kind != SymbolKind::Parameter,
            symbol.kind != SymbolKind::Variable,
        ensures
            final(self).ready(),
            final(self).scopes().scope_seq().len() == old(self).scopes().scope_seq().len(),
            final(self).scopes().table().list().len() <= old(self).scopes().table().list().len() + 1,
            ({
                let g = old(self).scopes().global_names();
                let nm = old(self).scopes().table().names();
                let n = symbol.name_id@;
                match declare_in(g.dom(), nm, n) {
                    Some(m) => final(self).errs() == old(self).errs().push(m) && final(self).scopes().global_names() == g
                        && final(self).scopes().table().names() == nm,
                    None => final(self).errs() == old(self).errs() && final(self).scopes().global_names() == g.insert(n, (symbol.kind, symbol.ty@))
                        && final(self).scopes().table().names() == nm.insert(n),
                }
            }),
    {
        let ghost m0 = self.scope_manager;
        proof {
            m0.lemma_wf();
        }
        assert(m0.global_names().dom() =~= m0.scope_seq()[0].symbols@.dom());
        self.declare(symbol);
        proof {
            let m1 = self.scope_manager;
            if declare_in(m0.global_names().dom(), m0.table().names(), symbol.name_id@) is None {
                m0.lemma_global_insert(m1, symbol);
                m0.table().lemma_names_push(m1.table(), symbol);
            }
        }
    }

    /// Registers an entity in the global scope, and its fields in a scope of its own.
    fn register_entity(&mut self, entity_def: &EntityDef)
        requires
            old(self).ready(),
            old(self).scopes().scope_seq().len() < u32::MAX,
            old(self).scopes().table().list().len() + entity_def.fields@.len() + 1 < u32::MAX,
        ensures
            final(self).ready(),
            final(self).scopes().scope_seq().len() == old(self).scopes().scope_seq().len() + 1,
            final(self).scopes().table().list().len() <= old(self).scopes().table().list().len() + entity_def.fields@.len() + 1,
            ({
                let r = register_def(old(self).scopes().global_names(), old(self).scopes().table().names(), Definition::Entity(*entity_def));
                &&& final(self).scopes().global_names() == r.0
                &&& final(self).scopes().table().names() == r.1
                &&& final(self).errs() == old(self).errs() + r.2
            }),
    {
        let ghost e0 = self.errs();
        let entity_type = TypeDescriptor::new_named(TypeKind::Entity(entity_def.name.clone()), entity_def.name.clone());
        let scope_id = self.scope_manager.current_scope_id().unwrap();
        let entity_symbol = Symbol::new(entity_def.name.clone(), SymbolKind::Entity, entity_type, scope_id, unknown_location());
        assert(entity_symbol.ty@.params =~= seq![]);
        self.declare_global(entity_symbol);
        let ghost m1 = self.scope_manager;
        let ghost e1 = self.errs();
        proof {
            m1.lemma_wf();
        }
        let eid = self.scope_manager.enter_scope();
        assert(self.scope_manager.scope_seq().subrange(0, eid as int)[0] == self.scope_manager.scope_seq()[0]);
        let fields = &entity_def.fields;
        let mut i: usize = 0;
        assert(fields@.subrange(0, 0) =~= Seq::<String>::empty());
        assert(Set::<Seq<char>>::empty() =~= self.scope_manager.scope_seq()[eid as int].symbols@.dom());
        while i < fields.len()
            invariant
                self.wf(),
                i <= fields@.len(),
                fields == &entity_def.fields,
                eid == m1.scope_seq().len(),
                eid > 0,
                self.scopes().current() == Some(eid),
                self.scopes().scope_seq().len() == eid + 1,
                self.scopes().scope_seq()[0] == m1.scope_seq()[0],
                self.scopes().scope_seq()[eid as int].parent == Some(0u32),
                m1.wf(),
                m1.table().list().len() + fields@.len() < u32::MAX,
                m1.table().list().len() <= self.scopes().table().list().len() <= m1.table().list().len() + i,
                self.scopes().table().list().subrange(0, m1.table().list().len() as int) == m1.table().list(),
                ({
                    let r = register_fields(Set::empty(), m1.table().names(), fields@.subrange(0, i as int));
                    &&& self.scopes().scope_seq()[eid as int].symbols@.dom() == r.0
                    &&& self.scopes().table().names() == r.1
                    &&& self.errs() == e1 + r.2
                }),
            decreases fields@.len() - i,
        {
            let ghost ma = self.scope_manager;
            let ghost ea = self.errs();
            let sid = self.scope_manager.current_scope_id().unwrap();
            let field_symbol = Symbol::new(fields[i].clone(), SymbolKind::Attribute, TypeDescriptor::new(TypeKind::Sym), sid, unknown_location());
            self.declare(field_symbol);
            proof {
                let mb = self.scope_manager;
                assert(mb.scope_seq()[0] == ma.scope_seq()[0]);
                let f = fields@[i as int]@;
                assert(fields@.subrange(0, i + 1).subrange(0, i as int) =~= fields@.subrange(0, i as int));
                assert(fields@.subrange(0, i + 1)[i as int] == fields@[i as int]);
                if declare_in(ma.scope_seq()[eid as int].symbols@.dom(), ma.table().names(), f) is None {
                    ma.table().lemma_names_push(mb.table(), field_symbol);
                    assert(mb.scope_seq()[eid as int].symbols@.dom() =~= ma.scope_seq()[eid as int].symbols@.dom().insert(f));
                    assert(mb.table().list().subrange(0, m1.table().list().len() as int) =~= ma.table().list().subrange(0, m1.table().list().len() as int));
                    assert(self.errs() =~= e1 + register_fields(Set::empty(), m1.table().names(), fields@.subrange(0, i + 1)).2);
                } else {
                    assert(self.errs() =~= e1 + register_fields(Set::empty(), m1.table().names(), fields@.subrange(0, i + 1)).2);
                }
            }
            i += 1;
        }
        let ghost m2 = self.scope_manager;
        self.scope_manager.exit_scope().unwrap();
        proof {
            let m3 = self.scope_manager;
            assert(fields@.subrange(0, fields@.len() as int) =~= fields@);
            m1.lemma_global_names_kept(m3);
            assert(self.errs() =~= e0 + register_def(old(self).scopes().global_names(), old(self).scopes().table().names(), Definition::Entity(*entity_def)).2);
        }
    }

    /// Registers the name a definition declares; an entity's fields too.
    fn register_top_level_declaration(&mut self, definition: &Definition)
        requires
            old(self).ready(),
            old(self).scopes().scope_seq().len() < u32::MAX,
            old(self).scopes().table().list().len() + def_symbols(*definition) < u32::MAX,
        ensures
            final(self).ready(),
            final(self).scopes().scope_seq().len() <= old(self).scopes().scope_seq().len() + 1,
            final(self).scopes().table().list().len() <= old(self).scopes().table().list().len() + def_symbols(*definition),
            ({
                let r = register_def(old(self).scopes().global_names(), old(self).scopes().table().names(), *definition);
                &&& final(self).scopes().global_names() == r.0
                &&& final(self).scopes().table().names() == r.1
                &&& final(self).errs() == old(self).errs() + r.2
            }),
    {
        let ghost e0 = self.errs();
        let scope_id = self.scope_manager.current_scope_id().unwrap();
        match definition {
            Definition::Entity(entity_def) => {
                self.register_entity(entity_def);
            },
            Definition::Rule(rule_def) => {
                let symbol = Symbol::new(rule_def.name.clone(), SymbolKind::Rule, TypeDescriptor::new(TypeKind::Void), scope_id, unknown_location());
                assert(symbol.ty@.params =~= seq![]);
                self.declare_global(symbol);
            },
            Definition::Flow(flow_def) => {
                let symbol = Symbol::new(flow_def.name.clone(), SymbolKind::Flow, TypeDescriptor::new(TypeKind::Void), scope_id, unknown_location());
                assert(symbol.ty@.params =~= seq![]);
                self.declare_global(symbol);
            },
            Definition::Constraint(constraint_def) => {
                let symbol = Symbol::new(constraint_def.name.clone(), SymbolKind::Constraint, TypeDescriptor::new(TypeKind::Bool), scope_id, unknown_location());
                assert(symbol.ty@.params =~= seq![]);
                self.declare_global(symbol);
            },
        }
        proof {
            match definition {
                Definition::Entity(_) => {},
                _ => {
                    assert(self.errs() =~= e0 + register_def(old(self).scopes().global_names(), old(self).scopes().table().names(), *definition).2);
                },
            }
        }
    }

    /// Records a name that does not resolve from the current scope.
    fn resolve_name(&mut self, name: &String)
        requires
            old(self).wf(),
        ensures
            final(self).scopes() == old(self).scopes(),
            final(self).errs() == old(self).errs() + name_errs(old(self).scopes().visible(), name@),
    {
        if self.scope_manager.resolve_symbol(name.as_str()).is_none() {
            let message = ResolutionError::UndeclaredSymbol(name.clone(), unknown_location()).message();
            self.push_error(message);
        }
        assert(self.errs() =~= old(self).errs() + name_errs(old(self).scopes().visible(), name@));
    }

    fn resolve_term(&mut self, term: &Term)
        requires
            old(self).wf(),
        ensures
            final(self).scopes() == old(self).scopes(),
            final(self).errs() == old(self).errs() + term_errs(old(self).scopes().visible(), *term),
    {
        match term {
            Term::Identifier(name) => self.resolve_name(name),
            Term::Number(_) => {
                assert(self.errs() =~= old(self).errs() + term_errs(old(self).scopes().visible(), *term));
            },
            Term::QualifiedRef(entity, _) => self.resolve_name(entity),
        }
    }

    fn resolve_predicate(&mut self, predicate: &Predicate)
        requires
            old(self).wf(),
        ensures
            final(self).scopes() == old(self).scopes(),
            final(self).errs() == old(self).errs() + pred_errs(old(self).scopes().visible(), *predicate),
    {
        let ghost g = old(self).scopes().visible();
        self.resolve_name(&predicate.name);
        let ghost e1 = self.errs();
        let args = &predicate.arguments;
        let mut i: usize = 0;
        assert(args@.subrange(0, 0) =~= Seq::<Term>::empty());
        while i < args.len()
            invariant
                self.wf(),
                self.scopes() == old(self).scopes(),
                g == old(self).scopes().visible(),
                args == &predicate.arguments,
                i <= args@.len(),
                self.errs() == e1 + terms_errs(g, args@.subrange(0, i as int)),
            decreases args@.len() - i,
        {
            self.resolve_term(&args[i]);
            assert(args@.subrange(0, i + 1).subrange(0, i as int) =~= args@.subrange(0, i as int));
            i += 1;
        }
        assert(args@.subrange(0, args@.len() as int) =~= args@);
    }

    fn resolve_expression(&mut self, expression: &Expression)
        requires
            old(self).wf(),
        ensures
            final(self).scopes() == old(self).scopes(),
            final(self).errs() == old(self).errs() + expr_errs(old(self).scopes().visible(), *expression),
    {
        match expression {
            Expression::Comparison { left, op: _, right } => {
                self.resolve_term(left);
                self.resolve_term(right);
            },
            Expression::Predicate(predicate) => self.resolve_predicate(predicate),
        }
    }

    fn resolve_condition(&mut self, condition: &Condition)
        requires
            old(self).wf(),
        ensures
            final(self).scopes() == old(self).scopes(),
            final(self).errs() == old(self).errs() + cond_errs(old(self).scopes().visible(), *condition),
        decreases condition,
    {
        match condition {
            Condition::Expression(expr) => self.resolve_expression(expr),
            Condition::LogicalOp(left, _, right) => {
                self.resolve_condition(left);
                self.resolve_condition(right);
            },
        }
    }

    fn resolve_action_list(&mut self, actions: &Vec<Action>)
        requires
            old(self).wf(),
        ensures
            final(self).scopes() == old(self).scopes(),
            final(self).errs() == old(self).errs() + actions_errs(old(self).scopes().visible(), actions@),
        decreases actions,
    {
        let ghost g = old(self).scopes().visible();
        let mut i: usize = 0;
        assert(actions@.subrange(0, 0) =~= Seq::<Action>::empty());
        while i < actions.len()
            invariant
                self.wf(),
                self.scopes() == old(self).scopes(),
                g == old(self).scopes().visible(),
                i <= actions@.len(),
                self.errs() == old(self).errs() + actions_errs(g, actions@.subrange(0, i as int)),
            decreases actions@.len() - i,
        {
            self.resolve_action(&actions[i]);
            assert(actions@.subrange(0, i + 1).subrange(0, i as int) =~= actions@.subrange(0, i as int));
            i += 1;
        }
        assert(actions@.subrange(0, actions@.len() as int) =~= actions@);
    }

    fn resolve_action(&mut self, action: &Action)
        requires
            old(self).wf(),
        ensures
            final(self).scopes() == old(self).scopes(),
            final(self).errs() == old(self).errs() + action_errs(old(self).scopes().visible(), *action),
        decreases action,
    {
        match action {
            Action::Predicate(predicate) => self.resolve_predicate(predicate),
            Action::Assignment(assignment) => {
                self.resolve_term(&assignment.value);
                self.resolve_name(&assignment.variable);
            },
            Action::Control(ControlAction::If(if_action)) => {
                self.resolve_condition(&if_action.condition);
                self.resolve_action_list(&if_action.then_actions);
                match &if_action.else_actions {
                    Some(else_actions) => self.resolve_action_list(else_actions),
                    None => {},
                }
            },
            Action::Control(ControlAction::Loop(loop_action)) => self.resolve_action_list(&loop_action.actions),
            Action::Control(ControlAction::Halt(_)) => {},
        }
        assert(self.errs() =~= old(self).errs() + action_errs(old(self).scopes().visible(), *action));
    }

    /// Enters a fresh scope inside the global one: the same names are visible there.
    pub(crate) fn enter_body_scope(&mut self)
        requires
            old(self).ready(),
            old(self).scopes().scope_seq().len() < u32::MAX,
        ensures
            final(self).wf(),
            final(self).errs() == old(self).errs(),
            final(self).scopes().visible() == old(self).scopes().global_names(),
            final(self).scopes().current() == Some(old(self).scopes().scope_seq().len() as u32),
            final(self).scopes().current() matches Some(c) && c > 0 && c < final(self).scopes().scope_seq().len()
                && final(self).scopes().scope_seq()[c as int].parent == Some(0u32),
            final(self).scopes().scope_seq().len() == old(self).scopes().scope_seq().len() + 1,
            final(self).scopes().scope_seq()[0] == old(self).scopes().scope_seq()[0],
            final(self).scopes().scope_seq()[old(self).scopes().scope_seq().len() as int].parent == Some(0u32),
            final(self).scopes().table() == old(self).scopes().table(),
    {
        let ghost m0 = self.scope_manager;
        proof {
            m0.lemma_wf();
        }
        let id = self.scope_manager.enter_scope();
        proof {
            let m1 = self.scope_manager;
            assert(m1.scope_seq().subrange(0, id as int)[0] == m1.scope_seq()[0]);
            m1.lemma_visible_global();
            assert(m1.table().list().subrange(0, m0.table().list().len() as int) =~= m0.table().list());
            m0.lemma_global_names_kept(m1);
        }
    }

    /// Leaves the scope entered by `enter_body_scope`.
    pub(crate) fn exit_body_scope(&mut self)
        requires
            old(self).wf(),
            old(self).scopes().current() matches Some(c) && c > 0 && c < old(self).scopes().scope_seq().len()
                && old(self).scopes().scope_seq()[c as int].parent == Some(0u32),
        ensures
            final(self).ready(),
            final(self).errs() == old(self).errs(),
            final(self).scopes().scope_seq() == old(self).scopes().scope_seq(),
            final(self).scopes().table() == old(self).scopes().table(),
            final(self).scopes().global_names() == old(self).scopes().global_names(),
    {
        self.scope_manager.exit_scope().unwrap();
    }

    /// Resolves a rule's condition and actions in a scope of its own.
    fn resolve_rule(&mut self, rule_def: &RuleDef)
        requires
            old(self).ready(),
            old(self).scopes().scope_seq().len() < u32::MAX,
        ensures
            final(self).ready(),
            final(self).scopes().scope_seq().len() == old(self).scopes().scope_seq().len() + 1,
            final(self).scopes().table() == old(self).scopes().table(),
            final(self).scopes().global_names() == old(self).scopes().global_names(),
            final(self).errs() == old(self).errs() + cond_errs(old(self).scopes().global_names(), rule_def.condition)
                + actions_errs(old(self).scopes().global_names(), rule_def.actions@),
    {
        self.enter_body_scope();
        self.resolve_condition(&rule_def.condition);
        self.resolve_action_list(&rule_def.actions);
        self.exit_body_scope();
    }

    /// Resolves a flow's actions in a scope of its own.
    fn resolve_flow(&mut self, flow_def: &FlowDef)
        requires
            old(self).ready(),
            old(self).scopes().scope_seq().len() < u32::MAX,
        ensures
            final(self).ready(),
            final(self).scopes().scope_seq().len() == old(self).scopes().scope_seq().len() + 1,
            final(self).scopes().table() == old(self).scopes().table(),
            final(self).scopes().global_names() == old(self).scopes().global_names(),
            final(self).errs() == old(self).errs() + actions_errs(old(self).scopes().global_names(), flow_def.actions@),
    {
        self.enter_body_scope();
        self.resolve_action_list(&flow_def.actions);
        self.exit_body_scope();
    }

    /// Resolves the references of a definition.
    fn resolve_definition(&mut self, definition: &Definition)
        requires
            old(self).ready(),
            old(self).scopes().scope_seq().len() < u32::MAX,
        ensures
            final(self).ready(),
            final(self).scopes().scope_seq().len() <= old(self).scopes().scope_seq().len() + 1,
            final(self).scopes().table() == old(self).scopes().table(),
            final(self).scopes().global_names() == old(self).scopes().global_names(),
            final(self).errs() == old(self).errs() + def_errs(old(self).scopes().global_names(), *definition),
    {
        proof {
            self.scopes().lemma_visible_global();
        }
        match definition {
            Definition::Entity(_) => {
                assert(self.errs() =~= old(self).errs() + def_errs(old(self).scopes().global_names(), *definition));
            },
            Definition::Rule(rule_def) => self.resolve_rule(rule_def),
            Definition::Flow(flow_def) => self.resolve_flow(flow_def),
            Definition::Constraint(constraint_def) => self.resolve_condition(&constraint_def.condition),
        }
    }

    /// Resolves a program: first every definition's name is registered in the
    /// global scope (an entity's fields in a scope of the entity's), then every
    /// reference in conditions and actions is resolved against the global names.
    /// The errors found are added to the resolver's; the result is `Ok` exactly
    /// when it then holds none, else all of them.
    pub fn resolve_program(&mut self, program: &Program) -> (r: Result<(), Vec<String>>)
        requires
            old(self).ready(),
            old(self).scopes().scope_seq().len() + 2 * program.definitions@.len() < u32::MAX,
            old(self).scopes().table().list().len() + symbol_count(program.definitions@) < u32::MAX,
        ensures
            final(self).ready(),
            final(self).scopes().scope_seq().len() <= old(self).scopes().scope_seq().len() + 2 * program.definitions@.len(),
            ({
                let reg = register_defs(old(self).scopes().global_names(), old(self).scopes().table().names(), program.definitions@);
                &&& final(self).scopes().global_names() == reg.0
                &&& final(self).scopes().table().names() == reg.1
                &&& final(self).errs() == old(self).errs() + reg.2 + defs_errs(reg.0, program.definitions@)
            }),
            match r {
                Ok(()) => final(self).errs().len() == 0,
                Err(e) => final(self).errs().len() > 0 && views(e@) == final(self).errs(),
            },
    {
        let defs = &program.definitions;
        let ghost g0 = self.scopes().global_names();
        let ghost n0 = self.scopes().table().names();
        let ghost e0 = self.errs();
        let ghost s0 = self.scopes().scope_seq().len();
        let ghost t0 = self.scopes().table().list().len();
        let mut i: usize = 0;
        assert(defs@.subrange(0, 0) =~= Seq::<Definition>::empty());
        while i < defs.len()
            invariant
                self.ready(),
                defs == &program.definitions,
                i <= defs@.len(),
                s0 + 2 * defs@.len() < u32::MAX,
                t0 + symbol_count(defs@) < u32::MAX,
                self.scopes().scope_seq().len() <= s0 + i,
                self.scopes().table().list().len() <= t0 + symbol_count(defs@.subrange(0, i as int)),
                ({
                    let r = register_defs(g0, n0, defs@.subrange(0, i as int));
                    &&& self.scopes().global_names() == r.0
                    &&& self.scopes().table().names() == r.1
                    &&& self.errs() == e0 + r.2
                }),
            decreases defs@.len() - i,
        {
            proof {
                lemma_symbol_count_prefix(defs@, i + 1);
                assert(defs@.subrange(0, i + 1).subrange(0, i as int) =~= defs@.subrange(0, i as int));
                assert(defs@.subrange(0, i + 1)[i as int] == defs@[i as int]);
                assert(symbol_count(defs@.subrange(0, i + 1)) == symbol_count(defs@.subrange(0, i as int)) + def_symbols(defs@[i as int]));
            }
            self.register_top_level_declaration(&defs[i]);
            proof {
                assert(self.errs() =~= e0 + register_defs(g0, n0, defs@.subrange(0, i + 1)).2);
            }
            i += 1;
        }
        assert(defs@.subrange(0, defs@.len() as int) =~= defs@);
        let ghost g1 = self.scopes().global_names();
        let ghost e1 = self.errs();
        let ghost s1 = self.scopes().scope_seq().len();
        let mut j: usize = 0;
        while j < defs.len()
            invariant
                self.ready(),
                defs == &program.definitions,
                j <= defs@.len(),
                s1 + defs@.len() < u32::MAX,
                s1 <= s0 + defs@.len(),
                self.scopes().scope_seq().len() <= s1 + j,
                self.scopes().global_names() == g1,
                self.scopes().table().names() == register_defs(g0, n0, defs@).1,
                self.errs() == e1 + defs_errs(g1, defs@.subrange(0, j as int)),
            decreases defs@.len() - j,
        {
            self.resolve_definition(&defs[j]);
            proof {
                assert(defs@.subrange(0, j + 1).subrange(0, j as int) =~= defs@.subrange(0, j as int));
                assert(self.errs() =~= e1 + defs_errs(g1, defs@.subrange(0, j + 1)));
            }
            j += 1;
        }
        proof {
            assert(defs@.subrange(0, defs@.len() as int) =~= defs@);
            assert(self.errs() =~= e0 + register_defs(g0, n0, defs@).2 + defs_errs(g1, defs@));
        }
        if self.errors.len() == 0 {
            Ok(())
        } else {
            Err(copy_texts(&self.errors))
        }
    }

    pub fn scope_manager_mut(&mut self) -> (m: &mut ScopeManager)
        ensures
            *m == old(self).scopes(),
            final(self).scopes() == *final(m),
            final(self).error_list() == old(self).error_list(),
    {
        &mut self.scope_manager
    }
}

} // verus!
