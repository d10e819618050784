//! Conflicts between rules, as the conflict detector records them.
use vstd::prelude::*;
use crate::maps::{contains_text, copy_texts, views};
use crate::rule_engine::condition::{Condition, Expression, Term};
use crate::rule_engine::types::Comparator;
use crate::semantic::program::{Action, Definition, Program, RuleDef};
use crate::semantic::resolver::Resolver;
use crate::semantic::scope::Visible;
use crate::semantic::symbol::SymbolKind;
use crate::text::join3;

verus! {

#[derive(Debug, Clone, Copy, PartialEq, Eq)]
pub enum ConflictType {
    OverlappingConditions,
    MutuallyExclusiveActions,
    ConflictingAttributeWrites,
    OrderDependentSideEffects,
}

#[derive(Debug, Clone, Copy, PartialEq, Eq)]
pub enum ConflictSeverity {
    Info,
    Warning,
    Error,
}

#[derive(Debug, Clone)]
pub struct Conflict {
    pub rule_a: String,
    pub rule_b: String,
    pub conflict_type: ConflictType,
    pub severity: ConflictSeverity,
    pub description: String,
}

/// The content of a conflict.
pub struct ConflictV {
    pub rule_a: Seq<char>,
    pub rule_b: Seq<char>,
    pub conflict_type: ConflictType,
    pub severity: ConflictSeverity,
    pub description: Seq<char>,
}

impl View for Conflict {
    type V = ConflictV;

    open spec fn view(&self) -> ConflictV {
        ConflictV {
            rule_a: self.rule_a@,
            rule_b: self.rule_b@,
            conflict_type: self.conflict_type,
            severity: self.severity,
            description: self.description@,
        }
    }
}

pub open spec fn conflict_views(s: Seq<Conflict>) -> Seq<ConflictV> {
    s.map_values(|c: Conflict| c@)
}

fn copy_conflict(c: &Conflict) -> (r: Conflict)
    ensures
        r@ == c@,
{
    Conflict {
        rule_a: c.rule_a.clone(),
        rule_b: c.rule_b.clone(),
        conflict_type: c.conflict_type,
        severity: c.severity,
        description: c.description.clone(),
    }
}

fn copy_conflicts(v: &Vec<Conflict>) -> (r: Vec<Conflict>)
    ensures
        conflict_views(r@) == conflict_views(v@),
{
    let mut r: Vec<Conflict> = Vec::new();
    let mut i: usize = 0;
    while i < v.len()
        invariant
            i <= v@.len(),
            conflict_views(r@) == conflict_views(v@).take(i as int),
        decreases v@.len() - i,
    {
        let ghost before = conflict_views(r@);
        r.push(copy_conflict(&v[i]));
        assert(conflict_views(r@) =~= before.push(v@[i as int]@));
        assert(conflict_views(v@).take(i + 1) =~= conflict_views(v@).take(i as int).push(v@[i as int]@));
        i += 1;
    }
    assert(conflict_views(v@).take(v@.len() as int) =~= conflict_views(v@));
    r
}

/// The entities a term refers to: a name that resolves to an entity, the entity of a field.
pub open spec fn term_entities(g: Visible, t: Term) -> Seq<Seq<char>> {
    match t {
        Term::Identifier(n) => if g.contains_key(n@) && g[n@].0 == SymbolKind::Entity { seq![n@] } else { seq![] },
        Term::Number(_) => seq![],
        Term::QualifiedRef(e, _) => seq![e@],
    }
}

pub open spec fn terms_entities(g: Visible, ts: Seq<Term>) -> Seq<Seq<char>>
    decreases ts.len(),
{
    if ts.len() == 0 {
        seq![]
    } else {
        terms_entities(g, ts.subrange(0, ts.len() - 1)) + term_entities(g, ts[ts.len() - 1])
    }
}

/// The entities a condition refers to, in order, possibly repeated.
pub open spec fn cond_entities(g: Visible, c: Condition) -> Seq<Seq<char>>
    decreases c,
{
    match c {
        Condition::Expression(Expression::Comparison { left, op, right }) => term_entities(g, left) + term_entities(g, right),
        Condition::Expression(Expression::Predicate(p)) => terms_entities(g, p.arguments@),
        Condition::LogicalOp(l, _, r) => cond_entities(g, *l) + cond_entities(g, *r),
    }
}

/// Whether two lists of names have one in common.
pub open spec fn share(a: Seq<Seq<char>>, b: Seq<Seq<char>>) -> bool {
    exists|i: int| 0 <= i < a.len() && b.contains(#[trigger] a[i])
}

/// The variables that a list of actions assigns directly.
pub open spec fn assigned(actions: Seq<Action>) -> Seq<Seq<char>>
    decreases actions.len(),
{
    if actions.len() == 0 {
        seq![]
    } else {
        assigned(actions.subrange(0, actions.len() - 1)) + match actions[actions.len() - 1] {
            Action::Assignment(x) => seq![x.variable@],
            _ => seq![],
        }
    }
}

pub open spec fn overlap_description(a: Seq<char>, b: Seq<char>) -> Seq<char> {
    "Rules '"@ + a + "' and '"@ + b + "' have overlapping conditions and may both fire for the same facts"@
}

pub open spec fn writes_description(a: Seq<char>, b: Seq<char>) -> Seq<char> {
    "Rules '"@ + a + "' and '"@ + b + "' modify the same attributes in conflicting ways"@
}

/// The conflicts between two rules: when their conditions refer to a common
/// entity, their conditions overlap (a warning), and if they also assign a
/// common variable their writes conflict (an error).
pub open spec fn pair_conflicts(g: Visible, a: RuleDef, b: RuleDef) -> Seq<ConflictV> {
    if share(cond_entities(g, a.condition), cond_entities(g, b.condition)) {
        seq![ConflictV {
            rule_a: a.name@,
            rule_b: b.name@,
            conflict_type: ConflictType::OverlappingConditions,
            severity: ConflictSeverity::Warning,
            description: overlap_description(a.name@, b.name@),
        }] + if share(assigned(a.actions@), assigned(b.actions@)) {
            seq![ConflictV {
                rule_a: a.name@,
                rule_b: b.name@,
                conflict_type: ConflictType::ConflictingAttributeWrites,
                severity: ConflictSeverity::Error,
                description: writes_description(a.name@, b.name@),
            }]
        } else {
            seq![]
        }
    } else {
        seq![]
    }
}

/// The rules among the definitions, in order.
pub open spec fn rules_of(ds: Seq<Definition>) -> Seq<RuleDef>
    decreases ds.len(),
{
    if ds.len() == 0 {
        seq![]
    } else {
        rules_of(ds.subrange(0, ds.len() - 1)) + match ds[ds.len() - 1] {
            Definition::Rule(r) => seq![r],
            _ => seq![],
        }
    }
}

/// The conflicts of rule `i` with the rules after it and before `k`.
pub open spec fn row_conflicts(g: Visible, rs: Seq<RuleDef>, i: int, k: int) -> Seq<ConflictV>
    decreases k - i,
{
    if k <= i + 1 {
        seq![]
    } else {
        row_conflicts(g, rs, i, k - 1) + pair_conflicts(g, rs[i], rs[k - 1])
    }
}

/// The conflicts of each of the first `i` rules with every later rule.
pub open spec fn all_conflicts(g: Visible, rs: Seq<RuleDef>, i: int) -> Seq<ConflictV>
    decreases i,
{
    if i <= 0 {
        seq![]
    } else {
        all_conflicts(g, rs, i - 1) + row_conflicts(g, rs, i - 1, rs.len() as int)
    }
}

/// Whether two lists of texts have one in common.
fn share_any(a: &Vec<String>, b: &Vec<String>) -> (r: bool)
    ensures
        r == share(views(a@), views(b@)),
{
    let mut i: usize = 0;
    while i < a.len()
        invariant
            i <= a@.len(),
            forall|j: int| 0 <= j < i ==> !views(b@).contains(#[trigger] views(a@)[j]),
        decreases a@.len() - i,
    {
        if contains_text(b, a[i].as_str()) {
            assert(views(a@)[i as int] == a@[i as int]@);
            return true;
        }
        i += 1;
    }
    false
}

#[derive(Debug)]
pub struct ConflictDetector {
    resolver: Resolver,
    conflicts: Vec<Conflict>,
    errors: Vec<String>,
}

impl ConflictDetector {
    pub closed spec fn resolver_spec(&self) -> Resolver {
        self.resolver
    }

    pub closed spec fn conflict_list(&self) -> Seq<Conflict> {
        self.conflicts@
    }

    pub closed spec fn error_list(&self) -> Seq<String> {
        self.errors@
    }

    pub fn new(resolver: Resolver) -> (d: Self)
        ensures
            d.resolver_spec() == resolver,
            d.conflict_list() == Seq::<Conflict>::empty(),
            d.error_list() == Seq::<String>::empty(),
    {
        ConflictDetector { resolver, conflicts: Vec::new(), errors: Vec::new() }
    }

    /// What names resolve to for the detector.
    pub open spec fn names(&self) -> Visible {
        self.resolver_spec().scopes().visible()
    }

    fn extract_entities_from_term(&self, term: &Term, entities: &mut Vec<String>)
        requires
            self.resolver_spec().wf(),
        ensures
            views(final(entities)@) == views(old(entities)@) + term_entities(self.names(), *term),
    {
        let ghost before = views(entities@);
        match term {
            Term::Identifier(name) => {
                let is_entity = match self.resolver.scope_manager().resolve_symbol(name.as_str()) {
                    Some(symbol) => match symbol.kind {
                        SymbolKind::Entity => true,
                        _ => false,
                    },
                    None => false,
                };
                if is_entity {
                    entities.push(name.clone());
                }
            },
            Term::Number(_) => {},
            Term::QualifiedRef(entity, _) => {
                entities.push(entity.clone());
            },
        }
        assert(views(entities@) =~= before + term_entities(self.names(), *term));
    }

    fn extract_entities_from_expression(&self, expression: &Expression, entities: &mut Vec<String>)
        requires
            self.resolver_spec().wf(),
        ensures
            views(final(entities)@) == views(old(entities)@) + cond_entities(self.names(), Condition::Expression(*expression)),
    {
        match expression {
            Expression::Comparison { left, op: _, right } => {
                self.extract_entities_from_term(left, entities);
                self.extract_entities_from_term(right, entities);
            },
            Expression::Predicate(predicate) => {
                let args = &predicate.arguments;
                let ghost before = views(entities@);
                let mut i: usize = 0;
                assert(args@.subrange(0, 0) =~= Seq::<Term>::empty());
                while i < args.len()
                    invariant
                        self.resolver_spec().wf(),
                        args == &predicate.arguments,
                        i <= args@.len(),
                        views(entities@) == before + terms_entities(self.names(), args@.subrange(0, i as int)),
                    decreases args@.len() - i,
                {
                    self.extract_entities_from_term(&args[i], entities);
                    assert(args@.subrange(0, i + 1).subrange(0, i as int) =~= args@.subrange(0, i as int));
                    i += 1;
                }
                assert(args@.subrange(0, args@.len() as int) =~= args@);
            },
        }
        assert(views(entities@) =~= views(old(entities)@) + cond_entities(self.names(), Condition::Expression(*expression)));
    }

    fn extract_entities_from_condition_recursive(&self, condition: &Condition, entities: &mut Vec<String>)
        requires
            self.resolver_spec().wf(),
        ensures
            views(final(entities)@) == views(old(entities)@) + cond_entities(self.names(), *condition),
        decreases condition,
    {
        match condition {
            Condition::Expression(expr) => self.extract_entities_from_expression(expr, entities),
            Condition::LogicalOp(left, _, right) => {
                self.extract_entities_from_condition_recursive(left, entities);
                self.extract_entities_from_condition_recursive(right, entities);
                assert(views(entities@) =~= views(old(entities)@) + cond_entities(self.names(), *condition));
            },
        }
    }

    /// The entities a condition refers to.
    fn extract_entities_from_condition(&self, condition: &Condition) -> (v: Vec<String>)
        requires
            self.resolver_spec().wf(),
        ensures
            views(v@) == cond_entities(self.names(), *condition),
    {
        let mut entities: Vec<String> = Vec::new();
        assert(views(entities@) =~= Seq::<Seq<char>>::empty());
        self.extract_entities_from_condition_recursive(condition, &mut entities);
        assert(views(entities@) =~= cond_entities(self.names(), *condition));
        entities
    }

    /// Whether two rules' conditions refer to a common entity.
    fn rules_apply_to_same_entity(&self, rule_a: &RuleDef, rule_b: &RuleDef) -> (r: bool)
        requires
            self.resolver_spec().wf(),
        ensures
            r == share(cond_entities(self.names(), rule_a.condition), cond_entities(self.names(), rule_b.condition)),
    {
        let entities_a = self.extract_entities_from_condition(&rule_a.condition);
        let entities_b = self.extract_entities_from_condition(&rule_b.condition);
        share_any(&entities_a, &entities_b)
    }

    /// Whether two conditions may hold together: they are taken to when they
    /// refer to a common entity.
    fn conditions_overlap(&self, condition_a: &Condition, condition_b: &Condition) -> (r: bool)
        requires
            self.resolver_spec().wf(),
        ensures
            r == share(cond_entities(self.names(), *condition_a), cond_entities(self.names(), *condition_b)),
    {
        let entities_a = self.extract_entities_from_condition(condition_a);
        let entities_b = self.extract_entities_from_condition(condition_b);
        share_any(&entities_a, &entities_b)
    }

    /// The variables that actions assign directly.
    fn extract_modified_attributes(&self, actions: &[Action]) -> (v: Vec<String>)
        ensures
            views(v@) == assigned(actions@),
    {
        let mut attributes: Vec<String> = Vec::new();
        let mut i: usize = 0;
        assert(actions@.subrange(0, 0) =~= Seq::<Action>::empty());
        assert(views(attributes@) =~= Seq::<Seq<char>>::empty());
        while i < actions.len()
            invariant
                i <= actions@.len(),
                views(attributes@) == assigned(actions@.subrange(0, i as int)),
            decreases actions@.len() - i,
        {
            let ghost before = views(attributes@);
            match &actions[i] {
                Action::Assignment(assignment) => {
                    attributes.push(assignment.variable.clone());
                },
                _ => {},
            }
            assert(actions@.subrange(0, i + 1).subrange(0, i as int) =~= actions@.subrange(0, i as int));
            assert(views(attributes@) =~= assigned(actions@.subrange(0, i + 1)));
            i += 1;
        }
        assert(actions@.subrange(0, actions@.len() as int) =~= actions@);
        attributes
    }

    /// Whether two lists of actions assign a common variable.
    fn actions_conflict(&self, actions_a: &[Action], actions_b: &[Action]) -> (r: bool)
        ensures
            r == share(assigned(actions_a@), assigned(actions_b@)),
    {
        let attrs_a = self.extract_modified_attributes(actions_a);
        let attrs_b = self.extract_modified_attributes(actions_b);
        share_any(&attrs_a, &attrs_b)
    }

    /// Whether a condition always holds; no condition is recognised as such.
    fn is_tautology(&self, condition: &Condition) -> (r: bool)
        ensures
            !r,
    {
        match condition {
            Condition::Expression(Expression::Comparison { left: _, op: Comparator::NotEqual, right: _ }) => false,
            _ => false,
        }
    }

    /// Whether a condition never holds; no condition is recognised as such.
    fn is_contradiction(&self, condition: &Condition) -> (r: bool)
        ensures
            !r,
    {
        match condition {
            Condition::Expression(Expression::Comparison { left: _, op: Comparator::Equal, right: _ }) => false,
            _ => false,
        }
    }

    fn push_conflict(&mut self, rule_a: &RuleDef, rule_b: &RuleDef, conflict_type: ConflictType, severity: ConflictSeverity, description: String)
        ensures
            final(self).resolver_spec() == old(self).resolver_spec(),
            final(self).error_list() == old(self).error_list(),
            conflict_views(final(self).conflict_list()) == conflict_views(old(self).conflict_list()).push(ConflictV {
                rule_a: rule_a.name@,
                rule_b: rule_b.name@,
                conflict_type,
                severity,
                description: description@,
            }),
    {
        let ghost before = conflict_views(self.conflicts@);
        let conflict = Conflict {
            rule_a: rule_a.name.clone(),
            rule_b: rule_b.name.clone(),
            conflict_type,
            severity,
            description,
        };
        self.conflicts.push(conflict);
        assert(conflict_views(self.conflicts@) =~= before.push(conflict@));
    }

    /// Records the conflicts between two rules: see `pair_conflicts`.
    fn detect_conflict_between_rules(&mut self, rule_a: &RuleDef, rule_b: &RuleDef)
        requires
            old(self).resolver_spec().wf(),
        ensures
            final(self).resolver_spec() == old(self).resolver_spec(),
            final(self).error_list() == old(self).error_list(),
            conflict_views(final(self).conflict_list()) == conflict_views(old(self).conflict_list())
                + pair_conflicts(old(self).names(), *rule_a, *rule_b),
    {
        if self.rules_apply_to_same_entity(rule_a, rule_b) {
            if self.conditions_overlap(&rule_a.condition, &rule_b.condition) {
                let mut description = join3("Rules '", rule_a.name.as_str(), "' and '");
                description.append(rule_b.name.as_str());
                description.append("' have overlapping conditions and may both fire for the same facts");
                self.push_conflict(rule_a, rule_b, ConflictType::OverlappingConditions, ConflictSeverity::Warning, description);
            }
            if self.actions_conflict(rule_a.actions.as_slice(), rule_b.actions.as_slice()) {
                let mut description = join3("Rules '", rule_a.name.as_str(), "' and '");
                description.append(rule_b.name.as_str());
                description.append("' modify the same attributes in conflicting ways");
                self.push_conflict(rule_a, rule_b, ConflictType::ConflictingAttributeWrites, ConflictSeverity::Error, description);
            }
        }
        assert(conflict_views(self.conflict_list()) =~= conflict_views(old(self).conflict_list())
            + pair_conflicts(old(self).names(), *rule_a, *rule_b));
    }

    /// Compares every rule of the program with every later one and records their
    /// conflicts (see `pair_conflicts`), in that order. The result is the list of
    /// all conflicts recorded, or the detector's errors if it holds any.
    pub fn detect_conflicts(&mut self, program: &Program) -> (r: Result<Vec<Conflict>, Vec<String>>)
        requires
            old(self).resolver_spec().wf(),
        ensures
            final(self).resolver_spec() == old(self).resolver_spec(),
            final(self).error_list() == old(self).error_list(),
            ({
                let rs = rules_of(program.definitions@);
                conflict_views(final(self).conflict_list()) == conflict_views(old(self).conflict_list())
                    + all_conflicts(old(self).names(), rs, rs.len() as int)
            }),
            match r {
                Ok(c) => old(self).error_list().len() == 0 && conflict_views(c@) == conflict_views(final(self).conflict_list()),
                Err(e) => old(self).error_list().len() > 0 && views(e@) == views(old(self).error_list()),
            },
    {
        let defs = &program.definitions;
        let ghost g = old(self).names();
        let mut rules: Vec<&RuleDef> = Vec::new();
        let mut k: usize = 0;
        assert(defs@.subrange(0, 0) =~= Seq::<Definition>::empty());
        while k < defs.len()
            invariant
                defs == &program.definitions,
                k <= defs@.len(),
                rules@.len() == rules_of(defs@.subrange(0, k as int)).len(),
                forall|t: int| 0 <= t < rules@.len() ==> *#[trigger] rules@[t] == rules_of(defs@.subrange(0, k as int))[t],
            decreases defs@.len() - k,
        {
            assert(defs@.subrange(0, k + 1).subrange(0, k as int) =~= defs@.subrange(0, k as int));
            match &defs[k] {
                Definition::Rule(rule_def) => {
                    rules.push(rule_def);
                },
                _ => {},
            }
            k += 1;
        }
        assert(defs@.subrange(0, defs@.len() as int) =~= defs@);
        let ghost rs = rules_of(defs@);
        let n = rules.len();
        let ghost c0 = conflict_views(self.conflict_list());
        let mut i: usize = 0;
        while i < n
            invariant
                self.resolver_spec().wf(),
                self.resolver_spec() == old(self).resolver_spec(),
                self.error_list() == old(self).error_list(),
                g == old(self).names(),
                n == rules@.len(),
                n == rs.len(),
                forall|t: int| 0 <= t < rules@.len() ==> *#[trigger] rules@[t] == rs[t],
                i <= n,
                conflict_views(self.conflict_list()) == c0 + all_conflicts(g, rs, i as int),
            decreases n - i,
        {
            let ghost ci = conflict_views(self.conflict_list());
            let mut j: usize = i + 1;
            while j < n
                invariant
                    self.resolver_spec().wf(),
                    self.resolver_spec() == old(self).resolver_spec(),
                    self.error_list() == old(self).error_list(),
                    g == old(self).names(),
                    n == rules@.len(),
                    n == rs.len(),
                    forall|t: int| 0 <= t < rules@.len() ==> *#[trigger] rules@[t] == rs[t],
                    i < n,
                    i + 1 <= j <= n,
                    conflict_views(self.conflict_list()) == ci + row_conflicts(g, rs, i as int, j as int),
                decreases n - j,
            {
                self.detect_conflict_between_rules(rules[i], rules[j]);
                assert(*rules@[i as int] == rs[i as int]);
                assert(*rules@[j as int] == rs[j as int]);
                assert(conflict_views(self.conflict_list()) =~= ci + row_conflicts(g, rs, i as int, j + 1));
                j += 1;
            }
            assert(conflict_views(self.conflict_list()) =~= c0 + all_conflicts(g, rs, i + 1));
            i += 1;
        }
        if self.errors.len() == 0 {
            Ok(copy_conflicts(&self.conflicts))
        } else {
            Err(copy_texts(&self.errors))
        }
    }

    pub fn resolver(&self) -> (r: &Resolver)
        ensures
            *r == self.resolver_spec(),
    {
        &self.resolver
    }

    pub fn resolver_mut(&mut self) -> (r: &mut Resolver)
        ensures
            *r == old(self).resolver_spec(),
            final(self).resolver_spec() == *final(r),
            final(self).conflict_list() == old(self).conflict_list(),
            final(self).error_list() == old(self).error_list(),
    {
        &mut self.resolver
    }

    pub fn get_conflicts(&self) -> (c: &[Conflict])
        ensures
            c@ == self.conflict_list(),
    {
        self.conflicts.as_slice()
    }
}

} // verus!
