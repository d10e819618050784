//! The semantic analysis pipeline: resolution, type checking, dependencies,
//! rule conflicts and bytecode validation, in that order.
use vstd::prelude::*;
use crate::maps::views;
use crate::semantic::bytecode_validator::{BytecodeValidator, bv_defs};
use crate::semantic::conflict_detector::{ConflictDetector, ConflictSeverity, ConflictV, all_conflicts, conflict_views, rules_of};
use crate::semantic::dependency_graph::{DependencyGraph, analyzed, created, cycle_message, deps_cycle};
use crate::semantic::diagnostics::{Diagnostic, DiagnosticCode, DiagnosticReporter, Severity, SourceLocation};
use crate::semantic::program::Program;
use crate::semantic::resolver::{Resolver, defs_errs, register_defs, symbol_count};
use crate::semantic::scope::Visible;
use crate::semantic::symbol::SymbolKind;
use crate::semantic::type_checker::{TypeChecker, tc_defs};
use crate::semantic::types::TypeV;
use crate::text::join2;

verus! {

/// The names a program declares, as a fresh resolver registers them.
pub open spec fn program_names(p: Program) -> Visible {
    register_defs(Map::<Seq<char>, (SymbolKind, TypeV)>::empty(), Set::<Seq<char>>::empty(), p.definitions@).0
}

/// What resolution finds wrong with a program: refused declarations, then
/// references that do not resolve.
pub open spec fn resolution_errors(p: Program) -> Seq<Seq<char>> {
    register_defs(Map::<Seq<char>, (SymbolKind, TypeV)>::empty(), Set::<Seq<char>>::empty(), p.definitions@).2
        + defs_errs(program_names(p), p.definitions@)
}

/// The dependencies of a program's definitions.
pub open spec fn program_deps(p: Program) -> Map<Seq<char>, Seq<Seq<char>>> {
    analyzed(created(Map::empty(), seq![], p.definitions@).0, program_names(p), p.definitions@)
}

/// The conflicts between a program's rules.
pub open spec fn program_conflicts(p: Program) -> Seq<ConflictV> {
    all_conflicts(program_names(p), rules_of(p.definitions@), rules_of(p.definitions@).len() as int)
}

pub open spec fn conflict_severity(s: ConflictSeverity) -> Severity {
    match s {
        ConflictSeverity::Error => Severity::Error,
        ConflictSeverity::Warning => Severity::Warning,
        ConflictSeverity::Info => Severity::Info,
    }
}

/// The diagnostic that reports a conflict.
pub open spec fn reports_conflict(d: Diagnostic, c: ConflictV) -> bool {
    &&& d.severity == conflict_severity(c.severity)
    &&& d.code == DiagnosticCode::RULE_CONFLICT
    &&& d.message@ == "Rule conflict: "@ + c.description
    &&& d.location.file@ == "unknown"@
    &&& d.location.line == 0
    &&& d.location.column == 0
    &&& d.location.length == 0
    &&& d.notes@.len() == 0
    &&& d.help is None
}

/// Semantic analysis, with the diagnostics it reports.
pub struct SemanticAnalyzer {
    diagnostic_reporter: DiagnosticReporter,
}

impl SemanticAnalyzer {
    pub closed spec fn reporter(&self) -> DiagnosticReporter {
        self.diagnostic_reporter
    }

    pub fn new() -> (a: Self)
        ensures
            a.reporter().wf(),
            a.reporter().all() == Seq::<Diagnostic>::empty(),
            a.reporter().max_errors_spec() == 100,
            a.reporter().max_warnings_spec() == 100,
    {
        SemanticAnalyzer { diagnostic_reporter: DiagnosticReporter::new() }
    }

    /// Analyses a program with fresh diagnostics. Each stage runs only when the
    /// one before succeeded, and the first that fails answers with its errors:
    /// resolution (see `resolution_errors`), type checking (`tc_defs`), the
    /// dependency graph (a cycle), conflict detection. The conflicts found are
    /// reported as diagnostics, in order; then bytecode validation (`bv_defs`)
    /// decides the result.
    pub fn analyze(&mut self, program: &Program) -> (r: Result<(), Vec<String>>)
        requires
            4 * program.definitions@.len() + 1 < u32::MAX,
            symbol_count(program.definitions@) < u32::MAX,
        ensures
            final(self).reporter().wf(),
            ({
                let ds = program.definitions@;
                let g = program_names(*program);
                let res = resolution_errors(*program);
                let tc = tc_defs(g, ds);
                let deps = program_deps(*program);
                let conflicts = program_conflicts(*program);
                let bv = bv_defs(g, ds);
                if res.len() > 0 {
                    final(self).reporter().all().len() == 0 && (r matches Err(e) && views(e@) == res)
                } else if tc.len() > 0 {
                    final(self).reporter().all().len() == 0 && (r matches Err(e) && views(e@) == tc)
                } else if exists|p: Seq<Seq<char>>| deps_cycle(deps, p) {
                    final(self).reporter().all().len() == 0 && (r matches Err(e)
                        && exists|p: Seq<Seq<char>>| deps_cycle(deps, p) && views(e@) == seq![cycle_message(p)])
                } else {
                    &&& final(self).reporter().all().len() == conflicts.len()
                    &&& forall|i: int| 0 <= i < conflicts.len() ==> reports_conflict(#[trigger] final(self).reporter().all()[i], conflicts[i])
                    &&& match r {
                        Ok(()) => bv.len() == 0,
                        Err(e) => bv.len() > 0 && views(e@) == bv,
                    }
                }
            }),
    {
        self.diagnostic_reporter = DiagnosticReporter::new();
        let ghost ds = program.definitions@;
        let ghost g = program_names(*program);
        let mut resolver = Resolver::new();
        match resolver.resolve_program(program) {
            Ok(()) => {},
            Err(errors) => {
                return Err(errors);
            },
        }
        proof {
            assert(resolver.errs() =~= resolution_errors(*program));
            resolver.scopes().lemma_visible_global();
        }
        let mut type_checker = TypeChecker::new(resolver);
        match type_checker.check_program(program) {
            Ok(()) => {},
            Err(errors) => {
                assert(type_checker.errs() =~= tc_defs(g, ds));
                return Err(errors);
            },
        }
        proof {
            assert(type_checker.errs() =~= tc_defs(g, ds));
            type_checker.resolver_spec().scopes().lemma_visible_global();
        }
        let mut dep_graph = DependencyGraph::new(type_checker.resolver().duplicate());
        let ghost fresh_graph = dep_graph;
        let built = dep_graph.build_graph(program);
        proof {
            dep_graph.lemma_deps_cycle();
            assert(fresh_graph.names() == g);
            assert(created(fresh_graph.deps(), fresh_graph.order(), ds) == created(Map::empty(), seq![], ds));
            assert(dep_graph.deps() == program_deps(*program));
        }
        match built {
            Ok(()) => {},
            Err(errors) => {
                proof {
                    let p = choose|p: Seq<Seq<char>>| dep_graph.is_cycle(p)
                        && dep_graph.error_list() == fresh_graph.error_list().push(cycle_message(p));
                    assert(deps_cycle(dep_graph.deps(), p));
                    assert(views(errors@) =~= seq![cycle_message(p)]);
                }
                return Err(errors);
            },
        }
        let mut conflict_detector = ConflictDetector::new(dep_graph.resolver().duplicate());
        let conflicts = match conflict_detector.detect_conflicts(program) {
            Ok(c) => c,
            Err(errors) => {
                return Err(errors);
            },
        };
        proof {
            assert(conflict_views(conflicts@) =~= program_conflicts(*program));
        }
        let mut i: usize = 0;
        while i < conflicts.len()
            invariant
                i <= conflicts@.len(),
                conflict_views(conflicts@) == program_conflicts(*program),
                self.reporter().wf(),
                self.reporter().all().len() == i,
                forall|k: int| 0 <= k < i ==> reports_conflict(#[trigger] self.reporter().all()[k], conflict_views(conflicts@)[k]),
            decreases conflicts@.len() - i,
        {
            let conflict = &conflicts[i];
            let location = SourceLocation::new("unknown".to_owned(), 0, 0);
            let message = join2("Rule conflict: ", conflict.description.as_str());
            match conflict.severity {
                ConflictSeverity::Error => self.diagnostic_reporter.error(DiagnosticCode::RULE_CONFLICT, message, location),
                ConflictSeverity::Warning => self.diagnostic_reporter.warning(DiagnosticCode::RULE_CONFLICT, message, location),
                ConflictSeverity::Info => self.diagnostic_reporter.info(DiagnosticCode::RULE_CONFLICT, message, location),
            }
            assert(conflict_views(conflicts@)[i as int] == conflicts@[i as int]@);
            i += 1;
        }
        let resolver = conflict_detector.resolver().duplicate();
        let type_checker = TypeChecker::new(resolver);
        proof {
            type_checker.resolver_spec().scopes().lemma_visible_global();
        }
        let mut bytecode_validator = BytecodeValidator::new(type_checker.resolver().duplicate(), type_checker);
        let r = bytecode_validator.validate_program(program);
        proof {
            assert(bytecode_validator.errs() =~= bv_defs(g, ds));
        }
        r
    }

    pub fn diagnostic_reporter(&self) -> (r: &DiagnosticReporter)
        ensures
            *r == self.reporter(),
    {
        &self.diagnostic_reporter
    }

    pub fn diagnostic_reporter_mut(&mut self) -> (r: &mut DiagnosticReporter)
        ensures
            *r == old(self).reporter(),
            final(self).reporter() == *final(r),
    {
        &mut self.diagnostic_reporter
    }
}

} // verus!
