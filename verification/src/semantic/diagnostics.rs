//! Diagnostics: severities, codes, located messages and their collection.
use vstd::prelude::*;
use crate::text::{decimal, u64_to_decimal};

verus! {

#[derive(Debug, Clone, Copy, PartialEq, Eq, Structural)]
pub enum Severity {
    Info,
    Warning,
    Error,
    Fatal,
}

impl Severity {
    pub open spec fn spec_label(self) -> Seq<char> {
        match self {
            Severity::Info => "info"@,
            Severity::Warning => "warning"@,
            Severity::Error => "error"@,
            Severity::Fatal => "fatal"@,
        }
    }

    /// The lower-case label of the severity.
    pub fn label(self) -> (s: String)
        ensures
            s@ == self.spec_label(),
    {
        match self {
            Severity::Info => "info".to_owned(),
            Severity::Warning => "warning".to_owned(),
            Severity::Error => "error".to_owned(),
            Severity::Fatal => "fatal".to_owned(),
        }
    }
}

/// Codes of diagnostics.
#[allow(non_camel_case_types)]
#[derive(Debug, Clone, Copy, PartialEq, Eq)]
pub enum DiagnosticCode {
    TYPE_MISMATCH,
    INVALID_TYPE,
    UNKNOWN_TYPE,
    UNDECLARED_SYMBOL,
    DUPLICATE_DECLARATION,
    ILLEGAL_SHADOWING,
    CYCLIC_DEPENDENCY,
    SELF_DEPENDENCY,
    RULE_CONFLICT,
    OVERLAPPING_CONDITIONS,
    MUTUALLY_EXCLUSIVE_ACTIONS,
    UNSUPPORTED_TYPE_FOR_BYTECODE,
    DYNAMIC_TYPE_REQUIRED,
    STACK_UNDERFLOW_RISK,
    INVALIDopCODE,
    SYNTAX_ERROR,
    SEMANTIC_ERROR,
}

impl DiagnosticCode {
    pub open spec fn spec_name(self) -> Seq<char> {
        match self {
            DiagnosticCode::TYPE_MISMATCH => "TYPE_MISMATCH"@,
            DiagnosticCode::INVALID_TYPE => "INVALID_TYPE"@,
            DiagnosticCode::UNKNOWN_TYPE => "UNKNOWN_TYPE"@,
            DiagnosticCode::UNDECLARED_SYMBOL => "UNDECLARED_SYMBOL"@,
            DiagnosticCode::DUPLICATE_DECLARATION => "DUPLICATE_DECLARATION"@,
            DiagnosticCode::ILLEGAL_SHADOWING => "ILLEGAL_SHADOWING"@,
            DiagnosticCode::CYCLIC_DEPENDENCY => "CYCLIC_DEPENDENCY"@,
            DiagnosticCode::SELF_DEPENDENCY => "SELF_DEPENDENCY"@,
            DiagnosticCode::RULE_CONFLICT => "RULE_CONFLICT"@,
            DiagnosticCode::OVERLAPPING_CONDITIONS => "OVERLAPPING_CONDITIONS"@,
            DiagnosticCode::MUTUALLY_EXCLUSIVE_ACTIONS => "MUTUALLY_EXCLUSIVE_ACTIONS"@,
            DiagnosticCode::UNSUPPORTED_TYPE_FOR_BYTECODE => "UNSUPPORTED_TYPE_FOR_BYTECODE"@,
            DiagnosticCode::DYNAMIC_TYPE_REQUIRED => "DYNAMIC_TYPE_REQUIRED"@,
            DiagnosticCode::STACK_UNDERFLOW_RISK => "STACK_UNDERFLOW_RISK"@,
            DiagnosticCode::INVALIDopCODE => "INVALIDopCODE"@,
            DiagnosticCode::SYNTAX_ERROR => "SYNTAX_ERROR"@,
            DiagnosticCode::SEMANTIC_ERROR => "SEMANTIC_ERROR"@,
        }
    }

    /// The name of the code as it appears in a diagnostic.
    pub fn name(self) -> (s: String)
        ensures
            s@ == self.spec_name(),
    {
        match self {
            DiagnosticCode::TYPE_MISMATCH => "TYPE_MISMATCH".to_owned(),
            DiagnosticCode::INVALID_TYPE => "INVALID_TYPE".to_owned(),
            DiagnosticCode::UNKNOWN_TYPE => "UNKNOWN_TYPE".to_owned(),
            DiagnosticCode::UNDECLARED_SYMBOL => "UNDECLARED_SYMBOL".to_owned(),
            DiagnosticCode::DUPLICATE_DECLARATION => "DUPLICATE_DECLARATION".to_owned(),
            DiagnosticCode::ILLEGAL_SHADOWING => "ILLEGAL_SHADOWING".to_owned(),
            DiagnosticCode::CYCLIC_DEPENDENCY => "CYCLIC_DEPENDENCY".to_owned(),
            DiagnosticCode::SELF_DEPENDENCY => "SELF_DEPENDENCY".to_owned(),
            DiagnosticCode::RULE_CONFLICT => "RULE_CONFLICT".to_owned(),
            DiagnosticCode::OVERLAPPING_CONDITIONS => "OVERLAPPING_CONDITIONS".to_owned(),
            DiagnosticCode::MUTUALLY_EXCLUSIVE_ACTIONS => "MUTUALLY_EXCLUSIVE_ACTIONS".to_owned(),
            DiagnosticCode::UNSUPPORTED_TYPE_FOR_BYTECODE => "UNSUPPORTED_TYPE_FOR_BYTECODE".to_owned(),
            DiagnosticCode::DYNAMIC_TYPE_REQUIRED => "DYNAMIC_TYPE_REQUIRED".to_owned(),
            DiagnosticCode::STACK_UNDERFLOW_RISK => "STACK_UNDERFLOW_RISK".to_owned(),
            DiagnosticCode::INVALIDopCODE => "INVALIDopCODE".to_owned(),
            DiagnosticCode::SYNTAX_ERROR => "SYNTAX_ERROR".to_owned(),
            DiagnosticCode::SEMANTIC_ERROR => "SEMANTIC_ERROR".to_owned(),
        }
    }
}

/// A place in a source file, with the length of the text concerned.
#[derive(Debug, Clone, PartialEq, Eq)]
pub struct SourceLocation {
    pub file: String,
    pub line: usize,
    pub column: usize,
    pub length: usize,
}

impl SourceLocation {
    pub fn new(file: String, line: usize, column: usize) -> (l: Self)
        ensures
            l == (SourceLocation { file, line, column, length: 0 }),
    {
        SourceLocation { file, line, column, length: 0 }
    }

    pub fn with_length(self, length: usize) -> (l: Self)
        ensures
            l == (SourceLocation { length, ..self }),
    {
        SourceLocation { length, ..self }
    }
}

#[derive(Debug, Clone, PartialEq, Eq)]
pub struct Diagnostic {
    pub severity: Severity,
    pub code: DiagnosticCode,
    pub message: String,
    pub location: SourceLocation,
    pub notes: Vec<String>,
    pub help: Option<String>,
}

/// The note lines of a diagnostic.
pub open spec fn note_lines(notes: Seq<String>) -> Seq<char>
    decreases notes.len(),
{
    if notes.len() == 0 {
        Seq::empty()
    } else {
        note_lines(notes.drop_last()) + "\n    = note: "@ + notes.last()@
    }
}

impl Diagnostic {
    pub fn new(severity: Severity, code: DiagnosticCode, message: String, location: SourceLocation) -> (d: Self)
        ensures
            d.severity == severity,
            d.code == code,
            d.message == message,
            d.location == location,
            d.notes@ == Seq::<String>::empty(),
            d.help is None,
    {
        Diagnostic { severity, code, message, location, notes: Vec::new(), help: None }
    }

    pub fn with_note(self, note: String) -> (d: Self)
        ensures
            d.notes@ == self.notes@.push(note),
            d.severity == self.severity,
            d.code == self.code,
            d.message == self.message,
            d.location == self.location,
            d.help == self.help,
    {
        let mut d = self;
        d.notes.push(note);
        d
    }

    pub fn with_help(self, help: String) -> (d: Self)
        ensures
            d.help == Some(help),
            d.notes == self.notes,
            d.severity == self.severity,
            d.code == self.code,
            d.message == self.message,
            d.location == self.location,
    {
        Diagnostic { help: Some(help), ..self }
    }

    /// `file:line:column: severity CODE: message`, then a line per note and one for the help.
    pub open spec fn formatted(&self) -> Seq<char> {
        self.location.file@ + ":"@ + decimal(self.location.line as nat) + ":"@ + decimal(self.location.column as nat) + ": "@
            + self.severity.spec_label() + " "@ + self.code.spec_name() + ": "@ + self.message@
            + note_lines(self.notes@)
            + match self.help {
                Some(h) => "\n    = help: "@ + h@,
                None => Seq::empty(),
            }
    }

    pub fn format(&self) -> (s: String)
        ensures
            s@ == self.formatted(),
    {
        let mut result = self.location.file.clone();
        result.append(":");
        result.append(u64_to_decimal(self.location.line as u64).as_str());
        result.append(":");
        result.append(u64_to_decimal(self.location.column as u64).as_str());
        result.append(": ");
        result.append(self.severity.label().as_str());
        result.append(" ");
        result.append(self.code.name().as_str());
        result.append(": ");
        result.append(self.message.as_str());
        let ghost head = result@;
        let mut i: usize = 0;
        assert(self.notes@.subrange(0, 0) =~= Seq::<String>::empty());
        while i < self.notes.len()
            invariant
                i <= self.notes@.len(),
                result@ == head + note_lines(self.notes@.subrange(0, i as int)),
            decreases self.notes@.len() - i,
        {
            result.append("\n    = note: ");
            result.append(self.notes[i].as_str());
            proof {
                let sub = self.notes@.subrange(0, i + 1);
                assert(sub.drop_last() =~= self.notes@.subrange(0, i as int));
            }
            i += 1;
        }
        assert(self.notes@.subrange(0, i as int) =~= self.notes@);
        match &self.help {
            Some(h) => {
                result.append("\n    = help: ");
                result.append(h.as_str());
            },
            None => {},
        }
        result
    }
}

pub open spec fn is_error_like(d: Diagnostic) -> bool {
    d.severity == Severity::Error || d.severity == Severity::Fatal
}

pub open spec fn error_like() -> spec_fn(Diagnostic) -> bool {
    |d: Diagnostic| is_error_like(d)
}

pub open spec fn of_severity(sev: Severity) -> spec_fn(Diagnostic) -> bool {
    |d: Diagnostic| d.severity == sev
}

/// Collects diagnostics and tracks whether an error was reported.
#[derive(Debug)]
pub struct DiagnosticReporter {
    diagnostics: Vec<Diagnostic>,
    max_errors: usize,
    max_warnings: usize,
    has_errors: bool,
}

impl DiagnosticReporter {
    /// The diagnostics reported, in order. The error flag is no part of
    /// it: `wf` fixes the flag as what this sequence gives.
    pub closed spec fn all(&self) -> Seq<Diagnostic> {
        self.diagnostics@
    }

    pub closed spec fn max_errors_spec(&self) -> usize {
        self.max_errors
    }

    pub closed spec fn max_warnings_spec(&self) -> usize {
        self.max_warnings
    }

    /// The error flag is set exactly when an error or fatal diagnostic was reported.
    pub closed spec fn wf(&self) -> bool {
        self.has_errors == exists|i: int| 0 <= i < self.diagnostics@.len() && is_error_like(#[trigger] self.diagnostics@[i])
    }

    /// No diagnostics; at most a hundred errors and a hundred warnings.
    pub fn new() -> (r: Self)
        ensures
            r.wf(),
            r.all() == Seq::<Diagnostic>::empty(),
            r.max_errors_spec() == 100,
            r.max_warnings_spec() == 100,
    {
        DiagnosticReporter { diagnostics: Vec::new(), max_errors: 100, max_warnings: 100, has_errors: false }
    }

    pub fn with_max_errors(self, max: usize) -> (r: Self)
        requires
            self.wf(),
        ensures
            r.wf(),
            r.all() == self.all(),
            r.max_errors_spec() == max,
            r.max_warnings_spec() == self.max_warnings_spec(),
    {
        DiagnosticReporter { max_errors: max, ..self }
    }

    pub fn with_max_warnings(self, max: usize) -> (r: Self)
        requires
            self.wf(),
        ensures
            r.wf(),
            r.all() == self.all(),
            r.max_warnings_spec() == max,
            r.max_errors_spec() == self.max_errors_spec(),
    {
        DiagnosticReporter { max_warnings: max, ..self }
    }

    /// Adds a diagnostic.
    pub fn report(&mut self, diagnostic: Diagnostic)
        requires
            old(self).wf(),
        ensures
            final(self).wf(),
            final(self).all() == old(self).all().push(diagnostic),
            final(self).max_errors_spec() == old(self).max_errors_spec(),
            final(self).max_warnings_spec() == old(self).max_warnings_spec(),
    {
        let err = match diagnostic.severity {
            Severity::Error | Severity::Fatal => true,
            _ => false,
        };
        let ghost d0 = self.diagnostics@;
        self.diagnostics.push(diagnostic);
        if err {
            self.has_errors = true;
            assert(is_error_like(self.diagnostics@[d0.len() as int]));
        } else {
            proof {
                if self.has_errors {
                    let i = choose|i: int| 0 <= i < d0.len() && is_error_like(#[trigger] d0[i]);
                    assert(self.diagnostics@[i] == d0[i]);
                }
                assert forall|i: int| 0 <= i < self.diagnostics@.len() && is_error_like(#[trigger] self.diagnostics@[i]) implies self.has_errors by {
                    if i < d0.len() {
                        assert(d0[i] == self.diagnostics@[i]);
                    }
                }
            }
        }
    }

    pub fn error(&mut self, code: DiagnosticCode, message: String, location: SourceLocation)
        requires
            old(self).wf(),
        ensures
            final(self).wf(),
            final(self).all() == old(self).all().push(Diagnostic { severity: Severity::Error, code, message, location, notes: final(self).all().last().notes, help: None }),
            final(self).all().last().notes@ == Seq::<String>::empty(),
            final(self).max_errors_spec() == old(self).max_errors_spec(),
            final(self).max_warnings_spec() == old(self).max_warnings_spec(),
    {
        self.report(Diagnostic::new(Severity::Error, code, message, location));
    }

    pub fn warning(&mut self, code: DiagnosticCode, message: String, location: SourceLocation)
        requires
            old(self).wf(),
        ensures
            final(self).wf(),
            final(self).all() == old(self).all().push(Diagnostic { severity: Severity::Warning, code, message, location, notes: final(self).all().last().notes, help: None }),
            final(self).all().last().notes@ == Seq::<String>::empty(),
            final(self).max_errors_spec() == old(self).max_errors_spec(),
            final(self).max_warnings_spec() == old(self).max_warnings_spec(),
    {
        self.report(Diagnostic::new(Severity::Warning, code, message, location));
    }

    pub fn info(&mut self, code: DiagnosticCode, message: String, location: SourceLocation)
        requires
            old(self).wf(),
        ensures
            final(self).wf(),
            final(self).all() == old(self).all().push(Diagnostic { severity: Severity::Info, code, message, location, notes: final(self).all().last().notes, help: None }),
            final(self).all().last().notes@ == Seq::<String>::empty(),
            final(self).max_errors_spec() == old(self).max_errors_spec(),
            final(self).max_warnings_spec() == old(self).max_warnings_spec(),
    {
        self.report(Diagnostic::new(Severity::Info, code, message, location));
    }

    pub fn fatal(&mut self, code: DiagnosticCode, message: String, location: SourceLocation)
        requires
            old(self).wf(),
        ensures
            final(self).wf(),
            final(self).all() == old(self).all().push(Diagnostic { severity: Severity::Fatal, code, message, location, notes: final(self).all().last().notes, help: None }),
            final(self).all().last().notes@ == Seq::<String>::empty(),
            final(self).max_errors_spec() == old(self).max_errors_spec(),
            final(self).max_warnings_spec() == old(self).max_warnings_spec(),
    {
        self.report(Diagnostic::new(Severity::Fatal, code, message, location));
    }

    /// Whether an error or fatal diagnostic was reported.
    pub fn has_errors(&self) -> (b: bool)
        requires
            self.wf(),
        ensures
            b == exists|i: int| 0 <= i < self.all().len() && is_error_like(#[trigger] self.all()[i]),
    {
        self.has_errors
    }

    pub fn has_diagnostics_of_severity(&self, severity: Severity) -> (b: bool)
        ensures
            b == exists|i: int| 0 <= i < self.all().len() && (#[trigger] self.all()[i]).severity == severity,
    {
        let mut i: usize = 0;
        while i < self.diagnostics.len()
            invariant
                i <= self.diagnostics@.len(),
                forall|j: int| 0 <= j < i ==> (#[trigger] self.diagnostics@[j]).severity != severity,
            decreases self.diagnostics@.len() - i,
        {
            if self.diagnostics[i].severity == severity {
                return true;
            }
            i += 1;
        }
        false
    }

    pub fn diagnostics(&self) -> (d: &[Diagnostic])
        ensures
            d@ == self.all(),
    {
        self.diagnostics.as_slice()
    }

    /// The diagnostics that satisfy `keep`, in order.
    fn select(&self, keep: Ghost<spec_fn(Diagnostic) -> bool>, sev_a: Severity, sev_b: Severity) -> (v: Vec<&Diagnostic>)
        requires
            forall|d: Diagnostic| #[trigger] keep@(d) == (d.severity == sev_a || d.severity == sev_b),
        ensures
            v@.len() == self.all().filter(keep@).len(),
            forall|i: int| 0 <= i < v@.len() ==> *(#[trigger] v@[i]) == self.all().filter(keep@)[i],
    {
        let mut v: Vec<&Diagnostic> = Vec::new();
        let mut i: usize = 0;
        let ghost all = self.diagnostics@;
        assert(all.subrange(0, 0).filter(keep@) =~= Seq::<Diagnostic>::empty()) by {
            reveal(Seq::filter);
        }
        while i < self.diagnostics.len()
            invariant
                forall|d: Diagnostic| #[trigger] keep@(d) == (d.severity == sev_a || d.severity == sev_b),
                all == self.diagnostics@,
                i <= all.len(),
                v@.len() == all.subrange(0, i as int).filter(keep@).len(),
                forall|j: int| 0 <= j < v@.len() ==> *(#[trigger] v@[j]) == all.subrange(0, i as int).filter(keep@)[j],
            decreases all.len() - i,
        {
            let d = &self.diagnostics[i];
            let ghost prev = all.subrange(0, i as int).filter(keep@);
            let ghost v0 = v@;
            proof {
                let sub = all.subrange(0, i + 1);
                assert(sub.drop_last() =~= all.subrange(0, i as int));
                assert(sub.last() == *d);
                reveal(Seq::filter);
                assert(sub.filter(keep@) == if keep@(*d) { prev.push(*d) } else { prev });
            }
            if d.severity == sev_a || d.severity == sev_b {
                v.push(d);
                proof {
                    assert forall|j: int| 0 <= j < v@.len() implies *(#[trigger] v@[j]) == prev.push(*d)[j] by {
                        if j < v0.len() {
                            assert(v@[j] == v0[j]);
                        }
                    }
                }
            }
            i += 1;
        }
        assert(all.subrange(0, i as int) =~= all);
        v
    }

    /// The error and fatal diagnostics, in order.
    pub fn errors(&self) -> (v: Vec<&Diagnostic>)
        ensures
            v@.len() == self.all().filter(error_like()).len(),
            forall|i: int| 0 <= i < v@.len() ==> *(#[trigger] v@[i]) == self.all().filter(error_like())[i],
    {
        self.select(Ghost(error_like()), Severity::Error, Severity::Fatal)
    }

    /// The warnings, in order.
    pub fn warnings(&self) -> (v: Vec<&Diagnostic>)
        ensures
            v@.len() == self.all().filter(of_severity(Severity::Warning)).len(),
            forall|i: int| 0 <= i < v@.len() ==> *(#[trigger] v@[i]) == self.all().filter(of_severity(Severity::Warning))[i],
    {
        self.select(Ghost(of_severity(Severity::Warning)), Severity::Warning, Severity::Warning)
    }

    /// The informational diagnostics, in order.
    pub fn info_messages(&self) -> (v: Vec<&Diagnostic>)
        ensures
            v@.len() == self.all().filter(of_severity(Severity::Info)).len(),
            forall|i: int| 0 <= i < v@.len() ==> *(#[trigger] v@[i]) == self.all().filter(of_severity(Severity::Info))[i],
    {
        self.select(Ghost(of_severity(Severity::Info)), Severity::Info, Severity::Info)
    }

    /// The formatted diagnostics, one per line, in order.
    pub fn formatted_diagnostics(&self) -> (v: Vec<String>)
        ensures
            v@.len() == self.all().len(),
            forall|i: int| 0 <= i < v@.len() ==> (#[trigger] v@[i])@ == self.all()[i].formatted(),
    {
        let mut v: Vec<String> = Vec::new();
        let mut i: usize = 0;
        while i < self.diagnostics.len()
            invariant
                i <= self.diagnostics@.len(),
                v@.len() == i,
                forall|j: int| 0 <= j < i ==> (#[trigger] v@[j])@ == self.diagnostics@[j].formatted(),
            decreases self.diagnostics@.len() - i,
        {
            v.push(self.diagnostics[i].format());
            i += 1;
        }
        v
    }

    /// Whether as many errors or as many warnings as allowed have been reported.
    pub fn limits_reached(&self) -> (b: bool)
        ensures
            b == (self.all().filter(error_like()).len() >= self.max_errors_spec()
                || self.all().filter(of_severity(Severity::Warning)).len() >= self.max_warnings_spec()),
    {
        self.errors().len() >= self.max_errors || self.warnings().len() >= self.max_warnings
    }

    /// The numbers of error, warning, info and fatal diagnostics.
    pub fn diagnostic_counts(&self) -> (r: (usize, usize, usize, usize))
        ensures
            r.0 == self.all().filter(of_severity(Severity::Error)).len(),
            r.1 == self.all().filter(of_severity(Severity::Warning)).len(),
            r.2 == self.all().filter(of_severity(Severity::Info)).len(),
            r.3 == self.all().filter(of_severity(Severity::Fatal)).len(),
    {
        let e = self.select(Ghost(of_severity(Severity::Error)), Severity::Error, Severity::Error).len();
        let w = self.select(Ghost(of_severity(Severity::Warning)), Severity::Warning, Severity::Warning).len();
        let n = self.select(Ghost(of_severity(Severity::Info)), Severity::Info, Severity::Info).len();
        let f = self.select(Ghost(of_severity(Severity::Fatal)), Severity::Fatal, Severity::Fatal).len();
        (e, w, n, f)
    }
}

} // verus!
