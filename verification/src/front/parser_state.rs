//! The parser's cursor over a token sequence, and the errors it records.
use vstd::prelude::*;
use crate::front::token::{SourceLocation, Token, TokenKind, TokenV, token_views};
use crate::front::diagnostics::{Diagnostics, ErrorCode, ParserError};
use crate::front::lexer::opt_view;

verus! {

/// What a recorded error says.
pub struct ErrV {
    pub code: ErrorCode,
    pub message: Seq<char>,
    pub location: SourceLocation,
    pub file: Seq<char>,
}

pub open spec fn err_v(e: ParserError) -> ErrV {
    ErrV { code: e.code, message: e.message@, location: e.location, file: e.file@ }
}

/// What the cursor says, the tokens aside: the index of the current token,
/// the errors recorded, and the two flags.
pub struct PState {
    pub pos: int,
    pub errs: Seq<ErrV>,
    pub had_error: bool,
    pub panic_mode: bool,
}

/// Whether the current token is `Eof`.
pub open spec fn ended(toks: Seq<TokenV>, st: PState) -> bool {
    toks[st.pos].kind == TokenKind::Eof
}

/// The cursor moved past the current token, unless that is `Eof`.
pub open spec fn stepped(toks: Seq<TokenV>, st: PState) -> PState {
    if ended(toks, st) {
        st
    } else {
        PState { pos: st.pos + 1, errs: st.errs, had_error: st.had_error, panic_mode: st.panic_mode }
    }
}

/// Whether the current token, not `Eof`, is of `kind`.
pub open spec fn sees(toks: Seq<TokenV>, st: PState, kind: TokenKind) -> bool {
    !ended(toks, st) && toks[st.pos].kind == kind
}

/// The cursor with an error recorded at the current token.
pub open spec fn with_error(toks: Seq<TokenV>, st: PState, code: ErrorCode, message: Seq<char>) -> PState {
    PState {
        pos: st.pos,
        errs: st.errs.push(ErrV { code, message, location: toks[st.pos].location, file: "unknown"@ }),
        had_error: true,
        panic_mode: st.panic_mode,
    }
}

/// Taking a token of `kind`: the token and the cursor past it, or nothing
/// and the cursor with the error recorded.
pub open spec fn consumed(toks: Seq<TokenV>, st: PState, kind: TokenKind, code: ErrorCode, message: Seq<char>) -> (Option<TokenV>, PState) {
    if sees(toks, st, kind) {
        (Some(toks[st.pos]), stepped(toks, st))
    } else {
        (None, with_error(toks, st, code, message))
    }
}

/// Taking a token of `kind` if it is the current one.
pub open spec fn matched(toks: Seq<TokenV>, st: PState, kind: TokenKind) -> (bool, PState) {
    if sees(toks, st, kind) {
        (true, stepped(toks, st))
    } else {
        (false, st)
    }
}

/// The cursor once it skipped to the next point to resume at.
pub open spec fn synced(toks: Seq<TokenV>, st: PState) -> PState {
    let j = sync_index(toks, st.pos);
    PState {
        pos: if toks[j].kind == TokenKind::Semicolon { j + 1 } else { j },
        errs: st.errs,
        had_error: true,
        panic_mode: false,
    }
}

/// The errors of `new` are those of `old` and one more.
pub proof fn lemma_errs_push(old: Seq<ParserError>, new: Seq<ParserError>)
    requires
        new.len() == old.len() + 1,
        new.drop_last() == old,
    ensures
        new.map_values(|e: ParserError| err_v(e)) == old.map_values(|e: ParserError| err_v(e)).push(err_v(new.last())),
{
    assert forall|i: int| 0 <= i < old.len() implies new[i] == old[i] by {
        assert(new.drop_last()[i] == new[i]);
    }
    assert(new.map_values(|e: ParserError| err_v(e)) =~= old.map_values(|e: ParserError| err_v(e)).push(err_v(new.last())));
}

/// Tokens at which the parser resumes after an error.
pub open spec fn is_sync_point(kind: TokenKind) -> bool {
    kind == TokenKind::Semicolon || kind == TokenKind::Entity || kind == TokenKind::Rule
        || kind == TokenKind::Flow || kind == TokenKind::Constraint || kind == TokenKind::Eof
}

/// The first index from `i` on whose token is a point to resume at.
pub open spec fn sync_index(tokens: Seq<TokenV>, i: int) -> int
    decreases tokens.len() - i,
{
    if 0 <= i < tokens.len() && !is_sync_point(tokens[i].kind) {
        sync_index(tokens, i + 1)
    } else {
        i
    }
}

/// The parser's cursor: the tokens, the index of the current one, the
/// errors recorded, and two flags.
#[derive(Debug, Clone)]
pub struct ParserState {
    pub tokens: Vec<Token>,
    pub current: usize,
    pub diagnostics: Diagnostics,
    pub had_error: bool,
    pub panic_mode: bool,
}

impl ParserState {
    /// The tokens end with `Eof` and the cursor stands on one of them.
    pub open spec fn wf(&self) -> bool {
        &&& self.tokens@.len() > 0
        &&& self.tokens@.last().kind == TokenKind::Eof
        &&& self.current < self.tokens@.len()
    }

    /// What the tokens say.
    pub open spec fn toks(&self) -> Seq<TokenV> {
        token_views(self.tokens@)
    }

    /// What the cursor says.
    pub open spec fn sv(&self) -> PState {
        PState {
            pos: self.current as int,
            errs: self.diagnostics.diagnostics@.map_values(|e: ParserError| err_v(e)),
            had_error: self.had_error,
            panic_mode: self.panic_mode,
        }
    }

    /// The kind of the current token.
    pub open spec fn current_kind(&self) -> TokenKind {
        self.tokens@[self.current as int].kind
    }

    pub open spec fn at_end(&self) -> bool {
        self.current_kind() == TokenKind::Eof
    }

    /// The cursor moved on, the rest unchanged.
    pub open spec fn moved_to(&self, other: &Self, current: int) -> bool {
        &&& other.tokens@ == self.tokens@
        &&& other.current == current
        &&& other.diagnostics == self.diagnostics
        &&& other.had_error == self.had_error
        &&& other.panic_mode == self.panic_mode
    }

    pub fn new(tokens: Vec<Token>) -> (s: Self)
        ensures
            s.tokens@ == tokens@,
            s.current == 0,
            s.diagnostics.diagnostics@.len() == 0,
            !s.had_error,
            !s.panic_mode,
    {
        ParserState { tokens, current: 0, diagnostics: Diagnostics::new(), had_error: false, panic_mode: false }
    }

    pub fn current_token(&self) -> (t: &Token)
        requires
            self.wf(),
        ensures
            *t == self.tokens@[self.current as int],
    {
        &self.tokens[self.current]
    }

    pub fn previous_token(&self) -> (t: &Token)
        requires
            0 < self.current <= self.tokens@.len(),
        ensures
            *t == self.tokens@[self.current - 1],
    {
        &self.tokens[self.current - 1]
    }

    /// Moves past the current token unless it is `Eof`, and gives the token
    /// before the cursor.
    pub fn advance(&mut self) -> (t: Token)
        requires
            old(self).wf(),
            old(self).current > 0 || !old(self).at_end(),
        ensures
            final(self).wf(),
            old(self).moved_to(final(self), if old(self).at_end() { old(self).current as int } else { old(self).current + 1 }),
            t == final(self).tokens@[final(self).current - 1],
            final(self).sv() == stepped(old(self).toks(), old(self).sv()),
            final(self).toks() == old(self).toks(),
    {
        let n = self.tokens.len();
        if !self.is_at_end() {
            proof {
                if self.current + 1 == n {
                    assert(self.tokens@[self.current as int] == self.tokens@.last());
                }
            }
            self.current = self.current + 1;
        }
        self.previous_token().copy()
    }

    pub fn is_at_end(&self) -> (r: bool)
        requires
            self.wf(),
        ensures
            r == self.at_end(),
            r == ended(self.toks(), self.sv()),
    {
        self.current_token().kind == TokenKind::Eof
    }

    /// Moves past the current token if it is of one of `kinds`.
    pub fn match_token(&mut self, kinds: &[TokenKind]) -> (r: bool)
        requires
            old(self).wf(),
        ensures
            final(self).wf(),
            r == (!old(self).at_end() && kinds@.contains(old(self).current_kind())),
            old(self).moved_to(final(self), if r { old(self).current + 1 } else { old(self).current as int }),
    {
        let mut i: usize = 0;
        while i < kinds.len()
            invariant
                self == old(self),
                self.wf(),
                i <= kinds@.len(),
                forall|j: int| 0 <= j < i ==> !(!self.at_end() && kinds@[j] == self.current_kind()),
            decreases kinds@.len() - i,
        {
            if self.check(&kinds[i]) {
                self.advance();
                return true;
            }
            i += 1;
        }
        proof {
            if !old(self).at_end() && kinds@.contains(old(self).current_kind()) {
                let j = choose|j: int| 0 <= j < kinds@.len() && kinds@[j] == old(self).current_kind();
                assert(!(!self.at_end() && kinds@[j] == self.current_kind()));
            }
        }
        false
    }

    /// Whether the current token, not `Eof`, is of `kind`.
    pub fn check(&self, kind: &TokenKind) -> (r: bool)
        requires
            self.wf(),
        ensures
            r == (!self.at_end() && self.current_kind() == *kind),
            r == sees(self.toks(), self.sv(), *kind),
    {
        if self.is_at_end() {
            return false;
        }
        self.current_token().kind == *kind
    }

    /// Takes the current token if it is of `kind`; otherwise records the
    /// error at the current token and takes nothing.
    pub fn consume(&mut self, kind: TokenKind, error_code: ErrorCode, message: &str) -> (r: Option<Token>)
        requires
            old(self).wf(),
        ensures
            final(self).wf(),
            (!old(self).at_end() && old(self).current_kind() == kind) ==> {
                &&& r == Some(old(self).tokens@[old(self).current as int])
                &&& old(self).moved_to(final(self), old(self).current + 1)
            },
            !(!old(self).at_end() && old(self).current_kind() == kind) ==> {
                &&& r is None
                &&& final(self).tokens@ == old(self).tokens@
                &&& final(self).current == old(self).current
                &&& final(self).panic_mode == old(self).panic_mode
                &&& final(self).had_error
                &&& final(self).diagnostics.diagnostics@.drop_last() == old(self).diagnostics.diagnostics@
                &&& final(self).diagnostics.diagnostics@.last().code == error_code
                &&& final(self).diagnostics.diagnostics@.last().message@ == message@
                &&& final(self).diagnostics.diagnostics@.last().location == old(self).tokens@[old(self).current as int].location
                &&& final(self).diagnostics.diagnostics@.last().file@ == "unknown"@
                &&& final(self).diagnostics.diagnostics@.len() == old(self).diagnostics.diagnostics@.len() + 1
            },
            opt_view(r) == consumed(old(self).toks(), old(self).sv(), kind, error_code, message@).0,
            final(self).sv() == consumed(old(self).toks(), old(self).sv(), kind, error_code, message@).1,
            final(self).toks() == old(self).toks(),
    {
        if self.check(&kind) {
            return Some(self.advance());
        }
        let location = self.current_token().location;
        self.diagnostics.add_error(error_code, message.to_owned(), location, "unknown".to_owned());
        self.had_error = true;
        proof {
            lemma_errs_push(old(self).diagnostics.diagnostics@, self.diagnostics.diagnostics@);
            assert(self.sv().errs =~= with_error(old(self).toks(), old(self).sv(), error_code, message@).errs);
        }
        None
    }

    /// Skips to the next point to resume at: past a `;`, or onto the start
    /// of a declaration or `Eof`.
    pub fn synchronize(&mut self)
        requires
            old(self).wf(),
        ensures
            final(self).wf(),
            final(self).tokens@ == old(self).tokens@,
            final(self).diagnostics == old(self).diagnostics,
            final(self).had_error,
            !final(self).panic_mode,
            final(self).sv() == synced(old(self).toks(), old(self).sv()),
            old(self).current <= sync_index(old(self).toks(), old(self).current as int) < old(self).tokens@.len(),
            is_sync_point(old(self).toks()[sync_index(old(self).toks(), old(self).current as int)].kind),
    {
        self.panic_mode = false;
        self.had_error = true;
        let ghost target = sync_index(self.toks(), self.current as int);
        proof {
            lemma_sync_index(self.toks(), self.current as int);
        }
        while !self.is_at_end()
            invariant
                self.wf(),
                self.tokens@ == old(self).tokens@,
                self.diagnostics == old(self).diagnostics,
                self.had_error,
                !self.panic_mode,
                old(self).current <= self.current <= target,
                sync_index(self.toks(), self.current as int) == target,
                target == sync_index(old(self).toks(), old(self).current as int),
                target < self.tokens@.len(),
                is_sync_point(self.toks()[target].kind),
            decreases self.tokens@.len() - self.current,
        {
            let kind = self.current_token().kind;
            assert(kind == self.toks()[self.current as int].kind);
            assert(is_sync_point(kind) ==> sync_index(self.toks(), self.current as int) == self.current);
            if kind == TokenKind::Semicolon {
                assert(self.current == target);
                self.advance();
                assert(self.current == target + 1);
                return;
            } else if kind == TokenKind::Entity || kind == TokenKind::Rule || kind == TokenKind::Flow
                || kind == TokenKind::Constraint {
                assert(self.current == target);
                return;
            } else {
                self.advance();
            }
        }
    }

    /// Records an error at the current token.
    pub fn error_at_current(&mut self, error_code: ErrorCode, message: String)
        requires
            old(self).wf(),
        ensures
            final(self).wf(),
            final(self).tokens@ == old(self).tokens@,
            final(self).current == old(self).current,
            final(self).panic_mode == old(self).panic_mode,
            final(self).had_error,
            final(self).diagnostics.diagnostics@.len() == old(self).diagnostics.diagnostics@.len() + 1,
            final(self).diagnostics.diagnostics@.drop_last() == old(self).diagnostics.diagnostics@,
            final(self).diagnostics.diagnostics@.last().code == error_code,
            final(self).diagnostics.diagnostics@.last().message@ == message@,
            final(self).diagnostics.diagnostics@.last().location == old(self).tokens@[old(self).current as int].location,
            final(self).diagnostics.diagnostics@.last().file@ == "unknown"@,
            final(self).sv() == with_error(old(self).toks(), old(self).sv(), error_code, message@),
            final(self).toks() == old(self).toks(),
    {
        let location = self.current_token().location;
        self.diagnostics.add_error(error_code, message, location, "unknown".to_owned());
        self.had_error = true;
        proof {
            lemma_errs_push(old(self).diagnostics.diagnostics@, self.diagnostics.diagnostics@);
            assert(self.sv().errs =~= with_error(old(self).toks(), old(self).sv(), error_code, message@).errs);
        }
    }
}

pub proof fn lemma_sync_index(tokens: Seq<TokenV>, i: int)
    requires
        0 <= i < tokens.len(),
        tokens.last().kind == TokenKind::Eof,
    ensures
        i <= sync_index(tokens, i) < tokens.len(),
        is_sync_point(tokens[sync_index(tokens, i)].kind),
    decreases tokens.len() - i,
{
    if !is_sync_point(tokens[i].kind) {
        lemma_sync_index(tokens, i + 1);
    }
}

} // verus!
