//! The compiler front end: source text to a program's syntax tree, with
//! the errors of the lexer and of the parser.
use vstd::prelude::*;
use crate::front::token::{TokenKind, TokenV, token_views};
use crate::front::diagnostics::{Diagnostics, ErrorCode, ParserError};
use crate::front::lexer::{Lexer, LexState, lex, law_tokens_end_with_eof};
use crate::front::parser_state::{ErrV, PState, err_v};
use crate::front::parser::{Parser, strings_ok, strings_readable};
use crate::front::grammar::sp_program;
use crate::front::ast::Program;

verus! {

/// What the recorded errors say.
pub open spec fn diag_v(d: Diagnostics) -> Seq<ErrV> {
    d.diagnostics@.map_values(|e: ParserError| err_v(e))
}

/// The errors the lexer's error tokens stand for, in order.
pub open spec fn lex_errors(toks: Seq<TokenV>) -> Seq<ErrV>
    decreases toks.len(),
{
    if toks.len() == 0 {
        Seq::empty()
    } else {
        let t = toks.last();
        let rest = lex_errors(toks.drop_last());
        if t.kind == TokenKind::Error {
            rest.push(ErrV { code: ErrorCode::UnexpectedCharacter, message: t.lexeme, location: t.location, file: "unknown"@ })
        } else {
            rest
        }
    }
}

/// A parser's cursor before it read anything.
pub open spec fn fresh() -> PState {
    PState { pos: 0, errs: Seq::empty(), had_error: false, panic_mode: false }
}

/// The compiler front end and the errors it found.
pub struct KernCompiler {
    pub diagnostics: Diagnostics,
}

impl KernCompiler {
    pub fn new() -> (c: Self)
        ensures
            c.diagnostics.diagnostics@.len() == 0,
    {
        KernCompiler { diagnostics: Diagnostics::new() }
    }

    /// Whether `compile` can read every string literal of `source` (see
    /// `strings_ok`); `compile` asks for it.
    pub fn can_compile(source: &str) -> (r: bool)
        requires
            source@.len() <= usize::MAX / 4,
        ensures
            r == strings_ok(lex(source@)),
    {
        let mut lexer = Lexer::new(source);
        let tokens = lexer.tokenize();
        strings_readable(&tokens)
    }

    /// Reads `source`: records an error for each error token of the lexer,
    /// then those of the parser, and gives the program when no error has
    /// been recorded, this time or before.
    pub fn compile(&mut self, source: &str) -> (r: Option<Program>)
        requires
            source@.len() <= usize::MAX / 4,
            strings_ok(lex(source@)),
        ensures
            diag_v(final(self).diagnostics) == diag_v(old(self).diagnostics) + lex_errors(lex(source@))
                + sp_program(lex(source@), fresh()).1.errs,
            r is Some <==> final(self).diagnostics.diagnostics@.len() == 0,
            r is Some ==> r.unwrap()@ == sp_program(lex(source@), fresh()).0,
    {
        let ghost src = source@;
        let mut lexer = Lexer::new(source);
        let tokens = lexer.tokenize();
        let ghost toks = token_views(tokens@);
        assert(toks == lex(src));
        let mut i: usize = 0;
        while i < tokens.len()
            invariant
                i <= tokens@.len(),
                toks == token_views(tokens@),
                diag_v(self.diagnostics) == diag_v(old(self).diagnostics) + lex_errors(toks.take(i as int)),
            decreases tokens@.len() - i,
        {
            assert(toks.take(i as int) =~= toks.take(i + 1).drop_last());
            let ghost before = self.diagnostics.diagnostics@;
            if tokens[i].kind == TokenKind::Error {
                self.diagnostics.add_error(
                    ErrorCode::UnexpectedCharacter,
                    tokens[i].lexeme.clone(),
                    tokens[i].location,
                    "unknown".to_owned(),
                );
                proof {
                    crate::front::parser_state::lemma_errs_push(before, self.diagnostics.diagnostics@);
                }
            }
            i += 1;
        }
        assert(toks.take(tokens@.len() as int) =~= toks);
        proof {
            law_tokens_end_with_eof(src, LexState { pos: 0, line: 1, col: 1 });
            assert(tokens@.last()@ == toks.last());
        }
        let mut parser = Parser::new(tokens);
        assert(parser.st().errs =~= fresh().errs);
        assert(parser.st() == fresh());
        let program = parser.parse();
        let ghost mine = self.diagnostics.diagnostics@;
        let ghost theirs = parser.state.diagnostics.diagnostics@;
        self.diagnostics.diagnostics.append(&mut parser.state.diagnostics.diagnostics);
        assert(self.diagnostics.diagnostics@.map_values(|e: ParserError| err_v(e))
            =~= mine.map_values(|e: ParserError| err_v(e)) + theirs.map_values(|e: ParserError| err_v(e)));
        if self.diagnostics.has_errors() {
            None
        } else {
            Some(program)
        }
    }
}

} // verus!
