use kern::front::compiler::KernCompiler;
use kern::front::parser::Parser;
use kern::front::config::Config;
use kern::front::diagnostics::{Diagnostics, ErrorCode};
use kern::front::keywords::{get_all_keywords, is_keyword};
use kern::front::lexer::Lexer;
use kern::front::parser_state::ParserState;
use kern::front::precedence::Precedence;
use kern::front::string_interner::StringInterner;
use kern::front::token::{SourceLocation, Token, TokenKind};

fn lex(src: &str) -> Vec<Token> {
    let mut lexer = Lexer::new(src);
    lexer.tokenize()
}

fn at(line: usize, column: usize, offset: usize) -> SourceLocation {
    SourceLocation::new(line, column, offset)
}

#[test]
fn lexer_reads_words_operators_and_numbers() {
    let tokens = lex("if x >= 10");
    let kinds: Vec<TokenKind> = tokens.iter().map(|t| t.kind).collect();
    assert_eq!(kinds, vec![TokenKind::If, TokenKind::Identifier, TokenKind::GreaterEqual, TokenKind::NumberLiteral, TokenKind::Eof]);
    assert_eq!(tokens[0].lexeme, "if");
    assert_eq!(tokens[0].location, at(1, 2, 1));
    assert_eq!(tokens[1].location, at(1, 5, 4));
    assert_eq!(tokens[2].lexeme, ">=");
    assert_eq!(tokens[2].location, at(1, 8, 7));
    assert_eq!(tokens[3].lexeme, "10");
    assert_eq!(tokens[3].location, at(1, 10, 9));
    assert_eq!(tokens[4].lexeme, "");
    assert_eq!(tokens[4].location, at(1, 11, 10));
}

#[test]
fn lexer_counts_a_line_break_twice() {
    let tokens = lex("a\nb");
    assert_eq!(tokens[1].lexeme, "b");
    assert_eq!(tokens[1].location, at(3, 2, 3));
}

#[test]
fn lexer_strings_comments_and_errors() {
    let tokens = lex("\"hi\"");
    assert_eq!(tokens[0].kind, TokenKind::StringLiteral);
    assert_eq!(tokens[0].lexeme, "hi");
    assert_eq!(tokens[0].location, at(1, 2, 1));
    assert_eq!(tokens[1].location, at(1, 5, 4));
    let tokens = lex("\"ab");
    assert_eq!(tokens[0].kind, TokenKind::Error);
    assert_eq!(tokens[0].lexeme, "Unterminated string");
    let tokens = lex("@");
    assert_eq!(tokens[0].kind, TokenKind::Error);
    assert_eq!(tokens[0].lexeme, "Unexpected character: @");
    let tokens = lex("// hi\nx");
    assert_eq!(tokens.len(), 2);
    assert_eq!(tokens[0].lexeme, "x");
    assert_eq!(tokens[0].location, at(3, 2, 7));
    let tokens = lex("3.14 3.");
    assert_eq!(tokens[0].lexeme, "3.14");
    assert_eq!(tokens[1].lexeme, "3");
    assert_eq!(tokens[2].kind, TokenKind::Dot);
    let tokens = lex("a->b&&c||d!=e");
    let kinds: Vec<TokenKind> = tokens.iter().map(|t| t.kind).collect();
    assert_eq!(kinds, vec![
        TokenKind::Identifier, TokenKind::Arrow, TokenKind::Identifier, TokenKind::AmpersandAmpersand,
        TokenKind::Identifier, TokenKind::PipePipe, TokenKind::Identifier, TokenKind::BangEqual,
        TokenKind::Identifier, TokenKind::Eof,
    ]);
}

#[test]
fn lexer_output_ends_with_one_eof() {
    for src in ["", "rule r", "\"x", "a\n\n b // c", "!@#"] {
        let tokens = lex(src);
        assert_eq!(tokens.last().unwrap().kind, TokenKind::Eof);
        assert_eq!(tokens.iter().filter(|t| t.kind == TokenKind::Eof).count(), 1);
    }
}

#[test]
fn keywords_table() {
    assert_eq!(is_keyword("entity"), Some(TokenKind::Entity));
    assert_eq!(is_keyword("ctx"), Some(TokenKind::Ctx));
    assert_eq!(is_keyword("Entity"), None);
    let all = get_all_keywords();
    assert_eq!(all.len(), 15);
    assert_eq!(all.get("then"), Some(&TokenKind::Then));
    assert_eq!(all.get("while"), None);
}

#[test]
fn precedence_of_operators() {
    assert_eq!(Precedence::from_token(&TokenKind::Equal), Precedence::Assignment);
    assert_eq!(Precedence::from_token(&TokenKind::Minus), Precedence::Term);
    assert_eq!(Precedence::from_token(&TokenKind::LeftBracket), Precedence::Call);
    assert_eq!(Precedence::from_token(&TokenKind::Comma), Precedence::Lowest);
    assert!(Precedence::Term < Precedence::Factor);
}

#[test]
fn config_defaults() {
    let c = Config::default();
    assert_eq!(c.max_errors, 100);
    assert!(c.enable_unicode);
    assert_eq!(c.tab_width, 4);
    assert_eq!(c.max_source_lines, 10000);
}

#[test]
fn interner_numbers_each_text_once() {
    let mut interner = StringInterner::new();
    let a = interner.intern("alpha");
    let b = interner.intern("beta");
    assert_eq!(interner.intern("alpha"), a);
    assert_eq!(a, 0);
    assert_eq!(b, 1);
    assert_eq!(interner.resolve(1), Some("beta"));
    assert_eq!(interner.resolve(2), None);
}

#[test]
fn parser_state_moves_and_records_errors() {
    let mut state = ParserState::new(lex("rule x ; entity"));
    assert!(state.check(&TokenKind::Rule));
    assert!(state.match_token(&[TokenKind::Flow, TokenKind::Rule]));
    assert_eq!(state.current, 1);
    assert!(state.consume(TokenKind::Identifier, ErrorCode::ExpectedIdentifier, "name").is_some());
    assert!(state.consume(TokenKind::Colon, ErrorCode::ExpectedDelimiter, "expected ':'").is_none());
    assert!(state.had_error);
    assert_eq!(state.diagnostics.diagnostics.len(), 1);
    assert_eq!(state.diagnostics.diagnostics[0].message, "expected ':'");
    assert_eq!(state.diagnostics.diagnostics[0].file, "unknown");
    state.synchronize();
    assert_eq!(state.current_token().kind, TokenKind::Entity);
    state.advance();
    assert!(state.is_at_end());
    state.error_at_current(ErrorCode::ExpectedDeclaration, "end".to_string());
    assert_eq!(state.diagnostics.diagnostics.len(), 2);
}

#[test]
fn compiler_and_parser_start_empty() {
    let compiler = KernCompiler::new();
    assert!(!compiler.diagnostics.has_errors());
    let parser = Parser::new(lex("flow f"));
    assert_eq!(parser.get_diagnostics().diagnostics.len(), 0);
    let mut d = Diagnostics::new();
    d.add_error(ErrorCode::MissingSemicolon, "x".to_string(), at(1, 1, 0), "f".to_string());
    assert!(d.has_errors());
}
