//! The parser: a token sequence to a program's syntax tree, each step as
//! the grammar states it.
use vstd::prelude::*;
use crate::front::token::{SourceLocation, Span, Token, TokenKind, TokenV, token_views};
use crate::front::diagnostics::{Diagnostics, ErrorCode};
use crate::front::parser_state::{ParserState, PState, ended, sees, matched, lemma_sync_index};
use crate::front::precedence::{Precedence, rank};
use crate::front::ast::{AssignmentExpression, BinaryExpression, BlockStatement, BreakStatement, CallExpression, ConstraintAction, ConstraintCondition, ConstraintDeclaration, ContinueStatement, DeclV, Declaration, EntityDeclaration, ExprV, Expression, ExpressionStatement, Field, FieldV, FlowDeclaration, FlowStep, ForStatement, GroupingExpression, Identifier, IfStatement, IndexExpression, Literal, LiteralValue, MemberExpression, Program, ReturnStatement, RuleAction, RuleCondition, RuleDeclaration, Statement, StmtV, Type, TypeV, UnaryExpression, VariableExpression, WhileStatement, decl_v, decls_v, expr_v, exprs_v, fields_v, lemma_exprs_v_push, lemma_stmts_v_push, opt_expr_v, steps_v, stmt_v, stmts_v};
use crate::front::grammar::{moved, point, prev_loc, sp_arguments, sp_block, sp_block_items, sp_constraint, sp_declaration, sp_declarations, sp_entity, sp_expression, sp_expression_statement, sp_field, sp_field_type, sp_fields, sp_flow, sp_flow_steps, sp_for, sp_for_condition, sp_for_increment, sp_for_init, sp_if, sp_infix, sp_infix_loop, sp_precedence, sp_prefix, sp_program, sp_return, sp_rule, sp_skip_to_name, sp_statement, sp_while};
use crate::text::join2;

verus! {

/// Every string literal token holds at least two characters, the first and
/// the last of them ASCII.
pub open spec fn strings_ok(toks: Seq<TokenV>) -> bool {
    forall|i: int| 0 <= i < toks.len() && #[trigger] toks[i].kind == TokenKind::StringLiteral ==> {
        &&& toks[i].lexeme.len() >= 2
        &&& (toks[i].lexeme[0] as u32) < 128
        &&& (toks[i].lexeme.last() as u32) < 128
    }
}

/// Whether every string literal among `tokens` can be read: the test that
/// `strings_ok` states, made before a parse.
pub fn strings_readable(tokens: &Vec<Token>) -> (r: bool)
    ensures
        r == strings_ok(token_views(tokens@)),
{
    let ghost toks = token_views(tokens@);
    let mut i: usize = 0;
    while i < tokens.len()
        invariant
            i <= tokens@.len(),
            toks == token_views(tokens@),
            forall|j: int| 0 <= j < i && #[trigger] toks[j].kind == TokenKind::StringLiteral ==> {
                &&& toks[j].lexeme.len() >= 2
                &&& (toks[j].lexeme[0] as u32) < 128
                &&& (toks[j].lexeme.last() as u32) < 128
            },
        decreases tokens@.len() - i,
    {
        assert(toks[i as int] == tokens@[i as int]@);
        if tokens[i].kind == TokenKind::StringLiteral {
            let text = tokens[i].lexeme.as_str();
            let n = text.unicode_len();
            if n < 2 {
                assert(toks[i as int].kind == TokenKind::StringLiteral);
                return false;
            }
            let first = text.get_char(0);
            let last = text.get_char(n - 1);
            if (first as u32) >= 128 || (last as u32) >= 128 {
                assert(toks[i as int].kind == TokenKind::StringLiteral);
                return false;
            }
        }
        i += 1;
    }
    true
}

pub open spec fn opt_stmt_v(s: Option<Statement>) -> Option<StmtV> {
    match s {
        Some(x) => Some(stmt_v(x)),
        None => None,
    }
}

pub open spec fn opt_decl_v(d: Option<Declaration>) -> Option<DeclV> {
    match d {
        Some(x) => Some(decl_v(x)),
        None => None,
    }
}

pub open spec fn opt_field_v(f: Option<Field>) -> Option<FieldV> {
    match f {
        Some(x) => Some(x@),
        None => None,
    }
}

pub open spec fn opt_type_v(t: Option<Type>) -> Option<TypeV> {
    match t {
        Some(x) => Some(x@),
        None => None,
    }
}

fn point_span(location: SourceLocation) -> (s: Span)
    ensures
        s == point(location),
{
    Span { start: location, end: location }
}

/// A parser over a token sequence.
pub struct Parser {
    pub state: ParserState,
}

impl Parser {
    /// What the tokens say.
    pub open spec fn toks(&self) -> Seq<TokenV> {
        self.state.toks()
    }

    /// What the cursor says.
    pub open spec fn st(&self) -> PState {
        self.state.sv()
    }

    /// The cursor stands on a token of a sequence that ends with `Eof`, and
    /// every string literal can be read.
    pub open spec fn ready(&self) -> bool {
        self.state.wf() && strings_ok(self.toks())
    }

    /// `next` reads the same tokens, its cursor not before this one's.
    pub open spec fn follows(&self, next: &Self) -> bool {
        &&& next.ready()
        &&& next.state.tokens@ == self.state.tokens@
        &&& self.state.current <= next.state.current
    }

    pub fn new(tokens: Vec<Token>) -> (p: Self)
        ensures
            p.state.tokens@ == tokens@,
            p.state.current == 0,
            p.state.diagnostics.diagnostics@.len() == 0,
            !p.state.had_error,
            !p.state.panic_mode,
    {
        Parser { state: ParserState::new(tokens) }
    }

    /// Whether the parser is ready to read (see `ready`).
    pub fn is_ready(&self) -> (r: bool)
        ensures
            r == self.ready(),
    {
        let n = self.state.tokens.len();
        n > 0 && self.state.tokens[n - 1].kind == TokenKind::Eof && self.state.current < n
            && strings_readable(&self.state.tokens)
    }

    /// The errors recorded so far.
    pub fn get_diagnostics(&self) -> (d: &Diagnostics)
        ensures
            *d == self.state.diagnostics,
    {
        &self.state.diagnostics
    }

    /// Takes the current token if it is of `kind`.
    fn match_kind(&mut self, kind: TokenKind) -> (r: bool)
        requires
            old(self).ready(),
        ensures
            old(self).follows(final(self)),
            r == matched(old(self).toks(), old(self).st(), kind).0,
            final(self).st() == matched(old(self).toks(), old(self).st(), kind).1,
            r ==> final(self).state.current == old(self).state.current + 1,
    {
        if self.state.check(&kind) {
            self.state.advance();
            true
        } else {
            false
        }
    }

    fn expression(&mut self) -> (r: Option<Expression>)
        requires
            old(self).ready(),
        ensures
            old(self).follows(final(self)),
            opt_expr_v(r) == sp_expression(old(self).toks(), old(self).st()).0,
            final(self).st() == sp_expression(old(self).toks(), old(self).st()).1,
            r is Some ==> final(self).state.current > old(self).state.current,
            old(self).state.current_kind() == TokenKind::Identifier ==> final(self).state.current > old(self).state.current,
        decreases old(self).state.tokens@.len() - old(self).state.current, 3int,
    {
        self.parse_precedence(Precedence::Assignment)
    }

    fn parse_precedence(&mut self, precedence: Precedence) -> (r: Option<Expression>)
        requires
            old(self).ready(),
        ensures
            old(self).follows(final(self)),
            opt_expr_v(r) == sp_precedence(old(self).toks(), old(self).st(), precedence).0,
            final(self).st() == sp_precedence(old(self).toks(), old(self).st(), precedence).1,
            r is Some ==> final(self).state.current > old(self).state.current,
            old(self).state.current_kind() == TokenKind::Identifier ==> final(self).state.current > old(self).state.current,
        decreases old(self).state.tokens@.len() - old(self).state.current, 2int,
    {
        let ghost toks = self.toks();
        let mut expr = match self.prefix() {
            Some(e) => e,
            None => return None,
        };
        while precedence.rank() < Precedence::from_token(&self.state.current_token().kind).rank()
            invariant
                old(self).follows(self),
                toks == old(self).toks(),
                self.state.current > old(self).state.current,
                sp_infix_loop(toks, self.st(), precedence, expr_v(expr)) == sp_precedence(toks, old(self).st(), precedence),
            decreases self.state.tokens@.len() - self.state.current,
        {
            assert(self.toks()[self.state.current as int].kind == self.state.tokens@[self.state.current as int].kind);
            match self.infix(expr) {
                Some(e) => expr = e,
                None => return None,
            }
        }
        assert(self.toks()[self.state.current as int].kind == self.state.tokens@[self.state.current as int].kind);
        Some(expr)
    }

    fn prefix(&mut self) -> (r: Option<Expression>)
        requires
            old(self).ready(),
        ensures
            old(self).follows(final(self)),
            opt_expr_v(r) == sp_prefix(old(self).toks(), old(self).st()).0,
            final(self).st() == sp_prefix(old(self).toks(), old(self).st()).1,
            r is Some ==> final(self).state.current > old(self).state.current,
            old(self).state.current_kind() == TokenKind::Identifier ==> final(self).state.current > old(self).state.current,
        decreases old(self).state.tokens@.len() - old(self).state.current, 0int,
    {
        let ghost toks = self.toks();
        let token = self.state.current_token().copy();
        assert(token@ == toks[self.state.current as int]);
        match token.kind {
            TokenKind::NumberLiteral => {
                self.state.advance();
                Some(Expression::Literal(Literal { value: LiteralValue::Number(token.lexeme), span: point_span(token.location) }))
            },
            TokenKind::StringLiteral => {
                self.state.advance();
                let n = token.lexeme.as_str().unicode_len();
                let content = token.lexeme.as_str().substring_char(1, n - 1).to_owned();
                Some(Expression::Literal(Literal { value: LiteralValue::String(content), span: point_span(token.location) }))
            },
            TokenKind::True | TokenKind::False => {
                self.state.advance();
                Some(Expression::Literal(Literal {
                    value: LiteralValue::Boolean(token.kind == TokenKind::True),
                    span: point_span(token.location),
                }))
            },
            TokenKind::Identifier => {
                self.state.advance();
                let location = token.location;
                Some(Expression::Variable(VariableExpression {
                    name: Identifier { name: token.lexeme, span: point_span(location) },
                    span: point_span(location),
                }))
            },
            TokenKind::LeftParen => {
                self.state.advance();
                let expr = match self.expression() {
                    Some(e) => e,
                    None => return None,
                };
                self.state.consume(TokenKind::RightParen, ErrorCode::MissingRightParen, "Expected ')' after expression");
                let end = self.state.previous_token().location;
                assert(end == prev_loc(toks, self.st()));
                Some(Expression::Grouping(GroupingExpression { expression: Box::new(expr), span: Span { start: token.location, end } }))
            },
            TokenKind::Bang | TokenKind::Minus => {
                self.state.advance();
                let right = match self.prefix() {
                    Some(e) => e,
                    None => return None,
                };
                let end = right.span().end;
                Some(Expression::Unary(UnaryExpression {
                    operator: token.kind,
                    operand: Box::new(right),
                    span: Span { start: token.location, end },
                }))
            },
            _ => {
                self.state.error_at_current(ErrorCode::ExpectedExpression, join2("Expected expression, found ", token.kind.name()));
                None
            },
        }
    }

    fn infix(&mut self, left: Expression) -> (r: Option<Expression>)
        requires
            old(self).ready(),
        ensures
            old(self).follows(final(self)),
            opt_expr_v(r) == sp_infix(old(self).toks(), old(self).st(), expr_v(left)).0,
            final(self).st() == sp_infix(old(self).toks(), old(self).st(), expr_v(left)).1,
            r is Some ==> final(self).state.current > old(self).state.current,
        decreases old(self).state.tokens@.len() - old(self).state.current, 0int,
    {
        let ghost toks = self.toks();
        let token = self.state.current_token().copy();
        assert(token@ == toks[self.state.current as int]);
        let precedence = Precedence::from_token(&token.kind);
        match token.kind {
            TokenKind::Plus | TokenKind::Minus | TokenKind::Star | TokenKind::Slash | TokenKind::Percent
            | TokenKind::EqualEqual | TokenKind::BangEqual | TokenKind::Less | TokenKind::LessEqual
            | TokenKind::Greater | TokenKind::GreaterEqual | TokenKind::AmpersandAmpersand | TokenKind::PipePipe => {
                self.state.advance();
                let right = match self.parse_precedence(precedence) {
                    Some(e) => e,
                    None => return None,
                };
                let start = left.span().start;
                let end = right.span().end;
                Some(Expression::Binary(BinaryExpression {
                    left: Box::new(left),
                    operator: token.kind,
                    right: Box::new(right),
                    span: Span { start, end },
                }))
            },
            TokenKind::Equal => {
                self.state.advance();
                let value = match self.parse_precedence(Precedence::Assignment) {
                    Some(e) => e,
                    None => return None,
                };
                let start = left.span().start;
                let end = value.span().end;
                Some(Expression::Assignment(AssignmentExpression {
                    target: Box::new(left),
                    value: Box::new(value),
                    span: Span { start, end },
                }))
            },
            TokenKind::LeftParen => {
                self.state.advance();
                let arguments = if !self.state.check(&TokenKind::RightParen) {
                    match self.arguments(Vec::new()) {
                        Some(a) => a,
                        None => return None,
                    }
                } else {
                    proof {
                        assert(exprs_v(Seq::<Expression>::empty()) =~= Seq::<ExprV>::empty());
                    }
                    Vec::new()
                };
                self.state.consume(TokenKind::RightParen, ErrorCode::MissingRightParen, "Expected ')' after arguments");
                let start = left.span().start;
                let end = self.state.previous_token().location;
                Some(Expression::Call(CallExpression { callee: Box::new(left), arguments, span: Span { start, end } }))
            },
            TokenKind::Dot => {
                self.state.advance();
                let name = match self.state.consume(TokenKind::Identifier, ErrorCode::ExpectedIdentifier, "Expected property name") {
                    Some(n) => n,
                    None => return None,
                };
                let start = left.span().start;
                let location = name.location;
                Some(Expression::Member(MemberExpression {
                    object: Box::new(left),
                    property: Identifier { name: name.lexeme, span: point_span(location) },
                    span: Span { start, end: location },
                }))
            },
            TokenKind::LeftBracket => {
                self.state.advance();
                let index = match self.expression() {
                    Some(e) => e,
                    None => return None,
                };
                self.state.consume(TokenKind::RightBracket, ErrorCode::MissingRightBracket, "Expected ']' after index expression");
                let start = left.span().start;
                let end = self.state.previous_token().location;
                Some(Expression::Index(IndexExpression { object: Box::new(left), index: Box::new(index), span: Span { start, end } }))
            },
            _ => {
                self.state.error_at_current(ErrorCode::ExpectedOperator, join2("Expected operator, found ", token.kind.name()));
                None
            },
        }
    }

    /// The arguments of a call after those in `done`.
    fn arguments(&mut self, done: Vec<Expression>) -> (r: Option<Vec<Expression>>)
        requires
            old(self).ready(),
        ensures
            old(self).follows(final(self)),
            (match r {
                Some(v) => Some(exprs_v(v@)),
                None => None,
            }) == sp_arguments(old(self).toks(), old(self).st(), exprs_v(done@)).0,
            final(self).st() == sp_arguments(old(self).toks(), old(self).st(), exprs_v(done@)).1,
        decreases old(self).state.tokens@.len() - old(self).state.current, 4int,
    {
        let mut done = done;
        match self.expression() {
            Some(arg) => {
                proof {
                    lemma_exprs_v_push(done@, arg);
                }
                done.push(arg);
                if self.match_kind(TokenKind::Comma) {
                    self.arguments(done)
                } else {
                    Some(done)
                }
            },
            None => {
                self.state.error_at_current(ErrorCode::ExpectedArgumentList, "Expected argument in call expression".to_owned());
                None
            },
        }
    }
}

impl Parser {
    fn block_statement(&mut self) -> (r: Option<Statement>)
        requires
            old(self).ready(),
        ensures
            old(self).follows(final(self)),
            opt_stmt_v(r) == sp_block(old(self).toks(), old(self).st()).0,
            final(self).st() == sp_block(old(self).toks(), old(self).st()).1,
        decreases old(self).state.tokens@.len() - old(self).state.current, 7int,
    {
        let ghost toks = self.toks();
        self.state.consume(TokenKind::LeftBrace, ErrorCode::ExpectedBlock, "Expected '{' before block");
        let ghost st0 = self.st();
        let mut statements: Vec<Statement> = Vec::new();
        assert(stmts_v(statements@) =~= Seq::<StmtV>::empty());
        while !self.state.check(&TokenKind::RightBrace) && !self.state.is_at_end()
            invariant_except_break
                old(self).follows(self),
                toks == self.toks(),
                sp_block_items(toks, self.st(), stmts_v(statements@)) == sp_block_items(toks, st0, Seq::empty()),
            ensures
                old(self).follows(self),
                toks == self.toks(),
                sp_block_items(toks, st0, Seq::empty()) == (stmts_v(statements@), self.st()),
            decreases self.state.tokens@.len() - self.state.current,
        {
            let before = self.state.current;
            let ghost acc = stmts_v(statements@);
            let ghost st1 = self.st();
            match self.statement() {
                Some(stmt) => {
                    proof {
                        lemma_stmts_v_push(statements@, stmt);
                    }
                    statements.push(stmt);
                },
                None => {},
            }
            if self.state.current == before {
                // the statement took no token: the block ends here
                break;
            }
        }
        let end_brace = self.state.consume(TokenKind::RightBrace, ErrorCode::MissingRightBrace, "Expected '}' after block");
        if end_brace.is_none() {
            return None;
        }
        let location = self.state.previous_token().location;
        Some(Statement::Block(BlockStatement { statements, span: point_span(location) }))
    }

    fn statement(&mut self) -> (r: Option<Statement>)
        requires
            old(self).ready(),
        ensures
            old(self).follows(final(self)),
            opt_stmt_v(r) == sp_statement(old(self).toks(), old(self).st()).0,
            final(self).st() == sp_statement(old(self).toks(), old(self).st()).1,
        decreases old(self).state.tokens@.len() - old(self).state.current, 5int,
    {
        if self.match_kind(TokenKind::LeftBrace) {
            return self.block_statement();
        }
        if self.match_kind(TokenKind::If) {
            return self.if_statement();
        }
        if self.match_kind(TokenKind::While) {
            return self.while_statement();
        }
        if self.match_kind(TokenKind::For) {
            return self.for_statement();
        }
        if self.match_kind(TokenKind::Return) {
            return self.return_statement();
        }
        if self.match_kind(TokenKind::Break) {
            let location = self.state.previous_token().location;
            return Some(Statement::Break(BreakStatement { span: point_span(location) }));
        }
        if self.match_kind(TokenKind::Continue) {
            let location = self.state.previous_token().location;
            return Some(Statement::Continue(ContinueStatement { span: point_span(location) }));
        }
        self.expression_statement()
    }

    fn expression_statement(&mut self) -> (r: Option<Statement>)
        requires
            old(self).ready(),
        ensures
            old(self).follows(final(self)),
            opt_stmt_v(r) == sp_expression_statement(old(self).toks(), old(self).st()).0,
            final(self).st() == sp_expression_statement(old(self).toks(), old(self).st()).1,
        decreases old(self).state.tokens@.len() - old(self).state.current, 4int,
    {
        let expr = match self.expression() {
            Some(e) => e,
            None => return None,
        };
        self.state.consume(TokenKind::Semicolon, ErrorCode::MissingSemicolon, "Expected ';' after expression");
        let span = *expr.span();
        Some(Statement::Expression(ExpressionStatement { expression: expr, span }))
    }

    fn if_statement(&mut self) -> (r: Option<Statement>)
        requires
            old(self).ready(),
            old(self).state.current > 0,
        ensures
            old(self).follows(final(self)),
            opt_stmt_v(r) == sp_if(old(self).toks(), old(self).st()).0,
            final(self).st() == sp_if(old(self).toks(), old(self).st()).1,
        decreases old(self).state.tokens@.len() - old(self).state.current, 6int,
    {
        let start = self.state.previous_token().location;
        self.state.consume(TokenKind::LeftParen, ErrorCode::ExpectedDelimiter, "Expected '(' after 'if'");
        let condition = match self.expression() {
            Some(e) => e,
            None => return None,
        };
        self.state.consume(TokenKind::RightParen, ErrorCode::MissingRightParen, "Expected ')' after condition");
        let then_branch = match self.statement() {
            Some(s) => s,
            None => return None,
        };
        let else_branch = if self.match_kind(TokenKind::Else) {
            match self.statement() {
                Some(s) => Some(Box::new(s)),
                None => return None,
            }
        } else {
            None
        };
        let end = match &else_branch {
            Some(e) => e.span().end,
            None => then_branch.span().end,
        };
        Some(Statement::If(IfStatement { condition, then_branch: Box::new(then_branch), else_branch, span: Span { start, end } }))
    }

    fn while_statement(&mut self) -> (r: Option<Statement>)
        requires
            old(self).ready(),
            old(self).state.current > 0,
        ensures
            old(self).follows(final(self)),
            opt_stmt_v(r) == sp_while(old(self).toks(), old(self).st()).0,
            final(self).st() == sp_while(old(self).toks(), old(self).st()).1,
        decreases old(self).state.tokens@.len() - old(self).state.current, 6int,
    {
        let start = self.state.previous_token().location;
        self.state.consume(TokenKind::LeftParen, ErrorCode::ExpectedDelimiter, "Expected '(' after 'while'");
        let condition = match self.expression() {
            Some(e) => e,
            None => return None,
        };
        self.state.consume(TokenKind::RightParen, ErrorCode::MissingRightParen, "Expected ')' after condition");
        let body = match self.statement() {
            Some(s) => s,
            None => return None,
        };
        let end = body.span().end;
        Some(Statement::While(Box::new(WhileStatement { condition, body: Box::new(body), span: Span { start, end } })))
    }

    fn for_statement(&mut self) -> (r: Option<Statement>)
        requires
            old(self).ready(),
            old(self).state.current > 0,
        ensures
            old(self).follows(final(self)),
            opt_stmt_v(r) == sp_for(old(self).toks(), old(self).st()).0,
            final(self).st() == sp_for(old(self).toks(), old(self).st()).1,
        decreases old(self).state.tokens@.len() - old(self).state.current, 6int,
    {
        let ghost toks = self.toks();
        let start = self.state.previous_token().location;
        self.state.consume(TokenKind::LeftParen, ErrorCode::ExpectedDelimiter, "Expected '(' after 'for'");
        let ghost s1 = self.st();
        let initializer = if self.match_kind(TokenKind::Semicolon) {
            None
        } else {
            let init_stmt = self.expression_statement();
            self.state.consume(TokenKind::Semicolon, ErrorCode::MissingSemicolon, "Expected ';' after for loop initializer");
            init_stmt
        };
        assert(opt_stmt_v(initializer) == sp_for_init(toks, s1).0 && self.st() == sp_for_init(toks, s1).1);
        let ghost s2 = self.st();
        let condition = if self.state.check(&TokenKind::Semicolon) {
            self.state.advance();
            let location = self.state.previous_token().location;
            Expression::Literal(Literal { value: LiteralValue::Boolean(true), span: point_span(location) })
        } else {
            let expr = match self.expression() {
                Some(e) => e,
                None => return None,
            };
            self.state.consume(TokenKind::Semicolon, ErrorCode::MissingSemicolon, "Expected ';' after for loop condition");
            expr
        };
        assert(Some(expr_v(condition)) == sp_for_condition(toks, s2).0 && self.st() == sp_for_condition(toks, s2).1);
        let ghost s3 = self.st();
        let increment = if self.state.check(&TokenKind::RightParen) {
            None
        } else {
            match self.expression() {
                Some(e) => Some(e),
                None => return None,
            }
        };
        assert(Some(opt_expr_v(increment)) == sp_for_increment(toks, s3).0 && self.st() == sp_for_increment(toks, s3).1);
        self.state.consume(TokenKind::RightParen, ErrorCode::MissingRightParen, "Expected ')' after for clauses");
        let body = match self.statement() {
            Some(s) => s,
            None => return None,
        };
        let end = body.span().end;
        let initializer = match initializer {
            Some(stmt) => Some(Box::new(stmt)),
            None => None,
        };
        Some(Statement::For(Box::new(ForStatement { initializer, condition, increment, body: Box::new(body), span: Span { start, end } })))
    }

    fn return_statement(&mut self) -> (r: Option<Statement>)
        requires
            old(self).ready(),
            old(self).state.current > 0,
        ensures
            old(self).follows(final(self)),
            opt_stmt_v(r) == sp_return(old(self).toks(), old(self).st()).0,
            final(self).st() == sp_return(old(self).toks(), old(self).st()).1,
        decreases old(self).state.tokens@.len() - old(self).state.current, 6int,
    {
        let start = self.state.previous_token().location;
        let value = if self.state.check(&TokenKind::Semicolon) {
            None
        } else {
            self.expression()
        };
        self.state.consume(TokenKind::Semicolon, ErrorCode::MissingSemicolon, "Expected ';' after return value");
        let end = self.state.previous_token().location;
        Some(Statement::Return(Box::new(ReturnStatement { value, span: Span { start, end } })))
    }
}

impl Parser {
    fn field_type(&mut self) -> (r: Option<Type>)
        requires
            old(self).ready(),
        ensures
            old(self).follows(final(self)),
            opt_type_v(r) == sp_field_type(old(self).toks(), old(self).st()).0,
            final(self).st() == sp_field_type(old(self).toks(), old(self).st()).1,
    {
        let ghost toks = self.toks();
        let kind = self.state.current_token().kind;
        assert(kind == toks[self.state.current as int].kind);
        match kind {
            TokenKind::Sym => {
                self.state.advance();
                Some(Type::Sym)
            },
            TokenKind::Num => {
                self.state.advance();
                Some(Type::Num)
            },
            TokenKind::Bool => {
                self.state.advance();
                Some(Type::Bool)
            },
            TokenKind::Vec => {
                self.state.advance();
                Some(Type::Vec)
            },
            TokenKind::Ref => {
                self.state.advance();
                Some(Type::Ref)
            },
            TokenKind::Ctx => {
                self.state.advance();
                Some(Type::Ctx)
            },
            TokenKind::Identifier => {
                let ident = self.state.advance();
                let location = ident.location;
                Some(Type::Identifier(Identifier { name: ident.lexeme, span: point_span(location) }))
            },
            _ => {
                self.state.error_at_current(ErrorCode::ExpectedTypeName, join2("Expected type name, found ", kind.name()));
                None
            },
        }
    }

    fn field_declaration(&mut self) -> (r: Option<Field>)
        requires
            old(self).ready(),
        ensures
            old(self).follows(final(self)),
            opt_field_v(r) == sp_field(old(self).toks(), old(self).st()).0,
            final(self).st() == sp_field(old(self).toks(), old(self).st()).1,
            old(self).state.current_kind() == TokenKind::Identifier ==> final(self).state.current > old(self).state.current,
            r is Some ==> final(self).state.current > old(self).state.current,
    {
        let name = match self.state.consume(TokenKind::Identifier, ErrorCode::ExpectedIdentifier, "Expected field name") {
            Some(n) => n,
            None => return None,
        };
        self.state.consume(TokenKind::Colon, ErrorCode::ExpectedDelimiter, "Expected ':' after field name");
        let field_type = match self.field_type() {
            Some(t) => t,
            None => return None,
        };
        let location = name.location;
        let end = self.state.previous_token().location;
        Some(Field { name: Identifier { name: name.lexeme, span: point_span(location) }, field_type, span: Span { start: location, end } })
    }

    /// Skips to a name, `}` or the end.
    fn synchronize_field(&mut self)
        requires
            old(self).ready(),
        ensures
            old(self).follows(final(self)),
            final(self).st() == sp_skip_to_name(old(self).toks(), old(self).st()),
            (!ended(old(self).toks(), old(self).st()) && !sees(old(self).toks(), old(self).st(), TokenKind::RightBrace)
                && !sees(old(self).toks(), old(self).st(), TokenKind::Identifier))
                ==> final(self).state.current > old(self).state.current,
    {
        let ghost toks = self.toks();
        while !self.state.is_at_end() && !self.state.check(&TokenKind::RightBrace) && !self.state.check(&TokenKind::Identifier)
            invariant
                old(self).follows(self),
                toks == self.toks(),
                sp_skip_to_name(toks, self.st()) == sp_skip_to_name(toks, old(self).st()),
                (!ended(toks, old(self).st()) && !sees(toks, old(self).st(), TokenKind::RightBrace)
                    && !sees(toks, old(self).st(), TokenKind::Identifier) && self.state.current == old(self).state.current)
                    ==> !ended(toks, self.st()) && !sees(toks, self.st(), TokenKind::RightBrace)
                    && !sees(toks, self.st(), TokenKind::Identifier),
            decreases self.state.tokens@.len() - self.state.current,
        {
            self.state.advance();
        }
    }

    fn entity_declaration(&mut self) -> (r: Option<Declaration>)
        requires
            old(self).ready(),
            old(self).state.current > 0,
        ensures
            old(self).follows(final(self)),
            opt_decl_v(r) == sp_entity(old(self).toks(), old(self).st()).0,
            final(self).st() == sp_entity(old(self).toks(), old(self).st()).1,
    {
        let ghost toks = self.toks();
        let start = self.state.previous_token().location;
        let name = match self.state.consume(TokenKind::Identifier, ErrorCode::ExpectedIdentifier, "Expected entity name") {
            Some(n) => n,
            None => {
                self.state.synchronize();
                return None;
            },
        };
        self.state.consume(TokenKind::LeftBrace, ErrorCode::MissingRightBrace, "Expected '{' before entity fields");
        let ghost st0 = self.st();
        let mut fields: Vec<Field> = Vec::new();
        assert(fields_v(fields@) =~= Seq::<FieldV>::empty());
        while !self.state.check(&TokenKind::RightBrace) && !self.state.is_at_end()
            invariant
                old(self).follows(self),
                toks == self.toks(),
                sp_fields(toks, self.st(), fields_v(fields@)) == sp_fields(toks, st0, Seq::empty()),
            decreases self.state.tokens@.len() - self.state.current,
        {
            let ghost before = self.st();
            let ghost acc = fields_v(fields@);
            match self.field_declaration() {
                Some(field) => {
                    fields.push(field);
                    assert(fields_v(fields@) =~= acc.push(field@));
                },
                None => self.synchronize_field(),
            }
            assert(moved(toks, before, self.st()));
            assert(sp_fields(toks, before, acc) == sp_fields(toks, self.st(), fields_v(fields@)));
        }
        let end_brace = self.state.consume(TokenKind::RightBrace, ErrorCode::MissingRightBrace, "Expected '}' after entity fields");
        if end_brace.is_none() {
            self.state.synchronize();
            return None;
        }
        let end = self.state.previous_token().location;
        let location = name.location;
        Some(Declaration::Entity(EntityDeclaration {
            name: Identifier { name: name.lexeme, span: point_span(location) },
            fields,
            span: Span { start, end },
        }))
    }

    fn rule_declaration(&mut self) -> (r: Option<Declaration>)
        requires
            old(self).ready(),
            old(self).state.current > 0,
        ensures
            old(self).follows(final(self)),
            opt_decl_v(r) == sp_rule(old(self).toks(), old(self).st()).0,
            final(self).st() == sp_rule(old(self).toks(), old(self).st()).1,
    {
        let start = self.state.previous_token().location;
        let name = match self.state.consume(TokenKind::Identifier, ErrorCode::ExpectedIdentifier, "Expected rule name") {
            Some(n) => n,
            None => {
                self.state.synchronize();
                return None;
            },
        };
        self.state.consume(TokenKind::LeftBrace, ErrorCode::MissingRightBrace, "Expected '{' before rule condition");
        let expression = match self.expression() {
            Some(e) => e,
            None => {
                self.state.error_at_current(ErrorCode::ExpectedRuleCondition, "Expected rule condition".to_owned());
                self.state.synchronize();
                return None;
            },
        };
        let condition = RuleCondition { expression, span: point_span(self.state.previous_token().location) };
        self.state.consume(TokenKind::Then, ErrorCode::ExpectedKeyword, "Expected 'then' keyword");
        let block = match self.block_statement() {
            Some(b) => b,
            None => {
                self.state.error_at_current(ErrorCode::ExpectedRuleAction, "Expected rule action".to_owned());
                self.state.synchronize();
                return None;
            },
        };
        let statements = match block {
            Statement::Block(b) => b.statements,
            _ => Vec::new(),
        };
        assert(stmts_v(Seq::<Statement>::empty()) =~= Seq::<StmtV>::empty());
        let action = RuleAction { statements, span: point_span(self.state.previous_token().location) };
        let end_brace = self.state.consume(TokenKind::RightBrace, ErrorCode::MissingRightBrace, "Expected '}' after rule declaration");
        if end_brace.is_none() {
            self.state.synchronize();
            return None;
        }
        let end = self.state.previous_token().location;
        let location = name.location;
        Some(Declaration::Rule(RuleDeclaration {
            name: Identifier { name: name.lexeme, span: point_span(location) },
            condition,
            action,
            span: Span { start, end },
        }))
    }

    fn flow_declaration(&mut self) -> (r: Option<Declaration>)
        requires
            old(self).ready(),
            old(self).state.current > 0,
        ensures
            old(self).follows(final(self)),
            opt_decl_v(r) == sp_flow(old(self).toks(), old(self).st()).0,
            final(self).st() == sp_flow(old(self).toks(), old(self).st()).1,
    {
        let ghost toks = self.toks();
        let start = self.state.previous_token().location;
        let name = match self.state.consume(TokenKind::Identifier, ErrorCode::ExpectedIdentifier, "Expected flow name") {
            Some(n) => n,
            None => {
                self.state.synchronize();
                return None;
            },
        };
        self.state.consume(TokenKind::LeftBrace, ErrorCode::MissingRightBrace, "Expected '{' before flow steps");
        let ghost st0 = self.st();
        let mut steps: Vec<FlowStep> = Vec::new();
        assert(steps_v(steps@) =~= Seq::<(ExprV, Span)>::empty());
        while !self.state.check(&TokenKind::RightBrace) && !self.state.is_at_end()
            invariant
                old(self).follows(self),
                toks == self.toks(),
                sp_flow_steps(toks, self.st(), steps_v(steps@)) == sp_flow_steps(toks, st0, Seq::empty()),
            decreases self.state.tokens@.len() - self.state.current,
        {
            let ghost before = self.st();
            let ghost acc = steps_v(steps@);
            match self.expression() {
                Some(expression) => {
                    let step = FlowStep { expression, span: point_span(self.state.previous_token().location) };
                    steps.push(step);
                    assert(steps_v(steps@) =~= acc.push((expr_v(step.expression), step.span)));
                },
                None => self.synchronize_flow_step(),
            }
            assert(moved(toks, before, self.st()));
            assert(sp_flow_steps(toks, before, acc) == sp_flow_steps(toks, self.st(), steps_v(steps@)));
        }
        let end_brace = self.state.consume(TokenKind::RightBrace, ErrorCode::MissingRightBrace, "Expected '}' after flow steps");
        if end_brace.is_none() {
            self.state.synchronize();
            return None;
        }
        let end = self.state.previous_token().location;
        let location = name.location;
        Some(Declaration::Flow(FlowDeclaration {
            name: Identifier { name: name.lexeme, span: point_span(location) },
            steps,
            span: Span { start, end },
        }))
    }

    fn constraint_declaration(&mut self) -> (r: Option<Declaration>)
        requires
            old(self).ready(),
            old(self).state.current > 0,
        ensures
            old(self).follows(final(self)),
            opt_decl_v(r) == sp_constraint(old(self).toks(), old(self).st()).0,
            final(self).st() == sp_constraint(old(self).toks(), old(self).st()).1,
    {
        let start = self.state.previous_token().location;
        let name = match self.state.consume(TokenKind::Identifier, ErrorCode::ExpectedIdentifier, "Expected constraint name") {
            Some(n) => n,
            None => {
                self.state.synchronize();
                return None;
            },
        };
        self.state.consume(TokenKind::LeftBrace, ErrorCode::MissingRightBrace, "Expected '{' before constraint condition");
        let expression = match self.expression() {
            Some(e) => e,
            None => {
                self.state.error_at_current(ErrorCode::ExpectedConstraintCondition, "Expected constraint condition".to_owned());
                self.state.synchronize();
                return None;
            },
        };
        let condition = ConstraintCondition { expression, span: point_span(self.state.previous_token().location) };
        self.state.consume(TokenKind::Then, ErrorCode::ExpectedKeyword, "Expected 'then' keyword");
        let block = match self.block_statement() {
            Some(b) => b,
            None => {
                self.state.error_at_current(ErrorCode::ExpectedConstraintAction, "Expected constraint action".to_owned());
                self.state.synchronize();
                return None;
            },
        };
        let statements = match block {
            Statement::Block(b) => b.statements,
            _ => Vec::new(),
        };
        assert(stmts_v(Seq::<Statement>::empty()) =~= Seq::<StmtV>::empty());
        let action = ConstraintAction { statements, span: point_span(self.state.previous_token().location) };
        let end_brace = self.state.consume(TokenKind::RightBrace, ErrorCode::MissingRightBrace, "Expected '}' after constraint declaration");
        if end_brace.is_none() {
            self.state.synchronize();
            return None;
        }
        let end = self.state.previous_token().location;
        let location = name.location;
        Some(Declaration::Constraint(ConstraintDeclaration {
            name: Identifier { name: name.lexeme, span: point_span(location) },
            condition,
            action,
            span: Span { start, end },
        }))
    }

    /// Skips to a name, `}` or the end.
    fn synchronize_flow_step(&mut self)
        requires
            old(self).ready(),
        ensures
            old(self).follows(final(self)),
            final(self).st() == sp_skip_to_name(old(self).toks(), old(self).st()),
            (!ended(old(self).toks(), old(self).st()) && !sees(old(self).toks(), old(self).st(), TokenKind::RightBrace)
                && !sees(old(self).toks(), old(self).st(), TokenKind::Identifier))
                ==> final(self).state.current > old(self).state.current,
    {
        self.synchronize_field();
    }

    fn declaration(&mut self) -> (r: Option<Declaration>)
        requires
            old(self).ready(),
            !old(self).state.at_end(),
        ensures
            old(self).follows(final(self)),
            opt_decl_v(r) == sp_declaration(old(self).toks(), old(self).st()).0,
            final(self).st() == sp_declaration(old(self).toks(), old(self).st()).1,
            final(self).state.current > old(self).state.current,
    {
        if self.match_kind(TokenKind::Entity) {
            return self.entity_declaration();
        } else if self.match_kind(TokenKind::Rule) {
            return self.rule_declaration();
        } else if self.match_kind(TokenKind::Flow) {
            return self.flow_declaration();
        } else if self.match_kind(TokenKind::Constraint) {
            return self.constraint_declaration();
        }
        let ghost toks = self.toks();
        let kind = self.state.current_token().kind;
        assert(kind == toks[self.state.current as int].kind);
        self.state.error_at_current(
            ErrorCode::ExpectedDeclaration,
            join2("Expected entity, rule, flow, or constraint declaration, found ", kind.name()),
        );
        let ghost here = self.state.current as int;
        proof {
            lemma_sync_index(toks, here);
        }
        self.state.synchronize();
        None
    }

    /// Reads declarations from the cursor to the end.
    pub fn parse(&mut self) -> (p: Program)
        requires
            old(self).ready(),
        ensures
            old(self).follows(final(self)),
            p@ == sp_program(old(self).toks(), old(self).st()).0,
            final(self).st() == sp_program(old(self).toks(), old(self).st()).1,
            final(self).state.at_end(),
    {
        let ghost toks = self.toks();
        let mut declarations: Vec<Declaration> = Vec::new();
        assert(decls_v(declarations@) =~= Seq::<DeclV>::empty());
        while !self.state.is_at_end()
            invariant
                old(self).follows(self),
                toks == self.toks(),
                sp_declarations(toks, self.st(), decls_v(declarations@)) == sp_declarations(toks, old(self).st(), Seq::empty()),
            decreases self.state.tokens@.len() - self.state.current,
        {
            let ghost before = self.st();
            let ghost acc = decls_v(declarations@);
            match self.declaration() {
                Some(decl) => {
                    declarations.push(decl);
                    assert(decls_v(declarations@) =~= acc.push(decl_v(decl)));
                },
                None => {
                    if !self.state.is_at_end() {
                        self.state.synchronize();
                    }
                },
            }
            assert(moved(toks, before, self.st()));
            assert(sp_declarations(toks, before, acc) == sp_declarations(toks, self.st(), decls_v(declarations@)));
        }
        let start = if declarations.len() > 0 {
            declarations[0].span().start
        } else {
            SourceLocation::new(1, 1, 0)
        };
        let end = if self.state.tokens.len() > 0 {
            self.state.tokens[self.state.tokens.len() - 1].location
        } else {
            SourceLocation::new(1, 1, 0)
        };
        Program { declarations, span: Span { start, end } }
    }
}

} // verus!
