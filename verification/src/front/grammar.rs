//! The grammar of KERN programs: what reading a token sequence from a
//! cursor gives, a node of the syntax tree or nothing, with the errors the
//! reading recorded and where the cursor is left.
//!
//! A declaration, a statement or an expression that cannot be read leaves
//! its errors recorded; declarations are then read again from the next
//! point to resume at. A block ends where a statement in it takes no token.
use vstd::prelude::*;
use crate::front::token::{SourceLocation, Span, TokenKind, TokenV, kind_debug};
use crate::front::diagnostics::ErrorCode;
use crate::front::parser_state::{PState, ended, stepped, sees, with_error, consumed, matched, synced};
use crate::front::precedence::{Precedence, precedence_of, rank};
use crate::front::ast::{IdentV, TypeV, FieldV, LitV, ExprV, StmtV, DeclV, ProgramV};

verus! {

/// The cursor stands on a token.
pub open spec fn in_range(toks: Seq<TokenV>, st: PState) -> bool {
    0 <= st.pos < toks.len()
}

/// `b` stands on a token, not before `a`.
pub open spec fn kept(toks: Seq<TokenV>, a: PState, b: PState) -> bool {
    a.pos <= b.pos < toks.len()
}

/// `b` stands on a token after `a`.
pub open spec fn moved(toks: Seq<TokenV>, a: PState, b: PState) -> bool {
    a.pos < b.pos < toks.len()
}

pub open spec fn point(l: SourceLocation) -> Span {
    Span { start: l, end: l }
}

/// The place of the token before the cursor.
pub open spec fn prev_loc(toks: Seq<TokenV>, st: PState) -> SourceLocation {
    toks[st.pos - 1].location
}

pub open spec fn ident_of(t: TokenV) -> IdentV {
    IdentV { name: t.lexeme, span: point(t.location) }
}

/// A message that ends with the name of the kind found.
pub open spec fn found(text: Seq<char>, kind: TokenKind) -> Seq<char> {
    text + kind_debug(kind)
}

/// The operators read as binary expressions.
pub open spec fn is_binary_op(kind: TokenKind) -> bool {
    kind == TokenKind::Plus || kind == TokenKind::Minus || kind == TokenKind::Star || kind == TokenKind::Slash
        || kind == TokenKind::Percent || kind == TokenKind::EqualEqual || kind == TokenKind::BangEqual
        || kind == TokenKind::Less || kind == TokenKind::LessEqual || kind == TokenKind::Greater
        || kind == TokenKind::GreaterEqual || kind == TokenKind::AmpersandAmpersand || kind == TokenKind::PipePipe
}

/// An expression.
pub open spec fn sp_expression(toks: Seq<TokenV>, st: PState) -> (Option<ExprV>, PState)
    decreases toks.len() - st.pos, 3int,
{
    if !in_range(toks, st) {
        (None, st)
    } else {
        sp_precedence(toks, st, Precedence::Assignment)
    }
}

/// An expression whose operators bind tighter than `p`.
pub open spec fn sp_precedence(toks: Seq<TokenV>, st: PState, p: Precedence) -> (Option<ExprV>, PState)
    decreases toks.len() - st.pos, 2int,
{
    if !in_range(toks, st) {
        (None, st)
    } else {
        let r = sp_prefix(toks, st);
        match r.0 {
            None => (None, r.1),
            Some(e) => if kept(toks, st, r.1) {
                sp_infix_loop(toks, r.1, p, e)
            } else {
                (None, r.1)
            },
        }
    }
}

/// Operators binding tighter than `p` applied to `left`, as long as they follow.
pub open spec fn sp_infix_loop(toks: Seq<TokenV>, st: PState, p: Precedence, left: ExprV) -> (Option<ExprV>, PState)
    decreases toks.len() - st.pos, 1int,
{
    if !in_range(toks, st) {
        (None, st)
    } else if rank(p) < rank(precedence_of(toks[st.pos].kind)) {
        let r = sp_infix(toks, st, left);
        match r.0 {
            None => (None, r.1),
            Some(e) => if moved(toks, st, r.1) {
                sp_infix_loop(toks, r.1, p, e)
            } else {
                (None, r.1)
            },
        }
    } else {
        (Some(left), st)
    }
}

/// A literal, a name, a parenthesized expression or a unary operator applied.
pub open spec fn sp_prefix(toks: Seq<TokenV>, st: PState) -> (Option<ExprV>, PState)
    decreases toks.len() - st.pos, 0int,
{
    if !in_range(toks, st) {
        (None, st)
    } else {
        let t = toks[st.pos];
        let s1 = stepped(toks, st);
        if t.kind == TokenKind::NumberLiteral {
            (Some(ExprV::Literal { value: LitV::Number(t.lexeme), span: point(t.location) }), s1)
        } else if t.kind == TokenKind::StringLiteral {
            (Some(ExprV::Literal { value: LitV::Str(t.lexeme.subrange(1, t.lexeme.len() - 1)), span: point(t.location) }), s1)
        } else if t.kind == TokenKind::True || t.kind == TokenKind::False {
            (Some(ExprV::Literal { value: LitV::Boolean(t.kind == TokenKind::True), span: point(t.location) }), s1)
        } else if t.kind == TokenKind::Identifier {
            (Some(ExprV::Variable { name: ident_of(t), span: point(t.location) }), s1)
        } else if t.kind == TokenKind::LeftParen {
            let r = sp_expression(toks, s1);
            match r.0 {
                None => (None, r.1),
                Some(e) => {
                    let c = consumed(toks, r.1, TokenKind::RightParen, ErrorCode::MissingRightParen, "Expected ')' after expression"@);
                    (Some(ExprV::Grouping { expression: Box::new(e), span: Span { start: t.location, end: prev_loc(toks, c.1) } }), c.1)
                },
            }
        } else if t.kind == TokenKind::Bang || t.kind == TokenKind::Minus {
            let r = sp_prefix(toks, s1);
            match r.0 {
                None => (None, r.1),
                Some(e) => (Some(ExprV::Unary { operator: t.kind, operand: Box::new(e), span: Span { start: t.location, end: e.span_of().end } }), r.1),
            }
        } else {
            (None, with_error(toks, st, ErrorCode::ExpectedExpression, found("Expected expression, found "@, t.kind)))
        }
    }
}

/// The operator at the cursor applied to `left`.
pub open spec fn sp_infix(toks: Seq<TokenV>, st: PState, left: ExprV) -> (Option<ExprV>, PState)
    decreases toks.len() - st.pos, 0int,
{
    if !in_range(toks, st) {
        (None, st)
    } else {
        let t = toks[st.pos];
        let s1 = stepped(toks, st);
        if is_binary_op(t.kind) {
            let r = sp_precedence(toks, s1, precedence_of(t.kind));
            match r.0 {
                None => (None, r.1),
                Some(right) => (Some(ExprV::Binary {
                    left: Box::new(left),
                    operator: t.kind,
                    right: Box::new(right),
                    span: Span { start: left.span_of().start, end: right.span_of().end },
                }), r.1),
            }
        } else if t.kind == TokenKind::Equal {
            let r = sp_precedence(toks, s1, Precedence::Assignment);
            match r.0 {
                None => (None, r.1),
                Some(value) => (Some(ExprV::Assignment {
                    target: Box::new(left),
                    value: Box::new(value),
                    span: Span { start: left.span_of().start, end: value.span_of().end },
                }), r.1),
            }
        } else if t.kind == TokenKind::LeftParen {
            let a = if sees(toks, s1, TokenKind::RightParen) {
                (Some(Seq::<ExprV>::empty()), s1)
            } else {
                sp_arguments(toks, s1, Seq::empty())
            };
            match a.0 {
                None => (None, a.1),
                Some(args) => {
                    let c = consumed(toks, a.1, TokenKind::RightParen, ErrorCode::MissingRightParen, "Expected ')' after arguments"@);
                    (Some(ExprV::Call {
                        callee: Box::new(left),
                        arguments: args,
                        span: Span { start: left.span_of().start, end: prev_loc(toks, c.1) },
                    }), c.1)
                },
            }
        } else if t.kind == TokenKind::Dot {
            let c = consumed(toks, s1, TokenKind::Identifier, ErrorCode::ExpectedIdentifier, "Expected property name"@);
            match c.0 {
                None => (None, c.1),
                Some(name) => (Some(ExprV::Member {
                    object: Box::new(left),
                    property: ident_of(name),
                    span: Span { start: left.span_of().start, end: name.location },
                }), c.1),
            }
        } else if t.kind == TokenKind::LeftBracket {
            let r = sp_expression(toks, s1);
            match r.0 {
                None => (None, r.1),
                Some(index) => {
                    let c = consumed(toks, r.1, TokenKind::RightBracket, ErrorCode::MissingRightBracket, "Expected ']' after index expression"@);
                    (Some(ExprV::Index {
                        object: Box::new(left),
                        index: Box::new(index),
                        span: Span { start: left.span_of().start, end: prev_loc(toks, c.1) },
                    }), c.1)
                },
            }
        } else {
            (None, with_error(toks, st, ErrorCode::ExpectedOperator, found("Expected operator, found "@, t.kind)))
        }
    }
}

/// The arguments of a call, after those in `acc`, separated by commas.
pub open spec fn sp_arguments(toks: Seq<TokenV>, st: PState, acc: Seq<ExprV>) -> (Option<Seq<ExprV>>, PState)
    decreases toks.len() - st.pos, 4int,
{
    if !in_range(toks, st) {
        (None, st)
    } else {
        let r = sp_expression(toks, st);
        match r.0 {
            None => (None, with_error(toks, r.1, ErrorCode::ExpectedArgumentList, "Expected argument in call expression"@)),
            Some(a) => {
                let m = matched(toks, r.1, TokenKind::Comma);
                if m.0 {
                    if kept(toks, st, r.1) {
                        sp_arguments(toks, m.1, acc.push(a))
                    } else {
                        (None, m.1)
                    }
                } else {
                    (Some(acc.push(a)), r.1)
                }
            },
        }
    }
}

/// A block: `{`, statements, `}`.
pub open spec fn sp_block(toks: Seq<TokenV>, st: PState) -> (Option<StmtV>, PState)
    decreases toks.len() - st.pos, 7int,
{
    if !in_range(toks, st) {
        (None, st)
    } else {
        let c = consumed(toks, st, TokenKind::LeftBrace, ErrorCode::ExpectedBlock, "Expected '{' before block"@);
        let b = sp_block_items(toks, c.1, Seq::empty());
        let e = consumed(toks, b.1, TokenKind::RightBrace, ErrorCode::MissingRightBrace, "Expected '}' after block"@);
        match e.0 {
            None => (None, e.1),
            Some(_) => (Some(StmtV::Block { statements: b.0, span: point(prev_loc(toks, e.1)) }), e.1),
        }
    }
}

/// The statements of a block, after those in `acc`, up to `}` or the end.
pub open spec fn sp_block_items(toks: Seq<TokenV>, st: PState, acc: Seq<StmtV>) -> (Seq<StmtV>, PState)
    decreases toks.len() - st.pos, 6int,
{
    if !in_range(toks, st) {
        (acc, st)
    } else if !sees(toks, st, TokenKind::RightBrace) && !ended(toks, st) {
        let r = sp_statement(toks, st);
        let acc2 = match r.0 {
            Some(s) => acc.push(s),
            None => acc,
        };
        if moved(toks, st, r.1) {
            sp_block_items(toks, r.1, acc2)
        } else {
            (acc2, r.1)
        }
    } else {
        (acc, st)
    }
}

/// A statement.
pub open spec fn sp_statement(toks: Seq<TokenV>, st: PState) -> (Option<StmtV>, PState)
    decreases toks.len() - st.pos, 5int,
{
    if !in_range(toks, st) {
        (None, st)
    } else {
        let s1 = stepped(toks, st);
        let here = point(toks[st.pos].location);
        if sees(toks, st, TokenKind::LeftBrace) {
            sp_block(toks, s1)
        } else if sees(toks, st, TokenKind::If) {
            sp_if(toks, s1)
        } else if sees(toks, st, TokenKind::While) {
            sp_while(toks, s1)
        } else if sees(toks, st, TokenKind::For) {
            sp_for(toks, s1)
        } else if sees(toks, st, TokenKind::Return) {
            sp_return(toks, s1)
        } else if sees(toks, st, TokenKind::Break) {
            (Some(StmtV::Break { span: here }), s1)
        } else if sees(toks, st, TokenKind::Continue) {
            (Some(StmtV::Continue { span: here }), s1)
        } else {
            sp_expression_statement(toks, st)
        }
    }
}

/// An expression followed by `;`.
pub open spec fn sp_expression_statement(toks: Seq<TokenV>, st: PState) -> (Option<StmtV>, PState)
    decreases toks.len() - st.pos, 4int,
{
    if !in_range(toks, st) {
        (None, st)
    } else {
        let r = sp_expression(toks, st);
        match r.0 {
            None => (None, r.1),
            Some(e) => {
                let c = consumed(toks, r.1, TokenKind::Semicolon, ErrorCode::MissingSemicolon, "Expected ';' after expression"@);
                (Some(StmtV::Expression { expression: e, span: e.span_of() }), c.1)
            },
        }
    }
}

/// The rest of an `if` statement, whose keyword stands before the cursor.
pub open spec fn sp_if(toks: Seq<TokenV>, st: PState) -> (Option<StmtV>, PState)
    decreases toks.len() - st.pos, 6int,
{
    if !in_range(toks, st) {
        (None, st)
    } else {
        let start = prev_loc(toks, st);
        let c1 = consumed(toks, st, TokenKind::LeftParen, ErrorCode::ExpectedDelimiter, "Expected '(' after 'if'"@);
        let r = sp_expression(toks, c1.1);
        match r.0 {
            None => (None, r.1),
            Some(cond) => {
                let c2 = consumed(toks, r.1, TokenKind::RightParen, ErrorCode::MissingRightParen, "Expected ')' after condition"@);
                if !kept(toks, st, c2.1) {
                    (None, c2.1)
                } else {
                    let t = sp_statement(toks, c2.1);
                    match t.0 {
                        None => (None, t.1),
                        Some(then_branch) => {
                            let m = matched(toks, t.1, TokenKind::Else);
                            if m.0 {
                                if !kept(toks, st, m.1) {
                                    (None, m.1)
                                } else {
                                    let e = sp_statement(toks, m.1);
                                    match e.0 {
                                        None => (None, e.1),
                                        Some(else_branch) => (Some(StmtV::If {
                                            condition: cond,
                                            then_branch: Box::new(then_branch),
                                            else_branch: Some(Box::new(else_branch)),
                                            span: Span { start, end: else_branch.span_of().end },
                                        }), e.1),
                                    }
                                }
                            } else {
                                (Some(StmtV::If {
                                    condition: cond,
                                    then_branch: Box::new(then_branch),
                                    else_branch: None,
                                    span: Span { start, end: then_branch.span_of().end },
                                }), t.1)
                            }
                        },
                    }
                }
            },
        }
    }
}

/// The rest of a `while` statement, whose keyword stands before the cursor.
pub open spec fn sp_while(toks: Seq<TokenV>, st: PState) -> (Option<StmtV>, PState)
    decreases toks.len() - st.pos, 6int,
{
    if !in_range(toks, st) {
        (None, st)
    } else {
        let start = prev_loc(toks, st);
        let c1 = consumed(toks, st, TokenKind::LeftParen, ErrorCode::ExpectedDelimiter, "Expected '(' after 'while'"@);
        let r = sp_expression(toks, c1.1);
        match r.0 {
            None => (None, r.1),
            Some(cond) => {
                let c2 = consumed(toks, r.1, TokenKind::RightParen, ErrorCode::MissingRightParen, "Expected ')' after condition"@);
                if !kept(toks, st, c2.1) {
                    (None, c2.1)
                } else {
                    let b = sp_statement(toks, c2.1);
                    match b.0 {
                        None => (None, b.1),
                        Some(body) => (Some(StmtV::While {
                            condition: cond,
                            body: Box::new(body),
                            span: Span { start, end: body.span_of().end },
                        }), b.1),
                    }
                }
            },
        }
    }
}

/// The initializer of a `for` statement: none after a bare `;`, else an
/// expression statement and one more `;`.
pub open spec fn sp_for_init(toks: Seq<TokenV>, st: PState) -> (Option<StmtV>, PState)
    decreases toks.len() - st.pos, 5int,
{
    if !in_range(toks, st) {
        (None, st)
    } else {
        let m = matched(toks, st, TokenKind::Semicolon);
        if m.0 {
            (None, m.1)
        } else {
            let r = sp_expression_statement(toks, st);
            let c = consumed(toks, r.1, TokenKind::Semicolon, ErrorCode::MissingSemicolon, "Expected ';' after for loop initializer"@);
            (r.0, c.1)
        }
    }
}

/// The condition of a `for` statement and the `;` after it; a bare `;`
/// stands for `true`.
pub open spec fn sp_for_condition(toks: Seq<TokenV>, st: PState) -> (Option<ExprV>, PState)
    decreases toks.len() - st.pos, 5int,
{
    if !in_range(toks, st) {
        (None, st)
    } else if sees(toks, st, TokenKind::Semicolon) {
        let s1 = stepped(toks, st);
        (Some(ExprV::Literal { value: LitV::Boolean(true), span: point(prev_loc(toks, s1)) }), s1)
    } else {
        let r = sp_expression(toks, st);
        match r.0 {
            None => (None, r.1),
            Some(e) => (Some(e), consumed(toks, r.1, TokenKind::Semicolon, ErrorCode::MissingSemicolon, "Expected ';' after for loop condition"@).1),
        }
    }
}

/// The increment of a `for` statement, none before `)`.
pub open spec fn sp_for_increment(toks: Seq<TokenV>, st: PState) -> (Option<Option<ExprV>>, PState)
    decreases toks.len() - st.pos, 5int,
{
    if !in_range(toks, st) {
        (None, st)
    } else if sees(toks, st, TokenKind::RightParen) {
        (Some(None), st)
    } else {
        let r = sp_expression(toks, st);
        match r.0 {
            None => (None, r.1),
            Some(e) => (Some(Some(e)), r.1),
        }
    }
}

/// The rest of a `for` statement, whose keyword stands before the cursor.
pub open spec fn sp_for(toks: Seq<TokenV>, st: PState) -> (Option<StmtV>, PState)
    decreases toks.len() - st.pos, 6int,
{
    if !in_range(toks, st) {
        (None, st)
    } else {
        let start = prev_loc(toks, st);
        let c1 = consumed(toks, st, TokenKind::LeftParen, ErrorCode::ExpectedDelimiter, "Expected '(' after 'for'"@);
        let init = sp_for_init(toks, c1.1);
        if !kept(toks, st, init.1) {
            (None, init.1)
        } else {
            let cond = sp_for_condition(toks, init.1);
            match cond.0 {
                None => (None, cond.1),
                Some(condition) => if !kept(toks, st, cond.1) {
                    (None, cond.1)
                } else {
                    let inc = sp_for_increment(toks, cond.1);
                    match inc.0 {
                        None => (None, inc.1),
                        Some(increment) => {
                            let c4 = consumed(toks, inc.1, TokenKind::RightParen, ErrorCode::MissingRightParen, "Expected ')' after for clauses"@);
                            if !kept(toks, st, c4.1) {
                                (None, c4.1)
                            } else {
                                let b = sp_statement(toks, c4.1);
                                match b.0 {
                                    None => (None, b.1),
                                    Some(body) => (Some(StmtV::For {
                                        initializer: match init.0 {
                                            Some(i) => Some(Box::new(i)),
                                            None => None,
                                        },
                                        condition,
                                        increment,
                                        body: Box::new(body),
                                        span: Span { start, end: body.span_of().end },
                                    }), b.1),
                                }
                            }
                        },
                    }
                },
            }
        }
    }
}

/// The rest of a `return` statement, whose keyword stands before the cursor.
pub open spec fn sp_return(toks: Seq<TokenV>, st: PState) -> (Option<StmtV>, PState)
    decreases toks.len() - st.pos, 6int,
{
    if !in_range(toks, st) {
        (None, st)
    } else {
        let start = prev_loc(toks, st);
        let v = if sees(toks, st, TokenKind::Semicolon) {
            (None, st)
        } else {
            sp_expression(toks, st)
        };
        let c = consumed(toks, v.1, TokenKind::Semicolon, ErrorCode::MissingSemicolon, "Expected ';' after return value"@);
        (Some(StmtV::Return { value: v.0, span: Span { start, end: prev_loc(toks, c.1) } }), c.1)
    }
}

/// The type of a field.
pub open spec fn sp_field_type(toks: Seq<TokenV>, st: PState) -> (Option<TypeV>, PState) {
    let t = toks[st.pos];
    let s1 = stepped(toks, st);
    if t.kind == TokenKind::Sym {
        (Some(TypeV::Sym), s1)
    } else if t.kind == TokenKind::Num {
        (Some(TypeV::Num), s1)
    } else if t.kind == TokenKind::Bool {
        (Some(TypeV::Bool), s1)
    } else if t.kind == TokenKind::Vec {
        (Some(TypeV::Vec), s1)
    } else if t.kind == TokenKind::Ref {
        (Some(TypeV::Ref), s1)
    } else if t.kind == TokenKind::Ctx {
        (Some(TypeV::Ctx), s1)
    } else if t.kind == TokenKind::Identifier {
        (Some(TypeV::Identifier(ident_of(t))), s1)
    } else {
        (None, with_error(toks, st, ErrorCode::ExpectedTypeName, found("Expected type name, found "@, t.kind)))
    }
}

/// A field: name, `:`, type.
pub open spec fn sp_field(toks: Seq<TokenV>, st: PState) -> (Option<FieldV>, PState) {
    let c = consumed(toks, st, TokenKind::Identifier, ErrorCode::ExpectedIdentifier, "Expected field name"@);
    match c.0 {
        None => (None, c.1),
        Some(name) => {
            let c2 = consumed(toks, c.1, TokenKind::Colon, ErrorCode::ExpectedDelimiter, "Expected ':' after field name"@);
            let t = sp_field_type(toks, c2.1);
            match t.0 {
                None => (None, t.1),
                Some(ty) => (Some(FieldV {
                    name: ident_of(name),
                    field_type: ty,
                    span: Span { start: name.location, end: prev_loc(toks, t.1) },
                }), t.1),
            }
        },
    }
}

/// The cursor moved on to a name, `}` or the end.
pub open spec fn sp_skip_to_name(toks: Seq<TokenV>, st: PState) -> PState
    decreases toks.len() - st.pos,
{
    if in_range(toks, st) && !ended(toks, st) && !sees(toks, st, TokenKind::RightBrace)
        && !sees(toks, st, TokenKind::Identifier) {
        sp_skip_to_name(toks, stepped(toks, st))
    } else {
        st
    }
}

/// The fields of an entity, after those in `acc`, up to `}` or the end.
pub open spec fn sp_fields(toks: Seq<TokenV>, st: PState, acc: Seq<FieldV>) -> (Seq<FieldV>, PState)
    decreases toks.len() - st.pos,
{
    if in_range(toks, st) && !sees(toks, st, TokenKind::RightBrace) && !ended(toks, st) {
        let r = sp_field(toks, st);
        let n = match r.0 {
            Some(f) => (acc.push(f), r.1),
            None => (acc, sp_skip_to_name(toks, r.1)),
        };
        if moved(toks, st, n.1) {
            sp_fields(toks, n.1, n.0)
        } else {
            n
        }
    } else {
        (acc, st)
    }
}

/// The steps of a flow, after those in `acc`, up to `}` or the end.
pub open spec fn sp_flow_steps(toks: Seq<TokenV>, st: PState, acc: Seq<(ExprV, Span)>) -> (Seq<(ExprV, Span)>, PState)
    decreases toks.len() - st.pos,
{
    if in_range(toks, st) && !sees(toks, st, TokenKind::RightBrace) && !ended(toks, st) {
        let r = sp_expression(toks, st);
        let n = match r.0 {
            Some(e) => (acc.push((e, point(prev_loc(toks, r.1)))), r.1),
            None => (acc, sp_skip_to_name(toks, r.1)),
        };
        if moved(toks, st, n.1) {
            sp_flow_steps(toks, n.1, n.0)
        } else {
            n
        }
    } else {
        (acc, st)
    }
}

/// The rest of an entity declaration, whose keyword stands before the cursor.
pub open spec fn sp_entity(toks: Seq<TokenV>, st: PState) -> (Option<DeclV>, PState) {
    let start = prev_loc(toks, st);
    let c = consumed(toks, st, TokenKind::Identifier, ErrorCode::ExpectedIdentifier, "Expected entity name"@);
    match c.0 {
        None => (None, synced(toks, c.1)),
        Some(name) => {
            let c2 = consumed(toks, c.1, TokenKind::LeftBrace, ErrorCode::MissingRightBrace, "Expected '{' before entity fields"@);
            let f = sp_fields(toks, c2.1, Seq::empty());
            let c3 = consumed(toks, f.1, TokenKind::RightBrace, ErrorCode::MissingRightBrace, "Expected '}' after entity fields"@);
            match c3.0 {
                None => (None, synced(toks, c3.1)),
                Some(_) => (Some(DeclV::Entity {
                    name: ident_of(name),
                    fields: f.0,
                    span: Span { start, end: prev_loc(toks, c3.1) },
                }), c3.1),
            }
        },
    }
}

/// The statements of a block statement.
pub open spec fn block_statements(s: StmtV) -> Seq<StmtV> {
    match s {
        StmtV::Block { statements, .. } => statements,
        _ => Seq::empty(),
    }
}

/// The rest of a rule declaration, whose keyword stands before the cursor.
pub open spec fn sp_rule(toks: Seq<TokenV>, st: PState) -> (Option<DeclV>, PState) {
    let start = prev_loc(toks, st);
    let c = consumed(toks, st, TokenKind::Identifier, ErrorCode::ExpectedIdentifier, "Expected rule name"@);
    match c.0 {
        None => (None, synced(toks, c.1)),
        Some(name) => {
            let c2 = consumed(toks, c.1, TokenKind::LeftBrace, ErrorCode::MissingRightBrace, "Expected '{' before rule condition"@);
            let r = sp_expression(toks, c2.1);
            match r.0 {
                None => (None, synced(toks, with_error(toks, r.1, ErrorCode::ExpectedRuleCondition, "Expected rule condition"@))),
                Some(condition) => {
                    let condition_span = point(prev_loc(toks, r.1));
                    let c3 = consumed(toks, r.1, TokenKind::Then, ErrorCode::ExpectedKeyword, "Expected 'then' keyword"@);
                    let b = sp_block(toks, c3.1);
                    match b.0 {
                        None => (None, synced(toks, with_error(toks, b.1, ErrorCode::ExpectedRuleAction, "Expected rule action"@))),
                        Some(block) => {
                            let action_span = point(prev_loc(toks, b.1));
                            let c4 = consumed(toks, b.1, TokenKind::RightBrace, ErrorCode::MissingRightBrace, "Expected '}' after rule declaration"@);
                            match c4.0 {
                                None => (None, synced(toks, c4.1)),
                                Some(_) => (Some(DeclV::Rule {
                                    name: ident_of(name),
                                    condition,
                                    condition_span,
                                    action: block_statements(block),
                                    action_span,
                                    span: Span { start, end: prev_loc(toks, c4.1) },
                                }), c4.1),
                            }
                        },
                    }
                },
            }
        },
    }
}

/// The rest of a flow declaration, whose keyword stands before the cursor.
pub open spec fn sp_flow(toks: Seq<TokenV>, st: PState) -> (Option<DeclV>, PState) {
    let start = prev_loc(toks, st);
    let c = consumed(toks, st, TokenKind::Identifier, ErrorCode::ExpectedIdentifier, "Expected flow name"@);
    match c.0 {
        None => (None, synced(toks, c.1)),
        Some(name) => {
            let c2 = consumed(toks, c.1, TokenKind::LeftBrace, ErrorCode::MissingRightBrace, "Expected '{' before flow steps"@);
            let f = sp_flow_steps(toks, c2.1, Seq::empty());
            let c3 = consumed(toks, f.1, TokenKind::RightBrace, ErrorCode::MissingRightBrace, "Expected '}' after flow steps"@);
            match c3.0 {
                None => (None, synced(toks, c3.1)),
                Some(_) => (Some(DeclV::Flow {
                    name: ident_of(name),
                    steps: f.0,
                    span: Span { start, end: prev_loc(toks, c3.1) },
                }), c3.1),
            }
        },
    }
}

/// The rest of a constraint declaration, whose keyword stands before the cursor.
pub open spec fn sp_constraint(toks: Seq<TokenV>, st: PState) -> (Option<DeclV>, PState) {
    let start = prev_loc(toks, st);
    let c = consumed(toks, st, TokenKind::Identifier, ErrorCode::ExpectedIdentifier, "Expected constraint name"@);
    match c.0 {
        None => (None, synced(toks, c.1)),
        Some(name) => {
            let c2 = consumed(toks, c.1, TokenKind::LeftBrace, ErrorCode::MissingRightBrace, "Expected '{' before constraint condition"@);
            let r = sp_expression(toks, c2.1);
            match r.0 {
                None => (None, synced(toks, with_error(toks, r.1, ErrorCode::ExpectedConstraintCondition, "Expected constraint condition"@))),
                Some(condition) => {
                    let condition_span = point(prev_loc(toks, r.1));
                    let c3 = consumed(toks, r.1, TokenKind::Then, ErrorCode::ExpectedKeyword, "Expected 'then' keyword"@);
                    let b = sp_block(toks, c3.1);
                    match b.0 {
                        None => (None, synced(toks, with_error(toks, b.1, ErrorCode::ExpectedConstraintAction, "Expected constraint action"@))),
                        Some(block) => {
                            let action_span = point(prev_loc(toks, b.1));
                            let c4 = consumed(toks, b.1, TokenKind::RightBrace, ErrorCode::MissingRightBrace, "Expected '}' after constraint declaration"@);
                            match c4.0 {
                                None => (None, synced(toks, c4.1)),
                                Some(_) => (Some(DeclV::Constraint {
                                    name: ident_of(name),
                                    condition,
                                    condition_span,
                                    action: block_statements(block),
                                    action_span,
                                    span: Span { start, end: prev_loc(toks, c4.1) },
                                }), c4.1),
                            }
                        },
                    }
                },
            }
        },
    }
}

/// A declaration; at any other token, an error and the cursor at the next
/// point to resume at.
pub open spec fn sp_declaration(toks: Seq<TokenV>, st: PState) -> (Option<DeclV>, PState) {
    let s1 = stepped(toks, st);
    if sees(toks, st, TokenKind::Entity) {
        sp_entity(toks, s1)
    } else if sees(toks, st, TokenKind::Rule) {
        sp_rule(toks, s1)
    } else if sees(toks, st, TokenKind::Flow) {
        sp_flow(toks, s1)
    } else if sees(toks, st, TokenKind::Constraint) {
        sp_constraint(toks, s1)
    } else {
        (None, synced(toks, with_error(toks, st, ErrorCode::ExpectedDeclaration,
            found("Expected entity, rule, flow, or constraint declaration, found "@, toks[st.pos].kind))))
    }
}

/// The declarations after those in `acc`, up to the end.
pub open spec fn sp_declarations(toks: Seq<TokenV>, st: PState, acc: Seq<DeclV>) -> (Seq<DeclV>, PState)
    decreases toks.len() - st.pos,
{
    if in_range(toks, st) && !ended(toks, st) {
        let r = sp_declaration(toks, st);
        let n = match r.0 {
            Some(d) => (acc.push(d), r.1),
            None => (acc, if ended(toks, r.1) { r.1 } else { synced(toks, r.1) }),
        };
        if moved(toks, st, n.1) {
            sp_declarations(toks, n.1, n.0)
        } else {
            n
        }
    } else {
        (acc, st)
    }
}

pub open spec fn origin() -> SourceLocation {
    SourceLocation { line: 1, column: 1, offset: 0 }
}

/// A whole program read from the cursor: its declarations, and a span from
/// the first declaration's start (or line 1, column 1) to the last token's
/// place.
pub open spec fn sp_program(toks: Seq<TokenV>, st: PState) -> (ProgramV, PState) {
    let d = sp_declarations(toks, st, Seq::empty());
    let start = if d.0.len() > 0 { d.0[0].span_of().start } else { origin() };
    let end = if toks.len() > 0 { toks.last().location } else { origin() };
    (ProgramV { declarations: d.0, span: Span { start, end } }, d.1)
}

} // verus!
