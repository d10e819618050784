//! What the expression grammar gives on operator chains, stated without
//! its reading steps: binary operators associate to the left, and of two
//! operators the one that binds tighter is applied first.
use vstd::prelude::*;
use crate::front::token::{Span, TokenKind, TokenV};
use crate::front::parser_state::PState;
use crate::front::precedence::{Precedence, precedence_of, rank, law_operator_strengths};
use crate::front::ast::{ExprV, LitV};
use crate::front::grammar::{ident_of, is_binary_op, point, sp_expression, sp_infix, sp_infix_loop, sp_precedence, sp_prefix};

verus! {

/// A token that is a whole operand by itself: a number or a name.
pub open spec fn is_atom(t: TokenV) -> bool {
    t.kind == TokenKind::NumberLiteral || t.kind == TokenKind::Identifier
}

/// The expression an operand token stands for.
pub open spec fn atom_v(t: TokenV) -> ExprV {
    if t.kind == TokenKind::NumberLiteral {
        ExprV::Literal { value: LitV::Number(t.lexeme), span: point(t.location) }
    } else {
        ExprV::Variable { name: ident_of(t), span: point(t.location) }
    }
}

/// `left op right`, spanning from the start of `left` to the end of `right`.
pub open spec fn bin(left: ExprV, op: TokenKind, right: ExprV) -> ExprV {
    ExprV::Binary {
        left: Box::new(left),
        operator: op,
        right: Box::new(right),
        span: Span { start: left.span_of().start, end: right.span_of().end },
    }
}

/// The cursor `n` tokens further on.
pub open spec fn ahead(st: PState, n: int) -> PState {
    PState { pos: st.pos + n, ..st }
}

/// Reading `a op1 b op2 c`, followed by a token that continues no
/// expression, gives `(a op1 b) op2 c` when `op1` binds at least as tightly
/// as `op2` (so operators of one strength associate to the left), and
/// `a op1 (b op2 c)` when `op2` binds tighter; no error is recorded and the
/// cursor stops after `c`.
pub proof fn law_binary_chain(toks: Seq<TokenV>, st: PState)
    requires
        0 <= st.pos,
        st.pos + 5 < toks.len(),
        is_atom(toks[st.pos]),
        is_binary_op(toks[st.pos + 1].kind),
        is_atom(toks[st.pos + 2]),
        is_binary_op(toks[st.pos + 3].kind),
        is_atom(toks[st.pos + 4]),
        rank(precedence_of(toks[st.pos + 5].kind)) <= 1,
    ensures
        ({
            let a = atom_v(toks[st.pos]);
            let b = atom_v(toks[st.pos + 2]);
            let c = atom_v(toks[st.pos + 4]);
            let op1 = toks[st.pos + 1].kind;
            let op2 = toks[st.pos + 3].kind;
            sp_expression(toks, st) == (Some(
                if rank(precedence_of(op1)) >= rank(precedence_of(op2)) {
                    bin(bin(a, op1, b), op2, c)
                } else {
                    bin(a, op1, bin(b, op2, c))
                }), ahead(st, 5))
        }),
{
    let a = atom_v(toks[st.pos]);
    let b = atom_v(toks[st.pos + 2]);
    let c = atom_v(toks[st.pos + 4]);
    let op1 = toks[st.pos + 1].kind;
    let op2 = toks[st.pos + 3].kind;
    let p1 = precedence_of(op1);
    let p2 = precedence_of(op2);
    assert(rank(p1) >= 2 && rank(p2) >= 2);
    assert(sp_prefix(toks, st) == (Some(a), ahead(st, 1)));
    assert(sp_prefix(toks, ahead(st, 2)) == (Some(b), ahead(st, 3)));
    assert(sp_prefix(toks, ahead(st, 4)) == (Some(c), ahead(st, 5)));
    assert(sp_infix_loop(toks, ahead(st, 5), p2, c) == (Some(c), ahead(st, 5)));
    assert(sp_precedence(toks, ahead(st, 4), p2) == (Some(c), ahead(st, 5)));
    assert(sp_infix(toks, ahead(st, 3), b) == (Some(bin(b, op2, c)), ahead(st, 5)));
    if rank(p1) >= rank(p2) {
        assert(sp_infix_loop(toks, ahead(st, 3), p1, b) == (Some(b), ahead(st, 3)));
        assert(sp_precedence(toks, ahead(st, 2), p1) == (Some(b), ahead(st, 3)));
        assert(sp_infix(toks, ahead(st, 1), a) == (Some(bin(a, op1, b)), ahead(st, 3)));
        let ab = bin(a, op1, b);
        assert(sp_infix(toks, ahead(st, 3), ab) == (Some(bin(ab, op2, c)), ahead(st, 5)));
        assert(sp_infix_loop(toks, ahead(st, 5), Precedence::Assignment, bin(ab, op2, c))
            == (Some(bin(ab, op2, c)), ahead(st, 5)));
        assert(sp_infix_loop(toks, ahead(st, 3), Precedence::Assignment, ab)
            == (Some(bin(ab, op2, c)), ahead(st, 5)));
        assert(sp_infix_loop(toks, ahead(st, 1), Precedence::Assignment, a)
            == (Some(bin(ab, op2, c)), ahead(st, 5)));
    } else {
        let bc = bin(b, op2, c);
        assert(sp_infix_loop(toks, ahead(st, 5), p1, bc) == (Some(bc), ahead(st, 5)));
        assert(sp_infix_loop(toks, ahead(st, 3), p1, b) == (Some(bc), ahead(st, 5)));
        assert(sp_precedence(toks, ahead(st, 2), p1) == (Some(bc), ahead(st, 5)));
        assert(sp_infix(toks, ahead(st, 1), a) == (Some(bin(a, op1, bc)), ahead(st, 5)));
        assert(sp_infix_loop(toks, ahead(st, 5), Precedence::Assignment, bin(a, op1, bc))
            == (Some(bin(a, op1, bc)), ahead(st, 5)));
        assert(sp_infix_loop(toks, ahead(st, 1), Precedence::Assignment, a)
            == (Some(bin(a, op1, bc)), ahead(st, 5)));
    }
    assert(sp_precedence(toks, st, Precedence::Assignment) == sp_expression(toks, st));
}

/// `&&` binds tighter than `||`: reading `a || b && c` gives
/// `a || (b && c)`, and reading `a && b || c` gives `(a && b) || c`.
pub proof fn law_and_binds_tighter_than_or(toks: Seq<TokenV>, st: PState)
    requires
        0 <= st.pos,
        st.pos + 5 < toks.len(),
        is_atom(toks[st.pos]),
        is_atom(toks[st.pos + 2]),
        is_atom(toks[st.pos + 4]),
        rank(precedence_of(toks[st.pos + 5].kind)) <= 1,
    ensures
        ({
            let a = atom_v(toks[st.pos]);
            let b = atom_v(toks[st.pos + 2]);
            let c = atom_v(toks[st.pos + 4]);
            &&& toks[st.pos + 1].kind == TokenKind::PipePipe && toks[st.pos + 3].kind == TokenKind::AmpersandAmpersand
                ==> sp_expression(toks, st) == (Some(bin(a, TokenKind::PipePipe, bin(b, TokenKind::AmpersandAmpersand, c))), ahead(st, 5))
            &&& toks[st.pos + 1].kind == TokenKind::AmpersandAmpersand && toks[st.pos + 3].kind == TokenKind::PipePipe
                ==> sp_expression(toks, st) == (Some(bin(bin(a, TokenKind::AmpersandAmpersand, b), TokenKind::PipePipe, c)), ahead(st, 5))
        }),
{
    law_operator_strengths();
    let o1 = toks[st.pos + 1].kind;
    let o3 = toks[st.pos + 3].kind;
    if (o1 == TokenKind::PipePipe || o1 == TokenKind::AmpersandAmpersand)
        && (o3 == TokenKind::PipePipe || o3 == TokenKind::AmpersandAmpersand) {
        law_binary_chain(toks, st);
    }
}

/// Reading `op a bop b`, with `op` a `!` or a `-` and `bop` a binary
/// operator, followed by a token that continues no expression, gives
/// `(op a) bop b`: a unary operator binds tighter than any binary one.
pub proof fn law_unary_binds_tighter(toks: Seq<TokenV>, st: PState)
    requires
        0 <= st.pos,
        st.pos + 4 < toks.len(),
        toks[st.pos].kind == TokenKind::Bang || toks[st.pos].kind == TokenKind::Minus,
        is_atom(toks[st.pos + 1]),
        is_binary_op(toks[st.pos + 2].kind),
        is_atom(toks[st.pos + 3]),
        rank(precedence_of(toks[st.pos + 4].kind)) <= 1,
    ensures
        ({
            let t = toks[st.pos];
            let a = atom_v(toks[st.pos + 1]);
            let b = atom_v(toks[st.pos + 3]);
            let neg = ExprV::Unary { operator: t.kind, operand: Box::new(a), span: Span { start: t.location, end: a.span_of().end } };
            sp_expression(toks, st) == (Some(bin(neg, toks[st.pos + 2].kind, b)), ahead(st, 4))
        }),
{
    let t = toks[st.pos];
    let a = atom_v(toks[st.pos + 1]);
    let b = atom_v(toks[st.pos + 3]);
    let op = toks[st.pos + 2].kind;
    let p = precedence_of(op);
    let neg = ExprV::Unary { operator: t.kind, operand: Box::new(a), span: Span { start: t.location, end: a.span_of().end } };
    assert(rank(p) >= 2);
    assert(sp_prefix(toks, ahead(st, 1)) == (Some(a), ahead(st, 2)));
    assert(sp_prefix(toks, st) == (Some(neg), ahead(st, 2)));
    assert(sp_prefix(toks, ahead(st, 3)) == (Some(b), ahead(st, 4)));
    assert(sp_infix_loop(toks, ahead(st, 4), p, b) == (Some(b), ahead(st, 4)));
    assert(sp_precedence(toks, ahead(st, 3), p) == (Some(b), ahead(st, 4)));
    assert(sp_infix(toks, ahead(st, 2), neg) == (Some(bin(neg, op, b)), ahead(st, 4)));
    assert(sp_infix_loop(toks, ahead(st, 4), Precedence::Assignment, bin(neg, op, b)) == (Some(bin(neg, op, b)), ahead(st, 4)));
    assert(sp_infix_loop(toks, ahead(st, 2), Precedence::Assignment, neg) == (Some(bin(neg, op, b)), ahead(st, 4)));
    assert(sp_precedence(toks, st, Precedence::Assignment) == sp_expression(toks, st));
}

} // verus!
