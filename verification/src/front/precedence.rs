//! Binding strength of operators.
use vstd::prelude::*;
use crate::front::token::TokenKind;

verus! {

/// How tightly an operator binds, from loosest to tightest.
#[derive(Debug, Clone, Copy, PartialEq, Eq, Structural, PartialOrd)]
pub enum Precedence {
    Lowest,
    Assignment,
    Or,
    And,
    Equality,
    Comparison,
    Term,
    Factor,
    Unary,
    Call,
    Primary,
}


/// The place of a binding strength in the order, loosest first.
pub open spec fn rank(p: Precedence) -> int {
    match p {
        Precedence::Lowest => 0,
        Precedence::Assignment => 1,
        Precedence::Or => 2,
        Precedence::And => 3,
        Precedence::Equality => 4,
        Precedence::Comparison => 5,
        Precedence::Term => 6,
        Precedence::Factor => 7,
        Precedence::Unary => 8,
        Precedence::Call => 9,
        Precedence::Primary => 10,
    }
}

/// The binding strength of an operator token.
pub open spec fn precedence_of(kind: TokenKind) -> Precedence {
    match kind {
        TokenKind::Equal => Precedence::Assignment,
        TokenKind::PipePipe => Precedence::Or,
        TokenKind::AmpersandAmpersand => Precedence::And,
        TokenKind::EqualEqual | TokenKind::BangEqual => Precedence::Equality,
        TokenKind::Greater | TokenKind::GreaterEqual | TokenKind::Less | TokenKind::LessEqual => Precedence::Comparison,
        TokenKind::Plus | TokenKind::Minus => Precedence::Term,
        TokenKind::Star | TokenKind::Slash | TokenKind::Percent => Precedence::Factor,
        TokenKind::Bang => Precedence::Unary,
        TokenKind::Dot | TokenKind::LeftParen | TokenKind::LeftBracket => Precedence::Call,
        _ => Precedence::Lowest,
    }
}

/// A token that binds as an operator.
pub open spec fn is_operator_token(k: TokenKind) -> bool {
    k == TokenKind::Equal || k == TokenKind::PipePipe || k == TokenKind::AmpersandAmpersand
        || k == TokenKind::EqualEqual || k == TokenKind::BangEqual || k == TokenKind::Greater
        || k == TokenKind::GreaterEqual || k == TokenKind::Less || k == TokenKind::LessEqual
        || k == TokenKind::Plus || k == TokenKind::Minus || k == TokenKind::Star || k == TokenKind::Slash
        || k == TokenKind::Percent || k == TokenKind::Bang || k == TokenKind::Dot
        || k == TokenKind::LeftParen || k == TokenKind::LeftBracket
}

/// The binding strengths of the operators, loosest first: assignment `=`,
/// then `||`, then `&&`, then `==` and `!=`, then `<`, `<=`, `>` and `>=`,
/// then `+` and `-`, then `*`, `/` and `%`, then unary `!`, then calls,
/// members and indexes (`(`, `.`, `[`). Operators of one group bind
/// equally, and every other token binds looser than all of them.
pub proof fn law_operator_strengths()
    ensures
        rank(precedence_of(TokenKind::Equal)) < rank(precedence_of(TokenKind::PipePipe)),
        rank(precedence_of(TokenKind::PipePipe)) < rank(precedence_of(TokenKind::AmpersandAmpersand)),
        rank(precedence_of(TokenKind::AmpersandAmpersand)) < rank(precedence_of(TokenKind::EqualEqual)),
        rank(precedence_of(TokenKind::EqualEqual)) == rank(precedence_of(TokenKind::BangEqual)),
        rank(precedence_of(TokenKind::EqualEqual)) < rank(precedence_of(TokenKind::Less)),
        rank(precedence_of(TokenKind::Less)) == rank(precedence_of(TokenKind::LessEqual)),
        rank(precedence_of(TokenKind::Less)) == rank(precedence_of(TokenKind::Greater)),
        rank(precedence_of(TokenKind::Less)) == rank(precedence_of(TokenKind::GreaterEqual)),
        rank(precedence_of(TokenKind::Less)) < rank(precedence_of(TokenKind::Plus)),
        rank(precedence_of(TokenKind::Plus)) == rank(precedence_of(TokenKind::Minus)),
        rank(precedence_of(TokenKind::Plus)) < rank(precedence_of(TokenKind::Star)),
        rank(precedence_of(TokenKind::Star)) == rank(precedence_of(TokenKind::Slash)),
        rank(precedence_of(TokenKind::Star)) == rank(precedence_of(TokenKind::Percent)),
        rank(precedence_of(TokenKind::Star)) < rank(precedence_of(TokenKind::Bang)),
        rank(precedence_of(TokenKind::Bang)) < rank(precedence_of(TokenKind::Dot)),
        rank(precedence_of(TokenKind::Dot)) == rank(precedence_of(TokenKind::LeftParen)),
        rank(precedence_of(TokenKind::Dot)) == rank(precedence_of(TokenKind::LeftBracket)),
        forall|k: TokenKind| !is_operator_token(k) ==> rank(#[trigger] precedence_of(k)) < rank(precedence_of(TokenKind::Equal)),
{
}

impl Precedence {
    /// The place of the binding strength in the order, loosest first.
    pub fn rank(&self) -> (r: u8)
        ensures
            r == rank(*self),
    {
        match self {
            Precedence::Lowest => 0,
            Precedence::Assignment => 1,
            Precedence::Or => 2,
            Precedence::And => 3,
            Precedence::Equality => 4,
            Precedence::Comparison => 5,
            Precedence::Term => 6,
            Precedence::Factor => 7,
            Precedence::Unary => 8,
            Precedence::Call => 9,
            Precedence::Primary => 10,
        }
    }

    /// The binding strength of an operator token; `Lowest` for any other token.
    pub fn from_token(token: &TokenKind) -> (p: Self)
        ensures
            p == precedence_of(*token),
    {
        match token {
            TokenKind::Equal => Precedence::Assignment,
            TokenKind::PipePipe => Precedence::Or,
            TokenKind::AmpersandAmpersand => Precedence::And,
            TokenKind::EqualEqual | TokenKind::BangEqual => Precedence::Equality,
            TokenKind::Greater | TokenKind::GreaterEqual | TokenKind::Less | TokenKind::LessEqual => Precedence::Comparison,
            TokenKind::Plus | TokenKind::Minus => Precedence::Term,
            TokenKind::Star | TokenKind::Slash | TokenKind::Percent => Precedence::Factor,
            TokenKind::Bang => Precedence::Unary,
            TokenKind::Dot | TokenKind::LeftParen | TokenKind::LeftBracket => Precedence::Call,
            _ => Precedence::Lowest,
        }
    }
}

} // verus!
