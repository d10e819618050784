//! Tokens of KERN source text and their places.
use vstd::prelude::*;

verus! {

/// A place in source text: line and column (from one) and character offset.
#[derive(Debug, Clone, Copy, PartialEq, Eq)]
pub struct SourceLocation {
    pub line: usize,
    pub column: usize,
    pub offset: usize,
}

impl SourceLocation {
    pub fn new(line: usize, column: usize, offset: usize) -> (l: Self)
        ensures
            l == (SourceLocation { line, column, offset }),
    {
        SourceLocation { line, column, offset }
    }
}

/// A stretch of source text.
#[derive(Debug, Clone, Copy, PartialEq, Eq)]
pub struct Span {
    pub start: SourceLocation,
    pub end: SourceLocation,
}

/// Kinds of tokens.
#[derive(Debug, Clone, Copy, PartialEq, Eq, Structural)]
pub enum TokenKind {
    Entity,
    Rule,
    Flow,
    Constraint,
    If,
    Then,
    Else,
    True,
    False,
    Sym,
    Num,
    Bool,
    Vec,
    Ref,
    Ctx,
    Var,
    For,
    While,
    Return,
    Break,
    Continue,
    Identifier,
    StringLiteral,
    NumberLiteral,
    Plus,
    Minus,
    Star,
    Slash,
    Percent,
    Bang,
    Equal,
    EqualEqual,
    BangEqual,
    Less,
    LessEqual,
    Greater,
    GreaterEqual,
    Ampersand,
    AmpersandAmpersand,
    Pipe,
    PipePipe,
    LeftParen,
    RightParen,
    LeftBrace,
    RightBrace,
    LeftBracket,
    RightBracket,
    Colon,
    Semicolon,
    Comma,
    Dot,
    Arrow,
    Eof,
    Error,
}


/// The name a token kind is written with when shown.
pub open spec fn kind_debug(kind: TokenKind) -> Seq<char> {
    match kind {
        TokenKind::Entity => "Entity"@,
        TokenKind::Rule => "Rule"@,
        TokenKind::Flow => "Flow"@,
        TokenKind::Constraint => "Constraint"@,
        TokenKind::If => "If"@,
        TokenKind::Then => "Then"@,
        TokenKind::Else => "Else"@,
        TokenKind::True => "True"@,
        TokenKind::False => "False"@,
        TokenKind::Sym => "Sym"@,
        TokenKind::Num => "Num"@,
        TokenKind::Bool => "Bool"@,
        TokenKind::Vec => "Vec"@,
        TokenKind::Ref => "Ref"@,
        TokenKind::Ctx => "Ctx"@,
        TokenKind::Var => "Var"@,
        TokenKind::For => "For"@,
        TokenKind::While => "While"@,
        TokenKind::Return => "Return"@,
        TokenKind::Break => "Break"@,
        TokenKind::Continue => "Continue"@,
        TokenKind::Identifier => "Identifier"@,
        TokenKind::StringLiteral => "StringLiteral"@,
        TokenKind::NumberLiteral => "NumberLiteral"@,
        TokenKind::Plus => "Plus"@,
        TokenKind::Minus => "Minus"@,
        TokenKind::Star => "Star"@,
        TokenKind::Slash => "Slash"@,
        TokenKind::Percent => "Percent"@,
        TokenKind::Bang => "Bang"@,
        TokenKind::Equal => "Equal"@,
        TokenKind::EqualEqual => "EqualEqual"@,
        TokenKind::BangEqual => "BangEqual"@,
        TokenKind::Less => "Less"@,
        TokenKind::LessEqual => "LessEqual"@,
        TokenKind::Greater => "Greater"@,
        TokenKind::GreaterEqual => "GreaterEqual"@,
        TokenKind::Ampersand => "Ampersand"@,
        TokenKind::AmpersandAmpersand => "AmpersandAmpersand"@,
        TokenKind::Pipe => "Pipe"@,
        TokenKind::PipePipe => "PipePipe"@,
        TokenKind::LeftParen => "LeftParen"@,
        TokenKind::RightParen => "RightParen"@,
        TokenKind::LeftBrace => "LeftBrace"@,
        TokenKind::RightBrace => "RightBrace"@,
        TokenKind::LeftBracket => "LeftBracket"@,
        TokenKind::RightBracket => "RightBracket"@,
        TokenKind::Colon => "Colon"@,
        TokenKind::Semicolon => "Semicolon"@,
        TokenKind::Comma => "Comma"@,
        TokenKind::Dot => "Dot"@,
        TokenKind::Arrow => "Arrow"@,
        TokenKind::Eof => "Eof"@,
        TokenKind::Error => "Error"@,
    }
}

impl TokenKind {
    /// The name the kind is written with when shown.
    pub fn name(&self) -> (s: &'static str)
        ensures
            s@ == kind_debug(*self),
    {
        match self {
            TokenKind::Entity => "Entity",
            TokenKind::Rule => "Rule",
            TokenKind::Flow => "Flow",
            TokenKind::Constraint => "Constraint",
            TokenKind::If => "If",
            TokenKind::Then => "Then",
            TokenKind::Else => "Else",
            TokenKind::True => "True",
            TokenKind::False => "False",
            TokenKind::Sym => "Sym",
            TokenKind::Num => "Num",
            TokenKind::Bool => "Bool",
            TokenKind::Vec => "Vec",
            TokenKind::Ref => "Ref",
            TokenKind::Ctx => "Ctx",
            TokenKind::Var => "Var",
            TokenKind::For => "For",
            TokenKind::While => "While",
            TokenKind::Return => "Return",
            TokenKind::Break => "Break",
            TokenKind::Continue => "Continue",
            TokenKind::Identifier => "Identifier",
            TokenKind::StringLiteral => "StringLiteral",
            TokenKind::NumberLiteral => "NumberLiteral",
            TokenKind::Plus => "Plus",
            TokenKind::Minus => "Minus",
            TokenKind::Star => "Star",
            TokenKind::Slash => "Slash",
            TokenKind::Percent => "Percent",
            TokenKind::Bang => "Bang",
            TokenKind::Equal => "Equal",
            TokenKind::EqualEqual => "EqualEqual",
            TokenKind::BangEqual => "BangEqual",
            TokenKind::Less => "Less",
            TokenKind::LessEqual => "LessEqual",
            TokenKind::Greater => "Greater",
            TokenKind::GreaterEqual => "GreaterEqual",
            TokenKind::Ampersand => "Ampersand",
            TokenKind::AmpersandAmpersand => "AmpersandAmpersand",
            TokenKind::Pipe => "Pipe",
            TokenKind::PipePipe => "PipePipe",
            TokenKind::LeftParen => "LeftParen",
            TokenKind::RightParen => "RightParen",
            TokenKind::LeftBrace => "LeftBrace",
            TokenKind::RightBrace => "RightBrace",
            TokenKind::LeftBracket => "LeftBracket",
            TokenKind::RightBracket => "RightBracket",
            TokenKind::Colon => "Colon",
            TokenKind::Semicolon => "Semicolon",
            TokenKind::Comma => "Comma",
            TokenKind::Dot => "Dot",
            TokenKind::Arrow => "Arrow",
            TokenKind::Eof => "Eof",
            TokenKind::Error => "Error",
        }
    }
}

/// A token: its kind, its text and where it was found.
#[derive(Debug, Clone)]
pub struct Token {
    pub kind: TokenKind,
    pub lexeme: String,
    pub location: SourceLocation,
}

/// What a token says: its kind, its text and its place.
pub struct TokenV {
    pub kind: TokenKind,
    pub lexeme: Seq<char>,
    pub location: SourceLocation,
}

impl View for Token {
    type V = TokenV;

    open spec fn view(&self) -> TokenV {
        TokenV { kind: self.kind, lexeme: self.lexeme@, location: self.location }
    }
}

/// What a sequence of tokens says.
pub open spec fn token_views(s: Seq<Token>) -> Seq<TokenV> {
    s.map_values(|t: Token| t@)
}

impl Token {
    pub fn new(kind: TokenKind, lexeme: String, location: SourceLocation) -> (t: Self)
        ensures
            t == (Token { kind, lexeme, location }),
    {
        Token { kind, lexeme, location }
    }

    /// A copy of the token.
    pub fn copy(&self) -> (t: Self)
        ensures
            t == *self,
    {
        Token { kind: self.kind, lexeme: self.lexeme.clone(), location: self.location }
    }
}

} // verus!
