//! The reserved words of KERN.
use vstd::prelude::*;
use crate::front::token::TokenKind;
use crate::maps::NameMap;
use crate::text::str_eq;

verus! {

/// The token kind of a reserved word.
pub open spec fn keyword_kind(s: Seq<char>) -> Option<TokenKind> {
    if s == "entity"@ {
        Some(TokenKind::Entity)
    } else if s == "rule"@ {
        Some(TokenKind::Rule)
    } else if s == "flow"@ {
        Some(TokenKind::Flow)
    } else if s == "constraint"@ {
        Some(TokenKind::Constraint)
    } else if s == "if"@ {
        Some(TokenKind::If)
    } else if s == "then"@ {
        Some(TokenKind::Then)
    } else if s == "else"@ {
        Some(TokenKind::Else)
    } else if s == "true"@ {
        Some(TokenKind::True)
    } else if s == "false"@ {
        Some(TokenKind::False)
    } else if s == "sym"@ {
        Some(TokenKind::Sym)
    } else if s == "num"@ {
        Some(TokenKind::Num)
    } else if s == "bool"@ {
        Some(TokenKind::Bool)
    } else if s == "vec"@ {
        Some(TokenKind::Vec)
    } else if s == "ref"@ {
        Some(TokenKind::Ref)
    } else if s == "ctx"@ {
        Some(TokenKind::Ctx)
    } else {
        None
    }
}

/// The token kind of a reserved word, `None` for any other text.
pub fn is_keyword(identifier: &str) -> (r: Option<TokenKind>)
    ensures
        r == keyword_kind(identifier@),
{
    if str_eq(identifier, "entity") {
        Some(TokenKind::Entity)
    } else if str_eq(identifier, "rule") {
        Some(TokenKind::Rule)
    } else if str_eq(identifier, "flow") {
        Some(TokenKind::Flow)
    } else if str_eq(identifier, "constraint") {
        Some(TokenKind::Constraint)
    } else if str_eq(identifier, "if") {
        Some(TokenKind::If)
    } else if str_eq(identifier, "then") {
        Some(TokenKind::Then)
    } else if str_eq(identifier, "else") {
        Some(TokenKind::Else)
    } else if str_eq(identifier, "true") {
        Some(TokenKind::True)
    } else if str_eq(identifier, "false") {
        Some(TokenKind::False)
    } else if str_eq(identifier, "sym") {
        Some(TokenKind::Sym)
    } else if str_eq(identifier, "num") {
        Some(TokenKind::Num)
    } else if str_eq(identifier, "bool") {
        Some(TokenKind::Bool)
    } else if str_eq(identifier, "vec") {
        Some(TokenKind::Vec)
    } else if str_eq(identifier, "ref") {
        Some(TokenKind::Ref)
    } else if str_eq(identifier, "ctx") {
        Some(TokenKind::Ctx)
    } else {
        None
    }
}

/// Every reserved word with its token kind, in the order of the table above.
pub fn get_all_keywords() -> (m: NameMap<TokenKind>)
    ensures
        m.wf(),
        m.spec_len() == 15,
        forall|k: Seq<char>| m@.contains_key(k) <==> (#[trigger] keyword_kind(k)) is Some,
        forall|k: Seq<char>| #[trigger] m@.contains_key(k) ==> keyword_kind(k) == Some(m@[k]),
{
    proof {
        reveal_strlit("entity");
        reveal_strlit("rule");
        reveal_strlit("flow");
        reveal_strlit("constraint");
        reveal_strlit("if");
        reveal_strlit("then");
        reveal_strlit("else");
        reveal_strlit("true");
        reveal_strlit("false");
        reveal_strlit("sym");
        reveal_strlit("num");
        reveal_strlit("bool");
        reveal_strlit("vec");
        reveal_strlit("ref");
        reveal_strlit("ctx");
        assert("entity"@.len() == 6 && "entity"@[0] == 'e' && "entity"@[1] == 'n');
        assert("rule"@.len() == 4 && "rule"@[0] == 'r' && "rule"@[1] == 'u');
        assert("flow"@.len() == 4 && "flow"@[0] == 'f' && "flow"@[1] == 'l');
        assert("constraint"@.len() == 10 && "constraint"@[0] == 'c' && "constraint"@[1] == 'o');
        assert("if"@.len() == 2 && "if"@[0] == 'i' && "if"@[1] == 'f');
        assert("then"@.len() == 4 && "then"@[0] == 't' && "then"@[1] == 'h');
        assert("else"@.len() == 4 && "else"@[0] == 'e' && "else"@[1] == 'l');
        assert("true"@.len() == 4 && "true"@[0] == 't' && "true"@[1] == 'r');
        assert("false"@.len() == 5 && "false"@[0] == 'f' && "false"@[1] == 'a');
        assert("sym"@.len() == 3 && "sym"@[0] == 's' && "sym"@[1] == 'y');
        assert("num"@.len() == 3 && "num"@[0] == 'n' && "num"@[1] == 'u');
        assert("bool"@.len() == 4 && "bool"@[0] == 'b' && "bool"@[1] == 'o');
        assert("vec"@.len() == 3 && "vec"@[0] == 'v' && "vec"@[1] == 'e');
        assert("ref"@.len() == 3 && "ref"@[0] == 'r' && "ref"@[1] == 'e');
        assert("ctx"@.len() == 3 && "ctx"@[0] == 'c' && "ctx"@[1] == 't');
    }
    let mut m: NameMap<TokenKind> = NameMap::new();
    m.insert("entity".to_owned(), TokenKind::Entity);
    m.insert("rule".to_owned(), TokenKind::Rule);
    m.insert("flow".to_owned(), TokenKind::Flow);
    m.insert("constraint".to_owned(), TokenKind::Constraint);
    m.insert("if".to_owned(), TokenKind::If);
    m.insert("then".to_owned(), TokenKind::Then);
    m.insert("else".to_owned(), TokenKind::Else);
    m.insert("true".to_owned(), TokenKind::True);
    m.insert("false".to_owned(), TokenKind::False);
    m.insert("sym".to_owned(), TokenKind::Sym);
    m.insert("num".to_owned(), TokenKind::Num);
    m.insert("bool".to_owned(), TokenKind::Bool);
    m.insert("vec".to_owned(), TokenKind::Vec);
    m.insert("ref".to_owned(), TokenKind::Ref);
    m.insert("ctx".to_owned(), TokenKind::Ctx);
    m
}

} // verus!
