//! Errors found while reading KERN source text.
use vstd::prelude::*;
use crate::front::token::SourceLocation;

verus! {

/// What went wrong.
#[derive(Debug, Clone, Copy, PartialEq, Eq, Structural)]
pub enum ErrorCode {
    ExpectedArgumentList,
    ExpectedBlock,
    ExpectedConstraintAction,
    ExpectedConstraintCondition,
    ExpectedDeclaration,
    ExpectedDelimiter,
    ExpectedExpression,
    ExpectedIdentifier,
    ExpectedKeyword,
    ExpectedOperator,
    ExpectedRuleAction,
    ExpectedRuleCondition,
    ExpectedTypeName,
    InvalidNumber,
    MissingRightBrace,
    MissingRightBracket,
    MissingRightParen,
    MissingSemicolon,
    UnexpectedCharacter,
}

/// One error: its code, its message, and where it was found.
#[derive(Debug, Clone)]
pub struct ParserError {
    pub code: ErrorCode,
    pub message: String,
    pub location: SourceLocation,
    pub file: String,
}

impl ParserError {
    pub fn new(code: ErrorCode, message: String, location: SourceLocation, file: String) -> (e: Self)
        ensures
            e.code == code,
            e.message@ == message@,
            e.location == location,
            e.file@ == file@,
    {
        ParserError { code, message, location, file }
    }
}

/// The errors found so far, in the order they were found.
#[derive(Debug, Clone)]
pub struct Diagnostics {
    pub diagnostics: Vec<ParserError>,
}

impl Diagnostics {
    pub fn new() -> (d: Self)
        ensures
            d.diagnostics@.len() == 0,
    {
        Diagnostics { diagnostics: Vec::new() }
    }

    /// Records an error after those already recorded.
    pub fn add_error(&mut self, code: ErrorCode, message: String, location: SourceLocation, file: String)
        ensures
            final(self).diagnostics@.len() == old(self).diagnostics@.len() + 1,
            final(self).diagnostics@.drop_last() == old(self).diagnostics@,
            final(self).diagnostics@.last().code == code,
            final(self).diagnostics@.last().message@ == message@,
            final(self).diagnostics@.last().location == location,
            final(self).diagnostics@.last().file@ == file@,
    {
        let e = ParserError::new(code, message, location, file);
        self.diagnostics.push(e);
        assert(self.diagnostics@.drop_last() =~= old(self).diagnostics@);
    }

    /// Whether any error was recorded.
    pub fn has_errors(&self) -> (r: bool)
        ensures
            r == (self.diagnostics@.len() > 0),
    {
        self.diagnostics.len() > 0
    }
}

} // verus!
