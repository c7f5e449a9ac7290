//! The failures of a parse.

use crate::span::Span;
use crate::tokens::{Token, TokenKind};
use vstd::prelude::*;

verus! {

/// What a parser was looking for where it failed.
#[derive(Debug, PartialEq, Eq)]
pub enum Expected {
    /// A token of one kind.
    Token(TokenKind),
    /// Any identifier.
    Identifier,
    /// Any token that an expression can start with.
    Expression,
}

/// Why a parse failed. A failure ends the parse: nothing is recovered, and
/// the tokens consumed before it stay consumed.
#[derive(Debug, PartialEq, Eq)]
pub enum ParseError {
    /// The stream was exhausted where a token was needed.
    UnexpectedEndOfInput { position: Span },
    /// A token of a wrong kind stood where another was needed.
    UnexpectedToken { expected: Expected, found: Token },
}

impl ParseError {
    /// Where the input went wrong.
    pub open spec fn spec_position(&self) -> Span {
        match self {
            ParseError::UnexpectedEndOfInput { position } => *position,
            ParseError::UnexpectedToken { found, .. } => found.span,
        }
    }

    #[verifier::when_used_as_spec(spec_position)]
    pub fn position(&self) -> (position: Span)
        ensures
            position == self.spec_position(),
    {
        match self {
            ParseError::UnexpectedEndOfInput { position } => *position,
            ParseError::UnexpectedToken { found, .. } => found.span,
        }
    }
}

pub type ParseResult<T> = Result<T, ParseError>;

} // verus!
