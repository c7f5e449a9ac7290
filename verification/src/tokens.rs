//! Tokens, and the stream that hands them to the parsers one at a time.

use crate::errors::{Expected, ParseError};
use crate::span::Span;
use vstd::prelude::*;

verus! {

/// What a token is. Identifiers and literals carry their text.
#[derive(Debug, PartialEq, Eq)]
pub enum TokenKind {
    Identifier(String),
    StringLiteral(String),
    NumberLiteral(String),
    /// The keyword `async`.
    Async,
    /// The keyword `return`.
    Return,
    OpenParentheses,
    CloseParentheses,
    OpenBrace,
    CloseBrace,
    OpenChevron,
    CloseChevron,
    Comma,
    Colon,
    Semicolon,
    /// `?`, which marks a parameter as optional.
    QuestionMark,
    /// `=`, which opens a default value.
    Assign,
    /// `...`, which marks the rest parameter.
    Spread,
    /// `=>`, which parts the parameters of an arrow function from its body.
    Arrow,
    Add,
    Subtract,
    /// Closes a stream that a lexer has read to its end.
    EndOfSource,
}

impl TokenKind {
    /// Whether two kinds are the same kind of token with the same text.
    pub open spec fn same_kind(self, other: TokenKind) -> bool {
        match (self, other) {
            (TokenKind::Identifier(a), TokenKind::Identifier(b)) => a@ == b@,
            (TokenKind::StringLiteral(a), TokenKind::StringLiteral(b)) => a@ == b@,
            (TokenKind::NumberLiteral(a), TokenKind::NumberLiteral(b)) => a@ == b@,
            _ => self == other,
        }
    }

    pub fn is_same_kind(&self, other: &TokenKind) -> (same: bool)
        ensures
            same == self.same_kind(*other),
    {
        match (self, other) {
            (TokenKind::Identifier(a), TokenKind::Identifier(b)) => *a == *b,
            (TokenKind::StringLiteral(a), TokenKind::StringLiteral(b)) => *a == *b,
            (TokenKind::NumberLiteral(a), TokenKind::NumberLiteral(b)) => *a == *b,
            (TokenKind::Async, TokenKind::Async) => true,
            (TokenKind::Return, TokenKind::Return) => true,
            (TokenKind::OpenParentheses, TokenKind::OpenParentheses) => true,
            (TokenKind::CloseParentheses, TokenKind::CloseParentheses) => true,
            (TokenKind::OpenBrace, TokenKind::OpenBrace) => true,
            (TokenKind::CloseBrace, TokenKind::CloseBrace) => true,
            (TokenKind::OpenChevron, TokenKind::OpenChevron) => true,
            (TokenKind::CloseChevron, TokenKind::CloseChevron) => true,
            (TokenKind::Comma, TokenKind::Comma) => true,
            (TokenKind::Colon, TokenKind::Colon) => true,
            (TokenKind::Semicolon, TokenKind::Semicolon) => true,
            (TokenKind::QuestionMark, TokenKind::QuestionMark) => true,
            (TokenKind::Assign, TokenKind::Assign) => true,
            (TokenKind::Spread, TokenKind::Spread) => true,
            (TokenKind::Arrow, TokenKind::Arrow) => true,
            (TokenKind::Add, TokenKind::Add) => true,
            (TokenKind::Subtract, TokenKind::Subtract) => true,
            (TokenKind::EndOfSource, TokenKind::EndOfSource) => true,
            _ => false,
        }
    }
}

impl Clone for TokenKind {
    fn clone(&self) -> (copy: Self)
        ensures
            copy == *self,
    {
        match self {
            TokenKind::Identifier(text) => TokenKind::Identifier(text.clone()),
            TokenKind::StringLiteral(text) => TokenKind::StringLiteral(text.clone()),
            TokenKind::NumberLiteral(text) => TokenKind::NumberLiteral(text.clone()),
            TokenKind::Async => TokenKind::Async,
            TokenKind::Return => TokenKind::Return,
            TokenKind::OpenParentheses => TokenKind::OpenParentheses,
            TokenKind::CloseParentheses => TokenKind::CloseParentheses,
            TokenKind::OpenBrace => TokenKind::OpenBrace,
            TokenKind::CloseBrace => TokenKind::CloseBrace,
            TokenKind::OpenChevron => TokenKind::OpenChevron,
            TokenKind::CloseChevron => TokenKind::CloseChevron,
            TokenKind::Comma => TokenKind::Comma,
            TokenKind::Colon => TokenKind::Colon,
            TokenKind::Semicolon => TokenKind::Semicolon,
            TokenKind::QuestionMark => TokenKind::QuestionMark,
            TokenKind::Assign => TokenKind::Assign,
            TokenKind::Spread => TokenKind::Spread,
            TokenKind::Arrow => TokenKind::Arrow,
            TokenKind::Add => TokenKind::Add,
            TokenKind::Subtract => TokenKind::Subtract,
            TokenKind::EndOfSource => TokenKind::EndOfSource,
        }
    }
}

/// A token: its kind, and where it stands in the source.
#[derive(Debug, PartialEq, Eq)]
pub struct Token {
    pub kind: TokenKind,
    pub span: Span,
}

impl Clone for Token {
    fn clone(&self) -> (copy: Self)
        ensures
            copy == *self,
    {
        Token { kind: self.kind.clone(), span: self.span }
    }
}

/// The token at `at`, where there is one.
pub open spec fn token_at(tokens: Seq<Token>, at: int) -> Option<Token> {
    if 0 <= at < tokens.len() {
        Some(tokens[at])
    } else {
        None
    }
}

/// Whether there is a token at `at` and it is of kind `kind`.
pub open spec fn kind_is(tokens: Seq<Token>, at: int, kind: TokenKind) -> bool {
    0 <= at < tokens.len() && tokens[at].kind.same_kind(kind)
}

/// Where a stream ends: behind its last token, or at the start of source 0
/// for a stream without tokens.
pub open spec fn end_position(tokens: Seq<Token>) -> Span {
    if tokens.len() == 0 {
        Span::spec_of(0, 0, 0)
    } else {
        tokens.last().span.spec_end_point()
    }
}

/// The failure of a parser that needs one of a class of tokens at `at` and
/// does not find it there: the end of the input where the stream is exhausted
/// or closed at that place, the token that stands there otherwise.
pub open spec fn missing(tokens: Seq<Token>, at: int, expected: Expected) -> ParseError {
    match token_at(tokens, at) {
        None => ParseError::UnexpectedEndOfInput { position: end_position(tokens) },
        Some(token) => if token.kind == TokenKind::EndOfSource {
            ParseError::UnexpectedEndOfInput { position: token.span }
        } else {
            ParseError::UnexpectedToken { expected, found: token }
        },
    }
}

/// The failure of a parser that needs a token of kind `kind` at `at` where
/// none stands: the token that stands there instead, or the end of the
/// input if the stream is exhausted.
pub open spec fn unexpected(tokens: Seq<Token>, at: int, kind: TokenKind) -> ParseError {
    match token_at(tokens, at) {
        None => ParseError::UnexpectedEndOfInput { position: end_position(tokens) },
        Some(token) => ParseError::UnexpectedToken { expected: Expected::Token(kind), found: token },
    }
}

/// What `expect_next` gives for a token of kind `kind` at `at`: the span of
/// the token that stands there if it is of that kind, the failure of
/// `unexpected` otherwise.
pub open spec fn expected_at(tokens: Seq<Token>, at: int, kind: TokenKind) -> Result<
    Span,
    ParseError,
> {
    if kind_is(tokens, at, kind) {
        Ok(tokens[at].span)
    } else {
        Err(unexpected(tokens, at, kind))
    }
}

/// What a parser that needs an identifier at `at` gets: its name and span,
/// or the failure of `missing`.
pub open spec fn identifier_at(tokens: Seq<Token>, at: int) -> Result<(String, Span), ParseError> {
    match token_at(tokens, at) {
        Some(Token { kind: TokenKind::Identifier(name), span }) => Ok((name, span)),
        _ => Err(missing(tokens, at, Expected::Identifier)),
    }
}

/// An ordered sequence of tokens with a cursor that only moves forward.
pub struct TokenReader {
    tokens: Vec<Token>,
    cursor: usize,
}

impl TokenReader {
    /// The cursor never passes the end of the tokens.
    #[verifier::type_invariant]
    pub open spec fn bounded(&self) -> bool {
        0 <= self.cursor() <= self.tokens().len()
    }

    /// All the tokens of the stream, the consumed ones too.
    pub closed spec fn tokens(&self) -> Seq<Token> {
        self.tokens@
    }

    /// How many tokens have been consumed.
    pub closed spec fn cursor(&self) -> int {
        self.cursor as int
    }

    /// How many tokens are left.
    pub open spec fn remaining(&self) -> nat {
        if self.cursor() <= self.tokens().len() {
            (self.tokens().len() - self.cursor()) as nat
        } else {
            0
        }
    }

    /// A reader at the start of `tokens`.
    pub fn new(tokens: Vec<Token>) -> (reader: TokenReader)
        ensures
            reader.tokens() == tokens@,
            reader.cursor() == 0,
    {
        TokenReader { tokens, cursor: 0 }
    }

    /// How many tokens are left.
    pub fn count_remaining(&self) -> (left: usize)
        ensures
            left == self.remaining(),
            0 <= self.cursor() <= self.tokens().len(),
            self.tokens().len() <= usize::MAX,
    {
        proof {
            use_type_invariant(self);
        }
        self.tokens.len() - self.cursor
    }

    /// The next token, which stays in the stream.
    pub fn peek(&self) -> (next: Option<&Token>)
        ensures
            match next {
                Some(token) => token_at(self.tokens(), self.cursor()) == Some(*token),
                None => token_at(self.tokens(), self.cursor()) is None,
            },
    {
        proof {
            use_type_invariant(self);
        }
        if self.cursor < self.tokens.len() {
            Some(&self.tokens[self.cursor])
        } else {
            None
        }
    }

    /// Whether the next token is of kind `kind`. Consumes nothing.
    pub fn peek_is(&self, kind: &TokenKind) -> (found: bool)
        ensures
            found == kind_is(self.tokens(), self.cursor(), *kind),
    {
        match self.peek() {
            Some(token) => token.kind.is_same_kind(kind),
            None => false,
        }
    }

    /// Where the stream ends.
    pub fn end_position(&self) -> (position: Span)
        ensures
            position == end_position(self.tokens()),
    {
        let count: usize = self.tokens.len();
        if count == 0 {
            Span::zero()
        } else {
            self.tokens[count - 1].span.end_point()
        }
    }

    /// Moves past the next token.
    pub fn advance(&mut self)
        requires
            token_at(old(self).tokens(), old(self).cursor()) is Some,
        ensures
            final(self).tokens() == old(self).tokens(),
            final(self).cursor() == old(self).cursor() + 1,
    {
        proof {
            use_type_invariant(&*self);
        }
        let count: usize = self.tokens.len();
        assert(self.cursor < count);
        self.cursor = self.cursor + 1;
    }

    /// Consumes the next token and returns it; fails at the end of the stream,
    /// with the place where it ends.
    pub fn next(&mut self) -> (result: Result<Token, ParseError>)
        ensures
            final(self).tokens() == old(self).tokens(),
            match token_at(old(self).tokens(), old(self).cursor()) {
                Some(token) => result == Ok::<Token, ParseError>(token) && final(self).cursor()
                    == old(self).cursor() + 1,
                None => result == Err::<Token, ParseError>(
                    ParseError::UnexpectedEndOfInput { position: end_position(old(self).tokens()) },
                ) && final(self).cursor() == old(self).cursor(),
            },
    {
        proof {
            use_type_invariant(&*self);
        }
        if self.cursor < self.tokens.len() {
            let token = self.tokens[self.cursor].clone();
            self.cursor = self.cursor + 1;
            Ok(token)
        } else {
            Err(ParseError::UnexpectedEndOfInput { position: self.end_position() })
        }
    }

    /// The failure of a parser that needs a token of kind `kind` next and
    /// does not find it. Consumes nothing.
    pub fn unexpected(&self, kind: TokenKind) -> (error: ParseError)
        ensures
            error == unexpected(self.tokens(), self.cursor(), kind),
    {
        match self.peek() {
            None => ParseError::UnexpectedEndOfInput { position: self.end_position() },
            Some(token) => ParseError::UnexpectedToken {
                expected: Expected::Token(kind),
                found: token.clone(),
            },
        }
    }

    /// Consumes the next token if it is of kind `kind` and returns its span;
    /// otherwise fails and consumes nothing.
    pub fn expect_next(&mut self, kind: TokenKind) -> (result: Result<Span, ParseError>)
        ensures
            final(self).tokens() == old(self).tokens(),
            result == expected_at(old(self).tokens(), old(self).cursor(), kind),
            final(self).cursor() == if result is Ok {
                old(self).cursor() + 1
            } else {
                old(self).cursor()
            },
    {
        proof {
            use_type_invariant(&*self);
        }
        if self.peek_is(&kind) {
            let span = self.tokens[self.cursor].span;
            self.advance();
            Ok(span)
        } else {
            Err(self.unexpected(kind))
        }
    }

    /// Consumes the next token if it is of kind `kind` and returns its span;
    /// otherwise consumes nothing.
    pub fn next_if(&mut self, kind: &TokenKind) -> (found: Option<Span>)
        ensures
            final(self).tokens() == old(self).tokens(),
            found == if kind_is(old(self).tokens(), old(self).cursor(), *kind) {
                Some(old(self).tokens()[old(self).cursor()].span)
            } else {
                None
            },
            final(self).cursor() == if found is Some {
                old(self).cursor() + 1
            } else {
                old(self).cursor()
            },
    {
        proof {
            use_type_invariant(&*self);
        }
        if self.peek_is(kind) {
            let span = self.tokens[self.cursor].span;
            self.advance();
            Some(span)
        } else {
            None
        }
    }

    /// Consumes the next token if it is an identifier and returns its name
    /// and span; otherwise fails and consumes nothing.
    pub fn next_identifier(&mut self) -> (result: Result<(String, Span), ParseError>)
        ensures
            final(self).tokens() == old(self).tokens(),
            result == identifier_at(old(self).tokens(), old(self).cursor()),
            final(self).cursor() == if result is Ok {
                old(self).cursor() + 1
            } else {
                old(self).cursor()
            },
    {
        match self.peek() {
            Some(Token { kind: TokenKind::Identifier(name), span }) => {
                let found = (name.clone(), *span);
                self.advance();
                Ok(found)
            },
            _ => Err(self.missing(Expected::Identifier)),
        }
    }

    /// The failure of a parser that needs one of a class of tokens next and
    /// does not find it. Consumes nothing.
    pub fn missing(&self, expected: Expected) -> (error: ParseError)
        ensures
            error == missing(self.tokens(), self.cursor(), expected),
    {
        match self.peek() {
            None => ParseError::UnexpectedEndOfInput { position: self.end_position() },
            Some(token) => match token.kind {
                TokenKind::EndOfSource => ParseError::UnexpectedEndOfInput {
                    position: token.span,
                },
                _ => ParseError::UnexpectedToken { expected, found: token.clone() },
            },
        }
    }
}

} // verus!
