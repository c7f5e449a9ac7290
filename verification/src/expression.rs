//! Expressions: operands joined by additive operators, read from left to
//! right. This is the part of the expression grammar that the bodies and
//! the default values of this crate need.

use crate::buffer::push_str;
use crate::errors::{Expected, ParseError};
use crate::node::{ASTNode, Parsed};
use crate::span::Span;
use crate::state::{IdCounters, ParseSettings, ParsingState, ToStringSettings};
use crate::tokens::{missing, token_at, Token, TokenKind, TokenReader};
use vstd::prelude::*;

verus! {

/// What an operator works on: a name or a literal, with its place in the
/// source.
#[derive(Debug, PartialEq, Eq)]
pub enum Operand {
    VariableReference(String, Span),
    /// The text between the quotes, as the source has it.
    StringLiteral(String, Span),
    NumberLiteral(String, Span),
}

#[derive(Clone, Copy, Debug, PartialEq, Eq, Structural)]
pub enum BinaryOperator {
    Add,
    Subtract,
}

/// An operand, or an operation whose left side is all that stands before
/// its operator.
#[derive(Debug, PartialEq, Eq)]
pub enum Expression {
    Operand(Operand),
    BinaryOperation { lhs: Box<Expression>, operator: BinaryOperator, rhs: Operand },
}

impl Clone for Operand {
    fn clone(&self) -> (copy: Self)
        ensures
            copy == *self,
    {
        match self {
            Operand::VariableReference(name, position) => Operand::VariableReference(
                name.clone(),
                *position,
            ),
            Operand::StringLiteral(content, position) => Operand::StringLiteral(
                content.clone(),
                *position,
            ),
            Operand::NumberLiteral(digits, position) => Operand::NumberLiteral(
                digits.clone(),
                *position,
            ),
        }
    }
}

impl Clone for Expression {
    fn clone(&self) -> (copy: Self)
        ensures
            copy == *self,
        decreases self,
    {
        match self {
            Expression::Operand(operand) => Expression::Operand(operand.clone()),
            Expression::BinaryOperation { lhs, operator, rhs } => Expression::BinaryOperation {
                lhs: Box::new((&**lhs).clone()),
                operator: *operator,
                rhs: rhs.clone(),
            },
        }
    }
}

impl Operand {
    pub open spec fn spec_position(&self) -> Span {
        match self {
            Operand::VariableReference(_, position) => *position,
            Operand::StringLiteral(_, position) => *position,
            Operand::NumberLiteral(_, position) => *position,
        }
    }

    #[verifier::when_used_as_spec(spec_position)]
    pub fn position(&self) -> (position: Span)
        ensures
            position == self.spec_position(),
    {
        match self {
            Operand::VariableReference(_, position) => *position,
            Operand::StringLiteral(_, position) => *position,
            Operand::NumberLiteral(_, position) => *position,
        }
    }

    /// The text of an operand: a name or a number as it is, a string
    /// between double quotes.
    pub open spec fn text(&self) -> Seq<char> {
        match self {
            Operand::VariableReference(name, _) => name@,
            Operand::StringLiteral(content, _) => "\""@ + content@ + "\""@,
            Operand::NumberLiteral(digits, _) => digits@,
        }
    }

    /// The operand that the token at `at` is, or the failure of `missing`.
    pub open spec fn at(tokens: Seq<Token>, at: int) -> Result<Operand, ParseError> {
        match token_at(tokens, at) {
            Some(Token { kind: TokenKind::Identifier(name), span }) => Ok(
                Operand::VariableReference(name, span),
            ),
            Some(Token { kind: TokenKind::StringLiteral(content), span }) => Ok(
                Operand::StringLiteral(content, span),
            ),
            Some(Token { kind: TokenKind::NumberLiteral(digits), span }) => Ok(
                Operand::NumberLiteral(digits, span),
            ),
            _ => Err(missing(tokens, at, Expected::Expression)),
        }
    }

    /// Consumes the next token if it is an operand; otherwise fails and
    /// consumes nothing.
    pub fn from_reader(reader: &mut TokenReader) -> (result: Result<Operand, ParseError>)
        ensures
            final(reader).tokens() == old(reader).tokens(),
            result == Operand::at(old(reader).tokens(), old(reader).cursor()),
            final(reader).cursor() == if result is Ok {
                old(reader).cursor() + 1
            } else {
                old(reader).cursor()
            },
    {
        let operand = match reader.peek() {
            Some(Token { kind: TokenKind::Identifier(name), span }) => Operand::VariableReference(
                name.clone(),
                *span,
            ),
            Some(Token { kind: TokenKind::StringLiteral(content), span }) => Operand::StringLiteral(
                content.clone(),
                *span,
            ),
            Some(Token { kind: TokenKind::NumberLiteral(digits), span }) => Operand::NumberLiteral(
                digits.clone(),
                *span,
            ),
            _ => {
                return Err(reader.missing(Expected::Expression));
            },
        };
        reader.advance();
        Ok(operand)
    }

    pub fn to_string_from_buffer(&self, buf: &mut String)
        ensures
            final(buf)@ == old(buf)@ + self.text(),
    {
        match self {
            Operand::VariableReference(name, _) => {
                push_str(buf, name.as_str());
            },
            Operand::StringLiteral(content, _) => {
                push_str(buf, "\"");
                push_str(buf, content.as_str());
                push_str(buf, "\"");
                assert(buf@ == old(buf)@ + ("\""@ + content@ + "\""@));
            },
            Operand::NumberLiteral(digits, _) => {
                push_str(buf, digits.as_str());
            },
        }
    }
}

impl BinaryOperator {
    /// The operator that the token at `at` is, if it is one.
    pub open spec fn at(tokens: Seq<Token>, at: int) -> Option<BinaryOperator> {
        match token_at(tokens, at) {
            Some(Token { kind: TokenKind::Add, .. }) => Some(BinaryOperator::Add),
            Some(Token { kind: TokenKind::Subtract, .. }) => Some(BinaryOperator::Subtract),
            _ => None,
        }
    }

    /// The operator that the next token is, if it is one. Consumes nothing.
    pub fn peek(reader: &TokenReader) -> (operator: Option<BinaryOperator>)
        ensures
            operator == BinaryOperator::at(reader.tokens(), reader.cursor()),
    {
        match reader.peek() {
            Some(Token { kind: TokenKind::Add, .. }) => Some(BinaryOperator::Add),
            Some(Token { kind: TokenKind::Subtract, .. }) => Some(BinaryOperator::Subtract),
            _ => None,
        }
    }

    /// The operator with the usual blanks around it, or alone.
    pub open spec fn text(self, settings: ToStringSettings) -> Seq<char> {
        match self {
            BinaryOperator::Add => if settings.pretty {
                " + "@
            } else {
                "+"@
            },
            BinaryOperator::Subtract => if settings.pretty {
                " - "@
            } else {
                "-"@
            },
        }
    }

    pub fn to_string_from_buffer(self, buf: &mut String, settings: &ToStringSettings)
        ensures
            final(buf)@ == old(buf)@ + self.text(*settings),
    {
        match self {
            BinaryOperator::Add => push_str(
                buf,
                if settings.pretty {
                    " + "
                } else {
                    "+"
                },
            ),
            BinaryOperator::Subtract => push_str(
                buf,
                if settings.pretty {
                    " - "
                } else {
                    "-"
                },
            ),
        }
    }
}

impl View for Expression {
    type V = Expression;

    open spec fn view(&self) -> Expression {
        *self
    }
}

impl Expression {
    /// What the operations that follow `lhs` at `at` make of it: each
    /// operator with its operand takes all that stands to its left as its
    /// left side.
    pub open spec fn parse_operations(
        tokens: Seq<Token>,
        at: int,
        lhs: Expression,
        ids: IdCounters,
    ) -> Parsed<Expression>
        decreases tokens.len() - at,
    {
        match BinaryOperator::at(tokens, at) {
            Some(operator) => match Operand::at(tokens, at + 1) {
                Ok(rhs) => Expression::parse_operations(
                    tokens,
                    at + 2,
                    Expression::BinaryOperation { lhs: Box::new(lhs), operator, rhs },
                    ids,
                ),
                Err(error) => Parsed::Rejected { error, place: at + 1, counters: ids },
            },
            None => Parsed::Accepted { value: lhs, next: at, ids },
        }
    }

    proof fn lemma_operations_advance(tokens: Seq<Token>, at: int, lhs: Expression, ids: IdCounters)
        requires
            0 <= at <= tokens.len(),
        ensures
            Expression::parse_operations(tokens, at, lhs, ids).advances(tokens, at, ids),
            Expression::parse_operations(tokens, at, lhs, ids) matches Parsed::Accepted {
                ids: after,
                ..
            } ==> after == ids,
        decreases tokens.len() - at,
    {
        match BinaryOperator::at(tokens, at) {
            Some(operator) => match Operand::at(tokens, at + 1) {
                Ok(rhs) => {
                    Expression::lemma_operations_advance(
                        tokens,
                        at + 2,
                        Expression::BinaryOperation { lhs: Box::new(lhs), operator, rhs },
                        ids,
                    );
                },
                Err(error) => {},
            },
            None => {},
        }
    }

    /// An expression consumes at least one token and hands out no
    /// identifier.
    pub proof fn lemma_parse_consumes(tokens: Seq<Token>, at: int, ids: IdCounters)
        ensures
            Expression::parse(tokens, at, ids) matches Parsed::Accepted { next, ids: after, .. }
                ==> 0 <= at < next <= tokens.len() && after == ids,
    {
        match Operand::at(tokens, at) {
            Ok(first) => {
                Expression::lemma_operations_advance(
                    tokens,
                    at + 1,
                    Expression::Operand(first),
                    ids,
                );
            },
            Err(error) => {},
        }
    }

    fn print(&self, buf: &mut String, settings: &ToStringSettings, depth: u8)
        ensures
            final(buf)@ == old(buf)@ + Expression::text_of(*self, *settings, depth),
        decreases self,
    {
        match self {
            Expression::Operand(operand) => operand.to_string_from_buffer(buf),
            Expression::BinaryOperation { lhs, operator, rhs } => {
                lhs.print(buf, settings, depth);
                operator.to_string_from_buffer(buf, settings);
                rhs.to_string_from_buffer(buf);
                assert(buf@ == old(buf)@ + (Expression::text_of(**lhs, *settings, depth)
                    + operator.text(*settings) + rhs.text()));
            },
        }
    }

    fn position(&self) -> (position: Span)
        ensures
            position == Expression::position_of(*self),
        decreases self,
    {
        match self {
            Expression::Operand(operand) => operand.position(),
            Expression::BinaryOperation { lhs, rhs, .. } => lhs.position().merge(rhs.position()),
        }
    }
}

impl ASTNode for Expression {
    open spec fn parse(tokens: Seq<Token>, at: int, ids: IdCounters) -> Parsed<Expression> {
        match Operand::at(tokens, at) {
            Ok(first) => Expression::parse_operations(
                tokens,
                at + 1,
                Expression::Operand(first),
                ids,
            ),
            Err(error) => Parsed::Rejected { error, place: at, counters: ids },
        }
    }

    /// From the start of the first operand to the end of the last.
    open spec fn position_of(node: Expression) -> Span
        decreases node,
    {
        match node {
            Expression::Operand(operand) => operand.spec_position(),
            Expression::BinaryOperation { lhs, rhs, .. } => Expression::position_of(*lhs).spec_merge(
                rhs.spec_position(),
            ),
        }
    }

    open spec fn text_of(node: Expression, settings: ToStringSettings, depth: u8) -> Seq<char>
        decreases node,
    {
        match node {
            Expression::Operand(operand) => operand.text(),
            Expression::BinaryOperation { lhs, operator, rhs } => Expression::text_of(
                *lhs,
                settings,
                depth,
            ) + operator.text(settings) + rhs.text(),
        }
    }

    proof fn lemma_parse_advances(tokens: Seq<Token>, at: int, ids: IdCounters) {
        match Operand::at(tokens, at) {
            Ok(first) => {
                Expression::lemma_operations_advance(
                    tokens,
                    at + 1,
                    Expression::Operand(first),
                    ids,
                );
            },
            Err(error) => {},
        }
    }

    fn get_position(&self) -> (position: Span) {
        self.position()
    }

    fn from_reader(
        reader: &mut TokenReader,
        state: &mut ParsingState,
        settings: &ParseSettings,
    ) -> (result: Result<Self, ParseError>)
        ensures
            final(state)@ == old(state)@,
    {
        let ghost tokens = reader.tokens();
        let ghost start = reader.cursor();
        let ghost ids = state@;
        let first = match Operand::from_reader(reader) {
            Ok(first) => first,
            Err(error) => {
                return Err(error);
            },
        };
        let mut expression = Expression::Operand(first);
        loop
            invariant
                tokens == old(reader).tokens(),
                start == old(reader).cursor(),
                ids == old(state)@,
                reader.tokens() == tokens,
                start < reader.cursor() <= tokens.len(),
                state@ == ids,
                Expression::parse(tokens, start, ids) == Expression::parse_operations(
                    tokens,
                    reader.cursor(),
                    expression,
                    ids,
                ),
            decreases tokens.len() - reader.cursor(),
        {
            let operator = match BinaryOperator::peek(reader) {
                Some(operator) => operator,
                None => {
                    return Ok(expression);
                },
            };
            reader.advance();
            let rhs = match Operand::from_reader(reader) {
                Ok(rhs) => rhs,
                Err(error) => {
                    return Err(error);
                },
            };
            expression = Expression::BinaryOperation { lhs: Box::new(expression), operator, rhs };
        }
    }

    fn to_string_from_buffer(&self, buf: &mut String, settings: &ToStringSettings, depth: u8) {
        self.print(buf, settings, depth);
    }
}

} // verus!
