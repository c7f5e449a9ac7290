//! A parse that fails stops at the token it could not accept, and its
//! error names that token.

use crate::arrow::ExpressionOrBlock;
use crate::block::{Block, Statement};
use crate::errors::ParseError;
use crate::expression::{BinaryOperator, Expression, Operand};
use crate::node::{ASTNode, Parsed};
use crate::parameters::{FunctionParameters, Parameter, VariableIdentifier};
use crate::span::Span;
use crate::state::IdCounters;
use crate::tokens::{end_position, kind_is, token_at, Token, TokenKind};
use crate::types::TypeReference;
use vstd::prelude::*;

verus! {

/// Whether `error` is the failure of a parse that stopped at `place`: an
/// unexpected token is the token that stands there; an unexpected end is
/// that of a stream that is exhausted there, or closed there by the token
/// that ends the source.
pub open spec fn stopped_at(tokens: Seq<Token>, error: ParseError, place: int) -> bool {
    match error {
        ParseError::UnexpectedToken { found, .. } => token_at(tokens, place) == Some(found),
        ParseError::UnexpectedEndOfInput { position } => match token_at(tokens, place) {
            Some(token) => token.kind == TokenKind::EndOfSource && position == token.span,
            None => position == end_position(tokens),
        },
    }
}

/// Whether a parse that started at `at` and was rejected stopped inside
/// the tokens, not before `at`, with an error that names its place.
pub open spec fn fails_in_place<V>(outcome: Parsed<V>, tokens: Seq<Token>, at: int) -> bool {
    outcome matches Parsed::Rejected { error, place, .. } ==> at <= place <= tokens.len()
        && stopped_at(tokens, error, place)
}

impl Expression {
    /// Operations that are rejected fail in place.
    pub proof fn lemma_operations_fail_in_place(
        tokens: Seq<Token>,
        at: int,
        lhs: Expression,
        ids: IdCounters,
    )
        requires
            0 <= at <= tokens.len(),
        ensures
            fails_in_place(Expression::parse_operations(tokens, at, lhs, ids), tokens, at),
        decreases tokens.len() - at,
    {
        match BinaryOperator::at(tokens, at) {
            Some(operator) => match Operand::at(tokens, at + 1) {
                Ok(rhs) => {
                    Expression::lemma_operations_fail_in_place(
                        tokens,
                        at + 2,
                        Expression::BinaryOperation { lhs: Box::new(lhs), operator, rhs },
                        ids,
                    );
                },
                Err(error) => {},
            },
            None => {},
        }
    }

    /// An expression that is rejected fails in place.
    pub proof fn lemma_fails_in_place(tokens: Seq<Token>, at: int, ids: IdCounters)
        requires
            0 <= at <= tokens.len(),
        ensures
            fails_in_place(Expression::parse(tokens, at, ids), tokens, at),
    {
        match Operand::at(tokens, at) {
            Ok(first) => {
                Expression::lemma_operations_fail_in_place(
                    tokens,
                    at + 1,
                    Expression::Operand(first),
                    ids,
                );
            },
            Err(error) => {},
        }
    }
}

impl Statement {
    /// A statement that is rejected fails in place.
    pub proof fn lemma_fails_in_place(tokens: Seq<Token>, at: int, ids: IdCounters)
        requires
            0 <= at <= tokens.len(),
        ensures
            fails_in_place(Statement::parse(tokens, at, ids), tokens, at),
    {
        Expression::lemma_parse_consumes(tokens, at, ids);
        Expression::lemma_parse_consumes(tokens, at + 1, ids);
        Expression::lemma_fails_in_place(tokens, at, ids);
        if at + 1 <= tokens.len() {
            Expression::lemma_fails_in_place(tokens, at + 1, ids);
        }
    }
}

impl Block {
    /// Statements that are rejected fail in place.
    pub proof fn lemma_statements_fail_in_place(
        tokens: Seq<Token>,
        at: int,
        before: Seq<Statement>,
        ids: IdCounters,
    )
        requires
            0 <= at <= tokens.len(),
        ensures
            fails_in_place(Block::parse_statements(tokens, at, before, ids), tokens, at),
        decreases tokens.len() - at,
    {
        if kind_is(tokens, at, TokenKind::CloseBrace) {
        } else {
            Statement::lemma_parse_consumes(tokens, at, ids);
            Statement::lemma_fails_in_place(tokens, at, ids);
            match Statement::parse(tokens, at, ids) {
                Parsed::Accepted { value, next, ids: after } => {
                    Block::lemma_statements_fail_in_place(tokens, next, before.push(value), after);
                },
                Parsed::Rejected { .. } => {},
            }
        }
    }

    /// A block that is rejected fails in place.
    pub proof fn lemma_fails_in_place(tokens: Seq<Token>, at: int, ids: IdCounters)
        requires
            0 <= at <= tokens.len(),
        ensures
            fails_in_place(Block::parse(tokens, at, ids), tokens, at),
    {
        if at + 1 <= tokens.len() {
            Block::lemma_statements_fail_in_place(tokens, at + 1, Seq::empty(), ids);
        }
    }
}

impl TypeReference {
    /// A list of types that is rejected fails in place.
    pub proof fn lemma_list_fails_in_place(
        tokens: Seq<Token>,
        at: int,
        before: Seq<TypeReference>,
        ids: IdCounters,
    )
        requires
            0 <= at <= tokens.len(),
        ensures
            fails_in_place(TypeReference::parse_list(tokens, at, before, ids), tokens, at),
        decreases tokens.len() - at,
    {
        match crate::tokens::identifier_at(tokens, at) {
            Ok((name, position)) => {
                if kind_is(tokens, at + 1, TokenKind::Comma) {
                    TypeReference::lemma_list_fails_in_place(
                        tokens,
                        at + 2,
                        before.push(TypeReference { name, position }),
                        ids,
                    );
                }
            },
            Err(error) => {},
        }
    }

    /// A declared type or a list of type parameters that is rejected
    /// fails in place.
    pub proof fn lemma_fails_in_place(tokens: Seq<Token>, at: int, ids: IdCounters)
        requires
            0 <= at <= tokens.len(),
        ensures
            fails_in_place(TypeReference::parse(tokens, at, ids), tokens, at),
            fails_in_place(TypeReference::parse_annotation(tokens, at, ids), tokens, at),
            fails_in_place(TypeReference::parse_type_parameters(tokens, at, ids), tokens, at),
    {
        if at + 1 <= tokens.len() {
            TypeReference::lemma_list_fails_in_place(tokens, at + 1, Seq::empty(), ids);
        }
    }
}

impl Parameter {
    /// An entry or a rest parameter that is rejected fails in place.
    pub proof fn lemma_fails_in_place(tokens: Seq<Token>, at: int, ids: IdCounters)
        requires
            0 <= at <= tokens.len(),
        ensures
            fails_in_place(Parameter::parse_entry(tokens, at, ids), tokens, at),
            fails_in_place(Parameter::parse_rest(tokens, at, ids), tokens, at),
    {
        match VariableIdentifier::parse(tokens, at, ids) {
            Parsed::Accepted { value: name, next, ids: named } => {
                TypeReference::lemma_fails_in_place(tokens, next, named);
                let marked = kind_is(tokens, next, TokenKind::QuestionMark);
                let behind_mark = if marked {
                    next + 1
                } else {
                    next
                };
                TypeReference::lemma_fails_in_place(tokens, behind_mark, named);
                match TypeReference::parse_annotation(tokens, behind_mark, named) {
                    Parsed::Accepted { value: type_reference, next, ids: typed } => {
                        if next + 1 <= tokens.len() {
                            Expression::lemma_fails_in_place(tokens, next + 1, typed);
                        }
                    },
                    Parsed::Rejected { .. } => {},
                }
            },
            Parsed::Rejected { .. } => {},
        }
    }
}

impl FunctionParameters {
    /// A list that is rejected fails in place.
    pub proof fn lemma_entries_fail_in_place(
        tokens: Seq<Token>,
        at: int,
        start: Span,
        before: (Seq<Parameter>, Seq<Parameter>),
        ids: IdCounters,
    )
        requires
            0 <= at <= tokens.len(),
        ensures
            fails_in_place(
                FunctionParameters::parse_entries(tokens, at, start, before.0, before.1, ids),
                tokens,
                at,
            ),
        decreases tokens.len() - at,
    {
        if kind_is(tokens, at, TokenKind::CloseParentheses) {
        } else if kind_is(tokens, at, TokenKind::Spread) {
            Parameter::lemma_entry_consumes(tokens, at + 1, ids);
            Parameter::lemma_fails_in_place(tokens, at + 1, ids);
        } else {
            Parameter::lemma_entry_consumes(tokens, at, ids);
            Parameter::lemma_fails_in_place(tokens, at, ids);
            match Parameter::parse_entry(tokens, at, ids) {
                Parsed::Accepted { value: (parameter, optional), next, ids: after } => {
                    if !optional && before.1.len() > 0 {
                    } else if kind_is(tokens, next, TokenKind::Comma) {
                        FunctionParameters::lemma_entries_fail_in_place(
                            tokens,
                            next + 1,
                            start,
                            (
                                if optional {
                                    before.0
                                } else {
                                    before.0.push(parameter)
                                },
                                if optional {
                                    before.1.push(parameter)
                                } else {
                                    before.1
                                },
                            ),
                            after,
                        );
                    }
                },
                Parsed::Rejected { .. } => {},
            }
        }
    }
}

impl ExpressionOrBlock {
    /// A body that is rejected fails in place.
    pub proof fn lemma_fails_in_place(tokens: Seq<Token>, at: int, ids: IdCounters)
        requires
            0 <= at <= tokens.len(),
        ensures
            fails_in_place(ExpressionOrBlock::parse(tokens, at, ids), tokens, at),
    {
        Block::lemma_fails_in_place(tokens, at, ids);
        Expression::lemma_fails_in_place(tokens, at, ids);
    }
}

} // verus!
