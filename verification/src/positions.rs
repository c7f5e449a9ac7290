//! The position of a node is the range of the tokens it was built from.

use crate::arrow::{ArrowFunctionBase, ExpressionOrBlock};
use crate::block::{Block, Statement};
use crate::expression::{BinaryOperator, Expression, Operand};
use crate::functions::{FunctionBase, FunctionBased};
use crate::node::{ASTNode, Parsed};
use crate::parameters::{FunctionParameters, Parameter};
use crate::span::Span;
use crate::state::IdCounters;
use crate::tokens::{kind_is, Token, TokenKind};
use crate::types::TypeReference;
use vstd::prelude::*;

verus! {

/// Whether the tokens stand in a stream as a lexer leaves them: all in
/// one source, each with an ordered span, and none starting or ending
/// before one that stands before it.
pub open spec fn in_order(tokens: Seq<Token>) -> bool {
    &&& forall|i: int| 0 <= i < tokens.len() ==> (#[trigger] tokens[i]).span.ordered()
    &&& forall|i: int, j: int|
        0 <= i <= j < tokens.len() ==> {
            &&& (#[trigger] tokens[i]).span.spec_source() == (#[trigger] tokens[j]).span.spec_source()
            &&& tokens[i].span.spec_start() <= tokens[j].span.spec_start()
            &&& tokens[i].span.spec_end() <= tokens[j].span.spec_end()
        }
}

/// The range of the tokens from `from` up to, and without, `to`: from the
/// start of the first to the end of the last.
pub open spec fn range(tokens: Seq<Token>, from: int, to: int) -> Span {
    Span::spec_of(
        tokens[from].span.spec_source(),
        tokens[from].span.spec_start(),
        tokens[to - 1].span.spec_end(),
    )
}

/// The range of one token is its span.
pub proof fn lemma_range_of_one(tokens: Seq<Token>, at: int)
    requires
        0 <= at < tokens.len(),
    ensures
        range(tokens, at, at + 1) == tokens[at].span,
{
}

/// Two ranges of tokens in order, the second not starting before the
/// first and not ending before it, merge to the range from the start of
/// the first to the end of the second.
pub proof fn lemma_ranges_merge(tokens: Seq<Token>, first: (int, int), second: (int, int))
    requires
        in_order(tokens),
        0 <= first.0 < first.1 <= tokens.len(),
        0 <= second.0 < second.1 <= tokens.len(),
        first.0 <= second.0,
        first.1 <= second.1,
    ensures
        range(tokens, first.0, first.1).spec_merge(range(tokens, second.0, second.1)) == range(
            tokens,
            first.0,
            second.1,
        ),
{
    let a = tokens[first.0];
    let b = tokens[first.1 - 1];
    let c = tokens[second.0];
    let d = tokens[second.1 - 1];
    assert(a.span.spec_start() <= c.span.spec_start());
    assert(b.span.spec_end() <= d.span.spec_end());
}

impl Expression {
    /// The operations behind an expression that covers the tokens before
    /// them make an expression that covers all that they read.
    pub proof fn lemma_operations_position(
        tokens: Seq<Token>,
        from: int,
        at: int,
        lhs: Expression,
        ids: IdCounters,
    )
        requires
            in_order(tokens),
            0 <= from < at <= tokens.len(),
            Expression::position_of(lhs) == range(tokens, from, at),
        ensures
            Expression::parse_operations(tokens, at, lhs, ids) matches Parsed::Accepted {
                value,
                next,
                ..
            } ==> Expression::position_of(value) == range(tokens, from, next),
        decreases tokens.len() - at,
    {
        match BinaryOperator::at(tokens, at) {
            Some(operator) => match Operand::at(tokens, at + 1) {
                Ok(rhs) => {
                    lemma_range_of_one(tokens, at + 1);
                    lemma_ranges_merge(tokens, (from, at), (at + 1, at + 2));
                    Expression::lemma_operations_position(
                        tokens,
                        from,
                        at + 2,
                        Expression::BinaryOperation { lhs: Box::new(lhs), operator, rhs },
                        ids,
                    );
                },
                Err(error) => {},
            },
            None => {},
        }
    }

    /// An expression covers the tokens it was read from.
    pub proof fn lemma_position(tokens: Seq<Token>, at: int, ids: IdCounters)
        requires
            in_order(tokens),
        ensures
            Expression::parse(tokens, at, ids) matches Parsed::Accepted {
                value,
                next,
                ..
            } ==> Expression::position_of(value) == range(tokens, at, next),
    {
        match Operand::at(tokens, at) {
            Ok(first) => {
                lemma_range_of_one(tokens, at);
                assert(Expression::position_of(Expression::Operand(first)) == tokens[at].span);
                Expression::lemma_operations_position(
                    tokens,
                    at,
                    at + 1,
                    Expression::Operand(first),
                    ids,
                );
            },
            Err(error) => {},
        }
    }
}

impl Statement {
    /// A statement covers the tokens it was read from.
    pub proof fn lemma_position(tokens: Seq<Token>, at: int, ids: IdCounters)
        requires
            in_order(tokens),
        ensures
            Statement::parse(tokens, at, ids) matches Parsed::Accepted {
                value,
                next,
                ..
            } ==> Statement::position_of(value) == range(tokens, at, next),
    {
        Statement::lemma_parse_consumes(tokens, at, ids);
        Expression::lemma_parse_consumes(tokens, at, ids);
        Expression::lemma_parse_consumes(tokens, at + 1, ids);
        match Statement::parse(tokens, at, ids) {
            Parsed::Accepted { value, next, .. } => {
                lemma_range_of_one(tokens, at);
                lemma_range_of_one(tokens, next - 1);
                if kind_is(tokens, at, TokenKind::Return) {
                    lemma_ranges_merge(tokens, (at, at + 1), (next - 1, next));
                } else {
                    Expression::lemma_position(tokens, at, ids);
                    lemma_ranges_merge(tokens, (at, next - 1), (next - 1, next));
                }
            },
            Parsed::Rejected { .. } => {},
        }
    }
}

impl Block {
    /// A block covers the tokens it was read from.
    pub proof fn lemma_position(tokens: Seq<Token>, at: int, ids: IdCounters)
        requires
            in_order(tokens),
        ensures
            Block::parse(tokens, at, ids) matches Parsed::Accepted {
                value,
                next,
                ..
            } ==> Block::position_of(value) == range(tokens, at, next),
    {
        Block::lemma_parse_consumes(tokens, at, ids);
        match Block::parse(tokens, at, ids) {
            Parsed::Accepted { value, next, .. } => {
                lemma_range_of_one(tokens, at);
                lemma_range_of_one(tokens, next - 1);
                lemma_ranges_merge(tokens, (at, at + 1), (next - 1, next));
            },
            Parsed::Rejected { .. } => {},
        }
    }
}

impl FunctionParameters {
    /// A list reaches from where it started to its closing parenthesis.
    pub proof fn lemma_entries_position(
        tokens: Seq<Token>,
        at: int,
        start: Span,
        before: (Seq<Parameter>, Seq<Parameter>),
        ids: IdCounters,
    )
        ensures
            FunctionParameters::parse_entries(
                tokens,
                at,
                start,
                before.0,
                before.1,
                ids,
            ) matches Parsed::Accepted { value, next, .. } ==> 0 <= at < next <= tokens.len()
                && value.position == start.spec_merge(tokens[next - 1].span),
        decreases tokens.len() - at,
    {
        if kind_is(tokens, at, TokenKind::CloseParentheses) {
        } else if kind_is(tokens, at, TokenKind::Spread) {
            Parameter::lemma_entry_consumes(tokens, at + 1, ids);
        } else {
            Parameter::lemma_entry_consumes(tokens, at, ids);
            match Parameter::parse_entry(tokens, at, ids) {
                Parsed::Accepted { value: (parameter, optional), next, ids: after } => {
                    if !optional && before.1.len() > 0 {
                    } else if kind_is(tokens, next, TokenKind::Comma) {
                        FunctionParameters::lemma_entries_position(
                            tokens,
                            next + 1,
                            start,
                            (
                                if optional {
                                    before.0
                                } else {
                                    before.0.push(parameter)
                                },
                                if optional {
                                    before.1.push(parameter)
                                } else {
                                    before.1
                                },
                            ),
                            after,
                        );
                    }
                },
                Parsed::Rejected { .. } => {},
            }
        }
    }
}

impl ArrowFunctionBase {
    /// The parameters of an arrow function cover the tokens they were
    /// read from.
    pub proof fn lemma_parameters_position(tokens: Seq<Token>, at: int, ids: IdCounters)
        requires
            in_order(tokens),
        ensures
            ArrowFunctionBase::parse_parameters(tokens, at, ids) matches Parsed::Accepted {
                value,
                next,
                ..
            } ==> 0 <= at < next <= tokens.len() && value.position == range(tokens, at, next),
    {
        if kind_is(tokens, at, TokenKind::OpenParentheses) {
            FunctionParameters::lemma_entries_position(
                tokens,
                at + 1,
                tokens[at].span,
                (Seq::empty(), Seq::empty()),
                ids,
            );
            match ArrowFunctionBase::parse_parameters(tokens, at, ids) {
                Parsed::Accepted { value, next, .. } => {
                    lemma_range_of_one(tokens, at);
                    lemma_range_of_one(tokens, next - 1);
                    lemma_ranges_merge(tokens, (at, at + 1), (next - 1, next));
                },
                Parsed::Rejected { .. } => {},
            }
        } else if 0 <= at < tokens.len() {
            lemma_range_of_one(tokens, at);
        }
    }
}

impl ExpressionOrBlock {
    /// A body covers the tokens it was read from.
    pub proof fn lemma_position(tokens: Seq<Token>, at: int, ids: IdCounters)
        requires
            in_order(tokens),
        ensures
            ExpressionOrBlock::parse(tokens, at, ids) matches Parsed::Accepted {
                value,
                next,
                ..
            } ==> 0 <= at < next <= tokens.len() && ExpressionOrBlock::position_of(value) == range(
                tokens,
                at,
                next,
            ),
    {
        Block::lemma_position(tokens, at, ids);
        Block::lemma_parse_consumes(tokens, at, ids);
        Expression::lemma_position(tokens, at, ids);
        Expression::lemma_parse_consumes(tokens, at, ids);
    }
}

} // verus!
