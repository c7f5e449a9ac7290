//! Statements and the blocks that hold them. This is the part of the
//! statement grammar that the bodies of this crate need.

use crate::buffer::{indentation, new_line, push_indentation, push_new_line, push_str};
use crate::errors::ParseError;
use crate::expression::Expression;
use crate::node::{ASTNode, Parsed};
use crate::span::Span;
use crate::state::{IdCounters, ParseSettings, ParsingState, ToStringSettings};
use crate::tokens::{expected_at, kind_is, Token, TokenKind, TokenReader};
use vstd::prelude::*;

verus! {

/// A statement, with the range from its first token to its semicolon.
#[derive(Debug, Clone, PartialEq, Eq)]
pub enum Statement {
    Return { value: Option<Expression>, position: Span },
    Expression { expression: Expression, position: Span },
}

impl View for Statement {
    type V = Statement;

    open spec fn view(&self) -> Statement {
        *self
    }
}

impl Statement {
    /// What the semicolon that must stand at `at` makes of a statement that
    /// `build` finishes from the span of that semicolon.
    pub open spec fn closed_at(
        tokens: Seq<Token>,
        at: int,
        ids: IdCounters,
        build: spec_fn(Span) -> Statement,
    ) -> Parsed<Statement> {
        match expected_at(tokens, at, TokenKind::Semicolon) {
            Ok(end) => Parsed::Accepted { value: build(end), next: at + 1, ids },
            Err(error) => Parsed::Rejected { error, place: at, counters: ids },
        }
    }

    /// A statement consumes at least one token.
    pub proof fn lemma_parse_consumes(tokens: Seq<Token>, at: int, ids: IdCounters)
        ensures
            Statement::parse(tokens, at, ids) matches Parsed::Accepted { next, ids: after, .. }
                ==> 0 <= at < next <= tokens.len() && after == ids,
    {
        Expression::lemma_parse_consumes(tokens, at, ids);
        Expression::lemma_parse_consumes(tokens, at + 1, ids);
    }
}

impl ASTNode for Statement {
    open spec fn parse(tokens: Seq<Token>, at: int, ids: IdCounters) -> Parsed<Statement> {
        if kind_is(tokens, at, TokenKind::Return) {
            let keyword = tokens[at].span;
            if kind_is(tokens, at + 1, TokenKind::Semicolon) {
                Parsed::Accepted {
                    value: Statement::Return {
                        value: None,
                        position: keyword.spec_merge(tokens[at + 1].span),
                    },
                    next: at + 2,
                    ids,
                }
            } else {
                match Expression::parse(tokens, at + 1, ids) {
                    Parsed::Accepted { value, next, ids } => Statement::closed_at(
                        tokens,
                        next,
                        ids,
                        |end: Span|
                            Statement::Return {
                                value: Some(value),
                                position: keyword.spec_merge(end),
                            },
                    ),
                    Parsed::Rejected { error, place, counters } => Parsed::Rejected { error, place, counters },
                }
            }
        } else {
            match Expression::parse(tokens, at, ids) {
                Parsed::Accepted { value, next, ids } => Statement::closed_at(
                    tokens,
                    next,
                    ids,
                    |end: Span|
                        Statement::Expression {
                            expression: value,
                            position: Expression::position_of(value).spec_merge(end),
                        },
                ),
                Parsed::Rejected { error, place, counters } => Parsed::Rejected { error, place, counters },
            }
        }
    }

    open spec fn position_of(node: Statement) -> Span {
        match node {
            Statement::Return { position, .. } => position,
            Statement::Expression { position, .. } => position,
        }
    }

    /// `return`, with its value behind one blank if it has one, or the
    /// expression; and the semicolon.
    open spec fn text_of(node: Statement, settings: ToStringSettings, depth: u8) -> Seq<char> {
        match node {
            Statement::Return { value: None, .. } => "return;"@,
            Statement::Return { value: Some(value), .. } => "return "@ + Expression::text_of(
                value,
                settings,
                depth,
            ) + ";"@,
            Statement::Expression { expression, .. } => Expression::text_of(
                expression,
                settings,
                depth,
            ) + ";"@,
        }
    }

    proof fn lemma_parse_advances(tokens: Seq<Token>, at: int, ids: IdCounters) {
        Statement::lemma_parse_consumes(tokens, at, ids);
    }

    fn get_position(&self) -> (position: Span) {
        match self {
            Statement::Return { position, .. } => *position,
            Statement::Expression { position, .. } => *position,
        }
    }

    fn from_reader(
        reader: &mut TokenReader,
        state: &mut ParsingState,
        settings: &ParseSettings,
    ) -> (result: Result<Self, ParseError>)
        ensures
            final(state)@ == old(state)@,
    {
        proof {
            use_type_invariant(&*reader);
        }
        match reader.next_if(&TokenKind::Return) {
            Some(keyword) => {
                match reader.next_if(&TokenKind::Semicolon) {
                    Some(end) => {
                        return Ok(Statement::Return { value: None, position: keyword.merge(end) });
                    },
                    None => {},
                }
                proof {
                    Expression::lemma_parse_consumes(reader.tokens(), reader.cursor(), state@);
                }
                let value = match Expression::from_reader(reader, state, settings) {
                    Ok(value) => value,
                    Err(error) => {
                        return Err(error);
                    },
                };
                match reader.expect_next(TokenKind::Semicolon) {
                    Ok(end) => Ok(
                        Statement::Return { value: Some(value), position: keyword.merge(end) },
                    ),
                    Err(error) => Err(error),
                }
            },
            None => {
                proof {
                    Expression::lemma_parse_consumes(reader.tokens(), reader.cursor(), state@);
                }
                let expression = match Expression::from_reader(reader, state, settings) {
                    Ok(expression) => expression,
                    Err(error) => {
                        return Err(error);
                    },
                };
                match reader.expect_next(TokenKind::Semicolon) {
                    Ok(end) => {
                        let position = expression.get_position().merge(end);
                        Ok(Statement::Expression { expression, position })
                    },
                    Err(error) => Err(error),
                }
            },
        }
    }

    fn to_string_from_buffer(&self, buf: &mut String, settings: &ToStringSettings, depth: u8) {
        match self {
            Statement::Return { value: None, .. } => {
                push_str(buf, "return;");
            },
            Statement::Return { value: Some(value), .. } => {
                push_str(buf, "return ");
                value.to_string_from_buffer(buf, settings, depth);
                push_str(buf, ";");
                assert(buf@ == old(buf)@ + ("return "@ + Expression::text_of(
                    *value,
                    *settings,
                    depth,
                ) + ";"@));
            },
            Statement::Expression { expression, .. } => {
                expression.to_string_from_buffer(buf, settings, depth);
                push_str(buf, ";");
                assert(buf@ == old(buf)@ + (Expression::text_of(*expression, *settings, depth)
                    + ";"@));
            },
        }
    }
}

/// Statements between braces, with the range from the one brace to the
/// other.
#[derive(Debug, Clone, PartialEq, Eq)]
pub struct Block {
    pub statements: Vec<Statement>,
    pub position: Span,
}

/// A block as a mathematical value.
pub struct BlockView {
    pub statements: Seq<Statement>,
    pub position: Span,
}

impl View for Block {
    type V = BlockView;

    open spec fn view(&self) -> BlockView {
        BlockView { statements: self.statements@, position: self.position }
    }
}

/// The depth of what stands inside a construct at depth `depth`.
pub open spec fn spec_deeper(depth: u8) -> u8 {
    if depth < u8::MAX {
        (depth + 1) as u8
    } else {
        depth
    }
}

#[verifier::when_used_as_spec(spec_deeper)]
pub fn deeper(depth: u8) -> (inner: u8)
    ensures
        inner == spec_deeper(depth),
{
    if depth < u8::MAX {
        depth + 1
    } else {
        depth
    }
}

impl Block {
    /// The statements from `at` up to the closing brace, behind those of
    /// `before`. An accepted parse ends at that brace.
    pub open spec fn parse_statements(
        tokens: Seq<Token>,
        at: int,
        before: Seq<Statement>,
        ids: IdCounters,
    ) -> Parsed<Seq<Statement>>
        decreases tokens.len() - at,
    {
        if kind_is(tokens, at, TokenKind::CloseBrace) {
            Parsed::Accepted { value: before, next: at, ids }
        } else {
            proof {
                Statement::lemma_parse_consumes(tokens, at, ids);
            }
            match Statement::parse(tokens, at, ids) {
                Parsed::Accepted { value, next, ids: after } => Block::parse_statements(
                    tokens,
                    next,
                    before.push(value),
                    after,
                ),
                Parsed::Rejected { error, place, counters } => Parsed::Rejected { error, place, counters },
            }
        }
    }

    /// An accepted run of statements ends at a closing brace inside the
    /// tokens and hands out no identifier.
    pub proof fn lemma_statements_end(
        tokens: Seq<Token>,
        at: int,
        before: Seq<Statement>,
        ids: IdCounters,
    )
        requires
            0 <= at <= tokens.len(),
        ensures
            Block::parse_statements(tokens, at, before, ids) matches Parsed::Accepted {
                next,
                ids: after,
                ..
            } ==> at <= next < tokens.len() && kind_is(tokens, next, TokenKind::CloseBrace)
                && after == ids,
        decreases tokens.len() - at,
    {
        if kind_is(tokens, at, TokenKind::CloseBrace) {
        } else {
            Statement::lemma_parse_consumes(tokens, at, ids);
            match Statement::parse(tokens, at, ids) {
                Parsed::Accepted { value, next, ids } => {
                    Block::lemma_statements_end(tokens, next, before.push(value), ids);
                },
                Parsed::Rejected { .. } => {},
            }
        }
    }

    /// A block consumes its two braces at least and hands out no
    /// identifier.
    pub proof fn lemma_parse_consumes(tokens: Seq<Token>, at: int, ids: IdCounters)
        ensures
            Block::parse(tokens, at, ids) matches Parsed::Accepted { next, ids: after, .. } ==> 0
                <= at && at + 2 <= next <= tokens.len() && after == ids,
    {
        if 0 <= at < tokens.len() {
            Block::lemma_statements_end(tokens, at + 1, Seq::empty(), ids);
        }
    }

    /// The text of one statement inside a block at depth `depth`: on a line
    /// of its own, one level deeper, or as it is.
    pub open spec fn line_of(statement: Statement, settings: ToStringSettings, depth: u8) -> Seq<
        char,
    > {
        if settings.pretty {
            indentation(spec_deeper(depth) as nat) + Statement::text_of(
                statement,
                settings,
                spec_deeper(depth),
            ) + new_line()
        } else {
            Statement::text_of(statement, settings, spec_deeper(depth))
        }
    }

    /// The lines of the statements, one behind the other.
    pub open spec fn lines_of(statements: Seq<Statement>, settings: ToStringSettings, depth: u8)
        -> Seq<char>
        decreases statements.len(),
    {
        if statements.len() == 0 {
            Seq::empty()
        } else {
            Block::lines_of(statements.drop_last(), settings, depth) + Block::line_of(
                statements.last(),
                settings,
                depth,
            )
        }
    }

    /// What stands before the first statement of a block that has one.
    pub open spec fn opening(settings: ToStringSettings) -> Seq<char> {
        if settings.pretty {
            "{"@ + new_line()
        } else {
            "{"@
        }
    }

    /// What stands behind the last statement of a block that has one.
    pub open spec fn closing(settings: ToStringSettings, depth: u8) -> Seq<char> {
        if settings.pretty {
            indentation(depth as nat) + "}"@
        } else {
            "}"@
        }
    }
}

impl ASTNode for Block {
    /// An opening brace, the statements, and the closing brace.
    open spec fn parse(tokens: Seq<Token>, at: int, ids: IdCounters) -> Parsed<BlockView> {
        match expected_at(tokens, at, TokenKind::OpenBrace) {
            Ok(open) => match Block::parse_statements(tokens, at + 1, Seq::empty(), ids) {
                Parsed::Accepted { value, next, ids } => Parsed::Accepted {
                    value: BlockView {
                        statements: value,
                        position: open.spec_merge(tokens[next].span),
                    },
                    next: next + 1,
                    ids,
                },
                Parsed::Rejected { error, place, counters } => Parsed::Rejected { error, place, counters },
            },
            Err(error) => Parsed::Rejected { error, place: at, counters: ids },
        }
    }

    open spec fn position_of(node: BlockView) -> Span {
        node.position
    }

    /// `{}` for a block without statements. Otherwise the statements
    /// between the braces: each on its own line and one level deeper, or
    /// one behind the other.
    open spec fn text_of(node: BlockView, settings: ToStringSettings, depth: u8) -> Seq<char> {
        if node.statements.len() == 0 {
            "{}"@
        } else {
            Block::opening(settings) + Block::lines_of(node.statements, settings, depth)
                + Block::closing(settings, depth)
        }
    }

    proof fn lemma_parse_advances(tokens: Seq<Token>, at: int, ids: IdCounters) {
        if at + 1 <= tokens.len() {
            Block::lemma_statements_end(tokens, at + 1, Seq::empty(), ids);
        }
    }

    fn get_position(&self) -> (position: Span) {
        self.position
    }

    fn from_reader(
        reader: &mut TokenReader,
        state: &mut ParsingState,
        settings: &ParseSettings,
    ) -> (result: Result<Self, ParseError>)
        ensures
            final(state)@ == old(state)@,
    {
        let ghost tokens = reader.tokens();
        let ghost start = reader.cursor();
        let ghost ids = state@;
        proof {
            use_type_invariant(&*reader);
        }
        let open = match reader.expect_next(TokenKind::OpenBrace) {
            Ok(open) => open,
            Err(error) => {
                return Err(error);
            },
        };
        let mut statements: Vec<Statement> = Vec::new();
        loop
            invariant
                tokens == old(reader).tokens(),
                start == old(reader).cursor(),
                ids == old(state)@,
                reader.tokens() == tokens,
                start < reader.cursor() <= tokens.len(),
                state@ == ids,
                ids.room_for(old(reader).remaining()),
                expected_at(tokens, start, TokenKind::OpenBrace) == Ok::<Span, ParseError>(open),
                Block::parse_statements(tokens, start + 1, Seq::empty(), ids)
                    == Block::parse_statements(tokens, reader.cursor(), statements@, ids),
            decreases tokens.len() - reader.cursor(),
        {
            match reader.next_if(&TokenKind::CloseBrace) {
                Some(close) => {
                    return Ok(Block { statements, position: open.merge(close) });
                },
                None => {},
            }
            proof {
                Statement::lemma_parse_consumes(tokens, reader.cursor(), ids);
            }
            match Statement::from_reader(reader, state, settings) {
                Ok(statement) => {
                    statements.push(statement);
                },
                Err(error) => {
                    return Err(error);
                },
            }
        }
    }

    fn to_string_from_buffer(&self, buf: &mut String, settings: &ToStringSettings, depth: u8) {
        let count: usize = self.statements.len();
        if count == 0 {
            push_str(buf, "{}");
            return ;
        }
        push_str(buf, "{");
        if settings.pretty {
            push_new_line(buf);
        }
        let inner: u8 = deeper(depth);
        let mut index: usize = 0;
        while index < count
            invariant
                count == self.statements.len(),
                inner == spec_deeper(depth),
                index <= count,
                buf@ == old(buf)@ + Block::opening(*settings) + Block::lines_of(
                    self.statements@.take(index as int),
                    *settings,
                    depth,
                ),
            decreases count - index,
        {
            let ghost before = buf@;
            if settings.pretty {
                push_indentation(buf, inner as usize);
            }
            self.statements[index].to_string_from_buffer(buf, settings, inner);
            if settings.pretty {
                push_new_line(buf);
            }
            proof {
                let done = self.statements@.take(index as int);
                let more = self.statements@.take(index + 1);
                assert(more.drop_last() == done);
                assert(more.last() == self.statements@[index as int]);
                assert(buf@ == before + Block::line_of(
                    self.statements@[index as int],
                    *settings,
                    depth,
                ));
            }
            index = index + 1;
        }
        assert(self.statements@.take(count as int) == self.statements@);
        if settings.pretty {
            push_indentation(buf, depth as usize);
        }
        push_str(buf, "}");
        assert(buf@ == old(buf)@ + (Block::opening(*settings) + Block::lines_of(
            self.statements@,
            *settings,
            depth,
        ) + Block::closing(*settings, depth)));
    }
}

} // verus!
