//! Arrow functions: the capability set that makes the engine parse and
//! print them, the two entry points for a caller that has already consumed
//! the first token, and the body that is an expression or a block.

use crate::block::{Block, BlockView};
use crate::buffer::push_str;
use crate::errors::ParseError;
use crate::expression::Expression;
use crate::functions::{
    ChainVariable,
    FunctionBase,
    FunctionBaseView,
    FunctionBased,
    Keyword,
};
use crate::node::{carried_out, ASTNode, Parsed};
use crate::parameters::{FunctionParameters, FunctionParametersView, Parameter, VariableIdentifier};
use crate::span::Span;
use crate::state::{BlockId, IdCounters, ParseSettings, ParsingState, ToStringSettings};
use crate::tokens::{expected_at, identifier_at, kind_is, Token, TokenKind, TokenReader};
use crate::types::TypeReference;
use vstd::prelude::*;

verus! {

/// The capability set of arrow functions.
#[derive(Debug, Clone, Copy, PartialEq, Eq, Hash)]
pub struct ArrowFunctionBase;

pub type ArrowFunction = FunctionBase<ArrowFunctionBase>;

impl ArrowFunctionBase {
    /// Whether a parameter list is written without parentheses: it has
    /// exactly one required parameter, which has no declared type, no
    /// optional parameter and no rest parameter.
    pub open spec fn spec_uses_shorthand(parameters: FunctionParametersView) -> bool {
        &&& parameters.parameters.len() == 1
        &&& parameters.parameters[0].type_reference is None
        &&& parameters.optional_parameters.len() == 0
        &&& parameters.rest_parameter is None
    }

    pub fn uses_shorthand(parameters: &FunctionParameters) -> (shorthand: bool)
        ensures
            shorthand == ArrowFunctionBase::spec_uses_shorthand(parameters@),
    {
        parameters.parameters.len() == 1 && parameters.parameters[0].type_reference.is_none()
            && parameters.optional_parameters.len() == 0 && parameters.rest_parameter.is_none()
    }

    /// The parameter list that one bare name is.
    pub open spec fn spec_single_parameter(name: String, position: Span) -> FunctionParametersView {
        FunctionParametersView {
            parameters: seq![
                Parameter {
                    name: VariableIdentifier { name, position },
                    type_reference: None,
                    default: None,
                },
            ],
            optional_parameters: Seq::empty(),
            rest_parameter: None,
            position,
        }
    }

    pub fn single_parameter(name: String, position: Span) -> (parameters: FunctionParameters)
        ensures
            parameters@ == ArrowFunctionBase::spec_single_parameter(name, position),
    {
        let mut parameters: Vec<Parameter> = Vec::new();
        parameters.push(
            Parameter {
                name: VariableIdentifier { name, position },
                type_reference: None,
                default: None,
            },
        );
        let list = FunctionParameters {
            parameters,
            optional_parameters: Vec::new(),
            rest_parameter: None,
            position,
        };
        assert(list@.parameters == ArrowFunctionBase::spec_single_parameter(
            name,
            position,
        ).parameters);
        assert(list@.optional_parameters == Seq::<Parameter>::empty());
        list
    }
}

impl FunctionBased for ArrowFunctionBase {
    /// The marker `async`, where it stands.
    type Header = Option<Keyword>;

    /// An arrow function has no name.
    type Name = ();

    type Body = ExpressionOrBlock;

    /// `async` if it stands at `at`; nothing is consumed otherwise.
    open spec fn parse_header_and_name(tokens: Seq<Token>, at: int, ids: IdCounters) -> Parsed<
        (Option<Keyword>, ()),
    > {
        if kind_is(tokens, at, TokenKind::Async) {
            Parsed::Accepted {
                value: (Some(Keyword { position: tokens[at].span }), ()),
                next: at + 1,
                ids,
            }
        } else {
            Parsed::Accepted { value: (None, ()), next: at, ids }
        }
    }

    /// A list between parentheses, or one bare name.
    open spec fn parse_parameters(tokens: Seq<Token>, at: int, ids: IdCounters) -> Parsed<
        FunctionParametersView,
    > {
        if kind_is(tokens, at, TokenKind::OpenParentheses) {
            FunctionParameters::parse_entries(
                tokens,
                at + 1,
                tokens[at].span,
                Seq::empty(),
                Seq::empty(),
                ids,
            )
        } else {
            match identifier_at(tokens, at) {
                Ok((name, position)) => Parsed::Accepted {
                    value: ArrowFunctionBase::spec_single_parameter(name, position),
                    next: at + 1,
                    ids,
                },
                Err(error) => Parsed::Rejected { error, place: at, counters: ids },
            }
        }
    }

    /// The token `=>`.
    open spec fn parse_boundary(tokens: Seq<Token>, at: int, ids: IdCounters) -> Parsed<()> {
        match expected_at(tokens, at, TokenKind::Arrow) {
            Ok(_) => Parsed::Accepted { value: (), next: at + 1, ids },
            Err(error) => Parsed::Rejected { error, place: at, counters: ids },
        }
    }

    /// `async` and one blank where the marker is present.
    open spec fn header_and_name_text(
        header: Option<Keyword>,
        name: (),
        settings: ToStringSettings,
        depth: u8,
    ) -> Seq<char> {
        if header is Some {
            "async "@
        } else {
            Seq::empty()
        }
    }

    /// The bare name where the list is written without parentheses, the
    /// list between its parentheses otherwise.
    open spec fn parameters_text(
        parameters: FunctionParametersView,
        settings: ToStringSettings,
        depth: u8,
    ) -> Seq<char> {
        if ArrowFunctionBase::spec_uses_shorthand(parameters) {
            parameters.parameters[0].name.name@
        } else {
            FunctionParameters::text_of(parameters, settings, depth)
        }
    }

    /// `=>`, between two blanks where the print is pretty.
    open spec fn boundary_text(settings: ToStringSettings) -> Seq<char> {
        if settings.pretty {
            " => "@
        } else {
            "=>"@
        }
    }

    open spec fn header_left_of(header: Option<Keyword>) -> Option<Span> {
        match header {
            Some(keyword) => Some(keyword.position),
            None => None,
        }
    }

    open spec fn chain_variable_of(body: ExpressionOrBlockView) -> ChainVariable {
        ChainVariable::UnderArrowFunction(ExpressionOrBlock::block_id_of(body))
    }

    proof fn lemma_header_and_name_advance(tokens: Seq<Token>, at: int, ids: IdCounters) {
    }

    proof fn lemma_parameters_advance(tokens: Seq<Token>, at: int, ids: IdCounters) {
        if kind_is(tokens, at, TokenKind::OpenParentheses) {
            FunctionParameters::lemma_entries_consume(
                tokens,
                at + 1,
                tokens[at].span,
                Seq::empty(),
                Seq::empty(),
                ids,
            );
        }
    }

    proof fn lemma_boundary_advances(tokens: Seq<Token>, at: int, ids: IdCounters) {
    }

    fn get_chain_variable(this: &FunctionBase<Self>) -> (variable: ChainVariable) {
        ChainVariable::UnderArrowFunction(this.body.get_block_id())
    }

    fn header_and_name_from_reader(
        reader: &mut TokenReader,
        state: &mut ParsingState,
        settings: &ParseSettings,
    ) -> (result: Result<(Self::Header, Self::Name), ParseError>)
        ensures
            result is Ok,
            final(state)@ == old(state)@,
    {
        let is_async = match reader.next_if(&TokenKind::Async) {
            Some(position) => Some(Keyword { position }),
            None => None,
        };
        Ok((is_async, ()))
    }

    fn header_and_name_to_string_from_buffer(
        buf: &mut String,
        is_async: &Self::Header,
        name: &Self::Name,
        settings: &ToStringSettings,
        depth: u8,
    ) {
        if is_async.is_some() {
            push_str(buf, "async ");
        } else {
            assert(buf@ == old(buf)@ + Seq::<char>::empty());
        }
    }

    fn parameters_from_reader(
        reader: &mut TokenReader,
        state: &mut ParsingState,
        settings: &ParseSettings,
    ) -> (result: Result<FunctionParameters, ParseError>)
        ensures
            final(state)@ == old(state)@,
    {
        proof {
            use_type_invariant(&*reader);
        }
        match reader.next_if(&TokenKind::OpenParentheses) {
            Some(open_paren) => FunctionParameters::from_reader_sub_open_parenthesis(
                reader,
                state,
                settings,
                open_paren,
            ),
            None => match reader.next_identifier() {
                Ok((name, position)) => Ok(ArrowFunctionBase::single_parameter(name, position)),
                Err(error) => Err(error),
            },
        }
    }

    fn parameters_to_string_from_buffer(
        buf: &mut String,
        parameters: &FunctionParameters,
        settings: &ToStringSettings,
        depth: u8,
    ) {
        if ArrowFunctionBase::uses_shorthand(parameters) {
            push_str(buf, parameters.parameters[0].name.name.as_str());
        } else {
            parameters.to_string_from_buffer(buf, settings, depth);
        }
    }

    fn parameter_body_boundary_token_from_reader(
        reader: &mut TokenReader,
        state: &mut ParsingState,
        settings: &ParseSettings,
    ) -> (result: Result<(), ParseError>)
        ensures
            final(state)@ == old(state)@,
    {
        match reader.expect_next(TokenKind::Arrow) {
            Ok(_) => Ok(()),
            Err(error) => Err(error),
        }
    }

    fn parameter_body_boundary_token_to_string_from_buffer(
        buf: &mut String,
        settings: &ToStringSettings,
    ) {
        push_str(
            buf,
            if settings.pretty {
                " => "
            } else {
                "=>"
            },
        );
    }

    fn header_left(header: &Self::Header) -> (left: Option<Span>) {
        match header {
            Some(keyword) => Some(keyword.position),
            None => None,
        }
    }
}

impl FunctionBase<ArrowFunctionBase> {
    /// The arrow function whose one bare parameter the caller has
    /// consumed: `=>` must stand at `at`, and the body behind it.
    pub open spec fn parse_with_first_parameter(
        tokens: Seq<Token>,
        at: int,
        ids: IdCounters,
        first_parameter: (String, Span),
    ) -> Parsed<FunctionBaseView<ArrowFunctionBase>> {
        FunctionBase::<ArrowFunctionBase>::parse_behind_signature(
            tokens,
            at,
            ids,
            None,
            (),
            ArrowFunctionBase::spec_single_parameter(first_parameter.0, first_parameter.1),
            None,
            None,
        )
    }

    /// The arrow function whose opening parenthesis, at `open_paren_span`,
    /// the caller has consumed: the parameter list from `at` on, a return
    /// type behind a colon if one is declared, `=>`, and the body.
    pub open spec fn parse_sub_open_paren(
        tokens: Seq<Token>,
        at: int,
        ids: IdCounters,
        is_async: Option<Keyword>,
        open_paren_span: Span,
    ) -> Parsed<FunctionBaseView<ArrowFunctionBase>> {
        match FunctionParameters::parse_entries(
            tokens,
            at,
            open_paren_span,
            Seq::empty(),
            Seq::empty(),
            ids,
        ) {
            Parsed::Accepted { value: parameters, next, ids } => match TypeReference::parse_annotation(
                tokens,
                next,
                ids,
            ) {
                Parsed::Accepted {
                    value: return_type,
                    next,
                    ids,
                } => FunctionBase::<ArrowFunctionBase>::parse_behind_signature(
                    tokens,
                    next,
                    ids,
                    is_async,
                    (),
                    parameters,
                    return_type,
                    None,
                ),
                Parsed::Rejected { error, place, counters } => Parsed::Rejected { error, place, counters },
            },
            Parsed::Rejected { error, place, counters } => Parsed::Rejected { error, place, counters },
        }
    }

    /// Completes an arrow function of which the caller has consumed one
    /// bare identifier, its only parameter.
    pub fn from_reader_with_first_parameter(
        reader: &mut TokenReader,
        state: &mut ParsingState,
        settings: &ParseSettings,
        first_parameter: (String, Span),
    ) -> (result: Result<Self, ParseError>)
        requires
            old(state)@.room_for(old(reader).remaining() + 1),
        ensures
            final(reader).tokens() == old(reader).tokens(),
            carried_out(
                FunctionBase::<ArrowFunctionBase>::parse_with_first_parameter(
                    old(reader).tokens(),
                    old(reader).cursor(),
                    old(state)@,
                    first_parameter,
                ),
                result,
                final(reader).cursor(),
                final(state)@,
            ),
    {
        let parameters = ArrowFunctionBase::single_parameter(first_parameter.0, first_parameter.1);
        FunctionBase::<ArrowFunctionBase>::from_reader_behind_signature(
            reader,
            state,
            settings,
            None,
            (),
            parameters,
            None,
            None,
        )
    }

    /// Completes an arrow function of which the caller has consumed the
    /// opening parenthesis, and the marker `async` before it if it had one.
    pub fn from_reader_sub_open_paren(
        reader: &mut TokenReader,
        state: &mut ParsingState,
        settings: &ParseSettings,
        is_async: Option<Keyword>,
        open_paren_span: Span,
    ) -> (result: Result<Self, ParseError>)
        requires
            old(state)@.room_for(old(reader).remaining()),
        ensures
            final(reader).tokens() == old(reader).tokens(),
            carried_out(
                FunctionBase::<ArrowFunctionBase>::parse_sub_open_paren(
                    old(reader).tokens(),
                    old(reader).cursor(),
                    old(state)@,
                    is_async,
                    open_paren_span,
                ),
                result,
                final(reader).cursor(),
                final(state)@,
            ),
    {
        let ghost tokens = reader.tokens();
        let ghost ids = state@;
        proof {
            use_type_invariant(&*reader);
        }
        proof {
            FunctionParameters::lemma_entries_consume(
                tokens,
                reader.cursor(),
                open_paren_span,
                Seq::empty(),
                Seq::empty(),
                ids,
            );
        }
        let parameters = match FunctionParameters::from_reader_sub_open_parenthesis(
            reader,
            state,
            settings,
            open_paren_span,
        ) {
            Ok(parameters) => parameters,
            Err(error) => {
                return Err(error);
            },
        };
        let return_type = match TypeReference::annotation_from_reader(reader, state, settings) {
            Ok(return_type) => return_type,
            Err(error) => {
                return Err(error);
            },
        };
        FunctionBase::<ArrowFunctionBase>::from_reader_behind_signature(
            reader,
            state,
            settings,
            is_async,
            (),
            parameters,
            return_type,
            None,
        )
    }
}

/// The body of an arrow function: one expression, or a block with the
/// identifier under which its scope is kept.
#[derive(Debug, Clone, PartialEq, Eq)]
pub enum ExpressionOrBlock {
    Expression(Box<Expression>),
    Block(Block, BlockId),
}

/// A body as a mathematical value.
pub enum ExpressionOrBlockView {
    Expression(Expression),
    Block(BlockView, BlockId),
}

impl View for ExpressionOrBlock {
    type V = ExpressionOrBlockView;

    open spec fn view(&self) -> ExpressionOrBlockView {
        match self {
            ExpressionOrBlock::Expression(expression) => ExpressionOrBlockView::Expression(
                **expression,
            ),
            ExpressionOrBlock::Block(block, id) => ExpressionOrBlockView::Block(block@, *id),
        }
    }
}

impl ExpressionOrBlock {
    /// The identifier of the block, for a body that is one.
    pub open spec fn block_id_of(body: ExpressionOrBlockView) -> Option<BlockId> {
        match body {
            ExpressionOrBlockView::Expression(_) => None,
            ExpressionOrBlockView::Block(_, id) => Some(id),
        }
    }

    pub fn get_block_id(&self) -> (id: Option<BlockId>)
        ensures
            id == ExpressionOrBlock::block_id_of(self@),
    {
        match self {
            ExpressionOrBlock::Expression(_) => None,
            ExpressionOrBlock::Block(_, id) => Some(*id),
        }
    }
}

impl ASTNode for ExpressionOrBlock {
    /// A block, with a block identifier that the pass has not handed out
    /// before, where an opening brace stands at `at`; an expression
    /// otherwise.
    open spec fn parse(tokens: Seq<Token>, at: int, ids: IdCounters) -> Parsed<
        ExpressionOrBlockView,
    > {
        if kind_is(tokens, at, TokenKind::OpenBrace) {
            match Block::parse(tokens, at, ids) {
                Parsed::Accepted { value, next, ids } => Parsed::Accepted {
                    value: ExpressionOrBlockView::Block(value, BlockId(ids.blocks as u64)),
                    next,
                    ids: IdCounters { functions: ids.functions, blocks: ids.blocks + 1 },
                },
                Parsed::Rejected { error, place, counters } => Parsed::Rejected { error, place, counters },
            }
        } else {
            match Expression::parse(tokens, at, ids) {
                Parsed::Accepted { value, next, ids } => Parsed::Accepted {
                    value: ExpressionOrBlockView::Expression(value),
                    next,
                    ids,
                },
                Parsed::Rejected { error, place, counters } => Parsed::Rejected { error, place, counters },
            }
        }
    }

    open spec fn position_of(node: ExpressionOrBlockView) -> Span {
        match node {
            ExpressionOrBlockView::Expression(expression) => Expression::position_of(expression),
            ExpressionOrBlockView::Block(block, _) => Block::position_of(block),
        }
    }

    open spec fn text_of(node: ExpressionOrBlockView, settings: ToStringSettings, depth: u8)
        -> Seq<char> {
        match node {
            ExpressionOrBlockView::Expression(expression) => Expression::text_of(
                expression,
                settings,
                depth,
            ),
            ExpressionOrBlockView::Block(block, _) => Block::text_of(block, settings, depth),
        }
    }

    proof fn lemma_parse_advances(tokens: Seq<Token>, at: int, ids: IdCounters) {
        Block::lemma_parse_consumes(tokens, at, ids);
        Expression::lemma_parse_consumes(tokens, at, ids);
    }

    fn get_position(&self) -> (position: Span) {
        match self {
            ExpressionOrBlock::Expression(expression) => expression.get_position(),
            ExpressionOrBlock::Block(block, _) => block.get_position(),
        }
    }

    fn from_reader(
        reader: &mut TokenReader,
        state: &mut ParsingState,
        settings: &ParseSettings,
    ) -> (result: Result<Self, ParseError>) {
        proof {
            use_type_invariant(&*reader);
        }
        if reader.peek_is(&TokenKind::OpenBrace) {
            proof {
                Block::lemma_parse_consumes(reader.tokens(), reader.cursor(), state@);
            }
            match Block::from_reader(reader, state, settings) {
                Ok(block) => {
                    let id = state.new_block_id();
                    Ok(ExpressionOrBlock::Block(block, id))
                },
                Err(error) => Err(error),
            }
        } else {
            match Expression::from_reader(reader, state, settings) {
                Ok(expression) => Ok(ExpressionOrBlock::Expression(Box::new(expression))),
                Err(error) => Err(error),
            }
        }
    }

    fn to_string_from_buffer(&self, buf: &mut String, settings: &ToStringSettings, depth: u8) {
        match self {
            ExpressionOrBlock::Expression(expression) => expression.to_string_from_buffer(
                buf,
                settings,
                depth,
            ),
            ExpressionOrBlock::Block(block, _) => block.to_string_from_buffer(buf, settings, depth),
        }
    }
}

} // verus!
