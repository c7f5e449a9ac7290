//! The engine that parses and prints every function-like construct. What
//! differs from one kind of construct to another (the header, the name, how
//! the parameters are written, what parts them from the body) is a
//! capability set: an impl of `FunctionBased`.

use crate::errors::ParseError;
use crate::node::{carried_out, ASTNode, Parsed};
use crate::parameters::{FunctionParameters, FunctionParametersView};
use crate::span::Span;
use crate::state::{BlockId, FunctionId, IdCounters, ParseSettings, ParsingState, ToStringSettings};
use crate::tokens::{Token, TokenReader};
use crate::types::TypeReference;
use vstd::prelude::*;

verus! {

/// A keyword that was found in the source, with its place there.
#[derive(Clone, Copy, Debug, PartialEq, Eq, Structural, Hash)]
pub struct Keyword {
    pub position: Span,
}

/// The key under which the scope of a construct's body is kept.
#[derive(Clone, Copy, Debug, PartialEq, Eq, Structural, Hash)]
pub enum ChainVariable {
    /// The block of an arrow function's body, or nothing where the body is
    /// an expression and opens no block.
    UnderArrowFunction(Option<BlockId>),
}

/// Whether a call that returned `result` did what `model` says, for a
/// result that is its own mathematical value. See `carried_out`.
pub open spec fn carried_out_plainly<T>(
    model: Parsed<T>,
    result: Result<T, ParseError>,
    to: int,
    after: IdCounters,
) -> bool {
    match model {
        Parsed::Accepted { value, next, ids } => {
            &&& result == Ok::<T, ParseError>(value)
            &&& to == next
            &&& after == ids
        },
        Parsed::Rejected { error, place, counters } => {
            &&& result == Err::<T, ParseError>(error)
            &&& to == place
            &&& after == counters
        },
    }
}

/// What one kind of function-like construct brings to the engine.
pub trait FunctionBased: Sized {
    /// What stands before the name, such as the marker `async`.
    type Header;

    type Name;

    type Body: ASTNode;

    /// What `header_and_name_from_reader` does at `at`.
    spec fn parse_header_and_name(tokens: Seq<Token>, at: int, ids: IdCounters) -> Parsed<
        (Self::Header, Self::Name),
    >;

    /// What `parameters_from_reader` does at `at`.
    spec fn parse_parameters(tokens: Seq<Token>, at: int, ids: IdCounters) -> Parsed<
        FunctionParametersView,
    >;

    /// What `parameter_body_boundary_token_from_reader` does at `at`.
    spec fn parse_boundary(tokens: Seq<Token>, at: int, ids: IdCounters) -> Parsed<()>;

    spec fn header_and_name_text(
        header: Self::Header,
        name: Self::Name,
        settings: ToStringSettings,
        depth: u8,
    ) -> Seq<char>;

    spec fn parameters_text(
        parameters: FunctionParametersView,
        settings: ToStringSettings,
        depth: u8,
    ) -> Seq<char>;

    spec fn boundary_text(settings: ToStringSettings) -> Seq<char>;

    /// Where the header starts, if it holds anything.
    spec fn header_left_of(header: Self::Header) -> Option<Span>;

    /// The key for the scope of a construct with the body `body`.
    spec fn chain_variable_of(body: <Self::Body as View>::V) -> ChainVariable;

    /// The header and the name move forward and hand out no identifier.
    proof fn lemma_header_and_name_advance(tokens: Seq<Token>, at: int, ids: IdCounters)
        requires
            0 <= at <= tokens.len(),
        ensures
            Self::parse_header_and_name(tokens, at, ids) matches Parsed::Accepted {
                next,
                ids: after,
                ..
            } ==> at <= next <= tokens.len() && after == ids,
    ;

    /// The parameters consume at least one token and hand out no
    /// identifier.
    proof fn lemma_parameters_advance(tokens: Seq<Token>, at: int, ids: IdCounters)
        requires
            0 <= at <= tokens.len(),
        ensures
            Self::parse_parameters(tokens, at, ids) matches Parsed::Accepted {
                next,
                ids: after,
                ..
            } ==> at < next <= tokens.len() && after == ids,
    ;

    /// The boundary moves forward and hands out no identifier.
    proof fn lemma_boundary_advances(tokens: Seq<Token>, at: int, ids: IdCounters)
        requires
            0 <= at <= tokens.len(),
        ensures
            Self::parse_boundary(tokens, at, ids) matches Parsed::Accepted {
                next,
                ids: after,
                ..
            } ==> at <= next <= tokens.len() && after == ids,
    ;

    fn get_chain_variable(this: &FunctionBase<Self>) -> (variable: ChainVariable)
        ensures
            variable == Self::chain_variable_of(this.body@),
    ;

    fn header_and_name_from_reader(
        reader: &mut TokenReader,
        state: &mut ParsingState,
        settings: &ParseSettings,
    ) -> (result: Result<(Self::Header, Self::Name), ParseError>)
        requires
            old(state)@.room_for(old(reader).remaining()),
        ensures
            final(reader).tokens() == old(reader).tokens(),
            carried_out_plainly(
                Self::parse_header_and_name(
                    old(reader).tokens(),
                    old(reader).cursor(),
                    old(state)@,
                ),
                result,
                final(reader).cursor(),
                final(state)@,
            ),
    ;

    fn header_and_name_to_string_from_buffer(
        buf: &mut String,
        header: &Self::Header,
        name: &Self::Name,
        settings: &ToStringSettings,
        depth: u8,
    )
        ensures
            final(buf)@ == old(buf)@ + Self::header_and_name_text(
                *header,
                *name,
                *settings,
                depth,
            ),
    ;

    fn parameters_from_reader(
        reader: &mut TokenReader,
        state: &mut ParsingState,
        settings: &ParseSettings,
    ) -> (result: Result<FunctionParameters, ParseError>)
        requires
            old(state)@.room_for(old(reader).remaining()),
        ensures
            final(reader).tokens() == old(reader).tokens(),
            carried_out(
                Self::parse_parameters(old(reader).tokens(), old(reader).cursor(), old(state)@),
                result,
                final(reader).cursor(),
                final(state)@,
            ),
    ;

    fn parameters_to_string_from_buffer(
        buf: &mut String,
        parameters: &FunctionParameters,
        settings: &ToStringSettings,
        depth: u8,
    )
        ensures
            final(buf)@ == old(buf)@ + Self::parameters_text(parameters@, *settings, depth),
    ;

    /// Consumes what parts the parameters from the body.
    fn parameter_body_boundary_token_from_reader(
        reader: &mut TokenReader,
        state: &mut ParsingState,
        settings: &ParseSettings,
    ) -> (result: Result<(), ParseError>)
        requires
            old(state)@.room_for(old(reader).remaining()),
        ensures
            final(reader).tokens() == old(reader).tokens(),
            carried_out_plainly(
                Self::parse_boundary(old(reader).tokens(), old(reader).cursor(), old(state)@),
                result,
                final(reader).cursor(),
                final(state)@,
            ),
    ;

    fn parameter_body_boundary_token_to_string_from_buffer(
        buf: &mut String,
        settings: &ToStringSettings,
    )
        ensures
            final(buf)@ == old(buf)@ + Self::boundary_text(*settings),
    ;

    fn header_left(header: &Self::Header) -> (left: Option<Span>)
        ensures
            left == Self::header_left_of(*header),
    ;
}

/// A function-like construct of the kind `T`.
#[derive(Debug, Clone, PartialEq, Eq)]
pub struct FunctionBase<T: FunctionBased> {
    pub header: T::Header,
    pub name: T::Name,
    pub parameters: FunctionParameters,
    pub return_type: Option<TypeReference>,
    pub type_parameters: Option<Vec<TypeReference>>,
    pub body: T::Body,
    pub function_id: FunctionId,
}

/// A function-like construct as a mathematical value.
pub struct FunctionBaseView<T: FunctionBased> {
    pub header: T::Header,
    pub name: T::Name,
    pub parameters: FunctionParametersView,
    pub return_type: Option<TypeReference>,
    pub type_parameters: Option<Seq<TypeReference>>,
    pub body: <T::Body as View>::V,
    pub function_id: FunctionId,
}

/// A list of type parameters as a mathematical value.
pub open spec fn type_parameters_view(type_parameters: Option<Vec<TypeReference>>) -> Option<
    Seq<TypeReference>,
> {
    match type_parameters {
        Some(types) => Some(types@),
        None => None,
    }
}

impl<T: FunctionBased> View for FunctionBase<T> {
    type V = FunctionBaseView<T>;

    open spec fn view(&self) -> FunctionBaseView<T> {
        FunctionBaseView {
            header: self.header,
            name: self.name,
            parameters: self.parameters@,
            return_type: self.return_type,
            type_parameters: type_parameters_view(self.type_parameters),
            body: self.body@,
            function_id: self.function_id,
        }
    }
}

impl<T: FunctionBased> FunctionBase<T> {
    /// The construct whose signature has been read up to `at`: the
    /// boundary, the body, and a function identifier that the pass has
    /// not handed out before.
    pub open spec fn parse_behind_signature(
        tokens: Seq<Token>,
        at: int,
        ids: IdCounters,
        header: T::Header,
        name: T::Name,
        parameters: FunctionParametersView,
        return_type: Option<TypeReference>,
        type_parameters: Option<Seq<TypeReference>>,
    ) -> Parsed<FunctionBaseView<T>> {
        match T::parse_boundary(tokens, at, ids) {
            Parsed::Accepted { value: _, next, ids } => match T::Body::parse(tokens, next, ids) {
                Parsed::Accepted { value: body, next, ids } => Parsed::Accepted {
                    value: FunctionBaseView {
                        header,
                        name,
                        parameters,
                        return_type,
                        type_parameters,
                        body,
                        function_id: FunctionId(ids.functions as u64),
                    },
                    next,
                    ids: IdCounters { functions: ids.functions + 1, blocks: ids.blocks },
                },
                Parsed::Rejected { error, place, counters } => Parsed::Rejected { error, place, counters },
            },
            Parsed::Rejected { error, place, counters } => Parsed::Rejected { error, place, counters },
        }
    }

    /// The construct whose header and name have been read up to `at`: the
    /// parameters, a return type behind a colon if one is declared, a list
    /// of type parameters if one stands there, and the rest as in
    /// `parse_behind_signature`.
    pub open spec fn parse_with_header_and_name(
        tokens: Seq<Token>,
        at: int,
        ids: IdCounters,
        header: T::Header,
        name: T::Name,
    ) -> Parsed<FunctionBaseView<T>> {
        match T::parse_parameters(tokens, at, ids) {
            Parsed::Accepted { value: parameters, next, ids } => match TypeReference::parse_annotation(
                tokens,
                next,
                ids,
            ) {
                Parsed::Accepted {
                    value: return_type,
                    next,
                    ids,
                } => match TypeReference::parse_type_parameters(tokens, next, ids) {
                    Parsed::Accepted {
                        value: type_parameters,
                        next,
                        ids,
                    } => FunctionBase::<T>::parse_behind_signature(
                        tokens,
                        next,
                        ids,
                        header,
                        name,
                        parameters,
                        return_type,
                        type_parameters,
                    ),
                    Parsed::Rejected { error, place, counters } => Parsed::Rejected { error, place, counters },
                },
                Parsed::Rejected { error, place, counters } => Parsed::Rejected { error, place, counters },
            },
            Parsed::Rejected { error, place, counters } => Parsed::Rejected { error, place, counters },
        }
    }

    /// What stands behind the signature consumes what it reads, and hands
    /// out one function identifier and at most one other identifier of
    /// each sort for each token of the body.
    pub proof fn lemma_behind_signature_advances(
        tokens: Seq<Token>,
        at: int,
        ids: IdCounters,
        header: T::Header,
        name: T::Name,
        parameters: FunctionParametersView,
        return_type: Option<TypeReference>,
        type_parameters: Option<Seq<TypeReference>>,
    )
        requires
            0 <= at <= tokens.len(),
        ensures
            FunctionBase::<T>::parse_behind_signature(
                tokens,
                at,
                ids,
                header,
                name,
                parameters,
                return_type,
                type_parameters,
            ) matches Parsed::Accepted { value, next, ids: after } ==> {
                &&& at <= next <= tokens.len()
                &&& ids.within(after, next - at + 1)
                &&& ids.functions < after.functions
                &&& after.blocks - ids.blocks <= next - at
                &&& value.function_id == FunctionId((after.functions - 1) as u64)
            },
    {
        T::lemma_boundary_advances(tokens, at, ids);
        match T::parse_boundary(tokens, at, ids) {
            Parsed::Accepted { value: _, next, ids: behind } => {
                T::Body::lemma_parse_advances(tokens, next, behind);
            },
            Parsed::Rejected { .. } => {},
        }
    }

    /// Reads the boundary and the body and names the construct.
    pub fn from_reader_behind_signature(
        reader: &mut TokenReader,
        state: &mut ParsingState,
        settings: &ParseSettings,
        header: T::Header,
        name: T::Name,
        parameters: FunctionParameters,
        return_type: Option<TypeReference>,
        type_parameters: Option<Vec<TypeReference>>,
    ) -> (result: Result<Self, ParseError>)
        requires
            old(state)@.room_for(old(reader).remaining() + 1),
        ensures
            final(reader).tokens() == old(reader).tokens(),
            carried_out(
                FunctionBase::<T>::parse_behind_signature(
                    old(reader).tokens(),
                    old(reader).cursor(),
                    old(state)@,
                    header,
                    name,
                    parameters@,
                    return_type,
                    type_parameters_view(type_parameters),
                ),
                result,
                final(reader).cursor(),
                final(state)@,
            ),
    {
        let ghost tokens = reader.tokens();
        let ghost from = reader.cursor();
        let ghost ids = state@;
        proof {
            use_type_invariant(&*reader);
        }
        proof {
            T::lemma_boundary_advances(tokens, from, ids);
        }
        match T::parameter_body_boundary_token_from_reader(reader, state, settings) {
            Ok(_) => {},
            Err(error) => {
                return Err(error);
            },
        }
        proof {
            T::Body::lemma_parse_advances(tokens, reader.cursor(), ids);
        }
        let body = match T::Body::from_reader(reader, state, settings) {
            Ok(body) => body,
            Err(error) => {
                return Err(error);
            },
        };
        let function_id = state.new_function_id();
        Ok(
            FunctionBase {
                header,
                name,
                parameters,
                return_type,
                type_parameters,
                body,
                function_id,
            },
        )
    }

    /// Reads a construct whose header and name the caller has read.
    pub fn from_reader_with_header_and_name(
        reader: &mut TokenReader,
        state: &mut ParsingState,
        settings: &ParseSettings,
        header: T::Header,
        name: T::Name,
    ) -> (result: Result<Self, ParseError>)
        requires
            old(state)@.room_for(old(reader).remaining()),
        ensures
            final(reader).tokens() == old(reader).tokens(),
            carried_out(
                FunctionBase::<T>::parse_with_header_and_name(
                    old(reader).tokens(),
                    old(reader).cursor(),
                    old(state)@,
                    header,
                    name,
                ),
                result,
                final(reader).cursor(),
                final(state)@,
            ),
    {
        let ghost tokens = reader.tokens();
        let ghost from = reader.cursor();
        let ghost ids = state@;
        proof {
            use_type_invariant(&*reader);
        }
        proof {
            T::lemma_parameters_advance(tokens, from, ids);
        }
        let parameters = match T::parameters_from_reader(reader, state, settings) {
            Ok(parameters) => parameters,
            Err(error) => {
                return Err(error);
            },
        };
        let return_type = match TypeReference::annotation_from_reader(reader, state, settings) {
            Ok(return_type) => return_type,
            Err(error) => {
                return Err(error);
            },
        };
        proof {
            TypeReference::lemma_type_parameters_advance(tokens, reader.cursor(), ids);
        }
        let type_parameters = match TypeReference::type_parameters_from_reader(reader, state, settings) {
            Ok(type_parameters) => type_parameters,
            Err(error) => {
                return Err(error);
            },
        };
        FunctionBase::<T>::from_reader_behind_signature(
            reader,
            state,
            settings,
            header,
            name,
            parameters,
            return_type,
            type_parameters,
        )
    }
}

impl<T: FunctionBased> ASTNode for FunctionBase<T> {
    /// The header and the name, and the rest as in
    /// `parse_with_header_and_name`.
    open spec fn parse(tokens: Seq<Token>, at: int, ids: IdCounters) -> Parsed<FunctionBaseView<T>> {
        match T::parse_header_and_name(tokens, at, ids) {
            Parsed::Accepted {
                value: (header, name),
                next,
                ids,
            } => FunctionBase::<T>::parse_with_header_and_name(tokens, next, ids, header, name),
            Parsed::Rejected { error, place, counters } => Parsed::Rejected { error, place, counters },
        }
    }

    /// From the parameters to the end of the body, and from the start of
    /// the header where it holds anything.
    open spec fn position_of(node: FunctionBaseView<T>) -> Span {
        Span::spec_leftmost_override(
            node.parameters.position.spec_merge(T::Body::position_of(node.body)),
            T::header_left_of(node.header),
        )
    }

    /// The parts in the order in which they are parsed.
    open spec fn text_of(node: FunctionBaseView<T>, settings: ToStringSettings, depth: u8) -> Seq<
        char,
    > {
        T::header_and_name_text(node.header, node.name, settings, depth) + T::parameters_text(
            node.parameters,
            settings,
            depth,
        ) + TypeReference::annotation_text(node.return_type, settings, depth)
            + TypeReference::type_parameters_text(node.type_parameters, settings, depth)
            + T::boundary_text(settings) + T::Body::text_of(node.body, settings, depth)
    }

    proof fn lemma_parse_advances(tokens: Seq<Token>, at: int, ids: IdCounters) {
        T::lemma_header_and_name_advance(tokens, at, ids);
        match T::parse_header_and_name(tokens, at, ids) {
            Parsed::Accepted { value: (header, name), next, ids: headed } => {
                T::lemma_parameters_advance(tokens, next, headed);
                match T::parse_parameters(tokens, next, headed) {
                    Parsed::Accepted { value: parameters, next, ids: listed } => {
                        match TypeReference::parse_annotation(tokens, next, listed) {
                            Parsed::Accepted { value: return_type, next, ids: typed } => {
                                TypeReference::lemma_type_parameters_advance(tokens, next, typed);
                                match TypeReference::parse_type_parameters(tokens, next, typed) {
                                    Parsed::Accepted {
                                        value: type_parameters,
                                        next,
                                        ids: signed,
                                    } => {
                                        FunctionBase::<T>::lemma_behind_signature_advances(
                                            tokens,
                                            next,
                                            signed,
                                            header,
                                            name,
                                            parameters,
                                            return_type,
                                            type_parameters,
                                        );
                                    },
                                    Parsed::Rejected { .. } => {},
                                }
                            },
                            Parsed::Rejected { .. } => {},
                        }
                    },
                    Parsed::Rejected { .. } => {},
                }
            },
            Parsed::Rejected { .. } => {},
        }
    }

    fn get_position(&self) -> (position: Span)
        ensures
            T::header_left_of(self.header) matches Some(left) ==> position.spec_start()
                == left.spec_start(),
    {
        let existing = self.parameters.position.merge(self.body.get_position());
        let left = T::header_left(&self.header);
        proof {
            Span::lemma_leftmost_override(existing, left);
        }
        Span::leftmost_override(existing, left)
    }

    fn from_reader(
        reader: &mut TokenReader,
        state: &mut ParsingState,
        settings: &ParseSettings,
    ) -> (result: Result<Self, ParseError>) {
        proof {
            use_type_invariant(&*reader);
        }
        proof {
            T::lemma_header_and_name_advance(reader.tokens(), reader.cursor(), state@);
        }
        match T::header_and_name_from_reader(reader, state, settings) {
            Ok((header, name)) => FunctionBase::<T>::from_reader_with_header_and_name(
                reader,
                state,
                settings,
                header,
                name,
            ),
            Err(error) => Err(error),
        }
    }

    fn to_string_from_buffer(&self, buf: &mut String, settings: &ToStringSettings, depth: u8) {
        T::header_and_name_to_string_from_buffer(buf, &self.header, &self.name, settings, depth);
        T::parameters_to_string_from_buffer(buf, &self.parameters, settings, depth);
        TypeReference::annotation_to_string_from_buffer(&self.return_type, buf, settings, depth);
        TypeReference::type_parameters_to_string_from_buffer(
            &self.type_parameters,
            buf,
            settings,
            depth,
        );
        T::parameter_body_boundary_token_to_string_from_buffer(buf, settings);
        self.body.to_string_from_buffer(buf, settings, depth);
    }
}

} // verus!
