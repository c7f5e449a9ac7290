//! Type references: what stands behind the colon of a declared type.

use crate::buffer::push_str;
use crate::errors::ParseError;
use crate::node::{carried_out, ASTNode, Parsed};
use crate::span::Span;
use crate::state::{IdCounters, ParseSettings, ParsingState, ToStringSettings};
use crate::tokens::{expected_at, identifier_at, kind_is, Token, TokenKind, TokenReader};
use vstd::prelude::*;

verus! {

/// A type named by one identifier, such as `string`.
#[derive(Debug, Clone, PartialEq, Eq)]
pub struct TypeReference {
    pub name: String,
    pub position: Span,
}

impl View for TypeReference {
    type V = TypeReference;

    open spec fn view(&self) -> TypeReference {
        *self
    }
}

/// What stands between two entries of a list.
pub open spec fn separator(settings: ToStringSettings) -> Seq<char> {
    if settings.pretty {
        ", "@
    } else {
        ","@
    }
}

/// Appends the separator of a list to `buf`.
pub fn push_separator(buf: &mut String, settings: &ToStringSettings)
    ensures
        final(buf)@ == old(buf)@ + separator(*settings),
{
    push_str(
        buf,
        if settings.pretty {
            ", "
        } else {
            ","
        },
    );
}

impl TypeReference {
    /// The declared type behind a colon at `at`, if a colon stands there.
    pub open spec fn parse_annotation(tokens: Seq<Token>, at: int, ids: IdCounters) -> Parsed<
        Option<TypeReference>,
    > {
        if kind_is(tokens, at, TokenKind::Colon) {
            match TypeReference::parse(tokens, at + 1, ids) {
                Parsed::Accepted { value, next, ids } => Parsed::Accepted {
                    value: Some(value),
                    next,
                    ids,
                },
                Parsed::Rejected { error, place, counters } => Parsed::Rejected { error, place, counters },
            }
        } else {
            Parsed::Accepted { value: None, next: at, ids }
        }
    }

    /// Consumes a colon and the type behind it, if a colon is next.
    pub fn annotation_from_reader(
        reader: &mut TokenReader,
        state: &mut ParsingState,
        settings: &ParseSettings,
    ) -> (result: Result<Option<TypeReference>, ParseError>)
        requires
            old(state)@.room_for(old(reader).remaining()),
        ensures
            final(reader).tokens() == old(reader).tokens(),
            final(state)@ == old(state)@,
            carried_out(
                TypeReference::parse_annotation(
                    old(reader).tokens(),
                    old(reader).cursor(),
                    old(state)@,
                ),
                result,
                final(reader).cursor(),
                final(state)@,
            ),
    {
        proof {
            use_type_invariant(&*reader);
        }
        if reader.peek_is(&TokenKind::Colon) {
            reader.advance();
            match TypeReference::from_reader(reader, state, settings) {
                Ok(annotation) => Ok(Some(annotation)),
                Err(error) => Err(error),
            }
        } else {
            Ok(None)
        }
    }

    /// A declared type behind its colon, or nothing.
    pub open spec fn annotation_text(
        annotation: Option<TypeReference>,
        settings: ToStringSettings,
        depth: u8,
    ) -> Seq<char> {
        match annotation {
            Some(annotation) => (if settings.pretty {
                ": "@
            } else {
                ":"@
            }) + TypeReference::text_of(annotation, settings, depth),
            None => Seq::empty(),
        }
    }

    pub fn annotation_to_string_from_buffer(
        annotation: &Option<TypeReference>,
        buf: &mut String,
        settings: &ToStringSettings,
        depth: u8,
    )
        ensures
            final(buf)@ == old(buf)@ + TypeReference::annotation_text(
                *annotation,
                *settings,
                depth,
            ),
    {
        match annotation {
            Some(annotation) => {
                push_str(
                    buf,
                    if settings.pretty {
                        ": "
                    } else {
                        ":"
                    },
                );
                annotation.to_string_from_buffer(buf, settings, depth);
                assert(buf@ == old(buf)@ + ((if settings.pretty {
                    ": "@
                } else {
                    ":"@
                }) + TypeReference::text_of(*annotation, *settings, depth)));
            },
            None => {
                assert(buf@ == old(buf)@ + Seq::<char>::empty());
            },
        }
    }

    /// The types from `at` up to the closing chevron, behind those of
    /// `before`: one at least, with a comma between each two.
    pub open spec fn parse_list(
        tokens: Seq<Token>,
        at: int,
        before: Seq<TypeReference>,
        ids: IdCounters,
    ) -> Parsed<Seq<TypeReference>>
        decreases tokens.len() - at,
    {
        match identifier_at(tokens, at) {
            Ok((name, position)) => {
                let types = before.push(TypeReference { name, position });
                if kind_is(tokens, at + 1, TokenKind::Comma) {
                    TypeReference::parse_list(tokens, at + 2, types, ids)
                } else {
                    match expected_at(tokens, at + 1, TokenKind::CloseChevron) {
                        Ok(close) => Parsed::Accepted { value: types, next: at + 2, ids },
                        Err(error) => Parsed::Rejected { error, place: at + 1, counters: ids },
                    }
                }
            },
            Err(error) => Parsed::Rejected { error, place: at, counters: ids },
        }
    }

    /// The list of type parameters between chevrons at `at`, if an opening
    /// chevron stands there.
    pub open spec fn parse_type_parameters(tokens: Seq<Token>, at: int, ids: IdCounters) -> Parsed<
        Option<Seq<TypeReference>>,
    > {
        if kind_is(tokens, at, TokenKind::OpenChevron) {
            match TypeReference::parse_list(tokens, at + 1, Seq::empty(), ids) {
                Parsed::Accepted { value, next, ids } => Parsed::Accepted {
                    value: Some(value),
                    next,
                    ids,
                },
                Parsed::Rejected { error, place, counters } => Parsed::Rejected { error, place, counters },
            }
        } else {
            Parsed::Accepted { value: None, next: at, ids }
        }
    }

    pub proof fn lemma_list_advances(
        tokens: Seq<Token>,
        at: int,
        before: Seq<TypeReference>,
        ids: IdCounters,
    )
        ensures
            TypeReference::parse_list(tokens, at, before, ids) matches Parsed::Accepted {
                next,
                ids: after,
                ..
            } ==> 0 <= at < next <= tokens.len() && after == ids,
        decreases tokens.len() - at,
    {
        match identifier_at(tokens, at) {
            Ok((name, position)) => {
                if kind_is(tokens, at + 1, TokenKind::Comma) {
                    TypeReference::lemma_list_advances(
                        tokens,
                        at + 2,
                        before.push(TypeReference { name, position }),
                        ids,
                    );
                }
            },
            Err(error) => {},
        }
    }

    /// A list of type parameters consumes what it reads and hands out no
    /// identifier.
    pub proof fn lemma_type_parameters_advance(tokens: Seq<Token>, at: int, ids: IdCounters)
        requires
            0 <= at <= tokens.len(),
        ensures
            TypeReference::parse_type_parameters(tokens, at, ids) matches Parsed::Accepted {
                next,
                ids: after,
                ..
            } ==> at <= next <= tokens.len() && after == ids,
    {
        TypeReference::lemma_list_advances(tokens, at + 1, Seq::empty(), ids);
    }

    /// Consumes a list of type parameters, if an opening chevron is next.
    pub fn type_parameters_from_reader(
        reader: &mut TokenReader,
        state: &mut ParsingState,
        settings: &ParseSettings,
    ) -> (result: Result<Option<Vec<TypeReference>>, ParseError>)
        requires
            old(state)@.room_for(old(reader).remaining()),
        ensures
            final(reader).tokens() == old(reader).tokens(),
            final(state)@ == old(state)@,
            old(reader).cursor() <= final(reader).cursor(),
            match TypeReference::parse_type_parameters(
                old(reader).tokens(),
                old(reader).cursor(),
                old(state)@,
            ) {
                Parsed::Accepted { value, next, ids } => {
                    &&& result matches Ok(found)
                    &&& value == match found {
                        Some(types) => Some(types@),
                        None => None,
                    }
                    &&& final(reader).cursor() == next
                    &&& final(state)@ == ids
                },
                Parsed::Rejected { error, place, counters } => {
                    &&& result == Err::<Option<Vec<TypeReference>>, ParseError>(error)
                    &&& final(reader).cursor() == place
                    &&& final(state)@ == counters
                },
            },
    {
        let ghost tokens = reader.tokens();
        let ghost start = reader.cursor();
        let ghost ids = state@;
        proof {
            use_type_invariant(&*reader);
        }
        if !reader.peek_is(&TokenKind::OpenChevron) {
            return Ok(None);
        }
        reader.advance();
        let mut types: Vec<TypeReference> = Vec::new();
        loop
            invariant
                tokens == old(reader).tokens(),
                start == old(reader).cursor(),
                ids == old(state)@,
                reader.tokens() == tokens,
                start < reader.cursor() <= tokens.len(),
                state@ == ids,
                ids.room_for(old(reader).remaining()),
                kind_is(tokens, start, TokenKind::OpenChevron),
                TypeReference::parse_list(tokens, start + 1, Seq::empty(), ids)
                    == TypeReference::parse_list(tokens, reader.cursor(), types@, ids),
            decreases tokens.len() - reader.cursor(),
        {
            match TypeReference::from_reader(reader, state, settings) {
                Ok(found) => {
                    types.push(found);
                },
                Err(error) => {
                    return Err(error);
                },
            }
            if reader.peek_is(&TokenKind::Comma) {
                reader.advance();
            } else {
                return match reader.expect_next(TokenKind::CloseChevron) {
                    Ok(close) => Ok(Some(types)),
                    Err(error) => Err(error),
                };
            }
        }
    }

    /// The names of the types with a separator between each two.
    pub open spec fn list_text(types: Seq<TypeReference>, settings: ToStringSettings, depth: u8)
        -> Seq<char>
        decreases types.len(),
    {
        if types.len() == 0 {
            Seq::empty()
        } else if types.len() == 1 {
            TypeReference::text_of(types[0], settings, depth)
        } else {
            TypeReference::list_text(types.drop_last(), settings, depth) + separator(settings)
                + TypeReference::text_of(types.last(), settings, depth)
        }
    }

    /// A list of type parameters between its chevrons, or nothing.
    pub open spec fn type_parameters_text(
        parameters: Option<Seq<TypeReference>>,
        settings: ToStringSettings,
        depth: u8,
    ) -> Seq<char> {
        match parameters {
            Some(types) => "<"@ + TypeReference::list_text(types, settings, depth) + ">"@,
            None => Seq::empty(),
        }
    }

    pub fn type_parameters_to_string_from_buffer(
        parameters: &Option<Vec<TypeReference>>,
        buf: &mut String,
        settings: &ToStringSettings,
        depth: u8,
    )
        ensures
            final(buf)@ == old(buf)@ + TypeReference::type_parameters_text(
                match *parameters {
                    Some(types) => Some(types@),
                    None => None,
                },
                *settings,
                depth,
            ),
    {
        match parameters {
            Some(types) => {
                push_str(buf, "<");
                let count: usize = types.len();
                let mut index: usize = 0;
                while index < count
                    invariant
                        count == types.len(),
                        index <= count,
                        buf@ == old(buf)@ + "<"@ + TypeReference::list_text(
                            types@.take(index as int),
                            *settings,
                            depth,
                        ),
                    decreases count - index,
                {
                    let ghost before = buf@;
                    if index > 0 {
                        push_separator(buf, settings);
                    }
                    types[index].to_string_from_buffer(buf, settings, depth);
                    proof {
                        let done = types@.take(index as int);
                        let more = types@.take(index + 1);
                        assert(more.drop_last() == done);
                        assert(more.last() == types@[index as int]);
                        if index == 0 {
                            assert(more[0] == types@[0]);
                            assert(TypeReference::list_text(done, *settings, depth) == Seq::<
                                char,
                            >::empty());
                        }
                    }
                    index = index + 1;
                }
                assert(types@.take(count as int) == types@);
                push_str(buf, ">");
                assert(buf@ == old(buf)@ + ("<"@ + TypeReference::list_text(
                    types@,
                    *settings,
                    depth,
                ) + ">"@));
            },
            None => {
                assert(buf@ == old(buf)@ + Seq::<char>::empty());
            },
        }
    }
}

impl ASTNode for TypeReference {
    open spec fn parse(tokens: Seq<Token>, at: int, ids: IdCounters) -> Parsed<TypeReference> {
        match identifier_at(tokens, at) {
            Ok((name, position)) => Parsed::Accepted {
                value: TypeReference { name, position },
                next: at + 1,
                ids,
            },
            Err(error) => Parsed::Rejected { error, place: at, counters: ids },
        }
    }

    open spec fn position_of(node: TypeReference) -> Span {
        node.position
    }

    open spec fn text_of(node: TypeReference, settings: ToStringSettings, depth: u8) -> Seq<char> {
        node.name@
    }

    proof fn lemma_parse_advances(tokens: Seq<Token>, at: int, ids: IdCounters) {
    }

    fn get_position(&self) -> (position: Span) {
        self.position
    }

    fn from_reader(
        reader: &mut TokenReader,
        state: &mut ParsingState,
        settings: &ParseSettings,
    ) -> (result: Result<Self, ParseError>)
        ensures
            final(state)@ == old(state)@,
    {
        match reader.next_identifier() {
            Ok((name, position)) => Ok(TypeReference { name, position }),
            Err(error) => Err(error),
        }
    }

    fn to_string_from_buffer(&self, buf: &mut String, settings: &ToStringSettings, depth: u8) {
        push_str(buf, self.name.as_str());
    }
}

} // verus!
