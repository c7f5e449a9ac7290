//! The parameter list of a function-like construct: required parameters,
//! behind them the optional ones, and at most one rest parameter at the end.

use crate::buffer::push_str;
use crate::errors::ParseError;
use crate::expression::Expression;
use crate::node::{carried_out, ASTNode, Parsed};
use crate::span::Span;
use crate::state::{IdCounters, ParseSettings, ParsingState, ToStringSettings};
use crate::tokens::{
    expected_at,
    identifier_at,
    kind_is,
    unexpected,
    Token,
    TokenKind,
    TokenReader,
};
use crate::types::{push_separator, separator, TypeReference};
use vstd::prelude::*;

verus! {

/// The name that a parameter binds: one identifier.
#[derive(Debug, Clone, PartialEq, Eq)]
pub struct VariableIdentifier {
    pub name: String,
    pub position: Span,
}

impl View for VariableIdentifier {
    type V = VariableIdentifier;

    open spec fn view(&self) -> VariableIdentifier {
        *self
    }
}

impl ASTNode for VariableIdentifier {
    open spec fn parse(tokens: Seq<Token>, at: int, ids: IdCounters) -> Parsed<VariableIdentifier> {
        match identifier_at(tokens, at) {
            Ok((name, position)) => Parsed::Accepted {
                value: VariableIdentifier { name, position },
                next: at + 1,
                ids,
            },
            Err(error) => Parsed::Rejected { error, place: at, counters: ids },
        }
    }

    open spec fn position_of(node: VariableIdentifier) -> Span {
        node.position
    }

    open spec fn text_of(node: VariableIdentifier, settings: ToStringSettings, depth: u8) -> Seq<
        char,
    > {
        node.name@
    }

    proof fn lemma_parse_advances(tokens: Seq<Token>, at: int, ids: IdCounters) {
    }

    fn get_position(&self) -> (position: Span) {
        self.position
    }

    fn from_reader(
        reader: &mut TokenReader,
        state: &mut ParsingState,
        settings: &ParseSettings,
    ) -> (result: Result<Self, ParseError>)
        ensures
            final(state)@ == old(state)@,
    {
        match reader.next_identifier() {
            Ok((name, position)) => Ok(VariableIdentifier { name, position }),
            Err(error) => Err(error),
        }
    }

    fn to_string_from_buffer(&self, buf: &mut String, settings: &ToStringSettings, depth: u8) {
        push_str(buf, self.name.as_str());
    }
}

/// One parameter: its name, the type it was declared with, and the value
/// it takes where the caller gives none.
#[derive(Debug, Clone, PartialEq, Eq)]
pub struct Parameter {
    pub name: VariableIdentifier,
    pub type_reference: Option<TypeReference>,
    pub default: Option<Expression>,
}

impl View for Parameter {
    type V = Parameter;

    open spec fn view(&self) -> Parameter {
        *self
    }
}

/// Where in its list a parameter stands.
#[derive(Clone, Copy, Debug, PartialEq, Eq, Structural)]
pub enum ParameterRole {
    Required,
    Optional,
    Rest,
}

impl Parameter {
    /// The entry of a list at `at`, and whether it is optional. An entry is
    /// a name, `?` if the parameter may be left out, a colon and a type if
    /// one is declared, and, unless `?` stands there, `=` and a default
    /// value if it has one. It is optional with `?` or with a default value.
    pub open spec fn parse_entry(tokens: Seq<Token>, at: int, ids: IdCounters) -> Parsed<
        (Parameter, bool),
    > {
        match VariableIdentifier::parse(tokens, at, ids) {
            Parsed::Accepted { value: name, next, ids } => {
                let marked = kind_is(tokens, next, TokenKind::QuestionMark);
                let behind_mark = if marked {
                    next + 1
                } else {
                    next
                };
                match TypeReference::parse_annotation(tokens, behind_mark, ids) {
                    Parsed::Accepted { value: type_reference, next, ids } => {
                        if !marked && kind_is(tokens, next, TokenKind::Assign) {
                            match Expression::parse(tokens, next + 1, ids) {
                                Parsed::Accepted { value, next, ids } => Parsed::Accepted {
                                    value: (
                                        Parameter { name, type_reference, default: Some(value) },
                                        true,
                                    ),
                                    next,
                                    ids,
                                },
                                Parsed::Rejected { error, place, counters } => Parsed::Rejected { error, place, counters },
                            }
                        } else {
                            Parsed::Accepted {
                                value: (Parameter { name, type_reference, default: None }, marked),
                                next,
                                ids,
                            }
                        }
                    },
                    Parsed::Rejected { error, place, counters } => Parsed::Rejected { error, place, counters },
                }
            },
            Parsed::Rejected { error, place, counters } => Parsed::Rejected { error, place, counters },
        }
    }

    /// The rest parameter whose name stands at `at`, behind the marker: a
    /// name, and a colon and a type if one is declared.
    pub open spec fn parse_rest(tokens: Seq<Token>, at: int, ids: IdCounters) -> Parsed<Parameter> {
        match VariableIdentifier::parse(tokens, at, ids) {
            Parsed::Accepted { value: name, next, ids } => match TypeReference::parse_annotation(
                tokens,
                next,
                ids,
            ) {
                Parsed::Accepted { value: type_reference, next, ids } => Parsed::Accepted {
                    value: Parameter { name, type_reference, default: None },
                    next,
                    ids,
                },
                Parsed::Rejected { error, place, counters } => Parsed::Rejected { error, place, counters },
            },
            Parsed::Rejected { error, place, counters } => Parsed::Rejected { error, place, counters },
        }
    }

    /// An entry consumes at least one token and hands out no identifier.
    pub proof fn lemma_entry_consumes(tokens: Seq<Token>, at: int, ids: IdCounters)
        ensures
            Parameter::parse_entry(tokens, at, ids) matches Parsed::Accepted {
                next,
                ids: after,
                ..
            } ==> 0 <= at < next <= tokens.len() && after == ids,
            Parameter::parse_rest(tokens, at, ids) matches Parsed::Accepted {
                next,
                ids: after,
                ..
            } ==> 0 <= at < next <= tokens.len() && after == ids,
    {
        match VariableIdentifier::parse(tokens, at, ids) {
            Parsed::Accepted { value: name, next, ids } => {
                let marked = kind_is(tokens, next, TokenKind::QuestionMark);
                let behind_mark = if marked {
                    next + 1
                } else {
                    next
                };
                match TypeReference::parse_annotation(tokens, behind_mark, ids) {
                    Parsed::Accepted { value: type_reference, next, ids } => {
                        Expression::lemma_parse_consumes(tokens, next + 1, ids);
                    },
                    Parsed::Rejected { .. } => {},
                }
            },
            Parsed::Rejected { .. } => {},
        }
    }

    /// Consumes one entry of a parameter list.
    pub fn from_reader(
        reader: &mut TokenReader,
        state: &mut ParsingState,
        settings: &ParseSettings,
    ) -> (result: Result<(Parameter, bool), ParseError>)
        requires
            old(state)@.room_for(old(reader).remaining()),
        ensures
            final(reader).tokens() == old(reader).tokens(),
            final(state)@ == old(state)@,
            carried_out(
                Parameter::parse_entry(old(reader).tokens(), old(reader).cursor(), old(state)@),
                result,
                final(reader).cursor(),
                final(state)@,
            ),
    {
        proof {
            use_type_invariant(&*reader);
        }
        let name = match VariableIdentifier::from_reader(reader, state, settings) {
            Ok(name) => name,
            Err(error) => {
                return Err(error);
            },
        };
        let marked = reader.peek_is(&TokenKind::QuestionMark);
        if marked {
            reader.advance();
        }
        let type_reference = match TypeReference::annotation_from_reader(reader, state, settings) {
            Ok(type_reference) => type_reference,
            Err(error) => {
                return Err(error);
            },
        };
        if !marked && reader.peek_is(&TokenKind::Assign) {
            reader.advance();
            match Expression::from_reader(reader, state, settings) {
                Ok(value) => Ok((Parameter { name, type_reference, default: Some(value) }, true)),
                Err(error) => Err(error),
            }
        } else {
            Ok((Parameter { name, type_reference, default: None }, marked))
        }
    }

    /// Consumes the rest parameter behind its marker.
    pub fn rest_from_reader(
        reader: &mut TokenReader,
        state: &mut ParsingState,
        settings: &ParseSettings,
    ) -> (result: Result<Parameter, ParseError>)
        requires
            old(state)@.room_for(old(reader).remaining()),
        ensures
            final(reader).tokens() == old(reader).tokens(),
            final(state)@ == old(state)@,
            carried_out(
                Parameter::parse_rest(old(reader).tokens(), old(reader).cursor(), old(state)@),
                result,
                final(reader).cursor(),
                final(state)@,
            ),
    {
        proof {
            use_type_invariant(&*reader);
        }
        let name = match VariableIdentifier::from_reader(reader, state, settings) {
            Ok(name) => name,
            Err(error) => {
                return Err(error);
            },
        };
        match TypeReference::annotation_from_reader(reader, state, settings) {
            Ok(type_reference) => Ok(Parameter { name, type_reference, default: None }),
            Err(error) => Err(error),
        }
    }

    /// A default value behind its `=`, or nothing.
    pub open spec fn default_text(
        default: Option<Expression>,
        settings: ToStringSettings,
        depth: u8,
    ) -> Seq<char> {
        match default {
            Some(value) => (if settings.pretty {
                " = "@
            } else {
                "="@
            }) + Expression::text_of(value, settings, depth),
            None => Seq::empty(),
        }
    }

    /// What stands before the name: the marker of a rest parameter.
    pub open spec fn marker_text(role: ParameterRole) -> Seq<char> {
        if role == ParameterRole::Rest {
            "..."@
        } else {
            Seq::empty()
        }
    }

    /// What stands behind the name: `?` for an optional parameter that has
    /// no default value.
    pub open spec fn mark_text(self, role: ParameterRole) -> Seq<char> {
        if role == ParameterRole::Optional && self.default is None {
            "?"@
        } else {
            Seq::empty()
        }
    }

    /// The text of a parameter that stands in its list as `role`.
    pub open spec fn text(self, role: ParameterRole, settings: ToStringSettings, depth: u8) -> Seq<
        char,
    > {
        Parameter::marker_text(role) + self.name.name@ + self.mark_text(role)
            + TypeReference::annotation_text(self.type_reference, settings, depth)
            + Parameter::default_text(self.default, settings, depth)
    }

    pub fn to_string_from_buffer(
        &self,
        buf: &mut String,
        role: ParameterRole,
        settings: &ToStringSettings,
        depth: u8,
    )
        ensures
            final(buf)@ == old(buf)@ + self.text(role, *settings, depth),
    {
        if role == ParameterRole::Rest {
            push_str(buf, "...");
        }
        assert(buf@ == old(buf)@ + Parameter::marker_text(role));
        push_str(buf, self.name.name.as_str());
        if role == ParameterRole::Optional && self.default.is_none() {
            push_str(buf, "?");
        }
        assert(buf@ == old(buf)@ + Parameter::marker_text(role) + self.name.name@ + self.mark_text(
            role,
        ));
        TypeReference::annotation_to_string_from_buffer(&self.type_reference, buf, settings, depth);
        let ghost typed = buf@;
        match &self.default {
            Some(value) => {
                push_str(
                    buf,
                    if settings.pretty {
                        " = "
                    } else {
                        "="
                    },
                );
                value.to_string_from_buffer(buf, settings, depth);
                assert(buf@ == typed + ((if settings.pretty {
                    " = "@
                } else {
                    "="@
                }) + Expression::text_of(*value, *settings, depth)));
            },
            None => {
                assert(buf@ == typed + Seq::<char>::empty());
            },
        }
        assert(buf@ == typed + Parameter::default_text(self.default, *settings, depth));
    }
}

/// A parameter list, with the range from its opening parenthesis to its
/// closing one. Where the list was written as one bare name, the range is
/// that of the name.
#[derive(Debug, Clone, PartialEq, Eq)]
pub struct FunctionParameters {
    pub parameters: Vec<Parameter>,
    pub optional_parameters: Vec<Parameter>,
    pub rest_parameter: Option<Parameter>,
    pub position: Span,
}

/// A parameter list as a mathematical value.
pub struct FunctionParametersView {
    pub parameters: Seq<Parameter>,
    pub optional_parameters: Seq<Parameter>,
    pub rest_parameter: Option<Parameter>,
    pub position: Span,
}

impl View for FunctionParameters {
    type V = FunctionParametersView;

    open spec fn view(&self) -> FunctionParametersView {
        FunctionParametersView {
            parameters: self.parameters@,
            optional_parameters: self.optional_parameters@,
            rest_parameter: self.rest_parameter,
            position: self.position,
        }
    }
}

impl FunctionParameters {
    /// The list that the closing parenthesis at `at` completes. It must
    /// stand there.
    pub open spec fn parse_close(
        tokens: Seq<Token>,
        at: int,
        start: Span,
        parameters: Seq<Parameter>,
        optional_parameters: Seq<Parameter>,
        rest_parameter: Option<Parameter>,
        ids: IdCounters,
    ) -> Parsed<FunctionParametersView> {
        match expected_at(tokens, at, TokenKind::CloseParentheses) {
            Ok(end) => Parsed::Accepted {
                value: FunctionParametersView {
                    parameters,
                    optional_parameters,
                    rest_parameter,
                    position: start.spec_merge(end),
                },
                next: at + 1,
                ids,
            },
            Err(error) => Parsed::Rejected { error, place: at, counters: ids },
        }
    }

    /// The list whose opening parenthesis, at `start`, and whose entries
    /// before `at` have been read. At `at` stands the closing parenthesis,
    /// or the marker of the rest parameter, behind which the list must
    /// close, or one more entry. An entry that is not optional is refused
    /// behind an optional one: `=` would have had to follow it. Behind an
    /// entry stands a comma, or the list must close.
    pub open spec fn parse_entries(
        tokens: Seq<Token>,
        at: int,
        start: Span,
        parameters: Seq<Parameter>,
        optional_parameters: Seq<Parameter>,
        ids: IdCounters,
    ) -> Parsed<FunctionParametersView>
        decreases tokens.len() - at,
    {
        if kind_is(tokens, at, TokenKind::CloseParentheses) {
            FunctionParameters::parse_close(
                tokens,
                at,
                start,
                parameters,
                optional_parameters,
                None,
                ids,
            )
        } else if kind_is(tokens, at, TokenKind::Spread) {
            match Parameter::parse_rest(tokens, at + 1, ids) {
                Parsed::Accepted { value, next, ids } => FunctionParameters::parse_close(
                    tokens,
                    next,
                    start,
                    parameters,
                    optional_parameters,
                    Some(value),
                    ids,
                ),
                Parsed::Rejected { error, place, counters } => Parsed::Rejected { error, place, counters },
            }
        } else {
            proof {
                Parameter::lemma_entry_consumes(tokens, at, ids);
            }
            match Parameter::parse_entry(tokens, at, ids) {
                Parsed::Accepted { value: (parameter, optional), next, ids: after } => {
                    if !optional && optional_parameters.len() > 0 {
                        Parsed::Rejected {
                            error: unexpected(tokens, next, TokenKind::Assign),
                            place: next,
                            counters: after,
                        }
                    } else {
                        let parameters = if optional {
                            parameters
                        } else {
                            parameters.push(parameter)
                        };
                        let optional_parameters = if optional {
                            optional_parameters.push(parameter)
                        } else {
                            optional_parameters
                        };
                        if kind_is(tokens, next, TokenKind::Comma) {
                            FunctionParameters::parse_entries(
                                tokens,
                                next + 1,
                                start,
                                parameters,
                                optional_parameters,
                                after,
                            )
                        } else {
                            FunctionParameters::parse_close(
                                tokens,
                                next,
                                start,
                                parameters,
                                optional_parameters,
                                None,
                                after,
                            )
                        }
                    }
                },
                Parsed::Rejected { error, place, counters } => Parsed::Rejected { error, place, counters },
            }
        }
    }

    /// A list consumes at least its closing parenthesis and hands out no
    /// identifier.
    pub proof fn lemma_entries_consume(
        tokens: Seq<Token>,
        at: int,
        start: Span,
        parameters: Seq<Parameter>,
        optional_parameters: Seq<Parameter>,
        ids: IdCounters,
    )
        ensures
            FunctionParameters::parse_entries(
                tokens,
                at,
                start,
                parameters,
                optional_parameters,
                ids,
            ) matches Parsed::Accepted { next, ids: after, .. } ==> 0 <= at < next <= tokens.len()
                && after == ids,
        decreases tokens.len() - at,
    {
        if kind_is(tokens, at, TokenKind::CloseParentheses) {
        } else if kind_is(tokens, at, TokenKind::Spread) {
            Parameter::lemma_entry_consumes(tokens, at + 1, ids);
        } else {
            Parameter::lemma_entry_consumes(tokens, at, ids);
            match Parameter::parse_entry(tokens, at, ids) {
                Parsed::Accepted { value: (parameter, optional), next, ids: after } => {
                    if !optional && optional_parameters.len() > 0 {
                    } else if kind_is(tokens, next, TokenKind::Comma) {
                        FunctionParameters::lemma_entries_consume(
                            tokens,
                            next + 1,
                            start,
                            if optional {
                                parameters
                            } else {
                                parameters.push(parameter)
                            },
                            if optional {
                                optional_parameters.push(parameter)
                            } else {
                                optional_parameters
                            },
                            after,
                        );
                    }
                },
                Parsed::Rejected { .. } => {},
            }
        }
    }

    /// Consumes the list whose opening parenthesis, at `start`, the caller
    /// has consumed.
    pub fn from_reader_sub_open_parenthesis(
        reader: &mut TokenReader,
        state: &mut ParsingState,
        settings: &ParseSettings,
        start: Span,
    ) -> (result: Result<FunctionParameters, ParseError>)
        requires
            old(state)@.room_for(old(reader).remaining()),
        ensures
            final(reader).tokens() == old(reader).tokens(),
            final(state)@ == old(state)@,
            carried_out(
                FunctionParameters::parse_entries(
                    old(reader).tokens(),
                    old(reader).cursor(),
                    start,
                    Seq::empty(),
                    Seq::empty(),
                    old(state)@,
                ),
                result,
                final(reader).cursor(),
                final(state)@,
            ),
    {
        let ghost tokens = reader.tokens();
        let ghost from = reader.cursor();
        let ghost ids = state@;
        let ghost model = FunctionParameters::parse_entries(
            tokens,
            from,
            start,
            Seq::empty(),
            Seq::empty(),
            ids,
        );
        proof {
            use_type_invariant(&*reader);
        }
        let mut parameters: Vec<Parameter> = Vec::new();
        let mut optional_parameters: Vec<Parameter> = Vec::new();
        let mut rest_parameter: Option<Parameter> = None;
        loop
            invariant_except_break
                rest_parameter is None,
                model == FunctionParameters::parse_entries(
                    tokens,
                    reader.cursor(),
                    start,
                    parameters@,
                    optional_parameters@,
                    ids,
                ),
            invariant
                tokens == old(reader).tokens(),
                from == old(reader).cursor(),
                ids == old(state)@,
                model == FunctionParameters::parse_entries(
                    tokens,
                    from,
                    start,
                    Seq::empty(),
                    Seq::empty(),
                    ids,
                ),
                reader.tokens() == tokens,
                from <= reader.cursor() <= tokens.len(),
                state@ == ids,
                ids.room_for(old(reader).remaining()),
            ensures
                reader.tokens() == tokens,
                from <= reader.cursor() <= tokens.len(),
                state@ == ids,
                model == FunctionParameters::parse_close(
                    tokens,
                    reader.cursor(),
                    start,
                    parameters@,
                    optional_parameters@,
                    rest_parameter,
                    ids,
                ),
            decreases tokens.len() - reader.cursor(),
        {
            if reader.peek_is(&TokenKind::CloseParentheses) {
                break ;
            }
            if reader.peek_is(&TokenKind::Spread) {
                reader.advance();
                match Parameter::rest_from_reader(reader, state, settings) {
                    Ok(rest) => {
                        rest_parameter = Some(rest);
                        break ;
                    },
                    Err(error) => {
                        return Err(error);
                    },
                }
            }
            proof {
                Parameter::lemma_entry_consumes(tokens, reader.cursor(), ids);
            }
            let (parameter, optional) = match Parameter::from_reader(reader, state, settings) {
                Ok(entry) => entry,
                Err(error) => {
                    return Err(error);
                },
            };
            if optional {
                optional_parameters.push(parameter);
            } else if optional_parameters.len() > 0 {
                return Err(reader.unexpected(TokenKind::Assign));
            } else {
                parameters.push(parameter);
            }
            if reader.peek_is(&TokenKind::Comma) {
                reader.advance();
            } else {
                break ;
            }
        }
        match reader.expect_next(TokenKind::CloseParentheses) {
            Ok(end) => Ok(
                FunctionParameters {
                    parameters,
                    optional_parameters,
                    rest_parameter,
                    position: start.merge(end),
                },
            ),
            Err(error) => Err(error),
        }
    }

    /// The entries of one part of a list, each behind a separator unless it
    /// is the first of the whole list. `preceded` says whether other
    /// entries stand before this part.
    pub open spec fn entries_text(
        parameters: Seq<Parameter>,
        role: ParameterRole,
        settings: ToStringSettings,
        depth: u8,
        preceded: bool,
    ) -> Seq<char>
        decreases parameters.len(),
    {
        if parameters.len() == 0 {
            Seq::empty()
        } else {
            FunctionParameters::entries_text(
                parameters.drop_last(),
                role,
                settings,
                depth,
                preceded,
            ) + FunctionParameters::entry_text(
                parameters.last(),
                role,
                settings,
                depth,
                preceded || parameters.len() > 1,
            )
        }
    }

    /// One entry, behind a separator if other entries stand before it.
    pub open spec fn entry_text(
        parameter: Parameter,
        role: ParameterRole,
        settings: ToStringSettings,
        depth: u8,
        preceded: bool,
    ) -> Seq<char> {
        (if preceded {
            separator(settings)
        } else {
            Seq::empty()
        }) + parameter.text(role, settings, depth)
    }

    /// The rest parameter as the last entry of its list, or nothing.
    pub open spec fn rest_text(
        rest_parameter: Option<Parameter>,
        settings: ToStringSettings,
        depth: u8,
        preceded: bool,
    ) -> Seq<char> {
        match rest_parameter {
            Some(rest) => FunctionParameters::entry_text(
                rest,
                ParameterRole::Rest,
                settings,
                depth,
                preceded,
            ),
            None => Seq::empty(),
        }
    }

    /// All the entries of a list in their order: the required ones, the
    /// optional ones, the rest parameter.
    pub open spec fn list_text(node: FunctionParametersView, settings: ToStringSettings, depth: u8)
        -> Seq<char> {
        FunctionParameters::entries_text(
            node.parameters,
            ParameterRole::Required,
            settings,
            depth,
            false,
        ) + FunctionParameters::entries_text(
            node.optional_parameters,
            ParameterRole::Optional,
            settings,
            depth,
            node.parameters.len() > 0,
        ) + FunctionParameters::rest_text(
            node.rest_parameter,
            settings,
            depth,
            node.parameters.len() + node.optional_parameters.len() > 0,
        )
    }

    fn entry_to_string_from_buffer(
        parameter: &Parameter,
        buf: &mut String,
        role: ParameterRole,
        settings: &ToStringSettings,
        depth: u8,
        preceded: bool,
    )
        ensures
            final(buf)@ == old(buf)@ + FunctionParameters::entry_text(
                *parameter,
                role,
                *settings,
                depth,
                preceded,
            ),
    {
        if preceded {
            push_separator(buf, settings);
        }
        let ghost separated = buf@;
        parameter.to_string_from_buffer(buf, role, settings, depth);
        assert(buf@ == old(buf)@ + ((if preceded {
            separator(*settings)
        } else {
            Seq::empty()
        }) + parameter.text(role, *settings, depth)));
    }

    fn entries_to_string_from_buffer(
        parameters: &Vec<Parameter>,
        buf: &mut String,
        role: ParameterRole,
        settings: &ToStringSettings,
        depth: u8,
        preceded: bool,
    )
        ensures
            final(buf)@ == old(buf)@ + FunctionParameters::entries_text(
                parameters@,
                role,
                *settings,
                depth,
                preceded,
            ),
    {
        let count: usize = parameters.len();
        let mut index: usize = 0;
        assert(buf@ == old(buf)@ + Seq::<char>::empty());
        while index < count
            invariant
                count == parameters.len(),
                index <= count,
                buf@ == old(buf)@ + FunctionParameters::entries_text(
                    parameters@.take(index as int),
                    role,
                    *settings,
                    depth,
                    preceded,
                ),
            decreases count - index,
        {
            let ghost before = buf@;
            FunctionParameters::entry_to_string_from_buffer(
                &parameters[index],
                buf,
                role,
                settings,
                depth,
                preceded || index > 0,
            );
            proof {
                let done = parameters@.take(index as int);
                let more = parameters@.take(index + 1);
                assert(more.drop_last() == done);
                assert(more.last() == parameters@[index as int]);
                assert(buf@ == old(buf)@ + (FunctionParameters::entries_text(
                    done,
                    role,
                    *settings,
                    depth,
                    preceded,
                ) + FunctionParameters::entry_text(
                    more.last(),
                    role,
                    *settings,
                    depth,
                    preceded || more.len() > 1,
                )));
            }
            index = index + 1;
        }
        assert(parameters@.take(count as int) == parameters@);
    }
}

impl ASTNode for FunctionParameters {
    /// An opening parenthesis and the list behind it.
    open spec fn parse(tokens: Seq<Token>, at: int, ids: IdCounters) -> Parsed<
        FunctionParametersView,
    > {
        match expected_at(tokens, at, TokenKind::OpenParentheses) {
            Ok(start) => FunctionParameters::parse_entries(
                tokens,
                at + 1,
                start,
                Seq::empty(),
                Seq::empty(),
                ids,
            ),
            Err(error) => Parsed::Rejected { error, place: at, counters: ids },
        }
    }

    open spec fn position_of(node: FunctionParametersView) -> Span {
        node.position
    }

    /// The entries between parentheses.
    open spec fn text_of(node: FunctionParametersView, settings: ToStringSettings, depth: u8)
        -> Seq<char> {
        "("@ + FunctionParameters::list_text(node, settings, depth) + ")"@
    }

    proof fn lemma_parse_advances(tokens: Seq<Token>, at: int, ids: IdCounters) {
        match expected_at(tokens, at, TokenKind::OpenParentheses) {
            Ok(start) => {
                FunctionParameters::lemma_entries_consume(
                    tokens,
                    at + 1,
                    start,
                    Seq::empty(),
                    Seq::empty(),
                    ids,
                );
            },
            Err(error) => {},
        }
    }

    fn get_position(&self) -> (position: Span) {
        self.position
    }

    fn from_reader(
        reader: &mut TokenReader,
        state: &mut ParsingState,
        settings: &ParseSettings,
    ) -> (result: Result<Self, ParseError>)
        ensures
            final(state)@ == old(state)@,
    {
        proof {
            use_type_invariant(&*reader);
        }
        match reader.expect_next(TokenKind::OpenParentheses) {
            Ok(start) => FunctionParameters::from_reader_sub_open_parenthesis(
                reader,
                state,
                settings,
                start,
            ),
            Err(error) => Err(error),
        }
    }

    fn to_string_from_buffer(&self, buf: &mut String, settings: &ToStringSettings, depth: u8) {
        push_str(buf, "(");
        FunctionParameters::entries_to_string_from_buffer(
            &self.parameters,
            buf,
            ParameterRole::Required,
            settings,
            depth,
            false,
        );
        FunctionParameters::entries_to_string_from_buffer(
            &self.optional_parameters,
            buf,
            ParameterRole::Optional,
            settings,
            depth,
            self.parameters.len() > 0,
        );
        let ghost listed = buf@;
        match &self.rest_parameter {
            Some(rest) => {
                let preceded: bool = self.parameters.len() > 0 || self.optional_parameters.len()
                    > 0;
                FunctionParameters::entry_to_string_from_buffer(
                    rest,
                    buf,
                    ParameterRole::Rest,
                    settings,
                    depth,
                    preceded,
                );
            },
            None => {
                assert(buf@ == listed + Seq::<char>::empty());
            },
        }
        assert(buf@ == listed + FunctionParameters::rest_text(
            self.rest_parameter,
            *settings,
            depth,
            self.parameters@.len() + self.optional_parameters@.len() > 0,
        ));
        push_str(buf, ")");
        assert(buf@ == old(buf)@ + ("("@ + FunctionParameters::list_text(self@, *settings, depth)
            + ")"@));
    }
}

} // verus!
