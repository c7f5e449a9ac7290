//! What holds of every parse and every print.

use crate::arrow::{ArrowFunctionBase, ExpressionOrBlock, ExpressionOrBlockView};
use crate::expression::BinaryOperator;
use crate::failures::{fails_in_place, stopped_at};
use crate::functions::{FunctionBase, FunctionBaseView, FunctionBased, Keyword};
use crate::node::{ASTNode, Parsed};
use crate::parameters::{FunctionParameters, FunctionParametersView, Parameter};
use crate::positions::{in_order, lemma_range_of_one, lemma_ranges_merge, range};
use crate::roundtrip::{lemma_spelled_at, lemma_spelled_parts, spelled};
use crate::span::Span;
use crate::spelling::{
    lemma_printed_literals,
    lemma_same_joined,
    lemma_same_joined_three,
    lemma_tokens_text_joined,
    lemma_tokens_text_one,
    same_but_for_blanks,
    tokens_text,
};
use crate::state::{IdCounters, ToStringSettings};
use crate::tokens::{end_position, identifier_at, kind_is, token_at, unexpected, Token, TokenKind};
use crate::types::TypeReference;
use vstd::prelude::*;

verus! {

/// An arrow function's parameter list is printed without parentheses if and
/// only if it has exactly one required parameter, which has no declared
/// type, no optional parameter and no rest parameter. Printed so, it is the
/// bare name of that parameter; printed otherwise, it stands between `(`
/// and `)`.
pub proof fn law_shorthand(parameters: FunctionParametersView, settings: ToStringSettings, depth: u8)
    ensures
        ArrowFunctionBase::spec_uses_shorthand(parameters) <==> {
            &&& parameters.parameters.len() == 1
            &&& parameters.parameters[0].type_reference is None
            &&& parameters.optional_parameters.len() == 0
            &&& parameters.rest_parameter is None
        },
        ArrowFunctionBase::spec_uses_shorthand(parameters) ==> ArrowFunctionBase::parameters_text(
            parameters,
            settings,
            depth,
        ) == parameters.parameters[0].name.name@,
        !ArrowFunctionBase::spec_uses_shorthand(parameters) ==> {
            let text = ArrowFunctionBase::parameters_text(parameters, settings, depth);
            &&& text == "("@ + FunctionParameters::list_text(parameters, settings, depth) + ")"@
            &&& text.len() >= 2
            &&& text.first() == '('
            &&& text.last() == ')'
        },
{
    reveal_strlit("(");
    reveal_strlit(")");
}

/// Where the header of a construct holds a leading token, the construct
/// starts where that token starts, whatever the parameter list's start is;
/// where it holds none, the construct starts with its parameters or,
/// should the body start before them, with the body.
pub proof fn law_leftmost_span<T: FunctionBased>(function: FunctionBaseView<T>)
    ensures
        T::header_left_of(function.header) matches Some(left) ==> FunctionBase::<T>::position_of(
            function,
        ).spec_start() == left.spec_start(),
        T::header_left_of(function.header) is None ==> FunctionBase::<T>::position_of(function)
            == function.parameters.position.spec_merge(T::Body::position_of(function.body)),
        FunctionBase::<T>::position_of(function).spec_end() >= T::Body::position_of(
            function.body,
        ).spec_end(),
{
    let existing = function.parameters.position.spec_merge(T::Body::position_of(function.body));
    Span::lemma_leftmost_override(existing, T::header_left_of(function.header));
    function.parameters.position.lemma_merge_covers(T::Body::position_of(function.body));
}

/// An arrow function with the marker `async` starts where the marker
/// starts.
pub proof fn law_async_starts_the_span(function: FunctionBaseView<ArrowFunctionBase>)
    requires
        function.header is Some,
    ensures
        FunctionBase::<ArrowFunctionBase>::position_of(function).spec_start()
            == function.header->0.position.spec_start(),
{
    law_leftmost_span::<ArrowFunctionBase>(function);
}

/// A construct is named last: its identifier is the one before the
/// function counter that its parse leaves, and the parse moves that
/// counter forward.
pub proof fn lemma_function_id_is_fresh<T: FunctionBased>(
    tokens: Seq<Token>,
    at: int,
    ids: IdCounters,
)
    requires
        0 <= at <= tokens.len(),
    ensures
        FunctionBase::<T>::parse(tokens, at, ids) matches Parsed::Accepted {
            value,
            ids: after,
            ..
        } ==> ids.functions < after.functions && ids.blocks <= after.blocks && value.function_id.0
            == ((after.functions - 1) as u64),
{
    T::lemma_header_and_name_advance(tokens, at, ids);
    match T::parse_header_and_name(tokens, at, ids) {
        Parsed::Accepted { value: (header, name), next, ids: headed } => {
            T::lemma_parameters_advance(tokens, next, headed);
            match T::parse_parameters(tokens, next, headed) {
                Parsed::Accepted { value: parameters, next, ids: listed } => {
                    match TypeReference::parse_annotation(tokens, next, listed) {
                        Parsed::Accepted { value: return_type, next, ids: typed } => {
                            TypeReference::lemma_type_parameters_advance(tokens, next, typed);
                            match TypeReference::parse_type_parameters(tokens, next, typed) {
                                Parsed::Accepted { value: type_parameters, next, ids: signed } => {
                                    FunctionBase::<T>::lemma_behind_signature_advances(
                                        tokens,
                                        next,
                                        signed,
                                        header,
                                        name,
                                        parameters,
                                        return_type,
                                        type_parameters,
                                    );
                                },
                                Parsed::Rejected { .. } => {},
                            }
                        },
                        Parsed::Rejected { .. } => {},
                    }
                },
                Parsed::Rejected { .. } => {},
            }
        },
        Parsed::Rejected { .. } => {},
    }
}

/// No two constructs that are parsed in one pass get the same function
/// identifier. The first parse leaves the counters `between.0`; the second
/// starts later in the pass, with the counters `between.1`, and ends
/// before the function counter leaves the range of the identifiers.
pub proof fn law_function_ids_differ<T: FunctionBased, U: FunctionBased>(
    first: (Seq<Token>, int, IdCounters),
    between: (IdCounters, IdCounters),
    second: (Seq<Token>, int),
)
    requires
        0 <= first.1 <= first.0.len(),
        0 <= second.1 <= second.0.len(),
        FunctionBase::<T>::parse(first.0, first.1, first.2) matches Parsed::Accepted {
            ids: after,
            ..
        } && after == between.0,
        between.0.precedes(between.1),
        FunctionBase::<U>::parse(second.0, second.1, between.1) matches Parsed::Accepted {
            ids: after,
            ..
        } && after.functions <= u64::MAX,
    ensures
        FunctionBase::<T>::parse(first.0, first.1, first.2)->value.function_id != FunctionBase::<
            U,
        >::parse(second.0, second.1, between.1)->value.function_id,
{
    lemma_function_id_is_fresh::<T>(first.0, first.1, first.2);
    lemma_function_id_is_fresh::<U>(second.0, second.1, between.1);
}

/// A body that is a block gets the block identifier that the pass is
/// about to hand out, and moves the block counter forward by one; a body
/// that is an expression gets none and leaves the counters alone.
pub proof fn lemma_block_id_is_fresh(tokens: Seq<Token>, at: int, ids: IdCounters)
    ensures
        ExpressionOrBlock::parse(tokens, at, ids) matches Parsed::Accepted {
            value,
            ids: after,
            ..
        } ==> after.functions == ids.functions && match value {
            ExpressionOrBlockView::Block(_, id) => id.0 == (ids.blocks as u64) && after.blocks
                == ids.blocks + 1,
            ExpressionOrBlockView::Expression(_) => after.blocks == ids.blocks,
        },
{
    crate::block::Block::lemma_parse_consumes(tokens, at, ids);
    crate::expression::Expression::lemma_parse_consumes(tokens, at, ids);
}

/// No two bodies that are parsed as blocks in one pass get the same block
/// identifier. The first parse leaves the counters `between.0`; the second
/// starts later in the pass, with the counters `between.1`, before the
/// block counter leaves the range of the identifiers.
pub proof fn law_block_ids_differ(
    first: (Seq<Token>, int, IdCounters),
    between: (IdCounters, IdCounters),
    second: (Seq<Token>, int),
)
    requires
        ExpressionOrBlock::parse(first.0, first.1, first.2) matches Parsed::Accepted {
            ids: after,
            ..
        } && after == between.0,
        between.0.precedes(between.1),
        between.1.blocks <= u64::MAX,
        ExpressionOrBlock::parse(second.0, second.1, between.1) is Accepted,
    ensures
        ({
            let one = ExpressionOrBlock::block_id_of(
                ExpressionOrBlock::parse(first.0, first.1, first.2)->value,
            );
            let other = ExpressionOrBlock::block_id_of(
                ExpressionOrBlock::parse(second.0, second.1, between.1)->value,
            );
            one is Some && other is Some ==> one != other
        }),
{
    lemma_block_id_is_fresh(first.0, first.1, first.2);
    lemma_block_id_is_fresh(second.0, second.1, between.1);
}

/// The function identifier and the block identifier of one arrow function
/// come from the counters of its pass: the block identifier, where the
/// body is a block, is the one the pass was about to hand out, and the
/// function identifier is the one before the function counter it leaves.
pub proof fn law_arrow_function_ids(tokens: Seq<Token>, at: int, ids: IdCounters)
    requires
        0 <= at <= tokens.len(),
    ensures
        FunctionBase::<ArrowFunctionBase>::parse(tokens, at, ids) matches Parsed::Accepted {
            value,
            ids: after,
            ..
        } ==> {
            &&& after.functions == ids.functions + 1
            &&& value.function_id.0 == (ids.functions as u64)
            &&& match value.body {
                ExpressionOrBlockView::Block(_, id) => id.0 == (ids.blocks as u64)
                    && after.blocks == ids.blocks + 1,
                ExpressionOrBlockView::Expression(_) => after.blocks == ids.blocks,
            }
        },
{
    match ArrowFunctionBase::parse_header_and_name(tokens, at, ids) {
        Parsed::Accepted { value: (header, name), next, ids: headed } => {
            ArrowFunctionBase::lemma_parameters_advance(tokens, next, headed);
            match ArrowFunctionBase::parse_parameters(tokens, next, headed) {
                Parsed::Accepted { value: parameters, next, ids: listed } => {
                    match TypeReference::parse_annotation(tokens, next, listed) {
                        Parsed::Accepted { value: return_type, next, ids: typed } => {
                            TypeReference::lemma_type_parameters_advance(tokens, next, typed);
                            match TypeReference::parse_type_parameters(tokens, next, typed) {
                                Parsed::Accepted { value: type_parameters, next, ids: signed } => {
                                    match ArrowFunctionBase::parse_boundary(tokens, next, signed) {
                                        Parsed::Accepted { value: _, next, ids: bounded } => {
                                            lemma_block_id_is_fresh(tokens, next, bounded);
                                        },
                                        Parsed::Rejected { .. } => {},
                                    }
                                },
                                Parsed::Rejected { .. } => {},
                            }
                        },
                        Parsed::Rejected { .. } => {},
                    }
                },
                Parsed::Rejected { .. } => {},
            }
        },
        Parsed::Rejected { .. } => {},
    }
}

/// A rest parameter closes its list. Where the marker of a rest parameter
/// stands at `at`, whatever entries were read before it, the list is
/// accepted only with the closing parenthesis directly behind the rest
/// parameter; with anything else there, a comma and a further parameter
/// or a second rest parameter, it is refused, and the failure names the
/// token that stands in the place of the parenthesis.
pub proof fn law_rest_parameter_is_last(
    tokens: Seq<Token>,
    at: int,
    start: Span,
    parameters: Seq<Parameter>,
    optional_parameters: Seq<Parameter>,
    ids: IdCounters,
)
    requires
        kind_is(tokens, at, TokenKind::Spread),
    ensures
        match Parameter::parse_rest(tokens, at + 1, ids) {
            Parsed::Accepted { value: rest, next: behind, ids: after } => {
                if kind_is(tokens, behind, TokenKind::CloseParentheses) {
                    FunctionParameters::parse_entries(
                        tokens,
                        at,
                        start,
                        parameters,
                        optional_parameters,
                        ids,
                    ) == (Parsed::Accepted {
                        value: FunctionParametersView {
                            parameters,
                            optional_parameters,
                            rest_parameter: Some(rest),
                            position: start.spec_merge(tokens[behind].span),
                        },
                        next: behind + 1,
                        ids: after,
                    })
                } else {
                    FunctionParameters::parse_entries(
                        tokens,
                        at,
                        start,
                        parameters,
                        optional_parameters,
                        ids,
                    ) == (Parsed::<FunctionParametersView>::Rejected {
                        error: unexpected(tokens, behind, TokenKind::CloseParentheses),
                        place: behind,
                        counters: after,
                    })
                }
            },
            Parsed::Rejected { error, place, counters } => FunctionParameters::parse_entries(
                tokens,
                at,
                start,
                parameters,
                optional_parameters,
                ids,
            ) == (Parsed::<FunctionParametersView>::Rejected { error, place, counters }),
        },
{
}

/// In every list that is accepted, a rest parameter stands directly
/// before the closing parenthesis: the marker, the name, and the declared
/// type if there is one, are the last tokens before it. The list keeps
/// the entries that were read before `at`, in their order.
pub proof fn law_accepted_list_ends_with_rest(
    tokens: Seq<Token>,
    at: int,
    start: Span,
    parameters: Seq<Parameter>,
    optional_parameters: Seq<Parameter>,
    ids: IdCounters,
)
    ensures
        FunctionParameters::parse_entries(
            tokens,
            at,
            start,
            parameters,
            optional_parameters,
            ids,
        ) matches Parsed::Accepted { value, next, .. } ==> {
            &&& kind_is(tokens, next - 1, TokenKind::CloseParentheses)
            &&& parameters.is_prefix_of(value.parameters)
            &&& optional_parameters.is_prefix_of(value.optional_parameters)
            &&& value.rest_parameter matches Some(rest) ==> exists|marker: int|
                #![trigger Parameter::parse_rest(tokens, marker + 1, ids)]
                {
                    &&& at <= marker < next - 1
                    &&& kind_is(tokens, marker, TokenKind::Spread)
                    &&& Parameter::parse_rest(tokens, marker + 1, ids) matches Parsed::Accepted {
                        value: found,
                        next: behind,
                        ..
                    }
                    &&& found == rest
                    &&& behind == next - 1
                }
        },
    decreases tokens.len() - at,
{
    if kind_is(tokens, at, TokenKind::CloseParentheses) {
    } else if kind_is(tokens, at, TokenKind::Spread) {
        Parameter::lemma_entry_consumes(tokens, at + 1, ids);
        match Parameter::parse_rest(tokens, at + 1, ids) {
            Parsed::Accepted { value: rest, next: behind, ids: after } => {
                if kind_is(tokens, behind, TokenKind::CloseParentheses) {
                    assert(Parameter::parse_rest(tokens, at + 1, ids) is Accepted);
                }
            },
            Parsed::Rejected { .. } => {},
        }
    } else {
        Parameter::lemma_entry_consumes(tokens, at, ids);
        match Parameter::parse_entry(tokens, at, ids) {
            Parsed::Accepted { value: (parameter, optional), next, ids: after } => {
                if !optional && optional_parameters.len() > 0 {
                } else if kind_is(tokens, next, TokenKind::Comma) {
                    let more = if optional {
                        parameters
                    } else {
                        parameters.push(parameter)
                    };
                    let more_optional = if optional {
                        optional_parameters.push(parameter)
                    } else {
                        optional_parameters
                    };
                    law_accepted_list_ends_with_rest(
                        tokens,
                        next + 1,
                        start,
                        more,
                        more_optional,
                        after,
                    );
                    match FunctionParameters::parse_entries(
                        tokens,
                        next + 1,
                        start,
                        more,
                        more_optional,
                        after,
                    ) {
                        Parsed::Accepted { value, next: end, .. } => {
                            if value.rest_parameter is Some {
                                let marker = choose|marker: int|
                                    #![trigger Parameter::parse_rest(tokens, marker + 1, ids)]
                                    {
                                        &&& next + 1 <= marker < end - 1
                                        &&& kind_is(tokens, marker, TokenKind::Spread)
                                        &&& Parameter::parse_rest(
                                            tokens,
                                            marker + 1,
                                            ids,
                                        ) matches Parsed::Accepted { value: found, next: behind, .. }
                                        &&& Some(found) == value.rest_parameter
                                        &&& behind == end - 1
                                    };
                                assert(Parameter::parse_rest(tokens, marker + 1, ids) is Accepted);
                            }
                        },
                        Parsed::Rejected { .. } => {},
                    }
                }
            },
            Parsed::Rejected { .. } => {},
        }
    }
}

/// Every arrow function that a parse gives is well formed.
pub proof fn law_parse_is_well_formed(tokens: Seq<Token>, at: int, ids: IdCounters)
    ensures
        FunctionBase::<ArrowFunctionBase>::parse(tokens, at, ids) matches Parsed::Accepted {
            value,
            ..
        } ==> FunctionBase::<ArrowFunctionBase>::well_formed(value),
{
    match ArrowFunctionBase::parse_header_and_name(tokens, at, ids) {
        Parsed::Accepted { value: (header, name), next, ids: headed } => {
            if kind_is(tokens, next, TokenKind::OpenParentheses) {
                FunctionParameters::lemma_parse_is_well_formed(
                    tokens,
                    next + 1,
                    tokens[next].span,
                    (Seq::empty(), Seq::empty()),
                    headed,
                );
            }
            match ArrowFunctionBase::parse_parameters(tokens, next, headed) {
                Parsed::Accepted { value: parameters, next, ids: listed } => {
                    match TypeReference::parse_annotation(tokens, next, listed) {
                        Parsed::Accepted { value: return_type, next, ids: typed } => {
                            TypeReference::lemma_list_is_not_empty(
                                tokens,
                                next + 1,
                                Seq::empty(),
                                typed,
                            );
                        },
                        Parsed::Rejected { .. } => {},
                    }
                },
                Parsed::Rejected { .. } => {},
            }
        },
        Parsed::Rejected { .. } => {},
    }
}

/// The tokens that a well-formed arrow function is printed as are read
/// as an arrow function that is structurally equal to it, and all of
/// them are consumed. The tokens may stand anywhere in a stream, at any
/// positions, and the pass may have handed out any identifiers before.
/// Behind a body that is an expression no operator may follow: it would
/// be read as part of the body.
pub proof fn law_read_again(
    function: FunctionBaseView<ArrowFunctionBase>,
    tokens: Seq<Token>,
    at: int,
    ids: IdCounters,
)
    requires
        FunctionBase::<ArrowFunctionBase>::well_formed(function),
        spelled(tokens, at, FunctionBase::<ArrowFunctionBase>::token_kinds(function)),
        function.body is Expression ==> BinaryOperator::at(
            tokens,
            at + FunctionBase::<ArrowFunctionBase>::token_kinds(function).len(),
        ) is None,
    ensures
        FunctionBase::<ArrowFunctionBase>::parse(tokens, at, ids) matches Parsed::Accepted {
            value,
            next,
            ..
        } && next == at + FunctionBase::<ArrowFunctionBase>::token_kinds(function).len()
            && FunctionBase::<ArrowFunctionBase>::alike(value, function),
{
    let header = ArrowFunctionBase::header_kinds(function.header);
    let parameters = ArrowFunctionBase::parameters_kinds(function.parameters);
    let return_type = TypeReference::annotation_kinds(function.return_type);
    let type_parameters = TypeReference::type_parameters_kinds(function.type_parameters);
    let boundary = seq![TokenKind::Arrow];
    let body = ExpressionOrBlock::token_kinds(function.body);
    let whole = FunctionBase::<ArrowFunctionBase>::token_kinds(function);
    assert(whole == header + parameters + return_type + type_parameters + boundary + body);
    lemma_spelled_parts(
        tokens,
        at,
        header + parameters + return_type + type_parameters + boundary,
        body,
    );
    lemma_spelled_parts(tokens, at, header + parameters + return_type + type_parameters, boundary);
    lemma_spelled_parts(tokens, at, header + parameters + return_type, type_parameters);
    lemma_spelled_parts(tokens, at, header + parameters, return_type);
    lemma_spelled_parts(tokens, at, header, parameters);
    let listed = at + header.len();
    let typed = listed + parameters.len();
    let signed = typed + return_type.len();
    let bounded = signed + type_parameters.len();
    if header.len() > 0 {
        lemma_spelled_at(tokens, at, header, 0);
    }
    if ArrowFunctionBase::spec_uses_shorthand(function.parameters) {
    } else {
        FunctionParameters::lemma_tail_kinds_start(
            function.parameters.parameters,
            function.parameters.optional_parameters,
            function.parameters.rest_parameter,
        );
    }
    lemma_spelled_at(tokens, listed, parameters, 0);
    let found_parameters = ArrowFunctionBase::lemma_read_parameters(
        function.parameters,
        tokens,
        listed,
        ids,
    );
    if return_type.len() > 0 {
        lemma_spelled_at(tokens, typed, return_type, 0);
    }
    if type_parameters.len() > 0 {
        lemma_spelled_at(tokens, signed, type_parameters, 0);
    }
    lemma_spelled_at(tokens, bounded, boundary, 0);
    let found_return_type = TypeReference::lemma_read_annotation(
        function.return_type,
        tokens,
        typed,
        ids,
    );
    let found_type_parameters = TypeReference::lemma_read_type_parameters(
        function.type_parameters,
        tokens,
        signed,
        ids,
    );
    let found_body = ExpressionOrBlock::lemma_read_again(function.body, tokens, bounded + 1, ids);
}

/// Printing and parsing again gives back the tree. Where an arrow
/// function was parsed from any tokens, and a second stream holds the
/// tokens that it is printed as, whatever their positions, the second
/// stream is read as an arrow function that is structurally equal to the
/// first: the two differ in positions and identifiers only.
pub proof fn law_round_trip(
    source: (Seq<Token>, int, IdCounters),
    printed: (Seq<Token>, int, IdCounters),
)
    requires
        FunctionBase::<ArrowFunctionBase>::parse(source.0, source.1, source.2) is Accepted,
        ({
            let first = FunctionBase::<ArrowFunctionBase>::parse(
                source.0,
                source.1,
                source.2,
            )->value;
            let kinds = FunctionBase::<ArrowFunctionBase>::token_kinds(first);
            &&& spelled(printed.0, printed.1, kinds)
            &&& first.body is Expression ==> BinaryOperator::at(
                printed.0,
                printed.1 + kinds.len(),
            ) is None
        }),
    ensures
        FunctionBase::<ArrowFunctionBase>::parse(printed.0, printed.1, printed.2) is Accepted,
        FunctionBase::<ArrowFunctionBase>::alike(
            FunctionBase::<ArrowFunctionBase>::parse(printed.0, printed.1, printed.2)->value,
            FunctionBase::<ArrowFunctionBase>::parse(source.0, source.1, source.2)->value,
        ),
{
    law_parse_is_well_formed(source.0, source.1, source.2);
    let first = FunctionBase::<ArrowFunctionBase>::parse(source.0, source.1, source.2)->value;
    law_read_again(first, printed.0, printed.1, printed.2);
}

/// The entry point for a caller that has consumed one bare identifier
/// completes the function as the engine does. Where an identifier stands
/// at `at` and `=>` directly behind it, parsing the whole at `at` and
/// completing it behind the identifier give the same.
pub proof fn law_first_parameter_entry_agrees(tokens: Seq<Token>, at: int, ids: IdCounters)
    requires
        identifier_at(tokens, at) is Ok,
        kind_is(tokens, at + 1, TokenKind::Arrow),
    ensures
        FunctionBase::<ArrowFunctionBase>::parse(tokens, at, ids) == FunctionBase::<
            ArrowFunctionBase,
        >::parse_with_first_parameter(tokens, at + 1, ids, identifier_at(tokens, at)->Ok_0),
{
}

/// The entry point for a caller that has consumed the opening parenthesis,
/// and the marker `async` before it if one stood there, completes the
/// function as the engine does, but that it reads no type parameters.
/// Where no opening chevron stands behind the parameters and the return
/// type, parsing the whole and completing it behind the parenthesis
/// give the same.
pub proof fn law_open_paren_entry_agrees(tokens: Seq<Token>, at: int, ids: IdCounters)
    requires
        0 <= at,
        kind_is(
            tokens,
            if kind_is(tokens, at, TokenKind::Async) {
                at + 1
            } else {
                at
            },
            TokenKind::OpenParentheses,
        ),
        ({
            let open = if kind_is(tokens, at, TokenKind::Async) {
                at + 1
            } else {
                at
            };
            FunctionParameters::parse_entries(
                tokens,
                open + 1,
                tokens[open].span,
                Seq::empty(),
                Seq::empty(),
                ids,
            ) matches Parsed::Accepted { next, ids: listed, .. }
                ==> TypeReference::parse_annotation(tokens, next, listed) matches Parsed::Accepted {
                next: typed,
                ..
            } ==> !kind_is(tokens, typed, TokenKind::OpenChevron)
        }),
    ensures
        ({
            let marked = kind_is(tokens, at, TokenKind::Async);
            let open = if marked {
                at + 1
            } else {
                at
            };
            FunctionBase::<ArrowFunctionBase>::parse(tokens, at, ids) == FunctionBase::<
                ArrowFunctionBase,
            >::parse_sub_open_paren(
                tokens,
                open + 1,
                ids,
                if marked {
                    Some(Keyword { position: tokens[at].span })
                } else {
                    None
                },
                tokens[open].span,
            )
        }),
{
}

/// The print of an arrow function is the text of its tokens, one behind
/// the other, and white space: the tokens that `token_kinds` names are
/// all that is printed, in their order.
pub proof fn law_print_spells_tokens(
    function: FunctionBaseView<ArrowFunctionBase>,
    settings: ToStringSettings,
    depth: u8,
)
    ensures
        same_but_for_blanks(
            FunctionBase::<ArrowFunctionBase>::text_of(function, settings, depth),
            tokens_text(FunctionBase::<ArrowFunctionBase>::token_kinds(function)),
        ),
{
    lemma_printed_literals();
    let header = ArrowFunctionBase::header_kinds(function.header);
    let parameters = ArrowFunctionBase::parameters_kinds(function.parameters);
    let return_type = TypeReference::annotation_kinds(function.return_type);
    let type_parameters = TypeReference::type_parameters_kinds(function.type_parameters);
    let boundary = seq![TokenKind::Arrow];
    let body = ExpressionOrBlock::token_kinds(function.body);
    lemma_tokens_text_joined(
        header + parameters + return_type + type_parameters + boundary,
        body,
    );
    lemma_tokens_text_joined(header + parameters + return_type + type_parameters, boundary);
    lemma_tokens_text_joined(header + parameters + return_type, type_parameters);
    lemma_tokens_text_joined(header + parameters, return_type);
    lemma_tokens_text_joined(header, parameters);
    lemma_tokens_text_one(TokenKind::Async);
    lemma_tokens_text_one(TokenKind::Arrow);
    if ArrowFunctionBase::spec_uses_shorthand(function.parameters) {
        lemma_tokens_text_one(TokenKind::Identifier(function.parameters.parameters[0].name.name));
    } else {
        FunctionParameters::lemma_spelling(function.parameters, settings, depth);
    }
    TypeReference::lemma_annotation_spelling(function.return_type, settings, depth);
    TypeReference::lemma_type_parameters_spelling(function.type_parameters, settings, depth);
    ExpressionOrBlock::lemma_spelling(function.body, settings, depth);
    let header_text = ArrowFunctionBase::header_and_name_text(
        function.header,
        function.name,
        settings,
        depth,
    );
    let parameters_text = ArrowFunctionBase::parameters_text(function.parameters, settings, depth);
    let return_type_text = TypeReference::annotation_text(function.return_type, settings, depth);
    let type_parameters_text = TypeReference::type_parameters_text(
        function.type_parameters,
        settings,
        depth,
    );
    let boundary_text = ArrowFunctionBase::boundary_text(settings);
    let body_text = ExpressionOrBlock::text_of(function.body, settings, depth);
    lemma_same_joined_three(
        (header_text, parameters_text, return_type_text),
        (tokens_text(header), tokens_text(parameters), tokens_text(return_type)),
    );
    lemma_same_joined_three(
        (type_parameters_text, boundary_text, body_text),
        (tokens_text(type_parameters), tokens_text(boundary), tokens_text(body)),
    );
    lemma_same_joined(
        header_text + parameters_text + return_type_text,
        type_parameters_text + boundary_text + body_text,
        tokens_text(header) + tokens_text(parameters) + tokens_text(return_type),
        tokens_text(type_parameters) + tokens_text(boundary) + tokens_text(body),
    );
    assert(header_text + parameters_text + return_type_text + (type_parameters_text
        + boundary_text + body_text) == header_text + parameters_text + return_type_text
        + type_parameters_text + boundary_text + body_text);
    assert(tokens_text(header) + tokens_text(parameters) + tokens_text(return_type) + (tokens_text(
        type_parameters,
    ) + tokens_text(boundary) + tokens_text(body)) == tokens_text(header) + tokens_text(
        parameters,
    ) + tokens_text(return_type) + tokens_text(type_parameters) + tokens_text(boundary)
        + tokens_text(body));
}

/// The position of an arrow function is the range of the tokens it was
/// built from: it starts where the first of them starts, the marker
/// `async` if there is one, and ends where the last of them ends. This
/// holds of tokens that stand in their stream as a lexer leaves them.
pub proof fn law_position_is_the_range_consumed(tokens: Seq<Token>, at: int, ids: IdCounters)
    requires
        in_order(tokens),
        0 <= at,
    ensures
        FunctionBase::<ArrowFunctionBase>::parse(tokens, at, ids) matches Parsed::Accepted {
            value,
            next,
            ..
        } ==> at < next <= tokens.len() && FunctionBase::<ArrowFunctionBase>::position_of(value)
            == range(tokens, at, next),
{
    match ArrowFunctionBase::parse_header_and_name(tokens, at, ids) {
        Parsed::Accepted { value: (header, name), next: listed, ids: headed } => {
            ArrowFunctionBase::lemma_parameters_position(tokens, listed, headed);
            match ArrowFunctionBase::parse_parameters(tokens, listed, headed) {
                Parsed::Accepted { value: parameters, next: typed, ids: after } => {
                    match TypeReference::parse_annotation(tokens, typed, after) {
                        Parsed::Accepted { value: return_type, next: signed, ids: after } => {
                            TypeReference::lemma_type_parameters_advance(tokens, signed, after);
                            match TypeReference::parse_type_parameters(tokens, signed, after) {
                                Parsed::Accepted {
                                    value: type_parameters,
                                    next: bounded,
                                    ids: after,
                                } => {
                                    match ArrowFunctionBase::parse_boundary(tokens, bounded, after) {
                                        Parsed::Accepted { value: _, next: opened, ids: after } => {
                                            ExpressionOrBlock::lemma_position(
                                                tokens,
                                                opened,
                                                after,
                                            );
                                            match ExpressionOrBlock::parse(tokens, opened, after) {
                                                Parsed::Accepted { value: body, next, .. } => {
                                                    lemma_ranges_merge(
                                                        tokens,
                                                        (listed, typed),
                                                        (opened, next),
                                                    );
                                                    if header is Some {
                                                        lemma_range_of_one(tokens, at);
                                                        lemma_ranges_merge(
                                                            tokens,
                                                            (at, at + 1),
                                                            (listed, next),
                                                        );
                                                    }
                                                },
                                                Parsed::Rejected { .. } => {},
                                            }
                                        },
                                        Parsed::Rejected { .. } => {},
                                    }
                                },
                                Parsed::Rejected { .. } => {},
                            }
                        },
                        Parsed::Rejected { .. } => {},
                    }
                },
                Parsed::Rejected { .. } => {},
            }
        },
        Parsed::Rejected { .. } => {},
    }
}

/// Arrow functions that are structurally equal are printed as the same
/// text: what is printed depends on no position and no identifier.
pub proof fn law_alike_functions_print_the_same(
    one: FunctionBaseView<ArrowFunctionBase>,
    other: FunctionBaseView<ArrowFunctionBase>,
    settings: ToStringSettings,
    depth: u8,
)
    requires
        FunctionBase::<ArrowFunctionBase>::alike(one, other),
    ensures
        FunctionBase::<ArrowFunctionBase>::text_of(one, settings, depth) == FunctionBase::<
            ArrowFunctionBase,
        >::text_of(other, settings, depth),
{
    FunctionParameters::lemma_alike_text(one.parameters, other.parameters, settings, depth);
    TypeReference::lemma_alike_type_parameters_text(
        one.type_parameters,
        other.type_parameters,
        settings,
        depth,
    );
    ExpressionOrBlock::lemma_alike_text(one.body, other.body, settings, depth);
}

/// Printing is stable: what was parsed from the print of a parsed arrow
/// function is printed as the same text again.
pub proof fn law_print_is_stable(
    source: (Seq<Token>, int, IdCounters),
    printed: (Seq<Token>, int, IdCounters),
    settings: ToStringSettings,
    depth: u8,
)
    requires
        FunctionBase::<ArrowFunctionBase>::parse(source.0, source.1, source.2) is Accepted,
        ({
            let first = FunctionBase::<ArrowFunctionBase>::parse(
                source.0,
                source.1,
                source.2,
            )->value;
            let kinds = FunctionBase::<ArrowFunctionBase>::token_kinds(first);
            &&& spelled(printed.0, printed.1, kinds)
            &&& first.body is Expression ==> BinaryOperator::at(
                printed.0,
                printed.1 + kinds.len(),
            ) is None
        }),
    ensures
        FunctionBase::<ArrowFunctionBase>::parse(printed.0, printed.1, printed.2) is Accepted,
        FunctionBase::<ArrowFunctionBase>::text_of(
            FunctionBase::<ArrowFunctionBase>::parse(printed.0, printed.1, printed.2)->value,
            settings,
            depth,
        ) == FunctionBase::<ArrowFunctionBase>::text_of(
            FunctionBase::<ArrowFunctionBase>::parse(source.0, source.1, source.2)->value,
            settings,
            depth,
        ),
{
    law_round_trip(source, printed);
    law_alike_functions_print_the_same(
        FunctionBase::<ArrowFunctionBase>::parse(printed.0, printed.1, printed.2)->value,
        FunctionBase::<ArrowFunctionBase>::parse(source.0, source.1, source.2)->value,
        settings,
        depth,
    );
}

/// The pretty print and the shortest print of an arrow function, at any
/// depths, differ in their white space only.
pub proof fn law_modes_differ_in_white_space(
    function: FunctionBaseView<ArrowFunctionBase>,
    depth: (u8, u8),
)
    ensures
        same_but_for_blanks(
            FunctionBase::<ArrowFunctionBase>::text_of(
                function,
                ToStringSettings { pretty: true },
                depth.0,
            ),
            FunctionBase::<ArrowFunctionBase>::text_of(
                function,
                ToStringSettings { pretty: false },
                depth.1,
            ),
        ),
{
    law_print_spells_tokens(function, ToStringSettings { pretty: true }, depth.0);
    law_print_spells_tokens(function, ToStringSettings { pretty: false }, depth.1);
}

/// A parse that fails stops at the token it could not accept: it has
/// consumed the tokens before it and no other, its error names that
/// token, or the end of the input where the stream is exhausted or closed
/// there, and the position of the error is the place in the source where
/// the parse stopped.
pub proof fn law_a_failed_parse_stops_in_place(tokens: Seq<Token>, at: int, ids: IdCounters)
    requires
        0 <= at <= tokens.len(),
    ensures
        FunctionBase::<ArrowFunctionBase>::parse(tokens, at, ids) matches Parsed::Rejected {
            error,
            place,
            ..
        } ==> {
            &&& at <= place <= tokens.len()
            &&& stopped_at(tokens, error, place)
            &&& error.spec_position() == match token_at(tokens, place) {
                Some(token) => token.span,
                None => end_position(tokens),
            }
        },
{
    match ArrowFunctionBase::parse_header_and_name(tokens, at, ids) {
        Parsed::Accepted { value: (header, name), next: listed, ids: headed } => {
            ArrowFunctionBase::lemma_parameters_advance(tokens, listed, headed);
            if listed + 1 <= tokens.len() {
                FunctionParameters::lemma_entries_fail_in_place(
                    tokens,
                    listed + 1,
                    tokens[listed].span,
                    (Seq::empty(), Seq::empty()),
                    headed,
                );
            }
            match ArrowFunctionBase::parse_parameters(tokens, listed, headed) {
                Parsed::Accepted { value: parameters, next: typed, ids: after } => {
                    TypeReference::lemma_fails_in_place(tokens, typed, after);
                    match TypeReference::parse_annotation(tokens, typed, after) {
                        Parsed::Accepted { value: return_type, next: signed, ids: after } => {
                            TypeReference::lemma_type_parameters_advance(tokens, signed, after);
                            TypeReference::lemma_fails_in_place(tokens, signed, after);
                            match TypeReference::parse_type_parameters(tokens, signed, after) {
                                Parsed::Accepted {
                                    value: type_parameters,
                                    next: bounded,
                                    ids: after,
                                } => {
                                    if bounded + 1 <= tokens.len() {
                                        ExpressionOrBlock::lemma_fails_in_place(
                                            tokens,
                                            bounded + 1,
                                            after,
                                        );
                                    }
                                },
                                Parsed::Rejected { .. } => {},
                            }
                        },
                        Parsed::Rejected { .. } => {},
                    }
                },
                Parsed::Rejected { .. } => {},
            }
        },
        Parsed::Rejected { .. } => {},
    }
}

} // verus!
