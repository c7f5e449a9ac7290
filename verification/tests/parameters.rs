use arrow_parser::arrow::{ArrowFunction, ArrowFunctionBase};
use arrow_parser::errors::{Expected, ParseError};
use arrow_parser::expression::{BinaryOperator, Expression, Operand};
use arrow_parser::functions::FunctionBased;
use arrow_parser::node::ASTNode;
use arrow_parser::parameters::{
    FunctionParameters, Parameter, ParameterRole, VariableIdentifier,
};
use arrow_parser::span::Span;
use arrow_parser::state::{ParseSettings, ParsingState, ToStringSettings};
use arrow_parser::tokens::{Token, TokenKind, TokenReader};
use arrow_parser::types::TypeReference;

fn span(start: u32, end: u32) -> Span {
    Span::new(0, start, end).unwrap()
}

fn token(kind: TokenKind, start: u32, end: u32) -> Token {
    Token { kind, span: span(start, end) }
}

fn identifier(name: &str, start: u32, end: u32) -> Token {
    token(TokenKind::Identifier(name.to_string()), start, end)
}

/// Tokens one column wide, one behind the other, with the end of the source behind them.
fn in_a_row(kinds: Vec<TokenKind>) -> Vec<Token> {
    let mut tokens = Vec::new();
    let mut at = 0;
    for kind in kinds {
        tokens.push(token(kind, at, at + 1));
        at += 1;
    }
    tokens.push(token(TokenKind::EndOfSource, at, at));
    tokens
}

fn name(name: &str) -> TokenKind {
    TokenKind::Identifier(name.to_string())
}

fn parse_list(kinds: Vec<TokenKind>) -> Result<FunctionParameters, ParseError> {
    let mut reader = TokenReader::new(in_a_row(kinds));
    let mut state = ParsingState::new();
    FunctionParameters::from_reader(&mut reader, &mut state, &ParseSettings::default())
}

fn plain(name: &str, at: u32) -> Parameter {
    Parameter {
        name: VariableIdentifier { name: name.to_string(), position: span(at, at + 1) },
        type_reference: None,
        default: None,
    }
}

fn typed(name: &str, at: u32, declared: &str, declared_at: u32) -> Parameter {
    Parameter {
        name: VariableIdentifier { name: name.to_string(), position: span(at, at + 1) },
        type_reference: Some(TypeReference {
            name: declared.to_string(),
            position: span(declared_at, declared_at + 1),
        }),
        default: None,
    }
}

fn list_text(parameters: &FunctionParameters, settings: ToStringSettings) -> String {
    let mut buf = String::new();
    parameters.to_string_from_buffer(&mut buf, &settings, 0);
    buf
}

fn arrow_text(parameters: &FunctionParameters, settings: ToStringSettings) -> String {
    let mut buf = String::new();
    ArrowFunctionBase::parameters_to_string_from_buffer(&mut buf, parameters, &settings, 0);
    buf
}

#[test]
fn an_empty_list() {
    let list = parse_list(vec![TokenKind::OpenParentheses, TokenKind::CloseParentheses]).unwrap();
    assert!(list.parameters.is_empty());
    assert!(list.optional_parameters.is_empty());
    assert_eq!(list.rest_parameter, None);
    assert_eq!(list.position, span(0, 2));
    assert_eq!(list.get_position(), span(0, 2));
    assert_eq!(list_text(&list, ToStringSettings::pretty()), "()");
    assert_eq!(arrow_text(&list, ToStringSettings::pretty()), "()");
}

#[test]
fn required_optional_and_rest_parameters() {
    // `(a, b: T, c?, d?: U, e = x + y, ...f: V)`
    let list = parse_list(vec![
        TokenKind::OpenParentheses,
        name("a"),
        TokenKind::Comma,
        name("b"),
        TokenKind::Colon,
        name("T"),
        TokenKind::Comma,
        name("c"),
        TokenKind::QuestionMark,
        TokenKind::Comma,
        name("d"),
        TokenKind::QuestionMark,
        TokenKind::Colon,
        name("U"),
        TokenKind::Comma,
        name("e"),
        TokenKind::Assign,
        name("x"),
        TokenKind::Add,
        name("y"),
        TokenKind::Comma,
        TokenKind::Spread,
        name("f"),
        TokenKind::Colon,
        name("V"),
        TokenKind::CloseParentheses,
    ])
    .unwrap();
    assert_eq!(list.parameters, vec![plain("a", 1), typed("b", 3, "T", 5)]);
    assert_eq!(
        list.optional_parameters,
        vec![
            plain("c", 7),
            typed("d", 10, "U", 13),
            Parameter {
                name: VariableIdentifier { name: "e".to_string(), position: span(15, 16) },
                type_reference: None,
                default: Some(Expression::BinaryOperation {
                    lhs: Box::new(Expression::Operand(Operand::VariableReference(
                        "x".to_string(),
                        span(17, 18)
                    ))),
                    operator: BinaryOperator::Add,
                    rhs: Operand::VariableReference("y".to_string(), span(19, 20)),
                }),
            },
        ]
    );
    assert_eq!(list.rest_parameter, Some(typed("f", 22, "V", 24)));
    assert_eq!(list.position, span(0, 26));
    assert_eq!(
        list_text(&list, ToStringSettings::pretty()),
        "(a, b: T, c?, d?: U, e = x + y, ...f: V)"
    );
    assert_eq!(
        list_text(&list, ToStringSettings::minified()),
        "(a,b:T,c?,d?:U,e=x+y,...f:V)"
    );
}

#[test]
fn a_trailing_comma_is_accepted() {
    let list = parse_list(vec![
        TokenKind::OpenParentheses,
        name("a"),
        TokenKind::Comma,
        TokenKind::CloseParentheses,
    ])
    .unwrap();
    assert_eq!(list.parameters, vec![plain("a", 1)]);
    assert_eq!(list.position, span(0, 4));
    assert_eq!(list_text(&list, ToStringSettings::pretty()), "(a)");
}

#[test]
fn a_parameter_behind_the_rest_parameter_is_refused() {
    // `(...a, b)`
    let result = parse_list(vec![
        TokenKind::OpenParentheses,
        TokenKind::Spread,
        name("a"),
        TokenKind::Comma,
        name("b"),
        TokenKind::CloseParentheses,
    ]);
    assert_eq!(
        result,
        Err(ParseError::UnexpectedToken {
            expected: Expected::Token(TokenKind::CloseParentheses),
            found: token(TokenKind::Comma, 3, 4),
        })
    );
}

#[test]
fn a_second_rest_parameter_is_refused() {
    // `(...a, ...b)` and `(...a ...b)`
    let result = parse_list(vec![
        TokenKind::OpenParentheses,
        TokenKind::Spread,
        name("a"),
        TokenKind::Comma,
        TokenKind::Spread,
        name("b"),
        TokenKind::CloseParentheses,
    ]);
    assert_eq!(
        result,
        Err(ParseError::UnexpectedToken {
            expected: Expected::Token(TokenKind::CloseParentheses),
            found: token(TokenKind::Comma, 3, 4),
        })
    );
    let result = parse_list(vec![
        TokenKind::OpenParentheses,
        TokenKind::Spread,
        name("a"),
        TokenKind::Spread,
        name("b"),
        TokenKind::CloseParentheses,
    ]);
    assert_eq!(
        result,
        Err(ParseError::UnexpectedToken {
            expected: Expected::Token(TokenKind::CloseParentheses),
            found: token(TokenKind::Spread, 3, 4),
        })
    );
}

#[test]
fn a_rest_parameter_alone_and_behind_others() {
    let list = parse_list(vec![
        TokenKind::OpenParentheses,
        TokenKind::Spread,
        name("all"),
        TokenKind::CloseParentheses,
    ])
    .unwrap();
    assert!(list.parameters.is_empty());
    assert_eq!(list.rest_parameter, Some(plain("all", 2)));
    assert_eq!(list_text(&list, ToStringSettings::pretty()), "(...all)");
    let list = parse_list(vec![
        TokenKind::OpenParentheses,
        name("a"),
        TokenKind::Comma,
        TokenKind::Spread,
        name("b"),
        TokenKind::CloseParentheses,
    ])
    .unwrap();
    assert_eq!(list.parameters, vec![plain("a", 1)]);
    assert_eq!(list.rest_parameter, Some(plain("b", 4)));
    assert_eq!(list_text(&list, ToStringSettings::minified()), "(a,...b)");
}

#[test]
fn a_rest_parameter_needs_a_name() {
    let result =
        parse_list(vec![TokenKind::OpenParentheses, TokenKind::Spread, TokenKind::CloseParentheses]);
    assert_eq!(
        result,
        Err(ParseError::UnexpectedToken {
            expected: Expected::Identifier,
            found: token(TokenKind::CloseParentheses, 2, 3),
        })
    );
}

#[test]
fn a_required_parameter_behind_an_optional_one_is_refused() {
    // `(a?, b)`
    let result = parse_list(vec![
        TokenKind::OpenParentheses,
        name("a"),
        TokenKind::QuestionMark,
        TokenKind::Comma,
        name("b"),
        TokenKind::CloseParentheses,
    ]);
    assert_eq!(
        result,
        Err(ParseError::UnexpectedToken {
            expected: Expected::Token(TokenKind::Assign),
            found: token(TokenKind::CloseParentheses, 5, 6),
        })
    );
}

#[test]
fn a_default_value_behind_the_optional_mark_is_refused() {
    // `(a? = b)`
    let result = parse_list(vec![
        TokenKind::OpenParentheses,
        name("a"),
        TokenKind::QuestionMark,
        TokenKind::Assign,
        name("b"),
        TokenKind::CloseParentheses,
    ]);
    assert_eq!(
        result,
        Err(ParseError::UnexpectedToken {
            expected: Expected::Token(TokenKind::CloseParentheses),
            found: token(TokenKind::Assign, 3, 4),
        })
    );
}

#[test]
fn a_list_must_open_and_close() {
    assert_eq!(
        parse_list(vec![name("a")]),
        Err(ParseError::UnexpectedToken {
            expected: Expected::Token(TokenKind::OpenParentheses),
            found: identifier("a", 0, 1),
        })
    );
    assert_eq!(
        parse_list(vec![TokenKind::OpenParentheses, name("a"), TokenKind::Comma]),
        Err(ParseError::UnexpectedEndOfInput { position: span(3, 3) })
    );
    assert_eq!(
        parse_list(vec![TokenKind::OpenParentheses, name("a"), TokenKind::Colon]),
        Err(ParseError::UnexpectedEndOfInput { position: span(3, 3) })
    );
    assert_eq!(
        parse_list(vec![TokenKind::OpenParentheses, name("a"), TokenKind::Assign, TokenKind::Comma]),
        Err(ParseError::UnexpectedToken {
            expected: Expected::Expression,
            found: token(TokenKind::Comma, 3, 4),
        })
    );
}

#[test]
fn the_caller_may_have_consumed_the_opening_parenthesis() {
    let mut reader = TokenReader::new(vec![
        identifier("a", 5, 6),
        token(TokenKind::CloseParentheses, 6, 7),
        token(TokenKind::Arrow, 8, 10),
    ]);
    let mut state = ParsingState::new();
    let list = FunctionParameters::from_reader_sub_open_parenthesis(
        &mut reader,
        &mut state,
        &ParseSettings::default(),
        span(2, 3),
    )
    .unwrap();
    assert_eq!(list.position, span(2, 7));
    assert_eq!(list.parameters.len(), 1);
    assert_eq!(reader.count_remaining(), 1);
}

#[test]
fn shorthand_only_for_one_plain_required_parameter() {
    let pretty = ToStringSettings::pretty();
    let one = parse_list(vec![TokenKind::OpenParentheses, name("x"), TokenKind::CloseParentheses])
        .unwrap();
    assert!(ArrowFunctionBase::uses_shorthand(&one));
    assert_eq!(arrow_text(&one, pretty), "x");
    assert_eq!(arrow_text(&one, ToStringSettings::minified()), "x");
    assert_eq!(list_text(&one, pretty), "(x)");

    let with_type = parse_list(vec![
        TokenKind::OpenParentheses,
        name("x"),
        TokenKind::Colon,
        name("T"),
        TokenKind::CloseParentheses,
    ])
    .unwrap();
    assert!(!ArrowFunctionBase::uses_shorthand(&with_type));
    assert_eq!(arrow_text(&with_type, pretty), "(x: T)");

    let optional = parse_list(vec![
        TokenKind::OpenParentheses,
        name("x"),
        TokenKind::QuestionMark,
        TokenKind::CloseParentheses,
    ])
    .unwrap();
    assert!(!ArrowFunctionBase::uses_shorthand(&optional));
    assert_eq!(arrow_text(&optional, pretty), "(x?)");

    let with_default = parse_list(vec![
        TokenKind::OpenParentheses,
        name("x"),
        TokenKind::Assign,
        name("y"),
        TokenKind::CloseParentheses,
    ])
    .unwrap();
    assert!(!ArrowFunctionBase::uses_shorthand(&with_default));
    assert_eq!(arrow_text(&with_default, pretty), "(x = y)");

    let rest = parse_list(vec![
        TokenKind::OpenParentheses,
        TokenKind::Spread,
        name("x"),
        TokenKind::CloseParentheses,
    ])
    .unwrap();
    assert!(!ArrowFunctionBase::uses_shorthand(&rest));
    assert_eq!(arrow_text(&rest, pretty), "(...x)");

    let with_rest = parse_list(vec![
        TokenKind::OpenParentheses,
        name("x"),
        TokenKind::Comma,
        TokenKind::Spread,
        name("y"),
        TokenKind::CloseParentheses,
    ])
    .unwrap();
    assert!(!ArrowFunctionBase::uses_shorthand(&with_rest));
    assert_eq!(arrow_text(&with_rest, pretty), "(x, ...y)");

    let two = parse_list(vec![
        TokenKind::OpenParentheses,
        name("x"),
        TokenKind::Comma,
        name("y"),
        TokenKind::CloseParentheses,
    ])
    .unwrap();
    assert!(!ArrowFunctionBase::uses_shorthand(&two));
    assert_eq!(arrow_text(&two, pretty), "(x, y)");

    let none = parse_list(vec![TokenKind::OpenParentheses, TokenKind::CloseParentheses]).unwrap();
    assert!(!ArrowFunctionBase::uses_shorthand(&none));
}

#[test]
fn a_parenthesised_single_parameter_is_printed_bare() {
    // `(x) => x`
    let tokens = in_a_row(vec![
        TokenKind::OpenParentheses,
        name("x"),
        TokenKind::CloseParentheses,
        TokenKind::Arrow,
        name("x"),
    ]);
    let mut reader = TokenReader::new(tokens);
    let mut state = ParsingState::new();
    let function =
        ArrowFunction::from_reader(&mut reader, &mut state, &ParseSettings::default()).unwrap();
    assert_eq!(function.parameters.position, span(0, 3));
    let mut buf = String::new();
    function.to_string_from_buffer(&mut buf, &ToStringSettings::pretty(), 0);
    assert_eq!(buf, "x => x");
}

#[test]
fn one_parameter_printed_in_each_role() {
    let parameter = typed("p", 0, "T", 2);
    let minified = ToStringSettings::minified();
    let mut buf = String::from("<");
    parameter.to_string_from_buffer(&mut buf, ParameterRole::Required, &minified, 0);
    assert_eq!(buf, "<p:T");
    let mut buf = String::new();
    parameter.to_string_from_buffer(&mut buf, ParameterRole::Optional, &minified, 0);
    assert_eq!(buf, "p?:T");
    let mut buf = String::new();
    parameter.to_string_from_buffer(&mut buf, ParameterRole::Rest, &ToStringSettings::pretty(), 0);
    assert_eq!(buf, "...p: T");
}

#[test]
fn the_single_parameter_of_a_bare_name() {
    let list = ArrowFunctionBase::single_parameter("x".to_string(), span(4, 5));
    assert_eq!(list.parameters, vec![plain("x", 4)]);
    assert!(list.optional_parameters.is_empty());
    assert_eq!(list.rest_parameter, None);
    assert_eq!(list.position, span(4, 5));
}
