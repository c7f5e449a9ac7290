use arrow_parser::arrow::{ArrowFunction, ExpressionOrBlock};
use arrow_parser::block::Statement;
use arrow_parser::errors::{Expected, ParseError};
use arrow_parser::expression::{BinaryOperator, Expression, Operand};
use arrow_parser::functions::Keyword;
use arrow_parser::node::ASTNode;
use arrow_parser::span::Span;
use arrow_parser::state::{BlockId, FunctionId, ParseSettings, ParsingState, ToStringSettings};
use arrow_parser::tokens::{Token, TokenKind, TokenReader};
use arrow_parser::types::TypeReference;

fn span(start: u32, end: u32) -> Span {
    Span::new(0, start, end).unwrap()
}

fn token(kind: TokenKind, start: u32, end: u32) -> Token {
    Token { kind, span: span(start, end) }
}

fn identifier(name: &str, start: u32, end: u32) -> Token {
    token(TokenKind::Identifier(name.to_string()), start, end)
}

fn parse(tokens: Vec<Token>) -> Result<ArrowFunction, ParseError> {
    let mut reader = TokenReader::new(tokens);
    let mut state = ParsingState::new();
    ArrowFunction::from_reader(&mut reader, &mut state, &ParseSettings::default())
}

fn print(function: &ArrowFunction, settings: ToStringSettings) -> String {
    let mut buf = String::new();
    function.to_string_from_buffer(&mut buf, &settings, 0);
    buf
}

fn variable(name: &str, start: u32, end: u32) -> Operand {
    Operand::VariableReference(name.to_string(), span(start, end))
}

/// `x => x`
fn identity_tokens() -> Vec<Token> {
    vec![
        identifier("x", 0, 1),
        token(TokenKind::Arrow, 2, 4),
        identifier("x", 5, 6),
        token(TokenKind::EndOfSource, 6, 6),
    ]
}

/// `async (a, b) => { return a + b; }`
fn async_sum_tokens() -> Vec<Token> {
    vec![
        token(TokenKind::Async, 0, 5),
        token(TokenKind::OpenParentheses, 6, 7),
        identifier("a", 7, 8),
        token(TokenKind::Comma, 8, 9),
        identifier("b", 10, 11),
        token(TokenKind::CloseParentheses, 11, 12),
        token(TokenKind::Arrow, 13, 15),
        token(TokenKind::OpenBrace, 16, 17),
        token(TokenKind::Return, 18, 24),
        identifier("a", 25, 26),
        token(TokenKind::Add, 27, 28),
        identifier("b", 29, 30),
        token(TokenKind::Semicolon, 30, 31),
        token(TokenKind::CloseBrace, 32, 33),
        token(TokenKind::EndOfSource, 33, 33),
    ]
}

#[test]
fn bare_parameter_with_expression_body() {
    let function = parse(identity_tokens()).unwrap();
    assert_eq!(function.header, None);
    assert_eq!(function.parameters.parameters.len(), 1);
    assert_eq!(function.parameters.parameters[0].name.name, "x");
    assert_eq!(function.parameters.parameters[0].name.position, span(0, 1));
    assert_eq!(function.parameters.parameters[0].type_reference, None);
    assert_eq!(function.parameters.parameters[0].default, None);
    assert!(function.parameters.optional_parameters.is_empty());
    assert_eq!(function.parameters.rest_parameter, None);
    assert_eq!(function.return_type, None);
    assert_eq!(function.type_parameters, None);
    assert_eq!(
        function.body,
        ExpressionOrBlock::Expression(Box::new(Expression::Operand(variable("x", 5, 6))))
    );
    assert_eq!(function.function_id, FunctionId(0));
    assert_eq!(function.get_position(), span(0, 6));
}

#[test]
fn bare_parameter_prints_pretty_and_compact() {
    let function = parse(identity_tokens()).unwrap();
    assert_eq!(print(&function, ToStringSettings::pretty()), "x => x");
    assert_eq!(print(&function, ToStringSettings::minified()), "x=>x");
}

#[test]
fn async_function_with_block_body() {
    let function = parse(async_sum_tokens()).unwrap();
    assert_eq!(function.header, Some(Keyword { position: span(0, 5) }));
    assert_eq!(function.parameters.parameters.len(), 2);
    assert_eq!(function.parameters.parameters[0].name.name, "a");
    assert_eq!(function.parameters.parameters[1].name.name, "b");
    assert_eq!(function.parameters.position, span(6, 12));
    match &function.body {
        ExpressionOrBlock::Block(block, id) => {
            assert_eq!(*id, BlockId(0));
            assert_eq!(block.position, span(16, 33));
            assert_eq!(block.statements.len(), 1);
            assert_eq!(
                block.statements[0],
                Statement::Return {
                    value: Some(Expression::BinaryOperation {
                        lhs: Box::new(Expression::Operand(variable("a", 25, 26))),
                        operator: BinaryOperator::Add,
                        rhs: variable("b", 29, 30),
                    }),
                    position: span(18, 31),
                }
            );
        }
        other => panic!("not a block: {:?}", other),
    }
    let pretty = print(&function, ToStringSettings::pretty());
    assert!(pretty.starts_with("async "));
    assert_eq!(pretty, "async (a, b) => {\n\treturn a + b;\n}");
    assert_eq!(print(&function, ToStringSettings::minified()), "async (a,b)=>{return a+b;}");
}

#[test]
fn missing_body_is_end_of_input() {
    let tokens = vec![
        identifier("x", 0, 1),
        token(TokenKind::Arrow, 2, 4),
        token(TokenKind::EndOfSource, 4, 4),
    ];
    assert_eq!(parse(tokens), Err(ParseError::UnexpectedEndOfInput { position: span(4, 4) }));
}

#[test]
fn missing_close_parenthesis_reports_what_follows() {
    let tokens = vec![
        token(TokenKind::OpenParentheses, 0, 1),
        identifier("a", 1, 2),
        token(TokenKind::Comma, 2, 3),
        identifier("b", 4, 5),
        token(TokenKind::EndOfSource, 5, 5),
    ];
    let error = parse(tokens).unwrap_err();
    assert_eq!(
        error,
        ParseError::UnexpectedToken {
            expected: Expected::Token(TokenKind::CloseParentheses),
            found: token(TokenKind::EndOfSource, 5, 5),
        }
    );
    assert_eq!(error.position(), span(5, 5));
}

#[test]
fn empty_list_with_return_type_and_string_body() {
    // `(): string => "hi"`
    let tokens = vec![
        token(TokenKind::OpenParentheses, 0, 1),
        token(TokenKind::CloseParentheses, 1, 2),
        token(TokenKind::Colon, 2, 3),
        identifier("string", 4, 10),
        token(TokenKind::Arrow, 11, 13),
        token(TokenKind::StringLiteral("hi".to_string()), 14, 18),
        token(TokenKind::EndOfSource, 18, 18),
    ];
    let function = parse(tokens).unwrap();
    assert_eq!(function.header, None);
    assert!(function.parameters.parameters.is_empty());
    assert!(function.parameters.optional_parameters.is_empty());
    assert_eq!(function.parameters.rest_parameter, None);
    assert_eq!(function.parameters.position, span(0, 2));
    assert_eq!(
        function.return_type,
        Some(TypeReference { name: "string".to_string(), position: span(4, 10) })
    );
    assert_eq!(
        function.body,
        ExpressionOrBlock::Expression(Box::new(Expression::Operand(Operand::StringLiteral(
            "hi".to_string(),
            span(14, 18)
        ))))
    );
    assert_eq!(function.get_position(), span(0, 18));
    assert_eq!(print(&function, ToStringSettings::pretty()), "(): string => \"hi\"");
    assert_eq!(print(&function, ToStringSettings::minified()), "():string=>\"hi\"");
}

#[test]
fn missing_body_in_an_exhausted_stream() {
    let tokens = vec![identifier("x", 0, 1), token(TokenKind::Arrow, 2, 4)];
    assert_eq!(parse(tokens), Err(ParseError::UnexpectedEndOfInput { position: span(4, 4) }));
}

#[test]
fn nothing_to_parse() {
    assert_eq!(parse(vec![]), Err(ParseError::UnexpectedEndOfInput { position: span(0, 0) }));
    assert_eq!(
        parse(vec![token(TokenKind::EndOfSource, 0, 0)]),
        Err(ParseError::UnexpectedEndOfInput { position: span(0, 0) })
    );
}

#[test]
fn missing_arrow_is_an_unexpected_token() {
    // `(a) a`
    let tokens = vec![
        token(TokenKind::OpenParentheses, 0, 1),
        identifier("a", 1, 2),
        token(TokenKind::CloseParentheses, 2, 3),
        identifier("a", 4, 5),
        token(TokenKind::EndOfSource, 5, 5),
    ];
    assert_eq!(
        parse(tokens),
        Err(ParseError::UnexpectedToken {
            expected: Expected::Token(TokenKind::Arrow),
            found: identifier("a", 4, 5),
        })
    );
}

#[test]
fn a_punctuation_in_place_of_the_body() {
    // `x => ,`
    let tokens = vec![
        identifier("x", 0, 1),
        token(TokenKind::Arrow, 2, 4),
        token(TokenKind::Comma, 5, 6),
        token(TokenKind::EndOfSource, 6, 6),
    ];
    assert_eq!(
        parse(tokens),
        Err(ParseError::UnexpectedToken {
            expected: Expected::Expression,
            found: token(TokenKind::Comma, 5, 6),
        })
    );
}

#[test]
fn a_punctuation_in_place_of_the_parameters() {
    let tokens = vec![token(TokenKind::Arrow, 0, 2), token(TokenKind::EndOfSource, 2, 2)];
    assert_eq!(
        parse(tokens),
        Err(ParseError::UnexpectedToken {
            expected: Expected::Identifier,
            found: token(TokenKind::Arrow, 0, 2),
        })
    );
}

#[test]
fn parsing_stops_behind_the_body() {
    let mut tokens = identity_tokens();
    tokens.pop();
    tokens.push(token(TokenKind::Semicolon, 6, 7));
    tokens.push(identifier("y", 8, 9));
    let mut reader = TokenReader::new(tokens);
    let mut state = ParsingState::new();
    let function =
        ArrowFunction::from_reader(&mut reader, &mut state, &ParseSettings::default()).unwrap();
    assert_eq!(function.get_position(), span(0, 6));
    assert_eq!(reader.count_remaining(), 2);
    assert_eq!(reader.peek(), Some(&token(TokenKind::Semicolon, 6, 7)));
}

#[test]
fn operations_are_read_from_left_to_right() {
    // `x => x - 1 + "a"`
    let tokens = vec![
        identifier("x", 0, 1),
        token(TokenKind::Arrow, 2, 4),
        identifier("x", 5, 6),
        token(TokenKind::Subtract, 7, 8),
        token(TokenKind::NumberLiteral("1".to_string()), 9, 10),
        token(TokenKind::Add, 11, 12),
        token(TokenKind::StringLiteral("a".to_string()), 13, 16),
        token(TokenKind::EndOfSource, 16, 16),
    ];
    let function = parse(tokens).unwrap();
    let expected = Expression::BinaryOperation {
        lhs: Box::new(Expression::BinaryOperation {
            lhs: Box::new(Expression::Operand(variable("x", 5, 6))),
            operator: BinaryOperator::Subtract,
            rhs: Operand::NumberLiteral("1".to_string(), span(9, 10)),
        }),
        operator: BinaryOperator::Add,
        rhs: Operand::StringLiteral("a".to_string(), span(13, 16)),
    };
    assert_eq!(function.body, ExpressionOrBlock::Expression(Box::new(expected.clone())));
    assert_eq!(expected.get_position(), span(5, 16));
    assert_eq!(print(&function, ToStringSettings::pretty()), "x => x - 1 + \"a\"");
    assert_eq!(print(&function, ToStringSettings::minified()), "x=>x-1+\"a\"");
}

#[test]
fn a_failed_parse_stops_at_the_token_it_could_not_accept() {
    // `(a, b => a`
    let tokens = vec![
        token(TokenKind::OpenParentheses, 0, 1),
        identifier("a", 1, 2),
        token(TokenKind::Comma, 2, 3),
        identifier("b", 4, 5),
        token(TokenKind::Arrow, 6, 8),
        identifier("a", 9, 10),
        token(TokenKind::EndOfSource, 10, 10),
    ];
    let mut reader = TokenReader::new(tokens);
    let mut state = ParsingState::new();
    let error = ArrowFunction::from_reader(&mut reader, &mut state, &ParseSettings::default())
        .unwrap_err();
    assert_eq!(
        error,
        ParseError::UnexpectedToken {
            expected: Expected::Token(TokenKind::CloseParentheses),
            found: token(TokenKind::Arrow, 6, 8),
        }
    );
    assert_eq!(error.position(), span(6, 8));
    assert_eq!(reader.peek(), Some(&token(TokenKind::Arrow, 6, 8)));
    assert_eq!(reader.count_remaining(), 3);
    assert_eq!(state.new_function_id(), FunctionId(0));
    assert_eq!(state.new_block_id(), BlockId(0));
}
