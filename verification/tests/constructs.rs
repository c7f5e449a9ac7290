use arrow_parser::arrow::{ArrowFunction, ArrowFunctionBase, ExpressionOrBlock};
use arrow_parser::block::{deeper, Block, Statement};
use arrow_parser::buffer::push_indentation;
use arrow_parser::errors::{Expected, ParseError};
use arrow_parser::expression::{Expression, Operand};
use arrow_parser::functions::{ChainVariable, FunctionBased, Keyword};
use arrow_parser::node::ASTNode;
use arrow_parser::span::Span;
use arrow_parser::state::{BlockId, FunctionId, ParseSettings, ParsingState, ToStringSettings};
use arrow_parser::tokens::{Token, TokenKind, TokenReader};
use arrow_parser::types::TypeReference;

fn span(start: u32, end: u32) -> Span {
    Span::new(0, start, end).unwrap()
}

fn token(kind: TokenKind, start: u32, end: u32) -> Token {
    Token { kind, span: span(start, end) }
}

fn name(name: &str) -> TokenKind {
    TokenKind::Identifier(name.to_string())
}

/// Tokens one column wide, `gap` columns apart, with the end of the source behind them.
fn spaced(kinds: Vec<TokenKind>, gap: u32) -> Vec<Token> {
    let mut tokens = Vec::new();
    let mut at = 0;
    for kind in kinds {
        tokens.push(token(kind, at, at + 1));
        at += gap;
    }
    tokens.push(token(TokenKind::EndOfSource, at, at));
    tokens
}

fn parse(kinds: Vec<TokenKind>) -> Result<ArrowFunction, ParseError> {
    let mut reader = TokenReader::new(spaced(kinds, 1));
    let mut state = ParsingState::new();
    ArrowFunction::from_reader(&mut reader, &mut state, &ParseSettings::default())
}

fn print(function: &ArrowFunction, settings: ToStringSettings, depth: u8) -> String {
    let mut buf = String::new();
    function.to_string_from_buffer(&mut buf, &settings, depth);
    buf
}

/// `async (a, b?: T, ...c): R <U, V> => { a; return; return a + 1; }`
fn everything() -> Vec<TokenKind> {
    vec![
        TokenKind::Async,
        TokenKind::OpenParentheses,
        name("a"),
        TokenKind::Comma,
        name("b"),
        TokenKind::QuestionMark,
        TokenKind::Colon,
        name("T"),
        TokenKind::Comma,
        TokenKind::Spread,
        name("c"),
        TokenKind::CloseParentheses,
        TokenKind::Colon,
        name("R"),
        TokenKind::OpenChevron,
        name("U"),
        TokenKind::Comma,
        name("V"),
        TokenKind::CloseChevron,
        TokenKind::Arrow,
        TokenKind::OpenBrace,
        name("a"),
        TokenKind::Semicolon,
        TokenKind::Return,
        TokenKind::Semicolon,
        TokenKind::Return,
        name("a"),
        TokenKind::Add,
        TokenKind::NumberLiteral("1".to_string()),
        TokenKind::Semicolon,
        TokenKind::CloseBrace,
    ]
}

#[test]
fn every_part_of_a_function() {
    let function = parse(everything()).unwrap();
    assert_eq!(function.header, Some(Keyword { position: span(0, 1) }));
    assert_eq!(function.name, ());
    assert_eq!(function.parameters.parameters.len(), 1);
    assert_eq!(function.parameters.optional_parameters.len(), 1);
    assert!(function.parameters.rest_parameter.is_some());
    assert_eq!(
        function.return_type,
        Some(TypeReference { name: "R".to_string(), position: span(13, 14) })
    );
    assert_eq!(
        function.type_parameters,
        Some(vec![
            TypeReference { name: "U".to_string(), position: span(15, 16) },
            TypeReference { name: "V".to_string(), position: span(17, 18) },
        ])
    );
    match &function.body {
        ExpressionOrBlock::Block(block, _) => {
            assert_eq!(block.statements.len(), 3);
            assert_eq!(
                block.statements[0],
                Statement::Expression {
                    expression: Expression::Operand(Operand::VariableReference(
                        "a".to_string(),
                        span(21, 22)
                    )),
                    position: span(21, 23),
                }
            );
            assert_eq!(block.statements[1], Statement::Return { value: None, position: span(23, 25) });
            assert_eq!(block.statements[2].get_position(), span(25, 30));
            assert_eq!(block.get_position(), span(20, 31));
        }
        other => panic!("not a block: {:?}", other),
    }
    assert_eq!(function.get_position(), span(0, 31));
    assert_eq!(
        print(&function, ToStringSettings::pretty(), 0),
        "async (a, b?: T, ...c): R<U, V> => {\n\ta;\n\treturn;\n\treturn a + 1;\n}"
    );
    assert_eq!(
        print(&function, ToStringSettings::minified(), 0),
        "async (a,b?:T,...c):R<U,V>=>{a;return;return a+1;}"
    );
}

#[test]
fn a_block_is_indented_by_its_depth() {
    let function = parse(everything()).unwrap();
    assert_eq!(
        print(&function, ToStringSettings::pretty(), 2),
        "async (a, b?: T, ...c): R<U, V> => {\n\t\t\ta;\n\t\t\treturn;\n\t\t\treturn a + 1;\n\t\t}"
    );
    // The depth does not change the shortest form.
    assert_eq!(
        print(&function, ToStringSettings::minified(), 2),
        print(&function, ToStringSettings::minified(), 0)
    );
    assert_eq!(deeper(0), 1);
    assert_eq!(deeper(254), 255);
    assert_eq!(deeper(255), 255);
    let mut buf = String::from("a");
    push_indentation(&mut buf, 3);
    assert_eq!(buf, "a\t\t\t");
    push_indentation(&mut buf, 0);
    assert_eq!(buf, "a\t\t\t");
}

#[test]
fn an_empty_block() {
    // `() => {}`
    let function = parse(vec![
        TokenKind::OpenParentheses,
        TokenKind::CloseParentheses,
        TokenKind::Arrow,
        TokenKind::OpenBrace,
        TokenKind::CloseBrace,
    ])
    .unwrap();
    assert_eq!(
        function.body,
        ExpressionOrBlock::Block(Block { statements: vec![], position: span(3, 5) }, BlockId(0))
    );
    assert_eq!(print(&function, ToStringSettings::pretty(), 0), "() => {}");
    assert_eq!(print(&function, ToStringSettings::minified(), 4), "()=>{}");
}

#[test]
fn an_unclosed_block() {
    let result = parse(vec![name("x"), TokenKind::Arrow, TokenKind::OpenBrace, name("x"), TokenKind::Semicolon]);
    assert_eq!(result, Err(ParseError::UnexpectedEndOfInput { position: span(5, 5) }));
    let result = parse(vec![name("x"), TokenKind::Arrow, TokenKind::OpenBrace, name("x"), TokenKind::CloseBrace]);
    assert_eq!(
        result,
        Err(ParseError::UnexpectedToken {
            expected: Expected::Token(TokenKind::Semicolon),
            found: token(TokenKind::CloseBrace, 4, 5),
        })
    );
}

#[test]
fn an_unclosed_list_of_type_parameters() {
    let result = parse(vec![
        name("x"),
        TokenKind::OpenChevron,
        name("T"),
        TokenKind::Arrow,
        name("x"),
    ]);
    assert_eq!(
        result,
        Err(ParseError::UnexpectedToken {
            expected: Expected::Token(TokenKind::CloseChevron),
            found: token(TokenKind::Arrow, 3, 4),
        })
    );
    let result = parse(vec![name("x"), TokenKind::OpenChevron, TokenKind::CloseChevron]);
    assert_eq!(
        result,
        Err(ParseError::UnexpectedToken {
            expected: Expected::Identifier,
            found: token(TokenKind::CloseChevron, 2, 3),
        })
    );
}

#[test]
fn the_marker_starts_the_span() {
    // `async   x => x`, with the marker far to the left of the parameter.
    let tokens = vec![
        token(TokenKind::Async, 2, 7),
        token(name("x"), 20, 21),
        token(TokenKind::Arrow, 22, 24),
        token(name("x"), 25, 26),
        token(TokenKind::EndOfSource, 26, 26),
    ];
    let mut reader = TokenReader::new(tokens);
    let mut state = ParsingState::new();
    let function =
        ArrowFunction::from_reader(&mut reader, &mut state, &ParseSettings::default()).unwrap();
    assert_eq!(function.parameters.position, span(20, 21));
    assert_eq!(function.get_position(), span(2, 26));
    assert_eq!(function.get_position().start(), 2);
    assert_eq!(ArrowFunctionBase::header_left(&function.header), Some(span(2, 7)));
    assert_eq!(print(&function, ToStringSettings::minified(), 0), "async x=>x");
}

#[test]
fn without_a_marker_the_parameters_start_the_span() {
    let function = parse(vec![
        TokenKind::OpenParentheses,
        name("x"),
        TokenKind::CloseParentheses,
        TokenKind::Arrow,
        name("x"),
    ])
    .unwrap();
    assert_eq!(ArrowFunctionBase::header_left(&function.header), None);
    assert_eq!(function.get_position(), span(0, 5));
}

#[test]
fn the_span_of_a_function_that_was_put_together_by_hand() {
    let mut function = parse(vec![name("x"), TokenKind::Arrow, name("y")]).unwrap();
    assert_eq!(function.get_position(), span(0, 3));
    function.header = Some(Keyword { position: span(40, 45) });
    // The marker decides the start even where it lies behind the rest.
    assert_eq!(function.get_position(), span(40, 45));
    assert_eq!(function.get_position().start(), 40);
}

#[test]
fn identifiers_are_handed_out_once_in_a_pass() {
    // Two functions with block bodies and one with an expression body, one behind the other.
    let mut kinds = vec![
        name("a"),
        TokenKind::Arrow,
        TokenKind::OpenBrace,
        TokenKind::CloseBrace,
        name("b"),
        TokenKind::Arrow,
        name("b"),
        TokenKind::Semicolon,
    ];
    kinds.extend(vec![name("c"), TokenKind::Arrow, TokenKind::OpenBrace, TokenKind::CloseBrace]);
    let mut reader = TokenReader::new(spaced(kinds, 2));
    let mut state = ParsingState::new();
    let settings = ParseSettings::default();
    let first = ArrowFunction::from_reader(&mut reader, &mut state, &settings).unwrap();
    let second = ArrowFunction::from_reader(&mut reader, &mut state, &settings).unwrap();
    assert_eq!(reader.expect_next(TokenKind::Semicolon), Ok(span(14, 15)));
    let third = ArrowFunction::from_reader(&mut reader, &mut state, &settings).unwrap();
    assert_eq!(first.function_id, FunctionId(0));
    assert_eq!(second.function_id, FunctionId(1));
    assert_eq!(third.function_id, FunctionId(2));
    assert_ne!(first.function_id, second.function_id);
    assert_ne!(second.function_id, third.function_id);
    assert_ne!(first.function_id, third.function_id);
    assert_eq!(first.body.get_block_id(), Some(BlockId(0)));
    assert_eq!(second.body.get_block_id(), None);
    assert_eq!(third.body.get_block_id(), Some(BlockId(1)));
    assert_ne!(first.body.get_block_id(), third.body.get_block_id());
    assert_eq!(
        ArrowFunctionBase::get_chain_variable(&first),
        ChainVariable::UnderArrowFunction(Some(BlockId(0)))
    );
    assert_eq!(
        ArrowFunctionBase::get_chain_variable(&second),
        ChainVariable::UnderArrowFunction(None)
    );
    // A failed parse hands out nothing.
    assert!(ArrowFunction::from_reader(&mut reader, &mut state, &settings).is_err());
    assert_eq!(state.new_function_id(), FunctionId(3));
    assert_eq!(state.new_block_id(), BlockId(2));
}

#[test]
fn the_generator_counts_up() {
    let mut state = ParsingState::new();
    assert_eq!(state.new_function_id(), FunctionId(0));
    assert_eq!(state.new_function_id(), FunctionId(1));
    assert_eq!(state.new_block_id(), BlockId(0));
    assert_eq!(state.new_function_id(), FunctionId(2));
    assert_eq!(state.new_block_id(), BlockId(1));
    assert!(state.has_room_for(0));
    assert!(state.has_room_for(1000));
    let mut other = ParsingState::default();
    assert_eq!(other.new_block_id(), BlockId(0));
    assert!(ToStringSettings::default().pretty);
    assert!(ToStringSettings::pretty().pretty);
    assert!(!ToStringSettings::minified().pretty);
}

#[test]
fn completing_a_function_behind_its_first_parameter() {
    // The caller consumed `x` of `x => x + 1`.
    let mut reader = TokenReader::new(vec![
        token(TokenKind::Arrow, 2, 4),
        token(name("x"), 5, 6),
        token(TokenKind::Add, 7, 8),
        token(TokenKind::NumberLiteral("1".to_string()), 9, 10),
        token(TokenKind::EndOfSource, 10, 10),
    ]);
    let mut state = ParsingState::new();
    let function = ArrowFunction::from_reader_with_first_parameter(
        &mut reader,
        &mut state,
        &ParseSettings::default(),
        ("x".to_string(), span(0, 1)),
    )
    .unwrap();
    assert_eq!(function.header, None);
    assert_eq!(function.parameters, ArrowFunctionBase::single_parameter("x".to_string(), span(0, 1)));
    assert_eq!(function.return_type, None);
    assert_eq!(function.type_parameters, None);
    assert_eq!(function.function_id, FunctionId(0));
    assert_eq!(function.get_position(), span(0, 10));
    assert_eq!(print(&function, ToStringSettings::pretty(), 0), "x => x + 1");
    assert_eq!(reader.count_remaining(), 1);
}

#[test]
fn behind_the_first_parameter_the_arrow_must_follow() {
    // `x: T => x` is no shorthand for a caller that has committed to one.
    let mut reader = TokenReader::new(vec![
        token(TokenKind::Colon, 1, 2),
        token(name("T"), 3, 4),
        token(TokenKind::Arrow, 5, 7),
        token(name("x"), 8, 9),
    ]);
    let mut state = ParsingState::new();
    let result = ArrowFunction::from_reader_with_first_parameter(
        &mut reader,
        &mut state,
        &ParseSettings::default(),
        ("x".to_string(), span(0, 1)),
    );
    assert_eq!(
        result,
        Err(ParseError::UnexpectedToken {
            expected: Expected::Token(TokenKind::Arrow),
            found: token(TokenKind::Colon, 1, 2),
        })
    );
    assert_eq!(reader.count_remaining(), 4);
}

#[test]
fn completing_a_function_behind_its_opening_parenthesis() {
    // The caller consumed `async (` of `async (a, b): T => { return a; }`.
    let mut reader = TokenReader::new(vec![
        token(name("a"), 7, 8),
        token(TokenKind::Comma, 8, 9),
        token(name("b"), 10, 11),
        token(TokenKind::CloseParentheses, 11, 12),
        token(TokenKind::Colon, 12, 13),
        token(name("T"), 14, 15),
        token(TokenKind::Arrow, 16, 18),
        token(TokenKind::OpenBrace, 19, 20),
        token(TokenKind::Return, 21, 27),
        token(name("a"), 28, 29),
        token(TokenKind::Semicolon, 29, 30),
        token(TokenKind::CloseBrace, 31, 32),
        token(TokenKind::EndOfSource, 32, 32),
    ]);
    let mut state = ParsingState::new();
    let function = ArrowFunction::from_reader_sub_open_paren(
        &mut reader,
        &mut state,
        &ParseSettings::default(),
        Some(Keyword { position: span(0, 5) }),
        span(6, 7),
    )
    .unwrap();
    assert_eq!(function.header, Some(Keyword { position: span(0, 5) }));
    assert_eq!(function.parameters.position, span(6, 12));
    assert_eq!(function.parameters.parameters.len(), 2);
    assert_eq!(
        function.return_type,
        Some(TypeReference { name: "T".to_string(), position: span(14, 15) })
    );
    assert_eq!(function.type_parameters, None);
    assert_eq!(function.body.get_block_id(), Some(BlockId(0)));
    assert_eq!(function.get_position(), span(0, 32));
    assert_eq!(
        print(&function, ToStringSettings::pretty(), 0),
        "async (a, b): T => {\n\treturn a;\n}"
    );
    assert_eq!(reader.count_remaining(), 1);
}

#[test]
fn behind_the_opening_parenthesis_no_type_parameters_are_read() {
    let mut reader = TokenReader::new(vec![
        token(TokenKind::CloseParentheses, 1, 2),
        token(TokenKind::OpenChevron, 3, 4),
        token(name("T"), 4, 5),
        token(TokenKind::CloseChevron, 5, 6),
        token(TokenKind::Arrow, 7, 9),
        token(name("x"), 10, 11),
    ]);
    let mut state = ParsingState::new();
    let result = ArrowFunction::from_reader_sub_open_paren(
        &mut reader,
        &mut state,
        &ParseSettings::default(),
        None,
        span(0, 1),
    );
    assert_eq!(
        result,
        Err(ParseError::UnexpectedToken {
            expected: Expected::Token(TokenKind::Arrow),
            found: token(TokenKind::OpenChevron, 3, 4),
        })
    );
}

#[test]
fn the_body_alone() {
    let settings = ParseSettings::default();
    let mut state = ParsingState::new();
    let mut reader = TokenReader::new(spaced(vec![name("x"), TokenKind::Add, name("y")], 1));
    let body = ExpressionOrBlock::from_reader(&mut reader, &mut state, &settings).unwrap();
    assert_eq!(body.get_block_id(), None);
    assert_eq!(body.get_position(), span(0, 3));
    let mut reader = TokenReader::new(spaced(
        vec![TokenKind::OpenBrace, TokenKind::Return, TokenKind::Semicolon, TokenKind::CloseBrace],
        1,
    ));
    let block = ExpressionOrBlock::from_reader(&mut reader, &mut state, &settings).unwrap();
    assert_eq!(block.get_block_id(), Some(BlockId(0)));
    assert_eq!(block.get_position(), span(0, 4));
    let mut buf = String::new();
    block.to_string_from_buffer(&mut buf, &ToStringSettings::pretty(), 1);
    assert_eq!(buf, "{\n\t\treturn;\n\t}");
    let mut buf = String::new();
    body.to_string_from_buffer(&mut buf, &ToStringSettings::minified(), 1);
    assert_eq!(buf, "x+y");
    assert_eq!(body.clone(), body);
}

#[test]
fn printing_and_parsing_again_gives_the_same_tree() {
    let first = parse(everything()).unwrap();
    // The same tokens as a lexer would find them in the pretty print: elsewhere in the source.
    let mut reader = TokenReader::new(spaced(everything(), 3));
    let mut state = ParsingState::new();
    state.new_function_id();
    state.new_block_id();
    let second =
        ArrowFunction::from_reader(&mut reader, &mut state, &ParseSettings::default()).unwrap();
    assert_ne!(first, second);
    assert_ne!(first.function_id, second.function_id);
    assert_ne!(first.get_position(), second.get_position());
    for settings in [ToStringSettings::pretty(), ToStringSettings::minified()] {
        assert_eq!(print(&first, settings, 0), print(&second, settings, 0));
    }
    assert_eq!(first.header.is_some(), second.header.is_some());
    assert_eq!(first.parameters.parameters.len(), second.parameters.parameters.len());
    assert_eq!(
        first.parameters.parameters[0].name.name,
        second.parameters.parameters[0].name.name
    );
    assert_eq!(first.body.get_block_id().is_some(), second.body.get_block_id().is_some());
}

fn without_white_space(text: &str) -> String {
    text.chars().filter(|c| !matches!(c, ' ' | '\t' | '\n')).collect()
}

#[test]
fn the_print_is_the_text_of_the_tokens_and_white_space() {
    let function = parse(everything()).unwrap();
    let tokens = "async(a,b?:T,...c):R<U,V>=>{a;return;returna+1;}";
    assert_eq!(without_white_space(&print(&function, ToStringSettings::pretty(), 0)), tokens);
    assert_eq!(without_white_space(&print(&function, ToStringSettings::pretty(), 7)), tokens);
    assert_eq!(without_white_space(&print(&function, ToStringSettings::minified(), 0)), tokens);
}

#[test]
fn the_entry_points_complete_what_the_engine_parses() {
    let settings = ParseSettings::default();
    // `x => x + 1`, whole and behind its first parameter.
    let kinds = vec![name("x"), TokenKind::Arrow, name("x"), TokenKind::Add, name("y")];
    let whole = parse(kinds.clone()).unwrap();
    let mut reader = TokenReader::new(spaced(kinds, 1));
    let mut state = ParsingState::new();
    let first = reader.next_identifier().unwrap();
    let completed =
        ArrowFunction::from_reader_with_first_parameter(&mut reader, &mut state, &settings, first)
            .unwrap();
    assert_eq!(completed, whole);

    // `async (a, b?): T => { return a; }`, whole and behind its opening parenthesis.
    let kinds = vec![
        TokenKind::Async,
        TokenKind::OpenParentheses,
        name("a"),
        TokenKind::Comma,
        name("b"),
        TokenKind::QuestionMark,
        TokenKind::CloseParentheses,
        TokenKind::Colon,
        name("T"),
        TokenKind::Arrow,
        TokenKind::OpenBrace,
        TokenKind::Return,
        name("a"),
        TokenKind::Semicolon,
        TokenKind::CloseBrace,
    ];
    let whole = parse(kinds.clone()).unwrap();
    let mut reader = TokenReader::new(spaced(kinds, 1));
    let mut state = ParsingState::new();
    let marker = reader.next_if(&TokenKind::Async).map(|position| Keyword { position });
    let open = reader.expect_next(TokenKind::OpenParentheses).unwrap();
    let completed =
        ArrowFunction::from_reader_sub_open_paren(&mut reader, &mut state, &settings, marker, open)
            .unwrap();
    assert_eq!(completed, whole);
    assert_eq!(reader.next_if(&TokenKind::Arrow), None);
    assert_eq!(reader.count_remaining(), 1);
}
