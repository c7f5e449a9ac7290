use arrow_parser::errors::{Expected, ParseError};
use arrow_parser::span::Span;
use arrow_parser::tokens::{Token, TokenKind, TokenReader};

fn span(start: u32, end: u32) -> Span {
    Span::new(0, start, end).unwrap()
}

fn token(kind: TokenKind, start: u32, end: u32) -> Token {
    Token { kind, span: span(start, end) }
}

fn identifier(name: &str, start: u32, end: u32) -> Token {
    token(TokenKind::Identifier(name.to_string()), start, end)
}

#[test]
fn a_span_is_ordered() {
    assert_eq!(Span::new(3, 9, 2), None);
    let empty = Span::new(3, 4, 4).unwrap();
    assert_eq!((empty.source(), empty.start(), empty.end()), (3, 4, 4));
    let span = Span::new(7, 2, 9).unwrap();
    assert_eq!((span.source(), span.start(), span.end()), (7, 2, 9));
    assert_eq!(Span::zero(), Span::new(0, 0, 0).unwrap());
}

#[test]
fn merge_is_the_smallest_cover() {
    assert_eq!(span(2, 5).merge(span(7, 9)), span(2, 9));
    assert_eq!(span(7, 9).merge(span(2, 5)), span(2, 9));
    assert_eq!(span(2, 9).merge(span(4, 5)), span(2, 9));
    assert_eq!(span(4, 5).merge(span(2, 9)), span(2, 9));
    assert_eq!(span(3, 6).merge(span(5, 8)), span(3, 8));
    assert_eq!(span(3, 3).merge(span(3, 3)), span(3, 3));
}

#[test]
fn merge_keeps_the_source_of_the_first() {
    let one = Span::new(1, 0, 4).unwrap();
    let other = Span::new(2, 2, 8).unwrap();
    assert_eq!(one.merge(other), Span::new(1, 0, 8).unwrap());
    assert_eq!(other.merge(one), Span::new(2, 0, 8).unwrap());
}

#[test]
fn leftmost_override_starts_at_the_leading_token() {
    assert_eq!(Span::leftmost_override(span(6, 20), Some(span(0, 5))), span(0, 20));
    assert_eq!(Span::leftmost_override(span(6, 20), None), span(6, 20));
    // The start is that of the leading token even where it lies further right.
    assert_eq!(Span::leftmost_override(span(6, 20), Some(span(8, 9))), span(8, 20));
    assert_eq!(Span::leftmost_override(span(6, 20), Some(span(30, 35))), span(30, 35));
}

#[test]
fn end_point_is_empty() {
    assert_eq!(Span::new(4, 3, 9).unwrap().end_point(), Span::new(4, 9, 9).unwrap());
}

#[test]
fn peek_consumes_nothing() {
    let reader = TokenReader::new(vec![identifier("a", 0, 1), token(TokenKind::Comma, 1, 2)]);
    assert_eq!(reader.peek(), Some(&identifier("a", 0, 1)));
    assert_eq!(reader.peek(), Some(&identifier("a", 0, 1)));
    assert_eq!(reader.count_remaining(), 2);
    assert!(reader.peek_is(&TokenKind::Identifier("a".to_string())));
    assert!(!reader.peek_is(&TokenKind::Identifier("b".to_string())));
    assert!(!reader.peek_is(&TokenKind::Comma));
}

#[test]
fn next_moves_forward_until_the_end() {
    let mut reader = TokenReader::new(vec![identifier("a", 0, 1), token(TokenKind::Comma, 1, 2)]);
    assert_eq!(reader.next(), Ok(identifier("a", 0, 1)));
    assert_eq!(reader.count_remaining(), 1);
    assert_eq!(reader.next(), Ok(token(TokenKind::Comma, 1, 2)));
    assert_eq!(reader.peek(), None);
    assert_eq!(reader.next(), Err(ParseError::UnexpectedEndOfInput { position: span(2, 2) }));
    assert_eq!(reader.next(), Err(ParseError::UnexpectedEndOfInput { position: span(2, 2) }));
    assert_eq!(reader.count_remaining(), 0);
}

#[test]
fn expect_consumes_or_fails() {
    let mut reader = TokenReader::new(vec![
        token(TokenKind::OpenParentheses, 0, 1),
        token(TokenKind::Arrow, 2, 4),
    ]);
    assert_eq!(reader.expect_next(TokenKind::OpenParentheses), Ok(span(0, 1)));
    assert_eq!(
        reader.expect_next(TokenKind::CloseParentheses),
        Err(ParseError::UnexpectedToken {
            expected: Expected::Token(TokenKind::CloseParentheses),
            found: token(TokenKind::Arrow, 2, 4),
        })
    );
    // The failure consumed nothing.
    assert_eq!(reader.count_remaining(), 1);
    assert_eq!(reader.expect_next(TokenKind::Arrow), Ok(span(2, 4)));
    assert_eq!(
        reader.expect_next(TokenKind::Arrow),
        Err(ParseError::UnexpectedEndOfInput { position: span(4, 4) })
    );
}

#[test]
fn an_empty_stream_ends_at_the_start() {
    let mut reader = TokenReader::new(vec![]);
    assert_eq!(reader.end_position(), Span::zero());
    assert_eq!(reader.peek(), None);
    assert_eq!(reader.next(), Err(ParseError::UnexpectedEndOfInput { position: Span::zero() }));
}

#[test]
fn identifiers_are_taken_with_their_span() {
    let mut reader = TokenReader::new(vec![
        identifier("first", 3, 8),
        token(TokenKind::Async, 9, 14),
        token(TokenKind::EndOfSource, 14, 14),
    ]);
    assert_eq!(reader.next_identifier(), Ok(("first".to_string(), span(3, 8))));
    assert_eq!(
        reader.next_identifier(),
        Err(ParseError::UnexpectedToken {
            expected: Expected::Identifier,
            found: token(TokenKind::Async, 9, 14),
        })
    );
    assert_eq!(reader.count_remaining(), 2);
    reader.advance();
    assert_eq!(
        reader.next_identifier(),
        Err(ParseError::UnexpectedEndOfInput { position: span(14, 14) })
    );
    assert_eq!(
        reader.missing(Expected::Expression),
        ParseError::UnexpectedEndOfInput { position: span(14, 14) }
    );
    assert_eq!(
        reader.unexpected(TokenKind::Arrow),
        ParseError::UnexpectedToken {
            expected: Expected::Token(TokenKind::Arrow),
            found: token(TokenKind::EndOfSource, 14, 14),
        }
    );
}

#[test]
fn kinds_are_compared_with_their_text() {
    let a = TokenKind::Identifier("a".to_string());
    assert!(a.is_same_kind(&TokenKind::Identifier("a".to_string())));
    assert!(!a.is_same_kind(&TokenKind::Identifier("b".to_string())));
    assert!(!a.is_same_kind(&TokenKind::StringLiteral("a".to_string())));
    assert!(TokenKind::Arrow.is_same_kind(&TokenKind::Arrow));
    assert!(!TokenKind::Arrow.is_same_kind(&TokenKind::Assign));
    assert!(TokenKind::NumberLiteral("1".to_string())
        .is_same_kind(&TokenKind::NumberLiteral("1".to_string())));
    assert_eq!(a.clone(), a);
    assert_eq!(identifier("a", 0, 1).clone(), identifier("a", 0, 1));
}

#[test]
fn errors_know_where_the_input_went_wrong() {
    assert_eq!(ParseError::UnexpectedEndOfInput { position: span(7, 7) }.position(), span(7, 7));
    assert_eq!(
        ParseError::UnexpectedToken {
            expected: Expected::Identifier,
            found: token(TokenKind::Comma, 3, 4),
        }
        .position(),
        span(3, 4)
    );
}
