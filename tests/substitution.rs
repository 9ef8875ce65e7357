use quasiquote::canned::{CannedError, CannedEvaluator, CannedValue};
use quasiquote::token::{ExprId, LocatedToken, Location, Token, TokenStream, Tokens};
use quasiquote::unquote::{Interpreter, UnquoteError};

fn loc(n: u32) -> Location {
    Location::new(0, n, n + 1)
}

fn lt(token: Token, n: u32) -> LocatedToken {
    LocatedToken::new(token, loc(n))
}

fn ident(s: &str) -> Token {
    Token::Ident(s.to_string())
}

fn interpreter(values: Vec<(ExprId, CannedValue)>) -> Interpreter<CannedEvaluator> {
    Interpreter::new(CannedEvaluator::new(values))
}

fn run(
    values: Vec<(ExprId, CannedValue)>,
    tokens: Vec<LocatedToken>,
) -> (Result<Vec<LocatedToken>, UnquoteError<CannedError>>, CannedEvaluator) {
    let mut interp = interpreter(values);
    let r = interp.substitute_unquoted_values_into_tokens(Tokens(tokens));
    (r, interp.evaluator)
}

#[test]
fn plain_tokens_come_back_unchanged() {
    let input = vec![
        lt(ident("foo"), 1),
        lt(Token::LeftParen, 2),
        lt(Token::Int(3), 3),
        lt(Token::Comma, 4),
        lt(Token::Str("s".to_string()), 5),
        lt(Token::RightParen, 6),
        lt(Token::DollarSign, 7),
    ];
    let expected = vec![
        lt(ident("foo"), 1),
        lt(Token::LeftParen, 2),
        lt(Token::Int(3), 3),
        lt(Token::Comma, 4),
        lt(Token::Str("s".to_string()), 5),
        lt(Token::RightParen, 6),
        lt(Token::DollarSign, 7),
    ];
    let (r, ev) = run(vec![], input);
    assert_eq!(r, Ok(expected));
    assert_eq!(ev.evaluations, 0);
}

#[test]
fn empty_input_gives_empty_output() {
    let (r, ev) = run(vec![], vec![]);
    assert_eq!(r, Ok(vec![]));
    assert_eq!(ev.evaluations, 0);
}

#[test]
fn marker_expands_in_place_at_marker_location() {
    let input = vec![
        lt(ident("a"), 1),
        lt(Token::UnquoteMarker(ExprId(7)), 2),
        lt(ident("b"), 3),
    ];
    let (r, ev) = run(vec![(ExprId(7), CannedValue::Negative(5))], input);
    assert_eq!(
        r,
        Ok(vec![
            lt(ident("a"), 1),
            lt(Token::Minus, 2),
            lt(Token::Int(5), 2),
            lt(ident("b"), 3),
        ])
    );
    assert_eq!(ev.evaluations, 1);
    assert_eq!(ev.last_evaluated, Some(ExprId(7)));
}

#[test]
fn marker_with_single_token_value() {
    let input = vec![lt(Token::UnquoteMarker(ExprId(1)), 9)];
    let (r, _) = run(vec![(ExprId(1), CannedValue::Bool(true))], input);
    assert_eq!(r, Ok(vec![lt(Token::Bool(true), 9)]));
}

#[test]
fn zero_token_expansion_keeps_neighbours_adjacent() {
    let input = vec![
        lt(ident("a"), 1),
        lt(Token::UnquoteMarker(ExprId(3)), 2),
        lt(ident("b"), 3),
    ];
    let (r, ev) = run(vec![(ExprId(3), CannedValue::Nothing)], input);
    assert_eq!(r, Ok(vec![lt(ident("a"), 1), lt(ident("b"), 3)]));
    assert_eq!(ev.evaluations, 1);
}

#[test]
fn nested_quote_is_substituted_and_keeps_outer_location() {
    let inner = vec![lt(Token::UnquoteMarker(ExprId(4)), 20)];
    let input = vec![lt(Token::Quote(Tokens(inner)), 10)];
    let (r, _) = run(vec![(ExprId(4), CannedValue::Int(42))], input);
    assert_eq!(
        r,
        Ok(vec![lt(Token::Quote(Tokens(vec![lt(Token::Int(42), 20)])), 10)])
    );
}

#[test]
fn two_levels_of_quotes_are_substituted() {
    let innermost = vec![
        lt(ident("x"), 31),
        lt(Token::UnquoteMarker(ExprId(4)), 32),
    ];
    let middle = vec![
        lt(Token::UnquoteMarker(ExprId(5)), 21),
        lt(Token::Quote(Tokens(innermost)), 22),
    ];
    let input = vec![lt(Token::Quote(Tokens(middle)), 10), lt(Token::Semicolon, 11)];
    let (r, ev) = run(
        vec![(ExprId(4), CannedValue::Int(1)), (ExprId(5), CannedValue::Int(2))],
        input,
    );
    let expected_innermost = vec![lt(ident("x"), 31), lt(Token::Int(1), 32)];
    let expected_middle = vec![
        lt(Token::Int(2), 21),
        lt(Token::Quote(Tokens(expected_innermost)), 22),
    ];
    assert_eq!(
        r,
        Ok(vec![
            lt(Token::Quote(Tokens(expected_middle)), 10),
            lt(Token::Semicolon, 11),
        ])
    );
    assert_eq!(ev.evaluations, 2);
    assert_eq!(ev.last_evaluated, Some(ExprId(4)));
}

#[test]
fn escaped_dollar_sign_is_literal() {
    let input = vec![lt(Token::Backslash, 1), lt(Token::DollarSign, 2)];
    let (r, _) = run(vec![], input);
    assert_eq!(r, Ok(vec![lt(Token::DollarSign, 2)]));
}

#[test]
fn escape_of_other_token_fails_with_that_token() {
    let input = vec![lt(Token::Backslash, 1), lt(ident("a"), 2), lt(Token::Comma, 3)];
    let (r, _) = run(vec![], input);
    assert_eq!(
        r,
        Err(UnquoteError::UnexpectedEscapedTokenInQuote { token: Some(ident("a")), location: loc(2) })
    );
}

#[test]
fn escape_at_end_of_input_fails_at_escape_location() {
    let input = vec![lt(ident("a"), 1), lt(Token::Backslash, 5)];
    let (r, _) = run(vec![], input);
    assert_eq!(
        r,
        Err(UnquoteError::UnexpectedEscapedTokenInQuote { token: None, location: loc(5) })
    );
}

#[test]
fn escape_error_inside_nested_quote_aborts_pass() {
    let inner = vec![lt(Token::Backslash, 21)];
    let input = vec![
        lt(Token::Quote(Tokens(inner)), 10),
        lt(Token::UnquoteMarker(ExprId(1)), 11),
    ];
    let (r, ev) = run(vec![(ExprId(1), CannedValue::Int(1))], input);
    assert_eq!(
        r,
        Err(UnquoteError::UnexpectedEscapedTokenInQuote { token: None, location: loc(21) })
    );
    assert_eq!(ev.evaluations, 0);
}

#[test]
fn failed_evaluation_stops_the_pass() {
    let input = vec![
        lt(Token::UnquoteMarker(ExprId(1)), 1),
        lt(Token::UnquoteMarker(ExprId(9)), 2),
        lt(Token::UnquoteMarker(ExprId(2)), 3),
        lt(Token::Backslash, 4),
    ];
    let (r, ev) = run(
        vec![(ExprId(1), CannedValue::Int(1)), (ExprId(2), CannedValue::Int(2))],
        input,
    );
    assert_eq!(r, Err(UnquoteError::Evaluation(CannedError::UnknownExpression(ExprId(9)))));
    assert_eq!(ev.evaluations, 2);
    assert_eq!(ev.last_evaluated, Some(ExprId(9)));
}

#[test]
fn failed_conversion_is_returned_unchanged() {
    let input = vec![lt(Token::UnquoteMarker(ExprId(1)), 1), lt(Token::UnquoteMarker(ExprId(2)), 2)];
    let (r, ev) = run(
        vec![(ExprId(1), CannedValue::Function(6)), (ExprId(2), CannedValue::Int(2))],
        input,
    );
    assert_eq!(r, Err(UnquoteError::Evaluation(CannedError::NotRepresentable(6))));
    assert_eq!(ev.evaluations, 1);
}

#[test]
fn second_pass_over_result_changes_nothing() {
    let inner = vec![lt(Token::UnquoteMarker(ExprId(4)), 20), lt(Token::Plus, 21)];
    let input = vec![
        lt(Token::Quote(Tokens(inner)), 10),
        lt(Token::UnquoteMarker(ExprId(5)), 11),
        lt(Token::Backslash, 12),
        lt(Token::DollarSign, 13),
    ];
    let values = vec![(ExprId(4), CannedValue::Int(3)), (ExprId(5), CannedValue::Negative(8))];
    let mut interp = interpreter(values);
    let first = interp.substitute_unquoted_values_into_tokens(Tokens(input)).unwrap();
    let second = interp.substitute_unquoted_values_into_tokens(Tokens(first)).unwrap();
    let expected = vec![
        lt(Token::Quote(Tokens(vec![lt(Token::Int(3), 20), lt(Token::Plus, 21)])), 10),
        lt(Token::Minus, 11),
        lt(Token::Int(8), 11),
        lt(Token::DollarSign, 13),
    ];
    assert_eq!(second, expected);
    assert_eq!(interp.evaluator.evaluations, 2);
}

#[test]
fn first_table_entry_wins() {
    let input = vec![lt(Token::UnquoteMarker(ExprId(1)), 1)];
    let (r, _) = run(
        vec![(ExprId(1), CannedValue::Int(10)), (ExprId(1), CannedValue::Int(20))],
        input,
    );
    assert_eq!(r, Ok(vec![lt(Token::Int(10), 1)]));
}

#[test]
fn escape_token_takes_one_token() {
    let mut stream = TokenStream::new(Tokens(vec![lt(Token::DollarSign, 2), lt(Token::Comma, 3)]));
    let mut out = vec![lt(ident("a"), 1)];
    let r = Interpreter::<CannedEvaluator>::escape_token(&mut stream, &mut out, loc(0));
    assert_eq!(r, Ok(()));
    assert_eq!(out, vec![lt(ident("a"), 1), lt(Token::DollarSign, 2)]);
    assert_eq!(stream.next(), Some(lt(Token::Comma, 3)));
    assert_eq!(stream.next(), None);
}

#[test]
fn escape_token_on_empty_stream() {
    let mut stream = TokenStream::new(Tokens(vec![]));
    let mut out = vec![];
    let r = Interpreter::<CannedEvaluator>::escape_token(&mut stream, &mut out, loc(4));
    assert_eq!(r, Err(UnquoteError::UnexpectedEscapedTokenInQuote { token: None, location: loc(4) }));
    assert!(out.is_empty());
}

#[test]
fn token_stream_yields_in_order() {
    let mut stream = TokenStream::new(Tokens(vec![lt(ident("a"), 1), lt(ident("b"), 2), lt(ident("c"), 3)]));
    assert_eq!(stream.next(), Some(lt(ident("a"), 1)));
    assert_eq!(stream.next(), Some(lt(ident("b"), 2)));
    assert_eq!(stream.next(), Some(lt(ident("c"), 3)));
    assert_eq!(stream.next(), None);
}

#[test]
fn located_token_accessors() {
    let t = LocatedToken::new(Token::Int(5), Location::new(2, 3, 4));
    assert_eq!(t.location(), Location { file: 2, start: 3, end: 4 });
    assert_eq!(t.token(), &Token::Int(5));
    assert_eq!(t.into_token(), Token::Int(5));
}
