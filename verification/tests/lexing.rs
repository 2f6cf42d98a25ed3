use nanoc::{to_token_chunks, to_token_stream, Operator, Token};

#[test]
fn chunks_split_at_separators() {
    let chunks = to_token_chunks("fn main() {}");
    let expected: Vec<String> = vec!["fn", " ", "main", "(", ")", " ", "{", "}"]
        .into_iter()
        .map(str::to_string)
        .collect();
    assert_eq!(chunks, expected);
}

#[test]
fn trailing_run_without_separator_is_not_emitted() {
    let chunks = to_token_chunks("a b");
    let expected: Vec<String> = vec!["a", " "].into_iter().map(str::to_string).collect();
    assert_eq!(chunks, expected);
}

#[test]
fn quoted_chunk_becomes_a_literal() {
    let tokens = to_token_stream(vec!["\"hi\"".to_string()]);
    assert_eq!(tokens, vec![Token::Literal("hi".to_string())]);
}

#[test]
fn keywords_and_operators_are_classified() {
    let tokens = to_token_stream(
        vec!["return", "const", "+", "-", "*", "/"]
            .into_iter()
            .map(str::to_string)
            .collect(),
    );
    assert_eq!(
        tokens,
        vec![
            Token::Return,
            Token::Const,
            Token::Operator(Operator::Plus),
            Token::Operator(Operator::Minus),
            Token::Operator(Operator::Asterisk),
            Token::Operator(Operator::Slash),
        ]
    );
}

#[test]
fn digit_runs_stay_identifiers_in_the_lexer() {
    let tokens = to_token_stream(vec!["10".to_string()]);
    assert_eq!(tokens, vec![Token::Identifier("10".to_string())]);
}
