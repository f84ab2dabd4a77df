//! End-to-end scenarios for the scanner.

use tokenizer::tokenize;
use tokenizer::Token;

fn check(tokens: &[Token], expected: &[(&str, usize, usize)]) {
    assert_eq!(tokens.len(), expected.len());
    for (t, (text, line, number)) in tokens.iter().zip(expected.iter()) {
        assert_eq!(t.token, *text);
        assert_eq!(t.line, *line);
        assert_eq!(t.token_number, *number);
    }
}

#[test]
fn call_with_brackets() {
    let tokens = tokenize(vec!["foo(bar)".to_string()]);
    check(&tokens, &[("foo", 0, 0), ("(", 0, 1), ("bar", 0, 2), (")", 0, 3)]);
}

#[test]
fn trailing_comment_dropped() {
    let tokens = tokenize(vec!["x = 1 // set x".to_string()]);
    check(&tokens, &[("x", 0, 0), ("=", 0, 1), ("1", 0, 2)]);
}

#[test]
fn empty_line_contributes_nothing() {
    let tokens = tokenize(vec!["".to_string(), "a b".to_string()]);
    check(&tokens, &[("a", 1, 0), ("b", 1, 1)]);
}

#[test]
fn string_literal_is_one_token() {
    let tokens = tokenize(vec!["\"a b\" c".to_string()]);
    check(&tokens, &[("a b", 0, 0), ("c", 0, 1)]);
}

#[test]
fn comment_marker_inside_string_is_masked() {
    let tokens = tokenize(vec!["let x = \"hello // not a comment\";".to_string()]);
    check(
        &tokens,
        &[
            ("let", 0, 0),
            ("x", 0, 1),
            ("=", 0, 2),
            ("hello // not a comment", 0, 3),
            (";", 0, 4),
        ],
    );
}

#[test]
fn no_input_no_tokens() {
    let tokens = tokenize(Vec::new());
    assert_eq!(tokens.len(), 0);
}
