//! Concrete checks of the scanner's laws and edge cases.

use tokenizer::tokenize;
use tokenizer::Token;

fn texts(tokens: &[Token]) -> Vec<String> {
    tokens.iter().map(|t| t.token.clone()).collect()
}

#[test]
fn output_is_grouped_and_positions_count_up() {
    let tokens = tokenize(vec![
        "a b".to_string(),
        "".to_string(),
        "c(d)".to_string(),
        "   ".to_string(),
        "e".to_string(),
    ]);
    for pair in tokens.windows(2) {
        assert!(pair[0].line <= pair[1].line);
        if pair[0].line == pair[1].line {
            assert_eq!(pair[1].token_number, pair[0].token_number + 1);
        } else {
            assert_eq!(pair[1].token_number, 0);
        }
    }
    assert_eq!(tokens[0].token_number, 0);
    let lines: Vec<usize> = tokens.iter().map(|t| t.line).collect();
    assert_eq!(lines, vec![0, 0, 2, 2, 2, 2, 4]);
}

#[test]
fn extra_whitespace_between_tokens_changes_nothing() {
    let plain = tokenize(vec!["foo bar".to_string()]);
    let padded = tokenize(vec!["  foo \t  bar  ".to_string()]);
    assert_eq!(texts(&plain), texts(&padded));
    assert_eq!(texts(&plain), vec!["foo", "bar"]);
}

#[test]
fn every_separator_stands_alone() {
    let separators = [
        '(', ')', '{', '}', '[', ']', '<', '>', '!', '|', '&', ',', '.', ':', ';', '+', '*', '/',
        '-', '=', '^',
    ];
    for sep in separators {
        let tokens = tokenize(vec![format!("x{}y", sep)]);
        assert_eq!(texts(&tokens), vec!["x".to_string(), sep.to_string(), "y".to_string()]);
        let alone = tokenize(vec![sep.to_string()]);
        assert_eq!(texts(&alone), vec![sep.to_string()]);
    }
}

#[test]
fn comment_pair_truncates_line() {
    let tokens = tokenize(vec!["a b / / c d".to_string()]);
    assert_eq!(texts(&tokens), vec!["a", "b"]);
}

#[test]
fn comment_pair_without_spaces_truncates_line() {
    let tokens = tokenize(vec!["ab//cd".to_string()]);
    assert_eq!(texts(&tokens), vec!["ab"]);
}

#[test]
fn line_that_is_only_comment_is_empty() {
    let tokens = tokenize(vec!["// x y z".to_string()]);
    assert_eq!(tokens.len(), 0);
}

#[test]
fn three_slashes_truncate_at_the_first_pair() {
    let tokens = tokenize(vec!["a///b".to_string()]);
    assert_eq!(texts(&tokens), vec!["a"]);
}

#[test]
fn lone_slash_survives() {
    let tokens = tokenize(vec!["a / b".to_string()]);
    assert_eq!(texts(&tokens), vec!["a", "/", "b"]);
}

#[test]
fn comment_only_cuts_its_own_line() {
    let tokens = tokenize(vec!["a // gone".to_string(), "b".to_string()]);
    assert_eq!(texts(&tokens), vec!["a", "b"]);
    assert_eq!(tokens[1].line, 1);
    assert_eq!(tokens[1].token_number, 0);
}

#[test]
fn whitespace_only_line_contributes_nothing() {
    let tokens = tokenize(vec![" \t ".to_string()]);
    assert_eq!(tokens.len(), 0);
}

#[test]
fn unterminated_string_swallows_the_rest_of_the_line() {
    let tokens = tokenize(vec!["\"a b".to_string()]);
    assert_eq!(texts(&tokens), vec!["a b"]);
}

#[test]
fn unterminated_string_does_not_carry_into_the_next_line() {
    let tokens = tokenize(vec!["\"a b".to_string(), "c d".to_string()]);
    assert_eq!(texts(&tokens), vec!["a b", "c", "d"]);
    assert_eq!(tokens[1].line, 1);
}

#[test]
fn quotes_join_text_around_them() {
    let tokens = tokenize(vec!["a\"b c\"d".to_string()]);
    assert_eq!(texts(&tokens), vec!["ab cd"]);
}

#[test]
fn separators_inside_string_do_not_split() {
    let tokens = tokenize(vec!["\"(a):;\"".to_string()]);
    assert_eq!(texts(&tokens), vec!["(a):;"]);
}

#[test]
fn unicode_whitespace_splits_tokens() {
    let tokens = tokenize(vec!["a\u{3000}b\u{a0}c".to_string()]);
    assert_eq!(texts(&tokens), vec!["a", "b", "c"]);
}

#[test]
fn empty_string_literal_adds_no_token() {
    let tokens = tokenize(vec!["a \"\" b".to_string()]);
    assert_eq!(texts(&tokens), vec!["a", "b"]);
}

#[test]
fn adjacent_separators_each_stand_alone() {
    let tokens = tokenize(vec!["a+=b".to_string()]);
    assert_eq!(texts(&tokens), vec!["a", "+", "=", "b"]);
}
