use hexit::lex::{lex_source, Error};
use hexit::pos::At;
use hexit::tokens::Token;

#[test]
fn lex_empty() {
    assert_eq!(lex_source(0, ""), Ok(vec![]));
}

#[test]
fn stray() {
    assert_eq!(lex_source(0, "&"), Ok(vec![Token::Stray("&".at(0, 0))]));
}

#[test]
fn utf8() {
    assert_eq!(lex_source(0, "é"), Ok(vec![Token::Stray("é".at(0, 0))]));
}

#[test]
fn utf8_column() {
    assert_eq!(lex_source(0, "Aé"), Ok(vec![Token::Stray("é".at(0, 1))]));
}

#[test]
fn some_bytes() {
    assert_eq!(lex_source(1, "1A2B"), Ok(vec![Token::Alphanum("1A2B".at(1, 0))]));
}

#[test]
fn a_quoted() {
    assert_eq!(lex_source(2, "\"PANL\""), Ok(vec![Token::Quoted("PANL".at(2, 0))]));
}

#[test]
fn a_form() {
    assert_eq!(lex_source(3, "[FORM]"), Ok(vec![Token::Form("FORM".at(3, 0))]));
}

#[test]
fn eventually_a_quoted() {
    assert_eq!(
        lex_source(4, "    \"PANL\""),
        Ok(vec![Token::Whitespace, Token::Quoted("PANL".at(4, 4))])
    );
}

#[test]
fn eventually_a_form() {
    assert_eq!(
        lex_source(5, "    [FORM]"),
        Ok(vec![Token::Whitespace, Token::Form("FORM".at(5, 4))])
    );
}

#[test]
fn unclosed_quote() {
    assert_eq!(lex_source(6, "\"FORM"), Err(Error::UnclosedString("\"FORM".at(6, 0))));
}

#[test]
fn unclosed_form() {
    assert_eq!(lex_source(7, "[FORM"), Err(Error::UnclosedForm("[FORM".at(7, 0))));
}

#[test]
fn in_parentheses() {
    assert_eq!(
        lex_source(8, "(AB34)"),
        Ok(vec![
            Token::Open("(".at(8, 0)),
            Token::Alphanum("AB34".at(8, 1)),
            Token::Close(")".at(8, 5)),
        ])
    );
}

#[test]
fn function_call() {
    assert_eq!(
        lex_source(9, "x86(AB34)"),
        Ok(vec![
            Token::Alphanum("x86".at(9, 0)),
            Token::Open("(".at(9, 3)),
            Token::Alphanum("AB34".at(9, 4)),
            Token::Close(")".at(9, 8)),
        ])
    );
}

#[test]
fn surrounded_by_quotes() {
    assert_eq!(
        lex_source(10, "\"\"\"\"A\"\"\"\""),
        Ok(vec![
            Token::Quoted("".at(10, 0)),
            Token::Quoted("".at(10, 2)),
            Token::Alphanum("A".at(10, 4)),
            Token::Quoted("".at(10, 5)),
            Token::Quoted("".at(10, 7)),
        ])
    );
}

#[test]
fn quotes_backslashes() {
    assert_eq!(lex_source(11, "\"\\\"\""), Ok(vec![Token::Quoted("\\\"".at(11, 0))]));
}

#[test]
fn mixture() {
    assert_eq!(
        lex_source(12, "1A2B[FORM]\"PANL\"[FORM]1A2B\"PANL\"1A2B"),
        Ok(vec![
            Token::Alphanum("1A2B".at(12, 0)),
            Token::Form("FORM".at(12, 4)),
            Token::Quoted("PANL".at(12, 10)),
            Token::Form("FORM".at(12, 16)),
            Token::Alphanum("1A2B".at(12, 22)),
            Token::Quoted("PANL".at(12, 26)),
            Token::Alphanum("1A2B".at(12, 32)),
        ])
    );
}

#[test]
fn a_lowly_underscore() {
    assert_eq!(
        lex_source(13, "___ _"),
        Ok(vec![
            Token::Alphanum("___".at(13, 0)),
            Token::Whitespace,
            Token::Alphanum("_".at(13, 4)),
        ])
    );
}

#[test]
fn whitespace_then_quoted_nothing() {
    assert_eq!(
        lex_source(14, "    \"\""),
        Ok(vec![Token::Whitespace, Token::Quoted("".at(14, 4))])
    );
}

#[test]
fn line_comment_ends_the_line() {
    assert_eq!(
        lex_source(1, "AB # CD"),
        Ok(vec![Token::Alphanum("AB".at(1, 0))])
    );
}

#[test]
fn colon_inside_form_is_not_stray() {
    assert_eq!(lex_source(1, "[a:b]"), Ok(vec![Token::Form("a:b".at(1, 0))]));
}

#[test]
fn comment_right_after_a_word_keeps_the_word() {
    assert_eq!(lex_source(1, "AB#CD"), Ok(vec![Token::Alphanum("AB".at(1, 0))]));
    assert_eq!(lex_source(1, "AB#x"), lex_source(1, "AB"));
}

#[test]
fn parenthesis_after_whitespace() {
    assert_eq!(
        lex_source(1, "(AB )"),
        Ok(vec![
            Token::Open("(".at(1, 0)),
            Token::Alphanum("AB".at(1, 1)),
            Token::Whitespace,
            Token::Close(")".at(1, 4)),
        ])
    );
    assert_eq!(
        lex_source(1, "x2 (AB)"),
        Ok(vec![
            Token::Alphanum("x2".at(1, 0)),
            Token::Whitespace,
            Token::Open("(".at(1, 3)),
            Token::Alphanum("AB".at(1, 4)),
            Token::Close(")".at(1, 6)),
        ])
    );
}
