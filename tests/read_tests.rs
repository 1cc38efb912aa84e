use hexit::ast::Exp;
use hexit::lex;
use hexit::parse;
use hexit::pos::At;
use hexit::read::{strip_front_comment, tokenise_and_parse, Error};
use hexit::tokens::Token;

#[test]
fn read_empty() {
    assert_eq!(tokenise_and_parse("", 1), Ok(vec![]));
}

#[test]
fn space() {
    assert_eq!(tokenise_and_parse(" ", 1), Ok(vec![]));
}

#[test]
fn spaces() {
    assert_eq!(tokenise_and_parse("  ", 1), Ok(vec![]));
}

#[test]
fn lonely() {
    assert_eq!(tokenise_and_parse("0", 1), Err(Error::Parse(parse::Error::SingleHex("0".at(1, 0)))));
}

#[test]
fn meme() {
    assert_eq!(tokenise_and_parse("E", 2), Err(Error::Parse(parse::Error::SingleHex("E".at(2, 0)))));
}

#[test]
fn otherwise() {
    assert_eq!(tokenise_and_parse("q", 3), Err(Error::Parse(parse::Error::StrayCharacter("q".at(3, 0)))));
}

#[test]
fn closure() {
    assert_eq!(tokenise_and_parse(")", 4), Err(Error::Parse(parse::Error::StrayCharacter(")".at(4, 0)))));
}

#[test]
fn exordium() {
    assert_eq!(tokenise_and_parse("[", 5), Err(Error::Lex(lex::Error::UnclosedForm("[".at(5, 0)))));
}

#[test]
fn weird_nested_form() {
    assert_eq!(tokenise_and_parse("[[:alpha:]]", 6), Err(Error::UnknownChar("]".at(6, 10))));
}

#[test]
fn front_comment() {
    assert_eq!(tokenise_and_parse("Magic number: 03", 7), Ok(vec![Exp::Char(3)]));
}

#[test]
fn front_comment_containing_chars() {
    assert_eq!(tokenise_and_parse("Magic••••number: 03", 8), Ok(vec![Exp::Char(3)]));
}

#[test]
fn front_comment_containing_form() {
    assert_eq!(tokenise_and_parse("[Magic] number: 03", 9), Ok(vec![Exp::Char(3)]));
}

#[test]
fn front_comment_containing_form_containing_colon() {
    assert_eq!(tokenise_and_parse("[[:alpha:]] number: 03", 10), Ok(vec![Exp::Char(3)]));
}

#[test]
fn front_comment_containing_string() {
    assert_eq!(tokenise_and_parse("\"Magic\" number: 03", 11), Ok(vec![Exp::Char(3)]));
}

#[test]
fn front_comment_containing_string_containing_colon() {
    assert_eq!(tokenise_and_parse("\"Magic:::number\": 03", 12), Ok(vec![Exp::Char(3)]));
}

#[test]
fn front_comment_evaluates_like_the_rest() {
    assert_eq!(tokenise_and_parse("Magic number: 03", 1), tokenise_and_parse("03", 1));
}

#[test]
fn strip_keeps_tokens_after_the_last_colon() {
    let mut tokens = vec![
        Token::Stray(":".at(1, 0)),
        Token::Alphanum("AB".at(1, 1)),
        Token::Stray(":".at(1, 3)),
        Token::Alphanum("CD".at(1, 4)),
    ];
    strip_front_comment(&mut tokens);
    assert_eq!(tokens, vec![Token::Alphanum("CD".at(1, 4))]);
}

#[test]
fn unclosed_string_on_a_line() {
    assert_eq!(tokenise_and_parse("\"abc", 2), Err(Error::Lex(lex::Error::UnclosedString("\"abc".at(2, 0)))));
}

#[test]
fn source_positions() {
    let e = tokenise_and_parse("AB [x]", 3).unwrap_err();
    assert_eq!(e.source_pos(), &"x".at(3, 3));
}
