//! The reading step: lexing a line, removing its front comment, checking it
//! for stray characters, and parsing.

use vstd::prelude::*;

use crate::ast::{exps_view, Exp, ExpV};
use crate::lex::{self, lex_source, lex_spec};
use crate::parse::{self, parse_tokens, parse_tokens_spec};
use crate::pos::{Placed, PlacedText};
use crate::tokens::{is_colon_token, tokens_view, Token, TokenOf, TokenV};

verus! {

broadcast use vstd::std_specs::vec::group_vec_axioms, vstd::seq::group_seq_axioms;

/// A problem with the user's input, found while lexing or parsing, over
/// some type of text.
#[derive(PartialEq, Eq, Debug, Clone)]
pub enum ErrorOf<T> {
    /// A character that has no meaning outside a form, a string or a
    /// comment.
    UnknownChar(Placed<T>),
    /// An error from lexing a line.
    Lex(lex::ErrorOf<T>),
    /// An error from parsing.
    Parse(parse::ErrorOf<T>),
}

/// A problem with the user's input.
pub type Error = ErrorOf<String>;

/// A reading error as the specifications see it.
pub type ErrorV = ErrorOf<Seq<char>>;

impl View for Error {
    type V = ErrorV;

    open spec fn view(&self) -> ErrorV {
        match self {
            ErrorOf::UnknownChar(p) => ErrorOf::UnknownChar(p@),
            ErrorOf::Lex(e) => ErrorOf::Lex(e@),
            ErrorOf::Parse(e) => ErrorOf::Parse(e@),
        }
    }
}

impl Error {
    /// The place in the source that the error points at.
    pub fn source_pos(&self) -> (r: &Placed<String>)
        ensures
            match self {
                ErrorOf::UnknownChar(p) => r == p,
                ErrorOf::Lex(e) => r == e.source_pos_spec(),
                ErrorOf::Parse(e) => r == e.source_pos_spec(),
            },
    {
        match self {
            ErrorOf::UnknownChar(c) => c,
            ErrorOf::Lex(le) => le.source_pos(),
            ErrorOf::Parse(pe) => pe.source_pos(),
        }
    }
}

/// The index of the last colon among the first `n` tokens, if there is one.
pub open spec fn last_colon(toks: Seq<TokenV>, n: nat) -> Option<nat>
    decreases n,
{
    if n == 0 {
        None
    } else if is_colon_token(toks[n - 1]) {
        Some((n - 1) as nat)
    } else {
        last_colon(toks, (n - 1) as nat)
    }
}

/// The tokens of a line without its front comment: everything up to and
/// including the last colon token, where there is one.
pub open spec fn strip_spec(toks: Seq<TokenV>) -> Seq<TokenV> {
    match last_colon(toks, toks.len()) {
        Some(k) => toks.subrange(k + 1int, toks.len() as int),
        None => toks,
    }
}

/// The first stray token's text, if there is one.
pub open spec fn first_stray(toks: Seq<TokenV>) -> Option<PlacedText>
    decreases toks.len(),
{
    if toks.len() == 0 {
        None
    } else if toks[0] is Stray {
        Some(toks[0]->Stray_0)
    } else {
        first_stray(toks.drop_first())
    }
}

/// The tokens that a line contributes to its program: its tokens without
/// the front comment, followed by one whitespace token so that a run at the
/// end of the line never joins the next line. A stray character left over
/// is an error.
pub open spec fn line_tokens_spec(line_number: usize, input: Seq<char>) -> Result<Seq<TokenV>, ErrorV> {
    match lex_spec(line_number, input) {
        Err(e) => Err(ErrorOf::Lex(e)),
        Ok(toks) => {
            let stripped = strip_spec(toks);
            match first_stray(stripped) {
                Some(c) => Err(ErrorOf::UnknownChar(c)),
                None => Ok(stripped.push(TokenOf::Whitespace)),
            }
        },
    }
}

/// The expressions of a single line read on its own.
pub open spec fn tokenise_and_parse_spec(input: Seq<char>, line_number: usize) -> Result<Seq<ExpV>, ErrorV> {
    match line_tokens_spec(line_number, input) {
        Err(e) => Err(e),
        Ok(toks) => match parse_tokens_spec(toks) {
            Ok(es) => Ok(es),
            Err(e) => Err(ErrorOf::Parse(e)),
        },
    }
}

/// Removes the front comment of a line's tokens: every token up to and
/// including the last colon, where there is one.
pub fn strip_front_comment(line_tokens: &mut Vec<Token>)
    ensures
        tokens_view(final(line_tokens)@) == strip_spec(tokens_view(old(line_tokens)@)),
{
    let ghost toks = tokens_view(line_tokens@);
    let mut i: usize = line_tokens.len();
    while i > 0
        invariant
            0 <= i <= line_tokens@.len(),
            toks == tokens_view(line_tokens@),
            toks == tokens_view(old(line_tokens)@),
            last_colon(toks, toks.len()) == last_colon(toks, i as nat),
        decreases i,
    {
        assert(toks[i - 1] == line_tokens@[i - 1]@);
        if line_tokens[i - 1].is_colon() {
            let rest = line_tokens.split_off(i);
            *line_tokens = rest;
            assert(tokens_view(line_tokens@) =~= toks.subrange(i as int, toks.len() as int));
            return;
        }
        i = i - 1;
    }
}

/// Finds the first stray token's text, if there is one.
fn find_stray(toks: &Vec<Token>) -> (r: Option<Placed<String>>)
    ensures
        match first_stray(tokens_view(toks@)) {
            Some(p) => r matches Some(q) && q@ == p,
            None => r is None,
        },
{
    let ghost tv = tokens_view(toks@);
    let mut i: usize = 0;
    assert(tv.subrange(0, tv.len() as int) =~= tv);
    while i < toks.len()
        invariant
            0 <= i <= toks@.len(),
            tv == tokens_view(toks@),
            first_stray(tv) == first_stray(tv.subrange(i as int, tv.len() as int)),
        decreases toks@.len() - i,
    {
        let ghost rest = tv.subrange(i as int, tv.len() as int);
        assert(rest.drop_first() =~= tv.subrange(i + 1, tv.len() as int));
        assert(rest[0] == toks@[i as int]@);
        if let Some(p) = toks[i].as_stray() {
            return Some(p);
        }
        i = i + 1;
    }
    assert(tv.subrange(i as int, tv.len() as int) =~= Seq::<TokenV>::empty());
    None
}

/// Lexes a line, removes its front comment, checks for stray characters,
/// and ends the tokens with one whitespace token.
pub fn tokenise_line(input_line: &str, line_number: usize) -> (r: Result<Vec<Token>, Error>)
    ensures
        match line_tokens_spec(line_number, input_line@) {
            Ok(ts) => r matches Ok(v) && tokens_view(v@) == ts,
            Err(e) => r matches Err(f) && f@ == e,
        },
{
    let mut line_tokens = match lex_source(line_number, input_line) {
        Ok(ts) => ts,
        Err(e) => return Err(ErrorOf::Lex(e)),
    };
    strip_front_comment(&mut line_tokens);
    if let Some(first_invalid_char) = find_stray(&line_tokens) {
        return Err(ErrorOf::UnknownChar(first_invalid_char));
    }
    let ghost before = tokens_view(line_tokens@);
    line_tokens.push(TokenOf::Whitespace);
    assert(tokens_view(line_tokens@) =~= before.push(TokenOf::Whitespace));
    Ok(line_tokens)
}

/// Reads one line of Hexit on its own into expressions, returning the
/// first problem found while lexing or parsing it.
pub fn tokenise_and_parse(input_line: &str, line_number: usize) -> (r: Result<Vec<Exp>, Error>)
    ensures
        match tokenise_and_parse_spec(input_line@, line_number) {
            Ok(es) => r matches Ok(v) && exps_view(v@) == es,
            Err(e) => r matches Err(f) && f@ == e,
        },
{
    let line_tokens = match tokenise_line(input_line, line_number) {
        Ok(ts) => ts,
        Err(e) => return Err(e),
    };
    match parse_tokens(line_tokens) {
        Ok(exps) => Ok(exps),
        Err(e) => Err(ErrorOf::Parse(e)),
    }
}

} // verus!
