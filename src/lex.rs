//! The lexing step: turning one line of source into a vector of tokens.

use vstd::prelude::*;

use crate::pos::{placed, Placed, PlacedText};
use crate::text::{ascii_space, is_ascii_space, is_unicode_space, is_word_char, slice_string, unicode_space, word_char, chars_of};
use crate::tokens::{tokens_view, Token, TokenOf, TokenV};

verus! {

broadcast use vstd::std_specs::vec::group_vec_axioms;

/// The state that the lexer is in between two characters. Every index is a
/// character index into the line, which is also its column number.
#[derive(PartialEq, Eq, Debug, Clone, Copy, Structural)]
pub enum LexState {
    /// Nothing is pending: ready for anything.
    Ready,
    /// One or more whitespace characters have just been read.
    ReadWhitespace,
    /// An alphanumeric run started at `anchor`.
    ReadAlphanum { anchor: usize },
    /// A form was opened by the `[` at `anchor`.
    ReadForm { anchor: usize },
    /// A quoted string was opened by the `"` at `anchor`; `backslash` is
    /// whether the last character read was an escaping backslash.
    ReadQuote { anchor: usize, backslash: bool },
    /// A `#` was read: the rest of the line is a comment.
    Done,
}

/// The text of `chars[from..to]`, placed at `column`.
pub open spec fn span(line: usize, chars: Seq<char>, from: int, to: int, column: int) -> PlacedText {
    placed(chars.subrange(from, to), line, column as usize)
}

/// What reading the character at index `i` does: the next state, and the
/// tokens it emits.
pub open spec fn lex_step(line: usize, chars: Seq<char>, i: int, st: LexState) -> (LexState, Seq<TokenV>) {
    let c = chars[i];
    let here = span(line, chars, i, i + 1, i);
    if is_word_char(c) && (st is Ready || st is ReadAlphanum || st is ReadWhitespace) {
        match st {
            LexState::Ready => (LexState::ReadAlphanum { anchor: i as usize }, seq![]),
            LexState::ReadWhitespace => (LexState::ReadAlphanum { anchor: i as usize }, seq![TokenOf::Whitespace]),
            _ => (st, seq![]),
        }
    } else if is_unicode_space(c) && (st is Ready || st is ReadWhitespace) {
        (LexState::ReadWhitespace, seq![])
    } else if is_ascii_space(c) && st is ReadAlphanum {
        (LexState::ReadWhitespace, seq![TokenOf::Alphanum(span(line, chars, st->ReadAlphanum_anchor as int, i, st->ReadAlphanum_anchor as int))])
    } else if c == '[' && (st is ReadWhitespace || st is Ready || st is ReadAlphanum) {
        let next = LexState::ReadForm { anchor: i as usize };
        match st {
            LexState::ReadWhitespace => (next, seq![TokenOf::Whitespace]),
            LexState::ReadAlphanum { anchor } => (next, seq![TokenOf::Alphanum(span(line, chars, anchor as int, i, anchor as int))]),
            _ => (next, seq![]),
        }
    } else if st is ReadForm {
        let anchor = st->ReadForm_anchor as int;
        if c == ']' {
            (LexState::Ready, seq![TokenOf::Form(span(line, chars, anchor + 1, i, anchor))])
        } else {
            (st, seq![])
        }
    } else if c == '"' && (st is ReadWhitespace || st is Ready || st is ReadAlphanum) {
        let next = LexState::ReadQuote { anchor: i as usize, backslash: false };
        match st {
            LexState::ReadWhitespace => (next, seq![TokenOf::Whitespace]),
            LexState::ReadAlphanum { anchor } => (next, seq![TokenOf::Alphanum(span(line, chars, anchor as int, i, anchor as int))]),
            _ => (next, seq![]),
        }
    } else if st is ReadQuote {
        let anchor = st->ReadQuote_anchor;
        if !st->ReadQuote_backslash && c == '\\' {
            (LexState::ReadQuote { anchor, backslash: true }, seq![])
        } else if !st->ReadQuote_backslash && c == '"' {
            (LexState::Ready, seq![TokenOf::Quoted(span(line, chars, anchor as int + 1, i, anchor as int))])
        } else {
            (LexState::ReadQuote { anchor, backslash: false }, seq![])
        }
    } else if c == '#' && st is ReadAlphanum {
        let anchor = st->ReadAlphanum_anchor as int;
        (LexState::Done, seq![TokenOf::Alphanum(span(line, chars, anchor, i, anchor))])
    } else if c == '#' || st is Done {
        (LexState::Done, seq![])
    } else if (c == '(' || c == ')') && st is Ready {
        (LexState::Ready, seq![if c == '(' { TokenOf::Open(here) } else { TokenOf::Close(here) }])
    } else if (c == '(' || c == ')') && st is ReadWhitespace {
        (LexState::Ready, seq![TokenOf::Whitespace, if c == '(' { TokenOf::Open(here) } else { TokenOf::Close(here) }])
    } else if (c == '(' || c == ')') && st is ReadAlphanum {
        let anchor = st->ReadAlphanum_anchor as int;
        let word = TokenOf::Alphanum(span(line, chars, anchor, i, anchor));
        (LexState::Ready, seq![word, if c == '(' { TokenOf::Open(here) } else { TokenOf::Close(here) }])
    } else {
        (LexState::Ready, seq![TokenOf::Stray(here)])
    }
}

/// The state and the tokens after reading the first `n` characters.
pub open spec fn lex_prefix(line: usize, chars: Seq<char>, n: nat) -> (LexState, Seq<TokenV>)
    decreases n,
{
    if n == 0 {
        (LexState::Ready, seq![])
    } else {
        let (st, toks) = lex_prefix(line, chars, (n - 1) as nat);
        let (st2, more) = lex_step(line, chars, n - 1, st);
        (st2, toks + more)
    }
}

/// An error that can occur during lexing, over some type of text.
#[derive(PartialEq, Eq, Debug, Clone)]
pub enum ErrorOf<T> {
    /// The line ended inside a quoted string.
    UnclosedString(Placed<T>),
    /// The line ended inside a form.
    UnclosedForm(Placed<T>),
}

/// An error that can occur during lexing.
pub type Error = ErrorOf<String>;

/// A lexing error as the specifications see it.
pub type ErrorV = ErrorOf<Seq<char>>;

impl View for Error {
    type V = ErrorV;

    open spec fn view(&self) -> ErrorV {
        match self {
            ErrorOf::UnclosedString(p) => ErrorOf::UnclosedString(p@),
            ErrorOf::UnclosedForm(p) => ErrorOf::UnclosedForm(p@),
        }
    }
}

impl Error {
    /// The place in the source that the error points at.
    pub open spec fn source_pos_spec(&self) -> &Placed<String> {
        match self {
            ErrorOf::UnclosedString(p) => p,
            ErrorOf::UnclosedForm(p) => p,
        }
    }

    /// The place in the source that the error points at.
    pub fn source_pos(&self) -> (r: &Placed<String>)
        ensures
            match self {
                ErrorOf::UnclosedString(p) => r == p,
                ErrorOf::UnclosedForm(p) => r == p,
            },
    {
        match self {
            ErrorOf::UnclosedString(s) => s,
            ErrorOf::UnclosedForm(form) => form,
        }
    }
}

/// The result of lexing a whole line: the tokens, with the pending
/// alphanumeric run flushed, or an error for an unclosed string or form.
pub open spec fn lex_spec(line: usize, chars: Seq<char>) -> Result<Seq<TokenV>, ErrorV> {
    let (st, toks) = lex_prefix(line, chars, chars.len());
    let n = chars.len() as int;
    match st {
        LexState::ReadAlphanum { anchor } => Ok(toks.push(TokenOf::Alphanum(span(line, chars, anchor as int, n, anchor as int)))),
        LexState::ReadQuote { anchor, .. } => Err(ErrorOf::UnclosedString(span(line, chars, anchor as int, n, anchor as int))),
        LexState::ReadForm { anchor } => Err(ErrorOf::UnclosedForm(span(line, chars, anchor as int, n, anchor as int))),
        _ => Ok(toks),
    }
}

/// Whether a lexer state only holds anchors before index `i`.
pub open spec fn state_before(st: LexState, i: int) -> bool {
    match st {
        LexState::ReadAlphanum { anchor } => anchor < i,
        LexState::ReadForm { anchor } => anchor < i,
        LexState::ReadQuote { anchor, .. } => anchor < i,
        _ => true,
    }
}

proof fn lemma_state_before(line: usize, chars: Seq<char>, n: nat)
    requires
        n <= chars.len(),
    ensures
        state_before(lex_prefix(line, chars, n).0, n as int),
    decreases n,
{
    if n > 0 {
        lemma_state_before(line, chars, (n - 1) as nat);
    }
}

/// The lexing processor, which reads one character at a time and changes
/// its state depending on what the character was.
struct Lexer {
    line_number: usize,
    chars: Vec<char>,
    state: LexState,
    tokens: Vec<Token>,
}

impl Lexer {
    fn span(&self, from: usize, to: usize, column: usize) -> (r: Placed<String>)
        requires
            from <= to <= self.chars@.len(),
        ensures
            r@ == span(self.line_number, self.chars@, from as int, to as int, column as int),
    {
        Placed { contents: slice_string(&self.chars, from, to), line_number: self.line_number, column_number: column }
    }

    /// Reads the character at index `i`, changing the state and pushing the
    /// tokens it emits.
    fn next_token(&mut self, i: usize)
        requires
            i < old(self).chars@.len(),
            state_before(old(self).state, i as int),
        ensures
            final(self).chars == old(self).chars,
            final(self).line_number == old(self).line_number,
            (final(self).state, tokens_view(final(self).tokens@)) == ({
                let (st, more) = lex_step(old(self).line_number, old(self).chars@, i as int, old(self).state);
                (st, tokens_view(old(self).tokens@) + more)
            }),
    {
        let ghost old_tokens = self.tokens@;
        let ghost line = self.line_number;
        let ghost chars = self.chars@;
        let c = self.chars[i];
        // The length of the line bounds `i + 1`.
        let _n = self.chars.len();
        let st = self.state;
        let word = word_char(c);
        let mut more: Vec<Token> = Vec::new();
        if word && (matches!(st, LexState::Ready) || matches!(st, LexState::ReadAlphanum { .. }) || matches!(st, LexState::ReadWhitespace)) {
            match st {
                LexState::Ready => {
                    self.state = LexState::ReadAlphanum { anchor: i };
                },
                LexState::ReadWhitespace => {
                    more.push(TokenOf::Whitespace);
                    self.state = LexState::ReadAlphanum { anchor: i };
                },
                _ => {},
            }
        } else if unicode_space(c) && (matches!(st, LexState::Ready) || matches!(st, LexState::ReadWhitespace)) {
            self.state = LexState::ReadWhitespace;
        } else if ascii_space(c) && matches!(st, LexState::ReadAlphanum { .. }) {
            let anchor = match st { LexState::ReadAlphanum { anchor } => anchor, _ => 0 };
            more.push(TokenOf::Alphanum(self.span(anchor, i, anchor)));
            self.state = LexState::ReadWhitespace;
        } else if c == '[' && (matches!(st, LexState::ReadWhitespace) || matches!(st, LexState::Ready) || matches!(st, LexState::ReadAlphanum { .. })) {
            match st {
                LexState::ReadWhitespace => {
                    more.push(TokenOf::Whitespace);
                },
                LexState::ReadAlphanum { anchor } => {
                    more.push(TokenOf::Alphanum(self.span(anchor, i, anchor)));
                },
                _ => {},
            }
            self.state = LexState::ReadForm { anchor: i };
        } else if matches!(st, LexState::ReadForm { .. }) {
            let anchor = match st { LexState::ReadForm { anchor } => anchor, _ => 0 };
            if c == ']' {
                more.push(TokenOf::Form(self.span(anchor + 1, i, anchor)));
                self.state = LexState::Ready;
            }
        } else if c == '"' && (matches!(st, LexState::ReadWhitespace) || matches!(st, LexState::Ready) || matches!(st, LexState::ReadAlphanum { .. })) {
            match st {
                LexState::ReadWhitespace => {
                    more.push(TokenOf::Whitespace);
                },
                LexState::ReadAlphanum { anchor } => {
                    more.push(TokenOf::Alphanum(self.span(anchor, i, anchor)));
                },
                _ => {},
            }
            self.state = LexState::ReadQuote { anchor: i, backslash: false };
        } else if matches!(st, LexState::ReadQuote { .. }) {
            let (anchor, backslash) = match st {
                LexState::ReadQuote { anchor, backslash } => (anchor, backslash),
                _ => (0, false),
            };
            if !backslash && c == '\\' {
                self.state = LexState::ReadQuote { anchor, backslash: true };
            } else if !backslash && c == '"' {
                more.push(TokenOf::Quoted(self.span(anchor + 1, i, anchor)));
                self.state = LexState::Ready;
            } else {
                self.state = LexState::ReadQuote { anchor, backslash: false };
            }
        } else if c == '#' && matches!(st, LexState::ReadAlphanum { .. }) {
            let anchor = match st { LexState::ReadAlphanum { anchor } => anchor, _ => 0 };
            more.push(TokenOf::Alphanum(self.span(anchor, i, anchor)));
            self.state = LexState::Done;
        } else if c == '#' || matches!(st, LexState::Done) {
            self.state = LexState::Done;
        } else if (c == '(' || c == ')') && (matches!(st, LexState::Ready) || matches!(st, LexState::ReadWhitespace)) {
            if matches!(st, LexState::ReadWhitespace) {
                more.push(TokenOf::Whitespace);
            }
            let here = self.span(i, i + 1, i);
            if c == '(' {
                more.push(TokenOf::Open(here));
            } else {
                more.push(TokenOf::Close(here));
            }
            self.state = LexState::Ready;
        } else if (c == '(' || c == ')') && matches!(st, LexState::ReadAlphanum { .. }) {
            let anchor = match st { LexState::ReadAlphanum { anchor } => anchor, _ => 0 };
            more.push(TokenOf::Alphanum(self.span(anchor, i, anchor)));
            let here = self.span(i, i + 1, i);
            if c == '(' {
                more.push(TokenOf::Open(here));
            } else {
                more.push(TokenOf::Close(here));
            }
            self.state = LexState::Ready;
        } else {
            more.push(TokenOf::Stray(self.span(i, i + 1, i)));
            self.state = LexState::Ready;
        }
        let ghost more_v = tokens_view(more@);
        self.tokens.append(&mut more);
        proof {
            let (st2, expect) = lex_step(line, chars, i as int, st);
            assert(more_v =~= expect);
            assert(tokens_view(self.tokens@) =~= tokens_view(old_tokens) + more_v);
        }
    }

    /// Adds the final token, or returns an error, depending on the state
    /// after every character has been read.
    fn last_token(&mut self) -> (r: Result<(), Error>)
        requires
            state_before(old(self).state, old(self).chars@.len() as int),
        ensures
            final(self).chars == old(self).chars,
            final(self).line_number == old(self).line_number,
            ({
                let n = old(self).chars@.len() as int;
                let (line, chars) = (old(self).line_number, old(self).chars@);
                let toks = tokens_view(old(self).tokens@);
                match old(self).state {
                    LexState::ReadAlphanum { anchor } => r is Ok && tokens_view(final(self).tokens@)
                        == toks.push(TokenOf::Alphanum(span(line, chars, anchor as int, n, anchor as int))),
                    LexState::ReadQuote { anchor, .. } => r matches Err(e) && e@
                        == ErrorOf::UnclosedString(span(line, chars, anchor as int, n, anchor as int)),
                    LexState::ReadForm { anchor } => r matches Err(e) && e@
                        == ErrorOf::UnclosedForm(span(line, chars, anchor as int, n, anchor as int)),
                    _ => r is Ok && tokens_view(final(self).tokens@) == toks,
                }
            }),
    {
        let n = self.chars.len();
        match self.state {
            LexState::ReadAlphanum { anchor } => {
                let word = self.span(anchor, n, anchor);
                let ghost old_tokens = self.tokens@;
                let ghost wv = word@;
                self.tokens.push(TokenOf::Alphanum(word));
                assert(tokens_view(self.tokens@) =~= tokens_view(old_tokens).push(TokenOf::Alphanum(wv)));
                Ok(())
            },
            LexState::ReadQuote { anchor, .. } => Err(ErrorOf::UnclosedString(self.span(anchor, n, anchor))),
            LexState::ReadForm { anchor } => Err(ErrorOf::UnclosedForm(self.span(anchor, n, anchor))),
            _ => Ok(()),
        }
    }
}

/// Tokenises one line of Hexit. `line_number` is recorded in every token
/// for error reporting.
pub fn lex_source(line_number: usize, input_source: &str) -> (r: Result<Vec<Token>, Error>)
    ensures
        match lex_spec(line_number, input_source@) {
            Ok(ts) => r matches Ok(v) && tokens_view(v@) == ts,
            Err(e) => r matches Err(f) && f@ == e,
        },
{
    let chars = chars_of(input_source);
    let mut lexer = Lexer { line_number, chars, state: LexState::Ready, tokens: Vec::new() };
    let n = lexer.chars.len();
    let mut i: usize = 0;
    assert(tokens_view(lexer.tokens@) =~= seq![]);
    while i < n
        invariant
            0 <= i <= n == lexer.chars@.len(),
            lexer.chars@ == input_source@,
            lexer.line_number == line_number,
            (lexer.state, tokens_view(lexer.tokens@)) == lex_prefix(line_number, input_source@, i as nat),
        decreases n - i,
    {
        proof {
            lemma_state_before(line_number, input_source@, i as nat);
        }
        lexer.next_token(i);
        i = i + 1;
    }
    proof {
        lemma_state_before(line_number, input_source@, n as nat);
    }
    match lexer.last_token() {
        Ok(()) => Ok(lexer.tokens),
        Err(e) => Err(e),
    }
}

} // verus!
