//! The token type. Tokens are produced by the lexer and consumed by the
//! parser.

use vstd::prelude::*;

use crate::pos::Placed;

verus! {

/// A token read from a line of source, over some type of text.
#[derive(PartialEq, Eq, Debug, Clone)]
pub enum TokenOf<T> {
    /// A run of whitespace, which produces no bytes but ends runs of input.
    Whitespace,
    /// An alphanumeric run, such as `be32` or `01B3259`.
    Alphanum(Placed<T>),
    /// A form, such as `[::1]`, without its brackets.
    Form(Placed<T>),
    /// An open parenthesis, `(`.
    Open(Placed<T>),
    /// A close parenthesis, `)`.
    Close(Placed<T>),
    /// A quoted string, such as `"vorbis"`, without its quotes.
    Quoted(Placed<T>),
    /// Any other character, such as `é`: an error outside a front comment.
    Stray(Placed<T>),
}

/// A token as the lexer produces it.
pub type Token = TokenOf<String>;

/// A token as the specifications see it.
pub type TokenV = TokenOf<Seq<char>>;

impl View for Token {
    type V = TokenV;

    open spec fn view(&self) -> TokenV {
        match self {
            TokenOf::Whitespace => TokenOf::Whitespace,
            TokenOf::Alphanum(p) => TokenOf::Alphanum(p@),
            TokenOf::Form(p) => TokenOf::Form(p@),
            TokenOf::Open(p) => TokenOf::Open(p@),
            TokenOf::Close(p) => TokenOf::Close(p@),
            TokenOf::Quoted(p) => TokenOf::Quoted(p@),
            TokenOf::Stray(p) => TokenOf::Stray(p@),
        }
    }
}

/// The views of a sequence of tokens.
pub open spec fn tokens_view(ts: Seq<Token>) -> Seq<TokenV> {
    ts.map_values(|t: Token| t@)
}

/// Whether a token is the colon, the front comment separator.
pub open spec fn is_colon_token(t: TokenV) -> bool {
    t matches TokenOf::Stray(p) && p.contents == seq![':']
}

impl Token {
    /// Returns whether this token is the colon, the front comment separator.
    pub fn is_colon(&self) -> (r: bool)
        ensures
            r == is_colon_token(self@),
    {
        match self {
            TokenOf::Stray(placed) => {
                let cs = crate::text::chars_of(placed.contents.as_str());
                let r = cs.len() == 1 && cs[0] == ':';
                assert(r ==> cs@ =~= seq![':']);
                r
            },
            _ => false,
        }
    }

    /// Returns the contents of a stray token, if this token is one.
    pub fn as_stray(&self) -> (r: Option<Placed<String>>)
        ensures
            match self@ {
                TokenOf::Stray(p) => r matches Some(q) && q@ == p,
                _ => r is None,
            },
    {
        match self {
            TokenOf::Stray(placed) => Some(
                Placed {
                    contents: placed.contents.clone(),
                    line_number: placed.line_number,
                    column_number: placed.column_number,
                },
            ),
            _ => None,
        }
    }
}

} // verus!
