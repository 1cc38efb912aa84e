//! The parsing step: turning a series of tokens into a series of
//! expressions.

use vstd::prelude::*;

use crate::address::{ipv4_spec, ipv6_spec, parse_ipv4, parse_ipv6};
use crate::ast::{exp_view, exps_view, BitwiseFold, Exp, ExpV, FunctionName, MultiByteType, MAX_NESTING};
use crate::tokens::{tokens_view, Token, TokenOf, TokenV};
use crate::num::{all_digits, parse_unsigned, unsigned_within};
use crate::pos::{column_after, placed, Placed, PlacedText};
use crate::text::{chars_of, digit_char, hex_digit, hex_value, is_digit_char, is_upper_char, slice_string, string_of, upper_char};

verus! {

broadcast use vstd::std_specs::vec::group_vec_axioms, vstd::seq::group_seq_axioms;

/// An error that can occur during parsing, over some type of text.
#[derive(PartialEq, Eq, Debug, Clone)]
pub enum ErrorOf<T> {
    /// A run of hex characters ended with one character unpaired, such as
    /// `3` or `D7B`.
    SingleHex(Placed<T>),
    /// A character that has no place where it stands, such as the `G` of
    /// `FG`, or a `)` with no function open.
    StrayCharacter(Placed<T>),
    /// A function name was not followed by its arguments.
    StrayFunctionName(Placed<T>),
    /// The characters before a `(` or a form are not a function name.
    InvalidFunctionName(Placed<T>),
    /// A repeat amount was zero, such as `x0`, or too large, such as
    /// `x99999999999`.
    InvalidRepeatAmount(Placed<T>),
    /// A form matched none of the known formats, such as `[plum pudding]`.
    InvalidForm(Placed<T>),
    /// The tokens ran out before a function's closing `)`.
    UnclosedFunction(Placed<T>),
    /// A function call stands inside more than `MAX_NESTING` others; this
    /// points at its `(`.
    TooDeeplyNested(Placed<T>),
}

/// An error that can occur during parsing.
pub type Error = ErrorOf<String>;

/// A parsing error as the specifications see it.
pub type ErrorV = ErrorOf<Seq<char>>;

impl View for Error {
    type V = ErrorV;

    open spec fn view(&self) -> ErrorV {
        match self {
            ErrorOf::SingleHex(p) => ErrorOf::SingleHex(p@),
            ErrorOf::StrayCharacter(p) => ErrorOf::StrayCharacter(p@),
            ErrorOf::StrayFunctionName(p) => ErrorOf::StrayFunctionName(p@),
            ErrorOf::InvalidFunctionName(p) => ErrorOf::InvalidFunctionName(p@),
            ErrorOf::InvalidRepeatAmount(p) => ErrorOf::InvalidRepeatAmount(p@),
            ErrorOf::InvalidForm(p) => ErrorOf::InvalidForm(p@),
            ErrorOf::UnclosedFunction(p) => ErrorOf::UnclosedFunction(p@),
            ErrorOf::TooDeeplyNested(p) => ErrorOf::TooDeeplyNested(p@),
        }
    }
}

impl Error {
    /// The place in the source that the error points at.
    pub open spec fn source_pos_spec(&self) -> &Placed<String> {
        match self {
            ErrorOf::SingleHex(p) => p,
            ErrorOf::StrayCharacter(p) => p,
            ErrorOf::StrayFunctionName(p) => p,
            ErrorOf::InvalidFunctionName(p) => p,
            ErrorOf::InvalidRepeatAmount(p) => p,
            ErrorOf::InvalidForm(p) => p,
            ErrorOf::UnclosedFunction(p) => p,
            ErrorOf::TooDeeplyNested(p) => p,
        }
    }

    /// The place in the source that the error points at.
    pub fn source_pos(&self) -> (r: &Placed<String>)
        ensures
            match self {
                ErrorOf::SingleHex(p) => r == p,
                ErrorOf::StrayCharacter(p) => r == p,
                ErrorOf::StrayFunctionName(p) => r == p,
                ErrorOf::InvalidFunctionName(p) => r == p,
                ErrorOf::InvalidRepeatAmount(p) => r == p,
                ErrorOf::InvalidForm(p) => r == p,
                ErrorOf::UnclosedFunction(p) => r == p,
                ErrorOf::TooDeeplyNested(p) => r == p,
            },
    {
        match self {
            ErrorOf::SingleHex(c) => c,
            ErrorOf::StrayCharacter(c) => c,
            ErrorOf::StrayFunctionName(name) => name,
            ErrorOf::InvalidFunctionName(name) => name,
            ErrorOf::InvalidRepeatAmount(ra) => ra,
            ErrorOf::InvalidForm(form) => form,
            ErrorOf::UnclosedFunction(open) => open,
            ErrorOf::TooDeeplyNested(open) => open,
        }
    }
}

/// The meanings that a run of alphanumeric characters can have, over some
/// type of text and of byte sequence.
#[derive(PartialEq, Eq, Debug, Clone)]
pub enum AlphanumsOf<T, B> {
    /// A function name, such as `x11`.
    FunctionName(FunctionName),
    /// A constant name, such as `BGP_OPEN`.
    ConstantName(T),
    /// Hex bytes, such as `09F7`.
    Bytes(B),
}

/// The meaning of an alphanumeric run, as the parser finds it.
pub type Alphanums = AlphanumsOf<String, Vec<u8>>;

/// The meaning of an alphanumeric run, as the specifications see it.
pub type AlphanumsV = AlphanumsOf<Seq<char>, Seq<u8>>;

impl View for Alphanums {
    type V = AlphanumsV;

    open spec fn view(&self) -> AlphanumsV {
        match self {
            AlphanumsOf::FunctionName(n) => AlphanumsOf::FunctionName(*n),
            AlphanumsOf::ConstantName(s) => AlphanumsOf::ConstantName(s@),
            AlphanumsOf::Bytes(b) => AlphanumsOf::Bytes(b@),
        }
    }
}

/// The one character at index `i` of a placed text, placed where it stands.
pub open spec fn char_at(span: PlacedText, i: int) -> PlacedText {
    placed(span.contents.subrange(i, i + 1), span.line_number, column_after(span.column_number, i))
}

/// The bytes that hex pairs spell, reading from index `i`, or the error
/// for the first character that is not part of a pair of hex digits.
pub open spec fn hex_pairs(span: PlacedText, i: nat) -> Result<Seq<u8>, ErrorV>
    decreases span.contents.len() - i,
{
    let s = span.contents;
    if i >= s.len() {
        Ok(seq![])
    } else if hex_value(s[i as int]) is None {
        Err(ErrorOf::StrayCharacter(char_at(span, i as int)))
    } else if i + 1 >= s.len() {
        Err(ErrorOf::SingleHex(char_at(span, i as int)))
    } else if hex_value(s[i + 1int]) is None {
        Err(ErrorOf::StrayCharacter(char_at(span, i + 1int)))
    } else {
        match hex_pairs(span, i + 2) {
            Ok(rest) => Ok(seq![(hex_value(s[i as int])->0 * 16 + hex_value(s[i + 1int])->0) as u8] + rest),
            Err(e) => Err(e),
        }
    }
}

/// Whether a run of characters is a constant name: at least three
/// characters, an uppercase letter first, then uppercase letters, digits
/// and underscores, with at least one underscore.
pub open spec fn is_constant_name_spec(s: Seq<char>) -> bool {
    &&& s.len() >= 3
    &&& s.contains('_')
    &&& is_upper_char(s[0])
    &&& forall|i: int| 1 <= i < s.len() ==> is_upper_char(#[trigger] s[i]) || is_digit_char(s[i]) || s[i] == '_'
}

/// The function that a run of characters names, if it names one, or an
/// error for a repeat amount that is zero or too large.
pub open spec fn function_name_spec(span: PlacedText) -> Result<Option<FunctionName>, ErrorV> {
    let s = span.contents;
    if s.len() >= 2 && s[0] == 'x' && all_digits(s.drop_first()) {
        match unsigned_within(s.drop_first(), 0xFFFF) {
            Some(n) if n > 0 => Ok(Some(FunctionName::Repeat(n as u16))),
            _ => Err(ErrorOf::InvalidRepeatAmount(span)),
        }
    } else if s == seq!['b', 'e', '1', '6'] {
        Ok(Some(FunctionName::MultiByte(MultiByteType::Be16)))
    } else if s == seq!['b', 'e', '3', '2'] {
        Ok(Some(FunctionName::MultiByte(MultiByteType::Be32)))
    } else if s == seq!['b', 'e', '6', '4'] {
        Ok(Some(FunctionName::MultiByte(MultiByteType::Be64)))
    } else if s == seq!['l', 'e', '1', '6'] {
        Ok(Some(FunctionName::MultiByte(MultiByteType::Le16)))
    } else if s == seq!['l', 'e', '3', '2'] {
        Ok(Some(FunctionName::MultiByte(MultiByteType::Le32)))
    } else if s == seq!['l', 'e', '6', '4'] {
        Ok(Some(FunctionName::MultiByte(MultiByteType::Le64)))
    } else if s == seq!['a', 'n', 'd'] {
        Ok(Some(FunctionName::Bitwise(BitwiseFold::And)))
    } else if s == seq!['o', 'r'] {
        Ok(Some(FunctionName::Bitwise(BitwiseFold::Or)))
    } else if s == seq!['x', 'o', 'r'] {
        Ok(Some(FunctionName::Bitwise(BitwiseFold::Xor)))
    } else if s == seq!['n', 'o', 't'] {
        Ok(Some(FunctionName::BitwiseNot))
    } else {
        Ok(None)
    }
}

/// The meaning of an alphanumeric run: a constant name, else a function
/// name, else hex pairs.
pub open spec fn alphanums_spec(span: PlacedText) -> Result<AlphanumsV, ErrorV> {
    if is_constant_name_spec(span.contents) {
        Ok(AlphanumsOf::ConstantName(span.contents))
    } else {
        match function_name_spec(span) {
            Err(e) => Err(e),
            Ok(Some(n)) => Ok(AlphanumsOf::FunctionName(n)),
            Ok(None) => match hex_pairs(span, 0) {
                Ok(bs) => Ok(AlphanumsOf::Bytes(bs)),
                Err(e) => Err(e),
            },
        }
    }
}

/// Whether a run of characters is a constant name.
pub fn is_constant_name(input: &str) -> (r: bool)
    ensures
        r == is_constant_name_spec(input@),
{
    let s = chars_of(input);
    if s.len() < 3 || !upper_char(s[0]) {
        return false;
    }
    let mut underscore = false;
    let mut i: usize = 1;
    while i < s.len()
        invariant
            1 <= i <= s@.len(),
            s@ == input@,
            is_upper_char(s@[0]),
            forall|j: int| 1 <= j < i ==> is_upper_char(#[trigger] s@[j]) || is_digit_char(s@[j]) || s@[j] == '_',
            underscore <==> s@.subrange(0, i as int).contains('_'),
        decreases s@.len() - i,
    {
        let c = s[i];
        if !(upper_char(c) || digit_char(c) || c == '_') {
            return false;
        }
        if c == '_' {
            underscore = true;
        }
        proof {
            let p = s@.subrange(0, i as int + 1);
            if underscore {
                if c == '_' {
                    assert(p[i as int] == '_');
                } else {
                    let k = choose|k: int| 0 <= k < i && s@.subrange(0, i as int)[k] == '_';
                    assert(p[k] == '_');
                }
            } else {
                assert forall|k: int| 0 <= k < p.len() implies p[k] != '_' by {
                    if k < i {
                        assert(p[k] == s@.subrange(0, i as int)[k]);
                    }
                }
            }
        }
        i = i + 1;
    }
    assert(s@.subrange(0, i as int) =~= s@);
    underscore
}

/// Reads a run of characters as a function name. Returns `None` where it
/// names no function, and an error where it names a repeat function whose
/// amount is zero or does not fit in sixteen bits.
pub fn parse_function_name(span: &Placed<String>) -> (r: Result<Option<FunctionName>, Error>)
    ensures
        match function_name_spec(span@) {
            Ok(n) => r == Ok::<Option<FunctionName>, Error>(n),
            Err(e) => r matches Err(f) && f@ == e,
        },
{
    let s = chars_of(span.contents.as_str());
    let n = s.len();
    if n >= 2 && s[0] == 'x' {
        let mut digits = true;
        let mut i: usize = 1;
        while i < n
            invariant
                1 <= i <= n == s@.len(),
                digits <==> all_digits(s@.subrange(1, i as int)),
            decreases n - i,
        {
            proof {
                let p = s@.subrange(1, i as int + 1);
                let q = s@.subrange(1, i as int);
                assert forall|k: int| 0 <= k < q.len() implies q[k] == p[k] by {}
                if !is_digit_char(s@[i as int]) {
                    assert(p[i - 1] == s@[i as int]);
                }
            }
            if !digit_char(s[i]) {
                digits = false;
            }
            i = i + 1;
        }
        assert(s@.subrange(1, n as int) =~= s@.drop_first());
        if digits {
            let amount_text = slice_string(&s, 1, n);
            return match parse_unsigned(amount_text.as_str(), 0xFFFF) {
                Some(amount) if amount > 0 => Ok(Some(FunctionName::Repeat(amount as u16))),
                _ => Err(ErrorOf::InvalidRepeatAmount(span.clone_placed())),
            };
        }
    }
    let r = if n == 4 && s[0] == 'b' && s[1] == 'e' && s[2] == '1' && s[3] == '6' {
        Some(FunctionName::MultiByte(MultiByteType::Be16))
    } else if n == 4 && s[0] == 'b' && s[1] == 'e' && s[2] == '3' && s[3] == '2' {
        Some(FunctionName::MultiByte(MultiByteType::Be32))
    } else if n == 4 && s[0] == 'b' && s[1] == 'e' && s[2] == '6' && s[3] == '4' {
        Some(FunctionName::MultiByte(MultiByteType::Be64))
    } else if n == 4 && s[0] == 'l' && s[1] == 'e' && s[2] == '1' && s[3] == '6' {
        Some(FunctionName::MultiByte(MultiByteType::Le16))
    } else if n == 4 && s[0] == 'l' && s[1] == 'e' && s[2] == '3' && s[3] == '2' {
        Some(FunctionName::MultiByte(MultiByteType::Le32))
    } else if n == 4 && s[0] == 'l' && s[1] == 'e' && s[2] == '6' && s[3] == '4' {
        Some(FunctionName::MultiByte(MultiByteType::Le64))
    } else if n == 3 && s[0] == 'a' && s[1] == 'n' && s[2] == 'd' {
        Some(FunctionName::Bitwise(BitwiseFold::And))
    } else if n == 2 && s[0] == 'o' && s[1] == 'r' {
        Some(FunctionName::Bitwise(BitwiseFold::Or))
    } else if n == 3 && s[0] == 'x' && s[1] == 'o' && s[2] == 'r' {
        Some(FunctionName::Bitwise(BitwiseFold::Xor))
    } else if n == 3 && s[0] == 'n' && s[1] == 'o' && s[2] == 't' {
        Some(FunctionName::BitwiseNot)
    } else {
        None
    };
    proof {
        let v = s@;
        assert(v == span@.contents);
        if r is None {
            assert(v != seq!['b', 'e', '1', '6']);
            assert(v != seq!['b', 'e', '3', '2']);
            assert(v != seq!['b', 'e', '6', '4']);
            assert(v != seq!['l', 'e', '1', '6']);
            assert(v != seq!['l', 'e', '3', '2']);
            assert(v != seq!['l', 'e', '6', '4']);
            assert(v != seq!['a', 'n', 'd']);
            assert(v != seq!['o', 'r']);
            assert(v != seq!['x', 'o', 'r']);
            assert(v != seq!['n', 'o', 't']);
        } else {
            assert(v =~= seq!['b', 'e', '1', '6'] || v =~= seq!['b', 'e', '3', '2'] || v =~= seq!['b', 'e', '6', '4']
                || v =~= seq!['l', 'e', '1', '6'] || v =~= seq!['l', 'e', '3', '2'] || v =~= seq!['l', 'e', '6', '4']
                || v =~= seq!['a', 'n', 'd'] || v =~= seq!['o', 'r'] || v =~= seq!['x', 'o', 'r'] || v =~= seq!['n', 'o', 't']);
        }
    }
    Ok(r)
}

/// Combines the bytes read so far with the result of reading the rest.
pub open spec fn then_hex(done: Seq<u8>, rest: Result<Seq<u8>, ErrorV>) -> Result<Seq<u8>, ErrorV> {
    match rest {
        Ok(bs) => Ok(done + bs),
        Err(e) => Err(e),
    }
}

/// Reads a run of alphanumeric characters as a constant name, a function
/// name, or hex pairs, in that order of preference.
pub fn parse_alphanums(span: &Placed<String>) -> (r: Result<Alphanums, Error>)
    ensures
        match alphanums_spec(span@) {
            Ok(a) => r matches Ok(b) && b@ == a,
            Err(e) => r matches Err(f) && f@ == e,
        },
{
    if is_constant_name(span.contents.as_str()) {
        return Ok(AlphanumsOf::ConstantName(span.contents.clone()));
    }
    match parse_function_name(span) {
        Err(e) => return Err(e),
        Ok(Some(name)) => return Ok(AlphanumsOf::FunctionName(name)),
        Ok(None) => {},
    }
    let s = chars_of(span.contents.as_str());
    let n = s.len();
    let mut bytes: Vec<u8> = Vec::new();
    let mut i: usize = 0;
    assert(bytes@ + Seq::<u8>::empty() =~= bytes@);
    while i < n
        invariant
            0 <= i <= n == s@.len(),
            s@ == span@.contents,
            n <= usize::MAX,
            !is_constant_name_spec(span@.contents),
            function_name_spec(span@) == Ok::<Option<FunctionName>, ErrorV>(None),
            hex_pairs(span@, 0) == then_hex(bytes@, hex_pairs(span@, i as nat)),
        decreases n - i,
    {
        let first = match hex_digit(s[i]) {
            Some(f) => f,
            None => {
                let c = span.substring_ascii(i, i + 1);
                return Err(ErrorOf::StrayCharacter(c));
            },
        };
        if i + 1 >= n {
            let c = span.substring_ascii(i, i + 1);
            return Err(ErrorOf::SingleHex(c));
        }
        let second = match hex_digit(s[i + 1]) {
            Some(f) => f,
            None => {
                let c = span.substring_ascii(i + 1, i + 2);
                return Err(ErrorOf::StrayCharacter(c));
            },
        };
        let ghost before = bytes@;
        bytes.push(first * 16 + second);
        proof {
            match hex_pairs(span@, (i + 2) as nat) {
                Ok(rest) => {
                    assert(bytes@ + rest =~= before + (seq![(first * 16 + second) as u8] + rest));
                },
                Err(_) => {},
            }
        }
        i = i + 2;
    }
    assert(bytes@ + Seq::<u8>::empty() =~= bytes@);
    Ok(AlphanumsOf::Bytes(bytes))
}

/// The character that a backslash escape stands for.
pub open spec fn escaped(c: char) -> char {
    if c == 'n' {
        '\n'
    } else if c == 'r' {
        '\r'
    } else if c == 't' {
        '\t'
    } else {
        c
    }
}

/// The text of a quoted string with its escapes processed: `\n`, `\r` and
/// `\t` stand for newline, carriage return and tab, and a backslash before
/// any other character stands for that character. A backslash at the very
/// end, which the lexer never leaves, stands for itself.
pub open spec fn unescape(s: Seq<char>) -> Seq<char>
    decreases s.len(),
{
    if s.len() == 0 {
        seq![]
    } else if s[0] != '\\' {
        seq![s[0]] + unescape(s.drop_first())
    } else if s.len() == 1 {
        seq!['\\']
    } else {
        seq![escaped(s[1])] + unescape(s.subrange(2, s.len() as int))
    }
}

/// Processes the escapes in the contents of a quoted string.
pub fn parse_backslashes(span: &Placed<String>) -> (r: Result<String, Error>)
    ensures
        r matches Ok(t) && t@ == unescape(span@.contents),
{
    let s = chars_of(span.contents.as_str());
    let n = s.len();
    let mut out: Vec<char> = Vec::new();
    let mut i: usize = 0;
    assert(s@.subrange(0, n as int) =~= s@);
    while i < n
        invariant
            0 <= i <= n == s@.len(),
            s@ == span@.contents,
            unescape(s@) == out@ + unescape(s@.subrange(i as int, n as int)),
        decreases n - i,
    {
        let ghost rest = s@.subrange(i as int, n as int);
        let ghost before = out@;
        let c = s[i];
        if c != '\\' {
            out.push(c);
            assert(rest.drop_first() =~= s@.subrange(i + 1, n as int));
            i = i + 1;
        } else if i + 1 >= n {
            out.push('\\');
            i = i + 1;
            assert(s@.subrange(i as int, n as int) =~= Seq::<char>::empty());
        } else {
            let next = s[i + 1];
            let e = if next == 'n' {
                '\n'
            } else if next == 'r' {
                '\r'
            } else if next == 't' {
                '\t'
            } else {
                next
            };
            out.push(e);
            assert(rest.subrange(2, rest.len() as int) =~= s@.subrange(i + 2, n as int));
            i = i + 2;
        }
        assert(out@ + unescape(s@.subrange(i as int, n as int)) =~= before + unescape(rest));
    }
    assert(out@ + Seq::<char>::empty() =~= out@);
    Ok(string_of(out))
}

/// The bits that a string of `0`, `1` and `_` characters spells; the
/// underscores only separate.
pub open spec fn bits_of(s: Seq<char>) -> Seq<bool>
    decreases s.len(),
{
    if s.len() == 0 {
        seq![]
    } else if s[0] == '_' {
        bits_of(s.drop_first())
    } else {
        seq![s[0] == '1'] + bits_of(s.drop_first())
    }
}

/// The bits of a bit form, `b` followed by `0`, `1` and `_` characters
/// with at least one bit, if the text is one.
pub open spec fn bit_form_spec(s: Seq<char>) -> Option<Seq<bool>> {
    if s.len() >= 1 && s[0] == 'b'
        && (forall|i: int| 1 <= i < s.len() ==> (#[trigger] s[i] == '0' || s[i] == '1' || s[i] == '_'))
        && bits_of(s.drop_first()).len() > 0 {
        Some(bits_of(s.drop_first()))
    } else {
        None
    }
}

/// Reads the contents of a form as a series of bits, if it is one.
pub fn parse_bit_form(input: &str) -> (r: Option<Vec<bool>>)
    ensures
        match bit_form_spec(input@) {
            Some(b) => r matches Some(v) && v@ == b,
            None => r is None,
        },
{
    let s = chars_of(input);
    let n = s.len();
    if n == 0 || s[0] != 'b' {
        return None;
    }
    let ghost t = s@.drop_first();
    let mut bits: Vec<bool> = Vec::new();
    let mut i: usize = 1;
    assert(s@.subrange(1, n as int) =~= t);
    while i < n
        invariant
            1 <= i <= n == s@.len(),
            s@ == input@,
            t == s@.drop_first(),
            forall|j: int| 1 <= j < i ==> (#[trigger] s@[j] == '0' || s@[j] == '1' || s@[j] == '_'),
            bits_of(t) == bits@ + bits_of(s@.subrange(i as int, n as int)),
        decreases n - i,
    {
        let c = s[i];
        let ghost rest = s@.subrange(i as int, n as int);
        assert(rest.drop_first() =~= s@.subrange(i + 1, n as int));
        let ghost before = bits@;
        if c == '0' {
            bits.push(false);
        } else if c == '1' {
            bits.push(true);
        } else if c == '_' {
        } else {
            return None;
        }
        i = i + 1;
        assert(bits_of(t) =~= bits@ + bits_of(s@.subrange(i as int, n as int)));
    }
    assert(bits@ + Seq::<bool>::empty() =~= bits@);
    if bits.len() == 0 {
        None
    } else {
        Some(bits)
    }
}

/// The number of decimal digits in a row from index `i`.
pub open spec fn digit_run(s: Seq<char>, i: int) -> nat
    decreases s.len() - i,
{
    if 0 <= i < s.len() && is_digit_char(s[i]) {
        1 + digit_run(s, i + 1)
    } else {
        0
    }
}

/// The code of a character lowercased, for the ASCII letters.
pub open spec fn ascii_lower(c: char) -> u32 {
    if is_upper_char(c) {
        ((c as u32) + 32) as u32
    } else {
        c as u32
    }
}

/// Whether the text, ignoring ASCII case, is the given word.
pub open spec fn is_word_ignoring_case(s: Seq<char>, word: Seq<char>) -> bool {
    s.len() == word.len() && forall|i: int| 0 <= i < s.len() ==> ascii_lower(#[trigger] s[i]) == word[i] as u32
}

/// Whether the text from index `p` is an exponent: `e` or `E`, an optional
/// sign, and one or more digits, running to the end.
pub open spec fn is_exponent(t: Seq<char>, p: int) -> bool {
    &&& p < t.len()
    &&& (t[p] == 'e' || t[p] == 'E')
    &&& {
        let q = if p + 1 < t.len() && (t[p + 1] == '+' || t[p + 1] == '-') { p + 2 } else { p + 1 };
        digit_run(t, q) >= 1 && q + digit_run(t, q) == t.len()
    }
}

/// Whether the text is a decimal number: digits with an optional point,
/// with at least one digit, and an optional exponent.
pub open spec fn is_decimal_number(t: Seq<char>) -> bool {
    let a = digit_run(t, 0) as int;
    let (p, digits) = if a < t.len() && t[a] == '.' {
        let b = digit_run(t, a + 1) as int;
        (a + 1 + b, a + b)
    } else {
        (a as int, a as int)
    };
    digits >= 1 && (p == t.len() || is_exponent(t, p))
}

/// Whether the text is a floating-point literal: an optional sign, then
/// `inf`, `infinity` or `nan` in any case, or a decimal number.
pub open spec fn is_float_literal(s: Seq<char>) -> bool {
    let t = if s.len() > 0 && (s[0] == '+' || s[0] == '-') { s.drop_first() } else { s };
    is_word_ignoring_case(t, seq!['i', 'n', 'f']) || is_word_ignoring_case(t, seq!['i', 'n', 'f', 'i', 'n', 'i', 't', 'y'])
        || is_word_ignoring_case(t, seq!['n', 'a', 'n']) || is_decimal_number(t)
}

/// The literal of a float form, `f` followed by a floating-point literal,
/// if the text is one.
pub open spec fn float_form_spec(s: Seq<char>) -> Option<Seq<char>> {
    if s.len() >= 1 && s[0] == 'f' && is_float_literal(s.drop_first()) {
        Some(s.drop_first())
    } else {
        None
    }
}

/// Counts the decimal digits in a row from index `i`.
pub(crate) fn count_digits(s: &Vec<char>, i: usize) -> (r: usize)
    requires
        i <= s@.len(),
    ensures
        r == digit_run(s@, i as int),
        i + r <= s@.len(),
{
    let n = s.len();
    let mut j: usize = i;
    while j < n && digit_char(s[j])
        invariant
            i <= j <= n == s@.len(),
            digit_run(s@, i as int) == (j - i) + digit_run(s@, j as int),
        decreases n - j,
    {
        j = j + 1;
    }
    j - i
}

/// Whether the characters from `from` to the end are the given word,
/// ignoring ASCII case.
fn word_ignoring_case(s: &Vec<char>, from: usize, word: &str) -> (r: bool)
    requires
        from <= s@.len(),
    ensures
        r == is_word_ignoring_case(s@.subrange(from as int, s@.len() as int), word@),
{
    let w = chars_of(word);
    let n = s.len();
    let ghost t = s@.subrange(from as int, n as int);
    if n - from != w.len() {
        return false;
    }
    let mut i: usize = 0;
    while i < w.len()
        invariant
            0 <= i <= w@.len(),
            w@ == word@,
            n - from == w@.len(),
            n == s@.len(),
            t == s@.subrange(from as int, n as int),
            forall|k: int| 0 <= k < i ==> ascii_lower(#[trigger] t[k]) == w@[k] as u32,
        decreases w@.len() - i,
    {
        let c = s[from + i];
        let lower: u32 = if upper_char(c) { (c as u32) + 32 } else { c as u32 };
        assert(t[i as int] == c);
        if lower != w[i] as u32 {
            return false;
        }
        i = i + 1;
    }
    true
}

/// Reads the contents of a form as a floating-point form, returning the
/// literal after the `f`, if it is one. The literal is kept as text, as its
/// width is not known yet.
pub fn parse_float_form(input: &str) -> (r: Option<String>)
    ensures
        match float_form_spec(input@) {
            Some(t) => r matches Some(u) && u@ == t,
            None => r is None,
        },
{
    let s = chars_of(input);
    let n = s.len();
    if n == 0 || s[0] != 'f' {
        return None;
    }
    let signed = n > 1 && (s[1] == '+' || s[1] == '-');
    let start: usize = if signed { 2 } else { 1 };
    let ghost lit = s@.drop_first();
    let ghost t = if lit.len() > 0 && (lit[0] == '+' || lit[0] == '-') { lit.drop_first() } else { lit };
    assert(t =~= s@.subrange(start as int, n as int));
    let special = word_ignoring_case(&s, start, "inf") || word_ignoring_case(&s, start, "infinity")
        || word_ignoring_case(&s, start, "nan");
    proof {
        reveal_strlit("inf");
        reveal_strlit("infinity");
        reveal_strlit("nan");
    }
    let valid = special || decimal_number_at(&s, start);
    if valid {
        Some(slice_string(&s, 1, n))
    } else {
        None
    }
}

/// Whether the characters from `start` to the end are a decimal number.
#[verifier::rlimit(50)]
fn decimal_number_at(s: &Vec<char>, start: usize) -> (r: bool)
    requires
        start <= s@.len(),
    ensures
        r == is_decimal_number(s@.subrange(start as int, s@.len() as int)),
{
    let n = s.len();
    let ghost t = s@.subrange(start as int, n as int);
    let a = count_digits(s, start);
    proof {
        lemma_digit_run_shift(s@, start as int, 0);
    }
    let (p, digits): (usize, usize) = if start + a < n && s[start + a] == '.' {
        let b = count_digits(s, start + a + 1);
        proof {
            lemma_digit_run_shift(s@, start as int, a + 1);
        }
        (start + a + 1 + b, a + b)
    } else {
        (start + a, a)
    };
    if digits < 1 {
        false
    } else if p == n {
        true
    } else if s[p] == 'e' || s[p] == 'E' {
        let q = if p + 1 < n && (s[p + 1] == '+' || s[p + 1] == '-') { p + 2 } else { p + 1 };
        let c = count_digits(s, q);
        proof {
            lemma_digit_run_shift(s@, start as int, q - start);
        }
        c >= 1 && q + c == n
    } else {
        false
    }
}

/// Runs of digits read the same in a text and in its suffix.
proof fn lemma_digit_run_shift(s: Seq<char>, start: int, i: int)
    requires
        0 <= start <= s.len(),
        0 <= i,
    ensures
        digit_run(s.subrange(start, s.len() as int), i) == digit_run(s, start + i),
    decreases s.len() - start - i,
{
    let t = s.subrange(start, s.len() as int);
    if i < t.len() {
        lemma_digit_run_shift(s, start, i + 1);
        assert(t[i] == s[start + i]);
    }
}

/// What `humantime::parse_rfc3339_weak` reads a text as: whole seconds
/// since the Unix epoch, or `None` where the text is not a timestamp.
pub uninterp spec fn rfc3339_weak_seconds(s: Seq<char>) -> Option<u64>;

/// Relies on `humantime::parse_rfc3339_weak`: reads a loosely formatted
/// RFC 3339 timestamp, in UTC, as a time no earlier than the Unix epoch;
/// here as its whole seconds since the epoch.
#[verifier::external_body]
fn timestamp_seconds(text: &str) -> (r: Option<u64>)
    ensures
        r == rfc3339_weak_seconds(text@),
{
    match humantime::parse_rfc3339_weak(text) {
        Ok(time) => match time.duration_since(std::time::UNIX_EPOCH) {
            Ok(since) => Some(since.as_secs()),
            Err(_) => None,
        },
        Err(_) => None,
    }
}

/// What the contents of a form are read as, trying each format in turn:
/// a decimal number, an IPv4 address, an IPv6 address, a series of bits, a
/// floating-point number, and a timestamp, whose seconds are kept to 32 bits.
pub open spec fn form_spec(span: PlacedText) -> Result<ExpV, ErrorV> {
    let s = span.contents;
    if s.len() == 0 {
        Err(ErrorOf::InvalidForm(span))
    } else if all_digits(s) {
        Ok(ExpV::Dec(s))
    } else if ipv4_spec(s) is Some {
        Ok(ExpV::IPv4(ipv4_spec(s)->0))
    } else if ipv6_spec(s) is Some {
        Ok(ExpV::IPv6(ipv6_spec(s)->0))
    } else if bit_form_spec(s) is Some {
        Ok(ExpV::Bits(bit_form_spec(s)->0))
    } else if float_form_spec(s) is Some {
        Ok(ExpV::Float(float_form_spec(s)->0))
    } else if rfc3339_weak_seconds(s) is Some {
        Ok(ExpV::Timestamp((rfc3339_weak_seconds(s)->0 % 0x1_0000_0000) as u32))
    } else {
        Err(ErrorOf::InvalidForm(span))
    }
}

/// Reads the contents of a form, without its brackets, as an expression.
pub fn parse_form(span: &Placed<String>) -> (r: Result<Exp, Error>)
    ensures
        match form_spec(span@) {
            Ok(e) => r matches Ok(x) && exp_view(x) == e,
            Err(e) => r matches Err(f) && f@ == e,
        },
{
    let input = span.contents.as_str();
    let s = chars_of(input);
    if s.len() == 0 {
        return Err(ErrorOf::InvalidForm(span.clone_placed()));
    }
    let mut digits = true;
    let mut i: usize = 0;
    while i < s.len()
        invariant
            0 <= i <= s@.len(),
            digits <==> all_digits(s@.subrange(0, i as int)),
        decreases s@.len() - i,
    {
        proof {
            let p = s@.subrange(0, i as int + 1);
            let q = s@.subrange(0, i as int);
            assert forall|k: int| 0 <= k < q.len() implies q[k] == p[k] by {}
            if !is_digit_char(s@[i as int]) {
                assert(p[i as int] == s@[i as int]);
            }
        }
        if !digit_char(s[i]) {
            digits = false;
        }
        i = i + 1;
    }
    assert(s@.subrange(0, i as int) =~= s@);
    if digits {
        return Ok(Exp::Dec(span.contents.clone()));
    }
    if let Some(bytes) = parse_ipv4(&s) {
        return Ok(Exp::IPv4 { bytes });
    }
    if let Some(bytes) = parse_ipv6(&s) {
        return Ok(Exp::IPv6 { bytes });
    }
    if let Some(bits) = parse_bit_form(input) {
        return Ok(Exp::Bits(bits));
    }
    if let Some(float) = parse_float_form(input) {
        return Ok(Exp::Float(float));
    }
    if let Some(seconds) = timestamp_seconds(input) {
        return Ok(Exp::Timestamp((seconds % 0x1_0000_0000) as u32));
    }
    Err(ErrorOf::InvalidForm(span.clone_placed()))
}

/// The state of the parser between two tokens, over some type of text.
#[derive(PartialEq, Eq, Debug, Clone)]
pub enum StateOf<T> {
    /// Nothing is pending.
    Ready,
    /// An alphanumeric run was just read; its meaning depends on the next
    /// token.
    ReadAlphanum(Placed<T>),
}

/// The state of the parser.
pub type State = StateOf<String>;

/// The state of the parser as the specifications see it.
pub type StateV = StateOf<Seq<char>>;

impl View for State {
    type V = StateV;

    open spec fn view(&self) -> StateV {
        match self {
            StateOf::Ready => StateOf::Ready,
            StateOf::ReadAlphanum(p) => StateOf::ReadAlphanum(p@),
        }
    }
}

/// The view of an optional placed text.
pub open spec fn opt_view(o: Option<Placed<String>>) -> Option<PlacedText> {
    match o {
        Some(p) => Some(p@),
        None => None,
    }
}

/// The expressions after adding those of an alphanumeric run that is not
/// followed by arguments: hex bytes or a constant. A function name there is
/// an error.
pub open spec fn add_spec(acc: Seq<ExpV>, span: PlacedText) -> Result<Seq<ExpV>, ErrorV> {
    match alphanums_spec(span) {
        Err(e) => Err(e),
        Ok(AlphanumsOf::Bytes(bs)) => Ok(acc + bs.map_values(|b: u8| ExpV::Char(b))),
        Ok(AlphanumsOf::ConstantName(n)) => Ok(acc.push(ExpV::Constant(n))),
        Ok(AlphanumsOf::FunctionName(_)) => Err(ErrorOf::StrayFunctionName(span)),
    }
}

/// The result of parsing the tokens from index `pos`, in state `st`, with
/// the expressions `acc` already read. `inner` is the `(` of the function
/// whose arguments are being read, if any: then a `)` ends the parse, and
/// the result holds the index after it. A function's arguments are parsed
/// by a parse of their own, which starts after the `(`.
pub open spec fn parse_from(toks: Seq<TokenV>, pos: nat, st: StateV, inner: Option<PlacedText>, acc: Seq<ExpV>, depth: nat) -> Result<(Seq<ExpV>, nat), ErrorV>
    decreases toks.len() - pos,
{
    if pos >= toks.len() {
        match inner {
            Some(open) => Err(ErrorOf::UnclosedFunction(open)),
            None => match st {
                StateOf::Ready => Ok((acc, pos)),
                StateOf::ReadAlphanum(sl) => match add_spec(acc, sl) {
                    Ok(a) => Ok((a, pos)),
                    Err(e) => Err(e),
                },
            },
        }
    } else {
        let next = pos + 1;
        match (toks[pos as int], st) {
            (TokenOf::Alphanum(sl), StateOf::Ready) => parse_from(toks, next, StateOf::ReadAlphanum(sl), inner, acc, depth),
            (TokenOf::Alphanum(sl2), StateOf::ReadAlphanum(sl)) => match add_spec(acc, sl) {
                Err(e) => Err(e),
                Ok(a) => parse_from(toks, next, StateOf::ReadAlphanum(sl2), inner, a, depth),
            },
            (TokenOf::Open(open), StateOf::ReadAlphanum(sl)) => if depth == 0 {
                Err(ErrorOf::TooDeeplyNested(open))
            } else {
                match parse_from(toks, next, StateOf::Ready, Some(open), seq![], (depth - 1) as nat) {
                Err(e) => Err(e),
                Ok((args, end)) => match function_name_spec(sl) {
                    Err(e) => Err(e),
                    Ok(None) => Err(ErrorOf::InvalidFunctionName(sl)),
                    Ok(Some(name)) =>
                        if pos < end <= toks.len() {
                            parse_from(toks, end, StateOf::Ready, inner, acc.push(ExpV::Function(name, args)), depth)
                        } else {
                            Err(ErrorOf::UnclosedFunction(open))
                        },
                },
                }
            },
            (TokenOf::Open(sp), StateOf::Ready) => Err(ErrorOf::StrayCharacter(sp)),
            (TokenOf::Close(sp), StateOf::Ready) =>
                if inner is None {
                    Err(ErrorOf::StrayCharacter(sp))
                } else {
                    Ok((acc, next))
                },
            (TokenOf::Close(sp), StateOf::ReadAlphanum(sl)) =>
                if inner is None {
                    Err(ErrorOf::StrayCharacter(sp))
                } else {
                    match add_spec(acc, sl) {
                        Err(e) => Err(e),
                        Ok(a) => Ok((a, next)),
                    }
                },
            (TokenOf::Form(f), StateOf::ReadAlphanum(sl)) => match form_spec(f) {
                Err(e) => Err(e),
                Ok(form) => match function_name_spec(sl) {
                    Err(e) => Err(e),
                    Ok(None) => Err(ErrorOf::InvalidFunctionName(sl)),
                    Ok(Some(name)) => parse_from(toks, next, StateOf::Ready, inner, acc.push(ExpV::Function(name, seq![form])), depth),
                },
            },
            (TokenOf::Form(f), StateOf::Ready) => match form_spec(f) {
                Err(e) => Err(e),
                Ok(form) => parse_from(toks, next, StateOf::Ready, inner, acc.push(form), depth),
            },
            (TokenOf::Quoted(q), StateOf::Ready) =>
                parse_from(toks, next, StateOf::Ready, inner, acc.push(ExpV::StringLiteral(unescape(q.contents))), depth),
            (TokenOf::Quoted(q), StateOf::ReadAlphanum(sl)) => match add_spec(acc, sl) {
                Err(e) => Err(e),
                Ok(a) => parse_from(toks, next, StateOf::Ready, inner, a.push(ExpV::StringLiteral(unescape(q.contents))), depth),
            },
            (TokenOf::Whitespace, StateOf::Ready) => parse_from(toks, next, StateOf::Ready, inner, acc, depth),
            (TokenOf::Whitespace, StateOf::ReadAlphanum(sl)) => match add_spec(acc, sl) {
                Err(e) => Err(e),
                Ok(a) => parse_from(toks, next, StateOf::Ready, inner, a, depth),
            },
            (TokenOf::Stray(sp), _) => Err(ErrorOf::StrayCharacter(sp)),
        }
    }
}

/// The expressions that a whole series of tokens parses into.
pub open spec fn parse_tokens_spec(toks: Seq<TokenV>) -> Result<Seq<ExpV>, ErrorV> {
    match parse_from(toks, 0, StateOf::Ready, None, seq![], MAX_NESTING as nat) {
        Ok((es, _)) => Ok(es),
        Err(e) => Err(e),
    }
}

pub proof fn lemma_exps_view_push(v: Seq<Exp>, e: Exp)
    ensures
        exps_view(v.push(e)) == exps_view(v).push(exp_view(e)),
{
    assert(v.push(e).drop_last() =~= v);
}

/// Parses a series of tokens into expressions, stopping at the first error.
pub fn parse_tokens(tokens: Vec<Token>) -> (r: Result<Vec<Exp>, Error>)
    ensures
        match parse_tokens_spec(tokens_view(tokens@)) {
            Ok(es) => r matches Ok(v) && exps_view(v@) == es,
            Err(e) => r matches Err(f) && f@ == e,
        },
{
    let parser = Parser { tokens: &tokens };
    match parser.parse(0, None, MAX_NESTING) {
        Ok((exps, _)) => Ok(exps),
        Err(e) => Err(e),
    }
}

/// The parser, which reads tokens from left to right, descending into the
/// arguments of each function call.
struct Parser<'t> {
    tokens: &'t Vec<Token>,
}

impl<'t> Parser<'t> {
    /// Parses the tokens from index `start`. Where `function_start` holds
    /// the `(` of a function, this parses its arguments, up to and including
    /// its `)`. Returns the expressions and the index after the last token
    /// read.
    fn parse(&self, start: usize, function_start: Option<Placed<String>>, depth: usize) -> (r: Result<(Vec<Exp>, usize), Error>)
        requires
            start <= self.tokens@.len(),
        ensures
            match parse_from(tokens_view(self.tokens@), start as nat, StateOf::Ready, opt_view(function_start), seq![], depth as nat) {
                Ok((es, end)) => r matches Ok((v, e)) && exps_view(v@) == es && e == end && start <= e <= self.tokens@.len(),
                Err(err) => r matches Err(f) && f@ == err,
            },
        decreases self.tokens@.len() - start,
    {
        let ghost toks = tokens_view(self.tokens@);
        let ghost inner = opt_view(function_start);
        let n = self.tokens.len();
        let mut exps: Vec<Exp> = Vec::new();
        let mut state: State = StateOf::Ready;
        let mut i: usize = start;
        assert(exps_view(exps@) =~= seq![]);
        while i < n
            invariant
                start <= i <= n == self.tokens@.len(),
                toks == tokens_view(self.tokens@),
                inner == opt_view(function_start),
                parse_from(toks, start as nat, StateOf::Ready, inner, seq![], depth as nat)
                    == parse_from(toks, i as nat, state@, inner, exps_view(exps@), depth as nat),
            decreases n - i,
        {
            assert(toks[i as int] == self.tokens@[i as int]@);
            let ghost acc = exps_view(exps@);
            match (&self.tokens[i], &state) {
                (TokenOf::Alphanum(slice), StateOf::Ready) => {
                    state = StateOf::ReadAlphanum(slice.clone_placed());
                    i = i + 1;
                },
                (TokenOf::Alphanum(slice2), StateOf::ReadAlphanum(slice)) => {
                    if let Err(e) = add_alphanums(&mut exps, slice) {
                        return Err(e);
                    }
                    state = StateOf::ReadAlphanum(slice2.clone_placed());
                    i = i + 1;
                },
                (TokenOf::Open(open), StateOf::ReadAlphanum(slice)) => {
                    if depth == 0 {
                        return Err(ErrorOf::TooDeeplyNested(open.clone_placed()));
                    }
                    let (args, end) = match self.parse(i + 1, Some(open.clone_placed()), depth - 1) {
                        Ok(t) => t,
                        Err(e) => return Err(e),
                    };
                    let name = match parse_function_name(slice) {
                        Ok(Some(n)) => n,
                        Ok(None) => return Err(ErrorOf::InvalidFunctionName(slice.clone_placed())),
                        Err(e) => return Err(e),
                    };
                    let ghost args_v = exps_view(args@);
                    let f = Exp::Function { name, args };
                    assert(exp_view(f) == ExpV::Function(name, args_v));
                    proof {
                        lemma_exps_view_push(exps@, f);
                    }
                    exps.push(f);
                    state = StateOf::Ready;
                    i = end;
                },
                (TokenOf::Open(span), StateOf::Ready) => {
                    return Err(ErrorOf::StrayCharacter(span.clone_placed()));
                },
                (TokenOf::Close(span), StateOf::Ready) => {
                    if function_start.is_none() {
                        return Err(ErrorOf::StrayCharacter(span.clone_placed()));
                    }
                    return Ok((exps, i + 1));
                },
                (TokenOf::Close(span), StateOf::ReadAlphanum(slice)) => {
                    if function_start.is_none() {
                        return Err(ErrorOf::StrayCharacter(span.clone_placed()));
                    }
                    if let Err(e) = add_alphanums(&mut exps, slice) {
                        return Err(e);
                    }
                    return Ok((exps, i + 1));
                },
                (TokenOf::Form(form_slice), StateOf::ReadAlphanum(alpha_slice)) => {
                    let form = match parse_form(form_slice) {
                        Ok(f) => f,
                        Err(e) => return Err(e),
                    };
                    let name = match parse_function_name(alpha_slice) {
                        Ok(Some(n)) => n,
                        Ok(None) => return Err(ErrorOf::InvalidFunctionName(alpha_slice.clone_placed())),
                        Err(e) => return Err(e),
                    };
                    let ghost form_v = exp_view(form);
                    let mut args: Vec<Exp> = Vec::new();
                    proof {
                        lemma_exps_view_push(args@, form);
                        assert(args@.push(form).drop_last() =~= args@);
                        assert(exps_view(args@) =~= seq![]);
                    }
                    args.push(form);
                    assert(exps_view(args@) =~= seq![form_v]);
                    let f = Exp::Function { name, args };
                    proof {
                        lemma_exps_view_push(exps@, f);
                    }
                    exps.push(f);
                    state = StateOf::Ready;
                    i = i + 1;
                },
                (TokenOf::Form(slice), StateOf::Ready) => {
                    let form = match parse_form(slice) {
                        Ok(f) => f,
                        Err(e) => return Err(e),
                    };
                    proof {
                        lemma_exps_view_push(exps@, form);
                    }
                    exps.push(form);
                    i = i + 1;
                },
                (TokenOf::Quoted(slice), StateOf::Ready) => {
                    let chars = match parse_backslashes(slice) {
                        Ok(c) => c,
                        Err(e) => return Err(e),
                    };
                    let lit = Exp::StringLiteral { chars };
                    proof {
                        lemma_exps_view_push(exps@, lit);
                    }
                    exps.push(lit);
                    i = i + 1;
                },
                (TokenOf::Quoted(quote_slice), StateOf::ReadAlphanum(alpha_slice)) => {
                    if let Err(e) = add_alphanums(&mut exps, alpha_slice) {
                        return Err(e);
                    }
                    let chars = match parse_backslashes(quote_slice) {
                        Ok(c) => c,
                        Err(e) => return Err(e),
                    };
                    let lit = Exp::StringLiteral { chars };
                    proof {
                        lemma_exps_view_push(exps@, lit);
                    }
                    exps.push(lit);
                    state = StateOf::Ready;
                    i = i + 1;
                },
                (TokenOf::Whitespace, StateOf::Ready) => {
                    i = i + 1;
                },
                (TokenOf::Whitespace, StateOf::ReadAlphanum(slice)) => {
                    if let Err(e) = add_alphanums(&mut exps, slice) {
                        return Err(e);
                    }
                    state = StateOf::Ready;
                    i = i + 1;
                },
                (TokenOf::Stray(span), _) => {
                    return Err(ErrorOf::StrayCharacter(span.clone_placed()));
                },
            }
        }
        if let Some(open) = function_start {
            return Err(ErrorOf::UnclosedFunction(open));
        }
        if let StateOf::ReadAlphanum(slice) = &state {
            if let Err(e) = add_alphanums(&mut exps, slice) {
                return Err(e);
            }
        }
        Ok((exps, i))
    }
}

/// Adds the expressions of an alphanumeric run that is not followed by
/// arguments: its bytes, or its constant. A function name there is an
/// error.
fn add_alphanums(exps: &mut Vec<Exp>, slice: &Placed<String>) -> (r: Result<(), Error>)
    ensures
        match add_spec(exps_view(old(exps)@), slice@) {
            Ok(a) => r is Ok && exps_view(final(exps)@) == a,
            Err(e) => r matches Err(f) && f@ == e,
        },
{
    match parse_alphanums(slice) {
        Err(e) => Err(e),
        Ok(AlphanumsOf::Bytes(bytes)) => {
            let ghost start = exps_view(exps@);
            let mut i: usize = 0;
            while i < bytes.len()
                invariant
                    0 <= i <= bytes@.len(),
                    exps_view(exps@) == start + bytes@.subrange(0, i as int).map_values(|b: u8| ExpV::Char(b)),
                decreases bytes@.len() - i,
            {
                let e = Exp::Char(bytes[i]);
                proof {
                    lemma_exps_view_push(exps@, e);
                }
                exps.push(e);
                i = i + 1;
                assert(start + bytes@.subrange(0, i as int).map_values(|b: u8| ExpV::Char(b)) =~= (start
                    + bytes@.subrange(0, i - 1).map_values(|b: u8| ExpV::Char(b))).push(ExpV::Char(bytes@[i - 1])));
            }
            assert(bytes@.subrange(0, i as int) =~= bytes@);
            Ok(())
        },
        Ok(AlphanumsOf::ConstantName(name)) => {
            let e = Exp::Constant { name };
            proof {
                lemma_exps_view_push(exps@, e);
            }
            exps.push(e);
            Ok(())
        },
        Ok(AlphanumsOf::FunctionName(_)) => Err(ErrorOf::StrayFunctionName(slice.clone_placed())),
    }
}


} // verus!
