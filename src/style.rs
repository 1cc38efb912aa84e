//! Formatting the bytes that a program produces as hex characters.

use vstd::prelude::*;

use crate::text::{chars_of, string_of};

verus! {

broadcast use vstd::std_specs::vec::group_vec_axioms;

/// The case of the letters of formatted hex characters.
#[derive(PartialEq, Eq, Debug, Clone, Copy, Structural)]
pub enum LetterCase {
    Upper,
    Lower,
}

impl Default for LetterCase {
    fn default() -> (r: LetterCase)
        ensures
            r == LetterCase::Upper,
    {
        LetterCase::Upper
    }
}

/// How to format output bytes as text: each byte becomes two hex
/// characters, with an optional prefix before and suffix after each pair,
/// and an optional separator between successive pairs.
#[derive(PartialEq, Eq, Debug)]
pub struct Style {
    /// The text to print before each pair of characters.
    pub prefix: Option<String>,
    /// The text to print after each pair of characters.
    pub suffix: Option<String>,
    /// The text to print between successive pairs of characters.
    pub separator: Option<String>,
    /// The case of the letters.
    pub case: LetterCase,
}

impl Default for Style {
    fn default() -> (r: Style)
        ensures
            r.prefix is None && r.suffix is None && r.separator is None && r.case == LetterCase::Upper,
    {
        Style { prefix: None, suffix: None, separator: None, case: LetterCase::Upper }
    }
}

/// The hex character of a number below 16, in the given case.
pub open spec fn hex_char(d: nat, case: LetterCase) -> char {
    if d < 10 {
        (d + '0' as nat) as char
    } else if case is Upper {
        (d - 10 + 'A' as nat) as char
    } else {
        (d - 10 + 'a' as nat) as char
    }
}

/// The text of an optional string; nothing where there is none.
pub open spec fn opt_text(s: Option<String>) -> Seq<char> {
    match s {
        Some(t) => t@,
        None => seq![],
    }
}

/// The text of the given bytes, formatted in the style, without the final
/// newline.
pub open spec fn formatted(style: Style, bytes: Seq<u8>) -> Seq<char>
    decreases bytes.len(),
{
    if bytes.len() == 0 {
        seq![]
    } else {
        let b = bytes.last();
        formatted(style, bytes.drop_last())
            + (if bytes.len() > 1 { opt_text(style.separator) } else { seq![] })
            + opt_text(style.prefix)
            + seq![hex_char((b / 16) as nat, style.case), hex_char((b % 16) as nat, style.case)]
            + opt_text(style.suffix)
    }
}

fn hex_char_of(d: u8, case: LetterCase) -> (r: char)
    requires
        d < 16,
    ensures
        r == hex_char(d as nat, case),
{
    if d < 10 {
        (d + 48u8) as char
    } else if matches!(case, LetterCase::Upper) {
        (d - 10 + 65u8) as char
    } else {
        (d - 10 + 97u8) as char
    }
}

fn opt_chars(s: &Option<String>) -> (r: Vec<char>)
    ensures
        r@ == opt_text(*s),
{
    match s {
        Some(t) => chars_of(t.as_str()),
        None => Vec::new(),
    }
}

impl Style {
    /// Formats the bytes in this style, ending with a newline.
    pub fn format(&self, bytes: &Vec<u8>) -> (r: String)
        ensures
            r@ == formatted(*self, bytes@) + seq!['\n'],
    {
        let prefix = opt_chars(&self.prefix);
        let suffix = opt_chars(&self.suffix);
        let separator = opt_chars(&self.separator);
        let mut out: Vec<char> = Vec::new();
        let mut i: usize = 0;
        while i < bytes.len()
            invariant
                0 <= i <= bytes@.len(),
                prefix@ == opt_text(self.prefix),
                suffix@ == opt_text(self.suffix),
                separator@ == opt_text(self.separator),
                out@ == formatted(*self, bytes@.subrange(0, i as int)),
            decreases bytes@.len() - i,
        {
            let ghost before = out@;
            let b = bytes[i];
            if i > 0 {
                extend_chars(&mut out, &separator);
            }
            extend_chars(&mut out, &prefix);
            out.push(hex_char_of(b / 16, self.case));
            out.push(hex_char_of(b % 16, self.case));
            extend_chars(&mut out, &suffix);
            proof {
                let p = bytes@.subrange(0, i + 1);
                assert(p.drop_last() =~= bytes@.subrange(0, i as int));
                assert(p.last() == b);
                assert(out@ =~= formatted(*self, p));
            }
            i = i + 1;
        }
        out.push('\n');
        assert(bytes@.subrange(0, i as int) =~= bytes@);
        string_of(out)
    }
}

fn extend_chars(out: &mut Vec<char>, more: &Vec<char>)
    ensures
        final(out)@ == old(out)@ + more@,
{
    let mut i: usize = 0;
    let ghost start = out@;
    while i < more.len()
        invariant
            0 <= i <= more@.len(),
            out@ == start + more@.subrange(0, i as int),
        decreases more@.len() - i,
    {
        out.push(more[i]);
        i = i + 1;
        assert(out@ =~= start + more@.subrange(0, i as int));
    }
    assert(more@.subrange(0, i as int) =~= more@);
}

} // verus!
