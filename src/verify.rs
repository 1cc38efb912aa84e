//! Checking that the output's length has a property before it is printed.

use vstd::prelude::*;

use crate::text::string_of;

verus! {

broadcast use vstd::std_specs::vec::group_vec_axioms;

/// The number of bytes that running a program produces.
pub type OutputLength = usize;

/// A check on the length of the output, made after all of it has been
/// produced.
#[derive(PartialEq, Eq, Debug, Clone, Copy, Structural)]
pub enum Verification {
    /// The output's length must be exactly this number.
    ExactLength(OutputLength),
    /// The output's length must be a multiple of this number.
    Multiple(OutputLength),
    /// Anything goes.
    AnythingGoes,
}

/// The decimal digits of a number, most significant first, without
/// leading zeros.
pub open spec fn decimal_text(n: nat) -> Seq<char>
    decreases n,
{
    if n < 10 {
        seq![(n + '0' as nat) as char]
    } else {
        decimal_text(n / 10) + seq![((n % 10) + '0' as nat) as char]
    }
}

/// Writes a number in decimal.
pub fn decimal_string(n: usize) -> (r: String)
    ensures
        r@ == decimal_text(n as nat),
{
    let mut rev: Vec<char> = Vec::new();
    let mut cur: usize = n;
    let mut lower: Vec<char> = Vec::new();
    // `lower` holds the digits below `cur`, most significant first.
    loop
        invariant
            decimal_text(n as nat) == decimal_text(cur as nat) + lower@,
        decreases cur,
    {
        if cur < 10 {
            let mut out: Vec<char> = Vec::new();
            out.push(char_of_digit(cur));
            let ghost lv = lower@;
            out.append(&mut lower);
            assert(out@ =~= decimal_text(cur as nat) + lv);
            return string_of(out);
        }
        let d = char_of_digit(cur % 10);
        let mut next: Vec<char> = Vec::new();
        next.push(d);
        let ghost lv = lower@;
        next.append(&mut lower);
        assert(next@ =~= seq![d] + lv);
        assert(decimal_text(cur as nat) =~= decimal_text((cur / 10) as nat) + seq![d]);
        lower = next;
        cur = cur / 10;
    }
}

fn char_of_digit(d: usize) -> (r: char)
    requires
        d < 10,
    ensures
        r == (d + '0' as nat) as char,
{
    (d as u8 + 48u8) as char
}

impl Verification {
    /// Whether an output of the given length passes this check.
    pub open spec fn passes(self, ol: nat) -> bool {
        match self {
            Verification::ExactLength(exact) => ol == exact,
            Verification::Multiple(m) => ol % (m as nat) == 0,
            Verification::AnythingGoes => true,
        }
    }

    /// Checks the length of the output, returning what the length should
    /// be where the check fails.
    pub fn verify(self, ol: OutputLength) -> (r: Result<(), String>)
        requires
            !(self matches Verification::Multiple(0)),
        ensures
            r is Ok <==> self.passes(ol as nat),
            match (self, r) {
                (Verification::ExactLength(exact), Err(text)) => text@ == decimal_text(exact as nat),
                (Verification::Multiple(m), Err(text)) => text@
                    == seq!['m', 'u', 'l', 't', 'i', 'p', 'l', 'e', ' ', 'o', 'f', ' '] + decimal_text(m as nat),
                _ => true,
            },
    {
        match self {
            Verification::ExactLength(exact) => {
                if ol != exact {
                    return Err(decimal_string(exact));
                }
            },
            Verification::Multiple(multiple) => {
                if ol % multiple != 0 {
                    let mut text = crate::text::chars_of("multiple of ");
                    let mut digits = crate::text::chars_of(decimal_string(multiple).as_str());
                    proof {
                        reveal_strlit("multiple of ");
                    }
                    let ghost tv = text@;
                    let ghost dv = digits@;
                    text.append(&mut digits);
                    assert(text@ =~= seq!['m', 'u', 'l', 't', 'i', 'p', 'l', 'e', ' ', 'o', 'f', ' '] + dv);
                    return Err(string_of(text));
                }
            },
            Verification::AnythingGoes => {},
        }
        Ok(())
    }
}

} // verus!
