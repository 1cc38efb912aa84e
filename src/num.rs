//! Numbers: reading decimal text, writing integers as bytes in either
//! order, and reading series of bits.

use vstd::prelude::*;

use crate::text::{digit_char, is_digit_char};

verus! {

broadcast use vstd::std_specs::vec::group_vec_axioms;

/// The value of a string of decimal digits.
pub open spec fn digits_value(d: Seq<char>) -> nat
    decreases d.len(),
{
    if d.len() == 0 {
        0
    } else {
        10 * digits_value(d.drop_last()) + (d.last() as u32 - '0' as u32) as nat
    }
}

/// Whether every character is a decimal digit.
pub open spec fn all_digits(d: Seq<char>) -> bool {
    forall|i: int| 0 <= i < d.len() ==> is_digit_char(#[trigger] d[i])
}

/// The value of text read as an unsigned integer, as Rust's integer parsing
/// reads it: an optional `+` sign, then one or more decimal digits.
pub open spec fn unsigned_value(s: Seq<char>) -> Option<nat> {
    let d = if s.len() > 0 && s[0] == '+' { s.drop_first() } else { s };
    if d.len() > 0 && all_digits(d) {
        Some(digits_value(d))
    } else {
        None
    }
}

/// The value of the text as an unsigned integer no greater than `max`.
pub open spec fn unsigned_within(s: Seq<char>, max: nat) -> Option<nat> {
    match unsigned_value(s) {
        Some(n) if n <= max => Some(n),
        _ => None,
    }
}

proof fn lemma_digits_prefix(d: Seq<char>, i: int)
    requires
        0 <= i <= d.len(),
        all_digits(d),
    ensures
        digits_value(d.subrange(0, i)) <= digits_value(d),
    decreases d.len() - i,
{
    if i < d.len() {
        lemma_digits_prefix(d, i + 1);
        let p = d.subrange(0, i + 1);
        assert(p.drop_last() =~= d.subrange(0, i));
        assert(is_digit_char(d[i]));
    } else {
        assert(d.subrange(0, i) =~= d);
    }
}

/// Reads text as an unsigned integer no greater than `max`, the way that
/// Rust reads an integer type whose largest value is `max`.
pub fn parse_unsigned(s: &str, max: u64) -> (r: Option<u64>)
    ensures
        match unsigned_within(s@, max as nat) {
            Some(n) => r == Some(n as u64),
            None => r is None,
        },
{
    let chars = crate::text::chars_of(s);
    let n = chars.len();
    let start: usize = if n > 0 && chars[0] == '+' { 1 } else { 0 };
    let ghost d = if s@.len() > 0 && s@[0] == '+' { s@.drop_first() } else { s@ };
    assert(d =~= chars@.subrange(start as int, n as int));
    if start >= n {
        return None;
    }
    let mut acc: u64 = 0;
    let mut i: usize = start;
    while i < n
        invariant
            start <= i <= n == chars@.len(),
            chars@ == s@,
            d == chars@.subrange(start as int, n as int),
            d == (if s@.len() > 0 && s@[0] == '+' { s@.drop_first() } else { s@ }),
            d.len() > 0,
            all_digits(chars@.subrange(start as int, i as int)),
            acc as nat == digits_value(chars@.subrange(start as int, i as int)),
            acc <= max,
        decreases n - i,
    {
        let c = chars[i];
        if !digit_char(c) {
            assert(d[i - start] == c);
            assert(!is_digit_char(d[i - start]));
            assert(!all_digits(d));
            assert(unsigned_value(s@) is None);
            return None;
        }
        let digit: u64 = (c as u32 - '0' as u32) as u64;
        proof {
            let p = chars@.subrange(start as int, i as int + 1);
            assert(p.drop_last() =~= chars@.subrange(start as int, i as int));
            assert(p.last() == c);
            assert forall|k: int| 0 <= k < p.len() implies is_digit_char(#[trigger] p[k]) by {
                if k < p.len() - 1 {
                    assert(p[k] == chars@.subrange(start as int, i as int)[k]);
                }
            }
        }
        if digit > max || acc > (max - digit) / 10 {
            proof {
                let p = chars@.subrange(start as int, i as int + 1);
                if digit <= max {
                    assert(digits_value(p) > max) by (nonlinear_arith)
                        requires
                            digits_value(p) == 10 * (acc as nat) + digit,
                            acc > (max - digit) / 10,
                            digit <= max,
                    ;
                }
                let rest_ok = all_digits(d);
                if rest_ok {
                    assert(p =~= d.subrange(0, (i + 1 - start) as int));
                    lemma_digits_prefix(d, (i + 1 - start) as int);
                    assert(digits_value(d) > max);
                }
                assert(unsigned_within(s@, max as nat) is None);
            }
            return None;
        }
        acc = acc * 10 + digit;
        i = i + 1;
    }
    assert(chars@.subrange(start as int, i as int) =~= d);
    Some(acc)
}

/// `256` to the power `w`: one more than the largest number that `w` bytes hold.
pub open spec fn pow256(w: nat) -> nat
    decreases w,
{
    if w == 0 {
        1
    } else {
        256 * pow256((w - 1) as nat)
    }
}

/// The `w` bytes of `n`, least significant first.
pub open spec fn le_bytes(n: nat, w: nat) -> Seq<u8>
    decreases w,
{
    if w == 0 {
        seq![]
    } else {
        seq![(n % 256) as u8] + le_bytes(n / 256, (w - 1) as nat)
    }
}

/// The `w` bytes of `n`, most significant first.
pub open spec fn be_bytes(n: nat, w: nat) -> Seq<u8> {
    le_bytes(n, w).reverse()
}

/// The `w` bytes of `n` in the chosen order.
pub open spec fn int_bytes(n: nat, w: nat, big_endian: bool) -> Seq<u8> {
    if big_endian {
        be_bytes(n, w)
    } else {
        le_bytes(n, w)
    }
}

proof fn lemma_le_bytes_len(n: nat, w: nat)
    ensures
        le_bytes(n, w).len() == w,
    decreases w,
{
    if w > 0 {
        lemma_le_bytes_len(n / 256, (w - 1) as nat);
    }
}

/// Writes the `width` bytes of `n` in the chosen order.
pub fn write_int(n: u64, width: usize, big_endian: bool) -> (r: Vec<u8>)
    ensures
        r@ == int_bytes(n as nat, width as nat, big_endian),
{
    let mut le: Vec<u8> = Vec::new();
    let mut cur: u64 = n;
    let mut i: usize = 0;
    while i < width
        invariant
            0 <= i <= width,
            le_bytes(n as nat, width as nat) == le@ + le_bytes(cur as nat, (width - i) as nat),
        decreases width - i,
    {
        let ghost before = le@;
        le.push((cur % 256) as u8);
        proof {
            assert(le_bytes(cur as nat, (width - i) as nat) =~= seq![(cur % 256) as u8] + le_bytes((cur / 256) as nat, (width - i - 1) as nat));
            assert(le@ + le_bytes((cur / 256) as nat, (width - i - 1) as nat) =~= before + le_bytes(cur as nat, (width - i) as nat));
        }
        cur = cur / 256;
        i = i + 1;
    }
    assert(le@ =~= le_bytes(n as nat, width as nat));
    if !big_endian {
        return le;
    }
    let mut be: Vec<u8> = Vec::new();
    let mut j: usize = le.len();
    while j > 0
        invariant
            0 <= j <= le@.len(),
            be@ =~= le@.subrange(j as int, le@.len() as int).reverse(),
        decreases j,
    {
        j = j - 1;
        be.push(le[j]);
        assert(be@ =~= le@.subrange(j as int, le@.len() as int).reverse());
    }
    assert(le@.subrange(0, le@.len() as int) =~= le@);
    be
}

/// The number that a series of bits spells, most significant bit first.
pub open spec fn bits_value(b: Seq<bool>) -> nat
    decreases b.len(),
{
    if b.len() == 0 {
        0
    } else {
        2 * bits_value(b.drop_last()) + if b.last() { 1nat } else { 0nat }
    }
}

/// `2` to the power `k`.
pub open spec fn pow2(k: nat) -> nat
    decreases k,
{
    if k == 0 {
        1
    } else {
        2 * pow2((k - 1) as nat)
    }
}

/// The powers of two that bound each width.
pub proof fn lemma_pow2_widths()
    ensures
        pow2(8) == 0x100,
        pow2(16) == 0x1_0000,
        pow2(32) == 0x1_0000_0000,
        pow2(64) == 0x1_0000_0000_0000_0000,
{
    reveal_with_fuel(pow2, 65);
}

pub proof fn lemma_bits_value_bound(b: Seq<bool>)
    ensures
        bits_value(b) < pow2(b.len()),
    decreases b.len(),
{
    if b.len() > 0 {
        lemma_bits_value_bound(b.drop_last());
    }
}

pub proof fn lemma_pow2_mono(j: nat, k: nat)
    requires
        j <= k,
    ensures
        pow2(j) <= pow2(k),
    decreases k,
{
    if j < k {
        lemma_pow2_mono(j, (k - 1) as nat);
    }
}

/// Reads a series of at most 64 bits as a number, most significant bit
/// first.
pub fn read_bits(b: &Vec<bool>) -> (r: u64)
    requires
        b@.len() <= 64,
    ensures
        r as nat == bits_value(b@),
{
    let mut acc: u64 = 0;
    let mut i: usize = 0;
    while i < b.len()
        invariant
            0 <= i <= b@.len() <= 64,
            acc as nat == bits_value(b@.subrange(0, i as int)),
        decreases b@.len() - i,
    {
        proof {
            let p = b@.subrange(0, i as int + 1);
            assert(p.drop_last() =~= b@.subrange(0, i as int));
            lemma_bits_value_bound(p);
            lemma_pow2_mono(p.len(), 64);
            lemma_pow2_widths();
        }
        acc = acc * 2 + if b[i] { 1 } else { 0 };
        i = i + 1;
    }
    assert(b@.subrange(0, i as int) =~= b@);
    acc
}

} // verus!
