//! Laws that relate the functions of the language to each other.

use vstd::prelude::*;

use crate::ast::{exp_view, exps_view, BitwiseFold, Exp, ExpV, FunctionName, MultiByteType, MAX_NESTING};
use crate::eval::{
    apply_bitwise_spec, cast_spec, complement, eval_spec, exps_bytes_spec, fold_bytes, fold_u8, function_spec, repeat_bytes, to_bytes_spec, bits_spec, EvalEnv, ErrorOf, LargeNumberOf,
    MultiByteValue, ValueOf, ValueV,
};
use crate::num::{all_digits, be_bytes, bits_value, digits_value, le_bytes, pow256};
use crate::parse::{
    add_spec, alphanums_spec, bit_form_spec, bits_of, function_name_spec, hex_pairs, is_constant_name_spec, parse_from,
    parse_tokens_spec, AlphanumsOf, StateOf,
};
use crate::lex::{lex_prefix, lex_spec, span, LexState};
use crate::pos::{placed, PlacedText};
use crate::read::{first_stray, last_colon, line_tokens_spec, strip_spec, tokenise_and_parse_spec};
use crate::tokens::{is_colon_token, TokenOf, TokenV};
use crate::text::{hex_value, is_word_char};

verus! {

broadcast use vstd::std_specs::vec::group_vec_axioms, vstd::seq::group_seq_axioms;

/// The bytes that a string of hex digits spells, two digits to a byte.
pub open spec fn hex_bytes(s: Seq<char>) -> Seq<u8> {
    Seq::new(s.len() / 2, |i: int| (hex_value(s[2 * i])->0 * 16 + hex_value(s[2 * i + 1])->0) as u8)
}

proof fn lemma_hex_pairs_from(span: PlacedText, i: nat)
    requires
        span.contents.len() % 2 == 0,
        i % 2 == 0,
        i <= span.contents.len(),
        forall|k: int| 0 <= k < span.contents.len() ==> hex_value(#[trigger] span.contents[k]) is Some,
    ensures
        hex_pairs(span, i) == Ok::<Seq<u8>, crate::parse::ErrorV>(hex_bytes(span.contents).subrange((i / 2) as int, (span.contents.len() / 2) as int)),
    decreases span.contents.len() - i,
{
    let s = span.contents;
    if i < s.len() {
        lemma_hex_pairs_from(span, i + 2);
        assert(hex_bytes(s).subrange((i / 2) as int, (s.len() / 2) as int) =~= seq![hex_bytes(s)[(i / 2) as int]]
            + hex_bytes(s).subrange(((i + 2) / 2) as int, (s.len() / 2) as int));
        assert(2 * (i / 2) == i);
    } else {
        assert(hex_bytes(s).subrange((i / 2) as int, (s.len() / 2) as int) =~= Seq::<u8>::empty());
    }
}

/// An even-length run of hex digits that names no function and no
/// constant reads as the bytes that its pairs spell.
pub proof fn law_hex_run_reads_pairs(span: PlacedText)
    requires
        span.contents.len() % 2 == 0,
        forall|k: int| 0 <= k < span.contents.len() ==> hex_value(#[trigger] span.contents[k]) is Some,
        function_name_spec(span) == Ok::<Option<FunctionName>, crate::parse::ErrorV>(None),
    ensures
        alphanums_spec(span) == Ok::<crate::parse::AlphanumsV, crate::parse::ErrorV>(AlphanumsOf::Bytes(hex_bytes(span.contents))),
        hex_bytes(span.contents).len() == span.contents.len() / 2,
{
    let s = span.contents;
    if is_constant_name_spec(s) {
        let k = choose|k: int| 0 <= k < s.len() && s[k] == '_';
        assert(hex_value(s[k]) is Some);
    }
    lemma_hex_pairs_from(span, 0);
    assert(hex_bytes(s).subrange(0, (s.len() / 2) as int) =~= hex_bytes(s));
}

/// Evaluating a series of byte expressions gives exactly their bytes.
pub proof fn law_chars_evaluate_to_bytes(env: EvalEnv, exps: Seq<Exp>, bytes: Seq<u8>, depth: nat)
    requires
        exps_view(exps) == bytes.map_values(|b: u8| ExpV::Char(b)),
    ensures
        exps_bytes_spec(env, exps, depth) == Ok::<Seq<u8>, crate::eval::ErrorV>(bytes),
    decreases exps.len(),
{
    lemma_exps_view_len(exps);
    if exps.len() > 0 {
        let rest = exps.drop_first();
        lemma_exps_view_index(exps, 0);
        assert(exp_view(exps[0]) == ExpV::Char(bytes[0]));
        assert(exps[0] == Exp::Char(bytes[0]));
        assert(eval_spec(env, exps[0], depth) == Ok::<ValueV, crate::eval::ErrorV>(ValueOf::Byte(bytes[0])));
        assert(to_bytes_spec(ValueOf::Byte(bytes[0])) == Ok::<Seq<u8>, crate::eval::ErrorV>(seq![bytes[0]]));
        lemma_exps_view_drop_first(exps);
        assert(bytes.drop_first().map_values(|b: u8| ExpV::Char(b)) =~= bytes.map_values(|b: u8| ExpV::Char(b)).drop_first());
        law_chars_evaluate_to_bytes(env, rest, bytes.drop_first(), depth);
        assert(seq![bytes[0]] + bytes.drop_first() =~= bytes);
    } else {
        assert(bytes.map_values(|b: u8| ExpV::Char(b)).len() == 0);
        assert(bytes =~= Seq::<u8>::empty());
    }
}

pub proof fn lemma_exps_view_len(es: Seq<Exp>)
    ensures
        exps_view(es).len() == es.len(),
    decreases es.len(),
{
    if es.len() > 0 {
        lemma_exps_view_len(es.drop_last());
    }
}

pub proof fn lemma_exps_view_index(es: Seq<Exp>, i: int)
    requires
        0 <= i < es.len(),
    ensures
        exps_view(es)[i] == exp_view(es[i]),
    decreases es.len(),
{
    lemma_exps_view_len(es.drop_last());
    if i < es.len() - 1 {
        lemma_exps_view_index(es.drop_last(), i);
    }
}

pub proof fn lemma_exps_view_drop_first(es: Seq<Exp>)
    requires
        es.len() > 0,
    ensures
        exps_view(es.drop_first()) == exps_view(es).drop_first(),
{
    lemma_exps_view_len(es);
    lemma_exps_view_len(es.drop_first());
    assert forall|i: int| 0 <= i < es.len() - 1 implies exps_view(es.drop_first())[i] == exps_view(es).drop_first()[i] by {
        lemma_exps_view_index(es.drop_first(), i);
        lemma_exps_view_index(es, i + 1);
    }
    assert(exps_view(es.drop_first()) =~= exps_view(es).drop_first());
}

pub proof fn lemma_repeat_bytes(t: Seq<u8>, n: nat)
    ensures
        repeat_bytes(t, n).len() == t.len() * n,
        forall|i: int| 0 <= i < t.len() * n ==> #[trigger] repeat_bytes(t, n)[i] == t[i % (t.len() as int)],
    decreases n,
{
    if n == 0 {
        assert(t.len() * n == 0) by (nonlinear_arith)
            requires
                n == 0,
        ;
    } else {
        lemma_repeat_bytes(t, (n - 1) as nat);
        let prev = repeat_bytes(t, (n - 1) as nat);
        assert(repeat_bytes(t, n) == prev + t);
        assert(t.len() * n == t.len() * (n - 1) + t.len()) by (nonlinear_arith);
        assert forall|i: int| 0 <= i < t.len() * n implies #[trigger] repeat_bytes(t, n)[i] == t[i % (t.len() as int)] by {
            if i >= t.len() * (n - 1) {
                let j = i - t.len() * (n - 1);
                assert(i % (t.len() as int) == j) by (nonlinear_arith)
                    requires
                        i == t.len() * (n - 1) + j,
                        0 <= j < t.len(),
                ;
            } else {
                assert(repeat_bytes(t, n)[i] == prev[i]);
            }
        }
    }
}

/// `x<n>` with arguments whose bytes are `t` gives `t` repeated `n` times,
/// where no limit is set.
pub proof fn law_repeat(env: EvalEnv, n: u16, args: Seq<Exp>, t: Seq<u8>, depth: nat)
    requires
        env.limit is None,
        exps_bytes_spec(env, args, depth) == Ok::<Seq<u8>, crate::eval::ErrorV>(t),
    ensures
        function_spec(env, FunctionName::Repeat(n), args, depth) == Ok::<ValueV, crate::eval::ErrorV>(ValueOf::VariableBytes(repeat_bytes(t, n as nat))),
        repeat_bytes(t, n as nat).len() == t.len() * n,
        forall|i: int| 0 <= i < t.len() * n ==> #[trigger] repeat_bytes(t, n as nat)[i] == t[i % (t.len() as int)],
{
    lemma_repeat_bytes(t, n as nat);
}

/// A repeat amount of zero is an error when the function name is read.
pub proof fn law_repeat_zero_is_invalid(span: PlacedText)
    requires
        span.contents.len() >= 2,
        span.contents[0] == 'x',
        all_digits(span.contents.drop_first()),
        digits_value(span.contents.drop_first()) == 0,
    ensures
        function_name_spec(span) == Err::<Option<FunctionName>, crate::parse::ErrorV>(crate::parse::ErrorOf::InvalidRepeatAmount(span)),
{
}

/// Where a limit is set, a repeat function fails with `TooMuchOutput`
/// exactly when the template's length times the amount reaches the limit;
/// where none is set, it never does.
pub proof fn law_too_much_output(env: EvalEnv, n: u16, args: Seq<Exp>, t: Seq<u8>, depth: nat)
    requires
        exps_bytes_spec(env, args, depth) == Ok::<Seq<u8>, crate::eval::ErrorV>(t),
    ensures
        function_spec(env, FunctionName::Repeat(n), args, depth) == Err::<ValueV, crate::eval::ErrorV>(ErrorOf::TooMuchOutput)
            <==> (env.limit matches Some(l) && l <= t.len() * n),
        env.limit is None ==> function_spec(env, FunctionName::Repeat(n), args, depth) is Ok,
{
}

/// The two bytes that `be16` writes, read back most significant first,
/// give the number again; a number above 65535 is too big.
pub proof fn law_be16_round_trip(env: EvalEnv, s: Seq<char>)
    requires
        s.len() > 0,
        all_digits(s),
    ensures
        digits_value(s) <= 0xFFFF ==> ({
            let r = cast_spec(env, ValueOf::RawNumber(s), MultiByteType::Be16);
            r matches Ok(ValueOf::VariableBytes(b)) && b.len() == 2 && b[0] as nat * 256 + b[1] as nat == digits_value(s)
        }),
        digits_value(s) > 0xFFFF ==> cast_spec(env, ValueOf::RawNumber(s), MultiByteType::Be16)
            == Err::<ValueV, crate::eval::ErrorV>(ErrorOf::TooBigDecimal(LargeNumberOf::FoundRawNumber(s))),
{
    assert(crate::text::is_digit_char(s[0]));
    reveal_with_fuel(pow256, 3);
    let v = digits_value(s);
    if v <= 0xFFFF {
        reveal_with_fuel(le_bytes, 3);
        let le = le_bytes(v, 2);
        assert(le =~= seq![(v % 256) as u8, ((v / 256) % 256) as u8]);
        let b = be_bytes(v, 2);
        assert(b =~= seq![((v / 256) % 256) as u8, (v % 256) as u8]);
        assert((v / 256) % 256 == v / 256);
        assert((v / 256) * 256 + v % 256 == v);
    }
}

/// The bitwise folds are commutative.
pub proof fn law_bitwise_commutative(a: ValueV, b: ValueV, op: BitwiseFold)
    ensures
        apply_bitwise_spec(a, b, op) == apply_bitwise_spec(b, a, op),
{
    assert forall|x: u8, y: u8| #[trigger] fold_u8(op, x, y) == fold_u8(op, y, x) by {
        assert(x & y == y & x && (x | y) == (y | x) && x ^ y == y ^ x) by (bit_vector);
    }
    match (a, b) {
        (ValueOf::MultiByte(MultiByteValue::Sixteen(x)), ValueOf::MultiByte(MultiByteValue::Sixteen(y))) => {
            assert(x & y == y & x && (x | y) == (y | x) && x ^ y == y ^ x) by (bit_vector);
        },
        (ValueOf::MultiByte(MultiByteValue::ThirtyTwo(x)), ValueOf::MultiByte(MultiByteValue::ThirtyTwo(y))) => {
            assert(x & y == y & x && (x | y) == (y | x) && x ^ y == y ^ x) by (bit_vector);
        },
        (ValueOf::MultiByte(MultiByteValue::SixtyFour(x)), ValueOf::MultiByte(MultiByteValue::SixtyFour(y))) => {
            assert(x & y == y & x && (x | y) == (y | x) && x ^ y == y ^ x) by (bit_vector);
        },
        (ValueOf::VariableBytes(xs), ValueOf::VariableBytes(ys)) => {
            if xs.len() == ys.len() {
                assert(fold_bytes(op, xs, ys) =~= fold_bytes(op, ys, xs));
            }
        },
        _ => {},
    }
}

/// Whether two values have the same shape: both bytes, both numbers of the
/// same width, or byte sequences of the same length.
pub open spec fn same_shape(a: ValueV, b: ValueV) -> bool {
    match (a, b) {
        (ValueOf::Byte(_), ValueOf::Byte(_)) => true,
        (ValueOf::MultiByte(MultiByteValue::Sixteen(_)), ValueOf::MultiByte(MultiByteValue::Sixteen(_))) => true,
        (ValueOf::MultiByte(MultiByteValue::ThirtyTwo(_)), ValueOf::MultiByte(MultiByteValue::ThirtyTwo(_))) => true,
        (ValueOf::MultiByte(MultiByteValue::SixtyFour(_)), ValueOf::MultiByte(MultiByteValue::SixtyFour(_))) => true,
        (ValueOf::VariableBytes(xs), ValueOf::VariableBytes(ys)) => xs.len() == ys.len(),
        _ => false,
    }
}

/// The bitwise folds are associative over values of the same shape.
pub proof fn law_bitwise_associative(a: ValueV, b: ValueV, c: ValueV, op: BitwiseFold)
    requires
        same_shape(a, b),
        same_shape(b, c),
    ensures
        ({
            let ab = apply_bitwise_spec(a, b, op)->Ok_0;
            let bc = apply_bitwise_spec(b, c, op)->Ok_0;
            apply_bitwise_spec(a, b, op) is Ok && apply_bitwise_spec(b, c, op) is Ok
                && apply_bitwise_spec(ab, c, op) == apply_bitwise_spec(a, bc, op)
        }),
{
    assert forall|x: u8, y: u8, z: u8| #[trigger] fold_u8(op, fold_u8(op, x, y), z) == fold_u8(op, x, fold_u8(op, y, z)) by {
        assert((x & y) & z == x & (y & z) && ((x | y) | z) == (x | (y | z)) && (x ^ y) ^ z == x ^ (y ^ z)) by (bit_vector);
    }
    match (a, b, c) {
        (ValueOf::MultiByte(MultiByteValue::Sixteen(x)), ValueOf::MultiByte(MultiByteValue::Sixteen(y)), ValueOf::MultiByte(MultiByteValue::Sixteen(z))) => {
            assert((x & y) & z == x & (y & z) && ((x | y) | z) == (x | (y | z)) && (x ^ y) ^ z == x ^ (y ^ z)) by (bit_vector);
        },
        (ValueOf::MultiByte(MultiByteValue::ThirtyTwo(x)), ValueOf::MultiByte(MultiByteValue::ThirtyTwo(y)), ValueOf::MultiByte(MultiByteValue::ThirtyTwo(z))) => {
            assert((x & y) & z == x & (y & z) && ((x | y) | z) == (x | (y | z)) && (x ^ y) ^ z == x ^ (y ^ z)) by (bit_vector);
        },
        (ValueOf::MultiByte(MultiByteValue::SixtyFour(x)), ValueOf::MultiByte(MultiByteValue::SixtyFour(y)), ValueOf::MultiByte(MultiByteValue::SixtyFour(z))) => {
            assert((x & y) & z == x & (y & z) && ((x | y) | z) == (x | (y | z)) && (x ^ y) ^ z == x ^ (y ^ z)) by (bit_vector);
        },
        (ValueOf::VariableBytes(xs), ValueOf::VariableBytes(ys), ValueOf::VariableBytes(zs)) => {
            assert(fold_bytes(op, fold_bytes(op, xs, ys), zs) =~= fold_bytes(op, xs, fold_bytes(op, ys, zs)));
        },
        _ => {},
    }
}

/// Complementing every byte twice gives the bytes back.
pub proof fn law_not_not(x: Seq<u8>)
    ensures
        complement(complement(x)) == x,
{
    assert forall|i: int| 0 <= i < x.len() implies complement(complement(x))[i] == x[i] by {
        let b = x[i];
        assert(!(!b) == b) by (bit_vector);
    }
    assert(complement(complement(x)) =~= x);
}

/// `not(not(X))` evaluates to the bytes of `X`.
pub proof fn law_not_of_not(env: EvalEnv, inner: Exp, x: Seq<u8>, depth: nat)
    requires
        inner matches Exp::Function { name: FunctionName::BitwiseNot, args } && exps_bytes_spec(env, args@, depth)
            == Ok::<Seq<u8>, crate::eval::ErrorV>(x),
    ensures
        function_spec(env, FunctionName::BitwiseNot, seq![inner], depth + 1) == Ok::<ValueV, crate::eval::ErrorV>(ValueOf::VariableBytes(x)),
{
    law_not_not(x);
    let s = seq![inner];
    assert(s.drop_first() =~= Seq::<Exp>::empty());
    assert(s[0] == inner);
    let args = inner->Function_args;
    assert(eval_spec(env, inner, depth + 1) == function_spec(env, FunctionName::BitwiseNot, args@, depth));
    assert(eval_spec(env, inner, depth + 1) == Ok::<ValueV, crate::eval::ErrorV>(ValueOf::VariableBytes(complement(x))));
    assert(exps_bytes_spec(env, Seq::<Exp>::empty(), depth + 1) == Ok::<Seq<u8>, crate::eval::ErrorV>(seq![]));
    assert(complement(x) + Seq::<u8>::empty() =~= complement(x));
    assert(exps_bytes_spec(env, s, depth + 1) == Ok::<Seq<u8>, crate::eval::ErrorV>(complement(x)));
}

/// The number that a pattern of `0` and `1` characters spells in binary,
/// most significant first.
pub open spec fn binary_value(p: Seq<char>) -> nat
    decreases p.len(),
{
    if p.len() == 0 {
        0
    } else {
        2 * binary_value(p.drop_last()) + if p.last() == '1' { 1nat } else { 0nat }
    }
}

proof fn lemma_bits_of_plain(p: Seq<char>)
    requires
        forall|i: int| 0 <= i < p.len() ==> (#[trigger] p[i] == '0' || p[i] == '1'),
    ensures
        bits_of(p) == p.map_values(|c: char| c == '1'),
        bits_value(bits_of(p)) == binary_value(p),
    decreases p.len(),
{
    if p.len() > 0 {
        lemma_bits_of_plain(p.drop_first());
        assert(bits_of(p) =~= p.map_values(|c: char| c == '1'));
        lemma_bits_value_binary(p);
    }
}

proof fn lemma_bits_value_binary(p: Seq<char>)
    ensures
        bits_value(p.map_values(|c: char| c == '1')) == binary_value(p),
    decreases p.len(),
{
    if p.len() > 0 {
        lemma_bits_value_binary(p.drop_last());
        assert(p.map_values(|c: char| c == '1').drop_last() =~= p.drop_last().map_values(|c: char| c == '1'));
    }
}

/// A bit form of at most eight bits reads as one byte, the number that its
/// pattern spells in binary; up to sixteen, thirty-two or sixty-four bits,
/// as a number of that width; more than sixty-four bits are an error.
pub proof fn law_bit_form(p: Seq<char>)
    requires
        p.len() > 0,
        forall|i: int| 0 <= i < p.len() ==> (#[trigger] p[i] == '0' || p[i] == '1'),
    ensures
        bit_form_spec(seq!['b'] + p) == Some(p.map_values(|c: char| c == '1')),
        p.len() <= 8 ==> bits_spec(p.map_values(|c: char| c == '1'))
            == Ok::<ValueV, crate::eval::ErrorV>(ValueOf::Byte(binary_value(p) as u8)) && binary_value(p) < 256,
        8 < p.len() <= 16 ==> bits_spec(p.map_values(|c: char| c == '1'))
            == Ok::<ValueV, crate::eval::ErrorV>(ValueOf::MultiByte(MultiByteValue::Sixteen(binary_value(p) as u16))),
        16 < p.len() <= 32 ==> bits_spec(p.map_values(|c: char| c == '1'))
            == Ok::<ValueV, crate::eval::ErrorV>(ValueOf::MultiByte(MultiByteValue::ThirtyTwo(binary_value(p) as u32))),
        32 < p.len() <= 64 ==> bits_spec(p.map_values(|c: char| c == '1'))
            == Ok::<ValueV, crate::eval::ErrorV>(ValueOf::MultiByte(MultiByteValue::SixtyFour(binary_value(p) as u64))),
        p.len() > 64 ==> bits_spec(p.map_values(|c: char| c == '1')) is Err,
{
    let s = seq!['b'] + p;
    assert(s.drop_first() =~= p);
    assert forall|i: int| 1 <= i < s.len() implies (#[trigger] s[i] == '0' || s[i] == '1' || s[i] == '_') by {
        assert(s[i] == p[i - 1]);
    }
    lemma_bits_of_plain(p);
    let bits = p.map_values(|c: char| c == '1');
    crate::num::lemma_bits_value_bound(bits);
    crate::num::lemma_pow2_widths();
    if p.len() <= 8 {
        crate::num::lemma_pow2_mono(p.len(), 8);
    }
}

proof fn lemma_lex_word(line: usize, s: Seq<char>, n: nat)
    requires
        1 <= n <= s.len(),
        forall|k: int| 0 <= k < n ==> is_word_char(#[trigger] s[k]),
    ensures
        lex_prefix(line, s, n) == (LexState::ReadAlphanum { anchor: 0 }, Seq::<TokenV>::empty()),
    decreases n,
{
    assert(is_word_char(s[n - 1]));
    if n > 1 {
        lemma_lex_word(line, s, (n - 1) as nat);
    }
    let (st, toks) = lex_prefix(line, s, (n - 1) as nat);
    let (st2, more) = crate::lex::lex_step(line, s, n - 1, st);
    assert(st2 == LexState::ReadAlphanum { anchor: 0 });
    assert(more =~= Seq::<TokenV>::empty());
    assert(toks =~= Seq::<TokenV>::empty());
    assert(toks + more =~= Seq::<TokenV>::empty());
}

/// A line that is one even-length run of hex digits, naming no function,
/// reads as one byte for each pair of digits, and those expressions
/// evaluate to exactly those bytes.
pub proof fn law_hex_line(line: usize, s: Seq<char>, env: EvalEnv, exps: Seq<Exp>)
    requires
        s.len() > 0,
        s.len() % 2 == 0,
        forall|k: int| 0 <= k < s.len() ==> hex_value(#[trigger] s[k]) is Some,
        function_name_spec(placed(s, line, 0)) == Ok::<Option<FunctionName>, crate::parse::ErrorV>(None),
    ensures
        tokenise_and_parse_spec(s, line) == Ok::<Seq<ExpV>, crate::read::ErrorV>(hex_bytes(s).map_values(|b: u8| ExpV::Char(b))),
        hex_bytes(s).len() == s.len() / 2,
        exps_view(exps) == hex_bytes(s).map_values(|b: u8| ExpV::Char(b)) ==> exps_bytes_spec(env, exps, MAX_NESTING as nat)
            == Ok::<Seq<u8>, crate::eval::ErrorV>(hex_bytes(s)),
{
    assert forall|k: int| 0 <= k < s.len() implies is_word_char(#[trigger] s[k]) by {
        assert(hex_value(s[k]) is Some);
    }
    lemma_lex_word(line, s, s.len());
    let sp = span(line, s, 0, s.len() as int, 0);
    assert(s.subrange(0, s.len() as int) =~= s);
    assert(sp == placed(s, line, 0));
    let toks = seq![TokenOf::Alphanum(sp)];
    assert(Seq::<TokenV>::empty().push(TokenOf::Alphanum(sp)) =~= toks);
    assert(lex_spec(line, s) == Ok::<Seq<TokenV>, crate::lex::ErrorV>(toks));
    assert(!is_colon_token(toks[0]));
    assert(last_colon(toks, 0) is None);
    assert(last_colon(toks, 1) is None);
    assert(strip_spec(toks) == toks);
    assert(toks.drop_first() =~= Seq::<TokenV>::empty());
    assert(!(toks[0] is Stray));
    assert(first_stray(toks.drop_first()) is None);
    assert(first_stray(toks) is None);
    let line_toks = toks.push(TokenOf::Whitespace);
    assert(line_tokens_spec(line, s) == Ok::<Seq<TokenV>, crate::read::ErrorV>(line_toks));
    law_hex_run_reads_pairs(sp);
    let bytes_v = hex_bytes(s).map_values(|b: u8| ExpV::Char(b));
    assert(Seq::<ExpV>::empty() + bytes_v =~= bytes_v);
    assert(add_spec(seq![], sp) == Ok::<Seq<ExpV>, crate::parse::ErrorV>(bytes_v));
    assert(line_toks[0] == TokenOf::<Seq<char>>::Alphanum(sp));
    assert(line_toks[1] == TokenOf::<Seq<char>>::Whitespace);
    assert(parse_from(line_toks, 2, StateOf::Ready, None, bytes_v, MAX_NESTING as nat) == Ok::<(Seq<ExpV>, nat), crate::parse::ErrorV>((bytes_v, 2)));
    assert(parse_from(line_toks, 1, StateOf::ReadAlphanum(sp), None, seq![], MAX_NESTING as nat) == parse_from(line_toks, 2, StateOf::Ready, None, bytes_v, MAX_NESTING as nat));
    assert(parse_from(line_toks, 0, StateOf::Ready, None, seq![], MAX_NESTING as nat) == parse_from(line_toks, 1, StateOf::ReadAlphanum(sp), None, seq![], MAX_NESTING as nat));
    assert(parse_tokens_spec(line_toks) == Ok::<Seq<ExpV>, crate::parse::ErrorV>(bytes_v));
    if exps_view(exps) == bytes_v {
        law_chars_evaluate_to_bytes(env, exps, hex_bytes(s), MAX_NESTING as nat);
    }
}

/// Removing a front comment leaves exactly the tokens after the last
/// colon: whatever stands before a colon, the tokens after it are kept
/// where they hold no colon of their own.
pub proof fn law_front_comment(before: Seq<TokenV>, colon: TokenV, after: Seq<TokenV>)
    requires
        is_colon_token(colon),
        forall|k: int| 0 <= k < after.len() ==> !is_colon_token(#[trigger] after[k]),
    ensures
        strip_spec(before.push(colon) + after) == after,
{
    let all = before.push(colon) + after;
    let n = all.len();
    assert forall|m: nat| before.len() + 1 <= m <= n implies last_colon(all, m) == Some(before.len()) by {
        lemma_last_colon_after(all, before.len(), m);
    }
    assert(all.subrange(before.len() + 1int, n as int) =~= after);
}

proof fn lemma_last_colon_after(all: Seq<TokenV>, k: nat, m: nat)
    requires
        k < m <= all.len(),
        is_colon_token(all[k as int]),
        forall|j: int| k < j < all.len() ==> !is_colon_token(#[trigger] all[j]),
    ensures
        last_colon(all, m) == Some(k),
    decreases m,
{
    if m > k + 1 {
        lemma_last_colon_after(all, k, (m - 1) as nat);
    }
}

proof fn lemma_eval_no_limit(env: EvalEnv, e: Exp, depth: nat)
    requires
        env.limit is None,
    ensures
        eval_spec(env, e, depth) != Err::<ValueV, crate::eval::ErrorV>(ErrorOf::TooMuchOutput),
    decreases e, 3nat,
{
    if let Exp::Function { name, args } = e {
        if depth > 0 {
            lemma_function_no_limit(env, name, args@, (depth - 1) as nat);
        }
    }
}

proof fn lemma_exps_no_limit(env: EvalEnv, es: Seq<Exp>, depth: nat)
    requires
        env.limit is None,
    ensures
        exps_bytes_spec(env, es, depth) != Err::<Seq<u8>, crate::eval::ErrorV>(ErrorOf::TooMuchOutput),
    decreases es, 1nat,
{
    if es.len() > 0 {
        lemma_eval_no_limit(env, es[0], depth);
        lemma_exps_no_limit(env, es.drop_first(), depth);
    }
}

proof fn lemma_fold_no_limit(env: EvalEnv, op: BitwiseFold, acc: ValueV, es: Seq<Exp>, depth: nat)
    requires
        env.limit is None,
    ensures
        crate::eval::fold_spec(env, op, acc, es, depth) != Err::<ValueV, crate::eval::ErrorV>(ErrorOf::TooMuchOutput),
    decreases es, 1nat,
{
    if es.len() > 0 {
        lemma_eval_no_limit(env, es[0], depth);
        if let Ok(v) = eval_spec(env, es[0], depth) {
            if let Ok(a) = apply_bitwise_spec(acc, v, op) {
                lemma_fold_no_limit(env, op, a, es.drop_first(), depth);
            }
        }
    }
}

proof fn lemma_function_no_limit(env: EvalEnv, name: FunctionName, args: Seq<Exp>, depth: nat)
    requires
        env.limit is None,
    ensures
        function_spec(env, name, args, depth) != Err::<ValueV, crate::eval::ErrorV>(ErrorOf::TooMuchOutput),
    decreases args, 2nat,
{
    match name {
        FunctionName::MultiByte(_) => {
            if args.len() == 1 {
                lemma_eval_no_limit(env, args[0], depth);
            }
        },
        FunctionName::Bitwise(op) => {
            if args.len() > 0 {
                lemma_eval_no_limit(env, args[0], depth);
                if let Ok(first) = eval_spec(env, args[0], depth) {
                    lemma_fold_no_limit(env, op, first, args.drop_first(), depth);
                }
            }
        },
        _ => {
            lemma_exps_no_limit(env, args, depth);
        },
    }
}

/// Where no limit is set, evaluating any expressions never fails with
/// `TooMuchOutput`.
pub proof fn law_no_limit_no_too_much_output(env: EvalEnv, exps: Seq<Exp>)
    requires
        env.limit is None,
    ensures
        exps_bytes_spec(env, exps, MAX_NESTING as nat) != Err::<Seq<u8>, crate::eval::ErrorV>(ErrorOf::TooMuchOutput),
{
    lemma_exps_no_limit(env, exps, MAX_NESTING as nat);
}

/// The text `be16[` followed by the digits and `]`.
pub open spec fn be16_text(d: Seq<char>) -> Seq<char> {
    seq!['b', 'e', '1', '6', '['] + d + seq![']']
}

proof fn lemma_lex_be16_form(line: usize, d: Seq<char>, n: nat)
    requires
        5 <= n <= 5 + d.len(),
        all_digits(d),
    ensures
        lex_prefix(line, be16_text(d), n) == (LexState::ReadForm { anchor: 4 },
            seq![TokenOf::Alphanum(span(line, be16_text(d), 0, 4, 0))]),
    decreases n,
{
    let s = be16_text(d);
    if n == 5 {
        assert(s[0] == 'b' && s[1] == 'e' && s[2] == '1' && s[3] == '6');
        lemma_lex_word(line, s, 4);
        assert(s[4] == '[');
        let (st, toks) = lex_prefix(line, s, 4);
        assert(toks =~= Seq::<TokenV>::empty());
        assert(toks + seq![TokenOf::Alphanum(span(line, s, 0, 4, 0))] =~= seq![TokenOf::Alphanum(span(line, s, 0, 4, 0))]);
    } else {
        lemma_lex_be16_form(line, d, (n - 1) as nat);
        assert(s[n - 1] == d[n - 6]);
        assert(crate::text::is_digit_char(d[n - 6]));
        let (st, toks) = lex_prefix(line, s, (n - 1) as nat);
        assert(toks + Seq::<TokenV>::empty() =~= toks);
    }
}

/// `be16[V]` for a decimal `V` reads as one call of `be16` on the number.
pub proof fn law_be16_line_reads(line: usize, d: Seq<char>)
    requires
        d.len() > 0,
        all_digits(d),
    ensures
        tokenise_and_parse_spec(be16_text(d), line) == Ok::<Seq<ExpV>, crate::read::ErrorV>(
            seq![ExpV::Function(FunctionName::MultiByte(MultiByteType::Be16), seq![ExpV::Dec(d)])],
        ),
{
    let s = be16_text(d);
    let n = s.len();
    lemma_lex_be16_form(line, d, 5 + d.len());
    assert(s[n - 1] == ']');
    let word = span(line, s, 0, 4, 0);
    let form = span(line, s, 5, n - 1, 4);
    assert(s.subrange(5, n - 1) =~= d);
    let toks = seq![TokenOf::Alphanum(word), TokenOf::Form(form)];
    assert(seq![TokenOf::Alphanum(word)] + seq![TokenOf::Form(form)] =~= toks);
    assert(lex_spec(line, s) == Ok::<Seq<TokenV>, crate::lex::ErrorV>(toks));
    assert(!is_colon_token(toks[0]) && !is_colon_token(toks[1]));
    assert(last_colon(toks, 0) is None);
    assert(last_colon(toks, 1) is None);
    assert(last_colon(toks, 2) is None);
    assert(strip_spec(toks) == toks);
    assert(toks.drop_first().drop_first() =~= Seq::<TokenV>::empty());
    assert(toks.drop_first()[0] == TokenOf::<Seq<char>>::Form(form));
    assert(first_stray(toks.drop_first().drop_first()) is None);
    assert(first_stray(toks.drop_first()) is None);
    assert(first_stray(toks) is None);
    let line_toks = toks.push(TokenOf::Whitespace);
    assert(line_tokens_spec(line, s) == Ok::<Seq<TokenV>, crate::read::ErrorV>(line_toks));
    assert(word.contents =~= seq!['b', 'e', '1', '6']);
    assert(function_name_spec(word) == Ok::<Option<FunctionName>, crate::parse::ErrorV>(Some(FunctionName::MultiByte(MultiByteType::Be16))));
    assert(crate::parse::form_spec(form) == Ok::<ExpV, crate::parse::ErrorV>(ExpV::Dec(d)));
    let call = ExpV::Function(FunctionName::MultiByte(MultiByteType::Be16), seq![ExpV::Dec(d)]);
    assert(seq![].push(call) =~= seq![call]);
    assert(line_toks[0] == TokenOf::<Seq<char>>::Alphanum(word));
    assert(line_toks[1] == TokenOf::<Seq<char>>::Form(form));
    assert(line_toks[2] == TokenOf::<Seq<char>>::Whitespace);
    let m = MAX_NESTING as nat;
    assert(parse_from(line_toks, 3, StateOf::Ready, None, seq![call], m) == Ok::<(Seq<ExpV>, nat), crate::parse::ErrorV>((seq![call], 3)));
    assert(parse_from(line_toks, 2, StateOf::Ready, None, seq![call], m) == parse_from(line_toks, 3, StateOf::Ready, None, seq![call], m));
    assert(parse_from(line_toks, 1, StateOf::ReadAlphanum(word), None, seq![], m) == parse_from(line_toks, 2, StateOf::Ready, None, seq![call], m));
    assert(parse_from(line_toks, 0, StateOf::Ready, None, seq![], m) == parse_from(line_toks, 1, StateOf::ReadAlphanum(word), None, seq![], m));
}

/// The expressions that `be16[V]` reads as evaluate to two bytes which,
/// read back most significant first, give `V` again; where `V` is above
/// 65535, evaluating them fails with `TooBigDecimal`.
pub proof fn law_be16_line_evaluates(d: Seq<char>, env: EvalEnv, exps: Seq<Exp>)
    requires
        d.len() > 0,
        all_digits(d),
        exps_view(exps) == seq![ExpV::Function(FunctionName::MultiByte(MultiByteType::Be16), seq![ExpV::Dec(d)])],
    ensures
        ({
            let r = exps_bytes_spec(env, exps, MAX_NESTING as nat);
            &&& digits_value(d) <= 0xFFFF ==> (r matches Ok(b) && b.len() == 2 && b[0] as nat * 256 + b[1] as nat == digits_value(d))
            &&& digits_value(d) > 0xFFFF ==> r == Err::<Seq<u8>, crate::eval::ErrorV>(
                ErrorOf::TooBigDecimal(LargeNumberOf::FoundRawNumber(d)))
        }),
{
    let m = MAX_NESTING as nat;
    lemma_exps_view_len(exps);
    lemma_exps_view_index(exps, 0);
    let e = exps[0];
    assert(exp_view(e) == ExpV::Function(FunctionName::MultiByte(MultiByteType::Be16), seq![ExpV::Dec(d)]));
    let args = e->Function_args;
    assert(e->Function_name == FunctionName::MultiByte(MultiByteType::Be16));
    lemma_exps_view_len(args@);
    lemma_exps_view_index(args@, 0);
    let a0 = args@[0];
    assert(exp_view(a0) == ExpV::Dec(d));
    assert(a0 is Dec && (a0->Dec_0)@ == d);
    law_be16_round_trip(env, d);
    let v = cast_spec(env, ValueOf::RawNumber(d), MultiByteType::Be16);
    assert(eval_spec(env, a0, (m - 1) as nat) == Ok::<ValueV, crate::eval::ErrorV>(ValueOf::RawNumber(d)));
    assert(function_spec(env, FunctionName::MultiByte(MultiByteType::Be16), args@, (m - 1) as nat) == v);
    assert(eval_spec(env, e, m) == v);
    assert(exps.drop_first() =~= Seq::<Exp>::empty());
    assert(exps_bytes_spec(env, exps.drop_first(), m) == Ok::<Seq<u8>, crate::eval::ErrorV>(seq![]));
    if let Ok(ValueOf::VariableBytes(b)) = v {
        assert(b + Seq::<u8>::empty() =~= b);
    }
}
} // verus!
