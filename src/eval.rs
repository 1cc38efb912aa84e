//! The evaluation step: turning a series of expressions into a series of
//! bytes.
//!
//! Each top-level expression is evaluated into a "value in flight", which is
//! then turned into bytes; the bytes of all the expressions are concatenated.
//! As short programs can ask for huge amounts of output (such as
//! `x999(x999(x999(FF)))`), the caller may set a limit on how long the
//! repeated output is allowed to get.

use vstd::prelude::*;

use crate::ast::{BitwiseFold, Exp, FunctionName, MultiByteType, MAX_NESTING};
use crate::constants::{lookup_in, Constant, NameTable, Table};
use crate::num::{bits_value, int_bytes, parse_unsigned, pow256, read_bits, unsigned_within, write_int, lemma_bits_value_bound, lemma_pow2_mono, lemma_pow2_widths};

verus! {

broadcast use vstd::std_specs::vec::group_vec_axioms, vstd::seq::group_seq_axioms;

/// The bit patterns of a floating-point literal at the two floating-point
/// widths: IEEE 754 single precision and double precision.
#[derive(PartialEq, Eq, Debug, Clone, Copy, Structural)]
pub struct FloatBits {
    pub single: u32,
    pub double: u64,
}

/// The bit patterns of the floating-point literals of a program, keyed by
/// the text of each literal.
pub type FloatTable = NameTable<FloatBits>;

/// A value that is known to have a width of two, four or eight bytes.
#[derive(PartialEq, Eq, Debug, Clone, Copy, Structural)]
pub enum MultiByteValue {
    Sixteen(u16),
    ThirtyTwo(u32),
    SixtyFour(u64),
}

impl MultiByteValue {
    /// The number of bytes of this value.
    pub open spec fn width(self) -> nat {
        match self {
            MultiByteValue::Sixteen(_) => 2,
            MultiByteValue::ThirtyTwo(_) => 4,
            MultiByteValue::SixtyFour(_) => 8,
        }
    }

    /// The number that this value holds.
    pub open spec fn value(self) -> nat {
        match self {
            MultiByteValue::Sixteen(n) => n as nat,
            MultiByteValue::ThirtyTwo(n) => n as nat,
            MultiByteValue::SixtyFour(n) => n as nat,
        }
    }
}

/// A "value in flight", over some type of byte sequence and of text. Hexit
/// has to deal with values before the width of their output is known, much
/// as Rust has `{integer}` before it knows `u32`.
#[derive(PartialEq, Eq, Debug, Clone)]
pub enum ValueOf<B, T> {
    /// A single byte: it can be printed, folded, repeated, or widened.
    Byte(u8),
    /// A sequence of bytes: it can be printed, folded and repeated, but it
    /// has no byte order, so it cannot be widened or narrowed.
    VariableBytes(B),
    /// A number of a known width: it can be folded and widened, but not
    /// printed, as its byte order is not known.
    MultiByte(MultiByteValue),
    /// A decimal number of unknown width: it must be given a width and a
    /// byte order before it is printed, unless it fits in a byte.
    RawNumber(T),
    /// A floating-point number of unknown width: it must be given a width of
    /// four or eight bytes, and a byte order.
    RawFloat(T),
}

/// A value in flight, as the evaluator holds it.
pub type Value = ValueOf<Vec<u8>, String>;

/// A value in flight, as the specifications see it.
pub type ValueV = ValueOf<Seq<u8>, Seq<char>>;

impl View for Value {
    type V = ValueV;

    open spec fn view(&self) -> ValueV {
        match self {
            ValueOf::Byte(b) => ValueOf::Byte(*b),
            ValueOf::VariableBytes(bs) => ValueOf::VariableBytes(bs@),
            ValueOf::MultiByte(m) => ValueOf::MultiByte(*m),
            ValueOf::RawNumber(s) => ValueOf::RawNumber(s@),
            ValueOf::RawFloat(s) => ValueOf::RawFloat(s@),
        }
    }
}

/// A number that was too big for its target, over some type of text.
#[derive(PartialEq, Eq, Debug, Clone)]
pub enum LargeNumberOf<T> {
    /// A value of a known width that would have to be narrowed or printed
    /// without a byte order, such as `be16(be32[1234])`.
    Known(MultiByteValue),
    /// A decimal number too big for its target, such as `be16[99999999]`.
    FoundRawNumber(T),
    /// A floating-point number given a width that no float has, or printed
    /// without a width.
    FoundRawFloat(T),
    /// A series of more bits than any width holds.
    FoundBits(usize),
}

/// An error that can occur while evaluating expressions, over some type of
/// text.
#[derive(PartialEq, Eq, Debug, Clone)]
pub enum ErrorOf<T> {
    /// A value could not be printed as bytes at the top level, such as
    /// `[9999999]`.
    TopLevelBigDecimal(LargeNumberOf<T>),
    /// A value was too big for the width that a function gave it.
    TooBigDecimal(LargeNumberOf<T>),
    /// A constant was referred to that does not exist.
    UnknownConstant(T),
    /// A function was given the wrong number or kind of arguments.
    InvalidArgs(T),
    /// The output would have reached the limit.
    TooMuchOutput,
    /// Function calls were nested more than `MAX_NESTING` deep.
    TooMuchRecursion,
}

/// A number that was too big for its target.
pub type LargeNumber = LargeNumberOf<String>;

/// An error that can occur while evaluating expressions.
pub type Error = ErrorOf<String>;

/// An evaluation error as the specifications see it.
pub type ErrorV = ErrorOf<Seq<char>>;

pub open spec fn large_view(l: LargeNumber) -> LargeNumberOf<Seq<char>> {
    match l {
        LargeNumberOf::Known(m) => LargeNumberOf::Known(m),
        LargeNumberOf::FoundRawNumber(s) => LargeNumberOf::FoundRawNumber(s@),
        LargeNumberOf::FoundRawFloat(s) => LargeNumberOf::FoundRawFloat(s@),
        LargeNumberOf::FoundBits(n) => LargeNumberOf::FoundBits(n),
    }
}

/// Whether an error is the one that the specification gives. The message
/// of an `InvalidArgs` error is for people, and is not specified.
pub open spec fn error_is(e: Error, spec: ErrorV) -> bool {
    match (e, spec) {
        (ErrorOf::TopLevelBigDecimal(l), ErrorOf::TopLevelBigDecimal(m)) => large_view(l) == m,
        (ErrorOf::TooBigDecimal(l), ErrorOf::TooBigDecimal(m)) => large_view(l) == m,
        (ErrorOf::UnknownConstant(n), ErrorOf::UnknownConstant(m)) => n@ == m,
        (ErrorOf::InvalidArgs(_), ErrorOf::InvalidArgs(_)) => true,
        (ErrorOf::TooMuchOutput, ErrorOf::TooMuchOutput) => true,
        (ErrorOf::TooMuchRecursion, ErrorOf::TooMuchRecursion) => true,
        _ => false,
    }
}

/// The specification's `InvalidArgs` error.
pub open spec fn invalid_args() -> ErrorV {
    ErrorOf::InvalidArgs(seq![])
}

/// Whether a value result is the one that the specification gives.
pub open spec fn value_result_is(r: Result<Value, Error>, spec: Result<ValueV, ErrorV>) -> bool {
    match (r, spec) {
        (Ok(v), Ok(w)) => v@ == w,
        (Err(e), Err(f)) => error_is(e, f),
        _ => false,
    }
}

/// Whether a bytes result is the one that the specification gives.
pub open spec fn bytes_result_is(r: Result<Vec<u8>, Error>, spec: Result<Seq<u8>, ErrorV>) -> bool {
    match (r, spec) {
        (Ok(v), Ok(w)) => v@ == w,
        (Err(e), Err(f)) => error_is(e, f),
        _ => false,
    }
}

/// What evaluation depends on besides the expressions: the constants, the
/// bit patterns of the floating-point literals, and the output limit.
pub struct EvalEnv {
    pub constants: Seq<(Seq<char>, Constant)>,
    pub floats: Seq<(Seq<char>, FloatBits)>,
    pub limit: Option<usize>,
}

/// A byte, folded with another by a bitwise function.
pub open spec fn fold_u8(op: BitwiseFold, a: u8, b: u8) -> u8 {
    match op {
        BitwiseFold::And => a & b,
        BitwiseFold::Or => a | b,
        BitwiseFold::Xor => a ^ b,
    }
}

pub open spec fn fold_u16(op: BitwiseFold, a: u16, b: u16) -> u16 {
    match op {
        BitwiseFold::And => a & b,
        BitwiseFold::Or => a | b,
        BitwiseFold::Xor => a ^ b,
    }
}

pub open spec fn fold_u32(op: BitwiseFold, a: u32, b: u32) -> u32 {
    match op {
        BitwiseFold::And => a & b,
        BitwiseFold::Or => a | b,
        BitwiseFold::Xor => a ^ b,
    }
}

pub open spec fn fold_u64(op: BitwiseFold, a: u64, b: u64) -> u64 {
    match op {
        BitwiseFold::And => a & b,
        BitwiseFold::Or => a | b,
        BitwiseFold::Xor => a ^ b,
    }
}

/// Two byte sequences of equal length, folded byte by byte.
pub open spec fn fold_bytes(op: BitwiseFold, a: Seq<u8>, b: Seq<u8>) -> Seq<u8> {
    Seq::new(a.len(), |i: int| fold_u8(op, a[i], b[i]))
}

/// Every byte of a sequence, complemented.
pub open spec fn complement(a: Seq<u8>) -> Seq<u8> {
    Seq::new(a.len(), |i: int| !a[i])
}

/// A byte sequence, repeated `n` times.
pub open spec fn repeat_bytes(t: Seq<u8>, n: nat) -> Seq<u8>
    decreases n,
{
    if n == 0 {
        seq![]
    } else {
        repeat_bytes(t, (n - 1) as nat) + t
    }
}

/// The value that a series of bits evaluates to: a byte, or a number of the
/// smallest width that holds every bit.
pub open spec fn bits_spec(b: Seq<bool>) -> Result<ValueV, ErrorV> {
    let n = bits_value(b);
    if b.len() <= 8 {
        Ok(ValueOf::Byte(n as u8))
    } else if b.len() <= 16 {
        Ok(ValueOf::MultiByte(MultiByteValue::Sixteen(n as u16)))
    } else if b.len() <= 32 {
        Ok(ValueOf::MultiByte(MultiByteValue::ThirtyTwo(n as u32)))
    } else if b.len() <= 64 {
        Ok(ValueOf::MultiByte(MultiByteValue::SixtyFour(n as u64)))
    } else {
        Err(ErrorOf::TopLevelBigDecimal(LargeNumberOf::FoundBits(b.len() as usize)))
    }
}

/// Two values folded by a bitwise function: bytes with bytes, numbers with
/// numbers of the same width, and byte sequences of the same length.
pub open spec fn apply_bitwise_spec(a: ValueV, b: ValueV, op: BitwiseFold) -> Result<ValueV, ErrorV> {
    match (a, b) {
        (ValueOf::Byte(x), ValueOf::Byte(y)) => Ok(ValueOf::Byte(fold_u8(op, x, y))),
        (ValueOf::MultiByte(MultiByteValue::Sixteen(x)), ValueOf::MultiByte(MultiByteValue::Sixteen(y))) =>
            Ok(ValueOf::MultiByte(MultiByteValue::Sixteen(fold_u16(op, x, y)))),
        (ValueOf::MultiByte(MultiByteValue::ThirtyTwo(x)), ValueOf::MultiByte(MultiByteValue::ThirtyTwo(y))) =>
            Ok(ValueOf::MultiByte(MultiByteValue::ThirtyTwo(fold_u32(op, x, y)))),
        (ValueOf::MultiByte(MultiByteValue::SixtyFour(x)), ValueOf::MultiByte(MultiByteValue::SixtyFour(y))) =>
            Ok(ValueOf::MultiByte(MultiByteValue::SixtyFour(fold_u64(op, x, y)))),
        (ValueOf::VariableBytes(xs), ValueOf::VariableBytes(ys)) =>
            if xs.len() == ys.len() {
                Ok(ValueOf::VariableBytes(fold_bytes(op, xs, ys)))
            } else {
                Err(invalid_args())
            },
        _ => Err(invalid_args()),
    }
}

/// The bytes of a value at the top level, or inside `repeat` and `not`.
pub open spec fn to_bytes_spec(v: ValueV) -> Result<Seq<u8>, ErrorV> {
    match v {
        ValueOf::Byte(b) => Ok(seq![b]),
        ValueOf::VariableBytes(bs) => Ok(bs),
        ValueOf::MultiByte(m) => Err(ErrorOf::TopLevelBigDecimal(LargeNumberOf::Known(m))),
        ValueOf::RawNumber(s) => match unsigned_within(s, 255) {
            Some(n) => Ok(seq![n as u8]),
            None => Err(ErrorOf::TopLevelBigDecimal(LargeNumberOf::FoundRawNumber(s))),
        },
        ValueOf::RawFloat(s) => Err(ErrorOf::TopLevelBigDecimal(LargeNumberOf::FoundRawFloat(s))),
    }
}

/// A value given a width and a byte order by one of the functions `be16`,
/// `le16`, `be32`, `le32`, `be64` and `le64`. Values are widened, never
/// narrowed.
pub open spec fn cast_spec(env: EvalEnv, v: ValueV, t: MultiByteType) -> Result<ValueV, ErrorV> {
    let w = t.width();
    let be = t.big_endian();
    match v {
        ValueOf::Byte(b) => Ok(ValueOf::VariableBytes(int_bytes(b as nat, w, be))),
        ValueOf::VariableBytes(_) => Err(invalid_args()),
        ValueOf::MultiByte(m) =>
            if m.width() <= w {
                Ok(ValueOf::VariableBytes(int_bytes(m.value(), w, be)))
            } else {
                Err(invalid_args())
            },
        ValueOf::RawNumber(s) => match unsigned_within(s, (pow256(w) - 1) as nat) {
            Some(n) => Ok(ValueOf::VariableBytes(int_bytes(n, w, be))),
            None => Err(ErrorOf::TooBigDecimal(LargeNumberOf::FoundRawNumber(s))),
        },
        ValueOf::RawFloat(s) => match lookup_in(env.floats, s) {
            Some(f) if w == 4 => Ok(ValueOf::VariableBytes(int_bytes(f.single as nat, w, be))),
            Some(f) if w == 8 => Ok(ValueOf::VariableBytes(int_bytes(f.double as nat, w, be))),
            _ => Err(ErrorOf::TooBigDecimal(LargeNumberOf::FoundRawFloat(s))),
        },
    }
}

/// The value that an expression evaluates to.
pub open spec fn eval_spec(env: EvalEnv, e: Exp, depth: nat) -> Result<ValueV, ErrorV>
    decreases e, 3nat,
{
    match e {
        Exp::Char(b) => Ok(ValueOf::Byte(b)),
        Exp::Dec(s) => Ok(ValueOf::RawNumber(s@)),
        Exp::Constant { name } => match lookup_in(env.constants, name@) {
            Some(Constant::Eight(n)) => Ok(ValueOf::Byte(n)),
            Some(Constant::Sixteen(n)) => Ok(ValueOf::MultiByte(MultiByteValue::Sixteen(n))),
            None => Err(ErrorOf::UnknownConstant(name@)),
        },
        Exp::Function { name, args } =>
            if depth == 0 {
                Err(ErrorOf::TooMuchRecursion)
            } else {
                function_spec(env, name, args@, (depth - 1) as nat)
            },
        Exp::StringLiteral { chars } => Ok(ValueOf::VariableBytes(vstd::utf8::encode_utf8(chars@))),
        Exp::IPv4 { bytes } => Ok(ValueOf::VariableBytes(bytes@)),
        Exp::IPv6 { bytes } => Ok(ValueOf::VariableBytes(bytes@)),
        Exp::Timestamp(t) => Ok(ValueOf::MultiByte(MultiByteValue::ThirtyTwo(t))),
        Exp::Float(s) => Ok(ValueOf::RawFloat(s@)),
        Exp::Bits(b) => bits_spec(b@),
    }
}

/// The bytes of a series of expressions, each evaluated and turned into
/// bytes in order, stopping at the first error.
pub open spec fn exps_bytes_spec(env: EvalEnv, es: Seq<Exp>, depth: nat) -> Result<Seq<u8>, ErrorV>
    decreases es, 1nat,
{
    if es.len() == 0 {
        Ok(seq![])
    } else {
        match eval_spec(env, es[0], depth) {
            Err(e) => Err(e),
            Ok(v) => match to_bytes_spec(v) {
                Err(e) => Err(e),
                Ok(bs) => match exps_bytes_spec(env, es.drop_first(), depth) {
                    Err(e) => Err(e),
                    Ok(rest) => Ok(bs + rest),
                },
            },
        }
    }
}

/// A bitwise fold of `acc` with each of the expressions in turn.
pub open spec fn fold_spec(env: EvalEnv, op: BitwiseFold, acc: ValueV, es: Seq<Exp>, depth: nat) -> Result<ValueV, ErrorV>
    decreases es, 1nat,
{
    if es.len() == 0 {
        Ok(acc)
    } else {
        match eval_spec(env, es[0], depth) {
            Err(e) => Err(e),
            Ok(v) => match apply_bitwise_spec(acc, v, op) {
                Err(e) => Err(e),
                Ok(a) => fold_spec(env, op, a, es.drop_first(), depth),
            },
        }
    }
}

/// The value of `x<n>` applied to a template: the template repeated `n`
/// times, unless the limit would be reached.
pub open spec fn repeat_spec(env: EvalEnv, t: Seq<u8>, n: nat) -> Result<ValueV, ErrorV> {
    match env.limit {
        Some(l) if l <= t.len() * n => Err(ErrorOf::TooMuchOutput),
        _ => Ok(ValueOf::VariableBytes(repeat_bytes(t, n))),
    }
}

/// The value that a function call evaluates to.
pub open spec fn function_spec(env: EvalEnv, name: FunctionName, args: Seq<Exp>, depth: nat) -> Result<ValueV, ErrorV>
    decreases args, 2nat,
{
    match name {
        FunctionName::MultiByte(t) =>
            if args.len() != 1 {
                Err(invalid_args())
            } else {
                match eval_spec(env, args[0], depth) {
                    Err(e) => Err(e),
                    Ok(v) => cast_spec(env, v, t),
                }
            },
        FunctionName::Repeat(n) => match exps_bytes_spec(env, args, depth) {
            Err(e) => Err(e),
            Ok(t) => repeat_spec(env, t, n as nat),
        },
        FunctionName::Bitwise(op) =>
            if args.len() == 0 {
                Err(invalid_args())
            } else {
                match eval_spec(env, args[0], depth) {
                    Err(e) => Err(e),
                    Ok(first) => fold_spec(env, op, first, args.drop_first(), depth),
                }
            },
        FunctionName::BitwiseNot => match exps_bytes_spec(env, args, depth) {
            Err(e) => Err(e),
            Ok(t) => Ok(ValueOf::VariableBytes(complement(t))),
        },
    }
}

/// Evaluates the expressions into a vector of bytes, stopping at the first
/// error. Where `limit` is given, a repeat function fails with
/// `TooMuchOutput` before it builds output as long as the limit.
pub fn evaluate_exps(exps: Vec<Exp>, constants: &Table, floats: &FloatTable, limit: Option<usize>) -> (r: Result<Vec<u8>, Error>)
    ensures
        bytes_result_is(r, exps_bytes_spec(EvalEnv { constants: constants@, floats: floats@, limit }, exps@, MAX_NESTING as nat)),
{
    let evaluator = Evaluator { constants, floats, limit };
    evaluator.exps_bytes(&exps, MAX_NESTING)
}

/// The evaluation environment: what is looked up during evaluation.
struct Evaluator<'a> {
    constants: &'a Table,
    floats: &'a FloatTable,
    limit: Option<usize>,
}

/// Combines the result of a prefix with the result of the rest.
pub open spec fn then_bytes(done: Seq<u8>, rest: Result<Seq<u8>, ErrorV>) -> Result<Seq<u8>, ErrorV> {
    match rest {
        Ok(bs) => Ok(done + bs),
        Err(e) => Err(e),
    }
}

impl<'a> Evaluator<'a> {
    spec fn env(&self) -> EvalEnv {
        EvalEnv { constants: self.constants@, floats: self.floats@, limit: self.limit }
    }

    /// Evaluates an expression into a value in flight, evaluating its
    /// sub-expressions first.
    fn evaluate_exp(&self, exp: &Exp, depth: usize) -> (r: Result<Value, Error>)
        ensures
            value_result_is(r, eval_spec(self.env(), *exp, depth as nat)),
        decreases *exp, 3nat,
    {
        match exp {
            Exp::Char(byte) => Ok(ValueOf::Byte(*byte)),
            Exp::Dec(number) => Ok(ValueOf::RawNumber(number.clone())),
            Exp::Constant { name } => {
                match self.constants.lookup(name.as_str()) {
                    Ok(Constant::Eight(num)) => Ok(ValueOf::Byte(num)),
                    Ok(Constant::Sixteen(num)) => Ok(ValueOf::MultiByte(MultiByteValue::Sixteen(num))),
                    Err(_) => Err(ErrorOf::UnknownConstant(name.clone())),
                }
            },
            Exp::Function { name, args } => {
                if depth == 0 {
                    return Err(ErrorOf::TooMuchRecursion);
                }
                self.run_function(*name, args, depth - 1)
            },
            Exp::StringLiteral { chars } => {
                let bytes = chars.as_str().as_bytes();
                let mut out: Vec<u8> = Vec::new();
                let mut i: usize = 0;
                while i < bytes.len()
                    invariant
                        0 <= i <= bytes@.len(),
                        bytes@ == vstd::utf8::encode_utf8(chars@),
                        out@ == bytes@.subrange(0, i as int),
                    decreases bytes@.len() - i,
                {
                    out.push(bytes[i]);
                    i = i + 1;
                    assert(out@ =~= bytes@.subrange(0, i as int));
                }
                assert(bytes@.subrange(0, i as int) =~= bytes@);
                Ok(ValueOf::VariableBytes(out))
            },
            Exp::IPv4 { bytes } => {
                let mut out: Vec<u8> = Vec::new();
                let mut i: usize = 0;
                while i < 4
                    invariant
                        0 <= i <= 4,
                        bytes@.len() == 4,
                        out@ == bytes@.subrange(0, i as int),
                    decreases 4 - i,
                {
                    out.push(bytes[i]);
                    i = i + 1;
                    assert(out@ =~= bytes@.subrange(0, i as int));
                }
                assert(bytes@.subrange(0, 4) =~= bytes@);
                Ok(ValueOf::VariableBytes(out))
            },
            Exp::IPv6 { bytes } => {
                let mut out: Vec<u8> = Vec::new();
                let mut i: usize = 0;
                while i < 16
                    invariant
                        0 <= i <= 16,
                        bytes@.len() == 16,
                        out@ == bytes@.subrange(0, i as int),
                    decreases 16 - i,
                {
                    out.push(bytes[i]);
                    i = i + 1;
                    assert(out@ =~= bytes@.subrange(0, i as int));
                }
                assert(bytes@.subrange(0, 16) =~= bytes@);
                Ok(ValueOf::VariableBytes(out))
            },
            Exp::Timestamp(unix_time) => Ok(ValueOf::MultiByte(MultiByteValue::ThirtyTwo(*unix_time))),
            Exp::Float(number) => Ok(ValueOf::RawFloat(number.clone())),
            Exp::Bits(bit_vec) => {
                let len = bit_vec.len();
                if len > 64 {
                    return Err(ErrorOf::TopLevelBigDecimal(LargeNumberOf::FoundBits(len)));
                }
                let num = read_bits(bit_vec);
                proof {
                    lemma_bits_value_bound(bit_vec@);
                    lemma_pow2_widths();
                    lemma_pow2_mono(len as nat, 64);
                    if len <= 8 {
                        lemma_pow2_mono(len as nat, 8);
                    } else if len <= 16 {
                        lemma_pow2_mono(len as nat, 16);
                    } else if len <= 32 {
                        lemma_pow2_mono(len as nat, 32);
                    }
                }
                if len <= 8 {
                    Ok(ValueOf::Byte(num as u8))
                } else if len <= 16 {
                    Ok(ValueOf::MultiByte(MultiByteValue::Sixteen(num as u16)))
                } else if len <= 32 {
                    Ok(ValueOf::MultiByte(MultiByteValue::ThirtyTwo(num as u32)))
                } else {
                    Ok(ValueOf::MultiByte(MultiByteValue::SixtyFour(num)))
                }
            },
        }
    }

    /// Evaluates each expression and turns it into bytes, concatenating the
    /// bytes in order and stopping at the first error.
    fn exps_bytes(&self, exps: &Vec<Exp>, depth: usize) -> (r: Result<Vec<u8>, Error>)
        ensures
            bytes_result_is(r, exps_bytes_spec(self.env(), exps@, depth as nat)),
        decreases exps@, 1nat,
    {
        let mut bytes: Vec<u8> = Vec::new();
        let mut i: usize = 0;
        assert(exps@.subrange(0, exps@.len() as int) =~= exps@);
        while i < exps.len()
            invariant
                0 <= i <= exps@.len(),
                exps_bytes_spec(self.env(), exps@, depth as nat) == then_bytes(bytes@, exps_bytes_spec(self.env(), exps@.subrange(i as int, exps@.len() as int), depth as nat)),
            decreases exps@.len() - i,
        {
            let ghost rest = exps@.subrange(i as int, exps@.len() as int);
            assert(rest.drop_first() =~= exps@.subrange(i + 1, exps@.len() as int));
            assert(rest[0] == exps@[i as int]);
            let val = match self.evaluate_exp(&exps[i], depth) {
                Ok(v) => v,
                Err(e) => return Err(e),
            };
            let mut sub = match val.eval_to_bytes() {
                Ok(bs) => bs,
                Err(e) => return Err(e),
            };
            let ghost before = bytes@;
            let ghost sub_v = sub@;
            bytes.append(&mut sub);
            proof {
                let tail = exps_bytes_spec(self.env(), exps@.subrange(i + 1, exps@.len() as int), depth as nat);
                match tail {
                    Ok(t) => {
                        assert(bytes@ + t =~= before + (sub_v + t));
                    },
                    Err(_) => {},
                }
            }
            i = i + 1;
        }
        assert(exps@.subrange(i as int, exps@.len() as int) =~= Seq::<Exp>::empty());
        assert(bytes@ + Seq::<u8>::empty() =~= bytes@);
        Ok(bytes)
    }

    /// Runs a function on its arguments. The arguments are evaluated here,
    /// so that their number can be checked first.
    fn run_function(&self, name: FunctionName, args: &Vec<Exp>, depth: usize) -> (r: Result<Value, Error>)
        ensures
            value_result_is(r, function_spec(self.env(), name, args@, depth as nat)),
        decreases args@, 2nat,
    {
        match name {
            FunctionName::MultiByte(t) => {
                if args.len() != 1 {
                    return Err(ErrorOf::InvalidArgs("Pass only one argument".to_owned()));
                }
                let val = match self.evaluate_exp(&args[0], depth) {
                    Ok(v) => v,
                    Err(e) => return Err(e),
                };
                val.to_variable_bytes(t, self.floats)
            },
            FunctionName::Repeat(amount) => {
                let bytes = match self.exps_bytes(args, depth) {
                    Ok(bs) => bs,
                    Err(e) => return Err(e),
                };
                // Repeat functions can produce lots of output very quickly,
                // so check against the limit before building anything.
                let blen = bytes.len();
                proof {
                    let len = blen as nat;
                    assert(len * (amount as nat) <= 0x1_0000_0000_0000_0000 * 0x1_0000) by (nonlinear_arith)
                        requires
                            len <= 0x1_0000_0000_0000_0000,
                            amount <= 0xFFFF,
                    ;
                }
                if let Some(limit) = self.limit {
                    if (limit as u128) <= (blen as u128) * (amount as u128) {
                        return Err(ErrorOf::TooMuchOutput);
                    }
                }
                let mut result_bytes: Vec<u8> = Vec::new();
                let mut k: u16 = 0;
                while k < amount
                    invariant
                        0 <= k <= amount,
                        result_bytes@ == repeat_bytes(bytes@, k as nat),
                    decreases amount - k,
                {
                    result_bytes.extend_from_slice(bytes.as_slice());
                    k = k + 1;
                }
                Ok(ValueOf::VariableBytes(result_bytes))
            },
            FunctionName::Bitwise(op) => {
                if args.len() == 0 {
                    return Err(ErrorOf::InvalidArgs("No arguments for a bitwise function".to_owned()));
                }
                let mut result = match self.evaluate_exp(&args[0], depth) {
                    Ok(v) => v,
                    Err(e) => return Err(e),
                };
                let mut i: usize = 1;
                assert(args@.drop_first() =~= args@.subrange(1, args@.len() as int));
                while i < args.len()
                    invariant
                        1 <= i <= args@.len(),
                        name == FunctionName::Bitwise(op),
                        match eval_spec(self.env(), args@[0], depth as nat) {
                            Ok(first) => fold_spec(self.env(), op, first, args@.drop_first(), depth as nat)
                                == fold_spec(self.env(), op, result@, args@.subrange(i as int, args@.len() as int), depth as nat),
                            Err(_) => false,
                        },
                    decreases args@.len() - i,
                {
                    let ghost rest = args@.subrange(i as int, args@.len() as int);
                    assert(rest.drop_first() =~= args@.subrange(i + 1, args@.len() as int));
                    assert(rest[0] == args@[i as int]);
                    assert(function_spec(self.env(), name, args@, depth as nat) == fold_spec(self.env(), op, result@, rest, depth as nat));
                    let next = match self.evaluate_exp(&args[i], depth) {
                        Ok(v) => v,
                        Err(e) => {
                            assert(fold_spec(self.env(), op, result@, rest, depth as nat) == Err::<ValueV, ErrorV>(eval_spec(self.env(), rest[0], depth as nat)->Err_0));
                            return Err(e);
                        },
                    };
                    let ghost next_v = next@;
                    let ghost acc_v = result@;
                    result = match result.apply_bitwise(next, op) {
                        Ok(v) => v,
                        Err(e) => {
                            assert(fold_spec(self.env(), op, acc_v, rest, depth as nat) == Err::<ValueV, ErrorV>(apply_bitwise_spec(acc_v, next_v, op)->Err_0));
                            return Err(e);
                        },
                    };
                    i = i + 1;
                }
                assert(args@.subrange(i as int, args@.len() as int) =~= Seq::<Exp>::empty());
                Ok(result)
            },
            FunctionName::BitwiseNot => {
                let mut bytes = match self.exps_bytes(args, depth) {
                    Ok(bs) => bs,
                    Err(e) => return Err(e),
                };
                let ghost t = bytes@;
                let mut i: usize = 0;
                while i < bytes.len()
                    invariant
                        0 <= i <= bytes@.len() == t.len(),
                        forall|j: int| 0 <= j < i ==> bytes@[j] == !t[j],
                        forall|j: int| i <= j < t.len() ==> bytes@[j] == t[j],
                    decreases t.len() - i,
                {
                    let b = bytes[i];
                    bytes.set(i, !b);
                    i = i + 1;
                }
                assert(bytes@ =~= complement(t));
                Ok(ValueOf::VariableBytes(bytes))
            },
        }
    }
}

impl Value {
    /// Turns this value into bytes, or returns an error where it cannot be
    /// printed without a width or a byte order. This is used at the top
    /// level, and for the arguments of `repeat` and `not`.
    fn eval_to_bytes(self) -> (r: Result<Vec<u8>, Error>)
        ensures
            bytes_result_is(r, to_bytes_spec(self@)),
    {
        match self {
            ValueOf::Byte(byte) => {
                let mut v: Vec<u8> = Vec::new();
                v.push(byte);
                assert(v@ =~= seq![byte]);
                Ok(v)
            },
            ValueOf::VariableBytes(bytes) => Ok(bytes),
            ValueOf::MultiByte(v) => Err(ErrorOf::TopLevelBigDecimal(LargeNumberOf::Known(v))),
            ValueOf::RawNumber(s) => {
                match parse_unsigned(s.as_str(), 255) {
                    Some(v) => {
                        let mut out: Vec<u8> = Vec::new();
                        out.push(v as u8);
                        assert(out@ =~= seq![v as u8]);
                        Ok(out)
                    },
                    None => Err(ErrorOf::TopLevelBigDecimal(LargeNumberOf::FoundRawNumber(s))),
                }
            },
            ValueOf::RawFloat(s) => Err(ErrorOf::TopLevelBigDecimal(LargeNumberOf::FoundRawFloat(s))),
        }
    }

    /// Gives this value the width and byte order of one of the functions
    /// `be16`, `le16`, `be32`, `le32`, `be64` and `le64`. Values are never
    /// made narrower.
    fn to_variable_bytes(self, t: MultiByteType, floats: &FloatTable) -> (r: Result<Value, Error>)
        ensures
            value_result_is(r, cast_spec(EvalEnv { constants: seq![], floats: floats@, limit: None }, self@, t)),
    {
        let (width, big): (usize, bool) = match t {
            MultiByteType::Be16 => (2, true),
            MultiByteType::Le16 => (2, false),
            MultiByteType::Be32 => (4, true),
            MultiByteType::Le32 => (4, false),
            MultiByteType::Be64 => (8, true),
            MultiByteType::Le64 => (8, false),
        };
        proof {
            reveal_with_fuel(pow256, 9);
        }
        let max: u64 = if width == 2 { 0xFFFF } else if width == 4 { 0xFFFF_FFFF } else { 0xFFFF_FFFF_FFFF_FFFF };
        assert(max as nat == pow256(width as nat) - 1);
        let bytes = match self {
            ValueOf::Byte(b) => write_int(b as u64, width, big),
            ValueOf::VariableBytes(_) => {
                return Err(ErrorOf::InvalidArgs("Tried to give a width to a byte sequence".to_owned()));
            },
            ValueOf::MultiByte(m) => {
                let (n, w): (u64, usize) = match m {
                    MultiByteValue::Sixteen(n) => (n as u64, 2),
                    MultiByteValue::ThirtyTwo(n) => (n as u64, 4),
                    MultiByteValue::SixtyFour(n) => (n, 8),
                };
                if w > width {
                    return Err(ErrorOf::InvalidArgs("Tried to make a number narrower".to_owned()));
                }
                write_int(n, width, big)
            },
            ValueOf::RawNumber(s) => {
                match parse_unsigned(s.as_str(), max) {
                    Some(n) => write_int(n, width, big),
                    None => return Err(ErrorOf::TooBigDecimal(LargeNumberOf::FoundRawNumber(s))),
                }
            },
            ValueOf::RawFloat(s) => {
                let found = if width == 2 { None } else { floats.find(s.as_str()) };
                match found {
                    Some(f) => {
                        if width == 4 {
                            write_int(f.single as u64, width, big)
                        } else {
                            write_int(f.double, width, big)
                        }
                    },
                    None => return Err(ErrorOf::TooBigDecimal(LargeNumberOf::FoundRawFloat(s))),
                }
            },
        };
        Ok(ValueOf::VariableBytes(bytes))
    }

    /// Folds this value with the next one by a bitwise function. Returns an
    /// error where the two do not have the same shape.
    fn apply_bitwise(self, next_val: Value, op: BitwiseFold) -> (r: Result<Value, Error>)
        ensures
            value_result_is(r, apply_bitwise_spec(self@, next_val@, op)),
    {
        match (self, next_val) {
            (ValueOf::Byte(left), ValueOf::Byte(right)) => Ok(ValueOf::Byte(op.apply_u8(left, right))),
            (ValueOf::MultiByte(MultiByteValue::Sixteen(left)), ValueOf::MultiByte(MultiByteValue::Sixteen(right))) =>
                Ok(ValueOf::MultiByte(MultiByteValue::Sixteen(op.apply_u16(left, right)))),
            (ValueOf::MultiByte(MultiByteValue::ThirtyTwo(left)), ValueOf::MultiByte(MultiByteValue::ThirtyTwo(right))) =>
                Ok(ValueOf::MultiByte(MultiByteValue::ThirtyTwo(op.apply_u32(left, right)))),
            (ValueOf::MultiByte(MultiByteValue::SixtyFour(left)), ValueOf::MultiByte(MultiByteValue::SixtyFour(right))) =>
                Ok(ValueOf::MultiByte(MultiByteValue::SixtyFour(op.apply_u64(left, right)))),
            (ValueOf::VariableBytes(lefts), ValueOf::VariableBytes(rights)) => {
                if lefts.len() != rights.len() {
                    return Err(ErrorOf::InvalidArgs("Folding byte sequences of different lengths".to_owned()));
                }
                let mut bytes: Vec<u8> = Vec::new();
                let mut i: usize = 0;
                while i < lefts.len()
                    invariant
                        0 <= i <= lefts@.len() == rights@.len(),
                        bytes@ == fold_bytes(op, lefts@, rights@).subrange(0, i as int),
                    decreases lefts@.len() - i,
                {
                    bytes.push(op.apply_u8(lefts[i], rights[i]));
                    i = i + 1;
                    assert(bytes@ =~= fold_bytes(op, lefts@, rights@).subrange(0, i as int));
                }
                assert(fold_bytes(op, lefts@, rights@).subrange(0, i as int) =~= fold_bytes(op, lefts@, rights@));
                Ok(ValueOf::VariableBytes(bytes))
            },
            _ => Err(ErrorOf::InvalidArgs("Folding values of different shapes".to_owned())),
        }
    }
}

impl BitwiseFold {
    pub fn apply_u8(self, left: u8, right: u8) -> (r: u8)
        ensures
            r == fold_u8(self, left, right),
    {
        match self {
            BitwiseFold::And => left & right,
            BitwiseFold::Or => left | right,
            BitwiseFold::Xor => left ^ right,
        }
    }

    pub fn apply_u16(self, left: u16, right: u16) -> (r: u16)
        ensures
            r == fold_u16(self, left, right),
    {
        match self {
            BitwiseFold::And => left & right,
            BitwiseFold::Or => left | right,
            BitwiseFold::Xor => left ^ right,
        }
    }

    pub fn apply_u32(self, left: u32, right: u32) -> (r: u32)
        ensures
            r == fold_u32(self, left, right),
    {
        match self {
            BitwiseFold::And => left & right,
            BitwiseFold::Or => left | right,
            BitwiseFold::Xor => left ^ right,
        }
    }

    pub fn apply_u64(self, left: u64, right: u64) -> (r: u64)
        ensures
            r == fold_u64(self, left, right),
    {
        match self {
            BitwiseFold::And => left & right,
            BitwiseFold::Or => left | right,
            BitwiseFold::Xor => left ^ right,
        }
    }
}

impl Error {
    /// A hint for the user about how to fix the error, if there is one.
    pub fn note(&self) -> (r: Option<&'static str>)
        ensures
            r is Some <==> (self matches ErrorOf::TopLevelBigDecimal(LargeNumberOf::FoundRawNumber(_))
                || self matches ErrorOf::TopLevelBigDecimal(LargeNumberOf::FoundRawFloat(_))),
    {
        match self {
            ErrorOf::TopLevelBigDecimal(LargeNumberOf::FoundRawNumber(_)) => Some(
                "Top-level multi-byte values must be given an endianness using a function such as \u{2018}be16\u{2019} or \u{2018}le32\u{2019}",
            ),
            ErrorOf::TopLevelBigDecimal(LargeNumberOf::FoundRawFloat(_)) => Some(
                "Top-level floating point values must be given an endianness and width using a function such as \u{2018}be32\u{2019} or \u{2018}le64\u{2019}",
            ),
            _ => None,
        }
    }
}

} // verus!
