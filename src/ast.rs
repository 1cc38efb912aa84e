//! The syntax tree: what parsing produces and evaluation consumes.

use vstd::prelude::*;

verus! {

broadcast use vstd::std_specs::vec::group_vec_axioms, vstd::seq::group_seq_axioms;

/// The deepest that function calls may be nested: a call may stand inside
/// at most this many others. Parsing and evaluation recurse once for each
/// level, so the limit keeps their stack use bounded; parsing rejects a
/// deeper call with `TooDeeplyNested`, and evaluating a deeper tree built by
/// hand fails with `TooMuchRecursion`.
pub const MAX_NESTING: usize = 200;

/// An expression in a Hexit syntax tree.
#[derive(PartialEq, Eq, Debug)]
pub enum Exp {
    /// A hex pair that has been read as a byte.
    Char(u8),
    /// A decimal number, not yet read, as its width is not yet known.
    Dec(String),
    /// A constant, referred to by its name.
    Constant {
        /// The name of the constant.
        name: String,
    },
    /// A function call.
    Function {
        /// The name of the function to call.
        name: FunctionName,
        /// The arguments to pass to the function.
        args: Vec<Exp>,
    },
    /// A string literal, with its escapes already processed.
    StringLiteral {
        /// The characters of the string.
        chars: String,
    },
    /// An IPv4 address.
    IPv4 {
        /// The octets of the address, in network order.
        bytes: [u8; 4],
    },
    /// An IPv6 address.
    IPv6 {
        /// The octets of the address, in network order.
        bytes: [u8; 16],
    },
    /// A timestamp, as seconds since the Unix epoch.
    Timestamp(u32),
    /// A floating-point number, not yet read, as its width is not yet known.
    Float(String),
    /// A series of bits, most significant first.
    Bits(Vec<bool>),
}

/// An expression as the specifications see it.
pub enum ExpV {
    Char(u8),
    Dec(Seq<char>),
    Constant(Seq<char>),
    Function(FunctionName, Seq<ExpV>),
    StringLiteral(Seq<char>),
    IPv4(Seq<u8>),
    IPv6(Seq<u8>),
    Timestamp(u32),
    Float(Seq<char>),
    Bits(Seq<bool>),
}

/// The view of an expression.
pub open spec fn exp_view(e: Exp) -> ExpV
    decreases e, 1nat,
{
    match e {
        Exp::Char(b) => ExpV::Char(b),
        Exp::Dec(s) => ExpV::Dec(s@),
        Exp::Constant { name } => ExpV::Constant(name@),
        Exp::Function { name, args } => ExpV::Function(name, exps_view(args@)),
        Exp::StringLiteral { chars } => ExpV::StringLiteral(chars@),
        Exp::IPv4 { bytes } => ExpV::IPv4(bytes@),
        Exp::IPv6 { bytes } => ExpV::IPv6(bytes@),
        Exp::Timestamp(t) => ExpV::Timestamp(t),
        Exp::Float(s) => ExpV::Float(s@),
        Exp::Bits(b) => ExpV::Bits(b@),
    }
}

/// The views of a series of expressions.
pub open spec fn exps_view(es: Seq<Exp>) -> Seq<ExpV>
    decreases es, 0nat,
{
    if es.len() == 0 {
        seq![]
    } else {
        exps_view(es.drop_last()).push(exp_view(es.last()))
    }
}

/// The name of a function to call. There are only so many of these.
#[derive(PartialEq, Eq, Debug, Clone, Copy, Structural)]
pub enum FunctionName {
    MultiByte(MultiByteType),
    Bitwise(BitwiseFold),
    BitwiseNot,
    Repeat(RepeatAmount),
}

/// One of the functions that give a value a width and a byte order.
#[derive(PartialEq, Eq, Debug, Clone, Copy, Structural)]
pub enum MultiByteType {
    Be16,
    Be32,
    Be64,
    Le16,
    Le32,
    Le64,
}

/// One of the bitwise folding functions.
#[derive(PartialEq, Eq, Debug, Clone, Copy, Structural)]
pub enum BitwiseFold {
    And,
    Or,
    Xor,
}

/// The number of times that the repeat function repeats its bytes. It is
/// kept small because the repeated bytes are held in memory.
pub type RepeatAmount = u16;

impl MultiByteType {
    /// The number of bytes that this function produces.
    pub open spec fn width(self) -> nat {
        match self {
            MultiByteType::Be16 | MultiByteType::Le16 => 2,
            MultiByteType::Be32 | MultiByteType::Le32 => 4,
            MultiByteType::Be64 | MultiByteType::Le64 => 8,
        }
    }

    /// Whether this function writes the most significant byte first.
    pub open spec fn big_endian(self) -> bool {
        self is Be16 || self is Be32 || self is Be64
    }
}

} // verus!
