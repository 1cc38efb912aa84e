//! The Hexit language: lexing and parsing Hexit source into expressions, and
//! evaluating those expressions into a vector of bytes.
//!
//! Interpreting a Hexit program happens in two steps:
//!
//! 1. The program is read: each line is tokenised, its front comment is
//!    removed, and the tokens are parsed into a series of `Exp` values.
//! 2. The program is run: the expressions are evaluated, resulting in a
//!    series of bytes.

use vstd::prelude::*;

pub mod pos;
pub mod text;
pub mod tokens;
pub mod lex;
pub mod ast;
pub mod constants;
pub mod num;
pub mod eval;
pub mod parse;
pub mod address;
pub mod read;
pub mod verify;
pub mod style;
pub mod laws;
pub mod options;

use crate::ast::{exps_view, Exp, ExpV, MAX_NESTING};
use crate::constants::Table;
use crate::eval::{bytes_result_is, evaluate_exps, exps_bytes_spec, EvalEnv, FloatTable};
use crate::parse::parse_tokens_spec;
use crate::read::{line_tokens_spec, tokenise_line};
use crate::tokens::{tokens_view, Token, TokenV};

verus! {

broadcast use vstd::std_specs::vec::group_vec_axioms, vstd::seq::group_seq_axioms;

/// The tokens of the first `n` lines, concatenated, and the errors of those
/// lines that could not be tokenised, in order.
pub open spec fn read_lines(lines: Seq<Seq<char>>, n: nat) -> (Seq<TokenV>, Seq<read::ErrorV>)
    decreases n,
{
    if n == 0 {
        (seq![], seq![])
    } else {
        let (ts, es) = read_lines(lines, (n - 1) as nat);
        match line_tokens_spec(n as usize, lines[n - 1]) {
            Ok(t) => (ts + t, es),
            Err(e) => (ts, es.push(e)),
        }
    }
}

/// What reading a program gives: every line's tokenising error, where any
/// line has one; otherwise the expressions that the tokens of all the lines
/// parse into as one stream, or the parse error.
pub open spec fn program_read_spec(lines: Seq<Seq<char>>) -> Result<Seq<ExpV>, Seq<read::ErrorV>> {
    let (ts, es) = read_lines(lines, lines.len());
    if es.len() > 0 {
        Err(es)
    } else {
        match parse_tokens_spec(ts) {
            Ok(x) => Ok(x),
            Err(e) => Err(seq![read::ErrorOf::Parse(e)]),
        }
    }
}

/// The views of the lines of a program.
pub open spec fn lines_view(lines: Seq<String>) -> Seq<Seq<char>> {
    lines.map_values(|l: String| l@)
}

/// The views of a series of reading errors.
pub open spec fn read_errors_view(es: Seq<read::Error>) -> Seq<read::ErrorV> {
    es.map_values(|e: read::Error| e@)
}

/// The texts of the floating-point literals in an expression, in order.
pub open spec fn float_texts(e: Exp) -> Seq<Seq<char>>
    decreases e, 1nat,
{
    match e {
        Exp::Float(s) => seq![s@],
        Exp::Function { args, .. } => float_texts_all(args@),
        _ => seq![],
    }
}

/// The texts of the floating-point literals in a series of expressions.
pub open spec fn float_texts_all(es: Seq<Exp>) -> Seq<Seq<char>>
    decreases es, 0nat,
{
    if es.len() == 0 {
        seq![]
    } else {
        float_texts_all(es.drop_last()) + float_texts(es.last())
    }
}

/// A Hexit program.
pub struct Program {
    exps: Vec<Exp>,
}

impl View for Program {
    type V = Seq<ExpV>;

    open spec fn view(&self) -> Seq<ExpV> {
        exps_view(self.exp_list())
    }
}

impl Program {
    /// The expressions of this program.
    pub closed spec fn exp_list(&self) -> Seq<Exp> {
        self.exps@
    }

    /// Reads a Hexit program from its lines. Every line is tokenised, and
    /// every line that cannot be is reported; then the tokens of all the
    /// lines are parsed as one stream, so a function call may span lines.
    pub fn read(input_source_lines: &Vec<String>) -> (r: Result<Program, Vec<read::Error>>)
        ensures
            match program_read_spec(lines_view(input_source_lines@)) {
                Ok(es) => r matches Ok(p) && p@ == es,
                Err(errs) => r matches Err(v) && read_errors_view(v@) == errs,
            },
    {
        let ghost lines = lines_view(input_source_lines@);
        let mut all_tokens: Vec<Token> = Vec::new();
        let mut all_errors: Vec<read::Error> = Vec::new();
        let mut i: usize = 0;
        assert(tokens_view(all_tokens@) =~= seq![]);
        assert(read_errors_view(all_errors@) =~= seq![]);
        while i < input_source_lines.len()
            invariant
                0 <= i <= input_source_lines@.len(),
                lines == lines_view(input_source_lines@),
                read_lines(lines, i as nat) == (tokens_view(all_tokens@), read_errors_view(all_errors@)),
            decreases input_source_lines@.len() - i,
        {
            let line_number = i + 1;
            assert(lines[i as int] == input_source_lines@[i as int]@);
            match tokenise_line(input_source_lines[i].as_str(), line_number) {
                Ok(mut tokens) => {
                    let ghost before = tokens_view(all_tokens@);
                    let ghost tv = tokens_view(tokens@);
                    all_tokens.append(&mut tokens);
                    assert(tokens_view(all_tokens@) =~= before + tv);
                },
                Err(e) => {
                    let ghost before = read_errors_view(all_errors@);
                    let ghost ev = e@;
                    all_errors.push(e);
                    assert(read_errors_view(all_errors@) =~= before.push(ev));
                },
            }
            i = i + 1;
        }
        if all_errors.len() > 0 {
            return Err(all_errors);
        }
        match parse::parse_tokens(all_tokens) {
            Ok(exps) => Ok(Program { exps }),
            Err(e) => {
                let mut errors: Vec<read::Error> = Vec::new();
                let err = read::ErrorOf::Parse(e);
                let ghost ev = err@;
                errors.push(err);
                assert(read_errors_view(errors@) =~= seq![ev]);
                Err(errors)
            },
        }
    }

    /// Runs this program, returning the bytes that it produces or the first
    /// evaluation error. `floats` gives the bit patterns of the program's
    /// floating-point literals; `limit`, if given, bounds repeated output.
    pub fn run(self, constants: &Table, floats: &FloatTable, limit: Option<usize>) -> (r: Result<Vec<u8>, eval::Error>)
        ensures
            bytes_result_is(r, exps_bytes_spec(EvalEnv { constants: constants@, floats: floats@, limit }, self.exp_list(), MAX_NESTING as nat)),
    {
        evaluate_exps(self.exps, constants, floats, limit)
    }

    /// The texts of this program's floating-point literals, in order, whose
    /// bit patterns `run` needs.
    pub fn float_literals(&self) -> (r: Vec<String>)
        ensures
            lines_view(r@) == float_texts_all(self.exp_list()),
    {
        let mut out: Vec<String> = Vec::new();
        assert(lines_view(out@) =~= seq![]);
        collect_floats(&self.exps, &mut out);
        assert(lines_view(out@) =~= seq![] + float_texts_all(self.exps@));
        out
    }
}

/// Appends the texts of the floating-point literals of the expressions.
fn collect_floats(exps: &Vec<Exp>, out: &mut Vec<String>)
    ensures
        lines_view(final(out)@) == lines_view(old(out)@) + float_texts_all(exps@),
    decreases exps@, 0nat,
{
    let ghost start = lines_view(out@);
    let mut i: usize = 0;
    assert(exps@.subrange(0, 0) =~= Seq::<Exp>::empty());
    assert(start + float_texts_all(Seq::<Exp>::empty()) =~= start);
    while i < exps.len()
        invariant
            0 <= i <= exps@.len(),
            lines_view(out@) == start + float_texts_all(exps@.subrange(0, i as int)),
        decreases exps@.len() - i,
    {
        let ghost before = lines_view(out@);
        collect_floats_exp(&exps[i], out);
        proof {
            let p = exps@.subrange(0, i + 1);
            assert(p.drop_last() =~= exps@.subrange(0, i as int));
            assert(p.last() == exps@[i as int]);
        }
        i = i + 1;
        assert(lines_view(out@) =~= start + float_texts_all(exps@.subrange(0, i as int)));
    }
    assert(exps@.subrange(0, i as int) =~= exps@);
}

/// Appends the texts of the floating-point literals of an expression.
fn collect_floats_exp(e: &Exp, out: &mut Vec<String>)
    ensures
        lines_view(final(out)@) == lines_view(old(out)@) + float_texts(*e),
    decreases *e, 1nat,
{
    match e {
        Exp::Float(s) => {
            let ghost before = lines_view(out@);
            out.push(s.clone());
            assert(lines_view(out@) =~= before + seq![s@]);
        },
        Exp::Function { args, .. } => {
            collect_floats(args, out);
        },
        _ => {
            assert(lines_view(out@) =~= lines_view(out@) + Seq::<Seq<char>>::empty());
        },
    }
}

} // verus!
