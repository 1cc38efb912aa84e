//! The options that the command line chooses, and the rules that decide
//! them from the flags and values that were given.

use vstd::prelude::*;

use crate::num::{parse_unsigned, unsigned_within};
use crate::style::{LetterCase, Style};
use crate::text::chars_of;
use crate::verify::Verification;

verus! {

broadcast use vstd::std_specs::vec::group_vec_axioms;

/// When to use colours in the output.
#[derive(PartialEq, Eq, Debug, Clone, Copy, Structural)]
pub enum UseColours {
    /// Always use colours.
    Always,
    /// Use colours if output is to a terminal; otherwise, do not.
    Automatic,
    /// Never use colours.
    Never,
}

/// Where the input program comes from.
#[derive(PartialEq, Eq, Debug, Clone)]
pub enum Input {
    /// The program was given as a command-line argument.
    Expression(String),
    /// The program should be read from standard input.
    Stdin,
    /// The program should be read from the file at this path.
    File(String),
}

/// Where the output is written to.
#[derive(PartialEq, Eq, Debug, Clone)]
pub enum Output {
    /// Standard output.
    Stdout,
    /// A new file at this path.
    File(String),
}

/// How the output bytes are written.
#[derive(PartialEq, Eq, Debug)]
pub enum Format {
    /// As raw bytes.
    Raw,
    /// Formatted as hex characters in the given style.
    Formatted(Style),
}

/// The options needed to run a program.
#[derive(PartialEq, Eq, Debug)]
pub struct Options {
    /// Where the input program comes from.
    pub input: Input,
    /// Where the output is written to.
    pub output: Output,
    /// How the output bytes are written.
    pub format: Format,
    /// How the length of the output is checked, if at all.
    pub verification: Verification,
    /// The limit on repeated output, if any.
    pub limit: Option<usize>,
}

/// What to do once the options have been read.
#[derive(PartialEq, Eq, Debug)]
pub enum RunningMode {
    /// Run a program and write its output.
    Run(Options),
    /// Check whether a program's syntax is correct.
    SyntaxCheck(Input),
    /// List the available constants, only those whose names contain the
    /// filter where one is given.
    ListConstants { filter: Option<String> },
}

/// Why the help text is shown.
#[derive(PartialEq, Eq, Debug, Clone, Copy, Structural)]
pub enum HelpReason {
    /// It was asked for with `--help`.
    Flag,
    /// There was nothing to run.
    NoArguments,
}

/// Something wrong with the combination of options chosen.
#[derive(PartialEq, Eq, Debug, Clone)]
pub enum OptionsError {
    /// No input was given, not even `-`.
    NoInputFiles,
    /// More than one input file was given.
    TooManyInputFiles,
    /// Both kinds of length verification were given.
    TooMuchVerification,
    /// More than one constant filter was given.
    TooManyConstantSearches,
    /// A verification number could not be read, or was zero where a
    /// multiple was asked for; this holds the text given.
    InvalidVerificationNumber(String),
}

/// The flags and values found on the command line.
#[derive(PartialEq, Eq, Debug, Clone)]
pub struct Flags {
    pub help: bool,
    pub version: bool,
    pub list_constants: bool,
    pub check_syntax: bool,
    pub raw: bool,
    pub lowercase: bool,
    pub colour: Option<String>,
    pub expression: Option<String>,
    pub output: Option<String>,
    pub prefix: Option<String>,
    pub suffix: Option<String>,
    pub separator: Option<String>,
    pub verify_length: Option<String>,
    pub verify_boundary: Option<String>,
    /// The arguments that are not options.
    pub free: Vec<String>,
}

/// Whether the text is one of the given words.
pub open spec fn is_one_of(s: Seq<char>, a: Seq<char>, b: Seq<char>) -> bool {
    s == a || s == b
}

/// The colour setting that a `--colour` value chooses. An unknown value
/// chooses the automatic setting.
pub open spec fn colour_setting(s: Seq<char>) -> UseColours {
    if s == seq!['a', 'l', 'w', 'a', 'y', 's'] || s == seq!['y', 'e', 's'] {
        UseColours::Always
    } else if s == seq!['n', 'e', 'v', 'e', 'r'] || s == seq!['n', 'o'] {
        UseColours::Never
    } else {
        UseColours::Automatic
    }
}

fn same_text(a: &str, b: &str) -> (r: bool)
    ensures
        r == (a@ == b@),
{
    let x = chars_of(a);
    let y = chars_of(b);
    assert(x@ == a@);
    if x.len() != y.len() {
        assert(x@.len() != y@.len());
        assert(a@ != b@);
        return false;
    }
    let mut i: usize = 0;
    while i < x.len()
        invariant
            0 <= i <= x@.len() == y@.len(),
            x@ == a@,
            y@ == b@,
            forall|k: int| 0 <= k < i ==> x@[k] == y@[k],
        decreases x@.len() - i,
    {
        if x[i] != y[i] {
            assert(x@[i as int] != y@[i as int]);
            return false;
        }
        i = i + 1;
    }
    assert(x@ =~= y@);
    true
}

/// Whether `r` is the input that the options choose.
pub open spec fn input_chosen(expression: Option<String>, free: Seq<String>, r: Result<Input, OptionsError>) -> bool {
    match expression {
        Some(e) => r matches Ok(Input::Expression(t)) && t@ == e@,
        None => if free.len() == 0 {
            r == Err::<Input, OptionsError>(OptionsError::NoInputFiles)
        } else if free.len() > 1 {
            r == Err::<Input, OptionsError>(OptionsError::TooManyInputFiles)
        } else if free[0]@ == seq!['-'] {
            r == Ok::<Input, OptionsError>(Input::Stdin)
        } else {
            r matches Ok(Input::File(p)) && p@ == free[0]@
        },
    }
}

/// Whether `r` is the length verification that the two options choose.
pub open spec fn verification_chosen(length: Option<String>, boundary: Option<String>, r: Result<Verification, OptionsError>) -> bool {
    match (length, boundary) {
        (None, None) => r == Ok::<Verification, OptionsError>(Verification::AnythingGoes),
        (Some(l), None) => match unsigned_within(l@, usize::MAX as nat) {
            Some(n) => r == Ok::<Verification, OptionsError>(Verification::ExactLength(n as usize)),
            None => r matches Err(OptionsError::InvalidVerificationNumber(t)) && t@ == l@,
        },
        (None, Some(b)) => match unsigned_within(b@, usize::MAX as nat) {
            Some(n) if n > 0 => r == Ok::<Verification, OptionsError>(Verification::Multiple(n as usize)),
            _ => r matches Err(OptionsError::InvalidVerificationNumber(t)) && t@ == b@,
        },
        (Some(_), Some(_)) => r == Err::<Verification, OptionsError>(OptionsError::TooMuchVerification),
    }
}

/// Whether `f` is the output format that the flags choose.
pub open spec fn format_chosen(flags: Flags, f: Format) -> bool {
    if flags.raw {
        f is Raw
    } else {
        f matches Format::Formatted(style) && style.prefix == flags.prefix && style.suffix == flags.suffix
            && style.separator == flags.separator && style.case == (if flags.lowercase {
            LetterCase::Lower
        } else {
            LetterCase::Upper
        })
    }
}

/// Whether `o` is the output that the flags choose.
pub open spec fn output_chosen(flags: Flags, o: Output) -> bool {
    match flags.output {
        Some(p) => o matches Output::File(q) && q@ == p@,
        None => o is Stdout,
    }
}

impl UseColours {
    /// The colour setting that the `--colour` value chooses, if one was given.
    pub fn deduce(colour: &Option<String>) -> (r: UseColours)
        ensures
            colour is None ==> r == UseColours::Automatic,
            colour is Some ==> r == colour_setting(colour->Some_0@),
    {
        match colour {
            None => UseColours::Automatic,
            Some(s) => {
                proof {
                    reveal_strlit("always");
                    reveal_strlit("yes");
                    reveal_strlit("never");
                    reveal_strlit("no");
                    assert("always"@ =~= seq!['a', 'l', 'w', 'a', 'y', 's']);
                    assert("yes"@ =~= seq!['y', 'e', 's']);
                    assert("never"@ =~= seq!['n', 'e', 'v', 'e', 'r']);
                    assert("no"@ =~= seq!['n', 'o']);
                }
                if same_text(s.as_str(), "always") || same_text(s.as_str(), "yes") {
                    UseColours::Always
                } else if same_text(s.as_str(), "never") || same_text(s.as_str(), "no") {
                    UseColours::Never
                } else {
                    UseColours::Automatic
                }
            },
        }
    }
}

impl Verification {
    /// The length verification that the two options ask for: none, an
    /// exact length, or a multiple, which must not be zero.
    pub fn deduce(length: &Option<String>, boundary: &Option<String>) -> (r: Result<Verification, OptionsError>)
        ensures
            verification_chosen(*length, *boundary, r),
    {
        match (length, boundary) {
            (None, None) => Ok(Verification::AnythingGoes),
            (Some(l), None) => match parse_unsigned(l.as_str(), usize::MAX as u64) {
                Some(n) => Ok(Verification::ExactLength(n as usize)),
                None => Err(OptionsError::InvalidVerificationNumber(l.clone())),
            },
            (None, Some(b)) => match parse_unsigned(b.as_str(), usize::MAX as u64) {
                Some(n) if n > 0 => Ok(Verification::Multiple(n as usize)),
                _ => Err(OptionsError::InvalidVerificationNumber(b.clone())),
            },
            (Some(_), Some(_)) => Err(OptionsError::TooMuchVerification),
        }
    }
}

impl Input {
    /// The input that the options choose: the expression where one was
    /// given, else the one free argument, `-` standing for standard input.
    pub fn deduce(expression: &Option<String>, free: &Vec<String>) -> (r: Result<Input, OptionsError>)
        ensures
            input_chosen(*expression, free@, r),
    {
        if let Some(expr_string) = expression {
            return Ok(Input::Expression(expr_string.clone()));
        }
        if free.len() == 0 {
            Err(OptionsError::NoInputFiles)
        } else if free.len() > 1 {
            Err(OptionsError::TooManyInputFiles)
        } else {
            proof {
                reveal_strlit("-");
                assert("-"@ =~= seq!['-']);
            }
            if same_text(free[0].as_str(), "-") {
                Ok(Input::Stdin)
            } else {
                Ok(Input::File(free[0].clone()))
            }
        }
    }
}

impl RunningMode {
    /// Whether the help text is to be shown, and why: it was asked for, or
    /// nothing was given to run.
    pub fn check_help(flags: &Flags) -> (r: Option<HelpReason>)
        ensures
            r == (if flags.help {
                Some(HelpReason::Flag)
            } else if flags.expression is None && !flags.list_constants && flags.free@.len() == 0 {
                Some(HelpReason::NoArguments)
            } else {
                None
            }),
    {
        if flags.help {
            Some(HelpReason::Flag)
        } else if flags.expression.is_none() && !flags.list_constants && flags.free.len() == 0 {
            Some(HelpReason::NoArguments)
        } else {
            None
        }
    }

    /// What to do, as the flags decide it: list the constants, check a
    /// program's syntax, or run a program.
    pub fn deduce(flags: &Flags) -> (r: Result<RunningMode, OptionsError>)
        ensures
            flags.list_constants ==> (if flags.free@.len() > 1 {
                r == Err::<RunningMode, OptionsError>(OptionsError::TooManyConstantSearches)
            } else {
                r matches Ok(RunningMode::ListConstants { filter }) && (filter is None <==> flags.free@.len() == 0)
                    && (filter matches Some(f) ==> f@ == flags.free@[0]@)
            }),
            !flags.list_constants && flags.check_syntax ==> match r {
                Ok(RunningMode::SyntaxCheck(i)) => input_chosen(flags.expression, flags.free@, Ok(i)),
                Ok(_) => false,
                Err(e) => input_chosen(flags.expression, flags.free@, Err(e)),
            },
            !flags.list_constants && !flags.check_syntax ==> match r {
                Ok(RunningMode::Run(o)) => input_chosen(flags.expression, flags.free@, Ok(o.input))
                    && verification_chosen(flags.verify_length, flags.verify_boundary, Ok(o.verification))
                    && output_chosen(*flags, o.output) && format_chosen(*flags, o.format) && o.limit is None,
                Ok(_) => false,
                Err(e) => input_chosen(flags.expression, flags.free@, Err(e))
                    || verification_chosen(flags.verify_length, flags.verify_boundary, Err(e)),
            },
    {
        if flags.list_constants {
            if flags.free.len() == 0 {
                Ok(RunningMode::ListConstants { filter: None })
            } else if flags.free.len() == 1 {
                Ok(RunningMode::ListConstants { filter: Some(flags.free[0].clone()) })
            } else {
                Err(OptionsError::TooManyConstantSearches)
            }
        } else if flags.check_syntax {
            let input = match Input::deduce(&flags.expression, &flags.free) {
                Ok(i) => i,
                Err(e) => return Err(e),
            };
            Ok(RunningMode::SyntaxCheck(input))
        } else {
            let input = match Input::deduce(&flags.expression, &flags.free) {
                Ok(i) => i,
                Err(e) => return Err(e),
            };
            let output = match &flags.output {
                Some(path) => Output::File(path.clone()),
                None => Output::Stdout,
            };
            let format = if flags.raw {
                Format::Raw
            } else {
                Format::Formatted(
                    Style {
                        prefix: flags.prefix.clone(),
                        suffix: flags.suffix.clone(),
                        separator: flags.separator.clone(),
                        case: if flags.lowercase { LetterCase::Lower } else { LetterCase::Upper },
                    },
                )
            };
            let verification = match Verification::deduce(&flags.verify_length, &flags.verify_boundary) {
                Ok(v) => v,
                Err(e) => return Err(e),
            };
            Ok(RunningMode::Run(Options { input, output, format, verification, limit: None }))
        }
    }
}

} // verus!
