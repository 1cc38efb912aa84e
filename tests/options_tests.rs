use hexit::options::{Flags, Format, HelpReason, Input, OptionsError, Output, RunningMode, UseColours};
use hexit::style::LetterCase;
use hexit::verify::Verification;

fn flags(free: &[&str]) -> Flags {
    Flags {
        help: false,
        version: false,
        list_constants: false,
        check_syntax: false,
        raw: false,
        lowercase: false,
        colour: None,
        expression: None,
        output: None,
        prefix: None,
        suffix: None,
        separator: None,
        verify_length: None,
        verify_boundary: None,
        free: free.iter().map(|s| s.to_string()).collect(),
    }
}

#[test]
fn no_arguments_shows_help() {
    assert_eq!(RunningMode::check_help(&flags(&[])), Some(HelpReason::NoArguments));
    let mut f = flags(&["a.hexit"]);
    f.help = true;
    assert_eq!(RunningMode::check_help(&f), Some(HelpReason::Flag));
    assert_eq!(RunningMode::check_help(&flags(&["a.hexit"])), None);
}

#[test]
fn colour_settings() {
    assert_eq!(UseColours::deduce(&None), UseColours::Automatic);
    assert_eq!(UseColours::deduce(&Some("always".to_string())), UseColours::Always);
    assert_eq!(UseColours::deduce(&Some("yes".to_string())), UseColours::Always);
    assert_eq!(UseColours::deduce(&Some("never".to_string())), UseColours::Never);
    assert_eq!(UseColours::deduce(&Some("no".to_string())), UseColours::Never);
    assert_eq!(UseColours::deduce(&Some("sometimes".to_string())), UseColours::Automatic);
}

#[test]
fn run_a_file_with_formatting() {
    let mut f = flags(&["star.hexit"]);
    f.prefix = Some("0x".to_string());
    f.separator = Some(" ".to_string());
    f.lowercase = true;
    match RunningMode::deduce(&f) {
        Ok(RunningMode::Run(o)) => {
            assert_eq!(o.input, Input::File("star.hexit".to_string()));
            assert_eq!(o.output, Output::Stdout);
            assert_eq!(o.verification, Verification::AnythingGoes);
            match o.format {
                Format::Formatted(style) => {
                    assert_eq!(style.prefix, Some("0x".to_string()));
                    assert_eq!(style.separator, Some(" ".to_string()));
                    assert_eq!(style.suffix, None);
                    assert_eq!(style.case, LetterCase::Lower);
                },
                Format::Raw => panic!("expected a formatted output"),
            }
        },
        other => panic!("unexpected {:?}", other),
    }
}

#[test]
fn run_raw_to_a_file_from_stdin() {
    let mut f = flags(&["-"]);
    f.raw = true;
    f.output = Some("wibble".to_string());
    match RunningMode::deduce(&f) {
        Ok(RunningMode::Run(o)) => {
            assert_eq!(o.input, Input::Stdin);
            assert_eq!(o.output, Output::File("wibble".to_string()));
            assert_eq!(o.format, Format::Raw);
        },
        other => panic!("unexpected {:?}", other),
    }
}

#[test]
fn syntax_check_of_an_expression() {
    let mut f = flags(&[]);
    f.check_syntax = true;
    f.expression = Some("101".to_string());
    assert_eq!(RunningMode::deduce(&f), Ok(RunningMode::SyntaxCheck(Input::Expression("101".to_string()))));
}

#[test]
fn list_constants_with_and_without_filter() {
    let mut f = flags(&[]);
    f.list_constants = true;
    assert_eq!(RunningMode::deduce(&f), Ok(RunningMode::ListConstants { filter: None }));
    let mut g = flags(&["DNS"]);
    g.list_constants = true;
    assert_eq!(RunningMode::deduce(&g), Ok(RunningMode::ListConstants { filter: Some("DNS".to_string()) }));
    let mut h = flags(&["DNS", "TCP"]);
    h.list_constants = true;
    assert_eq!(RunningMode::deduce(&h), Err(OptionsError::TooManyConstantSearches));
}

#[test]
fn input_errors() {
    assert_eq!(Input::deduce(&None, &vec![]), Err(OptionsError::NoInputFiles));
    assert_eq!(
        Input::deduce(&None, &vec!["a".to_string(), "b".to_string()]),
        Err(OptionsError::TooManyInputFiles)
    );
}

#[test]
fn verification_options() {
    assert_eq!(Verification::deduce(&Some("32".to_string()), &None), Ok(Verification::ExactLength(32)));
    assert_eq!(Verification::deduce(&None, &Some("4".to_string())), Ok(Verification::Multiple(4)));
    assert_eq!(
        Verification::deduce(&Some("1".to_string()), &Some("2".to_string())),
        Err(OptionsError::TooMuchVerification)
    );
    assert_eq!(
        Verification::deduce(&Some("lots".to_string()), &None),
        Err(OptionsError::InvalidVerificationNumber("lots".to_string()))
    );
    assert_eq!(
        Verification::deduce(&None, &Some("0".to_string())),
        Err(OptionsError::InvalidVerificationNumber("0".to_string()))
    );
}
