use hexit::style::{LetterCase, Style};

fn bytes() -> Vec<u8> {
    vec![0x67_u8, 0x30, 0x19, 0x41, 0xAB]
}

#[test]
fn plain() {
    let style = Style::default();
    let output = style.format(&bytes());
    assert_eq!(b"67301941AB\n", output.as_bytes());
}

#[test]
fn lowercase() {
    let mut style = Style::default();
    style.case = LetterCase::Lower;
    let output = style.format(&bytes());
    assert_eq!(b"67301941ab\n", output.as_bytes());
}

#[test]
fn separator() {
    let mut style = Style::default();
    style.separator = Some(String::from(" "));
    let output = style.format(&bytes());
    assert_eq!(b"67 30 19 41 AB\n", output.as_bytes());
}

#[test]
fn prefix() {
    let mut style = Style::default();
    style.prefix = Some(String::from(":"));
    let output = style.format(&bytes());
    assert_eq!(b":67:30:19:41:AB\n", output.as_bytes());
}

#[test]
fn suffix() {
    let mut style = Style::default();
    style.suffix = Some(String::from(";"));
    let output = style.format(&bytes());
    assert_eq!(b"67;30;19;41;AB;\n", output.as_bytes());
}

#[test]
fn the_whole_kitten_caboodle() {
    let style = Style {
        prefix: Some(String::from("0x")),
        suffix: Some(String::from("!")),
        separator: Some(String::from(" ")),
        case: LetterCase::Upper,
    };
    let output = style.format(&bytes());
    assert_eq!(b"0x67! 0x30! 0x19! 0x41! 0xAB!\n", output.as_bytes());
}

#[test]
fn unit() {
    let style = Style::default();
    let output = style.format(&vec![0xF0_u8]);
    assert_eq!(b"F0\n", output.as_bytes());
}

#[test]
fn unit_styled() {
    let style = Style {
        prefix: Some(String::from("[")),
        suffix: Some(String::from("]")),
        separator: Some(String::from("UNUSED")),
        case: LetterCase::Upper,
    };
    let output = style.format(&vec![0xF0_u8]);
    assert_eq!(b"[F0]\n", output.as_bytes());
}

#[test]
fn void() {
    let style = Style::default();
    let output = style.format(&vec![]);
    assert_eq!(b"\n", output.as_bytes());
}

#[test]
fn void_style() {
    let style = Style {
        prefix: Some(String::from("UNUSED")),
        suffix: Some(String::from("ALSO UNUSED")),
        separator: Some(String::from("THIS TOO IS UNUSED")),
        case: LetterCase::Upper,
    };
    let output = style.format(&vec![]);
    assert_eq!(b"\n", output.as_bytes());
}

#[test]
fn zeroes() {
    let style = Style::default();
    let output = style.format(&vec![0x00_u8, 0x00, 0x01]);
    assert_eq!(b"000001\n", output.as_bytes());
}
