use hexit::verify::{decimal_string, Verification};

#[test]
fn anything_1() {
    assert_eq!(Ok(()), Verification::AnythingGoes.verify(1));
}

#[test]
fn anything_0() {
    assert_eq!(Ok(()), Verification::AnythingGoes.verify(0));
}

#[test]
fn exact_hit() {
    assert_eq!(Ok(()), Verification::ExactLength(13).verify(13));
}

#[test]
fn exact_miss() {
    assert_eq!(Err("13".into()), Verification::ExactLength(13).verify(3));
}

#[test]
fn multiple_exact() {
    assert_eq!(Ok(()), Verification::Multiple(13).verify(13));
}

#[test]
fn multiple_half() {
    assert_eq!(Ok(()), Verification::Multiple(13).verify(26));
}

#[test]
fn multiple_miss() {
    assert_eq!(Err("multiple of 13".into()), Verification::Multiple(13).verify(3));
}

#[test]
fn decimal_strings() {
    assert_eq!(decimal_string(0), "0");
    assert_eq!(decimal_string(7), "7");
    assert_eq!(decimal_string(1050), "1050");
    assert_eq!(decimal_string(usize::MAX), usize::MAX.to_string());
}
