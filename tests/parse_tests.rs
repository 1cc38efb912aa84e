use hexit::ast::{Exp, FunctionName, MultiByteType};
use hexit::parse::{
    is_constant_name, parse_alphanums, parse_backslashes, parse_form, parse_function_name, parse_tokens, Alphanums,
    Error,
};
use hexit::pos::At;
use hexit::tokens::Token;

#[test]
fn one_byte() {
    assert_eq!(parse_alphanums(&"EF".at(1, 0)), Ok(Alphanums::Bytes(vec![0xEF])));
}

#[test]
fn two_bytes() {
    assert_eq!(parse_alphanums(&"EF12".at(1, 0)), Ok(Alphanums::Bytes(vec![0xEF, 0x12])));
}

#[test]
fn half_a_byte() {
    assert_eq!(parse_alphanums(&"E".at(1, 0)), Err(Error::SingleHex("E".at(1, 0))));
}

#[test]
fn not_a_byte() {
    assert_eq!(parse_alphanums(&"Ex".at(1, 0)), Err(Error::StrayCharacter("x".at(1, 1))));
}

#[test]
fn first_g() {
    assert_eq!(parse_alphanums(&"FG".at(1, 0)), Err(Error::StrayCharacter("G".at(1, 1))));
}

#[test]
fn second_g() {
    assert_eq!(parse_alphanums(&"GF".at(1, 0)), Err(Error::StrayCharacter("G".at(1, 0))));
}

#[test]
fn constant_name() {
    assert_eq!(
        parse_alphanums(&"DNS_AAAA".at(1, 0)),
        Ok(Alphanums::ConstantName("DNS_AAAA".to_string()))
    );
}

#[test]
fn shortest_possible_constant() {
    assert_eq!(parse_alphanums(&"A_B".at(1, 0)), Ok(Alphanums::ConstantName("A_B".to_string())));
}

#[test]
fn constant_ending_with_numbers() {
    assert_eq!(
        parse_alphanums(&"DNS_EUI48".at(1, 0)),
        Ok(Alphanums::ConstantName("DNS_EUI48".to_string()))
    );
}

#[test]
fn constant_too_short() {
    assert_eq!(parse_alphanums(&"_A".at(1, 0)), Err(Error::StrayCharacter("_".at(1, 0))));
}

#[test]
fn constant_still_too_short() {
    assert_eq!(parse_alphanums(&"A_".at(1, 0)), Err(Error::StrayCharacter("_".at(1, 1))));
}

#[test]
fn parse_empty() {
    assert_eq!(parse_form(&"".at(1, 0)), Err(Error::InvalidForm("".at(1, 0))));
}

#[test]
fn numbers() {
    assert_eq!(parse_form(&"1234567".at(1, 0)), Ok(Exp::Dec("1234567".to_string())));
}

#[test]
fn ipv4() {
    assert_eq!(parse_form(&"127.0.0.1".at(1, 0)), Ok(Exp::IPv4 { bytes: [127, 0, 0, 1] }));
}

#[test]
fn ipv6() {
    assert_eq!(
        parse_form(&"::1".at(1, 0)),
        Ok(Exp::IPv6 { bytes: [0, 0, 0, 0, 0, 0, 0, 0, 0, 0, 0, 0, 0, 0, 0, 1] })
    );
}

#[test]
fn bits() {
    assert_eq!(
        parse_form(&"b0110110".at(1, 0)),
        Ok(Exp::Bits(vec![false, true, true, false, true, true, false]))
    );
}

#[test]
fn bits_underscore() {
    assert_eq!(
        parse_form(&"b011_0110".at(1, 0)),
        Ok(Exp::Bits(vec![false, true, true, false, true, true, false]))
    );
}

#[test]
fn no_bits() {
    assert_eq!(parse_form(&"b".at(1, 0)), Err(Error::InvalidForm("b".at(1, 0))));
}

#[test]
fn bad_under_bits() {
    assert_eq!(parse_form(&"b_".at(1, 0)), Err(Error::InvalidForm("b_".at(1, 0))));
}

#[test]
fn no_such_thing_as_two() {
    assert_eq!(parse_form(&"b0110112".at(1, 0)), Err(Error::InvalidForm("b0110112".at(1, 0))));
}

#[test]
fn something_else() {
    assert_eq!(
        parse_form(&"something_else".at(1, 0)),
        Err(Error::InvalidForm("something_else".at(1, 0)))
    );
}

#[test]
fn float_well() {
    assert_eq!(parse_form(&"f1.5".at(1, 0)), Ok(Exp::Float("1.5".to_string())));
}

#[test]
fn float_badly() {
    assert_eq!(parse_form(&"foo".at(1, 0)), Err(Error::InvalidForm("foo".at(1, 0))));
}

#[test]
fn once() {
    assert_eq!(parse_function_name(&"x1".at(1, 0)), Ok(Some(FunctionName::Repeat(1))));
}

#[test]
fn eleven_times() {
    assert_eq!(parse_function_name(&"x11".at(1, 0)), Ok(Some(FunctionName::Repeat(11))));
}

#[test]
fn nonce() {
    assert_eq!(parse_function_name(&"x0".at(1, 0)), Err(Error::InvalidRepeatAmount("x0".at(1, 0))));
}

#[test]
fn too_many_times() {
    assert_eq!(
        parse_function_name(&"x99999999999".at(1, 0)),
        Err(Error::InvalidRepeatAmount("x99999999999".at(1, 0)))
    );
}

#[test]
fn be16() {
    assert_eq!(
        parse_function_name(&"be16".at(1, 0)),
        Ok(Some(FunctionName::MultiByte(MultiByteType::Be16)))
    );
}

#[test]
fn be32() {
    assert_eq!(
        parse_function_name(&"be32".at(1, 0)),
        Ok(Some(FunctionName::MultiByte(MultiByteType::Be32)))
    );
}

#[test]
fn le64() {
    assert_eq!(
        parse_function_name(&"le64".at(1, 0)),
        Ok(Some(FunctionName::MultiByte(MultiByteType::Le64)))
    );
}

#[test]
fn missing_repeat_amount() {
    assert_eq!(parse_function_name(&"x".at(1, 0)), Ok(None));
}

#[test]
fn two_xs() {
    assert_eq!(parse_function_name(&"xx11".at(1, 0)), Ok(None));
}

#[test]
fn nonsense() {
    assert_eq!(parse_function_name(&"fhqwhgads".at(1, 0)), Ok(None));
}

#[test]
fn nonsense_numbers() {
    assert_eq!(parse_function_name(&"0123456789".at(1, 0)), Ok(None));
}

#[test]
fn empty() {
    assert_eq!(parse_backslashes(&"".at(1, 0)), Ok(String::from("")));
}

#[test]
fn longer() {
    assert_eq!(parse_backslashes(&"longer".at(1, 0)), Ok(String::from("longer")));
}

#[test]
fn backslash_slash() {
    assert_eq!(parse_backslashes(&"back\\\\slash".at(1, 0)), Ok("back\\slash".to_string()));
}

#[test]
fn backslash_quote() {
    assert_eq!(parse_backslashes(&"back\\\"slash".at(1, 0)), Ok("back\"slash".to_string()));
}

#[test]
fn just_a_form() {
    let tokens = vec![Token::Form("32".at(1, 5))];
    assert_eq!(parse_tokens(tokens), Ok(vec![Exp::Dec("32".to_string())]));
}

#[test]
fn a_content_constant() {
    let tokens = vec![Token::Alphanum("GPS_QUERY".at(1, 5))];
    assert_eq!(parse_tokens(tokens), Ok(vec![Exp::Constant { name: "GPS_QUERY".to_string() }]));
}

#[test]
fn form_function() {
    let tokens = vec![Token::Alphanum("le32".at(1, 0)), Token::Form("32".at(1, 5))];
    assert_eq!(
        parse_tokens(tokens),
        Ok(vec![Exp::Function {
            name: FunctionName::MultiByte(MultiByteType::Le32),
            args: vec![Exp::Dec("32".to_string())],
        }])
    );
}

#[test]
fn a_function() {
    let tokens = vec![
        Token::Alphanum("x11".at(1, 0)),
        Token::Open("(".at(1, 0)),
        Token::Alphanum("AB".at(1, 0)),
        Token::Close(")".at(1, 0)),
    ];
    assert_eq!(
        parse_tokens(tokens),
        Ok(vec![Exp::Function { name: FunctionName::Repeat(11), args: vec![Exp::Char(0xAB)] }])
    );
}

#[test]
fn empty_function() {
    let tokens = vec![
        Token::Alphanum("x11".at(1, 0)),
        Token::Open("(".at(1, 0)),
        Token::Close(")".at(1, 0)),
    ];
    assert_eq!(
        parse_tokens(tokens),
        Ok(vec![Exp::Function { name: FunctionName::Repeat(11), args: vec![] }])
    );
}

#[test]
fn suddenly_close() {
    assert_eq!(
        parse_tokens(vec![Token::Close(")".at(1, 0))]),
        Err(Error::StrayCharacter(")".at(1, 0)))
    );
}

#[test]
fn suddenly_open() {
    assert_eq!(
        parse_tokens(vec![Token::Open("(".at(1, 0))]),
        Err(Error::StrayCharacter("(".at(1, 0)))
    );
}

#[test]
fn stray_function_name() {
    assert_eq!(
        parse_tokens(vec![Token::Alphanum("le32".at(1, 0))]),
        Err(Error::StrayFunctionName("le32".at(1, 0)))
    );
}

#[test]
fn unclosed_function() {
    let tokens = vec![
        Token::Alphanum("x11".at(1, 0)),
        Token::Open("(".at(1, 0)),
        Token::Alphanum("AB".at(1, 0)),
    ];
    assert_eq!(parse_tokens(tokens), Err(Error::UnclosedFunction("(".at(1, 0))));
}

#[test]
fn byte_string() {
    let tokens = vec![Token::Alphanum("11".at(1, 0)), Token::Quoted("bytes".at(1, 2))];
    assert_eq!(
        parse_tokens(tokens),
        Ok(vec![Exp::Char(0x11), Exp::StringLiteral { chars: "bytes".to_string() }])
    );
}

#[test]
fn invalid_function_name() {
    let tokens = vec![
        Token::Alphanum("zz".at(1, 0)),
        Token::Open("(".at(1, 2)),
        Token::Close(")".at(1, 3)),
    ];
    assert_eq!(parse_tokens(tokens), Err(Error::InvalidFunctionName("zz".at(1, 0))));
}

#[test]
fn constant_name_check() {
    assert!(is_constant_name("IP_TCP"));
    assert!(!is_constant_name("IPTCP"));
    assert!(!is_constant_name("ip_tcp"));
}

#[test]
fn ipv6_full_and_embedded() {
    assert_eq!(
        parse_form(&"2001:db8::ff00:42:8329".at(1, 0)),
        Ok(Exp::IPv6 { bytes: [0x20, 0x01, 0x0d, 0xb8, 0, 0, 0, 0, 0, 0, 0xff, 0x00, 0x00, 0x42, 0x83, 0x29] })
    );
    assert_eq!(
        parse_form(&"::ffff:1.2.3.4".at(1, 0)),
        Ok(Exp::IPv6 { bytes: [0, 0, 0, 0, 0, 0, 0, 0, 0, 0, 0xff, 0xff, 1, 2, 3, 4] })
    );
}

#[test]
fn ipv4_leading_zero_is_not_an_address() {
    assert_eq!(parse_form(&"01.2.3.4".at(1, 0)), Err(Error::InvalidForm("01.2.3.4".at(1, 0))));
}

#[test]
fn timestamp_form() {
    assert_eq!(parse_form(&"2017-12-31T21:36:45".at(1, 0)), Ok(Exp::Timestamp(0x5A49586D)));
}

#[test]
fn float_form_literals() {
    assert_eq!(parse_form(&"f-inf".at(1, 0)), Ok(Exp::Float("-inf".to_string())));
    assert_eq!(parse_form(&"fNaN".at(1, 0)), Ok(Exp::Float("NaN".to_string())));
    assert_eq!(parse_form(&"f2.7e18".at(1, 0)), Ok(Exp::Float("2.7e18".to_string())));
    assert_eq!(parse_form(&"f1e".at(1, 0)), Err(Error::InvalidForm("f1e".at(1, 0))));
}
