use hexit::ast::{BitwiseFold, Exp, FunctionName, MultiByteType};
use hexit::constants::Table;
use hexit::eval::{evaluate_exps, Error, FloatBits, FloatTable, LargeNumber, MultiByteValue};

fn eval(exps: Vec<Exp>) -> Result<Vec<u8>, Error> {
    evaluate_exps(exps, &Table::empty(), &FloatTable::empty(), None)
}

#[test]
fn nothing() {
    let exps = vec![];
    assert_eq!(evaluate_exps(exps, &Table::empty(), &FloatTable::empty(), None), Ok(vec![]));
}

#[test]
fn one_top_level_byte() {
    let exps = vec![Exp::Char(0x73)];
    assert_eq!(evaluate_exps(exps, &Table::empty(), &FloatTable::empty(), None), Ok(vec![0x73]));
}

#[test]
fn top_level_decimal_73() {
    let exps = vec![Exp::Dec("73".to_string())];
    assert_eq!(evaluate_exps(exps, &Table::empty(), &FloatTable::empty(), None), Ok(vec![73]));
}

#[test]
fn top_level_decimal_255() {
    let exps = vec![Exp::Dec("255".to_string())];
    assert_eq!(evaluate_exps(exps, &Table::empty(), &FloatTable::empty(), None), Ok(vec![255]));
}

#[test]
fn top_level_decimal_256() {
    let exps = vec![Exp::Dec("256".to_string())];
    assert_eq!(
        evaluate_exps(exps, &Table::empty(), &FloatTable::empty(), None),
        Err(Error::TopLevelBigDecimal(LargeNumber::FoundRawNumber("256".to_string())))
    );
}

#[test]
fn test_limit() {
    let exps = vec![Exp::Function {
        name: FunctionName::Repeat(30000),
        args: vec![Exp::Char(0x73), Exp::Char(0x73), Exp::Char(0x73)],
    }];
    assert_eq!(
        evaluate_exps(exps, &Table::empty(), &FloatTable::empty(), Some(1000)),
        Err(Error::TooMuchOutput)
    );
}

#[test]
fn limit_is_reached_exactly() {
    let exps = || vec![Exp::Function { name: FunctionName::Repeat(5), args: vec![Exp::Char(1), Exp::Char(2)] }];
    assert_eq!(evaluate_exps(exps(), &Table::empty(), &FloatTable::empty(), Some(10)), Err(Error::TooMuchOutput));
    assert_eq!(
        evaluate_exps(exps(), &Table::empty(), &FloatTable::empty(), Some(11)),
        Ok(vec![1, 2, 1, 2, 1, 2, 1, 2, 1, 2])
    );
}

#[test]
fn cast_of_wider_number_is_invalid() {
    let exps = vec![Exp::Function {
        name: FunctionName::MultiByte(MultiByteType::Be16),
        args: vec![Exp::Function { name: FunctionName::MultiByte(MultiByteType::Be32), args: vec![Exp::Char(1)] }],
    }];
    assert!(matches!(eval(exps), Err(Error::InvalidArgs(_))));
}

#[test]
fn cast_needs_one_argument() {
    let exps = vec![Exp::Function {
        name: FunctionName::MultiByte(MultiByteType::Le32),
        args: vec![Exp::Char(1), Exp::Char(2)],
    }];
    assert!(matches!(eval(exps), Err(Error::InvalidArgs(_))));
}

#[test]
fn bitwise_needs_arguments() {
    let exps = vec![Exp::Function { name: FunctionName::Bitwise(BitwiseFold::And), args: vec![] }];
    assert!(matches!(eval(exps), Err(Error::InvalidArgs(_))));
}

#[test]
fn bitwise_of_different_lengths_is_invalid() {
    let exps = vec![Exp::Function {
        name: FunctionName::Bitwise(BitwiseFold::Xor),
        args: vec![
            Exp::StringLiteral { chars: "ab".to_string() },
            Exp::StringLiteral { chars: "abc".to_string() },
        ],
    }];
    assert!(matches!(eval(exps), Err(Error::InvalidArgs(_))));
}

#[test]
fn top_level_multi_byte_is_an_error() {
    let exps = vec![Exp::Timestamp(7)];
    assert_eq!(eval(exps), Err(Error::TopLevelBigDecimal(LargeNumber::Known(MultiByteValue::ThirtyTwo(7)))));
}

#[test]
fn top_level_float_is_an_error() {
    let exps = vec![Exp::Float("1.5".to_string())];
    assert_eq!(eval(exps), Err(Error::TopLevelBigDecimal(LargeNumber::FoundRawFloat("1.5".to_string()))));
}

#[test]
fn too_many_bits() {
    let exps = vec![Exp::Bits(vec![true; 65])];
    assert_eq!(eval(exps), Err(Error::TopLevelBigDecimal(LargeNumber::FoundBits(65))));
}

#[test]
fn unknown_constant() {
    let exps = vec![Exp::Constant { name: "NO_SUCH".to_string() }];
    assert_eq!(
        evaluate_exps(exps, &Table::builtin_set(), &FloatTable::empty(), None),
        Err(Error::UnknownConstant("NO_SUCH".to_string()))
    );
}

#[test]
fn constants_of_both_widths() {
    let exps = vec![
        Exp::Constant { name: "IP_TCP".to_string() },
        Exp::Function {
            name: FunctionName::MultiByte(MultiByteType::Be16),
            args: vec![Exp::Constant { name: "ETHERTYPE_ARP".to_string() }],
        },
    ];
    assert_eq!(evaluate_exps(exps, &Table::builtin_set(), &FloatTable::empty(), None), Ok(vec![6, 0x08, 0x06]));
}

#[test]
fn floats_come_from_the_table() {
    let mut floats = FloatTable::empty();
    floats.insert("0.5".to_string(), FloatBits { single: 0.5f32.to_bits(), double: 0.5f64.to_bits() });
    let exps = vec![
        Exp::Function { name: FunctionName::MultiByte(MultiByteType::Be32), args: vec![Exp::Float("0.5".to_string())] },
        Exp::Function { name: FunctionName::MultiByte(MultiByteType::Le64), args: vec![Exp::Float("0.5".to_string())] },
    ];
    assert_eq!(
        evaluate_exps(exps, &Table::empty(), &floats, None),
        Ok(vec![0x3f, 0x00, 0x00, 0x00, 0, 0, 0, 0, 0, 0, 0xe0, 0x3f])
    );
}

#[test]
fn float_of_sixteen_bits_is_too_big() {
    let mut floats = FloatTable::empty();
    floats.insert("0.5".to_string(), FloatBits { single: 0.5f32.to_bits(), double: 0.5f64.to_bits() });
    let exps = vec![Exp::Function {
        name: FunctionName::MultiByte(MultiByteType::Be16),
        args: vec![Exp::Float("0.5".to_string())],
    }];
    assert_eq!(
        evaluate_exps(exps, &Table::empty(), &floats, None),
        Err(Error::TooBigDecimal(LargeNumber::FoundRawFloat("0.5".to_string())))
    );
}

#[test]
fn note_for_raw_numbers() {
    assert!(Error::TopLevelBigDecimal(LargeNumber::FoundRawNumber("300".to_string())).note().is_some());
    assert!(Error::TopLevelBigDecimal(LargeNumber::FoundRawFloat("1.5".to_string())).note().is_some());
    assert!(Error::TooMuchOutput.note().is_none());
}

#[test]
fn bitwise_laws_on_values() {
    let run = |op: BitwiseFold, a: &str, b: &str| {
        eval(vec![Exp::Function {
            name: FunctionName::Bitwise(op),
            args: vec![Exp::StringLiteral { chars: a.to_string() }, Exp::StringLiteral { chars: b.to_string() }],
        }])
    };
    for op in [BitwiseFold::And, BitwiseFold::Or, BitwiseFold::Xor] {
        assert_eq!(run(op, "ab", "Zq"), run(op, "Zq", "ab"));
    }
    let not_not = eval(vec![Exp::Function {
        name: FunctionName::BitwiseNot,
        args: vec![Exp::Function { name: FunctionName::BitwiseNot, args: vec![Exp::Char(0x5C), Exp::Char(0x01)] }],
    }]);
    assert_eq!(not_not, Ok(vec![0x5C, 0x01]));
}
