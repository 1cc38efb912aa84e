use hexit::ast::{Exp, FunctionName};
use hexit::constants::Table;
use hexit::eval::evaluate_exps;
use hexit::eval::{Error, FloatBits, FloatTable, LargeNumber};
use hexit::parse;
use hexit::pos::At;
use hexit::read;
use hexit::Program;

fn run_with_limit(lines: &[&str], limit: Option<usize>) -> Result<Vec<u8>, Error> {
    let lines: Vec<String> = lines.iter().map(|l| l.to_string()).collect();
    let program = Program::read(&lines).expect("Parsing failed");
    let mut floats = FloatTable::empty();
    for text in program.float_literals() {
        let single = text.parse::<f32>().expect("float").to_bits();
        let double = text.parse::<f64>().expect("float").to_bits();
        floats.insert(text, FloatBits { single, double });
    }
    program.run(&Table::builtin_set(), &floats, limit)
}

fn run(source: &str) -> Result<Vec<u8>, Error> {
    run_with_limit(&[source], None)
}

#[test]
fn scenario_one_byte() {
    assert_eq!(run("AB"), Ok(vec![0xAB]));
}

#[test]
fn scenario_be32() {
    assert_eq!(run("be32[256]"), Ok(vec![0x00, 0x00, 0x01, 0x00]));
}

#[test]
fn scenario_top_level_decimal() {
    assert_eq!(run("[256]"), Err(Error::TopLevelBigDecimal(LargeNumber::FoundRawNumber("256".to_string()))));
}

#[test]
fn scenario_repeat() {
    assert_eq!(run("x3(AB)"), Ok(vec![0xAB, 0xAB, 0xAB]));
}

#[test]
fn scenario_string() {
    assert_eq!(run("\"JSON\""), Ok(vec![0x4A, 0x53, 0x4F, 0x4E]));
}

#[test]
fn scenario_and() {
    assert_eq!(run("and(5C 74)"), Ok(vec![0x54]));
}

#[test]
fn hex_pairs_evaluate_pairwise() {
    assert_eq!(run("09F9"), Ok(vec![0x09, 0xF9]));
    assert_eq!(run("09F965"), Ok(vec![0x09, 0xF9, 0x65]));
    assert_eq!(run("fF"), Ok(vec![0xFF]));
    assert_eq!(run("09  F9"), Ok(vec![0x09, 0xF9]));
}

#[test]
fn repeat_of_several_bytes() {
    assert_eq!(run("x11(AB AB)"), Ok(vec![0xAB; 22]));
    assert_eq!(run("x2(\"hi\" 00)"), Ok(vec![b'h', b'i', 0, b'h', b'i', 0]));
}

#[test]
fn repeat_zero_is_a_read_error() {
    let lines = vec!["x0(AB)".to_string()];
    match Program::read(&lines) {
        Err(errors) => {
            assert_eq!(errors, vec![read::Error::Parse(parse::Error::InvalidRepeatAmount("x0".at(1, 0)))]);
        },
        Ok(_) => panic!("x0 was accepted"),
    }
}

#[test]
fn be16_round_trip() {
    for v in [0u32, 1, 50, 255, 256, 4660, 65535] {
        let bytes = run(&format!("be16[{}]", v)).unwrap();
        assert_eq!(bytes.len(), 2);
        assert_eq!(u32::from(bytes[0]) * 256 + u32::from(bytes[1]), v);
    }
    assert_eq!(run("be16[65536]"), Err(Error::TooBigDecimal(LargeNumber::FoundRawNumber("65536".to_string()))));
}

#[test]
fn widths_and_byte_orders() {
    assert_eq!(run("le16[256]"), Ok(vec![0, 1]));
    assert_eq!(run("le32[256]"), Ok(vec![0, 1, 0, 0]));
    assert_eq!(run("be64[256]"), Ok(vec![0, 0, 0, 0, 0, 0, 1, 0]));
    assert_eq!(run("le64[18446744073709551615]"), Ok(vec![255; 8]));
    assert_eq!(run("be32[4294967295]"), Ok(vec![255; 4]));
}

#[test]
fn bitwise_functions() {
    assert_eq!(run("or(5C 74)"), Ok(vec![0x7C]));
    assert_eq!(run("xor(5C 74)"), Ok(vec![0x28]));
    assert_eq!(run("and(5C)"), Ok(vec![0x5C]));
    assert_eq!(run("not(5C)"), Ok(vec![0xA3]));
    assert_eq!(run("and(74 5C)"), run("and(5C 74)"));
    assert_eq!(run("xor(xor(01 02) 04)"), run("xor(01 xor(02 04))"));
    assert_eq!(run("not(not(\"hi\"))"), Ok(vec![b'h', b'i']));
}

#[test]
fn bit_forms() {
    assert_eq!(run("[b0]"), Ok(vec![0]));
    assert_eq!(run("[b10]"), Ok(vec![2]));
    assert_eq!(run("[b011]"), Ok(vec![3]));
    assert_eq!(run("[b11111111]"), Ok(vec![255]));
    assert_eq!(run("be16[b1100110000110011]"), Ok(vec![0xCC, 0x33]));
    assert_eq!(run("le16[b11111110]"), Ok(vec![254, 0]));
    assert_eq!(run("le32[b11001100001100110101010110101010]"), Ok(vec![0xAA, 0x55, 0x33, 0xCC]));
    assert_eq!(
        run("be64[b1100110000110011010101011010101011110000000011111111000010101010]"),
        Ok(vec![0xCC, 0x33, 0x55, 0xAA, 0xF0, 0x0F, 0xF0, 0xAA])
    );
}

#[test]
fn too_much_output() {
    assert_eq!(run_with_limit(&["x10(AB AB)"], Some(20)), Err(Error::TooMuchOutput));
    assert_eq!(run_with_limit(&["x10(AB AB)"], Some(21)).map(|b| b.len()), Ok(20));
    assert_eq!(run_with_limit(&["x10(AB AB)"], None).map(|b| b.len()), Ok(20));
}

#[test]
fn strings() {
    assert_eq!(run("\"\""), Ok(vec![]));
    assert_eq!(run("\"\\\\\""), Ok(vec![b'\\']));
    assert_eq!(run("\"\\\"\""), Ok(vec![b'"']));
    assert_eq!(run("AB\"JSON\"CD"), Ok(vec![0xAB, b'J', b'S', b'O', b'N', 0xCD]));
    assert_eq!(run("\"hi\\nyo\""), Ok(vec![b'h', b'i', b'\n', b'y', b'o']));
    assert_eq!(run("\"hi\\tyo\""), Ok(vec![b'h', b'i', b'\t', b'y', b'o']));
}

#[test]
fn addresses_and_timestamps() {
    assert_eq!(run("[127.0.0.1]"), Ok(vec![127, 0, 0, 1]));
    assert_eq!(run("[255.255.255.255]"), Ok(vec![255, 255, 255, 255]));
    assert_eq!(run("[::1]"), Ok(vec![0, 0, 0, 0, 0, 0, 0, 0, 0, 0, 0, 0, 0, 0, 0, 1]));
    assert_eq!(run("le32[2017-12-31T21:36:45]"), Ok(vec![0x6D, 0x58, 0x49, 0x5A]));
    assert_eq!(run("be32[2017-12-31T21:36:45]"), Ok(vec![0x5A, 0x49, 0x58, 0x6D]));
}

#[test]
fn float_forms() {
    assert_eq!(run("be32[f0.5]"), Ok(vec![0x3f, 0x00, 0x00, 0x00]));
    assert_eq!(run("be32[f0.1]"), Ok(vec![0x3d, 0xcc, 0xcc, 0xcd]));
    assert_eq!(run("be32[f-33.33]"), Ok(vec![0xc2, 0x05, 0x51, 0xec]));
    assert_eq!(run("be32[fNaN]"), Ok(vec![0x7f, 0xc0, 0x00, 0x00]));
    assert_eq!(run("be32[f-0]"), Ok(vec![0x80, 0x00, 0x00, 0x00]));
    assert_eq!(run("be32[f-inf]"), Ok(vec![0xff, 0x80, 0x00, 0x00]));
    assert_eq!(run("le32[f0.25]"), Ok(vec![0x00, 0x00, 0x80, 0x3e]));
    assert_eq!(run("be64[f0.5]"), Ok(vec![0x3f, 0xe0, 0, 0, 0, 0, 0, 0]));
}

#[test]
fn constants_from_the_builtin_set() {
    assert_eq!(run("IP_UDP"), Ok(vec![17]));
    assert_eq!(run("be16(DNS_AAAA)"), Ok(vec![0, 28]));
}

#[test]
fn functions_span_lines() {
    assert_eq!(run_with_limit(&["x2(AB", "CD)"], None), Ok(vec![0xAB, 0xCD, 0xAB, 0xCD]));
}

#[test]
fn every_broken_line_is_reported() {
    let lines = vec!["AB".to_string(), "[".to_string(), "CD".to_string(), "&".to_string()];
    match Program::read(&lines) {
        Err(errors) => assert_eq!(errors.len(), 2),
        Ok(_) => panic!("broken lines were accepted"),
    }
}

#[test]
fn float_literals_are_listed() {
    let lines = vec!["be32[f1.5] x2(le64[f-2])".to_string()];
    let program = Program::read(&lines).unwrap();
    assert_eq!(program.float_literals(), vec!["1.5".to_string(), "-2".to_string()]);
}

#[test]
fn constants_table() {
    let table = Table::builtin_set();
    assert!(table.lookup("IP_TCP").is_ok());
    assert!(table.lookup("IP_NOPE").is_err());
    let names: Vec<String> = table.all().into_iter().map(|(n, _)| n).collect();
    let mut sorted = names.clone();
    sorted.sort();
    assert_eq!(names, sorted);
    assert_eq!(names.len(), 72);
}

#[test]
fn comment_after_a_word() {
    assert_eq!(run("AB#CD"), Ok(vec![0xAB]));
    assert_eq!(run("AB CD # EF"), Ok(vec![0xAB, 0xCD]));
}

#[test]
fn space_before_the_closing_parenthesis() {
    assert_eq!(run("x2(AB )"), Ok(vec![0xAB, 0xAB]));
    assert_eq!(run("and( 5C 74 )"), Ok(vec![0x54]));
}

#[test]
fn nesting_up_to_the_limit() {
    let depth = hexit::ast::MAX_NESTING;
    let ok = format!("{}AB{}", "x1(".repeat(depth), ")".repeat(depth));
    assert_eq!(run(&ok), Ok(vec![0xAB]));
    let deep = format!("{}AB{}", "x1(".repeat(depth + 1), ")".repeat(depth + 1));
    match Program::read(&vec![deep]) {
        Err(errors) => assert_eq!(
            errors,
            vec![read::Error::Parse(parse::Error::TooDeeplyNested("(".at(1, 3 * depth + 2)))]
        ),
        Ok(_) => panic!("nesting beyond the limit was accepted"),
    }
}

#[test]
fn evaluating_too_deep_a_tree() {
    let nest = |levels: usize| {
        let mut e = Exp::Char(0xAB);
        for _ in 0..levels {
            e = Exp::Function { name: FunctionName::Repeat(1), args: vec![e] };
        }
        vec![e]
    };
    let depth = hexit::ast::MAX_NESTING;
    assert_eq!(evaluate_exps(nest(depth), &Table::empty(), &FloatTable::empty(), None), Ok(vec![0xAB]));
    assert_eq!(
        evaluate_exps(nest(depth + 1), &Table::empty(), &FloatTable::empty(), None),
        Err(Error::TooMuchRecursion)
    );
}

#[test]
fn builtin_names_are_constant_names() {
    let table = Table::builtin_set();
    for (name, _) in table.all() {
        assert!(hexit::parse::is_constant_name(&name), "{}", name);
    }
    assert_eq!(run("be16(ETHERTYPE_IPV4)"), Ok(vec![0x08, 0x00]));
}
