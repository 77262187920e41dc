use abi_parser::grammar::RangeKind;
use abi_parser::parser::{parse, AbiVersion, Entity, ParserError};
use abi_parser::types::{Param, ParamType};

fn cell(input: &str) -> Vec<Param> {
    match parse(input) {
        Ok(Entity::Cell(ps)) => ps,
        other => panic!("expected a type list, got {:?}", other),
    }
}

fn kinds(ps: &[Param]) -> Vec<String> {
    ps.iter().map(|p| p.kind.type_signature()).collect()
}

#[test]
fn correct_parser() {
    assert!(matches!(Entity::parse("").unwrap(), Entity::Empty));

    let entity = Entity::parse("uint").unwrap();
    println!("{entity:?}");

    let entity = Entity::parse("uint256").unwrap();
    println!("{entity:?}");

    let entity = Entity::parse("(uint256, addr)").unwrap();
    println!("{entity:?}");

    let entity = Entity::parse("map(uint256, addr)").unwrap();
    println!("{entity:?}");

    let entity = Entity::parse("map(uint256, addr)[]").unwrap();
    println!("{entity:?}");
}

#[test]
fn blank_inputs_are_empty() {
    assert!(matches!(parse(""), Ok(Entity::Empty)));
    assert!(matches!(parse("   "), Ok(Entity::Empty)));
    assert!(matches!(parse(" \t\r\n\u{2028}\u{200E}"), Ok(Entity::Empty)));
}

#[test]
fn single_uint256_is_named_value0() {
    let ps = cell("uint256");
    assert_eq!(ps.len(), 1);
    assert_eq!(ps[0].name, "value0");
    assert!(matches!(ps[0].kind, ParamType::Uint(256)));
}

#[test]
fn plain_uint_defaults_to_256() {
    let ps = cell("uint");
    assert!(matches!(ps[0].kind, ParamType::Uint(256)));
    let ps = cell("int");
    assert!(matches!(ps[0].kind, ParamType::Int(256)));
    let ps = cell("u8, i16");
    assert!(matches!(ps[0].kind, ParamType::Uint(8)));
    assert!(matches!(ps[1].kind, ParamType::Int(16)));
}

#[test]
fn parenthesised_list_is_its_items() {
    let ps = cell("(uint256, addr)");
    assert_eq!(ps.len(), 2);
    assert!(matches!(ps[0].kind, ParamType::Uint(256)));
    assert!(matches!(ps[1].kind, ParamType::Address));
    assert_eq!(ps[0].name, "value0");
    assert_eq!(ps[1].name, "value1");
}

#[test]
fn array_of_map() {
    let ps = cell("map(uint256, addr)[]");
    assert_eq!(ps.len(), 1);
    match &ps[0].kind {
        ParamType::Array(inner) => match &**inner {
            ParamType::Mapping(k, v) => {
                assert!(matches!(**k, ParamType::Uint(256)));
                assert!(matches!(**v, ParamType::Address));
            }
            other => panic!("expected a map, got {:?}", other),
        },
        other => panic!("expected an array, got {:?}", other),
    }
    assert_eq!(kinds(&ps), vec!["map(uint256,address)[]".to_string()]);
}

#[test]
fn map_without_array() {
    let ps = cell("map(uint256, addr)");
    assert_eq!(kinds(&ps), vec!["map(uint256,address)".to_string()]);
}

#[test]
fn all_scalars_and_wrappers() {
    let ps = cell(
        "bool, address, cell, bytes, string, gram, token, varuint16, varint32, fixedbytes32, optional(uint8), ref(cell), tuple(bool, int8), uint8[3], (bool)[][]",
    );
    assert_eq!(
        kinds(&ps),
        vec![
            "bool", "address", "cell", "bytes", "string", "gram", "gram", "varuint16", "varint32",
            "fixedbytes32", "optional(uint8)", "ref(cell)", "(bool,int8)", "uint8[3]",
            "(bool)[][]",
        ]
        .into_iter()
        .map(String::from)
        .collect::<Vec<_>>()
    );
}

#[test]
fn nested_tuple_fields_are_named() {
    let ps = cell("((uint8, bool), address)");
    assert_eq!(ps.len(), 2);
    match &ps[0].kind {
        ParamType::Tuple(fields) => {
            assert_eq!(fields.len(), 2);
            assert_eq!(fields[0].name, "value0");
            assert_eq!(fields[1].name, "value1");
            assert!(matches!(fields[1].kind, ParamType::Bool));
        }
        other => panic!("expected a tuple, got {:?}", other),
    }
}

#[test]
fn widths_inside_range_are_exact() {
    for w in [1usize, 8, 160, 255, 256] {
        let ps = cell(&format!("uint{w}"));
        assert!(matches!(ps[0].kind, ParamType::Uint(x) if x == w));
        let ps = cell(&format!("int{w}"));
        assert!(matches!(ps[0].kind, ParamType::Int(x) if x == w));
    }
}

#[test]
fn widths_outside_range_fail() {
    for w in [0usize, 257, 1000, 65536] {
        match parse(&format!("uint{w}")) {
            Err(ParserError::ValueOutOfRange { kind, value, position }) => {
                assert_eq!(kind, RangeKind::Uint);
                assert_eq!(value, w);
                assert_eq!(position, 0);
            }
            other => panic!("expected an out-of-range error, got {:?}", other),
        }
        match parse(&format!("bool, int{w}")) {
            Err(ParserError::ValueOutOfRange { kind, value, position }) => {
                assert_eq!(kind, RangeKind::Int);
                assert_eq!(value, w);
                assert_eq!(position, 6);
            }
            other => panic!("expected an out-of-range error, got {:?}", other),
        }
    }
}

#[test]
fn huge_width_is_capped() {
    match parse("uint99999999999999999999999") {
        Err(ParserError::ValueOutOfRange { kind, value, .. }) => {
            assert_eq!(kind, RangeKind::Uint);
            assert_eq!(value, usize::MAX);
        }
        other => panic!("expected an out-of-range error, got {:?}", other),
    }
}

#[test]
fn other_sizes_out_of_range() {
    assert!(matches!(
        parse("varuint8"),
        Err(ParserError::ValueOutOfRange { kind: RangeKind::VarUint, value: 8, position: 0 })
    ));
    assert!(matches!(
        parse("fixedbytes33"),
        Err(ParserError::ValueOutOfRange { kind: RangeKind::FixedBytes, value: 33, position: 0 })
    ));
    assert!(matches!(
        parse("varint0"),
        Err(ParserError::ValueOutOfRange { kind: RangeKind::VarInt, value: 0, position: 0 })
    ));
}

fn nested(d: usize) -> String {
    format!("{}uint{}", "(".repeat(d), ")".repeat(d))
}

#[test]
fn nesting_up_to_sixteen() {
    for d in 0..=16 {
        assert!(parse(&nested(d)).is_ok(), "depth {d}");
    }
}

#[test]
fn nesting_seventeen_fails() {
    match parse(&nested(17)) {
        Err(ParserError::TooDeepNesting { depth, position }) => {
            assert_eq!(depth, 17);
            assert_eq!(position, 16);
        }
        other => panic!("expected a nesting error, got {:?}", other),
    }
    assert!(matches!(
        parse(&format!("optional({})", nested(16))),
        Err(ParserError::TooDeepNesting { depth: 17, .. })
    ));
}

#[test]
fn unknown_identifier_in_list() {
    match parse("(uint256, foo)") {
        Err(ParserError::UnknownIdentifier { ident, position }) => {
            assert_eq!(ident, "foo");
            assert_eq!(position, 10);
        }
        other => panic!("expected an unknown identifier, got {:?}", other),
    }
}

#[test]
fn unexpected_token_and_eof() {
    match parse("uint256,,") {
        Err(ParserError::UnexpectedToken { token, position }) => {
            assert_eq!(token, ",");
            assert_eq!(position, 8);
        }
        other => panic!("expected an unexpected token, got {:?}", other),
    }
    match parse("(uint256, bool") {
        Err(ParserError::UnexpectedEof { position }) => assert_eq!(position, 14),
        other => panic!("expected end of input, got {:?}", other),
    }
    match parse("()") {
        Err(ParserError::UnexpectedToken { token, position }) => {
            assert_eq!(token, ")");
            assert_eq!(position, 1);
        }
        other => panic!("expected an unexpected token, got {:?}", other),
    }
}

#[test]
fn positions_are_byte_offsets() {
    match parse("\u{2028}bool, ?") {
        Err(ParserError::UnexpectedToken { token, position }) => {
            assert_eq!(token, "?");
            assert_eq!(position, 3 + 6);
        }
        other => panic!("expected an unexpected token, got {:?}", other),
    }
    match parse("bool, é") {
        Err(ParserError::UnexpectedToken { token, position }) => {
            assert_eq!(token, "é");
            assert_eq!(position, 6);
        }
        other => panic!("expected an unexpected token, got {:?}", other),
    }
}

#[test]
fn function_with_derived_ids() {
    match parse("foo(uint32)(bool)v2") {
        Ok(Entity::Function(f)) => {
            assert_eq!(f.name, "foo");
            assert_eq!(f.abi_version, AbiVersion { major: 2, minor: 2 });
            assert_eq!(f.input_id, 0xfa74c9a0 & 0x7FFF_FFFF);
            assert_eq!(f.output_id, 0xfa74c9a0 | 0x8000_0000);
            assert_eq!(f.input_id, 0x7a74c9a0);
            assert_eq!(f.output_id, 0xfa74c9a0);
            assert_eq!(f.inputs.len(), 1);
            assert!(matches!(f.inputs[0].kind, ParamType::Uint(32)));
            assert!(matches!(f.outputs[0].kind, ParamType::Bool));
        }
        other => panic!("expected a function, got {:?}", other),
    }
}

#[test]
fn function_spacing_does_not_change_ids() {
    let a = match parse("transfer(address,uint128)()") {
        Ok(Entity::Function(f)) => f,
        other => panic!("expected a function, got {:?}", other),
    };
    let b = match parse("  transfer ( address , uint128 ) ( ) v2.2 ") {
        Ok(Entity::Function(f)) => f,
        other => panic!("expected a function, got {:?}", other),
    };
    assert_eq!(a.input_id, 0x3b7ac349);
    assert_eq!(a.output_id, 0xbb7ac349);
    assert_eq!(b.input_id, a.input_id);
    assert_eq!(b.output_id, a.output_id);
    assert!(a.outputs.is_empty());
}

#[test]
fn function_with_explicit_id() {
    match parse("bar#1a2B(bool)()v1") {
        Ok(Entity::Function(f)) => {
            assert_eq!(f.input_id, 0x1a2b);
            assert_eq!(f.output_id, 0x1a2b);
            assert_eq!(f.abi_version, AbiVersion { major: 1, minor: 0 });
        }
        other => panic!("expected a function, got {:?}", other),
    }
}

#[test]
fn function_versions() {
    for (tag, major, minor) in [("v1.0", 1, 0), ("v2.0", 2, 0), ("v2.1", 2, 1), ("v2.3", 2, 3), ("", 2, 2)] {
        match parse(&format!("f()() {tag}")) {
            Ok(Entity::Function(f)) => assert_eq!(f.abi_version, AbiVersion { major, minor }),
            other => panic!("expected a function, got {:?}", other),
        }
    }
}

#[test]
fn invalid_version_and_id() {
    assert!(matches!(parse("f()()v3"), Err(ParserError::InvalidAbiVersion { position: 5 })));
    match parse("f#(bool)()") {
        Err(ParserError::InvalidNumericLiteral { literal, position }) => {
            assert_eq!(literal, "");
            assert_eq!(position, 2);
        }
        other => panic!("expected an invalid literal, got {:?}", other),
    }
    match parse("f#123456789()()") {
        Err(ParserError::InvalidNumericLiteral { literal, position }) => {
            assert_eq!(literal, "123456789");
            assert_eq!(position, 2);
        }
        other => panic!("expected an invalid literal, got {:?}", other),
    }
}

#[test]
fn fixed_array_length_overflow() {
    assert!(matches!(
        parse("bool[99999999999999999999999]"),
        Err(ParserError::ValueOutOfRange { kind: RangeKind::FixedArray, position: 5, .. })
    ));
}

#[test]
fn map_keys_are_integers_or_addresses() {
    match parse("map(bool, uint8)") {
        Err(ParserError::UnexpectedToken { token, position }) => {
            assert_eq!(token, "bool");
            assert_eq!(position, 4);
        }
        other => panic!("expected a rejected key, got {:?}", other),
    }
    match parse("uint8, map( (uint8), bool)") {
        Err(ParserError::UnexpectedToken { token, position }) => {
            assert_eq!(token, "(");
            assert_eq!(position, 12);
        }
        other => panic!("expected a rejected key, got {:?}", other),
    }
    assert!(parse("map(int8, bool), map(address, cell)").is_ok());
}

#[test]
fn seventeen_open_groups_fail_whatever_follows() {
    for tail in ["bool", "uint8, bool)", ""] {
        match parse(&format!("{}{}", "(".repeat(17), tail)) {
            Err(ParserError::TooDeepNesting { depth, position }) => {
                assert_eq!(depth, 17);
                assert_eq!(position, 16);
            }
            other => panic!("expected a nesting error, got {:?}", other),
        }
    }
}

#[test]
fn unicode_spaces_are_blank() {
    for input in ["\u{3000}", "\u{00A0}", " \u{1680}\u{2000}\u{200A}\u{202F}\u{205F}\u{200E}\u{200F} "] {
        assert!(matches!(parse(input), Ok(Entity::Empty)), "{input:?}");
        assert!(matches!(Entity::parse(input), Ok(Entity::Empty)), "{input:?}");
    }
    let ps = cell("\u{3000}bool,\u{00A0}uint8\u{3000}");
    assert_eq!(kinds(&ps), vec!["bool".to_string(), "uint8".to_string()]);
}

#[test]
fn function_signature_parses_to_same_ids() {
    let first = match parse("transfer ( address, (uint8, bool)[] ) ( uint128 ) v2.1") {
        Ok(Entity::Function(f)) => f,
        other => panic!("expected a function, got {:?}", other),
    };
    let canonical = abi_parser::signature::get_function_signature(
        &first.name,
        &first.inputs,
        &first.outputs,
        first.abi_version.major,
    );
    assert_eq!(canonical, "transfer(address,(uint8,bool)[])(uint128)v2");
    let second = match parse(&format!("{}(address,(uint8,bool)[])(uint128)v2.1", first.name)) {
        Ok(Entity::Function(f)) => f,
        other => panic!("expected a function, got {:?}", other),
    };
    assert_eq!(first.input_id, second.input_id);
    assert_eq!(first.output_id, second.output_id);
}
