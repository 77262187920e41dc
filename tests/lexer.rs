use abi_parser::lexer::{is_ident_continue, is_ident_start, is_whitespace, tokenize, Cursor, TokenKind};
use abi_parser::signature::{calc_function_id, get_function_signature, id_from_digest, split_function_id};
use abi_parser::types::{Param, ParamType};

#[test]
fn tokens_cover_input() {
    let input = "map(uint256, addr)[]\u{2029}#é";
    let tokens = tokenize(input);
    let total: usize = tokens.iter().map(|t| t.len).sum();
    assert_eq!(total, input.len());
    let kinds: Vec<TokenKind> = tokens.iter().map(|t| t.kind).collect();
    assert_eq!(
        kinds,
        vec![
            TokenKind::Ident,
            TokenKind::OpenParen,
            TokenKind::Ident,
            TokenKind::Comma,
            TokenKind::Whitespace,
            TokenKind::Ident,
            TokenKind::CloseParen,
            TokenKind::OpenBracket,
            TokenKind::CloseBracket,
            TokenKind::Whitespace,
            TokenKind::Unknown,
            TokenKind::Unknown,
        ]
    );
    assert_eq!(tokens[9].len, 3);
    assert_eq!(tokens[11].len, 2);
}

#[test]
fn empty_input_has_no_tokens() {
    assert!(tokenize("").is_empty());
}

#[test]
fn character_classes() {
    assert!(is_whitespace('\u{0085}'));
    assert!(!is_whitespace('a'));
    assert!(is_ident_start('_'));
    assert!(!is_ident_start('1'));
    assert!(is_ident_continue('1'));
    assert!(!is_ident_continue('-'));
}

#[test]
fn cursor_reads_characters() {
    let chars: Vec<char> = "ab".chars().collect();
    let mut c = Cursor::new(&chars, 0);
    assert_eq!(c.first(), 'a');
    assert_eq!(c.nth_char(1), 'b');
    assert_eq!(c.nth_char(2), '\0');
    assert_eq!(c.bump(), Some('a'));
    assert_eq!(c.len_consumed(), 1);
    assert!(!c.is_eof());
    assert_eq!(c.bump(), Some('b'));
    assert!(c.is_eof());
    assert_eq!(c.bump(), None);
    let mut d = Cursor::new(&chars, 0);
    let t = d.advance_token();
    assert_eq!(t.kind, TokenKind::Ident);
    assert_eq!(t.len, 2);
    assert!(d.is_eof());
}

#[test]
fn canonical_signature() {
    let inputs = vec![Param { name: "a".to_string(), kind: ParamType::Uint(32) }];
    let outputs = vec![Param { name: "b".to_string(), kind: ParamType::Bool }];
    assert_eq!(get_function_signature("foo", &inputs, &outputs, 2), "foo(uint32)(bool)v2");
    let tuple = ParamType::Tuple(vec![
        Param { name: "x".to_string(), kind: ParamType::Bool },
        Param { name: "y".to_string(), kind: ParamType::Address },
    ]);
    let outputs = vec![Param { name: "r".to_string(), kind: ParamType::Uint(256) }, Param { name: "t".to_string(), kind: tuple }];
    assert_eq!(get_function_signature("getData", &vec![], &outputs, 1), "getData()(uint256,(bool,address))v1");
}

#[test]
fn function_ids() {
    assert_eq!(calc_function_id("foo(uint32)(bool)v2"), 0xfa74c9a0);
    assert_eq!(calc_function_id("getData()(uint256,(bool,address))v1"), 0x4964a583);
    assert_eq!(id_from_digest(&[0x12, 0x34, 0x56, 0x78, 0x9a]), 0x12345678);
    assert_eq!(split_function_id(0xfa74c9a0), (0x7a74c9a0, 0xfa74c9a0));
    assert_eq!(split_function_id(0x3b7ac349), (0x3b7ac349, 0xbb7ac349));
}

#[test]
fn interface_id_is_xor_of_method_ids() {
    assert_eq!(abi_parser::signature::compute_tip6_interface_id(&[]), 0);
    assert_eq!(abi_parser::signature::compute_tip6_interface_id(&[0x7a74c9a0]), 0x7a74c9a0);
    assert_eq!(
        abi_parser::signature::compute_tip6_interface_id(&[0x0F0F_0000, 0x00FF_00FF, 0x1234_5678]),
        0x0F0F_0000 ^ 0x00FF_00FF ^ 0x1234_5678
    );
    assert_eq!(abi_parser::signature::compute_tip6_interface_id(&[5, 5]), 0);
}
