use abi_parser::builders::{generate_event, generate_function, params_to_string};
use abi_parser::codegen::{
    generate_rust_code, generate_rust_code_from_params, CodegenError, Event, Generator,
};
use abi_parser::parser::{build_function, AbiVersion, Function};
use abi_parser::properties::{generate_property, GenerationError, HelperMapping, StructProperty};
use abi_parser::types::{Param, ParamType};

const HEADER: &str = "use std::collections::HashMap;\n\nuse nekoton_abi::{BuildTokenValue, PackAbi, PackAbiPlain, TokenValueExt, UnpackAbi, UnpackAbiPlain, UnpackerError, UnpackerResult};\nuse once_cell::sync::OnceCell;\nuse serde::{Deserialize, Serialize};\nuse ton_abi::{Param, ParamType};\n\n";

const OUTER: &str = "#[derive(Serialize, Deserialize, Debug, Clone, PackAbi, UnpackAbiPlain)]\n";
const INNER: &str = "#[derive(Serialize, Deserialize, Debug, Clone, UnpackAbi)]\n";

fn param(name: &str, kind: ParamType) -> Param {
    Param { name: name.to_string(), kind }
}

fn ab_tuple() -> ParamType {
    ParamType::Tuple(vec![param("a", ParamType::Uint(256)), param("b", ParamType::Bool)])
}

fn function(name: &str, inputs: Vec<Param>, outputs: Vec<Param>) -> Function {
    build_function(name.to_string(), None, inputs, outputs, AbiVersion { major: 2, minor: 2 })
}

#[test]
fn common_struct_for_single_uint() {
    let text = generate_rust_code_from_params("uint256").unwrap();
    let expected = format!(
        "{HEADER}{OUTER}pub struct CommonStruct {{\n    #[abi(uint256)]\n    pub value0: ton_types::UInt256,\n}}\n\n"
    );
    assert_eq!(text, expected);
}

#[test]
fn override_and_auxiliary_struct() {
    let text = generate_rust_code_from_params("(uint160, (bool, address))").unwrap();
    let expected = format!(
        "{HEADER}{OUTER}pub struct CommonStruct {{\n    #[abi(unpack_with=\"uint160_bytes\")]\n    pub value0: num_bigint::BigUint,\n    #[abi]\n    pub value1: InternalStruct1,\n}}\n\n{INNER}pub struct InternalStruct1 {{\n    #[abi(bool)]\n    pub value0: bool,\n    #[abi(address)]\n    pub value1: ton_block::MsgAddressInt,\n}}\n\n"
    );
    assert_eq!(text, expected);
}

#[test]
fn non_list_text_gives_no_code() {
    assert_eq!(generate_rust_code_from_params("").unwrap(), "");
    assert_eq!(generate_rust_code_from_params("foo(uint8)()").unwrap(), "");
    assert!(matches!(generate_rust_code_from_params("(uint8"), Err(CodegenError::Parse(_))));
}

#[test]
fn containers_map_to_wrapped_types() {
    let text = generate_rust_code_from_params("map(uint32, bool[]), optional(uint64), int24[2]").unwrap();
    assert!(text.contains("    #[abi]\n    pub value0: HashMap<u32, Vec<bool>>,\n"));
    assert!(text.contains("    #[abi(optional)]\n    pub value1: Option<u64>,\n"));
    assert!(text.contains("    #[abi(array)]\n    pub value2: Vec<num_bigint::BigInt>,\n"));
}

#[test]
fn unsupported_map_key() {
    let ty = ParamType::Mapping(Box::new(ParamType::Bool), Box::new(ParamType::Uint(8)));
    match generate_property("m".to_string(), &ty) {
        Err(GenerationError::UnsupportedMapKeyType { param_name }) => assert_eq!(param_name, "m"),
        other => panic!("expected a map key error, got {:?}", other),
    }
    assert!(matches!(
        generate_rust_code_from_params("uint8, map(bool, uint8)"),
        Err(CodegenError::Parse(_))
    ));
}

#[test]
fn tuple_reused_across_functions() {
    let f1 = function("first", vec![param("x", ab_tuple())], vec![]);
    let f2 = function("second_one", vec![param("y", ab_tuple())], vec![]);
    let text = generate_rust_code(vec![f1, f2], vec![]).unwrap();
    assert_eq!(text.matches("pub struct InternalStruct").count(), 1);
    assert!(!text.contains("InternalStruct2"));
    assert!(text.contains("pub struct FirstFunctionInput {\n    #[abi]\n    pub x: InternalStruct1,\n}\n"));
    assert!(text.contains("pub struct SecondOneFunctionInput {\n    #[abi]\n    pub y: InternalStruct1,\n}\n"));
    assert!(text.contains(
        "pub struct InternalStruct1 {\n    #[abi(uint256)]\n    pub a: ton_types::UInt256,\n    #[abi(bool)]\n    pub b: bool,\n}\n"
    ));
}

#[test]
fn different_field_names_make_different_structs() {
    let other = ParamType::Tuple(vec![param("c", ParamType::Uint(256)), param("b", ParamType::Bool)]);
    let f1 = function("first", vec![param("x", ab_tuple())], vec![param("z", other)]);
    let text = generate_rust_code(vec![f1], vec![]).unwrap();
    assert_eq!(text.matches("pub struct InternalStruct").count(), 2);
}

#[test]
fn output_input_and_event_structs() {
    let f = function("get", vec![], vec![param("value", ParamType::Uint(8))]);
    let e = Event { name: "changed".to_string(), inputs: vec![] };
    let text = generate_rust_code(vec![f], vec![e]).unwrap();
    assert!(!text.contains("GetFunctionInput"));
    let out_at = text.find("pub struct GetFunctionOutput {\n    #[abi(uint8)]\n    pub value: u8,\n}\n").unwrap();
    let ev_at = text.find("pub struct ChangedEventOutput {\n}\n").unwrap();
    assert!(out_at < ev_at);
}

#[test]
fn field_names_are_snake_case() {
    let p = generate_property("myValue_".to_string(), &ParamType::Uint(8)).unwrap();
    assert_eq!(p.rust_name(), "my_value");
    assert_eq!(p.abi_name(), "myValue_");
    let f = function("f", vec![param("_someField", ParamType::Int(8))], vec![]);
    let text = generate_rust_code(vec![f], vec![]).unwrap();
    assert!(text.contains("    #[abi(name = \"_someField\", int8)]\n    pub some_field: i8,\n"));
}

#[test]
fn type_mapping_table() {
    let cases = [
        (ParamType::Uint(8), "u8"),
        (ParamType::Uint(128), "u128"),
        (ParamType::Uint(160), "num_bigint::BigUint"),
        (ParamType::Uint(256), "ton_types::UInt256"),
        (ParamType::Uint(7), "num_bigint::BigUint"),
        (ParamType::Int(64), "i64"),
        (ParamType::Int(256), "num_bigint::BigInt"),
        (ParamType::VarUint(16), "num_bigint::BigUint"),
        (ParamType::VarInt(32), "num_bigint::BigUint"),
        (ParamType::Bytes, "Vec<u8>"),
        (ParamType::FixedBytes(4), "Vec<u8>"),
        (ParamType::String, "String"),
        (ParamType::Cell, "ton_types::Cell"),
        (ParamType::Token, "ton_block::Grams"),
        (ParamType::Address, "ton_block::MsgAddressInt"),
        (ParamType::Ref(Box::new(ParamType::Bool)), "bool"),
    ];
    for (ty, expected) in cases {
        match generate_property("v".to_string(), &ty).unwrap() {
            StructProperty::Simple { rust_type_name, .. } => assert_eq!(rust_type_name, expected),
            other => panic!("expected a plain field, got {:?}", other),
        }
    }
}

#[test]
fn type_str_keys() {
    let p = generate_property("t".to_string(), &ab_tuple()).unwrap();
    assert_eq!(p.type_str(), "(uint256,bool)");
    let p = generate_property("o".to_string(), &ParamType::Optional(Box::new(ParamType::Uint(8)))).unwrap();
    assert_eq!(p.type_str(), "optional(uint8)");
    let mapping = HelperMapping::standard();
    assert_eq!(p.abi_derive_type_name(&mapping), Some("optional".to_string()));
    let p = generate_property("w".to_string(), &ParamType::Uint(24)).unwrap();
    assert_eq!(p.abi_derive_type_name(&mapping), None);
}

#[test]
fn generating_again_adds_no_auxiliary_struct() {
    let params = vec![param("p", ab_tuple())];
    let mut g = Generator::load_raw(vec![], vec![]);
    g.generate_structs_from_params(&params).unwrap();
    let count = g.output_inner_struct_count;
    let names: Vec<String> = g.output_function_inner_structs.iter().map(|e| e.1.name.clone()).collect();
    g.generate_structs_from_params(&params).unwrap();
    assert_eq!(count, 1);
    assert_eq!(g.output_inner_struct_count, count);
    let again: Vec<String> = g.output_function_inner_structs.iter().map(|e| e.1.name.clone()).collect();
    assert_eq!(names, again);
    let mut h = Generator::load_raw(vec![], vec![]);
    let first = h.generate_structs_from_params(&params).unwrap();
    let mut k = Generator::load_raw(vec![], vec![]);
    assert_eq!(k.generate_structs_from_params(&params).unwrap(), first);
}

#[test]
fn parameter_list_source() {
    let ps = vec![
        param("a", ParamType::Uint(256)),
        param("t", ParamType::Tuple(vec![param("x", ParamType::Bool)])),
        param("m", ParamType::Mapping(Box::new(ParamType::Address), Box::new(ParamType::FixedArray(Box::new(ParamType::Int(8)), 3)))),
    ];
    assert_eq!(
        params_to_string(&ps),
        "vec![Param{name: \"a\".to_string(), kind: ParamType::Uint(256)}, Param{name: \"t\".to_string(), kind: ParamType::Tuple(vec![Param{name: \"x\".to_string(), kind: ParamType::Bool}])}, Param{name: \"m\".to_string(), kind: ParamType::Map(Box::new(ParamType::Address), Box::new(ParamType::FixedArray(Box::new(ParamType::Int(8)), 3)))}];"
    );
    assert_eq!(params_to_string(&vec![]), "vec![];");
}

#[test]
fn function_and_event_accessors() {
    let f = match abi_parser::parser::parse("getData()(uint8)") {
        Ok(abi_parser::parser::Entity::Function(f)) => f,
        other => panic!("expected a function, got {:?}", other),
    };
    assert_eq!(
        generate_function(&f),
        "pub fn get_data() -> &'static ton_abi::Function {\n    static FUNCTION: OnceCell<ton_abi::Function> = OnceCell::new();\n    FUNCTION.get_or_init(|| {\n    let header = vec![];\n    let mut builder = FunctionBuilder::new(\"getData\");\n    let output = vec![Param{name: \"value0\".to_string(), kind: ParamType::Uint(8)}];\n    builder = builder.outputs(output);\n    builder.headers(header)\n    .build()\n    })\n}\n"
    );
    let e = Event { name: "Changed".to_string(), inputs: vec![param("v", ParamType::Bool)] };
    assert_eq!(
        generate_event(&e),
        "pub fn changed() -> &'static ton_abi::Event {\n    static EVENT: OnceCell<ton_abi::Event> = OnceCell::new();\n    EVENT.get_or_init(|| {\n    let mut builder = EventBuilder::new(\"Changed\");\n    let input = vec![Param{name: \"v\".to_string(), kind: ParamType::Bool}];\n    builder = builder.inputs(input);\n    builder.build()\n    })\n}\n"
    );
    let g = Generator::load_raw(vec![f], vec![e]);
    let text = g.generate_functions();
    assert!(text.starts_with("pub fn get_data()"));
    assert!(text.contains("}\n\npub fn changed()"));
}

#[test]
fn keys_keep_names_and_types_apart() {
    let t1 = ParamType::Tuple(vec![param("valueu", ParamType::Int(8))]);
    let t2 = ParamType::Tuple(vec![param("value", ParamType::Uint(8))]);
    let f = function("f", vec![param("x", t1), param("y", t2)], vec![]);
    let text = generate_rust_code(vec![f], vec![]).unwrap();
    assert_eq!(text.matches("pub struct InternalStruct").count(), 2);
    assert!(text.contains("    pub x: InternalStruct1,\n"));
    assert!(text.contains("    pub y: InternalStruct2,\n"));
}

#[test]
fn default_generator_is_empty() {
    let g = Generator::default();
    assert_eq!(g.output_inner_struct_count, 0);
    assert!(g.output_structs.is_empty());
    assert_eq!(g.mapping.entries.len(), 2);
    assert_eq!(g.generate_function_input_structs().unwrap().len(), 0);
}

#[test]
fn struct_names_are_camel_case() {
    let f = function("__get_all_items", vec![param("x", ParamType::Bool)], vec![]);
    let text = generate_rust_code(vec![f], vec![]).unwrap();
    assert!(text.contains("pub struct GetAllItemsFunctionInput {"));
    assert!(text.contains("pub fn __get_all_items()"));
}

#[test]
fn two_functions_share_one_inner_struct_through_generate_structs() {
    let f1 = function("f1", vec![param("p", ab_tuple())], vec![]);
    let f2 = function("f2", vec![param("p", ab_tuple())], vec![]);
    let mut g = Generator::load_raw(vec![f1, f2], vec![]);
    let metas = g.generate_function_input_structs().unwrap();
    assert_eq!(metas.len(), 2);
    g.generate_structs(metas).unwrap();
    assert_eq!(g.output_function_inner_structs.len(), 1);
    assert_eq!(g.output_inner_struct_count, 1);
    assert_eq!(g.output_structs.len(), 2);
    for s in &g.output_structs {
        assert_eq!(s.fields.len(), 1);
        assert_eq!(s.fields[0].ty, "InternalStruct1");
    }
    assert_eq!(g.render().matches("pub struct InternalStruct").count(), 1);
}
