//! Field descriptions derived from the type tree: the field type each value
//! maps to, its field name, and its field annotation.
use vstd::prelude::*;

use crate::text::{chars_are, chars_of, snake_of, string_from_chars};
use crate::types::{clone_type, fields_of, lemma_fields_of, push_str, sig, write_signature, Field, Param, ParamType, Ty};

verus! {

broadcast use {
    vstd::std_specs::vec::axiom_vec_index_decreases,
    vstd::seq::axiom_seq_index_decreases,
    vstd::seq::axiom_seq_subrange_decreases,
    vstd::std_specs::vec::axiom_vec_decreases_to_view,
};

/// Why structs cannot be generated for a type tree.
#[derive(Debug)]
pub enum GenerationError {
    /// A map whose key is not an integer or an address; names the parameter.
    UnsupportedMapKeyType { param_name: String },
    /// A map key that is not a plain field.
    InternalInconsistency,
}

pub enum GenErr {
    UnsupportedMapKeyType(Seq<char>),
    InternalInconsistency,
}

impl View for GenerationError {
    type V = GenErr;

    open spec fn view(&self) -> GenErr {
        match self {
            GenerationError::UnsupportedMapKeyType { param_name } => GenErr::UnsupportedMapKeyType(
                param_name@,
            ),
            GenerationError::InternalInconsistency => GenErr::InternalInconsistency,
        }
    }
}

/// How one value becomes a field of a generated struct.
#[derive(Debug)]
pub enum StructProperty {
    Simple { abi_name: String, rust_type_name: String, internal_type: Box<ParamType> },
    Array {
        abi_name: String,
        internal_type: Box<ParamType>,
        internal_struct_property: Box<StructProperty>,
    },
    Optional {
        abi_name: String,
        internal_type: Box<ParamType>,
        internal_struct_property: Box<StructProperty>,
    },
    Tuple { abi_name: String, internal_types: Vec<StructProperty>, params: Vec<ParamType> },
    HashMap {
        abi_name: String,
        key: Box<StructProperty>,
        value: Box<StructProperty>,
        key_type: Box<ParamType>,
        value_type: Box<ParamType>,
    },
}

/// The model of a field description.
pub enum PropV {
    Simple { abi_name: Seq<char>, rust_type: Seq<char>, ty: Ty },
    Array { abi_name: Seq<char>, ty: Ty, inner: Box<PropV> },
    Optional { abi_name: Seq<char>, ty: Ty, inner: Box<PropV> },
    Tuple { abi_name: Seq<char>, props: Seq<PropV>, tys: Seq<Ty> },
    HashMap { abi_name: Seq<char>, key: Box<PropV>, value: Box<PropV>, key_ty: Ty, value_ty: Ty },
}

pub open spec fn prop_of(p: StructProperty) -> PropV
    decreases p,
{
    match p {
        StructProperty::Simple { abi_name, rust_type_name, internal_type } => PropV::Simple {
            abi_name: abi_name@,
            rust_type: rust_type_name@,
            ty: (*internal_type)@,
        },
        StructProperty::Array { abi_name, internal_type, internal_struct_property } => PropV::Array {
            abi_name: abi_name@,
            ty: (*internal_type)@,
            inner: Box::new(prop_of(*internal_struct_property)),
        },
        StructProperty::Optional { abi_name, internal_type, internal_struct_property } =>
            PropV::Optional {
            abi_name: abi_name@,
            ty: (*internal_type)@,
            inner: Box::new(prop_of(*internal_struct_property)),
        },
        StructProperty::Tuple { abi_name, internal_types, params } => PropV::Tuple {
            abi_name: abi_name@,
            props: props_of(internal_types@),
            tys: params@.map_values(|t: ParamType| t@),
        },
        StructProperty::HashMap { abi_name, key, value, key_type, value_type } => PropV::HashMap {
            abi_name: abi_name@,
            key: Box::new(prop_of(*key)),
            value: Box::new(prop_of(*value)),
            key_ty: (*key_type)@,
            value_ty: (*value_type)@,
        },
    }
}

pub open spec fn props_of(ps: Seq<StructProperty>) -> Seq<PropV>
    decreases ps,
{
    if ps.len() == 0 {
        seq![]
    } else {
        seq![prop_of(ps[0])] + props_of(ps.subrange(1, ps.len() as int))
    }
}

pub proof fn lemma_props_of(ps: Seq<StructProperty>)
    ensures
        props_of(ps).len() == ps.len(),
        forall|i: int| 0 <= i < ps.len() ==> #[trigger] props_of(ps)[i] == prop_of(ps[i]),
    decreases ps.len(),
{
    if ps.len() > 0 {
        lemma_props_of(ps.subrange(1, ps.len() as int));
    }
}

impl View for StructProperty {
    type V = PropV;

    open spec fn view(&self) -> PropV {
        prop_of(*self)
    }
}

/// Field type of an unsigned integer of `n` bits.
pub open spec fn uint_rust(n: nat) -> Seq<char> {
    if n == 8 {
        "u8"@
    } else if n == 16 {
        "u16"@
    } else if n == 32 {
        "u32"@
    } else if n == 64 {
        "u64"@
    } else if n == 128 {
        "u128"@
    } else if n == 256 {
        "ton_types::UInt256"@
    } else {
        "num_bigint::BigUint"@
    }
}

/// Field type of a signed integer of `n` bits.
pub open spec fn int_rust(n: nat) -> Seq<char> {
    if n == 8 {
        "i8"@
    } else if n == 16 {
        "i16"@
    } else if n == 32 {
        "i32"@
    } else if n == 64 {
        "i64"@
    } else if n == 128 {
        "i128"@
    } else {
        "num_bigint::BigInt"@
    }
}

/// Field type of a type that maps to a plain field, if it does.
pub open spec fn scalar_rust(t: Ty) -> Option<Seq<char>> {
    match t {
        Ty::Uint(n) => Some(uint_rust(n)),
        Ty::Int(n) => Some(int_rust(n)),
        Ty::VarUint(_) => Some("num_bigint::BigUint"@),
        Ty::VarInt(_) => Some("num_bigint::BigUint"@),
        Ty::Bool => Some("bool"@),
        Ty::Cell => Some("ton_types::Cell"@),
        Ty::Address => Some("ton_block::MsgAddressInt"@),
        Ty::Bytes => Some("Vec<u8>"@),
        Ty::FixedBytes(_) => Some("Vec<u8>"@),
        Ty::Str => Some("String"@),
        Ty::Token => Some("ton_block::Grams"@),
        _ => None,
    }
}

pub open spec fn allowed_map_key(t: Ty) -> bool {
    t is Uint || t is Int || t is Address
}

/// The field description of a value named `name` of type `t`.
pub open spec fn property_of(name: Seq<char>, t: Ty) -> Result<PropV, GenErr>
    decreases t,
{
    match t {
        Ty::Tuple(fs) => match props_of_fields(fs) {
            Ok(props) => Ok(
                PropV::Tuple {
                    abi_name: name,
                    props,
                    tys: Seq::new(fs.len(), |i: int| fs[i].ty),
                },
            ),
            Err(e) => Err(e),
        },
        Ty::Array(a) => match property_of(seq![], *a) {
            Ok(inner) => Ok(PropV::Array { abi_name: name, ty: *a, inner: Box::new(inner) }),
            Err(e) => Err(e),
        },
        Ty::FixedArray(a, _) => match property_of(seq![], *a) {
            Ok(inner) => Ok(PropV::Array { abi_name: name, ty: *a, inner: Box::new(inner) }),
            Err(e) => Err(e),
        },
        Ty::Optional(a) => match property_of(seq![], *a) {
            Ok(inner) => Ok(PropV::Optional { abi_name: name, ty: *a, inner: Box::new(inner) }),
            Err(e) => Err(e),
        },
        Ty::Ref(a) => property_of(name, *a),
        Ty::Mapping(k, v) => if !allowed_map_key(*k) {
            Err(GenErr::UnsupportedMapKeyType(name))
        } else {
            match property_of(seq![], *k) {
                Err(e) => Err(e),
                Ok(key) => match property_of(seq![], *v) {
                    Err(e) => Err(e),
                    Ok(value) => Ok(
                        PropV::HashMap {
                            abi_name: name,
                            key: Box::new(key),
                            value: Box::new(value),
                            key_ty: *k,
                            value_ty: *v,
                        },
                    ),
                },
            }
        },
        _ => Ok(PropV::Simple { abi_name: name, rust_type: scalar_rust(t).unwrap(), ty: t }),
    }
}

/// The field descriptions of the fields of a tuple, in order.
pub open spec fn props_of_fields(fs: Seq<Field>) -> Result<Seq<PropV>, GenErr>
    decreases fs,
{
    if fs.len() == 0 {
        Ok(seq![])
    } else {
        match property_of(fs[0].name, fs[0].ty) {
            Err(e) => Err(e),
            Ok(p) => match props_of_fields(fs.subrange(1, fs.len() as int)) {
                Err(e) => Err(e),
                Ok(rest) => Ok(seq![p] + rest),
            },
        }
    }
}

pub open spec fn prop_res(r: Result<StructProperty, GenerationError>, v: Result<PropV, GenErr>) -> bool {
    match r {
        Ok(p) => v == Ok::<PropV, GenErr>(p@),
        Err(e) => v == Err::<PropV, GenErr>(e@),
    }
}

pub open spec fn prepend_ok(prefix: Seq<PropV>, r: Result<Seq<PropV>, GenErr>) -> Result<Seq<PropV>, GenErr> {
    match r {
        Ok(rest) => Ok(prefix + rest),
        Err(e) => Err(e),
    }
}

fn uint_rust_name(n: usize) -> (r: String)
    ensures
        r@ == uint_rust(n as nat),
{
    if n == 8 {
        "u8".to_owned()
    } else if n == 16 {
        "u16".to_owned()
    } else if n == 32 {
        "u32".to_owned()
    } else if n == 64 {
        "u64".to_owned()
    } else if n == 128 {
        "u128".to_owned()
    } else if n == 256 {
        "ton_types::UInt256".to_owned()
    } else {
        "num_bigint::BigUint".to_owned()
    }
}

fn int_rust_name(n: usize) -> (r: String)
    ensures
        r@ == int_rust(n as nat),
{
    if n == 8 {
        "i8".to_owned()
    } else if n == 16 {
        "i16".to_owned()
    } else if n == 32 {
        "i32".to_owned()
    } else if n == 64 {
        "i64".to_owned()
    } else if n == 128 {
        "i128".to_owned()
    } else {
        "num_bigint::BigInt".to_owned()
    }
}

/// The field description of a value named `abi_name` of type `param`.
pub fn generate_property(abi_name: String, param: &ParamType) -> (r: Result<
    StructProperty,
    GenerationError,
>)
    ensures
        prop_res(r, property_of(abi_name@, param@)),
    decreases param,
{
    let rust_type: String = match param {
        ParamType::Uint(n) => uint_rust_name(*n),
        ParamType::Int(n) => int_rust_name(*n),
        ParamType::VarUint(_) => "num_bigint::BigUint".to_owned(),
        ParamType::VarInt(_) => "num_bigint::BigUint".to_owned(),
        ParamType::Bool => "bool".to_owned(),
        ParamType::Cell => "ton_types::Cell".to_owned(),
        ParamType::Address => "ton_block::MsgAddressInt".to_owned(),
        ParamType::Bytes => "Vec<u8>".to_owned(),
        ParamType::FixedBytes(_) => "Vec<u8>".to_owned(),
        ParamType::String => "String".to_owned(),
        ParamType::Token => "ton_block::Grams".to_owned(),
        ParamType::Tuple(ps) => {
            let (props, params) = match generate_properties(ps) {
                Ok(x) => x,
                Err(e) => {
                    return Err(e);
                },
            };
            proof {
                lemma_fields_of(ps@);
                let fs = fields_of(ps@);
                assert(Seq::new(ps@.len(), |i: int| fs[i].ty) =~= Seq::new(
                    fs.len(),
                    |i: int| fs[i].ty,
                ));
            }
            return Ok(StructProperty::Tuple { abi_name, internal_types: props, params });
        },
        ParamType::Array(a) | ParamType::FixedArray(a, _) => {
            let inner = match generate_property(String::new(), a) {
                Ok(x) => x,
                Err(e) => {
                    return Err(e);
                },
            };
            return Ok(
                StructProperty::Array {
                    abi_name,
                    internal_type: Box::new(clone_type(a)),
                    internal_struct_property: Box::new(inner),
                },
            );
        },
        ParamType::Optional(a) => {
            let inner = match generate_property(String::new(), a) {
                Ok(x) => x,
                Err(e) => {
                    return Err(e);
                },
            };
            return Ok(
                StructProperty::Optional {
                    abi_name,
                    internal_type: Box::new(clone_type(a)),
                    internal_struct_property: Box::new(inner),
                },
            );
        },
        ParamType::Ref(a) => {
            return generate_property(abi_name, a);
        },
        ParamType::Mapping(k, v) => {
            if !is_map_key(k) {
                return Err(GenerationError::UnsupportedMapKeyType { param_name: abi_name });
            }
            let key = match generate_property(String::new(), k) {
                Ok(x) => x,
                Err(e) => {
                    return Err(e);
                },
            };
            let value = match generate_property(String::new(), v) {
                Ok(x) => x,
                Err(e) => {
                    return Err(e);
                },
            };
            return Ok(
                StructProperty::HashMap {
                    abi_name,
                    key: Box::new(key),
                    value: Box::new(value),
                    key_type: Box::new(clone_type(k)),
                    value_type: Box::new(clone_type(v)),
                },
            );
        },
    };
    Ok(
        StructProperty::Simple {
            abi_name,
            rust_type_name: rust_type,
            internal_type: Box::new(clone_type(param)),
        },
    )
}

fn is_map_key(t: &ParamType) -> (r: bool)
    ensures
        r == allowed_map_key(t@),
{
    match t {
        ParamType::Uint(_) | ParamType::Int(_) | ParamType::Address => true,
        _ => false,
    }
}

/// The field descriptions of a tuple's parameters, and copies of their types.
pub(crate) fn generate_properties(ps: &Vec<Param>) -> (r: Result<
    (Vec<StructProperty>, Vec<ParamType>),
    GenerationError,
>)
    ensures
        match r {
            Ok((props, params)) => props_of_fields(fields_of(ps@)) == Ok::<Seq<PropV>, GenErr>(
                props_of(props@),
            ) && params@.map_values(|t: ParamType| t@) == Seq::new(
                ps@.len(),
                |i: int| fields_of(ps@)[i].ty,
            ),
            Err(e) => props_of_fields(fields_of(ps@)) == Err::<Seq<PropV>, GenErr>(e@),
        },
    decreases ps,
{
    let ghost fs = fields_of(ps@);
    proof {
        lemma_fields_of(ps@);
        assert(fs.subrange(0, fs.len() as int) =~= fs);
        assert(props_of(Seq::<StructProperty>::empty()) =~= Seq::<PropV>::empty());
        match props_of_fields(fs) {
            Ok(x) => {
                assert(Seq::<PropV>::empty() + x =~= x);
            },
            Err(_) => {},
        }
    }
    let mut props: Vec<StructProperty> = Vec::new();
    let mut params: Vec<ParamType> = Vec::new();
    let mut k: usize = 0;
    while k < ps.len()
        invariant
            k <= ps@.len() == fs.len(),
            fs == fields_of(ps@),
            forall|j: int| 0 <= j < ps@.len() ==> #[trigger] fs[j] == ps@[j]@,
            props@.len() == k,
            params@.len() == k,
            forall|j: int| 0 <= j < k ==> (#[trigger] params@[j])@ == fs[j].ty,
            props_of_fields(fs) == prepend_ok(
                props_of(props@),
                props_of_fields(fs.subrange(k as int, fs.len() as int)),
            ),
        decreases ps@.len() - k,
    {
        let p = &ps[k];
        let ghost rest = fs.subrange(k as int, fs.len() as int);
        proof {
            assert(rest[0] == fs[k as int]);
            assert(rest.subrange(1, rest.len() as int) =~= fs.subrange(k + 1, fs.len() as int));
        }
        let prop = match generate_property(p.name.clone(), &p.kind) {
            Ok(x) => x,
            Err(e) => {
                return Err(e);
            },
        };
        let ghost old_props = props@;
        props.push(prop);
        params.push(clone_type(&p.kind));
        proof {
            lemma_props_of(old_props);
            lemma_props_of(props@);
            assert(props_of(props@) =~= props_of(old_props) + seq![prop@]);
            match props_of_fields(fs.subrange(k + 1, fs.len() as int)) {
                Ok(x) => {
                    assert(props_of(old_props) + (seq![prop@] + x) =~= props_of(props@) + x);
                },
                Err(_) => {},
            }
        }
        k = k + 1;
    }
    proof {
        assert(fs.subrange(k as int, fs.len() as int) =~= Seq::<Field>::empty());
        assert(props_of_fields(Seq::<Field>::empty()) == Ok::<Seq<PropV>, GenErr>(seq![]));
        assert(props_of(props@) + Seq::<PropV>::empty() =~= props_of(props@));
        assert(params@.map_values(|t: ParamType| t@) =~= Seq::new(
            fs.len(),
            |i: int| fs[i].ty,
        ));
    }
    Ok((props, params))
}

/// Canonical signatures of a list of types, separated by commas.
pub open spec fn sig_tys(tys: Seq<Ty>) -> Seq<char>
    decreases tys.len(),
{
    if tys.len() == 0 {
        seq![]
    } else if tys.len() == 1 {
        sig(tys[0])
    } else {
        sig_tys(tys.drop_last()) + ","@ + sig(tys.last())
    }
}

/// The type part of the structural key of a field.
pub open spec fn type_str_of(p: PropV) -> Seq<char> {
    match p {
        PropV::Simple { ty, .. } => sig(ty),
        PropV::Array { ty, .. } => sig(ty) + "[]"@,
        PropV::Optional { ty, .. } => "optional("@ + sig(ty) + ")"@,
        PropV::Tuple { tys, .. } => "("@ + sig_tys(tys) + ")"@,
        PropV::HashMap { key_ty, value_ty, .. } => "map("@ + sig(key_ty) + ","@ + sig(value_ty)
            + ")"@,
    }
}

pub open spec fn abi_name_of(p: PropV) -> Seq<char> {
    match p {
        PropV::Simple { abi_name, .. } => abi_name,
        PropV::Array { abi_name, .. } => abi_name,
        PropV::Optional { abi_name, .. } => abi_name,
        PropV::Tuple { abi_name, .. } => abi_name,
        PropV::HashMap { abi_name, .. } => abi_name,
    }
}

/// Relies on `case::CaseExt::to_snake`: before each ASCII capital other than
/// the first character it inserts `_`, and it makes ASCII capitals lower case.
#[verifier::external_body]
pub(crate) fn to_snake(s: &str) -> (r: String)
    ensures
        r@ == snake_of(s@),
{
    case::CaseExt::to_snake(s)
}

/// Characters that `char::is_whitespace` accepts (Unicode `White_Space`).
pub open spec fn unicode_space(c: char) -> bool {
    ('\u{9}' <= c && c <= '\u{d}') || c == ' ' || c == '\u{85}' || c == '\u{a0}' || c
        == '\u{1680}' || ('\u{2000}' <= c && c <= '\u{200a}') || c == '\u{2028}' || c
        == '\u{2029}' || c == '\u{202f}' || c == '\u{205f}' || c == '\u{3000}'
}

pub fn is_unicode_space(c: char) -> (r: bool)
    ensures
        r == unicode_space(c),
{
    ('\u{9}' <= c && c <= '\u{d}') || c == ' ' || c == '\u{85}' || c == '\u{a0}' || c
        == '\u{1680}' || ('\u{2000}' <= c && c <= '\u{200a}') || c == '\u{2028}' || c
        == '\u{2029}' || c == '\u{202f}' || c == '\u{205f}' || c == '\u{3000}'
}

/// `s` without leading whitespace.
pub open spec fn trim_start(s: Seq<char>) -> Seq<char>
    decreases s.len(),
{
    if s.len() > 0 && unicode_space(s[0]) {
        trim_start(s.drop_first())
    } else {
        s
    }
}

/// `s` without trailing whitespace.
pub open spec fn trim_end(s: Seq<char>) -> Seq<char>
    decreases s.len(),
{
    if s.len() > 0 && unicode_space(s.last()) {
        trim_end(s.drop_last())
    } else {
        s
    }
}

/// `s` without one leading and one trailing underscore, where present.
pub open spec fn strip_underscores(s: Seq<char>) -> Seq<char> {
    let a = if s.len() > 0 && s[0] == '_' {
        s.drop_first()
    } else {
        s
    };
    if a.len() > 0 && a.last() == '_' {
        a.drop_last()
    } else {
        a
    }
}

/// The field name for a value named `abi_name`.
pub open spec fn rust_name_of(abi_name: Seq<char>) -> Seq<char> {
    strip_underscores(trim_end(trim_start(snake_of(abi_name))))
}

/// Types that name their own field annotation.
pub open spec fn ever_type_name(s: Seq<char>) -> bool {
    s == "array"@ || s == "int8"@ || s == "uint8"@ || s == "uint16"@ || s == "uint32"@ || s
        == "uint64"@ || s == "uint128"@ || s == "uint256"@ || s == "gram"@ || s == "grams"@ || s
        == "token"@ || s == "tokens"@ || s == "bool"@ || s == "cell"@ || s == "address"@ || s
        == "string"@ || s == "bytes"@
}

pub fn is_ever_type_name(v: &[char]) -> (r: bool)
    ensures
        r == ever_type_name(v@),
{
    chars_are(v, "array") || chars_are(v, "int8") || chars_are(v, "uint8") || chars_are(
        v,
        "uint16",
    ) || chars_are(v, "uint32") || chars_are(v, "uint64") || chars_are(v, "uint128")
        || chars_are(v, "uint256") || chars_are(v, "gram") || chars_are(v, "grams") || chars_are(
        v,
        "token",
    ) || chars_are(v, "tokens") || chars_are(v, "bool") || chars_are(v, "cell") || chars_are(
        v,
        "address",
    ) || chars_are(v, "string") || chars_are(v, "bytes")
}

/// Field annotations that replace the default for given type signatures.
pub struct HelperMapping {
    pub entries: Vec<(String, String)>,
}

pub open spec fn entries_view(e: Seq<(String, String)>) -> Seq<(Seq<char>, Seq<char>)> {
    e.map_values(|p: (String, String)| (p.0@, p.1@))
}

impl View for HelperMapping {
    type V = Seq<(Seq<char>, Seq<char>)>;

    open spec fn view(&self) -> Seq<(Seq<char>, Seq<char>)> {
        entries_view(self.entries@)
    }
}

/// The annotation of the first entry for `key`, if any.
pub open spec fn lookup(entries: Seq<(Seq<char>, Seq<char>)>, key: Seq<char>) -> Option<Seq<char>>
    decreases entries.len(),
{
    if entries.len() == 0 {
        None
    } else if entries[0].0 == key {
        Some(entries[0].1)
    } else {
        lookup(entries.drop_first(), key)
    }
}

impl HelperMapping {
    pub open spec fn standard_view() -> Seq<(Seq<char>, Seq<char>)> {
        seq![
            ("uint160"@, "unpack_with=\"uint160_bytes\""@),
            ("uint160[]"@, "unpack_with=\"array_uint160_bytes\""@),
        ]
    }

    /// The standard overrides: 160-bit integers are read as raw bytes.
    pub fn standard() -> (r: HelperMapping)
        ensures
            r@ == Self::standard_view(),
    {
        let mut entries: Vec<(String, String)> = Vec::new();
        entries.push(("uint160".to_owned(), "unpack_with=\"uint160_bytes\"".to_owned()));
        entries.push(("uint160[]".to_owned(), "unpack_with=\"array_uint160_bytes\"".to_owned()));
        let r = HelperMapping { entries };
        proof {
            assert(r@ =~= seq![
                ("uint160"@, "unpack_with=\"uint160_bytes\""@),
                ("uint160[]"@, "unpack_with=\"array_uint160_bytes\""@),
            ]);
        }
        r
    }

    /// The override for the type signature `key`, if any.
    pub fn get(&self, key: &[char]) -> (r: Option<String>)
        ensures
            match r {
                Some(v) => lookup(self@, key@) == Some(v@),
                None => lookup(self@, key@) is None,
            },
    {
        let mut k: usize = 0;
        proof {
            assert(self@.skip(0) =~= self@);
        }
        while k < self.entries.len()
            invariant
                k <= self.entries@.len(),
                lookup(self@, key@) == lookup(self@.skip(k as int), key@),
            decreases self.entries@.len() - k,
        {
            let ghost rest = self@.skip(k as int);
            proof {
                assert(rest.drop_first() =~= self@.skip(k + 1));
                assert(rest[0] == (self.entries@[k as int].0@, self.entries@[k as int].1@));
            }
            let key_chars = chars_of(self.entries[k].0.as_str());
            if chars_eq(key_chars.as_slice(), key) {
                return Some(self.entries[k].1.clone());
            }
            k = k + 1;
        }
        proof {
            assert(self@.skip(k as int).len() == 0);
        }
        None
    }
}

/// Whether two character slices are equal.
pub fn chars_eq(a: &[char], b: &[char]) -> (r: bool)
    ensures
        r == (a@ == b@),
{
    if a.len() != b.len() {
        return false;
    }
    let mut k: usize = 0;
    while k < a.len()
        invariant
            k <= a@.len() == b@.len(),
            forall|j: int| 0 <= j < k ==> a@[j] == b@[j],
        decreases a@.len() - k,
    {
        if a[k] != b[k] {
            return false;
        }
        k = k + 1;
    }
    proof {
        assert(a@ =~= b@);
    }
    true
}

/// The annotation argument that names how a field is packed, if any.
pub open spec fn derive_name_of(p: PropV, mapping: Seq<(Seq<char>, Seq<char>)>) -> Option<Seq<char>> {
    match p {
        PropV::Simple { ty, .. } => match lookup(mapping, sig(ty)) {
            Some(v) => Some(v),
            None => if ever_type_name(sig(ty)) {
                Some(sig(ty))
            } else {
                None
            },
        },
        PropV::Array { .. } => Some("array"@),
        PropV::Optional { .. } => Some("optional"@),
        _ => None,
    }
}

/// Appends the canonical signatures of `tys`, separated by commas.
fn write_type_list(tys: &Vec<ParamType>, out: &mut Vec<char>)
    ensures
        final(out)@ == old(out)@ + sig_tys(tys@.map_values(|t: ParamType| t@)),
{
    let ghost all = tys@.map_values(|t: ParamType| t@);
    let mut i: usize = 0;
    while i < tys.len()
        invariant
            i <= tys@.len(),
            all == tys@.map_values(|t: ParamType| t@),
            out@ == old(out)@ + sig_tys(all.subrange(0, i as int)),
        decreases tys@.len() - i,
    {
        if i > 0 {
            push_str(out, ",");
        }
        write_signature(&tys[i], out);
        proof {
            let next = all.subrange(0, i + 1);
            assert(next.drop_last() =~= all.subrange(0, i as int));
            assert(next.last() == tys@[i as int]@);
            if i == 0 {
                assert(out@ =~= old(out)@ + sig_tys(next));
            } else {
                assert(out@ =~= old(out)@ + sig_tys(next));
            }
        }
        i = i + 1;
    }
    proof {
        assert(all.subrange(0, i as int) =~= all);
    }
}

impl StructProperty {
    /// The name of the value this field holds.
    pub fn abi_name(&self) -> (r: &str)
        ensures
            r@ == abi_name_of(self@),
    {
        match self {
            StructProperty::Simple { abi_name, .. } => abi_name.as_str(),
            StructProperty::Array { abi_name, .. } => abi_name.as_str(),
            StructProperty::Optional { abi_name, .. } => abi_name.as_str(),
            StructProperty::Tuple { abi_name, .. } => abi_name.as_str(),
            StructProperty::HashMap { abi_name, .. } => abi_name.as_str(),
        }
    }

    /// The type part of this field's structural key.
    pub fn type_str(&self) -> (r: String)
        ensures
            r@ == type_str_of(self@),
    {
        let mut out: Vec<char> = Vec::new();
        match self {
            StructProperty::Simple { internal_type, .. } => {
                write_signature(internal_type, &mut out);
            },
            StructProperty::Array { internal_type, .. } => {
                write_signature(internal_type, &mut out);
                push_str(&mut out, "[]");
            },
            StructProperty::Optional { internal_type, .. } => {
                push_str(&mut out, "optional(");
                write_signature(internal_type, &mut out);
                push_str(&mut out, ")");
            },
            StructProperty::Tuple { params, .. } => {
                push_str(&mut out, "(");
                write_type_list(params, &mut out);
                push_str(&mut out, ")");
            },
            StructProperty::HashMap { key_type, value_type, .. } => {
                push_str(&mut out, "map(");
                write_signature(key_type, &mut out);
                push_str(&mut out, ",");
                write_signature(value_type, &mut out);
                push_str(&mut out, ")");
            },
        }
        proof {
            assert(out@ =~= type_str_of(self@));
        }
        string_from_chars(out.as_slice())
    }

    /// The annotation argument that names how this field is packed, if any.
    pub fn abi_derive_type_name(&self, mapping: &HelperMapping) -> (r: Option<String>)
        ensures
            match r {
                Some(v) => derive_name_of(self@, mapping@) == Some(v@),
                None => derive_name_of(self@, mapping@) is None,
            },
    {
        match self {
            StructProperty::Simple { internal_type, .. } => {
                let mut out: Vec<char> = Vec::new();
                write_signature(internal_type, &mut out);
                proof {
                    assert(out@ =~= sig((**internal_type)@));
                }
                match mapping.get(out.as_slice()) {
                    Some(v) => Some(v),
                    None => if is_ever_type_name(out.as_slice()) {
                        Some(string_from_chars(out.as_slice()))
                    } else {
                        None
                    },
                }
            },
            StructProperty::Array { .. } => Some("array".to_owned()),
            StructProperty::Optional { .. } => Some("optional".to_owned()),
            _ => None,
        }
    }

    /// The field name: the value's name in snake case, trimmed, without one
    /// leading and one trailing underscore.
    pub fn rust_name(&self) -> (r: String)
        ensures
            r@ == rust_name_of(abi_name_of(self@)),
    {
        let snaked = to_snake(self.abi_name());
        let v = chars_of(snaked.as_str());
        let n = v.len();
        let mut a: usize = 0;
        proof {
            assert(v@.skip(0) =~= v@);
        }
        while a < n && is_unicode_space(v[a])
            invariant
                a <= n == v@.len(),
                trim_start(v@) == trim_start(v@.skip(a as int)),
            decreases n - a,
        {
            proof {
                assert(v@.skip(a as int).drop_first() =~= v@.skip(a + 1));
            }
            a = a + 1;
        }
        proof {
            assert(trim_start(v@.skip(a as int)) == v@.skip(a as int));
        }
        let mut b: usize = n;
        while b > a && is_unicode_space(v[b - 1])
            invariant
                a <= b <= n == v@.len(),
                trim_end(trim_start(v@)) == trim_end(v@.subrange(a as int, b as int)),
            decreases b,
        {
            proof {
                assert(v@.subrange(a as int, b as int).drop_last() =~= v@.subrange(
                    a as int,
                    b - 1,
                ));
            }
            b = b - 1;
        }
        proof {
            assert(trim_end(v@.subrange(a as int, b as int)) == v@.subrange(a as int, b as int));
        }
        if a < b && v[a] == '_' {
            a = a + 1;
        }
        if a < b && v[b - 1] == '_' {
            b = b - 1;
        }
        let mut out: Vec<char> = Vec::new();
        let mut k = a;
        while k < b
            invariant
                a <= k <= b <= n == v@.len(),
                out@ == v@.subrange(a as int, k as int),
            decreases b - k,
        {
            out.push(v[k]);
            k = k + 1;
            proof {
                assert(out@ =~= v@.subrange(a as int, k as int));
            }
        }
        proof {
            let t = trim_end(trim_start(v@));
            assert(strip_underscores(t) =~= out@);
        }
        string_from_chars(out.as_slice())
    }
}

} // verus!
