//! Generates struct definitions from type trees. Tuples become auxiliary
//! structs, registered by their structural key so that two tuples with the
//! same field names and types share one struct.
use vstd::prelude::*;

use crate::parser::{value_name_of, Function};
use crate::grammar::name_fields;
use crate::parser::{parse, Entity, ParserError};
use crate::properties::{generate_properties, props_of_fields, abi_name_of, derive_name_of, lemma_props_of, props_of, rust_name_of, type_str_of, GenErr, GenerationError, HelperMapping, PropV, StructProperty};
use crate::properties::chars_eq;
use crate::text::{camel_of, chars_of, push_chars, string_from_chars};
use crate::types::{dec, fields_of, lemma_fields_of, push_decimal, push_str, Field, Param};

verus! {

broadcast use {
    vstd::std_specs::vec::axiom_vec_index_decreases,
    vstd::seq::axiom_seq_index_decreases,
    vstd::seq::axiom_seq_subrange_decreases,
    vstd::std_specs::vec::axiom_vec_decreases_to_view,
};

/// One field of a generated struct.
#[derive(Debug)]
pub struct GeneratedField {
    pub annotation: String,
    pub name: String,
    pub ty: String,
}

/// A generated struct definition.
#[derive(Debug)]
pub struct GeneratedStruct {
    pub name: String,
    pub derives: String,
    pub fields: Vec<GeneratedField>,
}

pub struct FieldV {
    pub annotation: Seq<char>,
    pub name: Seq<char>,
    pub ty: Seq<char>,
}

pub struct StructV {
    pub name: Seq<char>,
    pub derives: Seq<char>,
    pub fields: Seq<FieldV>,
}

impl View for GeneratedField {
    type V = FieldV;

    open spec fn view(&self) -> FieldV {
        FieldV { annotation: self.annotation@, name: self.name@, ty: self.ty@ }
    }
}

pub open spec fn gen_fields_view(fs: Seq<GeneratedField>) -> Seq<FieldV> {
    fs.map_values(|f: GeneratedField| f@)
}

impl View for GeneratedStruct {
    type V = StructV;

    open spec fn view(&self) -> StructV {
        StructV { name: self.name@, derives: self.derives@, fields: gen_fields_view(self.fields@) }
    }
}

/// The state of a generation run that auxiliary structs depend on: the
/// registry of structural keys and their structs, and how many were made.
pub struct GenState {
    pub inner: Seq<(Seq<char>, StructV)>,
    pub count: nat,
}

pub open spec fn registry_view(r: Seq<(String, GeneratedStruct)>) -> Seq<(Seq<char>, StructV)> {
    r.map_values(|e: (String, GeneratedStruct)| (e.0@, e.1@))
}

/// Derives of an auxiliary struct.
pub open spec fn inner_derives() -> Seq<char> {
    "Serialize, Deserialize, Debug, Clone, UnpackAbi"@
}

/// Derives of a top-level struct.
pub open spec fn outer_derives() -> Seq<char> {
    "Serialize, Deserialize, Debug, Clone, PackAbi, UnpackAbiPlain"@
}

/// Name of the `n`-th auxiliary struct.
pub open spec fn inner_name(n: nat) -> Seq<char> {
    "InternalStruct"@ + dec(n)
}

/// The annotation of a field.
pub open spec fn field_annotation(p: PropV, m: Seq<(Seq<char>, Seq<char>)>) -> Seq<char> {
    let name = abi_name_of(p);
    let rust = rust_name_of(name);
    match derive_name_of(p, m) {
        Some(d) => if name != rust {
            "#[abi(name = \""@ + name + "\", "@ + d + ")]"@
        } else {
            "#[abi("@ + d + ")]"@
        },
        None => if name != rust {
            "#[abi(name = \""@ + name + "\")]"@
        } else {
            "#[abi]"@
        },
    }
}

/// The part of a structural key that one field contributes: the length of
/// its name, the name, its type signature, and a closing `;`. Signatures
/// hold no `;`, so the key determines the names and types.
pub open spec fn field_key(p: PropV) -> Seq<char> {
    dec(abi_name_of(p).len()) + ":"@ + abi_name_of(p) + type_str_of(p) + ";"@
}

/// The structural key of a list of fields: their names and type signatures,
/// in order.
pub open spec fn struct_key(props: Seq<PropV>) -> Seq<char>
    decreases props.len(),
{
    if props.len() == 0 {
        seq![]
    } else {
        struct_key(props.drop_last()) + field_key(props.last())
    }
}

/// The struct registered first under `key`, if any.
pub open spec fn find_key(inner: Seq<(Seq<char>, StructV)>, key: Seq<char>) -> Option<Seq<char>>
    decreases inner.len(),
{
    if inner.len() == 0 {
        None
    } else if inner[0].0 == key {
        Some(inner[0].1.name)
    } else {
        find_key(inner.drop_first(), key)
    }
}

/// The field type of a property, registering the auxiliary structs it needs.
pub open spec fn g_type(st: GenState, p: PropV, m: Seq<(Seq<char>, Seq<char>)>) -> Result<
    (GenState, Seq<char>),
    GenErr,
>
    decreases p, 2nat,
{
    match p {
        PropV::Simple { rust_type, .. } => Ok((st, rust_type)),
        PropV::Array { inner, .. } => match g_type(st, *inner, m) {
            Ok((st1, t)) => Ok((st1, "Vec<"@ + t + ">"@)),
            Err(e) => Err(e),
        },
        PropV::Optional { inner, .. } => match g_type(st, *inner, m) {
            Ok((st1, t)) => Ok((st1, "Option<"@ + t + ">"@)),
            Err(e) => Err(e),
        },
        PropV::Tuple { props, .. } => g_inner(st, props, m),
        PropV::HashMap { key, value, .. } => match *key {
            PropV::Simple { rust_type, .. } => match g_type(st, *value, m) {
                Ok((st1, t)) => Ok((st1, "HashMap<"@ + rust_type + ", "@ + t + ">"@)),
                Err(e) => Err(e),
            },
            _ => Err(GenErr::InternalInconsistency),
        },
    }
}

/// The name of the auxiliary struct for a tuple's fields: the registered one
/// with the same structural key, or a new one.
pub open spec fn g_inner(st: GenState, props: Seq<PropV>, m: Seq<(Seq<char>, Seq<char>)>) -> Result<
    (GenState, Seq<char>),
    GenErr,
>
    decreases props, 1nat,
{
    let key = struct_key(props);
    match find_key(st.inner, key) {
        Some(name) => Ok((st, name)),
        None => if st.count >= usize::MAX {
            Err(GenErr::InternalInconsistency)
        } else {
            let count = st.count + 1;
            let name = inner_name(count);
            match g_fields(GenState { inner: st.inner, count }, props, m) {
                Err(e) => Err(e),
                Ok((st2, fields)) => Ok(
                    (
                        GenState {
                            inner: st2.inner.push(
                                (key, StructV { name, derives: inner_derives(), fields }),
                            ),
                            count: st2.count,
                        },
                        name,
                    ),
                ),
            }
        },
    }
}

/// The fields of a struct, in order.
pub open spec fn g_fields(st: GenState, props: Seq<PropV>, m: Seq<(Seq<char>, Seq<char>)>) -> Result<
    (GenState, Seq<FieldV>),
    GenErr,
>
    decreases props, 0nat,
{
    if props.len() == 0 {
        Ok((st, seq![]))
    } else {
        match g_type(st, props[0], m) {
            Err(e) => Err(e),
            Ok((st1, ty)) => {
                let f = FieldV {
                    annotation: field_annotation(props[0], m),
                    name: rust_name_of(abi_name_of(props[0])),
                    ty,
                };
                match g_fields(st1, props.subrange(1, props.len() as int), m) {
                    Err(e) => Err(e),
                    Ok((st2, rest)) => Ok((st2, seq![f] + rest)),
                }
            },
        }
    }
}

pub open spec fn prepend_fields(prefix: Seq<FieldV>, r: Result<(GenState, Seq<FieldV>), GenErr>) -> Result<
    (GenState, Seq<FieldV>),
    GenErr,
> {
    match r {
        Ok((st, rest)) => Ok((st, prefix + rest)),
        Err(e) => Err(e),
    }
}

/// The field type of a plain property.
fn simple_type(p: &StructProperty) -> (r: Option<String>)
    ensures
        r is Some <==> p@ is Simple,
        r is Some ==> r->0@ == p@->Simple_rust_type,
{
    match p {
        StructProperty::Simple { rust_type_name, .. } => Some(rust_type_name.clone()),
        _ => None,
    }
}

/// A contract event: its name and the values it carries.
#[derive(Debug)]
pub struct Event {
    pub name: String,
    pub inputs: Vec<Param>,
}

/// Generates struct definitions for a contract's functions and events, or for
/// a bare list of types.
pub struct Generator {
    pub contract_functions: Vec<Function>,
    pub contract_events: Vec<Event>,
    pub output_structs: Vec<GeneratedStruct>,
    pub output_function_inner_structs: Vec<(String, GeneratedStruct)>,
    pub output_inner_struct_count: usize,
    pub mapping: HelperMapping,
}

impl Generator {
    /// The registry and the number of auxiliary structs made so far.
    pub open spec fn state(&self) -> GenState {
        GenState {
            inner: registry_view(self.output_function_inner_structs@),
            count: self.output_inner_struct_count as nat,
        }
    }

    /// What generation leaves unchanged besides the registry.
    pub open spec fn same_inputs(&self, other: &Generator) -> bool {
        &&& self.contract_functions == other.contract_functions
        &&& self.contract_events == other.contract_events
        &&& self.output_structs == other.output_structs
        &&& self.mapping == other.mapping
    }

    /// A generator for the given functions and events, with the standard
    /// overrides and an empty registry.
    pub fn load_raw(functions: Vec<Function>, events: Vec<Event>) -> (r: Generator)
        ensures
            r.contract_functions == functions,
            r.contract_events == events,
            r.output_structs@.len() == 0,
            r.state() == (GenState { inner: seq![], count: 0 }),
            r.mapping@ == HelperMapping::standard_view(),
    {
        let r = Generator {
            contract_functions: functions,
            contract_events: events,
            output_structs: Vec::new(),
            output_function_inner_structs: Vec::new(),
            output_inner_struct_count: 0,
            mapping: HelperMapping::standard(),
        };
        proof {
            assert(r.state().inner =~= seq![]);
        }
        r
    }

    /// The annotation of a field.
    fn annotation(&self, p: &StructProperty) -> (r: String)
        ensures
            r@ == field_annotation(p@, self.mapping@),
    {
        let name = chars_of(p.abi_name());
        let rust = chars_of(p.rust_name().as_str());
        let same = chars_eq(name.as_slice(), rust.as_slice());
        let mut out: Vec<char> = Vec::new();
        match p.abi_derive_type_name(&self.mapping) {
            Some(d) => {
                let dc = chars_of(d.as_str());
                if !same {
                    push_str(&mut out, "#[abi(name = \"");
                    push_chars(&mut out, name.as_slice());
                    push_str(&mut out, "\", ");
                    push_chars(&mut out, dc.as_slice());
                    push_str(&mut out, ")]");
                } else {
                    push_str(&mut out, "#[abi(");
                    push_chars(&mut out, dc.as_slice());
                    push_str(&mut out, ")]");
                }
            },
            None => {
                if !same {
                    push_str(&mut out, "#[abi(name = \"");
                    push_chars(&mut out, name.as_slice());
                    push_str(&mut out, "\")]");
                } else {
                    push_str(&mut out, "#[abi]");
                }
            },
        }
        proof {
            assert(out@ =~= field_annotation(p@, self.mapping@));
        }
        string_from_chars(out.as_slice())
    }

    /// The field type of a property, registering the auxiliary structs it needs.
    pub fn get_type(&mut self, p: &StructProperty) -> (r: Result<String, GenerationError>)
        ensures
            final(self).same_inputs(old(self)),
            match r {
                Ok(t) => g_type(old(self).state(), p@, old(self).mapping@) == Ok::<
                    (GenState, Seq<char>),
                    GenErr,
                >((final(self).state(), t@)),
                Err(e) => g_type(old(self).state(), p@, old(self).mapping@) == Err::<
                    (GenState, Seq<char>),
                    GenErr,
                >(e@),
            },
        decreases p, 2nat,
    {
        match p {
            StructProperty::Simple { rust_type_name, .. } => Ok(rust_type_name.clone()),
            StructProperty::Array { internal_struct_property, .. } => {
                let t = match self.get_type(internal_struct_property) {
                    Ok(t) => t,
                    Err(e) => {
                        return Err(e);
                    },
                };
                let mut out: Vec<char> = Vec::new();
                push_str(&mut out, "Vec<");
                push_chars(&mut out, chars_of(t.as_str()).as_slice());
                push_str(&mut out, ">");
                proof {
                    assert(out@ =~= "Vec<"@ + t@ + ">"@);
                }
                Ok(string_from_chars(out.as_slice()))
            },
            StructProperty::Optional { internal_struct_property, .. } => {
                let t = match self.get_type(internal_struct_property) {
                    Ok(t) => t,
                    Err(e) => {
                        return Err(e);
                    },
                };
                let mut out: Vec<char> = Vec::new();
                push_str(&mut out, "Option<");
                push_chars(&mut out, chars_of(t.as_str()).as_slice());
                push_str(&mut out, ">");
                proof {
                    assert(out@ =~= "Option<"@ + t@ + ">"@);
                }
                Ok(string_from_chars(out.as_slice()))
            },
            StructProperty::Tuple { internal_types, .. } => self.generate_inner_struct(
                internal_types,
            ),
            StructProperty::HashMap { key, value, .. } => {
                let k = match simple_type(key) {
                    Some(k) => k,
                    None => {
                        return Err(GenerationError::InternalInconsistency);
                    },
                };
                let t = match self.get_type(value) {
                    Ok(t) => t,
                    Err(e) => {
                        return Err(e);
                    },
                };
                let mut out: Vec<char> = Vec::new();
                push_str(&mut out, "HashMap<");
                push_chars(&mut out, chars_of(k.as_str()).as_slice());
                push_str(&mut out, ", ");
                push_chars(&mut out, chars_of(t.as_str()).as_slice());
                push_str(&mut out, ">");
                proof {
                    assert(out@ =~= "HashMap<"@ + k@ + ", "@ + t@ + ">"@);
                }
                Ok(string_from_chars(out.as_slice()))
            },
        }
    }

    /// The name of the auxiliary struct for a tuple's fields: the registered
    /// one with the same structural key, or a new one.
    pub fn generate_inner_struct(&mut self, props: &Vec<StructProperty>) -> (r: Result<
        String,
        GenerationError,
    >)
        ensures
            final(self).same_inputs(old(self)),
            match r {
                Ok(t) => g_inner(old(self).state(), props_of(props@), old(self).mapping@) == Ok::<
                    (GenState, Seq<char>),
                    GenErr,
                >((final(self).state(), t@)),
                Err(e) => g_inner(old(self).state(), props_of(props@), old(self).mapping@)
                    == Err::<(GenState, Seq<char>), GenErr>(e@),
            },
        decreases props, 1nat,
    {
        let ghost pv = props_of(props@);
        proof {
            lemma_props_of(props@);
        }
        let mut key: Vec<char> = Vec::new();
        let mut k: usize = 0;
        while k < props.len()
            invariant
                k <= props@.len(),
                pv == props_of(props@),
                pv.len() == props@.len(),
                forall|j: int| 0 <= j < props@.len() ==> #[trigger] pv[j] == props@[j]@,
                key@ == struct_key(pv.subrange(0, k as int)),
                self == old(self),
            decreases props@.len() - k,
        {
            let name = chars_of(props[k].abi_name());
            push_decimal(&mut key, name.len());
            push_str(&mut key, ":");
            push_chars(&mut key, name.as_slice());
            push_chars(&mut key, chars_of(props[k].type_str().as_str()).as_slice());
            push_str(&mut key, ";");
            proof {
                let next = pv.subrange(0, k + 1);
                assert(next.drop_last() =~= pv.subrange(0, k as int));
                assert(key@ =~= struct_key(next));
            }
            k = k + 1;
        }
        proof {
            assert(pv.subrange(0, k as int) =~= pv);
        }
        let ghost reg = self.state().inner;
        let mut i: usize = 0;
        proof {
            assert(reg.skip(0) =~= reg);
        }
        while i < self.output_function_inner_structs.len()
            invariant
                i <= self.output_function_inner_structs@.len(),
                reg == self.state().inner,
                self == old(self),
                pv == props_of(props@),
                key@ == struct_key(pv),
                find_key(reg, key@) == find_key(reg.skip(i as int), key@),
            decreases self.output_function_inner_structs@.len() - i,
        {
            proof {
                assert(reg.skip(i as int).drop_first() =~= reg.skip(i + 1));
            }
            let entry_key = chars_of(self.output_function_inner_structs[i].0.as_str());
            proof {
                assert(reg.skip(i as int)[0] == (
                    self.output_function_inner_structs@[i as int].0@,
                    self.output_function_inner_structs@[i as int].1@,
                ));
            }
            if chars_eq(entry_key.as_slice(), key.as_slice()) {
                let found = self.output_function_inner_structs[i].1.name.clone();
                proof {
                    assert(find_key(reg.skip(i as int), key@) == Some(found@));
                }
                return Ok(found);
            }
            i = i + 1;
        }
        proof {
            assert(reg.skip(i as int).len() == 0);
        }
        if self.output_inner_struct_count == usize::MAX {
            return Err(GenerationError::InternalInconsistency);
        }
        self.output_inner_struct_count = self.output_inner_struct_count + 1;
        let mut name_chars: Vec<char> = Vec::new();
        push_str(&mut name_chars, "InternalStruct");
        push_decimal(&mut name_chars, self.output_inner_struct_count);
        let name = string_from_chars(name_chars.as_slice());
        let fields = match self.generate_struct(props) {
            Ok(f) => f,
            Err(e) => {
                return Err(e);
            },
        };
        let st = GeneratedStruct {
            name: name.clone(),
            derives: "Serialize, Deserialize, Debug, Clone, UnpackAbi".to_owned(),
            fields,
        };
        let ghost before = self.output_function_inner_structs@;
        self.output_function_inner_structs.push((string_from_chars(key.as_slice()), st));
        proof {
            assert(registry_view(self.output_function_inner_structs@) =~= registry_view(before).push(
                (key@, st@),
            ));
        }
        Ok(name)
    }

    /// The fields of a struct made of the given properties, in order.
    pub fn generate_struct(&mut self, props: &Vec<StructProperty>) -> (r: Result<
        Vec<GeneratedField>,
        GenerationError,
    >)
        ensures
            final(self).same_inputs(old(self)),
            match r {
                Ok(fs) => g_fields(old(self).state(), props_of(props@), old(self).mapping@) == Ok::<
                    (GenState, Seq<FieldV>),
                    GenErr,
                >((final(self).state(), gen_fields_view(fs@))),
                Err(e) => g_fields(old(self).state(), props_of(props@), old(self).mapping@)
                    == Err::<(GenState, Seq<FieldV>), GenErr>(e@),
            },
        decreases props, 0nat,
    {
        let ghost pv = props_of(props@);
        let ghost st0 = old(self).state();
        proof {
            lemma_props_of(props@);
            assert(pv.subrange(0, pv.len() as int) =~= pv);
            match g_fields(st0, pv, self.mapping@) {
                Ok((st, x)) => {
                    assert(Seq::<FieldV>::empty() + x =~= x);
                },
                Err(_) => {},
            }
        }
        let mut out: Vec<GeneratedField> = Vec::new();
        let mut k: usize = 0;
        while k < props.len()
            invariant
                k <= props@.len(),
                pv == props_of(props@),
                pv.len() == props@.len(),
                forall|j: int| 0 <= j < props@.len() ==> #[trigger] pv[j] == props@[j]@,
                self.same_inputs(old(self)),
                st0 == old(self).state(),
                g_fields(st0, pv, old(self).mapping@) == prepend_fields(
                    gen_fields_view(out@),
                    g_fields(self.state(), pv.subrange(k as int, pv.len() as int), old(self).mapping@),
                ),
            decreases props@.len() - k,
        {
            let p = &props[k];
            let ghost rest = pv.subrange(k as int, pv.len() as int);
            let ghost st_k = self.state();
            proof {
                assert(g_fields(st0, pv, old(self).mapping@) == prepend_fields(
                    gen_fields_view(out@),
                    g_fields(st_k, rest, old(self).mapping@),
                ));
                assert(rest[0] == p@);
                assert(rest.subrange(1, rest.len() as int) =~= pv.subrange(k + 1, pv.len() as int));
            }
            let ty = match self.get_type(p) {
                Ok(t) => t,
                Err(e) => {
                    proof {
                        assert(g_fields(st_k, rest, old(self).mapping@) == Err::<
                            (GenState, Seq<FieldV>),
                            GenErr,
                        >(e@));
                    }
                    return Err(e);
                },
            };
            let annotation = self.annotation(p);
            let name = p.rust_name();
            let f = GeneratedField { annotation, name, ty };
            let ghost old_out = out@;
            out.push(f);
            proof {
                assert(gen_fields_view(out@) =~= gen_fields_view(old_out).push(f@));
                match g_fields(self.state(), pv.subrange(k + 1, pv.len() as int), old(self).mapping@) {
                    Ok((st, x)) => {
                        assert(gen_fields_view(old_out) + (seq![f@] + x) =~= gen_fields_view(out@) + x);
                    },
                    Err(_) => {},
                }
            }
            k = k + 1;
        }
        proof {
            assert(pv.subrange(k as int, pv.len() as int) =~= Seq::<PropV>::empty());
            assert(gen_fields_view(out@) + Seq::<FieldV>::empty() =~= gen_fields_view(out@));
        }
        Ok(out)
    }
}

/// Relies on `case::CaseExt::to_camel`: it drops underscores and makes the
/// first letter and each letter after an underscore upper case (ASCII only).
#[verifier::external_body]
fn to_camel(s: &str) -> (r: String)
    ensures
        r@ == camel_of(s@),
{
    case::CaseExt::to_camel(s)
}

/// A top-level struct to generate: its name and its fields.
#[derive(Debug)]
pub struct GenericStruct {
    pub name: String,
    pub properties: Vec<StructProperty>,
}

pub struct MetaV {
    pub name: Seq<char>,
    pub props: Seq<PropV>,
}

impl View for GenericStruct {
    type V = MetaV;

    open spec fn view(&self) -> MetaV {
        MetaV { name: self.name@, props: props_of(self.properties@) }
    }
}

pub open spec fn metas_view(ms: Seq<GenericStruct>) -> Seq<MetaV> {
    ms.map_values(|m: GenericStruct| m@)
}

/// Top-level structs for named parameter lists: the name followed by
/// `suffix`, in camel case; empty lists are skipped unless `keep_empty`.
pub open spec fn metas_of(
    entries: Seq<(Seq<char>, Seq<Field>)>,
    suffix: Seq<char>,
    keep_empty: bool,
) -> Result<Seq<MetaV>, GenErr>
    decreases entries.len(),
{
    if entries.len() == 0 {
        Ok(seq![])
    } else {
        match props_of_fields(entries[0].1) {
            Err(e) => Err(e),
            Ok(props) => match metas_of(entries.drop_first(), suffix, keep_empty) {
                Err(e) => Err(e),
                Ok(rest) => Ok(
                    if props.len() > 0 || keep_empty {
                        seq![MetaV { name: camel_of(entries[0].0 + suffix), props }] + rest
                    } else {
                        rest
                    },
                ),
            },
        }
    }
}

pub open spec fn prepend_metas(prefix: Seq<MetaV>, r: Result<Seq<MetaV>, GenErr>) -> Result<
    Seq<MetaV>,
    GenErr,
> {
    match r {
        Ok(rest) => Ok(prefix + rest),
        Err(e) => Err(e),
    }
}

pub open spec fn function_entries(fs: Seq<Function>, outputs: bool) -> Seq<(Seq<char>, Seq<Field>)> {
    Seq::new(
        fs.len(),
        |i: int|
            (
                fs[i].name@,
                if outputs {
                    fields_of(fs[i].outputs@)
                } else {
                    fields_of(fs[i].inputs@)
                },
            ),
    )
}

pub open spec fn event_entries(es: Seq<Event>) -> Seq<(Seq<char>, Seq<Field>)> {
    Seq::new(es.len(), |i: int| (es[i].name@, fields_of(es[i].inputs@)))
}

/// The top-level struct for one named parameter list, if it is kept.
fn meta_of(name: &str, params: &Vec<Param>, suffix: &str, keep_empty: bool) -> (r: Result<
    Option<GenericStruct>,
    GenerationError,
>)
    ensures
        match r {
            Ok(Some(m)) => props_of_fields(fields_of(params@)) == Ok::<Seq<PropV>, GenErr>(m@.props)
                && (m@.props.len() > 0 || keep_empty) && m@.name == camel_of(name@ + suffix@),
            Ok(None) => props_of_fields(fields_of(params@)) == Ok::<Seq<PropV>, GenErr>(seq![])
                && !keep_empty,
            Err(e) => props_of_fields(fields_of(params@)) == Err::<Seq<PropV>, GenErr>(e@),
        },
{
    let (props, _) = match generate_properties(params) {
        Ok(x) => x,
        Err(e) => {
            return Err(e);
        },
    };
    proof {
        lemma_props_of(props@);
    }
    if props.len() == 0 && !keep_empty {
        proof {
            assert(props_of(props@) =~= seq![]);
        }
        return Ok(None);
    }
    let mut full: Vec<char> = Vec::new();
    push_str(&mut full, name);
    push_str(&mut full, suffix);
    let joined = string_from_chars(full.as_slice());
    Ok(Some(GenericStruct { name: to_camel(joined.as_str()), properties: props }))
}

pub open spec fn push_meta(ms: Seq<MetaV>, m: Option<MetaV>) -> Seq<MetaV> {
    match m {
        Some(x) => ms.push(x),
        None => ms,
    }
}

impl Generator {
    /// Collects the kept top-level structs of the given entries.
    fn collect_metas(
        &self,
        outputs: bool,
        events: bool,
        suffix: &str,
        keep_empty: bool,
    ) -> (r: Result<Vec<GenericStruct>, GenerationError>)
        ensures
            match r {
                Ok(ms) => metas_of(
                    if events {
                        event_entries(self.contract_events@)
                    } else {
                        function_entries(self.contract_functions@, outputs)
                    },
                    suffix@,
                    keep_empty,
                ) == Ok::<Seq<MetaV>, GenErr>(metas_view(ms@)),
                Err(e) => metas_of(
                    if events {
                        event_entries(self.contract_events@)
                    } else {
                        function_entries(self.contract_functions@, outputs)
                    },
                    suffix@,
                    keep_empty,
                ) == Err::<Seq<MetaV>, GenErr>(e@),
            },
    {
        let ghost entries = if events {
            event_entries(self.contract_events@)
        } else {
            function_entries(self.contract_functions@, outputs)
        };
        let n = if events {
            self.contract_events.len()
        } else {
            self.contract_functions.len()
        };
        let mut out: Vec<GenericStruct> = Vec::new();
        let mut k: usize = 0;
        proof {
            assert(entries.skip(0) =~= entries);
            match metas_of(entries, suffix@, keep_empty) {
                Ok(x) => {
                    assert(Seq::<MetaV>::empty() + x =~= x);
                },
                Err(_) => {},
            }
            assert(metas_view(out@) =~= Seq::<MetaV>::empty());
        }
        while k < n
            invariant
                k <= n == entries.len(),
                entries == (if events {
                    event_entries(self.contract_events@)
                } else {
                    function_entries(self.contract_functions@, outputs)
                }),
                metas_of(entries, suffix@, keep_empty) == prepend_metas(
                    metas_view(out@),
                    metas_of(entries.skip(k as int), suffix@, keep_empty),
                ),
            decreases n - k,
        {
            let ghost rest = entries.skip(k as int);
            proof {
                assert(rest.drop_first() =~= entries.skip(k + 1));
            }
            let m = if events {
                let e = &self.contract_events[k];
                meta_of(e.name.as_str(), &e.inputs, suffix, keep_empty)
            } else {
                let f = &self.contract_functions[k];
                if outputs {
                    meta_of(f.name.as_str(), &f.outputs, suffix, keep_empty)
                } else {
                    meta_of(f.name.as_str(), &f.inputs, suffix, keep_empty)
                }
            };
            proof {
                assert(rest[0] == entries[k as int]);
            }
            match m {
                Err(e) => {
                    return Err(e);
                },
                Ok(opt) => {
                    let ghost before = out@;
                    let ghost mv: Option<MetaV> = match &opt {
                        Some(g) => Some(g@),
                        None => None,
                    };
                    match opt {
                        Some(g) => {
                            out.push(g);
                        },
                        None => {},
                    }
                    proof {
                        assert(metas_view(out@) =~= push_meta(metas_view(before), mv));
                        match metas_of(entries.skip(k + 1), suffix@, keep_empty) {
                            Ok(x) => {
                                match mv {
                                    Some(g) => {
                                        assert(metas_view(before) + (seq![g] + x) =~= metas_view(
                                            out@,
                                        ) + x);
                                    },
                                    None => {},
                                }
                            },
                            Err(_) => {},
                        }
                    }
                },
            }
            k = k + 1;
        }
        proof {
            assert(entries.skip(k as int).len() == 0);
            assert(metas_view(out@) + Seq::<MetaV>::empty() =~= metas_view(out@));
        }
        Ok(out)
    }

    /// One top-level struct per function with inputs.
    pub fn generate_function_input_structs(&self) -> (r: Result<Vec<GenericStruct>, GenerationError>)
        ensures
            match r {
                Ok(ms) => metas_of(
                    function_entries(self.contract_functions@, false),
                    "FunctionInput"@,
                    false,
                ) == Ok::<Seq<MetaV>, GenErr>(metas_view(ms@)),
                Err(e) => metas_of(
                    function_entries(self.contract_functions@, false),
                    "FunctionInput"@,
                    false,
                ) == Err::<Seq<MetaV>, GenErr>(e@),
            },
    {
        self.collect_metas(false, false, "FunctionInput", false)
    }

    /// One top-level struct per function with outputs.
    pub fn generate_function_output_structs(&self) -> (r: Result<Vec<GenericStruct>, GenerationError>)
        ensures
            match r {
                Ok(ms) => metas_of(
                    function_entries(self.contract_functions@, true),
                    "FunctionOutput"@,
                    false,
                ) == Ok::<Seq<MetaV>, GenErr>(metas_view(ms@)),
                Err(e) => metas_of(
                    function_entries(self.contract_functions@, true),
                    "FunctionOutput"@,
                    false,
                ) == Err::<Seq<MetaV>, GenErr>(e@),
            },
    {
        self.collect_metas(true, false, "FunctionOutput", false)
    }

    /// One top-level struct per event, also for events without values.
    pub fn generate_events_input_structs(&self) -> (r: Result<Vec<GenericStruct>, GenerationError>)
        ensures
            match r {
                Ok(ms) => metas_of(event_entries(self.contract_events@), "EventOutput"@, true)
                    == Ok::<Seq<MetaV>, GenErr>(metas_view(ms@)),
                Err(e) => metas_of(event_entries(self.contract_events@), "EventOutput"@, true)
                    == Err::<Seq<MetaV>, GenErr>(e@),
            },
    {
        self.collect_metas(false, true, "EventOutput", true)
    }
}

/// The top-level structs for the given metadata, in order, registering the
/// auxiliary structs they need.
pub open spec fn g_structs(st: GenState, metas: Seq<MetaV>, m: Seq<(Seq<char>, Seq<char>)>) -> Result<
    (GenState, Seq<StructV>),
    GenErr,
>
    decreases metas.len(),
{
    if metas.len() == 0 {
        Ok((st, seq![]))
    } else {
        match g_fields(st, metas[0].props, m) {
            Err(e) => Err(e),
            Ok((st1, fields)) => match g_structs(st1, metas.drop_first(), m) {
                Err(e) => Err(e),
                Ok((st2, rest)) => Ok(
                    (
                        st2,
                        seq![StructV { name: metas[0].name, derives: outer_derives(), fields }]
                            + rest,
                    ),
                ),
            },
        }
    }
}

pub open spec fn prepend_structs(prefix: Seq<StructV>, r: Result<(GenState, Seq<StructV>), GenErr>) -> Result<
    (GenState, Seq<StructV>),
    GenErr,
> {
    match r {
        Ok((st, rest)) => Ok((st, prefix + rest)),
        Err(e) => Err(e),
    }
}

pub open spec fn render_field(f: FieldV) -> Seq<char> {
    "    "@ + f.annotation + "\n    pub "@ + f.name + ": "@ + f.ty + ",\n"@
}

pub open spec fn render_fields(fs: Seq<FieldV>) -> Seq<char>
    decreases fs.len(),
{
    if fs.len() == 0 {
        seq![]
    } else {
        render_fields(fs.drop_last()) + render_field(fs.last())
    }
}

/// The source text of one struct definition.
pub open spec fn render_struct(s: StructV) -> Seq<char> {
    "#[derive("@ + s.derives + ")]\npub struct "@ + s.name + " {\n"@ + render_fields(s.fields)
        + "}\n"@
}

pub open spec fn render_structs(ss: Seq<StructV>) -> Seq<char>
    decreases ss.len(),
{
    if ss.len() == 0 {
        seq![]
    } else {
        render_structs(ss.drop_last()) + render_struct(ss.last()) + "\n"@
    }
}

/// The imports that generated code needs.
pub open spec fn header() -> Seq<char> {
    "use std::collections::HashMap;\n\nuse nekoton_abi::{BuildTokenValue, PackAbi, PackAbiPlain, TokenValueExt, UnpackAbi, UnpackAbiPlain, UnpackerError, UnpackerResult};\nuse once_cell::sync::OnceCell;\nuse serde::{Deserialize, Serialize};\nuse ton_abi::{Param, ParamType};\n\n"@
}

/// The source text of a set of top-level and auxiliary structs.
pub open spec fn render_text(outer: Seq<StructV>, inner: Seq<(Seq<char>, StructV)>) -> Seq<char> {
    header() + render_structs(outer) + render_structs(inner.map_values(|e: (Seq<char>, StructV)| e.1))
}

pub open spec fn structs_view(ss: Seq<GeneratedStruct>) -> Seq<StructV> {
    ss.map_values(|s: GeneratedStruct| s@)
}

fn push_struct_text(out: &mut Vec<char>, st: &GeneratedStruct)
    ensures
        final(out)@ == old(out)@ + render_struct(st@),
{
    push_str(out, "#[derive(");
    push_chars(out, chars_of(st.derives.as_str()).as_slice());
    push_str(out, ")]\npub struct ");
    push_chars(out, chars_of(st.name.as_str()).as_slice());
    push_str(out, " {\n");
    let ghost fs = gen_fields_view(st.fields@);
    let ghost mid = out@;
    let mut k: usize = 0;
    while k < st.fields.len()
        invariant
            k <= st.fields@.len(),
            fs == gen_fields_view(st.fields@),
            out@ == mid + render_fields(fs.subrange(0, k as int)),
        decreases st.fields@.len() - k,
    {
        let f = &st.fields[k];
        push_str(out, "    ");
        push_chars(out, chars_of(f.annotation.as_str()).as_slice());
        push_str(out, "\n    pub ");
        push_chars(out, chars_of(f.name.as_str()).as_slice());
        push_str(out, ": ");
        push_chars(out, chars_of(f.ty.as_str()).as_slice());
        push_str(out, ",\n");
        proof {
            let next = fs.subrange(0, k + 1);
            assert(next.drop_last() =~= fs.subrange(0, k as int));
            assert(next.last() == f@);
            assert(out@ =~= mid + render_fields(next));
        }
        k = k + 1;
    }
    push_str(out, "}\n");
    proof {
        assert(fs.subrange(0, k as int) =~= fs);
        assert(final(out)@ =~= old(out)@ + render_struct(st@));
    }
}

impl Generator {
    /// Generates the top-level structs for the given metadata, in order.
    pub fn generate_structs(&mut self, struct_metas: Vec<GenericStruct>) -> (r: Result<
        (),
        GenerationError,
    >)
        ensures
            final(self).contract_functions == old(self).contract_functions,
            final(self).contract_events == old(self).contract_events,
            final(self).mapping == old(self).mapping,
            match r {
                Ok(_) => exists|added: Seq<StructV>|
                    g_structs(old(self).state(), metas_view(struct_metas@), old(self).mapping@)
                        == Ok::<(GenState, Seq<StructV>), GenErr>((final(self).state(), added))
                        && structs_view(final(self).output_structs@) == structs_view(
                        old(self).output_structs@,
                    ) + added,
                Err(e) => g_structs(old(self).state(), metas_view(struct_metas@), old(self).mapping@)
                    == Err::<(GenState, Seq<StructV>), GenErr>(e@),
            },
    {
        let ghost ms = metas_view(struct_metas@);
        let ghost st0 = old(self).state();
        let ghost outs0 = structs_view(old(self).output_structs@);
        let mut k: usize = 0;
        proof {
            assert(ms.skip(0) =~= ms);
            match g_structs(st0, ms, self.mapping@) {
                Ok((st, x)) => {
                    assert(Seq::<StructV>::empty() + x =~= x);
                },
                Err(_) => {},
            }
            assert(outs0.subrange(outs0.len() as int, outs0.len() as int) =~= Seq::<StructV>::empty());
        }
        while k < struct_metas.len()
            invariant
                k <= struct_metas@.len(),
                ms == metas_view(struct_metas@),
                st0 == old(self).state(),
                outs0 == structs_view(old(self).output_structs@),
                self.contract_functions == old(self).contract_functions,
                self.contract_events == old(self).contract_events,
                self.mapping == old(self).mapping,
                structs_view(self.output_structs@).len() >= outs0.len(),
                structs_view(self.output_structs@).subrange(0, outs0.len() as int) == outs0,
                g_structs(st0, ms, self.mapping@) == prepend_structs(
                    structs_view(self.output_structs@).subrange(
                        outs0.len() as int,
                        structs_view(self.output_structs@).len() as int,
                    ),
                    g_structs(self.state(), ms.skip(k as int), self.mapping@),
                ),
            decreases struct_metas@.len() - k,
        {
            let meta = &struct_metas[k];
            let ghost rest = ms.skip(k as int);
            let ghost st_k = self.state();
            let ghost outs_k = structs_view(self.output_structs@);
            proof {
                assert(rest.drop_first() =~= ms.skip(k + 1));
                assert(rest[0] == meta@);
            }
            let fields = match self.generate_struct(&meta.properties) {
                Ok(f) => f,
                Err(e) => {
                    return Err(e);
                },
            };
            let st = GeneratedStruct {
                name: meta.name.clone(),
                derives: "Serialize, Deserialize, Debug, Clone, PackAbi, UnpackAbiPlain".to_owned(),
                fields,
            };
            self.output_structs.push(st);
            proof {
                let outs = structs_view(self.output_structs@);
                assert(outs =~= outs_k.push(st@));
                assert(outs.subrange(0, outs0.len() as int) =~= outs_k.subrange(0, outs0.len() as int));
                match g_structs(self.state(), ms.skip(k + 1), self.mapping@) {
                    Ok((s2, x)) => {
                        assert(outs_k.subrange(outs0.len() as int, outs_k.len() as int) + (seq![st@] + x)
                            =~= outs.subrange(outs0.len() as int, outs.len() as int) + x);
                    },
                    Err(_) => {},
                }
            }
            k = k + 1;
        }
        proof {
            assert(ms.skip(k as int).len() == 0);
            let outs = structs_view(self.output_structs@);
            let added = outs.subrange(outs0.len() as int, outs.len() as int);
            assert(added + Seq::<StructV>::empty() =~= added);
            assert(outs =~= outs0 + added);
        }
        Ok(())
    }

    /// The source text of everything generated so far: the imports, the
    /// top-level structs, then the auxiliary structs.
    pub fn render(&self) -> (r: String)
        ensures
            r@ == render_text(structs_view(self.output_structs@), self.state().inner),
    {
        let mut out: Vec<char> = Vec::new();
        push_str(&mut out, "use std::collections::HashMap;\n\nuse nekoton_abi::{BuildTokenValue, PackAbi, PackAbiPlain, TokenValueExt, UnpackAbi, UnpackAbiPlain, UnpackerError, UnpackerResult};\nuse once_cell::sync::OnceCell;\nuse serde::{Deserialize, Serialize};\nuse ton_abi::{Param, ParamType};\n\n");
        let ghost h = out@;
        let ghost outer = structs_view(self.output_structs@);
        let mut k: usize = 0;
        while k < self.output_structs.len()
            invariant
                k <= self.output_structs@.len(),
                outer == structs_view(self.output_structs@),
                out@ == h + render_structs(outer.subrange(0, k as int)),
            decreases self.output_structs@.len() - k,
        {
            push_struct_text(&mut out, &self.output_structs[k]);
            push_str(&mut out, "\n");
            proof {
                let next = outer.subrange(0, k + 1);
                assert(next.drop_last() =~= outer.subrange(0, k as int));
                assert(out@ =~= h + render_structs(next));
            }
            k = k + 1;
        }
        proof {
            assert(outer.subrange(0, k as int) =~= outer);
        }
        let ghost mid = out@;
        let ghost inner = self.state().inner.map_values(|e: (Seq<char>, StructV)| e.1);
        let mut i: usize = 0;
        while i < self.output_function_inner_structs.len()
            invariant
                i <= self.output_function_inner_structs@.len(),
                inner == self.state().inner.map_values(|e: (Seq<char>, StructV)| e.1),
                out@ == mid + render_structs(inner.subrange(0, i as int)),
            decreases self.output_function_inner_structs@.len() - i,
        {
            push_struct_text(&mut out, &self.output_function_inner_structs[i].1);
            push_str(&mut out, "\n");
            proof {
                let next = inner.subrange(0, i + 1);
                assert(next.drop_last() =~= inner.subrange(0, i as int));
                assert(next.last() == self.output_function_inner_structs@[i as int].1@);
                assert(out@ =~= mid + render_structs(next));
            }
            i = i + 1;
        }
        proof {
            assert(inner.subrange(0, i as int) =~= inner);
            assert(out@ =~= render_text(structs_view(self.output_structs@), self.state().inner));
        }
        string_from_chars(out.as_slice())
    }
}

/// A list of types with their synthesized names.
pub open spec fn value_params(fs: Seq<Field>) -> Seq<Field> {
    name_fields(Seq::new(fs.len(), |i: int| fs[i].ty))
}

/// The struct that holds a bare list of types.
pub open spec fn common_meta(props: Seq<PropV>) -> MetaV {
    MetaV { name: "CommonStruct"@, props }
}

pub open spec fn fresh_state() -> GenState {
    GenState { inner: seq![], count: 0 }
}

/// Source text for a bare list of types, on a fresh generator.
pub open spec fn params_code(fs: Seq<Field>) -> Result<Seq<char>, GenErr> {
    match props_of_fields(value_params(fs)) {
        Err(e) => Err(e),
        Ok(props) => match g_structs(
            fresh_state(),
            seq![common_meta(props)],
            HelperMapping::standard_view(),
        ) {
            Err(e) => Err(e),
            Ok((st, added)) => Ok(render_text(added, st.inner)),
        },
    }
}

/// Source text for a contract's functions and events, on a fresh generator:
/// output structs, then input structs, then event structs.
pub open spec fn contract_code(fns: Seq<Function>, evs: Seq<Event>) -> Result<Seq<char>, GenErr> {
    match metas_of(function_entries(fns, false), "FunctionInput"@, false) {
        Err(e) => Err(e),
        Ok(ins) => match metas_of(function_entries(fns, true), "FunctionOutput"@, false) {
            Err(e) => Err(e),
            Ok(outs) => match metas_of(event_entries(evs), "EventOutput"@, true) {
                Err(e) => Err(e),
                Ok(es) => match g_structs(
                    fresh_state(),
                    outs + ins + es,
                    HelperMapping::standard_view(),
                ) {
                    Err(e) => Err(e),
                    Ok((st, added)) => Ok(
                        render_text(added, st.inner) + crate::builders::accessors_code(fns, evs),
                    ),
                },
            },
        },
    }
}

/// Gives a list of parameters the synthesized names.
fn value_named(params: &Vec<Param>) -> (r: Vec<Param>)
    ensures
        fields_of(r@) == value_params(fields_of(params@)),
{
    proof {
        lemma_fields_of(params@);
    }
    let mut out: Vec<Param> = Vec::new();
    let mut i: usize = 0;
    while i < params.len()
        invariant
            i <= params@.len(),
            fields_of(params@).len() == params@.len(),
            forall|j: int| 0 <= j < params@.len() ==> #[trigger] fields_of(params@)[j] == params@[j]@,
            out@.len() == i,
            forall|j: int| 0 <= j < i ==> #[trigger] out@[j]@ == (Field {
                name: crate::grammar::value_name(j as nat),
                ty: params@[j]@.ty,
            }),
        decreases params@.len() - i,
    {
        let kind = crate::types::clone_type(&params[i].kind);
        out.push(Param { name: value_name_of(i), kind });
        i = i + 1;
    }
    proof {
        lemma_fields_of(out@);
        assert(fields_of(out@) =~= value_params(fields_of(params@)));
    }
    out
}

impl Generator {
    /// Generates `CommonStruct` for a bare list of types, its values named
    /// `value0`, `value1`, ..., and returns the source text of all structs.
    pub fn generate_structs_from_params(&mut self, params: &Vec<Param>) -> (r: Result<
        String,
        GenerationError,
    >)
        ensures
            final(self).contract_functions == old(self).contract_functions,
            final(self).contract_events == old(self).contract_events,
            final(self).mapping == old(self).mapping,
            match props_of_fields(value_params(fields_of(params@))) {
                Err(e) => r is Err && r->Err_0@ == e,
                Ok(props) => match g_structs(
                    old(self).state(),
                    seq![common_meta(props)],
                    old(self).mapping@,
                ) {
                    Err(e) => r is Err && r->Err_0@ == e,
                    Ok((st, added)) => final(self).state() == st && structs_view(
                        final(self).output_structs@,
                    ) == structs_view(old(self).output_structs@) + added && r is Ok
                        && r->Ok_0@ == render_text(structs_view(final(self).output_structs@), st.inner),
                },
            },
    {
        let named = value_named(params);
        let (props, _) = match generate_properties(&named) {
            Ok(x) => x,
            Err(e) => {
                return Err(e);
            },
        };
        let meta = GenericStruct { name: "CommonStruct".to_owned(), properties: props };
        let ghost mv = meta@;
        let metas = vec![meta];
        proof {
            assert(metas_view(metas@) =~= seq![mv]);
        }
        match self.generate_structs(metas) {
            Err(e) => {
                return Err(e);
            },
            Ok(_) => {},
        }
        Ok(self.render())
    }
}

/// Why source text could not be generated from interface text.
#[derive(Debug)]
pub enum CodegenError {
    Parse(ParserError),
    Generation(GenerationError),
}

/// Source text for the structs of a bare list of types written in the
/// interface notation; empty text for anything else that parses.
pub fn generate_rust_code_from_params(params: &str) -> (r: Result<String, CodegenError>)
    ensures
        match crate::grammar::p_entity(params@) {
            Err(e) => r is Err && r->Err_0 is Parse && r->Err_0->Parse_0@ == e,
            Ok(crate::grammar::EntityV::Cell(fs)) => match params_code(fs) {
                Err(e) => r is Err && r->Err_0 is Generation && r->Err_0->Generation_0@ == e,
                Ok(text) => r is Ok && r->Ok_0@ == text,
            },
            Ok(_) => r is Ok && r->Ok_0@ == Seq::<char>::empty(),
        },
{
    match parse(params) {
        Err(e) => Err(CodegenError::Parse(e)),
        Ok(Entity::Cell(ps)) => {
            let mut g = Generator::load_raw(Vec::new(), Vec::new());
            match g.generate_structs_from_params(&ps) {
                Err(e) => Err(CodegenError::Generation(e)),
                Ok(text) => {
                    proof {
                        assert(structs_view(g.output_structs@) =~= Seq::<StructV>::empty() + structs_view(g.output_structs@));
                    }
                    Ok(text)
                },
            }
        },
        Ok(_) => Ok(String::new()),
    }
}

/// Source text for the structs of a contract's functions and events: one
/// struct per function's outputs, per function's inputs and per event, and
/// the auxiliary structs they share.
pub fn generate_rust_code(functions: Vec<Function>, events: Vec<Event>) -> (r: Result<
    String,
    GenerationError,
>)
    ensures
        match contract_code(functions@, events@) {
            Err(e) => r is Err && r->Err_0@ == e,
            Ok(text) => r is Ok && r->Ok_0@ == text,
        },
{
    let mut g = Generator::load_raw(functions, events);
    let mut inputs = match g.generate_function_input_structs() {
        Ok(x) => x,
        Err(e) => {
            return Err(e);
        },
    };
    let mut outputs = match g.generate_function_output_structs() {
        Ok(x) => x,
        Err(e) => {
            return Err(e);
        },
    };
    let mut event_structs = match g.generate_events_input_structs() {
        Ok(x) => x,
        Err(e) => {
            return Err(e);
        },
    };
    let ghost iv = metas_view(inputs@);
    let ghost ov = metas_view(outputs@);
    let ghost ev = metas_view(event_structs@);
    outputs.append(&mut inputs);
    outputs.append(&mut event_structs);
    proof {
        assert(metas_view(outputs@) =~= ov + iv + ev);
    }
    match g.generate_structs(outputs) {
        Err(e) => {
            return Err(e);
        },
        Ok(_) => {},
    }
    proof {
        assert(structs_view(g.output_structs@) =~= Seq::<StructV>::empty() + structs_view(g.output_structs@));
    }
    let structs = g.render();
    let accessors = g.generate_functions();
    let mut out: Vec<char> = chars_of(structs.as_str());
    push_chars(&mut out, chars_of(accessors.as_str()).as_slice());
    Ok(string_from_chars(out.as_slice()))
}

impl Generator {
    /// Accessors for the contract's function and event descriptions.
    pub fn generate_functions(&self) -> (r: String)
        ensures
            r@ == crate::builders::accessors_code(self.contract_functions@, self.contract_events@),
    {
        crate::builders::accessors_for(&self.contract_functions, &self.contract_events)
    }
}

impl Default for Generator {
    /// A generator with no functions or events, the standard overrides and an
    /// empty registry.
    fn default() -> (r: Generator)
        ensures
            r.contract_functions@.len() == 0,
            r.contract_events@.len() == 0,
            r.output_structs@.len() == 0,
            r.state() == fresh_state(),
            r.mapping@ == HelperMapping::standard_view(),
    {
        Generator::load_raw(Vec::new(), Vec::new())
    }
}

} // verus!
