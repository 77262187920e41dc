//! Source text of accessor functions that build a contract's function and
//! event descriptions at run time.
use vstd::prelude::*;

use crate::codegen::Event;
use crate::parser::Function;
use crate::properties::to_snake;
use crate::text::snake_of;
use crate::text::{chars_of, push_chars, string_from_chars};
use crate::types::{dec, fields_of, lemma_fields_of, push_decimal, push_str, Field, Param, ParamType, Ty};

verus! {

broadcast use {
    vstd::std_specs::vec::axiom_vec_index_decreases,
    vstd::seq::axiom_seq_index_decreases,
    vstd::seq::axiom_seq_subrange_decreases,
    vstd::std_specs::vec::axiom_vec_decreases_to_view,
};

/// Source text of an expression that builds the type `t`.
pub open spec fn ty_code(t: Ty) -> Seq<char>
    decreases t,
{
    match t {
        Ty::Bool => "ParamType::Bool"@,
        Ty::Int(n) => "ParamType::Int("@ + dec(n) + ")"@,
        Ty::Uint(n) => "ParamType::Uint("@ + dec(n) + ")"@,
        Ty::VarInt(n) => "ParamType::VarInt("@ + dec(n) + ")"@,
        Ty::VarUint(n) => "ParamType::VarUint("@ + dec(n) + ")"@,
        Ty::Address => "ParamType::Address"@,
        Ty::Bytes => "ParamType::Bytes"@,
        Ty::FixedBytes(n) => "ParamType::FixedBytes("@ + dec(n) + ")"@,
        Ty::Str => "ParamType::String"@,
        Ty::Cell => "ParamType::Cell"@,
        Ty::Token => "ParamType::Token"@,
        Ty::Optional(b) => "ParamType::Optional(Box::new("@ + ty_code(*b) + "))"@,
        Ty::Ref(b) => "ParamType::Ref(Box::new("@ + ty_code(*b) + "))"@,
        Ty::Tuple(fs) => "ParamType::Tuple(vec!["@ + fields_code(fs) + "])"@,
        Ty::Array(b) => "ParamType::Array(Box::new("@ + ty_code(*b) + "))"@,
        Ty::FixedArray(b, n) => "ParamType::FixedArray(Box::new("@ + ty_code(*b) + "), "@ + dec(n)
            + ")"@,
        Ty::Mapping(k, v) => "ParamType::Map(Box::new("@ + ty_code(*k) + "), Box::new("@ + ty_code(
            *v,
        ) + "))"@,
    }
}

/// Source text of an expression that builds the parameter `f`.
pub open spec fn field_code(f: Field) -> Seq<char>
    decreases f,
{
    "Param{name: \""@ + f.name + "\".to_string(), kind: "@ + ty_code(f.ty) + "}"@
}

/// Source text of the parameters' expressions, separated by commas.
pub open spec fn fields_code(fs: Seq<Field>) -> Seq<char>
    decreases fs,
{
    if fs.len() == 0 {
        seq![]
    } else if fs.len() == 1 {
        field_code(fs[0])
    } else {
        fields_code(fs.subrange(0, fs.len() - 1)) + ", "@ + field_code(fs[fs.len() - 1])
    }
}

/// Source text of a statement's right side that builds a parameter list.
pub open spec fn params_code(fs: Seq<Field>) -> Seq<char> {
    "vec!["@ + fields_code(fs) + "];"@
}

fn write_ty_code(t: &ParamType, out: &mut Vec<char>)
    ensures
        final(out)@ == old(out)@ + ty_code(t@),
    decreases t,
{
    match t {
        ParamType::Bool => push_str(out, "ParamType::Bool"),
        ParamType::Int(n) => {
            push_str(out, "ParamType::Int(");
            push_decimal(out, *n);
            push_str(out, ")");
        },
        ParamType::Uint(n) => {
            push_str(out, "ParamType::Uint(");
            push_decimal(out, *n);
            push_str(out, ")");
        },
        ParamType::VarInt(n) => {
            push_str(out, "ParamType::VarInt(");
            push_decimal(out, *n);
            push_str(out, ")");
        },
        ParamType::VarUint(n) => {
            push_str(out, "ParamType::VarUint(");
            push_decimal(out, *n);
            push_str(out, ")");
        },
        ParamType::Address => push_str(out, "ParamType::Address"),
        ParamType::Bytes => push_str(out, "ParamType::Bytes"),
        ParamType::FixedBytes(n) => {
            push_str(out, "ParamType::FixedBytes(");
            push_decimal(out, *n);
            push_str(out, ")");
        },
        ParamType::String => push_str(out, "ParamType::String"),
        ParamType::Cell => push_str(out, "ParamType::Cell"),
        ParamType::Token => push_str(out, "ParamType::Token"),
        ParamType::Optional(b) => {
            push_str(out, "ParamType::Optional(Box::new(");
            write_ty_code(b, out);
            push_str(out, "))");
        },
        ParamType::Ref(b) => {
            push_str(out, "ParamType::Ref(Box::new(");
            write_ty_code(b, out);
            push_str(out, "))");
        },
        ParamType::Tuple(ps) => {
            push_str(out, "ParamType::Tuple(vec![");
            write_fields_code(ps, out);
            push_str(out, "])");
        },
        ParamType::Array(b) => {
            push_str(out, "ParamType::Array(Box::new(");
            write_ty_code(b, out);
            push_str(out, "))");
        },
        ParamType::FixedArray(b, n) => {
            push_str(out, "ParamType::FixedArray(Box::new(");
            write_ty_code(b, out);
            push_str(out, "), ");
            push_decimal(out, *n);
            push_str(out, ")");
        },
        ParamType::Mapping(k, v) => {
            push_str(out, "ParamType::Map(Box::new(");
            write_ty_code(k, out);
            push_str(out, "), Box::new(");
            write_ty_code(v, out);
            push_str(out, "))");
        },
    }
    proof {
        assert(final(out)@ =~= old(out)@ + ty_code(t@));
    }
}

fn write_fields_code(ps: &Vec<Param>, out: &mut Vec<char>)
    ensures
        final(out)@ == old(out)@ + fields_code(fields_of(ps@)),
    decreases ps,
{
    proof {
        lemma_fields_of(ps@);
    }
    let mut i: usize = 0;
    while i < ps.len()
        invariant
            i <= ps@.len(),
            fields_of(ps@).len() == ps@.len(),
            forall|j: int| 0 <= j < ps@.len() ==> #[trigger] fields_of(ps@)[j] == ps@[j]@,
            out@ == old(out)@ + fields_code(fields_of(ps@).subrange(0, i as int)),
        decreases ps@.len() - i,
    {
        let ghost fs = fields_of(ps@);
        if i > 0 {
            push_str(out, ", ");
        }
        let ghost before = out@;
        push_str(out, "Param{name: \"");
        push_chars(out, chars_of(ps[i].name.as_str()).as_slice());
        push_str(out, "\".to_string(), kind: ");
        write_ty_code(&ps[i].kind, out);
        push_str(out, "}");
        proof {
            assert(fs[i as int] == ps@[i as int]@);
            assert(out@ =~= before + field_code(fs[i as int]));
            let pre = fs.subrange(0, i as int);
            let next = fs.subrange(0, i + 1);
            assert(next.subrange(0, next.len() - 1) =~= pre);
            assert(next[next.len() - 1] == fs[i as int]);
            if i == 0 {
                assert(fields_code(pre) == Seq::<char>::empty());
                assert(out@ =~= old(out)@ + fields_code(next));
            } else {
                assert(out@ =~= old(out)@ + fields_code(next));
            }
        }
        i = i + 1;
    }
    proof {
        assert(fields_of(ps@).subrange(0, i as int) =~= fields_of(ps@));
    }
}

/// Source text that builds a parameter list: `vec![...];`.
pub fn params_to_string(params: &Vec<Param>) -> (r: String)
    ensures
        r@ == params_code(fields_of(params@)),
{
    let mut out: Vec<char> = Vec::new();
    push_str(&mut out, "vec![");
    write_fields_code(params, &mut out);
    push_str(&mut out, "];");
    proof {
        assert(out@ =~= params_code(fields_of(params@)));
    }
    string_from_chars(out.as_slice())
}

/// Source text of the accessor for a function's description.
pub open spec fn function_code(
    name: Seq<char>,
    inputs: Seq<Field>,
    outputs: Seq<Field>,
) -> Seq<char> {
    "pub fn "@ + snake_of(name) + "() -> &'static ton_abi::Function {\n"@
        + "    static FUNCTION: OnceCell<ton_abi::Function> = OnceCell::new();\n"@
        + "    FUNCTION.get_or_init(|| {\n"@ + "    let header = vec![];\n"@
        + "    let mut builder = FunctionBuilder::new(\""@ + name + "\");\n"@ + (if inputs.len() > 0 {
        "    let input = "@ + params_code(inputs) + "\n    builder = builder.inputs(input);\n"@
    } else {
        seq![]
    }) + (if outputs.len() > 0 {
        "    let output = "@ + params_code(outputs) + "\n    builder = builder.outputs(output);\n"@
    } else {
        seq![]
    }) + "    builder.headers(header)\n    .build()\n    })\n}\n"@
}

/// Source text of the accessor for an event's description.
pub open spec fn event_code(name: Seq<char>, inputs: Seq<Field>) -> Seq<char> {
    "pub fn "@ + snake_of(name) + "() -> &'static ton_abi::Event {\n"@
        + "    static EVENT: OnceCell<ton_abi::Event> = OnceCell::new();\n"@
        + "    EVENT.get_or_init(|| {\n"@ + "    let mut builder = EventBuilder::new(\""@ + name
        + "\");\n"@ + (if inputs.len() > 0 {
        "    let input = "@ + params_code(inputs) + "\n    builder = builder.inputs(input);\n"@
    } else {
        seq![]
    }) + "    builder.build()\n    })\n}\n"@
}

/// Accessors for all functions, then all events, each followed by a blank line.
pub open spec fn accessors_code(fns: Seq<Function>, evs: Seq<Event>) -> Seq<char> {
    functions_code(fns) + events_code(evs)
}

pub open spec fn functions_code(fns: Seq<Function>) -> Seq<char>
    decreases fns.len(),
{
    if fns.len() == 0 {
        seq![]
    } else {
        functions_code(fns.drop_last()) + function_code(
            fns.last().name@,
            fields_of(fns.last().inputs@),
            fields_of(fns.last().outputs@),
        ) + "\n"@
    }
}

pub open spec fn events_code(evs: Seq<Event>) -> Seq<char>
    decreases evs.len(),
{
    if evs.len() == 0 {
        seq![]
    } else {
        events_code(evs.drop_last()) + event_code(evs.last().name@, fields_of(evs.last().inputs@))
            + "\n"@
    }
}

/// The accessor for a function's description.
pub fn generate_function(function: &Function) -> (r: String)
    ensures
        r@ == function_code(
            function.name@,
            fields_of(function.inputs@),
            fields_of(function.outputs@),
        ),
{
    let mut out: Vec<char> = Vec::new();
    push_str(&mut out, "pub fn ");
    push_chars(&mut out, chars_of(to_snake(function.name.as_str()).as_str()).as_slice());
    push_str(&mut out, "() -> &'static ton_abi::Function {\n");
    push_str(&mut out, "    static FUNCTION: OnceCell<ton_abi::Function> = OnceCell::new();\n");
    push_str(&mut out, "    FUNCTION.get_or_init(|| {\n");
    push_str(&mut out, "    let header = vec![];\n");
    push_str(&mut out, "    let mut builder = FunctionBuilder::new(\"");
    push_chars(&mut out, chars_of(function.name.as_str()).as_slice());
    push_str(&mut out, "\");\n");
    proof {
        lemma_fields_of(function.inputs@);
        lemma_fields_of(function.outputs@);
    }
    if function.inputs.len() > 0 {
        push_str(&mut out, "    let input = ");
        push_chars(&mut out, chars_of(params_to_string(&function.inputs).as_str()).as_slice());
        push_str(&mut out, "\n    builder = builder.inputs(input);\n");
    }
    if function.outputs.len() > 0 {
        push_str(&mut out, "    let output = ");
        push_chars(&mut out, chars_of(params_to_string(&function.outputs).as_str()).as_slice());
        push_str(&mut out, "\n    builder = builder.outputs(output);\n");
    }
    push_str(&mut out, "    builder.headers(header)\n    .build()\n    })\n}\n");
    proof {
        assert(out@ =~= function_code(
            function.name@,
            fields_of(function.inputs@),
            fields_of(function.outputs@),
        ));
    }
    string_from_chars(out.as_slice())
}

/// The accessor for an event's description.
pub fn generate_event(event: &Event) -> (r: String)
    ensures
        r@ == event_code(event.name@, fields_of(event.inputs@)),
{
    let mut out: Vec<char> = Vec::new();
    push_str(&mut out, "pub fn ");
    push_chars(&mut out, chars_of(to_snake(event.name.as_str()).as_str()).as_slice());
    push_str(&mut out, "() -> &'static ton_abi::Event {\n");
    push_str(&mut out, "    static EVENT: OnceCell<ton_abi::Event> = OnceCell::new();\n");
    push_str(&mut out, "    EVENT.get_or_init(|| {\n");
    push_str(&mut out, "    let mut builder = EventBuilder::new(\"");
    push_chars(&mut out, chars_of(event.name.as_str()).as_slice());
    push_str(&mut out, "\");\n");
    proof {
        lemma_fields_of(event.inputs@);
    }
    if event.inputs.len() > 0 {
        push_str(&mut out, "    let input = ");
        push_chars(&mut out, chars_of(params_to_string(&event.inputs).as_str()).as_slice());
        push_str(&mut out, "\n    builder = builder.inputs(input);\n");
    }
    push_str(&mut out, "    builder.build()\n    })\n}\n");
    proof {
        assert(out@ =~= event_code(event.name@, fields_of(event.inputs@)));
    }
    string_from_chars(out.as_slice())
}

/// Accessors for all functions, then all events.
pub fn accessors_for(functions: &Vec<Function>, events: &Vec<Event>) -> (r: String)
    ensures
        r@ == accessors_code(functions@, events@),
{
    let mut out: Vec<char> = Vec::new();
    let mut k: usize = 0;
    while k < functions.len()
        invariant
            k <= functions@.len(),
            out@ == functions_code(functions@.subrange(0, k as int)),
        decreases functions@.len() - k,
    {
        let text = generate_function(&functions[k]);
        push_chars(&mut out, chars_of(text.as_str()).as_slice());
        push_str(&mut out, "\n");
        proof {
            let next = functions@.subrange(0, k + 1);
            assert(next.drop_last() =~= functions@.subrange(0, k as int));
            assert(out@ =~= functions_code(next));
        }
        k = k + 1;
    }
    proof {
        assert(functions@.subrange(0, k as int) =~= functions@);
    }
    let ghost mid = out@;
    let mut i: usize = 0;
    while i < events.len()
        invariant
            i <= events@.len(),
            out@ == mid + events_code(events@.subrange(0, i as int)),
        decreases events@.len() - i,
    {
        let text = generate_event(&events[i]);
        push_chars(&mut out, chars_of(text.as_str()).as_slice());
        push_str(&mut out, "\n");
        proof {
            let next = events@.subrange(0, i + 1);
            assert(next.drop_last() =~= events@.subrange(0, i as int));
            assert(out@ =~= mid + events_code(next));
        }
        i = i + 1;
    }
    proof {
        assert(events@.subrange(0, i as int) =~= events@);
    }
    string_from_chars(out.as_slice())
}

} // verus!
