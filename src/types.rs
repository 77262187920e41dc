//! The type tree of interface values and its canonical signature.
use vstd::prelude::*;

use crate::text::string_from_chars;

verus! {

broadcast use {
    vstd::std_specs::vec::axiom_vec_index_decreases,
    vstd::seq::axiom_seq_index_decreases,
    vstd::seq::axiom_seq_subrange_decreases,
    vstd::std_specs::vec::axiom_vec_decreases_to_view,
};

/// One node of the type tree.
#[derive(Debug)]
pub enum ParamType {
    Bool,
    Int(usize),
    Uint(usize),
    VarInt(usize),
    VarUint(usize),
    Address,
    Bytes,
    FixedBytes(usize),
    String,
    Cell,
    Token,
    Optional(Box<ParamType>),
    Ref(Box<ParamType>),
    Tuple(Vec<Param>),
    Array(Box<ParamType>),
    FixedArray(Box<ParamType>, usize),
    Mapping(Box<ParamType>, Box<ParamType>),
}

/// A named value of some type.
#[derive(Debug)]
pub struct Param {
    pub name: String,
    pub kind: ParamType,
}

/// The mathematical model of a type tree.
pub enum Ty {
    Bool,
    Int(nat),
    Uint(nat),
    VarInt(nat),
    VarUint(nat),
    Address,
    Bytes,
    FixedBytes(nat),
    Str,
    Cell,
    Token,
    Optional(Box<Ty>),
    Ref(Box<Ty>),
    Tuple(Seq<Field>),
    Array(Box<Ty>),
    FixedArray(Box<Ty>, nat),
    Mapping(Box<Ty>, Box<Ty>),
}

/// The mathematical model of a named value.
pub struct Field {
    pub name: Seq<char>,
    pub ty: Ty,
}

pub open spec fn ty_of(t: ParamType) -> Ty
    decreases t,
{
    match t {
        ParamType::Bool => Ty::Bool,
        ParamType::Int(n) => Ty::Int(n as nat),
        ParamType::Uint(n) => Ty::Uint(n as nat),
        ParamType::VarInt(n) => Ty::VarInt(n as nat),
        ParamType::VarUint(n) => Ty::VarUint(n as nat),
        ParamType::Address => Ty::Address,
        ParamType::Bytes => Ty::Bytes,
        ParamType::FixedBytes(n) => Ty::FixedBytes(n as nat),
        ParamType::String => Ty::Str,
        ParamType::Cell => Ty::Cell,
        ParamType::Token => Ty::Token,
        ParamType::Optional(b) => Ty::Optional(Box::new(ty_of(*b))),
        ParamType::Ref(b) => Ty::Ref(Box::new(ty_of(*b))),
        ParamType::Tuple(v) => Ty::Tuple(fields_of(v@)),
        ParamType::Array(b) => Ty::Array(Box::new(ty_of(*b))),
        ParamType::FixedArray(b, n) => Ty::FixedArray(Box::new(ty_of(*b)), n as nat),
        ParamType::Mapping(k, v) => Ty::Mapping(Box::new(ty_of(*k)), Box::new(ty_of(*v))),
    }
}

pub open spec fn fields_of(ps: Seq<Param>) -> Seq<Field>
    decreases ps,
{
    if ps.len() == 0 {
        seq![]
    } else {
        seq![Field { name: ps[0].name@, ty: ty_of(ps[0].kind) }] + fields_of(
            ps.subrange(1, ps.len() as int),
        )
    }
}

impl View for ParamType {
    type V = Ty;

    open spec fn view(&self) -> Ty {
        ty_of(*self)
    }
}

impl View for Param {
    type V = Field;

    open spec fn view(&self) -> Field {
        Field { name: self.name@, ty: ty_of(self.kind) }
    }
}

pub proof fn lemma_fields_of(ps: Seq<Param>)
    ensures
        fields_of(ps).len() == ps.len(),
        forall|i: int| 0 <= i < ps.len() ==> #[trigger] fields_of(ps)[i] == ps[i]@,
    decreases ps.len(),
{
    if ps.len() > 0 {
        lemma_fields_of(ps.subrange(1, ps.len() as int));
    }
}

/// Decimal digits of `d < 10`.
pub open spec fn digit_char(d: nat) -> char {
    if d == 0 {
        '0'
    } else if d == 1 {
        '1'
    } else if d == 2 {
        '2'
    } else if d == 3 {
        '3'
    } else if d == 4 {
        '4'
    } else if d == 5 {
        '5'
    } else if d == 6 {
        '6'
    } else if d == 7 {
        '7'
    } else if d == 8 {
        '8'
    } else {
        '9'
    }
}

/// Decimal notation of `n`, without leading zeros.
pub open spec fn dec(n: nat) -> Seq<char>
    decreases n,
{
    if n < 10 {
        seq![digit_char(n)]
    } else {
        dec(n / 10).push(digit_char(n % 10))
    }
}

/// Canonical signature of a type.
pub open spec fn sig(t: Ty) -> Seq<char>
    decreases t,
{
    match t {
        Ty::Bool => "bool"@,
        Ty::Int(n) => "int"@ + dec(n),
        Ty::Uint(n) => "uint"@ + dec(n),
        Ty::VarInt(n) => "varint"@ + dec(n),
        Ty::VarUint(n) => "varuint"@ + dec(n),
        Ty::Address => "address"@,
        Ty::Bytes => "bytes"@,
        Ty::FixedBytes(n) => "fixedbytes"@ + dec(n),
        Ty::Str => "string"@,
        Ty::Cell => "cell"@,
        Ty::Token => "gram"@,
        Ty::Optional(b) => "optional("@ + sig(*b) + ")"@,
        Ty::Ref(b) => "ref("@ + sig(*b) + ")"@,
        Ty::Tuple(fs) => "("@ + sig_list(fs) + ")"@,
        Ty::Array(b) => sig(*b) + "[]"@,
        Ty::FixedArray(b, n) => sig(*b) + "["@ + dec(n) + "]"@,
        Ty::Mapping(k, v) => "map("@ + sig(*k) + ","@ + sig(*v) + ")"@,
    }
}

/// Canonical signatures of the fields' types, separated by commas.
pub open spec fn sig_list(fs: Seq<Field>) -> Seq<char>
    decreases fs,
{
    if fs.len() == 0 {
        seq![]
    } else if fs.len() == 1 {
        sig(fs[0].ty)
    } else {
        sig_list(fs.subrange(0, fs.len() - 1)) + ","@ + sig(fs[fs.len() - 1].ty)
    }
}

/// Appends the characters of `lit` to `out`.
pub fn push_str(out: &mut Vec<char>, lit: &str)
    ensures
        final(out)@ == old(out)@ + lit@,
{
    let n = lit.unicode_len();
    let mut i: usize = 0;
    while i < n
        invariant
            i <= n,
            n == lit@.len(),
            out@ == old(out)@ + lit@.subrange(0, i as int),
        decreases n - i,
    {
        let c = lit.get_char(i);
        proof {
            assert(lit@.subrange(0, i + 1) =~= lit@.subrange(0, i as int).push(c));
        }
        out.push(c);
        i = i + 1;
    }
    proof {
        assert(lit@.subrange(0, n as int) =~= lit@);
    }
}

pub fn digit(d: usize) -> (r: char)
    requires
        d < 10,
    ensures
        r == digit_char(d as nat),
{
    if d == 0 {
        '0'
    } else if d == 1 {
        '1'
    } else if d == 2 {
        '2'
    } else if d == 3 {
        '3'
    } else if d == 4 {
        '4'
    } else if d == 5 {
        '5'
    } else if d == 6 {
        '6'
    } else if d == 7 {
        '7'
    } else if d == 8 {
        '8'
    } else {
        '9'
    }
}

/// Appends the decimal notation of `n` to `out`.
pub fn push_decimal(out: &mut Vec<char>, n: usize)
    ensures
        final(out)@ == old(out)@ + dec(n as nat),
    decreases n,
{
    if n >= 10 {
        push_decimal(out, n / 10);
    }
    out.push(digit(n % 10));
    proof {
        if n >= 10 {
            assert(old(out)@ + dec(n as nat) =~= old(out)@ + dec((n / 10) as nat) + seq![
                digit_char((n % 10) as nat),
            ]);
        } else {
            assert(old(out)@ + dec(n as nat) =~= old(out)@.push(digit_char(n as nat)));
        }
    }
}

/// Appends the canonical signature of `t` to `out`.
pub fn write_signature(t: &ParamType, out: &mut Vec<char>)
    ensures
        final(out)@ == old(out)@ + sig(t@),
    decreases t,
{
    match t {
        ParamType::Bool => push_str(out, "bool"),
        ParamType::Int(n) => {
            push_str(out, "int");
            push_decimal(out, *n);
        },
        ParamType::Uint(n) => {
            push_str(out, "uint");
            push_decimal(out, *n);
        },
        ParamType::VarInt(n) => {
            push_str(out, "varint");
            push_decimal(out, *n);
        },
        ParamType::VarUint(n) => {
            push_str(out, "varuint");
            push_decimal(out, *n);
        },
        ParamType::Address => push_str(out, "address"),
        ParamType::Bytes => push_str(out, "bytes"),
        ParamType::FixedBytes(n) => {
            push_str(out, "fixedbytes");
            push_decimal(out, *n);
        },
        ParamType::String => push_str(out, "string"),
        ParamType::Cell => push_str(out, "cell"),
        ParamType::Token => push_str(out, "gram"),
        ParamType::Optional(b) => {
            push_str(out, "optional(");
            write_signature(b, out);
            push_str(out, ")");
        },
        ParamType::Ref(b) => {
            push_str(out, "ref(");
            write_signature(b, out);
            push_str(out, ")");
        },
        ParamType::Tuple(ps) => {
            push_str(out, "(");
            write_signature_list(ps, out);
            push_str(out, ")");
        },
        ParamType::Array(b) => {
            write_signature(b, out);
            push_str(out, "[]");
        },
        ParamType::FixedArray(b, n) => {
            write_signature(b, out);
            push_str(out, "[");
            push_decimal(out, *n);
            push_str(out, "]");
        },
        ParamType::Mapping(k, v) => {
            push_str(out, "map(");
            write_signature(k, out);
            push_str(out, ",");
            write_signature(v, out);
            push_str(out, ")");
        },
    }
    proof {
        assert(final(out)@ =~= old(out)@ + sig(t@));
    }
}

/// Appends the signatures of the parameters' types, separated by commas.
pub fn write_signature_list(ps: &Vec<Param>, out: &mut Vec<char>)
    ensures
        final(out)@ == old(out)@ + sig_list(fields_of(ps@)),
    decreases ps,
{
    proof {
        lemma_fields_of(ps@);
    }
    let mut i: usize = 0;
    while i < ps.len()
        invariant
            i <= ps@.len(),
            fields_of(ps@).len() == ps@.len(),
            forall|j: int| 0 <= j < ps@.len() ==> #[trigger] fields_of(ps@)[j] == ps@[j]@,
            out@ == old(out)@ + sig_list(fields_of(ps@).subrange(0, i as int)),
        decreases ps@.len() - i,
    {
        let ghost fs = fields_of(ps@);
        let ghost before = out@;
        if i > 0 {
            push_str(out, ",");
        }
        write_signature(&ps[i].kind, out);
        proof {
            let pre = fs.subrange(0, i as int);
            let next = fs.subrange(0, i + 1);
            assert(next.subrange(0, next.len() - 1) =~= pre);
            assert(next[next.len() - 1] == fs[i as int]);
            if i == 0 {
                assert(pre.len() == 0);
                assert(sig_list(pre) == Seq::<char>::empty());
                assert(out@ =~= old(out)@ + sig_list(next));
            } else {
                assert(out@ =~= old(out)@ + sig_list(next));
            }
        }
        i = i + 1;
    }
    proof {
        assert(fields_of(ps@).subrange(0, i as int) =~= fields_of(ps@));
    }
}

/// A copy of a type tree.
pub fn clone_type(t: &ParamType) -> (r: ParamType)
    ensures
        r@ == t@,
    decreases t,
{
    match t {
        ParamType::Bool => ParamType::Bool,
        ParamType::Int(n) => ParamType::Int(*n),
        ParamType::Uint(n) => ParamType::Uint(*n),
        ParamType::VarInt(n) => ParamType::VarInt(*n),
        ParamType::VarUint(n) => ParamType::VarUint(*n),
        ParamType::Address => ParamType::Address,
        ParamType::Bytes => ParamType::Bytes,
        ParamType::FixedBytes(n) => ParamType::FixedBytes(*n),
        ParamType::String => ParamType::String,
        ParamType::Cell => ParamType::Cell,
        ParamType::Token => ParamType::Token,
        ParamType::Optional(b) => ParamType::Optional(Box::new(clone_type(b))),
        ParamType::Ref(b) => ParamType::Ref(Box::new(clone_type(b))),
        ParamType::Tuple(ps) => ParamType::Tuple(clone_params(ps)),
        ParamType::Array(b) => ParamType::Array(Box::new(clone_type(b))),
        ParamType::FixedArray(b, n) => ParamType::FixedArray(Box::new(clone_type(b)), *n),
        ParamType::Mapping(k, v) => ParamType::Mapping(
            Box::new(clone_type(k)),
            Box::new(clone_type(v)),
        ),
    }
}

/// A copy of a list of parameters.
pub fn clone_params(ps: &Vec<Param>) -> (r: Vec<Param>)
    ensures
        fields_of(r@) == fields_of(ps@),
    decreases ps,
{
    let mut out: Vec<Param> = Vec::new();
    let mut i: usize = 0;
    proof {
        lemma_fields_of(ps@);
    }
    while i < ps.len()
        invariant
            i <= ps@.len(),
            out@.len() == i,
            forall|j: int| 0 <= j < i ==> #[trigger] out@[j]@ == ps@[j]@,
        decreases ps@.len() - i,
    {
        let p = &ps[i];
        let kind = clone_type(&p.kind);
        let name = p.name.clone();
        out.push(Param { name, kind });
        i = i + 1;
    }
    proof {
        lemma_fields_of(out@);
        assert(fields_of(out@) =~= fields_of(ps@));
    }
    out
}

impl Clone for ParamType {
    fn clone(&self) -> (r: Self)
        ensures
            r@ == self@,
    {
        clone_type(self)
    }
}

impl Clone for Param {
    fn clone(&self) -> (r: Self)
        ensures
            r@ == self@,
    {
        Param { name: self.name.clone(), kind: clone_type(&self.kind) }
    }
}

impl ParamType {
    /// The canonical signature of this type.
    pub fn type_signature(&self) -> (r: String)
        ensures
            r@ == sig(self@),
    {
        let mut out: Vec<char> = Vec::new();
        write_signature(self, &mut out);
        proof {
            assert(out@ =~= sig(self@));
        }
        string_from_chars(out.as_slice())
    }
}

} // verus!
