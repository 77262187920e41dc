//! The interface notation as spec functions over characters: the parser in
//! `parser` returns exactly what these functions describe.
use vstd::prelude::*;

use crate::lexer::{ident_start_char, token_at, ws_run};
use crate::text::byte_len;
use crate::types::{dec, sig_list, Field, ParamType, Ty};

verus! {

/// Deepest nesting of parenthesised groups that the parser accepts.
pub const MAX_TUPLE_LEVEL: usize = 16;

/// Which sized type a numeric parameter was out of range for.
#[derive(Copy, Clone, Debug, PartialEq, Eq, Structural)]
pub enum RangeKind {
    Uint,
    Int,
    VarUint,
    VarInt,
    FixedBytes,
    FixedArray,
}

/// What an identifier denotes inside a type list.
#[derive(Debug)]
pub enum Keyword {
    /// A type without parameters in parentheses (`bool`, `uint32`, ...).
    Scalar(ParamType),
    /// A sized type whose size is not allowed; the size, capped at `usize::MAX`.
    OutOfRange(RangeKind, usize),
    Optional,
    Ref,
    Mapping,
    Tuple,
    Unknown,
}

/// The model of a parse error: positions are byte offsets into the input.
pub enum PErr {
    UnexpectedToken(Seq<char>, nat),
    UnexpectedEof(nat),
    InvalidNumericLiteral(Seq<char>, nat),
    ValueOutOfRange(RangeKind, nat, nat),
    TooDeepNesting(nat, nat),
    UnknownIdentifier(Seq<char>, nat),
    InvalidAbiVersion(nat),
}

/// The model of an interface version.
pub struct VersionV {
    pub major: nat,
    pub minor: nat,
}

/// The model of a parsed function.
pub struct FunctionV {
    pub name: Seq<char>,
    pub abi_version: VersionV,
    pub inputs: Seq<Field>,
    pub outputs: Seq<Field>,
    pub input_id: u32,
    pub output_id: u32,
}

/// The model of what a parse produces.
pub enum EntityV {
    Empty,
    Cell(Seq<Field>),
    Function(FunctionV),
}

/// Byte offset of character index `i`.
pub open spec fn pos(s: Seq<char>, i: int) -> nat {
    byte_len(s.take(i))
}

/// First index at or after `i` that is not whitespace.
pub open spec fn skip_ws(s: Seq<char>, i: int) -> int {
    i + ws_run(s, i)
}

/// The error for an unexpected token at index `i`, or for the end of input.
pub open spec fn err_at(s: Seq<char>, i: int) -> PErr {
    if 0 <= i < s.len() {
        PErr::UnexpectedToken(s.subrange(i, i + token_at(s, i).1), pos(s, i))
    } else {
        PErr::UnexpectedEof(pos(s, i))
    }
}

pub open spec fn digit_char_at(c: char) -> bool {
    '0' <= c && c <= '9'
}

pub open spec fn hex_char(c: char) -> bool {
    digit_char_at(c) || ('a' <= c && c <= 'f') || ('A' <= c && c <= 'F')
}

pub open spec fn all_digits(w: Seq<char>) -> bool {
    forall|i: int| 0 <= i < w.len() ==> digit_char_at(#[trigger] w[i])
}

pub open spec fn digit_val(c: char) -> nat {
    ((c as u32) - ('0' as u32)) as nat
}

pub open spec fn hex_val(c: char) -> nat {
    if digit_char_at(c) {
        digit_val(c)
    } else if 'a' <= c && c <= 'f' {
        ((c as u32) - ('a' as u32) + 10) as nat
    } else {
        ((c as u32) - ('A' as u32) + 10) as nat
    }
}

/// Value of a run of decimal digits.
pub open spec fn dec_value(w: Seq<char>) -> nat
    decreases w.len(),
{
    if w.len() == 0 {
        0
    } else {
        dec_value(w.drop_last()) * 10 + digit_val(w.last())
    }
}

/// Value of a run of hexadecimal digits.
pub open spec fn hex_value(w: Seq<char>) -> nat
    decreases w.len(),
{
    if w.len() == 0 {
        0
    } else {
        hex_value(w.drop_last()) * 16 + hex_val(w.last())
    }
}

/// `n`, capped at `usize::MAX`.
pub open spec fn cap(n: nat) -> usize {
    if n <= usize::MAX {
        n as usize
    } else {
        usize::MAX
    }
}

/// Number of decimal digits of `s` from index `i` on.
pub open spec fn digit_run(s: Seq<char>, i: int) -> nat
    decreases s.len() - i,
{
    if 0 <= i < s.len() && digit_char_at(s[i]) {
        1 + digit_run(s, i + 1)
    } else {
        0
    }
}

/// Number of hexadecimal digits of `s` from index `i` on.
pub open spec fn hex_run(s: Seq<char>, i: int) -> nat
    decreases s.len() - i,
{
    if 0 <= i < s.len() && hex_char(s[i]) {
        1 + hex_run(s, i + 1)
    } else {
        0
    }
}

pub open spec fn has_prefix(w: Seq<char>, p: Seq<char>) -> bool {
    p.len() <= w.len() && w.take(p.len() as int) == p
}

/// `uint`/`int` with an optional width, 256 when it is omitted.
pub open spec fn int_keyword(signed: bool, digits: Seq<char>) -> Keyword {
    let v = if digits.len() == 0 {
        256
    } else {
        dec_value(digits)
    };
    if 1 <= v <= 256 {
        if signed {
            Keyword::Scalar(ParamType::Int(v as usize))
        } else {
            Keyword::Scalar(ParamType::Uint(v as usize))
        }
    } else {
        Keyword::OutOfRange(
            if signed {
                RangeKind::Int
            } else {
                RangeKind::Uint
            },
            cap(v),
        )
    }
}

pub open spec fn varint_keyword(signed: bool, digits: Seq<char>) -> Keyword {
    let v = dec_value(digits);
    if v == 16 || v == 32 {
        if signed {
            Keyword::Scalar(ParamType::VarInt(v as usize))
        } else {
            Keyword::Scalar(ParamType::VarUint(v as usize))
        }
    } else {
        Keyword::OutOfRange(
            if signed {
                RangeKind::VarInt
            } else {
                RangeKind::VarUint
            },
            cap(v),
        )
    }
}

pub open spec fn fixedbytes_keyword(digits: Seq<char>) -> Keyword {
    let v = dec_value(digits);
    if 1 <= v <= 32 {
        Keyword::Scalar(ParamType::FixedBytes(v as usize))
    } else {
        Keyword::OutOfRange(RangeKind::FixedBytes, cap(v))
    }
}

/// A sized keyword: `p` followed by decimal digits (at least one if `need`).
pub open spec fn sized(w: Seq<char>, p: Seq<char>, need: bool) -> bool {
    has_prefix(w, p) && all_digits(w.skip(p.len() as int)) && (!need || w.len() > p.len())
}

/// What the identifier `w` denotes inside a type list.
#[verifier::opaque]
pub open spec fn classify(w: Seq<char>) -> Keyword {
    if w == "bool"@ {
        Keyword::Scalar(ParamType::Bool)
    } else if w == "address"@ || w == "addr"@ {
        Keyword::Scalar(ParamType::Address)
    } else if w == "cell"@ {
        Keyword::Scalar(ParamType::Cell)
    } else if w == "bytes"@ {
        Keyword::Scalar(ParamType::Bytes)
    } else if w == "string"@ {
        Keyword::Scalar(ParamType::String)
    } else if w == "gram"@ || w == "token"@ {
        Keyword::Scalar(ParamType::Token)
    } else if w == "optional"@ {
        Keyword::Optional
    } else if w == "ref"@ {
        Keyword::Ref
    } else if w == "map"@ {
        Keyword::Mapping
    } else if w == "tuple"@ {
        Keyword::Tuple
    } else if sized(w, "varuint"@, true) {
        varint_keyword(false, w.skip(7))
    } else if sized(w, "varint"@, true) {
        varint_keyword(true, w.skip(6))
    } else if sized(w, "fixedbytes"@, true) {
        fixedbytes_keyword(w.skip(10))
    } else if sized(w, "uint"@, false) {
        int_keyword(false, w.skip(4))
    } else if sized(w, "u"@, false) {
        int_keyword(false, w.skip(1))
    } else if sized(w, "int"@, false) {
        int_keyword(true, w.skip(3))
    } else if sized(w, "i"@, false) {
        int_keyword(true, w.skip(1))
    } else {
        Keyword::Unknown
    }
}

/// The synthesized name of the `k`-th value of a list.
pub open spec fn value_name(k: nat) -> Seq<char> {
    "value"@ + dec(k)
}

/// A type list with synthesized names.
pub open spec fn name_fields(items: Seq<Ty>) -> Seq<Field> {
    Seq::new(items.len(), |k: int| Field { name: value_name(k as nat), ty: items[k] })
}

/// Array and fixed-array suffixes after a type that ended at index `i`.
pub open spec fn p_suffix(s: Seq<char>, i: int, t: Ty) -> Result<(Ty, int), PErr>
    decreases s.len() - i,
{
    let k = skip_ws(s, i);
    if 0 <= i <= k < s.len() && s[k] == '[' {
        let m = skip_ws(s, k + 1);
        if m < s.len() && s[m] == ']' {
            p_suffix(s, m + 1, Ty::Array(Box::new(t)))
        } else if m < s.len() && digit_char_at(s[m]) {
            let n = digit_run(s, m);
            let v = dec_value(s.subrange(m, m + n));
            let e = skip_ws(s, m + n);
            if v > usize::MAX {
                Err(PErr::ValueOutOfRange(RangeKind::FixedArray, usize::MAX as nat, pos(s, m)))
            } else if e < s.len() && s[e] == ']' && e > i {
                p_suffix(s, e + 1, Ty::FixedArray(Box::new(t), v))
            } else {
                Err(err_at(s, e))
            }
        } else {
            Err(err_at(s, m))
        }
    } else {
        Ok((t, i))
    }
}

/// One type starting at index `i` (not whitespace), `d` groups deep.
pub open spec fn p_type(s: Seq<char>, i: int, d: nat) -> Result<(Ty, int), PErr>
    decreases s.len() - i, 1nat,
{
    if i < 0 || i >= s.len() {
        Err(err_at(s, i))
    } else if s[i] == '(' {
        if d >= MAX_TUPLE_LEVEL {
            Err(PErr::TooDeepNesting(d + 1, pos(s, i)))
        } else {
            match p_list(s, i + 1, d + 1) {
                Err(e) => Err(e),
                Ok((items, j)) => if i < j < s.len() && s[j] == ')' {
                    p_suffix(s, j + 1, Ty::Tuple(name_fields(items)))
                } else {
                    Err(err_at(s, j))
                },
            }
        }
    } else if ident_start_char(s[i]) {
        let j = i + token_at(s, i).1;
        match classify(s.subrange(i, j)) {
            Keyword::Scalar(t) => p_suffix(s, j, crate::types::ty_of(t)),
            Keyword::OutOfRange(kind, v) => Err(PErr::ValueOutOfRange(kind, v as nat, pos(s, i))),
            Keyword::Optional => p_wrapped(s, i, j, d, false),
            Keyword::Ref => p_wrapped(s, i, j, d, true),
            Keyword::Mapping => p_map(s, i, j, d),
            Keyword::Tuple => {
                let k = skip_ws(s, j);
                if i < k < s.len() && s[k] == '(' {
                    p_type(s, k, d)
                } else {
                    Err(err_at(s, k))
                }
            },
            Keyword::Unknown => Err(PErr::UnknownIdentifier(s.subrange(i, j), pos(s, i))),
        }
    } else {
        Err(err_at(s, i))
    }
}

/// `optional(T)` or `ref(T)`, whose keyword spans `i..j`.
pub open spec fn p_wrapped(s: Seq<char>, i: int, j: int, d: nat, is_ref: bool) -> Result<
    (Ty, int),
    PErr,
>
    decreases s.len() - i, 0nat,
{
    let k = skip_ws(s, j);
    if !(0 <= i < j <= k < s.len() && s[k] == '(') {
        Err(err_at(s, k))
    } else if d >= MAX_TUPLE_LEVEL {
        Err(PErr::TooDeepNesting(d + 1, pos(s, k)))
    } else {
        let k1 = skip_ws(s, k + 1);
        if k1 > s.len() {
            Err(err_at(s, k1))
        } else {
        match p_type(s, k1, d + 1) {
            Err(e) => Err(e),
            Ok((t, m)) => {
                let m2 = skip_ws(s, m);
                if i < m2 < s.len() && s[m2] == ')' {
                    p_suffix(
                        s,
                        m2 + 1,
                        if is_ref {
                            Ty::Ref(Box::new(t))
                        } else {
                            Ty::Optional(Box::new(t))
                        },
                    )
                } else {
                    Err(err_at(s, m2))
                }
            },
        }
        }
    }
}

/// Map keys are integers or addresses.
pub open spec fn map_key_allowed(t: Ty) -> bool {
    t is Uint || t is Int || t is Address
}

/// `map(K, V)`, whose keyword spans `i..j`; a key of another type is
/// reported at the key's first token.
pub open spec fn p_map(s: Seq<char>, i: int, j: int, d: nat) -> Result<(Ty, int), PErr>
    decreases s.len() - i, 0nat,
{
    let k = skip_ws(s, j);
    if !(0 <= i < j <= k < s.len() && s[k] == '(') {
        Err(err_at(s, k))
    } else if d >= MAX_TUPLE_LEVEL {
        Err(PErr::TooDeepNesting(d + 1, pos(s, k)))
    } else {
        let k1 = skip_ws(s, k + 1);
        if k1 > s.len() {
            Err(err_at(s, k1))
        } else {
        match p_type(s, k1, d + 1) {
            Err(e) => Err(e),
            Ok((key, m)) => {
                let m2 = skip_ws(s, m);
                let m3 = skip_ws(s, m2 + 1);
                if !map_key_allowed(key) {
                    Err(err_at(s, k1))
                } else if !(i < m2 < s.len() && s[m2] == ',') {
                    Err(err_at(s, m2))
                } else if m3 > s.len() {
                    Err(err_at(s, m3))
                } else {
                    match p_type(s, m3, d + 1) {
                        Err(e) => Err(e),
                        Ok((value, e)) => {
                            let e2 = skip_ws(s, e);
                            if i < e2 < s.len() && s[e2] == ')' {
                                p_suffix(
                                    s,
                                    e2 + 1,
                                    Ty::Mapping(Box::new(key), Box::new(value)),
                                )
                            } else {
                                Err(err_at(s, e2))
                            }
                        },
                    }
                }
            },
        }
        }
    }
}

/// A non-empty comma-separated type list from index `i`; ends after trailing whitespace.
pub open spec fn p_list(s: Seq<char>, i: int, d: nat) -> Result<(Seq<Ty>, int), PErr>
    decreases s.len() - i, 2nat,
{
    if i < 0 || skip_ws(s, i) > s.len() {
        Err(err_at(s, i))
    } else {
        match p_type(s, skip_ws(s, i), d) {
            Err(e) => Err(e),
            Ok((t, j)) => {
                let m = skip_ws(s, j);
                if i < m < s.len() && s[m] == ',' {
                    match p_list(s, m + 1, d) {
                        Err(e) => Err(e),
                        Ok((rest, e)) => Ok((seq![t] + rest, e)),
                    }
                } else {
                    Ok((seq![t], m))
                }
            },
        }
    }
}

/// A possibly empty parameter list after an opening parenthesis at `i - 1`.
pub open spec fn p_params(s: Seq<char>, i: int) -> Result<(Seq<Ty>, int), PErr> {
    let k = skip_ws(s, i);
    if k < s.len() && s[k] == ')' {
        Ok((seq![], k))
    } else {
        p_list(s, i, 1)
    }
}

/// The version that a tag names.
pub open spec fn version_of(tag: Seq<char>) -> Option<VersionV> {
    if tag == "v1"@ || tag == "v1.0"@ {
        Some(VersionV { major: 1, minor: 0 })
    } else if tag == "v2.0"@ {
        Some(VersionV { major: 2, minor: 0 })
    } else if tag == "v2.1"@ {
        Some(VersionV { major: 2, minor: 1 })
    } else if tag == "v2"@ || tag == "v2.2"@ {
        Some(VersionV { major: 2, minor: 2 })
    } else if tag == "v2.3"@ {
        Some(VersionV { major: 2, minor: 3 })
    } else {
        None
    }
}

/// The version used when a function names none.
pub open spec fn default_version() -> VersionV {
    VersionV { major: 2, minor: 2 }
}

/// Canonical signature of a function.
pub open spec fn function_sig(
    name: Seq<char>,
    inputs: Seq<Field>,
    outputs: Seq<Field>,
    major: nat,
) -> Seq<char> {
    name + "("@ + sig_list(inputs) + ")("@ + sig_list(outputs) + ")v"@ + dec(major)
}

/// Big-endian value of the first four bytes of `h`.
pub open spec fn be_u32(h: Seq<u8>) -> u32 {
    (h[0] as nat * 0x1000000 + h[1] as nat * 0x10000 + h[2] as nat * 0x100 + h[3] as nat) as u32
}

/// The identifier derived from a canonical signature.
pub open spec fn signature_id(signature: Seq<char>) -> u32 {
    be_u32(crate::signature::sha256(vstd::utf8::encode_utf8(signature)))
}

pub open spec fn input_id_of(base: u32) -> u32 {
    base & 0x7FFF_FFFF
}

pub open spec fn output_id_of(base: u32) -> u32 {
    base | 0x8000_0000
}

/// A function with its identifiers: the explicit one, or both derived from its signature.
pub open spec fn make_function(
    name: Seq<char>,
    id: Option<u32>,
    inputs: Seq<Field>,
    outputs: Seq<Field>,
    v: VersionV,
) -> FunctionV {
    let base = signature_id(function_sig(name, inputs, outputs, v.major));
    FunctionV {
        name,
        abi_version: v,
        inputs,
        outputs,
        input_id: match id {
            Some(x) => x,
            None => input_id_of(base),
        },
        output_id: match id {
            Some(x) => x,
            None => output_id_of(base),
        },
    }
}

/// The optional version tag and the end of input, from index `e`.
pub open spec fn p_version(s: Seq<char>, e: int) -> Result<VersionV, PErr> {
    if e >= s.len() {
        Ok(default_version())
    } else if 0 <= e && ident_start_char(s[e]) {
        let n = e + token_at(s, e).1;
        let end = if n < s.len() && s[n] == '.' {
            n + 1 + digit_run(s, n + 1)
        } else {
            n
        };
        match version_of(s.subrange(e, end)) {
            None => Err(PErr::InvalidAbiVersion(pos(s, e))),
            Some(v) => {
                let f = skip_ws(s, end);
                if f < s.len() {
                    Err(err_at(s, f))
                } else {
                    Ok(v)
                }
            },
        }
    } else {
        Err(err_at(s, e))
    }
}

/// The explicit identifier after a function name ending at `j`, and where the inputs start.
pub open spec fn p_id(s: Seq<char>, j: int) -> Result<(Option<u32>, int), PErr> {
    let k = skip_ws(s, j);
    if 0 <= k < s.len() && s[k] == '#' {
        let h = hex_run(s, k + 1);
        if h == 0 || h > 8 {
            Err(PErr::InvalidNumericLiteral(s.subrange(k + 1, k + 1 + h), pos(s, k + 1)))
        } else {
            Ok((Some(hex_value(s.subrange(k + 1, k + 1 + h)) as u32), skip_ws(s, k + 1 + h)))
        }
    } else {
        Ok((None, k))
    }
}

/// A function declaration whose name starts at index `i`.
#[verifier::opaque]
pub open spec fn p_function(s: Seq<char>, i: int) -> Result<EntityV, PErr> {
    let j = i + token_at(s, i).1;
    let name = s.subrange(i, j);
    match p_id(s, j) {
        Err(e) => Err(e),
        Ok((id, k)) => if !(k < s.len() && s[k] == '(') {
            Err(err_at(s, k))
        } else {
            match p_params(s, k + 1) {
                Err(e) => Err(e),
                Ok((ins, a)) => if !(a < s.len() && s[a] == ')') {
                    Err(err_at(s, a))
                } else {
                    let b = skip_ws(s, a + 1);
                    if !(b < s.len() && s[b] == '(') {
                        Err(err_at(s, b))
                    } else {
                        match p_params(s, b + 1) {
                            Err(e) => Err(e),
                            Ok((outs, c)) => if !(c < s.len() && s[c] == ')') {
                                Err(err_at(s, c))
                            } else {
                                match p_version(s, skip_ws(s, c + 1)) {
                                    Err(e) => Err(e),
                                    Ok(v) => Ok(
                                        EntityV::Function(
                                            make_function(
                                                name,
                                                id,
                                                name_fields(ins),
                                                name_fields(outs),
                                                v,
                                            ),
                                        ),
                                    ),
                                }
                            },
                        }
                    }
                },
            }
        },
    }
}

/// The values of a top-level list: a list written in one pair of parentheses
/// stands for its items.
pub open spec fn cell_fields(items: Seq<Ty>, parenthesised: bool) -> Seq<Field> {
    if parenthesised && items.len() == 1 && items[0] is Tuple {
        items[0]->Tuple_0
    } else {
        name_fields(items)
    }
}

/// What the whole input denotes.
pub open spec fn p_entity(s: Seq<char>) -> Result<EntityV, PErr> {
    let i = skip_ws(s, 0);
    if i >= s.len() {
        Ok(EntityV::Empty)
    } else if ident_start_char(s[i]) && classify(s.subrange(i, i + token_at(s, i).1))
        is Unknown {
        p_function(s, i)
    } else {
        match p_list(s, i, 0) {
            Err(e) => Err(e),
            Ok((items, j)) => if j < s.len() {
                Err(err_at(s, j))
            } else {
                Ok(EntityV::Cell(cell_fields(items, s[i] == '(')))
            },
        }
    }
}

} // verus!
