//! Parses interface text into an entity: nothing, a list of types, or a
//! function declaration. The result is exactly `grammar::p_entity`.
use vstd::prelude::*;

use crate::grammar::{all_digits, cap, classify, dec_value, digit_char_at, digit_run, digit_val, err_at, has_prefix, hex_char, hex_run, hex_val, hex_value, make_function, name_fields, p_entity, p_function, p_id, p_list, p_map, p_params, p_suffix, p_type, p_version, p_wrapped, pos, sized, skip_ws, value_name, EntityV, FunctionV, Keyword, PErr, RangeKind, VersionV, MAX_TUPLE_LEVEL};
use crate::lexer::{first_token, is_ident_start, is_whitespace, lemma_token_at_bound, lemma_ws_run_bound, ws_run};
use crate::text::{byte_len, char_width, chars_of, lemma_byte_len_encode, lemma_byte_len_take, string_from_chars};
use crate::types::{fields_of, lemma_fields_of, push_decimal, push_str, Field, Param, ParamType, Ty};

verus! {

/// Why a text is not a valid interface notation. Positions are byte offsets.
#[derive(Debug)]
pub enum ParserError {
    UnexpectedToken { token: String, position: usize },
    UnexpectedEof { position: usize },
    InvalidNumericLiteral { literal: String, position: usize },
    ValueOutOfRange { kind: RangeKind, value: usize, position: usize },
    TooDeepNesting { depth: usize, position: usize },
    UnknownIdentifier { ident: String, position: usize },
    InvalidAbiVersion { position: usize },
}

/// An interface version.
#[derive(Copy, Clone, Debug, PartialEq, Eq, Structural)]
pub struct AbiVersion {
    pub major: u8,
    pub minor: u8,
}

impl View for AbiVersion {
    type V = VersionV;

    open spec fn view(&self) -> VersionV {
        VersionV { major: self.major as nat, minor: self.minor as nat }
    }
}

/// A parsed function declaration.
#[derive(Debug)]
pub struct Function {
    pub name: String,
    pub abi_version: AbiVersion,
    pub inputs: Vec<Param>,
    pub outputs: Vec<Param>,
    pub input_id: u32,
    pub output_id: u32,
}

impl View for Function {
    type V = FunctionV;

    open spec fn view(&self) -> FunctionV {
        FunctionV {
            name: self.name@,
            abi_version: self.abi_version@,
            inputs: fields_of(self.inputs@),
            outputs: fields_of(self.outputs@),
            input_id: self.input_id,
            output_id: self.output_id,
        }
    }
}

/// What a text denotes: nothing, a list of types, or a function.
#[derive(Debug)]
pub enum Entity {
    Empty,
    Cell(Vec<Param>),
    Function(Function),
}

impl View for Entity {
    type V = EntityV;

    open spec fn view(&self) -> EntityV {
        match self {
            Entity::Empty => EntityV::Empty,
            Entity::Cell(ps) => EntityV::Cell(fields_of(ps@)),
            Entity::Function(f) => EntityV::Function(f@),
        }
    }
}

impl View for ParserError {
    type V = PErr;

    open spec fn view(&self) -> PErr {
        match self {
            ParserError::UnexpectedToken { token, position } => PErr::UnexpectedToken(
                token@,
                *position as nat,
            ),
            ParserError::UnexpectedEof { position } => PErr::UnexpectedEof(*position as nat),
            ParserError::InvalidNumericLiteral { literal, position } => PErr::InvalidNumericLiteral(
                literal@,
                *position as nat,
            ),
            ParserError::ValueOutOfRange { kind, value, position } => PErr::ValueOutOfRange(
                *kind,
                *value as nat,
                *position as nat,
            ),
            ParserError::TooDeepNesting { depth, position } => PErr::TooDeepNesting(
                *depth as nat,
                *position as nat,
            ),
            ParserError::UnknownIdentifier { ident, position } => PErr::UnknownIdentifier(
                ident@,
                *position as nat,
            ),
            ParserError::InvalidAbiVersion { position } => PErr::InvalidAbiVersion(
                *position as nat,
            ),
        }
    }
}

pub open spec fn tys(v: Seq<ParamType>) -> Seq<Ty> {
    v.map_values(|t: ParamType| t@)
}

pub open spec fn ty_res(r: Result<(ParamType, usize), ParserError>, v: Result<(Ty, int), PErr>) -> bool {
    match r {
        Ok((t, j)) => v == Ok::<(Ty, int), PErr>((t@, j as int)),
        Err(e) => v == Err::<(Ty, int), PErr>(e@),
    }
}

pub open spec fn list_res(
    r: Result<(Vec<ParamType>, usize), ParserError>,
    v: Result<(Seq<Ty>, int), PErr>,
) -> bool {
    match r {
        Ok((ts, j)) => v == Ok::<(Seq<Ty>, int), PErr>((tys(ts@), j as int)),
        Err(e) => v == Err::<(Seq<Ty>, int), PErr>(e@),
    }
}

pub open spec fn text_ok(s: Seq<char>) -> bool {
    byte_len(s) <= usize::MAX
}

/// Byte offset of character index `i`.
fn position(s: &[char], i: usize) -> (r: usize)
    requires
        i <= s@.len(),
        text_ok(s@),
    ensures
        r == pos(s@, i as int),
{
    let mut k: usize = 0;
    let mut p: usize = 0;
    while k < i
        invariant
            k <= i <= s@.len(),
            text_ok(s@),
            p == byte_len(s@.take(k as int)),
        decreases i - k,
    {
        proof {
            lemma_byte_len_take(s@, k as int);
            crate::text::lemma_byte_len_mono(s@, k + 1, s@.len() as int);
            assert(s@.take(s@.len() as int) =~= s@);
        }
        p = p + char_width(s[k]);
        k = k + 1;
    }
    p
}

fn skip_whitespace(s: &[char], i: usize) -> (r: usize)
    requires
        i <= s@.len(),
    ensures
        r == skip_ws(s@, i as int),
        i <= r <= s@.len(),
{
    proof {
        lemma_ws_run_bound(s@, i as int);
    }
    let mut k = i;
    while k < s.len() && is_whitespace(s[k])
        invariant
            i <= k <= s@.len(),
            k + ws_run(s@, k as int) == i + ws_run(s@, i as int),
        decreases s@.len() - k,
    {
        k = k + 1;
    }
    k
}

/// The characters `a..b` as a string.
fn text_of(s: &[char], a: usize, b: usize) -> (r: String)
    requires
        a <= b <= s@.len(),
    ensures
        r@ == s@.subrange(a as int, b as int),
{
    let mut v: Vec<char> = Vec::new();
    let mut k = a;
    while k < b
        invariant
            a <= k <= b <= s@.len(),
            v@ == s@.subrange(a as int, k as int),
        decreases b - k,
    {
        v.push(s[k]);
        k = k + 1;
        proof {
            assert(v@ =~= s@.subrange(a as int, k as int));
        }
    }
    string_from_chars(v.as_slice())
}

fn error_at(s: &[char], i: usize) -> (r: ParserError)
    requires
        i <= s@.len(),
        text_ok(s@),
    ensures
        r@ == err_at(s@, i as int),
{
    let position = position(s, i);
    if i < s.len() {
        proof {
            lemma_token_at_bound(s@, i as int);
        }
        let (_, end) = first_token(s, i);
        ParserError::UnexpectedToken { token: text_of(s, i, end), position }
    } else {
        ParserError::UnexpectedEof { position }
    }
}

/// Whether the characters `a..b` spell `lit`.
fn word_is(s: &[char], a: usize, b: usize, lit: &str) -> (r: bool)
    requires
        a <= b <= s@.len(),
    ensures
        r == (s@.subrange(a as int, b as int) == lit@),
{
    let n = lit.unicode_len();
    if b - a != n {
        proof {
            assert(s@.subrange(a as int, b as int).len() != lit@.len());
        }
        return false;
    }
    let mut k: usize = 0;
    while k < n
        invariant
            k <= n == lit@.len() == b - a,
            a <= b <= s@.len(),
            forall|j: int| 0 <= j < k ==> s@[a + j] == lit@[j],
        decreases n - k,
    {
        if s[a + k] != lit.get_char(k) {
            proof {
                assert(s@.subrange(a as int, b as int)[k as int] != lit@[k as int]);
            }
            return false;
        }
        k = k + 1;
    }
    proof {
        assert(s@.subrange(a as int, b as int) =~= lit@);
    }
    true
}

/// Whether the characters `a..b` start with `lit`.
fn starts_with(s: &[char], a: usize, b: usize, lit: &str) -> (r: bool)
    requires
        a <= b <= s@.len(),
    ensures
        r == has_prefix(s@.subrange(a as int, b as int), lit@),
{
    let n = lit.unicode_len();
    if b - a < n {
        return false;
    }
    let r = word_is(s, a, a + n, lit);
    proof {
        assert(s@.subrange(a as int, b as int).take(n as int) =~= s@.subrange(
            a as int,
            a + n,
        ));
    }
    r
}

pub fn is_digit(c: char) -> (r: bool)
    ensures
        r == digit_char_at(c),
{
    '0' <= c && c <= '9'
}

pub fn is_hex_digit(c: char) -> (r: bool)
    ensures
        r == hex_char(c),
{
    ('0' <= c && c <= '9') || ('a' <= c && c <= 'f') || ('A' <= c && c <= 'F')
}

pub proof fn lemma_dec_value_push(w: Seq<char>, c: char)
    ensures
        dec_value(w.push(c)) == dec_value(w) * 10 + digit_val(c),
{
    assert(w.push(c).drop_last() =~= w);
}

/// Whether `a..b` are all decimal digits, and their value capped at `usize::MAX`.
fn digits_value(s: &[char], a: usize, b: usize) -> (r: (bool, usize, bool))
    requires
        a <= b <= s@.len(),
    ensures
        r.0 == all_digits(s@.subrange(a as int, b as int)),
        r.0 ==> r.1 == cap(dec_value(s@.subrange(a as int, b as int))),
        r.0 ==> r.2 == (dec_value(s@.subrange(a as int, b as int)) > usize::MAX),
{
    let mut k = a;
    let mut v: usize = 0;
    let mut over = false;
    while k < b
        invariant
            a <= k <= b <= s@.len(),
            all_digits(s@.subrange(a as int, k as int)),
            v == cap(dec_value(s@.subrange(a as int, k as int))),
            over == (dec_value(s@.subrange(a as int, k as int)) > usize::MAX),
        decreases b - k,
    {
        let c = s[k];
        if !is_digit(c) {
            proof {
                assert(s@.subrange(a as int, b as int)[k - a] == c);
            }
            return (false, 0, false);
        }
        let d = (c as u32 - '0' as u32) as usize;
        proof {
            let w = s@.subrange(a as int, k as int);
            assert(s@.subrange(a as int, k + 1) =~= w.push(c));
            lemma_dec_value_push(w, c);
            assert(d == digit_val(c));
            assert(d <= 9);
        }
        if v > (usize::MAX - d) / 10 {
            proof {
                let w = s@.subrange(a as int, k as int);
                assert(dec_value(w) >= v);
                assert(dec_value(w) * 10 + d > usize::MAX) by (nonlinear_arith)
                    requires
                        dec_value(w) >= v,
                        v > (usize::MAX - d) / 10,
                        d <= 9,
                ;
            }
            v = usize::MAX;
            over = true;
        } else {
            proof {
                let w = s@.subrange(a as int, k as int);
                if dec_value(w) > usize::MAX {
                    assert(v == usize::MAX);
                    assert(false) by (nonlinear_arith)
                        requires
                            v == usize::MAX,
                            v <= (usize::MAX - d) / 10,
                    ;
                }
                assert(v * 10 + d <= usize::MAX) by (nonlinear_arith)
                    requires
                        v <= (usize::MAX - d) / 10,
                        d <= 9,
                ;
            }
            v = v * 10 + d;
        }
        k = k + 1;
        proof {
            assert forall|j: int| 0 <= j < s@.subrange(a as int, k as int).len() implies digit_char_at(
                #[trigger] s@.subrange(a as int, k as int)[j],
            ) by {
                if j < k - 1 - a {
                    assert(s@.subrange(a as int, k as int)[j] == s@.subrange(
                        a as int,
                        k - 1,
                    )[j]);
                }
            }
        }
    }
    (true, v, over)
}

/// Whether `a..b` is `lit` followed by decimal digits (at least one if `need`),
/// and the value of those digits capped at `usize::MAX`.
fn sized_word(s: &[char], a: usize, b: usize, lit: &str, need: bool) -> (r: (bool, usize))
    requires
        a <= b <= s@.len(),
    ensures
        r.0 == sized(s@.subrange(a as int, b as int), lit@, need),
        r.0 ==> r.1 == cap(dec_value(s@.subrange(a as int, b as int).skip(lit@.len() as int))),
{
    let n = lit.unicode_len();
    if !starts_with(s, a, b, lit) {
        return (false, 0);
    }
    proof {
        assert(s@.subrange(a as int, b as int).skip(n as int) =~= s@.subrange(a + n, b as int));
    }
    let (ok, v, _) = digits_value(s, a + n, b);
    if !ok || (need && b - a <= n) {
        return (false, 0);
    }
    (true, v)
}

fn int_kw(signed: bool, empty: bool, digits: Ghost<Seq<char>>, v: usize) -> (r: Keyword)
    requires
        empty == (digits@.len() == 0),
        !empty ==> v == cap(dec_value(digits@)),
    ensures
        r == crate::grammar::int_keyword(signed, digits@),
{
    let w: usize = if empty {
        256
    } else {
        v
    };
    let ghost full: nat = if digits@.len() == 0 { 256 } else { dec_value(digits@) };
    if 1 <= w && w <= 256 {
        if signed {
            Keyword::Scalar(ParamType::Int(w))
        } else {
            Keyword::Scalar(ParamType::Uint(w))
        }
    } else {
        Keyword::OutOfRange(
            if signed {
                RangeKind::Int
            } else {
                RangeKind::Uint
            },
            w,
        )
    }
}

/// What the identifier at `a..b` denotes inside a type list.
pub fn classify_word(s: &[char], a: usize, b: usize) -> (r: Keyword)
    requires
        a <= b <= s@.len(),
    ensures
        r == classify(s@.subrange(a as int, b as int)),
{
    reveal(classify);
    let ghost w = s@.subrange(a as int, b as int);
    if word_is(s, a, b, "bool") {
        return Keyword::Scalar(ParamType::Bool);
    }
    if word_is(s, a, b, "address") || word_is(s, a, b, "addr") {
        return Keyword::Scalar(ParamType::Address);
    }
    if word_is(s, a, b, "cell") {
        return Keyword::Scalar(ParamType::Cell);
    }
    if word_is(s, a, b, "bytes") {
        return Keyword::Scalar(ParamType::Bytes);
    }
    if word_is(s, a, b, "string") {
        return Keyword::Scalar(ParamType::String);
    }
    if word_is(s, a, b, "gram") || word_is(s, a, b, "token") {
        return Keyword::Scalar(ParamType::Token);
    }
    if word_is(s, a, b, "optional") {
        return Keyword::Optional;
    }
    if word_is(s, a, b, "ref") {
        return Keyword::Ref;
    }
    if word_is(s, a, b, "map") {
        return Keyword::Mapping;
    }
    if word_is(s, a, b, "tuple") {
        return Keyword::Tuple;
    }
    proof {
        reveal_strlit("varuint");
        reveal_strlit("varint");
        reveal_strlit("fixedbytes");
        reveal_strlit("uint");
        reveal_strlit("u");
        reveal_strlit("int");
        reveal_strlit("i");
    }
    let (ok, v) = sized_word(s, a, b, "varuint", true);
    if ok {
        return if v == 16 || v == 32 {
            Keyword::Scalar(ParamType::VarUint(v))
        } else {
            Keyword::OutOfRange(RangeKind::VarUint, v)
        };
    }
    let (ok, v) = sized_word(s, a, b, "varint", true);
    if ok {
        return if v == 16 || v == 32 {
            Keyword::Scalar(ParamType::VarInt(v))
        } else {
            Keyword::OutOfRange(RangeKind::VarInt, v)
        };
    }
    let (ok, v) = sized_word(s, a, b, "fixedbytes", true);
    if ok {
        return if 1 <= v && v <= 32 {
            Keyword::Scalar(ParamType::FixedBytes(v))
        } else {
            Keyword::OutOfRange(RangeKind::FixedBytes, v)
        };
    }
    let (ok, v) = sized_word(s, a, b, "uint", false);
    if ok {
        return int_kw(false, b - a == 4, Ghost(w.skip(4)), v);
    }
    let (ok, v) = sized_word(s, a, b, "u", false);
    if ok {
        return int_kw(false, b - a == 1, Ghost(w.skip(1)), v);
    }
    let (ok, v) = sized_word(s, a, b, "int", false);
    if ok {
        return int_kw(true, b - a == 3, Ghost(w.skip(3)), v);
    }
    let (ok, v) = sized_word(s, a, b, "i", false);
    if ok {
        return int_kw(true, b - a == 1, Ghost(w.skip(1)), v);
    }
    Keyword::Unknown
}

pub proof fn lemma_digit_run_bound(s: Seq<char>, i: int)
    requires
        0 <= i <= s.len(),
    ensures
        i + digit_run(s, i) <= s.len(),
        forall|j: int| i <= j < i + digit_run(s, i) ==> digit_char_at(#[trigger] s[j]),
        i + digit_run(s, i) < s.len() ==> !digit_char_at(s[i + digit_run(s, i)]),
    decreases s.len() - i,
{
    if i < s.len() && digit_char_at(s[i]) {
        lemma_digit_run_bound(s, i + 1);
    }
}

pub proof fn lemma_hex_run_bound(s: Seq<char>, i: int)
    requires
        0 <= i <= s.len(),
    ensures
        i + hex_run(s, i) <= s.len(),
        forall|j: int| i <= j < i + hex_run(s, i) ==> hex_char(#[trigger] s[j]),
        i + hex_run(s, i) < s.len() ==> !hex_char(s[i + hex_run(s, i)]),
    decreases s.len() - i,
{
    if i < s.len() && hex_char(s[i]) {
        lemma_hex_run_bound(s, i + 1);
    }
}

/// The synthesized name of the `k`-th value of a list.
pub fn value_name_of(k: usize) -> (r: String)
    ensures
        r@ == value_name(k as nat),
{
    let mut v: Vec<char> = Vec::new();
    push_str(&mut v, "value");
    push_decimal(&mut v, k);
    string_from_chars(v.as_slice())
}

/// Gives the types of a list their synthesized names.
fn named_params(items: Vec<ParamType>) -> (r: Vec<Param>)
    ensures
        fields_of(r@) == name_fields(tys(items@)),
{
    let ghost orig = items@;
    let mut items = items;
    let mut out: Vec<Param> = Vec::new();
    let mut k: usize = 0;
    let n = items.len();
    while k < n
        invariant
            k <= n == orig.len(),
            items@ == orig.subrange(k as int, n as int),
            out@.len() == k,
            forall|j: int| 0 <= j < k ==> #[trigger] out@[j]@ == (Field {
                name: value_name(j as nat),
                ty: orig[j]@,
            }),
        decreases n - k,
    {
        let t = items.remove(0);
        let name = value_name_of(k);
        out.push(Param { name, kind: t });
        proof {
            assert(items@ =~= orig.subrange(k + 1, n as int));
        }
        k = k + 1;
    }
    proof {
        lemma_fields_of(out@);
        assert(fields_of(out@) =~= name_fields(tys(orig)));
    }
    out
}

/// Array and fixed-array suffixes after a type that ended at index `i`.
fn parse_suffix(s: &[char], i: usize, t: ParamType) -> (r: Result<(ParamType, usize), ParserError>)
    requires
        i <= s@.len(),
        text_ok(s@),
    ensures
        ty_res(r, p_suffix(s@, i as int, t@)),
        r is Ok ==> i <= r->Ok_0.1 <= s@.len(),
    decreases s@.len() - i,
{
    let k = skip_whitespace(s, i);
    if k < s.len() && s[k] == '[' {
        let m = skip_whitespace(s, k + 1);
        if m < s.len() && s[m] == ']' {
            let r = parse_suffix(s, m + 1, ParamType::Array(Box::new(t)));
            r
        } else if m < s.len() && is_digit(s[m]) {
            let mut e = m;
            proof {
                lemma_digit_run_bound(s@, m as int);
            }
            while e < s.len() && is_digit(s[e])
                invariant
                    m <= e <= s@.len(),
                    e + digit_run(s@, e as int) == m + digit_run(s@, m as int),
                decreases s@.len() - e,
            {
                e = e + 1;
            }
            proof {
                lemma_digit_run_bound(s@, m as int);
                assert(all_digits(s@.subrange(m as int, e as int)));
            }
            let (_, v, over) = digits_value(s, m, e);
            let e2 = skip_whitespace(s, e);
            if over {
                return Err(ParserError::ValueOutOfRange {
                    kind: RangeKind::FixedArray,
                    value: usize::MAX,
                    position: position(s, m),
                });
            }
            if e2 < s.len() && s[e2] == ']' {
                parse_suffix(s, e2 + 1, ParamType::FixedArray(Box::new(t), v))
            } else {
                Err(error_at(s, e2))
            }
        } else {
            Err(error_at(s, m))
        }
    } else {
        Ok((t, i))
    }
}

/// One type starting at index `i`, `d` groups deep.
fn parse_type(s: &[char], i: usize, d: usize) -> (r: Result<(ParamType, usize), ParserError>)
    requires
        i <= s@.len(),
        text_ok(s@),
        d <= MAX_TUPLE_LEVEL,
    ensures
        ty_res(r, p_type(s@, i as int, d as nat)),
        r is Ok ==> i < r->Ok_0.1 <= s@.len(),
    decreases s@.len() - i, 1nat,
{
    if i >= s.len() {
        return Err(error_at(s, i));
    }
    if s[i] == '(' {
        if d >= MAX_TUPLE_LEVEL {
            return Err(ParserError::TooDeepNesting { depth: d + 1, position: position(s, i) });
        }
        match parse_list(s, i + 1, d + 1) {
            Err(e) => Err(e),
            Ok((items, j)) => {
                if j < s.len() && s[j] == ')' {
                    let fields = named_params(items);
                    parse_suffix(s, j + 1, ParamType::Tuple(fields))
                } else {
                    Err(error_at(s, j))
                }
            },
        }
    } else if is_ident_start(s[i]) {
        proof {
            lemma_token_at_bound(s@, i as int);
        }
        let (_, j) = first_token(s, i);
        match classify_word(s, i, j) {
            Keyword::Scalar(t) => parse_suffix(s, j, t),
            Keyword::OutOfRange(kind, value) => Err(
                ParserError::ValueOutOfRange { kind, value, position: position(s, i) },
            ),
            Keyword::Optional => parse_wrapped(s, i, j, d, false),
            Keyword::Ref => parse_wrapped(s, i, j, d, true),
            Keyword::Mapping => parse_map(s, i, j, d),
            Keyword::Tuple => {
                let k = skip_whitespace(s, j);
                if k < s.len() && s[k] == '(' {
                    parse_type(s, k, d)
                } else {
                    Err(error_at(s, k))
                }
            },
            Keyword::Unknown => Err(
                ParserError::UnknownIdentifier { ident: text_of(s, i, j), position: position(s, i) },
            ),
        }
    } else {
        Err(error_at(s, i))
    }
}

/// `optional(T)` or `ref(T)`, whose keyword spans `i..j`.
fn parse_wrapped(s: &[char], i: usize, j: usize, d: usize, is_ref: bool) -> (r: Result<
    (ParamType, usize),
    ParserError,
>)
    requires
        i < j <= s@.len(),
        text_ok(s@),
        d <= MAX_TUPLE_LEVEL,
    ensures
        ty_res(r, p_wrapped(s@, i as int, j as int, d as nat, is_ref)),
        r is Ok ==> i < r->Ok_0.1 <= s@.len(),
    decreases s@.len() - i, 0nat,
{
    let k = skip_whitespace(s, j);
    if !(k < s.len() && s[k] == '(') {
        return Err(error_at(s, k));
    }
    if d >= MAX_TUPLE_LEVEL {
        return Err(ParserError::TooDeepNesting { depth: d + 1, position: position(s, k) });
    }
    let k1 = skip_whitespace(s, k + 1);
    match parse_type(s, k1, d + 1) {
        Err(e) => Err(e),
        Ok((t, m)) => {
            let m2 = skip_whitespace(s, m);
            if m2 < s.len() && s[m2] == ')' {
                let w = if is_ref {
                    ParamType::Ref(Box::new(t))
                } else {
                    ParamType::Optional(Box::new(t))
                };
                parse_suffix(s, m2 + 1, w)
            } else {
                Err(error_at(s, m2))
            }
        },
    }
}

/// `map(K, V)`, whose keyword spans `i..j`.
fn parse_map(s: &[char], i: usize, j: usize, d: usize) -> (r: Result<(ParamType, usize), ParserError>)
    requires
        i < j <= s@.len(),
        text_ok(s@),
        d <= MAX_TUPLE_LEVEL,
    ensures
        ty_res(r, p_map(s@, i as int, j as int, d as nat)),
        r is Ok ==> i < r->Ok_0.1 <= s@.len(),
    decreases s@.len() - i, 0nat,
{
    let k = skip_whitespace(s, j);
    if !(k < s.len() && s[k] == '(') {
        return Err(error_at(s, k));
    }
    if d >= MAX_TUPLE_LEVEL {
        return Err(ParserError::TooDeepNesting { depth: d + 1, position: position(s, k) });
    }
    let k1 = skip_whitespace(s, k + 1);
    match parse_type(s, k1, d + 1) {
        Err(e) => Err(e),
        Ok((key, m)) => {
            let allowed = match &key {
                ParamType::Uint(_) | ParamType::Int(_) | ParamType::Address => true,
                _ => false,
            };
            if !allowed {
                return Err(error_at(s, k1));
            }
            let m2 = skip_whitespace(s, m);
            if !(m2 < s.len() && s[m2] == ',') {
                return Err(error_at(s, m2));
            }
            let m3 = skip_whitespace(s, m2 + 1);
            match parse_type(s, m3, d + 1) {
                Err(e) => Err(e),
                Ok((value, e)) => {
                    let e2 = skip_whitespace(s, e);
                    if e2 < s.len() && s[e2] == ')' {
                        parse_suffix(s, e2 + 1, ParamType::Mapping(Box::new(key), Box::new(value)))
                    } else {
                        Err(error_at(s, e2))
                    }
                },
            }
        },
    }
}

/// A non-empty comma-separated type list from index `i`.
fn parse_list(s: &[char], i: usize, d: usize) -> (r: Result<(Vec<ParamType>, usize), ParserError>)
    requires
        i <= s@.len(),
        text_ok(s@),
        d <= MAX_TUPLE_LEVEL,
    ensures
        list_res(r, p_list(s@, i as int, d as nat)),
        r is Ok ==> i < r->Ok_0.1 <= s@.len(),
    decreases s@.len() - i, 2nat,
{
    let k = skip_whitespace(s, i);
    match parse_type(s, k, d) {
        Err(e) => Err(e),
        Ok((t, j)) => {
            let m = skip_whitespace(s, j);
            if m < s.len() && s[m] == ',' {
                match parse_list(s, m + 1, d) {
                    Err(e) => Err(e),
                    Ok((rest, e)) => {
                        let mut v: Vec<ParamType> = Vec::new();
                        v.push(t);
                        let ghost t_v = t@;
                        let ghost rest_v = rest@;
                        let mut rest = rest;
                        v.append(&mut rest);
                        proof {
                            assert(tys(v@) =~= seq![t_v] + tys(rest_v));
                        }
                        Ok((v, e))
                    },
                }
            } else {
                let mut v: Vec<ParamType> = Vec::new();
                let ghost t_v = t@;
                v.push(t);
                proof {
                    assert(tys(v@) =~= seq![t_v]);
                }
                Ok((v, m))
            }
        },
    }
}

pub open spec fn pow16(n: nat) -> nat
    decreases n,
{
    if n == 0 {
        1
    } else {
        16 * pow16((n - 1) as nat)
    }
}

/// The explicit identifier after a function name ending at `j`, and where the inputs start.
fn parse_id(s: &[char], j: usize) -> (r: Result<(Option<u32>, usize), ParserError>)
    requires
        j <= s@.len(),
        text_ok(s@),
    ensures
        match r {
            Ok((id, k)) => p_id(s@, j as int) == Ok::<(Option<u32>, int), PErr>((id, k as int))
                && k <= s@.len(),
            Err(e) => p_id(s@, j as int) == Err::<(Option<u32>, int), PErr>(e@),
        },
{
    let k = skip_whitespace(s, j);
    if !(k < s.len() && s[k] == '#') {
        return Ok((None, k));
    }
    proof {
        lemma_hex_run_bound(s@, k + 1);
    }
    let mut e = k + 1;
    let mut v: u64 = 0;
    while e < s.len() && is_hex_digit(s[e])
        invariant
            k + 1 <= e <= s@.len(),
            e + hex_run(s@, e as int) == k + 1 + hex_run(s@, k + 1),
            e - (k + 1) <= 8 ==> v == hex_value(s@.subrange(k + 1, e as int)),
            e - (k + 1) <= 8 ==> v < pow16((e - (k + 1)) as nat),
        decreases s@.len() - e,
    {
        let c = s[e];
        let d: u64 = if '0' <= c && c <= '9' {
            (c as u32 - '0' as u32) as u64
        } else if 'a' <= c && c <= 'f' {
            (c as u32 - 'a' as u32 + 10) as u64
        } else {
            (c as u32 - 'A' as u32 + 10) as u64
        };
        proof {
            reveal_with_fuel(pow16, 9);
        }
        if e - (k + 1) < 8 {
            proof {
                let w = s@.subrange(k + 1, e as int);
                assert(s@.subrange(k + 1, e + 1) =~= w.push(c));
                assert(w.push(c).drop_last() =~= w);
                assert(d == hex_val(c));
                assert(d < 16);
                let n = (e - (k + 1)) as nat;
                assert(pow16(n) <= 0x1000_0000) by {
                    lemma_pow16_mono(n, 7);
                }
                assert(v * 16 + d < pow16(n) * 16) by (nonlinear_arith)
                    requires
                        v < pow16(n),
                        d < 16,
                ;
                assert(pow16(n + 1) == 16 * pow16(n));
            }
            v = v * 16 + d;
        }
        e = e + 1;
    }
    let h = e - (k + 1);
    if h == 0 || h > 8 {
        return Err(ParserError::InvalidNumericLiteral {
            literal: text_of(s, k + 1, e),
            position: position(s, k + 1),
        });
    }
    proof {
        reveal_with_fuel(pow16, 9);
        lemma_pow16_mono(h as nat, 8);
    }
    let k2 = skip_whitespace(s, e);
    Ok((Some(v as u32), k2))
}

pub proof fn lemma_pow16_mono(a: nat, b: nat)
    requires
        a <= b,
    ensures
        pow16(a) <= pow16(b),
    decreases b,
{
    if a < b {
        lemma_pow16_mono(a, (b - 1) as nat);
    }
}

/// The optional version tag and the end of input, from index `e`.
fn parse_version(s: &[char], e: usize) -> (r: Result<AbiVersion, ParserError>)
    requires
        e <= s@.len(),
        text_ok(s@),
    ensures
        match r {
            Ok(v) => p_version(s@, e as int) == Ok::<VersionV, PErr>(v@),
            Err(err) => p_version(s@, e as int) == Err::<VersionV, PErr>(err@),
        },
{
    if e >= s.len() {
        return Ok(AbiVersion { major: 2, minor: 2 });
    }
    if !is_ident_start(s[e]) {
        return Err(error_at(s, e));
    }
    proof {
        lemma_token_at_bound(s@, e as int);
    }
    let (_, n) = first_token(s, e);
    let mut end = n;
    if n < s.len() && s[n] == '.' {
        proof {
            lemma_digit_run_bound(s@, n + 1);
        }
        end = n + 1;
        while end < s.len() && is_digit(s[end])
            invariant
                n + 1 <= end <= s@.len(),
                end + digit_run(s@, end as int) == n + 1 + digit_run(s@, n + 1),
            decreases s@.len() - end,
        {
            end = end + 1;
        }
    }
    let version = if word_is(s, e, end, "v1") || word_is(s, e, end, "v1.0") {
        AbiVersion { major: 1, minor: 0 }
    } else if word_is(s, e, end, "v2.0") {
        AbiVersion { major: 2, minor: 0 }
    } else if word_is(s, e, end, "v2.1") {
        AbiVersion { major: 2, minor: 1 }
    } else if word_is(s, e, end, "v2") || word_is(s, e, end, "v2.2") {
        AbiVersion { major: 2, minor: 2 }
    } else if word_is(s, e, end, "v2.3") {
        AbiVersion { major: 2, minor: 3 }
    } else {
        return Err(ParserError::InvalidAbiVersion { position: position(s, e) });
    };
    let f = skip_whitespace(s, end);
    if f < s.len() {
        return Err(error_at(s, f));
    }
    Ok(version)
}

/// A possibly empty parameter list after an opening parenthesis at `i - 1`.
fn parse_params(s: &[char], i: usize) -> (r: Result<(Vec<ParamType>, usize), ParserError>)
    requires
        i <= s@.len(),
        text_ok(s@),
    ensures
        list_res(r, p_params(s@, i as int)),
        r is Ok ==> r->Ok_0.1 <= s@.len(),
{
    let k = skip_whitespace(s, i);
    if k < s.len() && s[k] == ')' {
        let v: Vec<ParamType> = Vec::new();
        proof {
            assert(tys(v@) =~= seq![]);
        }
        Ok((v, k))
    } else {
        parse_list(s, i, 1)
    }
}

/// A function with its identifiers: the explicit one, or both derived from its signature.
pub fn build_function(
    name: String,
    id: Option<u32>,
    inputs: Vec<Param>,
    outputs: Vec<Param>,
    abi_version: AbiVersion,
) -> (r: Function)
    ensures
        r@ == make_function(name@, id, fields_of(inputs@), fields_of(outputs@), abi_version@),
{
    let (input_id, output_id) = match id {
        Some(x) => (x, x),
        None => {
            let signature = crate::signature::get_function_signature(
                name.as_str(),
                &inputs,
                &outputs,
                abi_version.major,
            );
            let base = crate::signature::calc_function_id(signature.as_str());
            crate::signature::split_function_id(base)
        },
    };
    Function { name, abi_version, inputs, outputs, input_id, output_id }
}

/// A function declaration whose name starts at index `i`.
fn parse_function(s: &[char], i: usize) -> (r: Result<Entity, ParserError>)
    requires
        i < s@.len(),
        text_ok(s@),
    ensures
        match r {
            Ok(en) => p_function(s@, i as int) == Ok::<EntityV, PErr>(en@),
            Err(e) => p_function(s@, i as int) == Err::<EntityV, PErr>(e@),
        },
{
    proof {
        lemma_token_at_bound(s@, i as int);
        reveal(p_function);
    }
    let (_, j) = first_token(s, i);
    let name = text_of(s, i, j);
    let (id, k) = match parse_id(s, j) {
        Err(e) => return Err(e),
        Ok(x) => x,
    };
    if !(k < s.len() && s[k] == '(') {
        return Err(error_at(s, k));
    }
    let (ins, a) = match parse_params(s, k + 1) {
        Err(e) => return Err(e),
        Ok(x) => x,
    };
    if !(a < s.len() && s[a] == ')') {
        return Err(error_at(s, a));
    }
    let b = skip_whitespace(s, a + 1);
    if !(b < s.len() && s[b] == '(') {
        return Err(error_at(s, b));
    }
    let (outs, c) = match parse_params(s, b + 1) {
        Err(e) => return Err(e),
        Ok(x) => x,
    };
    if !(c < s.len() && s[c] == ')') {
        return Err(error_at(s, c));
    }
    let e = skip_whitespace(s, c + 1);
    let version = match parse_version(s, e) {
        Err(err) => return Err(err),
        Ok(v) => v,
    };
    let inputs = named_params(ins);
    let outputs = named_params(outs);
    Ok(Entity::Function(build_function(name, id, inputs, outputs, version)))
}

/// Parses interface text: empty or whitespace-only text is `Empty`; text that
/// starts with an identifier that names no type is a function declaration;
/// anything else is a list of types.
pub fn parse(input: &str) -> (r: Result<Entity, ParserError>)
    ensures
        match r {
            Ok(en) => p_entity(input@) == Ok::<EntityV, PErr>(en@),
            Err(e) => p_entity(input@) == Err::<EntityV, PErr>(e@),
        },
{
    let chars = chars_of(input);
    let _n_bytes = input.as_bytes().len();
    proof {
        lemma_byte_len_encode(input@);
    }
    let s = chars.as_slice();
    let i = skip_whitespace(s, 0);
    if i >= s.len() {
        return Ok(Entity::Empty);
    }
    if is_ident_start(s[i]) {
        proof {
            lemma_token_at_bound(s@, i as int);
        }
        let (_, j) = first_token(s, i);
        if let Keyword::Unknown = classify_word(s, i, j) {
            return parse_function(s, i);
        }
    }
    match parse_list(s, i, 0) {
        Err(e) => Err(e),
        Ok((items, j)) => {
            if j < s.len() {
                return Err(error_at(s, j));
            }
            let mut items = items;
            if s[i] == '(' && items.len() == 1 {
                let ghost v = items@;
                let t = items.pop().unwrap();
                proof {
                    assert(v[0] == t);
                }
                match t {
                    ParamType::Tuple(ps) => {
                        return Ok(Entity::Cell(ps));
                    },
                    other => {
                        let mut single: Vec<ParamType> = Vec::new();
                        single.push(other);
                        proof {
                            assert(tys(single@) =~= tys(v));
                        }
                        return Ok(Entity::Cell(named_params(single)));
                    },
                }
            }
            Ok(Entity::Cell(named_params(items)))
        },
    }
}

impl Entity {
    /// Parses interface text; see `parse`.
    pub fn parse(input: &str) -> (r: Result<Entity, ParserError>)
        ensures
            match r {
                Ok(en) => p_entity(input@) == Ok::<EntityV, PErr>(en@),
                Err(e) => p_entity(input@) == Err::<EntityV, PErr>(e@),
            },
    {
        parse(input)
    }
}

} // verus!
