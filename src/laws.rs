//! Properties of the notation that hold for all inputs.
use vstd::prelude::*;

use crate::grammar::{all_digits, cap, classify, dec_value, digit_char_at, int_keyword, name_fields, p_entity, p_list, p_suffix, p_type, pos, sized, skip_ws, value_name, EntityV, Keyword, PErr, RangeKind};
use crate::lexer::{
    ident_continue_char, ident_run, ident_start_char, token_at, whitespace_char, ws_run,
};
use crate::parser::lemma_dec_value_push;
use crate::text::byte_len;
use crate::codegen::{find_key, g_fields, g_inner, g_structs, g_type, struct_key, GenState, MetaV, StructV};
use crate::properties::PropV;
use crate::types::{dec, digit_char, Field, ParamType, Ty};

verus! {

pub proof fn lemma_ws_run_all(s: Seq<char>, i: int)
    requires
        0 <= i <= s.len(),
        forall|j: int| i <= j < s.len() ==> whitespace_char(#[trigger] s[j]),
    ensures
        ws_run(s, i) == s.len() - i,
    decreases s.len() - i,
{
    if i < s.len() {
        lemma_ws_run_all(s, i + 1);
    }
}

pub proof fn lemma_ident_run_all(s: Seq<char>, i: int)
    requires
        0 <= i <= s.len(),
        forall|j: int| i <= j < s.len() ==> ident_continue_char(#[trigger] s[j]),
    ensures
        ident_run(s, i) == s.len() - i,
    decreases s.len() - i,
{
    if i < s.len() {
        lemma_ident_run_all(s, i + 1);
    }
}

pub proof fn lemma_dec_digits(n: nat)
    ensures
        dec(n).len() >= 1,
        all_digits(dec(n)),
        dec_value(dec(n)) == n,
        forall|i: int| 0 <= i < dec(n).len() ==> ident_continue_char(#[trigger] dec(n)[i]),
    decreases n,
{
    if n < 10 {
        assert(dec(n) == seq![digit_char(n)]);
        assert(dec(n).drop_last() =~= Seq::<char>::empty());
        assert(dec_value(dec(n).drop_last()) == 0);
    } else {
        lemma_dec_digits(n / 10);
        let d = digit_char((n % 10) as nat);
        lemma_dec_value_push(dec(n / 10), d);
        assert forall|i: int| 0 <= i < dec(n).len() implies digit_char_at(#[trigger] dec(n)[i]) by {
            if i < dec(n / 10).len() {
                assert(dec(n)[i] == dec(n / 10)[i]);
            }
        }
    }
}

/// Text made only of whitespace, the empty text included, denotes nothing.
/// Whitespace is the lexer's set together with every character that
/// `char::is_whitespace` accepts (Unicode `White_Space`).
pub proof fn lemma_blank_input_is_empty(s: Seq<char>)
    requires
        forall|i: int|
            0 <= i < s.len() ==> whitespace_char(#[trigger] s[i])
                || crate::properties::unicode_space(s[i]),
    ensures
        p_entity(s) == Ok::<EntityV, PErr>(EntityV::Empty),
{
    assert forall|i: int| 0 <= i < s.len() implies whitespace_char(#[trigger] s[i]) by {
        if crate::properties::unicode_space(s[i]) {
        }
    }
    lemma_ws_run_all(s, 0);
}

/// The text of an integer type of width `w`.
pub open spec fn int_text(signed: bool, w: nat) -> Seq<char> {
    (if signed {
        "int"@
    } else {
        "uint"@
    }) + dec(w)
}

pub proof fn lemma_int_text_chars(signed: bool, w: nat)
    ensures
        int_text(signed, w)[0] == (if signed { 'i' } else { 'u' }),
        int_text(signed, w)[1] == (if signed { 'n' } else { 'i' }),
        ident_start_char(int_text(signed, w)[0]),
        ident_run(int_text(signed, w), 1) == int_text(signed, w).len() - 1,
        int_text(signed, w).len() >= 3,
{
    reveal_strlit("int");
    reveal_strlit("uint");
    let p = if signed {
        "int"@
    } else {
        "uint"@
    };
    let s = int_text(signed, w);
    let n = p.len() as int;
    lemma_dec_digits(w);
    assert forall|j: int| 0 <= j < s.len() implies ident_continue_char(#[trigger] s[j]) by {
        if j >= n {
            assert(s[j] == dec(w)[j - n]);
        } else {
            assert(s[j] == p[j]);
        }
    }
    lemma_ident_run_all(s, 1);
    assert(s[0] == p[0]);
    assert(s[1] == p[1]);
}

pub proof fn lemma_classify_int_text(signed: bool, w: nat)
    ensures
        classify(int_text(signed, w)) == int_keyword(signed, dec(w)),
{
    reveal(classify);
    reveal_strlit("int");
    reveal_strlit("uint");
    reveal_strlit("bool");
    reveal_strlit("address");
    reveal_strlit("addr");
    reveal_strlit("cell");
    reveal_strlit("bytes");
    reveal_strlit("string");
    reveal_strlit("gram");
    reveal_strlit("token");
    reveal_strlit("optional");
    reveal_strlit("ref");
    reveal_strlit("map");
    reveal_strlit("tuple");
    reveal_strlit("varuint");
    reveal_strlit("varint");
    reveal_strlit("fixedbytes");
    reveal_strlit("u");
    let s = int_text(signed, w);
    lemma_int_text_chars(signed, w);
    lemma_dec_digits(w);
    let p = if signed {
        "int"@
    } else {
        "uint"@
    };
    let n = p.len() as int;
    assert(s.skip(n) =~= dec(w));
    assert(s.take(n) =~= p);
    assert(s != "bool"@ && s != "address"@ && s != "addr"@ && s != "cell"@ && s != "bytes"@
        && s != "string"@ && s != "gram"@ && s != "token"@ && s != "optional"@ && s != "ref"@
        && s != "map"@ && s != "tuple"@);
    if s.len() >= 7 {
        assert(s.take(7)[0] == s[0]);
    }
    if s.len() >= 6 {
        assert(s.take(6)[0] == s[0]);
    }
    if s.len() >= 10 {
        assert(s.take(10)[0] == s[0]);
    }
    assert(!crate::grammar::has_prefix(s, "varuint"@));
    assert(!crate::grammar::has_prefix(s, "varint"@));
    assert(!crate::grammar::has_prefix(s, "fixedbytes"@));
    if signed {
        assert(s.take(4)[0] == s[0]);
        assert(s.take(1)[0] == s[0]);
        assert(!crate::grammar::has_prefix(s, "uint"@));
        assert(!crate::grammar::has_prefix(s, "u"@));
        assert(sized(s, "int"@, false));
    } else {
        assert(sized(s, "uint"@, false));
    }
}

pub open spec fn int_ty(signed: bool, w: nat) -> Ty {
    if signed {
        Ty::Int(w)
    } else {
        Ty::Uint(w)
    }
}

pub open spec fn int_range_err(signed: bool, w: nat) -> PErr {
    PErr::ValueOutOfRange(
        if signed {
            RangeKind::Int
        } else {
            RangeKind::Uint
        },
        cap(w) as nat,
        0,
    )
}

pub proof fn lemma_int_type(signed: bool, w: nat)
    ensures
        p_type(int_text(signed, w), 0, 0) == (if 1 <= w <= 256 {
            Ok::<(Ty, int), PErr>((int_ty(signed, w), int_text(signed, w).len() as int))
        } else {
            Err::<(Ty, int), PErr>(int_range_err(signed, w))
        }),
{
    let s = int_text(signed, w);
    lemma_int_text_chars(signed, w);
    lemma_classify_int_text(signed, w);
    lemma_dec_digits(w);
    assert(token_at(s, 0).1 == s.len());
    assert(s.subrange(0, s.len() as int) =~= s);
    assert(s.take(0) =~= Seq::<char>::empty());
    assert(byte_len(s.take(0)) == 0);
    assert(pos(s, 0) == 0);
    assert(skip_ws(s, s.len() as int) == s.len());
    if 1 <= w <= 256 {
        let t = int_ty(signed, w);
        assert(p_suffix(s, s.len() as int, t) == Ok::<(Ty, int), PErr>((t, s.len() as int)));
    }
}

/// `uint<w>` and `int<w>` denote a single integer of exactly width `w` when
/// `1 <= w <= 256`, and fail with `ValueOutOfRange` at offset 0 otherwise.
pub proof fn lemma_int_width(signed: bool, w: nat)
    ensures
        p_entity(int_text(signed, w)) == (if 1 <= w <= 256 {
            Ok::<EntityV, PErr>(
                EntityV::Cell(seq![Field { name: value_name(0), ty: int_ty(signed, w) }]),
            )
        } else {
            Err::<EntityV, PErr>(int_range_err(signed, w))
        }),
{
    let s = int_text(signed, w);
    lemma_int_text_chars(signed, w);
    lemma_classify_int_text(signed, w);
    lemma_int_type(signed, w);
    lemma_dec_digits(w);
    assert(!whitespace_char(s[0]));
    assert(skip_ws(s, 0) == 0);
    assert(token_at(s, 0).1 == s.len());
    assert(s.subrange(0, s.len() as int) =~= s);
    assert(!(classify(s) is Unknown));
    assert(skip_ws(s, s.len() as int) == s.len());
    if 1 <= w <= 256 {
        let t = int_ty(signed, w);
        assert(p_list(s, 0, 0) == Ok::<(Seq<Ty>, int), PErr>((seq![t], s.len() as int)));
        assert(name_fields(seq![t]) =~= seq![Field { name: value_name(0), ty: t }]);
    } else {
        assert(p_list(s, 0, 0) == Err::<(Seq<Ty>, int), PErr>(int_range_err(signed, w)));
    }
}

/// `d` opening parentheses, `uint`, and `d` closing parentheses.
pub open spec fn nested(d: nat) -> Seq<char> {
    Seq::new(d, |i: int| '(') + "uint"@ + Seq::new(d, |i: int| ')')
}

/// `uint` wrapped in `n` one-element tuples.
pub open spec fn tower(n: nat) -> Ty
    decreases n,
{
    if n == 0 {
        Ty::Uint(256)
    } else {
        Ty::Tuple(name_fields(seq![tower((n - 1) as nat)]))
    }
}

pub proof fn lemma_nested_chars(d: nat)
    ensures
        nested(d).len() == 2 * d + 4,
        forall|i: int| 0 <= i < d ==> #[trigger] nested(d)[i] == '(',
        forall|i: int| d + 4 <= i < 2 * d + 4 ==> #[trigger] nested(d)[i] == ')',
        nested(d).subrange(d as int, d as int + 4) == "uint"@,
        nested(d)[d as int] == 'u',
        nested(d)[d as int + 1] == 'i',
        nested(d)[d as int + 2] == 'n',
        nested(d)[d as int + 3] == 't',
{
    reveal_strlit("uint");
    let s = nested(d);
    assert forall|i: int| 0 <= i < d implies #[trigger] s[i] == '(' by {}
    assert forall|i: int| d + 4 <= i < 2 * d + 4 implies #[trigger] s[i] == ')' by {}
    assert(s.subrange(d as int, d as int + 4) =~= "uint"@);
    assert(s[d as int] == s.subrange(d as int, d as int + 4)[0]);
    assert(s[d as int + 1] == s.subrange(d as int, d as int + 4)[1]);
    assert(s[d as int + 2] == s.subrange(d as int, d as int + 4)[2]);
    assert(s[d as int + 3] == s.subrange(d as int, d as int + 4)[3]);
}

pub proof fn lemma_classify_uint()
    ensures
        classify("uint"@) == Keyword::Scalar(ParamType::Uint(256)),
{
    reveal(classify);
    reveal_strlit("uint");
    reveal_strlit("bool");
    reveal_strlit("address");
    reveal_strlit("addr");
    reveal_strlit("cell");
    reveal_strlit("bytes");
    reveal_strlit("string");
    reveal_strlit("gram");
    reveal_strlit("token");
    reveal_strlit("optional");
    reveal_strlit("ref");
    reveal_strlit("map");
    reveal_strlit("tuple");
    reveal_strlit("varuint");
    reveal_strlit("varint");
    reveal_strlit("fixedbytes");
    let s = "uint"@;
    assert(s.take(4) =~= s);
    assert(s.skip(4) =~= Seq::<char>::empty());
    assert(sized(s, "uint"@, false));
    assert(dec_value(Seq::<char>::empty()) == 0);
}

pub proof fn lemma_ascii_byte_len(s: Seq<char>)
    requires
        forall|i: int| 0 <= i < s.len() ==> (#[trigger] s[i] as u32) < 0x80,
    ensures
        byte_len(s) == s.len(),
    decreases s.len(),
{
    if s.len() > 0 {
        lemma_ascii_byte_len(s.drop_last());
    }
}

#[verifier::rlimit(100)]
pub proof fn lemma_tower_parses(d: nat, k: nat)
    requires
        d <= 16,
        k <= d,
    ensures
        p_type(nested(d), k as int, k) == Ok::<(Ty, int), PErr>(
            (tower((d - k) as nat), 2 * d + 4 - k),
        ),
    decreases d - k,
{
    let s = nested(d);
    lemma_nested_chars(d);
    let di = d as int;
    let ki = k as int;
    let len = 2 * di + 4;
    let end = len - ki;
    assert(end == len || s[end] == ')');
    assert(ws_run(s, end) == 0);
    if k == d {
        lemma_classify_uint();
        assert(di + 4 == len || s[di + 4] == ')');
        assert(ident_run(s, di + 4) == 0);
        assert(ident_run(s, di + 3) == 1);
        assert(ident_run(s, di + 2) == 2);
        assert(ident_run(s, di + 1) == 3);
        assert(token_at(s, di).1 == 4);
        assert(p_suffix(s, di + 4, Ty::Uint(256)) == Ok::<(Ty, int), PErr>((Ty::Uint(256), di + 4)));
    } else {
        lemma_tower_parses(d, k + 1);
        assert(s[ki + 1] == '(' || s[ki + 1] == 'u');
        assert(ws_run(s, ki + 1) == 0);
        let inner = tower((d - k - 1) as nat);
        assert(s[end - 1] == ')');
        assert(ws_run(s, end - 1) == 0);
        assert(p_list(s, ki + 1, k + 1) == Ok::<(Seq<Ty>, int), PErr>((seq![inner], end - 1)));
        assert(tower((d - k) as nat) == Ty::Tuple(name_fields(seq![inner])));
        assert(p_suffix(s, end, tower((d - k) as nat)) == Ok::<(Ty, int), PErr>(
            (tower((d - k) as nat), end),
        ));
    }
}

/// Text whose first seventeen characters open groups.
pub open spec fn opens_seventeen(s: Seq<char>) -> bool {
    s.len() >= 17 && forall|j: int| 0 <= j < 17 ==> #[trigger] s[j] == '('
}

#[verifier::rlimit(100)]
pub proof fn lemma_too_deep(s: Seq<char>, k: nat)
    requires
        opens_seventeen(s),
        k <= 16,
    ensures
        p_type(s, k as int, k) == Err::<(Ty, int), PErr>(PErr::TooDeepNesting(17, 16)),
    decreases 16 - k,
{
    let ki = k as int;
    if k == 16 {
        assert forall|i: int| 0 <= i < s.take(16).len() implies (#[trigger] s.take(16)[i] as u32)
            < 0x80 by {
            assert(s.take(16)[i] == s[i]);
        }
        lemma_ascii_byte_len(s.take(16));
        assert(s[16] == '(');
        assert(pos(s, 16) == 16);
    } else {
        lemma_too_deep(s, k + 1);
        assert(s[ki] == '(');
        assert(s[ki + 1] == '(');
        assert(ws_run(s, ki + 1) == 0);
        assert(p_list(s, ki + 1, k + 1) == Err::<(Seq<Ty>, int), PErr>(
            PErr::TooDeepNesting(17, 16),
        ));
    }
}

/// Any text that opens seventeen groups at its start fails with
/// `TooDeepNesting`, reported at the offset of the seventeenth parenthesis,
/// whatever follows.
pub proof fn lemma_seventeen_groups_fail(s: Seq<char>)
    requires
        opens_seventeen(s),
    ensures
        p_entity(s) == Err::<EntityV, PErr>(PErr::TooDeepNesting(17, 16)),
{
    lemma_too_deep(s, 0);
    assert(s[0] == '(');
    assert(ws_run(s, 0) == 0);
    assert(p_list(s, 0, 0) == Err::<(Seq<Ty>, int), PErr>(PErr::TooDeepNesting(17, 16)));
}

/// Up to sixteen nested groups parse; a seventeenth fails with
/// `TooDeepNesting`, at the offset of the parenthesis that opens it.
#[verifier::rlimit(100)]
pub proof fn lemma_nesting_limit(d: nat)
    ensures
        d <= 16 ==> p_entity(nested(d)) is Ok,
        d >= 17 ==> p_entity(nested(d)) == Err::<EntityV, PErr>(PErr::TooDeepNesting(17, 16)),
{
    let s = nested(d);
    lemma_nested_chars(d);
    let len = 2 * (d as int) + 4;
    assert(s[0] == '(' || s[0] == 'u');
    assert(ws_run(s, 0) == 0);
    assert(ws_run(s, len) == 0);
    if d <= 16 {
        lemma_tower_parses(d, 0);
        if d == 0 {
            lemma_classify_uint();
            assert(ident_run(s, 4) == 0);
            assert(ident_run(s, 3) == 1);
            assert(ident_run(s, 2) == 2);
            assert(ident_run(s, 1) == 3);
            assert(s.subrange(0, 4) == "uint"@);
        }
        assert(p_list(s, 0, 0) == Ok::<(Seq<Ty>, int), PErr>((seq![tower(d)], len)));
    } else {
        assert forall|j: int| 0 <= j < 17 implies #[trigger] s[j] == '(' by {}
        lemma_seventeen_groups_fail(s);
    }
}

pub proof fn lemma_find_key_push(inner: Seq<(Seq<char>, StructV)>, e: (Seq<char>, StructV))
    ensures
        find_key(inner.push(e), e.0) is Some,
        find_key(inner, e.0) is Some ==> find_key(inner.push(e), e.0) == find_key(inner, e.0),
    decreases inner.len(),
{
    if inner.len() > 0 {
        assert(inner.push(e).drop_first() =~= inner.drop_first().push(e));
        lemma_find_key_push(inner.drop_first(), e);
    } else {
        assert(inner.push(e).drop_first() =~= Seq::<(Seq<char>, StructV)>::empty());
    }
}

/// `b` starts with `a`.
pub open spec fn extends(a: Seq<(Seq<char>, StructV)>, b: Seq<(Seq<char>, StructV)>) -> bool {
    a.len() <= b.len() && b.take(a.len() as int) == a
}

pub proof fn lemma_extends_trans(
    a: Seq<(Seq<char>, StructV)>,
    b: Seq<(Seq<char>, StructV)>,
    c: Seq<(Seq<char>, StructV)>,
)
    requires
        extends(a, b),
        extends(b, c),
    ensures
        extends(a, c),
{
    assert(c.take(a.len() as int) =~= c.take(b.len() as int).take(a.len() as int));
}

pub proof fn lemma_find_key_extends(
    a: Seq<(Seq<char>, StructV)>,
    b: Seq<(Seq<char>, StructV)>,
    key: Seq<char>,
)
    requires
        extends(a, b),
        find_key(a, key) is Some,
    ensures
        find_key(b, key) == find_key(a, key),
    decreases a.len(),
{
    assert(b[0] == b.take(a.len() as int)[0]);
    if a[0].0 != key {
        assert(b.drop_first().take(a.drop_first().len() as int) =~= a.drop_first()) by {
            assert forall|j: int| 0 <= j < a.len() - 1 implies b.drop_first()[j] == a.drop_first()[j] by {
                assert(b.take(a.len() as int)[j + 1] == b[j + 1]);
            }
        }
        lemma_find_key_extends(a.drop_first(), b.drop_first(), key);
    }
}

/// Generating a field type only adds to the registry.
pub proof fn lemma_type_extends(st: GenState, p: PropV, m: Seq<(Seq<char>, Seq<char>)>)
    requires
        g_type(st, p, m) is Ok,
    ensures
        extends(st.inner, g_type(st, p, m)->Ok_0.0.inner),
    decreases p, 2nat,
{
    match p {
        PropV::Simple { .. } => {
            assert(st.inner.take(st.inner.len() as int) =~= st.inner);
        },
        PropV::Array { inner, .. } => lemma_type_extends(st, *inner, m),
        PropV::Optional { inner, .. } => lemma_type_extends(st, *inner, m),
        PropV::Tuple { props, .. } => lemma_inner_extends(st, props, m),
        PropV::HashMap { value, .. } => lemma_type_extends(st, *value, m),
    }
}

pub proof fn lemma_inner_extends(st: GenState, props: Seq<PropV>, m: Seq<(Seq<char>, Seq<char>)>)
    requires
        g_inner(st, props, m) is Ok,
    ensures
        extends(st.inner, g_inner(st, props, m)->Ok_0.0.inner),
    decreases props, 1nat,
{
    let key = struct_key(props);
    match find_key(st.inner, key) {
        Some(_) => {
            assert(st.inner.take(st.inner.len() as int) =~= st.inner);
        },
        None => {
            let st0 = GenState { inner: st.inner, count: st.count + 1 };
            lemma_fields_extends(st0, props, m);
            let st2 = g_fields(st0, props, m)->Ok_0.0;
            let st1 = g_inner(st, props, m)->Ok_0.0;
            assert(st1.inner.take(st2.inner.len() as int) =~= st2.inner);
            lemma_extends_trans(st.inner, st2.inner, st1.inner);
        },
    }
}

pub proof fn lemma_fields_extends(st: GenState, props: Seq<PropV>, m: Seq<(Seq<char>, Seq<char>)>)
    requires
        g_fields(st, props, m) is Ok,
    ensures
        extends(st.inner, g_fields(st, props, m)->Ok_0.0.inner),
    decreases props, 0nat,
{
    if props.len() == 0 {
        assert(st.inner.take(st.inner.len() as int) =~= st.inner);
    } else {
        lemma_type_extends(st, props[0], m);
        let st1 = g_type(st, props[0], m)->Ok_0.0;
        lemma_fields_extends(st1, props.subrange(1, props.len() as int), m);
        lemma_extends_trans(
            st.inner,
            st1.inner,
            g_fields(st1, props.subrange(1, props.len() as int), m)->Ok_0.0.inner,
        );
    }
}

/// Generating a tuple registers its structural key; a key that was
/// registered before resolves to its struct at once and adds nothing.
pub proof fn lemma_inner_registers(st: GenState, props: Seq<PropV>, m: Seq<(Seq<char>, Seq<char>)>)
    requires
        g_inner(st, props, m) is Ok,
    ensures
        ({
            let (st1, name) = g_inner(st, props, m)->Ok_0;
            let key = struct_key(props);
            &&& find_key(st1.inner, key) is Some
            &&& find_key(st.inner, key) is Some ==> st1 == st && name == find_key(
                st.inner,
                key,
            )->Some_0
        }),
{
    let key = struct_key(props);
    match find_key(st.inner, key) {
        Some(n) => {},
        None => {
            let (st1, name) = g_inner(st, props, m)->Ok_0;
            let count = st.count + 1;
            let (st2, fields) = g_fields(GenState { inner: st.inner, count }, props, m)->Ok_0;
            lemma_find_key_push(
                st2.inner,
                (key, StructV { name, derives: crate::codegen::inner_derives(), fields }),
            );
        },
    }
}

/// Two tuples with the same field names and types share one struct: once
/// one has been generated, the other, generated from any later state of the
/// same run, resolves to the struct registered for their common key and adds
/// no auxiliary struct.
pub proof fn lemma_dedup_idempotent(
    st: GenState,
    props: Seq<PropV>,
    later: GenState,
    other: Seq<PropV>,
    m: Seq<(Seq<char>, Seq<char>)>,
)
    requires
        g_inner(st, props, m) is Ok,
        extends(g_inner(st, props, m)->Ok_0.0.inner, later.inner),
        struct_key(other) == struct_key(props),
    ensures
        ({
            let st1 = g_inner(st, props, m)->Ok_0.0;
            let key = struct_key(props);
            &&& find_key(st1.inner, key) is Some
            &&& g_inner(later, other, m) == Ok::<(GenState, Seq<char>), crate::properties::GenErr>(
                (later, find_key(st1.inner, key)->Some_0),
            )
        }),
{
    lemma_inner_registers(st, props, m);
    let st1 = g_inner(st, props, m)->Ok_0.0;
    lemma_find_key_extends(st1.inner, later.inner, struct_key(props));
}

/// Generating top-level structs only adds to the registry, so a tuple
/// registered while generating one function's struct keeps resolving to the
/// same auxiliary struct for every later function of the run.
pub proof fn lemma_structs_extends(st: GenState, metas: Seq<MetaV>, m: Seq<(Seq<char>, Seq<char>)>)
    requires
        g_structs(st, metas, m) is Ok,
    ensures
        extends(st.inner, g_structs(st, metas, m)->Ok_0.0.inner),
    decreases metas.len(),
{
    if metas.len() == 0 {
        assert(st.inner.take(st.inner.len() as int) =~= st.inner);
    } else {
        lemma_fields_extends(st, metas[0].props, m);
        let st1 = g_fields(st, metas[0].props, m)->Ok_0.0;
        lemma_structs_extends(st1, metas.drop_first(), m);
        lemma_extends_trans(st.inner, st1.inner, g_structs(st1, metas.drop_first(), m)->Ok_0.0.inner);
    }
}

} // verus!
