//! The canonical signature of a type parses back to the type.
use vstd::prelude::*;

use crate::grammar::{classify, digit_char_at, digit_run, fixedbytes_keyword, has_prefix, name_fields, p_entity, p_list, p_map, p_suffix, p_type, p_wrapped, skip_ws, value_name, varint_keyword, EntityV, Keyword, PErr};
use crate::laws::{lemma_classify_int_text, lemma_dec_digits, int_text};
use crate::lexer::{ident_continue_char, ident_run, ident_start_char, token_at, ws_run};
use crate::types::{dec, sig, sig_list, ty_of, Field, ParamType, Ty};

verus! {

broadcast use {
    vstd::seq::axiom_seq_index_decreases,
    vstd::seq::axiom_seq_subrange_decreases,
};

/// Widths, sizes, map keys and tuples as the notation allows them.
pub open spec fn valid(t: Ty) -> bool
    decreases t,
{
    match t {
        Ty::Int(n) => 1 <= n <= 256,
        Ty::Uint(n) => 1 <= n <= 256,
        Ty::VarInt(n) => n == 16 || n == 32,
        Ty::VarUint(n) => n == 16 || n == 32,
        Ty::FixedBytes(n) => 1 <= n <= 32,
        Ty::Optional(b) => valid(*b),
        Ty::Ref(b) => valid(*b),
        Ty::Array(b) => valid(*b),
        Ty::FixedArray(b, n) => valid(*b) && n <= usize::MAX,
        Ty::Mapping(k, v) => valid(*k) && valid(*v) && crate::grammar::map_key_allowed(*k),
        Ty::Tuple(fs) => fs.len() >= 1 && valid_fields(fs),
        _ => true,
    }
}

pub open spec fn valid_fields(fs: Seq<Field>) -> bool
    decreases fs,
{
    if fs.len() == 0 {
        true
    } else {
        valid(fs[0].ty) && valid_fields(fs.subrange(1, fs.len() as int))
    }
}

pub open spec fn max(a: nat, b: nat) -> nat {
    if a >= b {
        a
    } else {
        b
    }
}

/// How many parenthesised groups the signature of `t` nests.
pub open spec fn depth(t: Ty) -> nat
    decreases t,
{
    match t {
        Ty::Optional(b) => 1 + depth(*b),
        Ty::Ref(b) => 1 + depth(*b),
        Ty::Array(b) => depth(*b),
        Ty::FixedArray(b, _) => depth(*b),
        Ty::Mapping(k, v) => 1 + max(depth(*k), depth(*v)),
        Ty::Tuple(fs) => 1 + depth_fields(fs),
        _ => 0,
    }
}

pub open spec fn depth_fields(fs: Seq<Field>) -> nat
    decreases fs,
{
    if fs.len() == 0 {
        0
    } else {
        max(depth(fs[0].ty), depth_fields(fs.subrange(1, fs.len() as int)))
    }
}

/// `t` with every tuple's values given the synthesized names.
pub open spec fn canon(t: Ty) -> Ty
    decreases t,
{
    match t {
        Ty::Optional(b) => Ty::Optional(Box::new(canon(*b))),
        Ty::Ref(b) => Ty::Ref(Box::new(canon(*b))),
        Ty::Array(b) => Ty::Array(Box::new(canon(*b))),
        Ty::FixedArray(b, n) => Ty::FixedArray(Box::new(canon(*b)), n),
        Ty::Mapping(k, v) => Ty::Mapping(Box::new(canon(*k)), Box::new(canon(*v))),
        Ty::Tuple(fs) => Ty::Tuple(name_fields(canon_list(fs))),
        _ => t,
    }
}

pub open spec fn canon_list(fs: Seq<Field>) -> Seq<Ty>
    decreases fs,
{
    if fs.len() == 0 {
        seq![]
    } else {
        seq![canon(fs[0].ty)] + canon_list(fs.subrange(1, fs.len() as int))
    }
}

/// The values that a parsed type list holds for `t`: a tuple stands for its
/// values, any other type for one value.
pub open spec fn top_fields(c: Ty) -> Seq<Field> {
    match c {
        Ty::Tuple(fs) => fs,
        _ => seq![Field { name: value_name(0), ty: c }],
    }
}

/// Where a type's text may end: the end of input, or a bracket, comma or
/// closing parenthesis.
pub open spec fn ends_type(s: Seq<char>, e: int) -> bool {
    e == s.len() || (0 <= e < s.len() && (s[e] == '[' || s[e] == ',' || s[e] == ')'))
}

pub open spec fn ends_item(s: Seq<char>, e: int) -> bool {
    e == s.len() || (0 <= e < s.len() && (s[e] == ',' || s[e] == ')'))
}

pub open spec fn at(s: Seq<char>, i: int, w: Seq<char>) -> bool {
    0 <= i && i + w.len() <= s.len() && s.subrange(i, i + w.len()) == w
}

pub proof fn lemma_at_index(s: Seq<char>, i: int, w: Seq<char>, j: int)
    requires
        at(s, i, w),
        0 <= j < w.len(),
    ensures
        s[i + j] == w[j],
{
    assert(s.subrange(i, i + w.len())[j] == s[i + j]);
}

pub proof fn lemma_at_split(s: Seq<char>, i: int, a: Seq<char>, b: Seq<char>)
    requires
        at(s, i, a + b),
    ensures
        at(s, i, a),
        at(s, i + a.len(), b),
{
    assert(s.subrange(i, i + a.len()) =~= (a + b).subrange(0, a.len() as int)) by {
        assert(s.subrange(i, i + (a + b).len()).subrange(0, a.len() as int) =~= s.subrange(
            i,
            i + a.len(),
        ));
    }
    assert((a + b).subrange(0, a.len() as int) =~= a);
    assert(s.subrange(i + a.len(), i + a.len() + b.len()) =~= (a + b).subrange(
        a.len() as int,
        (a + b).len() as int,
    )) by {
        assert(s.subrange(i, i + (a + b).len()).subrange(a.len() as int, (a + b).len() as int)
            =~= s.subrange(i + a.len(), i + a.len() + b.len()));
    }
    assert((a + b).subrange(a.len() as int, (a + b).len() as int) =~= b);
}

pub proof fn lemma_ident_run_exact(s: Seq<char>, i: int, e: int)
    requires
        0 <= i <= e <= s.len(),
        forall|j: int| i <= j < e ==> ident_continue_char(#[trigger] s[j]),
        e == s.len() || !ident_continue_char(s[e]),
    ensures
        ident_run(s, i) == e - i,
    decreases e - i,
{
    if i < e {
        lemma_ident_run_exact(s, i + 1, e);
    }
}

pub proof fn lemma_sig_list_front(fs: Seq<Field>)
    requires
        fs.len() >= 2,
    ensures
        sig_list(fs) == sig(fs[0].ty) + ","@ + sig_list(fs.subrange(1, fs.len() as int)),
    decreases fs.len(),
{
    let n = fs.len() as int;
    let init = fs.subrange(0, n - 1);
    let tail = fs.subrange(1, n);
    if n == 2 {
        assert(init.len() == 1);
        assert(sig_list(init) == sig(init[0].ty));
        assert(tail.len() == 1);
        assert(sig_list(tail) == sig(tail[0].ty));
    } else {
        lemma_sig_list_front(init);
        assert(init.subrange(1, init.len() as int) =~= tail.subrange(0, tail.len() - 1));
        assert(tail[tail.len() - 1] == fs[n - 1]);
        assert(sig_list(tail) == sig_list(tail.subrange(0, tail.len() - 1)) + ","@ + sig(
            tail[tail.len() - 1].ty,
        ));
    }
}

/// Types whose signature is one identifier.
pub open spec fn is_word(t: Ty) -> bool {
    t is Bool || t is Int || t is Uint || t is VarInt || t is VarUint || t is Address || t is Bytes
        || t is FixedBytes || t is Str || t is Cell || t is Token
}

/// The leaf of the type tree that a word type is.
pub open spec fn leaf(t: Ty) -> ParamType {
    match t {
        Ty::Bool => ParamType::Bool,
        Ty::Int(n) => ParamType::Int(n as usize),
        Ty::Uint(n) => ParamType::Uint(n as usize),
        Ty::VarInt(n) => ParamType::VarInt(n as usize),
        Ty::VarUint(n) => ParamType::VarUint(n as usize),
        Ty::Address => ParamType::Address,
        Ty::Bytes => ParamType::Bytes,
        Ty::FixedBytes(n) => ParamType::FixedBytes(n as usize),
        Ty::Str => ParamType::String,
        Ty::Cell => ParamType::Cell,
        _ => ParamType::Token,
    }
}

pub proof fn lemma_classify_bool()
    ensures
        classify("bool"@) == Keyword::Scalar(ParamType::Bool),
{
    reveal(classify);
    reveal_strlit("bool");
}

pub proof fn lemma_classify_address()
    ensures
        classify("address"@) == Keyword::Scalar(ParamType::Address),
{
    reveal(classify);
    reveal_strlit("address");
    reveal_strlit("bool");
    assert("address"@.len() != "bool"@.len());
    assert("address"@ != "bool"@);
}

pub proof fn lemma_classify_cell()
    ensures
        classify("cell"@) == Keyword::Scalar(ParamType::Cell),
{
    reveal(classify);
    reveal_strlit("cell");
    reveal_strlit("bool");
    assert("cell"@[0] != "bool"@[0]);
    assert("cell"@ != "bool"@);
    reveal_strlit("address");
    assert("cell"@.len() != "address"@.len());
    assert("cell"@ != "address"@);
    reveal_strlit("addr");
    assert("cell"@[0] != "addr"@[0]);
    assert("cell"@ != "addr"@);
}

pub proof fn lemma_classify_bytes()
    ensures
        classify("bytes"@) == Keyword::Scalar(ParamType::Bytes),
{
    reveal(classify);
    reveal_strlit("bytes");
    reveal_strlit("bool");
    assert("bytes"@.len() != "bool"@.len());
    assert("bytes"@ != "bool"@);
    reveal_strlit("address");
    assert("bytes"@.len() != "address"@.len());
    assert("bytes"@ != "address"@);
    reveal_strlit("addr");
    assert("bytes"@.len() != "addr"@.len());
    assert("bytes"@ != "addr"@);
    reveal_strlit("cell");
    assert("bytes"@.len() != "cell"@.len());
    assert("bytes"@ != "cell"@);
}

pub proof fn lemma_classify_string()
    ensures
        classify("string"@) == Keyword::Scalar(ParamType::String),
{
    reveal(classify);
    reveal_strlit("string");
    reveal_strlit("bool");
    assert("string"@.len() != "bool"@.len());
    assert("string"@ != "bool"@);
    reveal_strlit("address");
    assert("string"@.len() != "address"@.len());
    assert("string"@ != "address"@);
    reveal_strlit("addr");
    assert("string"@.len() != "addr"@.len());
    assert("string"@ != "addr"@);
    reveal_strlit("cell");
    assert("string"@.len() != "cell"@.len());
    assert("string"@ != "cell"@);
    reveal_strlit("bytes");
    assert("string"@.len() != "bytes"@.len());
    assert("string"@ != "bytes"@);
}

pub proof fn lemma_classify_gram()
    ensures
        classify("gram"@) == Keyword::Scalar(ParamType::Token),
{
    reveal(classify);
    reveal_strlit("gram");
    reveal_strlit("bool");
    assert("gram"@[0] != "bool"@[0]);
    assert("gram"@ != "bool"@);
    reveal_strlit("address");
    assert("gram"@.len() != "address"@.len());
    assert("gram"@ != "address"@);
    reveal_strlit("addr");
    assert("gram"@[0] != "addr"@[0]);
    assert("gram"@ != "addr"@);
    reveal_strlit("cell");
    assert("gram"@[0] != "cell"@[0]);
    assert("gram"@ != "cell"@);
    reveal_strlit("bytes");
    assert("gram"@.len() != "bytes"@.len());
    assert("gram"@ != "bytes"@);
    reveal_strlit("string");
    assert("gram"@.len() != "string"@.len());
    assert("gram"@ != "string"@);
}

pub proof fn lemma_classify_optional()
    ensures
        classify("optional"@) == Keyword::Optional,
{
    reveal(classify);
    reveal_strlit("optional");
    reveal_strlit("bool");
    assert("optional"@.len() != "bool"@.len());
    assert("optional"@ != "bool"@);
    reveal_strlit("address");
    assert("optional"@.len() != "address"@.len());
    assert("optional"@ != "address"@);
    reveal_strlit("addr");
    assert("optional"@.len() != "addr"@.len());
    assert("optional"@ != "addr"@);
    reveal_strlit("cell");
    assert("optional"@.len() != "cell"@.len());
    assert("optional"@ != "cell"@);
    reveal_strlit("bytes");
    assert("optional"@.len() != "bytes"@.len());
    assert("optional"@ != "bytes"@);
    reveal_strlit("string");
    assert("optional"@.len() != "string"@.len());
    assert("optional"@ != "string"@);
    reveal_strlit("gram");
    assert("optional"@.len() != "gram"@.len());
    assert("optional"@ != "gram"@);
    reveal_strlit("token");
    assert("optional"@.len() != "token"@.len());
    assert("optional"@ != "token"@);
}

pub proof fn lemma_classify_ref()
    ensures
        classify("ref"@) == Keyword::Ref,
{
    reveal(classify);
    reveal_strlit("ref");
    reveal_strlit("bool");
    assert("ref"@.len() != "bool"@.len());
    assert("ref"@ != "bool"@);
    reveal_strlit("address");
    assert("ref"@.len() != "address"@.len());
    assert("ref"@ != "address"@);
    reveal_strlit("addr");
    assert("ref"@.len() != "addr"@.len());
    assert("ref"@ != "addr"@);
    reveal_strlit("cell");
    assert("ref"@.len() != "cell"@.len());
    assert("ref"@ != "cell"@);
    reveal_strlit("bytes");
    assert("ref"@.len() != "bytes"@.len());
    assert("ref"@ != "bytes"@);
    reveal_strlit("string");
    assert("ref"@.len() != "string"@.len());
    assert("ref"@ != "string"@);
    reveal_strlit("gram");
    assert("ref"@.len() != "gram"@.len());
    assert("ref"@ != "gram"@);
    reveal_strlit("token");
    assert("ref"@.len() != "token"@.len());
    assert("ref"@ != "token"@);
    reveal_strlit("optional");
    assert("ref"@.len() != "optional"@.len());
    assert("ref"@ != "optional"@);
}

pub proof fn lemma_classify_map()
    ensures
        classify("map"@) == Keyword::Mapping,
{
    reveal(classify);
    reveal_strlit("map");
    reveal_strlit("bool");
    assert("map"@.len() != "bool"@.len());
    assert("map"@ != "bool"@);
    reveal_strlit("address");
    assert("map"@.len() != "address"@.len());
    assert("map"@ != "address"@);
    reveal_strlit("addr");
    assert("map"@.len() != "addr"@.len());
    assert("map"@ != "addr"@);
    reveal_strlit("cell");
    assert("map"@.len() != "cell"@.len());
    assert("map"@ != "cell"@);
    reveal_strlit("bytes");
    assert("map"@.len() != "bytes"@.len());
    assert("map"@ != "bytes"@);
    reveal_strlit("string");
    assert("map"@.len() != "string"@.len());
    assert("map"@ != "string"@);
    reveal_strlit("gram");
    assert("map"@.len() != "gram"@.len());
    assert("map"@ != "gram"@);
    reveal_strlit("token");
    assert("map"@.len() != "token"@.len());
    assert("map"@ != "token"@);
    reveal_strlit("optional");
    assert("map"@.len() != "optional"@.len());
    assert("map"@ != "optional"@);
    reveal_strlit("ref");
    assert("map"@[0] != "ref"@[0]);
    assert("map"@ != "ref"@);
}

/// `p` followed by the decimal digits of `n`, with `p` of letters.
pub open spec fn sized_text(p: Seq<char>, n: nat) -> Seq<char> {
    p + dec(n)
}

pub proof fn lemma_sized_text_chars(p: Seq<char>, n: nat)
    requires
        p.len() >= 1,
        forall|j: int| 0 <= j < p.len() ==> ident_start_char(#[trigger] p[j]),
    ensures
        forall|j: int| 0 <= j < sized_text(p, n).len() ==> ident_continue_char(
            #[trigger] sized_text(p, n)[j],
        ),
        sized_text(p, n)[0] == p[0],
        sized_text(p, n).skip(p.len() as int) == dec(n),
        sized_text(p, n).take(p.len() as int) == p,
        sized_text(p, n).len() > p.len(),
{
    lemma_dec_digits(n);
    let s = sized_text(p, n);
    assert forall|j: int| 0 <= j < s.len() implies ident_continue_char(#[trigger] s[j]) by {
        if j >= p.len() {
            assert(s[j] == dec(n)[j - p.len()]);
        } else {
            assert(s[j] == p[j]);
        }
    }
    assert(s.skip(p.len() as int) =~= dec(n));
    assert(s.take(p.len() as int) =~= p);
}

pub proof fn lemma_classify_var(signed: bool, n: nat)
    ensures
        classify(sized_text(if signed { "varint"@ } else { "varuint"@ }, n)) == varint_keyword(
            signed,
            dec(n),
        ),
{
    reveal(classify);
    reveal_strlit("int");
    reveal_strlit("uint");
    reveal_strlit("bool");
    reveal_strlit("address");
    reveal_strlit("addr");
    reveal_strlit("cell");
    reveal_strlit("bytes");
    reveal_strlit("string");
    reveal_strlit("gram");
    reveal_strlit("token");
    reveal_strlit("optional");
    reveal_strlit("ref");
    reveal_strlit("map");
    reveal_strlit("tuple");
    reveal_strlit("varuint");
    reveal_strlit("varint");
    reveal_strlit("fixedbytes");
    reveal_strlit("u");
    reveal_strlit("i");
    let p = if signed {
        "varint"@
    } else {
        "varuint"@
    };
    lemma_sized_text_chars(p, n);
    lemma_dec_digits(n);
    let s = sized_text(p, n);
    assert(s[0] == 'v');
    assert(s.take(p.len() as int) == p);
    assert(s[1] == p[1] && s[2] == p[2] && s[3] == p[3] && s[4] == p[4]) by {
        assert(s.take(p.len() as int)[1] == s[1]);
        assert(s.take(p.len() as int)[2] == s[2]);
        assert(s.take(p.len() as int)[3] == s[3]);
        assert(s.take(p.len() as int)[4] == s[4]);
    }
    if signed {
        assert(s.take(7)[4] == s[4]);
        assert(!has_prefix(s, "varuint"@));
    }
}

pub proof fn lemma_classify_fixedbytes(n: nat)
    ensures
        classify(sized_text("fixedbytes"@, n)) == fixedbytes_keyword(dec(n)),
{
    reveal(classify);
    reveal_strlit("int");
    reveal_strlit("uint");
    reveal_strlit("bool");
    reveal_strlit("address");
    reveal_strlit("addr");
    reveal_strlit("cell");
    reveal_strlit("bytes");
    reveal_strlit("string");
    reveal_strlit("gram");
    reveal_strlit("token");
    reveal_strlit("optional");
    reveal_strlit("ref");
    reveal_strlit("map");
    reveal_strlit("tuple");
    reveal_strlit("varuint");
    reveal_strlit("varint");
    reveal_strlit("fixedbytes");
    reveal_strlit("u");
    reveal_strlit("i");
    lemma_sized_text_chars("fixedbytes"@, n);
    lemma_dec_digits(n);
    let s = sized_text("fixedbytes"@, n);
    assert(s[0] == 'f');
    if s.len() >= 7 {
        assert(s.take(7)[0] == s[0]);
    }
    if s.len() >= 6 {
        assert(s.take(6)[0] == s[0]);
    }
    assert(!has_prefix(s, "varuint"@));
    assert(!has_prefix(s, "varint"@));
}

pub proof fn lemma_digit_run_exact(s: Seq<char>, i: int, e: int)
    requires
        0 <= i <= e <= s.len(),
        forall|j: int| i <= j < e ==> digit_char_at(#[trigger] s[j]),
        e == s.len() || !digit_char_at(s[e]),
    ensures
        digit_run(s, i) == e - i,
    decreases e - i,
{
    if i < e {
        lemma_digit_run_exact(s, i + 1, e);
    }
}

pub proof fn lemma_word_sig(t: Ty)
    requires
        is_word(t),
        valid(t),
    ensures
        classify(sig(t)) == Keyword::Scalar(leaf(t)),
        ty_of(leaf(t)) == t,
        sig(t).len() >= 1,
        ident_start_char(sig(t)[0]),
        forall|j: int| 0 <= j < sig(t).len() ==> ident_continue_char(#[trigger] sig(t)[j]),
{
    reveal_strlit("bool");
    reveal_strlit("address");
    reveal_strlit("cell");
    reveal_strlit("bytes");
    reveal_strlit("string");
    reveal_strlit("gram");
    reveal_strlit("uint");
    reveal_strlit("int");
    reveal_strlit("varuint");
    reveal_strlit("varint");
    reveal_strlit("fixedbytes");
    match t {
        Ty::Bool => lemma_classify_bool(),
        Ty::Address => lemma_classify_address(),
        Ty::Cell => lemma_classify_cell(),
        Ty::Bytes => lemma_classify_bytes(),
        Ty::Str => lemma_classify_string(),
        Ty::Token => lemma_classify_gram(),
        Ty::Uint(n) => {
            lemma_classify_int_text(false, n);
            lemma_sized_text_chars("uint"@, n);
            lemma_dec_digits(n);
            assert(sig(t) == int_text(false, n));
        },
        Ty::Int(n) => {
            lemma_classify_int_text(true, n);
            lemma_sized_text_chars("int"@, n);
            lemma_dec_digits(n);
            assert(sig(t) == int_text(true, n));
        },
        Ty::VarUint(n) => {
            lemma_classify_var(false, n);
            lemma_sized_text_chars("varuint"@, n);
            lemma_dec_digits(n);
        },
        Ty::VarInt(n) => {
            lemma_classify_var(true, n);
            lemma_sized_text_chars("varint"@, n);
            lemma_dec_digits(n);
        },
        Ty::FixedBytes(n) => {
            lemma_classify_fixedbytes(n);
            lemma_sized_text_chars("fixedbytes"@, n);
            lemma_dec_digits(n);
        },
        _ => {},
    }
}

pub proof fn lemma_word_parse(t: Ty, s: Seq<char>, i: int, d: nat)
    requires
        is_word(t),
        valid(t),
        at(s, i, sig(t)),
        ends_type(s, i + sig(t).len()),
    ensures
        p_type(s, i, d) == p_suffix(s, i + sig(t).len(), t),
        ident_start_char(s[i]),
        token_at(s, i).1 == sig(t).len(),
        !(classify(s.subrange(i, i + sig(t).len())) is Unknown),
{
    lemma_word_sig(t);
    let e = i + sig(t).len();
    assert forall|j: int| i <= j < e implies ident_continue_char(#[trigger] s[j]) by {
        lemma_at_index(s, i, sig(t), j - i);
    }
    lemma_at_index(s, i, sig(t), 0);
    lemma_ident_run_exact(s, i + 1, e);
}

pub proof fn lemma_suffix_end(s: Seq<char>, e: int, c: Ty)
    requires
        ends_item(s, e),
    ensures
        p_suffix(s, e, c) == Ok::<(Ty, int), PErr>((c, e)),
{
    assert(ws_run(s, e) == 0);
}

/// The type whose signature starts at `i` parses to its canonical form
/// followed by whatever suffixes come next.
pub proof fn lemma_type_parse(t: Ty, s: Seq<char>, i: int, d: nat)
    requires
        valid(t),
        depth(t) + d <= 16,
        at(s, i, sig(t)),
        ends_type(s, i + sig(t).len()),
    ensures
        sig(t).len() >= 1,
        p_type(s, i, d) == p_suffix(s, i + sig(t).len(), canon(t)),
        s[i] == '(' || (ident_start_char(s[i]) && !(classify(
            s.subrange(i, i + token_at(s, i).1),
        ) is Unknown)),
        (t is Tuple) ==> s[i] == '(',
    decreases t, 1nat,
{
    if is_word(t) {
        lemma_word_parse(t, s, i, d);
        return;
    }
    match t {
        Ty::Array(_) => lemma_array_parse(t, s, i, d),
        Ty::FixedArray(_, _) => lemma_fixed_array_parse(t, s, i, d),
        Ty::Optional(_) => lemma_wrapped_parse(t, s, i, d),
        Ty::Ref(_) => lemma_wrapped_parse(t, s, i, d),
        Ty::Mapping(_, _) => lemma_map_parse(t, s, i, d),
        Ty::Tuple(_) => lemma_tuple_parse(t, s, i, d),
        _ => {},
    }
}

pub proof fn lemma_array_parse(t: Ty, s: Seq<char>, i: int, d: nat)
    requires
        t is Array,
        valid(t),
        depth(t) + d <= 16,
        at(s, i, sig(t)),
        ends_type(s, i + sig(t).len()),
    ensures
        sig(t).len() >= 1,
        p_type(s, i, d) == p_suffix(s, i + sig(t).len(), canon(t)),
        s[i] == '(' || (ident_start_char(s[i]) && !(classify(
            s.subrange(i, i + token_at(s, i).1),
        ) is Unknown)),
    decreases t, 0nat,
{
    reveal_strlit("[]");
    let b = *(t->Array_0);
    let e = i + sig(t).len();
    lemma_at_split(s, i, sig(b), "[]"@);
    let eb = i + sig(b).len();
    lemma_at_index(s, eb, "[]"@, 0);
    lemma_at_index(s, eb, "[]"@, 1);
    lemma_type_parse(b, s, i, d);
    assert(ws_run(s, eb) == 0);
    assert(ws_run(s, eb + 1) == 0);
    assert(p_suffix(s, eb, canon(b)) == p_suffix(s, e, canon(t)));
}

#[verifier::rlimit(100)]
pub proof fn lemma_fixed_array_parse(t: Ty, s: Seq<char>, i: int, d: nat)
    requires
        t is FixedArray,
        valid(t),
        depth(t) + d <= 16,
        at(s, i, sig(t)),
        ends_type(s, i + sig(t).len()),
    ensures
        sig(t).len() >= 1,
        p_type(s, i, d) == p_suffix(s, i + sig(t).len(), canon(t)),
        s[i] == '(' || (ident_start_char(s[i]) && !(classify(
            s.subrange(i, i + token_at(s, i).1),
        ) is Unknown)),
    decreases t, 0nat,
{
    reveal_strlit("[");
    reveal_strlit("]");
    let b = *(t->FixedArray_0);
    let n = t->FixedArray_1;
    let e = i + sig(t).len();
    lemma_dec_digits(n);
    lemma_at_split(s, i, sig(b) + "["@ + dec(n), "]"@);
    lemma_at_split(s, i, sig(b) + "["@, dec(n));
    lemma_at_split(s, i, sig(b), "["@);
    let eb = i + sig(b).len();
    let m = eb + 1;
    let nd = dec(n).len() as int;
    lemma_at_index(s, eb, "["@, 0);
    lemma_at_index(s, m + nd, "]"@, 0);
    assert forall|j: int| m <= j < m + nd implies digit_char_at(#[trigger] s[j]) by {
        lemma_at_index(s, m, dec(n), j - m);
    }
    lemma_digit_run_exact(s, m, m + nd);
    assert(s.subrange(m, m + nd) == dec(n));
    lemma_type_parse(b, s, i, d);
    assert(ws_run(s, eb) == 0);
    lemma_at_index(s, m, dec(n), 0);
    assert(ws_run(s, m) == 0);
    assert(ws_run(s, m + nd) == 0);
    assert(p_suffix(s, eb, canon(b)) == p_suffix(s, e, canon(t)));
}

pub proof fn lemma_tuple_parse(t: Ty, s: Seq<char>, i: int, d: nat)
    requires
        t is Tuple,
        valid(t),
        depth(t) + d <= 16,
        at(s, i, sig(t)),
        ends_type(s, i + sig(t).len()),
    ensures
        sig(t).len() >= 1,
        p_type(s, i, d) == p_suffix(s, i + sig(t).len(), canon(t)),
        s[i] == '(',
    decreases t, 0nat,
{
    reveal_strlit("(");
    reveal_strlit(")");
    let fs = t->Tuple_0;
    lemma_at_split(s, i, "("@ + sig_list(fs), ")"@);
    lemma_at_split(s, i, "("@, sig_list(fs));
    lemma_at_index(s, i, "("@, 0);
    let j = i + 1 + sig_list(fs).len();
    lemma_at_index(s, j, ")"@, 0);
    lemma_list_parse(fs, s, i + 1, d + 1);
}

/// A non-empty list of field types whose signatures, separated by commas,
/// start at `i` and are followed by `)` or the end.
pub proof fn lemma_list_parse(fs: Seq<Field>, s: Seq<char>, i: int, d: nat)
    requires
        fs.len() >= 1,
        valid_fields(fs),
        depth_fields(fs) + d <= 16,
        at(s, i, sig_list(fs)),
        i + sig_list(fs).len() == s.len() || (i + sig_list(fs).len() < s.len() && s[i
            + sig_list(fs).len()] == ')'),
    ensures
        p_list(s, i, d) == Ok::<(Seq<Ty>, int), PErr>(
            (canon_list(fs), i + sig_list(fs).len()),
        ),
        i < s.len() && (s[i] == '(' || ident_start_char(s[i])),
    decreases fs, 0nat,
{
    reveal_strlit(",");
    let e = i + sig_list(fs).len();
    let rest = fs.subrange(1, fs.len() as int);
    let c0 = canon(fs[0].ty);
    if fs.len() == 1 {
        assert(sig_list(fs) == sig(fs[0].ty));
        lemma_type_parse(fs[0].ty, s, i, d);
        lemma_suffix_end(s, e, c0);
        assert(ws_run(s, i) == 0);
        assert(ws_run(s, e) == 0);
        assert(rest.len() == 0);
        assert(canon_list(rest) =~= Seq::<Ty>::empty());
        assert(canon_list(fs) =~= seq![c0]);
    } else {
        lemma_sig_list_front(fs);
        lemma_at_split(s, i, sig(fs[0].ty) + ","@, sig_list(rest));
        lemma_at_split(s, i, sig(fs[0].ty), ","@);
        let e0 = i + sig(fs[0].ty).len();
        lemma_at_index(s, e0, ","@, 0);
        lemma_type_parse(fs[0].ty, s, i, d);
        lemma_suffix_end(s, e0, c0);
        assert(ws_run(s, i) == 0);
        assert(ws_run(s, e0) == 0);
        lemma_list_parse(rest, s, e0 + 1, d);
        assert(e0 + 1 + sig_list(rest).len() == e);
    }
}

pub proof fn lemma_wrapped_layout(t: Ty, s: Seq<char>, i: int)
    requires
        t is Optional || t is Ref,
        at(s, i, sig(t)),
    ensures
        ({
            let is_ref = t is Ref;
            let b = if is_ref {
                *(t->Ref_0)
            } else {
                *(t->Optional_0)
            };
            let n: int = if is_ref {
                3
            } else {
                8
            };
            let k1 = i + n + 1;
            let eb = k1 + sig(b).len();
            &&& token_at(s, i).1 == n
            &&& ident_start_char(s[i])
            &&& classify(s.subrange(i, i + n)) == (if is_ref {
                Keyword::Ref
            } else {
                Keyword::Optional
            })
            &&& s[i + n] == '('
            &&& ws_run(s, i + n) == 0
            &&& at(s, k1, sig(b))
            &&& s[eb] == ')'
            &&& eb + 1 == i + sig(t).len()
        }),
{
    reveal_strlit("optional(");
    reveal_strlit("optional");
    reveal_strlit("ref(");
    reveal_strlit("ref");
    reveal_strlit(")");
    let is_ref = t is Ref;
    let b = if is_ref {
        *(t->Ref_0)
    } else {
        *(t->Optional_0)
    };
    let open = if is_ref {
        "ref("@
    } else {
        "optional("@
    };
    let kw = if is_ref {
        "ref"@
    } else {
        "optional"@
    };
    let n = kw.len() as int;
    assert(sig(t) == open + sig(b) + ")"@);
    lemma_at_split(s, i, open + sig(b), ")"@);
    lemma_at_split(s, i, open, sig(b));
    assert forall|j: int| i <= j < i + n implies ident_continue_char(#[trigger] s[j]) && s[j]
        == kw[j - i] by {
        lemma_at_index(s, i, open, j - i);
    }
    lemma_at_index(s, i, open, n);
    lemma_ident_run_exact(s, i + 1, i + n);
    assert(s.subrange(i, i + n) =~= kw);
    if is_ref {
        lemma_classify_ref();
    } else {
        lemma_classify_optional();
    }
    let eb = i + n + 1 + sig(b).len();
    lemma_at_index(s, eb, ")"@, 0);
}

#[verifier::rlimit(100)]
pub proof fn lemma_wrapped_parse(t: Ty, s: Seq<char>, i: int, d: nat)
    requires
        t is Optional || t is Ref,
        valid(t),
        depth(t) + d <= 16,
        at(s, i, sig(t)),
        ends_type(s, i + sig(t).len()),
    ensures
        sig(t).len() >= 1,
        p_type(s, i, d) == p_suffix(s, i + sig(t).len(), canon(t)),
        ident_start_char(s[i]),
        !(classify(s.subrange(i, i + token_at(s, i).1)) is Unknown),
    decreases t, 0nat,
{
    let is_ref = t is Ref;
    let b = if is_ref {
        *(t->Ref_0)
    } else {
        *(t->Optional_0)
    };
    let n: int = if is_ref {
        3
    } else {
        8
    };
    let e = i + sig(t).len();
    lemma_wrapped_layout(t, s, i);
    let k1 = i + n + 1;
    let eb = k1 + sig(b).len();
    lemma_type_parse(b, s, k1, d + 1);
    lemma_suffix_end(s, eb, canon(b));
    assert(ws_run(s, k1) == 0);
    assert(ws_run(s, eb) == 0);
    assert(p_type(s, i, d) == p_wrapped(s, i, i + n, d, is_ref));
    assert(p_type(s, k1, d + 1) == Ok::<(Ty, int), PErr>((canon(b), eb)));
    assert(canon(t) == (if is_ref {
        Ty::Ref(Box::new(canon(b)))
    } else {
        Ty::Optional(Box::new(canon(b)))
    }));
    assert(p_wrapped(s, i, i + n, d, is_ref) == p_suffix(s, e, canon(t)));
}

pub proof fn lemma_map_layout(t: Ty, s: Seq<char>, i: int)
    requires
        t is Mapping,
        at(s, i, sig(t)),
        i + sig(t).len() <= s.len(),
    ensures
        ({
            let kt = *(t->Mapping_0);
            let vt = *(t->Mapping_1);
            let k0 = i + 4;
            let ek = k0 + sig(kt).len();
            let v0 = ek + 1;
            let ev = v0 + sig(vt).len();
            &&& token_at(s, i).1 == 3
            &&& ident_start_char(s[i])
            &&& classify(s.subrange(i, i + 3)) == Keyword::Mapping
            &&& s[i + 3] == '('
            &&& ws_run(s, i + 3) == 0
            &&& at(s, k0, sig(kt))
            &&& at(s, v0, sig(vt))
            &&& s[ek] == ','
            &&& s[ev] == ')'
            &&& ev + 1 == i + sig(t).len()
        }),
{
    reveal_strlit("map(");
    reveal_strlit("map");
    reveal_strlit(",");
    reveal_strlit(")");
    let kt = *(t->Mapping_0);
    let vt = *(t->Mapping_1);
    assert(sig(t) == "map("@ + sig(kt) + ","@ + sig(vt) + ")"@);
    lemma_at_split(s, i, "map("@ + sig(kt) + ","@ + sig(vt), ")"@);
    lemma_at_split(s, i, "map("@ + sig(kt) + ","@, sig(vt));
    lemma_at_split(s, i, "map("@ + sig(kt), ","@);
    lemma_at_split(s, i, "map("@, sig(kt));
    assert forall|j: int| i <= j < i + 3 implies ident_continue_char(#[trigger] s[j]) && s[j]
        == "map"@[j - i] by {
        lemma_at_index(s, i, "map("@, j - i);
    }
    lemma_at_index(s, i, "map("@, 3);
    lemma_ident_run_exact(s, i + 1, i + 3);
    assert(s.subrange(i, i + 3) =~= "map"@);
    lemma_classify_map();
    let ek = i + 4 + sig(kt).len();
    let ev = ek + 1 + sig(vt).len();
    lemma_at_index(s, ek, ","@, 0);
    lemma_at_index(s, ev, ")"@, 0);
}

#[verifier::rlimit(100)]
pub proof fn lemma_map_parse(t: Ty, s: Seq<char>, i: int, d: nat)
    requires
        t is Mapping,
        valid(t),
        depth(t) + d <= 16,
        at(s, i, sig(t)),
        ends_type(s, i + sig(t).len()),
    ensures
        sig(t).len() >= 1,
        p_type(s, i, d) == p_suffix(s, i + sig(t).len(), canon(t)),
        ident_start_char(s[i]),
        !(classify(s.subrange(i, i + token_at(s, i).1)) is Unknown),
    decreases t, 0nat,
{
    let kt = *(t->Mapping_0);
    let vt = *(t->Mapping_1);
    let e = i + sig(t).len();
    lemma_map_layout(t, s, i);
    let k0 = i + 4;
    let ek = k0 + sig(kt).len();
    let v0 = ek + 1;
    let ev = v0 + sig(vt).len();
    lemma_type_parse(kt, s, k0, d + 1);
    lemma_type_parse(vt, s, v0, d + 1);
    lemma_suffix_end(s, ek, canon(kt));
    lemma_suffix_end(s, ev, canon(vt));
    assert(ws_run(s, k0) == 0);
    assert(ws_run(s, ek) == 0);
    assert(ws_run(s, v0) == 0);
    assert(ws_run(s, ev) == 0);
    assert(p_type(s, i, d) == p_map(s, i, i + 3, d));
    assert(p_type(s, k0, d + 1) == Ok::<(Ty, int), PErr>((canon(kt), ek)));
    assert(p_type(s, v0, d + 1) == Ok::<(Ty, int), PErr>((canon(vt), ev)));
    assert(canon(t) == Ty::Mapping(Box::new(canon(kt)), Box::new(canon(vt))));
    assert(p_map(s, i, i + 3, d) == p_suffix(s, e, canon(t)));
}

/// Round trip: parsing the canonical signature of a type whose widths and
/// sizes are allowed, whose tuples are not empty and which nests at most
/// sixteen groups gives that type back, its tuple values carrying the
/// synthesized names; a tuple at the top stands for the list of its values.
pub proof fn lemma_round_trip(t: Ty)
    requires
        valid(t),
        depth(t) <= 16,
    ensures
        p_entity(sig(t)) == Ok::<EntityV, PErr>(EntityV::Cell(top_fields(canon(t)))),
{
    let s = sig(t);
    let fs = seq![Field { name: seq![], ty: t }];
    assert(fs.subrange(1, 1) =~= Seq::<Field>::empty());
    assert(fs[0].ty == t);
    assert(valid_fields(Seq::<Field>::empty()));
    assert(depth_fields(Seq::<Field>::empty()) == 0);
    assert(sig_list(fs) == s);
    assert(valid_fields(fs));
    assert(depth_fields(fs) == depth(t));
    assert(s.subrange(0, s.len() as int) =~= s);
    lemma_list_parse(fs, s, 0, 0);
    lemma_type_parse(t, s, 0, 0);
    assert(canon_list(Seq::<Field>::empty()) =~= Seq::<Ty>::empty());
    assert(canon_list(fs) =~= seq![canon(t)]);
    assert(ws_run(s, 0) == 0);
    assert(skip_ws(s, 0) == 0);
    if !(canon(t) is Tuple) {
        assert(name_fields(seq![canon(t)]) =~= seq![Field { name: value_name(0), ty: canon(t) }]);
    }
}

/// Every type of the notation that nests at most sixteen groups parses from
/// its canonical signature.
pub proof fn lemma_within_nesting_limit_parses(t: Ty)
    requires
        valid(t),
        depth(t) <= 16,
    ensures
        p_entity(sig(t)) is Ok,
{
    lemma_round_trip(t);
}

} // verus!
