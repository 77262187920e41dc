//! Character-level helpers shared by the lexer, the parser and the generator.
use vstd::prelude::*;

verus! {

/// Number of bytes that `c` takes in UTF-8.
pub open spec fn utf8_width(c: char) -> nat {
    if (c as u32) < 0x80 {
        1
    } else if (c as u32) < 0x800 {
        2
    } else if (c as u32) < 0x10000 {
        3
    } else {
        4
    }
}

/// Number of bytes that `s` takes in UTF-8.
pub open spec fn byte_len(s: Seq<char>) -> nat
    decreases s.len(),
{
    if s.len() == 0 {
        0
    } else {
        byte_len(s.drop_last()) + utf8_width(s.last())
    }
}

pub proof fn lemma_byte_len_push(s: Seq<char>, c: char)
    ensures
        byte_len(s.push(c)) == byte_len(s) + utf8_width(c),
{
    assert(s.push(c).drop_last() =~= s);
}

pub proof fn lemma_byte_len_take(s: Seq<char>, i: int)
    requires
        0 <= i < s.len(),
    ensures
        byte_len(s.take(i + 1)) == byte_len(s.take(i)) + utf8_width(s[i]),
{
    assert(s.take(i + 1) =~= s.take(i).push(s[i]));
    lemma_byte_len_push(s.take(i), s[i]);
}

pub proof fn lemma_byte_len_concat(a: Seq<char>, b: Seq<char>)
    ensures
        byte_len(a + b) == byte_len(a) + byte_len(b),
    decreases b.len(),
{
    if b.len() > 0 {
        assert((a + b).drop_last() =~= a + b.drop_last());
        lemma_byte_len_concat(a, b.drop_last());
    } else {
        assert(a + b =~= a);
    }
}

pub proof fn lemma_byte_len_mono(s: Seq<char>, i: int, j: int)
    requires
        0 <= i <= j <= s.len(),
    ensures
        byte_len(s.take(i)) <= byte_len(s.take(j)),
    decreases j - i,
{
    if i < j {
        lemma_byte_len_mono(s, i, j - 1);
        lemma_byte_len_take(s, j - 1);
    }
}

/// The UTF-8 width of a character, as `char::len_utf8` computes it.
pub fn char_width(c: char) -> (r: usize)
    ensures
        r == utf8_width(c),
        1 <= r <= 4,
{
    let u = c as u32;
    if u < 0x80 {
        1
    } else if u < 0x800 {
        2
    } else if u < 0x10000 {
        3
    } else {
        4
    }
}

pub proof fn lemma_width_encode(c: char)
    ensures
        utf8_width(c) == vstd::utf8::encode_scalar(c as u32).len(),
{
    vstd::utf8::char_is_scalar(c);
}

pub proof fn lemma_byte_len_encode(s: Seq<char>)
    ensures
        byte_len(s) == vstd::utf8::encode_utf8(s).len(),
    decreases s.len(),
{
    if s.len() > 0 {
        lemma_byte_len_encode(s.drop_first());
        lemma_width_encode(s[0]);
        assert(s =~= seq![s[0]] + s.drop_first());
        lemma_byte_len_concat(seq![s[0]], s.drop_first());
        let one = seq![s[0]];
        assert(one.drop_last().len() == 0);
        assert(byte_len(one.drop_last()) == 0);
        assert(one.last() == s[0]);
        assert(byte_len(one) == utf8_width(s[0]));
        assert(vstd::utf8::encode_utf8(s) == vstd::utf8::encode_scalar(s[0] as u32)
            + vstd::utf8::encode_utf8(s.drop_first()));
    }
}

/// The characters of a string slice.
pub(crate) fn chars_of(s: &str) -> (r: Vec<char>)
    ensures
        r@ == s@,
{
    let n = s.unicode_len();
    let mut v: Vec<char> = Vec::new();
    let mut i: usize = 0;
    while i < n
        invariant
            i <= n == s@.len(),
            v@ == s@.take(i as int),
        decreases n - i,
    {
        v.push(s.get_char(i));
        i = i + 1;
        proof {
            assert(v@ =~= s@.take(i as int));
        }
    }
    proof {
        assert(s@.take(n as int) =~= s@);
    }
    v
}

/// A string made of the given characters.
///
/// Relies on `String: FromIterator<char>`: the characters in order.
#[verifier::external_body]
pub(crate) fn string_from_chars(v: &[char]) -> (r: String)
    ensures
        r@ == v@,
{
    v.iter().collect()
}

/// Whether the characters of `v` spell `lit`.
pub fn chars_are(v: &[char], lit: &str) -> (r: bool)
    ensures
        r == (v@ == lit@),
{
    let n = lit.unicode_len();
    if v.len() != n {
        return false;
    }
    let mut k: usize = 0;
    while k < n
        invariant
            k <= n == lit@.len() == v@.len(),
            forall|j: int| 0 <= j < k ==> v@[j] == lit@[j],
        decreases n - k,
    {
        if v[k] != lit.get_char(k) {
            return false;
        }
        k = k + 1;
    }
    proof {
        assert(v@ =~= lit@);
    }
    true
}

/// Appends the characters of `v` to `out`.
pub fn push_chars(out: &mut Vec<char>, v: &[char])
    ensures
        final(out)@ == old(out)@ + v@,
{
    let mut k: usize = 0;
    while k < v.len()
        invariant
            k <= v@.len(),
            out@ == old(out)@ + v@.subrange(0, k as int),
        decreases v@.len() - k,
    {
        out.push(v[k]);
        k = k + 1;
        proof {
            assert(out@ =~= old(out)@ + v@.subrange(0, k as int));
        }
    }
    proof {
        assert(v@.subrange(0, k as int) =~= v@);
    }
}

pub open spec fn ascii_upper(c: char) -> bool {
    'A' <= c && c <= 'Z'
}

pub open spec fn ascii_lower(c: char) -> bool {
    'a' <= c && c <= 'z'
}

/// `c` with an ASCII capital made lower case.
pub open spec fn to_ascii_lower(c: char) -> char {
    if ascii_upper(c) {
        "abcdefghijklmnopqrstuvwxyz"@[(c as u32 - 'A' as u32) as int]
    } else {
        c
    }
}

/// `c` with an ASCII small letter made upper case.
pub open spec fn to_ascii_upper(c: char) -> char {
    if ascii_lower(c) {
        "ABCDEFGHIJKLMNOPQRSTUVWXYZ"@[(c as u32 - 'a' as u32) as int]
    } else {
        c
    }
}

/// What snake case makes of the character at index `i`: an ASCII capital
/// becomes `_` (not at index 0) and its small letter.
pub open spec fn snake_piece(c: char, i: int) -> Seq<char> {
    if ascii_upper(c) {
        if i != 0 {
            seq!['_', to_ascii_lower(c)]
        } else {
            seq![to_ascii_lower(c)]
        }
    } else {
        seq![c]
    }
}

/// The snake-case form of a name.
pub open spec fn snake_of(s: Seq<char>) -> Seq<char>
    decreases s.len(),
{
    if s.len() == 0 {
        seq![]
    } else {
        snake_of(s.drop_last()) + snake_piece(s.last(), s.len() - 1)
    }
}

/// Camel case from `s`: underscores are dropped, and the first letter and
/// each letter after an underscore are made upper case (ASCII only) when
/// `new_word` starts a word.
pub open spec fn camel_from(s: Seq<char>, new_word: bool) -> Seq<char>
    decreases s.len(),
{
    if s.len() == 0 {
        seq![]
    } else if s[0] == '_' {
        camel_from(s.drop_first(), true)
    } else if new_word {
        seq![to_ascii_upper(s[0])] + camel_from(s.drop_first(), false)
    } else {
        seq![s[0]] + camel_from(s.drop_first(), false)
    }
}

/// The camel-case form of a name, with its first letter upper case.
pub open spec fn camel_of(s: Seq<char>) -> Seq<char> {
    camel_from(s, true)
}

} // verus!
