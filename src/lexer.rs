//! Splits interface text into classified tokens.
//!
//! Lexing never fails: every character belongs to exactly one token, and a
//! character that no rule recognises becomes an `Unknown` token of its own.
use vstd::prelude::*;

use crate::text::{byte_len, char_width, chars_of, lemma_byte_len_concat, lemma_byte_len_encode};

verus! {

#[derive(Copy, Clone, Debug, PartialEq, Eq, Structural)]
pub enum TokenKind {
    Whitespace,
    Ident,
    Comma,
    OpenParen,
    CloseParen,
    OpenBracket,
    CloseBracket,
    Unknown,
}

/// A token: its kind and its length in bytes of UTF-8.
#[derive(Copy, Clone, Debug, PartialEq, Eq, Structural)]
pub struct Token {
    pub kind: TokenKind,
    pub len: usize,
}

/// The character a cursor reports past the end of its input.
pub const EOF_CHAR: char = '\0';

pub open spec fn whitespace_char(c: char) -> bool {
    c == ' ' || c == '\t' || c == '\n' || c == '\r' || c == '\u{000B}' || c == '\u{000C}'
        || c == '\u{0085}' || c == '\u{200E}' || c == '\u{200F}' || c == '\u{2028}'
        || c == '\u{2029}' || c == '\u{00A0}' || c == '\u{1680}' || ('\u{2000}' <= c && c
        <= '\u{200A}') || c == '\u{202F}' || c == '\u{205F}' || c == '\u{3000}'
}

pub open spec fn ident_start_char(c: char) -> bool {
    ('a' <= c && c <= 'z') || ('A' <= c && c <= 'Z') || c == '_'
}

pub open spec fn ident_continue_char(c: char) -> bool {
    ident_start_char(c) || ('0' <= c && c <= '9')
}

/// Number of whitespace characters of `s` from index `i` on.
pub open spec fn ws_run(s: Seq<char>, i: int) -> nat
    decreases s.len() - i,
{
    if 0 <= i < s.len() && whitespace_char(s[i]) {
        1 + ws_run(s, i + 1)
    } else {
        0
    }
}

/// Number of identifier characters of `s` from index `i` on.
pub open spec fn ident_run(s: Seq<char>, i: int) -> nat
    decreases s.len() - i,
{
    if 0 <= i < s.len() && ident_continue_char(s[i]) {
        1 + ident_run(s, i + 1)
    } else {
        0
    }
}

/// The kind of the token that starts at index `i` of `s`, and how many
/// characters it spans.
pub open spec fn token_at(s: Seq<char>, i: int) -> (TokenKind, nat) {
    let c = s[i];
    if whitespace_char(c) {
        (TokenKind::Whitespace, 1 + ws_run(s, i + 1))
    } else if ident_start_char(c) {
        (TokenKind::Ident, 1 + ident_run(s, i + 1))
    } else if c == ',' {
        (TokenKind::Comma, 1)
    } else if c == '(' {
        (TokenKind::OpenParen, 1)
    } else if c == ')' {
        (TokenKind::CloseParen, 1)
    } else if c == '[' {
        (TokenKind::OpenBracket, 1)
    } else if c == ']' {
        (TokenKind::CloseBracket, 1)
    } else {
        (TokenKind::Unknown, 1)
    }
}

/// The tokens of `s` from index `i` on, as kinds and byte lengths.
pub open spec fn lex_from(s: Seq<char>, i: int) -> Seq<(TokenKind, nat)>
    decreases s.len() - i,
{
    let (kind, n) = token_at(s, i);
    if i < 0 || i >= s.len() || n == 0 || i + n > s.len() {
        seq![]
    } else {
        seq![(kind, byte_len(s.subrange(i, i + n)))] + lex_from(s, i + n)
    }
}

/// The tokens of `s`, as kinds and byte lengths.
pub open spec fn lex(s: Seq<char>) -> Seq<(TokenKind, nat)> {
    lex_from(s, 0)
}

pub open spec fn token_view(t: Token) -> (TokenKind, nat) {
    (t.kind, t.len as nat)
}

pub proof fn lemma_ws_run_bound(s: Seq<char>, i: int)
    requires
        0 <= i <= s.len(),
    ensures
        i + ws_run(s, i) <= s.len(),
        forall|j: int| i <= j < i + ws_run(s, i) ==> whitespace_char(#[trigger] s[j]),
        i + ws_run(s, i) < s.len() ==> !whitespace_char(s[i + ws_run(s, i)]),
    decreases s.len() - i,
{
    if i < s.len() && whitespace_char(s[i]) {
        lemma_ws_run_bound(s, i + 1);
    }
}

pub proof fn lemma_ident_run_bound(s: Seq<char>, i: int)
    requires
        0 <= i <= s.len(),
    ensures
        i + ident_run(s, i) <= s.len(),
        forall|j: int| i <= j < i + ident_run(s, i) ==> ident_continue_char(#[trigger] s[j]),
        i + ident_run(s, i) < s.len() ==> !ident_continue_char(s[i + ident_run(s, i)]),
    decreases s.len() - i,
{
    if i < s.len() && ident_continue_char(s[i]) {
        lemma_ident_run_bound(s, i + 1);
    }
}

pub proof fn lemma_token_at_bound(s: Seq<char>, i: int)
    requires
        0 <= i < s.len(),
    ensures
        1 <= token_at(s, i).1,
        i + token_at(s, i).1 <= s.len(),
{
    lemma_ws_run_bound(s, i + 1);
    lemma_ident_run_bound(s, i + 1);
}

pub fn is_whitespace(c: char) -> (r: bool)
    ensures
        r == whitespace_char(c),
{
    c == ' ' || c == '\t' || c == '\n' || c == '\r' || c == '\u{000B}' || c == '\u{000C}'
        || c == '\u{0085}' || c == '\u{200E}' || c == '\u{200F}' || c == '\u{2028}'
        || c == '\u{2029}' || c == '\u{00A0}' || c == '\u{1680}' || ('\u{2000}' <= c && c
        <= '\u{200A}') || c == '\u{202F}' || c == '\u{205F}' || c == '\u{3000}'
}

pub fn is_ident_start(c: char) -> (r: bool)
    ensures
        r == ident_start_char(c),
{
    ('a' <= c && c <= 'z') || ('A' <= c && c <= 'Z') || c == '_'
}

pub fn is_ident_continue(c: char) -> (r: bool)
    ensures
        r == ident_continue_char(c),
{
    ('a' <= c && c <= 'z') || ('A' <= c && c <= 'Z') || ('0' <= c && c <= '9') || c == '_'
}

/// Reads one token from a position of a character slice.
pub struct Cursor<'a> {
    /// The whole input.
    pub input: &'a [char],
    /// Where the current token started.
    pub start: usize,
    /// The next character to read.
    pub pos: usize,
    /// Bytes read since `start`.
    pub consumed: usize,
}

impl<'a> Cursor<'a> {
    pub open spec fn wf(&self) -> bool {
        &&& self.start <= self.pos <= self.input@.len()
        &&& self.consumed == byte_len(self.input@.subrange(self.start as int, self.pos as int))
        &&& byte_len(self.input@) <= usize::MAX
    }

    pub fn new(input: &'a [char], start: usize) -> (r: Cursor<'a>)
        requires
            start <= input@.len(),
            byte_len(input@) <= usize::MAX,
        ensures
            r.wf(),
            r.input@ == input@,
            r.start == start,
            r.pos == start,
    {
        proof {
            assert(input@.subrange(start as int, start as int).len() == 0);
        }
        Cursor { input, start, pos: start, consumed: 0 }
    }

    /// The next character, or `EOF_CHAR` at the end of the input.
    pub fn first(&self) -> (r: char)
        requires
            self.wf(),
        ensures
            r == (if self.pos < self.input@.len() {
                self.input@[self.pos as int]
            } else {
                EOF_CHAR
            }),
    {
        self.nth_char(0)
    }

    /// The character `n` places ahead, or `EOF_CHAR` past the end.
    pub fn nth_char(&self, n: usize) -> (r: char)
        requires
            self.wf(),
        ensures
            r == (if self.pos + n < self.input@.len() {
                self.input@[self.pos + n]
            } else {
                EOF_CHAR
            }),
    {
        if n < self.input.len() - self.pos {
            self.input[self.pos + n]
        } else {
            EOF_CHAR
        }
    }

    pub fn is_eof(&self) -> (r: bool)
        requires
            self.wf(),
        ensures
            r == (self.pos == self.input@.len()),
    {
        self.pos == self.input.len()
    }

    /// Bytes read since the current token started.
    pub fn len_consumed(&self) -> (r: usize)
        requires
            self.wf(),
        ensures
            r == byte_len(self.input@.subrange(self.start as int, self.pos as int)),
    {
        self.consumed
    }

    /// Reads the next character, if any.
    pub fn bump(&mut self) -> (r: Option<char>)
        requires
            old(self).wf(),
        ensures
            final(self).wf(),
            final(self).input == old(self).input,
            final(self).start == old(self).start,
            old(self).pos < old(self).input@.len() ==> r == Some(old(self).input@[old(self).pos as int])
                && final(self).pos == old(self).pos + 1,
            old(self).pos == old(self).input@.len() ==> r is None && final(self).pos == old(self).pos,
    {
        if self.pos < self.input.len() {
            let c = self.input[self.pos];
            let w = char_width(c);
            proof {
                let s = self.input@;
                let a = self.start as int;
                let p = self.pos as int;
                assert(s.subrange(a, p + 1) =~= s.subrange(a, p).push(c));
                crate::text::lemma_byte_len_push(s.subrange(a, p), c);
                lemma_sub_le(s, a, p + 1);
            }
            self.consumed = self.consumed + w;
            self.pos = self.pos + 1;
            Some(c)
        } else {
            None
        }
    }

    fn whitespace(&mut self) -> (r: TokenKind)
        requires
            old(self).wf(),
        ensures
            final(self).wf(),
            final(self).input == old(self).input,
            final(self).start == old(self).start,
            final(self).pos == old(self).pos + ws_run(old(self).input@, old(self).pos as int),
            r == TokenKind::Whitespace,
    {
        proof {
            lemma_ws_run_bound(self.input@, self.pos as int);
        }
        let ghost p0 = self.pos as int;
        while self.pos < self.input.len() && is_whitespace(self.input[self.pos])
            invariant
                self.wf(),
                self.input == old(self).input,
                self.start == old(self).start,
                p0 <= self.pos,
                self.pos + ws_run(self.input@, self.pos as int) == p0 + ws_run(self.input@, p0),
            decreases self.input@.len() - self.pos,
        {
            self.bump();
        }
        TokenKind::Whitespace
    }

    fn ident(&mut self) -> (r: TokenKind)
        requires
            old(self).wf(),
        ensures
            final(self).wf(),
            final(self).input == old(self).input,
            final(self).start == old(self).start,
            final(self).pos == old(self).pos + ident_run(old(self).input@, old(self).pos as int),
            r == TokenKind::Ident,
    {
        let ghost p0 = self.pos as int;
        while self.pos < self.input.len() && is_ident_continue(self.input[self.pos])
            invariant
                self.wf(),
                self.input == old(self).input,
                self.start == old(self).start,
                p0 <= self.pos,
                self.pos + ident_run(self.input@, self.pos as int) == p0 + ident_run(self.input@, p0),
            decreases self.input@.len() - self.pos,
        {
            self.bump();
        }
        TokenKind::Ident
    }

    /// Reads the token that starts at the cursor.
    pub fn advance_token(&mut self) -> (r: Token)
        requires
            old(self).wf(),
            old(self).start == old(self).pos,
            old(self).pos < old(self).input@.len(),
        ensures
            final(self).wf(),
            final(self).input == old(self).input,
            final(self).start == old(self).start,
            r.kind == token_at(old(self).input@, old(self).pos as int).0,
            final(self).pos == old(self).pos + token_at(old(self).input@, old(self).pos as int).1,
            r.len == byte_len(old(self).input@.subrange(old(self).pos as int, final(self).pos as int)),
    {
        let c = match self.bump() {
            Some(c) => c,
            None => EOF_CHAR,
        };
        let kind = if is_whitespace(c) {
            self.whitespace()
        } else if is_ident_start(c) {
            self.ident()
        } else if c == ',' {
            TokenKind::Comma
        } else if c == '(' {
            TokenKind::OpenParen
        } else if c == ')' {
            TokenKind::CloseParen
        } else if c == '[' {
            TokenKind::OpenBracket
        } else if c == ']' {
            TokenKind::CloseBracket
        } else {
            TokenKind::Unknown
        };
        Token { kind, len: self.len_consumed() }
    }
}

pub proof fn lemma_sub_le(s: Seq<char>, a: int, b: int)
    requires
        0 <= a <= b <= s.len(),
    ensures
        byte_len(s.subrange(a, b)) <= byte_len(s),
{
    assert(s =~= s.subrange(0, a) + s.subrange(a, b) + s.subrange(b, s.len() as int));
    lemma_byte_len_concat(s.subrange(0, a) + s.subrange(a, b), s.subrange(b, s.len() as int));
    lemma_byte_len_concat(s.subrange(0, a), s.subrange(a, b));
}

/// The token that starts at index `start` of `input`, and the index just past it.
pub fn first_token(input: &[char], start: usize) -> (r: (Token, usize))
    requires
        start < input@.len(),
        byte_len(input@) <= usize::MAX,
    ensures
        r.0.kind == token_at(input@, start as int).0,
        r.1 == start + token_at(input@, start as int).1,
        r.0.len == byte_len(input@.subrange(start as int, r.1 as int)),
{
    let mut cursor = Cursor::new(input, start);
    let token = cursor.advance_token();
    (token, cursor.pos)
}

/// Splits `input` into tokens that cover it without gaps.
pub fn tokenize(input: &str) -> (r: Vec<Token>)
    ensures
        r@.map_values(|t: Token| token_view(t)) == lex(input@),
{
    let chars = chars_of(input);
    let n_bytes = input.as_bytes().len();
    proof {
        lemma_byte_len_encode(input@);
    }
    let mut tokens: Vec<Token> = Vec::new();
    let mut i: usize = 0;
    while i < chars.len()
        invariant
            i <= chars@.len(),
            chars@ == input@,
            byte_len(chars@) <= usize::MAX,
            tokens@.map_values(|t: Token| token_view(t)) + lex_from(chars@, i as int) == lex(
                chars@,
            ),
        decreases chars@.len() - i,
    {
        proof {
            lemma_token_at_bound(chars@, i as int);
        }
        let (token, next) = first_token(chars.as_slice(), i);
        proof {
            let s = chars@;
            let old_seq = tokens@.map_values(|t: Token| token_view(t));
            assert(lex_from(s, i as int) == seq![token_view(token)] + lex_from(s, next as int));
            assert(tokens@.push(token).map_values(|t: Token| token_view(t)) =~= old_seq.push(
                token_view(token),
            ));
            assert(old_seq.push(token_view(token)) + lex_from(s, next as int) =~= old_seq + (seq![
                token_view(token),
            ] + lex_from(s, next as int)));
        }
        tokens.push(token);
        i = next;
    }
    proof {
        assert(lex_from(chars@, i as int) =~= seq![]);
        assert(tokens@.map_values(|t: Token| token_view(t)) + seq![] =~= tokens@.map_values(
            |t: Token| token_view(t),
        ));
    }
    tokens
}

} // verus!
