//! The lexer: turns raw source text into a flat token sequence.
//!
//! `lex_from` is the specification: a recursive function over the source's
//! character sequence giving, from a position, the tokens of the rest of the
//! input (`None` exactly when an unterminated string literal is met).
//! `tokenize` is proved to return exactly that sequence. Whitespace and any
//! character no rule matches are dropped silently — deliberate leniency of
//! the language, not an error path.

use vstd::prelude::*;

use crate::errors::{Error, ErrorKind};
use crate::text::{is_digit, str_eq};

verus! {

/// The kind of a token.
#[derive(Clone, Copy, Debug, PartialEq, Eq, Structural)]
pub enum TokenType {
    IntLit,
    Ident,
    Eq,
    Semi,
    OpenParen,
    CloseParen,
    OpenBrace,
    CloseBrace,
    OpenBracket,
    CloseBracket,
    Func,
    If,
    Else,
    Comma,
    MemAccess,
    Colon,
    StringLit,
    BinOp,
    Let,
    Const,
    Mut,
    Ret,
    For,
    In,
    EOF,
}

/// One lexical unit: its kind and its text.
pub struct Token {
    pub token_type: TokenType,
    pub value: String,
}

/// The mathematical view of a token: kind and text.
pub type TokenV = (TokenType, Seq<char>);

impl View for Token {
    type V = TokenV;

    open spec fn view(&self) -> TokenV {
        (self.token_type, self.value@)
    }
}

impl Clone for Token {
    /// Copy; the views coincide.
    fn clone(&self) -> (res: Self)
        ensures
            res@ == self@,
    {
        Token { token_type: self.token_type, value: self.value.clone() }
    }
}

/// Whether `c` may start an identifier.
pub open spec fn is_letter(c: char) -> bool {
    (('a' as u32) <= (c as u32) && (c as u32) <= ('z' as u32)) || (('A' as u32) <= (c as u32)
        && (c as u32) <= ('Z' as u32))
}

/// Whether `c` may continue an identifier. The lexer greedily consumes
/// letters, digits, `_`, `-` and `!`, which admits names like `print!`.
pub open spec fn is_ident_char(c: char) -> bool {
    is_letter(c) || is_digit(c) || c == '_' || c == '-' || c == '!'
}

/// End of the digit run starting at `i`.
pub open spec fn digits_end(s: Seq<char>, i: int) -> int
    decreases s.len() - i,
{
    if 0 <= i < s.len() && is_digit(s[i]) {
        digits_end(s, i + 1)
    } else {
        i
    }
}

/// End of the identifier-character run starting at `i`.
pub open spec fn ident_end(s: Seq<char>, i: int) -> int
    decreases s.len() - i,
{
    if 0 <= i < s.len() && is_ident_char(s[i]) {
        ident_end(s, i + 1)
    } else {
        i
    }
}

/// Position of the first `"` at or after `i`, or `-1` if there is none.
pub open spec fn string_end(s: Seq<char>, i: int) -> int
    decreases s.len() - i,
{
    if i < 0 || i >= s.len() {
        -1
    } else if s[i] == '"' {
        i
    } else {
        string_end(s, i + 1)
    }
}

pub proof fn lemma_digits_end(s: Seq<char>, i: int)
    ensures
        0 <= i <= s.len() ==> i <= digits_end(s, i) <= s.len(),
        0 <= i < s.len() && is_digit(s[i]) ==> i + 1 <= digits_end(s, i),
    decreases s.len() - i,
{
    if 0 <= i < s.len() && is_digit(s[i]) {
        lemma_digits_end(s, i + 1);
    }
}

pub proof fn lemma_ident_end(s: Seq<char>, i: int)
    ensures
        0 <= i <= s.len() ==> i <= ident_end(s, i) <= s.len(),
        0 <= i < s.len() && is_ident_char(s[i]) ==> i + 1 <= ident_end(s, i),
    decreases s.len() - i,
{
    if 0 <= i < s.len() && is_ident_char(s[i]) {
        lemma_ident_end(s, i + 1);
    }
}

pub proof fn lemma_string_end(s: Seq<char>, i: int)
    ensures
        string_end(s, i) == -1 || (i <= string_end(s, i) < s.len()),
    decreases s.len() - i,
{
    if 0 <= i < s.len() && s[i] != '"' {
        lemma_string_end(s, i + 1);
    }
}

/// The keyword kind of an identifier-shaped word, or `Ident` if it is none
/// of the reserved words.
pub open spec fn word_kind(w: Seq<char>) -> TokenType {
    if w == "let"@ {
        TokenType::Let
    } else if w == "const"@ {
        TokenType::Const
    } else if w == "func"@ {
        TokenType::Func
    } else if w == "ret"@ {
        TokenType::Ret
    } else if w == "mut"@ {
        TokenType::Mut
    } else if w == "if"@ {
        TokenType::If
    } else if w == "else"@ {
        TokenType::Else
    } else if w == "for"@ {
        TokenType::For
    } else if w == "in"@ {
        TokenType::In
    } else {
        TokenType::Ident
    }
}

/// Prepends one token to an optional rest-of-input token sequence.
pub open spec fn cons_tok(t: TokenV, rest: Option<Seq<TokenV>>) -> Option<Seq<TokenV>> {
    match rest {
        Option::None => Option::None,
        Option::Some(r) => Option::Some(seq![t] + r),
    }
}

/// The tokens of the source from position `i` on: the specification of the
/// lexer. `None` exactly when an unterminated string literal is met. A
/// terminating end-of-input token is always appended.
pub open spec fn lex_from(s: Seq<char>, i: int) -> Option<Seq<TokenV>>
    decreases s.len() - i,
    via lex_from_decreases
{
    if i < 0 || i >= s.len() {
        Option::Some(seq![(TokenType::EOF, Seq::<char>::empty())])
    } else {
        let c = s[i];
        if c == '"' {
            let j = string_end(s, i + 1);
            if j < 0 {
                Option::None
            } else {
                cons_tok((TokenType::StringLit, s.subrange(i + 1, j)), lex_from(s, j + 1))
            }
        } else if c == '(' {
            cons_tok((TokenType::OpenParen, seq![c]), lex_from(s, i + 1))
        } else if c == ')' {
            cons_tok((TokenType::CloseParen, seq![c]), lex_from(s, i + 1))
        } else if c == '{' {
            cons_tok((TokenType::OpenBrace, seq![c]), lex_from(s, i + 1))
        } else if c == '}' {
            cons_tok((TokenType::CloseBrace, seq![c]), lex_from(s, i + 1))
        } else if c == '[' {
            cons_tok((TokenType::OpenBracket, seq![c]), lex_from(s, i + 1))
        } else if c == ']' {
            cons_tok((TokenType::CloseBracket, seq![c]), lex_from(s, i + 1))
        } else if c == ',' {
            cons_tok((TokenType::Comma, seq![c]), lex_from(s, i + 1))
        } else if c == ';' {
            cons_tok((TokenType::Semi, seq![c]), lex_from(s, i + 1))
        } else if c == ':' {
            if i + 1 < s.len() && s[i + 1] == ':' {
                cons_tok((TokenType::MemAccess, s.subrange(i, i + 2)), lex_from(s, i + 2))
            } else {
                cons_tok((TokenType::Colon, seq![c]), lex_from(s, i + 1))
            }
        } else if c == '.' {
            cons_tok((TokenType::MemAccess, seq![c]), lex_from(s, i + 1))
        } else if c == '=' {
            if i + 1 < s.len() && s[i + 1] == '=' {
                cons_tok((TokenType::BinOp, s.subrange(i, i + 2)), lex_from(s, i + 2))
            } else {
                cons_tok((TokenType::Eq, seq![c]), lex_from(s, i + 1))
            }
        } else if c == '!' && i + 1 < s.len() && s[i + 1] == '=' {
            cons_tok((TokenType::BinOp, s.subrange(i, i + 2)), lex_from(s, i + 2))
        } else if c == '+' || c == '-' || c == '*' || c == '/' || c == '%' || c == '<' || c == '>' {
            cons_tok((TokenType::BinOp, seq![c]), lex_from(s, i + 1))
        } else if is_digit(c) {
            let j = digits_end(s, i);
            cons_tok((TokenType::IntLit, s.subrange(i, j)), lex_from(s, j))
        } else if is_letter(c) {
            let j = ident_end(s, i);
            let w = s.subrange(i, j);
            cons_tok((word_kind(w), w), lex_from(s, j))
        } else {
            lex_from(s, i + 1)
        }
    }
}

#[via_fn]
proof fn lex_from_decreases(s: Seq<char>, i: int) {
    lemma_digits_end(s, i);
    lemma_ident_end(s, i);
    lemma_string_end(s, i + 1);
}

/// The views of a sequence of tokens.
pub open spec fn tokens_v(ts: Seq<Token>) -> Seq<TokenV> {
    ts.map_values(|t: Token| t@)
}

/// Prepends a sequence of already-produced tokens to an optional rest.
pub open spec fn opt_prepend(pre: Seq<TokenV>, rest: Option<Seq<TokenV>>) -> Option<Seq<TokenV>> {
    match rest {
        Option::None => Option::None,
        Option::Some(r) => Option::Some(pre + r),
    }
}

proof fn lemma_prepend_push(pre: Seq<TokenV>, t: TokenV, rest: Option<Seq<TokenV>>)
    ensures
        opt_prepend(pre, cons_tok(t, rest)) == opt_prepend(pre.push(t), rest),
{
    match rest {
        Option::None => {},
        Option::Some(r) => {
            assert(pre + (seq![t] + r) =~= pre.push(t) + r);
        },
    }
}

fn keyword_kind(text: &str) -> (k: TokenType)
    ensures
        k == word_kind(text@),
{
    if str_eq(text, "let") {
        TokenType::Let
    } else if str_eq(text, "const") {
        TokenType::Const
    } else if str_eq(text, "func") {
        TokenType::Func
    } else if str_eq(text, "ret") {
        TokenType::Ret
    } else if str_eq(text, "mut") {
        TokenType::Mut
    } else if str_eq(text, "if") {
        TokenType::If
    } else if str_eq(text, "else") {
        TokenType::Else
    } else if str_eq(text, "for") {
        TokenType::For
    } else if str_eq(text, "in") {
        TokenType::In
    } else {
        TokenType::Ident
    }
}

fn is_digit_char(c: char) -> (r: bool)
    ensures
        r == is_digit(c),
{
    ('0' as u32) <= (c as u32) && (c as u32) <= ('9' as u32)
}

fn is_letter_char(c: char) -> (r: bool)
    ensures
        r == is_letter(c),
{
    ((('a' as u32) <= (c as u32)) && ((c as u32) <= ('z' as u32))) || ((('A' as u32) <= (c as u32))
        && ((c as u32) <= ('Z' as u32)))
}

fn is_ident_char_exec(c: char) -> (r: bool)
    ensures
        r == is_ident_char(c),
{
    is_letter_char(c) || is_digit_char(c) || c == '_' || c == '-' || c == '!'
}

fn digit_at(src: &str, j: usize) -> (r: bool)
    requires
        j < src@.len(),
    ensures
        r == is_digit(src@[j as int]),
{
    is_digit_char(src.get_char(j))
}

fn ident_char_at(src: &str, j: usize) -> (r: bool)
    requires
        j < src@.len(),
    ensures
        r == is_ident_char(src@[j as int]),
{
    is_ident_char_exec(src.get_char(j))
}

/// Scans the whole source into tokens, ending with an end-of-input token.
/// Returns exactly the token sequence that `lex_from` gives from position 0,
/// or a lexing error when `lex_from` gives none.
pub fn tokenize(src: &str) -> (r: Result<Vec<Token>, Error>)
    ensures
        match lex_from(src@, 0) {
            Option::Some(toks) => r is Ok && tokens_v(r->Ok_0@) == toks,
            Option::None => r is Err && r->Err_0.kind == ErrorKind::Lex,
        },
{
    let ghost s = src@;
    let n = src.unicode_len();
    let mut tokens: Vec<Token> = Vec::new();
    let mut i: usize = 0;
    while i < n
        invariant
            s == src@,
            n == s.len(),
            i <= n,
            lex_from(s, 0) == opt_prepend(tokens_v(tokens@), lex_from(s, i as int)),
        decreases n - i,
    {
        let ghost pre = tokens_v(tokens@);
        let c = src.get_char(i);
        if c == '"' {
            let mut j: usize = i + 1;
            while j < n && src.get_char(j) != '"'
                invariant
                    s == src@,
                    n == s.len(),
                    i + 1 <= j <= n,
                    string_end(s, i + 1 as int) == string_end(s, j as int),
                decreases n - j,
            {
                j += 1;
            }
            if j == n {
                proof {
                    assert(string_end(s, j as int) == -1);
                }
                return Result::Err(Error::new(ErrorKind::Lex, "unterminated string literal"));
            }
            proof {
                assert(string_end(s, j as int) == j);
            }
            let text = src.substring_char(i + 1, j);
            let tok = Token { token_type: TokenType::StringLit, value: text.to_owned() };
            proof {
                assert(lex_from(s, i as int) == cons_tok(tok@, lex_from(s, j + 1 as int)));
                lemma_prepend_push(pre, tok@, lex_from(s, j + 1 as int));
            }
            tokens.push(tok);
            proof {
                assert(tokens_v(tokens@) =~= pre.push((TokenType::StringLit, s.subrange(
                    i + 1 as int,
                    j as int,
                ))));
            }
            i = j + 1;
        } else if c == '(' || c == ')' || c == '{' || c == '}' || c == '[' || c == ']' || c == ','
            || c == ';' || c == '.' {
            let kind = if c == '(' {
                TokenType::OpenParen
            } else if c == ')' {
                TokenType::CloseParen
            } else if c == '{' {
                TokenType::OpenBrace
            } else if c == '}' {
                TokenType::CloseBrace
            } else if c == '[' {
                TokenType::OpenBracket
            } else if c == ']' {
                TokenType::CloseBracket
            } else if c == ',' {
                TokenType::Comma
            } else if c == ';' {
                TokenType::Semi
            } else {
                TokenType::MemAccess
            };
            let text = src.substring_char(i, i + 1);
            let tok = Token { token_type: kind, value: text.to_owned() };
            proof {
                assert(s.subrange(i as int, i + 1 as int) =~= seq![c]);
                assert(lex_from(s, i as int) == cons_tok(tok@, lex_from(s, i + 1 as int)));
                lemma_prepend_push(pre, tok@, lex_from(s, i + 1 as int));
                assert(tokens_v(tokens@.push(tok)) =~= pre.push(tok@));
            }
            tokens.push(tok);
            i = i + 1;
        } else if c == ':' {
            if i + 1 < n && src.get_char(i + 1) == ':' {
                let text = src.substring_char(i, i + 2);
                let tok = Token { token_type: TokenType::MemAccess, value: text.to_owned() };
                proof {
                    assert(lex_from(s, i as int) == cons_tok(tok@, lex_from(s, i + 2 as int)));
                    lemma_prepend_push(pre, tok@, lex_from(s, i + 2 as int));
                    assert(tokens_v(tokens@.push(tok)) =~= pre.push(tok@));
                }
                tokens.push(tok);
                i = i + 2;
            } else {
                let text = src.substring_char(i, i + 1);
                let tok = Token { token_type: TokenType::Colon, value: text.to_owned() };
                proof {
                    assert(s.subrange(i as int, i + 1 as int) =~= seq![c]);
                    assert(lex_from(s, i as int) == cons_tok(tok@, lex_from(s, i + 1 as int)));
                    lemma_prepend_push(pre, tok@, lex_from(s, i + 1 as int));
                    assert(tokens_v(tokens@.push(tok)) =~= pre.push(tok@));
                }
                tokens.push(tok);
                i = i + 1;
            }
        } else if c == '=' {
            if i + 1 < n && src.get_char(i + 1) == '=' {
                let text = src.substring_char(i, i + 2);
                let tok = Token { token_type: TokenType::BinOp, value: text.to_owned() };
                proof {
                    assert(lex_from(s, i as int) == cons_tok(tok@, lex_from(s, i + 2 as int)));
                    lemma_prepend_push(pre, tok@, lex_from(s, i + 2 as int));
                    assert(tokens_v(tokens@.push(tok)) =~= pre.push(tok@));
                }
                tokens.push(tok);
                i = i + 2;
            } else {
                let text = src.substring_char(i, i + 1);
                let tok = Token { token_type: TokenType::Eq, value: text.to_owned() };
                proof {
                    assert(s.subrange(i as int, i + 1 as int) =~= seq![c]);
                    assert(lex_from(s, i as int) == cons_tok(tok@, lex_from(s, i + 1 as int)));
                    lemma_prepend_push(pre, tok@, lex_from(s, i + 1 as int));
                    assert(tokens_v(tokens@.push(tok)) =~= pre.push(tok@));
                }
                tokens.push(tok);
                i = i + 1;
            }
        } else if c == '!' && i + 1 < n && src.get_char(i + 1) == '=' {
            let text = src.substring_char(i, i + 2);
            let tok = Token { token_type: TokenType::BinOp, value: text.to_owned() };
            proof {
                assert(lex_from(s, i as int) == cons_tok(tok@, lex_from(s, i + 2 as int)));
                lemma_prepend_push(pre, tok@, lex_from(s, i + 2 as int));
                assert(tokens_v(tokens@.push(tok)) =~= pre.push(tok@));
            }
            tokens.push(tok);
            i = i + 2;
        } else if c == '+' || c == '-' || c == '*' || c == '/' || c == '%' || c == '<' || c == '>' {
            let text = src.substring_char(i, i + 1);
            let tok = Token { token_type: TokenType::BinOp, value: text.to_owned() };
            proof {
                assert(s.subrange(i as int, i + 1 as int) =~= seq![c]);
                assert(lex_from(s, i as int) == cons_tok(tok@, lex_from(s, i + 1 as int)));
                lemma_prepend_push(pre, tok@, lex_from(s, i + 1 as int));
                assert(tokens_v(tokens@.push(tok)) =~= pre.push(tok@));
            }
            tokens.push(tok);
            i = i + 1;
        } else if is_digit_char(c) {
            let mut j: usize = i;
            while j < n && digit_at(src, j)
                invariant
                    s == src@,
                    n == s.len(),
                    i <= j <= n,
                    digits_end(s, i as int) == digits_end(s, j as int),
                decreases n - j,
            {
                j += 1;
            }
            proof {
                assert(digits_end(s, j as int) == j);
            }
            let text = src.substring_char(i, j);
            let tok = Token { token_type: TokenType::IntLit, value: text.to_owned() };
            proof {
                assert(lex_from(s, i as int) == cons_tok(tok@, lex_from(s, j as int)));
                lemma_prepend_push(pre, tok@, lex_from(s, j as int));
                assert(tokens_v(tokens@.push(tok)) =~= pre.push(tok@));
            }
            tokens.push(tok);
            i = j;
        } else if is_letter_char(c) {
            let mut j: usize = i;
            while j < n && ident_char_at(src, j)
                invariant
                    s == src@,
                    n == s.len(),
                    i <= j <= n,
                    ident_end(s, i as int) == ident_end(s, j as int),
                decreases n - j,
            {
                j += 1;
            }
            proof {
                assert(ident_end(s, j as int) == j);
            }
            let text = src.substring_char(i, j);
            let kind = keyword_kind(text);
            let tok = Token { token_type: kind, value: text.to_owned() };
            proof {
                assert(lex_from(s, i as int) == cons_tok(tok@, lex_from(s, j as int)));
                lemma_prepend_push(pre, tok@, lex_from(s, j as int));
                assert(tokens_v(tokens@.push(tok)) =~= pre.push(tok@));
            }
            tokens.push(tok);
            i = j;
        } else {
            proof {
                assert(lex_from(s, i as int) == lex_from(s, i + 1 as int));
            }
            i = i + 1;
        }
    }
    let eof = Token { token_type: TokenType::EOF, value: String::new() };
    proof {
        let ghost pre = tokens_v(tokens@);
        assert(lex_from(s, i as int) == Option::Some(
            seq![(TokenType::EOF, Seq::<char>::empty())],
        ));
        assert(tokens_v(tokens@.push(eof)) =~= pre.push(eof@));
        assert(pre + seq![(TokenType::EOF, Seq::<char>::empty())] =~= pre.push(eof@));
    }
    tokens.push(eof);
    Result::Ok(tokens)
}

} // verus!
