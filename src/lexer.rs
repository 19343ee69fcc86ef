//! Tokens of the language, and the scanner that produces them with the
//! byte offset at which each starts.
use crate::error::CError;
use rustc_apfloat::ieee::Single;
use rustc_apfloat::{Float as ApFloat, Round};
use vstd::prelude::*;
use vstd::string::{StrSliceExecFns, StringExecFns, StringSliceAdditionalSpecFns};

verus! {

#[derive(Debug, PartialEq, Eq, Clone, Copy, Structural)]
pub enum Punct {
    LParen,
    RParen,
    LBrace,
    RBrace,
    LBrack,
    RBrack,
    Semi,
    Comma,
    Assign,
    EqEq,
    NotEq,
    Lt,
    Le,
    Gt,
    Ge,
    Plus,
    Minus,
    Star,
    Slash,
    Bang,
    AndAnd,
    OrOr,
}

#[derive(Debug, PartialEq, Eq, Clone, Copy, Structural)]
pub enum Keyword {
    Int,
    Char,
    Float,
    Void,
    Return,
    If,
    Else,
    While,
    For,
    Printf,
}

/// A token. `Real` holds the IEEE-754 single-precision bit pattern of a
/// decimal literal; `Text` the characters of a string literal.
#[derive(Debug)]
pub enum Token {
    Kw(Keyword),
    Ident(String),
    Num(i32),
    Real(u32),
    Chr(char),
    Text(Vec<char>),
    P(Punct),
}

/// The single-precision number nearest to a decimal literal (ties to even),
/// if the text is one.
pub uninterp spec fn single_from_decimal(s: Seq<char>) -> Option<u32>;

pub open spec fn is_digit(c: char) -> bool {
    '0' <= c && c <= '9'
}

/// Relies on rustc_apfloat's `Float::from_str_r` for `Single`, rounding to
/// nearest with ties to even: the nearest number to a decimal literal.
#[verifier::external_body]
fn parse_single(s: &str) -> (r: Option<u32>)
    requires
        s@.len() > 0,
        forall|i: int| 0 <= i < s@.len() ==> is_digit(#[trigger] s@[i]) || s@[i] == '.',
    ensures
        r == single_from_decimal(s@),
{
    match Single::from_str_r(s, Round::NearestTiesToEven) {
        Ok(v) => Some(v.value.to_bits() as u32),
        Err(_) => None,
    }
}

fn parse_error(msg: &str, loc: usize) -> (r: CError)
    ensures
        r is ParseError,
{
    CError::ParseError(String::from_str(msg), loc)
}

fn is_alpha(c: u8) -> bool {
    (97 <= c && c <= 122) || (65 <= c && c <= 90)
}

fn is_num(c: u8) -> (r: bool)
    ensures
        r == (48 <= c <= 57),
{
    48 <= c && c <= 57
}

fn word_is(bs: &[u8], a: usize, b: usize, w: &str) -> (r: bool)
    requires
        a <= b <= bs@.len(),
{
    let n = w.unicode_len();
    if b - a != n {
        return false;
    }
    let mut i: usize = 0;
    while i < n
        invariant
            n == w@.len(),
            a + n == b <= bs@.len(),
            i <= n,
        decreases n - i,
    {
        if bs[a + i] as u32 != w.get_char(i) as u32 {
            return false;
        }
        i += 1;
    }
    true
}

fn keyword(bs: &[u8], a: usize, b: usize) -> (r: Option<Keyword>)
    requires
        a <= b <= bs@.len(),
{
    if word_is(bs, a, b, "int") {
        Some(Keyword::Int)
    } else if word_is(bs, a, b, "char") {
        Some(Keyword::Char)
    } else if word_is(bs, a, b, "float") {
        Some(Keyword::Float)
    } else if word_is(bs, a, b, "void") {
        Some(Keyword::Void)
    } else if word_is(bs, a, b, "return") {
        Some(Keyword::Return)
    } else if word_is(bs, a, b, "if") {
        Some(Keyword::If)
    } else if word_is(bs, a, b, "else") {
        Some(Keyword::Else)
    } else if word_is(bs, a, b, "while") {
        Some(Keyword::While)
    } else if word_is(bs, a, b, "for") {
        Some(Keyword::For)
    } else if word_is(bs, a, b, "printf") {
        Some(Keyword::Printf)
    } else {
        None
    }
}

/// The character an escape sequence `\c` stands for.
fn escaped(c: u8) -> (r: Option<u8>) {
    if c == 48 {
        Some(0)
    } else if c == 110 {
        Some(10)
    } else if c == 116 {
        Some(9)
    } else if c == 92 || c == 39 || c == 34 {
        Some(c)
    } else {
        None
    }
}

/// A one- or two-character operator or delimiter at `i`, and its length.
fn punct_at(bs: &[u8], i: usize) -> (r: Option<(Punct, usize)>)
    requires
        i < bs@.len(),
    ensures
        r matches Some((_, k)) ==> 1 <= k <= 2 && i + k <= bs@.len(),
{
    let c = bs[i];
    let two = bs.len() - i > 1;
    let d = if two { bs[i + 1] } else { 32 };
    if two && c == 61 && d == 61 {
        Some((Punct::EqEq, 2))
    } else if two && c == 33 && d == 61 {
        Some((Punct::NotEq, 2))
    } else if two && c == 60 && d == 61 {
        Some((Punct::Le, 2))
    } else if two && c == 62 && d == 61 {
        Some((Punct::Ge, 2))
    } else if two && c == 38 && d == 38 {
        Some((Punct::AndAnd, 2))
    } else if two && c == 124 && d == 124 {
        Some((Punct::OrOr, 2))
    } else if c == 40 {
        Some((Punct::LParen, 1))
    } else if c == 41 {
        Some((Punct::RParen, 1))
    } else if c == 123 {
        Some((Punct::LBrace, 1))
    } else if c == 125 {
        Some((Punct::RBrace, 1))
    } else if c == 91 {
        Some((Punct::LBrack, 1))
    } else if c == 93 {
        Some((Punct::RBrack, 1))
    } else if c == 59 {
        Some((Punct::Semi, 1))
    } else if c == 44 {
        Some((Punct::Comma, 1))
    } else if c == 61 {
        Some((Punct::Assign, 1))
    } else if c == 60 {
        Some((Punct::Lt, 1))
    } else if c == 62 {
        Some((Punct::Gt, 1))
    } else if c == 43 {
        Some((Punct::Plus, 1))
    } else if c == 45 {
        Some((Punct::Minus, 1))
    } else if c == 42 {
        Some((Punct::Star, 1))
    } else if c == 47 {
        Some((Punct::Slash, 1))
    } else if c == 33 {
        Some((Punct::Bang, 1))
    } else {
        None
    }
}

/// Offset of the first byte outside ASCII.
fn first_non_ascii(bs: &[u8]) -> usize {
    let mut i: usize = 0;
    while i < bs.len()
        invariant
            i <= bs@.len(),
        decreases bs@.len() - i,
    {
        if bs[i] >= 128 {
            return i;
        }
        i += 1;
    }
    0
}

/// Splits a program into tokens, each with the byte offset where it starts.
/// Programs are ASCII text. Every failure is a `ParseError`.
pub fn lex(input: &str) -> (r: Result<(Vec<Token>, Vec<usize>), CError>)
    ensures
        match r {
            Ok((t, l)) => t.len() == l.len() && forall|k: int| 0 <= k < l.len() ==> #[trigger] l[k] < input@.len(),
            Err(e) => e is ParseError,
        },
{
    let bs = input.as_bytes();
    if !input.is_ascii() {
        return Err(parse_error("Non-ASCII character", first_non_ascii(bs)));
    }
    proof {
        vstd::string::is_ascii_spec_bytes(input);
    }
    let n = bs.len();
    let mut toks: Vec<Token> = Vec::new();
    let mut locs: Vec<usize> = Vec::new();
    let mut i: usize = 0;
    while i < n
        invariant
            n == bs@.len() == input@.len(),
            bs@ == input.spec_bytes(),
            input.is_ascii(),
            i <= n,
            toks.len() == locs.len(),
            forall|k: int| 0 <= k < locs.len() ==> #[trigger] locs[k] < n,
        decreases n - i,
    {
        let c = bs[i];
        let start = i;
        if c == 32 || c == 9 || c == 10 || c == 13 {
            i += 1;
        } else if c == 47 && n - i > 1 && bs[i + 1] == 47 {
            i = i + 2;
            while i < n && bs[i] != 10
                invariant
                    n == bs@.len(),
                    start < i <= n,
                decreases n - i,
            {
                i += 1;
            }
        } else if is_alpha(c) {
            i += 1;
            while i < n && (is_alpha(bs[i]) || is_num(bs[i]) || bs[i] == 95)
                invariant
                    n == bs@.len(),
                    start < i <= n,
                decreases n - i,
            {
                i += 1;
            }
            match keyword(bs, start, i) {
                Some(k) => toks.push(Token::Kw(k)),
                None => toks.push(Token::Ident(String::from_str(input.substring_ascii(start, i)))),
            }
            locs.push(start);
        } else if is_num(c) {
            let mut v: i64 = (c - 48) as i64;
            let mut too_big = false;
            i += 1;
            while i < n && is_num(bs[i])
                invariant
                    n == bs@.len(),
                    start < i <= n,
                    0 <= v <= i32::MAX,
                    forall|j: int| start <= j < i ==> 48 <= #[trigger] bs@[j] <= 57,
                decreases n - i,
            {
                let d = (bs[i] - 48) as i64;
                if v > (i32::MAX as i64 - d) / 10 {
                    too_big = true;
                } else {
                    v = v * 10 + d;
                }
                i += 1;
            }
            if n - i > 1 && bs[i] == 46 && is_num(bs[i + 1]) {
                i += 1;
                while i < n && is_num(bs[i])
                    invariant
                        n == bs@.len(),
                        start < i <= n,
                        forall|j: int| start <= j < i ==> (48 <= #[trigger] bs@[j] <= 57 || bs@[j] == 46),
                    decreases n - i,
                {
                    i += 1;
                }
                let text = input.substring_ascii(start, i);
                assert forall|j: int| 0 <= j < text@.len() implies is_digit(#[trigger] text@[j]) || text@[j] == '.' by {
                    vstd::string::is_ascii_spec_bytes(input);
                    assert(text@[j] == input@[start + j]);
                    assert(bs@[start + j] == input@[start + j] as u8);
                }
                match parse_single(text) {
                    Some(f) => toks.push(Token::Real(f)),
                    None => {
                        return Err(parse_error("Invalid float literal", start));
                    },
                }
            } else {
                if too_big {
                    return Err(parse_error("Integer literal out of range", start));
                }
                toks.push(Token::Num(v as i32));
            }
            locs.push(start);
        } else if c == 39 {
            if n - i <= 2 {
                return Err(parse_error("Unterminated character literal", start));
            }
            let (ch, k): (char, usize) = if bs[i + 1] == 92 {
                match escaped(bs[i + 2]) {
                    Some(e) => (e as char, i + 3),
                    None => {
                        return Err(parse_error("Unknown escape sequence", start));
                    },
                }
            } else {
                (bs[i + 1] as char, i + 2)
            };
            if k >= n || bs[k] != 39 {
                return Err(parse_error("Unterminated character literal", start));
            }
            toks.push(Token::Chr(ch));
            locs.push(start);
            i = k + 1;
        } else if c == 34 {
            let mut text: Vec<char> = Vec::new();
            i += 1;
            let mut closed = false;
            while i < n && !closed
                invariant
                    n == bs@.len(),
                    start < i <= n,
                decreases n - i,
            {
                let d = bs[i];
                i += 1;
                if d == 34 {
                    closed = true;
                } else if d == 92 {
                    if i >= n {
                        return Err(parse_error("Unterminated string literal", start));
                    }
                    match escaped(bs[i]) {
                        Some(e) => text.push(e as char),
                        None => {
                            return Err(parse_error("Unknown escape sequence", start));
                        },
                    }
                    i += 1;
                } else {
                    text.push(d as char);
                }
            }
            if !closed {
                return Err(parse_error("Unterminated string literal", start));
            }
            toks.push(Token::Text(text));
            locs.push(start);
        } else {
            match punct_at(bs, i) {
                Some((p, k)) => {
                    toks.push(Token::P(p));
                    locs.push(start);
                    i = i + k;
                },
                None => {
                    return Err(parse_error("Invalid character", start));
                },
            }
        }
    }
    Ok((toks, locs))
}

} // verus!
