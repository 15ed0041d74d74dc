//! The lexer: turns raw source text into a sequence of tokens, or fails
//! with a positioned syntax error on an invalid character, an unterminated
//! string or an unterminated block comment.

use vstd::prelude::*;
use crate::diag::{Pos, SyntaxError};
use crate::text::chars_of;

verus! {

#[derive(Clone, Copy, PartialEq, Eq, Structural, Debug)]
pub enum TokKind {
    Ident,
    IntLit,
    FloatLit,
    StrLit,
    Punct,
}

/// One lexical token. For an integer literal `value` holds the parsed
/// number; for a string literal `text` holds the decoded characters
/// (escapes already applied); otherwise `text` holds the raw characters.
#[derive(Clone, Debug)]
pub struct Token {
    pub kind: TokKind,
    pub text: Vec<char>,
    pub value: u64,
    pub pos: Pos,
}

/// True of characters that may start an identifier.
pub open spec fn is_ident_start(c: char) -> bool {
    ('a' <= c && c <= 'z') || ('A' <= c && c <= 'Z') || c == '_'
}

/// True of characters that may continue an identifier.
pub open spec fn is_ident_char(c: char) -> bool {
    is_ident_start(c) || ('0' <= c && c <= '9')
}

pub open spec fn is_digit(c: char) -> bool {
    '0' <= c && c <= '9'
}

/// A token is well formed when its text is consistent with its kind:
/// identifiers are non-empty and shaped like identifiers, numbers are
/// non-empty. String literals may be empty.
pub open spec fn wf_token(t: Token) -> bool {
    match t.kind {
        TokKind::Ident => t.text@.len() > 0 && is_ident_start(t.text@[0]) && forall|j: int|
            0 <= j < t.text@.len() ==> is_ident_char(t.text@[j]),
        TokKind::IntLit => true,
        TokKind::FloatLit => t.text@.len() > 0,
        TokKind::StrLit => true,
        TokKind::Punct => t.text@.len() == 1,
    }
}

fn exec_is_ident_start(c: char) -> (r: bool)
    ensures
        r == is_ident_start(c),
{
    ('a' <= c && c <= 'z') || ('A' <= c && c <= 'Z') || c == '_'
}

fn exec_is_ident_char(c: char) -> (r: bool)
    ensures
        r == is_ident_char(c),
{
    exec_is_ident_start(c) || ('0' <= c && c <= '9')
}

fn exec_is_digit(c: char) -> (r: bool)
    ensures
        r == is_digit(c),
{
    '0' <= c && c <= '9'
}

/// The numeric value of a digit character in a base up to 16, if any.
fn digit_value(c: char, base: u64) -> (r: Option<u64>)
    ensures
        r is Some ==> r->0 < base,
{
    let v: u64 = if '0' <= c && c <= '9' {
        (c as u64) - ('0' as u64)
    } else if 'a' <= c && c <= 'f' {
        (c as u64) - ('a' as u64) + 10
    } else if 'A' <= c && c <= 'F' {
        (c as u64) - ('A' as u64) + 10
    } else {
        return None;
    };
    if v < base {
        Some(v)
    } else {
        None
    }
}

fn advance_pos(pos: Pos, c: char) -> (r: Pos) {
    if c == '\n' {
        Pos { line: if pos.line < usize::MAX { pos.line + 1 } else { pos.line }, col: 1 }
    } else {
        Pos { line: pos.line, col: if pos.col < usize::MAX { pos.col + 1 } else { pos.col } }
    }
}

fn err(pos: Pos, detail: &str) -> (r: SyntaxError) {
    SyntaxError { pos, detail: chars_of(detail) }
}

/// True of a punctuation character the grammar uses.
fn is_punct(c: char) -> (r: bool) {
    c == '{' || c == '}' || c == '(' || c == ')' || c == '[' || c == ']' || c == '<' || c == '>'
        || c == ';' || c == ',' || c == '=' || c == '.' || c == '-' || c == '+' || c == ':'
}

/// Tokenizes `src`. On success every token is well formed; whitespace and
/// comments are discarded. Fails on an invalid character, an unterminated
/// string literal or an unterminated block comment, at that position.
pub fn tokenize(src: &Vec<char>) -> (r: Result<Vec<Token>, SyntaxError>)
    ensures
        r is Ok ==> forall|j: int| 0 <= j < r->Ok_0@.len() ==> wf_token(#[trigger] r->Ok_0@[j]),
{
    let n = src.len();
    let mut toks: Vec<Token> = Vec::new();
    let mut i: usize = 0;
    let mut pos = Pos::start();
    while i < n
        invariant
            i <= n,
            n == src@.len(),
            forall|j: int| 0 <= j < toks@.len() ==> wf_token(#[trigger] toks@[j]),
        decreases n - i,
    {
        let c = src[i];
        if c == ' ' || c == '\t' || c == '\r' || c == '\n' {
            pos = advance_pos(pos, c);
            i = i + 1;
        } else if c == '/' && i + 1 < n && src[i + 1] == '/' {
            // line comment: skip to end of line
            let ghost entry = i as int;
            pos = advance_pos(pos, '/');
            pos = advance_pos(pos, '/');
            i = i + 2;
            while i < n && src[i] != '\n'
                invariant
                    entry < i <= n,
                    n == src@.len(),
                decreases n - i,
            {
                pos = advance_pos(pos, src[i]);
                i = i + 1;
            }
        } else if c == '/' && i + 1 < n && src[i + 1] == '*' {
            let ghost entry = i as int;
            let open_pos = pos;
            pos = advance_pos(pos, '/');
            pos = advance_pos(pos, '*');
            i = i + 2;
            let mut closed = false;
            while i < n && !closed
                invariant
                    entry < i <= n,
                    n == src@.len(),
                decreases n - i,
            {
                if src[i] == '*' && i + 1 < n && src[i + 1] == '/' {
                    pos = advance_pos(pos, '*');
                    pos = advance_pos(pos, '/');
                    i = i + 2;
                    closed = true;
                } else {
                    pos = advance_pos(pos, src[i]);
                    i = i + 1;
                }
            }
            if !closed {
                return Err(err(open_pos, "unterminated block comment"));
            }
        } else if exec_is_ident_start(c) {
            let ghost entry = i as int;
            let start_pos = pos;
            let mut text: Vec<char> = Vec::new();
            text.push(c);
            pos = advance_pos(pos, c);
            i = i + 1;
            while i < n && exec_is_ident_char(src[i])
                invariant
                    entry < i <= n,
                    n == src@.len(),
                    text@.len() > 0 && is_ident_start(text@[0]),
                    forall|j: int| 0 <= j < text@.len() ==> is_ident_char(#[trigger] text@[j]),
                decreases n - i,
            {
                text.push(src[i]);
                pos = advance_pos(pos, src[i]);
                i = i + 1;
            }
            toks.push(Token { kind: TokKind::Ident, text, value: 0, pos: start_pos });
        } else if exec_is_digit(c) {
            let start_pos = pos;
            let start = i;
            // decide the base: 0x/0X hex, leading 0 octal, else decimal
            let mut base: u64 = 10;
            if c == '0' && i + 1 < n && (src[i + 1] == 'x' || src[i + 1] == 'X') {
                base = 16;
                pos = advance_pos(pos, src[i]);
                pos = advance_pos(pos, src[i + 1]);
                i = i + 2;
                if !(i < n) || digit_value(src[i], 16).is_none() {
                    return Err(err(start_pos, "hexadecimal literal without digits"));
                }
            } else if c == '0' && i + 1 < n && exec_is_digit(src[i + 1]) {
                base = 8;
                pos = advance_pos(pos, src[i]);
                i = i + 1;
            }
            let mut value: u64 = 0;
            let mut text: Vec<char> = Vec::new();
            let mut is_float = false;
            while i < n
                invariant
                    start <= i <= n,
                    n == src@.len(),
                    base == 8 || base == 10 || base == 16,
                    base != 10 ==> i > start,
                    text@.len() > 0 ==> i > start,
                decreases n - i,
            {
                let d = src[i];
                if is_float {
                    if exec_is_digit(d) || d == '.' || d == 'e' || d == 'E' || d == '-' || d == '+'
                    {
                        text.push(d);
                        pos = advance_pos(pos, d);
                        i = i + 1;
                    } else {
                        break;
                    }
                } else if d == '.' || ((d == 'e' || d == 'E') && base == 10) {
                    is_float = true;
                    text.push(d);
                    pos = advance_pos(pos, d);
                    i = i + 1;
                } else {
                    match digit_value(d, base) {
                        Some(v) => {
                            if value > (u64::MAX - v) / base {
                                return Err(err(start_pos, "integer literal too large"));
                            }
                            assert(value * base + v <= u64::MAX) by (nonlinear_arith)
                                requires
                                    value as int <= ((u64::MAX - v) as int) / (base as int),
                                    8 <= base <= 16,
                                    v < base,
                            ;
                            value = value * base + v;
                            text.push(d);
                            pos = advance_pos(pos, d);
                            i = i + 1;
                        },
                        None => {
                            if exec_is_ident_char(d) {
                                return Err(err(start_pos, "malformed numeric literal"));
                            }
                            break;
                        },
                    }
                }
            }
            if is_float {
                if text.len() == 0 {
                    return Err(err(start_pos, "malformed numeric literal"));
                }
                toks.push(Token { kind: TokKind::FloatLit, text, value: 0, pos: start_pos });
            } else {
                if i == start && base != 8 {
                    return Err(err(start_pos, "malformed numeric literal"));
                }
                toks.push(Token { kind: TokKind::IntLit, text, value, pos: start_pos });
            }
        } else if c == '"' || c == '\'' {
            let ghost entry = i as int;
            let quote = c;
            let start_pos = pos;
            pos = advance_pos(pos, c);
            i = i + 1;
            let mut text: Vec<char> = Vec::new();
            let mut closed = false;
            while i < n && !closed
                invariant
                    entry < i <= n,
                    n == src@.len(),
                decreases n - i,
            {
                let d = src[i];
                if d == quote {
                    pos = advance_pos(pos, d);
                    i = i + 1;
                    closed = true;
                } else if d == '\n' {
                    return Err(err(start_pos, "unterminated string literal"));
                } else if d == '\\' {
                    if !(i + 1 < n) {
                        return Err(err(start_pos, "unterminated string literal"));
                    }
                    let e = src[i + 1];
                    let decoded: char = if e == 'n' {
                        '\n'
                    } else if e == 't' {
                        '\t'
                    } else if e == 'r' {
                        '\r'
                    } else if e == '\\' {
                        '\\'
                    } else if e == '"' {
                        '"'
                    } else if e == '\'' {
                        '\''
                    } else if e == '0' {
                        '\0'
                    } else {
                        return Err(err(pos, "unknown escape sequence"));
                    };
                    text.push(decoded);
                    pos = advance_pos(pos, d);
                    pos = advance_pos(pos, e);
                    i = i + 2;
                } else {
                    text.push(d);
                    pos = advance_pos(pos, d);
                    i = i + 1;
                }
            }
            if !closed {
                return Err(err(start_pos, "unterminated string literal"));
            }
            toks.push(Token { kind: TokKind::StrLit, text, value: 0, pos: start_pos });
        } else if is_punct(c) {
            let mut text: Vec<char> = Vec::new();
            text.push(c);
            toks.push(Token { kind: TokKind::Punct, text, value: 0, pos });
            pos = advance_pos(pos, c);
            i = i + 1;
        } else {
            return Err(err(pos, "unexpected character"));
        }
    }
    Ok(toks)
}

} // verus!
