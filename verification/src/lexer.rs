//! Tokenizer for the filter DSL.

use vstd::prelude::*;
use crate::numeric::{Decimal, parse_decimal};
use crate::strnum::push_char;
use crate::eval::chars_of;

verus! {

/// Whether a character counts as alphabetic for identifiers.
pub uninterp spec fn char_alphabetic(c: char) -> bool;

/// Whether a character counts as alphanumeric for identifiers.
pub uninterp spec fn char_alphanumeric(c: char) -> bool;

/// Relies on `char::is_alphabetic`: a property of the character alone.
#[verifier::external_body]
fn is_alphabetic(c: char) -> (r: bool)
    ensures
        r == char_alphabetic(c),
{
    c.is_alphabetic()
}

/// Relies on `char::is_alphanumeric`: a property of the character alone.
#[verifier::external_body]
fn is_alphanumeric(c: char) -> (r: bool)
    ensures
        r == char_alphanumeric(c),
{
    c.is_alphanumeric()
}

/// Token kinds of the DSL.
#[derive(Debug, PartialEq)]
pub enum Token {
    /// Tag key or value.
    Ident(String),
    /// Numeric literal.
    Number(Decimal),
    Eq,
    Ne,
    Lt,
    Le,
    Gt,
    Ge,
    And,
    Or,
    Not,
    LParen,
    RParen,
    Star,
    /// End of input.
    Eof,
}


impl Token {
    /// An equal copy of this token.
    pub fn dup(&self) -> (r: Token)
        ensures
            r == *self,
    {
        match self {
            Token::Ident(s) => Token::Ident(s.clone()),
            Token::Number(d) => Token::Number(*d),
            Token::Eq => Token::Eq,
            Token::Ne => Token::Ne,
            Token::Lt => Token::Lt,
            Token::Le => Token::Le,
            Token::Gt => Token::Gt,
            Token::Ge => Token::Ge,
            Token::And => Token::And,
            Token::Or => Token::Or,
            Token::Not => Token::Not,
            Token::LParen => Token::LParen,
            Token::RParen => Token::RParen,
            Token::Star => Token::Star,
            Token::Eof => Token::Eof,
        }
    }
}

/// The first character of an identifier.
pub open spec fn spec_ident_first(c: char) -> bool {
    char_alphabetic(c) || c == '_' || c == ':' || c == '*' || c == '-'
}

/// A following character of an identifier.
pub open spec fn spec_ident_rest(c: char) -> bool {
    char_alphanumeric(c) || c == '_' || c == ':' || c == '-' || c == '*'
}

fn ident_first(c: char) -> (r: bool)
    ensures
        r == spec_ident_first(c),
{
    is_alphabetic(c) || c == '_' || c == ':' || c == '*' || c == '-'
}

fn ident_rest(c: char) -> (r: bool)
    ensures
        r == spec_ident_rest(c),
{
    is_alphanumeric(c) || c == '_' || c == ':' || c == '-' || c == '*'
}

fn is_digit_or_dot(c: char) -> (r: bool)
    ensures
        r == (crate::numeric::spec_is_digit(c) || c == '.'),
{
    ('0' <= c && c <= '9') || c == '.'
}

/// Tokenize the whole input.  On success the token list is non-empty and
/// ends with `Eof`.
pub fn tokenize(input: &str) -> (r: Result<Vec<Token>, String>)
    ensures
        r matches Ok(toks) ==> toks@.len() >= 1 && toks@.last() == Token::Eof,
{
    let chars = chars_of(input);
    let n = chars.len();
    let mut toks: Vec<Token> = Vec::new();
    let mut i: usize = 0;
    while i < n
        invariant
            i <= n,
            n == chars@.len(),
        decreases n - i,
    {
        let c = chars[i];
        if c == ' ' || c == '\t' {
            i = i + 1;
        } else if c == '!' && i + 1 < n && chars[i + 1] == '=' {
            toks.push(Token::Ne);
            i = i + 2;
        } else if c == '<' && i + 1 < n && chars[i + 1] == '=' {
            toks.push(Token::Le);
            i = i + 2;
        } else if c == '>' && i + 1 < n && chars[i + 1] == '=' {
            toks.push(Token::Ge);
            i = i + 2;
        } else if c == '=' {
            toks.push(Token::Eq);
            i = i + 1;
        } else if c == '<' {
            toks.push(Token::Lt);
            i = i + 1;
        } else if c == '>' {
            toks.push(Token::Gt);
            i = i + 1;
        } else if c == '&' {
            toks.push(Token::And);
            i = i + 1;
        } else if c == '|' {
            toks.push(Token::Or);
            i = i + 1;
        } else if c == '!' {
            toks.push(Token::Not);
            i = i + 1;
        } else if c == '(' {
            toks.push(Token::LParen);
            i = i + 1;
        } else if c == ')' {
            toks.push(Token::RParen);
            i = i + 1;
        } else if is_digit_or_dot(c) || (c == '-' && i + 1 < n && is_digit_or_dot(chars[i + 1])) {
            // A numeric literal: optional minus, then digits and points.
            let start = i;
            i = i + 1;
            while i < n && is_digit_or_dot(chars[i])
                invariant
                    start < i <= n,
                    n == chars@.len(),
                decreases n - i,
            {
                i = i + 1;
            }
            let span = vstd::slice::slice_subrange(chars.as_slice(), start, i);
            match parse_decimal(span) {
                Some(d) => {
                    toks.push(Token::Number(d));
                },
                None => {
                    let msg = String::from_str("Lexer error: malformed numeric literal");
                    return Err(msg);
                },
            }
        } else if ident_first(c) {
            // An identifier: tag key, value, or a bare `*`.
            let start = i;
            let mut text = String::new();
            push_char(&mut text, c);
            i = i + 1;
            let mut extra = false;
            while i < n && ident_rest(chars[i])
                invariant
                    start < i <= n,
                    n == chars@.len(),
                    text@.len() >= 1,
                decreases n - i,
            {
                push_char(&mut text, chars[i]);
                extra = true;
                i = i + 1;
            }
            if c == '*' && !extra {
                toks.push(Token::Star);
            } else {
                toks.push(Token::Ident(text));
            }
        } else {
            let msg = String::from_str("Lexer error: unexpected character");
            return Err(msg);
        }
    }
    toks.push(Token::Eof);
    proof {
        assert(toks@.last() == Token::Eof);
    }
    Ok(toks)
}

} // verus!
