//! Recursive-descent parser for the filter DSL.
//!
//! Grammar, roughly:
//!
//! ```text
//! filter     = or_expr
//! or_expr    = and_expr ("|" and_expr)*
//! and_expr   = unary_expr ("&" unary_expr)*
//! unary_expr = "!" unary_expr | primary
//! primary    = "(" filter ")" | tag_expr
//! tag_expr   = IDENT (compare_op value_list)?
//! compare_op = "=" | "!=" | "<" | "<=" | ">" | ">="
//! value_list = value ("|" value)*
//! value      = IDENT | NUMBER | "*"
//! ```
//!
//! Every filter the parser returns is in simplified form (see
//! `crate::ast::spec_simplified`), so the simplification law applies to it.

use vstd::prelude::*;
use crate::ast::{
    CompareOp, FilterAst, TagValue, spec_simplified, spec_no_empty_or, lemma_simplified_no_empty_or,
};
use crate::lexer::{Token, tokenize};

verus! {

/// Whether a string holds a `*` anywhere.
pub fn has_star(s: &str) -> (r: bool)
    ensures
        r == (exists|i: int| 0 <= i < s@.len() && s@[i] == '*'),
{
    let chars = crate::eval::chars_of(s);
    let n = chars.len();
    let mut i: usize = 0;
    while i < n
        invariant
            i <= n,
            n == chars@.len(),
            chars@ == s@,
            forall|j: int| 0 <= j < i ==> s@[j] != '*',
        decreases n - i,
    {
        if chars[i] == '*' {
            return true;
        }
        i = i + 1;
    }
    false
}

/// Parser state: the token list and a cursor.
struct Parser {
    tokens: Vec<Token>,
    pos: usize,
}

impl Parser {
    spec fn wf(&self) -> bool {
        self.pos <= self.tokens@.len()
    }

    spec fn remaining(&self) -> int {
        self.tokens@.len() - self.pos
    }

    fn new(tokens: Vec<Token>) -> (r: Parser)
        ensures
            r.wf(),
    {
        Parser { tokens, pos: 0 }
    }

    /// The token at the cursor, `Eof` past the end.
    fn peek(&self) -> (t: Token)
        requires
            self.wf(),
        ensures
            t == (if self.pos < self.tokens@.len() {
                self.tokens@[self.pos as int]
            } else {
                Token::Eof
            }),
    {
        if self.pos < self.tokens.len() {
            self.tokens[self.pos].dup()
        } else {
            Token::Eof
        }
    }

    /// The token just after the cursor, `Eof` past the end.
    fn peek_next(&self) -> (t: Token)
        requires
            self.wf(),
        ensures
            t == (if self.pos + 1 < self.tokens@.len() {
                self.tokens@[self.pos + 1]
            } else {
                Token::Eof
            }),
    {
        if self.tokens.len() - self.pos > 1 {
            self.tokens[self.pos + 1].dup()
        } else {
            Token::Eof
        }
    }

    /// Take the token at the cursor and step past it.
    fn advance(&mut self) -> (t: Token)
        requires
            old(self).wf(),
        ensures
            final(self).wf(),
            final(self).tokens == old(self).tokens,
            old(self).pos <= final(self).pos,
            old(self).pos < old(self).tokens@.len() ==> final(self).pos == old(self).pos + 1
                && t == old(self).tokens@[old(self).pos as int],
            old(self).pos >= old(self).tokens@.len() ==> final(self).pos == old(self).pos && t
                == Token::Eof,
    {
        if self.pos < self.tokens.len() {
            let t = self.tokens[self.pos].dup();
            self.pos = self.pos + 1;
            t
        } else {
            Token::Eof
        }
    }

    fn expect_rparen(&mut self) -> (r: Result<(), String>)
        requires
            old(self).wf(),
        ensures
            final(self).wf(),
            final(self).tokens == old(self).tokens,
            old(self).pos <= final(self).pos,
    {
        let tok = self.advance();
        match tok {
            Token::RParen => Ok(()),
            _ => Err(String::from_str("Parser error: expected closing parenthesis")),
        }
    }

    /// Parse the top-level filter expression.
    fn parse_filter(&mut self) -> (r: Result<FilterAst, String>)
        requires
            old(self).wf(),
        ensures
            final(self).wf(),
            final(self).tokens == old(self).tokens,
            old(self).pos <= final(self).pos,
            r matches Ok(ast) ==> spec_simplified(ast) && spec_no_empty_or(ast),
        decreases old(self).remaining(), 5int,
    {
        self.parse_or_expr()
    }

    /// Parse `and_expr ("|" and_expr)*`.
    #[verifier::loop_isolation(false)]
    fn parse_or_expr(&mut self) -> (r: Result<FilterAst, String>)
        requires
            old(self).wf(),
        ensures
            final(self).wf(),
            final(self).tokens == old(self).tokens,
            old(self).pos <= final(self).pos,
            r matches Ok(ast) ==> spec_simplified(ast) && spec_no_empty_or(ast),
        decreases old(self).remaining(), 4int,
    {
        let mut left = self.parse_and_expr()?;
        proof {
            lemma_simplified_no_empty_or(left);
        }
        while matches!(self.peek(), Token::Or)
            invariant
                self.wf(),
                self.tokens == old(self).tokens,
                old(self).pos <= self.pos,
                spec_no_empty_or(left),
            decreases self.remaining(),
        {
            let ghost pos_before = self.pos;
            self.advance();
            let right = match self.parse_and_expr() {
                Ok(r) => r,
                Err(e) => {
                    return Err(e);
                },
            };
            proof {
                lemma_simplified_no_empty_or(right);
            }
            let pair: Vec<FilterAst> = vec![left, right];
            proof {
                assert(pair@.len() == 2);
                assert(spec_no_empty_or(pair@[0]));
                assert(spec_no_empty_or(pair@[1]));
            }
            left = FilterAst::Or(pair);
            proof {
                assert(self.pos > pos_before);
            }
        }
        let simplified = left.simplify();
        proof {
            lemma_simplified_no_empty_or(simplified);
        }
        Ok(simplified)
    }

    /// Parse `unary_expr ("&" unary_expr)*`.
    #[verifier::loop_isolation(false)]
    fn parse_and_expr(&mut self) -> (r: Result<FilterAst, String>)
        requires
            old(self).wf(),
        ensures
            final(self).wf(),
            final(self).tokens == old(self).tokens,
            old(self).pos <= final(self).pos,
            r matches Ok(ast) ==> spec_simplified(ast) && spec_no_empty_or(ast),
        decreases old(self).remaining(), 3int,
    {
        let mut left = self.parse_unary_expr()?;
        proof {
            lemma_simplified_no_empty_or(left);
        }
        while matches!(self.peek(), Token::And)
            invariant
                self.wf(),
                self.tokens == old(self).tokens,
                old(self).pos <= self.pos,
                spec_no_empty_or(left),
            decreases self.remaining(),
        {
            let ghost pos_before = self.pos;
            self.advance();
            let right = match self.parse_unary_expr() {
                Ok(r) => r,
                Err(e) => {
                    return Err(e);
                },
            };
            proof {
                lemma_simplified_no_empty_or(right);
            }
            let pair: Vec<FilterAst> = vec![left, right];
            proof {
                assert(pair@.len() == 2);
                assert(spec_no_empty_or(pair@[0]));
                assert(spec_no_empty_or(pair@[1]));
            }
            left = FilterAst::And(pair);
            proof {
                assert(self.pos > pos_before);
            }
        }
        let simplified = left.simplify();
        proof {
            lemma_simplified_no_empty_or(simplified);
        }
        Ok(simplified)
    }

    /// Parse `"!" unary_expr | primary`.
    fn parse_unary_expr(&mut self) -> (r: Result<FilterAst, String>)
        requires
            old(self).wf(),
        ensures
            final(self).wf(),
            final(self).tokens == old(self).tokens,
            old(self).pos <= final(self).pos,
            r matches Ok(ast) ==> spec_simplified(ast) && spec_no_empty_or(ast),
        decreases old(self).remaining(), 2int,
    {
        if matches!(self.peek(), Token::Not) {
            self.advance();
            if let Token::Ident(key) = self.peek() {
                // `!tag` is a negated existence check; `!tag=value` wraps
                // the whole comparison in a NOT.
                let after = self.peek_next();
                match after {
                    Token::Eq | Token::Ne | Token::Lt | Token::Le | Token::Gt | Token::Ge => {
                        let inner = self.parse_primary()?;
                        proof {
                            lemma_simplified_no_empty_or(inner);
                        }
                        return Ok(FilterAst::Not(Box::new(inner)));
                    },
                    Token::And | Token::Or | Token::RParen | Token::Eof => {
                        self.advance();
                        return Ok(FilterAst::TagExists { key, negated: true });
                    },
                    _ => {
                        let inner = self.parse_primary()?;
                        proof {
                            lemma_simplified_no_empty_or(inner);
                        }
                        return Ok(FilterAst::Not(Box::new(inner)));
                    },
                }
            }
            let inner = self.parse_unary_expr()?;
            proof {
                lemma_simplified_no_empty_or(inner);
            }
            Ok(FilterAst::Not(Box::new(inner)))
        } else {
            self.parse_primary()
        }
    }

    /// Parse `"(" filter ")" | tag_expr`.
    fn parse_primary(&mut self) -> (r: Result<FilterAst, String>)
        requires
            old(self).wf(),
        ensures
            final(self).wf(),
            final(self).tokens == old(self).tokens,
            old(self).pos <= final(self).pos,
            r matches Ok(ast) ==> spec_simplified(ast) && spec_no_empty_or(ast),
        decreases old(self).remaining(), 1int,
    {
        match self.peek() {
            Token::LParen => {
                self.advance();
                let inner = self.parse_filter()?;
                self.expect_rparen()?;
                Ok(inner)
            },
            Token::Ident(_) => self.parse_tag_expr(),
            Token::Eof => Ok(FilterAst::True),
            _ => Err(String::from_str("Parser error: unexpected token")),
        }
    }

    /// Parse `IDENT (compare_op value_list)?`.
    fn parse_tag_expr(&mut self) -> (r: Result<FilterAst, String>)
        requires
            old(self).wf(),
        ensures
            final(self).wf(),
            final(self).tokens == old(self).tokens,
            old(self).pos <= final(self).pos,
            r matches Ok(ast) ==> spec_simplified(ast) && spec_no_empty_or(ast),
        decreases old(self).remaining(), 0int,
    {
        let key = match self.advance() {
            Token::Ident(k) => k,
            _ => {
                return Err(String::from_str("Parser error: expected identifier"));
            },
        };
        let op: Option<CompareOp> = match self.peek() {
            Token::Eq => Some(CompareOp::Eq),
            Token::Ne => Some(CompareOp::Ne),
            Token::Lt => Some(CompareOp::Lt),
            Token::Le => Some(CompareOp::Le),
            Token::Gt => Some(CompareOp::Gt),
            Token::Ge => Some(CompareOp::Ge),
            _ => None,
        };
        match op {
            None => Ok(FilterAst::TagExists { key, negated: false }),
            Some(CompareOp::Eq) => {
                self.advance();
                let values = self.parse_value_list()?;
                Ok(FilterAst::TagMatch { key, values })
            },
            Some(op) => {
                self.advance();
                match self.advance() {
                    Token::Number(n) => Ok(FilterAst::NumericCompare { key, op, value: n }),
                    _ => Err(String::from_str("Parser error: expected number after comparison")),
                }
            },
        }
    }

    /// Parse `value ("|" value)*`, stopping where the `|` starts a new
    /// comparison instead of another alternative.
    #[verifier::loop_isolation(false)]
    fn parse_value_list(&mut self) -> (r: Result<Vec<TagValue>, String>)
        requires
            old(self).wf(),
        ensures
            final(self).wf(),
            final(self).tokens == old(self).tokens,
            old(self).pos <= final(self).pos,
        decreases old(self).remaining(), 0int,
    {
        let first = self.parse_value()?;
        let mut values: Vec<TagValue> = Vec::new();
        values.push(first);
        while matches!(self.peek(), Token::Or)
            invariant
                self.wf(),
                self.tokens == old(self).tokens,
                old(self).pos <= self.pos,
            decreases self.remaining(),
        {
            let ghost pos_before = self.pos;
            // Lookahead: `a=x | b=2` is a boolean OR, not more values.
            if matches!(self.peek_next(), Token::Ident(_)) {
                let stop = if self.tokens.len() - self.pos > 2 {
                    matches!(
                        self.tokens[self.pos + 2],
                        Token::Eq | Token::Ne | Token::Lt | Token::Le | Token::Gt | Token::Ge
                    )
                } else {
                    false
                };
                if stop {
                    break ;
                }
            }
            self.advance();
            let v = match self.parse_value() {
                Ok(v) => v,
                Err(e) => {
                    return Err(e);
                },
            };
            values.push(v);
            proof {
                assert(self.pos > pos_before);
            }
        }
        Ok(values)
    }

    /// Parse a single value: identifier, number, or `*`.
    fn parse_value(&mut self) -> (r: Result<TagValue, String>)
        requires
            old(self).wf(),
        ensures
            final(self).wf(),
            final(self).tokens == old(self).tokens,
            old(self).pos <= final(self).pos,
        decreases old(self).remaining(), 0int,
    {
        match self.advance() {
            Token::Star => Ok(TagValue::Any),
            Token::Ident(s) => {
                if has_star(s.as_str()) {
                    Ok(TagValue::Glob(s))
                } else {
                    Ok(TagValue::Exact(s))
                }
            },
            Token::Number(n) => Ok(TagValue::Exact(n.to_dec_string())),
            _ => Err(String::from_str("Parser error: expected value")),
        }
    }
}

/// Parse a filter DSL string into an AST.  The result is in simplified
/// form, so the simplification law holds of it; an input of only spaces
/// parses to the always-true filter.
pub fn parse_filter(input: &str) -> (r: Result<FilterAst, String>)
    ensures
        r matches Ok(ast) ==> spec_simplified(ast) && spec_no_empty_or(ast),
{
    let tokens = tokenize(input)?;
    let mut parser = Parser::new(tokens);
    let ast = parser.parse_filter()?;
    if !matches!(parser.peek(), Token::Eof) {
        return Err(String::from_str("Parser error: unexpected token after expression"));
    }
    Ok(ast)
}

} // verus!
