use vstd::prelude::*;
use vstd::string::StringExecFns;

use crate::num::{num_to_text, rendered_bits, Num};

verus! {

/// The lexical vocabulary: numbers, the operator and parenthesis symbols,
/// and the end-of-input marker.
#[derive(Debug, Clone, Copy, PartialEq, Eq, Structural)]
pub enum Token {
    Number(Num),
    Plus,
    Minus,
    Star,
    Slash,
    LeftParen,
    RightParen,
    Eof,
}

impl Token {
    /// Whether two tokens are of the same kind, any carried number ignored.
    pub open spec fn spec_same_kind(self, other: Token) -> bool {
        match (self, other) {
            (Token::Number(_), Token::Number(_)) => true,
            (Token::Plus, Token::Plus) => true,
            (Token::Minus, Token::Minus) => true,
            (Token::Star, Token::Star) => true,
            (Token::Slash, Token::Slash) => true,
            (Token::LeftParen, Token::LeftParen) => true,
            (Token::RightParen, Token::RightParen) => true,
            (Token::Eof, Token::Eof) => true,
            _ => false,
        }
    }

    pub fn same_kind(&self, other: &Token) -> (r: bool)
        ensures
            r == self.spec_same_kind(*other),
    {
        match (self, other) {
            (Token::Number(_), Token::Number(_)) => true,
            (Token::Plus, Token::Plus) => true,
            (Token::Minus, Token::Minus) => true,
            (Token::Star, Token::Star) => true,
            (Token::Slash, Token::Slash) => true,
            (Token::LeftParen, Token::LeftParen) => true,
            (Token::RightParen, Token::RightParen) => true,
            (Token::Eof, Token::Eof) => true,
            _ => false,
        }
    }

    /// The text a token shows as in a diagnostic.
    pub open spec fn spec_describe(self) -> Seq<char> {
        match self {
            Token::Number(n) => "Number("@ + rendered_bits(n.bits) + ")"@,
            Token::Plus => "Plus"@,
            Token::Minus => "Minus"@,
            Token::Star => "Star"@,
            Token::Slash => "Slash"@,
            Token::LeftParen => "LeftParen"@,
            Token::RightParen => "RightParen"@,
            Token::Eof => "Eof"@,
        }
    }

    pub fn describe(&self) -> (r: String)
        ensures
            r@ == self.spec_describe(),
    {
        match self {
            Token::Number(n) => {
                let mut s = "Number(".to_owned();
                let t = num_to_text(*n);
                s.append(t.as_str());
                s.append(")");
                s
            },
            Token::Plus => "Plus".to_owned(),
            Token::Minus => "Minus".to_owned(),
            Token::Star => "Star".to_owned(),
            Token::Slash => "Slash".to_owned(),
            Token::LeftParen => "LeftParen".to_owned(),
            Token::RightParen => "RightParen".to_owned(),
            Token::Eof => "Eof".to_owned(),
        }
    }
}

} // verus!
