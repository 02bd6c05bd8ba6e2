//! Token trees as the snippet grammar reads them.

use vstd::prelude::*;

verus! {

/// A half-open range of byte offsets into some source text.
#[derive(Clone, Copy, Debug, PartialEq, Eq, Hash, Structural)]
pub struct Span {
    pub lo: usize,
    pub hi: usize,
}

impl Span {
    /// The range that starts where `self` starts and ends where `other` ends.
    pub fn extend(self, other: Span) -> (r: Span)
        ensures
            r.lo == self.lo,
            r.hi == other.hi,
    {
        Span { lo: self.lo, hi: other.hi }
    }
}

/// The three kinds of bracket that group token trees.
#[derive(Clone, Copy, Debug, PartialEq, Eq, Hash, Structural)]
pub enum DelimToken {
    /// `(` and `)`
    Paren,
    /// `[` and `]`
    Bracket,
    /// `{` and `}`
    Brace,
}

/// A single token. Only the tokens that some rule of this library inspects have a
/// variant of their own; every other token is `Other`.
#[derive(Debug, PartialEq, Eq, Hash)]
pub enum Token {
    /// An identifier or keyword, with its text.
    Ident(String),
    /// `,`
    Comma,
    /// `&`
    And,
    /// `*`
    Star,
    /// `->`
    RArrow,
    /// `!`
    Not,
    /// A string literal, with its unescaped content.
    Str(String),
    /// Any other token.
    Other,
}

/// The model of a token.
pub enum TokenModel {
    Ident(Seq<char>),
    Comma,
    And,
    Star,
    RArrow,
    Not,
    Str(Seq<char>),
    Other,
}

impl View for Token {
    type V = TokenModel;

    open spec fn view(&self) -> TokenModel {
        match *self {
            Token::Ident(s) => TokenModel::Ident(s@),
            Token::Comma => TokenModel::Comma,
            Token::And => TokenModel::And,
            Token::Star => TokenModel::Star,
            Token::RArrow => TokenModel::RArrow,
            Token::Not => TokenModel::Not,
            Token::Str(s) => TokenModel::Str(s@),
            Token::Other => TokenModel::Other,
        }
    }
}

/// A token, or a bracketed group of token trees, with the span it covers.
#[derive(Debug, PartialEq, Eq, Hash)]
pub enum Tree {
    Token(Token, Span),
    Delimited(DelimToken, Vec<Tree>, Span),
}

impl Tree {
    /// The span of the whole tree.
    pub open spec fn spec_span(&self) -> Span {
        match *self {
            Tree::Token(_, span) => span,
            Tree::Delimited(_, _, span) => span,
        }
    }

    /// The span of the whole tree.
    #[verifier::when_used_as_spec(spec_span)]
    pub fn span(&self) -> (r: Span)
        ensures
            r == self.spec_span(),
    {
        match self {
            Tree::Token(_, span) => *span,
            Tree::Delimited(_, _, span) => *span,
        }
    }
}

} // verus!
