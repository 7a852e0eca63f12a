use vstd::prelude::*;

verus! {

/// The kinds of token that the lexer produces.
#[derive(Debug, Clone, Copy, PartialEq, Eq, Structural)]
pub enum TokenKind {
    /// A character that starts no token.
    Illegal,
    /// A run of decimal digits.
    Number,
    Plus,
    Minus,
    Asterisk,
    Slash,
    /// `=` or `==`.
    Eq,
    /// `!=` or `<>`.
    Ne,
    Lt,
    Le,
    Gt,
    Ge,
    Comma,
    DoubleQuote,
    LParen,
    RParen,
    /// A run of ASCII letters.
    Ident,
    /// One or more consecutive line breaks.
    Separator,
    /// `=>`.
    Arrow,
}

impl Default for TokenKind {
    fn default() -> (r: Self)
        ensures
            r == TokenKind::Illegal,
    {
        TokenKind::Illegal
    }
}

/// What a token is, mathematically: its kind and its text.
pub struct Tok {
    pub kind: TokenKind,
    pub text: Seq<char>,
}

/// A token: a kind together with the source text it was read from.
#[derive(Debug, Clone, PartialEq, Eq)]
pub struct Token {
    kind: TokenKind,
    literal: String,
}

impl View for Token {
    type V = Tok;

    closed spec fn view(&self) -> Tok {
        Tok { kind: self.kind, text: self.literal@ }
    }
}

impl Token {
    pub fn new(kind: TokenKind, literal: String) -> (r: Self)
        ensures
            r@ == (Tok { kind, text: literal@ }),
    {
        Self { kind, literal }
    }

    pub fn kind(&self) -> (r: TokenKind)
        ensures
            r == self@.kind,
    {
        self.kind
    }

    pub fn literal(&self) -> (r: String)
        ensures
            r@ == self@.text,
    {
        self.literal.clone()
    }

    /// A copy of the token with the same view.
    pub fn duplicate(&self) -> (r: Self)
        ensures
            r@ == self@,
    {
        Token { kind: self.kind, literal: self.literal.clone() }
    }
}

} // verus!
