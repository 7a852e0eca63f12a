use vstd::prelude::*;
use vstd::string::StrSliceExecFns;

use crate::token::{Tok, Token, TokenKind};

verus! {

/// The classes of character that the lexer reads in runs.
#[derive(Debug, Clone, Copy, PartialEq, Eq, Structural)]
pub enum CharClass {
    /// Space, tab and carriage return (not line feed).
    Blank,
    Digit,
    Alpha,
    Newline,
}

pub open spec fn in_class(c: char, k: CharClass) -> bool {
    match k {
        CharClass::Blank => c == ' ' || c == '\t' || c == '\r',
        CharClass::Digit => '0' <= c && c <= '9',
        CharClass::Alpha => ('a' <= c && c <= 'z') || ('A' <= c && c <= 'Z'),
        CharClass::Newline => c == '\n',
    }
}

/// The end of the longest run of characters of class `k` that starts at `p`.
pub open spec fn run_end(cs: Seq<char>, p: int, k: CharClass) -> int
    decreases cs.len() - p,
{
    if 0 <= p < cs.len() && in_class(cs[p], k) {
        run_end(cs, p + 1, k)
    } else {
        p
    }
}

/// The kind and length of an operator or structural token at `q`, one or
/// two characters long; an unrecognised character is one `Illegal` character.
pub open spec fn symbol_at(cs: Seq<char>, q: int) -> (TokenKind, int) {
    let c = cs[q];
    let n: Option<char> = if q + 1 < cs.len() {
        Some(cs[q + 1])
    } else {
        None
    };
    if c == '+' {
        (TokenKind::Plus, 1)
    } else if c == '-' {
        (TokenKind::Minus, 1)
    } else if c == '*' {
        (TokenKind::Asterisk, 1)
    } else if c == '/' {
        (TokenKind::Slash, 1)
    } else if c == '(' {
        (TokenKind::LParen, 1)
    } else if c == ')' {
        (TokenKind::RParen, 1)
    } else if c == ',' {
        (TokenKind::Comma, 1)
    } else if c == '"' {
        (TokenKind::DoubleQuote, 1)
    } else if c == '=' {
        if n == Some('=') {
            (TokenKind::Eq, 2)
        } else if n == Some('>') {
            (TokenKind::Arrow, 2)
        } else {
            (TokenKind::Eq, 1)
        }
    } else if c == '!' {
        if n == Some('=') {
            (TokenKind::Ne, 2)
        } else {
            (TokenKind::Illegal, 1)
        }
    } else if c == '<' {
        if n == Some('=') {
            (TokenKind::Le, 2)
        } else if n == Some('>') {
            (TokenKind::Ne, 2)
        } else {
            (TokenKind::Lt, 1)
        }
    } else if c == '>' {
        if n == Some('=') {
            (TokenKind::Ge, 2)
        } else {
            (TokenKind::Gt, 1)
        }
    } else {
        (TokenKind::Illegal, 1)
    }
}

/// The token that starts at or after position `p` of `cs`, and the position
/// just after it; `None` at the end of the input.
pub open spec fn next_tok(cs: Seq<char>, p: int) -> Option<(Tok, int)> {
    let q = run_end(cs, p, CharClass::Blank);
    if q < 0 || q >= cs.len() {
        None
    } else if in_class(cs[q], CharClass::Digit) {
        let e = run_end(cs, q, CharClass::Digit);
        Some((Tok { kind: TokenKind::Number, text: cs.subrange(q, e) }, e))
    } else if in_class(cs[q], CharClass::Alpha) {
        let e = run_end(cs, q, CharClass::Alpha);
        Some((Tok { kind: TokenKind::Ident, text: cs.subrange(q, e) }, e))
    } else if cs[q] == '\n' {
        let e = run_end(cs, q, CharClass::Newline);
        Some((Tok { kind: TokenKind::Separator, text: cs.subrange(q, q + 1) }, e))
    } else {
        let (kind, len) = symbol_at(cs, q);
        Some((Tok { kind, text: cs.subrange(q, q + len) }, q + len))
    }
}

/// The tokens of `cs` from position `p` on.
pub open spec fn tokens_from(cs: Seq<char>, p: int) -> Seq<Tok>
    decreases cs.len() - p,
{
    match next_tok(cs, p) {
        None => Seq::empty(),
        Some((t, e)) => if p < e <= cs.len() {
            seq![t] + tokens_from(cs, e)
        } else {
            Seq::empty()
        },
    }
}

/// The token sequence of a whole text.
pub open spec fn tokenize(cs: Seq<char>) -> Seq<Tok> {
    tokens_from(cs, 0)
}

pub proof fn lemma_run_end_bounds(cs: Seq<char>, p: int, k: CharClass)
    requires
        0 <= p <= cs.len(),
    ensures
        p <= run_end(cs, p, k) <= cs.len(),
        forall|i: int| p <= i < run_end(cs, p, k) ==> in_class(#[trigger] cs[i], k),
        p < cs.len() && in_class(cs[p], k) ==> p < run_end(cs, p, k),
    decreases cs.len() - p,
{
    if p < cs.len() && in_class(cs[p], k) {
        lemma_run_end_bounds(cs, p + 1, k);
    }
}

/// Each token read moves strictly forward and stays within the input.
pub proof fn lemma_next_tok_advances(cs: Seq<char>, p: int)
    requires
        0 <= p <= cs.len(),
    ensures
        next_tok(cs, p) matches Some((t, e)) ==> p < e <= cs.len(),
{
    lemma_run_end_bounds(cs, p, CharClass::Blank);
    let q = run_end(cs, p, CharClass::Blank);
    if 0 <= q < cs.len() {
        lemma_run_end_bounds(cs, q, CharClass::Digit);
        lemma_run_end_bounds(cs, q, CharClass::Alpha);
        lemma_run_end_bounds(cs, q, CharClass::Newline);
    }
}

/// A run of characters of one class, ended by the end of the input or by a
/// character outside the class, ends there.
pub proof fn lemma_run_end_block(cs: Seq<char>, p: int, q: int, k: CharClass)
    requires
        0 <= p <= q <= cs.len(),
        forall|i: int| p <= i < q ==> in_class(#[trigger] cs[i], k),
        q == cs.len() || !in_class(cs[q], k),
    ensures
        run_end(cs, p, k) == q,
    decreases q - p,
{
    if p < q {
        lemma_run_end_block(cs, p + 1, q, k);
    }
}

fn in_class_exec(c: char, k: CharClass) -> (r: bool)
    ensures
        r == in_class(c, k),
{
    match k {
        CharClass::Blank => c == ' ' || c == '\t' || c == '\r',
        CharClass::Digit => '0' <= c && c <= '9',
        CharClass::Alpha => ('a' <= c && c <= 'z') || ('A' <= c && c <= 'Z'),
        CharClass::Newline => c == '\n',
    }
}

/// Reads a text one token at a time.
pub struct Lexer {
    input: String,
    chars: Vec<char>,
    position: usize,
}

impl Lexer {
    /// The characters of the text being read.
    pub closed spec fn text(&self) -> Seq<char> {
        self.chars@
    }

    /// The position of the next character to read.
    pub closed spec fn pos(&self) -> int {
        self.position as int
    }

    pub closed spec fn wf(&self) -> bool {
        &&& self.chars@ == self.input@
        &&& self.position <= self.chars@.len()
    }

    /// The tokens not yet read.
    pub open spec fn rest(&self) -> Seq<Tok> {
        tokens_from(self.text(), self.pos())
    }

    pub fn new(input: String) -> (r: Self)
        ensures
            r.wf(),
            r.text() == input@,
            r.pos() == 0,
    {
        let s = input.as_str();
        let n = s.unicode_len();
        let mut chars: Vec<char> = Vec::new();
        let mut i: usize = 0;
        while i < n
            invariant
                n == input@.len(),
                s@ == input@,
                i <= n,
                chars@ == input@.subrange(0, i as int),
            decreases n - i,
        {
            chars.push(s.get_char(i));
            i = i + 1;
        }
        assert(chars@ == input@);
        Lexer { input, chars, position: 0 }
    }

    /// The end of the run of characters of class `k` that starts at `from`.
    fn scan(&self, from: usize, k: CharClass) -> (e: usize)
        requires
            self.wf(),
            from <= self.text().len(),
        ensures
            e as int == run_end(self.text(), from as int, k),
    {
        let mut e = from;
        while e < self.chars.len() && in_class_exec(self.chars[e], k)
            invariant
                self.wf(),
                from <= e <= self.chars@.len(),
                run_end(self.text(), from as int, k) == run_end(self.text(), e as int, k),
            decreases self.chars@.len() - e,
        {
            e = e + 1;
        }
        e
    }

    /// The text between two positions, as a new string.
    fn slice(&self, from: usize, to: usize) -> (r: String)
        requires
            self.wf(),
            from <= to <= self.text().len(),
        ensures
            r@ == self.text().subrange(from as int, to as int),
    {
        self.input.as_str().substring_char(from, to).to_owned()
    }

    fn symbol_at_exec(&self, q: usize) -> (r: (TokenKind, usize))
        requires
            self.wf(),
            q < self.text().len(),
        ensures
            r.0 == symbol_at(self.text(), q as int).0,
            r.1 as int == symbol_at(self.text(), q as int).1,
    {
        let c = self.chars[q];
        let n: Option<char> = if q < self.chars.len() - 1 {
            Some(self.chars[q + 1])
        } else {
            None
        };
        if c == '+' {
            (TokenKind::Plus, 1)
        } else if c == '-' {
            (TokenKind::Minus, 1)
        } else if c == '*' {
            (TokenKind::Asterisk, 1)
        } else if c == '/' {
            (TokenKind::Slash, 1)
        } else if c == '(' {
            (TokenKind::LParen, 1)
        } else if c == ')' {
            (TokenKind::RParen, 1)
        } else if c == ',' {
            (TokenKind::Comma, 1)
        } else if c == '"' {
            (TokenKind::DoubleQuote, 1)
        } else if c == '=' {
            if n == Some('=') {
                (TokenKind::Eq, 2)
            } else if n == Some('>') {
                (TokenKind::Arrow, 2)
            } else {
                (TokenKind::Eq, 1)
            }
        } else if c == '!' {
            if n == Some('=') {
                (TokenKind::Ne, 2)
            } else {
                (TokenKind::Illegal, 1)
            }
        } else if c == '<' {
            if n == Some('=') {
                (TokenKind::Le, 2)
            } else if n == Some('>') {
                (TokenKind::Ne, 2)
            } else {
                (TokenKind::Lt, 1)
            }
        } else if c == '>' {
            if n == Some('=') {
                (TokenKind::Ge, 2)
            } else {
                (TokenKind::Gt, 1)
            }
        } else {
            (TokenKind::Illegal, 1)
        }
    }

    /// Reads the next token; `None` at the end of the input.
    pub fn next_token(&mut self) -> (r: Option<Token>)
        requires
            old(self).wf(),
        ensures
            final(self).wf(),
            final(self).text() == old(self).text(),
            match next_tok(old(self).text(), old(self).pos()) {
                None => r is None && final(self).pos() == old(self).pos(),
                Some((t, e)) => r matches Some(tk) && tk@ == t && final(self).pos() == e,
            },
            r is None ==> old(self).rest() == Seq::<Tok>::empty(),
            r matches Some(t) ==> old(self).rest() == seq![t@] + final(self).rest(),
    {
        proof {
            lemma_next_tok_advances(self.text(), self.pos());
            lemma_run_end_bounds(self.text(), self.pos(), CharClass::Blank);
        }
        let q = self.scan(self.position, CharClass::Blank);
        if q >= self.chars.len() {
            return None;
        }
        let c = self.chars[q];
        proof {
            lemma_run_end_bounds(self.text(), q as int, CharClass::Digit);
            lemma_run_end_bounds(self.text(), q as int, CharClass::Alpha);
            lemma_run_end_bounds(self.text(), q as int, CharClass::Newline);
        }
        if in_class_exec(c, CharClass::Digit) {
            let e = self.scan(q, CharClass::Digit);
            let lit = self.slice(q, e);
            self.position = e;
            Some(Token::new(TokenKind::Number, lit))
        } else if in_class_exec(c, CharClass::Alpha) {
            let e = self.scan(q, CharClass::Alpha);
            let lit = self.slice(q, e);
            self.position = e;
            Some(Token::new(TokenKind::Ident, lit))
        } else if c == '\n' {
            let e = self.scan(q, CharClass::Newline);
            let lit = self.slice(q, q + 1);
            self.position = e;
            Some(Token::new(TokenKind::Separator, lit))
        } else {
            let (kind, len) = self.symbol_at_exec(q);
            let lit = self.slice(q, q + len);
            self.position = q + len;
            Some(Token::new(kind, lit))
        }
    }
}

} // verus!
