use vstd::prelude::*;

use crate::ast::{
    texts, views, BinaryExprKind, CommandDefinition, ComparisonExprKind, Def, Expr, Node, Program,
};
use crate::environment::FunctionKind;
use crate::grammar::{
    all_digits, digits_value, lemma_add_rest_unfold, lemma_add_unfold, lemma_args_unfold,
    lemma_call_unfold, lemma_equality_unfold, lemma_expr_unfold, lemma_mul_rest_unfold,
    lemma_mul_unfold, lemma_primary_unfold, lemma_program_unfold, lemma_relational_unfold,
    literal_value, p_add, p_add_rest, p_args, p_call, p_def, p_equality, p_expr, p_mul, p_mul_rest,
    p_pat, p_primary, p_program, p_relational, parse_expression, starts,
};
use crate::lexer::{tokenize, Lexer};
use crate::token::{Tok, Token, TokenKind};
use crate::IntegerType;

verus! {

/// The integer value of a number literal, or `None` when the text is not a
/// non-empty run of digits or its value does not fit in `IntegerType`.
pub fn parse_literal(s: &str) -> (r: Option<IntegerType>)
    ensures
        r matches Some(v) ==> literal_value(s@) == Some(v as int),
        r is None ==> literal_value(s@) is None,
{
    let n = s.unicode_len();
    if n == 0 {
        return None;
    }
    let mut v: IntegerType = 0;
    let mut over = false;
    let mut i: usize = 0;
    while i < n
        invariant
            n == s@.len(),
            i <= n,
            all_digits(s@.subrange(0, i as int)),
            !over ==> v as int == digits_value(s@.subrange(0, i as int)),
            over ==> digits_value(s@.subrange(0, i as int)) > IntegerType::MAX,
            0 <= v,
        decreases n - i,
    {
        let c = s.get_char(i);
        if !('0' <= c && c <= '9') {
            assert(!all_digits(s@)) by {
                assert(!('0' <= s@[i as int] && s@[i as int] <= '9'));
            }
            return None;
        }
        let d = (c as u32 - '0' as u32) as IntegerType;
        let ghost prefix = s@.subrange(0, i as int);
        let ghost next = s@.subrange(0, i as int + 1);
        assert(next.drop_last() =~= prefix);
        assert(next.last() == c);
        if !over {
            if v > (IntegerType::MAX - d) / 10 {
                over = true;
                assert(digits_value(next) > IntegerType::MAX) by (nonlinear_arith)
                    requires
                        digits_value(next) == digits_value(prefix) * 10 + d,
                        v > (IntegerType::MAX - d) / 10,
                        v as int == digits_value(prefix),
                        0 <= d <= 9,
                ;
            } else {
                assert(v * 10 + d <= IntegerType::MAX) by (nonlinear_arith)
                    requires
                        v <= (IntegerType::MAX - d) / 10,
                        0 <= d <= 9,
                        0 <= v,
                ;
                v = v * 10 + d;
            }
        } else {
            assert(digits_value(next) > IntegerType::MAX) by (nonlinear_arith)
                requires
                    digits_value(next) == digits_value(prefix) * 10 + d,
                    digits_value(prefix) > IntegerType::MAX,
                    0 <= d <= 9,
            ;
        }
        i = i + 1;
    }
    assert(s@.subrange(0, n as int) =~= s@);
    if over {
        None
    } else {
        Some(v)
    }
}

/// What a parsing step promises: the tree it built and the tokens left, or
/// failure.
pub open spec fn parsed(r: Result<Box<Node>, ()>, rest: Seq<Tok>) -> Option<(Expr, Seq<Tok>)> {
    match r {
        Ok(n) => Some(((*n)@, rest)),
        Err(_) => None,
    }
}

/// A list of definitions, followed by those that `r` holds, if any.
pub open spec fn prefixed(
    defs: Seq<Def>,
    r: Option<Seq<Def>>,
) -> Option<Seq<Def>> {
    match r {
        None => None,
        Some(more) => Some(defs + more),
    }
}

/// A recursive-descent parser over the tokens of one lexer.
pub struct Parser {
    lexer: Lexer,
    cur_token: Option<Token>,
}

impl Parser {
    pub closed spec fn wf(&self) -> bool {
        &&& self.lexer.wf()
        &&& self.cur_token is None ==> self.lexer.rest() == Seq::<Tok>::empty()
    }

    /// The tokens not yet consumed, the current one first.
    pub closed spec fn rest(&self) -> Seq<Tok> {
        match self.cur_token {
            None => Seq::empty(),
            Some(t) => seq![t@] + self.lexer.rest(),
        }
    }

    pub fn new(lexer: Lexer) -> (r: Self)
        requires
            lexer.wf(),
        ensures
            r.wf(),
            r.rest() == lexer.rest(),
    {
        let mut parser = Self { lexer, cur_token: None };
        parser.read_token();
        parser
    }

    /// A parser over the tokens of a text.
    pub fn from_text(input: String) -> (r: Self)
        ensures
            r.wf(),
            r.rest() == tokenize(input@),
    {
        Parser::new(Lexer::new(input))
    }

    fn read_token(&mut self)
        requires
            old(self).lexer.wf(),
        ensures
            final(self).wf(),
            final(self).rest() == old(self).lexer.rest(),
    {
        self.cur_token = self.lexer.next_token();
        proof {
            if self.cur_token is Some {
                assert(self.rest() =~= old(self).lexer.rest());
            }
        }
    }

    fn peek(&self, expected: TokenKind) -> (r: bool)
        requires
            self.wf(),
        ensures
            r == starts(self.rest(), expected),
    {
        match &self.cur_token {
            Some(t) => t.kind() == expected,
            None => false,
        }
    }

    fn consume(&mut self, expected: TokenKind) -> (r: Option<Token>)
        requires
            old(self).wf(),
        ensures
            final(self).wf(),
            starts(old(self).rest(), expected) ==> (r matches Some(t) && t@ == old(self).rest()[0]
                && final(self).rest() == old(self).rest().drop_first()),
            !starts(old(self).rest(), expected) ==> r is None && final(self).rest() == old(
                self,
            ).rest(),
    {
        match &self.cur_token {
            Some(t) => {
                if t.kind() != expected {
                    return None;
                }
                let t = t.duplicate();
                self.read_token();
                assert(old(self).rest().drop_first() =~= old(self).lexer.rest());
                Some(t)
            },
            None => None,
        }
    }

    fn expect(&mut self, expected: TokenKind) -> (r: Result<Token, ()>)
        requires
            old(self).wf(),
        ensures
            final(self).wf(),
            starts(old(self).rest(), expected) ==> (r matches Ok(t) && t@ == old(self).rest()[0]
                && final(self).rest() == old(self).rest().drop_first()),
            !starts(old(self).rest(), expected) ==> r is Err,
    {
        match self.consume(expected) {
            Some(t) => Ok(t),
            None => Err(()),
        }
    }

    /// The kind of the current token, if any.
    fn current_kind(&self) -> (r: Option<TokenKind>)
        requires
            self.wf(),
        ensures
            self.rest().len() > 0 ==> r == Some(self.rest()[0].kind),
            self.rest().len() == 0 ==> r is None,
    {
        match &self.cur_token {
            Some(t) => Some(t.kind()),
            None => None,
        }
    }

    /// Moves past the current token.
    fn advance(&mut self)
        requires
            old(self).wf(),
            old(self).rest().len() > 0,
        ensures
            final(self).wf(),
            final(self).rest() == old(self).rest().drop_first(),
    {
        self.read_token();
        assert(old(self).rest().drop_first() =~= old(self).lexer.rest());
    }

    pub fn is_eof(&self) -> (r: bool)
        requires
            self.wf(),
        ensures
            r == (self.rest().len() == 0),
    {
        self.cur_token.is_none()
    }

    /// Parses the whole remaining input as one expression.
    pub fn parse(&mut self) -> (r: Result<Box<Node>, ()>)
        requires
            old(self).wf(),
        ensures
            final(self).wf(),
            match r {
                Ok(n) => parse_expression(old(self).rest()) == Some(n@),
                Err(_) => parse_expression(old(self).rest()) is None,
            },
    {
        let node = match self.expr() {
            Ok(n) => n,
            Err(_) => return Err(()),
        };
        if !self.is_eof() {
            return Err(());
        }
        Ok(node)
    }

    /// Parses the whole remaining input as a program: command definitions,
    /// each ended by a separator.
    pub fn program(&mut self) -> (r: Result<Program, ()>)
        requires
            old(self).wf(),
        ensures
            final(self).wf(),
            match r {
                Ok(p) => p_program(old(self).rest()) == Some(p@),
                Err(_) => p_program(old(self).rest()) is None,
            },
    {
        let ghost ts = self.rest();
        let mut program = Program::new();
        assert(program@ + Seq::<Def>::empty() =~= Seq::<Def>::empty());
        while !self.is_eof()
            invariant
                self.wf(),
                ts == old(self).rest(),
                p_program(ts) == prefixed(program@, p_program(self.rest())),
            decreases self.rest().len(),
        {
            let ghost before = self.rest();
            proof {
                lemma_program_unfold(before);
            }
            let def = match self.def() {
                Ok(d) => d,
                Err(_) => return Err(()),
            };
            let ghost mid = self.rest();
            match self.expect(TokenKind::Separator) {
                Ok(_) => {},
                Err(_) => return Err(()),
            }
            let ghost old_program = program@;
            program.push(def);
            proof {
                lemma_program_unfold(before);
                if let Some(more) = p_program(self.rest()) {
                    assert(old_program + (seq![def@] + more) =~= program@ + more);
                }
            }
        }
        proof {
            lemma_program_unfold(self.rest());
        }
        assert(program@ + Seq::<Def>::empty() =~= program@);
        Ok(program)
    }

    /// `def = pat "=>" expr`
    fn def(&mut self) -> (r: Result<CommandDefinition, ()>)
        requires
            old(self).wf(),
        ensures
            final(self).wf(),
            p_def(old(self).rest()) == match r {
                Ok(d) => Some((d@, final(self).rest())),
                Err(_) => None,
            },
            r is Ok ==> final(self).rest().len() < old(self).rest().len(),
    {
        proof {
            reveal(p_def);
        }
        let (name, kind, parameters) = match self.pat() {
            Ok(p) => p,
            Err(_) => return Err(()),
        };
        match self.expect(TokenKind::Arrow) {
            Ok(_) => {},
            Err(_) => return Err(()),
        }
        let expr = match self.expr() {
            Ok(e) => e,
            Err(_) => return Err(()),
        };
        Ok(CommandDefinition::new(name, kind, parameters, expr))
    }

    /// `pat = name | name '"' param '"' | left '"' name '"' right | '"' param '"' name`
    fn pat(&mut self) -> (r: Result<(String, FunctionKind, Vec<String>), ()>)
        requires
            old(self).wf(),
        ensures
            final(self).wf(),
            p_pat(old(self).rest()) == match r {
                Ok((n, k, ps)) => Some((n@, k, texts(ps@), final(self).rest())),
                Err(_) => None,
            },
            r is Ok ==> final(self).rest().len() < old(self).rest().len(),
    {
        proof {
            reveal(p_pat);
        }
        if let Some(a) = self.consume(TokenKind::Ident) {
            if self.consume(TokenKind::DoubleQuote).is_some() {
                let b = match self.expect(TokenKind::Ident) {
                    Ok(t) => t,
                    Err(_) => return Err(()),
                };
                match self.expect(TokenKind::DoubleQuote) {
                    Ok(_) => {},
                    Err(_) => return Err(()),
                }
                if let Some(c) = self.consume(TokenKind::Ident) {
                    let ps = vec![a.literal(), c.literal()];
                    assert(texts(ps@) =~= seq![a@.text, c@.text]);
                    return Ok((b.literal(), FunctionKind::Infix, ps));
                }
                let ps = vec![b.literal()];
                assert(texts(ps@) =~= seq![b@.text]);
                return Ok((a.literal(), FunctionKind::Prefix, ps));
            }
            let ps: Vec<String> = Vec::new();
            assert(texts(ps@) =~= Seq::<Seq<char>>::empty());
            return Ok((a.literal(), FunctionKind::Nullary, ps));
        }
        match self.expect(TokenKind::DoubleQuote) {
            Ok(_) => {},
            Err(_) => return Err(()),
        }
        let p = match self.expect(TokenKind::Ident) {
            Ok(t) => t,
            Err(_) => return Err(()),
        };
        match self.expect(TokenKind::DoubleQuote) {
            Ok(_) => {},
            Err(_) => return Err(()),
        }
        let name = match self.expect(TokenKind::Ident) {
            Ok(t) => t,
            Err(_) => return Err(()),
        };
        let ps = vec![p.literal()];
        assert(texts(ps@) =~= seq![p@.text]);
        Ok((name.literal(), FunctionKind::Postfix, ps))
    }

    /// `expr = equality`
    pub fn expr(&mut self) -> (r: Result<Box<Node>, ()>)
        requires
            old(self).wf(),
        ensures
            final(self).wf(),
            p_expr(old(self).rest()) == parsed(r, final(self).rest()),
            r is Ok ==> final(self).rest().len() < old(self).rest().len(),
        decreases old(self).rest().len(), 8nat,
    {
        proof {
            lemma_expr_unfold(self.rest());
        }
        self.equality()
    }

    /// `equality = relational [ ("=" | "==" | "!=" | "<>") relational ]`
    fn equality(&mut self) -> (r: Result<Box<Node>, ()>)
        requires
            old(self).wf(),
        ensures
            final(self).wf(),
            p_equality(old(self).rest()) == parsed(r, final(self).rest()),
            r is Ok ==> final(self).rest().len() < old(self).rest().len(),
        decreases old(self).rest().len(), 7nat,
    {
        proof {
            lemma_equality_unfold(self.rest());
        }
        let node = match self.relational() {
            Ok(n) => n,
            Err(_) => return Err(()),
        };
        let kind = match self.current_kind() {
            Some(TokenKind::Eq) => ComparisonExprKind::Eq,
            Some(TokenKind::Ne) => ComparisonExprKind::Ne,
            _ => return Ok(node),
        };
        self.advance();
        let rhs = match self.relational() {
            Ok(n) => n,
            Err(_) => return Err(()),
        };
        Ok(Box::new(Node::ComparisonExpr { kind, lhs: node, rhs }))
    }

    /// `relational = additive [ ("<" | "<=" | ">" | ">=") additive ]`
    fn relational(&mut self) -> (r: Result<Box<Node>, ()>)
        requires
            old(self).wf(),
        ensures
            final(self).wf(),
            p_relational(old(self).rest()) == parsed(r, final(self).rest()),
            r is Ok ==> final(self).rest().len() < old(self).rest().len(),
        decreases old(self).rest().len(), 6nat,
    {
        proof {
            lemma_relational_unfold(self.rest());
        }
        let node = match self.add() {
            Ok(n) => n,
            Err(_) => return Err(()),
        };
        let kind = match self.current_kind() {
            Some(TokenKind::Lt) => ComparisonExprKind::Lt,
            Some(TokenKind::Le) => ComparisonExprKind::Le,
            Some(TokenKind::Gt) => ComparisonExprKind::Gt,
            Some(TokenKind::Ge) => ComparisonExprKind::Ge,
            _ => return Ok(node),
        };
        self.advance();
        let rhs = match self.add() {
            Ok(n) => n,
            Err(_) => return Err(()),
        };
        Ok(Box::new(Node::ComparisonExpr { kind, lhs: node, rhs }))
    }

    /// `additive = multiplicative ( ("+" | "-") multiplicative )*`
    fn add(&mut self) -> (r: Result<Box<Node>, ()>)
        requires
            old(self).wf(),
        ensures
            final(self).wf(),
            p_add(old(self).rest()) == parsed(r, final(self).rest()),
            r is Ok ==> final(self).rest().len() < old(self).rest().len(),
        decreases old(self).rest().len(), 5nat,
    {
        proof {
            lemma_add_unfold(self.rest());
        }
        let ghost ts = self.rest();
        let mut node = match self.mul() {
            Ok(n) => n,
            Err(_) => return Err(()),
        };
        loop
            invariant
                self.wf(),
                ts == old(self).rest(),
                self.rest().len() < ts.len(),
                p_add(ts) == p_add_rest((*node)@, self.rest()),
            decreases self.rest().len(),
        {
            proof {
                lemma_add_rest_unfold((*node)@, self.rest());
            }
            let kind = match self.current_kind() {
                Some(TokenKind::Plus) => BinaryExprKind::Add,
                Some(TokenKind::Minus) => BinaryExprKind::Sub,
                _ => return Ok(node),
            };
            self.advance();
            let rhs = match self.mul() {
                Ok(n) => n,
                Err(_) => return Err(()),
            };
            node = Box::new(Node::BinaryExpr { kind, lhs: node, rhs });
        }
    }

    /// `multiplicative = call ( ("*" | "/") call )*`
    fn mul(&mut self) -> (r: Result<Box<Node>, ()>)
        requires
            old(self).wf(),
        ensures
            final(self).wf(),
            p_mul(old(self).rest()) == parsed(r, final(self).rest()),
            r is Ok ==> final(self).rest().len() < old(self).rest().len(),
        decreases old(self).rest().len(), 4nat,
    {
        proof {
            lemma_mul_unfold(self.rest());
        }
        let ghost ts = self.rest();
        let mut node = match self.call() {
            Ok(n) => n,
            Err(_) => return Err(()),
        };
        loop
            invariant
                self.wf(),
                ts == old(self).rest(),
                self.rest().len() < ts.len(),
                p_mul(ts) == p_mul_rest((*node)@, self.rest()),
            decreases self.rest().len(),
        {
            proof {
                lemma_mul_rest_unfold((*node)@, self.rest());
            }
            let kind = match self.current_kind() {
                Some(TokenKind::Asterisk) => BinaryExprKind::Mul,
                Some(TokenKind::Slash) => BinaryExprKind::Div,
                _ => return Ok(node),
            };
            self.advance();
            let rhs = match self.call() {
                Ok(n) => n,
                Err(_) => return Err(()),
            };
            node = Box::new(Node::BinaryExpr { kind, lhs: node, rhs });
        }
    }

    /// The calling shapes; see `p_call`.
    fn call(&mut self) -> (r: Result<Box<Node>, ()>)
        requires
            old(self).wf(),
        ensures
            final(self).wf(),
            p_call(old(self).rest()) == parsed(r, final(self).rest()),
            r is Ok ==> final(self).rest().len() < old(self).rest().len(),
        decreases old(self).rest().len(), 3nat,
    {
        proof {
            lemma_call_unfold(self.rest());
        }
        if let Some(token) = self.consume(TokenKind::Ident) {
            let name = token.literal();
            if self.consume(TokenKind::LParen).is_some() {
                if self.consume(TokenKind::RParen).is_some() {
                    let parameters: Vec<Box<Node>> = Vec::new();
                    let r = Box::new(Node::FunctionCall { name, parameters });
                    assert((*r)@ == Expr::Call(name@, Seq::empty())) by {
                        if let Expr::Call(_, a) = (*r)@ {
                            assert(a =~= Seq::<Expr>::empty());
                        }
                    }
                    return Ok(r);
                }
                let mut parameters = match self.args() {
                    Ok(ps) => ps,
                    Err(_) => return Err(()),
                };
                if parameters.len() == 1 {
                    let rhs = parameters.pop().unwrap();
                    return Ok(Box::new(Node::PrefixCommand { name, rhs }));
                }
                let ghost args = views(parameters@);
                let r = Box::new(Node::FunctionCall { name, parameters });
                assert((*r)@ == Expr::Call(name@, args)) by {
                    if let Expr::Call(_, a) = (*r)@ {
                        assert(a =~= args);
                    }
                }
                return Ok(r);
            }
            if self.peek(TokenKind::Number) {
                let rhs = match self.primary() {
                    Ok(n) => n,
                    Err(_) => return Err(()),
                };
                return Ok(Box::new(Node::PrefixCommand { name, rhs }));
            }
            return Ok(Box::new(Node::NullaryCommand(name)));
        }
        let lhs = match self.primary() {
            Ok(n) => n,
            Err(_) => return Err(()),
        };
        let name = match self.consume(TokenKind::Ident) {
            Some(t) => t.literal(),
            None => return Ok(lhs),
        };
        if self.peek(TokenKind::Number) || self.peek(TokenKind::LParen) {
            let rhs = match self.primary() {
                Ok(n) => n,
                Err(_) => return Err(()),
            };
            return Ok(Box::new(Node::InfixCommand { name, lhs, rhs }));
        }
        Ok(Box::new(Node::PostfixCommand { name, lhs }))
    }

    /// `args = expr ("," expr)* ")"`
    fn args(&mut self) -> (r: Result<Vec<Box<Node>>, ()>)
        requires
            old(self).wf(),
        ensures
            final(self).wf(),
            p_args(old(self).rest()) == match r {
                Ok(ps) => Some((views(ps@), final(self).rest())),
                Err(_) => None,
            },
            r is Ok ==> final(self).rest().len() < old(self).rest().len(),
        decreases old(self).rest().len(), 9nat,
    {
        proof {
            lemma_args_unfold(self.rest());
        }
        let e = match self.expr() {
            Ok(n) => n,
            Err(_) => return Err(()),
        };
        let ghost ev = (*e)@;
        if self.consume(TokenKind::Comma).is_some() {
            let mut more = match self.args() {
                Ok(ps) => ps,
                Err(_) => return Err(()),
            };
            let ghost tail = views(more@);
            more.insert(0, e);
            assert(views(more@) =~= seq![ev] + tail);
            return Ok(more);
        }
        match self.expect(TokenKind::RParen) {
            Ok(_) => {},
            Err(_) => return Err(()),
        }
        let ps = vec![e];
        assert(views(ps@) =~= seq![ev]);
        Ok(ps)
    }

    /// `primary = number | "(" expr ")"`
    fn primary(&mut self) -> (r: Result<Box<Node>, ()>)
        requires
            old(self).wf(),
        ensures
            final(self).wf(),
            p_primary(old(self).rest()) == parsed(r, final(self).rest()),
            r is Ok ==> final(self).rest().len() < old(self).rest().len(),
        decreases old(self).rest().len(), 2nat,
    {
        proof {
            lemma_primary_unfold(self.rest());
        }
        if self.consume(TokenKind::LParen).is_some() {
            let node = match self.expr() {
                Ok(n) => n,
                Err(_) => return Err(()),
            };
            match self.expect(TokenKind::RParen) {
                Ok(_) => {},
                Err(_) => return Err(()),
            }
            return Ok(node);
        }
        let t = match self.expect(TokenKind::Number) {
            Ok(t) => t,
            Err(_) => return Err(()),
        };
        let lit = t.literal();
        match parse_literal(lit.as_str()) {
            Some(v) => Ok(Box::new(Node::Integer(v))),
            None => Err(()),
        }
    }
}

} // verus!
