//! The grammar of the language, as functions from a token sequence to a tree
//! and the tokens left over.
use vstd::prelude::*;

use crate::ast::{BinaryExprKind, ComparisonExprKind, Def, Expr};
use crate::environment::FunctionKind;
use crate::token::{Tok, TokenKind};
use crate::IntegerType;

verus! {

/// The value of a run of decimal digits.
pub open spec fn digits_value(s: Seq<char>) -> int
    decreases s.len(),
{
    if s.len() == 0 {
        0
    } else {
        digits_value(s.drop_last()) * 10 + (s.last() as int - '0' as int)
    }
}

/// The character of a decimal digit.
pub open spec fn digit_char(d: int) -> char {
    seq!['0', '1', '2', '3', '4', '5', '6', '7', '8', '9'][d]
}

/// The decimal numeral of a natural number, without leading zeros.
pub open spec fn decimal(n: nat) -> Seq<char>
    decreases n,
{
    if n < 10 {
        seq![digit_char(n as int)]
    } else {
        decimal(n / 10).push(digit_char(n as int % 10))
    }
}

pub proof fn lemma_digit_char(d: int)
    requires
        0 <= d < 10,
    ensures
        '0' <= digit_char(d) <= '9',
        digit_char(d) as int - '0' as int == d,
{
    let s = seq!['0', '1', '2', '3', '4', '5', '6', '7', '8', '9'];
    assert(s[0] == '0' && s[1] == '1' && s[2] == '2' && s[3] == '3' && s[4] == '4');
    assert(s[5] == '5' && s[6] == '6' && s[7] == '7' && s[8] == '8' && s[9] == '9');
}

/// A decimal numeral is a non-empty run of digits whose value is the number.
pub proof fn lemma_decimal(n: nat)
    ensures
        decimal(n).len() > 0,
        all_digits(decimal(n)),
        digits_value(decimal(n)) == n,
    decreases n,
{
    if n < 10 {
        lemma_digit_char(n as int);
        assert(decimal(n).drop_last() =~= Seq::<char>::empty());
        assert(digits_value(Seq::<char>::empty()) == 0);
    } else {
        lemma_decimal(n / 10);
        lemma_digit_char(n as int % 10);
        assert(decimal(n).drop_last() =~= decimal(n / 10));
        assert(n == (n / 10) * 10 + n % 10) by (nonlinear_arith);
        assert forall|i: int| 0 <= i < decimal(n).len() implies '0' <= #[trigger] decimal(n)[i]
            && decimal(n)[i] <= '9' by {
            if i < decimal(n / 10).len() {
                assert(decimal(n)[i] == decimal(n / 10)[i]);
            }
        }
    }
}

pub open spec fn all_digits(s: Seq<char>) -> bool {
    forall|i: int| 0 <= i < s.len() ==> '0' <= #[trigger] s[i] && s[i] <= '9'
}

/// The integer that a number literal denotes, if it is one and fits.
pub open spec fn literal_value(s: Seq<char>) -> Option<int> {
    if s.len() > 0 && all_digits(s) && digits_value(s) <= IntegerType::MAX {
        Some(digits_value(s))
    } else {
        None
    }
}

/// Whether the first token of `ts` has kind `k`.
pub open spec fn starts(ts: Seq<Tok>, k: TokenKind) -> bool {
    ts.len() > 0 && ts[0].kind == k
}

pub open spec fn equality_op(k: TokenKind) -> Option<ComparisonExprKind> {
    match k {
        TokenKind::Eq => Some(ComparisonExprKind::Eq),
        TokenKind::Ne => Some(ComparisonExprKind::Ne),
        _ => None,
    }
}

pub open spec fn relational_op(k: TokenKind) -> Option<ComparisonExprKind> {
    match k {
        TokenKind::Lt => Some(ComparisonExprKind::Lt),
        TokenKind::Le => Some(ComparisonExprKind::Le),
        TokenKind::Gt => Some(ComparisonExprKind::Gt),
        TokenKind::Ge => Some(ComparisonExprKind::Ge),
        _ => None,
    }
}

pub open spec fn additive_op(k: TokenKind) -> Option<BinaryExprKind> {
    match k {
        TokenKind::Plus => Some(BinaryExprKind::Add),
        TokenKind::Minus => Some(BinaryExprKind::Sub),
        _ => None,
    }
}

pub open spec fn multiplicative_op(k: TokenKind) -> Option<BinaryExprKind> {
    match k {
        TokenKind::Asterisk => Some(BinaryExprKind::Mul),
        TokenKind::Slash => Some(BinaryExprKind::Div),
        _ => None,
    }
}

/// `expr = equality`
#[verifier::opaque]
pub open spec fn p_expr(ts: Seq<Tok>) -> Option<(Expr, Seq<Tok>)>
    decreases ts.len(), 8nat,
{
    p_equality(ts)
}

/// `equality = relational [ ("=" | "==" | "!=" | "<>") relational ]`
#[verifier::opaque]
pub open spec fn p_equality(ts: Seq<Tok>) -> Option<(Expr, Seq<Tok>)>
    decreases ts.len(), 7nat,
{
    match p_relational(ts) {
        None => None,
        Some((l, r)) => if r.len() > 0 && r.len() <= ts.len() && equality_op(r[0].kind) is Some {
            match p_relational(r.drop_first()) {
                None => None,
                Some((rr, r2)) => Some(
                    (Expr::Comparison(equality_op(r[0].kind)->0, Box::new(l), Box::new(rr)), r2),
                ),
            }
        } else {
            Some((l, r))
        },
    }
}

/// `relational = additive [ ("<" | "<=" | ">" | ">=") additive ]`
#[verifier::opaque]
pub open spec fn p_relational(ts: Seq<Tok>) -> Option<(Expr, Seq<Tok>)>
    decreases ts.len(), 6nat,
{
    match p_add(ts) {
        None => None,
        Some((l, r)) => if r.len() > 0 && r.len() <= ts.len() && relational_op(r[0].kind) is Some {
            match p_add(r.drop_first()) {
                None => None,
                Some((rr, r2)) => Some(
                    (Expr::Comparison(relational_op(r[0].kind)->0, Box::new(l), Box::new(rr)), r2),
                ),
            }
        } else {
            Some((l, r))
        },
    }
}

/// `additive = multiplicative ( ("+" | "-") multiplicative )*`
#[verifier::opaque]
pub open spec fn p_add(ts: Seq<Tok>) -> Option<(Expr, Seq<Tok>)>
    decreases ts.len(), 5nat,
{
    match p_mul(ts) {
        None => None,
        Some((l, r)) => if r.len() < ts.len() {
            p_add_rest(l, r)
        } else {
            None
        },
    }
}

/// The repeated tail of `additive`, after a left operand `l`.
#[verifier::opaque]
pub open spec fn p_add_rest(l: Expr, ts: Seq<Tok>) -> Option<(Expr, Seq<Tok>)>
    decreases ts.len(), 5nat,
{
    if ts.len() > 0 && additive_op(ts[0].kind) is Some {
        match p_mul(ts.drop_first()) {
            None => None,
            Some((rr, r)) => if r.len() < ts.len() {
                p_add_rest(Expr::Binary(additive_op(ts[0].kind)->0, Box::new(l), Box::new(rr)), r)
            } else {
                None
            },
        }
    } else {
        Some((l, ts))
    }
}

/// `multiplicative = call ( ("*" | "/") call )*`
#[verifier::opaque]
pub open spec fn p_mul(ts: Seq<Tok>) -> Option<(Expr, Seq<Tok>)>
    decreases ts.len(), 4nat,
{
    match p_call(ts) {
        None => None,
        Some((l, r)) => if r.len() < ts.len() {
            p_mul_rest(l, r)
        } else {
            None
        },
    }
}

/// The repeated tail of `multiplicative`, after a left operand `l`.
#[verifier::opaque]
pub open spec fn p_mul_rest(l: Expr, ts: Seq<Tok>) -> Option<(Expr, Seq<Tok>)>
    decreases ts.len(), 4nat,
{
    if ts.len() > 0 && multiplicative_op(ts[0].kind) is Some {
        match p_call(ts.drop_first()) {
            None => None,
            Some((rr, r)) => if r.len() < ts.len() {
                p_mul_rest(
                    Expr::Binary(multiplicative_op(ts[0].kind)->0, Box::new(l), Box::new(rr)),
                    r,
                )
            } else {
                None
            },
        }
    } else {
        Some((l, ts))
    }
}

/// The calling shapes, tried in order:
/// `name "(" [expr ("," expr)*] ")"`, `name number`, `name`,
/// `primary name primary`, `primary name`, `primary`.
/// A parenthesised list of exactly one argument is the prefix shape.
#[verifier::opaque]
pub open spec fn p_call(ts: Seq<Tok>) -> Option<(Expr, Seq<Tok>)>
    decreases ts.len(), 3nat,
{
    if starts(ts, TokenKind::Ident) {
        let name = ts[0].text;
        let t1 = ts.drop_first();
        if starts(t1, TokenKind::LParen) {
            let t2 = t1.drop_first();
            if starts(t2, TokenKind::RParen) {
                Some((Expr::Call(name, Seq::empty()), t2.drop_first()))
            } else {
                match p_args(t2) {
                    None => None,
                    Some((args, t3)) => if args.len() == 1 {
                        Some((Expr::Prefix(name, Box::new(args[0])), t3))
                    } else {
                        Some((Expr::Call(name, args), t3))
                    },
                }
            }
        } else if starts(t1, TokenKind::Number) {
            match p_primary(t1) {
                None => None,
                Some((rhs, t2)) => Some((Expr::Prefix(name, Box::new(rhs)), t2)),
            }
        } else {
            Some((Expr::Nullary(name), t1))
        }
    } else {
        match p_primary(ts) {
            None => None,
            Some((lhs, t1)) => if t1.len() <= ts.len() && starts(t1, TokenKind::Ident) {
                let name = t1[0].text;
                let t2 = t1.drop_first();
                if starts(t2, TokenKind::Number) || starts(t2, TokenKind::LParen) {
                    match p_primary(t2) {
                        None => None,
                        Some((rhs, t3)) => Some(
                            (Expr::Infix(name, Box::new(lhs), Box::new(rhs)), t3),
                        ),
                    }
                } else {
                    Some((Expr::Postfix(name, Box::new(lhs)), t2))
                }
            } else {
                Some((lhs, t1))
            },
        }
    }
}

/// `args = expr ("," expr)* ")"`: the arguments of a call after its `(`.
#[verifier::opaque]
pub open spec fn p_args(ts: Seq<Tok>) -> Option<(Seq<Expr>, Seq<Tok>)>
    decreases ts.len(), 9nat,
{
    match p_expr(ts) {
        None => None,
        Some((e, r)) => if r.len() <= ts.len() && starts(r, TokenKind::Comma) {
            match p_args(r.drop_first()) {
                None => None,
                Some((more, r2)) => Some((seq![e] + more, r2)),
            }
        } else if starts(r, TokenKind::RParen) {
            Some((seq![e], r.drop_first()))
        } else {
            None
        },
    }
}

/// `primary = number | "(" expr ")"`
#[verifier::opaque]
pub open spec fn p_primary(ts: Seq<Tok>) -> Option<(Expr, Seq<Tok>)>
    decreases ts.len(), 2nat,
{
    if starts(ts, TokenKind::LParen) {
        match p_expr(ts.drop_first()) {
            None => None,
            Some((e, r)) => if starts(r, TokenKind::RParen) {
                Some((e, r.drop_first()))
            } else {
                None
            },
        }
    } else if starts(ts, TokenKind::Number) {
        match literal_value(ts[0].text) {
            None => None,
            Some(v) => Some((Expr::Integer(v), ts.drop_first())),
        }
    } else {
        None
    }
}

/// A whole token sequence read as one expression.
pub open spec fn parse_expression(ts: Seq<Tok>) -> Option<Expr> {
    match p_expr(ts) {
        Some((e, r)) => if r.len() == 0 {
            Some(e)
        } else {
            None
        },
        None => None,
    }
}

/// `pat = name | name '"' param '"' | left '"' name '"' right | '"' param '"' name`
#[verifier::opaque]
pub open spec fn p_pat(ts: Seq<Tok>) -> Option<(Seq<char>, FunctionKind, Seq<Seq<char>>, Seq<Tok>)> {
    if starts(ts, TokenKind::Ident) {
        let a = ts[0].text;
        let t1 = ts.drop_first();
        if starts(t1, TokenKind::DoubleQuote) {
            let t2 = t1.drop_first();
            if starts(t2, TokenKind::Ident) && starts(t2.drop_first(), TokenKind::DoubleQuote) {
                let b = t2[0].text;
                let t4 = t2.drop_first().drop_first();
                if starts(t4, TokenKind::Ident) {
                    Some((b, FunctionKind::Infix, seq![a, t4[0].text], t4.drop_first()))
                } else {
                    Some((a, FunctionKind::Prefix, seq![b], t4))
                }
            } else {
                None
            }
        } else {
            Some((a, FunctionKind::Nullary, Seq::empty(), t1))
        }
    } else if starts(ts, TokenKind::DoubleQuote) {
        let t1 = ts.drop_first();
        if starts(t1, TokenKind::Ident) && starts(t1.drop_first(), TokenKind::DoubleQuote)
            && starts(t1.drop_first().drop_first(), TokenKind::Ident) {
            let t3 = t1.drop_first().drop_first();
            Some((t3[0].text, FunctionKind::Postfix, seq![t1[0].text], t3.drop_first()))
        } else {
            None
        }
    } else {
        None
    }
}

/// `def = pat "=>" expr`
#[verifier::opaque]
pub open spec fn p_def(ts: Seq<Tok>) -> Option<(Def, Seq<Tok>)> {
    match p_pat(ts) {
        None => None,
        Some((name, kind, params, r)) => if starts(r, TokenKind::Arrow) {
            match p_expr(r.drop_first()) {
                None => None,
                Some((body, r2)) => Some((Def { name, kind, params, body }, r2)),
            }
        } else {
            None
        },
    }
}

/// `program = ( def separator )*`, up to the end of the tokens.
#[verifier::opaque]
pub open spec fn p_program(ts: Seq<Tok>) -> Option<Seq<Def>>
    decreases ts.len(),
{
    if ts.len() == 0 {
        Some(Seq::empty())
    } else {
        match p_def(ts) {
            None => None,
            Some((d, r)) => if r.len() < ts.len() && starts(r, TokenKind::Separator) {
                match p_program(r.drop_first()) {
                    None => None,
                    Some(more) => Some(seq![d] + more),
                }
            } else {
                None
            },
        }
    }
}

/// `expr`, unfolded once.
pub proof fn lemma_expr_unfold(ts: Seq<Tok>)
    ensures
        p_expr(ts) == {
            p_equality(ts)
        },
{
    reveal(p_expr);
    reveal(p_equality);
    reveal(p_relational);
    reveal(p_add);
    reveal(p_add_rest);
    reveal(p_mul);
    reveal(p_mul_rest);
    reveal(p_call);
    reveal(p_args);
    reveal(p_primary);
}

/// `equality`, unfolded once.
pub proof fn lemma_equality_unfold(ts: Seq<Tok>)
    ensures
        p_equality(ts) == {
            match p_relational(ts) {
                None => None,
                Some((l, r)) => if r.len() > 0 && r.len() <= ts.len() && equality_op(r[0].kind) is Some {
                    match p_relational(r.drop_first()) {
                        None => None,
                        Some((rr, r2)) => Some(
                            (Expr::Comparison(equality_op(r[0].kind)->0, Box::new(l), Box::new(rr)), r2),
                        ),
                    }
                } else {
                    Some((l, r))
                },
            }
        },
{
    reveal(p_expr);
    reveal(p_equality);
    reveal(p_relational);
    reveal(p_add);
    reveal(p_add_rest);
    reveal(p_mul);
    reveal(p_mul_rest);
    reveal(p_call);
    reveal(p_args);
    reveal(p_primary);
}

/// `relational`, unfolded once.
pub proof fn lemma_relational_unfold(ts: Seq<Tok>)
    ensures
        p_relational(ts) == {
            match p_add(ts) {
                None => None,
                Some((l, r)) => if r.len() > 0 && r.len() <= ts.len() && relational_op(r[0].kind) is Some {
                    match p_add(r.drop_first()) {
                        None => None,
                        Some((rr, r2)) => Some(
                            (Expr::Comparison(relational_op(r[0].kind)->0, Box::new(l), Box::new(rr)), r2),
                        ),
                    }
                } else {
                    Some((l, r))
                },
            }
        },
{
    reveal(p_expr);
    reveal(p_equality);
    reveal(p_relational);
    reveal(p_add);
    reveal(p_add_rest);
    reveal(p_mul);
    reveal(p_mul_rest);
    reveal(p_call);
    reveal(p_args);
    reveal(p_primary);
}

/// `add`, unfolded once.
pub proof fn lemma_add_unfold(ts: Seq<Tok>)
    ensures
        p_add(ts) == {
            match p_mul(ts) {
                None => None,
                Some((l, r)) => if r.len() < ts.len() {
                    p_add_rest(l, r)
                } else {
                    None
                },
            }
        },
{
    reveal(p_expr);
    reveal(p_equality);
    reveal(p_relational);
    reveal(p_add);
    reveal(p_add_rest);
    reveal(p_mul);
    reveal(p_mul_rest);
    reveal(p_call);
    reveal(p_args);
    reveal(p_primary);
}

/// `add_rest`, unfolded once.
pub proof fn lemma_add_rest_unfold(l: Expr, ts: Seq<Tok>)
    ensures
        p_add_rest(l, ts) == {
            if ts.len() > 0 && additive_op(ts[0].kind) is Some {
                match p_mul(ts.drop_first()) {
                    None => None,
                    Some((rr, r)) => if r.len() < ts.len() {
                        p_add_rest(Expr::Binary(additive_op(ts[0].kind)->0, Box::new(l), Box::new(rr)), r)
                    } else {
                        None
                    },
                }
            } else {
                Some((l, ts))
            }
        },
{
    reveal(p_expr);
    reveal(p_equality);
    reveal(p_relational);
    reveal(p_add);
    reveal(p_add_rest);
    reveal(p_mul);
    reveal(p_mul_rest);
    reveal(p_call);
    reveal(p_args);
    reveal(p_primary);
}

/// `mul`, unfolded once.
pub proof fn lemma_mul_unfold(ts: Seq<Tok>)
    ensures
        p_mul(ts) == {
            match p_call(ts) {
                None => None,
                Some((l, r)) => if r.len() < ts.len() {
                    p_mul_rest(l, r)
                } else {
                    None
                },
            }
        },
{
    reveal(p_expr);
    reveal(p_equality);
    reveal(p_relational);
    reveal(p_add);
    reveal(p_add_rest);
    reveal(p_mul);
    reveal(p_mul_rest);
    reveal(p_call);
    reveal(p_args);
    reveal(p_primary);
}

/// `mul_rest`, unfolded once.
pub proof fn lemma_mul_rest_unfold(l: Expr, ts: Seq<Tok>)
    ensures
        p_mul_rest(l, ts) == {
            if ts.len() > 0 && multiplicative_op(ts[0].kind) is Some {
                match p_call(ts.drop_first()) {
                    None => None,
                    Some((rr, r)) => if r.len() < ts.len() {
                        p_mul_rest(
                            Expr::Binary(multiplicative_op(ts[0].kind)->0, Box::new(l), Box::new(rr)),
                            r,
                        )
                    } else {
                        None
                    },
                }
            } else {
                Some((l, ts))
            }
        },
{
    reveal(p_expr);
    reveal(p_equality);
    reveal(p_relational);
    reveal(p_add);
    reveal(p_add_rest);
    reveal(p_mul);
    reveal(p_mul_rest);
    reveal(p_call);
    reveal(p_args);
    reveal(p_primary);
}

/// `call`, unfolded once.
pub proof fn lemma_call_unfold(ts: Seq<Tok>)
    ensures
        p_call(ts) == {
            if starts(ts, TokenKind::Ident) {
                let name = ts[0].text;
                let t1 = ts.drop_first();
                if starts(t1, TokenKind::LParen) {
                    let t2 = t1.drop_first();
                    if starts(t2, TokenKind::RParen) {
                        Some((Expr::Call(name, Seq::empty()), t2.drop_first()))
                    } else {
                        match p_args(t2) {
                            None => None,
                            Some((args, t3)) => if args.len() == 1 {
                                Some((Expr::Prefix(name, Box::new(args[0])), t3))
                            } else {
                                Some((Expr::Call(name, args), t3))
                            },
                        }
                    }
                } else if starts(t1, TokenKind::Number) {
                    match p_primary(t1) {
                        None => None,
                        Some((rhs, t2)) => Some((Expr::Prefix(name, Box::new(rhs)), t2)),
                    }
                } else {
                    Some((Expr::Nullary(name), t1))
                }
            } else {
                match p_primary(ts) {
                    None => None,
                    Some((lhs, t1)) => if t1.len() <= ts.len() && starts(t1, TokenKind::Ident) {
                        let name = t1[0].text;
                        let t2 = t1.drop_first();
                        if starts(t2, TokenKind::Number) || starts(t2, TokenKind::LParen) {
                            match p_primary(t2) {
                                None => None,
                                Some((rhs, t3)) => Some(
                                    (Expr::Infix(name, Box::new(lhs), Box::new(rhs)), t3),
                                ),
                            }
                        } else {
                            Some((Expr::Postfix(name, Box::new(lhs)), t2))
                        }
                    } else {
                        Some((lhs, t1))
                    },
                }
            }
        },
{
    reveal(p_expr);
    reveal(p_equality);
    reveal(p_relational);
    reveal(p_add);
    reveal(p_add_rest);
    reveal(p_mul);
    reveal(p_mul_rest);
    reveal(p_call);
    reveal(p_args);
    reveal(p_primary);
}

/// `args`, unfolded once.
pub proof fn lemma_args_unfold(ts: Seq<Tok>)
    ensures
        p_args(ts) == {
            match p_expr(ts) {
                None => None,
                Some((e, r)) => if r.len() <= ts.len() && starts(r, TokenKind::Comma) {
                    match p_args(r.drop_first()) {
                        None => None,
                        Some((more, r2)) => Some((seq![e] + more, r2)),
                    }
                } else if starts(r, TokenKind::RParen) {
                    Some((seq![e], r.drop_first()))
                } else {
                    None
                },
            }
        },
{
    reveal(p_expr);
    reveal(p_equality);
    reveal(p_relational);
    reveal(p_add);
    reveal(p_add_rest);
    reveal(p_mul);
    reveal(p_mul_rest);
    reveal(p_call);
    reveal(p_args);
    reveal(p_primary);
}

/// `primary`, unfolded once.
pub proof fn lemma_primary_unfold(ts: Seq<Tok>)
    ensures
        p_primary(ts) == {
            if starts(ts, TokenKind::LParen) {
                match p_expr(ts.drop_first()) {
                    None => None,
                    Some((e, r)) => if starts(r, TokenKind::RParen) {
                        Some((e, r.drop_first()))
                    } else {
                        None
                    },
                }
            } else if starts(ts, TokenKind::Number) {
                match literal_value(ts[0].text) {
                    None => None,
                    Some(v) => Some((Expr::Integer(v), ts.drop_first())),
                }
            } else {
                None
            }
        },
{
    reveal(p_expr);
    reveal(p_equality);
    reveal(p_relational);
    reveal(p_add);
    reveal(p_add_rest);
    reveal(p_mul);
    reveal(p_mul_rest);
    reveal(p_call);
    reveal(p_args);
    reveal(p_primary);
}

/// One step of `program`: its definition, unfolded once.
pub proof fn lemma_program_unfold(ts: Seq<Tok>)
    ensures
        ts.len() == 0 ==> p_program(ts) == Some(Seq::<Def>::empty()),
        ts.len() > 0 ==> p_program(ts) == match p_def(ts) {
            None => None,
            Some((d, r)) => if r.len() < ts.len() && starts(r, TokenKind::Separator) {
                match p_program(r.drop_first()) {
                    None => None,
                    Some(more) => Some(seq![d] + more),
                }
            } else {
                None
            },
        },
{
    reveal(p_program);
}

} // verus!
