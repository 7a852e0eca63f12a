//! Properties of the language that hold for all inputs.
use vstd::prelude::*;

use crate::ast::{BinaryExprKind, Def, Expr};
use crate::environment::{def_command, def_form, param_form, Command, Form, FunctionKind};
use crate::grammar::{
    decimal, lemma_add_rest_unfold, lemma_add_unfold, lemma_call_unfold, lemma_decimal,
    lemma_equality_unfold, lemma_expr_unfold, lemma_mul_rest_unfold, lemma_mul_unfold,
    lemma_primary_unfold, lemma_relational_unfold, literal_value, parse_expression,
};
use crate::lexer::{
    in_class, lemma_run_end_block, next_tok, run_end, symbol_at, tokenize, tokens_from, CharClass,
};
use crate::object::Object;
use crate::semantics::{
    after_draw, arith, binary_value, bind, call_of, dice_spec, eval_spec, face, first_draw,
    in_range, invoke_spec, is_dice, roll_spec, target,
};
use crate::token::{Tok, TokenKind};
use crate::IntegerType;

verus! {

proof fn lemma_roll_bounds(count: int, sides: int, acc: int, ds: Seq<nat>)
    requires
        count >= 0,
        sides >= 1,
        acc >= 0,
    ensures
        roll_spec(count, sides, acc, ds).0 matches Ok(v) ==> acc + count <= v <= acc + count * sides
            && (acc <= IntegerType::MAX ==> v <= IntegerType::MAX),
        acc + count * sides <= IntegerType::MAX ==> roll_spec(count, sides, acc, ds).0 is Ok,
    decreases count,
{
    if count > 0 {
        let f = face(first_draw(ds), sides);
        assert(1 <= f <= sides) by {
            assert(0 <= (first_draw(ds) as int) % sides < sides);
        }
        lemma_roll_bounds(count - 1, sides, acc + f, after_draw(ds));
        assert((count - 1) * sides + sides == count * sides) by (nonlinear_arith);
        assert(count * sides >= count) by (nonlinear_arith)
            requires
                count > 0,
                sides >= 1,
        ;
    }
}

/// The dice built-in: `count D sides` fails when `count < 0` or `sides < 1`;
/// otherwise it yields a sum between `count` and `count * sides`, always 0
/// for no dice, and it succeeds whenever `count * sides` fits in the
/// integer type.
pub proof fn law_dice_bounds(
    name: Seq<char>,
    count: IntegerType,
    sides: IntegerType,
    env: Map<Form, Command>,
    fuel: nat,
    ds: Seq<nat>,
)
    requires
        is_dice(name),
    ensures
        ({
            let r = eval_spec(
                Expr::Infix(
                    name,
                    Box::new(Expr::Integer(count as int)),
                    Box::new(Expr::Integer(sides as int)),
                ),
                env,
                fuel,
                ds,
            ).0;
            &&& (count < 0 || sides < 1) ==> r is Err
            &&& (count >= 0 && sides >= 1) ==> (r matches Ok(Object::Integer(v)) ==> count <= v
                <= count * sides)
            &&& (count >= 0 && sides >= 1) ==> !(r matches Ok(Object::Boolean(_)))
            &&& (count == 0 && sides >= 1) ==> r == Ok::<Object, ()>(Object::Integer(0))
            &&& (count >= 0 && sides >= 1 && count * sides <= IntegerType::MAX) ==> r is Ok
        }),
{
    let e = Expr::Infix(
        name,
        Box::new(Expr::Integer(count as int)),
        Box::new(Expr::Integer(sides as int)),
    );
    assert(eval_spec(Expr::Integer(count as int), env, fuel, ds) == (Ok::<Object, ()>(Object::Integer(count)), ds));
    assert(eval_spec(Expr::Integer(sides as int), env, fuel, ds) == (Ok::<Object, ()>(Object::Integer(sides)), ds));
    assert(eval_spec(e, env, fuel, ds) == dice_spec(count as int, sides as int, ds));
    if count >= 0 && sides >= 1 {
        lemma_roll_bounds(count as int, sides as int, 0, ds);
    }
}

/// The character of an arithmetic operator.
pub open spec fn op_char(op: BinaryExprKind) -> char {
    match op {
        BinaryExprKind::Add => '+',
        BinaryExprKind::Sub => '-',
        BinaryExprKind::Mul => '*',
        BinaryExprKind::Div => '/',
    }
}

/// The token kind of an arithmetic operator.
pub open spec fn op_token(op: BinaryExprKind) -> TokenKind {
    match op {
        BinaryExprKind::Add => TokenKind::Plus,
        BinaryExprKind::Sub => TokenKind::Minus,
        BinaryExprKind::Mul => TokenKind::Asterisk,
        BinaryExprKind::Div => TokenKind::Slash,
    }
}

proof fn lemma_tokens_of_operation(a: nat, b: nat, op: BinaryExprKind)
    ensures
        tokenize(decimal(a) + seq![op_char(op)] + decimal(b)) == seq![
            Tok { kind: TokenKind::Number, text: decimal(a) },
            Tok { kind: op_token(op), text: seq![op_char(op)] },
            Tok { kind: TokenKind::Number, text: decimal(b) },
        ],
{
    let sa = decimal(a);
    let sb = decimal(b);
    let c = op_char(op);
    let cs = sa + seq![c] + sb;
    lemma_decimal(a);
    lemma_decimal(b);
    let la = sa.len() as int;
    let n = cs.len() as int;
    assert(forall|i: int| 0 <= i < la ==> cs[i] == sa[i]);
    assert(cs[la] == c);
    assert(forall|i: int| la + 1 <= i < n ==> cs[i] == sb[i - la - 1]);
    assert(forall|i: int| 0 <= i < la ==> in_class(#[trigger] cs[i], CharClass::Digit)) by {
        assert forall|i: int| 0 <= i < la implies in_class(#[trigger] cs[i], CharClass::Digit) by {
            assert(cs[i] == sa[i]);
        }
    }
    assert(forall|i: int| la + 1 <= i < n ==> in_class(#[trigger] cs[i], CharClass::Digit)) by {
        assert forall|i: int| la + 1 <= i < n implies in_class(#[trigger] cs[i], CharClass::Digit) by {
            assert(cs[i] == sb[i - la - 1]);
        }
    }
    let t1 = Tok { kind: TokenKind::Number, text: sa };
    let t2 = Tok { kind: op_token(op), text: seq![c] };
    let t3 = Tok { kind: TokenKind::Number, text: sb };
    assert(run_end(cs, 0, CharClass::Blank) == 0);
    lemma_run_end_block(cs, 0, la, CharClass::Digit);
    assert(cs.subrange(0, la) =~= sa);
    assert(next_tok(cs, 0) == Some((t1, la)));
    assert(run_end(cs, la, CharClass::Blank) == la);
    assert(symbol_at(cs, la) == (op_token(op), 1int));
    assert(cs.subrange(la, la + 1) =~= seq![c]);
    assert(next_tok(cs, la) == Some((t2, la + 1)));
    assert(run_end(cs, la + 1, CharClass::Blank) == la + 1);
    lemma_run_end_block(cs, la + 1, n, CharClass::Digit);
    assert(cs.subrange(la + 1, n) =~= sb);
    assert(next_tok(cs, la + 1) == Some((t3, n)));
    assert(run_end(cs, n, CharClass::Blank) == n);
    assert(tokens_from(cs, n) == Seq::<Tok>::empty());
    assert(tokens_from(cs, la + 1) =~= seq![t3]);
    assert(tokens_from(cs, la) =~= seq![t2, t3]);
    assert(tokens_from(cs, 0) =~= seq![t1, t2, t3]);
}

proof fn lemma_parse_operation(a: nat, b: nat, op: BinaryExprKind)
    requires
        a <= IntegerType::MAX,
        b <= IntegerType::MAX,
    ensures
        parse_expression(
            seq![
                Tok { kind: TokenKind::Number, text: decimal(a) },
                Tok { kind: op_token(op), text: seq![op_char(op)] },
                Tok { kind: TokenKind::Number, text: decimal(b) },
            ],
        ) == Some(
            Expr::Binary(op, Box::new(Expr::Integer(a as int)), Box::new(Expr::Integer(b as int))),
        ),
{
    lemma_decimal(a);
    lemma_decimal(b);
    let ta = Tok { kind: TokenKind::Number, text: decimal(a) };
    let to = Tok { kind: op_token(op), text: seq![op_char(op)] };
    let tb = Tok { kind: TokenKind::Number, text: decimal(b) };
    let ts = seq![ta, to, tb];
    let t1 = ts.drop_first();
    let t2 = t1.drop_first();
    let t3 = t2.drop_first();
    assert(t1 =~= seq![to, tb]);
    assert(t2 =~= seq![tb]);
    assert(t3 =~= Seq::<Tok>::empty());
    let ia = Expr::Integer(a as int);
    let ib = Expr::Integer(b as int);
    let e = Expr::Binary(op, Box::new(ia), Box::new(ib));
    assert(literal_value(decimal(a)) == Some(a as int));
    assert(literal_value(decimal(b)) == Some(b as int));
    lemma_primary_unfold(ts);
    lemma_call_unfold(ts);
    lemma_primary_unfold(t2);
    lemma_call_unfold(t2);
    lemma_mul_rest_unfold(ib, t3);
    lemma_mul_unfold(t2);
    lemma_mul_rest_unfold(ia, t1);
    lemma_mul_rest_unfold(e, t3);
    lemma_mul_unfold(ts);
    lemma_add_rest_unfold(e, t3);
    lemma_add_rest_unfold(ia, t1);
    lemma_add_unfold(ts);
    lemma_relational_unfold(ts);
    lemma_equality_unfold(ts);
    lemma_expr_unfold(ts);
}

/// Arithmetic on written numbers: the text `a op b`, for numerals `a` and
/// `b` and an operator among `+ - * /`, parses as that operation, and it
/// evaluates to the exact result (division rounding toward zero) when that
/// fits in the integer type; division by zero, or a result out of range,
/// fails.
pub proof fn law_arithmetic(
    a: nat,
    b: nat,
    op: BinaryExprKind,
    env: Map<Form, Command>,
    fuel: nat,
    ds: Seq<nat>,
)
    requires
        a <= IntegerType::MAX,
        b <= IntegerType::MAX,
    ensures
        ({
            let e = Expr::Binary(
                op,
                Box::new(Expr::Integer(a as int)),
                Box::new(Expr::Integer(b as int)),
            );
            let r = eval_spec(e, env, fuel, ds).0;
            let v = arith(op, a as int, b as int);
            &&& parse_expression(tokenize(decimal(a) + seq![op_char(op)] + decimal(b))) == Some(e)
            &&& (v is Some && in_range(v->0)) ==> r == Ok::<Object, ()>(
                Object::Integer((v->0) as IntegerType),
            )
            &&& (v is Some && !in_range(v->0)) ==> r is Err
            &&& v is None ==> r is Err
            &&& (v is None <==> (op == BinaryExprKind::Div && b == 0))
        }),
{
    lemma_tokens_of_operation(a, b, op);
    lemma_parse_operation(a, b, op);
    let x = Object::Integer(a as IntegerType);
    let y = Object::Integer(b as IntegerType);
    assert(eval_spec(Expr::Integer(a as int), env, fuel, ds) == (Ok::<Object, ()>(x), ds));
    assert(eval_spec(Expr::Integer(b as int), env, fuel, ds) == (Ok::<Object, ()>(y), ds));
    let e = Expr::Binary(op, Box::new(Expr::Integer(a as int)), Box::new(Expr::Integer(b as int)));
    assert(eval_spec(e, env, fuel, ds).0 == binary_value(op, x, y));
}

/// Whether an expression holds no command call: only literals, arithmetic
/// and comparisons.
pub open spec fn is_closed(e: Expr) -> bool
    decreases e,
{
    match e {
        Expr::Integer(_) => true,
        Expr::Binary(_, l, r) => is_closed(*l) && is_closed(*r),
        Expr::Comparison(_, l, r) => is_closed(*l) && is_closed(*r),
        _ => false,
    }
}

/// A closed expression draws no dice and reads no command: evaluating it
/// gives the same result every time, whatever the environment, the depth
/// bound and the draws.
pub proof fn law_closed_deterministic(
    e: Expr,
    env1: Map<Form, Command>,
    env2: Map<Form, Command>,
    fuel1: nat,
    fuel2: nat,
    ds1: Seq<nat>,
    ds2: Seq<nat>,
)
    requires
        is_closed(e),
    ensures
        eval_spec(e, env1, fuel1, ds1).0 == eval_spec(e, env2, fuel2, ds2).0,
        eval_spec(e, env1, fuel1, ds1).1 == ds1,
    decreases e,
{
    match e {
        Expr::Binary(_, l, r) => {
            law_closed_deterministic(*l, env1, env2, fuel1, fuel2, ds1, ds2);
            law_closed_deterministic(*r, env1, env2, fuel1, fuel2, ds1, ds2);
            law_closed_deterministic(*l, env2, env1, fuel2, fuel1, ds2, ds1);
            law_closed_deterministic(*r, env2, env1, fuel2, fuel1, ds2, ds1);
        },
        Expr::Comparison(_, l, r) => {
            law_closed_deterministic(*l, env1, env2, fuel1, fuel2, ds1, ds2);
            law_closed_deterministic(*r, env1, env2, fuel1, fuel2, ds1, ds2);
            law_closed_deterministic(*l, env2, env1, fuel2, fuel1, ds2, ds1);
            law_closed_deterministic(*r, env2, env1, fuel2, fuel1, ds2, ds1);
        },
        _ => {},
    }
}

/// A defined command is reached through its key: once a definition is bound,
/// calling its name in its shape with as many arguments as it has parameters
/// evaluates its body, one call deep, with each parameter bound to its
/// unevaluated argument. Names of the dice built-in in the infix shape are
/// left out: the built-in takes priority over a definition.
pub proof fn law_defined_command_is_called(
    env: Map<Form, Command>,
    d: Def,
    args: Seq<Expr>,
    fuel: nat,
    ds: Seq<nat>,
)
    requires
        args.len() == d.params.len(),
        fuel > 0,
        !(d.kind == FunctionKind::Infix && is_dice(d.name)),
    ensures
        ({
            let defined = env.insert(def_form(d), def_command(d));
            invoke_spec(defined, def_form(d), args, fuel, ds) == eval_spec(
                d.body,
                bind(defined, d.params, args),
                (fuel - 1) as nat,
                ds,
            )
        }),
{
}

/// Arguments are bound unevaluated and evaluated afresh at each reference:
/// a postfix command `"x" dup => x + x` applied to an operand evaluates that
/// operand twice, the second time on the draws the first one left, and adds
/// the two results.
pub proof fn law_parameters_reevaluated(
    env: Map<Form, Command>,
    dup: Seq<char>,
    x: Seq<char>,
    arg: Expr,
    fuel: nat,
    ds: Seq<nat>,
)
    requires
        env.contains_key(Form { name: dup, kind: FunctionKind::Postfix }),
        env[Form { name: dup, kind: FunctionKind::Postfix }] == (Command {
            params: seq![x],
            body: Expr::Binary(
                BinaryExprKind::Add,
                Box::new(Expr::Nullary(x)),
                Box::new(Expr::Nullary(x)),
            ),
        }),
        fuel >= 2,
    ensures
        ({
            let inner = env.insert(param_form(x), Command { params: Seq::empty(), body: arg });
            let (a, d1) = eval_spec(arg, inner, (fuel - 2) as nat, ds);
            let (b, d2) = eval_spec(arg, inner, (fuel - 2) as nat, d1);
            eval_spec(Expr::Postfix(dup, Box::new(arg)), env, fuel, ds) == match (a, b) {
                (Ok(a), Ok(b)) => (binary_value(BinaryExprKind::Add, a, b), d2),
                (Err(_), _) => (Err(()), d1),
                (Ok(_), Err(_)) => (Err(()), d2),
            }
        }),
{
    let inner = env.insert(param_form(x), Command { params: Seq::empty(), body: arg });
    let form = Form { name: dup, kind: FunctionKind::Postfix };
    assert(bind(env, seq![x], seq![arg]) == inner) by {
        assert(seq![x].drop_last() =~= Seq::<Seq<char>>::empty());
        reveal_with_fuel(bind, 2);
    }
    assert(target(env, form, seq![arg]) == Some((env[form].body, inner)));
    assert(bind(inner, Seq::empty(), Seq::empty()) == inner);
    assert(target(inner, param_form(x), Seq::empty()) == Some((arg, inner)));
    let (a, d1) = eval_spec(arg, inner, (fuel - 2) as nat, ds);
    assert(eval_spec(Expr::Nullary(x), inner, (fuel - 1) as nat, ds) == (a, d1));
    let (b, d2) = eval_spec(arg, inner, (fuel - 2) as nat, d1);
    assert(eval_spec(Expr::Nullary(x), inner, (fuel - 1) as nat, d1) == (b, d2));
    assert(call_of(Expr::Postfix(dup, Box::new(arg))) == Some((form, seq![arg])));
    assert(eval_spec(Expr::Postfix(dup, Box::new(arg)), env, fuel, ds) == eval_spec(
        env[form].body,
        inner,
        (fuel - 1) as nat,
        ds,
    ));
}

} // verus!
