//! The meaning of an expression: its value, given an environment, a bound on
//! the depth of command calls and the stream of die draws it may consume.
use vstd::prelude::*;

use crate::ast::{BinaryExprKind, ComparisonExprKind, Expr};
use crate::environment::{param_form, Command, Form, FunctionKind};
use crate::object::Object;
use crate::IntegerType;

verus! {

pub open spec fn in_range(v: int) -> bool {
    IntegerType::MIN <= v <= IntegerType::MAX
}

pub open spec fn abs(v: int) -> int {
    if v < 0 {
        -v
    } else {
        v
    }
}

/// Division rounding toward zero.
pub open spec fn trunc_div(a: int, b: int) -> int {
    let q = abs(a) / abs(b);
    if (a < 0) == (b < 0) {
        q
    } else {
        -q
    }
}

/// The exact integer result of an arithmetic operator; `None` for a
/// division by zero.
pub open spec fn arith(op: BinaryExprKind, a: int, b: int) -> Option<int> {
    match op {
        BinaryExprKind::Add => Some(a + b),
        BinaryExprKind::Sub => Some(a - b),
        BinaryExprKind::Mul => Some(a * b),
        BinaryExprKind::Div => if b == 0 {
            None
        } else {
            Some(trunc_div(a, b))
        },
    }
}

/// The value of an arithmetic expression on two operand values: both must be
/// integers, and the result must be defined and fit in `IntegerType`.
pub open spec fn binary_value(op: BinaryExprKind, a: Object, b: Object) -> Result<Object, ()> {
    match (a, b) {
        (Object::Integer(x), Object::Integer(y)) => match arith(op, x as int, y as int) {
            Some(v) => if in_range(v) {
                Ok(Object::Integer(v as IntegerType))
            } else {
                Err(())
            },
            None => Err(()),
        },
        _ => Err(()),
    }
}

/// The value of a comparison on two operand values: `=` and `<>` compare any
/// two values; the orderings need two integers.
pub open spec fn compare_value(op: ComparisonExprKind, a: Object, b: Object) -> Result<Object, ()> {
    match op {
        ComparisonExprKind::Eq => Ok(Object::Boolean(a == b)),
        ComparisonExprKind::Ne => Ok(Object::Boolean(a != b)),
        _ => match (a, b) {
            (Object::Integer(x), Object::Integer(y)) => Ok(
                Object::Boolean(
                    match op {
                        ComparisonExprKind::Lt => x < y,
                        ComparisonExprKind::Le => x <= y,
                        ComparisonExprKind::Gt => x > y,
                        _ => x >= y,
                    },
                ),
            ),
            _ => Err(()),
        },
    }
}

/// Whether a name is that of the dice built-in (`D` or `d`, infix).
pub open spec fn is_dice(name: Seq<char>) -> bool {
    name == seq!['D'] || name == seq!['d']
}

/// The next draw of a stream; an exhausted stream draws 0.
pub open spec fn first_draw(ds: Seq<nat>) -> nat {
    if ds.len() > 0 {
        ds[0]
    } else {
        0
    }
}

/// The stream after one draw.
pub open spec fn after_draw(ds: Seq<nat>) -> Seq<nat> {
    if ds.len() > 0 {
        ds.drop_first()
    } else {
        ds
    }
}

/// The face that a draw shows on a die of `sides` sides.
pub open spec fn face(d: nat, sides: int) -> int {
    1 + (d as int) % sides
}

/// Adds `count` die faces to `acc`, one draw each, failing as soon as the
/// sum leaves `IntegerType`.
pub open spec fn roll_spec(count: int, sides: int, acc: int, ds: Seq<nat>) -> (Result<int, ()>, Seq<nat>)
    decreases count,
{
    if count <= 0 {
        (Ok(acc), ds)
    } else {
        let v = acc + face(first_draw(ds), sides);
        if v > IntegerType::MAX {
            (Err(()), after_draw(ds))
        } else {
            roll_spec(count - 1, sides, v, after_draw(ds))
        }
    }
}

/// The dice built-in on evaluated operands: the sum of `count` dice of
/// `sides` sides; it fails when `count < 0` or `sides < 1`.
pub open spec fn dice_spec(count: int, sides: int, ds: Seq<nat>) -> (Result<Object, ()>, Seq<nat>) {
    if count < 0 || sides < 1 {
        (Err(()), ds)
    } else {
        let (r, rest) = roll_spec(count, sides, 0, ds);
        match r {
            Ok(v) => (Ok(Object::Integer(v as IntegerType)), rest),
            Err(_) => (Err(()), rest),
        }
    }
}

/// The environment of a call: `env` with each parameter name bound, as a
/// command of no operand, to the unevaluated argument in its place.
pub open spec fn bind(env: Map<Form, Command>, params: Seq<Seq<char>>, args: Seq<Expr>) -> Map<
    Form,
    Command,
>
    decreases params.len(),
{
    if params.len() == 0 {
        env
    } else {
        bind(env, params.drop_last(), args).insert(
            param_form(params.last()),
            Command { params: Seq::empty(), body: args[params.len() - 1] },
        )
    }
}

/// The user command that a call reaches: its body and the environment the
/// body is evaluated in; `None` for an unknown key or a wrong argument count.
pub open spec fn target(env: Map<Form, Command>, form: Form, args: Seq<Expr>) -> Option<
    (Expr, Map<Form, Command>),
> {
    if env.contains_key(form) && env[form].params.len() == args.len() {
        Some((env[form].body, bind(env, env[form].params, args)))
    } else {
        None
    }
}

/// The key and arguments of a command call.
pub open spec fn call_of(e: Expr) -> Option<(Form, Seq<Expr>)> {
    match e {
        Expr::Nullary(n) => Some((Form { name: n, kind: FunctionKind::Nullary }, Seq::empty())),
        Expr::Prefix(n, r) => Some((Form { name: n, kind: FunctionKind::Prefix }, seq![*r])),
        Expr::Infix(n, l, r) => Some((Form { name: n, kind: FunctionKind::Infix }, seq![*l, *r])),
        Expr::Postfix(n, l) => Some((Form { name: n, kind: FunctionKind::Postfix }, seq![*l])),
        Expr::Call(n, args) => Some((Form { name: n, kind: FunctionKind::Prefix }, args)),
        _ => None,
    }
}

/// The value of `e` in `env`, with at most `fuel` nested command calls, and
/// the draws left of `ds`.
pub open spec fn eval_spec(e: Expr, env: Map<Form, Command>, fuel: nat, ds: Seq<nat>) -> (
    Result<Object, ()>,
    Seq<nat>,
)
    decreases fuel, e,
{
    match e {
        Expr::Integer(v) => (
            if in_range(v) {
                Ok(Object::Integer(v as IntegerType))
            } else {
                Err(())
            },
            ds,
        ),
        Expr::Binary(op, l, r) => {
            let (a, d1) = eval_spec(*l, env, fuel, ds);
            match a {
                Err(_) => (Err(()), d1),
                Ok(a) => {
                    let (b, d2) = eval_spec(*r, env, fuel, d1);
                    match b {
                        Err(_) => (Err(()), d2),
                        Ok(b) => (binary_value(op, a, b), d2),
                    }
                },
            }
        },
        Expr::Comparison(op, l, r) => {
            let (a, d1) = eval_spec(*l, env, fuel, ds);
            match a {
                Err(_) => (Err(()), d1),
                Ok(a) => {
                    let (b, d2) = eval_spec(*r, env, fuel, d1);
                    match b {
                        Err(_) => (Err(()), d2),
                        Ok(b) => (compare_value(op, a, b), d2),
                    }
                },
            }
        },
        Expr::Infix(n, l, r) if is_dice(n) => {
            let (a, d1) = eval_spec(*l, env, fuel, ds);
            match a {
                Ok(Object::Integer(count)) => {
                    let (b, d2) = eval_spec(*r, env, fuel, d1);
                    match b {
                        Ok(Object::Integer(sides)) => dice_spec(count as int, sides as int, d2),
                        _ => (Err(()), d2),
                    }
                },
                _ => (Err(()), d1),
            }
        },
        _ => match call_of(e) {
            None => (Err(()), ds),
            Some((form, args)) => match target(env, form, args) {
                None => (Err(()), ds),
                Some((body, inner)) => if fuel == 0 {
                    (Err(()), ds)
                } else {
                    eval_spec(body, inner, (fuel - 1) as nat, ds)
                },
            },
        },
    }
}

/// A call of the command under `form` on unevaluated arguments: the dice
/// built-in first, then the user commands.
pub open spec fn invoke_spec(
    env: Map<Form, Command>,
    form: Form,
    args: Seq<Expr>,
    fuel: nat,
    ds: Seq<nat>,
) -> (Result<Object, ()>, Seq<nat>) {
    if form.kind == FunctionKind::Infix && is_dice(form.name) {
        if args.len() == 2 {
            eval_spec(Expr::Infix(form.name, Box::new(args[0]), Box::new(args[1])), env, fuel, ds)
        } else {
            (Err(()), ds)
        }
    } else {
        match target(env, form, args) {
            None => (Err(()), ds),
            Some((body, inner)) => if fuel == 0 {
                (Err(()), ds)
            } else {
                eval_spec(body, inner, (fuel - 1) as nat, ds)
            },
        }
    }
}

} // verus!
