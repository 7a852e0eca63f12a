//! The tree-walking evaluator.
use vstd::prelude::*;
use vstd::string::StrSliceExecFns;

use crate::ast::{duplicate_all, texts, views, BinaryExprKind, ComparisonExprKind, Expr, Node};
use crate::builtin::{int_result, roll, stream, Rolls};
use crate::environment::{Environment, Function, FunctionForm, FunctionKind};
use crate::object::Object;
use crate::semantics::{
    binary_value, bind, call_of, compare_value, dice_spec, eval_spec, invoke_spec, is_dice,
    roll_spec, target,
};

verus! {

/// The bound on nested command calls in one evaluation; a deeper evaluation
/// fails instead of exhausting the stack.
pub const MAX_DEPTH: usize = 256;

/// Whether a name is that of the dice built-in.
pub fn is_dice_name(name: &str) -> (r: bool)
    ensures
        r == is_dice(name@),
{
    if name.unicode_len() != 1 {
        assert(name@ != seq!['D'] && name@ != seq!['d']);
        return false;
    }
    let c = name.get_char(0);
    assert(c == 'D' ==> name@ =~= seq!['D']);
    assert(c == 'd' ==> name@ =~= seq!['d']);
    c == 'D' || c == 'd'
}

/// An arithmetic operator applied to two values.
pub fn binary_exec(op: BinaryExprKind, a: Object, b: Object) -> (r: Result<Object, ()>)
    ensures
        r == binary_value(op, a, b),
{
    match (a, b) {
        (Object::Integer(x), Object::Integer(y)) => {
            let v = match op {
                BinaryExprKind::Add => x.checked_add(y),
                BinaryExprKind::Sub => x.checked_sub(y),
                BinaryExprKind::Mul => x.checked_mul(y),
                BinaryExprKind::Div => x.checked_div(y),
            };
            match v {
                Some(v) => Ok(Object::Integer(v)),
                None => Err(()),
            }
        },
        _ => Err(()),
    }
}

/// A comparison operator applied to two values.
pub fn compare_exec(op: ComparisonExprKind, a: Object, b: Object) -> (r: Result<Object, ()>)
    ensures
        r == compare_value(op, a, b),
{
    match op {
        ComparisonExprKind::Eq => Ok(Object::Boolean(a == b)),
        ComparisonExprKind::Ne => Ok(Object::Boolean(a != b)),
        _ => match (a, b) {
            (Object::Integer(x), Object::Integer(y)) => Ok(
                Object::Boolean(
                    match op {
                        ComparisonExprKind::Lt => x < y,
                        ComparisonExprKind::Le => x <= y,
                        ComparisonExprKind::Gt => x > y,
                        _ => x >= y,
                    },
                ),
            ),
            _ => Err(()),
        },
    }
}

/// The key and a copy of the arguments of a command call.
fn call_parts(node: &Node) -> (r: Option<(FunctionForm, Vec<Box<Node>>)>)
    ensures
        r is None ==> call_of(node@) is None,
        r matches Some((f, a)) ==> call_of(node@) == Some((f@, views(a@))),
{
    match node {
        Node::NullaryCommand(name) => {
            let a: Vec<Box<Node>> = Vec::new();
            assert(views(a@) =~= Seq::<Expr>::empty());
            Some((FunctionForm::new(name.clone(), FunctionKind::Nullary), a))
        },
        Node::PrefixCommand { name, rhs } => {
            let a = vec![Box::new(rhs.duplicate())];
            assert(views(a@) =~= seq![(**rhs)@]);
            Some((FunctionForm::new(name.clone(), FunctionKind::Prefix), a))
        },
        Node::InfixCommand { name, lhs, rhs } => {
            let a = vec![Box::new(lhs.duplicate()), Box::new(rhs.duplicate())];
            assert(views(a@) =~= seq![(**lhs)@, (**rhs)@]);
            Some((FunctionForm::new(name.clone(), FunctionKind::Infix), a))
        },
        Node::PostfixCommand { name, lhs } => {
            let a = vec![Box::new(lhs.duplicate())];
            assert(views(a@) =~= seq![(**lhs)@]);
            Some((FunctionForm::new(name.clone(), FunctionKind::Postfix), a))
        },
        Node::FunctionCall { name, parameters } => {
            let a = duplicate_all(parameters);
            assert(views(parameters@) =~= match node@ {
                Expr::Call(_, args) => args,
                _ => Seq::empty(),
            });
            Some((FunctionForm::new(name.clone(), FunctionKind::Prefix), a))
        },
        _ => None,
    }
}

/// The environment of a call: `env` with each parameter bound to its
/// unevaluated argument; `None` when the counts differ.
pub fn bind_args(params: &Vec<String>, args: &Vec<Box<Node>>, env: &Environment) -> (r: Option<
    Environment,
>)
    ensures
        r is None <==> params@.len() != args@.len(),
        r matches Some(e) ==> e@ == bind(env@, texts(params@), views(args@)),
{
    if params.len() != args.len() {
        return None;
    }
    let ghost ps = texts(params@);
    let ghost xs = views(args@);
    let mut inner = env.duplicate();
    let mut i: usize = 0;
    assert(ps.take(0) =~= Seq::<Seq<char>>::empty());
    while i < params.len()
        invariant
            params@.len() == args@.len(),
            ps == texts(params@),
            xs == views(args@),
            i <= params@.len(),
            inner@ == bind(env@, ps.take(i as int), xs),
        decreases params@.len() - i,
    {
        let ghost before = inner@;
        let empty: Vec<String> = Vec::new();
        let f = Function::new(Box::new(args[i].duplicate()), empty);
        inner.insert(FunctionForm::new(params[i].clone(), FunctionKind::Nullary), f);
        assert(texts(empty@) =~= Seq::<Seq<char>>::empty());
        assert(ps.take(i + 1).drop_last() =~= ps.take(i as int));
        i = i + 1;
    }
    assert(ps.take(i as int) =~= ps);
    Some(inner)
}

/// Evaluates `node` with at most `fuel` nested command calls, drawing die
/// faces from `rolls`. The ghost result is the stream of draws consumed.
fn eval_in(node: &Node, env: &Environment, fuel: usize, rolls: &mut Rolls) -> (r: (
    Result<Object, ()>,
    Ghost<Seq<nat>>,
))
    requires
        old(rolls).wf(),
    ensures
        final(rolls).wf(),
        final(rolls).is_scripted() == old(rolls).is_scripted(),
        old(rolls).is_scripted() ==> eval_spec(node@, env@, fuel as nat, old(rolls).remaining()) == (
        r.0, final(rolls).remaining()),
        forall|rest: Seq<nat>| #[trigger]
            eval_spec(node@, env@, fuel as nat, r.1@ + rest) == (r.0, rest),
    decreases fuel, node,
{
    let ghost e = node@;
    let ghost none = Seq::<nat>::empty();
    assert forall|rest: Seq<nat>| none + rest == rest by {
        assert(none + rest =~= rest);
    }
    match node {
        Node::Integer(v) => {
            assert forall|rest: Seq<nat>| #[trigger]
                eval_spec(e, env@, fuel as nat, none + rest) == (Ok::<Object, ()>(Object::Integer(*v)), rest) by {
                assert(none + rest =~= rest);
            }
            (Ok(Object::Integer(*v)), Ghost(none))
        },
        Node::BinaryExpr { kind, lhs, rhs } => {
            let (a, Ghost(u1)) = eval_in(lhs, env, fuel, rolls);
            assert forall|rest: Seq<nat>| #[trigger]
                eval_spec((**lhs)@, env@, fuel as nat, u1 + rest) == (a, rest) by {}
            let a = match a {
                Ok(a) => a,
                Err(_) => {
                    assert forall|rest: Seq<nat>| #[trigger]
                        eval_spec(e, env@, fuel as nat, u1 + rest) == (Err::<Object, ()>(()), rest) by {
                        assert(eval_spec((**lhs)@, env@, fuel as nat, u1 + rest) == (a, rest));
                    }
                    return (Err(()), Ghost(u1));
                },
            };
            let (b, Ghost(u2)) = eval_in(rhs, env, fuel, rolls);
            assert forall|rest: Seq<nat>| (u1 + u2) + rest =~= u1 + (u2 + rest) by {}
            let b = match b {
                Ok(b) => b,
                Err(_) => {
                    assert forall|rest: Seq<nat>| #[trigger]
                        eval_spec(e, env@, fuel as nat, (u1 + u2) + rest) == (Err::<Object, ()>(()), rest) by {
                        assert((u1 + u2) + rest =~= u1 + (u2 + rest));
                        assert(eval_spec((**lhs)@, env@, fuel as nat, u1 + (u2 + rest)) == (Ok::<Object, ()>(a), u2 + rest));
                        assert(eval_spec((**rhs)@, env@, fuel as nat, u2 + rest) == (b, rest));
                    }
                    return (Err(()), Ghost(u1 + u2));
                },
            };
            let r = binary_exec(*kind, a, b);
            assert forall|rest: Seq<nat>| #[trigger]
                eval_spec(e, env@, fuel as nat, (u1 + u2) + rest) == (r, rest) by {
                assert((u1 + u2) + rest =~= u1 + (u2 + rest));
                assert(eval_spec((**lhs)@, env@, fuel as nat, u1 + (u2 + rest)) == (Ok::<Object, ()>(a), u2 + rest));
                assert(eval_spec((**rhs)@, env@, fuel as nat, u2 + rest) == (Ok::<Object, ()>(b), rest));
            }
            (r, Ghost(u1 + u2))
        },
        Node::ComparisonExpr { kind, lhs, rhs } => {
            let (a, Ghost(u1)) = eval_in(lhs, env, fuel, rolls);
            assert forall|rest: Seq<nat>| #[trigger]
                eval_spec((**lhs)@, env@, fuel as nat, u1 + rest) == (a, rest) by {}
            let a = match a {
                Ok(a) => a,
                Err(_) => {
                    assert forall|rest: Seq<nat>| #[trigger]
                        eval_spec(e, env@, fuel as nat, u1 + rest) == (Err::<Object, ()>(()), rest) by {
                        assert(eval_spec((**lhs)@, env@, fuel as nat, u1 + rest) == (a, rest));
                    }
                    return (Err(()), Ghost(u1));
                },
            };
            let (b, Ghost(u2)) = eval_in(rhs, env, fuel, rolls);
            assert forall|rest: Seq<nat>| (u1 + u2) + rest =~= u1 + (u2 + rest) by {}
            let b = match b {
                Ok(b) => b,
                Err(_) => {
                    assert forall|rest: Seq<nat>| #[trigger]
                        eval_spec(e, env@, fuel as nat, (u1 + u2) + rest) == (Err::<Object, ()>(()), rest) by {
                        assert((u1 + u2) + rest =~= u1 + (u2 + rest));
                        assert(eval_spec((**lhs)@, env@, fuel as nat, u1 + (u2 + rest)) == (Ok::<Object, ()>(a), u2 + rest));
                        assert(eval_spec((**rhs)@, env@, fuel as nat, u2 + rest) == (b, rest));
                    }
                    return (Err(()), Ghost(u1 + u2));
                },
            };
            let r = compare_exec(*kind, a, b);
            assert forall|rest: Seq<nat>| #[trigger]
                eval_spec(e, env@, fuel as nat, (u1 + u2) + rest) == (r, rest) by {
                assert((u1 + u2) + rest =~= u1 + (u2 + rest));
                assert(eval_spec((**lhs)@, env@, fuel as nat, u1 + (u2 + rest)) == (Ok::<Object, ()>(a), u2 + rest));
                assert(eval_spec((**rhs)@, env@, fuel as nat, u2 + rest) == (Ok::<Object, ()>(b), rest));
            }
            (r, Ghost(u1 + u2))
        },
        Node::InfixCommand { name, lhs, rhs } if is_dice_name(name.as_str()) => {
            let (a, Ghost(u1)) = eval_in(lhs, env, fuel, rolls);
            assert forall|rest: Seq<nat>| #[trigger]
                eval_spec((**lhs)@, env@, fuel as nat, u1 + rest) == (a, rest) by {}
            let count = match a {
                Ok(Object::Integer(c)) => c,
                _ => {
                    assert forall|rest: Seq<nat>| #[trigger]
                        eval_spec(e, env@, fuel as nat, u1 + rest) == (Err::<Object, ()>(()), rest) by {
                        assert(eval_spec((**lhs)@, env@, fuel as nat, u1 + rest) == (a, rest));
                    }
                    return (Err(()), Ghost(u1));
                },
            };
            let (b, Ghost(u2)) = eval_in(rhs, env, fuel, rolls);
            assert forall|rest: Seq<nat>| (u1 + u2) + rest =~= u1 + (u2 + rest) by {}
            assert forall|rest: Seq<nat>| #[trigger]
                eval_spec((**rhs)@, env@, fuel as nat, u2 + rest) == (b, rest) by {}
            let sides = match b {
                Ok(Object::Integer(s)) => s,
                _ => {
                    assert forall|rest: Seq<nat>| #[trigger]
                        eval_spec(e, env@, fuel as nat, (u1 + u2) + rest) == (Err::<Object, ()>(()), rest) by {
                        assert((u1 + u2) + rest =~= u1 + (u2 + rest));
                        assert(eval_spec((**lhs)@, env@, fuel as nat, u1 + (u2 + rest)) == (a, u2 + rest));
                        assert(eval_spec((**rhs)@, env@, fuel as nat, u2 + rest) == (b, rest));
                    }
                    return (Err(()), Ghost(u1 + u2));
                },
            };
            if count < 0 || sides < 1 {
                assert forall|rest: Seq<nat>| #[trigger]
                    eval_spec(e, env@, fuel as nat, (u1 + u2) + rest) == (Err::<Object, ()>(()), rest) by {
                    assert((u1 + u2) + rest =~= u1 + (u2 + rest));
                    assert(eval_spec((**lhs)@, env@, fuel as nat, u1 + (u2 + rest)) == (a, u2 + rest));
                    assert(eval_spec((**rhs)@, env@, fuel as nat, u2 + rest) == (b, rest));
                }
                return (Err(()), Ghost(u1 + u2));
            }
            let (sum, Ghost(u3)) = roll(count, sides, rolls);
            assert forall|rest: Seq<nat>| (u1 + u2 + u3) + rest =~= u1 + (u2 + (u3 + rest)) by {}
            let r = match sum {
                Ok(v) => Ok(Object::Integer(v)),
                Err(_) => Err(()),
            };
            assert forall|rest: Seq<nat>| #[trigger]
                dice_spec(count as int, sides as int, u3 + rest) == (r, rest) by {
                assert(roll_spec(count as int, sides as int, 0, u3 + rest) == (
                int_result(sum), rest));
            }
            assert forall|rest: Seq<nat>| #[trigger]
                eval_spec(e, env@, fuel as nat, (u1 + u2 + u3) + rest) == (r, rest) by {
                assert((u1 + u2 + u3) + rest =~= u1 + (u2 + (u3 + rest)));
                assert(eval_spec((**lhs)@, env@, fuel as nat, u1 + (u2 + (u3 + rest))) == (a, u2 + (u3 + rest)));
                assert(eval_spec((**rhs)@, env@, fuel as nat, u2 + (u3 + rest)) == (b, u3 + rest));
                assert(dice_spec(count as int, sides as int, u3 + rest) == (r, rest));
            }
            (r, Ghost(u1 + u2 + u3))
        },
        _ => {
            let (form, args) = match call_parts(node) {
                Some(p) => p,
                None => return (Err(()), Ghost(none)),
            };
            let f = match env.get(&form) {
                Some(f) => f,
                None => return (Err(()), Ghost(none)),
            };
            let inner = match bind_args(f.parameters(), &args, env) {
                Some(i) => i,
                None => return (Err(()), Ghost(none)),
            };
            if fuel == 0 {
                return (Err(()), Ghost(none));
            }
            assert(target(env@, form@, views(args@)) == Some((f@.body, inner@)));
            let (r, Ghost(u)) = eval_in(f.node(), &inner, fuel - 1, rolls);
            assert forall|rest: Seq<nat>| #[trigger]
                eval_spec(e, env@, fuel as nat, u + rest) == (r, rest) by {
                assert(eval_spec(f@.body, inner@, (fuel - 1) as nat, u + rest) == (r, rest));
            }
            (r, Ghost(u))
        },
    }
}

/// Evaluates a tree in an environment, rolling dice with the thread's random
/// generator: the result is that of some stream of draws.
pub fn eval(node: Box<Node>, env: &Environment) -> (r: Result<Object, ()>)
    ensures
        exists|ds: Seq<nat>| eval_spec(node@, env@, MAX_DEPTH as nat, ds).0 == r,
{
    let mut rolls = Rolls::random();
    let (r, Ghost(u)) = eval_in(&node, env, MAX_DEPTH, &mut rolls);
    assert(u + Seq::<nat>::empty() =~= u);
    assert(eval_spec(node@, env@, MAX_DEPTH as nat, u + Seq::<nat>::empty()) == (
    r, Seq::<nat>::empty()));
    r
}

/// Evaluates a tree in an environment, taking die faces from a fixed list of
/// draws.
pub fn eval_with_draws(node: &Node, env: &Environment, draws: Vec<u64>) -> (r: Result<Object, ()>)
    ensures
        r == eval_spec(node@, env@, MAX_DEPTH as nat, stream(draws@)).0,
{
    let mut rolls = Rolls::scripted(draws);
    let (r, _) = eval_in(node, env, MAX_DEPTH, &mut rolls);
    r
}

/// The built-in command under `key`, if there is one, called on unevaluated
/// arguments: `None` when `key` names no built-in.
pub fn eval_builtin(key: &FunctionForm, parameters: Vec<Box<Node>>, env: &Environment) -> (r:
    Option<Result<Object, ()>>)
    ensures
        r is None <==> !(key@.kind == FunctionKind::Infix && is_dice(key@.name)),
        r matches Some(v) ==> exists|ds: Seq<nat>|
            invoke_spec(env@, key@, views(parameters@), MAX_DEPTH as nat, ds).0 == v,
{
    if !(*key.kind() == FunctionKind::Infix && is_dice_name(key.name())) {
        return None;
    }
    if parameters.len() != 2 {
        assert(invoke_spec(env@, key@, views(parameters@), MAX_DEPTH as nat, Seq::empty()).0
            is Err);
        return Some(Err(()));
    }
    let node = Node::InfixCommand {
        name: key.name().to_owned(),
        lhs: Box::new(parameters[0].duplicate()),
        rhs: Box::new(parameters[1].duplicate()),
    };
    assert(node@ == Expr::Infix(
        key@.name,
        Box::new(views(parameters@)[0]),
        Box::new(views(parameters@)[1]),
    ));
    let ghost e = node@;
    let r = eval(Box::new(node), env);
    let ghost ds = choose|ds: Seq<nat>| eval_spec(e, env@, MAX_DEPTH as nat, ds).0 == r;
    assert(invoke_spec(env@, key@, views(parameters@), MAX_DEPTH as nat, ds).0 == r);
    Some(r)
}

impl Function {
    /// Calls the command on unevaluated arguments: each parameter is bound,
    /// as a command of no operand, to its argument, and the body is
    /// evaluated in `env` so extended, one call deep. A wrong argument count
    /// fails.
    pub fn eval(&self, parameters: Vec<Box<Node>>, env: &Environment) -> (r: Result<Object, ()>)
        ensures
            self@.params.len() != parameters@.len() ==> r == Err::<Object, ()>(()),
            self@.params.len() == parameters@.len() ==> exists|ds: Seq<nat>|
                #[trigger] eval_spec(
                    self@.body,
                    bind(env@, self@.params, views(parameters@)),
                    (MAX_DEPTH - 1) as nat,
                    ds,
                ).0 == r,
    {
        let inner = match bind_args(self.parameters(), &parameters, env) {
            Some(i) => i,
            None => return Err(()),
        };
        let mut rolls = Rolls::random();
        let (r, Ghost(u)) = eval_in(self.node(), &inner, MAX_DEPTH - 1, &mut rolls);
        assert(u + Seq::<nat>::empty() =~= u);
        assert(eval_spec(self@.body, inner@, (MAX_DEPTH - 1) as nat, u + Seq::<nat>::empty()) == (
        r, Seq::<nat>::empty()));
        assert(eval_spec(self@.body, inner@, (MAX_DEPTH - 1) as nat, u).0 == r);
        r
    }
}

impl Environment {
    /// Calls the command under `key` on unevaluated arguments: the built-in
    /// first, then the binding of the environment; an unknown key fails.
    pub fn get_and_eval(&self, key: &FunctionForm, parameters: Vec<Box<Node>>) -> (r: Result<
        Object,
        (),
    >)
        ensures
            exists|ds: Seq<nat>|
                invoke_spec(self@, key@, views(parameters@), MAX_DEPTH as nat, ds).0 == r,
    {
        if let Some(r) = eval_builtin(key, duplicate_all(&parameters), self) {
            return r;
        }
        let f = match self.get(key) {
            Some(f) => f,
            None => {
                assert(invoke_spec(self@, key@, views(parameters@), MAX_DEPTH as nat, Seq::empty()).0
                    is Err);
                return Err(());
            },
        };
        let r = f.eval(parameters, self);
        proof {
            if f@.params.len() == parameters@.len() {
                let inner = bind(self@, f@.params, views(parameters@));
                let ds = choose|ds: Seq<nat>|
                    #[trigger] eval_spec(f@.body, inner, (MAX_DEPTH - 1) as nat, ds).0 == r;
                assert(target(self@, key@, views(parameters@)) == Some((f@.body, inner)));
                assert(invoke_spec(self@, key@, views(parameters@), MAX_DEPTH as nat, ds).0 == r);
            } else {
                assert(invoke_spec(self@, key@, views(parameters@), MAX_DEPTH as nat, Seq::empty()).0
                    == r);
            }
        }
        r
    }
}

} // verus!
