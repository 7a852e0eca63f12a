use dyce::ast::{BinaryExprKind, Node};
use dyce::environment::{Environment, Function, FunctionForm, FunctionKind};
use dyce::eval::{eval, eval_builtin, eval_with_draws, MAX_DEPTH};
use dyce::lexer::Lexer;
use dyce::object::Object;
use dyce::parser::Parser;
use dyce::IntegerType;

fn parse(input: &str) -> Box<Node> {
    let lexer = Lexer::new(input.to_string());
    let mut parser = Parser::new(lexer);
    parser.parse().unwrap()
}

fn run(input: &str, env: &Environment) -> Result<Object, ()> {
    eval(parse(input), env)
}

fn define(env: &mut Environment, program: &str) {
    let mut parser = Parser::from_text(program.to_string());
    let program = parser.program().unwrap();
    env.define_program(&program);
}

fn binary(kind: BinaryExprKind, lhs: Node, rhs: Node) -> Box<Node> {
    Box::new(Node::BinaryExpr { kind, lhs: Box::new(lhs), rhs: Box::new(rhs) })
}

fn call(name: &str) -> Node {
    Node::NullaryCommand(name.to_string())
}

#[test]
fn nullary_call_eval_test() {
    let tests = [("A", 1), ("B", 2), ("C", 3), ("A+B-C", 0)];
    let mut env = Environment::new();

    for (input, expected) in tests {
        env.insert(
            FunctionForm::new(input.to_string(), FunctionKind::Nullary),
            Function::new(Box::new(Node::Integer(expected)), Vec::new()),
        );
    }

    for (input, expected) in tests {
        let node = parse(input);
        assert_eq!(eval(node, &env).unwrap(), Object::Integer(expected));
    }
}

#[test]
fn prefix_call_eval_test() {
    let tests = [("Succ3", 4), ("Pre3", 2), ("Succ(3+Pre3)+Succ0", 7)];
    let mut env = Environment::new();

    env.insert(
        FunctionForm::new("Succ".to_string(), FunctionKind::Prefix),
        Function::new(
            binary(BinaryExprKind::Add, call("x"), Node::Integer(1)),
            vec!["x".to_string()],
        ),
    );
    env.insert(
        FunctionForm::new("Pre".to_string(), FunctionKind::Prefix),
        Function::new(
            binary(BinaryExprKind::Sub, call("x"), Node::Integer(1)),
            vec!["x".to_string()],
        ),
    );

    for (input, expected) in tests {
        let node = parse(input);
        assert_eq!(eval(node, &env).unwrap(), Object::Integer(expected));
    }
}

#[test]
fn infix_call_eval_test() {
    let tests = [("1plus3", 4), ("6minus3", 3), ("1plus(2minus3)", 0)];
    let mut env = Environment::new();

    env.insert(
        FunctionForm::new("plus".to_string(), FunctionKind::Infix),
        Function::new(
            binary(BinaryExprKind::Add, call("x"), call("y")),
            vec!["x".to_string(), "y".to_string()],
        ),
    );
    env.insert(
        FunctionForm::new("minus".to_string(), FunctionKind::Infix),
        Function::new(
            binary(BinaryExprKind::Sub, call("x"), call("y")),
            vec!["x".to_string(), "y".to_string()],
        ),
    );

    for (input, expected) in tests {
        let node = parse(input);
        assert_eq!(eval(node, &env).unwrap(), Object::Integer(expected));
    }
}

#[test]
fn postfix_call_eval_test() {
    let tests = [("1x", 2), ("2y", 6), ("2x+3y", 13)];
    let mut env = Environment::new();

    env.insert(
        FunctionForm::new("x".to_string(), FunctionKind::Postfix),
        Function::new(
            binary(BinaryExprKind::Mul, call("n"), Node::Integer(2)),
            vec!["n".to_string()],
        ),
    );
    env.insert(
        FunctionForm::new("y".to_string(), FunctionKind::Postfix),
        Function::new(
            binary(BinaryExprKind::Mul, call("n"), Node::Integer(3)),
            vec!["n".to_string()],
        ),
    );

    for (input, expected) in tests {
        let node = parse(input);
        assert_eq!(eval(node, &env).unwrap(), Object::Integer(expected));
    }
}

#[test]
fn integer_eval_test() {
    let inputs = ["10", "0"];

    for input in inputs {
        let node = parse(input);
        assert_eq!(
            eval(node, &Environment::new()).unwrap(),
            Object::Integer(input.parse::<IntegerType>().unwrap())
        );
    }
}

#[test]
fn arithmetic_expr_eval_test() {
    let tests = [
        ("1+2-3*4-6/2", -12),
        ("1+(2-3)*4-6/2", -6),
        ("1+(2-3)*(4-6)/2", 2),
        ("1+((2-3)*4-6)/2", -4),
    ];

    for (input, expected) in tests {
        let node = parse(input);
        assert_eq!(eval(node, &Environment::new()).unwrap(), Object::Integer(expected));
    }
}

#[test]
fn boolean_eval_test() {
    let tests = [
        ("1=1", true),
        ("1=2", false),
        ("1==1", true),
        ("1==2", false),
        ("1!=2", true),
        ("1!=1", false),
        ("1<>2", true),
        ("1<>1", false),
        ("1<2", true),
        ("1<1", false),
        ("1<=1", true),
        ("1<=0", false),
        ("2>1", true),
        ("1>1", false),
        ("1>=1", true),
        ("0>=1", false),
        ("1+2=3", true),
        ("1+2=3+1", false),
        ("1+2==3", true),
        ("1+2==3+1", false),
        ("1+2!=3+1", true),
        ("1+2!=3", false),
        ("1+2<>3+1", true),
        ("1+2<>3", false),
        ("1+2<3+1", true),
        ("1+2<3", false),
        ("1+2<=3", true),
        ("1+2<=3-1", false),
        ("3+1>2", true),
        ("3-1>2", false),
        ("3-1>=2", true),
        ("3-1>=2+1", false),
        ("(1=1)=(2=2)", true),
        ("(1=1)=(1=2)", false),
        ("(1=1)==(2=2)", true),
        ("(1=1)==(1=2)", false),
        ("(1=1)!=(1=2)", true),
        ("(1=1)!=(2=2)", false),
        ("(1=1)<>(1=2)", true),
        ("(1=1)<>(2=2)", false),
    ];

    for (input, expected) in tests {
        let node = parse(input);
        assert_eq!(eval(node, &Environment::new()).unwrap(), Object::Boolean(expected));
    }
}

#[test]
fn exact_arithmetic_and_truncating_division() {
    let env = Environment::new();
    assert_eq!(run("17+5", &env), Ok(Object::Integer(22)));
    assert_eq!(run("5-17", &env), Ok(Object::Integer(-12)));
    assert_eq!(run("17*5", &env), Ok(Object::Integer(85)));
    assert_eq!(run("17/5", &env), Ok(Object::Integer(3)));
    assert_eq!(run("(0-17)/5", &env), Ok(Object::Integer(-3)));
    assert_eq!(run("17/(0-5)", &env), Ok(Object::Integer(-3)));
    assert_eq!(run("(0-17)/(0-5)", &env), Ok(Object::Integer(3)));
    assert_eq!(run("0/7", &env), Ok(Object::Integer(0)));
}

#[test]
fn division_by_zero_fails() {
    let env = Environment::new();
    assert_eq!(run("1/0", &env), Err(()));
    assert_eq!(run("0/0", &env), Err(()));
    assert_eq!(run("7/(3-3)", &env), Err(()));
}

#[test]
fn overflow_fails() {
    let env = Environment::new();
    assert_eq!(run("170141183460469231731687303715884105727+1", &env), Err(()));
    assert_eq!(run("170141183460469231731687303715884105727*2", &env), Err(()));
    assert_eq!(run("0-170141183460469231731687303715884105727-1", &env), Ok(Object::Integer(IntegerType::MIN)));
    assert_eq!(run("0-170141183460469231731687303715884105727-2", &env), Err(()));
}

#[test]
fn type_mismatch_fails() {
    let env = Environment::new();
    assert_eq!(run("(1=1)+1", &env), Err(()));
    assert_eq!(run("(1=1)<2", &env), Err(()));
    assert_eq!(run("(1=1)D6", &env), Err(()));
    assert_eq!(run("1=(1=1)", &env), Ok(Object::Boolean(false)));
    assert_eq!(run("1<>(1=1)", &env), Ok(Object::Boolean(true)));
}

#[test]
fn unknown_command_fails() {
    let env = Environment::new();
    assert_eq!(run("CCB", &env), Err(()));
    assert_eq!(run("d6", &env), Err(()));
    assert_eq!(run("2x", &env), Err(()));
    assert_eq!(run("f(1,2)", &env), Err(()));
}

#[test]
fn arity_mismatch_fails() {
    let mut env = Environment::new();
    env.insert(
        FunctionForm::new("f".to_string(), FunctionKind::Prefix),
        Function::new(Box::new(call("x")), vec!["x".to_string()]),
    );
    assert_eq!(run("f(1)", &env), Ok(Object::Integer(1)));
    assert_eq!(run("f(1,2)", &env), Err(()));
    assert_eq!(run("f()", &env), Err(()));
    let f = Function::new(Box::new(call("x")), vec!["x".to_string()]);
    assert_eq!(f.eval(vec![], &env), Err(()));
    assert_eq!(f.eval(vec![Box::new(Node::Integer(4))], &env), Ok(Object::Integer(4)));
}

#[test]
fn function_call_reaches_prefix_commands_of_many_parameters() {
    let mut env = Environment::new();
    env.insert(
        FunctionForm::new("sub".to_string(), FunctionKind::Prefix),
        Function::new(
            binary(BinaryExprKind::Sub, call("a"), call("b")),
            vec!["a".to_string(), "b".to_string()],
        ),
    );
    assert_eq!(run("sub(10, 3)", &env), Ok(Object::Integer(7)));
}

#[test]
fn shapes_round_trip_through_an_environment() {
    let mut env = Environment::new();
    define(
        &mut env,
        "CCB => 10\nd \"x\" => x+1\nx \"D\" y => x*y\n\"n\" x => n*2\nx \"times\" y => x*y\n",
    );
    assert_eq!(run("CCB", &env), Ok(Object::Integer(10)));
    assert_eq!(run("d5", &env), Ok(Object::Integer(6)));
    assert_eq!(run("4x", &env), Ok(Object::Integer(8)));
    assert_eq!(run("2times3", &env), Ok(Object::Integer(6)));
    // The infix `D` is the dice built-in, which comes before any definition.
    for _ in 0..50 {
        match run("2D3", &env) {
            Ok(Object::Integer(v)) => assert!((2..=6).contains(&v)),
            other => panic!("unexpected {:?}", other),
        }
    }
    assert_eq!(eval_with_draws(&parse("2D3"), &env, vec![0, 0]), Ok(Object::Integer(2)));
}

#[test]
fn later_definitions_shadow_earlier_ones() {
    let mut env = Environment::new();
    define(&mut env, "A => 1\nA => 2\n");
    assert_eq!(run("A", &env), Ok(Object::Integer(2)));
    let old = env.insert(
        FunctionForm::new("A".to_string(), FunctionKind::Nullary),
        Function::new(Box::new(Node::Integer(3)), vec![]),
    );
    assert_eq!(old.unwrap().node(), &Node::Integer(2));
    assert_eq!(run("A", &env), Ok(Object::Integer(3)));
}

#[test]
fn same_name_in_different_shapes_does_not_collide() {
    let mut env = Environment::new();
    define(&mut env, "d \"x\" => x+100\n\"x\" d => x+200\nd => 300\n");
    assert_eq!(run("d1", &env), Ok(Object::Integer(101)));
    assert_eq!(run("1d", &env), Ok(Object::Integer(201)));
    assert_eq!(run("d", &env), Ok(Object::Integer(300)));
}

#[test]
fn bindings_do_not_leak_between_sibling_calls() {
    let mut env = Environment::new();
    define(&mut env, "f \"x\" => x\nleak => x\n");
    assert_eq!(run("f5+f6", &env), Ok(Object::Integer(11)));
    assert_eq!(run("f5+leak", &env), Err(()));
    assert_eq!(run("x", &env), Err(()));
}

#[test]
fn calls_see_the_bindings_active_when_they_run() {
    let mut env = Environment::new();
    define(&mut env, "g => y\nf \"y\" => g\n");
    assert_eq!(run("f7", &env), Ok(Object::Integer(7)));
}

#[test]
fn dice_builtin_bounds() {
    let env = Environment::new();
    for (count, sides) in [(0, 1), (1, 1), (1, 6), (3, 6), (10, 2), (5, 100)] {
        for _ in 0..20 {
            let text = format!("{}D{}", count, sides);
            match run(&text, &env) {
                Ok(Object::Integer(v)) => assert!(count <= v && v <= count * sides, "{} gave {}", text, v),
                other => panic!("{} gave {:?}", text, other),
            }
        }
    }
    assert_eq!(run("0D6", &env), Ok(Object::Integer(0)));
    assert_eq!(run("0d6", &env), Ok(Object::Integer(0)));
    assert_eq!(run("4D1", &env), Ok(Object::Integer(4)));
    assert_eq!(run("(0-1)D6", &env), Err(()));
    assert_eq!(run("1D0", &env), Err(()));
    assert_eq!(run("1D(0-3)", &env), Err(()));
}

#[test]
fn dice_draw_random_faces() {
    let env = Environment::new();
    let mut seen = std::collections::BTreeSet::new();
    for _ in 0..200 {
        if let Ok(Object::Integer(v)) = run("1D6", &env) {
            seen.insert(v);
        }
    }
    assert!(seen.len() > 1);
    assert!(seen.iter().all(|v| (1..=6).contains(v)));
}

#[test]
fn dice_with_fixed_draws() {
    let env = Environment::new();
    assert_eq!(eval_with_draws(&parse("3D6"), &env, vec![0, 5, 8]), Ok(Object::Integer(1 + 6 + 3)));
    assert_eq!(eval_with_draws(&parse("2d10+1"), &env, vec![9, 10]), Ok(Object::Integer(10 + 1 + 1)));
    assert_eq!(eval_with_draws(&parse("3D6"), &env, vec![]), Ok(Object::Integer(3)));
    assert_eq!(eval_with_draws(&parse("1D6 = 1D6"), &env, vec![2, 2]), Ok(Object::Boolean(true)));
    assert_eq!(eval_with_draws(&parse("1D6 = 1D6"), &env, vec![2, 3]), Ok(Object::Boolean(false)));
}

#[test]
fn dice_sum_overflow_fails() {
    let env = Environment::new();
    assert_eq!(
        eval_with_draws(&parse("2D170141183460469231731687303715884105727"), &env, vec![u64::MAX, u64::MAX]),
        Ok(Object::Integer(2 * (u64::MAX as IntegerType) + 2))
    );
    let mut env = Environment::new();
    define(&mut env, "big => 170141183460469231731687303715884105727\n");
    assert_eq!(eval_with_draws(&parse("2Dbig"), &env, vec![]), Err(()));
}

#[test]
fn arguments_are_reevaluated_at_each_reference() {
    let mut env = Environment::new();
    define(&mut env, "\"x\" dup => x+x\n");
    assert_eq!(eval_with_draws(&parse("(1D6)dup"), &env, vec![0, 1]), Ok(Object::Integer(3)));
    assert_eq!(eval_with_draws(&parse("(1D6)dup"), &env, vec![5, 5]), Ok(Object::Integer(12)));
    let mut odd = false;
    for _ in 0..200 {
        match run("(1D6)dup", &env) {
            Ok(Object::Integer(v)) => {
                assert!((2..=12).contains(&v));
                odd |= v % 2 == 1;
            }
            other => panic!("unexpected {:?}", other),
        }
    }
    assert!(odd);
}

#[test]
fn closed_expressions_evaluate_the_same_twice() {
    let env = Environment::new();
    for text in ["1+2*3", "(1+2)*3", "7/2=3", "(1<2)<>(2<1)", "5/0"] {
        assert_eq!(run(text, &env), run(text, &env));
    }
    assert_eq!(run("1+2*3", &env), Ok(Object::Integer(7)));
    assert_eq!(run("(1+2)*3", &env), Ok(Object::Integer(9)));
}

#[test]
fn runaway_recursion_is_cut_off() {
    let mut env = Environment::new();
    define(&mut env, "loop => loop\n\"n\" down => (n-1)down\n");
    assert_eq!(run("loop", &env), Err(()));
    assert_eq!(run("3down", &env), Err(()));
    assert!(MAX_DEPTH > 0);
}

#[test]
fn builtin_lookup() {
    let env = Environment::new();
    let dice = FunctionForm::new("D".to_string(), FunctionKind::Infix);
    let prefix_d = FunctionForm::new("d".to_string(), FunctionKind::Prefix);
    assert_eq!(eval_builtin(&prefix_d, vec![Box::new(Node::Integer(6))], &env), None);
    assert_eq!(
        eval_builtin(&dice, vec![Box::new(Node::Integer(3)), Box::new(Node::Integer(1))], &env),
        Some(Ok(Object::Integer(3)))
    );
    assert_eq!(eval_builtin(&dice, vec![Box::new(Node::Integer(3))], &env), Some(Err(())));
    assert_eq!(
        env.get_and_eval(&dice, vec![Box::new(Node::Integer(2)), Box::new(Node::Integer(1))]),
        Ok(Object::Integer(2))
    );
    assert_eq!(env.get_and_eval(&prefix_d, vec![Box::new(Node::Integer(6))]), Err(()));
}

#[test]
fn values_render_as_text() {
    assert_eq!(Object::Integer(0).to_text(), "0");
    assert_eq!(Object::Integer(1207).to_text(), "1207");
    assert_eq!(Object::Integer(-45).to_text(), "-45");
    assert_eq!(Object::Integer(IntegerType::MAX).to_text(), IntegerType::MAX.to_string());
    assert_eq!(Object::Integer(IntegerType::MIN).to_text(), IntegerType::MIN.to_string());
    assert_eq!(Object::Boolean(true).to_text(), "true");
    assert_eq!(Object::Boolean(false).to_text(), "false");
}
