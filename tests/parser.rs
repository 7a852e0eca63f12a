use dyce::ast::BinaryExprKind::{Add, Div, Mul, Sub};
use dyce::ast::{BinaryExprKind, ComparisonExprKind, Node};
use dyce::environment::FunctionKind;
use dyce::lexer::Lexer;
use dyce::parser::{parse_literal, Parser};
use dyce::IntegerType;

fn lit(v: IntegerType) -> Box<Node> {
    Box::new(Node::Integer(v))
}

fn bin(kind: BinaryExprKind, lhs: Box<Node>, rhs: Box<Node>) -> Box<Node> {
    Box::new(Node::BinaryExpr { kind, lhs, rhs })
}

fn cmp(kind: ComparisonExprKind, lhs: Box<Node>, rhs: Box<Node>) -> Box<Node> {
    Box::new(Node::ComparisonExpr { kind, lhs, rhs })
}

fn nullary(name: &str) -> Box<Node> {
    Box::new(Node::NullaryCommand(name.to_string()))
}

fn infix(name: &str, lhs: Box<Node>, rhs: Box<Node>) -> Box<Node> {
    Box::new(Node::InfixCommand { name: name.to_string(), lhs, rhs })
}

fn parse(input: &str) -> Result<Box<Node>, ()> {
    let lexer = Lexer::new(input.to_string());
    let mut parser = Parser::new(lexer);
    parser.parse()
}

#[test]
fn parser_call_parse_test() {
    let tests = [
        ("1D6", infix("D", lit(1), lit(6))),
        ("CCB", nullary("CCB")),
        (
            "d6",
            Box::new(Node::PrefixCommand { name: "d".to_string(), rhs: lit(6) }),
        ),
        (
            "2d",
            Box::new(Node::PostfixCommand { name: "d".to_string(), lhs: lit(2) }),
        ),
        (
            "rand(1, 6)",
            Box::new(Node::FunctionCall {
                name: "rand".to_string(),
                parameters: vec![lit(1), lit(6)],
            }),
        ),
    ];

    for (input, expected) in tests {
        assert_eq!(parse(input).unwrap(), expected);
    }
}

#[test]
fn parser_integer_parse_test() {
    let inputs = ["10", "0"];

    for input in inputs {
        assert_eq!(
            parse(input).unwrap(),
            Box::new(Node::Integer(input.parse::<IntegerType>().unwrap()))
        )
    }
}

#[test]
fn parser_arithmetic_parse_tokenize_test() {
    let tests = [
        (
            "1+2-3*4/5",
            bin(Sub, bin(Add, lit(1), lit(2)), bin(Div, bin(Mul, lit(3), lit(4)), lit(5))),
        ),
        (
            "1+2*3-4/5",
            bin(Sub, bin(Add, lit(1), bin(Mul, lit(2), lit(3))), bin(Div, lit(4), lit(5))),
        ),
        (
            "1+2*(3-4)/5",
            bin(Add, lit(1), bin(Div, bin(Mul, lit(2), bin(Sub, lit(3), lit(4))), lit(5))),
        ),
        ("(1+2)D6", infix("D", bin(Add, lit(1), lit(2)), lit(6))),
        ("1D(2*(1+2))", infix("D", lit(1), bin(Mul, lit(2), bin(Add, lit(1), lit(2))))),
        ("3D6+3", bin(Add, infix("D", lit(3), lit(6)), lit(3))),
        ("1+2=3", cmp(ComparisonExprKind::Eq, bin(Add, lit(1), lit(2)), lit(3))),
        ("2==2", cmp(ComparisonExprKind::Eq, lit(2), lit(2))),
        ("2!=2", cmp(ComparisonExprKind::Ne, lit(2), lit(2))),
        ("2<>2", cmp(ComparisonExprKind::Ne, lit(2), lit(2))),
        ("10<12", cmp(ComparisonExprKind::Lt, lit(10), lit(12))),
        ("CCB<=100", cmp(ComparisonExprKind::Le, nullary("CCB"), lit(100))),
        ("10>12", cmp(ComparisonExprKind::Gt, lit(10), lit(12))),
        ("CCB>=10", cmp(ComparisonExprKind::Ge, nullary("CCB"), lit(10))),
    ];

    for (input, expected) in tests {
        assert_eq!(parse(input).unwrap(), expected);
    }
}

#[test]
fn precedence_of_products_over_sums() {
    assert_eq!(parse("1+2*3").unwrap(), bin(Add, lit(1), bin(Mul, lit(2), lit(3))));
    assert_eq!(parse("(1+2)*3").unwrap(), bin(Mul, bin(Add, lit(1), lit(2)), lit(3)));
}

#[test]
fn parenthesised_single_argument_is_prefix() {
    assert_eq!(
        parse("f(1+2)").unwrap(),
        Box::new(Node::PrefixCommand {
            name: "f".to_string(),
            rhs: bin(BinaryExprKind::Add, lit(1), lit(2)),
        })
    );
    assert_eq!(
        parse("f()").unwrap(),
        Box::new(Node::FunctionCall { name: "f".to_string(), parameters: vec![] })
    );
    assert_eq!(
        parse("f(1,2,3)").unwrap(),
        Box::new(Node::FunctionCall {
            name: "f".to_string(),
            parameters: vec![lit(1), lit(2), lit(3)],
        })
    );
}

#[test]
fn syntax_errors() {
    for input in ["", "1<2<3", "1=2=3", "1+", "(1+2", "f(1,", "1 2", "!", "1#", "-1", "f(1 2)"] {
        assert_eq!(parse(input), Err(()), "input {:?}", input);
    }
}

#[test]
fn literal_range() {
    assert_eq!(
        parse("170141183460469231731687303715884105727").unwrap(),
        lit(IntegerType::MAX)
    );
    assert_eq!(parse("170141183460469231731687303715884105728"), Err(()));
    assert_eq!(parse("007").unwrap(), lit(7));
}

#[test]
fn literal_values() {
    assert_eq!(parse_literal("0"), Some(0));
    assert_eq!(parse_literal("1234"), Some(1234));
    assert_eq!(parse_literal(""), None);
    assert_eq!(parse_literal("12a"), None);
    assert_eq!(parse_literal("999999999999999999999999999999999999999999"), None);
}

#[test]
fn program_of_all_shapes() {
    let mut parser = Parser::from_text(
        "CCB => 10\nd \"x\" => x+1\n\n x \"D\" y => x*y\n\"n\" x => n*2\n".to_string(),
    );
    let program = parser.program().unwrap();
    let defs = program.defs();
    assert_eq!(defs.len(), 4);
    assert_eq!(defs[0].name(), "CCB");
    assert_eq!(defs[0].kind(), FunctionKind::Nullary);
    assert!(defs[0].parameters().is_empty());
    assert_eq!(defs[0].expr(), &Node::Integer(10));
    assert_eq!(defs[1].name(), "d");
    assert_eq!(defs[1].kind(), FunctionKind::Prefix);
    assert_eq!(defs[1].parameters(), &vec!["x".to_string()]);
    assert_eq!(defs[2].name(), "D");
    assert_eq!(defs[2].kind(), FunctionKind::Infix);
    assert_eq!(defs[2].parameters(), &vec!["x".to_string(), "y".to_string()]);
    assert_eq!(defs[3].name(), "x");
    assert_eq!(defs[3].kind(), FunctionKind::Postfix);
    assert_eq!(defs[3].parameters(), &vec!["n".to_string()]);
}

#[test]
fn program_errors() {
    for input in ["CCB => 10", "CCB 10\n", "=> 1\n", "\"n\" => 1\n", "d \"x => 1\n"] {
        let mut parser = Parser::from_text(input.to_string());
        assert!(parser.program().is_err(), "input {:?}", input);
    }
    let mut parser = Parser::from_text(String::new());
    assert_eq!(parser.program().unwrap().defs().len(), 0);
}
