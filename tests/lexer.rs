use dyce::lexer::Lexer;
use dyce::token::{Token, TokenKind};

fn tok(kind: TokenKind, literal: &str) -> Token {
    Token::new(kind, literal.to_string())
}

fn all_tokens(input: &str) -> Vec<Token> {
    let mut lexer = Lexer::new(input.to_string());
    let mut out = Vec::new();
    while let Some(t) = lexer.next_token() {
        out.push(t);
    }
    out
}

#[test]
fn separator_tokenize_test() {
    let tests = [(
        "1\n2",
        vec![
            tok(TokenKind::Number, "1"),
            tok(TokenKind::Separator, "\n"),
            tok(TokenKind::Number, "2"),
        ],
    )];

    for (input, expected) in tests {
        let mut lexer = Lexer::new(input.to_string());

        for token in expected {
            assert_eq!(lexer.next_token().unwrap(), token);
        }
    }
}

#[test]
fn ident_tokenize_test() {
    let inputs = ["D", "CCB", "dx"];

    for input in inputs {
        let mut lexer = Lexer::new(input.to_string());

        assert_eq!(
            lexer.next_token().unwrap(),
            Token::new(TokenKind::Ident, input.to_string())
        );
    }
}

#[test]
fn lexer_number_tokenize_test() {
    let inputs = ["10", "0"];

    for input in inputs {
        let mut lexer = Lexer::new(input.to_string());

        assert_eq!(
            lexer.next_token().unwrap(),
            Token::new(TokenKind::Number, input.to_string())
        );
    }
}

#[test]
fn lexer_arithmetic_expr_tokenize_test() {
    let tests = [
        (
            "1+2-3*4/5",
            vec![
                tok(TokenKind::Number, "1"),
                tok(TokenKind::Plus, "+"),
                tok(TokenKind::Number, "2"),
                tok(TokenKind::Minus, "-"),
                tok(TokenKind::Number, "3"),
                tok(TokenKind::Asterisk, "*"),
                tok(TokenKind::Number, "4"),
                tok(TokenKind::Slash, "/"),
                tok(TokenKind::Number, "5"),
            ],
        ),
        (
            "(1+2)*(3-4)/(5-(6-7))",
            vec![
                tok(TokenKind::LParen, "("),
                tok(TokenKind::Number, "1"),
                tok(TokenKind::Plus, "+"),
                tok(TokenKind::Number, "2"),
                tok(TokenKind::RParen, ")"),
                tok(TokenKind::Asterisk, "*"),
                tok(TokenKind::LParen, "("),
                tok(TokenKind::Number, "3"),
                tok(TokenKind::Minus, "-"),
                tok(TokenKind::Number, "4"),
                tok(TokenKind::RParen, ")"),
                tok(TokenKind::Slash, "/"),
                tok(TokenKind::LParen, "("),
                tok(TokenKind::Number, "5"),
                tok(TokenKind::Minus, "-"),
                tok(TokenKind::LParen, "("),
                tok(TokenKind::Number, "6"),
                tok(TokenKind::Minus, "-"),
                tok(TokenKind::Number, "7"),
                tok(TokenKind::RParen, ")"),
                tok(TokenKind::RParen, ")"),
            ],
        ),
        (
            "1+2<10",
            vec![
                tok(TokenKind::Number, "1"),
                tok(TokenKind::Plus, "+"),
                tok(TokenKind::Number, "2"),
                tok(TokenKind::Lt, "<"),
                tok(TokenKind::Number, "10"),
            ],
        ),
        (
            "1+2<=10",
            vec![
                tok(TokenKind::Number, "1"),
                tok(TokenKind::Plus, "+"),
                tok(TokenKind::Number, "2"),
                tok(TokenKind::Le, "<="),
                tok(TokenKind::Number, "10"),
            ],
        ),
        (
            "1+2<>10",
            vec![
                tok(TokenKind::Number, "1"),
                tok(TokenKind::Plus, "+"),
                tok(TokenKind::Number, "2"),
                tok(TokenKind::Ne, "<>"),
                tok(TokenKind::Number, "10"),
            ],
        ),
        (
            "1+2>10",
            vec![
                tok(TokenKind::Number, "1"),
                tok(TokenKind::Plus, "+"),
                tok(TokenKind::Number, "2"),
                tok(TokenKind::Gt, ">"),
                tok(TokenKind::Number, "10"),
            ],
        ),
        (
            "1+2>=10",
            vec![
                tok(TokenKind::Number, "1"),
                tok(TokenKind::Plus, "+"),
                tok(TokenKind::Number, "2"),
                tok(TokenKind::Ge, ">="),
                tok(TokenKind::Number, "10"),
            ],
        ),
        (
            "1+2==10",
            vec![
                tok(TokenKind::Number, "1"),
                tok(TokenKind::Plus, "+"),
                tok(TokenKind::Number, "2"),
                tok(TokenKind::Eq, "=="),
                tok(TokenKind::Number, "10"),
            ],
        ),
        (
            "1+2!=10",
            vec![
                tok(TokenKind::Number, "1"),
                tok(TokenKind::Plus, "+"),
                tok(TokenKind::Number, "2"),
                tok(TokenKind::Ne, "!="),
                tok(TokenKind::Number, "10"),
            ],
        ),
        (
            "1+2=10",
            vec![
                tok(TokenKind::Number, "1"),
                tok(TokenKind::Plus, "+"),
                tok(TokenKind::Number, "2"),
                tok(TokenKind::Eq, "="),
                tok(TokenKind::Number, "10"),
            ],
        ),
        (
            "CCB<=50",
            vec![
                tok(TokenKind::Ident, "CCB"),
                tok(TokenKind::Le, "<="),
                tok(TokenKind::Number, "50"),
            ],
        ),
    ];

    for (input, expected) in tests {
        let mut lexer = Lexer::new(input.to_string());

        for token in expected {
            assert_eq!(lexer.next_token().unwrap(), token);
        }
    }
}

#[test]
fn definition_symbols_tokenize() {
    assert_eq!(
        all_tokens("\"n\" x => n*2,"),
        vec![
            tok(TokenKind::DoubleQuote, "\""),
            tok(TokenKind::Ident, "n"),
            tok(TokenKind::DoubleQuote, "\""),
            tok(TokenKind::Ident, "x"),
            tok(TokenKind::Arrow, "=>"),
            tok(TokenKind::Ident, "n"),
            tok(TokenKind::Asterisk, "*"),
            tok(TokenKind::Number, "2"),
            tok(TokenKind::Comma, ","),
        ]
    );
}

#[test]
fn arrow_and_greater_equal_are_told_apart() {
    assert_eq!(
        all_tokens("=>>="),
        vec![tok(TokenKind::Arrow, "=>"), tok(TokenKind::Ge, ">=")]
    );
}

#[test]
fn newlines_collapse_and_blanks_are_skipped() {
    assert_eq!(
        all_tokens(" 1 \t\r\n\n\n 2 "),
        vec![
            tok(TokenKind::Number, "1"),
            tok(TokenKind::Separator, "\n"),
            tok(TokenKind::Number, "2"),
        ]
    );
}

#[test]
fn identifiers_stop_at_digits() {
    assert_eq!(
        all_tokens("d6"),
        vec![tok(TokenKind::Ident, "d"), tok(TokenKind::Number, "6")]
    );
}

#[test]
fn illegal_characters() {
    assert_eq!(
        all_tokens("!a#"),
        vec![
            tok(TokenKind::Illegal, "!"),
            tok(TokenKind::Ident, "a"),
            tok(TokenKind::Illegal, "#"),
        ]
    );
}

#[test]
fn end_of_input_gives_no_token() {
    let mut lexer = Lexer::new("  ".to_string());
    assert_eq!(lexer.next_token(), None);
    let mut lexer = Lexer::new(String::new());
    assert_eq!(lexer.next_token(), None);
}
