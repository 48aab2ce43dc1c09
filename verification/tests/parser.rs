use carlae::error::CarlaeError;
use carlae::expr::{Expr, LiteralValue};
use carlae::parser::Parser;
use carlae::stmt::{Assignment, IfClause, PrintConfig, PrintMode, Stmt, WhileClause};
use carlae::token::{Token, TokenKind};

fn num(text: &str) -> TokenKind {
    TokenKind::Number(text.to_string())
}

#[test]
fn parses_if_statement_with_inline_suite_no_else() {
    let mut parser = Parser::new(vec![
        Token::new(TokenKind::If, "if".into(), 1),
        Token::new(num("1"), "1".into(), 1),
        Token::new(TokenKind::Greater, ">".into(), 1),
        Token::new(num("0"), "0".into(), 1),
        Token::new(TokenKind::Colon, ":".into(), 1),
        Token::new(TokenKind::Identifier("x".into()), "x".into(), 1),
        Token::new(TokenKind::Equal, "=".into(), 1),
        Token::new(num("1"), "1".into(), 1),
        Token::new(TokenKind::Newline, "\n".into(), 1),
        Token::new(TokenKind::Eof, "".into(), 2),
    ]);
    let expected = Stmt::If(IfClause {
        cond: Expr::Binary {
            left: Box::new(Expr::Literal(LiteralValue::Number("1".into()))),
            operator: Token::new(TokenKind::Greater, ">".into(), 1),
            right: Box::new(Expr::Literal(LiteralValue::Number("0".into()))),
        },
        then_branch: vec![Stmt::Variable(Assignment {
            name: Token::new(TokenKind::Identifier("x".into()), "x".into(), 1),
            initializer: Expr::Literal(LiteralValue::Number("1".into())),
        })],
        else_branch: None,
    });

    let program = parser
        .parse()
        .expect("Tokens successfully parsed into statements");

    assert_eq!(program, vec![expected]);
}

#[test]
fn parses_if_statement_with_indented_suite_and_else() {
    let mut parser = Parser::new(vec![
        Token::new(TokenKind::If, "if".into(), 1),
        Token::new(TokenKind::True, "True".into(), 1),
        Token::new(TokenKind::Colon, ":".into(), 1),
        Token::new(TokenKind::Newline, "\n".into(), 1),
        Token::new(TokenKind::Indent, "    ".into(), 2),
        Token::new(TokenKind::Identifier("x".into()), "x".into(), 2),
        Token::new(TokenKind::Equal, "=".into(), 2),
        Token::new(num("1"), "1".into(), 2),
        Token::new(TokenKind::Newline, "\n".into(), 2),
        Token::new(TokenKind::Dedent, "".into(), 3),
        Token::new(TokenKind::Else, "else".into(), 3),
        Token::new(TokenKind::Colon, ":".into(), 3),
        Token::new(TokenKind::Identifier("x".into()), "x".into(), 3),
        Token::new(TokenKind::Equal, "=".into(), 3),
        Token::new(num("0"), "0".into(), 3),
        Token::new(TokenKind::Newline, "\n".into(), 3),
        Token::new(TokenKind::Eof, "".into(), 4),
    ]);
    let expected = Stmt::If(IfClause {
        cond: Expr::Literal(LiteralValue::Boolean(true)),
        then_branch: vec![Stmt::Variable(Assignment {
            name: Token::new(TokenKind::Identifier("x".into()), "x".into(), 2),
            initializer: Expr::Literal(LiteralValue::Number("1".into())),
        })],
        else_branch: Some(vec![Stmt::Variable(Assignment {
            name: Token::new(TokenKind::Identifier("x".into()), "x".into(), 3),
            initializer: Expr::Literal(LiteralValue::Number("0".into())),
        })]),
    });

    let program = parser
        .parse()
        .expect("Tokens successfully parsed into statements");

    assert_eq!(program, vec![expected]);
}

#[test]
fn parses_while_statement_with_two_line_body() {
    let mut parser = Parser::new(vec![
        Token::new(TokenKind::While, "while".into(), 1),
        Token::new(TokenKind::Identifier("x".into()), "x".into(), 1),
        Token::new(TokenKind::Colon, ":".into(), 1),
        Token::new(TokenKind::Newline, "\n".into(), 1),
        Token::new(TokenKind::Indent, "    ".into(), 2),
        Token::new(TokenKind::Identifier("x".into()), "x".into(), 2),
        Token::new(TokenKind::Equal, "=".into(), 2),
        Token::new(num("0"), "0".into(), 2),
        Token::new(TokenKind::Newline, "\n".into(), 2),
        Token::new(TokenKind::Print, "print".into(), 3),
        Token::new(TokenKind::Identifier("x".into()), "x".into(), 3),
        Token::new(TokenKind::Newline, "\n".into(), 3),
        Token::new(TokenKind::Dedent, "".into(), 4),
        Token::new(TokenKind::Eof, "".into(), 4),
    ]);
    let expected = Stmt::While(WhileClause {
        cond: Expr::Variable(Token::new(TokenKind::Identifier("x".into()), "x".into(), 1)),
        body: vec![
            Stmt::Variable(Assignment {
                name: Token::new(TokenKind::Identifier("x".into()), "x".into(), 2),
                initializer: Expr::Literal(LiteralValue::Number("0".into())),
            }),
            Stmt::Print(PrintConfig {
                exprs: vec![Expr::Variable(Token::new(
                    TokenKind::Identifier("x".into()),
                    "x".into(),
                    3,
                ))],
                mode: PrintMode::FinalNewline,
            }),
        ],
    });

    let program = parser
        .parse()
        .expect("Tokens successfully parsed into statements");

    assert_eq!(program, vec![expected]);
}

#[test]
fn parses_print_statement() {
    let mut parser = Parser::new(vec![
        Token::new(TokenKind::Print, "print".into(), 1),
        Token::new(num("1"), "1".into(), 1),
        Token::new(TokenKind::Plus, "+".into(), 1),
        Token::new(num("2"), "2".into(), 1),
        Token::new(TokenKind::Newline, "\n".into(), 1),
        Token::new(TokenKind::Eof, "".into(), 2),
    ]);
    let exprs = vec![Expr::Binary {
        left: Box::new(Expr::Literal(LiteralValue::Number("1".into()))),
        operator: Token::new(TokenKind::Plus, "+".into(), 1),
        right: Box::new(Expr::Literal(LiteralValue::Number("2".into()))),
    }];
    let expected = Stmt::Print(PrintConfig {
        exprs,
        mode: PrintMode::FinalNewline,
    });

    let program = parser
        .parse()
        .expect("Tokens successfully parsed into statements");

    assert_eq!(program, vec![expected]);
}

#[test]
fn parses_print_statement_with_multiple_exprs() {
    let mut parser = Parser::new(vec![
        Token::new(TokenKind::Print, "print".into(), 1),
        Token::new(num("1"), "1".into(), 1),
        Token::new(TokenKind::Plus, "+".into(), 1),
        Token::new(num("2"), "2".into(), 1),
        Token::new(TokenKind::Comma, ",".into(), 1),
        Token::new(num("3"), "3".into(), 1),
        Token::new(TokenKind::Newline, "\n".into(), 1),
        Token::new(TokenKind::Eof, "".into(), 2),
    ]);
    let exprs = vec![
        Expr::Binary {
            left: Box::new(Expr::Literal(LiteralValue::Number("1".into()))),
            operator: Token::new(TokenKind::Plus, "+".into(), 1),
            right: Box::new(Expr::Literal(LiteralValue::Number("2".into()))),
        },
        Expr::Literal(LiteralValue::Number("3".into())),
    ];
    let expected = Stmt::Print(PrintConfig {
        exprs,
        mode: PrintMode::FinalNewline,
    });

    let program = parser
        .parse()
        .expect("Tokens successfully parsed into statements");

    assert_eq!(program, vec![expected]);
}

#[test]
fn parses_print_statement_with_no_exprs() {
    let mut parser = Parser::new(vec![
        Token::new(TokenKind::Print, "print".into(), 1),
        Token::new(TokenKind::Newline, "\n".into(), 1),
        Token::new(TokenKind::Eof, "".into(), 2),
    ]);
    let expected = Stmt::Print(PrintConfig {
        exprs: Vec::new(),
        mode: PrintMode::FinalNewline,
    });

    let program = parser
        .parse()
        .expect("Tokens successfully parsed into statements");

    assert_eq!(program, vec![expected]);
}

#[test]
fn parses_expression_statement() {
    let mut parser = Parser::new(vec![
        Token::new(num("1"), "1".into(), 1),
        Token::new(TokenKind::Plus, "+".into(), 1),
        Token::new(num("2"), "2".into(), 1),
        Token::new(TokenKind::Newline, "\n".into(), 1),
        Token::new(TokenKind::Eof, "".into(), 2),
    ]);
    let expected = Expr::Binary {
        left: Box::new(Expr::Literal(LiteralValue::Number("1".into()))),
        operator: Token::new(TokenKind::Plus, "+".into(), 1),
        right: Box::new(Expr::Literal(LiteralValue::Number("2".into()))),
    };

    let program = parser
        .parse()
        .expect("Tokens successfully parsed into statements");

    assert_eq!(program, vec![Stmt::Expression(expected)])
}

#[test]
fn parses_basic_binary_op() {
    let mut parser = Parser::new(vec![
        Token::new(TokenKind::LeftParen, "(".into(), 1),
        Token::new(num("1"), "1".into(), 1),
        Token::new(TokenKind::Plus, "+".into(), 1),
        Token::new(num("2"), "2".into(), 1),
        Token::new(TokenKind::RightParen, ")".into(), 1),
        Token::new(TokenKind::Newline, "\n".into(), 1),
        Token::new(TokenKind::Eof, "".into(), 2),
    ]);
    let expected = Expr::Grouping(Box::new(Expr::Binary {
        left: Box::new(Expr::Literal(LiteralValue::Number("1".into()))),
        operator: Token::new(TokenKind::Plus, "+".into(), 1),
        right: Box::new(Expr::Literal(LiteralValue::Number("2".into()))),
    }));

    let expr = parser
        .expression()
        .expect("Tokens successfully parsed into Expr");

    assert_eq!(expr, expected);
}

#[test]
fn parses_mult_with_higher_precedence() {
    let mut parser = Parser::new(vec![
        Token::new(num("1"), "1".into(), 1),
        Token::new(TokenKind::Plus, "+".into(), 1),
        Token::new(num("2"), "2".into(), 1),
        Token::new(TokenKind::Star, "*".into(), 1),
        Token::new(num("3"), "3".into(), 1),
        Token::new(TokenKind::Newline, "\n".into(), 1),
        Token::new(TokenKind::Eof, "".into(), 2),
    ]);
    let expected = Expr::Binary {
        left: Box::new(Expr::Literal(LiteralValue::Number("1".into()))),
        operator: Token::new(TokenKind::Plus, "+".into(), 1),
        right: Box::new(Expr::Binary {
            left: Box::new(Expr::Literal(LiteralValue::Number("2".into()))),
            operator: Token::new(TokenKind::Star, "*".into(), 1),
            right: Box::new(Expr::Literal(LiteralValue::Number("3".into()))),
        }),
    };

    let expr = parser
        .expression()
        .expect("Tokens successfully parsed into Expr");

    assert_eq!(expr, expected);
}

#[test]
fn parses_subtraction_as_left_associative() {
    let mut parser = Parser::new(vec![
        Token::new(num("8"), "8".into(), 1),
        Token::new(TokenKind::Minus, "-".into(), 1),
        Token::new(num("3"), "3".into(), 1),
        Token::new(TokenKind::Minus, "-".into(), 1),
        Token::new(num("2"), "2".into(), 1),
        Token::new(TokenKind::Newline, "\n".into(), 1),
        Token::new(TokenKind::Eof, "".into(), 2),
    ]);
    let expected = Expr::Binary {
        left: Box::new(Expr::Binary {
            left: Box::new(Expr::Literal(LiteralValue::Number("8".into()))),
            operator: Token::new(TokenKind::Minus, "-".into(), 1),
            right: Box::new(Expr::Literal(LiteralValue::Number("3".into()))),
        }),
        operator: Token::new(TokenKind::Minus, "-".into(), 1),
        right: Box::new(Expr::Literal(LiteralValue::Number("2".into()))),
    };

    let expr = parser
        .expression()
        .expect("Tokens successfully parsed into Expr");

    assert_eq!(expr, expected);
}

#[test]
fn parses_nested_unary_with_grouping() {
    let mut parser = Parser::new(vec![
        Token::new(TokenKind::Minus, "-".into(), 1),
        Token::new(TokenKind::Minus, "-".into(), 1),
        Token::new(TokenKind::LeftParen, "(".into(), 1),
        Token::new(num("1"), "1".into(), 1),
        Token::new(TokenKind::Plus, "+".into(), 1),
        Token::new(num("2"), "2".into(), 1),
        Token::new(TokenKind::RightParen, ")".into(), 1),
        Token::new(TokenKind::Newline, "\n".into(), 1),
        Token::new(TokenKind::Eof, "".into(), 2),
    ]);
    let expected = Expr::Unary {
        operator: Token::new(TokenKind::Minus, "-".into(), 1),
        right: Box::new(Expr::Unary {
            operator: Token::new(TokenKind::Minus, "-".into(), 1),
            right: Box::new(Expr::Grouping(Box::new(Expr::Binary {
                left: Box::new(Expr::Literal(LiteralValue::Number("1".into()))),
                operator: Token::new(TokenKind::Plus, "+".into(), 1),
                right: Box::new(Expr::Literal(LiteralValue::Number("2".into()))),
            }))),
        }),
    };

    let expr = parser
        .expression()
        .expect("Tokens successfully parsed into Expr");

    assert_eq!(expr, expected);
}

#[test]
fn parses_repeated_not_with_equality() {
    let mut parser = Parser::new(vec![
        Token::new(TokenKind::Not, "not".into(), 1),
        Token::new(TokenKind::Not, "not".into(), 1),
        Token::new(num("1"), "1".into(), 1),
        Token::new(TokenKind::EqualEqual, "==".into(), 1),
        Token::new(num("1"), "1".into(), 1),
        Token::new(TokenKind::Newline, "\n".into(), 1),
        Token::new(TokenKind::Eof, "".into(), 2),
    ]);
    let expected = Expr::Unary {
        operator: Token::new(TokenKind::Not, "not".into(), 1),
        right: Box::new(Expr::Unary {
            operator: Token::new(TokenKind::Not, "not".into(), 1),
            right: Box::new(Expr::Binary {
                left: Box::new(Expr::Literal(LiteralValue::Number("1".into()))),
                operator: Token::new(TokenKind::EqualEqual, "==".into(), 1),
                right: Box::new(Expr::Literal(LiteralValue::Number("1".into()))),
            }),
        }),
    };

    let expr = parser
        .expression()
        .expect("Tokens successfully parsed into Expr");

    assert_eq!(expr, expected);
}

#[test]
fn rejects_not_as_right_operand_of_equality() {
    let mut parser = Parser::new(vec![
        Token::new(num("1"), "1".into(), 1),
        Token::new(TokenKind::EqualEqual, "==".into(), 1),
        Token::new(TokenKind::Not, "not".into(), 1),
        Token::new(num("1"), "1".into(), 1),
        Token::new(TokenKind::Newline, "\n".into(), 1),
        Token::new(TokenKind::Eof, "".into(), 2),
    ]);
    let expected = "invalid token";

    let result = parser.expression();

    assert!(matches!(
        result,
        Err(CarlaeError::Parsing(message))
        if message.to_lowercase().contains(expected)
    ));
}

#[test]
fn rejects_missing_right_paren() {
    let mut parser = Parser::new(vec![
        Token::new(TokenKind::LeftParen, "(".into(), 1),
        Token::new(num("1"), "1".into(), 1),
        Token::new(TokenKind::Plus, "+".into(), 1),
        Token::new(num("2"), "2".into(), 1),
        Token::new(TokenKind::Newline, "\n".into(), 1),
        Token::new(TokenKind::Eof, "".into(), 2),
    ]);
    let expected = "missing `)`";

    let result = parser.expression();

    assert!(matches!(
        result,
        Err(CarlaeError::Parsing(message))
        if message.to_lowercase().contains(expected)
    ));
}

#[test]
fn rejects_invalid_token_in_primary() {
    let mut parser = Parser::new(vec![
        Token::new(TokenKind::Comma, ",".into(), 1),
        Token::new(TokenKind::Eof, "".into(), 1),
    ]);
    let expected = "invalid token";

    let result = parser.expression();

    assert!(matches!(
        result,
        Err(CarlaeError::Parsing(message))
        if message.to_lowercase().contains(expected)
    ));
}
