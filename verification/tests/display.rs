use carlae::expr::{Expr, LiteralValue};
use carlae::stmt::{IfClause, PrintConfig, PrintMode, Stmt};
use carlae::token::{Token, TokenKind};

#[test]
fn nested_expr_prints() {
    let operator = Token {
        kind: TokenKind::Plus,
        lexeme: "+".into(),
        line: 1,
    };
    let left = Expr::Literal(LiteralValue::Number("1".into()));
    let right = Expr::Literal(LiteralValue::Number("2".into()));
    let expr = Expr::Binary {
        left: Box::new(left),
        operator,
        right: Box::new(right),
    };
    let expected = "(+ 1 2)".to_string();

    let printed = expr.to_string();

    assert_eq!(printed, expected)
}

#[test]
fn if_statement_displays_else_branch() {
    let if_stmt = Stmt::If(IfClause {
        cond: Expr::Binary {
            left: Box::new(Expr::Variable(Token::new(
                TokenKind::Identifier("x".into()),
                "x".into(),
                1,
            ))),
            operator: Token::new(TokenKind::EqualEqual, "==".into(), 1),
            right: Box::new(Expr::Literal(LiteralValue::Number("0".into()))),
        },
        then_branch: vec![Stmt::Expression(Expr::Literal(LiteralValue::Boolean(true)))],
        else_branch: Some(vec![Stmt::Expression(Expr::Literal(
            LiteralValue::Boolean(false),
        ))]),
    });
    let expected = String::from("if (== x 0):\n    True\nelse:\n    False\n");

    assert_eq!(if_stmt.to_string(), expected);
}

#[test]
fn print_statement_displays_multiple_exprs() {
    let print_stmt = Stmt::Print(PrintConfig {
        exprs: vec![
            Expr::Literal(LiteralValue::Number("1".into())),
            Expr::Literal(LiteralValue::Number("2".into())),
        ],
        mode: PrintMode::FinalNewline,
    });
    let expected = String::from("print 1, 2");

    assert_eq!(print_stmt.to_string(), expected);
}

#[test]
fn print_statement_displays_empty() {
    let print_stmt = Stmt::Print(PrintConfig {
        exprs: Vec::new(),
        mode: PrintMode::FinalNewline,
    });
    let expected = String::from("print");

    assert_eq!(print_stmt.to_string(), expected);
}
