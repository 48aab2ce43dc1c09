use carlae::environment::Environment;
use carlae::error::CarlaeError;
use carlae::exec::print_output;
use carlae::expr::{Expr, LiteralValue};
use carlae::stmt::{PrintConfig, PrintMode, Stmt, WhileClause};
use carlae::text::{line_tag_string, usize_to_string};
use carlae::token::{Token, TokenKind};

fn number(text: &str) -> Expr {
    Expr::Literal(LiteralValue::Number(text.into()))
}

#[test]
fn numbers_print_in_shortest_decimal_form() {
    let cases = [
        ("2.50", "2.5"),
        ("007", "7"),
        ("0.0", "0"),
        ("10", "10"),
        ("100.000", "100"),
        ("456.000001", "456.000001"),
        ("0.25", "0.25"),
    ];
    for (text, printed) in cases {
        assert_eq!(number(text).to_string(), printed);
    }
}

#[test]
fn literals_print_as_the_language_writes_them() {
    assert_eq!(Expr::Literal(LiteralValue::Boolean(true)).to_string(), "True");
    assert_eq!(Expr::Literal(LiteralValue::Boolean(false)).to_string(), "False");
    assert_eq!(Expr::Literal(LiteralValue::NoneValue).to_string(), "None");
    assert_eq!(Expr::Literal(LiteralValue::String("hi".into())).to_string(), "hi");
}

#[test]
fn unary_and_grouping_print_in_prefix_form() {
    let minus = Token::new(TokenKind::Minus, "-".into(), 1);
    let expr = Expr::Unary {
        operator: minus,
        right: Box::new(Expr::Grouping(Box::new(number("1")))),
    };
    assert_eq!(expr.to_string(), "(- (group 1))");
}

#[test]
fn while_and_open_print_display() {
    let body = vec![Stmt::Print(PrintConfig {
        exprs: vec![number("1")],
        mode: PrintMode::NoNewline,
    })];
    let stmt = Stmt::While(WhileClause {
        cond: Expr::Literal(LiteralValue::Boolean(true)),
        body,
    });
    assert_eq!(stmt.to_string(), "while True:\n    print 1,\n");
}

#[test]
fn define_gives_back_the_previous_value() {
    let mut env = Environment::new();
    let x = "x".to_string();
    let y = "y".to_string();
    assert_eq!(env.define(&x, 1), None);
    assert_eq!(env.define(&y, 2), None);
    assert_eq!(env.define(&x, 3), Some(1));
    let tx = Token::new(TokenKind::Identifier("x".into()), "x".into(), 1);
    let ty = Token::new(TokenKind::Identifier("y".into()), "y".into(), 1);
    assert!(matches!(env.get(&tx), Ok(&3)));
    assert!(matches!(env.get(&ty), Ok(&2)));
}

#[test]
fn undefined_variable_message_names_line_and_variable() {
    let env: Environment<i32> = Environment::new();
    let token = Token::new(TokenKind::Identifier("bar".into()), "bar".into(), 3);
    match env.get(&token) {
        Err(CarlaeError::Evaluation(m)) => assert_eq!(m, "[Line 3]: Variable `bar` is not defined"),
        other => panic!("expected an evaluation error, got {other:?}"),
    }
}

#[test]
fn decimal_text_of_numbers() {
    assert_eq!(usize_to_string(0), "0");
    assert_eq!(usize_to_string(7), "7");
    assert_eq!(usize_to_string(1234567), "1234567");
    assert_eq!(line_tag_string(42), "[Line 42]");
}

#[test]
fn error_messages() {
    let e = CarlaeError::Scanning("bad".into());
    assert_eq!(e.message(), "bad");
    let io = std::io::Error::new(std::io::ErrorKind::NotFound, "missing file");
    let e: CarlaeError = io.into();
    assert!(matches!(e, CarlaeError::Io(_)));
    assert_eq!(e.message(), "missing file");
}

#[test]
fn print_output_separates_values_with_spaces() {
    let texts = vec!["1".to_string(), "abc".to_string(), "True".to_string()];
    assert_eq!(print_output(&texts, PrintMode::FinalNewline, true), "1 abc True\n");
    assert_eq!(print_output(&texts, PrintMode::NoNewline, true), "1 abc True");
}

#[test]
fn print_output_of_an_interrupted_or_empty_print() {
    let texts = vec!["2.5".to_string()];
    assert_eq!(print_output(&texts, PrintMode::FinalNewline, false), "2.5");
    assert_eq!(print_output(&Vec::new(), PrintMode::FinalNewline, true), "\n");
    assert_eq!(print_output(&Vec::new(), PrintMode::NoNewline, true), "");
}
