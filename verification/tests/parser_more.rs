use carlae::error::CarlaeError;
use carlae::expr::{Expr, LiteralValue};
use carlae::parser::Parser;
use carlae::scanner::Scanner;
use carlae::stmt::{PrintConfig, PrintMode, Stmt};

fn parse(source: &str) -> Result<Vec<Stmt>, CarlaeError> {
    let mut scanner = Scanner::new(source.to_string());
    scanner.scan_tokens().expect("scans");
    let mut parser = Parser::new(scanner.tokens);
    parser.parse()
}

fn parsing_message(source: &str) -> String {
    match parse(source) {
        Err(CarlaeError::Parsing(m)) => m,
        other => panic!("expected a parsing error, got {other:?}"),
    }
}

#[test]
fn print_with_trailing_comma_keeps_line_open() {
    let program = parse("print 1, 2,\n").expect("parses");
    assert_eq!(
        program,
        vec![Stmt::Print(PrintConfig {
            exprs: vec![
                Expr::Literal(LiteralValue::Number("1".into())),
                Expr::Literal(LiteralValue::Number("2".into())),
            ],
            mode: PrintMode::NoNewline,
        })]
    );
}

#[test]
fn scanned_program_round_trips_through_display() {
    let program = parse("x = 1 + 2 * 3\nif not x == 7:\n    print x\nelse:\n    y = (x - 1) / 2\nwhile x:\n    x = x - 1\n").expect("parses");
    let printed: Vec<String> = program.iter().map(|s| s.to_string()).collect();
    assert_eq!(
        printed,
        vec![
            "x = (+ 1 (* 2 3))".to_string(),
            "if (not (== x 7)):\n    print x\nelse:\n    y = (/ (group (- x 1)) 2)\n".to_string(),
            "while x:\n    x = (- x 1)\n".to_string(),
        ]
    );
}

#[test]
fn rejects_if_without_colon() {
    assert_eq!(
        parsing_message("if x\n    y\n"),
        "[Line 1] If statement missing `:` after condition"
    );
}

#[test]
fn rejects_else_without_colon() {
    assert_eq!(
        parsing_message("if x: y\nelse y\n"),
        "[Line 1] If statement missing `:` after else"
    );
}

#[test]
fn rejects_while_without_colon() {
    assert_eq!(
        parsing_message("while x\n"),
        "[Line 1] While statement missing `:` after condition"
    );
}

#[test]
fn rejects_assignment_without_newline() {
    assert_eq!(
        parsing_message("x = 1 2\n"),
        "[Line 1]: Invalid syntax for variable declaration"
    );
}

#[test]
fn rejects_print_without_newline() {
    assert_eq!(
        parsing_message("print 1 2\n"),
        "[Line 1] Invalid syntax for print statement"
    );
}

#[test]
fn rejects_expression_without_newline() {
    assert_eq!(
        parsing_message("1 2\n"),
        "[Line 1] Missing newline after expression statement"
    );
}

#[test]
fn reports_missing_paren_after_previous_token() {
    assert_eq!(parsing_message("(1 + 2\n"), "[Line 1] Missing `)` after Number(2.0)");
}

#[test]
fn reports_invalid_token_kind() {
    assert_eq!(parsing_message("\n\n, 1\n"), "[Line 3] Invalid token Comma");
}

#[test]
fn first_error_ends_the_program() {
    assert_eq!(parsing_message("1\n)\n2\n"), "[Line 2] Invalid token RightParen");
}

#[test]
fn empty_program_parses_to_nothing() {
    assert_eq!(parse("").expect("parses"), Vec::new());
}
