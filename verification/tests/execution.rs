use carlae::environment::Environment;
use carlae::error::CarlaeError;
use carlae::eval::{invalid_arguments, repeat_result, Action, NumOp, Value};
use carlae::evaluation::{Evaluation, Request, Step};
use carlae::exec::{ExecRequest, ExecStep, Execution};
use carlae::parser::Parser;
use carlae::scanner::Scanner;
use carlae::stmt::Stmt;

fn text_of(v: &Value) -> String {
    match v {
        Value::Number(bits) => f64::from_bits(*bits).to_string(),
        other => other.plain_text().unwrap(),
    }
}

fn perform(request: Request) -> Result<Value, String> {
    let action = match request {
        Request::Parse(text) => return Ok(Value::Number(text.parse::<f64>().unwrap().to_bits())),
        Request::Perform(action) => action,
        Request::Render(bits) => return Ok(Value::String(text_of(&Value::Number(bits)))),
    };
    match action {
        Action::Numeric { op, x, y } => {
            let (a, b) = (f64::from_bits(x), f64::from_bits(y));
            Ok(match op {
                NumOp::Add => Value::Number((a + b).to_bits()),
                NumOp::Sub => Value::Number((a - b).to_bits()),
                NumOp::Mul => Value::Number((a * b).to_bits()),
                NumOp::Div => Value::Number((a / b).to_bits()),
                NumOp::Neg => Value::Number((-a).to_bits()),
                NumOp::Greater => Value::Boolean(a > b),
                NumOp::GreaterEqual => Value::Boolean(a >= b),
                NumOp::Less => Value::Boolean(a < b),
                NumOp::LessEqual => Value::Boolean(a <= b),
                NumOp::Equal => Value::Boolean(a == b),
                NumOp::NotEqual => Value::Boolean(a != b),
            })
        }
        Action::Repeat { line, text, count } => {
            let n = f64::from_bits(count);
            let whole = if n.fract() == 0.0 { Some(n as usize) } else { None };
            repeat_result(line, &text, whole).map_err(|e| e.message())
        }
        Action::InvalidArguments { line, symbol, left, right } => {
            Err(invalid_arguments(line, &symbol, &text_of(&left), &text_of(&right)).message())
        }
        Action::Done(v) => Ok(v),
        Action::Fail(m) => Err(m),
    }
}

fn evaluate(expr: &carlae::expr::Expr, env: &Environment<Value>) -> Result<Value, CarlaeError> {
    let mut evaluation = Evaluation::new(expr);
    loop {
        match evaluation.step(env) {
            Step::Finished(result) => return result,
            Step::Need(request, suspended) => evaluation = suspended.answer(perform(request))?,
        }
    }
}

fn parse(source: &str) -> Vec<Stmt> {
    let mut scanner = Scanner::new(source.to_string());
    scanner.scan_tokens().expect("scans");
    let mut parser = Parser::new(scanner.tokens);
    parser.parse().expect("parses")
}

/// Runs a script, answering the library's requests; gives what it wrote
/// and how it ended.
fn run(source: &str) -> (String, Result<(), CarlaeError>) {
    let program = parse(source);
    let mut env = Environment::new();
    let mut out = String::new();
    let mut execution = Execution::new(&program);
    let mut answer = None;
    loop {
        match execution.step(&mut env, answer) {
            ExecStep::Finished(result) => return (out, result),
            ExecStep::Need(request, next) => {
                answer = match request {
                    ExecRequest::Evaluate(expr) => Some(evaluate(expr, &env)),
                    ExecRequest::Render(bits) => Some(Ok(Value::String(text_of(&Value::Number(bits))))),
                    ExecRequest::Print(text) => {
                        out.push_str(&text);
                        None
                    }
                };
                execution = next;
            }
        }
    }
}

#[test]
fn hello_script_prints_its_greeting() {
    let (out, result) = run("print \"Hello, Carlae!\"\n");
    assert!(result.is_ok());
    assert_eq!(out, "Hello, Carlae!\n");
}

#[test]
fn while_repeats_while_its_condition_holds() {
    let (out, result) = run("x = 0\nwhile x < 3:\n    print x\n    x = x + 1\nprint \"done\"\n");
    assert!(result.is_ok());
    assert_eq!(out, "0\n1\n2\ndone\n");
}

#[test]
fn if_takes_the_branch_its_condition_picks() {
    let (out, result) = run("if 1 > 2:\n    print \"yes\"\nelse:\n    print \"no\"\nif \"a\":\n    print \"text\"\n");
    assert!(result.is_ok());
    assert_eq!(out, "no\ntext\n");
}

#[test]
fn print_joins_its_values_and_a_trailing_comma_keeps_the_line() {
    let (out, result) = run("print 1, True, None,\nprint \"x\" * 2\n");
    assert!(result.is_ok());
    assert_eq!(out, "1 True Nonexx\n");
}

#[test]
fn the_first_error_stops_the_program() {
    let (out, result) = run("print \"a\"\nprint 1 / 0\nprint \"never\"\n");
    assert_eq!(out, "a\n");
    match result {
        Err(CarlaeError::Evaluation(m)) => assert_eq!(m, "[Line 2]: Cannot divide by zero"),
        other => panic!("unexpected {other:?}"),
    }
}

#[test]
fn a_failing_print_writes_the_values_before_the_error() {
    let (out, result) = run("print \"a\", 2.5, y\n");
    assert_eq!(out, "a 2.5");
    match result {
        Err(CarlaeError::Evaluation(m)) => assert_eq!(m, "[Line 1]: Variable `y` is not defined"),
        other => panic!("unexpected {other:?}"),
    }
}

#[test]
fn an_assignment_binds_its_name() {
    let program = parse("x = 2\nx = x * 5\n");
    let mut env = Environment::new();
    let mut execution = Execution::new(&program);
    let mut answer = None;
    loop {
        match execution.step(&mut env, answer) {
            ExecStep::Finished(result) => {
                result.unwrap();
                break;
            }
            ExecStep::Need(ExecRequest::Evaluate(expr), next) => {
                answer = Some(evaluate(expr, &env));
                execution = next;
            }
            ExecStep::Need(_, _) => panic!("only evaluations here"),
        }
    }
    let x = carlae::token::Token::new(carlae::token::TokenKind::Identifier("x".into()), "x".into(), 1);
    assert_eq!(env.get(&x).unwrap(), &Value::Number(10.0f64.to_bits()));
}
