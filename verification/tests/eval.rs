use carlae::environment::Environment;
use carlae::error::CarlaeError;
use carlae::eval::{invalid_arguments, repeat_result, Action, NumOp, Value};
use carlae::evaluation::{Evaluation, Request, Step};
use carlae::expr::{Expr, LiteralValue};
use carlae::token::{Token, TokenKind};

fn text_of(v: &Value) -> String {
    match v {
        Value::Number(bits) => f64::from_bits(*bits).to_string(),
        other => other.plain_text().unwrap(),
    }
}

/// Answers the library's requests for work on doubles.
fn perform(request: Request) -> Result<Value, String> {
    let action = match request {
        Request::Parse(text) => return Ok(Value::Number(text.parse::<f64>().unwrap().to_bits())),
        Request::Perform(action) => action,
        Request::Render(bits) => return Ok(Value::String(text_of(&Value::Number(bits)))),
    };
    match action {
        Action::Numeric { op, x, y } => {
            let (a, b) = (f64::from_bits(x), f64::from_bits(y));
            Ok(match op {
                NumOp::Add => Value::Number((a + b).to_bits()),
                NumOp::Sub => Value::Number((a - b).to_bits()),
                NumOp::Mul => Value::Number((a * b).to_bits()),
                NumOp::Div => Value::Number((a / b).to_bits()),
                NumOp::Neg => Value::Number((-a).to_bits()),
                NumOp::Greater => Value::Boolean(a > b),
                NumOp::GreaterEqual => Value::Boolean(a >= b),
                NumOp::Less => Value::Boolean(a < b),
                NumOp::LessEqual => Value::Boolean(a <= b),
                NumOp::Equal => Value::Boolean(a == b),
                NumOp::NotEqual => Value::Boolean(a != b),
            })
        }
        Action::Repeat { line, text, count } => {
            let n = f64::from_bits(count);
            let whole = if n.fract() == 0.0 { Some(n as usize) } else { None };
            repeat_result(line, &text, whole).map_err(|e| e.message())
        }
        Action::InvalidArguments { line, symbol, left, right } => {
            Err(invalid_arguments(line, &symbol, &text_of(&left), &text_of(&right)).message())
        }
        Action::Done(v) => Ok(v),
        Action::Fail(m) => Err(m),
    }
}

/// Runs the library's evaluation of an expression, answering its requests.
fn evaluate_in(expr: &Expr, env: &Environment<Value>) -> Result<Value, CarlaeError> {
    let mut evaluation = Evaluation::new(expr);
    loop {
        match evaluation.step(env) {
            Step::Finished(result) => return result,
            Step::Need(request, suspended) => evaluation = suspended.answer(perform(request))?,
        }
    }
}

fn evaluate(expr: &Expr) -> Result<Value, CarlaeError> {
    evaluate_in(expr, &Environment::new())
}

fn number(value: f64) -> Expr {
    Expr::Literal(LiteralValue::Number(value.to_string()))
}

fn boolean(value: bool) -> Expr {
    Expr::Literal(LiteralValue::Boolean(value))
}

fn string(value: &str) -> Expr {
    Expr::Literal(LiteralValue::String(value.into()))
}

fn unary(kind: TokenKind, lexeme: &str, right: Expr) -> Expr {
    Expr::Unary {
        operator: Token::new(kind, lexeme.into(), 1),
        right: Box::new(right),
    }
}

fn binary(left: Expr, kind: TokenKind, lexeme: &str, right: Expr) -> Expr {
    Expr::Binary {
        left: Box::new(left),
        operator: Token::new(kind, lexeme.into(), 1),
        right: Box::new(right),
    }
}

#[test]
fn evals_trivial_arithmetic() {
    let expr = Expr::Grouping(Box::new(binary(
        number(1.0),
        TokenKind::Plus,
        "+",
        number(2.0),
    )));
    let expected = Value::Number(3.0f64.to_bits());

    let eval = evaluate(&expr).expect("Expression is evaluated");

    assert_eq!(eval, expected);
}

#[test]
fn evals_number_arithmetic_with_all_binary_ops() {
    let expr = Expr::Grouping(Box::new(binary(
        binary(
            binary(
                binary(number(8.0), TokenKind::Plus, "+", number(4.0)),
                TokenKind::Star,
                "*",
                number(3.0),
            ),
            TokenKind::Slash,
            "/",
            number(2.0),
        ),
        TokenKind::Minus,
        "-",
        number(5.0),
    )));
    let expected = Value::Number(13.0f64.to_bits());

    let eval = evaluate(&expr).expect("Expression is evaluated");

    assert_eq!(eval, expected);
}

#[test]
fn evals_arithmetic_with_numbers_and_bools() {
    let expr = Expr::Grouping(Box::new(binary(
        binary(
            binary(
                binary(number(10.0), TokenKind::Minus, "-", boolean(true)),
                TokenKind::Star,
                "*",
                binary(boolean(false), TokenKind::Plus, "+", number(2.0)),
            ),
            TokenKind::Slash,
            "/",
            boolean(true),
        ),
        TokenKind::Plus,
        "+",
        binary(boolean(true), TokenKind::Star, "*", boolean(false)),
    )));
    let expected = Value::Number(18.0f64.to_bits());

    let eval = evaluate(&expr).expect("Expression is evaluated");

    assert_eq!(eval, expected);
}

#[test]
fn evals_string_arithmetic() {
    let expr = Expr::Grouping(Box::new(binary(
        binary(
            binary(
                binary(string("Car"), TokenKind::Plus, "+", string("lae")),
                TokenKind::Star,
                "*",
                number(2.0),
            ),
            TokenKind::Plus,
            "+",
            binary(string("!"), TokenKind::Star, "*", boolean(true)),
        ),
        TokenKind::Plus,
        "+",
        binary(boolean(false), TokenKind::Star, "*", string("unused")),
    )));
    let expected = Value::String("CarlaeCarlae!".into());

    let eval = evaluate(&expr).expect("Expression is evaluated");

    assert_eq!(eval, expected);
}

#[test]
fn evals_equality_between_numbers() {
    let expr = Expr::Grouping(Box::new(binary(
        binary(number(1.0), TokenKind::Plus, "+", number(2.0)),
        TokenKind::EqualEqual,
        "==",
        binary(number(6.0), TokenKind::Slash, "/", number(2.0)),
    )));
    let expected = Value::Boolean(true);

    let eval = evaluate(&expr).expect("Expression is evaluated");

    assert_eq!(eval, expected);
}

#[test]
fn evals_greater_than_between_strings() {
    let expr = Expr::Grouping(Box::new(binary(
        string("cat"),
        TokenKind::Greater,
        ">",
        string("car"),
    )));
    let expected = Value::Boolean(true);

    let eval = evaluate(&expr).expect("Expression is evaluated");

    assert_eq!(eval, expected);
}

#[test]
fn evals_not_per_truthiness() {
    let cases = [
        (boolean(true), Value::Boolean(false)),
        (boolean(false), Value::Boolean(true)),
        (number(0.0), Value::Boolean(true)),
        (number(-88.0), Value::Boolean(false)),
        (string(""), Value::Boolean(true)),
        (string("hello"), Value::Boolean(false)),
        (
            Expr::Literal(LiteralValue::NoneValue),
            Value::Boolean(true),
        ),
    ];

    for (operand, expected) in cases {
        let expr = unary(TokenKind::Not, "not", operand);

        let eval = evaluate(&expr).expect("Expression is evaluated");

        assert_eq!(eval, expected);
    }
}

#[test]
fn evals_repeated_not() {
    let expr = unary(
        TokenKind::Not,
        "not",
        unary(TokenKind::Not, "not", string("hello")),
    );
    let expected = Value::Boolean(true);

    let eval = evaluate(&expr).expect("Expression is evaluated");

    assert_eq!(eval, expected);
}

#[test]
fn refuses_divide_by_zero() {
    let expr = Expr::Grouping(Box::new(binary(
        number(1.0),
        TokenKind::Slash,
        "/",
        number(0.0),
    )));
    let expected = "divide by zero";

    let result = evaluate(&expr);

    assert!(matches!(
        result,
        Err(CarlaeError::Evaluation(message))
        if message.to_lowercase().contains(expected)
    ));
}

#[test]
fn refuses_divide_by_false() {
    let expr = Expr::Grouping(Box::new(binary(
        number(1.0),
        TokenKind::Slash,
        "/",
        boolean(false),
    )));
    let expected = "divide by false";

    let result = evaluate(&expr);

    assert!(matches!(
        result,
        Err(CarlaeError::Evaluation(message))
        if message.to_lowercase().contains(expected)
    ));
}

#[test]
fn refuses_string_multiplication_by_fraction() {
    let expr = Expr::Grouping(Box::new(binary(
        string("Carlae"),
        TokenKind::Star,
        "*",
        number(1.5),
    )));
    let expected = "fractional numbers";

    let result = evaluate(&expr);

    assert!(matches!(
        result,
        Err(CarlaeError::Evaluation(message))
        if message.to_lowercase().contains(expected)
    ));
}

fn variable(name: &str, line: usize) -> Expr {
    Expr::Variable(Token::new(TokenKind::Identifier(name.into()), name.into(), line))
}

#[test]
fn evaluation_reads_variables_from_the_environment() {
    let mut env = Environment::new();
    env.define(&"x".to_string(), Value::Number(2.0f64.to_bits()));
    let expr = binary(variable("x", 1), TokenKind::Star, "*", number(3.0));

    assert_eq!(evaluate_in(&expr, &env).unwrap(), Value::Number(6.0f64.to_bits()));
}

#[test]
fn evaluation_reports_an_undefined_variable() {
    let expr = binary(number(1.0), TokenKind::Plus, "+", variable("y", 4));

    match evaluate(&expr) {
        Err(CarlaeError::Evaluation(m)) => assert_eq!(m, "[Line 4]: Variable `y` is not defined"),
        other => panic!("unexpected {other:?}"),
    }
}

#[test]
fn evaluation_stops_at_the_first_error_from_the_left() {
    let expr = binary(
        binary(number(1.0), TokenKind::Slash, "/", number(0.0)),
        TokenKind::Plus,
        "+",
        variable("y", 1),
    );

    match evaluate(&expr) {
        Err(CarlaeError::Evaluation(m)) => assert_eq!(m, "[Line 1]: Cannot divide by zero"),
        other => panic!("unexpected {other:?}"),
    }
}

#[test]
fn evaluation_reports_operands_that_do_not_fit() {
    let expr = binary(string("a"), TokenKind::Minus, "-", number(1.0));

    match evaluate(&expr) {
        Err(CarlaeError::Evaluation(m)) => {
            assert_eq!(m, "[Line 1]: Invalid arguments to binary operator -: a, 1")
        }
        other => panic!("unexpected {other:?}"),
    }
}

#[test]
fn evaluation_asks_for_the_double_of_a_number_literal() {
    let expr = Expr::Literal(LiteralValue::Number("2.5".to_string()));
    let env = Environment::new();

    match Evaluation::new(&expr).step(&env) {
        Step::Need(Request::Parse(text), suspended) => {
            assert_eq!(text, "2.5");
            let next = suspended.answer(Ok(Value::Number(2.5f64.to_bits()))).unwrap();
            match next.step(&env) {
                Step::Finished(Ok(v)) => assert_eq!(v, Value::Number(2.5f64.to_bits())),
                _ => panic!("the evaluation should end with the answer"),
            }
        }
        _ => panic!("a number literal needs its double"),
    }
}

#[test]
fn evaluation_ends_with_an_error_answer() {
    let expr = Expr::Literal(LiteralValue::Number("x".to_string()));
    let env = Environment::new();

    match Evaluation::new(&expr).step(&env) {
        Step::Need(_, suspended) => match suspended.answer(Err("no number".to_string())) {
            Err(CarlaeError::Evaluation(m)) => assert_eq!(m, "no number"),
            _ => panic!("the error answer ends the evaluation"),
        },
        _ => panic!("a number literal needs its double"),
    }
}

#[test]
fn dividing_with_a_string_or_none_is_an_evaluation_error() {
    let expr = binary(string("a"), TokenKind::Slash, "/", number(2.0));
    match evaluate(&expr) {
        Err(CarlaeError::Evaluation(m)) => {
            assert_eq!(m, "[Line 1]: Invalid arguments to binary operator /: a, 2")
        }
        other => panic!("unexpected {other:?}"),
    }
    let expr = binary(number(1.5), TokenKind::Slash, "/", Expr::Literal(LiteralValue::NoneValue));
    match evaluate(&expr) {
        Err(CarlaeError::Evaluation(m)) => {
            assert_eq!(m, "[Line 1]: Invalid arguments to binary operator /: 1.5, None")
        }
        other => panic!("unexpected {other:?}"),
    }
}

#[test]
fn unfit_operands_ask_for_the_text_of_a_number_operand() {
    let expr = binary(string("a"), TokenKind::Minus, "-", Expr::Literal(LiteralValue::Boolean(true)));
    let env = Environment::new();
    match Evaluation::new(&expr).step(&env) {
        Step::Finished(Err(CarlaeError::Evaluation(m))) => {
            assert_eq!(m, "[Line 1]: Invalid arguments to binary operator -: a, True")
        }
        _ => panic!("no number operand: no request"),
    }
    let expr = binary(number(2.0), TokenKind::Minus, "-", string("b"));
    let first = Evaluation::new(&expr).step(&env);
    let Step::Need(Request::Parse(_), s) = first else { panic!("the literal needs its double") };
    let next = s.answer(Ok(Value::Number(2.0f64.to_bits()))).unwrap();
    match next.step(&env) {
        Step::Need(Request::Render(bits), s) => {
            assert_eq!(bits, 2.0f64.to_bits());
            let next = s.answer(Ok(Value::String("two".into()))).unwrap();
            match next.step(&env) {
                Step::Finished(Err(CarlaeError::Evaluation(m))) => {
                    assert_eq!(m, "[Line 1]: Invalid arguments to binary operator -: two, b")
                }
                _ => panic!("the error ends the evaluation"),
            }
        }
        _ => panic!("the number operand needs its text"),
    }
}
