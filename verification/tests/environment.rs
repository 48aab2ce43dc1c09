use carlae::environment::Environment;
use carlae::error::CarlaeError;
use carlae::expr::LiteralValue;
use carlae::token::{Token, TokenKind};

#[test]
fn defines_and_gets_new_variable() {
    let mut env = Environment::new();
    let name = "foo".to_string();

    env.define(&name, LiteralValue::Number("2".into()));
    let token = Token::new(
        TokenKind::Identifier("foo".to_string()),
        "foo".to_string(),
        1,
    );

    assert!(matches!(env.get(&token), Ok(LiteralValue::Number(n)) if n == "2"))
}

#[test]
fn rejects_getting_non_existent_variable() {
    let mut env = Environment::new();
    let name = "foo".to_string();

    env.define(&name, LiteralValue::Number("2".into()));
    let token = Token::new(
        TokenKind::Identifier("bar".to_string()),
        "bar".to_string(),
        1,
    );

    assert!(matches!(
        env.get(&token),
        Err(CarlaeError::Evaluation(msg))
        if msg.contains("not defined")
    ))
}
