use carlae::error::CarlaeError;
use carlae::scanner::Scanner;
use carlae::token::{Token, TokenKind};

fn scan(source: &str) -> Result<Vec<Token>, CarlaeError> {
    let mut scanner = Scanner::new(source.to_string());
    assert!(scanner.can_scan());
    scanner.scan_tokens().map(|_| scanner.tokens)
}

fn kinds(source: &str) -> Vec<TokenKind> {
    scan(source).expect("scans").into_iter().map(|t| t.kind).collect()
}

fn scanning_message(source: &str) -> String {
    match scan(source) {
        Err(CarlaeError::Scanning(m)) => m,
        other => panic!("expected a scanning error, got {other:?}"),
    }
}

#[test]
fn scans_readme_print_statement() {
    let tokens = scan("print \"Hello, Carlae!\"\n").expect("scans");
    assert_eq!(
        tokens,
        vec![
            Token::new(TokenKind::Print, "print".into(), 1),
            Token::new(
                TokenKind::String("Hello, Carlae!".into()),
                "\"Hello, Carlae!\"".into(),
                1
            ),
            Token::new(TokenKind::Newline, "\n".into(), 1),
            Token::new(TokenKind::Eof, "".into(), 2),
        ]
    );
}

#[test]
fn indentation_opens_as_often_as_it_closes() {
    let tokens = scan("while x:\n  if y:\n    z\n  w\nv\nif a:\n  b").expect("scans");
    let indents = tokens.iter().filter(|t| t.kind == TokenKind::Indent).count();
    let dedents = tokens.iter().filter(|t| t.kind == TokenKind::Dedent).count();
    assert_eq!(indents, 3);
    assert_eq!(indents, dedents);
    assert_eq!(tokens.last().map(|t| &t.kind), Some(&TokenKind::Eof));
    assert_eq!(tokens.iter().filter(|t| t.kind == TokenKind::Eof).count(), 1);
    assert!(tokens.windows(2).all(|w| w[0].line <= w[1].line));
}

#[test]
fn scans_number_with_fraction() {
    assert_eq!(
        kinds("456.000001"),
        vec![
            TokenKind::Number("456.000001".into()),
            TokenKind::Newline,
            TokenKind::Eof
        ]
    );
}

#[test]
fn rejects_point_without_digits() {
    let message = scanning_message("1.");
    assert_eq!(message, "[Line 1] Unexpected character: .");
}

#[test]
fn rejects_mixture_of_spaces_and_tabs() {
    let message = scanning_message("if x:\n    y\n\tz\n");
    assert_eq!(
        message,
        "[Line 3] Input uses mixture of spaces and tabs for indentation"
    );
}

#[test]
fn rejects_formfeed_inside_indentation() {
    let message = scanning_message("x\n \x0Cy\n");
    assert_eq!(message, "[Line 2] Formfeed char only permitted at start of line");
}

#[test]
fn rejects_unterminated_string_with_exact_message() {
    assert_eq!(
        scanning_message("\"open"),
        "[Line 1] Reached end of file unexpectedly"
    );
}

#[test]
fn rejects_unknown_dedent_level_with_exact_message() {
    assert_eq!(
        scanning_message("1\n    1\n  1\n"),
        "[Line 3] Unexpected indentation level"
    );
}

#[test]
fn rejects_backslash_not_before_line_break() {
    assert_eq!(
        scanning_message("1 \\ 2"),
        "[Line 1] Unexpected character: \\"
    );
}

#[test]
fn scans_unicode_identifiers_and_whitespace() {
    assert_eq!(
        kinds("é\u{00A0}= 1"),
        vec![
            TokenKind::Identifier("é".into()),
            TokenKind::Equal,
            TokenKind::Number("1".into()),
            TokenKind::Newline,
            TokenKind::Eof
        ]
    );
}

#[test]
fn scans_two_char_operators_and_drops_lone_bang() {
    assert_eq!(
        kinds("1 != 2 >= 3 <= 4 ! < > == ="),
        vec![
            TokenKind::Number("1".into()),
            TokenKind::BangEqual,
            TokenKind::Number("2".into()),
            TokenKind::GreaterEqual,
            TokenKind::Number("3".into()),
            TokenKind::LessEqual,
            TokenKind::Number("4".into()),
            TokenKind::Less,
            TokenKind::Greater,
            TokenKind::EqualEqual,
            TokenKind::Equal,
            TokenKind::Newline,
            TokenKind::Eof
        ]
    );
}

#[test]
fn scans_keywords() {
    assert_eq!(
        kinds("if else while def return True False None and or not print iffy"),
        vec![
            TokenKind::If,
            TokenKind::Else,
            TokenKind::While,
            TokenKind::Def,
            TokenKind::Return,
            TokenKind::True,
            TokenKind::False,
            TokenKind::NoneKeyword,
            TokenKind::And,
            TokenKind::Or,
            TokenKind::Not,
            TokenKind::Print,
            TokenKind::Identifier("iffy".into()),
            TokenKind::Newline,
            TokenKind::Eof
        ]
    );
}

#[test]
fn unmatched_right_paren_does_not_underflow() {
    assert_eq!(
        kinds(")\n(\n1"),
        vec![
            TokenKind::RightParen,
            TokenKind::Newline,
            TokenKind::LeftParen,
            TokenKind::Number("1".into()),
            TokenKind::Newline,
            TokenKind::Eof
        ]
    );
}

#[test]
fn empty_source_gives_only_eof() {
    assert_eq!(scan("").expect("scans"), vec![Token::new(TokenKind::Eof, "".into(), 1)]);
}

#[test]
fn tab_indentation_counts_eight() {
    let tokens = scan("if x:\n\ty\n").expect("scans");
    assert!(tokens.contains(&Token::new(TokenKind::Indent, "\t".into(), 2)));
}

#[test]
fn token_prints_kind_and_text() {
    let t = Token::new(TokenKind::Identifier("x".into()), "x".into(), 1);
    assert_eq!(t.to_string(), "Identifier(\"x\") x");
    assert_eq!(Token::new(TokenKind::Plus, "+".into(), 1).to_string(), "Plus +");
}

#[test]
fn unicode_white_space_separates_tokens() {
    assert_eq!(
        kinds("x\u{a0}=\u{3000}1\n"),
        vec![
            TokenKind::Identifier("x".into()),
            TokenKind::Equal,
            TokenKind::Number("1".into()),
            TokenKind::Newline,
            TokenKind::Eof,
        ]
    );
}

#[test]
fn scanning_keeps_the_source() {
    let mut scanner = Scanner::new("x = 1\n".to_string());
    scanner.scan_tokens().expect("scans");
    assert_eq!(scanner.source, "x = 1\n");
}

#[test]
fn token_text_writes_numbers_as_doubles_and_escapes_strings() {
    assert_eq!(
        Token::new(TokenKind::Number("1".into()), "1".into(), 1).to_string(),
        "Number(1.0) 1"
    );
    assert_eq!(
        Token::new(TokenKind::Number("2.50".into()), "2.50".into(), 1).to_string(),
        "Number(2.5) 2.50"
    );
    assert_eq!(
        Token::new(TokenKind::String("a\"b\\c\n".into()), "\"x\"".into(), 1).to_string(),
        "String(\"a\\\"b\\\\c\\n\") \"x\""
    );
}

#[test]
fn token_text_writes_numbers_as_doubles_are_debug_printed() {
    for text in [
        "0", "1", "2.50", "0.0001", "0.00001", "0.000015", "123.456",
        "10000000000000000", "150000000000000000", "100000000000000000000", "0.000000123",
    ] {
        let expected = format!("Number({:?}) {}", text.parse::<f64>().unwrap(), text);
        assert_eq!(
            Token::new(TokenKind::Number(text.into()), text.into(), 1).to_string(),
            expected,
            "literal {text}"
        );
    }
}
