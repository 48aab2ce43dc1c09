//! What the scanner computes, stated over its state as a mathematical value.
//!
//! The scanner walks the source once, character by character. Each function
//! here takes the state before a step and gives the state after it, with the
//! message of the error that stopped the step, if one did.
use vstd::prelude::*;
use crate::text::line_tag;
use crate::token::{Kind, TokenV};

verus! {

/// Names what `char::is_alphanumeric` returns: whether the character has the
/// Unicode property Alphabetic or Numeric.
pub uninterp spec fn is_alphanumeric_char(c: char) -> bool;

/// What `char::is_whitespace` returns: whether the character has the
/// Unicode property White_Space, which these code points have.
pub open spec fn is_whitespace_char(c: char) -> bool {
    let x = c as int;
    ||| 0x09 <= x <= 0x0D
    ||| x == 0x20
    ||| x == 0x85
    ||| x == 0xA0
    ||| x == 0x1680
    ||| 0x2000 <= x <= 0x200A
    ||| x == 0x2028
    ||| x == 0x2029
    ||| x == 0x202F
    ||| x == 0x205F
    ||| x == 0x3000
}

/// Calls `char::is_alphanumeric`; its result is what `is_alphanumeric_char`
/// names. `is_alphanumeric` is `is_alphabetic() || is_numeric()`, so among
/// ASCII characters it holds exactly of the letters and the digits.
#[verifier::external_body]
pub(crate) fn char_is_alphanumeric(c: char) -> (r: bool)
    ensures
        r == is_alphanumeric_char(c),
        (c as int) < 128 ==> (r <==> ('a' <= c <= 'z' || 'A' <= c <= 'Z' || '0' <= c <= '9')),
{
    c.is_alphanumeric()
}

/// Whether `c` is white space, as `char::is_whitespace` decides it.
pub(crate) fn char_is_whitespace(c: char) -> (r: bool)
    ensures
        r == is_whitespace_char(c),
{
    let x = c as u32;
    (0x09 <= x && x <= 0x0D) || x == 0x20 || x == 0x85 || x == 0xA0 || x == 0x1680
        || (0x2000 <= x && x <= 0x200A) || x == 0x2028 || x == 0x2029 || x == 0x202F
        || x == 0x205F || x == 0x3000
}

/// The state of a scan.
pub struct ScanState {
    /// The source, as characters.
    pub src: Seq<char>,
    /// The tokens produced so far.
    pub tokens: Seq<TokenV>,
    /// Where the current lexeme starts.
    pub start: nat,
    /// The next character to read.
    pub current: nat,
    /// The current line, counted from 1.
    pub line: nat,
    /// How many parentheses are open.
    pub open_parens: nat,
    /// The indentation levels of the enclosing blocks, innermost last.
    pub stack: Seq<nat>,
    /// The character that indents lines, once one line has been indented.
    pub indent_char: Option<char>,
    /// Whether the logical line holds no token yet.
    pub blank_line: bool,
}

/// The state in which a scan of `src` starts.
pub open spec fn initial_state(src: Seq<char>) -> ScanState {
    ScanState {
        src,
        tokens: seq![],
        start: 0,
        current: 0,
        line: 1,
        open_parens: 0,
        stack: seq![0nat],
        indent_char: None,
        blank_line: true,
    }
}

pub open spec fn is_digit(c: char) -> bool {
    '0' <= c && c <= '9'
}

/// Whether `c` may stand in an identifier: an alphanumeric character or `_`.
/// Among ASCII characters the alphanumeric ones are the letters and digits.
pub open spec fn is_ident_char(c: char) -> bool {
    if (c as int) < 128 {
        ('a' <= c && c <= 'z') || ('A' <= c && c <= 'Z') || is_digit(c) || c == '_'
    } else {
        is_alphanumeric_char(c)
    }
}

pub open spec fn peek(s: ScanState) -> Option<char> {
    if s.current < s.src.len() {
        Some(s.src[s.current as int])
    } else {
        None
    }
}

pub open spec fn peek_next(s: ScanState) -> Option<char> {
    if s.current + 1 < s.src.len() {
        Some(s.src[s.current + 1 as int])
    } else {
        None
    }
}

/// The text of the lexeme being scanned.
pub open spec fn lexeme(s: ScanState) -> Seq<char> {
    s.src.subrange(s.start as int, s.current as int)
}

pub open spec fn at(s: ScanState, current: nat) -> ScanState {
    ScanState { current, ..s }
}

/// Emits a token of kind `k` whose text is the current lexeme.
pub open spec fn add_token(s: ScanState, k: Kind) -> ScanState {
    ScanState {
        blank_line: false,
        tokens: s.tokens.push(TokenV { kind: k, lexeme: lexeme(s), line: s.line }),
        ..s
    }
}

pub open spec fn push_token(s: ScanState, k: Kind, text: Seq<char>) -> ScanState {
    ScanState { tokens: s.tokens.push(TokenV { kind: k, lexeme: text, line: s.line }), ..s }
}

pub open spec fn msg_end_of_file(line: nat) -> Seq<char> {
    line_tag(line) + " Reached end of file unexpectedly"@
}

pub open spec fn msg_unexpected(line: nat, c: char) -> Seq<char> {
    line_tag(line) + " Unexpected character: "@ + seq![c]
}

pub open spec fn msg_indentation(line: nat) -> Seq<char> {
    line_tag(line) + " Unexpected indentation level"@
}

pub open spec fn msg_mixture(line: nat) -> Seq<char> {
    line_tag(line) + " Input uses mixture of spaces and tabs for indentation"@
}

pub open spec fn msg_formfeed(line: nat) -> Seq<char> {
    line_tag(line) + " Formfeed char only permitted at start of line"@
}

/// The first position at or after `i` that does not hold a decimal digit.
pub open spec fn digits_end(src: Seq<char>, i: nat) -> nat
    decreases src.len() - i,
{
    if i < src.len() && is_digit(src[i as int]) {
        digits_end(src, i + 1)
    } else {
        i
    }
}

/// The first position at or after `i` that holds no identifier character.
pub open spec fn ident_end(src: Seq<char>, i: nat) -> nat
    decreases src.len() - i,
{
    if i < src.len() && is_ident_char(src[i as int]) {
        ident_end(src, i + 1)
    } else {
        i
    }
}

/// The first position at or after `i` that holds a line break, or the end.
pub open spec fn comment_end(src: Seq<char>, i: nat) -> nat
    decreases src.len() - i,
{
    if i < src.len() && src[i as int] != '\n' && src[i as int] != '\r' {
        comment_end(src, i + 1)
    } else {
        i
    }
}

/// The first position at or after `i` that holds a `"`, or the end.
pub open spec fn quote_pos(src: Seq<char>, i: nat) -> nat
    decreases src.len() - i,
{
    if i < src.len() && src[i as int] != '"' {
        quote_pos(src, i + 1)
    } else {
        i
    }
}

/// The kind of a word: its keyword, or an identifier.
pub open spec fn word_kind(w: Seq<char>) -> Kind {
    if w == seq!['i', 'f'] {
        Kind::If
    } else if w == seq!['e', 'l', 's', 'e'] {
        Kind::Else
    } else if w == seq!['w', 'h', 'i', 'l', 'e'] {
        Kind::While
    } else if w == seq!['d', 'e', 'f'] {
        Kind::Def
    } else if w == seq!['r', 'e', 't', 'u', 'r', 'n'] {
        Kind::Return
    } else if w == seq!['T', 'r', 'u', 'e'] {
        Kind::True
    } else if w == seq!['F', 'a', 'l', 's', 'e'] {
        Kind::False
    } else if w == seq!['N', 'o', 'n', 'e'] {
        Kind::NoneKeyword
    } else if w == seq!['a', 'n', 'd'] {
        Kind::And
    } else if w == seq!['o', 'r'] {
        Kind::Or
    } else if w == seq!['n', 'o', 't'] {
        Kind::Not
    } else if w == seq!['p', 'r', 'i', 'n', 't'] {
        Kind::Print
    } else {
        Kind::Identifier(w)
    }
}

/// A number literal: digits, then a `.` and digits if a digit follows the `.`.
/// `s.current` is just past the first digit.
pub open spec fn scan_number(s: ScanState) -> ScanState {
    let j = digits_end(s.src, s.current);
    let k = if j + 1 < s.src.len() && s.src[j as int] == '.' && is_digit(s.src[j + 1 as int]) {
        digits_end(s.src, j + 1)
    } else {
        j
    };
    add_token(at(s, k), Kind::Number(s.src.subrange(s.start as int, k as int)))
}

/// A string literal, up to the next `"`. `s.current` is just past the opening `"`.
pub open spec fn scan_string(s: ScanState) -> (ScanState, Option<Seq<char>>) {
    let j = quote_pos(s.src, s.current);
    if j < s.src.len() {
        let s1 = at(s, j + 1);
        (add_token(s1, Kind::Str(s.src.subrange(s.start + 1 as int, j as int))), None)
    } else {
        (at(s, j), Some(msg_end_of_file(s.line)))
    }
}

/// A keyword or an identifier. `s.current` is just past its first character.
pub open spec fn scan_word(s: ScanState) -> ScanState {
    let k = ident_end(s.src, s.current);
    add_token(at(s, k), word_kind(s.src.subrange(s.start as int, k as int)))
}

/// Reads the indentation of a line: its width, or `None` where the line holds
/// nothing but blanks or a comment.
pub open spec fn indent_loop(s: ScanState, level: nat) -> (ScanState, Result<Option<nat>, Seq<char>>)
    decreases s.src.len() - s.current,
{
    match (peek(s), s.indent_char) {
        (Some(ch), Some(id)) => {
            if ch == ' ' && id == ' ' {
                indent_loop(at(s, s.current + 1), level + 1)
            } else if ch == '\t' && id == '\t' {
                indent_loop(at(s, s.current + 1), level + 8)
            } else if (ch == ' ' || ch == '\t') && ch != id {
                (s, Err(msg_mixture(s.line)))
            } else if ch == '\x0C' {
                (s, Err(msg_formfeed(s.line)))
            } else if ch == '\n' || ch == '\r' || ch == '#' {
                (s, Ok(None))
            } else {
                (s, Ok(Some(level)))
            }
        },
        _ => (s, Ok(Some(level))),
    }
}

pub open spec fn calc_indent_level(s: ScanState) -> (ScanState, Result<Option<nat>, Seq<char>>) {
    let s1 = if peek(s) == Some('\x0C') { at(s, s.current + 1) } else { s };
    let s2 = if s1.indent_char is None {
        ScanState {
            indent_char: if peek(s1) == Some(' ') || peek(s1) == Some('\t') { peek(s1) } else { None },
            ..s1
        }
    } else {
        s1
    };
    indent_loop(s2, 0)
}

/// Closes blocks deeper than `level`, one `Dedent` each.
pub open spec fn dedent_loop(s: ScanState, level: nat) -> ScanState
    decreases s.stack.len(),
{
    if s.stack.len() > 0 && level < s.stack.last() {
        dedent_loop(
            push_token(ScanState { stack: s.stack.drop_last(), ..s }, Kind::Dedent, seq![]),
            level,
        )
    } else {
        s
    }
}

/// Compares the indentation of a new line with the enclosing block: opens a
/// block (`Indent`), closes blocks (`Dedent`), or refuses a level that no
/// enclosing block has.
pub open spec fn indent_dedent(s: ScanState) -> (ScanState, Option<Seq<char>>) {
    let (s1, r) = calc_indent_level(s);
    match r {
        Err(m) => (s1, Some(m)),
        Ok(None) => (s1, None),
        Ok(Some(level)) => {
            if peek(s1) is None {
                (s1, None)
            } else if level > s1.stack.last() {
                (push_token(ScanState { stack: s1.stack.push(level), ..s1 }, Kind::Indent, lexeme(s1)), None)
            } else if level < s1.stack.last() {
                if !s1.stack.contains(level) {
                    (s1, Some(msg_indentation(s1.line)))
                } else {
                    (dedent_loop(s1, level), None)
                }
            } else {
                (s1, None)
            }
        },
    }
}

pub open spec fn end_logical_line(s: ScanState) -> ScanState {
    ScanState { blank_line: true, ..add_token(s, Kind::Newline) }
}

/// The end of a physical line of `off` characters: outside parentheses it
/// ends the logical line (if it held a token) and reads the next indentation.
pub open spec fn end_physical_line(s: ScanState, off: nat) -> (ScanState, Option<Seq<char>>) {
    if s.open_parens == 0 {
        let s1 = if !s.blank_line { end_logical_line(s) } else { s };
        indent_dedent(ScanState { line: s1.line + 1, start: s1.start + off, ..s1 })
    } else {
        (ScanState { line: s.line + 1, ..s }, None)
    }
}

/// Scans one lexeme, which starts at `s.current`.
pub open spec fn scan_one(s: ScanState) -> (ScanState, Option<Seq<char>>) {
    if s.current >= s.src.len() {
        (s, None)
    } else {
        let ch = s.src[s.current as int];
        let s1 = at(s, s.current + 1);
        if ch == '(' {
            (add_token(ScanState { open_parens: s1.open_parens + 1, ..s1 }, Kind::LeftParen), None)
        } else if ch == ')' {
            let n: nat = if s1.open_parens > 0 { (s1.open_parens - 1) as nat } else { 0 };
            (add_token(ScanState { open_parens: n, ..s1 }, Kind::RightParen), None)
        } else if ch == '+' {
            (add_token(s1, Kind::Plus), None)
        } else if ch == '-' {
            (add_token(s1, Kind::Minus), None)
        } else if ch == '*' {
            (add_token(s1, Kind::Star), None)
        } else if ch == '/' {
            (add_token(s1, Kind::Slash), None)
        } else if ch == ',' {
            (add_token(s1, Kind::Comma), None)
        } else if ch == ':' {
            (add_token(s1, Kind::Colon), None)
        } else if ch == '=' {
            if peek(s1) == Some('=') {
                (add_token(at(s1, s1.current + 1), Kind::EqualEqual), None)
            } else {
                (add_token(s1, Kind::Equal), None)
            }
        } else if ch == '!' {
            if peek(s1) == Some('=') {
                (add_token(at(s1, s1.current + 1), Kind::BangEqual), None)
            } else {
                (s1, None)
            }
        } else if ch == '>' {
            if peek(s1) == Some('=') {
                (add_token(at(s1, s1.current + 1), Kind::GreaterEqual), None)
            } else {
                (add_token(s1, Kind::Greater), None)
            }
        } else if ch == '<' {
            if peek(s1) == Some('=') {
                (add_token(at(s1, s1.current + 1), Kind::LessEqual), None)
            } else {
                (add_token(s1, Kind::Less), None)
            }
        } else if is_digit(ch) {
            (scan_number(s1), None)
        } else if ch == '"' {
            scan_string(s1)
        } else if is_ident_char(ch) {
            (scan_word(s1), None)
        } else if ch == '#' {
            (at(s1, comment_end(s1.src, s1.current)), None)
        } else if ch == '\n' {
            end_physical_line(s1, 1)
        } else if ch == '\r' {
            if peek(s1) == Some('\n') {
                end_physical_line(at(s1, s1.current + 1), 2)
            } else {
                end_physical_line(s1, 1)
            }
        } else if ch == '\\' {
            if peek(s1) == Some('\r') && peek_next(s1) == Some('\n') {
                (ScanState { current: s1.current + 2, line: s1.line + 1, ..s1 }, None)
            } else if peek(s1) == Some('\n') || peek(s1) == Some('\r') {
                (ScanState { current: s1.current + 1, line: s1.line + 1, ..s1 }, None)
            } else {
                (s1, Some(msg_unexpected(s1.line, ch)))
            }
        } else if is_whitespace_char(ch) {
            (s1, None)
        } else {
            (s1, Some(msg_unexpected(s1.line, ch)))
        }
    }
}

/// Scans lexemes until the end of the source or the first error.
pub open spec fn scan_loop(s: ScanState) -> (ScanState, Option<Seq<char>>)
    decreases s.src.len() - s.current,
{
    if s.current >= s.src.len() {
        (s, None)
    } else {
        let (s1, r) = scan_one(ScanState { start: s.current, ..s });
        if r is Some {
            (s1, r)
        } else if s1.src == s.src && s.current < s1.current <= s.src.len() {
            scan_loop(s1)
        } else {
            (s1, r)
        }
    }
}

/// Closes every open block, down to and including the outermost level.
pub open spec fn pop_all(s: ScanState) -> ScanState
    decreases s.stack.len(),
{
    if s.stack.len() == 0 {
        s
    } else if s.stack.last() > 0 {
        pop_all(push_token(ScanState { stack: s.stack.drop_last(), ..s }, Kind::Dedent, seq![]))
    } else {
        ScanState { stack: s.stack.drop_last(), ..s }
    }
}

/// The end of the source: a final `Newline` if the last line held a token,
/// a `Dedent` for each open block, and `Eof`.
pub open spec fn end_of_input(s: ScanState) -> ScanState {
    let s1 = if !s.blank_line { push_token(s, Kind::Newline, seq!['\n']) } else { s };
    push_token(pop_all(s1), Kind::Eof, seq![])
}

/// A whole scan: the first line's indentation, every lexeme, and the end.
pub open spec fn scan(s: ScanState) -> (ScanState, Option<Seq<char>>) {
    let (s1, r1) = indent_dedent(s);
    if r1 is Some {
        (s1, r1)
    } else {
        let (s2, r2) = scan_loop(s1);
        if r2 is Some {
            (s2, r2)
        } else {
            (end_of_input(s2), None)
        }
    }
}

/// The tokens of `src`, or the message of the error that stopped the scan.
pub open spec fn scan_source(src: Seq<char>) -> Result<Seq<TokenV>, Seq<char>> {
    let (s, r) = scan(initial_state(src));
    match r {
        Some(m) => Err(m),
        None => Ok(s.tokens),
    }
}

} // verus!
