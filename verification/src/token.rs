//! Tokens: what the scanner produces and the parser reads.
use vstd::prelude::*;
use vstd::string::StringExecFns;
use crate::expr::{dot_pos, number_text, strip_number, strip_trailing_zeros};
use crate::text::{chars_to_string, decimal, push_char, string_chars, usize_to_string};

verus! {

/// The kind of a token. A number keeps the decimal text of its literal
/// (digits, optionally a `.` and more digits); the number it denotes is the
/// double nearest to that text.
#[derive(Debug, PartialEq)]
pub enum TokenKind {
    // One-char tokens
    LeftParen,
    RightParen,
    Plus,
    Minus,
    Slash,
    Star,
    Comma,
    Colon,
    // Two-char tokens
    Equal,
    EqualEqual,
    BangEqual,
    Greater,
    GreaterEqual,
    Less,
    LessEqual,
    // Literals
    Number(String),
    String(String),
    Identifier(String),
    // Keywords
    If,
    Else,
    While,
    Def,
    Return,
    True,
    False,
    NoneKeyword,
    And,
    Or,
    Not,
    Print,
    // Other
    Newline,
    Indent,
    Dedent,
    Eof,
}

/// A token kind as a mathematical value: texts are character sequences.
pub enum Kind {
    LeftParen,
    RightParen,
    Plus,
    Minus,
    Slash,
    Star,
    Comma,
    Colon,
    Equal,
    EqualEqual,
    BangEqual,
    Greater,
    GreaterEqual,
    Less,
    LessEqual,
    Number(Seq<char>),
    Str(Seq<char>),
    Identifier(Seq<char>),
    If,
    Else,
    While,
    Def,
    Return,
    True,
    False,
    NoneKeyword,
    And,
    Or,
    Not,
    Print,
    Newline,
    Indent,
    Dedent,
    Eof,
}

impl View for TokenKind {
    type V = Kind;

    open spec fn view(&self) -> Kind {
        match self {
            TokenKind::LeftParen => Kind::LeftParen,
            TokenKind::RightParen => Kind::RightParen,
            TokenKind::Plus => Kind::Plus,
            TokenKind::Minus => Kind::Minus,
            TokenKind::Slash => Kind::Slash,
            TokenKind::Star => Kind::Star,
            TokenKind::Comma => Kind::Comma,
            TokenKind::Colon => Kind::Colon,
            TokenKind::Equal => Kind::Equal,
            TokenKind::EqualEqual => Kind::EqualEqual,
            TokenKind::BangEqual => Kind::BangEqual,
            TokenKind::Greater => Kind::Greater,
            TokenKind::GreaterEqual => Kind::GreaterEqual,
            TokenKind::Less => Kind::Less,
            TokenKind::LessEqual => Kind::LessEqual,
            TokenKind::Number(s) => Kind::Number(s@),
            TokenKind::String(s) => Kind::Str(s@),
            TokenKind::Identifier(s) => Kind::Identifier(s@),
            TokenKind::If => Kind::If,
            TokenKind::Else => Kind::Else,
            TokenKind::While => Kind::While,
            TokenKind::Def => Kind::Def,
            TokenKind::Return => Kind::Return,
            TokenKind::True => Kind::True,
            TokenKind::False => Kind::False,
            TokenKind::NoneKeyword => Kind::NoneKeyword,
            TokenKind::And => Kind::And,
            TokenKind::Or => Kind::Or,
            TokenKind::Not => Kind::Not,
            TokenKind::Print => Kind::Print,
            TokenKind::Newline => Kind::Newline,
            TokenKind::Indent => Kind::Indent,
            TokenKind::Dedent => Kind::Dedent,
            TokenKind::Eof => Kind::Eof,
        }
    }
}

impl Clone for TokenKind {
    fn clone(&self) -> (res: Self)
        ensures
            res@ == self@,
    {
        match self {
            TokenKind::LeftParen => TokenKind::LeftParen,
            TokenKind::RightParen => TokenKind::RightParen,
            TokenKind::Plus => TokenKind::Plus,
            TokenKind::Minus => TokenKind::Minus,
            TokenKind::Slash => TokenKind::Slash,
            TokenKind::Star => TokenKind::Star,
            TokenKind::Comma => TokenKind::Comma,
            TokenKind::Colon => TokenKind::Colon,
            TokenKind::Equal => TokenKind::Equal,
            TokenKind::EqualEqual => TokenKind::EqualEqual,
            TokenKind::BangEqual => TokenKind::BangEqual,
            TokenKind::Greater => TokenKind::Greater,
            TokenKind::GreaterEqual => TokenKind::GreaterEqual,
            TokenKind::Less => TokenKind::Less,
            TokenKind::LessEqual => TokenKind::LessEqual,
            TokenKind::Number(s) => TokenKind::Number(s.clone()),
            TokenKind::String(s) => TokenKind::String(s.clone()),
            TokenKind::Identifier(s) => TokenKind::Identifier(s.clone()),
            TokenKind::If => TokenKind::If,
            TokenKind::Else => TokenKind::Else,
            TokenKind::While => TokenKind::While,
            TokenKind::Def => TokenKind::Def,
            TokenKind::Return => TokenKind::Return,
            TokenKind::True => TokenKind::True,
            TokenKind::False => TokenKind::False,
            TokenKind::NoneKeyword => TokenKind::NoneKeyword,
            TokenKind::And => TokenKind::And,
            TokenKind::Or => TokenKind::Or,
            TokenKind::Not => TokenKind::Not,
            TokenKind::Print => TokenKind::Print,
            TokenKind::Newline => TokenKind::Newline,
            TokenKind::Indent => TokenKind::Indent,
            TokenKind::Dedent => TokenKind::Dedent,
            TokenKind::Eof => TokenKind::Eof,
        }
    }
}

/// A token: its kind, the source text it was scanned from, and its line.
#[derive(Debug, PartialEq)]
pub struct Token {
    pub kind: TokenKind,
    pub lexeme: String,
    pub line: usize,
}

/// A token as a mathematical value.
pub struct TokenV {
    pub kind: Kind,
    pub lexeme: Seq<char>,
    pub line: nat,
}

impl View for Token {
    type V = TokenV;

    open spec fn view(&self) -> TokenV {
        TokenV { kind: self.kind@, lexeme: self.lexeme@, line: self.line as nat }
    }
}

impl Clone for Token {
    fn clone(&self) -> (res: Self)
        ensures
            res@ == self@,
    {
        Token { kind: self.kind.clone(), lexeme: self.lexeme.clone(), line: self.line }
    }
}

impl Token {
    pub fn new(kind: TokenKind, lexeme: String, line: usize) -> (res: Self)
        ensures
            res.kind == kind,
            res.lexeme == lexeme,
            res.line == line,
    {
        Self { kind, lexeme, line }
    }
}

/// The views of a sequence of tokens.
pub open spec fn tokens_view(ts: Seq<Token>) -> Seq<TokenV> {
    ts.map_values(|t: Token| t@)
}

/// The first position at or after `i` that holds no `0`, or the end.
pub open spec fn nonzero_pos(s: Seq<char>, i: nat) -> nat
    decreases s.len() - i,
{
    if i < s.len() && s[i as int] == '0' {
        nonzero_pos(s, i + 1)
    } else {
        i
    }
}

/// An exponent as written: a `-` for a negative one, then its digits.
pub open spec fn exp_text(e: int) -> Seq<char> {
    if e < 0 {
        "-"@ + decimal((-e) as nat)
    } else {
        decimal(e as nat)
    }
}

/// The significant `digits` with exponent `e`: the first digit, the others
/// after a point where there are any, `e`, and the exponent (`1.5e-5`).
pub open spec fn sci(digits: Seq<char>, e: int) -> Seq<char> {
    seq![digits[0]] + (if digits.len() > 1 { "."@ + digits.skip(1) } else { Seq::<char>::empty() }) + "e"@ + exp_text(e)
}

/// How a number is written in a token kind, as a double is in debug output:
/// a number of at least 1e16, or below 1e-4 but not zero, in exponent form
/// (`1e16`, `1.5e-5`); any other in decimal form with `.0` where it has no
/// point (`2.0`, `0.0001`).
pub open spec fn debug_number(t: Seq<char>) -> Seq<char> {
    let n = number_text(t);
    let d = dot_pos(n, 0);
    let below_one = d == 0 || (d == 1 && n[0] == '0');
    let frac = if d < n.len() { n.subrange(d + 1 as int, n.len() as int) } else { Seq::<char>::empty() };
    let digits = strip_trailing_zeros(n.subrange(0, d as int) + frac);
    if !below_one && d >= 17 && digits.len() > 0 {
        sci(digits, d - 1)
    } else if below_one && d < n.len() && nonzero_pos(n, d + 1) < n.len() && nonzero_pos(n, d + 1) >= d + 5 {
        let z = nonzero_pos(n, d + 1);
        sci(n.subrange(z as int, n.len() as int), d - z)
    } else if n.contains('.') {
        n
    } else {
        n + ".0"@
    }
}

/// How a character is written inside quotes: a backslash, a quote, a
/// newline, a return, a tab and a NUL are escaped.
pub open spec fn escape_char(c: char) -> Seq<char> {
    if c == '\\' {
        seq!['\\', '\\']
    } else if c == '"' {
        seq!['\\', '"']
    } else if c == '\n' {
        seq!['\\', 'n']
    } else if c == '\r' {
        seq!['\\', 'r']
    } else if c == '\t' {
        seq!['\\', 't']
    } else if c == '\0' {
        seq!['\\', '0']
    } else {
        seq![c]
    }
}

/// `s` with each character escaped.
pub open spec fn escaped(s: Seq<char>) -> Seq<char>
    decreases s.len(),
{
    if s.len() == 0 {
        seq![]
    } else {
        escaped(s.drop_last()) + escape_char(s.last())
    }
}

fn push_escaped(out: &mut String, t: &String)
    ensures
        final(out)@ == old(out)@ + escaped(t@),
{
    let cs = string_chars(t);
    let mut i: usize = 0;
    assert(cs@.take(0) =~= Seq::<char>::empty());
    while i < cs.len()
        invariant
            i <= cs@.len(),
            cs@ == t@,
            out@ == old(out)@ + escaped(cs@.take(i as int)),
        decreases cs@.len() - i,
    {
        let c = cs[i];
        let ghost before = out@;
        if c == '\\' {
            push_char(out, '\\');
            push_char(out, '\\');
        } else if c == '"' {
            push_char(out, '\\');
            push_char(out, '"');
        } else if c == '\n' {
            push_char(out, '\\');
            push_char(out, 'n');
        } else if c == '\r' {
            push_char(out, '\\');
            push_char(out, 'r');
        } else if c == '\t' {
            push_char(out, '\\');
            push_char(out, 't');
        } else if c == '\0' {
            push_char(out, '\\');
            push_char(out, '0');
        } else {
            push_char(out, c);
        }
        assert(cs@.take(i + 1).drop_last() =~= cs@.take(i as int));
        assert(out@ =~= before + escape_char(c));
        i = i + 1;
    }
    assert(cs@.take(cs@.len() as int) =~= cs@);
}

/// Appends `sci(cs[from..to], e)`, where `e` is `k`, or `-k` if `negative`.
fn push_sci(out: &mut String, cs: &Vec<char>, from: usize, to: usize, negative: bool, k: usize)
    requires
        from < to <= cs@.len(),
    ensures
        final(out)@ == old(out)@ + sci(cs@.subrange(from as int, to as int), if negative { -k } else { k as int }),
{
    let ghost digits = cs@.subrange(from as int, to as int);
    push_char(out, cs[from]);
    if to - from > 1 {
        push_char(out, '.');
        let rest = chars_to_string(cs, from + 1, to);
        out.append(rest.as_str());
        assert(rest@ =~= digits.skip(1));
    }
    out.append("e");
    if negative && k > 0 {
        out.append("-");
    }
    let e = usize_to_string(k);
    out.append(e.as_str());
    proof {
        reveal_strlit(".");
        reveal_strlit("e");
        reveal_strlit("-");
    }
    assert(out@ =~= old(out)@ + sci(digits, if negative { -k } else { k as int }));
}

fn push_debug_number(out: &mut String, t: &String)
    ensures
        final(out)@ == old(out)@ + debug_number(t@),
{
    proof {
        reveal_strlit(".0");
    }
    let n = strip_number(t);
    let cs = string_chars(&n);
    let len = cs.len();
    let mut d: usize = 0;
    while d < len && cs[d] != '.'
        invariant
            d <= len == cs@.len(),
            cs@ == n@,
            dot_pos(cs@, d as nat) == dot_pos(cs@, 0),
            forall|j: int| 0 <= j < d ==> cs@[j] != '.',
        decreases len - d,
    {
        d = d + 1;
    }
    let below_one = d == 0 || (d == 1 && cs[0] == '0');
    if !below_one && d >= 17 {
        let mut all = chars_to_string(&cs, 0, d);
        if d < len {
            let frac = chars_to_string(&cs, d + 1, len);
            all.append(frac.as_str());
        }
        let digs = string_chars(&all);
        let ghost whole = digs@;
        let mut b: usize = digs.len();
        assert(digs@.subrange(0, b as int) =~= whole);
        while b > 0 && digs[b - 1] == '0'
            invariant
                b <= digs@.len(),
                digs@ == whole,
                strip_trailing_zeros(digs@.subrange(0, b as int)) == strip_trailing_zeros(whole),
            decreases b,
        {
            assert(digs@.subrange(0, b as int).drop_last() =~= digs@.subrange(0, b - 1));
            b = b - 1;
        }
        assert(strip_trailing_zeros(digs@.subrange(0, b as int)) == digs@.subrange(0, b as int));
        if b > 0 {
            push_sci(out, &digs, 0, b, false, d - 1);
            return;
        }
    }
    if below_one && d < len {
        let mut z: usize = d + 1;
        while z < len && cs[z] == '0'
            invariant
                d + 1 <= z <= len == cs@.len(),
                nonzero_pos(cs@, z as nat) == nonzero_pos(cs@, (d + 1) as nat),
            decreases len - z,
        {
            z = z + 1;
        }
        if z < len && z >= d + 5 {
            push_sci(out, &cs, z, len, true, z - d);
        } else {
            out.append(n.as_str());
            assert(n@[d as int] == '.');
            assert(n@.contains('.'));
        }
    } else {
        out.append(n.as_str());
        if d == len {
            assert(!n@.contains('.'));
            out.append(".0");
        } else {
            assert(n@[d as int] == '.');
            assert(n@.contains('.'));
        }
    }
}

/// How a token kind is written in messages.
pub open spec fn kind_name(k: Kind) -> Seq<char> {
    match k {
        Kind::LeftParen => "LeftParen"@,
        Kind::RightParen => "RightParen"@,
        Kind::Plus => "Plus"@,
        Kind::Minus => "Minus"@,
        Kind::Slash => "Slash"@,
        Kind::Star => "Star"@,
        Kind::Comma => "Comma"@,
        Kind::Colon => "Colon"@,
        Kind::Equal => "Equal"@,
        Kind::EqualEqual => "EqualEqual"@,
        Kind::BangEqual => "BangEqual"@,
        Kind::Greater => "Greater"@,
        Kind::GreaterEqual => "GreaterEqual"@,
        Kind::Less => "Less"@,
        Kind::LessEqual => "LessEqual"@,
        Kind::Number(t) => "Number("@ + debug_number(t) + ")"@,
        Kind::Str(t) => "String(\""@ + escaped(t) + "\")"@,
        Kind::Identifier(t) => "Identifier(\""@ + escaped(t) + "\")"@,
        Kind::If => "If"@,
        Kind::Else => "Else"@,
        Kind::While => "While"@,
        Kind::Def => "Def"@,
        Kind::Return => "Return"@,
        Kind::True => "True"@,
        Kind::False => "False"@,
        Kind::NoneKeyword => "None"@,
        Kind::And => "And"@,
        Kind::Or => "Or"@,
        Kind::Not => "Not"@,
        Kind::Print => "Print"@,
        Kind::Newline => "Newline"@,
        Kind::Indent => "Indent"@,
        Kind::Dedent => "Dedent"@,
        Kind::Eof => "Eof"@,
    }
}

/// How a token kind is written in messages.
pub fn kind_name_string(k: &TokenKind) -> (s: String)
    ensures
        s@ == kind_name(k@),
{
    match k {
        TokenKind::LeftParen => String::from_str("LeftParen"),
        TokenKind::RightParen => String::from_str("RightParen"),
        TokenKind::Plus => String::from_str("Plus"),
        TokenKind::Minus => String::from_str("Minus"),
        TokenKind::Slash => String::from_str("Slash"),
        TokenKind::Star => String::from_str("Star"),
        TokenKind::Comma => String::from_str("Comma"),
        TokenKind::Colon => String::from_str("Colon"),
        TokenKind::Equal => String::from_str("Equal"),
        TokenKind::EqualEqual => String::from_str("EqualEqual"),
        TokenKind::BangEqual => String::from_str("BangEqual"),
        TokenKind::Greater => String::from_str("Greater"),
        TokenKind::GreaterEqual => String::from_str("GreaterEqual"),
        TokenKind::Less => String::from_str("Less"),
        TokenKind::LessEqual => String::from_str("LessEqual"),
        TokenKind::Number(t) => {
            let mut s = String::from_str("Number(");
            push_debug_number(&mut s, t);
            s.append(")");
            s
        },
        TokenKind::String(t) => {
            let mut s = String::from_str("String(\"");
            push_escaped(&mut s, t);
            s.append("\")");
            s
        },
        TokenKind::Identifier(t) => {
            let mut s = String::from_str("Identifier(\"");
            push_escaped(&mut s, t);
            s.append("\")");
            s
        },
        TokenKind::If => String::from_str("If"),
        TokenKind::Else => String::from_str("Else"),
        TokenKind::While => String::from_str("While"),
        TokenKind::Def => String::from_str("Def"),
        TokenKind::Return => String::from_str("Return"),
        TokenKind::True => String::from_str("True"),
        TokenKind::False => String::from_str("False"),
        TokenKind::NoneKeyword => String::from_str("None"),
        TokenKind::And => String::from_str("And"),
        TokenKind::Or => String::from_str("Or"),
        TokenKind::Not => String::from_str("Not"),
        TokenKind::Print => String::from_str("Print"),
        TokenKind::Newline => String::from_str("Newline"),
        TokenKind::Indent => String::from_str("Indent"),
        TokenKind::Dedent => String::from_str("Dedent"),
        TokenKind::Eof => String::from_str("Eof"),
    }
}

impl Token {
    /// How the token is written: its kind, a space, and its text.
    pub fn to_string(&self) -> (s: String)
        ensures
            s@ == kind_name(self.kind@) + " "@ + self.lexeme@,
    {
        let mut s = kind_name_string(&self.kind);
        s.append(" ");
        s.append(self.lexeme.as_str());
        s
    }
}

} // verus!
