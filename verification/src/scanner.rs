//! The scanner: turns source text into tokens, with Python-style indentation
//! turned into `Indent` and `Dedent` tokens.
use vstd::prelude::*;
use vstd::string::StringExecFns;
use crate::error::CarlaeError;
use crate::text::{chars_to_string, line_tag, line_tag_string, push_char, string_chars};
use crate::token::{Token, TokenKind, tokens_view};
use crate::scan_spec::{
    ScanState, initial_state, is_digit, peek, at, add_token, push_token, digits_end, ident_end,
    comment_end, quote_pos, word_kind, scan_number, scan_string, scan_word, indent_loop,
    calc_indent_level, dedent_loop, indent_dedent, end_logical_line, end_physical_line, scan_one,
    scan_loop, pop_all, end_of_input, scan, char_is_alphanumeric, char_is_whitespace,
};

verus! {

/// Whether a scanning step ended as `out` says: `Ok` where it raised no
/// error, and a scanning error with the message `m` where it raised `m`.
pub open spec fn reports(res: Result<(), CarlaeError>, out: Option<Seq<char>>) -> bool {
    match out {
        Option::None => res is Ok,
        Option::Some(m) => res matches Err(CarlaeError::Scanning(e)) && e@ == m,
    }
}

pub open spec fn stack_view(v: Seq<usize>) -> Seq<nat> {
    v.map_values(|x: usize| x as nat)
}

/// The scanner's state. `chars` holds the characters of `source`.
pub struct Scanner {
    pub source: String,
    pub tokens: Vec<Token>,
    pub start: usize,
    pub current: usize,
    pub line: usize,
    pub open_parens: usize,
    pub indent_stack: Vec<usize>,
    pub indent_char: Option<char>,
    pub blank_line: bool,
    pub chars: Vec<char>,
}

impl View for Scanner {
    type V = ScanState;

    open spec fn view(&self) -> ScanState {
        ScanState {
            src: self.chars@,
            tokens: tokens_view(self.tokens@),
            start: self.start as nat,
            current: self.current as nat,
            line: self.line as nat,
            open_parens: self.open_parens as nat,
            stack: stack_view(self.indent_stack@),
            indent_char: self.indent_char,
            blank_line: self.blank_line,
        }
    }
}

/// Whether a source of this length can be scanned without an index or an
/// indentation width leaving `usize`.
pub open spec fn fits(src: Seq<char>) -> bool {
    8 * src.len() + 2 <= usize::MAX
}

fn scanning_error(line: usize, text: &str) -> (e: CarlaeError)
    ensures
        e matches CarlaeError::Scanning(m) && m@ == line_tag(line as nat) + text@,
{
    let mut m = line_tag_string(line);
    m.append(text);
    CarlaeError::Scanning(m)
}

fn unexpected_character(line: usize, ch: char) -> (e: CarlaeError)
    ensures
        e matches CarlaeError::Scanning(m) && m@ == line_tag(line as nat) + " Unexpected character: "@ + seq![ch],
{
    let mut m = line_tag_string(line);
    m.append(" Unexpected character: ");
    let ghost before = m@;
    push_char(&mut m, ch);
    assert(m@ =~= before + seq![ch]);
    CarlaeError::Scanning(m)
}

fn digit(c: char) -> (r: bool)
    ensures
        r == is_digit(c),
{
    '0' <= c && c <= '9'
}

fn digits_end_at(cs: &Vec<char>, i: usize) -> (r: usize)
    requires
        i <= cs@.len(),
    ensures
        r == digits_end(cs@, i as nat),
        i <= r <= cs@.len(),
{
    let mut j = i;
    while j < cs.len() && digit(cs[j])
        invariant
            i <= j <= cs@.len(),
            digits_end(cs@, j as nat) == digits_end(cs@, i as nat),
        decreases cs@.len() - j,
    {
        j = j + 1;
    }
    j
}

fn ident_end_at(cs: &Vec<char>, i: usize) -> (r: usize)
    requires
        i <= cs@.len(),
    ensures
        r == ident_end(cs@, i as nat),
        i <= r <= cs@.len(),
{
    let mut j = i;
    while j < cs.len() && (char_is_alphanumeric(cs[j]) || cs[j] == '_')
        invariant
            i <= j <= cs@.len(),
            ident_end(cs@, j as nat) == ident_end(cs@, i as nat),
        decreases cs@.len() - j,
    {
        j = j + 1;
    }
    j
}

fn comment_end_at(cs: &Vec<char>, i: usize) -> (r: usize)
    requires
        i <= cs@.len(),
    ensures
        r == comment_end(cs@, i as nat),
        i <= r <= cs@.len(),
{
    let mut j = i;
    while j < cs.len() && cs[j] != '\n' && cs[j] != '\r'
        invariant
            i <= j <= cs@.len(),
            comment_end(cs@, j as nat) == comment_end(cs@, i as nat),
        decreases cs@.len() - j,
    {
        j = j + 1;
    }
    j
}

fn quote_pos_at(cs: &Vec<char>, i: usize) -> (r: usize)
    requires
        i <= cs@.len(),
    ensures
        r == quote_pos(cs@, i as nat),
        i <= r <= cs@.len(),
{
    let mut j = i;
    while j < cs.len() && cs[j] != '"'
        invariant
            i <= j <= cs@.len(),
            quote_pos(cs@, j as nat) == quote_pos(cs@, i as nat),
        decreases cs@.len() - j,
    {
        j = j + 1;
    }
    j
}

fn matches_word(cs: &Vec<char>, from: usize, to: usize, w: &[char]) -> (r: bool)
    requires
        from <= to <= cs@.len(),
    ensures
        r == (cs@.subrange(from as int, to as int) == w@),
{
    if to - from != w.len() {
        return false;
    }
    let mut i: usize = 0;
    while i < w.len()
        invariant
            from <= to <= cs@.len(),
            to - from == w@.len(),
            i <= w@.len(),
            forall|k: int| 0 <= k < i ==> cs@[from + k] == w@[k],
        decreases w@.len() - i,
    {
        if cs[from + i] != w[i] {
            assert(cs@.subrange(from as int, to as int)[i as int] != w@[i as int]);
            return false;
        }
        i = i + 1;
    }
    assert(cs@.subrange(from as int, to as int) =~= w@);
    true
}

/// The kind of the word `cs[from..to]`.
fn word_kind_of(cs: &Vec<char>, from: usize, to: usize) -> (k: TokenKind)
    requires
        from <= to <= cs@.len(),
    ensures
        k@ == word_kind(cs@.subrange(from as int, to as int)),
{
    let ghost w = cs@.subrange(from as int, to as int);
    if matches_word(cs, from, to, &['i', 'f']) {
        assert(['i', 'f']@ == seq!['i', 'f']);
        TokenKind::If
    } else if matches_word(cs, from, to, &['e', 'l', 's', 'e']) {
        TokenKind::Else
    } else if matches_word(cs, from, to, &['w', 'h', 'i', 'l', 'e']) {
        TokenKind::While
    } else if matches_word(cs, from, to, &['d', 'e', 'f']) {
        TokenKind::Def
    } else if matches_word(cs, from, to, &['r', 'e', 't', 'u', 'r', 'n']) {
        TokenKind::Return
    } else if matches_word(cs, from, to, &['T', 'r', 'u', 'e']) {
        TokenKind::True
    } else if matches_word(cs, from, to, &['F', 'a', 'l', 's', 'e']) {
        TokenKind::False
    } else if matches_word(cs, from, to, &['N', 'o', 'n', 'e']) {
        TokenKind::NoneKeyword
    } else if matches_word(cs, from, to, &['a', 'n', 'd']) {
        TokenKind::And
    } else if matches_word(cs, from, to, &['o', 'r']) {
        TokenKind::Or
    } else if matches_word(cs, from, to, &['n', 'o', 't']) {
        TokenKind::Not
    } else if matches_word(cs, from, to, &['p', 'r', 'i', 'n', 't']) {
        TokenKind::Print
    } else {
        TokenKind::Identifier(chars_to_string(cs, from, to))
    }
}


impl Scanner {
    /// The scanner's invariant: the characters are those of the source, the
    /// positions lie within them, the line and the indentation widths cannot
    /// leave `usize`, and the bottom of the indentation stack is level 0.
    pub open spec fn wf(&self) -> bool {
        &&& self.chars@ == self.source@
        &&& self.start <= self.current <= self.chars@.len()
        &&& fits(self.chars@)
        &&& self.line + (self.chars@.len() - self.current) <= usize::MAX
        &&& self.open_parens <= self.current
        &&& self.indent_stack@.len() > 0
        &&& self.indent_stack@[0] == 0
    }

    /// A scanner at the start of `source`.
    pub fn new(source: String) -> (res: Self)
        ensures
            res@ == initial_state(source@),
            res.source == source,
            res.tokens@.len() == 0,
            fits(source@) ==> res.wf(),
    {
        let chars = string_chars(&source);
        let mut indent_stack: Vec<usize> = Vec::new();
        indent_stack.push(0);
        let res = Self {
            source,
            tokens: Vec::new(),
            start: 0,
            current: 0,
            line: 1,
            open_parens: 0,
            indent_stack,
            indent_char: None,
            blank_line: true,
            chars,
        };
        assert(stack_view(res.indent_stack@) =~= seq![0nat]);
        assert(tokens_view(res.tokens@) =~= seq![]);
        res
    }

    /// Whether the source is short enough to be scanned (see `fits`).
    pub fn can_scan(&self) -> (r: bool)
        ensures
            r == fits(self.chars@),
    {
        self.chars.len() <= (usize::MAX - 2) / 8
    }

    /// Scans the whole source. The tokens, and the error if one stops the
    /// scan, are those that `scan` gives for the scanner's state.
    pub fn scan_tokens(&mut self) -> (res: Result<(), CarlaeError>)
        requires
            old(self).wf(),
        ensures
            final(self)@ == scan(old(self)@).0,
            tokens_view(final(self).tokens@) == scan(old(self)@).0.tokens,
            reports(res, scan(old(self)@).1),
            final(self).source@ == old(self).source@,
    {
        let r = self.indent_dedent();
        if r.is_err() {
            return r;
        }
        let ghost s1 = self@;
        while self.current < self.chars.len()
            invariant
                self.wf(),
                self.chars@ == old(self).chars@,
                self.source@ == old(self).source@,
                scan_loop(self@) == scan_loop(s1),
                indent_dedent(old(self)@) == (s1, Option::<Seq<char>>::None),
            decreases self.chars@.len() - self.current,
        {
            self.start = self.current;
            let r = self.scan_one_token();
            if r.is_err() {
                return r;
            }
        }
        self.end_of_input();
        Ok(())
    }

    fn peek_is(&self, c: char) -> (r: bool)
        requires
            self.current <= self.chars@.len(),
        ensures
            r == (peek(self@) == Some(c)),
    {
        self.current < self.chars.len() && self.chars[self.current] == c
    }

    fn add_token(&mut self, kind: TokenKind)
        requires
            old(self).wf(),
        ensures
            final(self).chars@ == old(self).chars@,
            final(self).wf(),
            final(self)@ == add_token(old(self)@, kind@),
            final(self).current == old(self).current,
    {
        self.blank_line = false;
        let text = chars_to_string(&self.chars, self.start, self.current);
        let t = Token::new(kind, text, self.line);
        self.tokens.push(t);
        assert(tokens_view(self.tokens@) =~= tokens_view(old(self).tokens@).push(t@));
    }

    fn push_token(&mut self, kind: TokenKind, text: String)
        requires
            old(self).wf(),
        ensures
            final(self).chars@ == old(self).chars@,
            final(self).wf(),
            final(self)@ == push_token(old(self)@, kind@, text@),
            final(self).source == old(self).source,
    {
        let t = Token::new(kind, text, self.line);
        self.tokens.push(t);
        assert(tokens_view(self.tokens@) =~= tokens_view(old(self).tokens@).push(t@));
    }

    fn number(&mut self)
        requires
            old(self).wf(),
            old(self).start < old(self).current,
        ensures
            final(self).chars@ == old(self).chars@,
            final(self).wf(),
            final(self)@ == scan_number(old(self)@),
            final(self).current >= old(self).current,
    {
        let j = digits_end_at(&self.chars, self.current);
        let k = if j + 1 < self.chars.len() && self.chars[j] == '.' && digit(self.chars[j + 1]) {
            digits_end_at(&self.chars, j + 1)
        } else {
            j
        };
        self.current = k;
        let text = chars_to_string(&self.chars, self.start, k);
        self.add_token(TokenKind::Number(text));
    }

    fn string(&mut self) -> (res: Result<(), CarlaeError>)
        requires
            old(self).wf(),
            old(self).start < old(self).current,
        ensures
            final(self).chars@ == old(self).chars@,
            final(self).wf(),
            final(self)@ == scan_string(old(self)@).0,
            reports(res, scan_string(old(self)@).1),
            final(self).current >= old(self).current,
    {
        let j = quote_pos_at(&self.chars, self.current);
        if j < self.chars.len() {
            self.current = j + 1;
            let text = chars_to_string(&self.chars, self.start + 1, j);
            self.add_token(TokenKind::String(text));
            Ok(())
        } else {
            self.current = j;
            Err(scanning_error(self.line, " Reached end of file unexpectedly"))
        }
    }

    fn identifier(&mut self)
        requires
            old(self).wf(),
            old(self).start < old(self).current,
        ensures
            final(self).chars@ == old(self).chars@,
            final(self).wf(),
            final(self)@ == scan_word(old(self)@),
            final(self).current >= old(self).current,
    {
        let k = ident_end_at(&self.chars, self.current);
        self.current = k;
        let kind = word_kind_of(&self.chars, self.start, k);
        self.add_token(kind);
    }

    fn calc_indent_level(&mut self) -> (res: Result<Option<usize>, CarlaeError>)
        requires
            old(self).wf(),
        ensures
            final(self).chars@ == old(self).chars@,
            final(self).wf(),
            final(self)@ == calc_indent_level(old(self)@).0,
            final(self).current >= old(self).current,
            final(self).start == old(self).start,
            match calc_indent_level(old(self)@).1 {
                Ok(Option::None) => res matches Ok(Option::None),
                Ok(Option::Some(l)) => res matches Ok(Option::Some(x)) && x == l,
                Err(m) => res matches Err(CarlaeError::Scanning(e)) && e@ == m,
            },
    {
        if self.peek_is('\x0C') {
            self.current = self.current + 1;
        }
        if self.indent_char.is_none() {
            if self.peek_is(' ') || self.peek_is('\t') {
                self.indent_char = Some(self.chars[self.current]);
            } else {
                self.indent_char = None;
            }
        }
        let ghost s2 = self@;
        assert(calc_indent_level(old(self)@) == indent_loop(s2, 0));
        let ghost c0 = self.current;
        let mut level: usize = 0;
        loop
            invariant
                self.wf(),
                self@ == at(s2, self.current as nat),
                self.chars@ == old(self).chars@,
                c0 <= self.current <= self.chars@.len(),
                c0 >= old(self).current,
                self.start == old(self).start,
                level <= 8 * (self.current - c0),
                indent_loop(self@, level as nat) == calc_indent_level(old(self)@),
            decreases self.chars@.len() - self.current,
        {
            let ghost here = indent_loop(self@, level as nat);
            if self.current >= self.chars.len() {
                assert(here == (self@, Ok::<Option<nat>, Seq<char>>(Some(level as nat))));
                return Ok(Some(level));
            }
            let id = match self.indent_char {
                Some(id) => id,
                None => {
                    assert(here == (self@, Ok::<Option<nat>, Seq<char>>(Some(level as nat))));
                    return Ok(Some(level));
                },
            };
            let ch = self.chars[self.current];
            if ch == ' ' && id == ' ' {
                self.current = self.current + 1;
                level = level + 1;
            } else if ch == '\t' && id == '\t' {
                self.current = self.current + 1;
                level = level + 8;
            } else if (ch == ' ' || ch == '\t') && ch != id {
                assert(here.0 == self@);
                return Err(scanning_error(self.line, " Input uses mixture of spaces and tabs for indentation"));
            } else if ch == '\x0C' {
                assert(here.0 == self@);
                return Err(scanning_error(self.line, " Formfeed char only permitted at start of line"));
            } else if ch == '\n' || ch == '\r' || ch == '#' {
                assert(here == (self@, Ok::<Option<nat>, Seq<char>>(None)));
                return Ok(None);
            } else {
                assert(here == (self@, Ok::<Option<nat>, Seq<char>>(Some(level as nat))));
                return Ok(Some(level));
            }
        }
    }

    fn stack_contains(&self, level: usize) -> (r: bool)
        ensures
            r == stack_view(self.indent_stack@).contains(level as nat),
    {
        let mut i: usize = 0;
        while i < self.indent_stack.len()
            invariant
                i <= self.indent_stack@.len(),
                forall|k: int| 0 <= k < i ==> self.indent_stack@[k] != level,
            decreases self.indent_stack@.len() - i,
        {
            if self.indent_stack[i] == level {
                assert(stack_view(self.indent_stack@)[i as int] == level as nat);
                return true;
            }
            i = i + 1;
        }
        assert forall|k: int| 0 <= k < stack_view(self.indent_stack@).len() implies
            stack_view(self.indent_stack@)[k] != level as nat by {
            assert(self.indent_stack@[k] != level);
        }
        false
    }

    fn dedent_loop(&mut self, level: usize)
        requires
            old(self).wf(),
        ensures
            final(self).chars@ == old(self).chars@,
            final(self).wf(),
            final(self)@ == dedent_loop(old(self)@, level as nat),
            final(self).current == old(self).current,
            final(self).start == old(self).start,
    {
        while self.indent_stack.len() > 0 && level < self.indent_stack[self.indent_stack.len() - 1]
            invariant
                self.wf(),
                self.current == old(self).current,
                self.start == old(self).start,
                self.chars@ == old(self).chars@,
                dedent_loop(self@, level as nat) == dedent_loop(old(self)@, level as nat),
            decreases self.indent_stack@.len(),
        {
            let ghost before = self@;
            self.indent_stack.pop();
            assert(stack_view(self.indent_stack@) =~= before.stack.drop_last());
            let t = Token::new(TokenKind::Dedent, String::new(), self.line);
            self.tokens.push(t);
            assert(tokens_view(self.tokens@) =~= before.tokens.push(t@));
            assert(self@ == push_token(ScanState { stack: before.stack.drop_last(), ..before }, crate::token::Kind::Dedent, seq![]));
        }
    }

    fn indent_dedent(&mut self) -> (res: Result<(), CarlaeError>)
        requires
            old(self).wf(),
        ensures
            final(self).chars@ == old(self).chars@,
            final(self).wf(),
            final(self)@ == indent_dedent(old(self)@).0,
            reports(res, indent_dedent(old(self)@).1),
            final(self).current >= old(self).current,
    {
        let r = self.calc_indent_level();
        let level = match r {
            Err(e) => {
                return Err(e);
            },
            Ok(None) => {
                return Ok(());
            },
            Ok(Some(l)) => l,
        };
        if self.current >= self.chars.len() {
            return Ok(());
        }
        let last = self.indent_stack[self.indent_stack.len() - 1];
        assert(self@.stack.last() == last as nat);
        if level > last {
            let ghost before = self@;
            self.indent_stack.push(level);
            assert(stack_view(self.indent_stack@) =~= before.stack.push(level as nat));
            let text = chars_to_string(&self.chars, self.start, self.current);
            let t = Token::new(TokenKind::Indent, text, self.line);
            self.tokens.push(t);
            assert(tokens_view(self.tokens@) =~= before.tokens.push(t@));
            Ok(())
        } else if level < last {
            if !self.stack_contains(level) {
                return Err(scanning_error(self.line, " Unexpected indentation level"));
            }
            self.dedent_loop(level);
            Ok(())
        } else {
            Ok(())
        }
    }

    fn end_logical_line(&mut self)
        requires
            old(self).wf(),
        ensures
            final(self).chars@ == old(self).chars@,
            final(self).wf(),
            final(self)@ == end_logical_line(old(self)@),
            final(self).current == old(self).current,
            final(self).start == old(self).start,
            final(self).line == old(self).line,
    {
        self.add_token(TokenKind::Newline);
        self.blank_line = true;
    }

    fn end_physical_line(&mut self, start_offset: usize) -> (res: Result<(), CarlaeError>)
        requires
            old(self).wf(),
            old(self).start + start_offset == old(self).current,
            old(self).line + (old(self).chars@.len() - old(self).current) < usize::MAX,
        ensures
            final(self).chars@ == old(self).chars@,
            final(self).wf(),
            final(self)@ == end_physical_line(old(self)@, start_offset as nat).0,
            reports(res, end_physical_line(old(self)@, start_offset as nat).1),
            final(self).current >= old(self).current,
    {
        if self.open_parens == 0 {
            if !self.blank_line {
                self.end_logical_line();
            }
            self.line = self.line + 1;
            self.start = self.start + start_offset;
            self.indent_dedent()
        } else {
            self.line = self.line + 1;
            Ok(())
        }
    }

    fn scan_one_token(&mut self) -> (res: Result<(), CarlaeError>)
        requires
            old(self).wf(),
            old(self).start == old(self).current,
            old(self).current < old(self).chars@.len(),
        ensures
            final(self).chars@ == old(self).chars@,
            final(self).wf(),
            final(self)@ == scan_one(old(self)@).0,
            reports(res, scan_one(old(self)@).1),
            final(self).current > old(self).current,
    {
        let ch = self.chars[self.current];
        self.current = self.current + 1;
        if ch == '(' {
            self.open_parens = self.open_parens + 1;
            self.add_token(TokenKind::LeftParen);
            Ok(())
        } else if ch == ')' {
            if self.open_parens > 0 {
                self.open_parens = self.open_parens - 1;
            }
            self.add_token(TokenKind::RightParen);
            Ok(())
        } else if ch == '+' {
            self.add_token(TokenKind::Plus);
            Ok(())
        } else if ch == '-' {
            self.add_token(TokenKind::Minus);
            Ok(())
        } else if ch == '*' {
            self.add_token(TokenKind::Star);
            Ok(())
        } else if ch == '/' {
            self.add_token(TokenKind::Slash);
            Ok(())
        } else if ch == ',' {
            self.add_token(TokenKind::Comma);
            Ok(())
        } else if ch == ':' {
            self.add_token(TokenKind::Colon);
            Ok(())
        } else if ch == '=' {
            if self.peek_is('=') {
                self.current = self.current + 1;
                self.add_token(TokenKind::EqualEqual);
            } else {
                self.add_token(TokenKind::Equal);
            }
            Ok(())
        } else if ch == '!' {
            if self.peek_is('=') {
                self.current = self.current + 1;
                self.add_token(TokenKind::BangEqual);
            }
            Ok(())
        } else if ch == '>' {
            if self.peek_is('=') {
                self.current = self.current + 1;
                self.add_token(TokenKind::GreaterEqual);
            } else {
                self.add_token(TokenKind::Greater);
            }
            Ok(())
        } else if ch == '<' {
            if self.peek_is('=') {
                self.current = self.current + 1;
                self.add_token(TokenKind::LessEqual);
            } else {
                self.add_token(TokenKind::Less);
            }
            Ok(())
        } else if digit(ch) {
            self.number();
            Ok(())
        } else if ch == '"' {
            self.string()
        } else if char_is_alphanumeric(ch) || ch == '_' {
            self.identifier();
            Ok(())
        } else if ch == '#' {
            self.current = comment_end_at(&self.chars, self.current);
            Ok(())
        } else if ch == '\n' {
            self.end_physical_line(1)
        } else if ch == '\r' {
            if self.peek_is('\n') {
                self.current = self.current + 1;
                self.end_physical_line(2)
            } else {
                self.end_physical_line(1)
            }
        } else if ch == '\\' {
            let cr = self.peek_is('\r');
            let lf_next = self.current + 1 < self.chars.len() && self.chars[self.current + 1] == '\n';
            if cr && lf_next {
                self.current = self.current + 2;
                self.line = self.line + 1;
                Ok(())
            } else if self.peek_is('\n') || cr {
                self.current = self.current + 1;
                self.line = self.line + 1;
                Ok(())
            } else {
                Err(unexpected_character(self.line, ch))
            }
        } else if char_is_whitespace(ch) {
            Ok(())
        } else {
            Err(unexpected_character(self.line, ch))
        }
    }

    fn end_of_input(&mut self)
        requires
            old(self).wf(),
        ensures
            final(self).chars@ == old(self).chars@,
            final(self).source == old(self).source,
            final(self)@ == end_of_input(old(self)@),
    {
        if !self.blank_line {
            let mut nl = String::new();
            push_char(&mut nl, '\n');
            self.push_token(TokenKind::Newline, nl);
        }
        let ghost s1 = self@;
        loop
            invariant_except_break
                pop_all(self@) == pop_all(s1),
            invariant
                self.chars@ == old(self).chars@,
                self.source == old(self).source,
            ensures
                self@ == pop_all(s1),
            decreases self.indent_stack@.len(),
        {
            let ghost before = self@;
            match self.indent_stack.pop() {
                Some(top) => {
                    assert(stack_view(self.indent_stack@) =~= before.stack.drop_last());
                    if top > 0 {
                        let t = Token::new(TokenKind::Dedent, String::new(), self.line);
                        self.tokens.push(t);
                        assert(tokens_view(self.tokens@) =~= before.tokens.push(t@));
                    } else {
                        break;
                    }
                },
                None => {
                    assert(stack_view(self.indent_stack@) =~= before.stack);
                    break;
                },
            }
        }
        let t = Token::new(TokenKind::Eof, String::new(), self.line);
        let ghost before = self@;
        self.tokens.push(t);
        assert(tokens_view(self.tokens@) =~= before.tokens.push(t@));
    }
}

} // verus!
