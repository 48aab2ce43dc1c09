//! What every scan keeps, and what a successful scan therefore produces:
//! indentation that opens as often as it closes, lines that never go back,
//! and a stream that ends with its one `Eof`.
use vstd::prelude::*;
use crate::token::{Kind, TokenV};
use crate::scan_spec::{
    ScanState, initial_state, at, add_token, push_token, word_kind, indent_loop,
    calc_indent_level, dedent_loop, indent_dedent, end_logical_line, end_physical_line,
    scan_one, scan_loop, pop_all, end_of_input, scan_source, peek, is_digit, digits_end,
    quote_pos, is_ident_char, ident_end,
};
use crate::parse_spec::ends_with_eof;

verus! {

/// The number of `Indent` tokens in `ts`.
pub open spec fn indents(ts: Seq<TokenV>) -> int
    decreases ts.len(),
{
    if ts.len() == 0 {
        0
    } else {
        indents(ts.drop_last()) + if ts.last().kind is Indent { 1int } else { 0int }
    }
}

/// The number of `Dedent` tokens in `ts`.
pub open spec fn dedents(ts: Seq<TokenV>) -> int
    decreases ts.len(),
{
    if ts.len() == 0 {
        0
    } else {
        dedents(ts.drop_last()) + if ts.last().kind is Dedent { 1int } else { 0int }
    }
}

/// Whether the lines of `ts` start at 1, never go back, and do not pass `line`.
pub open spec fn lines_ordered(ts: Seq<TokenV>, line: nat) -> bool {
    &&& forall|i: int| 0 <= i < ts.len() ==> 1 <= #[trigger] ts[i].line <= line
    &&& forall|i: int, j: int| 0 <= i < j < ts.len() ==> #[trigger] ts[i].line <= #[trigger] ts[j].line
}

/// Every prefix of `ts` opens at least as many blocks as it closes.
pub open spec fn prefixes_balanced(ts: Seq<TokenV>) -> bool {
    forall|k: int| 0 <= k <= ts.len() ==> indents(#[trigger] ts.take(k)) >= dedents(ts.take(k))
}

pub open spec fn no_eof(ts: Seq<TokenV>) -> bool {
    forall|i: int| 0 <= i < ts.len() ==> !(#[trigger] ts[i].kind is Eof)
}

pub open spec fn is_layout(k: Kind) -> bool {
    k is Indent || k is Dedent
}

/// The kind of the last token of `ts` that is not `Indent` or `Dedent`.
pub open spec fn last_logical(ts: Seq<TokenV>) -> Option<Kind>
    decreases ts.len(),
{
    if ts.len() == 0 {
        None
    } else if is_layout(ts.last().kind) {
        last_logical(ts.drop_last())
    } else {
        Some(ts.last().kind)
    }
}

/// Whether every `Newline` of `ts` ends a line that holds a token: the last
/// token before it, `Indent` and `Dedent` aside, exists and is no `Newline`.
pub open spec fn newlines_end_lines(ts: Seq<TokenV>) -> bool {
    forall|i: int| 0 <= i < ts.len() && #[trigger] ts[i].kind is Newline ==>
        (last_logical(ts.take(i)) matches Some(k) && !(k is Newline))
}

/// The levels of the open blocks: level 0 at the bottom, each deeper than the one below.
pub open spec fn stack_ok(st: Seq<nat>) -> bool {
    &&& st.len() > 0
    &&& st[0] == 0
    &&& forall|i: int, j: int| 0 <= i < j < st.len() ==> #[trigger] st[i] < #[trigger] st[j]
}

/// What holds of every state of a scan that has not ended.
pub open spec fn scan_inv(s: ScanState) -> bool {
    &&& stack_ok(s.stack)
    &&& indents(s.tokens) - dedents(s.tokens) == s.stack.len() - 1
    &&& prefixes_balanced(s.tokens)
    &&& s.line >= 1
    &&& lines_ordered(s.tokens, s.line)
    &&& no_eof(s.tokens)
    &&& newlines_end_lines(s.tokens)
    &&& s.blank_line == (last_logical(s.tokens) is None || last_logical(s.tokens) == Some(Kind::Newline))
}

pub open spec fn structural(k: Kind) -> bool {
    k is Indent || k is Dedent || k is Eof
}

proof fn lemma_counts_push(ts: Seq<TokenV>, t: TokenV)
    ensures
        indents(ts.push(t)) == indents(ts) + if t.kind is Indent { 1int } else { 0int },
        dedents(ts.push(t)) == dedents(ts) + if t.kind is Dedent { 1int } else { 0int },
        last_logical(ts.push(t)) == if is_layout(t.kind) { last_logical(ts) } else { Some(t.kind) },
        newlines_end_lines(ts) && (t.kind is Newline ==> (last_logical(ts) matches Some(k) && !(k is Newline)))
            ==> newlines_end_lines(ts.push(t)),
        prefixes_balanced(ts) && (t.kind is Dedent ==> indents(ts) > dedents(ts))
            ==> prefixes_balanced(ts.push(t)),
{
    let ts2 = ts.push(t);
    assert(ts2.drop_last() =~= ts);
    if prefixes_balanced(ts) && (t.kind is Dedent ==> indents(ts) > dedents(ts)) {
        assert forall|k: int| 0 <= k <= ts2.len() implies indents(#[trigger] ts2.take(k)) >= dedents(ts2.take(k)) by {
            if k <= ts.len() {
                assert(ts2.take(k) =~= ts.take(k));
            } else {
                assert(ts2.take(k) =~= ts2);
                assert(ts.take(ts.len() as int) =~= ts);
            }
        }
    }
    if newlines_end_lines(ts) && (t.kind is Newline ==> (last_logical(ts) matches Some(k) && !(k is Newline))) {
        assert forall|i: int| 0 <= i < ts2.len() && #[trigger] ts2[i].kind is Newline implies
            (last_logical(ts2.take(i)) matches Some(k) && !(k is Newline)) by {
            if i < ts.len() {
                assert(ts2.take(i) =~= ts.take(i));
                assert(ts[i].kind is Newline);
            } else {
                assert(ts2.take(i) =~= ts);
            }
        }
    }
}

proof fn lemma_add_regular(s: ScanState, k: Kind)
    requires
        scan_inv(s),
        !structural(k),
        !(k is Newline),
    ensures
        scan_inv(add_token(s, k)),
{
    let t = TokenV { kind: k, lexeme: s.src.subrange(s.start as int, s.current as int), line: s.line };
    lemma_counts_push(s.tokens, t);
    let s2 = add_token(s, k);
    assert(lines_ordered(s2.tokens, s2.line));
    assert(no_eof(s2.tokens));
}

proof fn lemma_end_logical_line(s: ScanState)
    requires
        scan_inv(s),
        !s.blank_line,
    ensures
        scan_inv(end_logical_line(s)),
{
    let t = TokenV { kind: Kind::Newline, lexeme: s.src.subrange(s.start as int, s.current as int), line: s.line };
    lemma_counts_push(s.tokens, t);
    let s2 = end_logical_line(s);
    assert(lines_ordered(s2.tokens, s2.line));
    assert(no_eof(s2.tokens));
}

proof fn lemma_word_plain(w: Seq<char>)
    ensures
        !structural(word_kind(w)),
{
}

proof fn lemma_indent_loop(s: ScanState, level: nat)
    requires
        scan_inv(s),
    ensures
        scan_inv(indent_loop(s, level).0),
    decreases s.src.len() - s.current,
{
    match (peek(s), s.indent_char) {
        (Some(ch), Some(id)) => {
            if (ch == ' ' && id == ' ') {
                lemma_indent_loop(at(s, s.current + 1), level + 1);
            } else if ch == '\t' && id == '\t' {
                lemma_indent_loop(at(s, s.current + 1), level + 8);
            }
        },
        _ => {},
    }
}

proof fn lemma_dedent_loop(s: ScanState, level: nat)
    requires
        scan_inv(s),
    ensures
        scan_inv(dedent_loop(s, level)),
    decreases s.stack.len(),
{
    if s.stack.len() > 0 && level < s.stack.last() {
        let s1 = ScanState { stack: s.stack.drop_last(), ..s };
        let s2 = push_token(s1, Kind::Dedent, seq![]);
        lemma_counts_push(s.tokens, TokenV { kind: Kind::Dedent, lexeme: seq![], line: s.line });
        assert(s.stack.len() > 1);
        assert(stack_ok(s2.stack));
        assert(lines_ordered(s2.tokens, s2.line));
        assert(no_eof(s2.tokens));
        lemma_dedent_loop(s2, level);
    }
}

proof fn lemma_indent_dedent(s: ScanState)
    requires
        scan_inv(s),
    ensures
        scan_inv(indent_dedent(s).0),
{
    let s0 = if peek(s) == Some('\x0C') { at(s, s.current + 1) } else { s };
    let s00 = if s0.indent_char is None {
        ScanState {
            indent_char: if peek(s0) == Some(' ') || peek(s0) == Some('\t') { peek(s0) } else { None },
            ..s0
        }
    } else {
        s0
    };
    lemma_indent_loop(s00, 0);
    let (s1, r) = calc_indent_level(s);
    match r {
        Ok(Some(level)) => {
            if peek(s1) is None {
            } else if level > s1.stack.last() {
                let s2 = push_token(ScanState { stack: s1.stack.push(level), ..s1 }, Kind::Indent, s1.src.subrange(s1.start as int, s1.current as int));
                lemma_counts_push(s1.tokens, TokenV { kind: Kind::Indent, lexeme: s1.src.subrange(s1.start as int, s1.current as int), line: s1.line });
                assert forall|i: int, j: int| 0 <= i < j < s2.stack.len() implies #[trigger] s2.stack[i] < #[trigger] s2.stack[j] by {
                    if j == s1.stack.len() {
                        if i < s1.stack.len() - 1 {
                            assert(s1.stack[i] < s1.stack[s1.stack.len() - 1]);
                        }
                    }
                }
                assert(stack_ok(s2.stack));
                assert(lines_ordered(s2.tokens, s2.line));
                assert(no_eof(s2.tokens));
            } else if level < s1.stack.last() {
                if s1.stack.contains(level) {
                    lemma_dedent_loop(s1, level);
                }
            }
        },
        _ => {},
    }
}

proof fn lemma_end_physical_line(s: ScanState, off: nat)
    requires
        scan_inv(s),
    ensures
        scan_inv(end_physical_line(s, off).0),
{
    if s.open_parens == 0 {
        let s1 = if !s.blank_line {
            lemma_end_logical_line(s);
            end_logical_line(s)
        } else {
            s
        };
        let s2 = ScanState { line: s1.line + 1, start: s1.start + off, ..s1 };
        assert(lines_ordered(s2.tokens, s2.line));
        lemma_indent_dedent(s2);
    } else {
        let s2 = ScanState { line: s.line + 1, ..s };
        assert(lines_ordered(s2.tokens, s2.line));
    }
}

proof fn lemma_scan_one(s: ScanState)
    requires
        scan_inv(s),
    ensures
        scan_inv(scan_one(s).0),
{
    if s.current < s.src.len() {
        let ch = s.src[s.current as int];
        let s1 = at(s, s.current + 1);
        let n: nat = if s1.open_parens > 0 { (s1.open_parens - 1) as nat } else { 0 };
        let s2 = at(s1, s1.current + 1);
        lemma_add_regular(ScanState { open_parens: s1.open_parens + 1, ..s1 }, Kind::LeftParen);
        lemma_add_regular(ScanState { open_parens: n, ..s1 }, Kind::RightParen);
        lemma_add_regular(s1, Kind::Plus);
        lemma_add_regular(s1, Kind::Minus);
        lemma_add_regular(s1, Kind::Star);
        lemma_add_regular(s1, Kind::Slash);
        lemma_add_regular(s1, Kind::Comma);
        lemma_add_regular(s1, Kind::Colon);
        lemma_add_regular(s1, Kind::Equal);
        lemma_add_regular(s2, Kind::EqualEqual);
        lemma_add_regular(s2, Kind::BangEqual);
        lemma_add_regular(s1, Kind::Greater);
        lemma_add_regular(s2, Kind::GreaterEqual);
        lemma_add_regular(s1, Kind::Less);
        lemma_add_regular(s2, Kind::LessEqual);
        if is_digit(ch) {
            let j = digits_end(s1.src, s1.current);
            let k = if j + 1 < s1.src.len() && s1.src[j as int] == '.' && is_digit(s1.src[j + 1 as int]) {
                digits_end(s1.src, j + 1)
            } else {
                j
            };
            lemma_add_regular(at(s1, k), Kind::Number(s1.src.subrange(s1.start as int, k as int)));
        } else if ch == '"' {
            let j = quote_pos(s1.src, s1.current);
            lemma_add_regular(at(s1, j + 1), Kind::Str(s1.src.subrange(s1.start + 1 as int, j as int)));
        } else if is_ident_char(ch) {
            let k = ident_end(s1.src, s1.current);
            lemma_word_plain(s1.src.subrange(s1.start as int, k as int));
            lemma_add_regular(at(s1, k), word_kind(s1.src.subrange(s1.start as int, k as int)));
        } else if ch == '#' {
        } else if ch == '\n' {
            lemma_end_physical_line(s1, 1);
        } else if ch == '\r' {
            lemma_end_physical_line(s2, 2);
            lemma_end_physical_line(s1, 1);
        } else if ch == '\\' {
            let s3 = ScanState { current: s1.current + 2, line: s1.line + 1, ..s1 };
            let s4 = ScanState { current: s1.current + 1, line: s1.line + 1, ..s1 };
            assert(lines_ordered(s3.tokens, s3.line));
            assert(lines_ordered(s4.tokens, s4.line));
        }
    }
}

proof fn lemma_scan_loop(s: ScanState)
    requires
        scan_inv(s),
    ensures
        scan_inv(scan_loop(s).0),
    decreases s.src.len() - s.current,
{
    if s.current < s.src.len() {
        let s0 = ScanState { start: s.current, ..s };
        lemma_scan_one(s0);
        let (s1, r) = scan_one(s0);
        if r is None && s1.src == s.src && s.current < s1.current <= s.src.len() {
            lemma_scan_loop(s1);
        }
    }
}

proof fn lemma_pop_all(s: ScanState)
    requires
        stack_ok(s.stack),
        indents(s.tokens) - dedents(s.tokens) == s.stack.len() - 1,
        prefixes_balanced(s.tokens),
        s.line >= 1,
        lines_ordered(s.tokens, s.line),
        no_eof(s.tokens),
        newlines_end_lines(s.tokens),
    ensures
        indents(pop_all(s).tokens) == dedents(pop_all(s).tokens),
        prefixes_balanced(pop_all(s).tokens),
        lines_ordered(pop_all(s).tokens, s.line),
        no_eof(pop_all(s).tokens),
        newlines_end_lines(pop_all(s).tokens),
        pop_all(s).line == s.line,
    decreases s.stack.len(),
{
    if s.stack.last() > 0 {
        let s1 = ScanState { stack: s.stack.drop_last(), ..s };
        let s2 = push_token(s1, Kind::Dedent, seq![]);
        lemma_counts_push(s.tokens, TokenV { kind: Kind::Dedent, lexeme: seq![], line: s.line });
        assert(s.stack.len() > 1);
        assert(stack_ok(s2.stack));
        assert(lines_ordered(s2.tokens, s2.line));
        assert(no_eof(s2.tokens));
        lemma_pop_all(s2);
    } else {
        if s.stack.len() > 1 {
            assert(s.stack[0] < s.stack[s.stack.len() - 1]);
        }
    }
}

/// What a successful scan of `src` produces: its last token is `Eof` and
/// no other is; as many blocks are opened (`Indent`) as closed (`Dedent`),
/// and no block is closed before it was opened;
/// line numbers start at 1 and never go back; and every `Newline` ends a
/// line that holds a token, so blank and comment-only lines give none.
pub proof fn law_scan_output(src: Seq<char>)
    ensures
        scan_source(src) matches Ok(ts) ==> {
            &&& ts.len() > 0
            &&& ts.last().kind is Eof
            &&& no_eof(ts.drop_last())
            &&& indents(ts) == dedents(ts)
            &&& prefixes_balanced(ts)
            &&& lines_ordered(ts, ts.last().line)
            &&& newlines_end_lines(ts)
        },
{
    let s0 = initial_state(src);
    assert(stack_ok(s0.stack));
    assert(s0.tokens =~= seq![]);
    assert(scan_inv(s0));
    lemma_indent_dedent(s0);
    let (s1, r1) = indent_dedent(s0);
    if r1 is None {
        lemma_scan_loop(s1);
        let (s2, r2) = scan_loop(s1);
        if r2 is None {
            let s3 = if !s2.blank_line { push_token(s2, Kind::Newline, seq!['\n']) } else { s2 };
            if !s2.blank_line {
                lemma_counts_push(s2.tokens, TokenV { kind: Kind::Newline, lexeme: seq!['\n'], line: s2.line });
                assert(lines_ordered(s3.tokens, s3.line));
                assert(no_eof(s3.tokens));
            }
            lemma_pop_all(s3);
            let s4 = pop_all(s3);
            let ts = s4.tokens.push(TokenV { kind: Kind::Eof, lexeme: seq![], line: s4.line });
            lemma_counts_push(s4.tokens, TokenV { kind: Kind::Eof, lexeme: seq![], line: s4.line });
            assert(ts.drop_last() =~= s4.tokens);
            assert(lines_ordered(ts, ts.last().line));
            assert(end_of_input(s2).tokens == ts);
        }
    }
}

/// The scanner's output is input the parser accepts: a successful scan ends
/// with `Eof`.
pub proof fn law_scan_feeds_parser(src: Seq<char>)
    ensures
        scan_source(src) matches Ok(ts) ==> ends_with_eof(ts),
{
    law_scan_output(src);
}

/// An identifier takes in every identifier character that follows its
/// start: every character from `i` up to `ident_end(src, i)` is a letter, a
/// digit, `_` or another alphanumeric character, and the character there,
/// if any, is none of these; in particular an ASCII letter, digit or `_`
/// never ends an identifier.
pub proof fn law_identifier_is_maximal(src: Seq<char>, i: nat)
    requires
        i <= src.len(),
    ensures
        i <= ident_end(src, i) <= src.len(),
        forall|k: int| i <= k < ident_end(src, i) ==> is_ident_char(#[trigger] src[k]),
        ident_end(src, i) < src.len() ==> !is_ident_char(src[ident_end(src, i) as int]),
        ident_end(src, i) < src.len() ==> ({
            let c = src[ident_end(src, i) as int];
            !('a' <= c && c <= 'z') && !('A' <= c && c <= 'Z') && !('0' <= c && c <= '9') && c != '_'
        }),
    decreases src.len() - i,
{
    if i < src.len() && is_ident_char(src[i as int]) {
        law_identifier_is_maximal(src, i + 1);
    }
}

} // verus!
