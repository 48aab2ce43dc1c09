//! What the parser computes: a recursive-descent reading of a token
//! sequence, stated over positions in it.
//!
//! Each function takes the position of the next token and gives the position
//! after what it read, with what it built or the message of its error.
//! Expressions, from the loosest binding to the tightest:
//! `not`, `== !=`, `> >= < <=`, `+ -`, `* /`, unary `-`, literals, variables
//! and parenthesised expressions. The binary operators associate to the left.
use vstd::prelude::*;
use crate::text::line_tag;
use crate::token::{Kind, TokenV, kind_name};
use crate::expr::{ExprV, LitV};
use crate::stmt::{StmtV, PrintMode};

verus! {

pub open spec fn msg_invalid_token(t: TokenV) -> Seq<char> {
    line_tag(t.line) + " Invalid token "@ + kind_name(t.kind)
}

pub open spec fn msg_missing_paren(prev: TokenV) -> Seq<char> {
    line_tag(prev.line) + " Missing `)` after "@ + kind_name(prev.kind)
}

pub open spec fn msg_if_colon(line: nat) -> Seq<char> {
    line_tag(line) + " If statement missing `:` after condition"@
}

pub open spec fn msg_else_colon(line: nat) -> Seq<char> {
    line_tag(line) + " If statement missing `:` after else"@
}

pub open spec fn msg_while_colon(line: nat) -> Seq<char> {
    line_tag(line) + " While statement missing `:` after condition"@
}

pub open spec fn msg_assignment(line: nat) -> Seq<char> {
    line_tag(line) + ": Invalid syntax for variable declaration"@
}

pub open spec fn msg_print(line: nat) -> Seq<char> {
    line_tag(line) + " Invalid syntax for print statement"@
}

pub open spec fn msg_expression_newline(line: nat) -> Seq<char> {
    line_tag(line) + " Missing newline after expression statement"@
}

/// Whether the token stream ends with `Eof`, as the parser needs.
pub open spec fn ends_with_eof(ts: Seq<TokenV>) -> bool {
    ts.len() > 0 && ts.last().kind is Eof
}

/// The position after the token at `p`; `Eof` is never passed.
pub open spec fn adv(ts: Seq<TokenV>, p: nat) -> nat {
    if p < ts.len() && !(ts[p as int].kind is Eof) {
        p + 1
    } else {
        p
    }
}

/// Whether the token at `p` exists and satisfies `f`.
pub open spec fn kind_is(ts: Seq<TokenV>, p: nat, f: spec_fn(Kind) -> bool) -> bool {
    p < ts.len() && f(ts[p as int].kind)
}

/// The operators of the binary precedence levels: 4 for `== !=`,
/// 3 for `> >= < <=`, 2 for `- +` and 1 for `/ *`.
pub open spec fn is_binary_op(level: nat, k: Kind) -> bool {
    if level >= 4 {
        k is BangEqual || k is EqualEqual
    } else if level == 3 {
        k is Greater || k is GreaterEqual || k is Less || k is LessEqual
    } else if level == 2 {
        k is Minus || k is Plus
    } else {
        k is Slash || k is Star
    }
}

pub open spec fn p_primary(ts: Seq<TokenV>, p: nat) -> (nat, Result<ExprV, Seq<char>>)
    decreases ts.len() - p, 0nat,
{
    if p >= ts.len() {
        (p, Err(seq![]))
    } else {
        let t = ts[p as int];
        match t.kind {
            Kind::Number(n) => (adv(ts, p), Ok(ExprV::Literal(LitV::Number(n)))),
            Kind::Str(s) => (adv(ts, p), Ok(ExprV::Literal(LitV::Str(s)))),
            Kind::True => (adv(ts, p), Ok(ExprV::Literal(LitV::Boolean(true)))),
            Kind::False => (adv(ts, p), Ok(ExprV::Literal(LitV::Boolean(false)))),
            Kind::NoneKeyword => (adv(ts, p), Ok(ExprV::Literal(LitV::NoneValue))),
            Kind::Identifier(_) => (adv(ts, p), Ok(ExprV::Variable(t))),
            Kind::LeftParen => p_grouping(ts, p + 1),
            _ => (p, Err(msg_invalid_token(t))),
        }
    }
}

/// A parenthesised expression; `p` is just past the `(`.
pub open spec fn p_grouping(ts: Seq<TokenV>, p: nat) -> (nat, Result<ExprV, Seq<char>>)
    decreases ts.len() - p, 13nat,
{
    let (p1, r) = p_not(ts, p);
    match r {
        Err(m) => (p1, Err(m)),
        Ok(e) => {
            if p1 < ts.len() && ts[p1 as int].kind is RightParen {
                (adv(ts, p1), Ok(ExprV::Grouping(Box::new(e))))
            } else if p1 > 0 {
                (p1, Err(msg_missing_paren(ts[p1 - 1])))
            } else {
                (p1, Err(seq![]))
            }
        },
    }
}

pub open spec fn p_unary(ts: Seq<TokenV>, p: nat) -> (nat, Result<ExprV, Seq<char>>)
    decreases ts.len() - p, 1nat,
{
    if p < ts.len() && ts[p as int].kind is Minus {
        let (p1, r) = p_unary(ts, p + 1);
        match r {
            Err(m) => (p1, Err(m)),
            Ok(e) => (p1, Ok(ExprV::Unary { operator: ts[p as int], right: Box::new(e) })),
        }
    } else {
        p_primary(ts, p)
    }
}

/// The operand of the binary level `level`: the next tighter level.
pub open spec fn p_operand(level: nat, ts: Seq<TokenV>, p: nat) -> (nat, Result<ExprV, Seq<char>>)
    decreases ts.len() - p, 2 * level + 2,
{
    if level <= 1 {
        p_unary(ts, p)
    } else {
        p_binary((level - 1) as nat, ts, p)
    }
}

/// A left-associative chain of operands joined by the operators of `level`.
pub open spec fn p_binary(level: nat, ts: Seq<TokenV>, p: nat) -> (nat, Result<ExprV, Seq<char>>)
    decreases ts.len() - p, 2 * level + 3,
{
    let (p1, r) = p_operand(level, ts, p);
    match r {
        Err(m) => (p1, Err(m)),
        Ok(e) => {
            if p <= p1 <= ts.len() {
                p_binary_rest(level, ts, e, p1)
            } else {
                (p1, Ok(e))
            }
        },
    }
}

/// The rest of a chain at `level`, after the operands read so far, which make `left`.
pub open spec fn p_binary_rest(level: nat, ts: Seq<TokenV>, left: ExprV, p: nat) -> (nat, Result<ExprV, Seq<char>>)
    decreases ts.len() - p, 2 * level + 2,
{
    if p < ts.len() && is_binary_op(level, ts[p as int].kind) {
        let (p2, r) = p_operand(level, ts, p + 1);
        match r {
            Err(m) => (p2, Err(m)),
            Ok(right) => {
                let e = ExprV::Binary { left: Box::new(left), operator: ts[p as int], right: Box::new(right) };
                if p + 1 <= p2 <= ts.len() {
                    p_binary_rest(level, ts, e, p2)
                } else {
                    (p2, Ok(e))
                }
            },
        }
    } else {
        (p, Ok(left))
    }
}

/// An expression: `not` binds loosest, then the binary levels.
pub open spec fn p_not(ts: Seq<TokenV>, p: nat) -> (nat, Result<ExprV, Seq<char>>)
    decreases ts.len() - p, 12nat,
{
    if p < ts.len() && ts[p as int].kind is Not {
        let (p1, r) = p_not(ts, p + 1);
        match r {
            Err(m) => (p1, Err(m)),
            Ok(e) => (p1, Ok(ExprV::Unary { operator: ts[p as int], right: Box::new(e) })),
        }
    } else {
        p_binary(4, ts, p)
    }
}

/// An expression statement, ended by a `Newline`.
pub open spec fn p_expression_stmt(ts: Seq<TokenV>, p: nat, line: nat) -> (nat, Result<StmtV, Seq<char>>) {
    let (p1, r) = p_not(ts, p);
    match r {
        Err(m) => (p1, Err(m)),
        Ok(e) => {
            if p1 < ts.len() && ts[p1 as int].kind is Newline {
                (adv(ts, p1), Ok(StmtV::Expression(e)))
            } else {
                (p1, Err(msg_expression_newline(line)))
            }
        },
    }
}

/// The value of an assignment to `name`, ended by a `Newline`.
pub open spec fn p_assignment(ts: Seq<TokenV>, p: nat, name: TokenV) -> (nat, Result<StmtV, Seq<char>>) {
    let (p1, r) = p_not(ts, p);
    match r {
        Err(m) => (p1, Err(m)),
        Ok(e) => {
            if p1 < ts.len() && ts[p1 as int].kind is Newline {
                (adv(ts, p1), Ok(StmtV::Variable { name, initializer: e }))
            } else {
                (p1, Err(msg_assignment(name.line)))
            }
        },
    }
}

/// The `, expr` items of a `print` statement after `exprs`; a comma right
/// before the `Newline` keeps the output line open.
pub open spec fn p_print_rest(ts: Seq<TokenV>, q: nat, exprs: Seq<ExprV>) -> (nat, Result<(Seq<ExprV>, PrintMode), Seq<char>>)
    decreases ts.len() - q,
{
    if q < ts.len() && ts[q as int].kind is Comma {
        let q1 = q + 1;
        if q1 < ts.len() && ts[q1 as int].kind is Newline {
            (q1, Ok((exprs, PrintMode::NoNewline)))
        } else {
            let (q2, r) = p_not(ts, q1);
            match r {
                Err(m) => (q2, Err(m)),
                Ok(e) => {
                    if q1 < q2 <= ts.len() {
                        p_print_rest(ts, q2, exprs.push(e))
                    } else {
                        (q2, Err(seq![]))
                    }
                },
            }
        }
    } else {
        (q, Ok((exprs, PrintMode::FinalNewline)))
    }
}

/// A `print` statement; `p` is just past `print`.
pub open spec fn p_print(ts: Seq<TokenV>, p: nat, line: nat) -> (nat, Result<StmtV, Seq<char>>) {
    let (p1, r0) = if p < ts.len() && ts[p as int].kind is Newline {
        (p, Ok(Seq::<ExprV>::empty()))
    } else {
        let (p1, r) = p_not(ts, p);
        match r {
            Err(m) => (p1, Err(m)),
            Ok(e) => (p1, Ok(seq![e])),
        }
    };
    match r0 {
        Err(m) => (p1, Err(m)),
        Ok(es) => {
            let (p2, r) = p_print_rest(ts, p1, es);
            match r {
                Err(m) => (p2, Err(m)),
                Ok((es2, mode)) => {
                    if p2 < ts.len() && ts[p2 as int].kind is Newline {
                        (adv(ts, p2), Ok(StmtV::Print { exprs: es2, mode }))
                    } else {
                        (p2, Err(msg_print(line)))
                    }
                },
            }
        },
    }
}

/// A simple statement: an assignment, a `print` or an expression.
pub open spec fn p_simple(ts: Seq<TokenV>, p: nat) -> (nat, Result<StmtV, Seq<char>>) {
    if p >= ts.len() {
        (p, Err(seq![]))
    } else {
        let t = ts[p as int];
        if t.kind is Identifier && p + 1 < ts.len() && ts[p + 1 as int].kind is Equal {
            p_assignment(ts, p + 2, t)
        } else if t.kind is Print {
            p_print(ts, p + 1, t.line)
        } else {
            p_expression_stmt(ts, p, t.line)
        }
    }
}

pub open spec fn p_statement(ts: Seq<TokenV>, p: nat) -> (nat, Result<StmtV, Seq<char>>)
    decreases ts.len() - p, 5nat,
{
    if p < ts.len() && (ts[p as int].kind is If || ts[p as int].kind is While) {
        p_compound(ts, p)
    } else {
        p_simple(ts, p)
    }
}

pub open spec fn p_compound(ts: Seq<TokenV>, p: nat) -> (nat, Result<StmtV, Seq<char>>)
    decreases ts.len() - p, 4nat,
{
    if p >= ts.len() {
        (p, Err(seq![]))
    } else {
        let t = ts[p as int];
        if t.kind is If {
            p_if(ts, p + 1, t.line)
        } else if t.kind is While {
            p_while(ts, p + 1, t.line)
        } else {
            p_expression_stmt(ts, p, t.line)
        }
    }
}

/// An `if` statement; `p` is just past `if`.
pub open spec fn p_if(ts: Seq<TokenV>, p: nat, line: nat) -> (nat, Result<StmtV, Seq<char>>)
    decreases ts.len() - p, 0nat,
{
    let (p1, r) = p_not(ts, p);
    match r {
        Err(m) => (p1, Err(m)),
        Ok(c) => {
            if !(p1 < ts.len() && ts[p1 as int].kind is Colon) {
                (p1, Err(msg_if_colon(line)))
            } else if !(p < p1 + 1 <= ts.len()) {
                (p1 + 1, Err(seq![]))
            } else {
                let (p3, r3) = p_suite(ts, p1 + 1);
                match r3 {
                    Err(m) => (p3, Err(m)),
                    Ok(then_branch) => {
                        if p3 < ts.len() && ts[p3 as int].kind is Else {
                            let p4 = p3 + 1;
                            if !(p4 < ts.len() && ts[p4 as int].kind is Colon) {
                                (p4, Err(msg_else_colon(line)))
                            } else if !(p < p4 + 1 <= ts.len()) {
                                (p4 + 1, Err(seq![]))
                            } else {
                                let (p6, r6) = p_suite(ts, p4 + 1);
                                match r6 {
                                    Err(m) => (p6, Err(m)),
                                    Ok(els) => (p6, Ok(StmtV::If { cond: c, then_branch, else_branch: Some(els) })),
                                }
                            }
                        } else {
                            (p3, Ok(StmtV::If { cond: c, then_branch, else_branch: None }))
                        }
                    },
                }
            }
        },
    }
}

/// A `while` statement; `p` is just past `while`.
pub open spec fn p_while(ts: Seq<TokenV>, p: nat, line: nat) -> (nat, Result<StmtV, Seq<char>>)
    decreases ts.len() - p, 0nat,
{
    let (p1, r) = p_not(ts, p);
    match r {
        Err(m) => (p1, Err(m)),
        Ok(c) => {
            if !(p1 < ts.len() && ts[p1 as int].kind is Colon) {
                (p1, Err(msg_while_colon(line)))
            } else if !(p < p1 + 1 <= ts.len()) {
                (p1 + 1, Err(seq![]))
            } else {
                let (p3, r3) = p_suite(ts, p1 + 1);
                match r3 {
                    Err(m) => (p3, Err(m)),
                    Ok(body) => (p3, Ok(StmtV::While { cond: c, body })),
                }
            }
        },
    }
}

/// The statements of a block: an indented block after a `Newline`, or one
/// simple statement on the same line.
pub open spec fn p_suite(ts: Seq<TokenV>, p: nat) -> (nat, Result<Seq<StmtV>, Seq<char>>)
    decreases ts.len() - p, 3nat,
{
    if p + 1 < ts.len() && ts[p as int].kind is Newline && ts[p + 1 as int].kind is Indent {
        p_suite_body(ts, p + 2, seq![])
    } else {
        let (p1, r) = p_simple(ts, p);
        match r {
            Err(m) => (p1, Err(m)),
            Ok(s) => (p1, Ok(seq![s])),
        }
    }
}

/// The statements of an indented block after `acc`, up to its `Dedent`.
pub open spec fn p_suite_body(ts: Seq<TokenV>, q: nat, acc: Seq<StmtV>) -> (nat, Result<Seq<StmtV>, Seq<char>>)
    decreases ts.len() - q, 6nat,
{
    if q < ts.len() && ts[q as int].kind is Dedent {
        (adv(ts, q), Ok(acc))
    } else {
        let (q1, r) = p_statement(ts, q);
        match r {
            Err(m) => (q1, Err(m)),
            Ok(s) => {
                if q < q1 <= ts.len() {
                    p_suite_body(ts, q1, acc.push(s))
                } else {
                    (q1, Err(seq![]))
                }
            },
        }
    }
}

/// The statements of a program after `acc`, up to `Eof`. The first
/// statement that fails to parse ends the reading with its error.
pub open spec fn p_program(ts: Seq<TokenV>, p: nat, acc: Seq<StmtV>) -> (nat, Result<Seq<StmtV>, Seq<char>>)
    decreases ts.len() - p,
{
    if p >= ts.len() || ts[p as int].kind is Eof {
        (p, Ok(acc))
    } else {
        let (p1, r) = p_statement(ts, p);
        match r {
            Err(m) => (p1, Err(m)),
            Ok(s) => {
                if p < p1 <= ts.len() {
                    p_program(ts, p1, acc.push(s))
                } else {
                    (p1, Err(seq![]))
                }
            },
        }
    }
}

/// The program that a token stream denotes, or the first parse error.
pub open spec fn parse_program(ts: Seq<TokenV>) -> Result<Seq<StmtV>, Seq<char>> {
    p_program(ts, 0, seq![]).1
}

/// A number literal token's expression.
pub open spec fn number_expr(t: TokenV) -> ExprV {
    ExprV::Literal(LitV::Number(t.kind->Number_0))
}

/// The expression `a op b` over number tokens.
pub open spec fn bin(a: ExprV, op: TokenV, b: ExprV) -> ExprV {
    ExprV::Binary { left: Box::new(a), operator: op, right: Box::new(b) }
}

proof fn lemma_number_operand(level: nat, ts: Seq<TokenV>, p: nat)
    requires
        1 <= level,
        p + 1 < ts.len(),
        ts[p as int].kind is Number,
    ensures
        p_operand(level, ts, p) == if level <= 1 {
            (p + 1, Ok::<ExprV, Seq<char>>(number_expr(ts[p as int])))
        } else {
            p_binary((level - 1) as nat, ts, p)
        },
        p_unary(ts, p) == (p + 1, Ok::<ExprV, Seq<char>>(number_expr(ts[p as int]))),
{
    assert(adv(ts, p) == p + 1);
    assert(p_primary(ts, p) == (p + 1, Ok::<ExprV, Seq<char>>(number_expr(ts[p as int]))));
    assert(p_unary(ts, p) == p_primary(ts, p));
}

/// `-` and `+` bind alike, and more loosely than `*` and `/`: for numbers
/// `a`, `b`, `c`, an operator `lo` of `+ -` and an operator `hi` of `* /`,
/// the expression `a lo b hi c` reads as `a lo (b hi c)` and `a hi b lo c`
/// as `(a hi b) lo c`; and `a lo b lo c` reads as `(a lo b) lo c`.
pub proof fn law_precedence(ts: Seq<TokenV>)
    requires
        ts.len() == 6,
        ts[0].kind is Number,
        ts[2].kind is Number,
        ts[4].kind is Number,
        ts[5].kind is Newline,
    ensures
        (ts[1].kind is Minus || ts[1].kind is Plus) && (ts[3].kind is Star || ts[3].kind is Slash) ==> p_not(ts, 0) == (
            5nat,
            Ok::<ExprV, Seq<char>>(bin(number_expr(ts[0]), ts[1], bin(number_expr(ts[2]), ts[3], number_expr(ts[4])))),
        ),
        (ts[1].kind is Star || ts[1].kind is Slash) && (ts[3].kind is Minus || ts[3].kind is Plus) ==> p_not(ts, 0) == (
            5nat,
            Ok::<ExprV, Seq<char>>(bin(bin(number_expr(ts[0]), ts[1], number_expr(ts[2])), ts[3], number_expr(ts[4]))),
        ),
        (ts[1].kind is Minus || ts[1].kind is Plus) && (ts[3].kind is Minus || ts[3].kind is Plus) ==> p_not(ts, 0) == (
            5nat,
            Ok::<ExprV, Seq<char>>(bin(bin(number_expr(ts[0]), ts[1], number_expr(ts[2])), ts[3], number_expr(ts[4]))),
        ),
{
    let a = number_expr(ts[0]);
    let b = number_expr(ts[2]);
    let c = number_expr(ts[4]);
    lemma_number_operand(1, ts, 0);
    lemma_number_operand(1, ts, 2);
    lemma_number_operand(1, ts, 4);
    lemma_number_operand(2, ts, 0);
    lemma_number_operand(2, ts, 2);
    lemma_number_operand(2, ts, 4);
    lemma_number_operand(3, ts, 0);
    lemma_number_operand(4, ts, 0);
    // the end of the line stops every level
    assert(p_binary_rest(1, ts, c, 5) == (5nat, Ok::<ExprV, Seq<char>>(c)));
    if (ts[1].kind is Minus || ts[1].kind is Plus) && (ts[3].kind is Star || ts[3].kind is Slash) {
        let bc = bin(b, ts[3], c);
        assert(p_binary_rest(1, ts, bc, 5) == (5nat, Ok::<ExprV, Seq<char>>(bc)));
        assert(p_binary_rest(1, ts, b, 3) == (5nat, Ok::<ExprV, Seq<char>>(bc)));
        assert(p_binary(1, ts, 2) == (5nat, Ok::<ExprV, Seq<char>>(bc)));
        assert(p_binary(1, ts, 0) == (1nat, Ok::<ExprV, Seq<char>>(a)));
        let e = bin(a, ts[1], bc);
        assert(p_binary_rest(2, ts, e, 5) == (5nat, Ok::<ExprV, Seq<char>>(e)));
        assert(p_binary_rest(2, ts, a, 1) == (5nat, Ok::<ExprV, Seq<char>>(e)));
        assert(p_binary(2, ts, 0) == (5nat, Ok::<ExprV, Seq<char>>(e)));
        assert(p_binary_rest(3, ts, e, 5) == (5nat, Ok::<ExprV, Seq<char>>(e)));
        assert(p_binary(3, ts, 0) == (5nat, Ok::<ExprV, Seq<char>>(e)));
        assert(p_binary_rest(4, ts, e, 5) == (5nat, Ok::<ExprV, Seq<char>>(e)));
        assert(p_binary(4, ts, 0) == (5nat, Ok::<ExprV, Seq<char>>(e)));
    }
    if (ts[1].kind is Star || ts[1].kind is Slash) && (ts[3].kind is Minus || ts[3].kind is Plus) {
        let ab = bin(a, ts[1], b);
        assert(p_binary_rest(1, ts, ab, 3) == (3nat, Ok::<ExprV, Seq<char>>(ab)));
        assert(p_binary_rest(1, ts, a, 1) == (3nat, Ok::<ExprV, Seq<char>>(ab)));
        assert(p_binary(1, ts, 0) == (3nat, Ok::<ExprV, Seq<char>>(ab)));
        assert(p_binary(1, ts, 4) == (5nat, Ok::<ExprV, Seq<char>>(c)));
        let e = bin(ab, ts[3], c);
        assert(p_binary_rest(2, ts, e, 5) == (5nat, Ok::<ExprV, Seq<char>>(e)));
        assert(p_binary_rest(2, ts, ab, 3) == (5nat, Ok::<ExprV, Seq<char>>(e)));
        assert(p_binary(2, ts, 0) == (5nat, Ok::<ExprV, Seq<char>>(e)));
        assert(p_binary_rest(3, ts, e, 5) == (5nat, Ok::<ExprV, Seq<char>>(e)));
        assert(p_binary(3, ts, 0) == (5nat, Ok::<ExprV, Seq<char>>(e)));
        assert(p_binary_rest(4, ts, e, 5) == (5nat, Ok::<ExprV, Seq<char>>(e)));
        assert(p_binary(4, ts, 0) == (5nat, Ok::<ExprV, Seq<char>>(e)));
    }
    if (ts[1].kind is Minus || ts[1].kind is Plus) && (ts[3].kind is Minus || ts[3].kind is Plus) {
        assert(p_binary_rest(1, ts, a, 1) == (1nat, Ok::<ExprV, Seq<char>>(a)));
        assert(p_binary(1, ts, 0) == (1nat, Ok::<ExprV, Seq<char>>(a)));
        assert(p_binary_rest(1, ts, b, 3) == (3nat, Ok::<ExprV, Seq<char>>(b)));
        assert(p_binary(1, ts, 2) == (3nat, Ok::<ExprV, Seq<char>>(b)));
        assert(p_binary(1, ts, 4) == (5nat, Ok::<ExprV, Seq<char>>(c)));
        let ab = bin(a, ts[1], b);
        let e = bin(ab, ts[3], c);
        assert(p_binary_rest(2, ts, e, 5) == (5nat, Ok::<ExprV, Seq<char>>(e)));
        assert(p_binary_rest(2, ts, ab, 3) == (5nat, Ok::<ExprV, Seq<char>>(e)));
        assert(p_binary_rest(2, ts, a, 1) == (5nat, Ok::<ExprV, Seq<char>>(e)));
        assert(p_binary(2, ts, 0) == (5nat, Ok::<ExprV, Seq<char>>(e)));
        assert(p_binary_rest(3, ts, e, 5) == (5nat, Ok::<ExprV, Seq<char>>(e)));
        assert(p_binary(3, ts, 0) == (5nat, Ok::<ExprV, Seq<char>>(e)));
        assert(p_binary_rest(4, ts, e, 5) == (5nat, Ok::<ExprV, Seq<char>>(e)));
        assert(p_binary(4, ts, 0) == (5nat, Ok::<ExprV, Seq<char>>(e)));
    }
}

} // verus!
