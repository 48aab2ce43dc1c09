//! The parser: reads a token stream into statements, by recursive descent.
use vstd::prelude::*;
use vstd::string::StringExecFns;
use crate::error::CarlaeError;
use crate::text::{line_tag, line_tag_string};
use crate::token::{Token, TokenKind, TokenV, tokens_view, kind_name, kind_name_string};
use crate::expr::{Expr, ExprV, LiteralValue, exprs_view};
use crate::stmt::{Stmt, StmtV, Assignment, IfClause, PrintConfig, PrintMode, WhileClause, stmts_view};
use crate::parse_spec::{
    ends_with_eof, adv, is_binary_op,
    p_primary, p_grouping, p_unary, p_operand, p_binary, p_binary_rest, p_not,
    p_expression_stmt, p_assignment, p_print_rest, p_print, p_simple, p_statement, p_compound,
    p_if, p_while, p_suite, p_suite_body, p_program,
};

verus! {

/// Whether an expression result is what the parser's reading `out` gives: the
/// same expression, or a parsing error with the same message.
pub open spec fn expr_outcome(res: Result<Expr, CarlaeError>, out: Result<ExprV, Seq<char>>) -> bool {
    match out {
        Ok(e) => res matches Ok(x) && x@ == e,
        Err(m) => res matches Err(CarlaeError::Parsing(x)) && x@ == m,
    }
}

pub open spec fn stmt_outcome(res: Result<Stmt, CarlaeError>, out: Result<StmtV, Seq<char>>) -> bool {
    match out {
        Ok(s) => res matches Ok(x) && x@ == s,
        Err(m) => res matches Err(CarlaeError::Parsing(x)) && x@ == m,
    }
}

pub open spec fn stmts_outcome(res: Result<Vec<Stmt>, CarlaeError>, out: Result<Seq<StmtV>, Seq<char>>) -> bool {
    match out {
        Ok(ss) => res matches Ok(x) && stmts_view(x@) == ss,
        Err(m) => res matches Err(CarlaeError::Parsing(x)) && x@ == m,
    }
}

fn parsing_error(line: usize, text: &str) -> (e: CarlaeError)
    ensures
        e matches CarlaeError::Parsing(m) && m@ == line_tag(line as nat) + text@,
{
    let mut m = line_tag_string(line);
    m.append(text);
    CarlaeError::Parsing(m)
}

/// `[Line N] <text> <kind>`, about the token `t`.
fn token_error(t: &Token, text: &str) -> (e: CarlaeError)
    ensures
        e matches CarlaeError::Parsing(m) && m@ == line_tag(t.line as nat) + text@ + kind_name(t.kind@),
{
    let mut m = line_tag_string(t.line);
    m.append(text);
    let k = kind_name_string(&t.kind);
    m.append(k.as_str());
    CarlaeError::Parsing(m)
}

pub struct Parser {
    tokens: Vec<Token>,
    current: usize,
}

impl Parser {
    /// The tokens, as values.
    pub closed spec fn toks(&self) -> Seq<TokenV> {
        tokens_view(self.tokens@)
    }

    /// The position of the next token.
    pub closed spec fn pos(&self) -> nat {
        self.current as nat
    }

    /// The parser's invariant: the tokens end with `Eof`, and the position is
    /// that of a token.
    pub closed spec fn wf(&self) -> bool {
        &&& ends_with_eof(self.toks())
        &&& self.current < self.tokens@.len()
    }

    pub fn new(tokens: Vec<Token>) -> (res: Self)
        ensures
            res.toks() == tokens_view(tokens@),
            res.pos() == 0,
            res.wf() == ends_with_eof(tokens_view(tokens@)),
    {
        Self { tokens, current: 0 }
    }

    /// Reads the whole program: the statements from the current position up
    /// to `Eof`, or the first error.
    pub fn parse(&mut self) -> (res: Result<Vec<Stmt>, CarlaeError>)
        requires
            old(self).wf(),
        ensures
            final(self).wf(),
            final(self).toks() == old(self).toks(),
            final(self).pos() == p_program(old(self).toks(), old(self).pos(), seq![]).0,
            stmts_outcome(res, p_program(old(self).toks(), old(self).pos(), seq![]).1),
    {
        self.program()
    }

    fn cur(&self) -> (t: &Token)
        requires
            self.wf(),
        ensures
            t@ == self.toks()[self.pos() as int],
    {
        &self.tokens[self.current]
    }

    fn is_at_end(&self) -> (r: bool)
        requires
            self.wf(),
        ensures
            r == (self.toks()[self.pos() as int].kind is Eof),
    {
        matches!(self.tokens[self.current].kind, TokenKind::Eof)
    }

    fn advance(&mut self)
        requires
            old(self).wf(),
        ensures
            final(self).wf(),
            final(self).toks() == old(self).toks(),
            final(self).pos() == adv(old(self).toks(), old(self).pos()),
    {
        if !self.is_at_end() {
            let n = self.tokens.len();
            assert(self.current + 1 < n);
            self.current = self.current + 1;
        }
    }

    fn previous(&self) -> (t: &Token)
        requires
            self.wf(),
            self.pos() >= 1,
        ensures
            t@ == self.toks()[self.pos() - 1],
    {
        &self.tokens[self.current - 1]
    }

    fn next_is_equal(&self) -> (r: bool)
        requires
            self.wf(),
        ensures
            r == (self.pos() + 1 < self.toks().len() && self.toks()[self.pos() + 1 as int].kind is Equal),
    {
        self.current < self.tokens.len() - 1 && matches!(self.tokens[self.current + 1].kind, TokenKind::Equal)
    }

    fn next_is_indent(&self) -> (r: bool)
        requires
            self.wf(),
        ensures
            r == (self.pos() + 1 < self.toks().len() && self.toks()[self.pos() + 1 as int].kind is Indent),
    {
        self.current < self.tokens.len() - 1 && matches!(self.tokens[self.current + 1].kind, TokenKind::Indent)
    }

    fn current_is_binary_op(&self, level: usize) -> (r: bool)
        requires
            self.wf(),
        ensures
            r == is_binary_op(level as nat, self.toks()[self.pos() as int].kind),
    {
        let k = &self.tokens[self.current].kind;
        if level >= 4 {
            matches!(k, TokenKind::BangEqual) || matches!(k, TokenKind::EqualEqual)
        } else if level == 3 {
            matches!(k, TokenKind::Greater) || matches!(k, TokenKind::GreaterEqual)
                || matches!(k, TokenKind::Less) || matches!(k, TokenKind::LessEqual)
        } else if level == 2 {
            matches!(k, TokenKind::Minus) || matches!(k, TokenKind::Plus)
        } else {
            matches!(k, TokenKind::Slash) || matches!(k, TokenKind::Star)
        }
    }

    /// Reads one expression.
    pub fn expression(&mut self) -> (res: Result<Expr, CarlaeError>)
        requires
            old(self).wf(),
        ensures
            final(self).wf(),
            final(self).toks() == old(self).toks(),
            final(self).pos() == p_not(old(self).toks(), old(self).pos()).0,
            expr_outcome(res, p_not(old(self).toks(), old(self).pos()).1),
            old(self).pos() <= final(self).pos(),
            res is Ok ==> old(self).pos() < final(self).pos(),
    {
        self.not()
    }

    fn not(&mut self) -> (res: Result<Expr, CarlaeError>)
        requires
            old(self).wf(),
        ensures
            final(self).wf(),
            final(self).toks() == old(self).toks(),
            final(self).pos() == p_not(old(self).toks(), old(self).pos()).0,
            expr_outcome(res, p_not(old(self).toks(), old(self).pos()).1),
            old(self).pos() <= final(self).pos(),
            res is Ok ==> old(self).pos() < final(self).pos(),
        decreases self.tokens@.len() - self.current, 12nat,
    {
        if matches!(self.tokens[self.current].kind, TokenKind::Not) {
            self.advance();
            let operator = self.previous().clone();
            match self.not() {
                Ok(right) => Ok(Expr::Unary { operator, right: Box::new(right) }),
                Err(e) => Err(e),
            }
        } else {
            self.binary(4)
        }
    }

    fn binary(&mut self, level: usize) -> (res: Result<Expr, CarlaeError>)
        requires
            old(self).wf(),
            1 <= level <= 4,
        ensures
            final(self).wf(),
            final(self).toks() == old(self).toks(),
            final(self).pos() == p_binary(level as nat, old(self).toks(), old(self).pos()).0,
            expr_outcome(res, p_binary(level as nat, old(self).toks(), old(self).pos()).1),
            old(self).pos() <= final(self).pos(),
            res is Ok ==> old(self).pos() < final(self).pos(),
        decreases self.tokens@.len() - self.current, 2 * level + 3,
    {
        let ghost ts = self.toks();
        let ghost p0 = self.pos();
        let first = if level <= 1 {
            self.unary()
        } else {
            self.binary(level - 1)
        };
        assert(p_operand(level as nat, ts, p0) == (self.pos(), p_operand(level as nat, ts, p0).1));
        let mut expr = match first {
            Ok(e) => e,
            Err(e) => {
                return Err(e);
            },
        };
        while self.current_is_binary_op(level)
            invariant
                self.wf(),
                self.toks() == ts,
                ts == old(self).toks(),
                p0 == old(self).pos(),
                1 <= level <= 4,
                p0 < self.pos(),
                p_binary_rest(level as nat, ts, expr@, self.pos()) == p_binary(level as nat, ts, p0),
            decreases self.tokens@.len() - self.current,
        {
            let ghost q = self.pos();
            let ghost left = expr@;
            self.advance();
            let operator = self.previous().clone();
            let next = if level <= 1 {
                self.unary()
            } else {
                self.binary(level - 1)
            };
            assert(p_operand(level as nat, ts, q + 1) == (self.pos(), p_operand(level as nat, ts, q + 1).1));
            let right = match next {
                Ok(e) => e,
                Err(e) => {
                    return Err(e);
                },
            };
            expr = Expr::Binary { left: Box::new(expr), operator, right: Box::new(right) };
            assert(expr@ == ExprV::Binary { left: Box::new(left), operator: ts[q as int], right: Box::new(right@) });
        }
        Ok(expr)
    }

    fn unary(&mut self) -> (res: Result<Expr, CarlaeError>)
        requires
            old(self).wf(),
        ensures
            final(self).wf(),
            final(self).toks() == old(self).toks(),
            final(self).pos() == p_unary(old(self).toks(), old(self).pos()).0,
            expr_outcome(res, p_unary(old(self).toks(), old(self).pos()).1),
            old(self).pos() <= final(self).pos(),
            res is Ok ==> old(self).pos() < final(self).pos(),
        decreases self.tokens@.len() - self.current, 1nat,
    {
        if matches!(self.tokens[self.current].kind, TokenKind::Minus) {
            self.advance();
            let operator = self.previous().clone();
            match self.unary() {
                Ok(right) => Ok(Expr::Unary { operator, right: Box::new(right) }),
                Err(e) => Err(e),
            }
        } else {
            self.primary()
        }
    }

    fn primary(&mut self) -> (res: Result<Expr, CarlaeError>)
        requires
            old(self).wf(),
        ensures
            final(self).wf(),
            final(self).toks() == old(self).toks(),
            final(self).pos() == p_primary(old(self).toks(), old(self).pos()).0,
            expr_outcome(res, p_primary(old(self).toks(), old(self).pos()).1),
            old(self).pos() <= final(self).pos(),
            res is Ok ==> old(self).pos() < final(self).pos(),
        decreases self.tokens@.len() - self.current, 0nat,
    {
        let t = self.cur().clone();
        let val = match &t.kind {
            TokenKind::Number(n) => Expr::Literal(LiteralValue::Number(n.clone())),
            TokenKind::String(s) => Expr::Literal(LiteralValue::String(s.clone())),
            TokenKind::True => Expr::Literal(LiteralValue::Boolean(true)),
            TokenKind::False => Expr::Literal(LiteralValue::Boolean(false)),
            TokenKind::NoneKeyword => Expr::Literal(LiteralValue::NoneValue),
            TokenKind::Identifier(_) => Expr::Variable(t.clone()),
            TokenKind::LeftParen => {
                self.advance();
                return self.grouping();
            },
            _ => {
                return Err(token_error(&t, " Invalid token "));
            },
        };
        self.advance();
        Ok(val)
    }

    fn grouping(&mut self) -> (res: Result<Expr, CarlaeError>)
        requires
            old(self).wf(),
            old(self).pos() >= 1,
        ensures
            final(self).wf(),
            final(self).toks() == old(self).toks(),
            final(self).pos() == p_grouping(old(self).toks(), old(self).pos()).0,
            expr_outcome(res, p_grouping(old(self).toks(), old(self).pos()).1),
            old(self).pos() <= final(self).pos(),
            res is Ok ==> old(self).pos() < final(self).pos(),
        decreases self.tokens@.len() - self.current, 13nat,
    {
        let expr = match self.not() {
            Ok(e) => e,
            Err(e) => {
                return Err(e);
            },
        };
        if matches!(self.tokens[self.current].kind, TokenKind::RightParen) {
            self.advance();
            Ok(Expr::Grouping(Box::new(expr)))
        } else {
            let prev = self.previous();
            Err(token_error(prev, " Missing `)` after "))
        }
    }

    fn program(&mut self) -> (res: Result<Vec<Stmt>, CarlaeError>)
        requires
            old(self).wf(),
        ensures
            final(self).wf(),
            final(self).toks() == old(self).toks(),
            final(self).pos() == p_program(old(self).toks(), old(self).pos(), seq![]).0,
            stmts_outcome(res, p_program(old(self).toks(), old(self).pos(), seq![]).1),
    {
        let ghost ts = self.toks();
        let ghost p0 = self.pos();
        let mut program: Vec<Stmt> = Vec::new();
        assert(stmts_view(program@) =~= seq![]);
        while !self.is_at_end()
            invariant
                self.wf(),
                self.toks() == ts,
                ts == old(self).toks(),
                p0 == old(self).pos(),
                p_program(ts, self.pos(), stmts_view(program@)) == p_program(ts, p0, seq![]),
            decreases self.tokens@.len() - self.current,
        {
            let ghost acc = stmts_view(program@);
            match self.statement() {
                Ok(stmt) => {
                    let ghost before = program@;
                    program.push(stmt);
                    assert(program@.drop_last() =~= before);
                    assert(stmts_view(program@) == acc.push(stmt@));
                },
                Err(e) => {
                    return Err(e);
                },
            }
        }
        Ok(program)
    }

    fn statement(&mut self) -> (res: Result<Stmt, CarlaeError>)
        requires
            old(self).wf(),
        ensures
            final(self).wf(),
            final(self).toks() == old(self).toks(),
            final(self).pos() == p_statement(old(self).toks(), old(self).pos()).0,
            stmt_outcome(res, p_statement(old(self).toks(), old(self).pos()).1),
            old(self).pos() <= final(self).pos(),
            res is Ok ==> old(self).pos() < final(self).pos(),
        decreases self.tokens@.len() - self.current, 5nat,
    {
        if matches!(self.tokens[self.current].kind, TokenKind::If)
            || matches!(self.tokens[self.current].kind, TokenKind::While) {
            self.compound_statement()
        } else {
            self.simple_statement()
        }
    }

    fn compound_statement(&mut self) -> (res: Result<Stmt, CarlaeError>)
        requires
            old(self).wf(),
        ensures
            final(self).wf(),
            final(self).toks() == old(self).toks(),
            final(self).pos() == p_compound(old(self).toks(), old(self).pos()).0,
            stmt_outcome(res, p_compound(old(self).toks(), old(self).pos()).1),
            old(self).pos() <= final(self).pos(),
            res is Ok ==> old(self).pos() < final(self).pos(),
        decreases self.tokens@.len() - self.current, 4nat,
    {
        let line = self.tokens[self.current].line;
        if matches!(self.tokens[self.current].kind, TokenKind::If) {
            self.advance();
            self.if_stmt(line)
        } else if matches!(self.tokens[self.current].kind, TokenKind::While) {
            self.advance();
            self.while_stmt(line)
        } else {
            self.expression_stmt(line)
        }
    }

    fn if_stmt(&mut self, line: usize) -> (res: Result<Stmt, CarlaeError>)
        requires
            old(self).wf(),
        ensures
            final(self).wf(),
            final(self).toks() == old(self).toks(),
            final(self).pos() == p_if(old(self).toks(), old(self).pos(), line as nat).0,
            stmt_outcome(res, p_if(old(self).toks(), old(self).pos(), line as nat).1),
            old(self).pos() <= final(self).pos(),
            res is Ok ==> old(self).pos() < final(self).pos(),
        decreases self.tokens@.len() - self.current, 0nat,
    {
        let cond = match self.not() {
            Ok(e) => e,
            Err(e) => {
                return Err(e);
            },
        };
        if !matches!(self.tokens[self.current].kind, TokenKind::Colon) {
            return Err(parsing_error(line, " If statement missing `:` after condition"));
        }
        self.advance();
        let then_branch = match self.suite() {
            Ok(v) => v,
            Err(e) => {
                return Err(e);
            },
        };
        if matches!(self.tokens[self.current].kind, TokenKind::Else) {
            self.advance();
            if !matches!(self.tokens[self.current].kind, TokenKind::Colon) {
                return Err(parsing_error(line, " If statement missing `:` after else"));
            }
            self.advance();
            let els = match self.suite() {
                Ok(v) => v,
                Err(e) => {
                    return Err(e);
                },
            };
            Ok(Stmt::If(IfClause { cond, then_branch, else_branch: Some(els) }))
        } else {
            Ok(Stmt::If(IfClause { cond, then_branch, else_branch: None }))
        }
    }

    fn while_stmt(&mut self, line: usize) -> (res: Result<Stmt, CarlaeError>)
        requires
            old(self).wf(),
        ensures
            final(self).wf(),
            final(self).toks() == old(self).toks(),
            final(self).pos() == p_while(old(self).toks(), old(self).pos(), line as nat).0,
            stmt_outcome(res, p_while(old(self).toks(), old(self).pos(), line as nat).1),
            old(self).pos() <= final(self).pos(),
            res is Ok ==> old(self).pos() < final(self).pos(),
        decreases self.tokens@.len() - self.current, 0nat,
    {
        let cond = match self.not() {
            Ok(e) => e,
            Err(e) => {
                return Err(e);
            },
        };
        if !matches!(self.tokens[self.current].kind, TokenKind::Colon) {
            return Err(parsing_error(line, " While statement missing `:` after condition"));
        }
        self.advance();
        let body = match self.suite() {
            Ok(v) => v,
            Err(e) => {
                return Err(e);
            },
        };
        Ok(Stmt::While(WhileClause { cond, body }))
    }

    fn suite(&mut self) -> (res: Result<Vec<Stmt>, CarlaeError>)
        requires
            old(self).wf(),
        ensures
            final(self).wf(),
            final(self).toks() == old(self).toks(),
            final(self).pos() == p_suite(old(self).toks(), old(self).pos()).0,
            stmts_outcome(res, p_suite(old(self).toks(), old(self).pos()).1),
            old(self).pos() <= final(self).pos(),
            res is Ok ==> old(self).pos() < final(self).pos(),
        decreases self.tokens@.len() - self.current, 3nat,
    {
        let ghost ts = self.toks();
        let ghost p0 = self.pos();
        if matches!(self.tokens[self.current].kind, TokenKind::Newline) && self.next_is_indent() {
            self.advance();
            self.advance();
            let mut stmts: Vec<Stmt> = Vec::new();
            assert(stmts_view(stmts@) =~= seq![]);
            while !matches!(self.tokens[self.current].kind, TokenKind::Dedent)
                invariant
                    self.wf(),
                    self.toks() == ts,
                ts == old(self).toks(),
                p0 == old(self).pos(),
                    p0 < self.pos(),
                    p_suite_body(ts, self.pos(), stmts_view(stmts@)) == p_suite(ts, p0),
                decreases self.tokens@.len() - self.current,
            {
                let ghost acc = stmts_view(stmts@);
                match self.statement() {
                    Ok(stmt) => {
                        let ghost before = stmts@;
                        stmts.push(stmt);
                        assert(stmts@.drop_last() =~= before);
                        assert(stmts_view(stmts@) == acc.push(stmt@));
                    },
                    Err(e) => {
                        return Err(e);
                    },
                }
            }
            self.advance();
            Ok(stmts)
        } else {
            match self.simple_statement() {
                Ok(stmt) => {
                    let v = vec![stmt];
                    assert(v@.drop_last() =~= Seq::<Stmt>::empty());
                    assert(stmts_view(v@.drop_last()) =~= seq![]);
                    assert(stmts_view(v@) =~= seq![stmt@]);
                    Ok(v)
                },
                Err(e) => Err(e),
            }
        }
    }

    fn simple_statement(&mut self) -> (res: Result<Stmt, CarlaeError>)
        requires
            old(self).wf(),
        ensures
            final(self).wf(),
            final(self).toks() == old(self).toks(),
            final(self).pos() == p_simple(old(self).toks(), old(self).pos()).0,
            stmt_outcome(res, p_simple(old(self).toks(), old(self).pos()).1),
            old(self).pos() <= final(self).pos(),
            res is Ok ==> old(self).pos() < final(self).pos(),
    {
        let t = self.cur().clone();
        if matches!(t.kind, TokenKind::Identifier(_)) && self.next_is_equal() {
            self.advance();
            self.advance();
            self.assignment_statement(t)
        } else if matches!(t.kind, TokenKind::Print) {
            self.advance();
            self.print_stmt(t.line)
        } else {
            self.expression_stmt(t.line)
        }
    }

    fn assignment_statement(&mut self, name: Token) -> (res: Result<Stmt, CarlaeError>)
        requires
            old(self).wf(),
        ensures
            final(self).wf(),
            final(self).toks() == old(self).toks(),
            final(self).pos() == p_assignment(old(self).toks(), old(self).pos(), name@).0,
            stmt_outcome(res, p_assignment(old(self).toks(), old(self).pos(), name@).1),
            old(self).pos() <= final(self).pos(),
            res is Ok ==> old(self).pos() < final(self).pos(),
    {
        let initializer = match self.not() {
            Ok(e) => e,
            Err(e) => {
                return Err(e);
            },
        };
        if matches!(self.tokens[self.current].kind, TokenKind::Newline) {
            self.advance();
            Ok(Stmt::Variable(Assignment { name, initializer }))
        } else {
            Err(parsing_error(name.line, ": Invalid syntax for variable declaration"))
        }
    }

    fn print_stmt(&mut self, line: usize) -> (res: Result<Stmt, CarlaeError>)
        requires
            old(self).wf(),
        ensures
            final(self).wf(),
            final(self).toks() == old(self).toks(),
            final(self).pos() == p_print(old(self).toks(), old(self).pos(), line as nat).0,
            stmt_outcome(res, p_print(old(self).toks(), old(self).pos(), line as nat).1),
            old(self).pos() <= final(self).pos(),
            res is Ok ==> old(self).pos() < final(self).pos(),
    {
        let ghost ts = self.toks();
        let ghost p0 = self.pos();
        let mut exprs: Vec<Expr> = Vec::new();
        let mut mode = PrintMode::FinalNewline;
        if !matches!(self.tokens[self.current].kind, TokenKind::Newline) {
            match self.not() {
                Ok(e) => {
                    exprs.push(e);
                },
                Err(e) => {
                    return Err(e);
                },
            }
        }
        assert(exprs_view(exprs@) =~= if ts[p0 as int].kind is Newline { Seq::<ExprV>::empty() } else { seq![p_not(ts, p0).1->Ok_0] });
        let ghost p1 = self.pos();
        let ghost r0 = p_print_rest(ts, p1, exprs_view(exprs@));
        assert(r0.1 is Err ==> p_print(ts, p0, line as nat) == (r0.0, Err::<StmtV, Seq<char>>(r0.1->Err_0)));
        loop
            invariant_except_break
                p_print_rest(ts, self.pos(), exprs_view(exprs@)) == r0,
                mode == PrintMode::FinalNewline,
            invariant
                self.wf(),
                self.toks() == ts,
                ts == old(self).toks(),
                p0 == old(self).pos(),
                p0 <= p1 <= self.pos(),
                r0.1 is Err ==> p_print(ts, p0, line as nat) == (r0.0, Err::<StmtV, Seq<char>>(r0.1->Err_0)),
            ensures
                r0 == (self.pos(), Ok::<(Seq<ExprV>, PrintMode), Seq<char>>((exprs_view(exprs@), mode))),
            decreases self.tokens@.len() - self.current,
        {
            if !matches!(self.tokens[self.current].kind, TokenKind::Comma) {
                break;
            }
            self.advance();
            if matches!(self.tokens[self.current].kind, TokenKind::Newline) {
                mode = PrintMode::NoNewline;
                break;
            }
            match self.not() {
                Ok(e) => {
                    let ghost before = exprs_view(exprs@);
                    exprs.push(e);
                    assert(exprs_view(exprs@) =~= before.push(e@));
                },
                Err(e) => {
                    return Err(e);
                },
            }
        }
        if matches!(self.tokens[self.current].kind, TokenKind::Newline) {
            self.advance();
            Ok(Stmt::Print(PrintConfig { exprs, mode }))
        } else {
            Err(parsing_error(line, " Invalid syntax for print statement"))
        }
    }

    fn expression_stmt(&mut self, line: usize) -> (res: Result<Stmt, CarlaeError>)
        requires
            old(self).wf(),
        ensures
            final(self).wf(),
            final(self).toks() == old(self).toks(),
            final(self).pos() == p_expression_stmt(old(self).toks(), old(self).pos(), line as nat).0,
            stmt_outcome(res, p_expression_stmt(old(self).toks(), old(self).pos(), line as nat).1),
            old(self).pos() <= final(self).pos(),
            res is Ok ==> old(self).pos() < final(self).pos(),
    {
        let expr = match self.not() {
            Ok(e) => e,
            Err(e) => {
                return Err(e);
            },
        };
        if matches!(self.tokens[self.current].kind, TokenKind::Newline) {
            self.advance();
            Ok(Stmt::Expression(expr))
        } else {
            Err(parsing_error(line, " Missing newline after expression statement"))
        }
    }
}

} // verus!
