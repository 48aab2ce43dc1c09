//! Statements, as the parser builds them.
use vstd::prelude::*;
use vstd::string::StringExecFns;
use crate::expr::{Expr, ExprV, exprs_view, expr_text};
use crate::token::{Token, TokenV};

verus! {

#[derive(Debug, PartialEq)]
pub enum Stmt {
    Expression(Expr),
    If(IfClause),
    While(WhileClause),
    Print(PrintConfig),
    Variable(Assignment),
}

/// An `if` statement: its condition, its branch, and an optional `else:` branch.
#[derive(Debug, PartialEq)]
pub struct IfClause {
    pub cond: Expr,
    pub then_branch: Vec<Stmt>,
    pub else_branch: Option<Vec<Stmt>>,
}

#[derive(Debug, PartialEq)]
pub struct WhileClause {
    pub cond: Expr,
    pub body: Vec<Stmt>,
}

/// The expressions of a `print` statement, and whether it ends the output
/// line (a trailing comma keeps the line open).
#[derive(Debug, PartialEq)]
pub struct PrintConfig {
    pub exprs: Vec<Expr>,
    pub mode: PrintMode,
}

#[derive(Debug, PartialEq, Eq, Clone, Copy)]
pub enum PrintMode {
    FinalNewline,
    NoNewline,
}

#[derive(Debug, PartialEq)]
pub struct Assignment {
    pub name: Token,
    pub initializer: Expr,
}

/// A statement as a mathematical value.
pub enum StmtV {
    Expression(ExprV),
    If { cond: ExprV, then_branch: Seq<StmtV>, else_branch: Option<Seq<StmtV>> },
    While { cond: ExprV, body: Seq<StmtV> },
    Print { exprs: Seq<ExprV>, mode: PrintMode },
    Variable { name: TokenV, initializer: ExprV },
}

pub open spec fn stmt_view(s: Stmt) -> StmtV
    decreases s, 0nat,
{
    match s {
        Stmt::Expression(e) => StmtV::Expression(e@),
        Stmt::If(c) => StmtV::If {
            cond: c.cond@,
            then_branch: stmts_view(c.then_branch@),
            else_branch: match c.else_branch {
                Some(v) => Some(stmts_view(v@)),
                None => None,
            },
        },
        Stmt::While(w) => StmtV::While { cond: w.cond@, body: stmts_view(w.body@) },
        Stmt::Print(p) => StmtV::Print { exprs: exprs_view(p.exprs@), mode: p.mode },
        Stmt::Variable(a) => StmtV::Variable { name: a.name@, initializer: a.initializer@ },
    }
}

pub open spec fn stmts_view(ss: Seq<Stmt>) -> Seq<StmtV>
    decreases ss, 1nat,
{
    if ss.len() == 0 {
        seq![]
    } else {
        stmts_view(ss.drop_last()).push(stmt_view(ss.last()))
    }
}

/// The views of a sequence of statements are the statements' views, one for one.
pub proof fn lemma_stmts_view(ss: Seq<Stmt>)
    ensures
        stmts_view(ss).len() == ss.len(),
        forall|i: int| 0 <= i < ss.len() ==> #[trigger] stmts_view(ss)[i] == stmt_view(ss[i]),
    decreases ss.len(),
{
    if ss.len() > 0 {
        lemma_stmts_view(ss.drop_last());
    }
}

impl View for Stmt {
    type V = StmtV;

    open spec fn view(&self) -> StmtV {
        stmt_view(*self)
    }
}

/// The `, e` items after the first expression of a `print`.
pub open spec fn print_tail_text(es: Seq<ExprV>) -> Seq<char>
    decreases es.len(),
{
    if es.len() == 0 {
        seq![]
    } else {
        print_tail_text(es.drop_last()) + ", "@ + expr_text(es.last())
    }
}

/// The lines of a block: each statement on its own line, indented by four spaces.
pub open spec fn block_text(ss: Seq<StmtV>) -> Seq<char>
    decreases ss, 1nat,
{
    if ss.len() == 0 {
        seq![]
    } else {
        block_text(ss.drop_last()) + "    "@ + stmt_text(ss.last()) + "\n"@
    }
}

/// How a statement is written.
pub open spec fn stmt_text(s: StmtV) -> Seq<char>
    decreases s, 0nat,
{
    match s {
        StmtV::Expression(e) => expr_text(e),
        StmtV::If { cond, then_branch, else_branch } =>
            "if "@ + expr_text(cond) + ":\n"@ + block_text(then_branch) + match else_branch {
                Some(b) => "else:\n"@ + block_text(b),
                None => Seq::<char>::empty(),
            },
        StmtV::While { cond, body } => "while "@ + expr_text(cond) + ":\n"@ + block_text(body),
        StmtV::Print { exprs, mode } => {
            if exprs.len() == 0 {
                "print"@
            } else {
                "print "@ + expr_text(exprs[0]) + print_tail_text(exprs.skip(1)) + match mode {
                    PrintMode::NoNewline => ","@,
                    PrintMode::FinalNewline => Seq::<char>::empty(),
                }
            }
        },
        StmtV::Variable { name, initializer } => name.lexeme + " = "@ + expr_text(initializer),
    }
}

/// Appends the lines of `block` to `s`.
fn append_block(s: &mut String, block: &Vec<Stmt>)
    ensures
        final(s)@ == old(s)@ + block_text(stmts_view(block@)),
    decreases block@, 0nat,
{
    let mut i: usize = 0;
    while i < block.len()
        invariant
            i <= block@.len(),
            s@ == old(s)@ + block_text(stmts_view(block@.subrange(0, i as int))),
        decreases block@.len() - i,
    {
        let ghost before = s@;
        s.append("    ");
        let line = block[i].to_string();
        s.append(line.as_str());
        s.append("\n");
        proof {
            let pre = block@.subrange(0, i as int);
            let next = block@.subrange(0, i + 1);
            assert(next.drop_last() =~= pre);
            assert(next.last() == block@[i as int]);
            assert(stmts_view(next) == stmts_view(pre).push(block@[i as int]@));
            assert(stmts_view(next).drop_last() =~= stmts_view(pre));
        }
        assert(s@ =~= old(s)@ + block_text(stmts_view(block@.subrange(0, i + 1))));
        i = i + 1;
    }
    assert(block@.subrange(0, block@.len() as int) =~= block@);
}

impl Stmt {
    /// How the statement is written; a block puts each of its statements on
    /// a line of its own, indented by four spaces.
    pub fn to_string(&self) -> (s: String)
        ensures
            s@ == stmt_text(self@),
        decreases self, 1nat,
    {
        match self {
            Stmt::Expression(e) => e.to_string(),
            Stmt::If(c) => {
                let mut s = String::from_str("if ");
                let cond = c.cond.to_string();
                s.append(cond.as_str());
                s.append(":\n");
                append_block(&mut s, &c.then_branch);
                let ghost head = s@;
                match &c.else_branch {
                    Some(b) => {
                        s.append("else:\n");
                        append_block(&mut s, b);
                        assert(s@ =~= head + ("else:\n"@ + block_text(stmts_view(b@))));
                    },
                    None => {
                        assert(s@ =~= head + Seq::<char>::empty());
                    },
                }
                s
            },
            Stmt::While(w) => {
                let mut s = String::from_str("while ");
                let cond = w.cond.to_string();
                s.append(cond.as_str());
                s.append(":\n");
                append_block(&mut s, &w.body);
                s
            },
            Stmt::Print(p) => {
                if p.exprs.len() == 0 {
                    String::from_str("print")
                } else {
                    let mut s = String::from_str("print ");
                    let first = p.exprs[0].to_string();
                    s.append(first.as_str());
                    let ghost head = s@;
                    let ghost es = exprs_view(p.exprs@);
                    let mut i: usize = 1;
                    while i < p.exprs.len()
                        invariant
                            1 <= i <= p.exprs@.len(),
                            es == exprs_view(p.exprs@),
                            s@ == head + print_tail_text(es.subrange(1, i as int)),
                        decreases p.exprs@.len() - i,
                    {
                        let ghost before = s@;
                        s.append(", ");
                        let e = p.exprs[i].to_string();
                        s.append(e.as_str());
                        assert(es.subrange(1, i + 1).drop_last() =~= es.subrange(1, i as int));
                        assert(s@ =~= head + print_tail_text(es.subrange(1, i + 1)));
                        i = i + 1;
                    }
                    assert(es.subrange(1, es.len() as int) =~= es.skip(1));
                    let ghost body = s@;
                    match p.mode {
                        PrintMode::NoNewline => {
                            s.append(",");
                        },
                        PrintMode::FinalNewline => {
                            assert(s@ =~= body + Seq::<char>::empty());
                        },
                    }
                    s
                }
            },
            Stmt::Variable(a) => {
                let mut s = a.name.lexeme.clone();
                s.append(" = ");
                let init = a.initializer.to_string();
                s.append(init.as_str());
                s
            },
        }
    }
}

} // verus!
