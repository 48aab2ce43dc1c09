//! Expressions, as the parser builds them.
use vstd::prelude::*;
use vstd::string::StringExecFns;
use crate::text::{chars_to_string, push_char, string_chars};
use crate::token::{Token, TokenV};

verus! {

/// A literal. A number keeps the decimal text of its literal; the number it
/// denotes is the double nearest to that text.
#[derive(Debug, PartialEq)]
pub enum LiteralValue {
    Number(String),
    Boolean(bool),
    String(String),
    NoneValue,
}

/// A literal as a mathematical value.
pub enum LitV {
    Number(Seq<char>),
    Boolean(bool),
    Str(Seq<char>),
    NoneValue,
}

impl View for LiteralValue {
    type V = LitV;

    open spec fn view(&self) -> LitV {
        match self {
            LiteralValue::Number(s) => LitV::Number(s@),
            LiteralValue::Boolean(b) => LitV::Boolean(*b),
            LiteralValue::String(s) => LitV::Str(s@),
            LiteralValue::NoneValue => LitV::NoneValue,
        }
    }
}

impl Clone for LiteralValue {
    fn clone(&self) -> (res: Self)
        ensures
            res@ == self@,
    {
        match self {
            LiteralValue::Number(s) => LiteralValue::Number(s.clone()),
            LiteralValue::Boolean(b) => LiteralValue::Boolean(*b),
            LiteralValue::String(s) => LiteralValue::String(s.clone()),
            LiteralValue::NoneValue => LiteralValue::NoneValue,
        }
    }
}

#[derive(Debug, PartialEq)]
pub enum Expr {
    Literal(LiteralValue),
    Unary { operator: Token, right: Box<Expr> },
    Binary { left: Box<Expr>, operator: Token, right: Box<Expr> },
    Grouping(Box<Expr>),
    Variable(Token),
}

/// An expression as a mathematical value.
pub enum ExprV {
    Literal(LitV),
    Unary { operator: TokenV, right: Box<ExprV> },
    Binary { left: Box<ExprV>, operator: TokenV, right: Box<ExprV> },
    Grouping(Box<ExprV>),
    Variable(TokenV),
}

pub open spec fn expr_view(e: Expr) -> ExprV
    decreases e,
{
    match e {
        Expr::Literal(l) => ExprV::Literal(l@),
        Expr::Unary { operator, right } => ExprV::Unary {
            operator: operator@,
            right: Box::new(expr_view(*right)),
        },
        Expr::Binary { left, operator, right } => ExprV::Binary {
            left: Box::new(expr_view(*left)),
            operator: operator@,
            right: Box::new(expr_view(*right)),
        },
        Expr::Grouping(inner) => ExprV::Grouping(Box::new(expr_view(*inner))),
        Expr::Variable(t) => ExprV::Variable(t@),
    }
}

impl View for Expr {
    type V = ExprV;

    open spec fn view(&self) -> ExprV {
        expr_view(*self)
    }
}

pub open spec fn exprs_view(es: Seq<Expr>) -> Seq<ExprV> {
    es.map_values(|e: Expr| e@)
}

/// `s` without leading zeros, keeping at least one character.
pub open spec fn strip_leading_zeros(s: Seq<char>) -> Seq<char>
    decreases s.len(),
{
    if s.len() > 1 && s[0] == '0' {
        strip_leading_zeros(s.drop_first())
    } else {
        s
    }
}

/// `s` without trailing zeros.
pub open spec fn strip_trailing_zeros(s: Seq<char>) -> Seq<char>
    decreases s.len(),
{
    if s.len() > 0 && s.last() == '0' {
        strip_trailing_zeros(s.drop_last())
    } else {
        s
    }
}

/// The first position at or after `i` that holds a `.`, or the end.
pub open spec fn dot_pos(t: Seq<char>, i: nat) -> nat
    decreases t.len() - i,
{
    if i < t.len() && t[i as int] != '.' {
        dot_pos(t, i + 1)
    } else {
        i
    }
}

/// How the number of a literal is written: the shortest decimal form of its
/// text, with no leading zeros before the point, no trailing zeros after it,
/// and no point where nothing follows it (`2.50` is written `2.5`, `1.0` is
/// written `1`). This is how the literal's double is written wherever the
/// literal has at most 15 significant digits and lies within the range of
/// doubles: such a decimal is the shortest one that gives that double back.
pub open spec fn number_text(t: Seq<char>) -> Seq<char> {
    let d = dot_pos(t, 0);
    let whole = strip_leading_zeros(t.subrange(0, d as int));
    if d >= t.len() {
        whole
    } else {
        let frac = strip_trailing_zeros(t.subrange(d + 1 as int, t.len() as int));
        if frac.len() == 0 {
            whole
        } else {
            whole + seq!['.'] + frac
        }
    }
}

/// How a literal is written.
pub open spec fn lit_text(l: LitV) -> Seq<char> {
    match l {
        LitV::Number(t) => number_text(t),
        LitV::Boolean(b) => if b { "True"@ } else { "False"@ },
        LitV::Str(s) => s,
        LitV::NoneValue => "None"@,
    }
}

/// How an expression is written: in prefix form, with each operation in
/// parentheses.
pub open spec fn expr_text(e: ExprV) -> Seq<char>
    decreases e,
{
    match e {
        ExprV::Literal(l) => lit_text(l),
        ExprV::Unary { operator, right } => "("@ + operator.lexeme + " "@ + expr_text(*right) + ")"@,
        ExprV::Binary { left, operator, right } =>
            "("@ + operator.lexeme + " "@ + expr_text(*left) + " "@ + expr_text(*right) + ")"@,
        ExprV::Grouping(inner) => "(group "@ + expr_text(*inner) + ")"@,
        ExprV::Variable(t) => t.lexeme,
    }
}

pub(crate) fn strip_number(t: &String) -> (r: String)
    ensures
        r@ == number_text(t@),
{
    let cs = string_chars(t);
    let n = cs.len();
    let mut d: usize = 0;
    while d < n && cs[d] != '.'
        invariant
            d <= n == cs@.len(),
            dot_pos(cs@, d as nat) == dot_pos(cs@, 0),
        decreases n - d,
    {
        d = d + 1;
    }
    let mut a: usize = 0;
    while d - a > 1 && cs[a] == '0'
        invariant
            a < d || (a == 0 && d == 0),
            d <= n == cs@.len(),
            strip_leading_zeros(cs@.subrange(a as int, d as int)) == strip_leading_zeros(cs@.subrange(0, d as int)),
        decreases d - a,
    {
        assert(cs@.subrange(a as int, d as int).drop_first() =~= cs@.subrange(a + 1, d as int));
        a = a + 1;
    }
    let mut out = chars_to_string(&cs, a, d);
    if d < n {
        let mut b: usize = n;
        while b > d + 1 && cs[b - 1] == '0'
            invariant
                d + 1 <= b <= n == cs@.len(),
                strip_trailing_zeros(cs@.subrange(d + 1, b as int)) == strip_trailing_zeros(cs@.subrange(d + 1, n as int)),
            decreases b,
        {
            assert(cs@.subrange(d + 1, b as int).drop_last() =~= cs@.subrange(d + 1, b - 1));
            b = b - 1;
        }
        if b > d + 1 {
            let ghost whole = out@;
            push_char(&mut out, '.');
            let frac = chars_to_string(&cs, d + 1, b);
            out.append(frac.as_str());
            assert(out@ =~= whole + seq!['.'] + frac@);
        } else {
            assert(cs@.subrange(d + 1, b as int).len() == 0);
        }
    }
    out
}

impl LiteralValue {
    /// How the literal is written.
    pub fn to_string(&self) -> (s: String)
        ensures
            s@ == lit_text(self@),
    {
        match self {
            LiteralValue::Number(t) => strip_number(t),
            LiteralValue::Boolean(b) => if *b { String::from_str("True") } else { String::from_str("False") },
            LiteralValue::String(s) => s.clone(),
            LiteralValue::NoneValue => String::from_str("None"),
        }
    }
}

impl Expr {
    /// How the expression is written: in prefix form, with each operation
    /// in parentheses.
    pub fn to_string(&self) -> (s: String)
        ensures
            s@ == expr_text(self@),
        decreases self,
    {
        match self {
            Expr::Literal(l) => l.to_string(),
            Expr::Unary { operator, right } => {
                let mut s = String::from_str("(");
                s.append(operator.lexeme.as_str());
                s.append(" ");
                let r = right.to_string();
                s.append(r.as_str());
                s.append(")");
                assert(s@ =~= "("@ + operator.lexeme@ + " "@ + r@ + ")"@);
                s
            },
            Expr::Binary { left, operator, right } => {
                let mut s = String::from_str("(");
                s.append(operator.lexeme.as_str());
                s.append(" ");
                let l = left.to_string();
                s.append(l.as_str());
                s.append(" ");
                let r = right.to_string();
                s.append(r.as_str());
                s.append(")");
                assert(s@ =~= "("@ + operator.lexeme@ + " "@ + l@ + " "@ + r@ + ")"@);
                s
            },
            Expr::Grouping(inner) => {
                let mut s = String::from_str("(group ");
                let i = inner.to_string();
                s.append(i.as_str());
                s.append(")");
                assert(s@ =~= "(group "@ + i@ + ")"@);
                s
            },
            Expr::Variable(t) => t.lexeme.clone(),
        }
    }
}

} // verus!
