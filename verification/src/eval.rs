//! The decisions of evaluation: what each operator does with the kinds of
//! its operands. Numbers are doubles, held here as their IEEE-754 bit
//! patterns; the library decides which double operation an operator calls
//! for (`Action::Numeric`) and does everything else itself: strings,
//! booleans, `None`, truthiness, and the errors with their messages.
use vstd::prelude::*;
use vstd::string::StringExecFns;
use crate::text::{line_tag, line_tag_string, string_chars};
use crate::token::{Kind, Token, TokenKind, TokenV, kind_name, kind_name_string};

verus! {

/// A runtime value. A number is the bit pattern of a double.
#[derive(Debug, PartialEq)]
pub enum Value {
    Number(u64),
    Boolean(bool),
    String(String),
    NoneValue,
}

pub enum ValueV {
    Number(u64),
    Boolean(bool),
    Str(Seq<char>),
    NoneValue,
}

impl View for Value {
    type V = ValueV;

    open spec fn view(&self) -> ValueV {
        match self {
            Value::Number(x) => ValueV::Number(*x),
            Value::Boolean(b) => ValueV::Boolean(*b),
            Value::String(s) => ValueV::Str(s@),
            Value::NoneValue => ValueV::NoneValue,
        }
    }
}

impl Clone for Value {
    fn clone(&self) -> (res: Self)
        ensures
            res@ == self@,
    {
        match self {
            Value::Number(x) => Value::Number(*x),
            Value::Boolean(b) => Value::Boolean(*b),
            Value::String(s) => Value::String(s.clone()),
            Value::NoneValue => Value::NoneValue,
        }
    }
}

/// The bits of the double 1.0.
pub const ONE_BITS: u64 = 0x3FF0_0000_0000_0000u64;

/// The double that a boolean counts as: 1.0 or 0.0.
pub open spec fn bool_bits(b: bool) -> u64 {
    if b { ONE_BITS } else { 0 }
}

/// Whether a double equals zero: +0.0 and -0.0 are the only doubles that
/// do, the ones with every bit but the sign clear.
pub open spec fn is_zero_bits(x: u64) -> bool {
    x & 0x7FFF_FFFF_FFFF_FFFFu64 == 0
}

/// Whether a value counts as true: a nonzero number, `True`, a non-empty string.
pub open spec fn truthy(v: ValueV) -> bool {
    match v {
        ValueV::Boolean(b) => b,
        ValueV::Number(x) => !is_zero_bits(x),
        ValueV::Str(s) => s.len() > 0,
        ValueV::NoneValue => false,
    }
}

/// The operations on doubles that evaluation calls for: the first four and
/// `Neg` give a number (`Neg` negates `x`), the others compare `x` with `y`.
#[derive(Debug, PartialEq, Eq, Clone, Copy)]
pub enum NumOp {
    Add,
    Sub,
    Mul,
    Div,
    Neg,
    Greater,
    GreaterEqual,
    Less,
    LessEqual,
    Equal,
    NotEqual,
}

/// What an operator does with its operands.
#[derive(Debug)]
pub enum Action {
    /// The result, computed without floating point.
    Done(Value),
    /// The result is `x op y` on doubles.
    Numeric { op: NumOp, x: u64, y: u64 },
    /// The result is `text` repeated by the double `count`, which must be a
    /// whole number (see `repeat_result`).
    Repeat { line: usize, text: String, count: u64 },
    /// The operands do not fit the operator; the error names both.
    InvalidArguments { line: usize, symbol: String, left: Value, right: Value },
    /// An evaluation error with this message.
    Fail(String),
}

pub enum ActionV {
    Done(ValueV),
    Numeric { op: NumOp, x: u64, y: u64 },
    Repeat { line: nat, text: Seq<char>, count: u64 },
    InvalidArguments { line: nat, symbol: Seq<char>, left: ValueV, right: ValueV },
    Fail(Seq<char>),
}

impl View for Action {
    type V = ActionV;

    open spec fn view(&self) -> ActionV {
        match self {
            Action::Done(v) => ActionV::Done(v@),
            Action::Numeric { op, x, y } => ActionV::Numeric { op: *op, x: *x, y: *y },
            Action::Repeat { line, text, count } => ActionV::Repeat { line: *line as nat, text: text@, count: *count },
            Action::InvalidArguments { line, symbol, left, right } =>
                ActionV::InvalidArguments { line: *line as nat, symbol: symbol@, left: left@, right: right@ },
            Action::Fail(m) => ActionV::Fail(m@),
        }
    }
}

/// Whether `s` comes before `t` in the order of their characters.
pub open spec fn str_less(s: Seq<char>, t: Seq<char>) -> bool
    decreases s.len(),
{
    if s.len() == 0 {
        t.len() > 0
    } else if t.len() == 0 {
        false
    } else if s[0] != t[0] {
        s[0] < t[0]
    } else {
        str_less(s.drop_first(), t.drop_first())
    }
}

/// `s` written `n` times.
pub open spec fn repeat(s: Seq<char>, n: nat) -> Seq<char>
    decreases n,
{
    if n == 0 {
        seq![]
    } else {
        repeat(s, (n - 1) as nat) + s
    }
}

/// How a value other than a number is written.
pub open spec fn plain_text(v: ValueV) -> Seq<char> {
    match v {
        ValueV::Boolean(b) => if b { "True"@ } else { "False"@ },
        ValueV::Str(s) => s,
        ValueV::NoneValue => "None"@,
        ValueV::Number(_) => seq![],
    }
}

pub open spec fn unary_action(op: TokenV, v: ValueV) -> ActionV {
    match op.kind {
        Kind::Minus => match v {
            ValueV::Number(x) => ActionV::Numeric { op: NumOp::Neg, x, y: 0 },
            ValueV::Boolean(b) => ActionV::Numeric { op: NumOp::Neg, x: bool_bits(b), y: 0 },
            _ => ActionV::Fail(line_tag(op.line) + ": Bad operand type for unary -: '"@ + plain_text(v) + "'"@),
        },
        Kind::Not => ActionV::Done(ValueV::Boolean(!truthy(v))),
        k => ActionV::Fail(line_tag(op.line) + ": Invalid unary operator: "@ + kind_name(k)),
    }
}

/// `+ - *` on numbers and booleans; `flip` when the boolean may come first
/// but the number stays the left operand.
pub open spec fn arith(op: NumOp, l: ValueV, r: ValueV, flip: bool) -> Option<ActionV> {
    match (l, r) {
        (ValueV::Number(x), ValueV::Number(y)) => Some(ActionV::Numeric { op, x, y }),
        (ValueV::Number(x), ValueV::Boolean(b)) => Some(ActionV::Numeric { op, x, y: bool_bits(b) }),
        (ValueV::Boolean(b), ValueV::Number(x)) => if flip {
            Some(ActionV::Numeric { op, x, y: bool_bits(b) })
        } else {
            Some(ActionV::Numeric { op, x: bool_bits(b), y: x })
        },
        (ValueV::Boolean(b), ValueV::Boolean(c)) => Some(ActionV::Numeric { op, x: bool_bits(b), y: bool_bits(c) }),
        _ => None,
    }
}

/// The comparisons `> >= < <=`: of numbers and booleans as doubles, of
/// strings by their characters.
pub open spec fn compare(op: NumOp, line: nat, symbol: Seq<char>, l: ValueV, r: ValueV) -> ActionV {
    match (l, r) {
        (ValueV::Str(s), ValueV::Str(t)) => ActionV::Done(ValueV::Boolean(
            match op {
                NumOp::Greater => str_less(t, s),
                NumOp::GreaterEqual => !str_less(s, t),
                NumOp::Less => str_less(s, t),
                _ => !str_less(t, s),
            },
        )),
        _ => match arith(op, l, r, false) {
            Some(a) => a,
            None => ActionV::InvalidArguments { line, symbol, left: l, right: r },
        },
    }
}

/// `==` (or `!=` where `negate`): numbers against numbers or booleans as
/// doubles, and otherwise equal kinds with equal contents.
pub open spec fn equality(negate: bool, l: ValueV, r: ValueV) -> ActionV {
    let op = if negate { NumOp::NotEqual } else { NumOp::Equal };
    match (l, r) {
        (ValueV::Number(n), ValueV::Boolean(b)) => ActionV::Numeric { op, x: n, y: bool_bits(b) },
        (ValueV::Boolean(b), ValueV::Number(n)) => ActionV::Numeric { op, x: n, y: bool_bits(b) },
        (ValueV::Number(x), ValueV::Number(y)) => ActionV::Numeric { op, x, y },
        (ValueV::Boolean(a), ValueV::Boolean(b)) => ActionV::Done(ValueV::Boolean((a == b) != negate)),
        (ValueV::Str(s), ValueV::Str(t)) => ActionV::Done(ValueV::Boolean((s == t) != negate)),
        (ValueV::NoneValue, ValueV::NoneValue) => ActionV::Done(ValueV::Boolean(!negate)),
        _ => ActionV::Done(ValueV::Boolean(negate)),
    }
}

pub open spec fn msg_divide_by_zero(line: nat) -> Seq<char> {
    line_tag(line) + ": Cannot divide by zero"@
}

pub open spec fn msg_divide_by_false(line: nat) -> Seq<char> {
    line_tag(line) + ": Cannot divide by False == zero"@
}

pub open spec fn divide(line: nat, l: ValueV, r: ValueV) -> ActionV {
    match (l, r) {
        (ValueV::Number(x), ValueV::Number(y)) => if is_zero_bits(y) {
            ActionV::Fail(msg_divide_by_zero(line))
        } else {
            ActionV::Numeric { op: NumOp::Div, x, y }
        },
        (ValueV::Number(x), ValueV::Boolean(p)) => if !p {
            ActionV::Fail(msg_divide_by_false(line))
        } else {
            ActionV::Numeric { op: NumOp::Div, x, y: ONE_BITS }
        },
        (ValueV::Boolean(b), ValueV::Number(x)) => if is_zero_bits(x) {
            ActionV::Fail(msg_divide_by_zero(line))
        } else {
            ActionV::Numeric { op: NumOp::Div, x: bool_bits(b), y: x }
        },
        (ValueV::Boolean(b), ValueV::Boolean(p)) => if !p {
            ActionV::Fail(msg_divide_by_false(line))
        } else {
            ActionV::Numeric { op: NumOp::Div, x: bool_bits(b), y: ONE_BITS }
        },
        _ => ActionV::InvalidArguments { line, symbol: "/"@, left: l, right: r },
    }
}

pub open spec fn multiply(line: nat, l: ValueV, r: ValueV) -> ActionV {
    match (l, r) {
        (ValueV::Str(s), ValueV::Number(n)) => ActionV::Repeat { line, text: s, count: n },
        (ValueV::Number(n), ValueV::Str(s)) => ActionV::Repeat { line, text: s, count: n },
        (ValueV::Str(s), ValueV::Boolean(b)) => ActionV::Done(ValueV::Str(if b { s } else { seq![] })),
        (ValueV::Boolean(b), ValueV::Str(s)) => ActionV::Done(ValueV::Str(if b { s } else { seq![] })),
        _ => match arith(NumOp::Mul, l, r, true) {
            Some(a) => a,
            None => ActionV::InvalidArguments { line, symbol: "*"@, left: l, right: r },
        },
    }
}

/// What the binary operator `op` does with `l` and `r`.
pub open spec fn binary_action(op: TokenV, l: ValueV, r: ValueV) -> ActionV {
    let line = op.line;
    match op.kind {
        Kind::Plus => match (l, r) {
            (ValueV::Str(s), ValueV::Str(t)) => ActionV::Done(ValueV::Str(s + t)),
            _ => match arith(NumOp::Add, l, r, true) {
                Some(a) => a,
                None => ActionV::InvalidArguments { line, symbol: "+"@, left: l, right: r },
            },
        },
        Kind::Minus => match arith(NumOp::Sub, l, r, false) {
            Some(a) => a,
            None => ActionV::InvalidArguments { line, symbol: "-"@, left: l, right: r },
        },
        Kind::Star => multiply(line, l, r),
        Kind::Slash => divide(line, l, r),
        Kind::EqualEqual => equality(false, l, r),
        Kind::BangEqual => equality(true, l, r),
        Kind::Greater => compare(NumOp::Greater, line, ">"@, l, r),
        Kind::GreaterEqual => compare(NumOp::GreaterEqual, line, ">="@, l, r),
        Kind::Less => compare(NumOp::Less, line, "<"@, l, r),
        Kind::LessEqual => compare(NumOp::LessEqual, line, "<="@, l, r),
        k => ActionV::Fail(line_tag(line) + ": Invalid binary operator: "@ + kind_name(k)),
    }
}

pub open spec fn msg_cannot_convert_string(s: Seq<char>) -> Seq<char> {
    "Cannot convert String to f64: "@ + s
}

pub open spec fn msg_fractional(line: nat) -> Seq<char> {
    line_tag(line) + ": Can't multiply strings by fractional numbers"@
}

pub open spec fn msg_invalid_arguments(line: nat, symbol: Seq<char>, left: Seq<char>, right: Seq<char>) -> Seq<char> {
    line_tag(line) + ": Invalid arguments to binary operator "@ + symbol + ": "@ + left + ", "@ + right
}

impl Value {
    /// Whether the value counts as true.
    pub fn is_truthy(&self) -> (r: bool)
        ensures
            r == truthy(self@),
    {
        match self {
            Value::Boolean(b) => *b,
            Value::Number(x) => *x & 0x7FFF_FFFF_FFFF_FFFFu64 != 0,
            Value::String(s) => !s.as_str().is_empty(),
            Value::NoneValue => false,
        }
    }

    /// The double a number or a boolean stands for, as its bits.
    pub fn as_number(&self) -> (r: Result<u64, crate::error::CarlaeError>)
        ensures
            match self@ {
                ValueV::Number(x) => r == Ok::<u64, crate::error::CarlaeError>(x),
                ValueV::Boolean(b) => r == Ok::<u64, crate::error::CarlaeError>(bool_bits(b)),
                ValueV::Str(s) => r matches Err(crate::error::CarlaeError::Evaluation(m)) && m@ == msg_cannot_convert_string(s),
                ValueV::NoneValue => r matches Err(crate::error::CarlaeError::Evaluation(m)) && m@ == "Cannot convert None to f64"@,
            },
    {
        match self {
            Value::Number(x) => Ok(*x),
            Value::Boolean(b) => Ok(if *b { ONE_BITS } else { 0 }),
            Value::String(s) => {
                let mut m = String::from_str("Cannot convert String to f64: ");
                m.append(s.as_str());
                Err(crate::error::CarlaeError::Evaluation(m))
            },
            Value::NoneValue => Err(crate::error::CarlaeError::Evaluation(String::from_str("Cannot convert None to f64"))),
        }
    }

    /// How the value is written, where it is not a number.
    pub fn plain_text(&self) -> (r: Option<String>)
        ensures
            (self@ is Number) == (r is None),
            r matches Some(t) ==> t@ == plain_text(self@),
    {
        match self {
            Value::Number(_) => None,
            Value::Boolean(b) => Some(if *b { String::from_str("True") } else { String::from_str("False") }),
            Value::String(s) => Some(s.clone()),
            Value::NoneValue => Some(String::from_str("None")),
        }
    }
}

fn string_less(s: &String, t: &String) -> (r: bool)
    ensures
        r == str_less(s@, t@),
{
    let a = string_chars(s);
    let b = string_chars(t);
    let mut i: usize = 0;
    assert(a@.skip(0) =~= a@);
    assert(b@.skip(0) =~= b@);
    while i < a.len() && i < b.len() && a[i] == b[i]
        invariant
            i <= a@.len(),
            i <= b@.len(),
            str_less(a@.skip(i as int), b@.skip(i as int)) == str_less(s@, t@),
        decreases a@.len() - i,
    {
        assert(a@.skip(i as int).drop_first() =~= a@.skip(i + 1));
        assert(b@.skip(i as int).drop_first() =~= b@.skip(i + 1));
        i = i + 1;
    }
    if i == a.len() {
        i < b.len()
    } else if i == b.len() {
        false
    } else {
        a[i] < b[i]
    }
}

fn concat(s: &String, t: &String) -> (r: String)
    ensures
        r@ == s@ + t@,
{
    let mut r = s.clone();
    r.append(t.as_str());
    r
}

fn bits_of(b: bool) -> (x: u64)
    ensures
        x == bool_bits(b),
{
    if b { ONE_BITS } else { 0 }
}

fn symbol(text: &str) -> (s: String)
    ensures
        s@ == text@,
{
    String::from_str(text)
}

/// What the unary operator `operator` does with `operand`.
pub fn unary(operator: &Token, operand: Value) -> (a: Action)
    ensures
        a@ == unary_action(operator@, operand@),
{
    match &operator.kind {
        TokenKind::Minus => match operand {
            Value::Number(x) => Action::Numeric { op: NumOp::Neg, x, y: 0 },
            Value::Boolean(b) => Action::Numeric { op: NumOp::Neg, x: bits_of(b), y: 0 },
            other => {
                let mut m = line_tag_string(operator.line);
                m.append(": Bad operand type for unary -: '");
                match other.plain_text() {
                    Some(t) => m.append(t.as_str()),
                    None => {},
                }
                m.append("'");
                Action::Fail(m)
            },
        },
        TokenKind::Not => Action::Done(Value::Boolean(!operand.is_truthy())),
        k => {
            let mut m = line_tag_string(operator.line);
            m.append(": Invalid unary operator: ");
            let name = kind_name_string(k);
            m.append(name.as_str());
            Action::Fail(m)
        },
    }
}

fn arith_action(op: NumOp, left: &Value, right: &Value, flip: bool) -> (a: Option<Action>)
    ensures
        match arith(op, left@, right@, flip) {
            Some(x) => a matches Some(y) && y@ == x,
            None => a is None,
        },
{
    match (left, right) {
        (Value::Number(x), Value::Number(y)) => Some(Action::Numeric { op, x: *x, y: *y }),
        (Value::Number(x), Value::Boolean(b)) => Some(Action::Numeric { op, x: *x, y: bits_of(*b) }),
        (Value::Boolean(b), Value::Number(x)) => if flip {
            Some(Action::Numeric { op, x: *x, y: bits_of(*b) })
        } else {
            Some(Action::Numeric { op, x: bits_of(*b), y: *x })
        },
        (Value::Boolean(b), Value::Boolean(c)) => Some(Action::Numeric { op, x: bits_of(*b), y: bits_of(*c) }),
        _ => None,
    }
}

fn arith_or_invalid(op: NumOp, line: usize, sym: &str, left: Value, right: Value, flip: bool) -> (a: Action)
    ensures
        a@ == (match arith(op, left@, right@, flip) {
            Some(x) => x,
            None => ActionV::InvalidArguments { line: line as nat, symbol: sym@, left: left@, right: right@ },
        }),
{
    match arith_action(op, &left, &right, flip) {
        Some(a) => a,
        None => Action::InvalidArguments { line, symbol: symbol(sym), left, right },
    }
}

fn compare_action(op: NumOp, line: usize, sym: &str, left: Value, right: Value) -> (a: Action)
    ensures
        a@ == compare(op, line as nat, sym@, left@, right@),
{
    match (&left, &right) {
        (Value::String(s), Value::String(t)) => {
            let r = match op {
                NumOp::Greater => string_less(t, s),
                NumOp::GreaterEqual => !string_less(s, t),
                NumOp::Less => string_less(s, t),
                _ => !string_less(t, s),
            };
            Action::Done(Value::Boolean(r))
        },
        _ => arith_or_invalid(op, line, sym, left, right, false),
    }
}

fn equality_action(negate: bool, left: Value, right: Value) -> (a: Action)
    ensures
        a@ == equality(negate, left@, right@),
{
    let op = if negate { NumOp::NotEqual } else { NumOp::Equal };
    match (left, right) {
        (Value::Number(n), Value::Boolean(b)) => Action::Numeric { op, x: n, y: bits_of(b) },
        (Value::Boolean(b), Value::Number(n)) => Action::Numeric { op, x: n, y: bits_of(b) },
        (Value::Number(x), Value::Number(y)) => Action::Numeric { op, x, y },
        (Value::Boolean(a), Value::Boolean(b)) => Action::Done(Value::Boolean((a == b) != negate)),
        (Value::String(s), Value::String(t)) => Action::Done(Value::Boolean((s == t) != negate)),
        (Value::NoneValue, Value::NoneValue) => Action::Done(Value::Boolean(!negate)),
        _ => Action::Done(Value::Boolean(negate)),
    }
}

fn divide_error(line: usize, text: &str) -> (a: Action)
    ensures
        a@ == ActionV::Fail(line_tag(line as nat) + text@),
{
    let mut m = line_tag_string(line);
    m.append(text);
    Action::Fail(m)
}

fn divide_action(line: usize, left: Value, right: Value) -> (a: Action)
    ensures
        a@ == divide(line as nat, left@, right@),
{
    match (left, right) {
        (Value::Number(x), Value::Number(y)) => if y & 0x7FFF_FFFF_FFFF_FFFFu64 == 0 {
            divide_error(line, ": Cannot divide by zero")
        } else {
            Action::Numeric { op: NumOp::Div, x, y }
        },
        (Value::Number(x), Value::Boolean(p)) => if !p {
            divide_error(line, ": Cannot divide by False == zero")
        } else {
            Action::Numeric { op: NumOp::Div, x, y: ONE_BITS }
        },
        (Value::Boolean(b), Value::Number(x)) => if x & 0x7FFF_FFFF_FFFF_FFFFu64 == 0 {
            divide_error(line, ": Cannot divide by zero")
        } else {
            Action::Numeric { op: NumOp::Div, x: bits_of(b), y: x }
        },
        (Value::Boolean(b), Value::Boolean(p)) => if !p {
            divide_error(line, ": Cannot divide by False == zero")
        } else {
            Action::Numeric { op: NumOp::Div, x: bits_of(b), y: ONE_BITS }
        },
        (l, r) => Action::InvalidArguments { line, symbol: symbol("/"), left: l, right: r },
    }
}

fn multiply_action(line: usize, left: Value, right: Value) -> (a: Action)
    ensures
        a@ == multiply(line as nat, left@, right@),
{
    match (left, right) {
        (Value::String(s), Value::Number(n)) => Action::Repeat { line, text: s, count: n },
        (Value::Number(n), Value::String(s)) => Action::Repeat { line, text: s, count: n },
        (Value::String(s), Value::Boolean(b)) => Action::Done(Value::String(if b { s } else { String::new() })),
        (Value::Boolean(b), Value::String(s)) => Action::Done(Value::String(if b { s } else { String::new() })),
        (l, r) => arith_or_invalid(NumOp::Mul, line, "*", l, r, true),
    }
}

/// What the binary operator `operator` does with `left` and `right`.
pub fn binary(operator: &Token, left: Value, right: Value) -> (a: Action)
    ensures
        a@ == binary_action(operator@, left@, right@),
{
    let line = operator.line;
    match &operator.kind {
        TokenKind::Plus => match (left, right) {
            (Value::String(s), Value::String(t)) => Action::Done(Value::String(concat(&s, &t))),
            (l, r) => arith_or_invalid(NumOp::Add, line, "+", l, r, true),
        },
        TokenKind::Minus => arith_or_invalid(NumOp::Sub, line, "-", left, right, false),
        TokenKind::Star => multiply_action(line, left, right),
        TokenKind::Slash => divide_action(line, left, right),
        TokenKind::EqualEqual => equality_action(false, left, right),
        TokenKind::BangEqual => equality_action(true, left, right),
        TokenKind::Greater => compare_action(NumOp::Greater, line, ">", left, right),
        TokenKind::GreaterEqual => compare_action(NumOp::GreaterEqual, line, ">=", left, right),
        TokenKind::Less => compare_action(NumOp::Less, line, "<", left, right),
        TokenKind::LessEqual => compare_action(NumOp::LessEqual, line, "<=", left, right),
        k => {
            let mut m = line_tag_string(line);
            m.append(": Invalid binary operator: ");
            let name = kind_name_string(k);
            m.append(name.as_str());
            Action::Fail(m)
        },
    }
}

/// The result of a `Repeat` action: `text` written `count` times, where
/// `count` is the whole number of times (`None` where the number has a
/// fractional part, which is refused).
pub fn repeat_result(line: usize, text: &String, count: Option<usize>) -> (r: Result<Value, crate::error::CarlaeError>)
    requires
        count matches Some(n) ==> text@.len() * n <= usize::MAX,
    ensures
        match count {
            Some(n) => r matches Ok(v) && v@ == ValueV::Str(repeat(text@, n as nat)),
            None => r matches Err(crate::error::CarlaeError::Evaluation(m)) && m@ == msg_fractional(line as nat),
        },
{
    match count {
        Some(n) => {
            let mut out = String::new();
            let mut i: usize = 0;
            assert(out@ =~= repeat(text@, 0));
            while i < n
                invariant
                    i <= n,
                    out@ == repeat(text@, i as nat),
                decreases n - i,
            {
                out.append(text.as_str());
                i = i + 1;
            }
            Ok(Value::String(out))
        },
        None => {
            let mut m = line_tag_string(line);
            m.append(": Can't multiply strings by fractional numbers");
            Err(crate::error::CarlaeError::Evaluation(m))
        },
    }
}

/// The error for operands that do not fit a binary operator, given how
/// each operand is written.
pub fn invalid_arguments(line: usize, symbol: &String, left_text: &String, right_text: &String) -> (e: crate::error::CarlaeError)
    ensures
        e matches crate::error::CarlaeError::Evaluation(m) && m@ == msg_invalid_arguments(line as nat, symbol@, left_text@, right_text@),
{
    let mut m = line_tag_string(line);
    m.append(": Invalid arguments to binary operator ");
    m.append(symbol.as_str());
    m.append(": ");
    m.append(left_text.as_str());
    m.append(", ");
    m.append(right_text.as_str());
    crate::error::CarlaeError::Evaluation(m)
}

/// `not` gives the negation of a value's truthiness, so `not not v` gives
/// its truthiness.
pub proof fn law_double_negation(op: TokenV, v: ValueV)
    requires
        op.kind is Not,
    ensures
        unary_action(op, v) == ActionV::Done(ValueV::Boolean(!truthy(v))),
        unary_action(op, ValueV::Boolean(!truthy(v))) == ActionV::Done(ValueV::Boolean(truthy(v))),
{
}

/// `==` and `!=` are defined on every pair of values and give opposite
/// answers: either both results are booleans, one the negation of the
/// other, or both compare the same two doubles, one for equality and the
/// other for inequality.
pub proof fn law_equality_complementary(eq: TokenV, ne: TokenV, l: ValueV, r: ValueV)
    requires
        eq.kind is EqualEqual,
        ne.kind is BangEqual,
    ensures
        binary_action(eq, l, r) matches ActionV::Done(ValueV::Boolean(a))
            ==> binary_action(ne, l, r) == ActionV::Done(ValueV::Boolean(!a)),
        binary_action(eq, l, r) matches ActionV::Numeric { op, x, y }
            ==> op == NumOp::Equal && binary_action(ne, l, r) == (ActionV::Numeric { op: NumOp::NotEqual, x, y }),
        binary_action(eq, l, r) is Done || binary_action(eq, l, r) is Numeric,
{
}

proof fn lemma_str_less_asym(s: Seq<char>, t: Seq<char>)
    ensures
        str_less(s, t) ==> !str_less(t, s),
        s != t ==> str_less(s, t) || str_less(t, s),
        !str_less(s, s),
    decreases s.len(),
{
    if s.len() > 0 && t.len() > 0 {
        lemma_str_less_asym(s.drop_first(), t.drop_first());
        if s[0] == t[0] && s != t {
            assert(s.drop_first() != t.drop_first()) by {
                if s.drop_first() == t.drop_first() {
                    assert(s =~= seq![s[0]] + s.drop_first());
                    assert(t =~= seq![t[0]] + t.drop_first());
                }
            }
        }
    } else if s.len() > 0 {
        lemma_str_less_asym(s.drop_first(), s.drop_first());
    } else if t.len() == 0 {
        assert(s =~= t);
    }
}

/// Strings are ordered totally by their characters: of two different
/// strings exactly one comes first; `<` and `>` are converse, and `>=`,
/// `<=` are the negations of `<`, `>`.
pub proof fn law_string_order(lt: TokenV, gt: TokenV, le: TokenV, ge: TokenV, s: Seq<char>, t: Seq<char>)
    requires
        lt.kind is Less,
        gt.kind is Greater,
        le.kind is LessEqual,
        ge.kind is GreaterEqual,
    ensures
        binary_action(lt, ValueV::Str(s), ValueV::Str(t)) == ActionV::Done(ValueV::Boolean(str_less(s, t))),
        binary_action(gt, ValueV::Str(t), ValueV::Str(s)) == binary_action(lt, ValueV::Str(s), ValueV::Str(t)),
        binary_action(ge, ValueV::Str(s), ValueV::Str(t)) == ActionV::Done(ValueV::Boolean(!str_less(s, t))),
        binary_action(le, ValueV::Str(s), ValueV::Str(t)) == ActionV::Done(ValueV::Boolean(!str_less(t, s))),
        str_less(s, t) ==> !str_less(t, s),
        s != t ==> (str_less(s, t) || str_less(t, s)),
        !str_less(s, s),
{
    lemma_str_less_asym(s, t);
    lemma_str_less_asym(s, s);
}

/// Division by zero is refused, whether the zero is a number or `False`.
pub proof fn law_division_by_zero(op: TokenV, l: ValueV, r: ValueV)
    requires
        op.kind is Slash,
        l is Number || l is Boolean,
        r matches ValueV::Number(y) && is_zero_bits(y),
    ensures
        binary_action(op, l, r) == ActionV::Fail(msg_divide_by_zero(op.line)),
{
}

/// Each comparison of two numbers asks for the double comparison of the same
/// name, on the operands in their order: `<` for `Less`, `<=` for
/// `LessEqual`, `>` for `Greater`, `>=` for `GreaterEqual`, `==` for
/// `Equal` and `!=` for `NotEqual`; a boolean operand counts as 1.0 or 0.0.
pub proof fn law_comparisons_on_numbers(op: TokenV, x: u64, y: u64, b: bool)
    ensures
        op.kind is Less ==> binary_action(op, ValueV::Number(x), ValueV::Number(y))
            == (ActionV::Numeric { op: NumOp::Less, x, y }),
        op.kind is LessEqual ==> binary_action(op, ValueV::Number(x), ValueV::Number(y))
            == (ActionV::Numeric { op: NumOp::LessEqual, x, y }),
        op.kind is Greater ==> binary_action(op, ValueV::Number(x), ValueV::Number(y))
            == (ActionV::Numeric { op: NumOp::Greater, x, y }),
        op.kind is GreaterEqual ==> binary_action(op, ValueV::Number(x), ValueV::Number(y))
            == (ActionV::Numeric { op: NumOp::GreaterEqual, x, y }),
        op.kind is EqualEqual ==> binary_action(op, ValueV::Number(x), ValueV::Number(y))
            == (ActionV::Numeric { op: NumOp::Equal, x, y }),
        op.kind is BangEqual ==> binary_action(op, ValueV::Number(x), ValueV::Number(y))
            == (ActionV::Numeric { op: NumOp::NotEqual, x, y }),
        op.kind is LessEqual ==> binary_action(op, ValueV::Boolean(b), ValueV::Number(y))
            == (ActionV::Numeric { op: NumOp::LessEqual, x: if b { 0x3FF0_0000_0000_0000u64 } else { 0 }, y }),
        op.kind is GreaterEqual ==> binary_action(op, ValueV::Number(x), ValueV::Boolean(b))
            == (ActionV::Numeric { op: NumOp::GreaterEqual, x, y: if b { 0x3FF0_0000_0000_0000u64 } else { 0 } }),
{
}

/// Arithmetic on two numbers asks for the double operation of the same name,
/// on the operands in their order: `+` adds, `-` subtracts, `*` multiplies,
/// and `/` divides by a nonzero divisor.
pub proof fn law_arithmetic_on_numbers(op: TokenV, x: u64, y: u64)
    ensures
        op.kind is Plus ==> binary_action(op, ValueV::Number(x), ValueV::Number(y))
            == (ActionV::Numeric { op: NumOp::Add, x, y }),
        op.kind is Minus ==> binary_action(op, ValueV::Number(x), ValueV::Number(y))
            == (ActionV::Numeric { op: NumOp::Sub, x, y }),
        op.kind is Star ==> binary_action(op, ValueV::Number(x), ValueV::Number(y))
            == (ActionV::Numeric { op: NumOp::Mul, x, y }),
        op.kind is Slash && y & 0x7FFF_FFFF_FFFF_FFFFu64 != 0 ==> binary_action(op, ValueV::Number(x), ValueV::Number(y))
            == (ActionV::Numeric { op: NumOp::Div, x, y }),
{
}

/// Unary minus negates: on a number it asks for the negation of that
/// number, on a boolean for the negation of 1.0 or 0.0.
pub proof fn law_unary_minus_negates(op: TokenV, x: u64, b: bool)
    requires
        op.kind is Minus,
    ensures
        unary_action(op, ValueV::Number(x)) == (ActionV::Numeric { op: NumOp::Neg, x, y: 0 }),
        unary_action(op, ValueV::Boolean(b)) == (ActionV::Numeric { op: NumOp::Neg, x: if b { 0x3FF0_0000_0000_0000u64 } else { 0 }, y: 0 }),
{
}

} // verus!
