//! Evaluating an expression. Numbers are doubles, and the library does no
//! floating point: where an expression needs work on doubles, evaluation
//! hands the caller a `Request` and goes on with the caller's answer.
//!
//! `eval` states what an expression evaluates to, for every way of
//! answering the requests. An `Evaluation` walks the expression in that
//! order (left operand, right operand, then the operator) as a stack
//! machine over the expression in postfix order, and `law_evaluation`
//! proves that it gives what `eval` states.
use vstd::prelude::*;
use crate::environment::{Environment, msg_undefined};
use crate::error::CarlaeError;
use crate::eval::{
    Action, ActionV, Value, ValueV, binary, binary_action, invalid_arguments, msg_invalid_arguments, plain_text,
    unary, unary_action,
};
use crate::expr::{Expr, ExprV, LitV, LiteralValue};
use crate::token::{Token, TokenV};

verus! {

/// Work on doubles that evaluation leaves to its caller, as a value.
pub enum RequestV {
    /// The double nearest to a number literal's text.
    Parse(Seq<char>),
    /// An action that needs doubles (`Numeric` or `Repeat`).
    Perform(ActionV),
    /// How the double with these bits is written.
    Render(u64),
}

/// The text an answer gives: the value written out, or the error's message.
pub open spec fn answer_text(r: Result<ValueV, Seq<char>>) -> Seq<char> {
    match r {
        Ok(v) => plain_text(v),
        Err(m) => m,
    }
}

/// How an operand is written in an error: a number as the caller writes
/// its double, any other value as `plain_text` gives it.
pub open spec fn operand_text(
    v: ValueV,
    answer: spec_fn(RequestV) -> Result<ValueV, Seq<char>>,
) -> Seq<char> {
    match v {
        ValueV::Number(b) => answer_text(answer(RequestV::Render(b))),
        _ => plain_text(v),
    }
}

/// The value of a literal other than a number.
pub open spec fn plain_literal(l: LitV) -> ValueV {
    match l {
        LitV::Boolean(b) => ValueV::Boolean(b),
        LitV::Str(s) => ValueV::Str(s),
        LitV::NoneValue => ValueV::NoneValue,
        LitV::Number(_) => ValueV::NoneValue,
    }
}

/// The value of a literal, where a number's value is the answer to its request.
pub open spec fn literal_result(
    l: LitV,
    answer: spec_fn(RequestV) -> Result<ValueV, Seq<char>>,
) -> Result<ValueV, Seq<char>> {
    match l {
        LitV::Number(t) => answer(RequestV::Parse(t)),
        _ => Ok(plain_literal(l)),
    }
}

/// The value bound to a variable, or the error for an unbound one.
pub open spec fn lookup(env: Map<Seq<char>, ValueV>, name: TokenV) -> Result<ValueV, Seq<char>> {
    if env.contains_key(name.lexeme) {
        Ok(env[name.lexeme])
    } else {
        Err(msg_undefined(name.line, name.lexeme))
    }
}

/// What an operator's action comes to: its value; its error, which for
/// operands that do not fit the operator names both operands; or the answer
/// to the request for the work on doubles that it needs.
pub open spec fn settle(
    a: ActionV,
    answer: spec_fn(RequestV) -> Result<ValueV, Seq<char>>,
) -> Result<ValueV, Seq<char>> {
    match a {
        ActionV::Done(v) => Ok(v),
        ActionV::Fail(m) => Err(m),
        ActionV::InvalidArguments { line, symbol, left, right } => Err(
            msg_invalid_arguments(line, symbol, operand_text(left, answer), operand_text(right, answer)),
        ),
        _ => answer(RequestV::Perform(a)),
    }
}

/// What `e` evaluates to in `env`, where `answer` gives the answer to each
/// request for work on doubles: the operands are evaluated left to right,
/// and the first error ends the evaluation.
pub open spec fn eval(
    e: ExprV,
    env: Map<Seq<char>, ValueV>,
    answer: spec_fn(RequestV) -> Result<ValueV, Seq<char>>,
) -> Result<ValueV, Seq<char>>
    decreases e,
{
    match e {
        ExprV::Literal(l) => literal_result(l, answer),
        ExprV::Variable(name) => lookup(env, name),
        ExprV::Grouping(inner) => eval(*inner, env, answer),
        ExprV::Unary { operator, right } => match eval(*right, env, answer) {
            Ok(v) => settle(unary_action(operator, v), answer),
            Err(m) => Err(m),
        },
        ExprV::Binary { left, operator, right } => match eval(*left, env, answer) {
            Ok(a) => match eval(*right, env, answer) {
                Ok(b) => settle(binary_action(operator, a, b), answer),
                Err(m) => Err(m),
            },
            Err(m) => Err(m),
        },
    }
}

/// One step of an expression in postfix order.
pub enum InstrV {
    Literal(LitV),
    Load(TokenV),
    Unary(TokenV),
    Binary(TokenV),
}

/// `e` in postfix order: operands before their operator.
pub open spec fn postfix(e: ExprV) -> Seq<InstrV>
    decreases e,
{
    match e {
        ExprV::Literal(l) => seq![InstrV::Literal(l)],
        ExprV::Variable(name) => seq![InstrV::Load(name)],
        ExprV::Grouping(inner) => postfix(*inner),
        ExprV::Unary { operator, right } => postfix(*right).push(InstrV::Unary(operator)),
        ExprV::Binary { left, operator, right } =>
            postfix(*left) + postfix(*right) + seq![InstrV::Binary(operator)],
    }
}

/// Whether `code` runs on a stack of `depth` values without running short,
/// and leaves exactly one value.
pub open spec fn fits(code: Seq<InstrV>, depth: nat) -> bool
    decreases code.len(),
{
    if code.len() == 0 {
        depth == 1
    } else {
        match code[0] {
            InstrV::Literal(_) => fits(code.drop_first(), depth + 1),
            InstrV::Load(_) => fits(code.drop_first(), depth + 1),
            InstrV::Unary(_) => depth >= 1 && fits(code.drop_first(), depth),
            InstrV::Binary(_) => depth >= 2 && fits(code.drop_first(), (depth - 1) as nat),
        }
    }
}

/// What running `code` on `stack` gives: the one value left at the end, or
/// the first error.
pub open spec fn run(
    code: Seq<InstrV>,
    stack: Seq<ValueV>,
    env: Map<Seq<char>, ValueV>,
    answer: spec_fn(RequestV) -> Result<ValueV, Seq<char>>,
) -> Result<ValueV, Seq<char>>
    decreases code.len(),
{
    if code.len() == 0 {
        Ok(stack.last())
    } else {
        let rest = code.drop_first();
        let n = stack.len();
        let (r, below) = match code[0] {
            InstrV::Literal(l) => (literal_result(l, answer), stack),
            InstrV::Load(name) => (lookup(env, name), stack),
            InstrV::Unary(op) => (settle(unary_action(op, stack[n - 1]), answer), stack.take(n - 1)),
            InstrV::Binary(op) => (
                settle(binary_action(op, stack[n - 2], stack[n - 1]), answer),
                stack.take(n - 2),
            ),
        };
        match r {
            Ok(v) => run(rest, below.push(v), env, answer),
            Err(m) => Err(m),
        }
    }
}

proof fn lemma_fits_postfix(e: ExprV, k: Seq<InstrV>, depth: nat)
    ensures
        fits(postfix(e) + k, depth) == fits(k, depth + 1),
    decreases e,
{
    match e {
        ExprV::Literal(l) => {
            assert((postfix(e) + k).drop_first() =~= k);
        },
        ExprV::Variable(name) => {
            assert((postfix(e) + k).drop_first() =~= k);
        },
        ExprV::Grouping(inner) => {
            lemma_fits_postfix(*inner, k, depth);
        },
        ExprV::Unary { operator, right } => {
            let k1 = seq![InstrV::Unary(operator)] + k;
            assert(postfix(e) + k =~= postfix(*right) + k1);
            lemma_fits_postfix(*right, k1, depth);
            assert(k1.drop_first() =~= k);
        },
        ExprV::Binary { left, operator, right } => {
            let k2 = seq![InstrV::Binary(operator)] + k;
            let k1 = postfix(*right) + k2;
            assert(postfix(e) + k =~= postfix(*left) + k1);
            lemma_fits_postfix(*left, k1, depth);
            lemma_fits_postfix(*right, k2, depth + 1);
            assert(k2.drop_first() =~= k);
        },
    }
}

proof fn lemma_run_postfix(
    e: ExprV,
    k: Seq<InstrV>,
    stack: Seq<ValueV>,
    env: Map<Seq<char>, ValueV>,
    answer: spec_fn(RequestV) -> Result<ValueV, Seq<char>>,
)
    ensures
        run(postfix(e) + k, stack, env, answer) == match eval(e, env, answer) {
            Ok(v) => run(k, stack.push(v), env, answer),
            Err(m) => Err(m),
        },
    decreases e,
{
    match e {
        ExprV::Literal(l) => {
            assert((postfix(e) + k).drop_first() =~= k);
        },
        ExprV::Variable(name) => {
            assert((postfix(e) + k).drop_first() =~= k);
        },
        ExprV::Grouping(inner) => {
            lemma_run_postfix(*inner, k, stack, env, answer);
        },
        ExprV::Unary { operator, right } => {
            let k1 = seq![InstrV::Unary(operator)] + k;
            assert(postfix(e) + k =~= postfix(*right) + k1);
            lemma_run_postfix(*right, k1, stack, env, answer);
            assert(k1.drop_first() =~= k);
            match eval(*right, env, answer) {
                Ok(v) => {
                    let s1 = stack.push(v);
                    assert(s1.take(s1.len() - 1) =~= stack);
                },
                Err(m) => {},
            }
        },
        ExprV::Binary { left, operator, right } => {
            let k2 = seq![InstrV::Binary(operator)] + k;
            let k1 = postfix(*right) + k2;
            assert(postfix(e) + k =~= postfix(*left) + k1);
            lemma_run_postfix(*left, k1, stack, env, answer);
            assert(k2.drop_first() =~= k);
            match eval(*left, env, answer) {
                Ok(a) => {
                    lemma_run_postfix(*right, k2, stack.push(a), env, answer);
                    match eval(*right, env, answer) {
                        Ok(b) => {
                            let s2 = stack.push(a).push(b);
                            assert(s2.take(s2.len() - 2) =~= stack);
                        },
                        Err(m) => {},
                    }
                },
                Err(m) => {},
            }
        },
    }
}

/// Running an expression in postfix order on an empty stack gives what the
/// expression evaluates to, for every environment and every way of
/// answering the requests; and it never runs short of operands.
pub proof fn law_evaluation(
    e: ExprV,
    env: Map<Seq<char>, ValueV>,
    answer: spec_fn(RequestV) -> Result<ValueV, Seq<char>>,
)
    ensures
        fits(postfix(e), 0),
        run(postfix(e), seq![], env, answer) == eval(e, env, answer),
{
    let empty = Seq::<InstrV>::empty();
    assert(postfix(e) + empty =~= postfix(e));
    lemma_fits_postfix(e, empty, 0);
    lemma_run_postfix(e, empty, seq![], env, answer);
}

/// Operands that do not fit their operator always end the evaluation with
/// an error, whatever the caller answers; so does dividing when an operand
/// is a string or `None`.
pub proof fn law_unfit_operands_fail(
    op: TokenV,
    l: ValueV,
    r: ValueV,
    answer: spec_fn(RequestV) -> Result<ValueV, Seq<char>>,
)
    ensures
        binary_action(op, l, r) is InvalidArguments ==> settle(binary_action(op, l, r), answer) is Err,
        op.kind is Slash && (l is Str || l is NoneValue || r is Str || r is NoneValue)
            ==> settle(binary_action(op, l, r), answer) is Err,
{
}

/// Work on doubles that evaluation leaves to its caller.
#[derive(Debug)]
pub enum Request {
    /// The double nearest to a number literal's text; the answer is the
    /// number, or an error where the text is no number.
    Parse(String),
    /// An action that needs doubles: `Numeric` is answered with the result
    /// of the operation on doubles, `Repeat` with `repeat_result` for the
    /// whole count.
    Perform(Action),
    /// How the double with these bits is written, answered as a string
    /// value; it names a number operand in the error for operands that do
    /// not fit their operator.
    Render(u64),
}

impl View for Request {
    type V = RequestV;

    open spec fn view(&self) -> RequestV {
        match self {
            Request::Parse(t) => RequestV::Parse(t@),
            Request::Perform(a) => RequestV::Perform(a@),
            Request::Render(b) => RequestV::Render(*b),
        }
    }
}

/// One step of an expression in postfix order.
pub enum Instr {
    Literal(LiteralValue),
    Load(Token),
    Unary(Token),
    Binary(Token),
}

impl View for Instr {
    type V = InstrV;

    open spec fn view(&self) -> InstrV {
        match self {
            Instr::Literal(l) => InstrV::Literal(l@),
            Instr::Load(t) => InstrV::Load(t@),
            Instr::Unary(t) => InstrV::Unary(t@),
            Instr::Binary(t) => InstrV::Binary(t@),
        }
    }
}

impl Clone for Instr {
    fn clone(&self) -> (res: Self)
        ensures
            res@ == self@,
    {
        match self {
            Instr::Literal(l) => Instr::Literal(l.clone()),
            Instr::Load(t) => Instr::Load(t.clone()),
            Instr::Unary(t) => Instr::Unary(t.clone()),
            Instr::Binary(t) => Instr::Binary(t.clone()),
        }
    }
}

pub open spec fn instrs_view(s: Seq<Instr>) -> Seq<InstrV> {
    s.map_values(|i: Instr| i@)
}

pub open spec fn values_view(s: Seq<Value>) -> Seq<ValueV> {
    s.map_values(|v: Value| v@)
}

/// The values bound in an environment.
pub open spec fn env_values(env: &Environment<Value>) -> Map<Seq<char>, ValueV> {
    env.bindings().map_values(|v: Value| v@)
}

/// An answer to a request, as a value.
pub open spec fn answer_view(a: Result<Value, String>) -> Result<ValueV, Seq<char>> {
    match a {
        Ok(v) => Ok(v@),
        Err(m) => Err(m@),
    }
}

/// Whether a finished evaluation's result is `outcome`: the value, or an
/// evaluation error with the message.
pub open spec fn finished_as(r: Result<Value, CarlaeError>, outcome: Result<ValueV, Seq<char>>) -> bool {
    match outcome {
        Ok(v) => r matches Ok(x) && x@ == v,
        Err(m) => r matches Err(CarlaeError::Evaluation(x)) && x@ == m,
    }
}

/// Appends `e` in postfix order to `out`.
fn compile(e: &Expr, out: &mut Vec<Instr>)
    ensures
        instrs_view(final(out)@) == instrs_view(old(out)@) + postfix(e@),
    decreases e,
{
    let ghost start = instrs_view(out@);
    match e {
        Expr::Literal(l) => {
            out.push(Instr::Literal(l.clone()));
            assert(instrs_view(out@) =~= start + postfix(e@));
        },
        Expr::Variable(t) => {
            out.push(Instr::Load(t.clone()));
            assert(instrs_view(out@) =~= start + postfix(e@));
        },
        Expr::Grouping(inner) => compile(inner, out),
        Expr::Unary { operator, right } => {
            compile(right, out);
            let ghost mid = instrs_view(out@);
            out.push(Instr::Unary(operator.clone()));
            assert(instrs_view(out@) =~= mid.push(InstrV::Unary(operator@)));
            assert(instrs_view(out@) =~= start + postfix(e@));
        },
        Expr::Binary { left, operator, right } => {
            compile(left, out);
            compile(right, out);
            let ghost mid = instrs_view(out@);
            out.push(Instr::Binary(operator.clone()));
            assert(instrs_view(out@) =~= mid.push(InstrV::Binary(operator@)));
            assert(instrs_view(out@) =~= start + postfix(e@));
        },
    }
}

/// The error for operands that do not fit their operator, being written:
/// the left operand's text once it is known.
struct Describing {
    line: usize,
    symbol: String,
    left: Value,
    right: Value,
    left_text: Option<String>,
}

/// That error, as a value.
pub struct DescribingV {
    pub line: nat,
    pub symbol: Seq<char>,
    pub left: ValueV,
    pub right: ValueV,
    pub left_text: Option<Seq<char>>,
}

impl Describing {
    spec fn view_of(self) -> DescribingV {
        DescribingV {
            line: self.line as nat,
            symbol: self.symbol@,
            left: self.left@,
            right: self.right@,
            left_text: match self.left_text {
                Some(t) => Some(t@),
                None => None,
            },
        }
    }
}

/// What the error comes to: the error naming both operands.
pub open spec fn described(
    d: DescribingV,
    answer: spec_fn(RequestV) -> Result<ValueV, Seq<char>>,
) -> Result<ValueV, Seq<char>> {
    Err(msg_invalid_arguments(
        d.line,
        d.symbol,
        match d.left_text {
            Some(t) => t,
            None => operand_text(d.left, answer),
        },
        operand_text(d.right, answer),
    ))
}

/// The operand whose text is asked for next.
pub open spec fn describing_operand(d: DescribingV) -> ValueV {
    if d.left_text is None { d.left } else { d.right }
}

/// An evaluation under way: the steps still to run and the values computed
/// so far, or the error that it is writing.
pub struct Evaluation {
    code: Vec<Instr>,
    pc: usize,
    stack: Vec<Value>,
    describing: Option<Describing>,
}

/// An evaluation that waits for the answer to a request.
pub struct Suspended {
    code: Vec<Instr>,
    pc: usize,
    stack: Vec<Value>,
    request: Ghost<RequestV>,
    describing: Option<Describing>,
}

/// Where an evaluation has come to: a request to answer, or its result.
pub enum Step {
    Need(Request, Suspended),
    Finished(Result<Value, CarlaeError>),
}

impl Evaluation {
    /// The steps still to run.
    pub closed spec fn remaining(&self) -> Seq<InstrV> {
        instrs_view(self.code@).skip(self.pc as int)
    }

    /// The values computed so far, the last on top.
    pub closed spec fn stack(&self) -> Seq<ValueV> {
        values_view(self.stack@)
    }

    /// The error being written, if the evaluation has come to one.
    pub closed spec fn describing(&self) -> Option<DescribingV> {
        match self.describing {
            Some(d) => Some(d.view_of()),
            None => None,
        }
    }

    #[verifier::type_invariant]
    spec fn wf(&self) -> bool {
        &&& self.pc <= self.code@.len()
        &&& self.describing is None ==> fits(self.remaining(), self.stack().len())
    }

    /// What the evaluation gives from here.
    pub open spec fn outcome(
        &self,
        env: Map<Seq<char>, ValueV>,
        answer: spec_fn(RequestV) -> Result<ValueV, Seq<char>>,
    ) -> Result<ValueV, Seq<char>> {
        match self.describing() {
            Some(d) => described(d, answer),
            None => run(self.remaining(), self.stack(), env, answer),
        }
    }

    /// The evaluation of `e`, not yet started: it comes to what `e`
    /// evaluates to.
    pub fn new(e: &Expr) -> (res: Self)
        ensures
            res.remaining() == postfix(e@),
            res.stack() == Seq::<ValueV>::empty(),
            res.describing() is None,
            forall|env: Map<Seq<char>, ValueV>, answer: spec_fn(RequestV) -> Result<ValueV, Seq<char>>|
                #[trigger] res.outcome(env, answer) == eval(e@, env, answer),
    {
        let mut code: Vec<Instr> = Vec::new();
        compile(e, &mut code);
        proof {
            assert(instrs_view(code@) =~= postfix(e@));
            assert(instrs_view(code@).skip(0) =~= instrs_view(code@));
            assert(values_view(Seq::<Value>::empty()) =~= Seq::<ValueV>::empty());
            law_evaluation(e@, Map::empty(), |r: RequestV| Err(Seq::<char>::empty()));
        }
        let res = Evaluation { code, pc: 0, stack: Vec::new(), describing: None };
        proof {
            assert forall|env: Map<Seq<char>, ValueV>, answer: spec_fn(RequestV) -> Result<ValueV, Seq<char>>|
                #[trigger] res.outcome(env, answer) == eval(e@, env, answer) by {
                law_evaluation(e@, env, answer);
            }
        }
        res
    }

    /// Runs the evaluation until it needs work on doubles or ends: gives the
    /// request and the suspended evaluation, which comes to what this one
    /// does for every answer; or the result, which is what this evaluation
    /// comes to.
    pub fn step(self, env: &Environment<Value>) -> (s: Step)
        ensures
            match s {
                Step::Finished(r) => forall|answer: spec_fn(RequestV) -> Result<ValueV, Seq<char>>|
                    finished_as(r, #[trigger] self.outcome(env_values(env), answer)),
                Step::Need(req, next) => next.request() == req@
                    && forall|answer: spec_fn(RequestV) -> Result<ValueV, Seq<char>>|
                        #[trigger] next.outcome(env_values(env), answer) == self.outcome(env_values(env), answer),
            },
    {
        proof {
            use_type_invariant(&self);
        }
        let ghost env_v = env_values(env);
        let ghost original = self;
        let Evaluation { code, pc, stack, describing } = self;
        if let Some(d) = describing {
            return describe_step(code, pc, stack, d);
        }
        let mut pc = pc;
        let mut stack = stack;
        loop
            invariant
                pc <= code@.len(),
                fits(instrs_view(code@).skip(pc as int), values_view(stack@).len()),
                env_v == env_values(env),
                original == self,
                forall|answer: spec_fn(RequestV) -> Result<ValueV, Seq<char>>|
                    #[trigger] original.outcome(env_v, answer)
                        == run(instrs_view(code@).skip(pc as int), values_view(stack@), env_v, answer),
            decreases code@.len() - pc,
        {
            let ghost rem = instrs_view(code@).skip(pc as int);
            let ghost sv = values_view(stack@);
            if pc == code.len() {
                assert(rem.len() == 0);
                let v = stack.pop().unwrap();
                let r = Ok(v);
                assert forall|answer: spec_fn(RequestV) -> Result<ValueV, Seq<char>>|
                    finished_as(r, #[trigger] original.outcome(env_v, answer)) by {
                    assert(run(rem, sv, env_v, answer) == Ok::<ValueV, Seq<char>>(sv.last()));
                }
                return Step::Finished(r);
            }
            assert(rem[0] == code@[pc as int]@);
            let ghost rest = instrs_view(code@).skip(pc + 1);
            assert(rem.drop_first() =~= rest);
            let instr = code[pc].clone();
            match instr {
                Instr::Literal(l) => match l {
                    LiteralValue::Number(t) => {
                        let ghost req = RequestV::Parse(t@);
                        let next = Suspended { code, pc: pc + 1, stack, request: Ghost(req), describing: None };
                        assert forall|answer: spec_fn(RequestV) -> Result<ValueV, Seq<char>>|
                            #[trigger] next.outcome(env_v, answer) == original.outcome(env_v, answer) by {
                            assert(next.remaining() == rest);
                            assert(next.stack() == sv);
                        }
                        return Step::Need(Request::Parse(t), next);
                    },
                    LiteralValue::Boolean(b) => {
                        stack.push(Value::Boolean(b));
                            assert forall|answer: spec_fn(RequestV) -> Result<ValueV, Seq<char>>|
                                #[trigger] run(rem, sv, env_v, answer) == run(rest, values_view(stack@), env_v, answer) by {
                                assert(values_view(stack@) =~= sv.push(values_view(stack@).last()));
                            }
                    },
                    LiteralValue::String(t) => {
                        stack.push(Value::String(t));
                            assert forall|answer: spec_fn(RequestV) -> Result<ValueV, Seq<char>>|
                                #[trigger] run(rem, sv, env_v, answer) == run(rest, values_view(stack@), env_v, answer) by {
                                assert(values_view(stack@) =~= sv.push(values_view(stack@).last()));
                            }
                    },
                    LiteralValue::NoneValue => {
                        stack.push(Value::NoneValue);
                            assert forall|answer: spec_fn(RequestV) -> Result<ValueV, Seq<char>>|
                                #[trigger] run(rem, sv, env_v, answer) == run(rest, values_view(stack@), env_v, answer) by {
                                assert(values_view(stack@) =~= sv.push(values_view(stack@).last()));
                            }
                    },
                },
                Instr::Load(name) => match env.get(&name) {
                    Ok(v) => {
                        stack.push(v.clone());
                            assert forall|answer: spec_fn(RequestV) -> Result<ValueV, Seq<char>>|
                                #[trigger] run(rem, sv, env_v, answer) == run(rest, values_view(stack@), env_v, answer) by {
                                assert(values_view(stack@) =~= sv.push(values_view(stack@).last()));
                            }
                    },
                    Err(e) => {
                        let r: Result<Value, CarlaeError> = Err(e);
                        assert forall|answer: spec_fn(RequestV) -> Result<ValueV, Seq<char>>|
                            finished_as(r, #[trigger] original.outcome(env_v, answer)) by {
                            assert(!env_v.contains_key(name@.lexeme));
                        }
                        return Step::Finished(r);
                    },
                },
                Instr::Unary(op) => {
                    let v = stack.pop().unwrap();
                    let ghost below = values_view(stack@);
                    assert(below =~= sv.take(sv.len() - 1));
                    let a = unary(&op, v);
                    let ghost av = a@;
                    match a {
                        Action::Done(x) => {
                            stack.push(x);
                            assert forall|answer: spec_fn(RequestV) -> Result<ValueV, Seq<char>>|
                                #[trigger] run(rem, sv, env_v, answer) == run(rest, values_view(stack@), env_v, answer) by {
                                assert(values_view(stack@) =~= below.push(values_view(stack@).last()));
                            }
                        },
                        Action::Fail(m) => {
                            let r: Result<Value, CarlaeError> = Err(CarlaeError::Evaluation(m));
                            assert forall|answer: spec_fn(RequestV) -> Result<ValueV, Seq<char>>|
                                finished_as(r, #[trigger] original.outcome(env_v, answer)) by {
                            }
                            return Step::Finished(r);
                        },
                        other => {
                            let next = Suspended { code, pc: pc + 1, stack, request: Ghost(RequestV::Perform(av)), describing: None };
                            assert forall|answer: spec_fn(RequestV) -> Result<ValueV, Seq<char>>|
                                #[trigger] next.outcome(env_v, answer) == original.outcome(env_v, answer) by {
                                assert(next.remaining() == rest);
                                assert(next.stack() == below);
                            }
                            return Step::Need(Request::Perform(other), next);
                        },
                    }
                },
                Instr::Binary(op) => {
                    let r = stack.pop().unwrap();
                    let l = stack.pop().unwrap();
                    let ghost below = values_view(stack@);
                    assert(below =~= sv.take(sv.len() - 2));
                    let a = binary(&op, l, r);
                    let ghost av = a@;
                    match a {
                        Action::Done(x) => {
                            stack.push(x);
                            assert forall|answer: spec_fn(RequestV) -> Result<ValueV, Seq<char>>|
                                #[trigger] run(rem, sv, env_v, answer) == run(rest, values_view(stack@), env_v, answer) by {
                                assert(values_view(stack@) =~= below.push(values_view(stack@).last()));
                            }
                        },
                        Action::Fail(m) => {
                            let res: Result<Value, CarlaeError> = Err(CarlaeError::Evaluation(m));
                            assert forall|answer: spec_fn(RequestV) -> Result<ValueV, Seq<char>>|
                                finished_as(res, #[trigger] original.outcome(env_v, answer)) by {
                            }
                            return Step::Finished(res);
                        },
                        Action::InvalidArguments { line, symbol, left, right } => {
                            let d = Describing { line, symbol, left, right, left_text: None };
                            assert forall|env: Map<Seq<char>, ValueV>, answer: spec_fn(RequestV) -> Result<ValueV, Seq<char>>|
                                #[trigger] run(rem, sv, env, answer) == described(d.view_of(), answer) by {
                            }
                            return describe_step(code, pc + 1, stack, d);
                        },
                        other => {
                            let next = Suspended { code, pc: pc + 1, stack, request: Ghost(RequestV::Perform(av)), describing: None };
                            assert forall|answer: spec_fn(RequestV) -> Result<ValueV, Seq<char>>|
                                #[trigger] next.outcome(env_v, answer) == original.outcome(env_v, answer) by {
                                assert(next.remaining() == rest);
                                assert(next.stack() == below);
                            }
                            return Step::Need(Request::Perform(other), next);
                        },
                    }
                },
            }
            pc = pc + 1;
        }
    }
}

impl Suspended {
    /// The request that the evaluation waits on.
    pub closed spec fn request(&self) -> RequestV {
        self.request@
    }

    /// The steps still to run after the answer.
    pub closed spec fn remaining(&self) -> Seq<InstrV> {
        instrs_view(self.code@).skip(self.pc as int)
    }

    /// The values computed so far, below the answer's.
    pub closed spec fn stack(&self) -> Seq<ValueV> {
        values_view(self.stack@)
    }

    /// The error being written, if the request asks for an operand's text.
    pub closed spec fn describing(&self) -> Option<DescribingV> {
        match self.describing {
            Some(d) => Some(d.view_of()),
            None => None,
        }
    }

    #[verifier::type_invariant]
    spec fn wf(&self) -> bool {
        &&& self.pc <= self.code@.len()
        &&& self.describing is None ==> fits(self.remaining(), self.stack().len() + 1)
        &&& self.describing() matches Some(d) ==> (describing_operand(d) matches ValueV::Number(b)
            && self.request@ == RequestV::Render(b))
    }

    /// What the evaluation gives from here, given the answer to its request.
    pub open spec fn outcome(
        &self,
        env: Map<Seq<char>, ValueV>,
        answer: spec_fn(RequestV) -> Result<ValueV, Seq<char>>,
    ) -> Result<ValueV, Seq<char>> {
        match self.describing() {
            Some(d) => described(d, answer),
            None => match answer(self.request()) {
                Ok(v) => run(self.remaining(), self.stack().push(v), env, answer),
                Err(m) => Err(m),
            },
        }
    }

    /// Goes on with the answer to the request: a value goes on top of the
    /// stack, and an error message ends the evaluation with that error;
    /// where the request asks for an operand's text, the answer's text goes
    /// into the error being written.
    pub fn answer(self, a: Result<Value, String>) -> (r: Result<Evaluation, CarlaeError>)
        ensures
            self.describing() is None ==> match a {
                Ok(v) => r matches Ok(next) && next.remaining() == self.remaining()
                    && next.stack() == self.stack().push(v@) && next.describing() is None,
                Err(m) => r matches Err(CarlaeError::Evaluation(x)) && x@ == m@,
            },
            forall|env: Map<Seq<char>, ValueV>, answer: spec_fn(RequestV) -> Result<ValueV, Seq<char>>|
                answer(self.request()) == answer_view(a) ==> match r {
                    Ok(next) => next.outcome(env, answer) == #[trigger] self.outcome(env, answer),
                    Err(e) => finished_as(Err(e), self.outcome(env, answer)),
                },
    {
        proof {
            use_type_invariant(&self);
        }
        let Suspended { code, pc, stack, request, describing } = self;
        match describing {
            Some(d) => {
                let t = match a {
                    Ok(v) => text_of(&v),
                    Err(m) => m,
                };
                let Describing { line, symbol, left, right, left_text } = d;
                match left_text {
                    None => Ok(Evaluation {
                        code,
                        pc,
                        stack,
                        describing: Some(Describing { line, symbol, left, right, left_text: Some(t) }),
                    }),
                    Some(lt) => Err(invalid_arguments(line, &symbol, &lt, &t)),
                }
            },
            None => match a {
                Ok(v) => {
                    let mut stack = stack;
                    stack.push(v);
                    proof {
                        assert(values_view(stack@) =~= values_view(self.stack@).push(v@));
                    }
                    Ok(Evaluation { code, pc, stack, describing: None })
                },
                Err(m) => Err(CarlaeError::Evaluation(m)),
            },
        }
    }
}

/// How a value is written where it is not a number (a number gives no text).
fn text_of(v: &Value) -> (t: String)
    ensures
        t@ == plain_text(v@),
{
    match v.plain_text() {
        Some(t) => t,
        None => String::new(),
    }
}

/// Writes the error for operands that do not fit their operator, asking for
/// the text of each number operand in turn.
fn describe_step(code: Vec<Instr>, pc: usize, stack: Vec<Value>, d: Describing) -> (s: Step)
    requires
        pc <= code@.len(),
    ensures
        match s {
            Step::Finished(r) => forall|answer: spec_fn(RequestV) -> Result<ValueV, Seq<char>>|
                finished_as(r, #[trigger] described(d.view_of(), answer)),
            Step::Need(req, next) => next.request() == req@
                && forall|env: Map<Seq<char>, ValueV>, answer: spec_fn(RequestV) -> Result<ValueV, Seq<char>>|
                    #[trigger] next.outcome(env, answer) == described(d.view_of(), answer),
        },
{
    let ghost dv = d.view_of();
    let Describing { line, symbol, left, right, left_text } = d;
    let lt = match left_text {
        Some(t) => t,
        None => match number_bits(&left) {
            Some(b) => {
                let next = Suspended {
                    code,
                    pc,
                    stack,
                    request: Ghost(RequestV::Render(b)),
                    describing: Some(Describing { line, symbol, left, right, left_text: None }),
                };
                return Step::Need(Request::Render(b), next);
            },
            None => text_of(&left),
        },
    };
    match number_bits(&right) {
        Some(b) => {
            let next = Suspended {
                code,
                pc,
                stack,
                request: Ghost(RequestV::Render(b)),
                describing: Some(Describing { line, symbol, left, right, left_text: Some(lt) }),
            };
            Step::Need(Request::Render(b), next)
        },
        None => {
            let rt = text_of(&right);
            Step::Finished(Err(invalid_arguments(line, &symbol, &lt, &rt)))
        },
    }
}

/// The bits of a number, or nothing for another value.
fn number_bits(v: &Value) -> (r: Option<u64>)
    ensures
        match v@ {
            ValueV::Number(b) => r == Some(b),
            _ => r is None,
        },
{
    match v {
        Value::Number(b) => Some(*b),
        _ => None,
    }
}

} // verus!
