//! Running a program. Statements run in order; `if` takes the branch that
//! its condition's truthiness picks, `while` runs its body while its
//! condition is truthy, an assignment binds its name, `print` writes the
//! text of its values, and the first error stops the program.
//!
//! Evaluating an expression and writing a number take doubles, and writing
//! output is I/O, so an `Execution` hands these to its caller as requests
//! (`ExecRequest`) and goes on with the answer; `exec_next` states each step.
use vstd::prelude::*;
use vstd::string::StringExecFns;
use crate::environment::Environment;
use crate::error::CarlaeError;
use crate::eval::{Value, ValueV, plain_text, truthy};
use crate::expr::{Expr, ExprV, exprs_view};
use crate::stmt::{Assignment, IfClause, PrintConfig, PrintMode, Stmt, StmtV, WhileClause, lemma_stmts_view, stmts_view};

verus! {

/// The texts, separated by single spaces.
pub open spec fn spaced(texts: Seq<Seq<char>>) -> Seq<char>
    decreases texts.len(),
{
    if texts.len() == 0 {
        seq![]
    } else if texts.len() == 1 {
        texts[0]
    } else {
        spaced(texts.drop_last()) + " "@ + texts.last()
    }
}

/// The characters of each string.
pub open spec fn texts_view(ts: Seq<String>) -> Seq<Seq<char>> {
    ts.map_values(|t: String| t@)
}

/// The texts separated by spaces, then a newline where the statement ends
/// the line and `complete` holds.
pub open spec fn print_text(texts: Seq<Seq<char>>, mode: PrintMode, complete: bool) -> Seq<char> {
    spaced(texts) + if complete && mode == PrintMode::FinalNewline {
        "\n"@
    } else {
        Seq::<char>::empty()
    }
}

/// What a `print` statement writes, given the text of each value that it
/// printed: the texts separated by spaces, then a newline where the
/// statement ends the line and every one of its values was printed
/// (`complete`; an evaluation error stops a `print` after the values
/// before it).
pub fn print_output(texts: &Vec<String>, mode: PrintMode, complete: bool) -> (s: String)
    ensures
        s@ == print_text(texts_view(texts@), mode, complete),
{
    proof {
        reveal_strlit(" ");
        reveal_strlit("\n");
    }
    let mut s = String::new();
    let mut i: usize = 0;
    while i < texts.len()
        invariant
            i <= texts@.len(),
            s@ == spaced(texts_view(texts@).take(i as int)),
        decreases texts@.len() - i,
    {
        let ghost before = texts_view(texts@).take(i as int);
        if i > 0 {
            s.append(" ");
        }
        s.append(texts[i].as_str());
        proof {
            let now = texts_view(texts@).take(i + 1);
            assert(now.drop_last() =~= before);
            assert(now.last() == texts@[i as int]@);
            if i == 0 {
                assert(s@ =~= now[0]);
            }
        }
        i = i + 1;
    }
    proof {
        assert(texts_view(texts@).take(texts@.len() as int) =~= texts_view(texts@));
    }
    if complete {
        match mode {
            PrintMode::FinalNewline => s.append("\n"),
            PrintMode::NoNewline => {},
        }
    }
    s
}

/// A `while` loop: its condition and its body.
pub struct LoopV {
    pub cond: ExprV,
    pub body: Seq<StmtV>,
}

/// A block under way: its statements, the position of the next one, and the
/// loop that runs the block again where the block is a loop's body.
pub struct FrameV {
    pub block: Seq<StmtV>,
    pub pos: int,
    pub repeat: Option<LoopV>,
}

/// What an execution waits for.
pub enum WaitV {
    /// Nothing: it goes on with the next statement.
    Ready,
    /// It has written what a failed `print` printed, and ends with this error.
    Stop(CarlaeError),
    /// The value of an expression statement.
    Discard,
    /// The condition of an `if`.
    IfCond { then_branch: Seq<StmtV>, else_branch: Option<Seq<StmtV>> },
    /// The condition of a `while`.
    WhileCond(LoopV),
    /// The value to bind to the name.
    Assign(Seq<char>),
    /// The value of `exprs[next - 1]` of a `print` that has the texts so far.
    PrintArg { exprs: Seq<ExprV>, next: int, texts: Seq<Seq<char>>, mode: PrintMode },
    /// The text of that value, a number.
    PrintRender { exprs: Seq<ExprV>, next: int, texts: Seq<Seq<char>>, mode: PrintMode },
}

/// Whether the execution waits for an answer.
pub open spec fn awaits_answer(w: WaitV) -> bool {
    !(w is Ready || w is Stop)
}

/// An execution as a value: the blocks under way, innermost last.
pub struct ExecV {
    pub frames: Seq<FrameV>,
    pub wait: WaitV,
}

pub enum ExecRequestV {
    Evaluate(ExprV),
    Render(u64),
    Print(Seq<char>),
}

pub enum ExecStepV {
    Need(ExecRequestV, ExecV),
    Finished(Result<(), CarlaeError>),
}

/// The next `print` value to evaluate, or the line once every value has its text.
pub open spec fn print_next(
    exprs: Seq<ExprV>,
    next: int,
    texts: Seq<Seq<char>>,
    mode: PrintMode,
    frames: Seq<FrameV>,
) -> ExecStepV {
    if next >= exprs.len() {
        ExecStepV::Need(
            ExecRequestV::Print(print_text(texts, mode, true)),
            ExecV { frames, wait: WaitV::Ready },
        )
    } else {
        ExecStepV::Need(
            ExecRequestV::Evaluate(exprs[next]),
            ExecV { frames, wait: WaitV::PrintArg { exprs, next: next + 1, texts, mode } },
        )
    }
}

/// Starting statement `s`, with `frames` to go on with after it.
pub open spec fn begin(s: StmtV, frames: Seq<FrameV>) -> ExecStepV {
    match s {
        StmtV::Expression(e) => ExecStepV::Need(ExecRequestV::Evaluate(e), ExecV { frames, wait: WaitV::Discard }),
        StmtV::If { cond, then_branch, else_branch } => ExecStepV::Need(
            ExecRequestV::Evaluate(cond),
            ExecV { frames, wait: WaitV::IfCond { then_branch, else_branch } },
        ),
        StmtV::While { cond, body } => ExecStepV::Need(
            ExecRequestV::Evaluate(cond),
            ExecV { frames, wait: WaitV::WhileCond(LoopV { cond, body }) },
        ),
        StmtV::Variable { name, initializer } => ExecStepV::Need(
            ExecRequestV::Evaluate(initializer),
            ExecV { frames, wait: WaitV::Assign(name.lexeme) },
        ),
        StmtV::Print { exprs, mode } => print_next(exprs, 0, seq![], mode, frames),
    }
}

/// Going on with the next statement: a finished block gives way to the one
/// around it, a finished loop body tests its condition again, and with no
/// block left the program has run.
pub open spec fn start(frames: Seq<FrameV>) -> ExecStepV
    decreases frames.len(),
{
    if frames.len() == 0 {
        ExecStepV::Finished(Ok(()))
    } else {
        let top = frames.last();
        if top.pos >= top.block.len() {
            match top.repeat {
                Some(l) => ExecStepV::Need(
                    ExecRequestV::Evaluate(l.cond),
                    ExecV { frames: frames.drop_last(), wait: WaitV::WhileCond(l) },
                ),
                None => start(frames.drop_last()),
            }
        } else {
            begin(
                top.block[top.pos],
                frames.update(frames.len() - 1, FrameV { block: top.block, pos: top.pos + 1, repeat: top.repeat }),
            )
        }
    }
}

/// A block to run once.
pub open spec fn block_frame(block: Seq<StmtV>) -> FrameV {
    FrameV { block, pos: 0, repeat: None }
}

/// One step of an execution in `env`, given the answer to its request: the
/// next request or the end, and the bindings after the step.
pub open spec fn exec_next(
    x: ExecV,
    env: Map<Seq<char>, Value>,
    answer: Option<Result<Value, CarlaeError>>,
) -> (ExecStepV, Map<Seq<char>, Value>) {
    match x.wait {
        WaitV::Ready => (start(x.frames), env),
        WaitV::Stop(e) => (ExecStepV::Finished(Err(e)), env),
        _ => match answer {
            Some(Err(e)) => (
                match x.wait {
                    WaitV::PrintArg { texts, mode, .. } => ExecStepV::Need(
                        ExecRequestV::Print(print_text(texts, mode, false)),
                        ExecV { frames: x.frames, wait: WaitV::Stop(e) },
                    ),
                    WaitV::PrintRender { texts, mode, .. } => ExecStepV::Need(
                        ExecRequestV::Print(print_text(texts, mode, false)),
                        ExecV { frames: x.frames, wait: WaitV::Stop(e) },
                    ),
                    _ => ExecStepV::Finished(Err(e)),
                },
                env,
            ),
            Some(Ok(v)) => match x.wait {
                WaitV::IfCond { then_branch, else_branch } => (
                    if truthy(v@) {
                        start(x.frames.push(block_frame(then_branch)))
                    } else {
                        match else_branch {
                            Some(b) => start(x.frames.push(block_frame(b))),
                            None => start(x.frames),
                        }
                    },
                    env,
                ),
                WaitV::WhileCond(l) => (
                    if truthy(v@) {
                        start(x.frames.push(FrameV { block: l.body, pos: 0, repeat: Some(l) }))
                    } else {
                        start(x.frames)
                    },
                    env,
                ),
                WaitV::Assign(name) => (start(x.frames), env.insert(name, v)),
                WaitV::PrintArg { exprs, next, texts, mode } => (
                    match v@ {
                        ValueV::Number(b) => ExecStepV::Need(
                            ExecRequestV::Render(b),
                            ExecV { frames: x.frames, wait: WaitV::PrintRender { exprs, next, texts, mode } },
                        ),
                        _ => print_next(exprs, next, texts.push(plain_text(v@)), mode, x.frames),
                    },
                    env,
                ),
                WaitV::PrintRender { exprs, next, texts, mode } => (
                    print_next(exprs, next, texts.push(plain_text(v@)), mode, x.frames),
                    env,
                ),
                _ => (start(x.frames), env),
            },
            None => (start(x.frames), env),
        },
    }
}

/// Work that running a program leaves to its caller.
pub enum ExecRequest<'a> {
    /// The value of the expression in the current bindings, or its error.
    Evaluate(&'a Expr),
    /// How the double with these bits is written, answered as a string value.
    Render(u64),
    /// Text to write to the output; it takes no answer.
    Print(String),
}

impl<'a> View for ExecRequest<'a> {
    type V = ExecRequestV;

    open spec fn view(&self) -> ExecRequestV {
        match self {
            ExecRequest::Evaluate(e) => ExecRequestV::Evaluate(e@),
            ExecRequest::Render(b) => ExecRequestV::Render(*b),
            ExecRequest::Print(t) => ExecRequestV::Print(t@),
        }
    }
}

#[derive(Clone, Copy)]
struct Frame<'a> {
    block: &'a [Stmt],
    pos: usize,
    repeat: Option<&'a WhileClause>,
}

pub open spec fn loop_view(w: WhileClause) -> LoopV {
    LoopV { cond: w.cond@, body: stmts_view(w.body@) }
}

impl<'a> Frame<'a> {
    spec fn view_of(self) -> FrameV {
        FrameV {
            block: stmts_view(self.block@),
            pos: self.pos as int,
            repeat: match self.repeat {
                Some(w) => Some(loop_view(*w)),
                None => None,
            },
        }
    }

    spec fn ok(self) -> bool {
        &&& self.pos <= self.block@.len()
        &&& self.repeat matches Some(w) ==> w.body@ == self.block@
    }
}

enum Wait<'a> {
    Ready,
    Stop(CarlaeError),
    Discard,
    IfCond(&'a IfClause),
    WhileCond(&'a WhileClause),
    Assign(&'a Assignment),
    PrintArg { config: &'a PrintConfig, next: usize, texts: Vec<String> },
    PrintRender { config: &'a PrintConfig, next: usize, texts: Vec<String> },
}

impl<'a> Wait<'a> {
    spec fn view_of(self) -> WaitV {
        match self {
            Wait::Ready => WaitV::Ready,
            Wait::Stop(e) => WaitV::Stop(e),
            Wait::Discard => WaitV::Discard,
            Wait::IfCond(c) => WaitV::IfCond {
                then_branch: stmts_view(c.then_branch@),
                else_branch: match c.else_branch {
                    Some(b) => Some(stmts_view(b@)),
                    None => None,
                },
            },
            Wait::WhileCond(w) => WaitV::WhileCond(loop_view(*w)),
            Wait::Assign(a) => WaitV::Assign(a.name.lexeme@),
            Wait::PrintArg { config, next, texts } => WaitV::PrintArg {
                exprs: exprs_view(config.exprs@),
                next: next as int,
                texts: texts_view(texts@),
                mode: config.mode,
            },
            Wait::PrintRender { config, next, texts } => WaitV::PrintRender {
                exprs: exprs_view(config.exprs@),
                next: next as int,
                texts: texts_view(texts@),
                mode: config.mode,
            },
        }
    }

    spec fn ok(self) -> bool {
        match self {
            Wait::PrintArg { config, next, .. } => 1 <= next <= config.exprs@.len(),
            Wait::PrintRender { config, next, .. } => 1 <= next <= config.exprs@.len(),
            _ => true,
        }
    }
}

spec fn frames_view<'a>(fs: Seq<Frame<'a>>) -> Seq<FrameV> {
    fs.map_values(|f: Frame<'a>| f.view_of())
}

/// A program under way: its blocks, innermost last, and what it waits for.
pub struct Execution<'a> {
    frames: Vec<Frame<'a>>,
    wait: Wait<'a>,
}

impl<'a> View for Execution<'a> {
    type V = ExecV;

    closed spec fn view(&self) -> ExecV {
        ExecV { frames: frames_view(self.frames@), wait: self.wait.view_of() }
    }
}

/// Where a program has come to: a request to answer, or its end.
pub enum ExecStep<'a> {
    Need(ExecRequest<'a>, Execution<'a>),
    Finished(Result<(), CarlaeError>),
}

impl<'a> View for ExecStep<'a> {
    type V = ExecStepV;

    open spec fn view(&self) -> ExecStepV {
        match self {
            ExecStep::Need(r, x) => ExecStepV::Need(r@, x@),
            ExecStep::Finished(r) => ExecStepV::Finished(*r),
        }
    }
}

spec fn frames_ok<'a>(fs: Seq<Frame<'a>>) -> bool {
    forall|i: int| 0 <= i < fs.len() ==> #[trigger] fs[i].ok()
}

impl<'a> Execution<'a> {
    #[verifier::type_invariant]
    spec fn wf(self) -> bool {
        &&& frames_ok(self.frames@)
        &&& self.wait.ok()
    }

    /// The execution of `program`, not yet started: one block, the program,
    /// at its first statement.
    pub fn new(program: &'a [Stmt]) -> (res: Self)
        ensures
            res@ == (ExecV { frames: seq![block_frame(stmts_view(program@))], wait: WaitV::Ready }),
    {
        let mut frames: Vec<Frame<'a>> = Vec::new();
        frames.push(Frame { block: program, pos: 0, repeat: None });
        let res = Execution { frames, wait: Wait::Ready };
        assert(frames_view(res.frames@) =~= seq![block_frame(stmts_view(program@))]);
        res
    }

    /// One step of the execution, given the answer to its last request
    /// (none after a `Print` request and at the start): the next request,
    /// or the end with the first error; an assignment binds its name in `env`.
    pub fn step(self, env: &mut Environment<Value>, answer: Option<Result<Value, CarlaeError>>) -> (r: ExecStep<'a>)
        requires
            awaits_answer(self@.wait) == answer is Some,
        ensures
            (r@, final(env).bindings()) == exec_next(self@, old(env).bindings(), answer),
    {
        proof {
            use_type_invariant(&self);
        }
        let Execution { frames, wait } = self;
        let mut frames = frames;
        match wait {
            Wait::Ready => start_step(frames),
            Wait::Stop(e) => ExecStep::Finished(Err(e)),
            other => {
                let a = answer.unwrap();
                match a {
                    Err(e) => match other {
                        Wait::PrintArg { config, texts, .. } => {
                            let text = print_output(&texts, config.mode, false);
                            ExecStep::Need(ExecRequest::Print(text), Execution { frames, wait: Wait::Stop(e) })
                        },
                        Wait::PrintRender { config, texts, .. } => {
                            let text = print_output(&texts, config.mode, false);
                            ExecStep::Need(ExecRequest::Print(text), Execution { frames, wait: Wait::Stop(e) })
                        },
                        _ => ExecStep::Finished(Err(e)),
                    },
                    Ok(v) => match other {
                        Wait::IfCond(c) => {
                            if v.is_truthy() {
                                let f = Frame { block: c.then_branch.as_slice(), pos: 0, repeat: None };
                                proof { lemma_pushed(frames@, f); }
                                frames.push(f);
                                start_step(frames)
                            } else {
                                match &c.else_branch {
                                    Some(b) => {
                                        let f = Frame { block: b.as_slice(), pos: 0, repeat: None };
                                        proof { lemma_pushed(frames@, f); }
                                        frames.push(f);
                                        start_step(frames)
                                    },
                                    None => start_step(frames),
                                }
                            }
                        },
                        Wait::WhileCond(w) => {
                            if v.is_truthy() {
                                let f = Frame { block: w.body.as_slice(), pos: 0, repeat: Some(w) };
                                proof { lemma_pushed(frames@, f); }
                                frames.push(f);
                                start_step(frames)
                            } else {
                                start_step(frames)
                            }
                        },
                        Wait::Assign(a) => {
                            env.define(&a.name.lexeme, v);
                            start_step(frames)
                        },
                        Wait::PrintArg { config, next, texts } => match v {
                            Value::Number(b) => ExecStep::Need(
                                ExecRequest::Render(b),
                                Execution { frames, wait: Wait::PrintRender { config, next, texts } },
                            ),
                            other_value => {
                                let mut texts = texts;
                                let ghost before = texts_view(texts@);
                                texts.push(text_of(&other_value));
                                assert(texts_view(texts@) =~= before.push(plain_text(other_value@)));
                                print_step(config, next, texts, frames)
                            },
                        },
                        Wait::PrintRender { config, next, texts } => {
                            let mut texts = texts;
                            let ghost before = texts_view(texts@);
                            texts.push(text_of(&v));
                            assert(texts_view(texts@) =~= before.push(plain_text(v@)));
                            print_step(config, next, texts, frames)
                        },
                        _ => start_step(frames),
                    },
                }
            },
        }
    }
}

proof fn lemma_pushed<'a>(before: Seq<Frame<'a>>, f: Frame<'a>)
    requires
        frames_ok(before),
        f.ok(),
    ensures
        frames_ok(before.push(f)),
        frames_view(before.push(f)) == frames_view(before).push(f.view_of()),
{
    let fs = before.push(f);
    assert forall|i: int| 0 <= i < fs.len() implies #[trigger] fs[i].ok() by {
        if i < before.len() {
            assert(fs[i] == before[i]);
        }
    }
    assert(frames_view(fs) =~= frames_view(before).push(f.view_of()));
}

/// How a value is written where it is not a number; a number's text is asked of the caller.
fn text_of(v: &Value) -> (t: String)
    ensures
        t@ == plain_text(v@),
{
    match v.plain_text() {
        Some(t) => t,
        None => String::new(),
    }
}

fn print_step<'a>(config: &'a PrintConfig, next: usize, texts: Vec<String>, frames: Vec<Frame<'a>>) -> (r: ExecStep<'a>)
    requires
        next <= config.exprs@.len(),
        frames_ok(frames@),
    ensures
        r@ == print_next(exprs_view(config.exprs@), next as int, texts_view(texts@), config.mode, frames_view(frames@)),
{
    if next == config.exprs.len() {
        let text = print_output(&texts, config.mode, true);
        ExecStep::Need(ExecRequest::Print(text), Execution { frames, wait: Wait::Ready })
    } else {
        ExecStep::Need(
            ExecRequest::Evaluate(&config.exprs[next]),
            Execution { frames, wait: Wait::PrintArg { config, next: next + 1, texts } },
        )
    }
}

fn begin_step<'a>(s: &'a Stmt, frames: Vec<Frame<'a>>) -> (r: ExecStep<'a>)
    requires
        frames_ok(frames@),
    ensures
        r@ == begin(s@, frames_view(frames@)),
{
    match s {
        Stmt::Expression(e) => ExecStep::Need(ExecRequest::Evaluate(e), Execution { frames, wait: Wait::Discard }),
        Stmt::If(c) => ExecStep::Need(ExecRequest::Evaluate(&c.cond), Execution { frames, wait: Wait::IfCond(c) }),
        Stmt::While(w) => ExecStep::Need(ExecRequest::Evaluate(&w.cond), Execution { frames, wait: Wait::WhileCond(w) }),
        Stmt::Variable(a) => ExecStep::Need(
            ExecRequest::Evaluate(&a.initializer),
            Execution { frames, wait: Wait::Assign(a) },
        ),
        Stmt::Print(p) => {
            let texts: Vec<String> = Vec::new();
            assert(texts_view(texts@) =~= Seq::<Seq<char>>::empty());
            print_step(p, 0, texts, frames)
        },
    }
}

fn start_step<'a>(frames: Vec<Frame<'a>>) -> (r: ExecStep<'a>)
    requires
        frames_ok(frames@),
    ensures
        r@ == start(frames_view(frames@)),
{
    let ghost original = frames_view(frames@);
    let mut work = frames;
    loop
        invariant
            original == frames_view(frames@),
            frames_ok(work@),
            start(frames_view(work@)) == start(original),
        decreases work@.len(),
    {
        if work.len() == 0 {
            return ExecStep::Finished(Ok(()));
        }
        let last = work.len() - 1;
        let top = work[last];
        let ghost fv = frames_view(work@);
        let ghost fs = work@;
        assert(top.ok());
        assert(fv.last() == top.view_of());
        proof {
            lemma_stmts_view(top.block@);
        }
        if top.pos == top.block.len() {
            work.pop();
            assert(frames_view(work@) =~= fv.drop_last());
            assert(frames_ok(work@)) by {
                assert forall|i: int| 0 <= i < work@.len() implies #[trigger] work@[i].ok() by {
                    assert(work@[i] == fs[i]);
                }
            }
            match top.repeat {
                Some(w) => {
                    return ExecStep::Need(ExecRequest::Evaluate(&w.cond), Execution { frames: work, wait: Wait::WhileCond(w) });
                },
                None => {},
            }
        } else {
            let s = &top.block[top.pos];
            let next_frame = Frame { block: top.block, pos: top.pos + 1, repeat: top.repeat };
            work.set(last, next_frame);
            assert(frames_view(work@) =~= fv.update(last as int, next_frame.view_of()));
            return begin_step(s, work);
        }
    }
}

/// The first error stops the program: given an error for an answer, the
/// execution ends with that error and binds nothing; inside a `print`, it
/// first writes what the statement printed before the error.
pub proof fn law_first_error_stops(x: ExecV, env: Map<Seq<char>, Value>, e: CarlaeError)
    requires
        awaits_answer(x.wait),
    ensures
        exec_next(x, env, Some(Err(e))).1 == env,
        (x.wait is PrintArg || x.wait is PrintRender) ==> (exec_next(x, env, Some(Err(e))).0 matches ExecStepV::Need(
            ExecRequestV::Print(_),
            y,
        ) && exec_next(y, env, None) == (ExecStepV::Finished(Err(e)), env)),
        !(x.wait is PrintArg || x.wait is PrintRender) ==> exec_next(x, env, Some(Err(e))).0 == ExecStepV::Finished(Err(e)),
{
}

/// `if` runs the branch its condition picks: a truthy condition goes on with
/// the first statement of the `then` branch, a falsy one with the first of
/// the `else` branch, and the rest of the program follows the branch.
pub proof fn law_if_picks_a_branch(
    frames: Seq<FrameV>,
    then_branch: Seq<StmtV>,
    else_branch: Seq<StmtV>,
    env: Map<Seq<char>, Value>,
    v: Value,
)
    requires
        then_branch.len() > 0,
        else_branch.len() > 0,
    ensures
        ({
            let x = ExecV { frames, wait: WaitV::IfCond { then_branch, else_branch: Some(else_branch) } };
            let taken = if truthy(v@) { then_branch } else { else_branch };
            exec_next(x, env, Some(Ok(v))) == (
                begin(taken[0], frames.push(FrameV { block: taken, pos: 1, repeat: None })),
                env,
            )
        }),
{
    let taken = if truthy(v@) { then_branch } else { else_branch };
    let fs = frames.push(block_frame(taken));
    assert(fs.update(fs.len() - 1, FrameV { block: taken, pos: 1, repeat: None })
        =~= frames.push(FrameV { block: taken, pos: 1, repeat: None }));
}

/// An `if` without `else` whose condition is falsy runs nothing: the
/// program goes on exactly as after an expression statement with that
/// value, with the statement after the `if`; a truthy one runs its branch
/// from the first statement.
pub proof fn law_if_without_else(
    frames: Seq<FrameV>,
    then_branch: Seq<StmtV>,
    env: Map<Seq<char>, Value>,
    v: Value,
)
    requires
        then_branch.len() > 0,
    ensures
        !truthy(v@) ==> exec_next(
            ExecV { frames, wait: WaitV::IfCond { then_branch, else_branch: None } },
            env,
            Some(Ok(v)),
        ) == exec_next(ExecV { frames, wait: WaitV::Discard }, env, Some(Ok(v))),
        !truthy(v@) ==> exec_next(
            ExecV { frames, wait: WaitV::IfCond { then_branch, else_branch: None } },
            env,
            Some(Ok(v)),
        ) == (start(frames), env),
        truthy(v@) ==> exec_next(
            ExecV { frames, wait: WaitV::IfCond { then_branch, else_branch: None } },
            env,
            Some(Ok(v)),
        ) == (begin(then_branch[0], frames.push(FrameV { block: then_branch, pos: 1, repeat: None })), env),
{
    let fs = frames.push(block_frame(then_branch));
    assert(fs.update(fs.len() - 1, FrameV { block: then_branch, pos: 1, repeat: None })
        =~= frames.push(FrameV { block: then_branch, pos: 1, repeat: None }));
}

/// `while` repeats while its condition holds: a truthy condition runs the
/// body from its first statement, a falsy one goes on after the loop, and a
/// body that has run to its end tests the condition again.
pub proof fn law_while_repeats(frames: Seq<FrameV>, l: LoopV, env: Map<Seq<char>, Value>, v: Value)
    requires
        l.body.len() > 0,
    ensures
        truthy(v@) ==> exec_next(ExecV { frames, wait: WaitV::WhileCond(l) }, env, Some(Ok(v))) == (
            begin(l.body[0], frames.push(FrameV { block: l.body, pos: 1, repeat: Some(l) })),
            env,
        ),
        !truthy(v@) ==> exec_next(ExecV { frames, wait: WaitV::WhileCond(l) }, env, Some(Ok(v))) == (start(frames), env),
        start(frames.push(FrameV { block: l.body, pos: l.body.len() as int, repeat: Some(l) })) == ExecStepV::Need(
            ExecRequestV::Evaluate(l.cond),
            ExecV { frames, wait: WaitV::WhileCond(l) },
        ),
{
    let fs = frames.push(FrameV { block: l.body, pos: 0, repeat: Some(l) });
    assert(fs.update(fs.len() - 1, FrameV { block: l.body, pos: 1, repeat: Some(l) })
        =~= frames.push(FrameV { block: l.body, pos: 1, repeat: Some(l) }));
    let done = frames.push(FrameV { block: l.body, pos: l.body.len() as int, repeat: Some(l) });
    assert(done.drop_last() =~= frames);
}

/// An assignment binds its name to the value and leaves every other name as
/// it was; nothing else in a program changes the bindings.
pub proof fn law_assignment_binds(x: ExecV, env: Map<Seq<char>, Value>, answer: Option<Result<Value, CarlaeError>>)
    ensures
        x.wait is Assign && answer is Some && answer->Some_0 is Ok ==> exec_next(x, env, answer).1
            == env.insert(x.wait->Assign_0, answer->Some_0->Ok_0),
        !(x.wait is Assign) ==> exec_next(x, env, answer).1 == env,
{
}

} // verus!
