//! The evaluator as a machine that stops wherever it needs the host.
//!
//! The machine keeps its own stack, so a deeply nested tree costs memory and
//! no call depth. It asks the host to read a text as a number, to compute
//! with numbers and to print a line; between two such requests it runs by
//! itself.
use vstd::prelude::*;
use crate::interpreter::environment::{bind, distinct, lemma_bind_distinct, lookup, Bindings};
use crate::interpreter::meaning::{arith, ArithOp, EvalError, Failure, Number};
use crate::parser::syntax::Syntax;

verus! {

/// A request that is out, with what is needed to go on once it is answered.
pub enum PendingModel {
    /// The operand of a sign is being read as a number.
    Operand { text: Seq<char> },
    /// The left operand of an operation is being read as a number.
    Left { op: ArithOp, left: Seq<char>, right: Seq<char> },
    /// The right operand is being read; `number` is what the left one gave.
    Right { op: ArithOp, left: Seq<char>, right: Seq<char>, number: Option<Number> },
    /// A number is being negated.
    Negation { operand: Number },
    /// An operation is being computed.
    Result { op: ArithOp, first: Number, second: Number },
    /// A line is being printed.
    Line { line: Seq<char> },
}

/// What the machine is doing.
pub enum ControlModel {
    /// Between two statements.
    Next,
    /// About to evaluate a tree.
    Eval(Syntax),
    /// Holding the value of a tree.
    Return(Seq<char>),
    /// Waiting for the host.
    Wait(PendingModel),
}

/// What remains to be done with the value of a subtree.
pub enum FrameModel {
    Unary { op: Seq<char> },
    BinaryLeft { op: Seq<char>, right: Syntax },
    BinaryRight { op: Seq<char>, left: Seq<char> },
    Bind { name: Seq<char> },
    Print,
}

/// The machine: what it is doing, its stack with the innermost frame last,
/// the statements not yet begun, the variables, the values of the statements
/// that are done, and the failure that stopped it, if one did.
pub struct Machine {
    pub control: ControlModel,
    pub frames: Seq<FrameModel>,
    pub queue: Seq<Syntax>,
    pub env: Bindings,
    pub results: Seq<Seq<char>>,
    pub failed: Option<Failure>,
}

/// What the host tells the machine.
pub enum EventModel {
    /// Nothing: the machine is to begin, or to go on.
    Start,
    /// The number that the text reads as, if it reads as one.
    Parsed(Option<Number>),
    /// The text of the number that was computed.
    Computed(Seq<char>),
    /// The line has been printed.
    Printed,
}

/// What the machine tells the host.
pub enum ActionModel {
    Parse { text: Seq<char> },
    Compute { op: ArithOp, left: Number, right: Number },
    Negate { operand: Number },
    Print { line: Seq<char> },
    Finished,
    Failed { failure: Failure },
}

/// The machine before the first statement.
pub open spec fn initial(statements: Seq<Syntax>) -> Machine {
    Machine {
        control: ControlModel::Next,
        frames: Seq::empty(),
        queue: statements,
        env: Seq::empty(),
        results: Seq::empty(),
        failed: None,
    }
}

/// The machine stopped by a failure in the statement it was at. It keeps its
/// variables and the values of the statements that were done, and drops the
/// rest.
pub open spec fn fail(m: Machine, error: EvalError) -> Machine {
    Machine {
        control: ControlModel::Next,
        frames: Seq::empty(),
        queue: Seq::empty(),
        env: m.env,
        results: m.results,
        failed: Some(Failure { statement: m.results.len() as usize, error }),
    }
}

pub open spec fn with_control(m: Machine, control: ControlModel) -> Machine {
    Machine { control, ..m }
}

/// Whether the machine cannot go on by itself: it has failed, it waits for
/// the host, or nothing is left to do.
pub open spec fn settled(m: Machine) -> bool {
    ||| m.failed is Some
    ||| m.control is Wait
    ||| (m.control is Next && m.queue.len() == 0)
}

/// The machine after the two operands of an operation have been read.
pub open spec fn operands_read(
    m: Machine,
    op: ArithOp,
    left: Seq<char>,
    right: Seq<char>,
    a: Option<Number>,
    b: Option<Number>,
) -> Machine {
    match (a, b) {
        (Some(x), Some(y)) => if op == ArithOp::Div && y.zero() {
            fail(m, EvalError::DivisionByZero)
        } else {
            with_control(m, ControlModel::Wait(PendingModel::Result { op, first: x, second: y }))
        },
        _ => if op == ArithOp::Add {
            with_control(m, ControlModel::Return(left + right))
        } else {
            fail(m, EvalError::NotANumber)
        },
    }
}

/// The machine after the host's answer. A machine that has failed stays as it
/// is. A machine that waits takes the answer to what it asked. One that does
/// not wait takes only `Start`. Any other answer is a failure.
pub open spec fn deliver(m: Machine, event: EventModel) -> Machine {
    if m.failed is Some {
        m
    } else {
        match m.control {
            ControlModel::Wait(pending) => match (pending, event) {
                (PendingModel::Operand { text }, EventModel::Parsed(number)) => match number {
                    Some(operand) => with_control(
                        m,
                        ControlModel::Wait(PendingModel::Negation { operand }),
                    ),
                    None => fail(m, EvalError::NotANumber),
                },
                (PendingModel::Left { op, left, right }, EventModel::Parsed(number)) => if number is None
                    && op != ArithOp::Add {
                    fail(m, EvalError::NotANumber)
                } else {
                    with_control(m, ControlModel::Wait(PendingModel::Right { op, left, right, number }))
                },
                (PendingModel::Right { op, left, right, number }, EventModel::Parsed(second)) => operands_read(
                    m,
                    op,
                    left,
                    right,
                    number,
                    second,
                ),
                (PendingModel::Negation { .. }, EventModel::Computed(text)) => with_control(
                    m,
                    ControlModel::Return(text),
                ),
                (PendingModel::Result { .. }, EventModel::Computed(text)) => with_control(
                    m,
                    ControlModel::Return(text),
                ),
                (PendingModel::Line { line }, EventModel::Printed) => with_control(
                    m,
                    ControlModel::Return(line),
                ),
                _ => fail(m, EvalError::UnexpectedEvent),
            },
            _ => if event is Start {
                m
            } else {
                fail(m, EvalError::UnexpectedEvent)
            },
        }
    }
}

/// The machine after it has begun to evaluate a tree.
pub open spec fn descend(m: Machine, e: Syntax) -> Machine {
    match e {
        Syntax::Number(text) => with_control(m, ControlModel::Return(text)),
        Syntax::Text(text) => with_control(m, ControlModel::Return(text)),
        Syntax::Call { name } => with_control(m, ControlModel::Return(lookup(m.env, name))),
        Syntax::Unary { op, operand } => Machine {
            control: ControlModel::Eval(*operand),
            frames: m.frames.push(FrameModel::Unary { op }),
            ..m
        },
        Syntax::Binary { op, left, right } => Machine {
            control: ControlModel::Eval(*left),
            frames: m.frames.push(FrameModel::BinaryLeft { op, right: *right }),
            ..m
        },
        Syntax::Bind { name, init } => Machine {
            control: ControlModel::Eval(*init),
            frames: m.frames.push(FrameModel::Bind { name }),
            ..m
        },
        Syntax::Print { arg } => Machine {
            control: ControlModel::Eval(*arg),
            frames: m.frames.push(FrameModel::Print),
            ..m
        },
    }
}

/// The machine after the value of a subtree has reached the frame that waited
/// for it; `m` is the machine without that frame.
pub open spec fn resume(m: Machine, frame: FrameModel, value: Seq<char>) -> Machine {
    match frame {
        FrameModel::Unary { op } => if op == "-"@ {
            with_control(m, ControlModel::Wait(PendingModel::Operand { text: value }))
        } else {
            fail(m, EvalError::UnsupportedOperator)
        },
        FrameModel::BinaryLeft { op, right } => Machine {
            control: ControlModel::Eval(right),
            frames: m.frames.push(FrameModel::BinaryRight { op, left: value }),
            ..m
        },
        FrameModel::BinaryRight { op, left } => match arith(op) {
            Some(k) => with_control(
                m,
                ControlModel::Wait(PendingModel::Left { op: k, left, right: value }),
            ),
            None => fail(m, EvalError::UnsupportedOperator),
        },
        FrameModel::Bind { name } => Machine {
            control: ControlModel::Return(name),
            env: bind(m.env, name, value),
            ..m
        },
        FrameModel::Print => with_control(m, ControlModel::Wait(PendingModel::Line { line: value })),
    }
}

/// One step of a machine that is not settled.
pub open spec fn step(m: Machine) -> Machine {
    match m.control {
        ControlModel::Next => Machine {
            control: ControlModel::Eval(m.queue.first()),
            queue: m.queue.drop_first(),
            ..m
        },
        ControlModel::Eval(e) => descend(m, e),
        ControlModel::Return(value) => if m.frames.len() == 0 {
            Machine { control: ControlModel::Next, results: m.results.push(value), ..m }
        } else {
            resume(Machine { frames: m.frames.drop_last(), ..m }, m.frames.last(), value)
        },
        ControlModel::Wait(_) => m,
    }
}

/// What a settled machine tells the host.
pub open spec fn action_of(m: Machine) -> ActionModel {
    match m.failed {
        Some(failure) => ActionModel::Failed { failure },
        None => match m.control {
            ControlModel::Wait(pending) => match pending {
                PendingModel::Operand { text } => ActionModel::Parse { text },
                PendingModel::Left { left, .. } => ActionModel::Parse { text: left },
                PendingModel::Right { right, .. } => ActionModel::Parse { text: right },
                PendingModel::Negation { operand } => ActionModel::Negate { operand },
                PendingModel::Result { op, first, second } => ActionModel::Compute {
                    op,
                    left: first,
                    right: second,
                },
                PendingModel::Line { line } => ActionModel::Print { line },
            },
            _ => ActionModel::Finished,
        },
    }
}

/// A bound on the steps that evaluating a tree takes.
pub open spec fn cost(e: Syntax) -> nat
    decreases e,
{
    match e {
        Syntax::Number(_) => 2,
        Syntax::Text(_) => 2,
        Syntax::Call { .. } => 2,
        Syntax::Unary { operand, .. } => cost(*operand) + 4,
        Syntax::Binary { left, right, .. } => cost(*left) + cost(*right) + 5,
        Syntax::Bind { init, .. } => cost(*init) + 2,
        Syntax::Print { arg } => cost(*arg) + 3,
    }
}

pub open spec fn control_weight(c: ControlModel) -> nat {
    match c {
        ControlModel::Next => 0,
        ControlModel::Eval(e) => cost(e),
        ControlModel::Return(_) => 1,
        ControlModel::Wait(pending) => match pending {
            PendingModel::Operand { .. } => 3,
            PendingModel::Left { .. } => 4,
            PendingModel::Right { .. } => 3,
            PendingModel::Negation { .. } => 2,
            PendingModel::Result { .. } => 2,
            PendingModel::Line { .. } => 2,
        },
    }
}

pub open spec fn frame_weight(f: FrameModel) -> nat {
    match f {
        FrameModel::Unary { .. } => 3,
        FrameModel::BinaryLeft { right, .. } => cost(right) + 4,
        FrameModel::BinaryRight { .. } => 4,
        FrameModel::Bind { .. } => 1,
        FrameModel::Print => 2,
    }
}

pub open spec fn frames_weight(frames: Seq<FrameModel>) -> nat
    decreases frames.len(),
{
    if frames.len() == 0 {
        0
    } else {
        frames_weight(frames.drop_last()) + frame_weight(frames.last())
    }
}

pub open spec fn queue_weight(queue: Seq<Syntax>) -> nat
    decreases queue.len(),
{
    if queue.len() == 0 {
        0
    } else {
        cost(queue.first()) + 1 + queue_weight(queue.drop_first())
    }
}

/// A bound on the steps and answers that a machine still takes.
pub open spec fn measure(m: Machine) -> nat {
    if m.failed is Some {
        0
    } else {
        control_weight(m.control) + frames_weight(m.frames) + queue_weight(m.queue)
    }
}

pub proof fn lemma_frames_weight_push(frames: Seq<FrameModel>, f: FrameModel)
    ensures
        frames_weight(frames.push(f)) == frames_weight(frames) + frame_weight(f),
{
    assert(frames.push(f).drop_last() =~= frames);
}

/// A step brings the machine closer to its end.
pub proof fn lemma_step_decreases(m: Machine)
    requires
        !settled(m),
    ensures
        measure(step(m)) < measure(m),
{
    match m.control {
        ControlModel::Next => {},
        ControlModel::Eval(e) => {
            match e {
                Syntax::Unary { op, operand } => {
                    lemma_frames_weight_push(m.frames, FrameModel::Unary { op });
                },
                Syntax::Binary { op, left, right } => {
                    lemma_frames_weight_push(m.frames, FrameModel::BinaryLeft { op, right: *right });
                },
                Syntax::Bind { name, init } => {
                    lemma_frames_weight_push(m.frames, FrameModel::Bind { name });
                },
                Syntax::Print { arg } => {
                    lemma_frames_weight_push(m.frames, FrameModel::Print);
                },
                _ => {},
            }
        },
        ControlModel::Return(value) => {
            if m.frames.len() > 0 {
                match m.frames.last() {
                    FrameModel::BinaryLeft { op, right } => {
                        lemma_frames_weight_push(
                            m.frames.drop_last(),
                            FrameModel::BinaryRight { op, left: value },
                        );
                    },
                    _ => {},
                }
            } else {
                assert(frames_weight(m.frames) == 0);
            }
        },
        ControlModel::Wait(_) => {},
    }
}

/// An answer brings a waiting machine closer to its end.
pub proof fn lemma_answer_decreases(m: Machine, event: EventModel)
    requires
        m.failed is None,
        m.control is Wait,
    ensures
        measure(deliver(m, event)) < measure(m),
{
}

/// The machine run until it is settled.
pub open spec fn rest(m: Machine) -> Machine
    decreases measure(m),
    via rest_terminates
{
    if settled(m) {
        m
    } else {
        rest(step(m))
    }
}

#[via_fn]
proof fn rest_terminates(m: Machine) {
    if !settled(m) {
        lemma_step_decreases(m);
    }
}

/// Running to rest takes the machine no further from its end, what it
/// reaches is settled, and no name comes to stand twice among its variables.
pub proof fn lemma_rest(m: Machine)
    ensures
        settled(rest(m)),
        measure(rest(m)) <= measure(m),
        distinct(m.env) ==> distinct(rest(m).env),
    decreases measure(m),
{
    if !settled(m) {
        lemma_step_decreases(m);
        if distinct(m.env) {
            lemma_step_distinct(m);
        }
        lemma_rest(step(m));
    }
}

/// A step leaves no name standing twice among the variables.
pub proof fn lemma_step_distinct(m: Machine)
    requires
        distinct(m.env),
    ensures
        distinct(step(m).env),
{
    match m.control {
        ControlModel::Return(value) => {
            if m.frames.len() > 0 {
                match m.frames.last() {
                    FrameModel::Bind { name } => {
                        lemma_bind_distinct(m.env, name, value);
                    },
                    _ => {},
                }
            }
        },
        _ => {},
    }
}

} // verus!
