//! The evaluator: it walks syntax trees and keeps the variables of the run.
//!
//! The evaluator holds no numbers of its own. Wherever a text has to be read
//! as a number, numbers have to be combined, or a line has to be printed, it
//! stops and returns an [`Action`]; the host does what is asked and calls
//! [`Interpreter::interpret`] again with the matching [`Event`].
use vstd::prelude::*;
use crate::interpreter::environment::{distinct, Environment};
use crate::interpreter::machine::{
    action_of, deliver, descend, fail, lemma_rest, lemma_step_decreases, measure, rest, resume,
    settled, step, ActionModel, ControlModel, EventModel, FrameModel, Machine, PendingModel,
};
use crate::interpreter::meaning::{arith_of, ArithOp, EvalError, Failure, Number};
use crate::parser::{syntaxes, ASTNode, BinaryOpNode, PrintNode, UnaryOpNode, VariableNode};
use crate::text::same_text;

pub mod agreement;
pub mod environment;
pub mod machine;
pub mod meaning;

verus! {

/// What the host tells the evaluator.
#[derive(Debug, PartialEq)]
pub enum Event {
    /// Nothing: the evaluator is to begin, or to go on.
    Start,
    /// The answer to [`Action::Parse`]: the number that the text reads as, if
    /// it reads as one.
    Parsed(Option<Number>),
    /// The answer to [`Action::Compute`] and [`Action::Negate`]: the text of
    /// the number that was computed.
    Computed(String),
    /// The answer to [`Action::Print`].
    Printed,
}

impl View for Event {
    type V = EventModel;

    open spec fn view(&self) -> EventModel {
        match self {
            Event::Start => EventModel::Start,
            Event::Parsed(number) => EventModel::Parsed(*number),
            Event::Computed(text) => EventModel::Computed(text@),
            Event::Printed => EventModel::Printed,
        }
    }
}

/// What the evaluator asks of the host, or how the run ended.
#[derive(Debug, PartialEq)]
pub enum Action {
    /// Read `text` as a number.
    Parse { text: String },
    /// Apply `op` to the two numbers and write the result as text.
    Compute { op: ArithOp, left: Number, right: Number },
    /// Negate the number and write the result as text.
    Negate { operand: Number },
    /// Print `line` and end the line.
    Print { line: String },
    /// Every statement has been evaluated.
    Finished,
    /// A statement failed; the run is over.
    Failed { failure: Failure },
}

impl View for Action {
    type V = ActionModel;

    open spec fn view(&self) -> ActionModel {
        match self {
            Action::Parse { text } => ActionModel::Parse { text: text@ },
            Action::Compute { op, left, right } => ActionModel::Compute {
                op: *op,
                left: *left,
                right: *right,
            },
            Action::Negate { operand } => ActionModel::Negate { operand: *operand },
            Action::Print { line } => ActionModel::Print { line: line@ },
            Action::Finished => ActionModel::Finished,
            Action::Failed { failure } => ActionModel::Failed { failure: *failure },
        }
    }
}

/// A request that is out, with what is needed to go on once it is answered.
pub enum Pending {
    Operand { text: String },
    Left { op: ArithOp, left: String, right: String },
    Right { op: ArithOp, left: String, right: String, number: Option<Number> },
    Negation { operand: Number },
    Result { op: ArithOp, first: Number, second: Number },
    Line { line: String },
}

impl View for Pending {
    type V = PendingModel;

    open spec fn view(&self) -> PendingModel {
        match self {
            Pending::Operand { text } => PendingModel::Operand { text: text@ },
            Pending::Left { op, left, right } => PendingModel::Left {
                op: *op,
                left: left@,
                right: right@,
            },
            Pending::Right { op, left, right, number } => PendingModel::Right {
                op: *op,
                left: left@,
                right: right@,
                number: *number,
            },
            Pending::Negation { operand } => PendingModel::Negation { operand: *operand },
            Pending::Result { op, first, second } => PendingModel::Result {
                op: *op,
                first: *first,
                second: *second,
            },
            Pending::Line { line } => PendingModel::Line { line: line@ },
        }
    }
}

/// What the evaluator is doing.
pub enum Control {
    Next,
    Eval(ASTNode),
    Return(String),
    Wait(Pending),
}

impl View for Control {
    type V = ControlModel;

    open spec fn view(&self) -> ControlModel {
        match self {
            Control::Next => ControlModel::Next,
            Control::Eval(node) => ControlModel::Eval(node@),
            Control::Return(value) => ControlModel::Return(value@),
            Control::Wait(pending) => ControlModel::Wait(pending@),
        }
    }
}

/// What remains to be done with the value of a subtree.
pub enum Frame {
    Unary { op: String },
    BinaryLeft { op: String, right: ASTNode },
    BinaryRight { op: String, left: String },
    Bind { name: String },
    Print,
}

impl View for Frame {
    type V = FrameModel;

    open spec fn view(&self) -> FrameModel {
        match self {
            Frame::Unary { op } => FrameModel::Unary { op: op@ },
            Frame::BinaryLeft { op, right } => FrameModel::BinaryLeft { op: op@, right: right@ },
            Frame::BinaryRight { op, left } => FrameModel::BinaryRight { op: op@, left: left@ },
            Frame::Bind { name } => FrameModel::Bind { name: name@ },
            Frame::Print => FrameModel::Print,
        }
    }
}

/// The views of a sequence of texts.
pub open spec fn texts(values: Seq<String>) -> Seq<Seq<char>> {
    values.map_values(|s: String| s@)
}

/// The evaluator of one run of a program.
pub struct Interpreter {
    control: Control,
    frames: Vec<Frame>,
    /// The statements not yet begun: the next one is the last.
    queue: Vec<ASTNode>,
    context: Environment,
    results: Vec<String>,
    failed: Option<Failure>,
}

impl View for Interpreter {
    type V = Machine;

    closed spec fn view(&self) -> Machine {
        Machine {
            control: self.control@,
            frames: self.frames@.map_values(|f: Frame| f@),
            queue: Seq::new(
                self.queue@.len(),
                |i: int| self.queue@[self.queue@.len() - 1 - i]@,
            ),
            env: self.context@,
            results: texts(self.results@),
            failed: self.failed,
        }
    }
}

impl Interpreter {
    /// An evaluator that is about to begin the first statement of `ast`, with
    /// no variables.
    pub fn new(ast: Vec<ASTNode>) -> (interpreter: Interpreter)
        ensures
            interpreter@ == crate::interpreter::machine::initial(syntaxes(ast@)),
    {
        let mut ast = ast;
        let ghost statements = ast@;
        let mut queue: Vec<ASTNode> = Vec::new();
        while ast.len() > 0
            invariant
                ast@.len() + queue@.len() == statements.len(),
                ast@ == statements.subrange(0, ast@.len() as int),
                forall|k: int|
                    0 <= k < queue@.len() ==> queue@[k] == statements[statements.len() - 1 - k],
            decreases ast@.len(),
        {
            match ast.pop() {
                Some(node) => {
                    queue.push(node);
                },
                None => {},
            }
        }
        let interpreter = Interpreter {
            control: Control::Next,
            frames: Vec::new(),
            queue,
            context: Environment::new(),
            results: Vec::new(),
            failed: None,
        };
        proof {
            let m = crate::interpreter::machine::initial(syntaxes(statements));
            assert(interpreter@.queue =~= m.queue);
            assert(interpreter@.frames =~= m.frames);
            assert(interpreter@.results =~= m.results);
        }
        interpreter
    }

    /// The variables.
    pub fn context(&self) -> (env: &Environment)
        ensures
            env@ == self@.env,
    {
        &self.context
    }

    /// The values of the statements evaluated so far.
    pub fn results(&self) -> (values: &Vec<String>)
        ensures
            texts(values@) == self@.results,
    {
        &self.results
    }

    /// Whether the evaluator cannot go on by itself.
    pub fn is_settled(&self) -> (b: bool)
        ensures
            b == settled(self@),
    {
        if self.failed.is_some() {
            return true;
        }
        match &self.control {
            Control::Wait(_) => true,
            Control::Next => self.queue.len() == 0,
            _ => false,
        }
    }

    /// What a settled evaluator tells the host.
    pub fn action(&self) -> (action: Action)
        ensures
            action@ == action_of(self@),
    {
        match self.failed {
            Some(failure) => Action::Failed { failure },
            None => match &self.control {
                Control::Wait(pending) => match pending {
                    Pending::Operand { text } => Action::Parse { text: text.clone() },
                    Pending::Left { op, left, right } => Action::Parse { text: left.clone() },
                    Pending::Right { op, left, right, number } => Action::Parse { text: right.clone() },
                    Pending::Negation { operand } => Action::Negate { operand: *operand },
                    Pending::Result { op, first, second } => Action::Compute {
                        op: *op,
                        left: *first,
                        right: *second,
                    },
                    Pending::Line { line } => Action::Print { line: line.clone() },
                },
                _ => Action::Finished,
            },
        }
    }

    /// Stops the run with a failure in the statement that is being evaluated.
    fn fail(&mut self, error: EvalError)
        ensures
            final(self)@ == fail(old(self)@, error),
    {
        self.control = Control::Next;
        self.frames = Vec::new();
        self.queue = Vec::new();
        self.failed = Some(Failure { statement: self.results.len(), error });
        proof {
            let m = fail(old(self)@, error);
            assert(self@.frames =~= m.frames);
            assert(self@.queue =~= m.queue);
        }
    }

    /// Begins to evaluate a tree: a leaf gives its value, any other node puts
    /// a frame on the stack and turns to its first subtree.
    fn descend(&mut self, node: ASTNode)
        ensures
            final(self)@ == descend(old(self)@, node@),
    {
        let ghost before = self@;
        match node {
            ASTNode::Number(n) => {
                self.control = Control::Return(n.value);
            },
            ASTNode::String(n) => {
                self.control = Control::Return(n.value);
            },
            ASTNode::VariableCall(n) => {
                let value = self.context.lookup(n.name.as_str());
                self.control = Control::Return(value);
            },
            ASTNode::UnaryOp(n) => {
                let UnaryOpNode { node, operator } = n;
                self.frames.push(Frame::Unary { op: operator.value });
                self.control = Control::Eval(*node);
                assert(self@.frames =~= before.frames.push(FrameModel::Unary { op: operator.value@ }));
            },
            ASTNode::BinaryOp(n) => {
                let BinaryOpNode { left, right, operator } = n;
                let ghost frame = FrameModel::BinaryLeft { op: operator.value@, right: right@ };
                self.frames.push(Frame::BinaryLeft { op: operator.value, right: *right });
                self.control = Control::Eval(*left);
                assert(self@.frames =~= before.frames.push(frame));
            },
            ASTNode::Variable(n) => {
                let VariableNode { name, value } = n;
                let ghost frame = FrameModel::Bind { name: name@ };
                self.frames.push(Frame::Bind { name });
                self.control = Control::Eval(*value);
                assert(self@.frames =~= before.frames.push(frame));
            },
            ASTNode::Print(n) => {
                let PrintNode { node } = n;
                self.frames.push(Frame::Print);
                self.control = Control::Eval(*node);
                assert(self@.frames =~= before.frames.push(FrameModel::Print));
            },
        }
    }

    /// Hands the value of a subtree to the frame that waited for it.
    fn resume(&mut self, frame: Frame, value: String)
        ensures
            final(self)@ == resume(old(self)@, frame@, value@),
    {
        let ghost before = self@;
        match frame {
            Frame::Unary { op } => {
                if same_text(&op, "-") {
                    self.control = Control::Wait(Pending::Operand { text: value });
                } else {
                    self.fail(EvalError::UnsupportedOperator);
                }
            },
            Frame::BinaryLeft { op, right } => {
                let ghost next = FrameModel::BinaryRight { op: op@, left: value@ };
                self.frames.push(Frame::BinaryRight { op, left: value });
                self.control = Control::Eval(right);
                assert(self@.frames =~= before.frames.push(next));
            },
            Frame::BinaryRight { op, left } => {
                match arith_of(&op) {
                    Some(k) => {
                        self.control = Control::Wait(Pending::Left { op: k, left, right: value });
                    },
                    None => {
                        self.fail(EvalError::UnsupportedOperator);
                    },
                }
            },
            Frame::Bind { name } => {
                let shown = name.clone();
                self.context.bind(name, value);
                self.control = Control::Return(shown);
            },
            Frame::Print => {
                self.control = Control::Wait(Pending::Line { line: value });
            },
        }
    }

    /// Takes the decision that follows the reading of both operands.
    fn operands_read(
        &mut self,
        op: ArithOp,
        left: String,
        right: String,
        a: Option<Number>,
        b: Option<Number>,
    )
        ensures
            final(self)@ == crate::interpreter::machine::operands_read(
                old(self)@,
                op,
                left@,
                right@,
                a,
                b,
            ),
    {
        match (a, b) {
            (Some(x), Some(y)) => {
                if op == ArithOp::Div && y.is_zero() {
                    self.fail(EvalError::DivisionByZero);
                } else {
                    self.control = Control::Wait(Pending::Result { op, first: x, second: y });
                }
            },
            _ => {
                if op == ArithOp::Add {
                    self.control = Control::Return(left.concat(right.as_str()));
                } else {
                    self.fail(EvalError::NotANumber);
                }
            },
        }
    }

    /// Takes the host's answer.
    fn deliver(&mut self, event: Event)
        ensures
            final(self)@ == deliver(old(self)@, event@),
    {
        if self.failed.is_some() {
            return ;
        }
        let mut control = Control::Next;
        core::mem::swap(&mut self.control, &mut control);
        match control {
            Control::Wait(pending) => match pending {
                Pending::Operand { text } => match event {
                    Event::Parsed(Some(operand)) => {
                        self.control = Control::Wait(Pending::Negation { operand });
                    },
                    Event::Parsed(None) => {
                        self.fail(EvalError::NotANumber);
                    },
                    _ => {
                        self.fail(EvalError::UnexpectedEvent);
                    },
                },
                Pending::Left { op, left, right } => match event {
                    Event::Parsed(number) => {
                        if number.is_none() && op != ArithOp::Add {
                            self.fail(EvalError::NotANumber);
                        } else {
                            self.control = Control::Wait(Pending::Right { op, left, right, number });
                        }
                    },
                    _ => {
                        self.fail(EvalError::UnexpectedEvent);
                    },
                },
                Pending::Right { op, left, right, number } => match event {
                    Event::Parsed(second) => {
                        self.operands_read(op, left, right, number, second);
                    },
                    _ => {
                        self.fail(EvalError::UnexpectedEvent);
                    },
                },
                Pending::Negation { operand } => match event {
                    Event::Computed(text) => {
                        self.control = Control::Return(text);
                    },
                    _ => {
                        self.fail(EvalError::UnexpectedEvent);
                    },
                },
                Pending::Result { op, first, second } => match event {
                    Event::Computed(text) => {
                        self.control = Control::Return(text);
                    },
                    _ => {
                        self.fail(EvalError::UnexpectedEvent);
                    },
                },
                Pending::Line { line } => match event {
                    Event::Printed => {
                        self.control = Control::Return(line);
                    },
                    _ => {
                        self.fail(EvalError::UnexpectedEvent);
                    },
                },
            },
            other => {
                self.control = other;
                match event {
                    Event::Start => {},
                    _ => {
                        self.fail(EvalError::UnexpectedEvent);
                    },
                }
            },
        }
    }

    /// Takes one step: begins the next statement, begins to evaluate a tree,
    /// or hands a value to the innermost frame; the value of a whole
    /// statement joins the results.
    pub fn evaluate(&mut self)
        requires
            !settled(old(self)@),
        ensures
            final(self)@ == step(old(self)@),
    {
        let ghost before = self@;
        let mut control = Control::Next;
        core::mem::swap(&mut self.control, &mut control);
        match control {
            Control::Next => {
                match self.queue.pop() {
                    Some(node) => {
                        self.control = Control::Eval(node);
                        assert(self@.queue =~= before.queue.drop_first());
                    },
                    None => {},
                }
            },
            Control::Eval(node) => {
                self.descend(node);
            },
            Control::Return(value) => {
                match self.frames.pop() {
                    Some(frame) => {
                        assert(self@.frames =~= before.frames.drop_last());
                        self.resume(frame, value);
                    },
                    None => {
                        self.results.push(value);
                        assert(self@.results =~= before.results.push(value@));
                    },
                }
            },
            Control::Wait(pending) => {
                self.control = Control::Wait(pending);
            },
        }
    }

    /// Takes the host's answer and runs until the host is needed again or the
    /// run is over. The first call takes [`Event::Start`].
    ///
    /// The action says what the host is to do next. After [`Action::Failed`]
    /// the run is over, and every further call returns the same failure,
    /// whatever the event. After [`Action::Finished`] nothing is left to do: a
    /// further call with [`Event::Start`] returns [`Action::Finished`] again,
    /// and a call with any other event is an answer to nothing and fails with
    /// [`EvalError::UnexpectedEvent`].
    pub fn interpret(&mut self, event: Event) -> (action: Action)
        ensures
            final(self)@ == rest(deliver(old(self)@, event@)),
            action@ == action_of(final(self)@),
            settled(final(self)@),
            distinct(old(self)@.env) ==> distinct(final(self)@.env),
    {
        self.deliver(event);
        let ghost begun = self@;
        proof {
            lemma_rest(begun);
        }
        while !self.is_settled()
            invariant
                rest(self@) == rest(begun),
            decreases measure(self@),
        {
            proof {
                lemma_step_decreases(self@);
            }
            self.evaluate();
        }
        self.action()
    }
}

} // verus!
