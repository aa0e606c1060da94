//! What a program means: the value of a tree, the lines it prints and what it
//! does to the variables, given what the host's numbers do.
//!
//! Values are texts. An operator reads its operands as numbers when it is
//! applied.
use vstd::prelude::*;
use crate::interpreter::environment::{bind, lookup, Bindings};
use crate::parser::syntax::Syntax;
use crate::text::same_text;

verus! {

/// A single-precision number, held as its 32 bits (IEEE 754 binary32). The
/// library tests such a number for zero and hands it on; it never computes
/// with it.
#[derive(Clone, Copy, Debug, PartialEq, Eq, Structural)]
pub struct Number {
    pub bits: u32,
}

impl Number {
    /// Whether the number is zero: all bits clear, but for the sign.
    pub open spec fn zero(self) -> bool {
        self.bits == 0 || self.bits == 0x8000_0000u32
    }

    pub fn is_zero(&self) -> (b: bool)
        ensures
            b == self.zero(),
    {
        self.bits == 0 || self.bits == 0x8000_0000u32
    }
}

/// The four operations between two numbers.
#[derive(Clone, Copy, Debug, PartialEq, Eq, Structural)]
pub enum ArithOp {
    Add,
    Sub,
    Mul,
    Div,
}

/// Why evaluation stopped.
#[derive(Clone, Copy, Debug, PartialEq, Eq, Structural)]
pub enum EvalError {
    /// An operand of `-`, `*`, `/` or of the sign does not read as a number.
    NotANumber,
    /// The right operand of `/` is zero.
    DivisionByZero,
    /// An operator that the evaluator does not know.
    UnsupportedOperator,
    /// The host answered something that had not been asked.
    UnexpectedEvent,
}

/// The statement that failed, counted from 0, and why.
#[derive(Clone, Copy, Debug, PartialEq, Eq, Structural)]
pub struct Failure {
    pub statement: usize,
    pub error: EvalError,
}

/// The operation that an operator text stands for.
pub open spec fn arith(op: Seq<char>) -> Option<ArithOp> {
    if op == "+"@ {
        Some(ArithOp::Add)
    } else if op == "-"@ {
        Some(ArithOp::Sub)
    } else if op == "*"@ {
        Some(ArithOp::Mul)
    } else if op == "/"@ {
        Some(ArithOp::Div)
    } else {
        None
    }
}

pub fn arith_of(op: &String) -> (r: Option<ArithOp>)
    ensures
        r == arith(op@),
{
    if same_text(op, "+") {
        Some(ArithOp::Add)
    } else if same_text(op, "-") {
        Some(ArithOp::Sub)
    } else if same_text(op, "*") {
        Some(ArithOp::Mul)
    } else if same_text(op, "/") {
        Some(ArithOp::Div)
    } else {
        None
    }
}

/// What the host's numbers do: how a text reads as a number, if it does, and
/// the text of the result of each operation.
pub struct Host {
    pub read: spec_fn(Seq<char>) -> Option<Number>,
    pub compute: spec_fn(ArithOp, Number, Number) -> Seq<char>,
    pub negate: spec_fn(Number) -> Seq<char>,
}

/// An operation on two operands that have been read. Division by zero fails.
/// Where `+` has an operand that is no number, the two texts are joined; the
/// other operations fail there.
pub open spec fn apply(
    h: Host,
    op: ArithOp,
    left: Seq<char>,
    right: Seq<char>,
    a: Option<Number>,
    b: Option<Number>,
) -> Result<Seq<char>, EvalError> {
    match (a, b) {
        (Some(x), Some(y)) => if op == ArithOp::Div && y.zero() {
            Err(EvalError::DivisionByZero)
        } else {
            Ok((h.compute)(op, x, y))
        },
        _ => if op == ArithOp::Add {
            Ok(left + right)
        } else {
            Err(EvalError::NotANumber)
        },
    }
}

/// The value of a binary operator applied to the values of its operands.
pub open spec fn combine(h: Host, op: Seq<char>, left: Seq<char>, right: Seq<char>) -> Result<
    Seq<char>,
    EvalError,
> {
    match arith(op) {
        Some(k) => apply(h, k, left, right, (h.read)(left), (h.read)(right)),
        None => Err(EvalError::UnsupportedOperator),
    }
}

/// The value of a unary operator applied to the value of its operand. The
/// only one is the sign `-`.
pub open spec fn negation(h: Host, op: Seq<char>, operand: Seq<char>) -> Result<Seq<char>, EvalError> {
    if op == "-"@ {
        match (h.read)(operand) {
            Some(a) => Ok((h.negate)(a)),
            None => Err(EvalError::NotANumber),
        }
    } else {
        Err(EvalError::UnsupportedOperator)
    }
}

/// What evaluating a tree does: the variables afterwards, the lines printed,
/// and the value or the reason of the failure.
pub struct Effect {
    pub env: Bindings,
    pub printed: Seq<Seq<char>>,
    pub value: Result<Seq<char>, EvalError>,
}

/// Evaluation of one tree.
///
/// A literal is its text. A name is its value, or the empty text where it has
/// none. A binary operator evaluates its left operand, then its right one, then
/// combines the values. A binding gives the name the value of its initializer
/// unless the name has a value, and is the name. A print statement prints the
/// value of its argument and is that value. A failure inside a tree is the
/// failure of the tree; what was printed and bound before it stays.
pub open spec fn eval(h: Host, env: Bindings, e: Syntax) -> Effect
    decreases e,
{
    match e {
        Syntax::Number(text) => Effect { env, printed: Seq::empty(), value: Ok(text) },
        Syntax::Text(text) => Effect { env, printed: Seq::empty(), value: Ok(text) },
        Syntax::Call { name } => Effect { env, printed: Seq::empty(), value: Ok(lookup(env, name)) },
        Syntax::Unary { op, operand } => {
            let x = eval(h, env, *operand);
            match x.value {
                Ok(v) => Effect { env: x.env, printed: x.printed, value: negation(h, op, v) },
                Err(_) => x,
            }
        },
        Syntax::Binary { op, left, right } => {
            let l = eval(h, env, *left);
            match l.value {
                Ok(lv) => {
                    let r = eval(h, l.env, *right);
                    Effect {
                        env: r.env,
                        printed: l.printed + r.printed,
                        value: match r.value {
                            Ok(rv) => combine(h, op, lv, rv),
                            Err(e) => Err(e),
                        },
                    }
                },
                Err(_) => l,
            }
        },
        Syntax::Bind { name, init } => {
            let x = eval(h, env, *init);
            match x.value {
                Ok(v) => Effect { env: bind(x.env, name, v), printed: x.printed, value: Ok(name) },
                Err(_) => x,
            }
        },
        Syntax::Print { arg } => {
            let x = eval(h, env, *arg);
            match x.value {
                Ok(v) => Effect { env: x.env, printed: x.printed.push(v), value: Ok(v) },
                Err(_) => x,
            }
        },
    }
}

/// What a run has done so far, or in all: the variables, the lines printed,
/// the values of the statements that were evaluated, and the failure that
/// ended it, if one did.
pub struct Outcome {
    pub env: Bindings,
    pub printed: Seq<Seq<char>>,
    pub results: Seq<Seq<char>>,
    pub failure: Option<Failure>,
}

/// Evaluation of statements one after the other, up to the first failure.
pub open spec fn eval_all(h: Host, so_far: Outcome, statements: Seq<Syntax>) -> Outcome
    decreases statements.len(),
{
    if statements.len() == 0 {
        so_far
    } else {
        let x = eval(h, so_far.env, statements[0]);
        match x.value {
            Ok(v) => eval_all(
                h,
                Outcome {
                    env: x.env,
                    printed: so_far.printed + x.printed,
                    results: so_far.results.push(v),
                    failure: None,
                },
                statements.drop_first(),
            ),
            Err(error) => Outcome {
                env: x.env,
                printed: so_far.printed + x.printed,
                results: so_far.results,
                failure: Some(Failure { statement: so_far.results.len() as usize, error }),
            },
        }
    }
}

/// The run of a program from nothing.
pub open spec fn run(h: Host, statements: Seq<Syntax>) -> Outcome {
    eval_all(
        h,
        Outcome { env: Seq::empty(), printed: Seq::empty(), results: Seq::empty(), failure: None },
        statements,
    )
}

} // verus!
