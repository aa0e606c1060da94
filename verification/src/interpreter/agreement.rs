//! The machine and the meaning of programs agree: a host that answers as its
//! numbers say drives the machine to the outcome that the meaning gives.
use vstd::prelude::*;
use crate::interpreter::environment::Bindings;
use crate::interpreter::machine::{
    deliver, fail, initial, lemma_answer_decreases, lemma_step_decreases, measure, rest, settled,
    step, ControlModel, EventModel, FrameModel, Machine, PendingModel,
};
use crate::interpreter::meaning::{
    apply, arith, combine, eval, eval_all, negation, run, ArithOp, EvalError, Host, Outcome,
};
use crate::parser::syntax::Syntax;

verus! {

/// The answer of a host with the given numbers to a request.
pub open spec fn answer(h: Host, pending: PendingModel) -> EventModel {
    match pending {
        PendingModel::Operand { text } => EventModel::Parsed((h.read)(text)),
        PendingModel::Left { left, .. } => EventModel::Parsed((h.read)(left)),
        PendingModel::Right { right, .. } => EventModel::Parsed((h.read)(right)),
        PendingModel::Negation { operand } => EventModel::Computed((h.negate)(operand)),
        PendingModel::Result { op, first, second } => EventModel::Computed((h.compute)(op, first, second)),
        PendingModel::Line { .. } => EventModel::Printed,
    }
}

/// Whether the run is over: the machine has failed or nothing is left to do.
pub open spec fn halted(m: Machine) -> bool {
    m.failed is Some || (m.control is Next && m.queue.len() == 0)
}

/// The machine one step later, or, where it waits, after the host's answer.
pub open spec fn tick(h: Host, m: Machine) -> Machine {
    match m.control {
        ControlModel::Wait(pending) => deliver(m, answer(h, pending)),
        _ => step(m),
    }
}

/// The line that the host prints before it answers, if the machine waits for
/// a line to be printed.
pub open spec fn emitted(m: Machine) -> Seq<Seq<char>> {
    match m.control {
        ControlModel::Wait(PendingModel::Line { line }) => seq![line],
        _ => Seq::empty(),
    }
}

/// Where a run ends and what it prints on the way.
pub struct Trace {
    pub end: Machine,
    pub printed: Seq<Seq<char>>,
}

/// The run of a machine with a host that answers as its numbers say, to its
/// end.
pub open spec fn execute(h: Host, m: Machine) -> Trace
    decreases measure(m),
    via execute_terminates
{
    if halted(m) {
        Trace { end: m, printed: Seq::empty() }
    } else {
        let t = execute(h, tick(h, m));
        Trace { end: t.end, printed: emitted(m) + t.printed }
    }
}

#[via_fn]
proof fn execute_terminates(h: Host, m: Machine) {
    if !halted(m) {
        match m.control {
            ControlModel::Wait(pending) => {
                lemma_answer_decreases(m, answer(h, pending));
            },
            _ => {
                lemma_step_decreases(m);
            },
        }
    }
}

/// What a run that printed `before` and then went on as `t` has done in all.
pub open spec fn outcome_of(before: Seq<Seq<char>>, t: Trace) -> Outcome {
    Outcome {
        env: t.end.env,
        printed: before + t.printed,
        results: t.end.results,
        failure: t.end.failed,
    }
}

/// Whether the run from `m` prints `printed` and then goes on as the run
/// from `then`.
pub open spec fn leads(h: Host, m: Machine, printed: Seq<Seq<char>>, then: Machine) -> bool {
    &&& execute(h, m).end == execute(h, then).end
    &&& execute(h, m).printed == printed + execute(h, then).printed
}

/// Whether the run from `m` prints `printed` and then fails with `error`,
/// with the variables `env`.
pub open spec fn fails(
    h: Host,
    m: Machine,
    printed: Seq<Seq<char>>,
    env: Bindings,
    error: EvalError,
) -> bool {
    &&& execute(h, m).end == fail(Machine { env, ..m }, error)
    &&& execute(h, m).printed == printed
}

/// The machine holding a value, with the given stack and variables.
pub open spec fn holding(
    m: Machine,
    value: Seq<char>,
    frames: Seq<FrameModel>,
    env: Bindings,
) -> Machine {
    Machine { control: ControlModel::Return(value), frames, env, ..m }
}

proof fn lemma_leads_tick(h: Host, m: Machine)
    requires
        !halted(m),
    ensures
        leads(h, m, emitted(m), tick(h, m)),
{
}

proof fn lemma_leads_chain(
    h: Host,
    a: Machine,
    p: Seq<Seq<char>>,
    b: Machine,
    q: Seq<Seq<char>>,
    c: Machine,
)
    requires
        leads(h, a, p, b),
        leads(h, b, q, c),
    ensures
        leads(h, a, p + q, c),
{
    assert(p + (q + execute(h, c).printed) =~= (p + q) + execute(h, c).printed);
}

proof fn lemma_fails_after(
    h: Host,
    a: Machine,
    p: Seq<Seq<char>>,
    b: Machine,
    q: Seq<Seq<char>>,
    env: Bindings,
    error: EvalError,
)
    requires
        leads(h, a, p, b),
        fails(h, b, q, env, error),
        a.results == b.results,
    ensures
        fails(h, a, p + q, env, error),
{
}

proof fn lemma_fails_now(h: Host, m: Machine, error: EvalError)
    requires
        m.failed is None,
    ensures
        execute(h, fail(m, error)).end == fail(m, error),
        execute(h, fail(m, error)).printed == Seq::<Seq<char>>::empty(),
{
}

/// The run from a machine that holds the value of the operand of a sign.
proof fn lemma_after_operand(
    h: Host,
    m: Machine,
    frames: Seq<FrameModel>,
    op: Seq<char>,
    value: Seq<char>,
)
    requires
        m.failed is None,
        m.control == ControlModel::Return(value),
        m.frames == frames.push(FrameModel::Unary { op }),
    ensures
        match negation(h, op, value) {
            Ok(w) => leads(h, m, Seq::empty(), holding(m, w, frames, m.env)),
            Err(error) => fails(h, m, Seq::empty(), m.env, error),
        },
{
    let none = Seq::<Seq<char>>::empty();
    assert(m.frames.drop_last() =~= frames);
    let m1 = tick(h, m);
    lemma_leads_tick(h, m);
    assert(none + none =~= none);
    if op == "-"@ {
        assert(m1 == Machine {
            control: ControlModel::Wait(PendingModel::Operand { text: value }),
            frames,
            ..m
        });
        let m2 = tick(h, m1);
        lemma_leads_tick(h, m1);
        lemma_leads_chain(h, m, none, m1, none, m2);
        match (h.read)(value) {
            Some(a) => {
                assert(m2 == Machine {
                    control: ControlModel::Wait(PendingModel::Negation { operand: a }),
                    frames,
                    ..m
                });
                let m3 = tick(h, m2);
                lemma_leads_tick(h, m2);
                lemma_leads_chain(h, m, none, m2, none, m3);
                assert(m3 == holding(m, (h.negate)(a), frames, m.env));
            },
            None => {
                assert(m2 == fail(m, EvalError::NotANumber));
                lemma_fails_now(h, m, EvalError::NotANumber);
                assert(none + none =~= none);
            },
        }
    } else {
        assert(m1 == fail(m, EvalError::UnsupportedOperator));
        lemma_fails_now(h, m, EvalError::UnsupportedOperator);
    }
}

/// The run from a machine that holds the value of the right operand of an
/// operation.
proof fn lemma_after_operands(
    h: Host,
    m: Machine,
    frames: Seq<FrameModel>,
    op: Seq<char>,
    left: Seq<char>,
    right: Seq<char>,
)
    requires
        m.failed is None,
        m.control == ControlModel::Return(right),
        m.frames == frames.push(FrameModel::BinaryRight { op, left }),
    ensures
        match combine(h, op, left, right) {
            Ok(w) => leads(h, m, Seq::empty(), holding(m, w, frames, m.env)),
            Err(error) => fails(h, m, Seq::empty(), m.env, error),
        },
{
    let none = Seq::<Seq<char>>::empty();
    assert(m.frames.drop_last() =~= frames);
    assert(none + none =~= none);
    let base = Machine { frames, ..m };
    let m1 = tick(h, m);
    lemma_leads_tick(h, m);
    match arith(op) {
        Some(k) => {
            assert(m1 == Machine {
                control: ControlModel::Wait(PendingModel::Left { op: k, left, right }),
                ..base
            });
            let a = (h.read)(left);
            let b = (h.read)(right);
            let m2 = tick(h, m1);
            lemma_leads_tick(h, m1);
            lemma_leads_chain(h, m, none, m1, none, m2);
            if a is None && k != ArithOp::Add {
                assert(m2 == fail(m, EvalError::NotANumber));
                lemma_fails_now(h, m, EvalError::NotANumber);
            } else {
                assert(m2 == Machine {
                    control: ControlModel::Wait(
                        PendingModel::Right { op: k, left, right, number: a },
                    ),
                    ..base
                });
                let m3 = tick(h, m2);
                lemma_leads_tick(h, m2);
                lemma_leads_chain(h, m, none, m2, none, m3);
                match apply(h, k, left, right, a, b) {
                    Ok(w) => {
                        if a is Some && b is Some {
                            assert(m3 == Machine {
                                control: ControlModel::Wait(
                                    PendingModel::Result { op: k, first: a->0, second: b->0 },
                                ),
                                ..base
                            });
                            let m4 = tick(h, m3);
                            lemma_leads_tick(h, m3);
                            lemma_leads_chain(h, m, none, m3, none, m4);
                            assert(m4 == holding(m, w, frames, m.env));
                        } else {
                            assert(m3 == holding(m, w, frames, m.env));
                        }
                    },
                    Err(error) => {
                        assert(m3 == fail(m, error));
                        lemma_fails_now(h, m, error);
                    },
                }
            }
        },
        None => {
            assert(m1 == fail(m, EvalError::UnsupportedOperator));
            lemma_fails_now(h, m, EvalError::UnsupportedOperator);
        },
    }
}

/// Evaluating a tree on the machine does what the meaning of the tree says:
/// the machine comes to hold the value, with its stack as before, or fails.
pub proof fn lemma_eval(h: Host, m: Machine, e: Syntax)
    requires
        m.failed is None,
        m.control == ControlModel::Eval(e),
    ensures
        match eval(h, m.env, e).value {
            Ok(v) => leads(
                h,
                m,
                eval(h, m.env, e).printed,
                holding(m, v, m.frames, eval(h, m.env, e).env),
            ),
            Err(error) => fails(h, m, eval(h, m.env, e).printed, eval(h, m.env, e).env, error),
        },
    decreases e,
{
    let none = Seq::<Seq<char>>::empty();
    let x = eval(h, m.env, e);
    let m1 = tick(h, m);
    lemma_leads_tick(h, m);
    assert(none + none =~= none);
    match e {
        Syntax::Number(text) => {
            assert(m1 == holding(m, text, m.frames, m.env));
        },
        Syntax::Text(text) => {
            assert(m1 == holding(m, text, m.frames, m.env));
        },
        Syntax::Call { name } => {
            assert(m1 == holding(m, x.value->Ok_0, m.frames, m.env));
        },
        Syntax::Unary { op, operand } => {
            let inner = eval(h, m.env, *operand);
            lemma_eval(h, m1, *operand);
            assert(none + inner.printed =~= inner.printed);
            match inner.value {
                Ok(v) => {
                    let m2 = holding(m1, v, m1.frames, inner.env);
                    lemma_leads_chain(h, m, none, m1, inner.printed, m2);
                    lemma_after_operand(h, m2, m.frames, op, v);
                    assert(inner.printed + none =~= inner.printed);
                    match negation(h, op, v) {
                        Ok(w) => {
                            let m3 = holding(m2, w, m.frames, m2.env);
                            lemma_leads_chain(h, m, inner.printed, m2, none, m3);
                            assert(m3 == holding(m, w, m.frames, x.env));
                        },
                        Err(error) => {
                            lemma_fails_after(h, m, inner.printed, m2, none, m2.env, error);
                            assert(fail(Machine { env: m2.env, ..m2 }, error) == fail(
                                Machine { env: x.env, ..m },
                                error,
                            ));
                        },
                    }
                },
                Err(error) => {
                    lemma_fails_after(h, m, none, m1, inner.printed, inner.env, error);
                    assert(fail(Machine { env: inner.env, ..m1 }, error) == fail(
                        Machine { env: x.env, ..m },
                        error,
                    ));
                },
            }
        },
        Syntax::Binary { op, left, right } => {
            let l = eval(h, m.env, *left);
            lemma_eval(h, m1, *left);
            assert(none + l.printed =~= l.printed);
            match l.value {
                Ok(lv) => {
                    let m2 = holding(m1, lv, m1.frames, l.env);
                    lemma_leads_chain(h, m, none, m1, l.printed, m2);
                    assert(m2.frames.drop_last() =~= m.frames);
                    let m3 = tick(h, m2);
                    lemma_leads_tick(h, m2);
                    assert(l.printed + none =~= l.printed);
                    lemma_leads_chain(h, m, l.printed, m2, none, m3);
                    assert(m3 == Machine {
                        control: ControlModel::Eval(*right),
                        frames: m.frames.push(FrameModel::BinaryRight { op, left: lv }),
                        env: l.env,
                        ..m
                    });
                    let r = eval(h, l.env, *right);
                    lemma_eval(h, m3, *right);
                    let both = l.printed + r.printed;
                    match r.value {
                        Ok(rv) => {
                            let m4 = holding(m3, rv, m3.frames, r.env);
                            lemma_leads_chain(h, m, l.printed, m3, r.printed, m4);
                            lemma_after_operands(h, m4, m.frames, op, lv, rv);
                            assert(both + none =~= both);
                            match combine(h, op, lv, rv) {
                                Ok(w) => {
                                    let m5 = holding(m4, w, m.frames, m4.env);
                                    lemma_leads_chain(h, m, both, m4, none, m5);
                                    assert(m5 == holding(m, w, m.frames, x.env));
                                },
                                Err(error) => {
                                    lemma_fails_after(h, m, both, m4, none, m4.env, error);
                                    assert(fail(Machine { env: m4.env, ..m4 }, error) == fail(
                                        Machine { env: x.env, ..m },
                                        error,
                                    ));
                                },
                            }
                        },
                        Err(error) => {
                            lemma_fails_after(h, m, l.printed, m3, r.printed, r.env, error);
                            assert(fail(Machine { env: r.env, ..m3 }, error) == fail(
                                Machine { env: x.env, ..m },
                                error,
                            ));
                        },
                    }
                },
                Err(error) => {
                    lemma_fails_after(h, m, none, m1, l.printed, l.env, error);
                    assert(fail(Machine { env: l.env, ..m1 }, error) == fail(
                        Machine { env: x.env, ..m },
                        error,
                    ));
                },
            }
        },
        Syntax::Bind { name, init } => {
            let inner = eval(h, m.env, *init);
            lemma_eval(h, m1, *init);
            assert(none + inner.printed =~= inner.printed);
            match inner.value {
                Ok(v) => {
                    let m2 = holding(m1, v, m1.frames, inner.env);
                    lemma_leads_chain(h, m, none, m1, inner.printed, m2);
                    assert(m2.frames.drop_last() =~= m.frames);
                    let m3 = tick(h, m2);
                    lemma_leads_tick(h, m2);
                    assert(inner.printed + none =~= inner.printed);
                    lemma_leads_chain(h, m, inner.printed, m2, none, m3);
                    assert(m3 == holding(m, name, m.frames, x.env));
                },
                Err(error) => {
                    lemma_fails_after(h, m, none, m1, inner.printed, inner.env, error);
                    assert(fail(Machine { env: inner.env, ..m1 }, error) == fail(
                        Machine { env: x.env, ..m },
                        error,
                    ));
                },
            }
        },
        Syntax::Print { arg } => {
            let inner = eval(h, m.env, *arg);
            lemma_eval(h, m1, *arg);
            assert(none + inner.printed =~= inner.printed);
            match inner.value {
                Ok(v) => {
                    let m2 = holding(m1, v, m1.frames, inner.env);
                    lemma_leads_chain(h, m, none, m1, inner.printed, m2);
                    assert(m2.frames.drop_last() =~= m.frames);
                    let m3 = tick(h, m2);
                    lemma_leads_tick(h, m2);
                    assert(inner.printed + none =~= inner.printed);
                    lemma_leads_chain(h, m, inner.printed, m2, none, m3);
                    assert(m3 == Machine {
                        control: ControlModel::Wait(PendingModel::Line { line: v }),
                        frames: m.frames,
                        env: inner.env,
                        ..m
                    });
                    let m4 = tick(h, m3);
                    lemma_leads_tick(h, m3);
                    lemma_leads_chain(h, m, inner.printed, m3, seq![v], m4);
                    assert(inner.printed + seq![v] =~= inner.printed.push(v));
                    assert(m4 == holding(m, v, m.frames, x.env));
                },
                Err(error) => {
                    lemma_fails_after(h, m, none, m1, inner.printed, inner.env, error);
                    assert(fail(Machine { env: inner.env, ..m1 }, error) == fail(
                        Machine { env: x.env, ..m },
                        error,
                    ));
                },
            }
        },
    }
}

/// Between two statements the machine does to the rest of the program what
/// the meaning of the statements says.
pub proof fn lemma_statements(h: Host, m: Machine, before: Seq<Seq<char>>)
    requires
        m.failed is None,
        m.control is Next,
        m.frames.len() == 0,
    ensures
        outcome_of(before, execute(h, m)) == eval_all(
            h,
            Outcome { env: m.env, printed: before, results: m.results, failure: None },
            m.queue,
        ),
    decreases m.queue.len(),
{
    let none = Seq::<Seq<char>>::empty();
    if m.queue.len() == 0 {
        assert(before + none =~= before);
    } else {
        let e = m.queue[0];
        let x = eval(h, m.env, e);
        let m1 = tick(h, m);
        lemma_leads_tick(h, m);
        lemma_eval(h, m1, e);
        assert(none + x.printed =~= x.printed);
        match x.value {
            Ok(v) => {
                let m2 = holding(m1, v, m1.frames, x.env);
                lemma_leads_chain(h, m, none, m1, x.printed, m2);
                let m3 = tick(h, m2);
                lemma_leads_tick(h, m2);
                assert(x.printed + none =~= x.printed);
                lemma_leads_chain(h, m, x.printed, m2, none, m3);
                lemma_statements(h, m3, before + x.printed);
                assert(before + (x.printed + execute(h, m3).printed) =~= (before + x.printed)
                    + execute(h, m3).printed);
            },
            Err(error) => {
                lemma_fails_after(h, m, none, m1, x.printed, x.env, error);
            },
        }
    }
}

/// A host that answers as its numbers say drives the evaluator of a program
/// to the outcome that the meaning of the program gives: the same values of
/// the statements, the same lines printed, the same variables and the same
/// failure, if any.
pub proof fn theorem_run(h: Host, statements: Seq<Syntax>)
    ensures
        outcome_of(Seq::empty(), execute(h, initial(statements))) == run(h, statements),
{
    lemma_statements(h, initial(statements), Seq::empty());
}

/// One round of a host: the run from a machine that waits is what the host
/// prints for it, and then the run from where the machine rests after the
/// host's answer.
pub proof fn lemma_round(h: Host, m: Machine)
    requires
        m.failed is None,
        m.control is Wait,
    ensures
        leads(h, m, emitted(m), rest(deliver(m, answer(h, m.control->Wait_0)))),
{
    lemma_execute_rest(h, tick(h, m));
}

/// The steps that the machine takes by itself print nothing and lead where
/// the run leads.
pub proof fn lemma_execute_rest(h: Host, m: Machine)
    ensures
        execute(h, rest(m)) == execute(h, m),
    decreases measure(m),
{
    if !settled(m) {
        lemma_step_decreases(m);
        lemma_execute_rest(h, step(m));
        assert(Seq::<Seq<char>>::empty() + execute(h, step(m)).printed =~= execute(h, step(m)).printed);
    }
}

} // verus!
