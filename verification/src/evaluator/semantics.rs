//! What an expression evaluates to, said in one piece.
//!
//! The machine takes small steps. This module says what a whole evaluation
//! gives, by recursion over the expression as the language is usually
//! described, and proves that the machine, driven by a host, arrives at
//! exactly that.

use vstd::prelude::*;
use crate::ast::ExpressionView;
use crate::evaluator::builtins::ReplyView;
use crate::evaluator::environment::{ScopeView, defined};
use crate::evaluator::error::EvalErrorView;
use crate::evaluator::environment::initial_scopes;
use crate::evaluator::form::{FormView, form_of};
use crate::evaluator::state::{
    EventView, FrameView, Host, ModeView, State, bound, builtin_reply, call_arity_message,
};
use crate::evaluator::laws::{is_builtin_name, is_literal, literal_value};
use crate::evaluator::laws::law_arithmetic_is_carried_out;
use crate::evaluator::value::{Builtin, Callable, LambdaView, ValueView};

verus! {

/// What outlives an evaluation: the scopes and the closures.
pub struct Heap {
    pub scopes: Seq<ScopeView>,
    pub lambdas: Seq<LambdaView>,
}

/// The value or the failure of an evaluation, with the scopes and closures
/// after it.
pub struct Outcome<T> {
    pub result: Result<T, EvalErrorView>,
    pub heap: Heap,
}

/// What `expr` evaluates to in `env`, if `depth` nested evaluations are
/// enough; `None` if they are not.
///
/// A literal, an identifier and the empty list have their value at once. An
/// `if` evaluates its condition and then one branch: the first if the
/// condition gave the boolean true, else the second, of which nil takes the
/// place where it is missing. A `let` evaluates its value and binds it in
/// `env` itself; its value is nil. A `lambda` makes a closure that keeps
/// `env`. A call evaluates all its elements from left to right in `env` and
/// applies the first to the others. The first failure is the failure of the
/// whole.
pub open spec fn evaluated(
    expr: ExpressionView,
    env: usize,
    heap: Heap,
    host: Host,
    depth: nat,
) -> Option<Outcome<ValueView>>
    decreases depth, 0nat,
{
    if depth == 0 {
        None
    } else {
        let inner = (depth - 1) as nat;
        match form_of(expr, env, heap.scopes) {
            FormView::Value(v) => Some(Outcome { result: Ok(v), heap }),
            FormView::Failure(e) => Some(Outcome { result: Err(e), heap }),
            FormView::If { condition, then_branch, else_branch } => match evaluated(
                condition,
                env,
                heap,
                host,
                inner,
            ) {
                None => None,
                Some(Outcome { result: Err(e), heap: after }) => Some(
                    Outcome { result: Err(e), heap: after },
                ),
                Some(Outcome { result: Ok(v), heap: after }) => if v.is_true() {
                    evaluated(then_branch, env, after, host, inner)
                } else {
                    match else_branch {
                        Some(e) => evaluated(e, env, after, host, inner),
                        None => Some(Outcome { result: Ok(ValueView::Nil), heap: after }),
                    }
                },
            },
            FormView::Let { name, value } => match evaluated(value, env, heap, host, inner) {
                None => None,
                Some(Outcome { result: Err(e), heap: after }) => Some(
                    Outcome { result: Err(e), heap: after },
                ),
                Some(Outcome { result: Ok(v), heap: after }) => Some(
                    Outcome {
                        result: Ok(ValueView::Nil),
                        heap: Heap {
                            scopes: defined(after.scopes, env as int, name, v),
                            lambdas: after.lambdas,
                        },
                    },
                ),
            },
            FormView::Lambda { params, body } => Some(
                Outcome {
                    result: Ok(ValueView::Function(Callable::Lambda(heap.lambdas.len() as usize))),
                    heap: Heap {
                        scopes: heap.scopes,
                        lambdas: heap.lambdas.push(LambdaView { params, body, env }),
                    },
                },
            ),
            FormView::Call { elements } => match evaluated_all(
                elements,
                elements.len() as int,
                env,
                heap,
                host,
                inner,
            ) {
                None => None,
                Some(Outcome { result: Err(e), heap: after }) => Some(
                    Outcome { result: Err(e), heap: after },
                ),
                Some(Outcome { result: Ok(values), heap: after }) => applied(
                    values,
                    after,
                    host,
                    inner,
                ),
            },
        }
    }
}

/// The values of the first `count` of `elements`, evaluated from left to
/// right in `env`.
pub open spec fn evaluated_all(
    elements: Seq<ExpressionView>,
    count: int,
    env: usize,
    heap: Heap,
    host: Host,
    depth: nat,
) -> Option<Outcome<Seq<ValueView>>>
    decreases depth, 1nat, count,
{
    if count <= 0 {
        Some(Outcome { result: Ok(Seq::empty()), heap })
    } else {
        match evaluated_all(elements, count - 1, env, heap, host, depth) {
            None => None,
            Some(Outcome { result: Err(e), heap: after }) => Some(
                Outcome { result: Err(e), heap: after },
            ),
            Some(Outcome { result: Ok(values), heap: after }) => match evaluated(
                elements[count - 1],
                env,
                after,
                host,
                depth,
            ) {
                None => None,
                Some(Outcome { result: Err(e), heap: last }) => Some(
                    Outcome { result: Err(e), heap: last },
                ),
                Some(Outcome { result: Ok(v), heap: last }) => Some(
                    Outcome { result: Ok(values.push(v)), heap: last },
                ),
            },
        }
    }
}

/// The value of a sequence of expressions from `next` on, evaluated one
/// after another in `env`: that of the last one, and `last` if there is
/// none.
pub open spec fn evaluated_sequence(
    items: Seq<ExpressionView>,
    next: int,
    last: ValueView,
    env: usize,
    heap: Heap,
    host: Host,
    depth: nat,
) -> Option<Outcome<ValueView>>
    decreases depth, 1nat, items.len() - next,
{
    if !(0 <= next < items.len()) {
        Some(Outcome { result: Ok(last), heap })
    } else {
        match evaluated(items[next], env, heap, host, depth) {
            None => None,
            Some(Outcome { result: Err(e), heap: after }) => Some(
                Outcome { result: Err(e), heap: after },
            ),
            Some(Outcome { result: Ok(v), heap: after }) => evaluated_sequence(
                items,
                next + 1,
                v,
                env,
                after,
                host,
                depth,
            ),
        }
    }
}

/// What applying the first of `values` to the others gives. A builtin
/// answers; where it asks for arithmetic, the result is what the host's
/// answers make of it. A procedure of the host returns what the host says. A
/// closure takes as many arguments as it has parameters; its body is
/// evaluated in a new scope inside the scope that the closure kept, with
/// each parameter bound to its argument. What is no function cannot be
/// called.
pub open spec fn applied(values: Seq<ValueView>, heap: Heap, host: Host, depth: nat) -> Option<
    Outcome<ValueView>,
>
    decreases depth, 2nat,
{
    if values.len() == 0 {
        Some(Outcome { result: Ok(ValueView::Nil), heap })
    } else {
        let args = values.skip(1);
        match values[0] {
            ValueView::Function(Callable::Builtin(builtin)) => if builtin == Builtin::Print {
                Some(Outcome { result: Ok(ValueView::Nil), heap })
            } else {
                match builtin_reply(builtin, args) {
                    Err(e) => Some(Outcome { result: Err(e), heap }),
                    Ok(ReplyView::Value(v)) => Some(Outcome { result: Ok(v), heap }),
                    Ok(ReplyView::Compute(c)) => Some(
                        Outcome { result: Ok(ValueView::Number(c.result(host.compute))), heap },
                    ),
                }
            },
            ValueView::Function(Callable::Native(native)) => Some(
                Outcome { result: (host.call)(native, args), heap },
            ),
            ValueView::Function(Callable::Lambda(id)) => if id < heap.lambdas.len() {
                let lambda = heap.lambdas[id as int];
                if args.len() != lambda.params.len() {
                    Some(
                        Outcome {
                            result: Err(
                                EvalErrorView::WrongNumArgs(
                                    call_arity_message(lambda.params.len(), args.len()),
                                ),
                            ),
                            heap,
                        },
                    )
                } else if depth == 0 {
                    None
                } else {
                    evaluated_sequence(
                        lambda.body,
                        0,
                        ValueView::Nil,
                        heap.scopes.len() as usize,
                        Heap {
                            scopes: heap.scopes.push(
                                ScopeView {
                                    bindings: bound(lambda.params, args, args.len() as int),
                                    parent: Some(lambda.env),
                                },
                            ),
                            lambdas: heap.lambdas,
                        },
                        host,
                        (depth - 1) as nat,
                    )
                }
            } else {
                Some(Outcome { result: Err(EvalErrorView::NotCallable(values[0])), heap })
            },
            _ => Some(Outcome { result: Err(EvalErrorView::NotCallable(values[0])), heap }),
        }
    }
}

/// What a program evaluates to in the global scope: the value of its last
/// expression, and nil if it has none.
pub open spec fn program_evaluated(
    program: Seq<ExpressionView>,
    heap: Heap,
    host: Host,
    depth: nat,
) -> Option<Outcome<ValueView>> {
    evaluated_sequence(program, 0, ValueView::Nil, 0, heap, host, depth)
}

/// The scopes and closures of a state.
pub open spec fn heap_of(s: State) -> Heap {
    Heap { scopes: s.scopes, lambdas: s.lambdas }
}

/// The state with the given scopes and closures, forms under way and mode.
pub open spec fn state_at(heap: Heap, stack: Seq<FrameView>, mode: ModeView) -> State {
    State { scopes: heap.scopes, lambdas: heap.lambdas, stack, mode }
}

/// Where the machine arrives when an evaluation that was started with
/// `stack` under way has the given outcome: a value is handed to the
/// innermost form of `stack`; a failure ends the evaluation and gives up
/// every form.
pub open spec fn arrived(outcome: Outcome<ValueView>, stack: Seq<FrameView>) -> State {
    match outcome.result {
        Ok(v) => state_at(outcome.heap, stack, ModeView::Deliver(v)),
        Err(e) => state_at(outcome.heap, Seq::empty(), ModeView::Done(Err(e))),
    }
}

/// Steps add up.
pub proof fn lemma_driven_adds(s: State, host: Host, first: nat, second: nat)
    ensures
        s.driven(host, first + second) == s.driven(host, first).driven(host, second),
    decreases first,
{
    if first > 0 {
        lemma_driven_adds(s.step(s.answer(host)), host, (first - 1) as nat, second);
        assert(s.driven(host, first + second) == s.step(s.answer(host)).driven(
            host,
            (first + second - 1) as nat,
        ));
    }
}

/// One step and then some.
proof fn lemma_driven_after_step(s: State, host: Host, rest: nat)
    ensures
        s.driven(host, rest + 1) == s.step(s.answer(host)).driven(host, rest),
{
}

/// Some steps and then one.
proof fn lemma_driven_before_step(s: State, host: Host, first: nat)
    ensures
        s.driven(host, first + 1) == s.driven(host, first).step(
            s.driven(host, first).answer(host),
        ),
{
    lemma_driven_adds(s, host, first, 1);
    let middle = s.driven(host, first);
    assert(middle.driven(host, 1) == middle.step(middle.answer(host)).driven(host, 0));
}

/// The machine evaluates as the language is described. From a state that
/// is about to evaluate `expr` in `env`, a host that answers at once drives
/// the machine in the returned number of steps to where the evaluation of
/// `expr` arrives: with the scopes and closures after the evaluation, the
/// value is handed to the form that waited for it, or the failure has ended
/// the evaluation.
pub proof fn law_machine_evaluates(
    s: State,
    expr: ExpressionView,
    env: usize,
    host: Host,
    depth: nat,
) -> (steps: nat)
    requires
        s.mode == ModeView::Eval(expr, env),
        evaluated(expr, env, heap_of(s), host, depth) is Some,
    ensures
        s.driven(host, steps) == arrived(
            evaluated(expr, env, heap_of(s), host, depth)->Some_0,
            s.stack,
        ),
    decreases depth, 0nat,
{
    let heap = heap_of(s);
    let inner = (depth - 1) as nat;
    let first = s.step(s.answer(host));
    assert(first == s.entered(expr, env));
    lemma_driven_after_step(s, host, 0);
    assert(s.driven(host, 1) == first) by {
        assert(first.driven(host, 0) == first);
    }
    match form_of(expr, env, heap.scopes) {
        FormView::Value(v) => 1,
        FormView::Failure(e) => 1,
        FormView::If { condition, then_branch, else_branch } => {
            let n1 = law_machine_evaluates(first, condition, env, host, inner);
            lemma_driven_adds(s, host, 1, n1);
            let outcome = evaluated(condition, env, heap, host, inner)->Some_0;
            let second = first.driven(host, n1);
            match outcome.result {
                Err(e) => (1 + n1) as nat,
                Ok(v) => {
                    let third = second.step(second.answer(host));
                    lemma_driven_before_step(s, host, (1 + n1) as nat);
                    assert(third == second.delivered(v));
                    assert(first.stack.drop_last() =~= s.stack);
                    if v.is_true() {
                        assert(third == state_at(
                            outcome.heap,
                            s.stack,
                            ModeView::Eval(then_branch, env),
                        ));
                        let n2 = law_machine_evaluates(third, then_branch, env, host, inner);
                        lemma_driven_adds(s, host, (1 + n1 + 1) as nat, n2);
                        (1 + n1 + 1 + n2) as nat
                    } else {
                        match else_branch {
                            Some(e) => {
                                assert(third == state_at(
                                    outcome.heap,
                                    s.stack,
                                    ModeView::Eval(e, env),
                                ));
                                let n2 = law_machine_evaluates(third, e, env, host, inner);
                                lemma_driven_adds(s, host, (1 + n1 + 1) as nat, n2);
                                (1 + n1 + 1 + n2) as nat
                            },
                            None => (1 + n1 + 1) as nat,
                        }
                    }
                },
            }
        },
        FormView::Let { name, value } => {
            let n1 = law_machine_evaluates(first, value, env, host, inner);
            lemma_driven_adds(s, host, 1, n1);
            let outcome = evaluated(value, env, heap, host, inner)->Some_0;
            let second = first.driven(host, n1);
            match outcome.result {
                Err(e) => (1 + n1) as nat,
                Ok(v) => {
                    let third = second.step(second.answer(host));
                    lemma_driven_before_step(s, host, (1 + n1) as nat);
                    assert(third == second.delivered(v));
                    assert(first.stack.drop_last() =~= s.stack);
                    (1 + n1 + 1) as nat
                },
            }
        },
        FormView::Lambda { params, body } => 1,
        FormView::Call { elements } => {
            let frame = FrameView::Call { elements, values: Seq::empty(), env };
            assert(first == s.entering(frame, ModeView::Continue));
            assert(first.stack.drop_last() =~= s.stack);
            let n1 = lemma_machine_evaluates_all(
                first,
                elements,
                elements.len() as int,
                env,
                host,
                inner,
            );
            lemma_driven_adds(s, host, 1, n1);
            let count = elements.len() as int;
            let outcome = evaluated_all(elements, count, env, heap, host, inner)->Some_0;
            let second = first.driven(host, n1);
            match outcome.result {
                Err(e) => (1 + n1) as nat,
                Ok(values) => {
                    let third = second.step(second.answer(host));
                    lemma_driven_before_step(s, host, (1 + n1) as nat);
                    let ready = state_at(outcome.heap, s.stack, ModeView::Continue);
                    assert(second.leaving(ModeView::Continue) == ready) by {
                        assert(second.stack.drop_last() =~= s.stack);
                    }
                    assert(third == ready.applied(values));
                    let n2 = lemma_machine_applies(ready, values, host, inner);
                    lemma_driven_adds(s, host, (1 + n1 + 1) as nat, n2);
                    (1 + n1 + 1 + n2) as nat
                },
            }
        },
    }
}

/// The machine evaluates the elements of a call from left to right.
proof fn lemma_machine_evaluates_all(
    s: State,
    elements: Seq<ExpressionView>,
    count: int,
    env: usize,
    host: Host,
    depth: nat,
) -> (steps: nat)
    requires
        s.mode == ModeView::Continue,
        s.stack.len() > 0,
        s.stack.last() == (FrameView::Call { elements, values: Seq::empty(), env }),
        0 <= count <= elements.len(),
        evaluated_all(elements, count, env, heap_of(s), host, depth) is Some,
    ensures
        ({
            let outcome = evaluated_all(elements, count, env, heap_of(s), host, depth)->Some_0;
            match outcome.result {
                Ok(values) => values.len() == count && s.driven(host, steps) == state_at(
                    outcome.heap,
                    s.stack.drop_last().push(FrameView::Call { elements, values, env }),
                    ModeView::Continue,
                ),
                Err(e) => s.driven(host, steps) == state_at(
                    outcome.heap,
                    Seq::empty(),
                    ModeView::Done(Err(e)),
                ),
            }
        }),
    decreases depth, 1nat, count,
{
    let heap = heap_of(s);
    let below = s.stack.drop_last();
    if count <= 0 {
        assert(s.stack =~= below.push(s.stack.last()));
        0
    } else {
        let n1 = lemma_machine_evaluates_all(s, elements, count - 1, env, host, depth);
        let before = evaluated_all(elements, count - 1, env, heap, host, depth)->Some_0;
        let first = s.driven(host, n1);
        match before.result {
            Err(e) => n1,
            Ok(values) => {
                let frame = FrameView::Call { elements, values, env };
                let second = first.step(first.answer(host));
                lemma_driven_before_step(s, host, n1);
                assert(second == first.continued());
                assert(second == state_at(
                    before.heap,
                    below.push(frame),
                    ModeView::Eval(elements[count - 1], env),
                ));
                let n2 = law_machine_evaluates(second, elements[count - 1], env, host, depth);
                lemma_driven_adds(s, host, (n1 + 1) as nat, n2);
                let outcome = evaluated(elements[count - 1], env, before.heap, host, depth)->Some_0;
                let third = second.driven(host, n2);
                match outcome.result {
                    Err(e) => (n1 + 1 + n2) as nat,
                    Ok(v) => {
                        let fourth = third.step(third.answer(host));
                        lemma_driven_before_step(s, host, (n1 + 1 + n2) as nat);
                        assert(fourth == third.delivered(v));
                        assert(below.push(frame).drop_last() =~= below);
                        (n1 + 1 + n2 + 1) as nat
                    },
                }
            },
        }
    }
}

/// The machine evaluates the expressions of a sequence one after another.
proof fn lemma_machine_evaluates_sequence(
    s: State,
    items: Seq<ExpressionView>,
    next: int,
    last: ValueView,
    env: usize,
    host: Host,
    depth: nat,
) -> (steps: nat)
    requires
        s.mode == ModeView::Continue,
        s.stack.len() > 0,
        s.stack.last() == (FrameView::Sequence { items, next, last, env }),
        evaluated_sequence(items, next, last, env, heap_of(s), host, depth) is Some,
    ensures
        s.driven(host, steps) == arrived(
            evaluated_sequence(items, next, last, env, heap_of(s), host, depth)->Some_0,
            s.stack.drop_last(),
        ),
    decreases depth, 1nat, items.len() - next,
{
    let heap = heap_of(s);
    let below = s.stack.drop_last();
    let first = s.step(s.answer(host));
    assert(first == s.continued());
    lemma_driven_after_step(s, host, 0);
    assert(s.driven(host, 1) == first) by {
        assert(first.driven(host, 0) == first);
    }
    if !(0 <= next < items.len()) {
        1
    } else {
        let n1 = law_machine_evaluates(first, items[next], env, host, depth);
        lemma_driven_adds(s, host, 1, n1);
        let outcome = evaluated(items[next], env, heap, host, depth)->Some_0;
        let second = first.driven(host, n1);
        match outcome.result {
            Err(e) => (1 + n1) as nat,
            Ok(v) => {
                let third = second.step(second.answer(host));
                lemma_driven_before_step(s, host, (1 + n1) as nat);
                assert(third == second.delivered(v));
                let frame = FrameView::Sequence { items, next: next + 1, last: v, env };
                assert(third == state_at(outcome.heap, below.push(frame), ModeView::Continue));
                assert(below.push(frame).drop_last() =~= below);
                let n2 = lemma_machine_evaluates_sequence(
                    third,
                    items,
                    next + 1,
                    v,
                    env,
                    host,
                    depth,
                );
                lemma_driven_adds(s, host, (1 + n1 + 1) as nat, n2);
                (1 + n1 + 1 + n2) as nat
            },
        }
    }
}

/// The machine applies a function as the language is described.
proof fn lemma_machine_applies(
    s: State,
    values: Seq<ValueView>,
    host: Host,
    depth: nat,
) -> (steps: nat)
    requires
        applied(values, heap_of(s), host, depth) is Some,
    ensures
        s.applied(values).driven(host, steps) == arrived(
            applied(values, heap_of(s), host, depth)->Some_0,
            s.stack,
        ),
    decreases depth, 2nat,
{
    let heap = heap_of(s);
    let start = s.applied(values);
    assert(start.driven(host, 0) == start);
    if values.len() == 0 {
        0
    } else {
        let args = values.skip(1);
        match values[0] {
            ValueView::Function(Callable::Builtin(builtin)) => {
                if builtin == Builtin::Print {
                    lemma_driven_after_step(start, host, 0);
                    let after = start.step(start.answer(host));
                    assert(after.driven(host, 0) == after);
                    1
                } else {
                    match builtin_reply(builtin, args) {
                        Err(e) => 0,
                        Ok(ReplyView::Value(v)) => 0,
                        Ok(ReplyView::Compute(c)) => {
                            law_arithmetic_is_carried_out(start, c, host);
                            assert(start.stack.drop_last() =~= s.stack);
                            (2 * (c.steps.len() - c.next) + 1) as nat
                        },
                    }
                }
            },
            ValueView::Function(Callable::Native(native)) => {
                lemma_driven_after_step(start, host, 0);
                let after = start.step(start.answer(host));
                assert(after.driven(host, 0) == after);
                1
            },
            ValueView::Function(Callable::Lambda(id)) => {
                if id < heap.lambdas.len() {
                    let lambda = heap.lambdas[id as int];
                    if args.len() != lambda.params.len() {
                        0
                    } else {
                        assert(start == s.called(lambda, args));
                        assert(start.stack.drop_last() =~= s.stack);
                        lemma_machine_evaluates_sequence(
                            start,
                            lambda.body,
                            0,
                            ValueView::Nil,
                            heap.scopes.len() as usize,
                            host,
                            (depth - 1) as nat,
                        )
                    }
                } else {
                    0
                }
            },
            _ => 0,
        }
    }
}

/// The machine evaluates a program as the language is described: from the
/// state in which a program has been started, the machine arrives at the
/// end of the evaluation, with the value of the program or with its first
/// failure, and with the scopes and closures that the program leaves.
pub proof fn law_machine_evaluates_programs(
    s: State,
    program: Seq<ExpressionView>,
    host: Host,
    depth: nat,
) -> (steps: nat)
    requires
        s.mode == ModeView::Continue,
        s.stack == seq![
            FrameView::Sequence { items: program, next: 0, last: ValueView::Nil, env: 0 },
        ],
        program_evaluated(program, heap_of(s), host, depth) is Some,
    ensures
        ({
            let outcome = program_evaluated(program, heap_of(s), host, depth)->Some_0;
            s.driven(host, steps) == state_at(
                outcome.heap,
                Seq::empty(),
                ModeView::Done(outcome.result),
            )
        }),
{
    let n1 = lemma_machine_evaluates_sequence(s, program, 0, ValueView::Nil, 0, host, depth);
    let outcome = program_evaluated(program, heap_of(s), host, depth)->Some_0;
    assert(s.stack.drop_last() =~= Seq::<FrameView>::empty());
    match outcome.result {
        Err(e) => n1,
        Ok(v) => {
            let first = s.driven(host, n1);
            lemma_driven_before_step(s, host, n1);
            assert(first.step(first.answer(host)) == first.delivered(v));
            (n1 + 1) as nat
        },
    }
}

/// An evaluation that has ended stays as it is, whatever the host brings
/// and however many steps are taken.
pub proof fn law_finished_stays_finished(s: State, host: Host, steps: nat)
    requires
        s.mode is Done,
    ensures
        s.driven(host, steps) == s,
        forall|event: EventView| s.step(event) == s,
    decreases steps,
{
    if steps > 0 {
        law_finished_stays_finished(s, host, (steps - 1) as nat);
    }
}

/// A run is a number of steps. Where the run starts with the answer to what
/// the state asks for, it takes the machine to where `host` drives it in
/// the returned number of steps, which is at least one and at most one more
/// than the budget.
pub proof fn law_run_follows_the_host(
    s: State,
    host: Host,
    event: EventView,
    budget: nat,
) -> (steps: nat)
    requires
        event == s.answer(host) || s.step(event) == s.step(s.answer(host)),
    ensures
        1 <= steps <= budget + 1,
        s.run(event, budget) == s.driven(host, steps),
    decreases budget,
{
    let next = s.step(event);
    assert(next.driven(host, 0) == next);
    if budget == 0 || !(next.action() is Proceed) {
        1
    } else {
        let rest = law_run_follows_the_host(next, host, EventView::Resume, (budget - 1) as nat);
        (rest + 1) as nat
    }
}

/// A literal evaluates to itself, in every scope and whatever the scopes
/// hold, and leaves scopes and closures as they are.
pub proof fn law_literals_evaluate_to_themselves(
    expr: ExpressionView,
    env: usize,
    heap: Heap,
    host: Host,
    depth: nat,
)
    requires
        is_literal(expr),
        depth > 0,
    ensures
        evaluated(expr, env, heap, host, depth) == Some(
            Outcome { result: Ok(literal_value(expr)), heap },
        ),
{
}

/// An identifier that no scope of the chain binds is undefined. In the
/// global scope of a new evaluator that is every name but those of the
/// builtins.
pub proof fn law_unbound_identifiers_fail(
    name: Seq<char>,
    lambdas: Seq<LambdaView>,
    host: Host,
    depth: nat,
)
    requires
        !is_builtin_name(name),
        depth > 0,
    ensures
        evaluated(
            ExpressionView::Identifier(name),
            0,
            Heap { scopes: initial_scopes(), lambdas },
            host,
            depth,
        ) == Some(
            Outcome::<ValueView> {
                result: Err(EvalErrorView::UndefinedVariable(name)),
                heap: Heap { scopes: initial_scopes(), lambdas },
            },
        ),
{
}

/// A closure takes exactly as many arguments as it has parameters: with
/// fewer or with more, the call fails, and scopes and closures stay as they
/// are.
pub proof fn law_closures_take_their_parameters(
    values: Seq<ValueView>,
    id: usize,
    heap: Heap,
    host: Host,
    depth: nat,
)
    requires
        values.len() > 0,
        values[0] == ValueView::Function(Callable::Lambda(id)),
        id < heap.lambdas.len(),
        heap.lambdas[id as int].params.len() != values.len() - 1,
    ensures
        applied(values, heap, host, depth) == Some(
            Outcome::<ValueView> {
                result: Err(
                    EvalErrorView::WrongNumArgs(
                        call_arity_message(
                            heap.lambdas[id as int].params.len(),
                            (values.len() - 1) as nat,
                        ),
                    ),
                ),
                heap,
            },
        ),
{
}

/// `print` gives nil for every argument list and leaves scopes and closures
/// as they are.
pub proof fn law_print_gives_nil(values: Seq<ValueView>, heap: Heap, host: Host, depth: nat)
    requires
        values.len() > 0,
        values[0] == ValueView::Function(Callable::Builtin(Builtin::Print)),
    ensures
        applied(values, heap, host, depth) == Some(Outcome { result: Ok(ValueView::Nil), heap }),
{
}

} // verus!
