//! What holds of every state that an evaluator can be in.
//!
//! The steps of the machine are defined for every state, also for states
//! that name a scope or a closure that does not exist. No evaluator gets
//! into such a state: the states that a new evaluator can reach are well
//! formed, which is proved here.

use vstd::prelude::*;
use crate::evaluator::builtins::ReplyView;
use crate::evaluator::environment::{ScopeView, defined, lookup, outer};
use crate::evaluator::error::EvalErrorView;
use crate::evaluator::evaluator::{initial_state};
use crate::evaluator::form::{FormView, form_of};
use crate::evaluator::state::{EventView, FrameView, ModeView, State, bound, builtin_reply};
use crate::evaluator::laws::{law_define_then_lookup, ready_to_apply};
use crate::evaluator::value::{Builtin, Callable, ValueView};

verus! {

/// The value names no closure but one of the first `lambdas`.
pub open spec fn valid_value(value: ValueView, lambdas: int) -> bool {
    value matches ValueView::Function(Callable::Lambda(id)) ==> id < lambdas
}

/// Every value of the sequence is valid.
pub open spec fn valid_values(values: Seq<ValueView>, lambdas: int) -> bool {
    forall|i: int| 0 <= i < values.len() ==> valid_value(#[trigger] values[i], lambdas)
}

/// Every value that the map binds is valid.
pub open spec fn valid_bindings(bindings: Map<Seq<char>, ValueView>, lambdas: int) -> bool {
    forall|name: Seq<char>| #[trigger]
        bindings.contains_key(name) ==> valid_value(bindings[name], lambdas)
}

/// There is a global scope, the parent of every scope is an earlier scope,
/// and the scopes bind valid values only.
pub open spec fn valid_scopes(scopes: Seq<ScopeView>, lambdas: int) -> bool {
    &&& scopes.len() > 0
    &&& forall|i: int|
        0 <= i < scopes.len() ==> ((#[trigger] scopes[i]).parent matches Some(p) ==> p < i)
    &&& forall|i: int|
        0 <= i < scopes.len() ==> valid_bindings((#[trigger] scopes[i]).bindings, lambdas)
}

/// The frame names a scope that exists and holds valid values only.
pub open spec fn valid_frame(frame: FrameView, scopes: int, lambdas: int) -> bool {
    match frame {
        FrameView::Sequence { items, next, last, env } => env < scopes && valid_value(
            last,
            lambdas,
        ),
        FrameView::If { then_branch, else_branch, env } => env < scopes,
        FrameView::Let { name, env } => env < scopes,
        FrameView::Call { elements, values, env } => env < scopes && valid_values(
            values,
            lambdas,
        ),
        FrameView::Compute(c) => 0 <= c.next <= c.steps.len(),
    }
}

/// The innermost form under way is arithmetic.
pub open spec fn computing(stack: Seq<FrameView>) -> bool {
    stack.len() > 0 && stack.last() is Compute
}

/// What comes next fits the forms under way.
pub open spec fn valid_mode(s: State) -> bool {
    match s.mode {
        ModeView::Eval(_, env) => env < s.scopes.len() && !computing(s.stack),
        ModeView::Continue => s.stack.len() > 0 && (s.stack.last() is Sequence || s.stack.last()
            is Call || s.stack.last() is Compute),
        ModeView::Deliver(value) => valid_value(value, s.lambdas.len() as int) && !computing(
            s.stack,
        ),
        ModeView::Compute(request) => computing(s.stack) && s.stack.last()->Compute_0.pending()
            == Some(request),
        ModeView::Print(_) => !computing(s.stack),
        ModeView::Native(_, args) => valid_values(args, s.lambdas.len() as int) && !computing(
            s.stack,
        ),
        ModeView::Done(result) => s.stack.len() == 0 && (result matches Ok(value)
            ==> valid_value(value, s.lambdas.len() as int)),
    }
}

/// The state is well formed: every scope and every closure that it names
/// exists, the chains of scopes end in the global scope, arithmetic is under
/// way only as the innermost form, and what comes next fits the forms under
/// way.
pub open spec fn well_formed(s: State) -> bool {
    &&& s.scopes.len() <= usize::MAX
    &&& s.lambdas.len() <= usize::MAX
    &&& valid_scopes(s.scopes, s.lambdas.len() as int)
    &&& forall|i: int| 0 <= i < s.lambdas.len() ==> (#[trigger] s.lambdas[i]).env < s.scopes.len()
    &&& forall|i: int|
        0 <= i < s.stack.len() ==> valid_frame(
            #[trigger] s.stack[i],
            s.scopes.len() as int,
            s.lambdas.len() as int,
        )
    &&& forall|i: int| 0 <= i < s.stack.len() - 1 ==> !(#[trigger] s.stack[i] is Compute)
    &&& valid_mode(s)
}

/// The host brings valid values only.
pub open spec fn valid_event(event: EventView, lambdas: int) -> bool {
    event matches EventView::Returned(Ok(value)) ==> valid_value(value, lambdas)
}

/// What a name resolves to in valid scopes is valid.
pub proof fn lemma_lookup_is_valid(
    scopes: Seq<ScopeView>,
    lambdas: int,
    scope: int,
    name: Seq<char>,
)
    requires
        valid_scopes(scopes, lambdas),
    ensures
        lookup(scopes, scope, name) matches Some(value) ==> valid_value(value, lambdas),
    decreases scope,
{
    if 0 <= scope < scopes.len() {
        if scopes[scope].bindings.contains_key(name) {
        } else {
            match outer(scopes, scope) {
                Some(p) => {
                    lemma_lookup_is_valid(scopes, lambdas, p, name);
                },
                None => {},
            }
        }
    }
}

/// Parameters bound to valid arguments are bound to valid values.
pub proof fn lemma_bound_is_valid(
    params: Seq<Seq<char>>,
    args: Seq<ValueView>,
    count: int,
    lambdas: int,
)
    requires
        valid_values(args, lambdas),
        0 <= count <= args.len(),
    ensures
        valid_bindings(bound(params, args, count), lambdas),
    decreases count,
{
    if count > 0 {
        lemma_bound_is_valid(params, args, count - 1, lambdas);
    }
}

/// Binding a valid value keeps the scopes valid.
pub proof fn lemma_defined_is_valid(
    scopes: Seq<ScopeView>,
    lambdas: int,
    scope: int,
    name: Seq<char>,
    value: ValueView,
)
    requires
        valid_scopes(scopes, lambdas),
        valid_value(value, lambdas),
    ensures
        valid_scopes(defined(scopes, scope, name, value), lambdas),
        defined(scopes, scope, name, value).len() == scopes.len(),
{
}

/// A new evaluator is well formed.
pub proof fn law_initial_state_is_well_formed()
    ensures
        well_formed(initial_state()),
{
}

/// The parts of a well-formed state that do not change when a form under
/// way is entered, left or replaced.
pub open spec fn well_formed_heap(s: State) -> bool {
    &&& s.scopes.len() <= usize::MAX
    &&& s.lambdas.len() <= usize::MAX
    &&& valid_scopes(s.scopes, s.lambdas.len() as int)
    &&& forall|i: int| 0 <= i < s.lambdas.len() ==> (#[trigger] s.lambdas[i]).env < s.scopes.len()
}

/// Every form under way is valid, and arithmetic is at most the innermost.
pub open spec fn well_formed_stack(s: State) -> bool {
    &&& forall|i: int|
        0 <= i < s.stack.len() ==> valid_frame(
            #[trigger] s.stack[i],
            s.scopes.len() as int,
            s.lambdas.len() as int,
        )
    &&& forall|i: int| 0 <= i < s.stack.len() - 1 ==> !(#[trigger] s.stack[i] is Compute)
}

proof fn lemma_failed_is_well_formed(s: State, error: EvalErrorView)
    requires
        well_formed(s),
    ensures
        well_formed(s.failed(error)),
{
}

proof fn lemma_entering_is_well_formed(s: State, frame: FrameView, mode: ModeView)
    requires
        well_formed_heap(s),
        well_formed_stack(s),
        !computing(s.stack),
        valid_frame(frame, s.scopes.len() as int, s.lambdas.len() as int),
        valid_mode(s.entering(frame, mode)),
    ensures
        well_formed(s.entering(frame, mode)),
{
}

proof fn lemma_leaving_is_well_formed(s: State, mode: ModeView)
    requires
        well_formed_heap(s),
        well_formed_stack(s),
        s.stack.len() > 0,
        valid_mode(s.leaving(mode)),
    ensures
        well_formed(s.leaving(mode)),
{
}

proof fn lemma_replacing_is_well_formed(s: State, frame: FrameView, mode: ModeView)
    requires
        well_formed_heap(s),
        well_formed_stack(s),
        s.stack.len() > 0,
        valid_frame(frame, s.scopes.len() as int, s.lambdas.len() as int),
        valid_mode(s.replacing(frame, mode)),
    ensures
        well_formed(s.replacing(frame, mode)),
{
}

proof fn lemma_entered_is_well_formed(s: State, expr: crate::ast::ExpressionView, env: usize)
    requires
        well_formed_heap(s),
        well_formed_stack(s),
        !computing(s.stack),
        env < s.scopes.len(),
        s.entered(expr, env).lambdas.len() <= usize::MAX,
    ensures
        well_formed(s.entered(expr, env)),
{
    match form_of(expr, env, s.scopes) {
        FormView::Value(v) => {
            if let crate::ast::ExpressionView::Identifier(name) = expr {
                lemma_lookup_is_valid(s.scopes, s.lambdas.len() as int, env as int, name);
            }
        },
        FormView::Failure(e) => {},
        FormView::If { condition, then_branch, else_branch } => {
            lemma_entering_is_well_formed(
                s,
                FrameView::If { then_branch, else_branch, env },
                ModeView::Eval(condition, env),
            );
        },
        FormView::Let { name, value } => {
            lemma_entering_is_well_formed(
                s,
                FrameView::Let { name, env },
                ModeView::Eval(value, env),
            );
        },
        FormView::Lambda { params, body } => {},
        FormView::Call { elements } => {
            lemma_entering_is_well_formed(
                s,
                FrameView::Call { elements, values: Seq::empty(), env },
                ModeView::Continue,
            );
        },
    }
}

/// A builtin answers with a boolean, a number or nil, and its arithmetic
/// starts at its first step.
proof fn lemma_builtin_reply_is_valid(builtin: Builtin, args: Seq<ValueView>, lambdas: int)
    ensures
        builtin_reply(builtin, args) matches Ok(ReplyView::Value(v)) ==> valid_value(v, lambdas),
        builtin_reply(builtin, args) matches Ok(ReplyView::Compute(c)) ==> 0 <= c.next
            <= c.steps.len(),
{
}

proof fn lemma_applied_is_well_formed(s: State, values: Seq<ValueView>)
    requires
        well_formed_heap(s),
        well_formed_stack(s),
        !computing(s.stack),
        valid_values(values, s.lambdas.len() as int),
        s.applied(values).scopes.len() <= usize::MAX,
    ensures
        well_formed(s.applied(values)),
{
    if values.len() > 0 {
        let args = values.skip(1);
        assert(valid_values(args, s.lambdas.len() as int)) by {
            assert forall|i: int| 0 <= i < args.len() implies valid_value(
                #[trigger] args[i],
                s.lambdas.len() as int,
            ) by {
                assert(args[i] == values[i + 1]);
            }
        }
        match values[0] {
            ValueView::Function(Callable::Builtin(builtin)) => {
                lemma_builtin_reply_is_valid(builtin, args, s.lambdas.len() as int);
                match builtin_reply(builtin, args) {
                    Ok(ReplyView::Compute(c)) => {
                        if builtin != Builtin::Print {
                            lemma_entering_is_well_formed(
                                s,
                                FrameView::Compute(c),
                                ModeView::Continue,
                            );
                        }
                    },
                    _ => {},
                }
            },
            ValueView::Function(Callable::Native(id)) => {},
            ValueView::Function(Callable::Lambda(id)) => {
                if id < s.lambdas.len() {
                    let lambda = s.lambdas[id as int];
                    if args.len() == lambda.params.len() {
                        lemma_bound_is_valid(
                            lambda.params,
                            args,
                            args.len() as int,
                            s.lambdas.len() as int,
                        );
                        let after = s.called(lambda, args);
                        assert(valid_scopes(after.scopes, after.lambdas.len() as int));
                        assert(well_formed(after));
                    }
                }
            },
            _ => {},
        }
    }
}

proof fn lemma_continued_is_well_formed(s: State)
    requires
        well_formed(s),
        s.mode == ModeView::Continue,
        s.continued().scopes.len() <= usize::MAX,
    ensures
        well_formed(s.continued()),
{
    let top = s.stack.last();
    assert(valid_frame(top, s.scopes.len() as int, s.lambdas.len() as int));
    match top {
        FrameView::Sequence { items, next, last, env } => {
            if !(0 <= next < items.len()) {
                lemma_leaving_is_well_formed(s, ModeView::Deliver(last));
            }
        },
        FrameView::Call { elements, values, env } => {
            if !(values.len() < elements.len()) {
                let left = s.leaving(ModeView::Continue);
                assert(well_formed_heap(left));
                assert(well_formed_stack(left));
                assert(!computing(left.stack));
                lemma_applied_is_well_formed(left, values);
            }
        },
        FrameView::Compute(c) => {
            if c.pending() is None {
                lemma_leaving_is_well_formed(
                    s,
                    ModeView::Deliver(ValueView::Number(c.accumulator)),
                );
            }
        },
        _ => {},
    }
}

proof fn lemma_delivered_is_well_formed(s: State, value: ValueView)
    requires
        well_formed(s),
        s.mode == ModeView::Deliver(value),
    ensures
        well_formed(s.delivered(value)),
{
    if s.stack.len() > 0 {
        let top = s.stack.last();
        assert(valid_frame(top, s.scopes.len() as int, s.lambdas.len() as int));
        match top {
            FrameView::Sequence { items, next, last, env } => {
                lemma_replacing_is_well_formed(
                    s,
                    FrameView::Sequence {
                        items,
                        next: if 0 <= next < items.len() {
                            next + 1
                        } else {
                            next
                        },
                        last: value,
                        env,
                    },
                    ModeView::Continue,
                );
            },
            FrameView::If { then_branch, else_branch, env } => {
                lemma_leaving_is_well_formed(s, ModeView::Eval(then_branch, env));
                lemma_leaving_is_well_formed(s, ModeView::Deliver(ValueView::Nil));
                match else_branch {
                    Some(e) => {
                        lemma_leaving_is_well_formed(s, ModeView::Eval(e, env));
                    },
                    None => {},
                }
            },
            FrameView::Let { name, env } => {
                lemma_defined_is_valid(s.scopes, s.lambdas.len() as int, env as int, name, value);
                let left = s.leaving(ModeView::Deliver(ValueView::Nil));
                lemma_leaving_is_well_formed(s, ModeView::Deliver(ValueView::Nil));
                assert(well_formed(
                    State { scopes: defined(s.scopes, env as int, name, value), ..left },
                ));
            },
            FrameView::Call { elements, values, env } => {
                lemma_replacing_is_well_formed(
                    s,
                    FrameView::Call { elements, values: values.push(value), env },
                    ModeView::Continue,
                );
            },
            FrameView::Compute(c) => {},
        }
    }
}

/// Well-formedness is kept. A step takes a well-formed state to a
/// well-formed state, as long as the host brings valid values and the scopes
/// and closures can still be counted.
pub proof fn law_step_keeps_well_formed(s: State, event: EventView)
    requires
        well_formed(s),
        valid_event(event, s.lambdas.len() as int),
        s.step(event).scopes.len() <= usize::MAX,
        s.step(event).lambdas.len() <= usize::MAX,
    ensures
        well_formed(s.step(event)),
{
    match s.mode {
        ModeView::Eval(expr, env) => {
            lemma_entered_is_well_formed(s, expr, env);
        },
        ModeView::Continue => {
            lemma_continued_is_well_formed(s);
        },
        ModeView::Deliver(value) => {
            lemma_delivered_is_well_formed(s, value);
        },
        ModeView::Compute(request) => {
            match event {
                EventView::Number(answer) => {
                    let c = s.stack.last()->Compute_0;
                    assert(valid_frame(
                        s.stack.last(),
                        s.scopes.len() as int,
                        s.lambdas.len() as int,
                    ));
                    lemma_replacing_is_well_formed(
                        s,
                        FrameView::Compute(c.supplied(answer)),
                        ModeView::Continue,
                    );
                },
                _ => {},
            }
        },
        ModeView::Print(_) => {},
        ModeView::Native(_, _) => {
            match event {
                EventView::Returned(Err(error)) => {
                    lemma_failed_is_well_formed(s, error);
                },
                _ => {},
            }
        },
        ModeView::Done(_) => {},
    }
}

/// In a well-formed state every function can be called: a call fails as not
/// callable exactly when its first element is no function, and the error
/// holds the value of that element.
pub proof fn law_functions_are_callable(s: State, values: Seq<ValueView>, event: EventView)
    requires
        well_formed(s),
        ready_to_apply(s, values),
        values.len() > 0,
    ensures
        !(values[0] is Function) ==> s.step(event).mode == ModeView::Done(
            Err(EvalErrorView::NotCallable(values[0])),
        ),
        values[0] is Function ==> !(s.step(event).mode matches ModeView::Done(
            Err(EvalErrorView::NotCallable(_)),
        )),
{
    assert(valid_frame(s.stack.last(), s.scopes.len() as int, s.lambdas.len() as int));
    assert(valid_value(values[0], s.lambdas.len() as int));
}

/// In a well-formed state a `let` always binds: when its value arrives, the
/// name resolves to that value from the scope of the form.
pub proof fn law_let_always_binds(s: State, value: ValueView, event: EventView)
    requires
        well_formed(s),
        s.mode == ModeView::Deliver(value),
        s.stack.len() > 0,
        s.stack.last() is Let,
    ensures
        lookup(
            s.step(event).scopes,
            s.stack.last()->Let_env as int,
            s.stack.last()->Let_name,
        ) == Some(value),
{
    assert(valid_frame(s.stack.last(), s.scopes.len() as int, s.lambdas.len() as int));
    law_define_then_lookup(
        s.scopes,
        s.stack.last()->Let_env as int,
        s.stack.last()->Let_name,
        value,
        s.stack.last()->Let_name,
    );
}

} // verus!
