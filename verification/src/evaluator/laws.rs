//! What holds of every evaluation, proved from the steps of the machine.

use vstd::prelude::*;
use crate::ast::ExpressionView;
use crate::evaluator::builtins::{
    ComputationView, ReplyView, Request, Step, add_spec, all_numbers, div_spec, mul_spec,
    numbers_of, print_spec, steps_over, sub_spec,
};
use crate::evaluator::environment::{
    ScopeView, defined, global_bindings, initial_scopes, lookup, outer,
};
use crate::evaluator::error::EvalErrorView;
use crate::evaluator::form::{FormView, form_of};
use crate::evaluator::state::{
    EventView, FrameView, Host, ModeView, State, bound, call_arity_message,
};
use crate::evaluator::value::{Builtin, Callable, ValueView};
use crate::number::{Number, Operation};

verus! {

/// A literal is its own value.
pub open spec fn literal_value(expr: ExpressionView) -> ValueView
    recommends
        is_literal(expr),
{
    match expr {
        ExpressionView::Number(n) => ValueView::Number(n),
        ExpressionView::String(s) => ValueView::String(s),
        ExpressionView::Boolean(b) => ValueView::Boolean(b),
        _ => ValueView::Nil,
    }
}

/// The expression is a number, a string or a boolean.
pub open spec fn is_literal(expr: ExpressionView) -> bool {
    expr is Number || expr is String || expr is Boolean
}

/// Evaluating a literal gives the literal's value, in every scope and
/// whatever the scopes hold, and changes neither scopes nor closures: with
/// nothing else under way, two steps end the evaluation with that value.
pub proof fn law_literal_is_identity(s: State, expr: ExpressionView, scope: usize, event: EventView)
    requires
        is_literal(expr),
        s.mode == ModeView::Eval(expr, scope),
    ensures
        s.step(event) == s.with_mode(ModeView::Deliver(literal_value(expr))),
        s.stack.len() == 0 ==> s.step(event).step(event) == s.with_mode(
            ModeView::Done(Ok(literal_value(expr))),
        ),
{
}

/// A scope that is added later does not change what a name resolves to from
/// an earlier scope.
pub proof fn law_lookup_ignores_later_scopes(
    scopes: Seq<ScopeView>,
    added: ScopeView,
    scope: int,
    name: Seq<char>,
)
    requires
        0 <= scope < scopes.len(),
    ensures
        lookup(scopes.push(added), scope, name) == lookup(scopes, scope, name),
    decreases scope,
{
    match outer(scopes, scope) {
        Some(p) => {
            law_lookup_ignores_later_scopes(scopes, added, p, name);
        },
        None => {},
    }
}

/// Binding a name in a scope is not seen from a scope that was made before
/// it: what every name resolves to from there stays as it was.
pub proof fn law_define_is_local(
    scopes: Seq<ScopeView>,
    scope: int,
    name: Seq<char>,
    value: ValueView,
    earlier: int,
    other: Seq<char>,
)
    requires
        0 <= earlier < scope,
    ensures
        lookup(defined(scopes, scope, name, value), earlier, other) == lookup(
            scopes,
            earlier,
            other,
        ),
    decreases earlier,
{
    match outer(scopes, earlier) {
        Some(p) => {
            law_define_is_local(scopes, scope, name, value, p, other);
        },
        None => {},
    }
}

/// After a name is bound in a scope, it resolves from that scope to the new
/// value, and every other name resolves from there as before.
pub proof fn law_define_then_lookup(
    scopes: Seq<ScopeView>,
    scope: int,
    name: Seq<char>,
    value: ValueView,
    other: Seq<char>,
)
    requires
        0 <= scope < scopes.len(),
    ensures
        lookup(defined(scopes, scope, name, value), scope, name) == Some(value),
        other != name ==> lookup(defined(scopes, scope, name, value), scope, other) == lookup(
            scopes,
            scope,
            other,
        ),
{
    match outer(scopes, scope) {
        Some(p) => {
            law_define_is_local(scopes, scope, name, value, p, other);
        },
        None => {},
    }
}

/// `let` writes into the scope of the form itself. When the value of a `let`
/// arrives, the name is bound in that scope and nil is the value of the form;
/// from every scope that was made before, the global scope among them, every
/// name resolves as it did.
pub proof fn law_let_binds_innermost(
    s: State,
    value: ValueView,
    event: EventView,
    earlier: int,
    other: Seq<char>,
)
    requires
        s.mode == ModeView::Deliver(value),
        s.stack.len() > 0,
        s.stack.last() is Let,
        0 <= earlier < s.stack.last()->Let_env,
    ensures
        s.step(event).scopes == defined(
            s.scopes,
            s.stack.last()->Let_env as int,
            s.stack.last()->Let_name,
            value,
        ),
        s.step(event).mode == ModeView::Deliver(ValueView::Nil),
        s.step(event).stack == s.stack.drop_last(),
        lookup(s.step(event).scopes, earlier, other) == lookup(s.scopes, earlier, other),
{
    law_define_is_local(
        s.scopes,
        s.stack.last()->Let_env as int,
        s.stack.last()->Let_name,
        value,
        earlier,
        other,
    );
}

/// The names bound by the first `count` parameters are among those
/// parameters.
proof fn lemma_bound_names(
    params: Seq<Seq<char>>,
    args: Seq<ValueView>,
    count: int,
    name: Seq<char>,
)
    requires
        0 <= count <= params.len(),
        forall|i: int| 0 <= i < count ==> params[i] != name,
    ensures
        !bound(params, args, count).contains_key(name),
    decreases count,
{
    if count > 0 {
        lemma_bound_names(params, args, count - 1, name);
    }
}

/// The last parameter of a name gets its argument.
proof fn lemma_bound_value(params: Seq<Seq<char>>, args: Seq<ValueView>, count: int, at: int)
    requires
        0 <= at < count <= params.len(),
        forall|i: int| at < i < count ==> params[i] != params[at],
    ensures
        bound(params, args, count).contains_key(params[at]),
        bound(params, args, count)[params[at]] == args[at],
    decreases count,
{
    if at < count - 1 {
        lemma_bound_value(params, args, count - 1, at);
    }
}

/// The state in which a complete call is about to be applied: the innermost
/// form under way is a call whose elements all have their value.
pub open spec fn ready_to_apply(s: State, values: Seq<ValueView>) -> bool {
    &&& s.mode == ModeView::Continue
    &&& s.stack.len() > 0
    &&& s.stack.last() matches FrameView::Call { elements, values: got, env }
    &&& got == values
    &&& values.len() >= elements.len()
}

/// Scoping is lexical. Calling a closure with as many arguments as it has
/// parameters adds one scope, inside the scope in which the closure was
/// made, whatever the scope of the call is; the body is evaluated in the new
/// scope. There a parameter resolves to its argument, and every other name
/// to what it resolves to from the scope in which the closure was made.
pub proof fn law_scoping_is_lexical(
    s: State,
    values: Seq<ValueView>,
    id: usize,
    event: EventView,
    name: Seq<char>,
)
    requires
        ready_to_apply(s, values),
        values.len() > 0,
        values[0] == ValueView::Function(Callable::Lambda(id)),
        id < s.lambdas.len(),
        s.lambdas[id as int].params.len() == values.len() - 1,
        s.lambdas[id as int].env < s.scopes.len(),
        s.scopes.len() <= usize::MAX,
    ensures
        s.step(event).scopes.len() == s.scopes.len() + 1,
        s.step(event).scopes.last().parent == Some(s.lambdas[id as int].env),
        s.step(event).mode == ModeView::Continue,
        s.step(event).stack == s.stack.drop_last().push(
            FrameView::Sequence {
                items: s.lambdas[id as int].body,
                next: 0,
                last: ValueView::Nil,
                env: s.scopes.len() as usize,
            },
        ),
        (forall|i: int|
            0 <= i < s.lambdas[id as int].params.len() ==> s.lambdas[id as int].params[i] != name)
            ==> lookup(s.step(event).scopes, s.scopes.len() as int, name) == lookup(
            s.scopes,
            s.lambdas[id as int].env as int,
            name,
        ),
        forall|i: int|
            0 <= i < s.lambdas[id as int].params.len() && (forall|j: int|
                i < j < s.lambdas[id as int].params.len() ==> s.lambdas[id as int].params[j]
                    != s.lambdas[id as int].params[i]) ==> lookup(
                s.step(event).scopes,
                s.scopes.len() as int,
                #[trigger] s.lambdas[id as int].params[i],
            ) == Some(values[i + 1]),
{
    let lambda = s.lambdas[id as int];
    let args = values.skip(1);
    let popped = s.leaving(ModeView::Continue);
    assert(s.step(event) == popped.called(lambda, args));
    let scope = ScopeView {
        bindings: bound(lambda.params, args, args.len() as int),
        parent: Some(lambda.env),
    };
    assert(s.step(event).scopes == s.scopes.push(scope));
    if forall|i: int| 0 <= i < lambda.params.len() ==> lambda.params[i] != name {
        lemma_bound_names(lambda.params, args, args.len() as int, name);
        law_lookup_ignores_later_scopes(s.scopes, scope, lambda.env as int, name);
    }
    assert forall|i: int|
        0 <= i < lambda.params.len() && (forall|j: int|
            i < j < lambda.params.len() ==> lambda.params[j] != lambda.params[i]) implies lookup(
        s.step(event).scopes,
        s.scopes.len() as int,
        #[trigger] lambda.params[i],
    ) == Some(values[i + 1]) by {
        lemma_bound_value(lambda.params, args, args.len() as int, i);
    }
}

/// The number of arguments is enforced. Calling a closure with fewer or more
/// arguments than it has parameters ends the evaluation with the error for a
/// wrong number of arguments; no argument is dropped and none is made up, and
/// no scope is added.
pub proof fn law_arity_is_enforced(s: State, values: Seq<ValueView>, id: usize, event: EventView)
    requires
        ready_to_apply(s, values),
        values.len() > 0,
        values[0] == ValueView::Function(Callable::Lambda(id)),
        id < s.lambdas.len(),
        s.lambdas[id as int].params.len() != values.len() - 1,
    ensures
        s.step(event).mode == ModeView::Done(
            Err(
                EvalErrorView::WrongNumArgs(
                    call_arity_message(
                        s.lambdas[id as int].params.len(),
                        (values.len() - 1) as nat,
                    ),
                ),
            ),
        ),
        s.step(event).scopes == s.scopes,
        s.step(event).stack.len() == 0,
{
    let popped = s.leaving(ModeView::Continue);
    assert(s.step(event) == popped.called(s.lambdas[id as int], values.skip(1)));
}

/// Only the boolean true is true. When the value of the condition of an `if`
/// arrives, the first branch is evaluated next if the value is the boolean
/// true. For every other value, a number or a string among them, the second
/// branch is evaluated next, and without a second branch nil is the value of
/// the form. The branch is evaluated in the scope of the form.
pub proof fn law_only_true_is_true(s: State, value: ValueView, event: EventView)
    requires
        s.mode == ModeView::Deliver(value),
        s.stack.len() > 0,
        s.stack.last() is If,
    ensures
        s.step(event).scopes == s.scopes,
        s.step(event).stack == s.stack.drop_last(),
        s.step(event).mode == if value == ValueView::Boolean(true) {
            ModeView::Eval(s.stack.last()->If_then_branch, s.stack.last()->If_env)
        } else {
            match s.stack.last()->If_else_branch {
                Some(e) => ModeView::Eval(e, s.stack.last()->If_env),
                None => ModeView::Deliver(ValueView::Nil),
            }
        },
{
}

/// `print` changes nothing. Applying it leaves scopes and closures as they
/// are and asks the host for the line of its arguments; when the host has
/// written the line, nil is the value of the call, and scopes and closures
/// are still as they were.
pub proof fn law_print_changes_nothing(s: State, values: Seq<ValueView>, event: EventView)
    requires
        ready_to_apply(s, values),
        values.len() > 0,
        values[0] == ValueView::Function(Callable::Builtin(Builtin::Print)),
    ensures
        s.step(event) == s.leaving(ModeView::Print(print_spec(values.skip(1), s.lambdas))),
        s.step(event).step(EventView::Printed) == s.leaving(ModeView::Deliver(ValueView::Nil)),
{
    let popped = s.leaving(ModeView::Continue);
    assert(s.step(event) == popped.answered(Builtin::Print, values.skip(1)));
}

/// Data is equal by what it holds, a function only to itself: strings are
/// equal exactly when their characters are, booleans when they are the same,
/// nil to nil, numbers by numeric equality, two functions exactly when they
/// are the same builtin or the same closure, and values of two kinds never.
pub proof fn law_equality_is_structural(a: ValueView, b: ValueView)
    ensures
        a.same_as(b) == b.same_as(a),
        !(a is Number) ==> a.same_as(b) == (a == b),
        a matches ValueView::Number(x) ==> a.same_as(b) == (b matches ValueView::Number(y)
            && x.equals(y)),
{
}

/// Every `lambda` form makes a closure of its own. The function that an
/// evaluation of the form gives is equal to none that was there before,
/// whatever their parameters and bodies are.
pub proof fn law_closures_are_distinct(
    s: State,
    expr: ExpressionView,
    scope: usize,
    event: EventView,
    earlier: usize,
)
    requires
        s.mode == ModeView::Eval(expr, scope),
        form_of(expr, scope, s.scopes) is Lambda,
        s.lambdas.len() <= usize::MAX,
        earlier < s.lambdas.len(),
    ensures
        s.step(event).mode matches ModeView::Deliver(made) && !made.same_as(
            ValueView::Function(Callable::Lambda(earlier)),
        ) && made.same_as(made),
        s.step(event).lambdas.len() == s.lambdas.len() + 1,
        s.step(event).lambdas.last().env == scope,
{
}

/// The name is that of a builtin.
pub open spec fn is_builtin_name(name: Seq<char>) -> bool {
    global_bindings().contains_key(name)
}

/// A name that is not bound is undefined: from the global scope of a new
/// environment every name but those of the builtins fails to resolve, and an
/// evaluation of the identifier fails with the error for an undefined
/// variable, which holds the name.
pub proof fn law_unbound_is_undefined(name: Seq<char>)
    requires
        !is_builtin_name(name),
    ensures
        lookup(initial_scopes(), 0, name) is None,
        form_of(ExpressionView::Identifier(name), 0, initial_scopes()) == FormView::Failure(
            EvalErrorView::UndefinedVariable(name),
        ),
{
}

/// The numbers of `operands` combined one after another with `start`, from
/// the left, where `host` carries out each operation.
pub open spec fn folded(
    host: spec_fn(Request) -> Number,
    operation: Operation,
    start: Number,
    operands: Seq<Number>,
) -> Number
    decreases operands.len(),
{
    if operands.len() == 0 {
        start
    } else {
        host(
            Request {
                operation,
                left: folded(host, operation, start, operands.drop_last()),
                right: operands.last(),
            },
        )
    }
}

/// A computation that has combined the first `done` operands goes on to
/// combine them all before it comes to the steps behind them.
proof fn lemma_result_folds(
    host: spec_fn(Request) -> Number,
    operation: Operation,
    start: Number,
    operands: Seq<Number>,
    behind: Seq<Step>,
    done: int,
)
    requires
        0 <= done <= operands.len(),
    ensures
        (ComputationView {
            accumulator: folded(host, operation, start, operands.take(done)),
            steps: steps_over(operation, operands) + behind,
            next: done,
        }).result(host) == (ComputationView {
            accumulator: folded(host, operation, start, operands),
            steps: steps_over(operation, operands) + behind,
            next: operands.len() as int,
        }).result(host),
    decreases operands.len() - done,
{
    if done < operands.len() {
        assert(operands.take(done + 1).drop_last() =~= operands.take(done));
        lemma_result_folds(host, operation, start, operands, behind, done + 1);
    } else {
        assert(operands.take(done) =~= operands);
    }
}

/// `+` gives the sum: zero for no arguments, and else its numbers added one
/// after another to zero, whatever the host's addition gives.
pub proof fn law_add_is_the_sum(args: Seq<ValueView>, host: spec_fn(Request) -> Number)
    requires
        all_numbers(args),
    ensures
        add_spec(args) matches Ok(c) && c.result(host) == folded(
            host,
            Operation::Add,
            Number::zero(),
            numbers_of(args),
        ),
        args.len() == 0 ==> (add_spec(args) matches Ok(c) && c.result(host) == Number::zero()),
{
    let operands = numbers_of(args);
    lemma_result_folds(host, Operation::Add, Number::zero(), operands, Seq::empty(), 0);
    assert(steps_over(Operation::Add, operands) + Seq::<Step>::empty() =~= steps_over(
        Operation::Add,
        operands,
    ));
    assert(operands.take(0) =~= Seq::<Number>::empty());
}

/// `*` gives the product: one for no arguments, and else its numbers
/// multiplied one after another onto one.
pub proof fn law_mul_is_the_product(args: Seq<ValueView>, host: spec_fn(Request) -> Number)
    requires
        all_numbers(args),
    ensures
        mul_spec(args) matches Ok(c) && c.result(host) == folded(
            host,
            Operation::Multiply,
            Number::one(),
            numbers_of(args),
        ),
        args.len() == 0 ==> (mul_spec(args) matches Ok(c) && c.result(host) == Number::one()),
{
    let operands = numbers_of(args);
    lemma_result_folds(host, Operation::Multiply, Number::one(), operands, Seq::empty(), 0);
    assert(steps_over(Operation::Multiply, operands) + Seq::<Step>::empty() =~= steps_over(
        Operation::Multiply,
        operands,
    ));
    assert(operands.take(0) =~= Seq::<Number>::empty());
}

/// `-` negates one number, and subtracts from the first of several the sum
/// of the others.
pub proof fn law_sub_is_the_difference(args: Seq<ValueView>, host: spec_fn(Request) -> Number)
    requires
        all_numbers(args),
        args.len() >= 1,
    ensures
        args.len() == 1 ==> sub_spec(args) == Ok::<ReplyView, EvalErrorView>(
            ReplyView::Value(ValueView::Number(args[0]->Number_0.negate())),
        ),
        args.len() >= 2 ==> (sub_spec(args) matches Ok(ReplyView::Compute(c)) && c.result(host)
            == host(
            Request {
                operation: Operation::Subtract,
                left: args[0]->Number_0,
                right: folded(host, Operation::Add, Number::zero(), numbers_of(args).skip(1)),
            },
        )),
{
    if args.len() >= 2 {
        let operands = numbers_of(args).skip(1);
        let last = Step {
            operation: Operation::Subtract,
            operand: args[0]->Number_0,
            operand_first: true,
        };
        lemma_result_folds(host, Operation::Add, Number::zero(), operands, seq![last], 0);
        assert(steps_over(Operation::Add, operands) + seq![last] =~= steps_over(
            Operation::Add,
            operands,
        ).push(last));
        assert(operands.take(0) =~= Seq::<Number>::empty());
        let ready = ComputationView {
            accumulator: folded(host, Operation::Add, Number::zero(), operands),
            steps: steps_over(Operation::Add, operands).push(last),
            next: operands.len() as int,
        };
        assert(ready.pending() == Some(last.request(ready.accumulator)));
        let finished = ready.supplied(host(last.request(ready.accumulator)));
        assert(finished.pending() is None);
        assert(ready.result(host) == finished.result(host));
    }
}

/// `/` gives the quotient of two numbers, and fails for a divisor that is
/// zero, of either sign, whatever the dividend is.
pub proof fn law_div_is_the_quotient(a: Number, b: Number, host: spec_fn(Request) -> Number)
    ensures
        b.is_zero() ==> div_spec(seq![ValueView::Number(a), ValueView::Number(b)]) == Err::<
            ComputationView,
            EvalErrorView,
        >(EvalErrorView::DivisionByZero),
        !b.is_zero() ==> (div_spec(seq![ValueView::Number(a), ValueView::Number(b)]) matches Ok(c)
            && c.result(host) == host(Request { operation: Operation::Divide, left: a, right: b })),
{
    let args = seq![ValueView::Number(a), ValueView::Number(b)];
    assert(all_numbers(args));
    if !b.is_zero() {
        let c = div_spec(args)->Ok_0;
        assert(c.pending() == Some(Request { operation: Operation::Divide, left: a, right: b }));
        let finished = c.supplied(host(c.pending()->Some_0));
        assert(finished.pending() is None);
        assert(c.result(host) == finished.result(host));
    }
}

/// Arithmetic is carried out by the host and by nothing else. Where a
/// computation is the innermost form under way, two steps for each operation
/// that is left and one more end the computation: its result, which is what
/// the host's answers make of it, is handed to the form that waits for it.
/// Scopes, closures and the forms around stay as they are.
pub proof fn law_arithmetic_is_carried_out(s: State, c: ComputationView, host: Host)
    requires
        s.mode == ModeView::Continue,
        s.stack.len() > 0,
        s.stack.last() == FrameView::Compute(c),
        0 <= c.next <= c.steps.len(),
    ensures
        s.driven(host, (2 * (c.steps.len() - c.next) + 1) as nat) == s.leaving(
            ModeView::Deliver(ValueView::Number(c.result(host.compute))),
        ),
    decreases c.steps.len() - c.next,
{
    let steps = (2 * (c.steps.len() - c.next) + 1) as nat;
    if c.next == c.steps.len() {
        assert(s.step(s.answer(host)).driven(host, 0) == s.step(s.answer(host)));
    } else {
        let request = c.pending()->Some_0;
        let asked = s.step(s.answer(host));
        assert(asked == s.with_mode(ModeView::Compute(request)));
        let answered = asked.step(asked.answer(host));
        let next = c.supplied((host.compute)(request));
        assert(answered == asked.replacing(FrameView::Compute(next), ModeView::Continue));
        assert(answered.stack.drop_last() =~= s.stack.drop_last());
        law_arithmetic_is_carried_out(answered, next, host);
        assert(s.driven(host, steps) == asked.driven(host, (steps - 1) as nat));
        assert(asked.driven(host, (steps - 1) as nat) == answered.driven(
            host,
            (steps - 2) as nat,
        ));
    }
}

} // verus!
