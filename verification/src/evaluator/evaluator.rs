//! The evaluator: a machine that evaluates one expression in small steps.
//!
//! The machine never waits and never recurses. One step looks at one
//! expression or hands one value to the form that waits for it. Where a step
//! needs arithmetic that rounds, output, or a procedure of the host, the
//! machine stops with a request, and goes on when the host brings the
//! answer. The host runs the loop; each step is decided here.
//!
//! The forms under way are kept in a list, not on the call stack: an
//! evaluation that nests deeply, or without end, uses memory for it. Running
//! out of memory ends the process and is not reported as an error.

use vstd::prelude::*;
use crate::ast::{Expression, clone_expressions, views_of};
use crate::evaluator::builtins::{
    Reply, builtin_add, builtin_div, builtin_eq, builtin_ge, builtin_gt, builtin_le, builtin_lt,
    builtin_mul, builtin_ne, builtin_print, builtin_sub,
};
use crate::evaluator::environment::{Environment, ScopeView, defined, initial_scopes};
use crate::evaluator::error::{EvalError, clone_outcome};
use crate::evaluator::form::{Form, dispatch};
use crate::evaluator::invariants::{
    law_initial_state_is_well_formed, law_step_keeps_well_formed, lemma_defined_is_valid,
    valid_event, valid_value, well_formed,
};
use crate::evaluator::state::{
    Action, Event, EventView, Frame, FrameView, Mode, ModeView, State, bound, builtin_reply,
    frame_views,
};
use crate::evaluator::value::{
    Builtin, Callable, Lambda, Piece, Value, ValueView, clone_pieces, clone_values,
    lambda_views, show, shown, value_views,
};
use crate::number::Number;
use crate::text::decimal_text;

verus! {

proof fn lemma_frames_push(stack: Seq<Frame>, frame: Frame)
    ensures
        frame_views(stack.push(frame)) == frame_views(stack).push(frame@),
{
    assert(frame_views(stack.push(frame)) =~= frame_views(stack).push(frame@));
}

proof fn lemma_frames_pop(stack: Seq<Frame>)
    requires
        stack.len() > 0,
    ensures
        frame_views(stack.drop_last()) == frame_views(stack).drop_last(),
        frame_views(stack).last() == stack.last()@,
{
    assert(frame_views(stack.drop_last()) =~= frame_views(stack).drop_last());
}

/// Calls a builtin other than `print`; `print` itself answers nil here, its
/// line is made by [`builtin_print`].
pub fn call_builtin(builtin: Builtin, args: Vec<Value>) -> (r: Result<Reply, EvalError>)
    ensures
        match builtin_reply(builtin, value_views(args@)) {
            Ok(reply) => r matches Ok(got) && got@ == reply,
            Err(e) => r matches Err(got) && got@ == e,
        },
{
    match builtin {
        Builtin::Add => match builtin_add(args) {
            Ok(c) => Ok(Reply::Compute(c)),
            Err(e) => Err(e),
        },
        Builtin::Subtract => builtin_sub(args),
        Builtin::Multiply => match builtin_mul(args) {
            Ok(c) => Ok(Reply::Compute(c)),
            Err(e) => Err(e),
        },
        Builtin::Divide => match builtin_div(args) {
            Ok(c) => Ok(Reply::Compute(c)),
            Err(e) => Err(e),
        },
        Builtin::Equal => match builtin_eq(args) {
            Ok(v) => Ok(Reply::Value(v)),
            Err(e) => Err(e),
        },
        Builtin::NotEqual => match builtin_ne(args) {
            Ok(v) => Ok(Reply::Value(v)),
            Err(e) => Err(e),
        },
        Builtin::Greater => match builtin_gt(args) {
            Ok(v) => Ok(Reply::Value(v)),
            Err(e) => Err(e),
        },
        Builtin::Less => match builtin_lt(args) {
            Ok(v) => Ok(Reply::Value(v)),
            Err(e) => Err(e),
        },
        Builtin::GreaterOrEqual => match builtin_ge(args) {
            Ok(v) => Ok(Reply::Value(v)),
            Err(e) => Err(e),
        },
        Builtin::LessOrEqual => match builtin_le(args) {
            Ok(v) => Ok(Reply::Value(v)),
            Err(e) => Err(e),
        },
        Builtin::Print => Ok(Reply::Value(Value::Nil)),
    }
}

/// An evaluator: the scopes and closures of one interpreter, and the
/// evaluation that is under way in it.
#[derive(Debug)]
pub struct Evaluator {
    environment: Environment,
    lambdas: Vec<Lambda>,
    stack: Vec<Frame>,
    mode: Mode,
}

impl View for Evaluator {
    type V = State;

    closed spec fn view(&self) -> State {
        State {
            scopes: self.environment@,
            lambdas: lambda_views(self.lambdas@),
            stack: frame_views(self.stack@),
            mode: self.mode@,
        }
    }
}

/// The state of a new evaluator: the global scope with the builtins, no
/// closure, nothing under way.
pub open spec fn initial_state() -> State {
    State {
        scopes: initial_scopes(),
        lambdas: Seq::empty(),
        stack: Seq::empty(),
        mode: ModeView::Done(Ok(ValueView::Nil)),
    }
}

impl Evaluator {
    /// A new evaluator with a global scope of its own.
    pub fn new() -> (r: Evaluator)
        ensures
            r@ == initial_state(),
            well_formed(r@),
    {
        proof {
            law_initial_state_is_well_formed();
        }
        let r = Evaluator {
            environment: Environment::new(),
            lambdas: Vec::new(),
            stack: Vec::new(),
            mode: Mode::Done(Ok(Value::Nil)),
        };
        assert(r@.lambdas =~= Seq::empty());
        assert(r@.stack =~= Seq::empty());
        r
    }

    /// The scopes of the evaluator.
    pub fn environment(&self) -> (r: &Environment)
        ensures
            r@ == self@.scopes,
    {
        &self.environment
    }

    /// Shows a value that the evaluator made.
    pub fn show(&self, value: &Value) -> (r: Piece)
        ensures
            r@ == shown(value@, self@.lambdas),
    {
        show(value, &self.lambdas)
    }

    /// The index of the global scope.
    pub fn global_scope(&self) -> (r: usize)
        ensures
            r == 0,
    {
        0
    }

    /// Binds `name` to `value` in `scope` itself. A valid value keeps a
    /// well-formed evaluator well formed.
    pub fn define(&mut self, scope: usize, name: String, value: Value)
        ensures
            final(self)@ == (State {
                scopes: defined(old(self)@.scopes, scope as int, name@, value@),
                ..old(self)@
            }),
            well_formed(old(self)@) && valid_value(value@, old(self)@.lambdas.len() as int)
                ==> well_formed(final(self)@),
    {
        proof {
            if well_formed(self@) && valid_value(value@, self@.lambdas.len() as int) {
                lemma_defined_is_valid(
                    self@.scopes,
                    self@.lambdas.len() as int,
                    scope as int,
                    name@,
                    value@,
                );
            }
        }
        self.environment.define(scope, name, value);
    }

    /// Starts the evaluation of `expr` in `scope`, in place of what was under
    /// way. Scopes and closures stay as they are. With a scope that exists, a
    /// well-formed evaluator stays well formed.
    pub fn evaluate(&mut self, expr: &Expression, scope: usize)
        ensures
            final(self)@ == (State {
                stack: Seq::empty(),
                mode: ModeView::Eval(expr@, scope),
                ..old(self)@
            }),
            well_formed(old(self)@) && scope < old(self)@.scopes.len() ==> well_formed(
                final(self)@,
            ),
    {
        self.stack.clear();
        self.mode = Mode::Eval(expr.clone(), scope);
        assert(self@.stack =~= Seq::empty());
    }

    /// Starts the evaluation of a program in the global scope, in place of
    /// what was under way: its expressions in order, the result that of the
    /// last one, and nil if there is none.
    pub fn eval_program(&mut self, program: &[Expression])
        ensures
            final(self)@ == (State {
                stack: seq![
                    FrameView::Sequence {
                        items: views_of(program@),
                        next: 0,
                        last: ValueView::Nil,
                        env: 0,
                    },
                ],
                mode: ModeView::Continue,
                ..old(self)@
            }),
            well_formed(old(self)@) ==> well_formed(final(self)@),
    {
        let mut items: Vec<Expression> = Vec::new();
        let mut i: usize = 0;
        while i < program.len()
            invariant
                i <= program.len(),
                items@.len() == i,
                forall|j: int| 0 <= j < i ==> items@[j]@ == program@[j]@,
            decreases program.len() - i,
        {
            items.push(program[i].clone());
            i += 1;
        }
        assert(views_of(items@) =~= views_of(program@));
        self.stack.clear();
        self.stack.push(Frame::Sequence { items, next: 0, last: Value::Nil, env: 0 });
        self.mode = Mode::Continue;
        assert(self@.stack =~= seq![
            FrameView::Sequence {
                items: views_of(program@),
                next: 0,
                last: ValueView::Nil,
                env: 0,
            },
        ]);
    }

    fn fail(&mut self, error: EvalError)
        ensures
            final(self)@ == old(self)@.failed(error@),
    {
        self.stack.clear();
        self.mode = Mode::Done(Err(error));
        assert(self@.stack =~= Seq::empty());
    }

    fn push(&mut self, frame: Frame, mode: Mode)
        ensures
            final(self)@ == old(self)@.entering(frame@, mode@),
    {
        proof {
            lemma_frames_push(self.stack@, frame);
        }
        self.stack.push(frame);
        self.mode = mode;
    }

    fn enter(&mut self, expr: Expression, env: usize)
        ensures
            final(self)@ == old(self)@.entered(expr@, env),
    {
        match dispatch(&expr, env, &self.environment) {
            Form::Value(v) => {
                self.mode = Mode::Deliver(v);
            },
            Form::Failure(e) => {
                self.fail(e);
            },
            Form::If { condition, then_branch, else_branch } => {
                self.push(Frame::If { then_branch, else_branch, env }, Mode::Eval(condition, env));
            },
            Form::Let { name, value } => {
                self.push(Frame::Let { name, env }, Mode::Eval(value, env));
            },
            Form::Lambda { params, body } => {
                let id = self.lambdas.len();
                let lambda = Lambda { params, body, env };
                assert(lambda_views(self.lambdas@.push(lambda)) =~= lambda_views(
                    self.lambdas@,
                ).push(lambda@));
                self.lambdas.push(lambda);
                self.mode = Mode::Deliver(Value::Function(Callable::Lambda(id)));
            },
            Form::Call { elements } => {
                let frame = Frame::Call { elements, values: Vec::new(), env };
                assert(frame@->Call_values =~= Seq::empty());
                self.push(frame, Mode::Continue);
            },
        }
    }

    fn call(&mut self, id: usize, args: Vec<Value>)
        requires
            id < old(self)@.lambdas.len(),
        ensures
            final(self)@ == old(self)@.called(old(self)@.lambdas[id as int], value_views(args@)),
    {
        let count = self.lambdas[id].params.len();
        if args.len() != count {
            let mut message = String::from_str("Function expects ");
            message.append(decimal_text(count).as_str());
            message.append(" arguments, but got ");
            message.append(decimal_text(args.len()).as_str());
            self.fail(EvalError::WrongNumArgs(message));
            return ;
        }
        let parent = self.lambdas[id].env;
        let ghost lambda = old(self)@.lambdas[id as int];
        let ghost outer = old(self)@.scopes;
        let scope = self.environment.new_with_parent(parent);
        let mut i: usize = 0;
        while i < count
            invariant
                i <= count,
                count == args@.len(),
                id < self.lambdas@.len(),
                count == self.lambdas@[id as int].params@.len(),
                self.lambdas@ == old(self).lambdas@,
                self.stack@ == old(self).stack@,
                lambda == self.lambdas@[id as int]@,
                scope == outer.len(),
                self.environment@ == outer.push(
                    ScopeView {
                        bindings: bound(lambda.params, value_views(args@), i as int),
                        parent: Some(parent),
                    },
                ),
            decreases count - i,
        {
            let name = self.lambdas[id].params[i].clone();
            let value = args[i].clone();
            self.environment.define(scope, name, value);
            assert(self.environment@ =~= outer.push(
                ScopeView {
                    bindings: bound(lambda.params, value_views(args@), i + 1),
                    parent: Some(parent),
                },
            ));
            i += 1;
        }
        let body = clone_expressions(&self.lambdas[id].body);
        self.push(
            Frame::Sequence { items: body, next: 0, last: Value::Nil, env: scope },
            Mode::Continue,
        );
    }

    fn answer(&mut self, builtin: Builtin, args: Vec<Value>)
        ensures
            final(self)@ == old(self)@.answered(builtin, value_views(args@)),
    {
        match builtin {
            Builtin::Print => {
                let pieces = builtin_print(args, &self.lambdas);
                self.mode = Mode::Print(pieces);
            },
            _ => {
                match call_builtin(builtin, args) {
                    Err(e) => {
                        self.fail(e);
                    },
                    Ok(Reply::Value(v)) => {
                        self.mode = Mode::Deliver(v);
                    },
                    Ok(Reply::Compute(c)) => {
                        self.push(Frame::Compute(c), Mode::Continue);
                    },
                }
            },
        }
    }

    fn apply(&mut self, values: Vec<Value>)
        ensures
            final(self)@ == old(self)@.applied(value_views(values@)),
    {
        if values.len() == 0 {
            self.mode = Mode::Deliver(Value::Nil);
            return ;
        }
        let mut args = values;
        let head = args.remove(0);
        assert(value_views(args@) =~= value_views(values@).skip(1));
        match head {
            Value::Function(Callable::Builtin(builtin)) => {
                self.answer(builtin, args);
            },
            Value::Function(Callable::Native(id)) => {
                self.mode = Mode::Native(id, args);
            },
            Value::Function(Callable::Lambda(id)) => {
                if id < self.lambdas.len() {
                    self.call(id, args);
                } else {
                    self.fail(EvalError::NotCallable(head));
                }
            },
            _ => {
                self.fail(EvalError::NotCallable(head));
            },
        }
    }

    fn proceed(&mut self)
        ensures
            final(self)@ == old(self)@.continued(),
    {
        if self.stack.len() == 0 {
            self.mode = Mode::Done(Ok(Value::Nil));
            return ;
        }
        proof {
            lemma_frames_pop(self.stack@);
        }
        let ghost before = self.stack@;
        let frame = self.stack.pop().unwrap();
        match frame {
            Frame::Sequence { items, next, last, env } => {
                if next < items.len() {
                    let expr = items[next].clone();
                    self.stack.push(Frame::Sequence { items, next, last, env });
                    assert(self.stack@ =~= before);
                    self.mode = Mode::Eval(expr, env);
                } else {
                    self.mode = Mode::Deliver(last);
                }
            },
            Frame::Call { elements, values, env } => {
                if values.len() < elements.len() {
                    let expr = elements[values.len()].clone();
                    self.stack.push(Frame::Call { elements, values, env });
                    assert(self.stack@ =~= before);
                    self.mode = Mode::Eval(expr, env);
                } else {
                    self.mode = Mode::Continue;
                    self.apply(values);
                }
            },
            Frame::Compute(c) => {
                match c.pending() {
                    Some(request) => {
                        self.stack.push(Frame::Compute(c));
                        assert(self.stack@ =~= before);
                        self.mode = Mode::Compute(request);
                    },
                    None => {
                        self.mode = Mode::Deliver(Value::Number(c.accumulator));
                    },
                }
            },
            Frame::If { .. } => {
                self.mode = Mode::Deliver(Value::Nil);
            },
            Frame::Let { .. } => {
                self.mode = Mode::Deliver(Value::Nil);
            },
        }
    }

    fn deliver(&mut self, value: Value)
        ensures
            final(self)@ == old(self)@.delivered(value@),
    {
        if self.stack.len() == 0 {
            self.mode = Mode::Done(Ok(value));
            return ;
        }
        proof {
            lemma_frames_pop(self.stack@);
        }
        let frame = self.stack.pop().unwrap();
        match frame {
            Frame::Sequence { items, next, last, env } => {
                let next = if next < items.len() {
                    next + 1
                } else {
                    next
                };
                self.push(Frame::Sequence { items, next, last: value, env }, Mode::Continue);
            },
            Frame::If { then_branch, else_branch, env } => {
                if value.is_true() {
                    self.mode = Mode::Eval(then_branch, env);
                } else {
                    match else_branch {
                        Some(e) => {
                            self.mode = Mode::Eval(e, env);
                        },
                        None => {
                            self.mode = Mode::Deliver(Value::Nil);
                        },
                    }
                }
            },
            Frame::Let { name, env } => {
                self.environment.define(env, name, value);
                self.mode = Mode::Deliver(Value::Nil);
            },
            Frame::Call { elements, values, env } => {
                let mut values = values;
                let ghost before = value_views(values@);
                values.push(value);
                assert(value_views(values@) =~= before.push(value@));
                self.push(Frame::Call { elements, values, env }, Mode::Continue);
            },
            Frame::Compute(_) => {
                self.mode = Mode::Deliver(value);
            },
        }
    }

    fn supply(&mut self, answer: Number)
        ensures
            final(self)@ == old(self)@.computed(answer),
    {
        if self.stack.len() == 0 {
            self.mode = Mode::Continue;
            return ;
        }
        proof {
            lemma_frames_pop(self.stack@);
        }
        let ghost before = self.stack@;
        let frame = self.stack.pop().unwrap();
        match frame {
            Frame::Compute(c) => {
                let mut c = c;
                c.supply(answer);
                self.push(Frame::Compute(c), Mode::Continue);
            },
            other => {
                self.stack.push(other);
                assert(self.stack@ =~= before);
                self.mode = Mode::Continue;
            },
        }
    }

    /// What the evaluator asks of the host as it stands.
    pub fn action(&self) -> (r: Action)
        ensures
            r@ == self@.action(),
    {
        match &self.mode {
            Mode::Compute(request) => Action::Compute(*request),
            Mode::Print(pieces) => Action::Print(clone_pieces(pieces)),
            Mode::Native(native, args) => Action::Call {
                native: *native,
                args: clone_values(args),
            },
            Mode::Done(result) => Action::Finish(clone_outcome(result)),
            _ => Action::Proceed,
        }
    }

    /// Takes one step and says what the evaluator then asks of the host. A
    /// well-formed evaluator stays well formed if the host brings valid
    /// values.
    pub fn step(&mut self, event: Event) -> (r: Action)
        ensures
            final(self)@ == old(self)@.step(event@),
            r@ == final(self)@.action(),
            well_formed(old(self)@) && valid_event(event@, old(self)@.lambdas.len() as int)
                ==> well_formed(final(self)@),
    {
        let ghost old_event = event@;
        let mut mode = Mode::Continue;
        core::mem::swap(&mut self.mode, &mut mode);
        match mode {
            Mode::Eval(expr, env) => {
                self.enter(expr, env);
            },
            Mode::Continue => {
                self.proceed();
            },
            Mode::Deliver(value) => {
                self.deliver(value);
            },
            Mode::Compute(request) => {
                match event {
                    Event::Number(answer) => {
                        self.supply(answer);
                    },
                    _ => {
                        self.mode = Mode::Compute(request);
                    },
                }
            },
            Mode::Print(pieces) => {
                match event {
                    Event::Printed => {
                        self.mode = Mode::Deliver(Value::Nil);
                    },
                    _ => {
                        self.mode = Mode::Print(pieces);
                    },
                }
            },
            Mode::Native(native, args) => {
                match event {
                    Event::Returned(Ok(value)) => {
                        self.mode = Mode::Deliver(value);
                    },
                    Event::Returned(Err(error)) => {
                        self.mode = Mode::Native(native, args);
                        self.fail(error);
                    },
                    _ => {
                        self.mode = Mode::Native(native, args);
                    },
                }
            },
            Mode::Done(result) => {
                self.mode = Mode::Done(result);
            },
        }
        proof {
            self.environment.lemma_len_is_bounded();
            assert(self.lambdas.len() <= usize::MAX);
            if well_formed(old(self)@) && valid_event(old_event, old(self)@.lambdas.len() as int) {
                law_step_keeps_well_formed(old(self)@, old_event);
            }
        }
        self.action()
    }

    /// Takes one step with `event` and then up to `budget` further steps, as
    /// long as the evaluator asks nothing of the host. It answers `Proceed`
    /// only if the budget is used up.
    pub fn run(&mut self, event: Event, budget: usize) -> (r: Action)
        ensures
            final(self)@ == old(self)@.run(event@, budget as nat),
            r@ == final(self)@.action(),
            well_formed(old(self)@) && valid_event(event@, old(self)@.lambdas.len() as int)
                ==> well_formed(final(self)@),
    {
        let ghost old_event = event@;
        let mut action = self.step(event);
        let mut left: usize = budget;
        while left > 0 && Self::goes_on(&action)
            invariant
                action@ == self@.action(),
                well_formed(old(self)@) && valid_event(old_event, old(self)@.lambdas.len() as int)
                    ==> well_formed(self@),
                old(self)@.run(old_event, budget as nat) == if left == 0 || !(self@.action()
                    is Proceed) {
                    self@
                } else {
                    self@.run(EventView::Resume, (left - 1) as nat)
                },
            decreases left,
        {
            action = self.step(Event::Resume);
            left -= 1;
        }
        action
    }

    fn goes_on(action: &Action) -> (r: bool)
        ensures
            r == (action@ is Proceed),
    {
        match action {
            Action::Proceed => true,
            _ => false,
        }
    }
}

} // verus!
