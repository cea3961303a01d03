//! The states of the evaluator and the steps between them.
//!
//! A state holds the scopes, the closures, the forms that are under way and
//! what comes next. A step is a function from a state and what the host
//! brings to the next state; what the next state asks of the host is a
//! function of that state. Both are defined for every state.

use vstd::prelude::*;
use crate::ast::{Expression, ExpressionView, views_of};
use crate::evaluator::builtins::{
    Computation, ComputationView, Relation, ReplyView, Request, add_spec, comparison_spec,
    div_spec, equality_spec, mul_spec, print_spec, sub_spec,
};
use crate::evaluator::environment::{ScopeView, defined};
use crate::evaluator::error::{EvalError, EvalErrorView, outcome_view};
use crate::evaluator::form::{FormView, form_of, optional_view};
use crate::evaluator::value::{
    Builtin, Callable, LambdaView, Piece, PieceView, Value, ValueView, piece_views, value_views,
};
use crate::number::Number;
use crate::text::decimal;

verus! {

/// A form that is under way and waits for the value of one of its parts.
#[derive(Debug, PartialEq)]
pub enum Frame {
    /// Expressions to evaluate one after another in `env`. `next` is the
    /// first that has not been evaluated, `last` the value of the one before
    /// it.
    Sequence { items: Vec<Expression>, next: usize, last: Value, env: usize },
    /// An `if` that waits for its condition.
    If { then_branch: Expression, else_branch: Option<Expression>, env: usize },
    /// A `let` that waits for the value to bind.
    Let { name: String, env: usize },
    /// A call: `values` are those of the first elements, in order.
    Call { elements: Vec<Expression>, values: Vec<Value>, env: usize },
    /// Arithmetic that waits for the host.
    Compute(Computation),
}

/// What a [`Frame`] stands for.
pub enum FrameView {
    Sequence { items: Seq<ExpressionView>, next: int, last: ValueView, env: usize },
    If { then_branch: ExpressionView, else_branch: Option<ExpressionView>, env: usize },
    Let { name: Seq<char>, env: usize },
    Call { elements: Seq<ExpressionView>, values: Seq<ValueView>, env: usize },
    Compute(ComputationView),
}

impl View for Frame {
    type V = FrameView;

    open spec fn view(&self) -> FrameView {
        match self {
            Frame::Sequence { items, next, last, env } => FrameView::Sequence {
                items: views_of(items@),
                next: *next as int,
                last: last@,
                env: *env,
            },
            Frame::If { then_branch, else_branch, env } => FrameView::If {
                then_branch: then_branch@,
                else_branch: optional_view(*else_branch),
                env: *env,
            },
            Frame::Let { name, env } => FrameView::Let { name: name@, env: *env },
            Frame::Call { elements, values, env } => FrameView::Call {
                elements: views_of(elements@),
                values: value_views(values@),
                env: *env,
            },
            Frame::Compute(c) => FrameView::Compute(c@),
        }
    }
}

/// The views of a sequence of frames, in order.
pub open spec fn frame_views(items: Seq<Frame>) -> Seq<FrameView> {
    Seq::new(items.len(), |i: int| items[i]@)
}

/// What the machine does next.
#[derive(Debug, PartialEq)]
pub enum Mode {
    /// Evaluate the expression in the scope.
    Eval(Expression, usize),
    /// Go on with the innermost form under way.
    Continue,
    /// Hand the value to the innermost form under way.
    Deliver(Value),
    /// Wait for the host to carry out the operation.
    Compute(Request),
    /// Wait for the host to write the line.
    Print(Vec<Piece>),
    /// Wait for the host to call its procedure of this number with these
    /// arguments.
    Native(usize, Vec<Value>),
    /// Nothing: the evaluation has ended with this result.
    Done(Result<Value, EvalError>),
}

/// What a [`Mode`] stands for.
pub enum ModeView {
    Eval(ExpressionView, usize),
    Continue,
    Deliver(ValueView),
    Compute(Request),
    Print(Seq<PieceView>),
    Native(usize, Seq<ValueView>),
    Done(Result<ValueView, EvalErrorView>),
}

impl View for Mode {
    type V = ModeView;

    open spec fn view(&self) -> ModeView {
        match self {
            Mode::Eval(e, env) => ModeView::Eval(e@, *env),
            Mode::Continue => ModeView::Continue,
            Mode::Deliver(v) => ModeView::Deliver(v@),
            Mode::Compute(r) => ModeView::Compute(*r),
            Mode::Print(pieces) => ModeView::Print(piece_views(pieces@)),
            Mode::Native(id, args) => ModeView::Native(*id, value_views(args@)),
            Mode::Done(r) => ModeView::Done(outcome_view(*r)),
        }
    }
}

/// What the host brings to a step.
#[derive(Debug, PartialEq)]
pub enum Event {
    /// Nothing: the machine is to go on.
    Resume,
    /// The result of the operation that the machine asked for.
    Number(Number),
    /// The line that the machine asked for has been written.
    Printed,
    /// What the procedure of the host that the machine asked for has
    /// returned.
    Returned(Result<Value, EvalError>),
}

/// What an [`Event`] stands for.
pub enum EventView {
    Resume,
    Number(Number),
    Printed,
    Returned(Result<ValueView, EvalErrorView>),
}

impl View for Event {
    type V = EventView;

    open spec fn view(&self) -> EventView {
        match self {
            Event::Resume => EventView::Resume,
            Event::Number(n) => EventView::Number(*n),
            Event::Printed => EventView::Printed,
            Event::Returned(r) => EventView::Returned(outcome_view(*r)),
        }
    }
}

/// What a step asks of the host.
#[derive(Debug, PartialEq)]
pub enum Action {
    /// Nothing: the evaluation is under way, take another step.
    Proceed,
    /// Carry out the operation and bring its result.
    Compute(Request),
    /// Write the pieces in order and report it.
    Print(Vec<Piece>),
    /// Call the procedure of the host with this number on these arguments
    /// and bring what it returns.
    Call { native: usize, args: Vec<Value> },
    /// Nothing: the evaluation has ended with this result.
    Finish(Result<Value, EvalError>),
}

/// What an [`Action`] stands for.
pub enum ActionView {
    Proceed,
    Compute(Request),
    Print(Seq<PieceView>),
    Call { native: usize, args: Seq<ValueView> },
    Finish(Result<ValueView, EvalErrorView>),
}

impl View for Action {
    type V = ActionView;

    open spec fn view(&self) -> ActionView {
        match self {
            Action::Proceed => ActionView::Proceed,
            Action::Compute(r) => ActionView::Compute(*r),
            Action::Print(pieces) => ActionView::Print(piece_views(pieces@)),
            Action::Call { native, args } => ActionView::Call {
                native: *native,
                args: value_views(args@),
            },
            Action::Finish(r) => ActionView::Finish(outcome_view(*r)),
        }
    }
}

/// The state of an evaluator: its scopes, the closures made so far, the forms
/// under way from the outermost to the innermost, and what comes next.
pub struct State {
    pub scopes: Seq<ScopeView>,
    pub lambdas: Seq<LambdaView>,
    pub stack: Seq<FrameView>,
    pub mode: ModeView,
}

/// A host, as far as the evaluator can tell: what its arithmetic gives for
/// each operation, and what its procedures return for each number and
/// arguments.
pub struct Host {
    pub compute: spec_fn(Request) -> Number,
    pub call: spec_fn(usize, Seq<ValueView>) -> Result<ValueView, EvalErrorView>,
}

/// The message of a closure that was called with the wrong number of
/// arguments.
pub open spec fn call_arity_message(expected: nat, got: nat) -> Seq<char> {
    "Function expects "@ + decimal(expected) + " arguments, but got "@ + decimal(got)
}

/// The bindings of the first `count` parameters to their arguments. Of two
/// parameters with one name the later one counts.
pub open spec fn bound(params: Seq<Seq<char>>, args: Seq<ValueView>, count: int) -> Map<
    Seq<char>,
    ValueView,
>
    decreases count,
{
    if count <= 0 {
        Map::empty()
    } else {
        bound(params, args, count - 1).insert(params[count - 1], args[count - 1])
    }
}

/// What a builtin other than `print` answers to its arguments.
pub open spec fn builtin_reply(builtin: Builtin, args: Seq<ValueView>) -> Result<
    ReplyView,
    EvalErrorView,
> {
    match builtin {
        Builtin::Add => match add_spec(args) {
            Ok(c) => Ok(ReplyView::Compute(c)),
            Err(e) => Err(e),
        },
        Builtin::Subtract => sub_spec(args),
        Builtin::Multiply => match mul_spec(args) {
            Ok(c) => Ok(ReplyView::Compute(c)),
            Err(e) => Err(e),
        },
        Builtin::Divide => match div_spec(args) {
            Ok(c) => Ok(ReplyView::Compute(c)),
            Err(e) => Err(e),
        },
        Builtin::Equal => match equality_spec("="@, args, false) {
            Ok(v) => Ok(ReplyView::Value(v)),
            Err(e) => Err(e),
        },
        Builtin::NotEqual => match equality_spec("!="@, args, true) {
            Ok(v) => Ok(ReplyView::Value(v)),
            Err(e) => Err(e),
        },
        Builtin::Greater => match comparison_spec(">"@, args, Relation::Greater) {
            Ok(v) => Ok(ReplyView::Value(v)),
            Err(e) => Err(e),
        },
        Builtin::Less => match comparison_spec("<"@, args, Relation::Less) {
            Ok(v) => Ok(ReplyView::Value(v)),
            Err(e) => Err(e),
        },
        Builtin::GreaterOrEqual => match comparison_spec(">="@, args, Relation::GreaterOrEqual) {
            Ok(v) => Ok(ReplyView::Value(v)),
            Err(e) => Err(e),
        },
        Builtin::LessOrEqual => match comparison_spec("<="@, args, Relation::LessOrEqual) {
            Ok(v) => Ok(ReplyView::Value(v)),
            Err(e) => Err(e),
        },
        Builtin::Print => Ok(ReplyView::Value(ValueView::Nil)),
    }
}

impl State {
    /// The state after a failure: every form under way is given up, and the
    /// evaluation has ended with the error. Scopes and closures stay.
    pub open spec fn failed(self, error: EvalErrorView) -> State {
        State { stack: Seq::empty(), mode: ModeView::Done(Err(error)), ..self }
    }

    /// The state with `mode` next and the forms under way unchanged.
    pub open spec fn with_mode(self, mode: ModeView) -> State {
        State { mode, ..self }
    }

    /// The state with `frame` as the innermost form under way.
    pub open spec fn entering(self, frame: FrameView, mode: ModeView) -> State {
        State { stack: self.stack.push(frame), mode, ..self }
    }

    /// The state without the innermost form under way.
    pub open spec fn leaving(self, mode: ModeView) -> State {
        State { stack: self.stack.drop_last(), mode, ..self }
    }

    /// The state with `frame` in place of the innermost form under way.
    pub open spec fn replacing(self, frame: FrameView, mode: ModeView) -> State {
        State { stack: self.stack.drop_last().push(frame), mode, ..self }
    }

    /// Evaluating `expr` in `env`. A value is handed on and a failure ends
    /// the evaluation. An `if` waits for its condition and a `let` for its
    /// value, each evaluated in `env`. A `lambda` makes a closure that keeps
    /// `env`, the scope it is evaluated in, and does not look at its body. A
    /// call starts with its first element.
    pub open spec fn entered(self, expr: ExpressionView, env: usize) -> State {
        match form_of(expr, env, self.scopes) {
            FormView::Value(v) => self.with_mode(ModeView::Deliver(v)),
            FormView::Failure(e) => self.failed(e),
            FormView::If { condition, then_branch, else_branch } => self.entering(
                FrameView::If { then_branch, else_branch, env },
                ModeView::Eval(condition, env),
            ),
            FormView::Let { name, value } => self.entering(
                FrameView::Let { name, env },
                ModeView::Eval(value, env),
            ),
            FormView::Lambda { params, body } => State {
                lambdas: self.lambdas.push(LambdaView { params, body, env }),
                mode: ModeView::Deliver(
                    ValueView::Function(Callable::Lambda(self.lambdas.len() as usize)),
                ),
                ..self
            },
            FormView::Call { elements } => self.entering(
                FrameView::Call { elements, values: Seq::empty(), env },
                ModeView::Continue,
            ),
        }
    }

    /// Calling a closure with `args`. The number of arguments must be that
    /// of the parameters. The call gets a new scope inside the scope that
    /// the closure kept, not inside the caller's; the scope binds each
    /// parameter to its argument, and the body is evaluated in it.
    pub open spec fn called(self, lambda: LambdaView, args: Seq<ValueView>) -> State {
        if args.len() != lambda.params.len() {
            self.failed(
                EvalErrorView::WrongNumArgs(call_arity_message(lambda.params.len(), args.len())),
            )
        } else {
            State {
                scopes: self.scopes.push(
                    ScopeView {
                        bindings: bound(lambda.params, args, args.len() as int),
                        parent: Some(lambda.env),
                    },
                ),
                stack: self.stack.push(
                    FrameView::Sequence {
                        items: lambda.body,
                        next: 0,
                        last: ValueView::Nil,
                        env: self.scopes.len() as usize,
                    },
                ),
                mode: ModeView::Continue,
                ..self
            }
        }
    }

    /// Calling a builtin with `args`. `print` asks the host to write its
    /// line and changes nothing else. Another builtin fails, gives its value,
    /// or starts its arithmetic.
    pub open spec fn answered(self, builtin: Builtin, args: Seq<ValueView>) -> State {
        if builtin == Builtin::Print {
            self.with_mode(ModeView::Print(print_spec(args, self.lambdas)))
        } else {
            match builtin_reply(builtin, args) {
                Err(e) => self.failed(e),
                Ok(ReplyView::Value(v)) => self.with_mode(ModeView::Deliver(v)),
                Ok(ReplyView::Compute(c)) => self.entering(
                    FrameView::Compute(c),
                    ModeView::Continue,
                ),
            }
        }
    }

    /// Applying the first of `values` to the others, once all elements of a
    /// call have their value. A procedure of the host is called by the host.
    /// What is no function cannot be called.
    pub open spec fn applied(self, values: Seq<ValueView>) -> State {
        if values.len() == 0 {
            self.with_mode(ModeView::Deliver(ValueView::Nil))
        } else {
            match values[0] {
                ValueView::Function(Callable::Builtin(builtin)) => self.answered(
                    builtin,
                    values.skip(1),
                ),
                ValueView::Function(Callable::Native(id)) => self.with_mode(
                    ModeView::Native(id, values.skip(1)),
                ),
                ValueView::Function(Callable::Lambda(id)) => if id < self.lambdas.len() {
                    self.called(self.lambdas[id as int], values.skip(1))
                } else {
                    self.failed(EvalErrorView::NotCallable(values[0]))
                },
                _ => self.failed(EvalErrorView::NotCallable(values[0])),
            }
        }
    }

    /// Going on with the innermost form under way. A sequence evaluates its
    /// next expression, or ends with the value of its last one. A call
    /// evaluates its next element in the caller's scope, or is applied.
    /// Arithmetic asks for its next operation, or ends with its result.
    /// Without a form under way the evaluation has ended with nil.
    pub open spec fn continued(self) -> State {
        if self.stack.len() == 0 {
            self.with_mode(ModeView::Done(Ok(ValueView::Nil)))
        } else {
            match self.stack.last() {
                FrameView::Sequence { items, next, last, env } => if 0 <= next < items.len() {
                    self.with_mode(ModeView::Eval(items[next], env))
                } else {
                    self.leaving(ModeView::Deliver(last))
                },
                FrameView::Call { elements, values, env } => if values.len() < elements.len() {
                    self.with_mode(ModeView::Eval(elements[values.len() as int], env))
                } else {
                    self.leaving(ModeView::Continue).applied(values)
                },
                FrameView::Compute(c) => match c.pending() {
                    Some(request) => self.with_mode(ModeView::Compute(request)),
                    None => self.leaving(ModeView::Deliver(ValueView::Number(c.accumulator))),
                },
                FrameView::If { .. } => self.leaving(ModeView::Deliver(ValueView::Nil)),
                FrameView::Let { .. } => self.leaving(ModeView::Deliver(ValueView::Nil)),
            }
        }
    }

    /// Handing `value` to the innermost form under way. A sequence keeps it
    /// as the value of its last expression. An `if` goes on with its first
    /// branch if the value is the boolean true, and with its second branch,
    /// or else with nil, for every other value. A `let` binds its name in
    /// the scope of the form itself and gives nil; where the scope binds the
    /// name already, as a parameter or by an earlier `let`, the new value
    /// takes the place of the old one. A call keeps the value of its
    /// element. Without a form under way the evaluation has ended with the
    /// value.
    pub open spec fn delivered(self, value: ValueView) -> State {
        if self.stack.len() == 0 {
            self.with_mode(ModeView::Done(Ok(value)))
        } else {
            match self.stack.last() {
                FrameView::Sequence { items, next, last, env } => self.replacing(
                    FrameView::Sequence {
                        items,
                        next: if 0 <= next < items.len() {
                            next + 1
                        } else {
                            next
                        },
                        last: value,
                        env,
                    },
                    ModeView::Continue,
                ),
                FrameView::If { then_branch, else_branch, env } => if value.is_true() {
                    self.leaving(ModeView::Eval(then_branch, env))
                } else {
                    match else_branch {
                        Some(e) => self.leaving(ModeView::Eval(e, env)),
                        None => self.leaving(ModeView::Deliver(ValueView::Nil)),
                    }
                },
                FrameView::Let { name, env } => State {
                    scopes: defined(self.scopes, env as int, name, value),
                    ..self.leaving(ModeView::Deliver(ValueView::Nil))
                },
                FrameView::Call { elements, values, env } => self.replacing(
                    FrameView::Call { elements, values: values.push(value), env },
                    ModeView::Continue,
                ),
                FrameView::Compute(c) => self.leaving(ModeView::Deliver(value)),
            }
        }
    }

    /// Taking the host's answer to the operation that the arithmetic under
    /// way asked for.
    pub open spec fn computed(self, answer: Number) -> State {
        if self.stack.len() == 0 {
            self.with_mode(ModeView::Continue)
        } else {
            match self.stack.last() {
                FrameView::Compute(c) => self.replacing(
                    FrameView::Compute(c.supplied(answer)),
                    ModeView::Continue,
                ),
                _ => self.with_mode(ModeView::Continue),
            }
        }
    }

    /// One step. While the machine waits for the host, only the answer it
    /// waits for moves it; once the evaluation has ended, nothing does.
    pub open spec fn step(self, event: EventView) -> State {
        match self.mode {
            ModeView::Eval(expr, env) => self.entered(expr, env),
            ModeView::Continue => self.continued(),
            ModeView::Deliver(value) => self.delivered(value),
            ModeView::Compute(_) => match event {
                EventView::Number(answer) => self.computed(answer),
                _ => self,
            },
            ModeView::Print(_) => match event {
                EventView::Printed => self.with_mode(ModeView::Deliver(ValueView::Nil)),
                _ => self,
            },
            ModeView::Native(_, _) => match event {
                EventView::Returned(Ok(value)) => self.with_mode(ModeView::Deliver(value)),
                EventView::Returned(Err(error)) => self.failed(error),
                _ => self,
            },
            ModeView::Done(_) => self,
        }
    }

    /// What the state asks of the host.
    pub open spec fn action(self) -> ActionView {
        match self.mode {
            ModeView::Compute(request) => ActionView::Compute(request),
            ModeView::Print(pieces) => ActionView::Print(pieces),
            ModeView::Native(native, args) => ActionView::Call { native, args },
            ModeView::Done(result) => ActionView::Finish(result),
            _ => ActionView::Proceed,
        }
    }

    /// What `host` brings to the state: the answer to what the state asks
    /// for, and nothing where it asks for nothing.
    pub open spec fn answer(self, host: Host) -> EventView {
        match self.mode {
            ModeView::Compute(request) => EventView::Number((host.compute)(request)),
            ModeView::Print(_) => EventView::Printed,
            ModeView::Native(native, args) => EventView::Returned((host.call)(native, args)),
            _ => EventView::Resume,
        }
    }

    /// The state after `steps` steps with a host that answers at once.
    pub open spec fn driven(self, host: Host, steps: nat) -> State
        decreases steps,
    {
        if steps == 0 {
            self
        } else {
            self.step(self.answer(host)).driven(host, (steps - 1) as nat)
        }
    }

    /// The state after `event` and then up to `budget` further steps, as
    /// long as the machine asks nothing of the host.
    pub open spec fn run(self, event: EventView, budget: nat) -> State
        decreases budget,
    {
        let next = self.step(event);
        if budget == 0 || !(next.action() is Proceed) {
            next
        } else {
            next.run(EventView::Resume, (budget - 1) as nat)
        }
    }
}

} // verus!
