//! The native procedures.
//!
//! Comparison and equality are decided here. Sums, products, differences and
//! quotients need arithmetic that rounds, which the host performs: the
//! builtin checks its arguments and answers with a [`Computation`], the list
//! of operations to carry out in order.

use vstd::prelude::*;
use crate::evaluator::error::{EvalError, EvalErrorView};
use crate::evaluator::value::{
    Lambda, LambdaView, Piece, PieceView, Value, ValueView, lambda_views, piece_views, show,
    shown, value_views,
};
use crate::number::{Number, Operation};
use crate::text::{decimal, decimal_text};

verus! {

/// One operation for the host: `left` and `right` in this order.
#[derive(Clone, Copy, Debug, PartialEq, Eq)]
pub struct Request {
    pub operation: Operation,
    pub left: Number,
    pub right: Number,
}

/// One step of a computation: the running result and `operand` are combined
/// by `operation`; the operand stands on the left if `operand_first`.
#[derive(Clone, Copy, Debug, PartialEq, Eq)]
pub struct Step {
    pub operation: Operation,
    pub operand: Number,
    pub operand_first: bool,
}

/// Arithmetic on its way: the running result, and the steps of which the
/// first `next` are done.
#[derive(Debug, PartialEq)]
pub struct Computation {
    pub accumulator: Number,
    pub steps: Vec<Step>,
    pub next: usize,
}

/// What a [`Computation`] stands for.
pub struct ComputationView {
    pub accumulator: Number,
    pub steps: Seq<Step>,
    pub next: int,
}

impl View for Computation {
    type V = ComputationView;

    open spec fn view(&self) -> ComputationView {
        ComputationView {
            accumulator: self.accumulator,
            steps: self.steps@,
            next: self.next as int,
        }
    }
}

impl Step {
    /// The request that carries out the step on the running result.
    pub open spec fn request(self, accumulator: Number) -> Request {
        if self.operand_first {
            Request { operation: self.operation, left: self.operand, right: accumulator }
        } else {
            Request { operation: self.operation, left: accumulator, right: self.operand }
        }
    }
}

impl ComputationView {
    /// The request for the next step, if a step is left.
    pub open spec fn pending(self) -> Option<Request> {
        if 0 <= self.next < self.steps.len() {
            Some(self.steps[self.next].request(self.accumulator))
        } else {
            None
        }
    }

    /// The computation after the host has answered the pending request: the
    /// answer is the running result and the step is done. Without a pending
    /// request nothing changes.
    pub open spec fn supplied(self, answer: Number) -> ComputationView {
        if 0 <= self.next < self.steps.len() {
            ComputationView { accumulator: answer, steps: self.steps, next: self.next + 1 }
        } else {
            self
        }
    }

    /// The result of the computation when `host` answers each request.
    pub open spec fn result(self, host: spec_fn(Request) -> Number) -> Number
        decreases self.steps.len() - self.next,
    {
        match self.pending() {
            Some(request) => self.supplied(host(request)).result(host),
            None => self.accumulator,
        }
    }
}

impl Computation {
    /// The request for the next step, if a step is left.
    pub fn pending(&self) -> (r: Option<Request>)
        ensures
            r == self@.pending(),
    {
        if self.next < self.steps.len() {
            let step = self.steps[self.next];
            if step.operand_first {
                Some(
                    Request {
                        operation: step.operation,
                        left: step.operand,
                        right: self.accumulator,
                    },
                )
            } else {
                Some(
                    Request {
                        operation: step.operation,
                        left: self.accumulator,
                        right: step.operand,
                    },
                )
            }
        } else {
            None
        }
    }

    /// Takes the host's answer to the pending request.
    pub fn supply(&mut self, answer: Number)
        ensures
            final(self)@ == old(self)@.supplied(answer),
    {
        if self.next < self.steps.len() {
            self.accumulator = answer;
            self.next = self.next + 1;
        }
    }
}

impl Clone for Computation {
    fn clone(&self) -> (r: Computation)
        ensures
            r@ == self@,
    {
        let mut steps: Vec<Step> = Vec::new();
        let mut i: usize = 0;
        while i < self.steps.len()
            invariant
                i <= self.steps.len(),
                steps@ == self.steps@.take(i as int),
            decreases self.steps.len() - i,
        {
            steps.push(self.steps[i]);
            i += 1;
            assert(steps@ =~= self.steps@.take(i as int));
        }
        assert(steps@ =~= self.steps@);
        Computation { accumulator: self.accumulator, steps, next: self.next }
    }
}

/// What a builtin other than `print` answers: a value, or arithmetic for the
/// host whose result is the value.
#[derive(Debug, PartialEq)]
pub enum Reply {
    Value(Value),
    Compute(Computation),
}

/// What a [`Reply`] stands for.
pub enum ReplyView {
    Value(ValueView),
    Compute(ComputationView),
}

impl View for Reply {
    type V = ReplyView;

    open spec fn view(&self) -> ReplyView {
        match self {
            Reply::Value(v) => ReplyView::Value(v@),
            Reply::Compute(c) => ReplyView::Compute(c@),
        }
    }
}

/// What the answer of a builtin stands for.
pub open spec fn reply_view(r: Result<Reply, EvalError>) -> Result<ReplyView, EvalErrorView> {
    match r {
        Ok(reply) => Ok(reply@),
        Err(e) => Err(e@),
    }
}

/// The message of a builtin that takes exactly `expected` arguments.
pub open spec fn exact_arity_message(name: Seq<char>, expected: nat, got: nat) -> Seq<char> {
    name + " expects "@ + decimal(expected) + " arguments, but got "@ + decimal(got)
}

/// The message of a builtin that takes at least `expected` arguments.
pub open spec fn minimum_arity_message(name: Seq<char>, expected: nat, got: nat) -> Seq<char> {
    name + " expects at least "@ + decimal(expected) + " arguments, but got "@ + decimal(got)
}

/// The message of a builtin that was given something else than a number.
pub open spec fn number_message(name: Seq<char>) -> Seq<char> {
    name + " expects numbers"@
}

/// Every argument is a number.
pub open spec fn all_numbers(args: Seq<ValueView>) -> bool {
    forall|i: int| 0 <= i < args.len() ==> args[i] is Number
}

/// The numbers that the arguments hold, in order.
pub open spec fn numbers_of(args: Seq<ValueView>) -> Seq<Number> {
    Seq::new(args.len(), |i: int| args[i]->Number_0)
}

/// The steps that combine the running result with each operand in turn.
pub open spec fn steps_over(operation: Operation, operands: Seq<Number>) -> Seq<Step> {
    Seq::new(
        operands.len(),
        |i: int| Step { operation, operand: operands[i], operand_first: false },
    )
}

/// Accepts exactly `expected` arguments.
pub fn check_num_args(func_name: &str, args: &[Value], expected: usize) -> (r: Result<
    (),
    EvalError,
>)
    ensures
        args@.len() == expected ==> r is Ok,
        args@.len() != expected ==> (r matches Err(e) && e@ == EvalErrorView::WrongNumArgs(
            exact_arity_message(func_name@, expected as nat, args@.len()),
        )),
{
    if args.len() != expected {
        let mut message = String::from_str(func_name);
        message.append(" expects ");
        message.append(decimal_text(expected).as_str());
        message.append(" arguments, but got ");
        message.append(decimal_text(args.len()).as_str());
        Err(EvalError::WrongNumArgs(message))
    } else {
        Ok(())
    }
}

/// Accepts `min_expected` arguments or more.
pub fn check_min_args(func_name: &str, args: &[Value], min_expected: usize) -> (r: Result<
    (),
    EvalError,
>)
    ensures
        args@.len() >= min_expected ==> r is Ok,
        args@.len() < min_expected ==> (r matches Err(e) && e@ == EvalErrorView::WrongNumArgs(
            minimum_arity_message(func_name@, min_expected as nat, args@.len()),
        )),
{
    if args.len() < min_expected {
        let mut message = String::from_str(func_name);
        message.append(" expects at least ");
        message.append(decimal_text(min_expected).as_str());
        message.append(" arguments, but got ");
        message.append(decimal_text(args.len()).as_str());
        Err(EvalError::WrongNumArgs(message))
    } else {
        Ok(())
    }
}

/// The number that an argument holds; anything else is a type error.
pub fn get_num_arg(func_name: &str, arg: &Value) -> (r: Result<Number, EvalError>)
    ensures
        arg@ matches ValueView::Number(n) ==> r == Ok::<Number, EvalError>(n),
        !(arg@ is Number) ==> (r matches Err(e) && e@ == EvalErrorView::TypeError(
            number_message(func_name@),
        )),
{
    match arg {
        Value::Number(n) => Ok(*n),
        _ => {
            let mut message = String::from_str(func_name);
            message.append(" expects numbers");
            Err(EvalError::TypeError(message))
        },
    }
}

/// What [`get_two_num_args`] answers.
pub open spec fn two_numbers(name: Seq<char>, args: Seq<ValueView>) -> Result<
    (Number, Number),
    EvalErrorView,
> {
    if args.len() != 2 {
        Err(EvalErrorView::WrongNumArgs(exact_arity_message(name, 2, args.len())))
    } else if !all_numbers(args) {
        Err(EvalErrorView::TypeError(number_message(name)))
    } else {
        Ok((args[0]->Number_0, args[1]->Number_0))
    }
}

/// The two numbers of a builtin that takes exactly two.
pub fn get_two_num_args(func_name: &str, args: &[Value]) -> (r: Result<
    (Number, Number),
    EvalError,
>)
    ensures
        match two_numbers(func_name@, value_views(args@)) {
            Ok(pair) => r == Ok::<(Number, Number), EvalError>(pair),
            Err(e) => r matches Err(got) && got@ == e,
        },
{
    check_num_args(func_name, args, 2)?;
    let a = get_num_arg(func_name, &args[0])?;
    let b = get_num_arg(func_name, &args[1])?;
    Ok((a, b))
}

/// The numbers of a builtin that takes numbers only.
pub fn get_all_num_args(func_name: &str, args: Vec<Value>) -> (r: Result<Vec<Number>, EvalError>)
    ensures
        all_numbers(value_views(args@)) ==> (r matches Ok(numbers) && numbers@ == numbers_of(
            value_views(args@),
        )),
        !all_numbers(value_views(args@)) ==> (r matches Err(e) && e@ == EvalErrorView::TypeError(
            number_message(func_name@),
        )),
{
    let mut numbers: Vec<Number> = Vec::new();
    let mut i: usize = 0;
    while i < args.len()
        invariant
            i <= args.len(),
            numbers@.len() == i,
            forall|j: int| 0 <= j < i ==> value_views(args@)[j] == ValueView::Number(numbers@[j]),
        decreases args.len() - i,
    {
        match get_num_arg(func_name, &args[i]) {
            Ok(n) => {
                numbers.push(n);
            },
            Err(e) => {
                assert(!(value_views(args@)[i as int] is Number));
                return Err(e);
            },
        }
        i += 1;
    }
    assert(numbers@ =~= numbers_of(value_views(args@)));
    Ok(numbers)
}

fn steps_of(operation: Operation, operands: &Vec<Number>, from: usize) -> (r: Vec<Step>)
    requires
        from <= operands@.len(),
    ensures
        r@ == steps_over(operation, operands@.skip(from as int)),
{
    let mut steps: Vec<Step> = Vec::new();
    let mut i: usize = from;
    while i < operands.len()
        invariant
            from <= i <= operands.len(),
            steps@.len() == i - from,
            forall|j: int|
                0 <= j < i - from ==> steps@[j] == (Step {
                    operation,
                    operand: operands@[from + j],
                    operand_first: false,
                }),
        decreases operands.len() - i,
    {
        steps.push(Step { operation, operand: operands[i], operand_first: false });
        i += 1;
    }
    assert(steps@ =~= steps_over(operation, operands@.skip(from as int)));
    steps
}

/// What `+` answers: the sum of its arguments, added one after another to
/// zero.
pub open spec fn add_spec(args: Seq<ValueView>) -> Result<ComputationView, EvalErrorView> {
    if all_numbers(args) {
        Ok(
            ComputationView {
                accumulator: Number::zero(),
                steps: steps_over(Operation::Add, numbers_of(args)),
                next: 0,
            },
        )
    } else {
        Err(EvalErrorView::TypeError(number_message("+"@)))
    }
}

/// `+`: any number of numbers.
pub fn builtin_add(args: Vec<Value>) -> (r: Result<Computation, EvalError>)
    ensures
        match add_spec(value_views(args@)) {
            Ok(c) => r matches Ok(got) && got@ == c,
            Err(e) => r matches Err(got) && got@ == e,
        },
{
    let numbers = get_all_num_args("+", args)?;
    assert(numbers@.skip(0) =~= numbers@);
    Ok(
        Computation {
            accumulator: Number::zero(),
            steps: steps_of(Operation::Add, &numbers, 0),
            next: 0,
        },
    )
}

/// What `*` answers: the product of its arguments, multiplied one after
/// another onto one.
pub open spec fn mul_spec(args: Seq<ValueView>) -> Result<ComputationView, EvalErrorView> {
    if all_numbers(args) {
        Ok(
            ComputationView {
                accumulator: Number::one(),
                steps: steps_over(Operation::Multiply, numbers_of(args)),
                next: 0,
            },
        )
    } else {
        Err(EvalErrorView::TypeError(number_message("*"@)))
    }
}

/// `*`: any number of numbers.
pub fn builtin_mul(args: Vec<Value>) -> (r: Result<Computation, EvalError>)
    ensures
        match mul_spec(value_views(args@)) {
            Ok(c) => r matches Ok(got) && got@ == c,
            Err(e) => r matches Err(got) && got@ == e,
        },
{
    let numbers = get_all_num_args("*", args)?;
    assert(numbers@.skip(0) =~= numbers@);
    Ok(
        Computation {
            accumulator: Number::one(),
            steps: steps_of(Operation::Multiply, &numbers, 0),
            next: 0,
        },
    )
}

/// What `-` answers. One number is negated. Of two or more, those after the
/// first are added one after another to zero, and the sum is subtracted from
/// the first.
pub open spec fn sub_spec(args: Seq<ValueView>) -> Result<ReplyView, EvalErrorView> {
    if args.len() < 1 {
        Err(EvalErrorView::WrongNumArgs(minimum_arity_message("-"@, 1, args.len())))
    } else if !all_numbers(args) {
        Err(EvalErrorView::TypeError(number_message("-"@)))
    } else if args.len() == 1 {
        Ok(ReplyView::Value(ValueView::Number(args[0]->Number_0.negate())))
    } else {
        Ok(
            ReplyView::Compute(
                ComputationView {
                    accumulator: Number::zero(),
                    steps: steps_over(Operation::Add, numbers_of(args).skip(1)).push(
                        Step {
                            operation: Operation::Subtract,
                            operand: args[0]->Number_0,
                            operand_first: true,
                        },
                    ),
                    next: 0,
                },
            ),
        )
    }
}

/// `-`: one number or more.
pub fn builtin_sub(args: Vec<Value>) -> (r: Result<Reply, EvalError>)
    ensures
        reply_view(r) == sub_spec(value_views(args@)),
{
    check_min_args("-", args.as_slice(), 1)?;
    let numbers = get_all_num_args("-", args)?;
    if numbers.len() == 1 {
        Ok(Reply::Value(Value::Number(numbers[0].negate())))
    } else {
        let mut steps = steps_of(Operation::Add, &numbers, 1);
        steps.push(
            Step { operation: Operation::Subtract, operand: numbers[0], operand_first: true },
        );
        Ok(Reply::Compute(Computation { accumulator: Number::zero(), steps, next: 0 }))
    }
}

/// What `/` answers: the quotient of its two arguments, unless the second is
/// zero.
pub open spec fn div_spec(args: Seq<ValueView>) -> Result<ComputationView, EvalErrorView> {
    match two_numbers("/"@, args) {
        Err(e) => Err(e),
        Ok((numerator, denominator)) => if denominator.is_zero() {
            Err(EvalErrorView::DivisionByZero)
        } else {
            Ok(
                ComputationView {
                    accumulator: numerator,
                    steps: seq![
                        Step {
                            operation: Operation::Divide,
                            operand: denominator,
                            operand_first: false,
                        },
                    ],
                    next: 0,
                },
            )
        },
    }
}

/// `/`: exactly two numbers, the second not zero.
pub fn builtin_div(args: Vec<Value>) -> (r: Result<Computation, EvalError>)
    ensures
        match div_spec(value_views(args@)) {
            Ok(c) => r matches Ok(got) && got@ == c,
            Err(e) => r matches Err(got) && got@ == e,
        },
{
    let (numerator, denominator) = get_two_num_args("/", args.as_slice())?;
    if denominator.is_zero() {
        return Err(EvalError::DivisionByZero);
    }
    let mut steps: Vec<Step> = Vec::new();
    steps.push(Step { operation: Operation::Divide, operand: denominator, operand_first: false });
    assert(steps@ =~= seq![
        Step { operation: Operation::Divide, operand: denominator, operand_first: false },
    ]);
    Ok(Computation { accumulator: numerator, steps, next: 0 })
}

/// What the builtins on exactly two values of any kind answer.
pub open spec fn equality_spec(name: Seq<char>, args: Seq<ValueView>, negated: bool) -> Result<
    ValueView,
    EvalErrorView,
> {
    if args.len() != 2 {
        Err(EvalErrorView::WrongNumArgs(exact_arity_message(name, 2, args.len())))
    } else {
        Ok(ValueView::Boolean(args[0].same_as(args[1]) != negated))
    }
}

/// `=`: whether two values are equal.
pub fn builtin_eq(args: Vec<Value>) -> (r: Result<Value, EvalError>)
    ensures
        match equality_spec("="@, value_views(args@), false) {
            Ok(v) => r matches Ok(got) && got@ == v,
            Err(e) => r matches Err(got) && got@ == e,
        },
{
    check_num_args("=", args.as_slice(), 2)?;
    Ok(Value::Boolean(args[0].same_as(&args[1])))
}

/// `!=`: whether two values differ.
pub fn builtin_ne(args: Vec<Value>) -> (r: Result<Value, EvalError>)
    ensures
        match equality_spec("!="@, value_views(args@), true) {
            Ok(v) => r matches Ok(got) && got@ == v,
            Err(e) => r matches Err(got) && got@ == e,
        },
{
    check_num_args("!=", args.as_slice(), 2)?;
    Ok(Value::Boolean(!args[0].same_as(&args[1])))
}

/// The four orders that the comparisons decide.
#[derive(Clone, Copy, Debug, PartialEq, Eq)]
pub enum Relation {
    Greater,
    Less,
    GreaterOrEqual,
    LessOrEqual,
}

impl Relation {
    /// Whether the relation holds of `a` and `b`, in this order.
    pub open spec fn holds(self, a: Number, b: Number) -> bool {
        match self {
            Relation::Greater => b.less_than(a),
            Relation::Less => a.less_than(b),
            Relation::GreaterOrEqual => b.at_most(a),
            Relation::LessOrEqual => a.at_most(b),
        }
    }
}

/// What a comparison answers.
pub open spec fn comparison_spec(
    name: Seq<char>,
    args: Seq<ValueView>,
    relation: Relation,
) -> Result<ValueView, EvalErrorView> {
    match two_numbers(name, args) {
        Err(e) => Err(e),
        Ok((a, b)) => Ok(ValueView::Boolean(relation.holds(a, b))),
    }
}

/// `>`: exactly two numbers.
pub fn builtin_gt(args: Vec<Value>) -> (r: Result<Value, EvalError>)
    ensures
        match comparison_spec(">"@, value_views(args@), Relation::Greater) {
            Ok(v) => r matches Ok(got) && got@ == v,
            Err(e) => r matches Err(got) && got@ == e,
        },
{
    let (a, b) = get_two_num_args(">", args.as_slice())?;
    Ok(Value::Boolean(b.less_than(a)))
}

/// `<`: exactly two numbers.
pub fn builtin_lt(args: Vec<Value>) -> (r: Result<Value, EvalError>)
    ensures
        match comparison_spec("<"@, value_views(args@), Relation::Less) {
            Ok(v) => r matches Ok(got) && got@ == v,
            Err(e) => r matches Err(got) && got@ == e,
        },
{
    let (a, b) = get_two_num_args("<", args.as_slice())?;
    Ok(Value::Boolean(a.less_than(b)))
}

/// `>=`: exactly two numbers.
pub fn builtin_ge(args: Vec<Value>) -> (r: Result<Value, EvalError>)
    ensures
        match comparison_spec(">="@, value_views(args@), Relation::GreaterOrEqual) {
            Ok(v) => r matches Ok(got) && got@ == v,
            Err(e) => r matches Err(got) && got@ == e,
        },
{
    let (a, b) = get_two_num_args(">=", args.as_slice())?;
    Ok(Value::Boolean(b.at_most(a)))
}

/// `<=`: exactly two numbers.
pub fn builtin_le(args: Vec<Value>) -> (r: Result<Value, EvalError>)
    ensures
        match comparison_spec("<="@, value_views(args@), Relation::LessOrEqual) {
            Ok(v) => r matches Ok(got) && got@ == v,
            Err(e) => r matches Err(got) && got@ == e,
        },
{
    let (a, b) = get_two_num_args("<=", args.as_slice())?;
    Ok(Value::Boolean(a.at_most(b)))
}

/// The pieces that show the first `count` arguments, with one space between
/// neighbours.
pub open spec fn line_of(args: Seq<ValueView>, lambdas: Seq<LambdaView>, count: int) -> Seq<
    PieceView,
>
    decreases count,
{
    if count <= 0 {
        Seq::empty()
    } else if count == 1 {
        seq![shown(args[0], lambdas)]
    } else {
        line_of(args, lambdas, count - 1).push(PieceView::Text(" "@)).push(
            shown(args[count - 1], lambdas),
        )
    }
}

/// What `print` writes: its arguments as they are shown, with one space
/// between neighbours, and a line feed at the end.
pub open spec fn print_spec(args: Seq<ValueView>, lambdas: Seq<LambdaView>) -> Seq<PieceView> {
    line_of(args, lambdas, args.len() as int).push(PieceView::Text("\n"@))
}

/// `print`: any number of values of any kind. It answers with the line to
/// write; it reads its arguments and changes nothing.
pub fn builtin_print(args: Vec<Value>, lambdas: &Vec<Lambda>) -> (r: Vec<Piece>)
    ensures
        piece_views(r@) == print_spec(value_views(args@), lambda_views(lambdas@)),
{
    let mut pieces: Vec<Piece> = Vec::new();
    let mut i: usize = 0;
    while i < args.len()
        invariant
            i <= args.len(),
            piece_views(pieces@) == line_of(
                value_views(args@),
                lambda_views(lambdas@),
                i as int,
            ),
        decreases args.len() - i,
    {
        let ghost before = piece_views(pieces@);
        if i > 0 {
            pieces.push(Piece::Text(String::from_str(" ")));
        }
        pieces.push(show(&args[i], lambdas));
        assert(piece_views(pieces@) =~= line_of(
            value_views(args@),
            lambda_views(lambdas@),
            i + 1,
        )) by {
            if i == 0 {
                assert(before =~= Seq::<PieceView>::empty());
            }
        }
        i += 1;
    }
    let ghost line = piece_views(pieces@);
    pieces.push(Piece::Text(String::from_str("\n")));
    assert(piece_views(pieces@) =~= line.push(PieceView::Text("\n"@)));
    pieces
}

} // verus!
