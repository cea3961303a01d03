use lisp::ast::Expression;
use lisp::evaluator::builtins::{
    Computation, Reply, Step, builtin_add, builtin_div, builtin_eq, builtin_ge, builtin_gt,
    builtin_le, builtin_lt, builtin_mul, builtin_ne, builtin_print, builtin_sub, check_min_args,
    check_num_args, get_all_num_args, get_num_arg, get_two_num_args,
};
use lisp::evaluator::value::{Lambda, inspect, show};
use lisp::evaluator::{Builtin, Callable, EvalError, Piece, Request, Value};
use lisp::number::{Number, Operation};
use lisp::text::decimal_text;

fn number(x: f64) -> Number {
    Number::from_bits(x.to_bits())
}

fn num(x: f64) -> Value {
    Value::Number(number(x))
}

fn step(operation: Operation, operand: f64) -> Step {
    Step { operation, operand: number(operand), operand_first: false }
}

fn piece(s: &str) -> Piece {
    Piece::Text(s.to_string())
}

#[test]
fn check_num_args_wants_the_exact_count() {
    assert_eq!(check_num_args("f", &vec![num(1.0), num(2.0)], 2), Ok(()));
    assert_eq!(
        check_num_args("f", &vec![num(1.0)], 2),
        Err(EvalError::WrongNumArgs("f expects 2 arguments, but got 1".to_string()))
    );
    assert_eq!(
        check_num_args("g", &vec![], 0),
        Ok(())
    );
}

#[test]
fn check_min_args_wants_at_least_the_count() {
    assert_eq!(check_min_args("f", &vec![num(1.0), num(2.0)], 1), Ok(()));
    assert_eq!(check_min_args("f", &vec![num(1.0)], 1), Ok(()));
    assert_eq!(
        check_min_args("f", &vec![], 1),
        Err(EvalError::WrongNumArgs("f expects at least 1 arguments, but got 0".to_string()))
    );
}

#[test]
fn get_num_arg_takes_numbers_only() {
    assert_eq!(get_num_arg("f", &num(2.0)), Ok(number(2.0)));
    assert_eq!(
        get_num_arg("f", &Value::Nil),
        Err(EvalError::TypeError("f expects numbers".to_string()))
    );
}

#[test]
fn get_two_num_args_takes_two_numbers() {
    assert_eq!(get_two_num_args("f", &vec![num(1.0), num(2.0)]), Ok((number(1.0), number(2.0))));
    assert_eq!(
        get_two_num_args("f", &vec![num(1.0), Value::Boolean(true)]),
        Err(EvalError::TypeError("f expects numbers".to_string()))
    );
    assert_eq!(
        get_two_num_args("f", &vec![Value::Nil]),
        Err(EvalError::WrongNumArgs("f expects 2 arguments, but got 1".to_string()))
    );
}

#[test]
fn get_all_num_args_takes_numbers_only() {
    assert_eq!(get_all_num_args("f", vec![]), Ok(vec![]));
    assert_eq!(
        get_all_num_args("f", vec![num(1.0), num(2.0)]),
        Ok(vec![number(1.0), number(2.0)])
    );
    assert_eq!(
        get_all_num_args("f", vec![num(1.0), Value::Nil, num(2.0)]),
        Err(EvalError::TypeError("f expects numbers".to_string()))
    );
}

#[test]
fn add_starts_from_zero() {
    assert_eq!(
        builtin_add(vec![]),
        Ok(Computation { accumulator: number(0.0), steps: vec![], next: 0 })
    );
    assert_eq!(
        builtin_add(vec![num(1.0), num(2.0)]),
        Ok(Computation {
            accumulator: number(0.0),
            steps: vec![step(Operation::Add, 1.0), step(Operation::Add, 2.0)],
            next: 0,
        })
    );
}

#[test]
fn mul_starts_from_one() {
    assert_eq!(
        builtin_mul(vec![]),
        Ok(Computation { accumulator: number(1.0), steps: vec![], next: 0 })
    );
    assert_eq!(
        builtin_mul(vec![num(3.0)]),
        Ok(Computation {
            accumulator: number(1.0),
            steps: vec![step(Operation::Multiply, 3.0)],
            next: 0,
        })
    );
}

#[test]
fn sub_negates_one_number() {
    assert_eq!(builtin_sub(vec![num(5.0)]), Ok(Reply::Value(num(-5.0))));
    assert_eq!(builtin_sub(vec![num(-0.0)]), Ok(Reply::Value(num(0.0))));
}

#[test]
fn sub_subtracts_the_sum_of_the_rest() {
    assert_eq!(
        builtin_sub(vec![num(10.0), num(3.0), num(2.0)]),
        Ok(Reply::Compute(Computation {
            accumulator: number(0.0),
            steps: vec![
                step(Operation::Add, 3.0),
                step(Operation::Add, 2.0),
                Step { operation: Operation::Subtract, operand: number(10.0), operand_first: true },
            ],
            next: 0,
        }))
    );
}

#[test]
fn div_divides_two_numbers() {
    assert_eq!(
        builtin_div(vec![num(10.0), num(4.0)]),
        Ok(Computation {
            accumulator: number(10.0),
            steps: vec![step(Operation::Divide, 4.0)],
            next: 0,
        })
    );
    assert_eq!(builtin_div(vec![num(10.0), num(0.0)]), Err(EvalError::DivisionByZero));
    assert_eq!(builtin_div(vec![num(0.0), num(-0.0)]), Err(EvalError::DivisionByZero));
}

#[test]
fn a_computation_asks_step_by_step() {
    let mut c = match builtin_sub(vec![num(10.0), num(3.0)]) {
        Ok(Reply::Compute(c)) => c,
        other => panic!("{:?}", other),
    };
    assert_eq!(
        c.pending(),
        Some(Request { operation: Operation::Add, left: number(0.0), right: number(3.0) })
    );
    c.supply(number(3.0));
    assert_eq!(
        c.pending(),
        Some(Request { operation: Operation::Subtract, left: number(10.0), right: number(3.0) })
    );
    c.supply(number(7.0));
    assert_eq!(c.pending(), None);
    assert_eq!(c.accumulator, number(7.0));
    c.supply(number(100.0));
    assert_eq!(c.accumulator, number(7.0));
    assert_eq!(c.clone(), c);
}

#[test]
fn eq_and_ne() {
    assert_eq!(builtin_eq(vec![num(1.0), num(1.0)]), Ok(Value::Boolean(true)));
    assert_eq!(builtin_eq(vec![num(1.0), Value::Nil]), Ok(Value::Boolean(false)));
    assert_eq!(builtin_ne(vec![num(1.0), num(1.0)]), Ok(Value::Boolean(false)));
    assert_eq!(builtin_ne(vec![num(1.0), Value::Nil]), Ok(Value::Boolean(true)));
    assert_eq!(
        builtin_eq(vec![num(f64::NAN), num(f64::NAN)]),
        Ok(Value::Boolean(false))
    );
    assert_eq!(
        builtin_ne(vec![num(f64::NAN), num(f64::NAN)]),
        Ok(Value::Boolean(true))
    );
}

#[test]
fn the_four_orders() {
    let pairs = [(1.0, 2.0), (2.0, 1.0), (2.0, 2.0), (f64::NAN, 1.0), (-0.0, 0.0)];
    for (a, b) in pairs {
        assert_eq!(builtin_gt(vec![num(a), num(b)]), Ok(Value::Boolean(a > b)));
        assert_eq!(builtin_lt(vec![num(a), num(b)]), Ok(Value::Boolean(a < b)));
        assert_eq!(builtin_ge(vec![num(a), num(b)]), Ok(Value::Boolean(a >= b)));
        assert_eq!(builtin_le(vec![num(a), num(b)]), Ok(Value::Boolean(a <= b)));
    }
}

#[test]
fn values_are_shown() {
    let lambdas = vec![
        Lambda { params: vec![], body: vec![Expression::Boolean(true)], env: 0 },
        Lambda {
            params: vec!["x".to_string(), "y".to_string(), "z".to_string()],
            body: vec![Expression::Boolean(true)],
            env: 0,
        },
    ];
    assert_eq!(show(&num(1.5), &lambdas), Piece::Number(number(1.5)));
    assert_eq!(show(&Value::String("a b".to_string()), &lambdas), piece("a b"));
    assert_eq!(show(&Value::Boolean(true), &lambdas), piece("true"));
    assert_eq!(show(&Value::Boolean(false), &lambdas), piece("false"));
    assert_eq!(show(&Value::Nil, &lambdas), piece("nil"));
    assert_eq!(
        show(&Value::Function(Callable::Builtin(Builtin::Add)), &lambdas),
        piece("#<builtin-function>")
    );
    assert_eq!(show(&Value::Function(Callable::Lambda(0)), &lambdas), piece("#<lambda ()>"));
    assert_eq!(show(&Value::Function(Callable::Lambda(1)), &lambdas), piece("#<lambda (x y z)>"));
    assert_eq!(show(&Value::Function(Callable::Lambda(2)), &lambdas), piece("#<lambda ()>"));
}

#[test]
fn print_makes_one_line() {
    let lambdas: Vec<Lambda> = vec![];
    assert_eq!(builtin_print(vec![], &lambdas), vec![piece("\n")]);
    assert_eq!(builtin_print(vec![Value::Nil], &lambdas), vec![piece("nil"), piece("\n")]);
    assert_eq!(
        builtin_print(vec![num(1.0), Value::String("a".to_string()), Value::Nil], &lambdas),
        vec![
            Piece::Number(number(1.0)),
            piece(" "),
            piece("a"),
            piece(" "),
            piece("nil"),
            piece("\n"),
        ]
    );
}

#[test]
fn numbers_are_written_in_decimal() {
    assert_eq!(decimal_text(0), "0");
    assert_eq!(decimal_text(7), "7");
    assert_eq!(decimal_text(10), "10");
    assert_eq!(decimal_text(1234567890), "1234567890");
    assert_eq!(decimal_text(usize::MAX), usize::MAX.to_string());
}

#[test]
fn values_are_inspected() {
    assert_eq!(
        inspect(&num(1.0)),
        vec![piece("Number("), Piece::Inspected(number(1.0)), piece(")")]
    );
    assert_eq!(
        inspect(&Value::String("s".to_string())),
        vec![piece("String("), Piece::Quoted("s".to_string()), piece(")")]
    );
    assert_eq!(inspect(&Value::Boolean(true)), vec![piece("Boolean(true)")]);
    assert_eq!(inspect(&Value::Boolean(false)), vec![piece("Boolean(false)")]);
    assert_eq!(inspect(&Value::Nil), vec![piece("Nil")]);
    assert_eq!(
        inspect(&Value::Function(Callable::Builtin(Builtin::Add))),
        vec![piece("Function(#<builtin-function>)")]
    );
    assert_eq!(
        inspect(&Value::Function(Callable::Native(3))),
        vec![piece("Function(#<builtin-function>)")]
    );
    assert_eq!(inspect(&Value::Function(Callable::Lambda(0))), vec![piece("Function(#<lambda>)")]);
}
