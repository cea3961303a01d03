use lisp::ast::Expression;
use lisp::evaluator::{Action, Builtin, Callable, EvalError, Evaluator, Event, Piece, Request, Value};
use lisp::number::{Number, Operation};
use lisp::parser::Parser;
use lisp::tokenizer::{Lexeme, Token, Tokenizer};

fn number(x: f64) -> Number {
    Number::from_bits(x.to_bits())
}

fn float(n: Number) -> f64 {
    f64::from_bits(n.to_bits())
}

fn compute(request: Request) -> Number {
    let left = float(request.left);
    let right = float(request.right);
    number(match request.operation {
        Operation::Add => left + right,
        Operation::Subtract => left - right,
        Operation::Multiply => left * right,
        Operation::Divide => left / right,
    })
}

fn write(pieces: &Vec<Piece>, out: &mut String) {
    for piece in pieces {
        match piece {
            Piece::Text(text) => out.push_str(text),
            Piece::Number(n) => out.push_str(&format!("{}", float(*n))),
            Piece::Inspected(n) => out.push_str(&format!("{:?}", float(*n))),
            Piece::Quoted(text) => out.push_str(&format!("{:?}", text)),
        }
    }
}

fn parse(source: &str) -> Vec<Expression> {
    let lexemes = Tokenizer::new(source).tokenize().unwrap();
    let mut tokens: Vec<Token> = Vec::new();
    for lexeme in lexemes {
        let value = match &lexeme {
            Lexeme::Numeral { text, .. } => text.parse::<f64>().ok().map(number),
            Lexeme::Token(_) => None,
        };
        tokens.push(lexeme.resolve(value).unwrap());
    }
    Parser::new(tokens).parse().unwrap()
}

fn call_native(native: usize, args: Vec<Value>) -> Result<Value, EvalError> {
    match native {
        1 => Ok(Value::Number(number(args.len() as f64))),
        2 => match args.first() {
            Some(Value::Number(n)) => Ok(Value::Number(number(float(*n).sqrt()))),
            _ => Err(EvalError::TypeError("sqrt expects numbers".to_string())),
        },
        _ => Err(EvalError::SpecialFormError(format!("no procedure {}", native))),
    }
}

fn finish(evaluator: &mut Evaluator, out: &mut String) -> Result<Value, EvalError> {
    let mut event = Event::Resume;
    loop {
        match evaluator.run(event, 1000) {
            Action::Proceed => event = Event::Resume,
            Action::Compute(request) => event = Event::Number(compute(request)),
            Action::Print(pieces) => {
                write(&pieces, out);
                event = Event::Printed;
            }
            Action::Call { native, args } => event = Event::Returned(call_native(native, args)),
            Action::Finish(result) => return result,
        }
    }
}

fn eval_in(evaluator: &mut Evaluator, source: &str, out: &mut String) -> Result<Value, EvalError> {
    let program = parse(source);
    evaluator.eval_program(&program);
    finish(evaluator, out)
}

fn eval(source: &str) -> Result<Value, EvalError> {
    let mut out = String::new();
    eval_in(&mut Evaluator::new(), source, &mut out)
}

fn num(x: f64) -> Result<Value, EvalError> {
    Ok(Value::Number(number(x)))
}

fn text(s: &str) -> Result<Value, EvalError> {
    Ok(Value::String(s.to_string()))
}

#[test]
fn literals_evaluate_to_themselves() {
    assert_eq!(eval("42"), num(42.0));
    assert_eq!(eval("3.25"), num(3.25));
    assert_eq!(eval("\"hello world\""), text("hello world"));
    assert_eq!(eval("true"), Ok(Value::Boolean(true)));
    assert_eq!(eval("false"), Ok(Value::Boolean(false)));
}

#[test]
fn literals_do_not_depend_on_the_scope() {
    let mut evaluator = Evaluator::new();
    for scope in [0usize, 1, 7, usize::MAX] {
        let mut out = String::new();
        evaluator.evaluate(&Expression::Number(number(1.5)), scope);
        assert_eq!(finish(&mut evaluator, &mut out), num(1.5));
        evaluator.evaluate(&Expression::String("s".to_string()), scope);
        assert_eq!(finish(&mut evaluator, &mut out), text("s"));
        evaluator.evaluate(&Expression::Boolean(true), scope);
        assert_eq!(finish(&mut evaluator, &mut out), Ok(Value::Boolean(true)));
    }
}

#[test]
fn empty_program_is_nil() {
    assert_eq!(eval(""), Ok(Value::Nil));
    assert_eq!(eval("   \n\t "), Ok(Value::Nil));
}

#[test]
fn empty_list_is_nil() {
    assert_eq!(eval("()"), Ok(Value::Nil));
}

#[test]
fn program_result_is_that_of_the_last_expression() {
    assert_eq!(eval("1 2 3"), num(3.0));
    assert_eq!(eval("1 (let x 2)"), Ok(Value::Nil));
}

#[test]
fn scoping_is_lexical() {
    assert_eq!(eval("(let x 1) (let f (lambda () x)) (let x 2) (f)"), num(2.0));
    assert_eq!(
        eval("(let x 1) (let f (lambda () x)) (let g (lambda (x) (f))) (g 2)"),
        num(1.0)
    );
}

#[test]
fn closures_keep_the_scope_of_their_call() {
    let source = "(let adder (lambda (n) (lambda (x) (+ x n)))) \
                  (let add2 (adder 2)) (let add10 (adder 10)) \
                  (+ (add2 1) (add10 1))";
    assert_eq!(eval(source), num(14.0));
}

#[test]
fn let_inside_a_lambda_leaves_the_global_alone() {
    assert_eq!(eval("(let x 1) (let f (lambda () (let x 2) x)) (f)"), num(2.0));
    assert_eq!(eval("(let x 1) (let f (lambda () (let x 2) x)) (f) x"), num(1.0));
}

#[test]
fn let_gives_nil_and_binds() {
    assert_eq!(eval("(let x 5)"), Ok(Value::Nil));
    assert_eq!(eval("(let x 5) x"), num(5.0));
    assert_eq!(eval("(let x 5) (let x 6) x"), num(6.0));
}

#[test]
fn let_may_rebind_a_parameter() {
    assert_eq!(eval("((lambda (x) (let x 9) x) 1)"), num(9.0));
}

#[test]
fn bindings_persist_between_programs() {
    let mut evaluator = Evaluator::new();
    let mut out = String::new();
    assert_eq!(eval_in(&mut evaluator, "(let x 3)", &mut out), Ok(Value::Nil));
    assert_eq!(eval_in(&mut evaluator, "(* x x)", &mut out), num(9.0));
}

#[test]
fn evaluators_do_not_share_bindings() {
    let mut first = Evaluator::new();
    let mut second = Evaluator::new();
    let mut out = String::new();
    assert_eq!(eval_in(&mut first, "(let x 3)", &mut out), Ok(Value::Nil));
    assert_eq!(
        eval_in(&mut second, "x", &mut out),
        Err(EvalError::UndefinedVariable("x".to_string()))
    );
}

#[test]
fn lambda_arity_is_enforced() {
    assert_eq!(
        eval("(let f (lambda (a b) a)) (f 1)"),
        Err(EvalError::WrongNumArgs("Function expects 2 arguments, but got 1".to_string()))
    );
    assert_eq!(
        eval("(let f (lambda (a b) a)) (f 1 2 3)"),
        Err(EvalError::WrongNumArgs("Function expects 2 arguments, but got 3".to_string()))
    );
    assert_eq!(eval("(let f (lambda (a b) a)) (f 1 2)"), num(1.0));
}

#[test]
fn arity_message_counts_in_decimal() {
    assert_eq!(
        eval("((lambda () 1) 1 2 3 4 5 6 7 8 9 10 11 12)"),
        Err(EvalError::WrongNumArgs("Function expects 0 arguments, but got 12".to_string()))
    );
}

#[test]
fn only_true_is_true() {
    assert_eq!(eval("(if 0 \"a\" \"b\")"), text("b"));
    assert_eq!(eval("(if \"x\" \"a\" \"b\")"), text("b"));
    assert_eq!(eval("(if false \"a\" \"b\")"), text("b"));
    assert_eq!(eval("(if true \"a\" \"b\")"), text("a"));
    assert_eq!(eval("(if 1 \"a\" \"b\")"), text("b"));
    assert_eq!(eval("(if () \"a\" \"b\")"), text("b"));
}

#[test]
fn if_without_else_is_nil() {
    assert_eq!(eval("(if false 1)"), Ok(Value::Nil));
    assert_eq!(eval("(if true 1)"), num(1.0));
}

#[test]
fn if_evaluates_one_branch_only() {
    assert_eq!(eval("(if true 1 (undefined))"), num(1.0));
    assert_eq!(eval("(if false (undefined) 2)"), num(2.0));
}

#[test]
fn if_arity() {
    let message = "if expects 2 or 3 arguments (condition then-expr [else-expr])".to_string();
    assert_eq!(eval("(if)"), Err(EvalError::WrongNumArgs(message.clone())));
    assert_eq!(eval("(if true)"), Err(EvalError::WrongNumArgs(message.clone())));
    assert_eq!(eval("(if true 1 2 3)"), Err(EvalError::WrongNumArgs(message)));
}

#[test]
fn let_is_checked() {
    assert_eq!(
        eval("(let x)"),
        Err(EvalError::WrongNumArgs("let expects 2 arguments (variable value)".to_string()))
    );
    assert_eq!(
        eval("(let x 1 2)"),
        Err(EvalError::WrongNumArgs("let expects 2 arguments (variable value)".to_string()))
    );
    assert_eq!(
        eval("(let 1 2)"),
        Err(EvalError::TypeError("let expects an identifier as variable name".to_string()))
    );
    assert_eq!(
        eval("(let (x) 2)"),
        Err(EvalError::TypeError("let expects an identifier as variable name".to_string()))
    );
}

#[test]
fn lambda_is_checked() {
    assert_eq!(
        eval("(lambda (x))"),
        Err(EvalError::WrongNumArgs("lambda expects at least (params) body".to_string()))
    );
    assert_eq!(
        eval("(lambda x x)"),
        Err(EvalError::TypeError("lambda parameters must be a list".to_string()))
    );
    assert_eq!(
        eval("(lambda (x 1) x)"),
        Err(EvalError::TypeError("lambda parameters must be identifiers".to_string()))
    );
}

#[test]
fn lambda_does_not_evaluate_its_body() {
    assert_eq!(eval("(lambda () (undefined))"), Ok(Value::Function(Callable::Lambda(0))));
}

#[test]
fn lambda_body_is_a_sequence() {
    assert_eq!(eval("((lambda (x) (let y (* x 2)) (+ y 1)) 5)"), num(11.0));
}

#[test]
fn arguments_are_evaluated_left_to_right_in_the_callers_scope() {
    let mut evaluator = Evaluator::new();
    let mut out = String::new();
    let source = "(let f (lambda (a b) b)) (let x 7) (f (print 1) (print x))";
    assert_eq!(eval_in(&mut evaluator, source, &mut out), Ok(Value::Nil));
    assert_eq!(out, "1\n7\n");
}

#[test]
fn arithmetic_identities() {
    assert_eq!(eval("(+)"), num(0.0));
    assert_eq!(eval("(*)"), num(1.0));
    assert_eq!(eval("(- 5)"), num(-5.0));
    assert_eq!(eval("(- 10 3 2)"), num(5.0));
    assert_eq!(eval("(/ 10 0)"), Err(EvalError::DivisionByZero));
}

#[test]
fn arithmetic_values() {
    assert_eq!(eval("(+ 1 2 3.5)"), num(6.5));
    assert_eq!(eval("(* 2 3 4)"), num(24.0));
    assert_eq!(eval("(- 10 3)"), num(7.0));
    assert_eq!(eval("(/ 10 4)"), num(2.5));
    assert_eq!(eval("(/ 1 3)"), num(1.0 / 3.0));
    assert_eq!(eval("(+ 0.1 0.2)"), num(0.1 + 0.2));
    assert_eq!(eval("(- 0)"), num(-0.0));
    assert_eq!(eval("(/ 0 5)"), num(0.0));
}

#[test]
fn division_by_negative_zero_fails() {
    assert_eq!(eval("(/ 1 (- 0))"), Err(EvalError::DivisionByZero));
}

#[test]
fn arithmetic_type_errors() {
    assert_eq!(eval("(+ 1 \"a\")"), Err(EvalError::TypeError("+ expects numbers".to_string())));
    assert_eq!(eval("(* true 2)"), Err(EvalError::TypeError("* expects numbers".to_string())));
    assert_eq!(eval("(- \"a\")"), Err(EvalError::TypeError("- expects numbers".to_string())));
    assert_eq!(eval("(/ 1 \"a\")"), Err(EvalError::TypeError("/ expects numbers".to_string())));
    assert_eq!(eval("(< 1 ())"), Err(EvalError::TypeError("< expects numbers".to_string())));
}

#[test]
fn arithmetic_arity_errors() {
    assert_eq!(
        eval("(-)"),
        Err(EvalError::WrongNumArgs("- expects at least 1 arguments, but got 0".to_string()))
    );
    assert_eq!(
        eval("(/ 1)"),
        Err(EvalError::WrongNumArgs("/ expects 2 arguments, but got 1".to_string()))
    );
    assert_eq!(
        eval("(/ 1 2 3)"),
        Err(EvalError::WrongNumArgs("/ expects 2 arguments, but got 3".to_string()))
    );
    assert_eq!(
        eval("(= 1)"),
        Err(EvalError::WrongNumArgs("= expects 2 arguments, but got 1".to_string()))
    );
    assert_eq!(
        eval("(!= 1 2 3)"),
        Err(EvalError::WrongNumArgs("!= expects 2 arguments, but got 3".to_string()))
    );
    assert_eq!(
        eval("(>= 1)"),
        Err(EvalError::WrongNumArgs(">= expects 2 arguments, but got 1".to_string()))
    );
}

#[test]
fn arity_is_checked_before_the_kind_of_the_arguments() {
    assert_eq!(
        eval("(/ \"a\")"),
        Err(EvalError::WrongNumArgs("/ expects 2 arguments, but got 1".to_string()))
    );
}

#[test]
fn comparisons() {
    assert_eq!(eval("(> 3 2)"), Ok(Value::Boolean(true)));
    assert_eq!(eval("(> 2 3)"), Ok(Value::Boolean(false)));
    assert_eq!(eval("(< 2 3)"), Ok(Value::Boolean(true)));
    assert_eq!(eval("(< 3 3)"), Ok(Value::Boolean(false)));
    assert_eq!(eval("(>= 3 3)"), Ok(Value::Boolean(true)));
    assert_eq!(eval("(>= 2 3)"), Ok(Value::Boolean(false)));
    assert_eq!(eval("(<= 3 3)"), Ok(Value::Boolean(true)));
    assert_eq!(eval("(<= 4 3)"), Ok(Value::Boolean(false)));
    assert_eq!(eval("(< (- 1) 0)"), Ok(Value::Boolean(true)));
    assert_eq!(eval("(< (- 0) 0)"), Ok(Value::Boolean(false)));
    assert_eq!(eval("(<= (- 0) 0)"), Ok(Value::Boolean(true)));
}

#[test]
fn equality_is_structural_for_data() {
    assert_eq!(eval("(= 1 1)"), Ok(Value::Boolean(true)));
    assert_eq!(eval("(= 1 2)"), Ok(Value::Boolean(false)));
    assert_eq!(eval("(= \"a\" \"b\")"), Ok(Value::Boolean(false)));
    assert_eq!(eval("(= \"a\" \"a\")"), Ok(Value::Boolean(true)));
    assert_eq!(eval("(= true true)"), Ok(Value::Boolean(true)));
    assert_eq!(eval("(= true false)"), Ok(Value::Boolean(false)));
    assert_eq!(eval("(= () ())"), Ok(Value::Boolean(true)));
    assert_eq!(eval("(= 1 \"1\")"), Ok(Value::Boolean(false)));
    assert_eq!(eval("(= 0 (- 0))"), Ok(Value::Boolean(true)));
    assert_eq!(eval("(!= 1 2)"), Ok(Value::Boolean(true)));
    assert_eq!(eval("(!= \"a\" \"a\")"), Ok(Value::Boolean(false)));
}

#[test]
fn equality_is_identity_for_functions() {
    assert_eq!(
        eval("(let f (lambda (x) x)) (let g (lambda (x) x)) (= f g)"),
        Ok(Value::Boolean(false))
    );
    assert_eq!(eval("(let f (lambda (x) x)) (= f f)"), Ok(Value::Boolean(true)));
    assert_eq!(eval("(let f (lambda (x) x)) (let g f) (= f g)"), Ok(Value::Boolean(true)));
    assert_eq!(eval("(= + +)"), Ok(Value::Boolean(true)));
    assert_eq!(eval("(= + -)"), Ok(Value::Boolean(false)));
    assert_eq!(eval("(!= + (lambda (x) x))"), Ok(Value::Boolean(true)));
}

#[test]
fn a_number_that_is_not_one_equals_nothing() {
    let nan = Value::Number(number(f64::NAN));
    assert!(!nan.same_as(&nan));
    assert!(!nan.same_as(&Value::Number(number(1.0))));
}

#[test]
fn print_writes_a_line_and_gives_nil() {
    let mut evaluator = Evaluator::new();
    let mut out = String::new();
    let source = "(let x 2) (print 1 \"two\" true () x 2.5 + (lambda (a b) a))";
    assert_eq!(eval_in(&mut evaluator, source, &mut out), Ok(Value::Nil));
    assert_eq!(out, "1 two true nil 2 2.5 #<builtin-function> #<lambda (a b)>\n");
    let mut more = String::new();
    assert_eq!(eval_in(&mut evaluator, "x", &mut more), num(2.0));
    assert_eq!(more, "");
}

#[test]
fn print_without_arguments_writes_an_empty_line() {
    let mut evaluator = Evaluator::new();
    let mut out = String::new();
    assert_eq!(eval_in(&mut evaluator, "(print)", &mut out), Ok(Value::Nil));
    assert_eq!(out, "\n");
}

#[test]
fn print_asks_the_host_and_waits() {
    let mut evaluator = Evaluator::new();
    evaluator.eval_program(&parse("(print 7)"));
    let expected = vec![Piece::Number(number(7.0)), Piece::Text("\n".to_string())];
    assert_eq!(evaluator.run(Event::Resume, 1000), Action::Print(expected.clone()));
    assert_eq!(evaluator.run(Event::Resume, 1000), Action::Print(expected.clone()));
    assert_eq!(evaluator.step(Event::Number(number(1.0))), Action::Print(expected));
    assert_eq!(evaluator.run(Event::Printed, 1000), Action::Finish(Ok(Value::Nil)));
}

#[test]
fn arithmetic_asks_the_host_and_waits() {
    let mut evaluator = Evaluator::new();
    evaluator.eval_program(&parse("(- 10 3 2)"));
    let first = Request { operation: Operation::Add, left: number(0.0), right: number(3.0) };
    assert_eq!(evaluator.run(Event::Resume, 1000), Action::Compute(first));
    assert_eq!(evaluator.run(Event::Printed, 1000), Action::Compute(first));
    let second = Request { operation: Operation::Add, left: number(3.0), right: number(2.0) };
    assert_eq!(evaluator.run(Event::Number(number(3.0)), 1000), Action::Compute(second));
    let third = Request { operation: Operation::Subtract, left: number(10.0), right: number(5.0) };
    assert_eq!(evaluator.run(Event::Number(number(5.0)), 1000), Action::Compute(third));
    assert_eq!(evaluator.run(Event::Number(number(5.0)), 1000), Action::Finish(num(5.0)));
}

#[test]
fn the_host_decides_what_arithmetic_gives() {
    let mut evaluator = Evaluator::new();
    evaluator.eval_program(&parse("(* 2 3)"));
    let first = Request { operation: Operation::Multiply, left: number(1.0), right: number(2.0) };
    assert_eq!(evaluator.run(Event::Resume, 1000), Action::Compute(first));
    let second = Request { operation: Operation::Multiply, left: number(40.0), right: number(3.0) };
    assert_eq!(evaluator.run(Event::Number(number(40.0)), 1000), Action::Compute(second));
    assert_eq!(evaluator.run(Event::Number(number(-1.0)), 1000), Action::Finish(num(-1.0)));
}

#[test]
fn a_finished_evaluator_stays_finished() {
    let mut evaluator = Evaluator::new();
    assert_eq!(evaluator.step(Event::Resume), Action::Finish(Ok(Value::Nil)));
    evaluator.eval_program(&parse("5"));
    assert_eq!(evaluator.run(Event::Resume, 1000), Action::Finish(num(5.0)));
    assert_eq!(evaluator.step(Event::Resume), Action::Finish(num(5.0)));
    assert_eq!(evaluator.step(Event::Printed), Action::Finish(num(5.0)));
    assert_eq!(evaluator.action(), Action::Finish(num(5.0)));
}

#[test]
fn run_stops_when_the_budget_is_used_up() {
    let mut evaluator = Evaluator::new();
    evaluator.eval_program(&parse("(if true 1 2)"));
    assert_eq!(evaluator.run(Event::Resume, 0), Action::Proceed);
    assert_eq!(evaluator.run(Event::Resume, 1), Action::Proceed);
    assert_eq!(evaluator.run(Event::Resume, 1000), Action::Finish(num(1.0)));
}

#[test]
fn a_program_that_never_ends_never_finishes() {
    let mut evaluator = Evaluator::new();
    evaluator.eval_program(&parse("(let loop (lambda () (loop))) (loop)"));
    assert_eq!(evaluator.run(Event::Resume, 10000), Action::Proceed);
    assert_eq!(evaluator.run(Event::Resume, 10000), Action::Proceed);
}

#[test]
fn end_to_end_square() {
    assert_eq!(eval("(let square (lambda (x) (* x x))) (square 7)"), num(49.0));
}

#[test]
fn end_to_end_if() {
    assert_eq!(eval("(if (> 3 2) \"yes\" \"no\")"), text("yes"));
}

#[test]
fn end_to_end_recursion() {
    let source = "(let fact (lambda (n) (if (<= n 1) 1 (* n (fact (- n 1)))))) (fact 10)";
    assert_eq!(eval(source), num(3628800.0));
}

#[test]
fn undefined_variable_is_reported() {
    assert_eq!(
        eval("undefined_name"),
        Err(EvalError::UndefinedVariable("undefined_name".to_string()))
    );
    let mut evaluator = Evaluator::new();
    let mut out = String::new();
    evaluator.evaluate(&Expression::Identifier("undefined_name".to_string()), 0);
    assert_eq!(
        finish(&mut evaluator, &mut out),
        Err(EvalError::UndefinedVariable("undefined_name".to_string()))
    );
}

#[test]
fn a_failure_ends_the_program() {
    let mut evaluator = Evaluator::new();
    let mut out = String::new();
    let source = "(print 1) (undefined) (print 2)";
    assert_eq!(
        eval_in(&mut evaluator, source, &mut out),
        Err(EvalError::UndefinedVariable("undefined".to_string()))
    );
    assert_eq!(out, "1\n");
}

#[test]
fn what_is_no_function_cannot_be_called() {
    assert_eq!(eval("(1 2)"), Err(EvalError::NotCallable(Value::Number(number(1.0)))));
    assert_eq!(eval("(\"f\")"), Err(EvalError::NotCallable(Value::String("f".to_string()))));
    assert_eq!(eval("(true)"), Err(EvalError::NotCallable(Value::Boolean(true))));
    assert_eq!(eval("(())"), Err(EvalError::NotCallable(Value::Nil)));
}

#[test]
fn arguments_are_evaluated_before_the_head_is_checked() {
    assert_eq!(eval("(1 (undefined))"), Err(EvalError::UndefinedVariable("undefined".to_string())));
}

#[test]
fn the_head_of_a_call_may_be_a_list() {
    assert_eq!(eval("((lambda (x) (* x 2)) 4)"), num(8.0));
    assert_eq!(eval("((if true + -) 4 1)"), num(5.0));
}

#[test]
fn builtins_are_bound_in_the_global_scope() {
    assert_eq!(eval("+"), Ok(Value::Function(Callable::Builtin(Builtin::Add))));
    assert_eq!(eval("-"), Ok(Value::Function(Callable::Builtin(Builtin::Subtract))));
    assert_eq!(eval("*"), Ok(Value::Function(Callable::Builtin(Builtin::Multiply))));
    assert_eq!(eval("/"), Ok(Value::Function(Callable::Builtin(Builtin::Divide))));
    assert_eq!(eval("="), Ok(Value::Function(Callable::Builtin(Builtin::Equal))));
    assert_eq!(eval("!="), Ok(Value::Function(Callable::Builtin(Builtin::NotEqual))));
    assert_eq!(eval(">"), Ok(Value::Function(Callable::Builtin(Builtin::Greater))));
    assert_eq!(eval("<"), Ok(Value::Function(Callable::Builtin(Builtin::Less))));
    assert_eq!(eval(">="), Ok(Value::Function(Callable::Builtin(Builtin::GreaterOrEqual))));
    assert_eq!(eval("<="), Ok(Value::Function(Callable::Builtin(Builtin::LessOrEqual))));
    assert_eq!(eval("print"), Ok(Value::Function(Callable::Builtin(Builtin::Print))));
}

#[test]
fn a_builtin_can_be_rebound() {
    assert_eq!(eval("(let + -) (+ 5 2)"), num(3.0));
}

#[test]
fn words_that_start_like_special_forms_are_calls() {
    assert_eq!(eval("(let iff (lambda (x) x)) (iff 3)"), num(3.0));
    assert_eq!(eval("(let lets (lambda (x) x)) (lets 4)"), num(4.0));
    assert_eq!(eval("(ifx 1 2)"), Err(EvalError::UndefinedVariable("ifx".to_string())));
}

#[test]
fn defined_values_are_seen_by_programs() {
    let mut evaluator = Evaluator::new();
    let scope = evaluator.global_scope();
    evaluator.define(scope, "answer".to_string(), Value::Number(number(42.0)));
    let mut out = String::new();
    assert_eq!(eval_in(&mut evaluator, "answer", &mut out), num(42.0));
    assert_eq!(evaluator.environment().len(), 1);
}

fn with_natives() -> Evaluator {
    let mut evaluator = Evaluator::new();
    let scope = evaluator.global_scope();
    evaluator.define(scope, "count".to_string(), Value::Function(Callable::Native(1)));
    evaluator.define(scope, "sqrt".to_string(), Value::Function(Callable::Native(2)));
    evaluator.define(scope, "missing".to_string(), Value::Function(Callable::Native(3)));
    evaluator
}

#[test]
fn the_host_can_add_procedures() {
    let mut evaluator = with_natives();
    let mut out = String::new();
    assert_eq!(eval_in(&mut evaluator, "(count)", &mut out), num(0.0));
    assert_eq!(eval_in(&mut evaluator, "(count 1 \"a\" ())", &mut out), num(3.0));
    assert_eq!(eval_in(&mut evaluator, "(+ (sqrt 16) (sqrt 9))", &mut out), num(7.0));
    assert_eq!(eval_in(&mut evaluator, "((lambda (f x) (f x)) sqrt 4)", &mut out), num(2.0));
}

#[test]
fn a_failure_of_a_procedure_of_the_host_ends_the_program() {
    let mut evaluator = with_natives();
    let mut out = String::new();
    assert_eq!(
        eval_in(&mut evaluator, "(print 1) (sqrt \"x\") (print 2)", &mut out),
        Err(EvalError::TypeError("sqrt expects numbers".to_string()))
    );
    assert_eq!(
        eval_in(&mut evaluator, "(missing)", &mut out),
        Err(EvalError::SpecialFormError("no procedure 3".to_string()))
    );
    assert_eq!(out, "1\n");
}

#[test]
fn a_procedure_of_the_host_gets_its_arguments_in_order() {
    let mut evaluator = with_natives();
    evaluator.eval_program(&parse("(count 1 \"two\" true)"));
    let args = vec![Value::Number(number(1.0)), Value::String("two".to_string()), Value::Boolean(true)];
    assert_eq!(evaluator.run(Event::Resume, 1000), Action::Call { native: 1, args: args.clone() });
    assert_eq!(evaluator.run(Event::Printed, 1000), Action::Call { native: 1, args });
    assert_eq!(
        evaluator.run(Event::Returned(Ok(Value::Nil)), 1000),
        Action::Finish(Ok(Value::Nil))
    );
}

#[test]
fn procedures_of_the_host_are_shown_and_compared_like_builtins() {
    let mut evaluator = with_natives();
    let mut out = String::new();
    assert_eq!(eval_in(&mut evaluator, "(print count)", &mut out), Ok(Value::Nil));
    assert_eq!(out, "#<builtin-function>\n");
    assert_eq!(eval_in(&mut evaluator, "(= count count)", &mut out), Ok(Value::Boolean(true)));
    assert_eq!(eval_in(&mut evaluator, "(= count sqrt)", &mut out), Ok(Value::Boolean(false)));
}

#[test]
fn errors_are_described() {
    let line = |e: EvalError| {
        let mut out = String::new();
        write(&e.describe(), &mut out);
        out
    };
    assert_eq!(line(EvalError::UndefinedVariable("x".to_string())), "Undefined variable: 'x'");
    assert_eq!(line(EvalError::TypeError("+ expects numbers".to_string())), "Type error: + expects numbers");
    assert_eq!(
        line(EvalError::WrongNumArgs("let expects 2 arguments (variable value)".to_string())),
        "Wrong number of arguments: let expects 2 arguments (variable value)"
    );
    assert_eq!(
        line(EvalError::NotCallable(Value::Number(number(1.5)))),
        "Not a callable function: Number(1.5)"
    );
    assert_eq!(
        line(EvalError::NotCallable(Value::Number(number(1.0)))),
        "Not a callable function: Number(1.0)"
    );
    assert_eq!(
        line(EvalError::NotCallable(Value::String("a \"b\"\n".to_string()))),
        "Not a callable function: String(\"a \\\"b\\\"\\n\")"
    );
    assert_eq!(
        line(EvalError::NotCallable(Value::Boolean(true))),
        "Not a callable function: Boolean(true)"
    );
    assert_eq!(
        line(EvalError::NotCallable(Value::Boolean(false))),
        "Not a callable function: Boolean(false)"
    );
    assert_eq!(line(EvalError::NotCallable(Value::Nil)), "Not a callable function: Nil");
    assert_eq!(line(EvalError::SpecialFormError("odd".to_string())), "Special form error: odd");
    assert_eq!(line(EvalError::DivisionByZero), "Division by zero");
}

#[test]
fn the_evaluator_shows_its_closures() {
    let mut evaluator = Evaluator::new();
    let mut out = String::new();
    let f = eval_in(&mut evaluator, "(lambda (a b) a)", &mut out).unwrap();
    assert_eq!(evaluator.show(&f), Piece::Text("#<lambda (a b)>".to_string()));
    assert_eq!(evaluator.show(&Value::Boolean(true)), Piece::Text("true".to_string()));
}

#[test]
fn end_to_end_fibonacci() {
    let source = "(let fib (lambda (n) (if (< n 2) n (+ (fib (- n 1)) (fib (- n 2)))))) (fib 15)";
    assert_eq!(eval(source), num(610.0));
}

#[test]
fn deep_nesting_is_evaluated() {
    let depth = 2000;
    let mut source = String::new();
    for _ in 0..depth {
        source.push_str("(+ 1 ");
    }
    source.push('0');
    for _ in 0..depth {
        source.push(')');
    }
    assert_eq!(eval(&source), num(depth as f64));
}

#[test]
fn deep_recursion_is_evaluated() {
    let source = "(let down (lambda (n) (if (<= n 0) 0 (+ 1 (down (- n 1)))))) (down 3000)";
    assert_eq!(eval(source), num(3000.0));
}

#[test]
fn an_evaluator_can_be_shown() {
    let mut evaluator = Evaluator::new();
    let mut out = String::new();
    assert_eq!(eval_in(&mut evaluator, "(let answer 42)", &mut out), Ok(Value::Nil));
    let shown = format!("{:?}", evaluator);
    assert!(shown.contains("answer"));
}
