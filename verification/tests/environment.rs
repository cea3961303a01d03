use lisp::evaluator::{Builtin, Callable, Environment, EvalError, Value};
use lisp::number::Number;

fn num(x: f64) -> Value {
    Value::Number(Number::from_bits(x.to_bits()))
}

fn undefined(name: &str) -> EvalError {
    EvalError::UndefinedVariable(name.to_string())
}

#[test]
fn a_new_environment_binds_the_builtins() {
    let env = Environment::new();
    assert_eq!(env.len(), 1);
    let expected = [
        ("+", Builtin::Add),
        ("-", Builtin::Subtract),
        ("*", Builtin::Multiply),
        ("/", Builtin::Divide),
        ("=", Builtin::Equal),
        ("!=", Builtin::NotEqual),
        (">", Builtin::Greater),
        ("<", Builtin::Less),
        (">=", Builtin::GreaterOrEqual),
        ("<=", Builtin::LessOrEqual),
        ("print", Builtin::Print),
    ];
    for (name, builtin) in expected {
        assert_eq!(env.get(0, name), Ok(Value::Function(Callable::Builtin(builtin))));
    }
}

#[test]
fn a_new_environment_binds_nothing_else() {
    let env = Environment::new();
    assert_eq!(env.get(0, "undefined_name"), Err(undefined("undefined_name")));
    assert_eq!(env.get(0, ""), Err(undefined("")));
    assert_eq!(env.get(0, "++"), Err(undefined("++")));
    assert_eq!(env.get(0, "Print"), Err(undefined("Print")));
}

#[test]
fn define_binds_and_rebinds() {
    let mut env = Environment::new();
    env.define(0, "x".to_string(), num(1.0));
    assert_eq!(env.get(0, "x"), Ok(num(1.0)));
    env.define(0, "x".to_string(), num(2.0));
    assert_eq!(env.get(0, "x"), Ok(num(2.0)));
    env.define(0, "y".to_string(), Value::Nil);
    assert_eq!(env.get(0, "x"), Ok(num(2.0)));
    assert_eq!(env.get(0, "y"), Ok(Value::Nil));
}

#[test]
fn lookup_walks_outward() {
    let mut env = Environment::new();
    env.define(0, "x".to_string(), num(1.0));
    let inner = env.new_with_parent(0);
    assert_eq!(inner, 1);
    let innermost = env.new_with_parent(inner);
    assert_eq!(innermost, 2);
    assert_eq!(env.len(), 3);
    assert_eq!(env.get(innermost, "x"), Ok(num(1.0)));
    env.define(inner, "y".to_string(), num(5.0));
    assert_eq!(env.get(innermost, "y"), Ok(num(5.0)));
    assert_eq!(env.get(inner, "y"), Ok(num(5.0)));
    assert_eq!(env.get(0, "y"), Err(undefined("y")));
    assert_eq!(env.get(innermost, "z"), Err(undefined("z")));
}

#[test]
fn define_shadows_and_leaves_the_outer_binding() {
    let mut env = Environment::new();
    env.define(0, "x".to_string(), num(1.0));
    let inner = env.new_with_parent(0);
    env.define(inner, "x".to_string(), num(2.0));
    assert_eq!(env.get(inner, "x"), Ok(num(2.0)));
    assert_eq!(env.get(0, "x"), Ok(num(1.0)));
}

#[test]
fn sibling_scopes_do_not_see_each_other() {
    let mut env = Environment::new();
    let first = env.new_with_parent(0);
    let second = env.new_with_parent(0);
    env.define(first, "x".to_string(), num(1.0));
    assert_eq!(env.get(first, "x"), Ok(num(1.0)));
    assert_eq!(env.get(second, "x"), Err(undefined("x")));
}

#[test]
fn set_rebinds_where_the_name_is_bound() {
    let mut env = Environment::new();
    env.define(0, "x".to_string(), num(1.0));
    let inner = env.new_with_parent(0);
    assert_eq!(env.set(inner, "x".to_string(), num(3.0)), Ok(()));
    assert_eq!(env.get(0, "x"), Ok(num(3.0)));
    assert_eq!(env.get(inner, "x"), Ok(num(3.0)));
    env.define(inner, "x".to_string(), num(4.0));
    assert_eq!(env.set(inner, "x".to_string(), num(5.0)), Ok(()));
    assert_eq!(env.get(inner, "x"), Ok(num(5.0)));
    assert_eq!(env.get(0, "x"), Ok(num(3.0)));
}

#[test]
fn set_does_not_make_a_binding() {
    let mut env = Environment::new();
    let inner = env.new_with_parent(0);
    assert_eq!(env.set(inner, "x".to_string(), num(3.0)), Err(undefined("x")));
    assert_eq!(env.get(inner, "x"), Err(undefined("x")));
    assert_eq!(env.get(0, "x"), Err(undefined("x")));
}

#[test]
fn a_scope_that_does_not_exist_binds_nothing() {
    let mut env = Environment::new();
    assert_eq!(env.get(5, "+"), Err(undefined("+")));
    env.define(5, "x".to_string(), num(1.0));
    assert_eq!(env.len(), 1);
    assert_eq!(env.get(5, "x"), Err(undefined("x")));
    assert_eq!(env.get(0, "x"), Err(undefined("x")));
    assert_eq!(env.set(5, "+".to_string(), num(1.0)), Err(undefined("+")));
}

#[test]
fn a_parent_that_is_not_earlier_is_not_followed() {
    let mut env = Environment::new();
    let own = env.new_with_parent(1);
    assert_eq!(own, 1);
    assert_eq!(env.get(own, "+"), Err(undefined("+")));
    let later = env.new_with_parent(7);
    assert_eq!(env.get(later, "+"), Err(undefined("+")));
}

#[test]
fn a_clone_is_on_its_own() {
    let mut env = Environment::new();
    env.define(0, "x".to_string(), num(1.0));
    let inner = env.new_with_parent(0);
    env.define(inner, "y".to_string(), num(2.0));
    let mut copy = env.clone();
    assert_eq!(copy.len(), 2);
    assert_eq!(copy.get(inner, "x"), Ok(num(1.0)));
    assert_eq!(copy.get(inner, "y"), Ok(num(2.0)));
    copy.define(0, "x".to_string(), num(5.0));
    env.define(inner, "y".to_string(), num(7.0));
    assert_eq!(env.get(0, "x"), Ok(num(1.0)));
    assert_eq!(copy.get(0, "x"), Ok(num(5.0)));
    assert_eq!(env.get(inner, "y"), Ok(num(7.0)));
    assert_eq!(copy.get(inner, "y"), Ok(num(2.0)));
}

#[test]
fn an_environment_can_be_shown() {
    let mut env = Environment::new();
    env.define(0, "answer".to_string(), num(42.0));
    let shown = format!("{:?}", env);
    assert!(shown.contains("answer"));
    assert!(shown.contains("print"));
}

#[test]
fn environments_are_equal_by_what_they_bind() {
    let mut first = Environment::new();
    let mut second = Environment::new();
    assert!(first == second);
    first.define(0, "x".to_string(), num(1.0));
    assert!(first != second);
    first.define(0, "y".to_string(), num(2.0));
    second.define(0, "y".to_string(), num(2.0));
    second.define(0, "x".to_string(), num(1.0));
    assert!(first == second);
    second.define(0, "x".to_string(), num(3.0));
    assert!(first != second);
    second.define(0, "x".to_string(), num(1.0));
    assert!(first == second);
    assert!(first.clone() == first);
}

#[test]
fn environments_differ_by_their_scopes() {
    let mut first = Environment::new();
    let mut second = Environment::new();
    let a = first.new_with_parent(0);
    assert!(first != second);
    let b = second.new_with_parent(0);
    assert!(first == second);
    first.define(a, "x".to_string(), Value::Nil);
    second.define(b, "x".to_string(), Value::Boolean(false));
    assert!(first != second);
    let mut third = Environment::new();
    third.new_with_parent(1);
    let mut fourth = Environment::new();
    fourth.new_with_parent(0);
    assert!(third != fourth);
}

#[test]
fn identical_values_have_the_same_bits() {
    assert!(num(0.0).identical(&num(0.0)));
    assert!(!num(0.0).identical(&num(-0.0)));
    assert!(num(f64::NAN).identical(&num(f64::NAN)));
    assert!(!num(1.0).identical(&Value::Nil));
    assert!(Value::String("a".to_string()).identical(&Value::String("a".to_string())));
    assert!(!Value::String("a".to_string()).identical(&Value::String("b".to_string())));
    assert!(Value::Nil.identical(&Value::Nil));
    assert!(Value::Boolean(true).identical(&Value::Boolean(true)));
    assert!(!Value::Boolean(true).identical(&Value::Boolean(false)));
}
