//! What an expression asks for: its value at once, a special form, or a call.

use vstd::prelude::*;
use crate::ast::{Expression, ExpressionView, clone_expressions, lemma_list_view, views_of};
use crate::evaluator::environment::{Environment, ScopeView, lookup};
use crate::evaluator::error::{EvalError, EvalErrorView};
use crate::evaluator::value::{Value, ValueView, names_of};
use crate::text::same_text;

verus! {

/// What one expression asks for, before any part of it is evaluated.
#[derive(Debug, PartialEq)]
pub enum Form {
    /// The expression is this value.
    Value(Value),
    /// The expression fails.
    Failure(EvalError),
    /// `(if condition then-branch)` or `(if condition then-branch
    /// else-branch)`.
    If { condition: Expression, then_branch: Expression, else_branch: Option<Expression> },
    /// `(let name value)`.
    Let { name: String, value: Expression },
    /// `(lambda (params) body ...)`.
    Lambda { params: Vec<String>, body: Vec<Expression> },
    /// A call: the procedure first, then its arguments.
    Call { elements: Vec<Expression> },
}

/// What a [`Form`] stands for.
pub enum FormView {
    Value(ValueView),
    Failure(EvalErrorView),
    If {
        condition: ExpressionView,
        then_branch: ExpressionView,
        else_branch: Option<ExpressionView>,
    },
    Let { name: Seq<char>, value: ExpressionView },
    Lambda { params: Seq<Seq<char>>, body: Seq<ExpressionView> },
    Call { elements: Seq<ExpressionView> },
}

/// What an optional expression stands for.
pub open spec fn optional_view(e: Option<Expression>) -> Option<ExpressionView> {
    match e {
        Some(e) => Some(e@),
        None => None,
    }
}

impl View for Form {
    type V = FormView;

    open spec fn view(&self) -> FormView {
        match self {
            Form::Value(v) => FormView::Value(v@),
            Form::Failure(e) => FormView::Failure(e@),
            Form::If { condition, then_branch, else_branch } => FormView::If {
                condition: condition@,
                then_branch: then_branch@,
                else_branch: optional_view(*else_branch),
            },
            Form::Let { name, value } => FormView::Let { name: name@, value: value@ },
            Form::Lambda { params, body } => FormView::Lambda {
                params: names_of(params@),
                body: views_of(body@),
            },
            Form::Call { elements } => FormView::Call { elements: views_of(elements@) },
        }
    }
}

/// The message of an `if` with too few or too many parts.
pub open spec fn if_arity_message() -> Seq<char> {
    "if expects 2 or 3 arguments (condition then-expr [else-expr])"@
}

/// The message of a `let` that does not have two parts.
pub open spec fn let_arity_message() -> Seq<char> {
    "let expects 2 arguments (variable value)"@
}

/// The message of a `let` whose first part is no identifier.
pub open spec fn let_name_message() -> Seq<char> {
    "let expects an identifier as variable name"@
}

/// The message of a `lambda` without parameters or without a body.
pub open spec fn lambda_arity_message() -> Seq<char> {
    "lambda expects at least (params) body"@
}

/// The message of a `lambda` with a parameter that is no identifier.
pub open spec fn lambda_name_message() -> Seq<char> {
    "lambda parameters must be identifiers"@
}

/// The message of a `lambda` whose parameters are no list.
pub open spec fn lambda_list_message() -> Seq<char> {
    "lambda parameters must be a list"@
}

/// The form of a list that starts with `if`.
pub open spec fn if_form(elements: Seq<ExpressionView>) -> FormView {
    if elements.len() < 3 || elements.len() > 4 {
        FormView::Failure(EvalErrorView::WrongNumArgs(if_arity_message()))
    } else {
        FormView::If {
            condition: elements[1],
            then_branch: elements[2],
            else_branch: if elements.len() == 4 {
                Some(elements[3])
            } else {
                None
            },
        }
    }
}

/// The form of a list that starts with `let`.
pub open spec fn let_form(elements: Seq<ExpressionView>) -> FormView {
    if elements.len() != 3 {
        FormView::Failure(EvalErrorView::WrongNumArgs(let_arity_message()))
    } else {
        match elements[1] {
            ExpressionView::Identifier(name) => FormView::Let { name, value: elements[2] },
            _ => FormView::Failure(EvalErrorView::TypeError(let_name_message())),
        }
    }
}

/// Every parameter is an identifier.
pub open spec fn all_identifiers(params: Seq<ExpressionView>) -> bool {
    forall|i: int| 0 <= i < params.len() ==> params[i] is Identifier
}

/// The names of parameters that are identifiers, in order.
pub open spec fn identifiers_of(params: Seq<ExpressionView>) -> Seq<Seq<char>> {
    Seq::new(params.len(), |i: int| params[i]->Identifier_0)
}

/// The form of a list that starts with `lambda`.
pub open spec fn lambda_form(elements: Seq<ExpressionView>) -> FormView {
    if elements.len() < 3 {
        FormView::Failure(EvalErrorView::WrongNumArgs(lambda_arity_message()))
    } else {
        match elements[1] {
            ExpressionView::List(params) => if all_identifiers(params) {
                FormView::Lambda { params: identifiers_of(params), body: elements.skip(2) }
            } else {
                FormView::Failure(EvalErrorView::TypeError(lambda_name_message()))
            },
            _ => FormView::Failure(EvalErrorView::TypeError(lambda_list_message())),
        }
    }
}

/// The form of a list: `if`, `let` and `lambda` at its head make a special
/// form, an empty list is nil, and every other list is a call.
pub open spec fn list_form(elements: Seq<ExpressionView>) -> FormView {
    if elements.len() == 0 {
        FormView::Value(ValueView::Nil)
    } else {
        match elements[0] {
            ExpressionView::Identifier(word) => if word == "if"@ {
                if_form(elements)
            } else if word == "let"@ {
                let_form(elements)
            } else if word == "lambda"@ {
                lambda_form(elements)
            } else {
                FormView::Call { elements }
            },
            _ => FormView::Call { elements },
        }
    }
}

/// The form of an expression that is evaluated in `env`. A literal is its own
/// value, whatever the scopes hold; an identifier is what it resolves to from
/// `env`.
pub open spec fn form_of(expr: ExpressionView, env: usize, scopes: Seq<ScopeView>) -> FormView {
    match expr {
        ExpressionView::Number(n) => FormView::Value(ValueView::Number(n)),
        ExpressionView::String(s) => FormView::Value(ValueView::String(s)),
        ExpressionView::Boolean(b) => FormView::Value(ValueView::Boolean(b)),
        ExpressionView::Identifier(name) => match lookup(scopes, env as int, name) {
            Some(v) => FormView::Value(v),
            None => FormView::Failure(EvalErrorView::UndefinedVariable(name)),
        },
        ExpressionView::List(elements) => list_form(elements),
    }
}

fn read_if(elements: &Vec<Expression>) -> (r: Form)
    ensures
        r@ == if_form(views_of(elements@)),
{
    if elements.len() < 3 || elements.len() > 4 {
        return Form::Failure(
            EvalError::WrongNumArgs(
                String::from_str("if expects 2 or 3 arguments (condition then-expr [else-expr])"),
            ),
        );
    }
    let else_branch = if elements.len() == 4 {
        Some(elements[3].clone())
    } else {
        None
    };
    Form::If { condition: elements[1].clone(), then_branch: elements[2].clone(), else_branch }
}

fn read_let(elements: &Vec<Expression>) -> (r: Form)
    ensures
        r@ == let_form(views_of(elements@)),
{
    if elements.len() != 3 {
        return Form::Failure(
            EvalError::WrongNumArgs(String::from_str("let expects 2 arguments (variable value)")),
        );
    }
    match &elements[1] {
        Expression::Identifier(name) => Form::Let {
            name: name.clone(),
            value: elements[2].clone(),
        },
        _ => Form::Failure(
            EvalError::TypeError(String::from_str("let expects an identifier as variable name")),
        ),
    }
}

fn read_parameters(params: &Vec<Expression>) -> (r: Option<Vec<String>>)
    ensures
        all_identifiers(views_of(params@)) ==> (r matches Some(names) && names_of(names@)
            == identifiers_of(views_of(params@))),
        !all_identifiers(views_of(params@)) ==> r is None,
{
    let mut names: Vec<String> = Vec::new();
    let mut i: usize = 0;
    while i < params.len()
        invariant
            i <= params.len(),
            names@.len() == i,
            forall|j: int|
                0 <= j < i ==> views_of(params@)[j] == ExpressionView::Identifier(names@[j]@),
        decreases params.len() - i,
    {
        match &params[i] {
            Expression::Identifier(name) => {
                names.push(name.clone());
            },
            _ => {
                assert(!(views_of(params@)[i as int] is Identifier));
                return None;
            },
        }
        i += 1;
    }
    assert(names_of(names@) =~= identifiers_of(views_of(params@)));
    Some(names)
}

fn read_lambda(elements: &Vec<Expression>) -> (r: Form)
    ensures
        r@ == lambda_form(views_of(elements@)),
{
    if elements.len() < 3 {
        return Form::Failure(
            EvalError::WrongNumArgs(String::from_str("lambda expects at least (params) body")),
        );
    }
    match &elements[1] {
        Expression::List(params) => {
            proof {
                lemma_list_view(*params);
            }
            match read_parameters(params) {
                Some(names) => {
                    let mut body: Vec<Expression> = Vec::new();
                    let mut i: usize = 2;
                    while i < elements.len()
                        invariant
                            2 <= i <= elements.len(),
                            body@.len() == i - 2,
                            forall|j: int| 0 <= j < i - 2 ==> body@[j]@ == elements@[j + 2]@,
                        decreases elements.len() - i,
                    {
                        body.push(elements[i].clone());
                        i += 1;
                    }
                    assert(views_of(body@) =~= views_of(elements@).skip(2));
                    Form::Lambda { params: names, body }
                },
                None => Form::Failure(
                    EvalError::TypeError(String::from_str("lambda parameters must be identifiers")),
                ),
            }
        },
        _ => Form::Failure(
            EvalError::TypeError(String::from_str("lambda parameters must be a list")),
        ),
    }
}

fn read_list(elements: &Vec<Expression>) -> (r: Form)
    ensures
        r@ == list_form(views_of(elements@)),
{
    if elements.len() == 0 {
        return Form::Value(Value::Nil);
    }
    match &elements[0] {
        Expression::Identifier(word) => {
            if same_text(word.as_str(), "if") {
                read_if(elements)
            } else if same_text(word.as_str(), "let") {
                read_let(elements)
            } else if same_text(word.as_str(), "lambda") {
                read_lambda(elements)
            } else {
                Form::Call { elements: clone_expressions(elements) }
            }
        },
        _ => Form::Call { elements: clone_expressions(elements) },
    }
}

/// Finds what an expression asks for when it is evaluated in `scope`:
/// literals, identifiers and the empty list give their value at once, the
/// special forms are checked and taken apart, and every other list is a
/// call.
pub fn dispatch(expr: &Expression, scope: usize, environment: &Environment) -> (r: Form)
    ensures
        r@ == form_of(expr@, scope, environment@),
{
    match expr {
        Expression::Number(n) => Form::Value(Value::Number(*n)),
        Expression::String(s) => Form::Value(Value::String(s.clone())),
        Expression::Boolean(b) => Form::Value(Value::Boolean(*b)),
        Expression::Identifier(name) => match environment.get(scope, name.as_str()) {
            Ok(v) => Form::Value(v),
            Err(e) => Form::Failure(e),
        },
        Expression::List(elements) => {
            proof {
                lemma_list_view(*elements);
            }
            read_list(elements)
        },
    }
}

} // verus!
