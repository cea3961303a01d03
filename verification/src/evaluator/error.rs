//! The failures that evaluation reports.

use vstd::prelude::*;
use crate::evaluator::value::{
    Piece, PieceView, Value, ValueView, inspect, inspected, piece_views,
};

verus! {

/// Why an evaluation failed. A failure ends the evaluation at once.
#[derive(Debug, PartialEq)]
pub enum EvalError {
    /// No scope of the chain binds the name.
    UndefinedVariable(String),
    /// A value or a form of the wrong kind, with what was expected.
    TypeError(String),
    /// A special form, a builtin or a closure got the wrong number of
    /// arguments.
    WrongNumArgs(String),
    /// The head of a call evaluated to this value, which is no function.
    NotCallable(Value),
    /// A special form that is malformed in another way.
    SpecialFormError(String),
    /// A division by zero.
    DivisionByZero,
}

/// What an [`EvalError`] stands for.
pub enum EvalErrorView {
    UndefinedVariable(Seq<char>),
    TypeError(Seq<char>),
    WrongNumArgs(Seq<char>),
    NotCallable(ValueView),
    SpecialFormError(Seq<char>),
    DivisionByZero,
}

impl View for EvalError {
    type V = EvalErrorView;

    open spec fn view(&self) -> EvalErrorView {
        match self {
            EvalError::UndefinedVariable(s) => EvalErrorView::UndefinedVariable(s@),
            EvalError::TypeError(s) => EvalErrorView::TypeError(s@),
            EvalError::WrongNumArgs(s) => EvalErrorView::WrongNumArgs(s@),
            EvalError::NotCallable(v) => EvalErrorView::NotCallable(v@),
            EvalError::SpecialFormError(s) => EvalErrorView::SpecialFormError(s@),
            EvalError::DivisionByZero => EvalErrorView::DivisionByZero,
        }
    }
}

impl Clone for EvalError {
    fn clone(&self) -> (r: EvalError)
        ensures
            r@ == self@,
    {
        match self {
            EvalError::UndefinedVariable(s) => EvalError::UndefinedVariable(s.clone()),
            EvalError::TypeError(s) => EvalError::TypeError(s.clone()),
            EvalError::WrongNumArgs(s) => EvalError::WrongNumArgs(s.clone()),
            EvalError::NotCallable(v) => EvalError::NotCallable(v.clone()),
            EvalError::SpecialFormError(s) => EvalError::SpecialFormError(s.clone()),
            EvalError::DivisionByZero => EvalError::DivisionByZero,
        }
    }
}

/// What the result of an evaluation stands for.
pub open spec fn outcome_view(r: Result<Value, EvalError>) -> Result<ValueView, EvalErrorView> {
    match r {
        Ok(v) => Ok(v@),
        Err(e) => Err(e@),
    }
}

/// A copy of the result of an evaluation.
pub fn clone_outcome(r: &Result<Value, EvalError>) -> (copy: Result<Value, EvalError>)
    ensures
        outcome_view(copy) == outcome_view(*r),
{
    match r {
        Ok(v) => Ok(v.clone()),
        Err(e) => Err(e.clone()),
    }
}

/// The line that tells of an error: what went wrong, then the name, the
/// message or the value that the error holds. The value that could not be
/// called is shown with its kind.
pub open spec fn described(error: EvalErrorView) -> Seq<PieceView> {
    match error {
        EvalErrorView::UndefinedVariable(name) => seq![
            PieceView::Text("Undefined variable: '"@ + name + "'"@),
        ],
        EvalErrorView::TypeError(message) => seq![PieceView::Text("Type error: "@ + message)],
        EvalErrorView::WrongNumArgs(message) => seq![
            PieceView::Text("Wrong number of arguments: "@ + message),
        ],
        EvalErrorView::NotCallable(value) => seq![
            PieceView::Text("Not a callable function: "@),
        ] + inspected(value),
        EvalErrorView::SpecialFormError(message) => seq![
            PieceView::Text("Special form error: "@ + message),
        ],
        EvalErrorView::DivisionByZero => seq![PieceView::Text("Division by zero"@)],
    }
}

impl EvalError {
    /// The line that tells of the error, as pieces to write in order.
    pub fn describe(&self) -> (r: Vec<Piece>)
        ensures
            piece_views(r@) == described(self@),
    {
        let mut pieces: Vec<Piece> = Vec::new();
        match self {
            EvalError::UndefinedVariable(name) => {
                let mut text = String::from_str("Undefined variable: '");
                text.append(name.as_str());
                text.append("'");
                pieces.push(Piece::Text(text));
            },
            EvalError::TypeError(message) => {
                let mut text = String::from_str("Type error: ");
                text.append(message.as_str());
                pieces.push(Piece::Text(text));
            },
            EvalError::WrongNumArgs(message) => {
                let mut text = String::from_str("Wrong number of arguments: ");
                text.append(message.as_str());
                pieces.push(Piece::Text(text));
            },
            EvalError::NotCallable(value) => {
                pieces = inspect(value);
                pieces.insert(0, Piece::Text(String::from_str("Not a callable function: ")));
            },
            EvalError::SpecialFormError(message) => {
                let mut text = String::from_str("Special form error: ");
                text.append(message.as_str());
                pieces.push(Piece::Text(text));
            },
            EvalError::DivisionByZero => {
                pieces.push(Piece::Text(String::from_str("Division by zero")));
            },
        }
        assert(piece_views(pieces@) =~= described(self@));
        pieces
    }
}

} // verus!
