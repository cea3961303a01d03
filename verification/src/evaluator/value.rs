//! Runtime values.

use vstd::prelude::*;
use crate::ast::{Expression, ExpressionView, views_of};
use crate::number::Number;

verus! {

/// The native procedures that every global scope starts with.
#[derive(Clone, Copy, Debug, PartialEq, Eq)]
pub enum Builtin {
    Add,
    Subtract,
    Multiply,
    Divide,
    Equal,
    NotEqual,
    Greater,
    Less,
    GreaterOrEqual,
    LessOrEqual,
    Print,
}

/// A reference to something that can be called. Two references are the same
/// procedure exactly when they are equal.
#[derive(Clone, Copy, Debug, PartialEq, Eq)]
pub enum Callable {
    /// A native procedure of the library.
    Builtin(Builtin),
    /// A native procedure of the host, under the number that the host gave
    /// it.
    Native(usize),
    /// The closure with the given index in the evaluator that made it.
    Lambda(usize),
}

/// The result of evaluating an expression.
#[derive(Debug, PartialEq)]
pub enum Value {
    Number(Number),
    String(String),
    Boolean(bool),
    Nil,
    Function(Callable),
}

/// What a [`Value`] stands for.
pub enum ValueView {
    Number(Number),
    String(Seq<char>),
    Boolean(bool),
    Nil,
    Function(Callable),
}

impl View for Value {
    type V = ValueView;

    open spec fn view(&self) -> ValueView {
        match self {
            Value::Number(n) => ValueView::Number(*n),
            Value::String(s) => ValueView::String(s@),
            Value::Boolean(b) => ValueView::Boolean(*b),
            Value::Nil => ValueView::Nil,
            Value::Function(f) => ValueView::Function(*f),
        }
    }
}

/// The views of a sequence of values, in order.
pub open spec fn value_views(items: Seq<Value>) -> Seq<ValueView> {
    Seq::new(items.len(), |i: int| items[i]@)
}

impl ValueView {
    /// Equality as the language sees it: numbers by numeric equality, strings
    /// by their characters, booleans by value, nil only with nil, and a
    /// function only with the very same function. Values of two kinds are
    /// never equal.
    pub open spec fn same_as(self, other: ValueView) -> bool {
        match (self, other) {
            (ValueView::Number(a), ValueView::Number(b)) => a.equals(b),
            (ValueView::String(a), ValueView::String(b)) => a == b,
            (ValueView::Boolean(a), ValueView::Boolean(b)) => a == b,
            (ValueView::Nil, ValueView::Nil) => true,
            (ValueView::Function(a), ValueView::Function(b)) => a == b,
            _ => false,
        }
    }

    /// The one value that `if` takes for true.
    pub open spec fn is_true(self) -> bool {
        self == ValueView::Boolean(true)
    }
}

impl Builtin {
    /// Whether two builtins are the same one.
    pub fn same(self, other: Builtin) -> (r: bool)
        ensures
            r == (self == other),
    {
        match (self, other) {
            (Builtin::Add, Builtin::Add) => true,
            (Builtin::Subtract, Builtin::Subtract) => true,
            (Builtin::Multiply, Builtin::Multiply) => true,
            (Builtin::Divide, Builtin::Divide) => true,
            (Builtin::Equal, Builtin::Equal) => true,
            (Builtin::NotEqual, Builtin::NotEqual) => true,
            (Builtin::Greater, Builtin::Greater) => true,
            (Builtin::Less, Builtin::Less) => true,
            (Builtin::GreaterOrEqual, Builtin::GreaterOrEqual) => true,
            (Builtin::LessOrEqual, Builtin::LessOrEqual) => true,
            (Builtin::Print, Builtin::Print) => true,
            _ => false,
        }
    }
}

impl Callable {
    /// Whether two references name the same procedure.
    pub fn same(self, other: Callable) -> (r: bool)
        ensures
            r == (self == other),
    {
        match (self, other) {
            (Callable::Builtin(a), Callable::Builtin(b)) => a.same(b),
            (Callable::Native(a), Callable::Native(b)) => a == b,
            (Callable::Lambda(a), Callable::Lambda(b)) => a == b,
            _ => false,
        }
    }
}

impl Clone for Value {
    fn clone(&self) -> (r: Value)
        ensures
            r@ == self@,
    {
        match self {
            Value::Number(n) => Value::Number(*n),
            Value::String(s) => Value::String(s.clone()),
            Value::Boolean(b) => Value::Boolean(*b),
            Value::Nil => Value::Nil,
            Value::Function(f) => Value::Function(*f),
        }
    }
}

impl Value {
    /// Equality as the language sees it.
    pub fn same_as(&self, other: &Value) -> (r: bool)
        ensures
            r == self@.same_as(other@),
    {
        match (self, other) {
            (Value::Number(a), Value::Number(b)) => a.equals(*b),
            (Value::String(a), Value::String(b)) => *a == *b,
            (Value::Boolean(a), Value::Boolean(b)) => *a == *b,
            (Value::Nil, Value::Nil) => true,
            (Value::Function(a), Value::Function(b)) => a.same(*b),
            _ => false,
        }
    }

    /// Whether two values are the same in every respect: of one kind, with
    /// the same characters, the same boolean, the same function, and numbers
    /// with the same bits, so that the two zeros differ and a NaN is the same
    /// as itself.
    pub fn identical(&self, other: &Value) -> (r: bool)
        ensures
            r == (self@ == other@),
    {
        match (self, other) {
            (Value::Number(a), Value::Number(b)) => a.bits == b.bits,
            (Value::String(a), Value::String(b)) => *a == *b,
            (Value::Boolean(a), Value::Boolean(b)) => *a == *b,
            (Value::Nil, Value::Nil) => true,
            (Value::Function(a), Value::Function(b)) => a.same(*b),
            _ => false,
        }
    }

    /// Whether `if` takes the value for true: only the boolean true is.
    pub fn is_true(&self) -> (r: bool)
        ensures
            r == self@.is_true(),
    {
        match self {
            Value::Boolean(b) => *b,
            _ => false,
        }
    }
}

/// A copy of each value of `items`, in order.
pub fn clone_values(items: &Vec<Value>) -> (r: Vec<Value>)
    ensures
        value_views(r@) == value_views(items@),
{
    let mut out: Vec<Value> = Vec::new();
    let mut i: usize = 0;
    while i < items.len()
        invariant
            i <= items.len(),
            out.len() == i,
            forall|j: int| 0 <= j < i ==> out@[j]@ == items@[j]@,
        decreases items.len() - i,
    {
        out.push(items[i].clone());
        i += 1;
    }
    assert(value_views(out@) =~= value_views(items@));
    out
}

/// A closure: the parameter names and the body of a `lambda` form, with the
/// scope in which the form was evaluated.
#[derive(Debug, PartialEq)]
pub struct Lambda {
    pub params: Vec<String>,
    pub body: Vec<Expression>,
    pub env: usize,
}

/// What a [`Lambda`] stands for.
pub struct LambdaView {
    pub params: Seq<Seq<char>>,
    pub body: Seq<ExpressionView>,
    pub env: usize,
}

/// The characters of each string, in order.
pub open spec fn names_of(names: Seq<String>) -> Seq<Seq<char>> {
    Seq::new(names.len(), |i: int| names[i]@)
}

impl View for Lambda {
    type V = LambdaView;

    open spec fn view(&self) -> LambdaView {
        LambdaView { params: names_of(self.params@), body: views_of(self.body@), env: self.env }
    }
}

/// The views of a sequence of closures, in order.
pub open spec fn lambda_views(items: Seq<Lambda>) -> Seq<LambdaView> {
    Seq::new(items.len(), |i: int| items[i]@)
}

/// A part of a line of output. The host writes text as it stands; how a
/// number or a quoted string is written is the host's to say.
#[derive(Debug, PartialEq)]
pub enum Piece {
    /// Text, written as it stands.
    Text(String),
    /// A number, written as `Display` formats a binary64 value: in its
    /// shortest decimal form.
    Number(Number),
    /// A number, written as `Debug` formats a binary64 value: a whole number
    /// keeps a point and a zero behind it.
    Inspected(Number),
    /// A string, written as `Debug` formats a string: between double quotes
    /// and with escapes.
    Quoted(String),
}

/// What a [`Piece`] stands for.
pub enum PieceView {
    Text(Seq<char>),
    Number(Number),
    Inspected(Number),
    Quoted(Seq<char>),
}

impl View for Piece {
    type V = PieceView;

    open spec fn view(&self) -> PieceView {
        match self {
            Piece::Text(s) => PieceView::Text(s@),
            Piece::Number(n) => PieceView::Number(*n),
            Piece::Inspected(n) => PieceView::Inspected(*n),
            Piece::Quoted(s) => PieceView::Quoted(s@),
        }
    }
}

/// The views of a sequence of pieces, in order.
pub open spec fn piece_views(items: Seq<Piece>) -> Seq<PieceView> {
    Seq::new(items.len(), |i: int| items[i]@)
}

impl Clone for Piece {
    fn clone(&self) -> (r: Piece)
        ensures
            r@ == self@,
    {
        match self {
            Piece::Text(s) => Piece::Text(s.clone()),
            Piece::Number(n) => Piece::Number(*n),
            Piece::Inspected(n) => Piece::Inspected(*n),
            Piece::Quoted(s) => Piece::Quoted(s.clone()),
        }
    }
}

/// A copy of each piece of `items`, in order.
pub fn clone_pieces(items: &Vec<Piece>) -> (r: Vec<Piece>)
    ensures
        piece_views(r@) == piece_views(items@),
{
    let mut out: Vec<Piece> = Vec::new();
    let mut i: usize = 0;
    while i < items.len()
        invariant
            i <= items.len(),
            out.len() == i,
            forall|j: int| 0 <= j < i ==> out@[j]@ == items@[j]@,
        decreases items.len() - i,
    {
        out.push(items[i].clone());
        i += 1;
    }
    assert(piece_views(out@) =~= piece_views(items@));
    out
}

/// The first `count` words, with one space between neighbours.
pub open spec fn joined(words: Seq<Seq<char>>, count: int) -> Seq<char>
    decreases count,
{
    if count <= 0 {
        Seq::empty()
    } else if count == 1 {
        words[0]
    } else {
        joined(words, count - 1) + " "@ + words[count - 1]
    }
}

/// The parameter names of the closure with the given index; none if there is
/// no such closure.
pub open spec fn params_of(lambdas: Seq<LambdaView>, id: usize) -> Seq<Seq<char>> {
    if id < lambdas.len() {
        lambdas[id as int].params
    } else {
        Seq::empty()
    }
}

/// How a value is shown. A function shows a placeholder, a closure with its
/// parameter names, and never the scope it closes over.
pub open spec fn shown(value: ValueView, lambdas: Seq<LambdaView>) -> PieceView {
    match value {
        ValueView::Number(n) => PieceView::Number(n),
        ValueView::String(s) => PieceView::Text(s),
        ValueView::Boolean(b) => if b {
            PieceView::Text("true"@)
        } else {
            PieceView::Text("false"@)
        },
        ValueView::Nil => PieceView::Text("nil"@),
        ValueView::Function(Callable::Builtin(_)) => PieceView::Text("#<builtin-function>"@),
        ValueView::Function(Callable::Native(_)) => PieceView::Text("#<builtin-function>"@),
        ValueView::Function(Callable::Lambda(id)) => PieceView::Text(
            "#<lambda ("@ + joined(params_of(lambdas, id), params_of(lambdas, id).len() as int)
                + ")>"@,
        ),
    }
}

fn join_names(names: &Vec<String>) -> (r: String)
    ensures
        r@ == joined(names_of(names@), names@.len() as int),
{
    let mut out = String::new();
    let mut i: usize = 0;
    while i < names.len()
        invariant
            i <= names.len(),
            out@ == joined(names_of(names@), i as int),
        decreases names.len() - i,
    {
        if i > 0 {
            out.append(" ");
        }
        out.append(names[i].as_str());
        assert(out@ =~= joined(names_of(names@), i + 1)) by {
            if i == 0 {
                assert(joined(names_of(names@), 0) =~= Seq::<char>::empty());
            }
        }
        i += 1;
    }
    out
}

/// Shows a value; `lambdas` are the closures of the evaluator that made it.
pub fn show(value: &Value, lambdas: &Vec<Lambda>) -> (r: Piece)
    ensures
        r@ == shown(value@, lambda_views(lambdas@)),
{
    match value {
        Value::Number(n) => Piece::Number(*n),
        Value::String(s) => Piece::Text(s.clone()),
        Value::Boolean(b) => if *b {
            Piece::Text(String::from_str("true"))
        } else {
            Piece::Text(String::from_str("false"))
        },
        Value::Nil => Piece::Text(String::from_str("nil")),
        Value::Function(Callable::Builtin(_)) => Piece::Text(
            String::from_str("#<builtin-function>"),
        ),
        Value::Function(Callable::Native(_)) => Piece::Text(
            String::from_str("#<builtin-function>"),
        ),
        Value::Function(Callable::Lambda(id)) => {
            let mut out = String::from_str("#<lambda (");
            if *id < lambdas.len() {
                out.append(join_names(&lambdas[*id].params).as_str());
            } else {
                assert(joined(Seq::<Seq<char>>::empty(), 0) =~= Seq::<char>::empty());
                assert(out@ + Seq::<char>::empty() =~= out@);
            }
            out.append(")>");
            Piece::Text(out)
        },
    }
}

/// How a value is shown to someone who looks for a fault: the kind of the
/// value, and in parentheses what it holds, a number with its point and a
/// string between quotes.
pub open spec fn inspected(value: ValueView) -> Seq<PieceView> {
    match value {
        ValueView::Number(n) => seq![
            PieceView::Text("Number("@),
            PieceView::Inspected(n),
            PieceView::Text(")"@),
        ],
        ValueView::String(s) => seq![
            PieceView::Text("String("@),
            PieceView::Quoted(s),
            PieceView::Text(")"@),
        ],
        ValueView::Boolean(b) => if b {
            seq![PieceView::Text("Boolean(true)"@)]
        } else {
            seq![PieceView::Text("Boolean(false)"@)]
        },
        ValueView::Nil => seq![PieceView::Text("Nil"@)],
        ValueView::Function(Callable::Lambda(_)) => seq![PieceView::Text("Function(#<lambda>)"@)],
        ValueView::Function(_) => seq![PieceView::Text("Function(#<builtin-function>)"@)],
    }
}

/// Shows a value to someone who looks for a fault.
pub fn inspect(value: &Value) -> (r: Vec<Piece>)
    ensures
        piece_views(r@) == inspected(value@),
{
    let mut pieces: Vec<Piece> = Vec::new();
    match value {
        Value::Number(n) => {
            pieces.push(Piece::Text(String::from_str("Number(")));
            pieces.push(Piece::Inspected(*n));
            pieces.push(Piece::Text(String::from_str(")")));
        },
        Value::String(s) => {
            pieces.push(Piece::Text(String::from_str("String(")));
            pieces.push(Piece::Quoted(s.clone()));
            pieces.push(Piece::Text(String::from_str(")")));
        },
        Value::Boolean(b) => {
            if *b {
                pieces.push(Piece::Text(String::from_str("Boolean(true)")));
            } else {
                pieces.push(Piece::Text(String::from_str("Boolean(false)")));
            }
        },
        Value::Nil => {
            pieces.push(Piece::Text(String::from_str("Nil")));
        },
        Value::Function(Callable::Lambda(_)) => {
            pieces.push(Piece::Text(String::from_str("Function(#<lambda>)")));
        },
        Value::Function(_) => {
            pieces.push(Piece::Text(String::from_str("Function(#<builtin-function>)")));
        },
    }
    assert(piece_views(pieces@) =~= inspected(value@));
    pieces
}

} // verus!
