//! The syntax tree that the parser builds and the evaluator walks.

use vstd::prelude::*;
use crate::number::Number;

verus! {

/// One node of a program: an atom or a parenthesized list of nodes.
#[derive(Debug, PartialEq)]
pub enum Expression {
    Number(Number),
    String(String),
    Boolean(bool),
    Identifier(String),
    List(Vec<Expression>),
}

/// What an [`Expression`] stands for: the same tree over sequences.
pub enum ExpressionView {
    Number(Number),
    String(Seq<char>),
    Boolean(bool),
    Identifier(Seq<char>),
    List(Seq<ExpressionView>),
}

impl Expression {
    /// The tree that the expression stands for.
    pub open spec fn model(&self) -> ExpressionView
        decreases self,
    {
        match self {
            Expression::Number(n) => ExpressionView::Number(*n),
            Expression::String(s) => ExpressionView::String(s@),
            Expression::Boolean(b) => ExpressionView::Boolean(*b),
            Expression::Identifier(s) => ExpressionView::Identifier(s@),
            Expression::List(items) => ExpressionView::List(
                Seq::new(
                    items@.len(),
                    |i: int|
                        if 0 <= i < items@.len() {
                            items@[i].model()
                        } else {
                            ExpressionView::Boolean(false)
                        },
                ),
            ),
        }
    }
}

impl View for Expression {
    type V = ExpressionView;

    open spec fn view(&self) -> ExpressionView {
        self.model()
    }
}

/// The views of a sequence of expressions, in order.
pub open spec fn views_of(items: Seq<Expression>) -> Seq<ExpressionView> {
    Seq::new(items.len(), |i: int| items[i]@)
}

/// A list node stands for the list of what its elements stand for.
pub proof fn lemma_list_view(items: Vec<Expression>)
    ensures
        Expression::List(items)@ == ExpressionView::List(views_of(items@)),
{
    assert(Expression::List(items)@->List_0 =~= views_of(items@));
}

/// A copy of each expression of `items`, in order.
pub fn clone_expressions(items: &Vec<Expression>) -> (r: Vec<Expression>)
    ensures
        views_of(r@) == views_of(items@),
    decreases items,
{
    let mut out: Vec<Expression> = Vec::new();
    let mut i: usize = 0;
    while i < items.len()
        invariant
            i <= items.len(),
            out.len() == i,
            forall|j: int| 0 <= j < i ==> out@[j]@ == items@[j]@,
        decreases items.len() - i,
    {
        assert(decreases_to!(items => items@));
        assert(decreases_to!(items@ => items@[i as int]));
        let copy = items[i].clone();
        out.push(copy);
        i += 1;
    }
    assert(views_of(out@) =~= views_of(items@));
    out
}

impl Clone for Expression {
    /// A deep copy: it stands for the same tree.
    fn clone(&self) -> (r: Expression)
        ensures
            r@ == self@,
        decreases self,
    {
        match self {
            Expression::Number(n) => Expression::Number(*n),
            Expression::String(s) => Expression::String(s.clone()),
            Expression::Boolean(b) => Expression::Boolean(*b),
            Expression::Identifier(s) => Expression::Identifier(s.clone()),
            Expression::List(items) => {
                assert(decreases_to!(*self => self->List_0));
                let copy = clone_expressions(items);
                proof {
                    lemma_list_view(copy);
                    lemma_list_view(*items);
                }
                Expression::List(copy)
            },
        }
    }
}

} // verus!
